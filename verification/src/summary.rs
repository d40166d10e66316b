//! Single-line summaries of publishable items.

use vstd::prelude::*;

verus! {

/// Something that can describe itself in one line of text.
pub trait Summarizable {
    /// The text `summary` returns, as a sequence of characters.
    spec fn spec_summary(&self) -> Seq<char>;

    /// The one-line summary.
    fn summary(&self) -> (text: String)
        ensures
            text@ == self.spec_summary(),
    ;
}

/// A news article: headline, body and byline.
pub struct NewsArticle {
    pub headline: String,
    pub content: String,
    pub byline: String,
}

impl Summarizable for NewsArticle {
    open spec fn spec_summary(&self) -> Seq<char> {
        "News: "@ + self.headline@ + ", Content: "@ + self.content@ + ", Byline: "@
            + self.byline@
    }

    fn summary(&self) -> (text: String) {
        let mut text = String::from_str("News: ");
        text.append(self.headline.as_str());
        text.append(", Content: ");
        text.append(self.content.as_str());
        text.append(", Byline: ");
        text.append(self.byline.as_str());
        proof {
            assert(text@ =~= self.spec_summary());
        }
        text
    }
}

/// A short post by one user.
pub struct Tweet {
    pub username: String,
    pub content: String,
}

impl Summarizable for Tweet {
    open spec fn spec_summary(&self) -> Seq<char> {
        "@"@ + self.username@ + ": "@ + self.content@
    }

    fn summary(&self) -> (text: String) {
        let mut text = String::from_str("@");
        text.append(self.username.as_str());
        text.append(": ");
        text.append(self.content.as_str());
        proof {
            assert(text@ =~= self.spec_summary());
        }
        text
    }
}

} // verus!
