use tic_tac_toe::player::Player;
use tic_tac_toe::summary::{NewsArticle, Summarizable, Tweet};

#[test]
fn test_news_article_summary() {
    let article = NewsArticle {
        headline: String::from("Rust is awesome!"),
        content: String::from("Rust provides memory safety without garbage collection."),
        byline: String::from("this is a byline"),
    };

    assert_eq!(article.summary(), "News: Rust is awesome!, Content: Rust provides memory safety without garbage collection., Byline: this is a byline");
}

#[test]
fn test_tweet_summary() {
    let tweet = Tweet {
        username: String::from("rustlang"),
        content: String::from("Check out the new features in Rust!"),
    };

    assert_eq!(tweet.summary(), "@rustlang: Check out the new features in Rust!");
}

#[test]
fn test_player_new() {
    let player = Player::new(String::from("Ann"), 'X');

    assert_eq!(player.name, "Ann");
    assert_eq!(player.marker, 'X');
}
