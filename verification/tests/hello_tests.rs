use tic_tac_toe::hello::hello;

#[test]
fn hello_world() {
    assert_eq!("Hello, World!", hello());
}
