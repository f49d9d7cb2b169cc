use veri::hello;

#[test]
fn test_hello() {
    assert_eq!(hello(), "veri-core: hello");
}
