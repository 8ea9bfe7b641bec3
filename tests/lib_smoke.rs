use phobos::test_fn;

#[test]
fn it_works() {
    assert!(test_fn())
}
