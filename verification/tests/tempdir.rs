use mkcbz::tempdir::TempDir;

#[test]
fn path_is_the_given_path() {
    let dir = TempDir::at(b"/tmp/mkcbz-0000abcd".to_vec());
    assert_eq!(dir.path(), b"/tmp/mkcbz-0000abcd");
}
