use hidl::vfs::File;

#[test]
fn a_new_file_is_empty() {
    assert_eq!(File::new().contents(), &Vec::<u8>::new());
    assert_eq!(File::default().contents(), &Vec::<u8>::new());
}

#[test]
fn write_appends_all_the_bytes() {
    let mut f = File::new();
    assert_eq!(f.write(b"abc"), 3);
    assert_eq!(f.write(b""), 0);
    assert_eq!(f.write(b"de"), 2);
    f.flush();
    assert_eq!(f.contents(), &b"abcde".to_vec());
}

#[test]
fn a_file_matches_its_own_bytes_only() {
    let mut f = File::new();
    assert!(f.matches(b""));
    f.write(b"abc");
    assert!(f.matches(b"abc"));
    assert!(!f.matches(b"abd"));
    assert!(!f.matches(b"ab"));
    assert!(!f.matches(b"abcd"));
    assert!(!f.matches(b""));
}
