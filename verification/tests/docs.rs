use hidl::docs::lower;

#[test]
fn strip() {
    let doc = "\r\n         * Remove the object from the object list \r\n         *\r\n         * Future attempts to make calls on the object ID **MUST** fail.\r\n         *\r\n         * The resources associated with the object may be released, but the \r\n         * object ID may not be reused, we have plenty of them\r\n         *\r\n         * It is an error to remove the root singleton (id 0)\r\n         ";
    let lowered = "Remove the object from the object list\n\nFuture attempts to make calls on the object ID **MUST** fail.\n\nThe resources associated with the object may be released, but the\nobject ID may not be reused, we have plenty of them\n\nIt is an error to remove the root singleton (id 0)\n";
    assert_eq!(lower(doc), lowered);
}

#[test]
fn only_one_space_goes_after_the_star() {
    assert_eq!(lower("*   indented"), "  indented\n");
    assert_eq!(lower("* indented"), "indented\n");
    assert_eq!(lower("*indented"), "indented\n");
}

#[test]
fn only_one_star_goes() {
    assert_eq!(lower("** bold **"), "* bold **\n");
    assert_eq!(lower("* * item"), "* item\n");
}

#[test]
fn a_line_without_star_loses_nothing_inside() {
    assert_eq!(lower("plain  text"), "plain  text\n");
    assert_eq!(lower("   plain"), "plain\n");
}

#[test]
fn empty_and_blank_comments_have_no_lines() {
    assert_eq!(lower(""), "");
    assert_eq!(lower("  \n\t\r\n  "), "");
}

#[test]
fn every_line_ends_in_a_line_feed() {
    assert_eq!(lower("a"), "a\n");
    assert_eq!(lower("a\nb"), "a\nb\n");
    assert_eq!(lower("a\n\nb"), "a\n\nb\n");
    assert_eq!(lower("a\n"), "a\n");
}

#[test]
fn lines_are_trimmed_before_the_star_goes() {
    assert_eq!(lower("  * a  \n\t*\tb\t"), "a\n\tb\n");
    assert_eq!(lower("*\n* a"), "\na\n");
}

#[test]
fn carriage_returns_go_with_the_line_ends() {
    assert_eq!(lower("* a\r\n* b\r\n"), "a\nb\n");
    assert_eq!(lower("a\rb"), "a\rb\n");
}

#[test]
fn white_space_is_what_unicode_says() {
    assert_eq!(lower("\u{a0}\u{2003}a\u{3000}\u{85}"), "a\n");
    assert_eq!(lower("\u{200b}a"), "\u{200b}a\n");
    assert_eq!(lower("*\u{a0}a"), "\u{a0}a\n");
}

#[test]
fn a_settled_comment_is_normalised_once_and_for_all() {
    let raw = " * First line\n * second line\n *\n * last line";
    let once = lower(raw);
    assert_eq!(once, "First line\nsecond line\n\nlast line\n");
    assert_eq!(lower(&once), once);
}

#[test]
fn an_indented_comment_loses_more_the_second_time() {
    let once = lower("*   indented");
    assert_eq!(lower(&once), "indented\n");
}
