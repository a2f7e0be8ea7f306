use landed::hg::Revision;

fn rev(desc: &str) -> Revision {
    Revision { description: desc.to_string(), hash: "0123456789abcdef".to_string() }
}

#[test]
fn subject_is_first_line() {
    let r = rev("Bug 7: frob the widget\n\nLonger explanation.");
    assert_eq!(r.subject(), Some("Bug 7: frob the widget"));
}

#[test]
fn subject_of_single_line() {
    let r = rev("just one line");
    assert_eq!(r.subject(), Some("just one line"));
}

#[test]
fn subject_of_empty_description() {
    let r = rev("");
    assert_eq!(r.subject(), Some(""));
}

#[test]
fn bug_second_token_is_identifier() {
    let r = rev("Bug 42: fix thing");
    let b = r.bug().expect("subject references a bug");
    assert_eq!(b.id, "42:");
}

#[test]
fn bug_keyword_is_case_insensitive() {
    assert_eq!(rev("BUG 1234").bug().unwrap().id, "1234");
    assert_eq!(rev("bug 1234").bug().unwrap().id, "1234");
    assert_eq!(rev("bUg 1234").bug().unwrap().id, "1234");
}

#[test]
fn bug_ignores_later_lines() {
    let r = rev("Cleanup\nBug 9: not in the subject");
    assert!(r.bug().is_none());
}

#[test]
fn no_keyword_no_bug() {
    assert!(rev("Fix thing").bug().is_none());
    assert!(rev("Bugzilla 42: fix thing").bug().is_none());
    assert!(rev("bugs 42").bug().is_none());
    assert!(rev("Revert bug 42").bug().is_none());
}

#[test]
fn keyword_without_identifier_no_bug() {
    assert!(rev("bug").bug().is_none());
    assert!(rev("bug   ").bug().is_none());
    assert!(rev("").bug().is_none());
}

#[test]
fn leading_whitespace_before_keyword() {
    assert_eq!(rev("  bug 5 tidy").bug().unwrap().id, "5");
    assert_eq!(rev("\tbug\t6").bug().unwrap().id, "6");
}
