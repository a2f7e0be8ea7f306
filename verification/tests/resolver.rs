use landed::bz::{BugStatus, Comment};
use landed::resolve::{landing_in_comment, landing_reference};

const PREFIX: &str = "https://hg.mozilla.org/mozilla-central/rev/";

fn comment(id: u32, text: &str) -> Comment {
    Comment { id, raw_text: text.to_string() }
}

#[test]
fn complete_statuses() {
    assert!(!BugStatus::New.is_complete());
    assert!(BugStatus::Resolved.is_complete());
    assert!(BugStatus::Verified.is_complete());
}

#[test]
fn landing_comment_yields_segment() {
    let got = landing_in_comment(&format!("{}deadbeefcafe", PREFIX));
    assert_eq!(got, Some("deadbeefcafe".to_string()));
}

#[test]
fn non_hex_segment_yields_nothing() {
    assert_eq!(landing_in_comment(&format!("{}deadbeefcafg", PREFIX)), None);
    assert_eq!(landing_in_comment(&format!("{}abc123 and more words", PREFIX)), None);
}

#[test]
fn prefix_must_match_exactly() {
    assert_eq!(landing_in_comment("see https://hg.mozilla.org/mozilla-central/rev/abc123"), None);
    assert_eq!(landing_in_comment("HTTPS://HG.MOZILLA.ORG/MOZILLA-CENTRAL/REV/abc123"), None);
    assert_eq!(landing_in_comment("landed upstream"), None);
    assert_eq!(landing_in_comment(""), None);
}

#[test]
fn empty_segment_is_accepted() {
    assert_eq!(landing_in_comment(PREFIX), Some(String::new()));
}

#[test]
fn scan_prefers_most_recent_landing() {
    let discussion = vec![
        comment(1, "filed"),
        comment(2, &format!("{}aaa111", PREFIX)),
        comment(3, "backed out"),
        comment(4, "relanded"),
        comment(5, &format!("{}bbb222", PREFIX)),
        comment(6, "verified fixed"),
    ];
    assert_eq!(landing_reference(&discussion), Some("bbb222".to_string()));
}

#[test]
fn scan_skips_malformed_recent_landing() {
    let discussion = vec![
        comment(1, &format!("{}c0ffee", PREFIX)),
        comment(2, &format!("{}not-hex!", PREFIX)),
    ];
    assert_eq!(landing_reference(&discussion), Some("c0ffee".to_string()));
}

#[test]
fn scan_of_empty_discussion() {
    assert_eq!(landing_reference(&Vec::new()), None);
}

#[test]
fn scan_without_landing_comment() {
    let discussion = vec![comment(1, "filed"), comment(2, "duplicate of another bug")];
    assert_eq!(landing_reference(&discussion), None);
}
