//! The resolution pipeline run end to end on in-memory data: issue
//! extraction, lifecycle filter, landing scan, confirmation.

use landed::bz::{BugStatus, Comment};
use landed::confirm::confirm_all;
use landed::hg::Revision;
use landed::resolve::{landing_reference, Candidate};

#[test]
fn landed_revision_is_resolved_and_retired() {
    let revision = Revision {
        description: "Bug 42: fix thing".to_string(),
        hash: "abcdef012345abcdef012345abcdef012345abcd".to_string(),
    };

    let bug = revision.bug().expect("the subject references a bug");
    assert_eq!(bug.id, "42:");

    let status = BugStatus::Verified;
    assert!(status.is_complete());

    let discussion = vec![Comment {
        id: 77,
        raw_text: "https://hg.mozilla.org/mozilla-central/rev/deadbeefcafe".to_string(),
    }];
    let successor = landing_reference(&discussion).expect("the discussion announces a landing");
    assert_eq!(successor, "deadbeefcafe");

    let candidates = vec![Candidate { revision, successor }];
    let (plan, consumed) = confirm_all(&candidates, &vec![String::new()]);
    assert_eq!(
        plan,
        vec![(
            "abcdef012345abcdef012345abcdef012345abcd".to_string(),
            "deadbeefcafe".to_string(),
        )]
    );
    assert_eq!(consumed, 1);
}

#[test]
fn incomplete_bug_is_filtered_before_its_discussion() {
    // The lifecycle filter alone rules this bug out; its discussion would
    // otherwise qualify.
    let revision = Revision {
        description: "bug 7 speed up startup".to_string(),
        hash: "00112233445566778899aabbccddeeff00112233".to_string(),
    };
    assert_eq!(revision.bug().unwrap().id, "7");
    assert!(!BugStatus::New.is_complete());
}

#[test]
fn no_revisions_means_no_candidates() {
    let candidates: Vec<Candidate> = Vec::new();
    let (plan, consumed) = confirm_all(&candidates, &Vec::new());
    assert!(plan.is_empty());
    assert_eq!(consumed, 0);
}
