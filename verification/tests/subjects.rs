//! Subject cleaning and thread-starter classification.

use pg_threads::subject::{
    classify_subject, clean_subject_title, is_thread_starter_by_id, StarterVerdict,
};

#[test]
fn clean_truncates_at_attachment_marker() {
    assert_eq!(clean_subject_title("patch series \u{1F4CE} v2.tgz"), "patch series");
}

#[test]
fn clean_collapses_whitespace_runs() {
    assert_eq!(clean_subject_title("  Hello\n  world\tagain "), "Hello world again");
    let cleaned = clean_subject_title("one\ntwo");
    assert!(!cleaned.contains('\n'));
    assert_eq!(cleaned, "one two");
}

#[test]
fn clean_keeps_plain_subjects() {
    assert_eq!(clean_subject_title("Simple subject"), "Simple subject");
    assert_eq!(clean_subject_title(""), "");
    assert_eq!(clean_subject_title("   "), "");
}

#[test]
fn clean_marker_first() {
    assert_eq!(clean_subject_title("\u{1F4CE} all gone"), "");
}

#[test]
fn classify_rejects_reply_prefixes() {
    assert_eq!(classify_subject("Re: foo"), StarterVerdict::Reply);
    assert_eq!(classify_subject("re: foo"), StarterVerdict::Reply);
    assert_eq!(classify_subject("RE: foo"), StarterVerdict::Reply);
    assert_eq!(classify_subject("rE: foo"), StarterVerdict::Reply);
    assert_eq!(
        classify_subject("Re\u{FF1A}Limit length of queries in pg_stat_statement extension"),
        StarterVerdict::Reply
    );
    assert_eq!(classify_subject("rE\u{FF1A}x"), StarterVerdict::Reply);
}

#[test]
fn classify_accepts_without_lookup() {
    assert_eq!(classify_subject("Improve planner costs"), StarterVerdict::Starter);
    assert_eq!(classify_subject("Restore of plain dumps"), StarterVerdict::Starter);
    assert_eq!(classify_subject(""), StarterVerdict::Starter);
}

#[test]
fn classify_mid_string_re_needs_lookup() {
    assert_eq!(
        classify_subject("Fwd: Re: A new look at old NFS readdir() problems?"),
        StarterVerdict::NeedsIdCheck
    );
    assert_eq!(classify_subject("About RE: markers"), StarterVerdict::NeedsIdCheck);
}

#[test]
fn starter_by_id_compares_navigation_head() {
    assert!(is_thread_starter_by_id("abc%40example", "abc%40example"));
    assert!(!is_thread_starter_by_id("abc%40example", "other%40example"));
}
