use jdwp_mcp::reply::{Outcome, Reply};

#[test]
fn appending_a_note_leaves_the_outcome_alone() {
    let deferred = Reply::deferred("⏳ Deferred breakpoint").followed_by("\n   and a session note");
    assert_eq!(deferred.outcome, Outcome::Deferred);
    assert!(deferred.text.ends_with("and a session note"), "{}", deferred.text);

    assert_eq!(Reply::armed("✅").followed_by("x").outcome, Outcome::Armed);
}

#[test]
fn a_reply_hands_out_all_its_words() {
    assert_eq!(Reply::armed("one").followed_by(", two").into_text(), "one, two");
}
