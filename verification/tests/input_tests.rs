use whispering::input::{
    applescript_keystroke_script, applescript_paste_script, should_restore_clipboard,
    typing_payload, InsertionPlan, TextInserter,
};
use whispering::types::InsertionMode;

#[test]
fn insertion_plans_follow_the_mode() {
    let mut inserter = TextInserter::default();
    assert_eq!(
        inserter.insert_committed("  hi there ", InsertionMode::IncrementalTyping),
        InsertionPlan::Type("hi there ".to_string())
    );
    assert_eq!(
        inserter.insert_committed("  hi there ", InsertionMode::FinalPaste),
        InsertionPlan::Paste("hi there".to_string())
    );
    assert_eq!(inserter.insert_committed("hi", InsertionMode::Off), InsertionPlan::Skip);
    assert_eq!(inserter.insert_committed(" \n ", InsertionMode::FinalPaste), InsertionPlan::Skip);
    inserter.reset_incremental();
}

#[test]
fn typing_payload_ends_in_one_space() {
    assert_eq!(typing_payload("word"), "word ");
    assert_eq!(typing_payload("word "), "word ");
    assert_eq!(typing_payload(""), " ");
}

#[test]
fn keystroke_script_escapes_the_text() {
    assert_eq!(
        applescript_keystroke_script("say \"hi\"\\\n\r"),
        "tell application \"System Events\" to keystroke \"say \\\"hi\\\"\\\\\\n\\r\""
    );
    assert_eq!(
        applescript_keystroke_script("plain"),
        "tell application \"System Events\" to keystroke \"plain\""
    );
}

#[test]
fn paste_script_sends_command_v() {
    assert_eq!(
        applescript_paste_script(),
        "tell application \"System Events\" to keystroke \"v\" using command down"
    );
}

#[test]
fn clipboard_is_restored_only_if_unchanged() {
    assert!(should_restore_clipboard(&Some("pasted".to_string()), "pasted"));
    assert!(!should_restore_clipboard(&Some("other".to_string()), "pasted"));
    assert!(!should_restore_clipboard(&None, "pasted"));
}
