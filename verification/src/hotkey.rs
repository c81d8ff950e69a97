use global_hotkey::hotkey::HotKey;
use vstd::prelude::*;
use crate::text::{chars_of, push_chars};

verus! {

#[verifier::external_type_specification]
#[verifier::external_body]
pub struct ExHotKey(HotKey);

/// Whether `HotKey::from_str` accepts a text, and the text of its error
/// when it does not.
pub uninterp spec fn hotkey_parse(value: Seq<char>) -> Result<(), Seq<char>>;

/// Whether a parse succeeded, and the text of its error when it did not.
pub open spec fn parse_outcome(r: Result<HotKey, String>) -> Result<(), Seq<char>> {
    match r {
        Ok(_) => Ok(()),
        Err(e) => Err(e@),
    }
}

/// `global_hotkey::hotkey::HotKey::from_str`: parses text such as
/// `control+shift+Space`. Whether it succeeds, and the text of its error when
/// it fails, are named `hotkey_parse`; the key it yields is not described
/// (which modifier some names stand for depends on the platform).
#[verifier::external_body]
fn parse_hotkey(value: &str) -> (r: Result<HotKey, String>)
    ensures
        parse_outcome(r) == hotkey_parse(value@),
{
    match <HotKey as std::str::FromStr>::from_str(value) {
        Ok(hotkey) => Ok(hotkey),
        Err(error) => Err(error.to_string()),
    }
}

pub open spec fn hotkeys_unavailable_message() -> Seq<char> {
    "Global hotkeys are unavailable. Grant Accessibility permission to NoDaysIdle Whispering in macOS System Settings, then restart the app."@
}

/// `Invalid hotkey "{value}": {error}`
pub open spec fn invalid_hotkey_message(value: Seq<char>, error: Seq<char>) -> Seq<char> {
    "Invalid hotkey \""@ + value + "\": "@ + error
}

/// The key to register for `value`: refused when global hotkeys are not
/// available, or with the parse error when the text is not a hotkey.
pub fn hotkey_to_register(manager_available: bool, value: &str) -> (r: Result<HotKey, String>)
    ensures
        !manager_available ==> (r matches Err(e) && e@ == hotkeys_unavailable_message()),
        manager_available ==> (r is Ok <==> hotkey_parse(value@) is Ok),
        manager_available ==> (r matches Err(e) ==> hotkey_parse(value@) matches Err(p)
            && e@ == invalid_hotkey_message(value@, p)),
{
    if !manager_available {
        return Err(
            String::from_str(
                "Global hotkeys are unavailable. Grant Accessibility permission to NoDaysIdle Whispering in macOS System Settings, then restart the app.",
            ),
        );
    }
    match parse_hotkey(value) {
        Ok(hotkey) => Ok(hotkey),
        Err(error) => {
            let mut message = String::from_str("Invalid hotkey \"");
            push_chars(&mut message, &chars_of(value));
            push_chars(&mut message, &chars_of("\": "));
            push_chars(&mut message, &chars_of(error.as_str()));
            Err(message)
        },
    }
}

/// `Could not register hotkey {value}: {error}`
pub fn register_failure_message(value: &str, error: &str) -> (r: String)
    ensures
        r@ == "Could not register hotkey "@ + value@ + ": "@ + error@,
{
    let mut message = String::from_str("Could not register hotkey ");
    push_chars(&mut message, &chars_of(value));
    push_chars(&mut message, &chars_of(": "));
    push_chars(&mut message, &chars_of(error));
    message
}

} // verus!
