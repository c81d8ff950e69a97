use vstd::prelude::*;
use crate::text::{chars_of, push_char, push_chars, string_from_chars, trim, trim_chars};
use crate::types::InsertionMode;

verus! {

/// What to do to put committed text into the focused application.
#[derive(Debug, Clone, PartialEq, Eq)]
pub enum InsertionPlan {
    /// Nothing to insert.
    Skip,
    /// Type this text key by key.
    Type(String),
    /// Paste this text through the clipboard.
    Paste(String),
}

pub ghost enum PlanView {
    Skip,
    Type(Seq<char>),
    Paste(Seq<char>),
}

impl View for InsertionPlan {
    type V = PlanView;

    open spec fn view(&self) -> PlanView {
        match self {
            InsertionPlan::Skip => PlanView::Skip,
            InsertionPlan::Type(s) => PlanView::Type(s@),
            InsertionPlan::Paste(s) => PlanView::Paste(s@),
        }
    }
}

/// The text with one space after it, unless it already ends in a space.
pub open spec fn with_trailing_space(t: Seq<char>) -> Seq<char> {
    if t.len() > 0 && t.last() == ' ' {
        t
    } else {
        t.push(' ')
    }
}

/// The insertion of `text` in `mode`: nothing when the trimmed text is empty
/// or insertion is off; typing the trimmed text followed by a space; or
/// pasting the trimmed text.
pub open spec fn plan_for(text: Seq<char>, mode: InsertionMode) -> PlanView {
    let t = trim(text);
    if t.len() == 0 || mode == InsertionMode::Off {
        PlanView::Skip
    } else if mode == InsertionMode::IncrementalTyping {
        PlanView::Type(with_trailing_space(t))
    } else {
        PlanView::Paste(t)
    }
}

/// The text that typing `text` sends: the text and a trailing space.
pub fn typing_payload(text: &str) -> (r: String)
    ensures
        r@ == with_trailing_space(text@),
{
    let cs = chars_of(text);
    let mut r = string_from_chars(&cs);
    if !(cs.len() > 0 && cs[cs.len() - 1] == ' ') {
        push_char(&mut r, ' ');
    }
    r
}

/// Decides how committed text is inserted; the shell carries it out.
#[derive(Debug, Clone, Copy, Default)]
pub struct TextInserter;

impl TextInserter {
    /// Forget any incremental insertion in progress; the inserter keeps none.
    pub fn reset_incremental(&mut self)
        ensures
            *final(self) == *old(self),
    {
    }

    /// How `text` is to be inserted in `mode`.
    pub fn insert_committed(&mut self, text: &str, mode: InsertionMode) -> (r: InsertionPlan)
        ensures
            r@ == plan_for(text@, mode),
            *final(self) == *old(self),
    {
        let cs = chars_of(text);
        let t = trim_chars(&cs);
        if t.len() == 0 || mode == InsertionMode::Off {
            return InsertionPlan::Skip;
        }
        match mode {
            InsertionMode::Off => InsertionPlan::Skip,
            InsertionMode::IncrementalTyping => {
                let trimmed = string_from_chars(&t);
                InsertionPlan::Type(typing_payload(trimmed.as_str()))
            },
            InsertionMode::FinalPaste => InsertionPlan::Paste(string_from_chars(&t)),
        }
    }
}

/// The AppleScript escape of one character: backslash, double quote,
/// newline and carriage return become `\\`, `\"`, `\n` and `\r`.
pub open spec fn escape_char(c: char) -> Seq<char> {
    if c == '\\' {
        seq!['\\', '\\']
    } else if c == '"' {
        seq!['\\', '"']
    } else if c == '\n' {
        seq!['\\', 'n']
    } else if c == '\r' {
        seq!['\\', 'r']
    } else {
        seq![c]
    }
}

/// The text escaped for an AppleScript string literal, character by character.
pub open spec fn escape_applescript(s: Seq<char>) -> Seq<char>
    decreases s.len(),
{
    if s.len() == 0 {
        seq![]
    } else {
        escape_applescript(s.drop_last()) + escape_char(s.last())
    }
}

/// `tell application "System Events" to keystroke "`
pub open spec fn keystroke_prefix() -> Seq<char> {
    "tell application \"System Events\" to keystroke \""@
}

/// The AppleScript that types `text` through System Events.
pub fn applescript_keystroke_script(text: &str) -> (r: String)
    ensures
        r@ == keystroke_prefix() + escape_applescript(text@) + seq!['"'],
{
    let cs = chars_of(text);
    let mut escaped: Vec<char> = Vec::new();
    let mut i: usize = 0;
    while i < cs.len()
        invariant
            i <= cs.len(),
            escaped@ == escape_applescript(cs@.take(i as int)),
        decreases cs.len() - i,
    {
        let c = cs[i];
        proof {
            assert(cs@.take(i + 1).drop_last() =~= cs@.take(i as int));
            assert(cs@.take(i + 1).last() == c);
        }
        let ghost before = escaped@;
        if c == '\\' {
            escaped.push('\\');
            escaped.push('\\');
        } else if c == '"' {
            escaped.push('\\');
            escaped.push('"');
        } else if c == '\n' {
            escaped.push('\\');
            escaped.push('n');
        } else if c == '\r' {
            escaped.push('\\');
            escaped.push('r');
        } else {
            escaped.push(c);
        }
        proof {
            assert(escaped@ =~= before + escape_char(c));
        }
        i += 1;
    }
    proof {
        assert(cs@.take(cs@.len() as int) =~= cs@);
    }
    let prefix = "tell application \"System Events\" to keystroke \"";
    let mut r = String::from_str(prefix);
    push_chars(&mut r, &escaped);
    push_char(&mut r, '"');
    r
}

/// The AppleScript that sends Command-V through System Events.
pub fn applescript_paste_script() -> (r: String)
    ensures
        r@ == "tell application \"System Events\" to keystroke \"v\" using command down"@,
{
    String::from_str("tell application \"System Events\" to keystroke \"v\" using command down")
}

fn chars_equal(a: &Vec<char>, b: &Vec<char>) -> (r: bool)
    ensures
        r == (a@ == b@),
{
    if a.len() != b.len() {
        return false;
    }
    let mut i: usize = 0;
    while i < a.len()
        invariant
            a.len() == b.len(),
            i <= a.len(),
            forall|j: int| 0 <= j < i ==> a@[j] == b@[j],
        decreases a.len() - i,
    {
        if a[i] != b[i] {
            return false;
        }
        i += 1;
    }
    proof {
        assert(a@ =~= b@);
    }
    true
}

/// After a paste, the earlier clipboard text is put back only when the
/// clipboard still holds the inserted text.
pub fn should_restore_clipboard(current: &Option<String>, inserted: &str) -> (r: bool)
    ensures
        r == (current is Some && current->0@ == inserted@),
{
    match current {
        Some(c) => {
            let a = chars_of(c.as_str());
            let b = chars_of(inserted);
            chars_equal(&a, &b)
        },
        None => false,
    }
}

} // verus!
