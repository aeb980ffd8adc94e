//! The decisions of the line-mode front end: which mode a run takes, and what
//! one line typed at the prompt asks for.

use vstd::prelude::*;
use crate::text::chars_of;

verus! {

/// The command line: an optional city, and whether to open the window.
pub struct CliArgs {
    pub city: Option<String>,
    pub gui: bool,
}

/// How a run proceeds.
pub enum RunMode {
    /// Open the window.
    Window,
    /// Fetch the weather of one city, show it and stop.
    Once(String),
    /// Prompt for cities until told to stop.
    Interactive,
}

/// The window wins over a city; with neither the prompt runs.
pub fn run_mode(args: &CliArgs) -> (r: RunMode)
    ensures
        args.gui ==> r is Window,
        !args.gui && args.city is Some ==> (r matches RunMode::Once(c) && c@ == args.city->0@),
        !args.gui && args.city is None ==> r is Interactive,
{
    if args.gui {
        RunMode::Window
    } else {
        match &args.city {
            Some(c) => RunMode::Once(c.clone()),
            None => RunMode::Interactive,
        }
    }
}

/// What one line typed at the prompt asks for.
pub enum LineAction {
    /// Stop, with a farewell.
    Quit,
    /// Nothing usable was typed: warn and ask again.
    Reprompt,
    /// Fetch the weather of this city.
    Fetch(String),
}

/// Whether `c` has Unicode's White_Space property, which is what
/// `char::is_whitespace` and `str::trim` go by.
pub open spec fn is_white(c: char) -> bool {
    ('\u{9}' <= c && c <= '\u{d}') || c == ' ' || c == '\u{85}' || c == '\u{a0}' || c == '\u{1680}'
        || ('\u{2000}' <= c && c <= '\u{200a}') || c == '\u{2028}' || c == '\u{2029}'
        || c == '\u{202f}' || c == '\u{205f}' || c == '\u{3000}'
}

/// The text without its leading white space.
pub open spec fn trim_start_of(s: Seq<char>) -> Seq<char>
    decreases s.len(),
{
    if s.len() > 0 && is_white(s[0]) {
        trim_start_of(s.drop_first())
    } else {
        s
    }
}

/// The text without its trailing white space.
pub open spec fn trim_end_of(s: Seq<char>) -> Seq<char>
    decreases s.len(),
{
    if s.len() > 0 && is_white(s.last()) {
        trim_end_of(s.drop_last())
    } else {
        s
    }
}

/// The text without leading and trailing white space.
pub open spec fn trim_of(s: Seq<char>) -> Seq<char> {
    trim_end_of(trim_start_of(s))
}

/// Relies on `str::trim`: the text without leading and trailing characters
/// that have the White_Space property.
#[verifier::external_body]
pub(crate) fn trim(s: &str) -> (r: String)
    ensures
        r@ == trim_of(s@),
{
    s.trim().to_string()
}

/// A character's code with ASCII capitals taken to small letters.
pub open spec fn lower_code(c: char) -> u32 {
    if 'A' <= c && c <= 'Z' {
        (c as u32 + 32) as u32
    } else {
        c as u32
    }
}

/// Equality up to ASCII case.
pub open spec fn eq_ascii_case(a: Seq<char>, b: Seq<char>) -> bool {
    a.len() == b.len() && forall|i: int| 0 <= i < a.len() ==> lower_code(#[trigger] a[i]) == lower_code(b[i])
}

/// A word that ends the prompt, in any ASCII case.
pub open spec fn is_exit_word(t: Seq<char>) -> bool {
    eq_ascii_case(t, "quit"@) || eq_ascii_case(t, "exit"@)
}

fn lower_code_of(c: char) -> (r: u32)
    ensures
        r == lower_code(c),
{
    if 'A' <= c && c <= 'Z' {
        c as u32 + 32
    } else {
        c as u32
    }
}

/// Whether two texts are equal up to ASCII case.
pub fn eq_ignore_ascii_case(a: &str, b: &str) -> (r: bool)
    ensures
        r == eq_ascii_case(a@, b@),
{
    let x = chars_of(a);
    let y = chars_of(b);
    if x.len() != y.len() {
        return false;
    }
    let mut i: usize = 0;
    while i < x.len()
        invariant
            x@ == a@,
            y@ == b@,
            x@.len() == y@.len(),
            i <= x@.len(),
            forall|k: int| 0 <= k < i ==> lower_code(#[trigger] x@[k]) == lower_code(y@[k]),
        decreases x@.len() - i,
    {
        if lower_code_of(x[i]) != lower_code_of(y[i]) {
            return false;
        }
        i = i + 1;
    }
    true
}

/// What an already trimmed line asks for: an exit word stops, an empty line
/// asks again, anything else is a city.
pub fn classify_trimmed(t: &str) -> (r: LineAction)
    ensures
        is_exit_word(t@) ==> r is Quit,
        !is_exit_word(t@) && t@.len() == 0 ==> r is Reprompt,
        !is_exit_word(t@) && t@.len() > 0 ==> (r matches LineAction::Fetch(c) && c@ == t@),
{
    if eq_ignore_ascii_case(t, "quit") || eq_ignore_ascii_case(t, "exit") {
        LineAction::Quit
    } else if t.is_empty() {
        LineAction::Reprompt
    } else {
        LineAction::Fetch(String::from_str(t))
    }
}

/// What a line typed at the prompt asks for, once trimmed.
pub fn classify_line(line: &str) -> (r: LineAction)
    ensures
        is_exit_word(trim_of(line@)) ==> r is Quit,
        !is_exit_word(trim_of(line@)) && trim_of(line@).len() == 0 ==> r is Reprompt,
        !is_exit_word(trim_of(line@)) && trim_of(line@).len() > 0 ==> (r matches LineAction::Fetch(c)
            && c@ == trim_of(line@)),
{
    let t = trim(line);
    classify_trimmed(t.as_str())
}

} // verus!
