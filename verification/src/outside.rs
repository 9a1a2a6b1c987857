//! Every call into code that Verus does not read: the standard library where
//! vstd gives it no specification, `regex` and `serde_json`.  Each item states
//! what the called function is documented to do, and nothing is proved of it.

use vstd::prelude::*;

use crate::text::{is_ascii_alnum, is_ascii_digit, is_ascii_letter, seq_contains};

verus! {

/// `String::push`: appends one character to the end of the string.
#[verifier::external_body]
pub(crate) fn push_char(s: &mut String, c: char)
    ensures
        final(s)@ == old(s)@.push(c),
{
    s.push(c);
}

/// What `char::is_alphanumeric` answers for a character (the Unicode
/// `Alphabetic` or `Numeric` property).
pub uninterp spec fn unicode_alphanumeric(c: char) -> bool;

/// `char::is_alphanumeric`.  Its answer is named, not written out: it follows
/// the Unicode tables.
#[verifier::external_body]
pub(crate) fn char_is_alphanumeric(c: char) -> (r: bool)
    ensures
        r == unicode_alphanumeric(c),
{
    c.is_alphanumeric()
}

/// What `char::is_whitespace` answers for a character (the Unicode
/// `White_Space` property).
pub uninterp spec fn unicode_whitespace(c: char) -> bool;

/// `char::is_whitespace`.  Its answer is named, not written out: it follows
/// the Unicode tables.
#[verifier::external_body]
pub(crate) fn char_is_whitespace(c: char) -> (r: bool)
    ensures
        r == unicode_whitespace(c),
{
    c.is_whitespace()
}

/// What `str::to_lowercase` returns for a text (Unicode lower-case mapping,
/// which may change the length of the text).
pub uninterp spec fn unicode_lowercase(s: Seq<char>) -> Seq<char>;

/// `str::to_lowercase`.  Its result is named, not written out: it follows the
/// Unicode case tables.
#[verifier::external_body]
pub(crate) fn str_to_lowercase(s: &str) -> (r: String)
    ensures
        r@ == unicode_lowercase(s@),
{
    s.to_lowercase()
}

// ----- regex -----

/// A character that the script-name pattern `^[a-zA-Z0-9_:-]+$` accepts.
pub open spec fn script_name_char(c: char) -> bool {
    is_ascii_alnum(c) || c == '_' || c == ':' || c == '-'
}

/// Whether the whole text matches `^[a-zA-Z0-9_:-]+$`: it is not empty and
/// every character is an ASCII letter, an ASCII digit, `_`, `:` or `-`.
pub open spec fn script_pattern_matches(s: Seq<char>) -> bool {
    s.len() > 0 && forall|i: int| 0 <= i < s.len() ==> script_name_char(#[trigger] s[i])
}

/// `regex::Regex::is_match` with the pattern `^[a-zA-Z0-9_:-]+$` (compiled by
/// `regex::Regex::new`, which accepts this pattern).  In the `regex` syntax
/// `^` and `$` anchor at the ends of the whole text, so the text matches when
/// it is not empty and all its characters are in the class.
#[verifier::external_body]
pub(crate) fn script_regex_is_match(s: &str) -> (r: bool)
    ensures
        r == script_pattern_matches(s@),
{
    match regex::Regex::new(r"^[a-zA-Z0-9_:-]+$") {
        Ok(re) => re.is_match(s),
        Err(_) => false,
    }
}

pub open spec fn ansi_param_char(c: char) -> bool {
    is_ascii_digit(c) || c == ';'
}

/// Length of the run of `[0-9;]` characters at the start of `s`.
pub open spec fn param_run(s: Seq<char>) -> nat
    decreases s.len(),
{
    if s.len() > 0 && ansi_param_char(s[0]) {
        1 + param_run(s.drop_first())
    } else {
        0
    }
}

/// Length of the escape sequence `ESC [ [0-9;]* [a-zA-Z]` at the start of
/// `s`, if one starts there.  The parameter characters and the final letter
/// are disjoint classes, so the only candidate is the one with the longest
/// run of parameters.
pub open spec fn ansi_sequence_at_start(s: Seq<char>) -> Option<nat> {
    if s.len() >= 2 && s[0] == '\x1b' && s[1] == '[' {
        let k = param_run(s.skip(2));
        if 2 + k < s.len() && is_ascii_letter(s[(2 + k) as int]) {
            Some(3 + k)
        } else {
            None
        }
    } else {
        None
    }
}

/// `s` with every escape sequence `ESC [ [0-9;]* [a-zA-Z]` removed, scanning
/// from the left and resuming after each removed sequence.
pub open spec fn ansi_stripped(s: Seq<char>) -> Seq<char>
    decreases s.len(),
{
    if s.len() == 0 {
        s
    } else {
        match ansi_sequence_at_start(s) {
            Some(n) => {
                proof {
                    lemma_param_run_len(s.skip(2));
                }
                ansi_stripped(s.skip(n as int))
            },
            None => seq![s[0]] + ansi_stripped(s.drop_first()),
        }
    }
}

pub proof fn lemma_param_run_len(s: Seq<char>)
    ensures
        param_run(s) <= s.len(),
        forall|i: int| 0 <= i < param_run(s) ==> ansi_param_char(#[trigger] s[i]),
        param_run(s) < s.len() ==> !ansi_param_char(s[param_run(s) as int]),
    decreases s.len(),
{
    if s.len() > 0 && ansi_param_char(s[0]) {
        lemma_param_run_len(s.drop_first());
        assert forall|i: int| 0 <= i < param_run(s) implies ansi_param_char(#[trigger] s[i]) by {
            if i > 0 {
                assert(s[i] == s.drop_first()[i - 1]);
            }
        }
    }
}

/// `regex::Regex::replace_all` with the pattern `\x1b\[[0-9;]*[a-zA-Z]` and
/// an empty replacement: every non-overlapping match, found leftmost first
/// from the start of the text, is removed.
#[verifier::external_body]
pub(crate) fn ansi_regex_remove_all(input: &str) -> (r: String)
    ensures
        r@ == ansi_stripped(input@),
{
    match regex::Regex::new(r"\x1b\[[0-9;]*[a-zA-Z]") {
        Ok(re) => re.replace_all(input, "").into_owned(),
        Err(_) => input.to_string(),
    }
}

/// The port that `(?i)(?:localhost|127\.0\.0\.1|0\.0\.0\.0|\[::1\]):(\d{2,5})`
/// captures in a text (group 1 of the leftmost match), if it matches.
pub uninterp spec fn port_url_capture(line: Seq<char>) -> Option<Seq<char>>;

/// The port that `:(\d{4,5})\b` captures in a text (group 1 of the leftmost
/// match), if it matches.
pub uninterp spec fn port_fallback_capture(line: Seq<char>) -> Option<Seq<char>>;

pub open spec fn option_view(o: Option<String>) -> Option<Seq<char>> {
    match o {
        Some(s) => Some(s@),
        None => None,
    }
}

/// `regex::Regex::captures` with the host-and-port pattern, then group 1.
/// The capture is named, not written out: `(?i)` and `\d` follow the Unicode
/// tables.  What the pattern fixes is stated: the capture is two to five
/// characters that follow a `:` in the text.
#[verifier::external_body]
pub(crate) fn port_url_regex_capture(line: &str) -> (r: Option<String>)
    ensures
        option_view(r) == port_url_capture(line@),
        match r {
            Some(p) => 2 <= p@.len() <= 5 && seq_contains(line@, seq![':'] + p@),
            None => true,
        },
{
    let re = match regex::Regex::new(r"(?i)(?:localhost|127\.0\.0\.1|0\.0\.0\.0|\[::1\]):(\d{2,5})") {
        Ok(re) => re,
        Err(_) => return None,
    };
    match re.captures(line) {
        Some(caps) => match caps.get(1) {
            Some(m) => Some(m.as_str().to_string()),
            None => None,
        },
        None => None,
    }
}

/// `regex::Regex::captures` with the pattern `:(\d{4,5})\b`, then group 1.
/// The capture is named, not written out: `\d` and `\b` follow the Unicode
/// tables.  What the pattern fixes is stated: the capture is four or five
/// characters that follow a `:` in the text.
#[verifier::external_body]
pub(crate) fn port_fallback_regex_capture(line: &str) -> (r: Option<String>)
    ensures
        option_view(r) == port_fallback_capture(line@),
        match r {
            Some(p) => 4 <= p@.len() <= 5 && seq_contains(line@, seq![':'] + p@),
            None => true,
        },
{
    let re = match regex::Regex::new(r":(\d{4,5})\b") {
        Ok(re) => re,
        Err(_) => return None,
    };
    match re.captures(line) {
        Some(caps) => match caps.get(1) {
            Some(m) => Some(m.as_str().to_string()),
            None => None,
        },
        None => None,
    }
}

// ----- serde_json -----

/// The `scripts` object of a `package.json` text, as `serde_json` reads it:
/// `None` when the text is not JSON, has no `scripts` member, or that member
/// is not an object; otherwise each member in `serde_json`'s map order, with
/// its value when that value is a JSON string.
pub uninterp spec fn package_scripts(content: Seq<char>) -> Option<Seq<(Seq<char>, Option<Seq<char>>)>>;

pub open spec fn script_entries_view(v: Vec<(String, Option<String>)>) -> Seq<(Seq<char>, Option<Seq<char>>)> {
    v@.map_values(|e: (String, Option<String>)| (e.0@, option_view(e.1)))
}

/// `serde_json::from_str::<serde_json::Value>`, then `Value::get("scripts")`,
/// `Value::as_object` and, for each member, `Value::as_str`.  The result is
/// named, not written out: it is what the JSON parser reads.
#[verifier::external_body]
pub(crate) fn package_json_script_entries(content: &str) -> (r: Option<Vec<(String, Option<String>)>>)
    ensures
        match r {
            Some(v) => package_scripts(content@) == Some(script_entries_view(v)),
            None => package_scripts(content@).is_none(),
        },
{
    let json: serde_json::Value = match serde_json::from_str(content) {
        Ok(v) => v,
        Err(_) => return None,
    };
    let scripts = json.get("scripts")?.as_object()?;
    let mut out = Vec::new();
    for (k, v) in scripts.iter() {
        let command = match v.as_str() {
            Some(s) => Some(s.to_string()),
            None => None,
        };
        out.push((k.clone(), command));
    }
    Some(out)
}

} // verus!
