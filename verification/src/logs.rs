//! Script names, package managers, and the output of running scripts:
//! colour codes, the port a dev server announces, batching of log lines, and
//! the exit report.

use vstd::prelude::*;

use crate::outside::{
    ansi_regex_remove_all, ansi_stripped, option_view, port_fallback_capture,
    port_fallback_regex_capture, port_url_capture, port_url_regex_capture, script_pattern_matches,
    script_regex_is_match, str_to_lowercase, unicode_lowercase,
};
use crate::paths::Os;
use crate::text::{
    ascii_lower, ascii_lower_chars, chars_of, seq_contains, str_contains, str_eq, string_from_chars,
};

verus! {

/// Whether a script name is allowed: not empty and made of ASCII letters,
/// digits, `_`, `:` and `-` only (nothing a shell would read specially).
pub fn is_valid_script(script: &str) -> (r: bool)
    ensures
        r == script_pattern_matches(script@),
{
    if script.is_empty() {
        return false;
    }
    script_regex_is_match(script)
}

pub open spec fn supported_package_manager(pm: Seq<char>) -> bool {
    pm == "npm"@ || pm == "pnpm"@ || pm == "yarn"@
}

/// Whether the package manager is one the launcher drives: npm, pnpm or yarn.
pub fn is_valid_package_manager(pm: &str) -> (r: bool)
    ensures
        r == supported_package_manager(pm@),
{
    str_eq(pm, "npm") || str_eq(pm, "pnpm") || str_eq(pm, "yarn")
}

/// The program to run for a package manager; on Windows the `.cmd` shim.
/// Anything other than pnpm and yarn runs npm.
pub open spec fn pm_program_spec(pm: Seq<char>, os: Os) -> Seq<char> {
    if os == Os::Windows {
        if pm == "pnpm"@ {
            "pnpm.cmd"@
        } else if pm == "yarn"@ {
            "yarn.cmd"@
        } else {
            "npm.cmd"@
        }
    } else {
        if pm == "pnpm"@ {
            "pnpm"@
        } else if pm == "yarn"@ {
            "yarn"@
        } else {
            "npm"@
        }
    }
}

/// The suffix of the launcher shims that package managers install on
/// Windows.
pub open spec fn shim_suffix(os: Os) -> Seq<char> {
    if os == Os::Windows {
        ".cmd"@
    } else {
        Seq::empty()
    }
}

/// The program run is the package manager the project uses, on every
/// system: `npm`, `pnpm` or `yarn` itself, with `.cmd` exactly on Windows;
/// any other name runs npm.
pub proof fn lemma_pm_program_is_chosen(pm: Seq<char>, os: Os)
    ensures
        (pm == "npm"@ || pm == "pnpm"@ || pm == "yarn"@) ==> pm_program_spec(pm, os) == pm
            + shim_suffix(os),
        !(pm == "npm"@ || pm == "pnpm"@ || pm == "yarn"@) ==> pm_program_spec(pm, os) == "npm"@
            + shim_suffix(os),
{
    reveal_strlit("npm");
    reveal_strlit("pnpm");
    reveal_strlit("yarn");
    reveal_strlit(".cmd");
    reveal_strlit("npm.cmd");
    reveal_strlit("pnpm.cmd");
    reveal_strlit("yarn.cmd");
    assert("npm"@ + ".cmd"@ =~= "npm.cmd"@);
    assert("pnpm"@ + ".cmd"@ =~= "pnpm.cmd"@);
    assert("yarn"@ + ".cmd"@ =~= "yarn.cmd"@);
    assert("npm"@ + Seq::<char>::empty() =~= "npm"@);
    assert("pnpm"@ + Seq::<char>::empty() =~= "pnpm"@);
    assert("yarn"@ + Seq::<char>::empty() =~= "yarn"@);
    assert("npm"@ != "pnpm"@);
    assert("npm"@ != "yarn"@);
}

/// The program that runs a package manager on this system.
pub fn pm_program(package_manager: &str, os: Os) -> (r: &'static str)
    ensures
        r@ == pm_program_spec(package_manager@, os),
{
    let windows = os == Os::Windows;
    if str_eq(package_manager, "pnpm") {
        if windows {
            "pnpm.cmd"
        } else {
            "pnpm"
        }
    } else if str_eq(package_manager, "yarn") {
        if windows {
            "yarn.cmd"
        } else {
            "yarn"
        }
    } else {
        if windows {
            "npm.cmd"
        } else {
            "npm"
        }
    }
}

/// The text with the terminal colour sequences `ESC [ ... letter` removed.
pub fn strip_ansi(input: &str) -> (r: String)
    ensures
        r@ == ansi_stripped(input@),
{
    ansi_regex_remove_all(input)
}

/// Whether a lower-cased line mentions where a server listens.
pub open spec fn mentions_address(lower: Seq<char>) -> bool {
    seq_contains(lower, "local:"@) || seq_contains(lower, "localhost"@) || seq_contains(
        lower,
        "network:"@,
    ) || seq_contains(lower, "127.0.0.1"@)
}

/// Whether a lower-cased line mentions `local:`, `localhost`, `network:` or
/// `127.0.0.1`.
pub fn has_address_marker(lower: &str) -> (r: bool)
    ensures
        r == mentions_address(lower@),
{
    str_contains(lower, "local:") || str_contains(lower, "localhost") || str_contains(
        lower,
        "network:",
    ) || str_contains(lower, "127.0.0.1")
}

/// Which port a line announces, given the two pattern captures on the line
/// without colour codes and its lower-cased form: the host-and-port capture
/// wins; otherwise the bare `:port` capture counts only when the line
/// mentions an address.
pub open spec fn port_choice(
    url: Option<Seq<char>>,
    lower: Seq<char>,
    fallback: Option<Seq<char>>,
) -> Option<Seq<char>> {
    match url {
        Some(p) => Some(p),
        None => if mentions_address(lower) {
            fallback
        } else {
            None
        },
    }
}

/// The decision of `extract_port_from_line` on the pattern captures.
pub fn port_from_captures(url: Option<String>, lower: &str, fallback: Option<String>) -> (r: Option<
    String,
>)
    ensures
        option_view(r) == port_choice(option_view(url), lower@, option_view(fallback)),
{
    match url {
        Some(p) => Some(p),
        None => {
            if has_address_marker(lower) {
                fallback
            } else {
                None
            }
        },
    }
}

/// Whether every character of a text is ASCII.
pub open spec fn is_ascii_text(s: Seq<char>) -> bool {
    forall|i: int| 0 <= i < s.len() ==> ((#[trigger] s[i]) as u32) < 128
}

/// A text lower-cased as `str::to_lowercase` does it: an all-ASCII text
/// letter by letter, any other text by the Unicode case mapping.
pub open spec fn lowercase_text(s: Seq<char>) -> Seq<char> {
    if is_ascii_text(s) {
        ascii_lower(s)
    } else {
        unicode_lowercase(s)
    }
}

fn all_ascii(cs: &[char]) -> (r: bool)
    ensures
        r == is_ascii_text(cs@),
{
    let mut i: usize = 0;
    while i < cs.len()
        invariant
            i <= cs.len(),
            forall|j: int| 0 <= j < i ==> ((#[trigger] cs@[j]) as u32) < 128,
        decreases cs.len() - i,
    {
        if (cs[i] as u32) >= 128 {
            return false;
        }
        i = i + 1;
    }
    true
}

/// A text lower-cased (as `str::to_lowercase`).
fn lowercase(s: &str) -> (r: String)
    ensures
        r@ == lowercase_text(s@),
{
    let cs = chars_of(s);
    if all_ascii(cs.as_slice()) {
        let lower = ascii_lower_chars(cs.as_slice());
        string_from_chars(lower.as_slice())
    } else {
        str_to_lowercase(s)
    }
}

/// The port a log line announces, if any.
pub open spec fn port_in_line(line: Seq<char>) -> Option<Seq<char>> {
    let plain = ansi_stripped(line);
    port_choice(
        port_url_capture(plain),
        lowercase_text(plain),
        port_fallback_capture(plain),
    )
}

/// The address markers are looked for in the whole line lower-cased as
/// `str::to_lowercase` does it (letter by letter for an all-ASCII line, by
/// the Unicode case mapping otherwise): when the host-and-port pattern finds
/// nothing, the bare `:port` capture is the port exactly when the lower-cased
/// line mentions `local:`, `localhost`, `network:` or `127.0.0.1`.  The
/// host-and-port capture, when there is one, is the port.
pub proof fn lemma_port_markers_case_insensitive(line: Seq<char>)
    ensures
        ({
            let plain = ansi_stripped(line);
            let lowered = if is_ascii_text(plain) {
                ascii_lower(plain)
            } else {
                unicode_lowercase(plain)
            };
            &&& port_url_capture(plain) matches Some(u) ==> port_in_line(line) == Some(u)
            &&& port_url_capture(plain) is None && mentions_address(lowered) ==> port_in_line(line)
                == port_fallback_capture(plain)
            &&& port_url_capture(plain) is None && !mentions_address(lowered) ==> port_in_line(
                line,
            ) is None
        }),
{
}

/// On an all-ASCII line the markers are found in any letter case:
/// `Network:`, `LOCAL:` and `LocalHost` count as much as their lower-case
/// forms.
pub proof fn lemma_port_markers_ascii_case(line: Seq<char>)
    requires
        is_ascii_text(ansi_stripped(line)),
        port_url_capture(ansi_stripped(line)) is None,
        mentions_address(ascii_lower(ansi_stripped(line))),
    ensures
        port_in_line(line) == port_fallback_capture(ansi_stripped(line)),
{
}

/// The port a dev server announces in a log line (`localhost:5173`,
/// `Local: http://...:3000`, ...), read after removing colour codes.
pub fn extract_port_from_line(line: &str) -> (r: Option<String>)
    ensures
        option_view(r) == port_in_line(line@),
        match r {
            Some(p) => 2 <= p@.len() <= 5 && seq_contains(ansi_stripped(line@), seq![':'] + p@),
            None => true,
        },
{
    let plain = strip_ansi(line);
    let url = port_url_regex_capture(plain.as_str());
    let lower = lowercase(plain.as_str());
    let fallback = port_fallback_regex_capture(plain.as_str());
    port_from_captures(url, lower.as_str(), fallback)
}

/// `s` without its trailing carriage returns and line feeds.
pub open spec fn trim_line_end_spec(s: Seq<char>) -> Seq<char>
    decreases s.len(),
{
    if s.len() > 0 && (s.last() == '\r' || s.last() == '\n') {
        trim_line_end_spec(s.drop_last())
    } else {
        s
    }
}

proof fn lemma_trim_line_end_take(s: Seq<char>, j: int)
    requires
        0 <= j <= s.len(),
        forall|k: int| j <= k < s.len() ==> (#[trigger] s[k] == '\r' || s[k] == '\n'),
    ensures
        trim_line_end_spec(s) == trim_line_end_spec(s.take(j)),
    decreases s.len() - j,
{
    if j < s.len() {
        assert(s.drop_last().take(j) == s.take(j));
        lemma_trim_line_end_take(s.drop_last(), j);
    } else {
        assert(s.take(j) == s);
    }
}

/// A line as read, without its line terminator (any trailing `\r` and `\n`).
pub fn trim_line_end(raw: &str) -> (r: String)
    ensures
        r@ == trim_line_end_spec(raw@),
{
    let cs = chars_of(raw);
    let mut j: usize = cs.len();
    while j > 0 && (cs[j - 1] == '\r' || cs[j - 1] == '\n')
        invariant
            j <= cs.len(),
            cs@ == raw@,
            forall|k: int| j <= k < cs.len() ==> (#[trigger] cs@[k] == '\r' || cs@[k] == '\n'),
        decreases j,
    {
        j = j - 1;
    }
    proof {
        lemma_trim_line_end_take(cs@, j as int);
        let t = cs@.take(j as int);
        assert(!(t.len() > 0 && (t.last() == '\r' || t.last() == '\n')));
    }
    let mut out: Vec<char> = Vec::new();
    let mut i: usize = 0;
    while i < j
        invariant
            i <= j <= cs.len(),
            out@ == cs@.take(i as int),
        decreases j - i,
    {
        out.push(cs[i]);
        i = i + 1;
        assert(cs@.take(i as int) == cs@.take(i - 1).push(cs@[i - 1]));
    }
    string_from_chars(out.as_slice())
}

/// Lines handed to the front end at once, at most.
pub const LOG_FLUSH_LINES: usize = 50;

/// Milliseconds after which a batch of log lines is handed on.
pub const LOG_FLUSH_INTERVAL_MS: u128 = 200;

/// The text of a chunk of log lines: each line followed by a line feed.
pub open spec fn lines_text(lines: Seq<Seq<char>>) -> Seq<char>
    decreases lines.len(),
{
    if lines.len() == 0 {
        Seq::empty()
    } else {
        lines_text(lines.drop_last()) + lines.last() + seq!['\n']
    }
}

pub open spec fn chunk_text(c: Option<String>) -> Seq<char> {
    match c {
        Some(s) => s@,
        None => Seq::empty(),
    }
}

/// Log lines of one run waiting to be handed to the front end.
pub struct LogBatch {
    lines: Vec<String>,
}

impl LogBatch {
    /// The lines waiting, oldest first.
    pub closed spec fn pending(&self) -> Seq<Seq<char>> {
        self.lines@.map_values(|l: String| l@)
    }

    /// An empty batch.
    pub fn new() -> (b: LogBatch)
        ensures
            b.pending() == Seq::<Seq<char>>::empty(),
    {
        let b = LogBatch { lines: Vec::new() };
        assert(b.pending() =~= Seq::<Seq<char>>::empty());
        b
    }

    /// Number of lines waiting.
    pub fn len(&self) -> (n: usize)
        ensures
            n == self.pending().len(),
    {
        self.lines.len()
    }

    fn take_chunk(&mut self) -> (r: String)
        ensures
            r@ == lines_text(old(self).pending()),
            final(self).pending() == Seq::<Seq<char>>::empty(),
    {
        let mut out: Vec<char> = Vec::new();
        let mut i: usize = 0;
        while i < self.lines.len()
            invariant
                i <= self.lines.len(),
                out@ == lines_text(self.pending().take(i as int)),
            decreases self.lines.len() - i,
        {
            let cs = chars_of(self.lines[i].as_str());
            let mut k: usize = 0;
            let ghost before = out@;
            while k < cs.len()
                invariant
                    k <= cs.len(),
                    out@ == before + cs@.take(k as int),
                decreases cs.len() - k,
            {
                out.push(cs[k]);
                k = k + 1;
                assert(cs@.take(k as int) == cs@.take(k - 1).push(cs@[k - 1]));
            }
            assert(cs@.take(cs.len() as int) == cs@);
            out.push('\n');
            i = i + 1;
            assert(self.pending().take(i as int).drop_last() == self.pending().take(i - 1));
        }
        assert(self.pending().take(self.lines.len() as int) == self.pending());
        self.lines = Vec::new();
        assert(self.pending() =~= Seq::<Seq<char>>::empty());
        string_from_chars(out.as_slice())
    }

    /// Adds a line.  When the batch reaches `LOG_FLUSH_LINES` lines, or
    /// `LOG_FLUSH_INTERVAL_MS` milliseconds have passed since the last hand-over,
    /// gives the whole batch as one chunk and starts a new one.  No line is
    /// lost or repeated: what is handed over followed by what waits is what
    /// waited before followed by the new line.
    pub fn push_line(&mut self, line: String, elapsed_ms: u128) -> (chunk: Option<String>)
        ensures
            ({
                let all = old(self).pending().push(line@);
                if all.len() >= LOG_FLUSH_LINES || elapsed_ms >= LOG_FLUSH_INTERVAL_MS {
                    &&& chunk matches Some(c) && c@ == lines_text(all)
                    &&& final(self).pending() == Seq::<Seq<char>>::empty()
                } else {
                    &&& chunk is None
                    &&& final(self).pending() == all
                }
            }),
            chunk_text(chunk) + lines_text(final(self).pending()) == lines_text(
                old(self).pending(),
            ) + line@ + seq!['\n'],
    {
        let ghost before = self.pending();
        self.lines.push(line);
        assert(self.pending() =~= before.push(line@));
        assert(lines_text(before.push(line@)).len() >= 0);
        assert(before.push(line@).drop_last() == before);
        if self.lines.len() >= LOG_FLUSH_LINES || elapsed_ms >= LOG_FLUSH_INTERVAL_MS {
            let c = self.take_chunk();
            assert(lines_text(Seq::<Seq<char>>::empty()) == Seq::<char>::empty());
            assert(c@ + Seq::<char>::empty() =~= c@);
            Some(c)
        } else {
            assert(Seq::<char>::empty() + lines_text(self.pending()) =~= lines_text(
                self.pending(),
            ));
            None
        }
    }

    /// Hands over whatever waits (nothing when the batch is empty).
    pub fn finish(&mut self) -> (chunk: Option<String>)
        ensures
            old(self).pending().len() == 0 ==> chunk is None,
            old(self).pending().len() > 0 ==> (chunk matches Some(c) && c@ == lines_text(
                old(self).pending(),
            )),
            final(self).pending() == Seq::<Seq<char>>::empty(),
    {
        if self.lines.len() == 0 {
            assert(self.pending() =~= Seq::<Seq<char>>::empty());
            return None;
        }
        Some(self.take_chunk())
    }
}

/// Exit code and success of a finished run: a missing code (killed by a
/// signal, or waiting failed) counts as -1, and only 0 is a success.
pub fn exit_report(code: Option<i32>) -> (r: (i32, bool))
    ensures
        r.0 == match code {
            Some(c) => c as int,
            None => -1int,
        },
        r.1 == (r.0 == 0),
{
    let c = match code {
        Some(c) => c,
        None => -1,
    };
    (c, c == 0)
}

} // verus!
