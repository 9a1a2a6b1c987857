//! Path texts handed in by the front end: input checks, the directory check,
//! and the removal of the Windows extended-length prefix.

use vstd::prelude::*;

use crate::text::{chars_of, concat, has_char, owned, seq_starts_with, string_from_chars, starts_with_chars};

verus! {

/// The operating system the launcher runs on.
#[derive(Clone, Copy, Debug, PartialEq, Eq, Structural)]
pub enum Os {
    Windows,
    MacOs,
    Linux,
    Other,
}

/// Longest path text (in UTF-8 bytes) that the launcher accepts.
pub const MAX_PATH_LEN: usize = 4096;

/// The Windows extended-length prefix `\\?\`.
pub open spec fn verbatim_prefix() -> Seq<char> {
    seq!['\\', '\\', '?', '\\']
}

/// A path text as shown to the user: on Windows without the `\\?\` prefix.
pub open spec fn display_path(s: Seq<char>, os: Os) -> Seq<char> {
    if os == Os::Windows && seq_starts_with(s, verbatim_prefix()) {
        s.skip(4)
    } else {
        s
    }
}

/// The path text with the Windows extended-length prefix `\\?\` removed
/// (only on Windows).
pub fn strip_extended_path(path: &str, os: Os) -> (r: String)
    ensures
        r@ == display_path(path@, os),
{
    let cs = chars_of(path);
    if os == Os::Windows {
        let prefix: Vec<char> = vec!['\\', '\\', '?', '\\'];
        assert(prefix@ == verbatim_prefix());
        if starts_with_chars(cs.as_slice(), prefix.as_slice()) {
            let mut rest: Vec<char> = Vec::new();
            let mut i: usize = 4;
            while i < cs.len()
                invariant
                    4 <= i <= cs.len(),
                    rest@ == cs@.subrange(4, i as int),
                decreases cs.len() - i,
            {
                rest.push(cs[i]);
                i = i + 1;
                assert(cs@.subrange(4, i as int) == cs@.subrange(4, i - 1).push(cs@[i - 1]));
            }
            assert(cs@.subrange(4, cs.len() as int) == cs@.skip(4));
            return string_from_chars(rest.as_slice());
        }
    }
    string_from_chars(cs.as_slice())
}

/// The text of a path (its lossy UTF-8 form) as handed to the front end.
pub fn path_to_string(lossy: &str, os: Os) -> (r: String)
    ensures
        r@ == display_path(lossy@, os),
{
    strip_extended_path(lossy, os)
}

pub open spec fn msg_path_invalid() -> Seq<char> {
    "路径无效或过长"@
}

pub open spec fn msg_path_nul() -> Seq<char> {
    "路径包含非法字符"@
}

pub open spec fn msg_not_dir() -> Seq<char> {
    "路径不是有效目录"@
}

pub open spec fn msg_canonical_prefix() -> Seq<char> {
    "无法解析路径: "@
}

pub open spec fn msg_canonical_not_dir() -> Seq<char> {
    "规范化后的路径不是目录"@
}

/// What `validate_path_input` answers: the error message, if any.
pub open spec fn path_input_error(path: &str) -> Option<Seq<char>> {
    if path@.len() == 0 || path.len() > MAX_PATH_LEN {
        Some(msg_path_invalid())
    } else if path@.contains('\0') {
        Some(msg_path_nul())
    } else {
        None
    }
}

/// Light checks of a path text without touching the disk: it is not empty,
/// at most 4096 bytes long, and holds no NUL character.
pub fn validate_path_input(path: &str) -> (r: Result<(), String>)
    ensures
        match path_input_error(path) {
            Some(m) => r matches Err(e) && e@ == m,
            None => r is Ok,
        },
{
    if path.is_empty() || path.len() > MAX_PATH_LEN {
        return Err(owned("路径无效或过长"));
    }
    let cs = chars_of(path);
    if has_char(cs.as_slice(), '\0') {
        return Err(owned("路径包含非法字符"));
    }
    Ok(())
}

/// What the file system said about a path: whether it is a directory, its
/// canonical form (or the text of the error), and whether that canonical
/// form is a directory.
pub struct DirProbe {
    pub is_dir: bool,
    pub canonical: Result<String, String>,
    pub canonical_is_dir: bool,
}

/// What `validate_dir_path` answers for a path and what the file system said
/// about it.
pub open spec fn dir_check(path: &str, probe: DirProbe) -> Result<Seq<char>, Seq<char>> {
    match path_input_error(path) {
        Some(m) => Err(m),
        None => if !probe.is_dir {
            Err(msg_not_dir())
        } else {
            match probe.canonical {
                Err(e) => Err(msg_canonical_prefix() + e@),
                Ok(c) => if !probe.canonical_is_dir {
                    Err(msg_canonical_not_dir())
                } else {
                    Ok(c@)
                },
            }
        },
    }
}

pub open spec fn result_view(r: Result<String, String>) -> Result<Seq<char>, Seq<char>> {
    match r {
        Ok(s) => Ok(s@),
        Err(e) => Err(e@),
    }
}

/// Checks a directory path from the front end: the input checks, then that
/// it is a directory, that it can be made canonical, and that the canonical
/// form is a directory.  Gives the canonical path.
pub fn validate_dir_path(path: &str, probe: &DirProbe) -> (r: Result<String, String>)
    ensures
        result_view(r) == dir_check(path, *probe),
{
    match validate_path_input(path) {
        Err(e) => return Err(e),
        Ok(()) => {},
    }
    if !probe.is_dir {
        return Err(owned("路径不是有效目录"));
    }
    match &probe.canonical {
        Err(e) => Err(concat("无法解析路径: ", e.as_str())),
        Ok(c) => {
            if !probe.canonical_is_dir {
                Err(owned("规范化后的路径不是目录"))
            } else {
                Ok(owned(c.as_str()))
            }
        },
    }
}

} // verus!
