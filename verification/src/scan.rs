//! Finding Node.js projects: reading the scripts of a `package.json`, and the
//! decisions of the directory scan.

use vstd::prelude::*;

use crate::config::Project;
use crate::outside::{package_json_script_entries, package_scripts, script_entries_view};
use crate::paths::{dir_check, display_path, path_to_string, validate_dir_path, DirProbe, Os};
use crate::text::{chars_of, owned, seq_starts_with, str_eq, starts_with_chars};

verus! {

/// The scripts that a `package.json` lists, each with its command (empty
/// when the value is not a string).
pub open spec fn scripts_from_entries_spec(e: Seq<(Seq<char>, Option<Seq<char>>)>) -> Seq<
    (Seq<char>, Seq<char>),
> {
    e.map_values(
        |x: (Seq<char>, Option<Seq<char>>)|
            (
                x.0,
                match x.1 {
                    Some(c) => c,
                    None => Seq::<char>::empty(),
                },
            ),
    )
}

pub open spec fn scripts_view(v: Seq<(String, String)>) -> Seq<(Seq<char>, Seq<char>)> {
    v.map_values(|x: (String, String)| (x.0@, x.1@))
}

/// The scripts of a `package.json` from the members of its `scripts` object:
/// a value that is not a string counts as an empty command.
pub fn scripts_from_entries(entries: Vec<(String, Option<String>)>) -> (r: Vec<(String, String)>)
    ensures
        scripts_view(r@) == scripts_from_entries_spec(script_entries_view(entries)),
{
    let mut r: Vec<(String, String)> = Vec::new();
    let mut i: usize = 0;
    while i < entries.len()
        invariant
            i <= entries.len(),
            scripts_view(r@) == scripts_from_entries_spec(script_entries_view(entries)).take(
                i as int,
            ),
        decreases entries.len() - i,
    {
        let name = owned(entries[i].0.as_str());
        let command = match &entries[i].1 {
            Some(c) => owned(c.as_str()),
            None => String::new(),
        };
        let ghost spec_all = scripts_from_entries_spec(script_entries_view(entries));
        assert(spec_all[i as int] == (name@, command@));
        let ghost old_r = r@;
        let ghost nv = (name@, command@);
        r.push((name, command));
        assert(scripts_view(r@) =~= scripts_view(old_r).push(nv));
        i = i + 1;
        assert(scripts_view(r@) =~= scripts_from_entries_spec(script_entries_view(entries)).take(
            i as int,
        ));
    }
    assert(scripts_from_entries_spec(script_entries_view(entries)).take(entries.len() as int)
        =~= scripts_from_entries_spec(script_entries_view(entries)));
    r
}

/// The scripts of a `package.json` text, or `None` when the text is not JSON
/// or has no `scripts` object.
pub fn parse_package_json(content: &str) -> (r: Option<Vec<(String, String)>>)
    ensures
        match package_scripts(content@) {
            Some(e) => r matches Some(v) && scripts_view(v@) == scripts_from_entries_spec(e),
            None => r is None,
        },
{
    match package_json_script_entries(content) {
        Some(entries) => Some(scripts_from_entries(entries)),
        None => None,
    }
}

/// The name of a project: the last component of its path, or `unknown` when
/// the path has none (or it is not valid UTF-8).
pub fn project_name_from_path(file_name: Option<&str>) -> (r: String)
    ensures
        r@ == match file_name {
            Some(n) => n@,
            None => "unknown"@,
        },
{
    match file_name {
        Some(n) => owned(n),
        None => owned("unknown"),
    }
}

/// What the file system said about a folder that may hold a project.
pub struct ProjectProbe {
    /// The directory check of the folder.
    pub dir: DirProbe,
    /// Whether `package.json` exists in the canonical folder.
    pub has_package_json: bool,
    /// The last component of the canonical folder (`Path::file_name`).
    pub dir_name: Option<String>,
    /// The text of `package.json`, when it could be read.
    pub package_json: Option<String>,
}

pub open spec fn msg_unparsable_scripts() -> Seq<char> {
    "package.json 存在但无法解析 scripts"@
}

pub open spec fn option_str_view(o: Option<String>) -> Option<Seq<char>> {
    match o {
        Some(s) => Some(s@),
        None => None,
    }
}

pub open spec fn project_view(p: Project) -> (Seq<char>, Seq<char>, Seq<(Seq<char>, Seq<char>)>) {
    (p.name@, p.path@, scripts_view(p.scripts@))
}

/// The scripts read from an optional `package.json` text.
pub open spec fn scripts_of(content: Option<String>) -> Option<Seq<(Seq<char>, Seq<char>)>> {
    match content {
        Some(t) => match package_scripts(t@) {
            Some(e) => Some(scripts_from_entries_spec(e)),
            None => None,
        },
        None => None,
    }
}

/// `scan_project`: checks the folder; no `package.json` means no project;
/// a `package.json` whose scripts cannot be read is an error; otherwise the
/// project with its folder name, canonical path and scripts.
pub fn scan_project(path: &str, probe: &ProjectProbe, os: Os) -> (r: Result<Option<Project>, String>)
    ensures
        match dir_check(path, probe.dir) {
            Err(m) => r matches Err(e) && e@ == m,
            Ok(c) => if !probe.has_package_json {
                r matches Ok(None)
            } else {
                match scripts_of(probe.package_json) {
                    None => r matches Err(e) && e@ == msg_unparsable_scripts(),
                    Some(s) => r matches Ok(Some(p)) && project_view(p) == (
                        match option_str_view(probe.dir_name) {
                            Some(n) => n,
                            None => "unknown"@,
                        },
                        display_path(c, os),
                        s,
                    ),
                }
            },
        },
{
    let dir = match validate_dir_path(path, &probe.dir) {
        Err(e) => return Err(e),
        Ok(d) => d,
    };
    if !probe.has_package_json {
        return Ok(None);
    }
    let name = match &probe.dir_name {
        Some(n) => project_name_from_path(Some(n.as_str())),
        None => project_name_from_path(None),
    };
    let scripts = match &probe.package_json {
        Some(t) => parse_package_json(t.as_str()),
        None => None,
    };
    match scripts {
        Some(s) => Ok(Some(Project { name, path: path_to_string(dir.as_str(), os), scripts: s })),
        None => Err(owned("package.json 存在但无法解析 scripts")),
    }
}

/// Deepest level below the chosen folder that the directory scan enters.
pub const SCAN_MAX_DEPTH: usize = 3;

/// What the directory scan does with a sub-folder.
#[derive(Clone, Copy, Debug, PartialEq, Eq, Structural)]
pub enum EntryAction {
    /// `node_modules` and hidden folders are passed over.
    Skip,
    /// A folder with a `package.json` is a project candidate (not entered).
    Project,
    /// Any other folder is scanned one level deeper.
    Descend,
}

pub open spec fn entry_action_spec(name: Option<Seq<char>>, has_package_json: bool) -> EntryAction {
    if name is Some && (name->0 == "node_modules"@ || seq_starts_with(name->0, seq!['.'])) {
        EntryAction::Skip
    } else if has_package_json {
        EntryAction::Project
    } else {
        EntryAction::Descend
    }
}

/// `node_modules` and hidden folders (a name starting with `.`) are never
/// entered nor taken as projects, whatever they hold; any other folder is a
/// project candidate exactly when it has a `package.json`, and is entered
/// otherwise.
pub proof fn lemma_entry_actions(name: Option<Seq<char>>, has_package_json: bool)
    ensures
        (name matches Some(n) && (n == "node_modules"@ || (n.len() > 0 && n[0] == '.')))
            ==> entry_action_spec(name, has_package_json) == EntryAction::Skip,
        !(name matches Some(n) && (n == "node_modules"@ || (n.len() > 0 && n[0] == '.')))
            ==> entry_action_spec(name, has_package_json) == (if has_package_json {
            EntryAction::Project
        } else {
            EntryAction::Descend
        }),
{
    if let Some(n) = name {
        if n.len() > 0 && n[0] == '.' {
            assert(n.take(1) =~= seq!['.']);
        }
        if seq_starts_with(n, seq!['.']) {
            assert(n[0] == n.take(1)[0]);
        }
    }
}

/// The scan's decision for a sub-folder with this name (`None` when the name
/// is not valid UTF-8) and with or without a `package.json`.
pub fn entry_action(name: Option<&str>, has_package_json: bool) -> (r: EntryAction)
    ensures
        r == entry_action_spec(
            match name {
                Some(n) => Some(n@),
                None => None,
            },
            has_package_json,
        ),
{
    if let Some(n) = name {
        let cs = chars_of(n);
        let dot: Vec<char> = vec!['.'];
        assert(dot@ =~= seq!['.']);
        if str_eq(n, "node_modules") || starts_with_chars(cs.as_slice(), dot.as_slice()) {
            return EntryAction::Skip;
        }
    }
    if has_package_json {
        EntryAction::Project
    } else {
        EntryAction::Descend
    }
}

/// Whether the scan still reads folders at this depth.
pub fn scan_depth_allowed(depth: usize, max_depth: usize) -> (r: bool)
    ensures
        r == (depth <= max_depth),
{
    depth <= max_depth
}

/// The project found in a scanned folder: kept only when its `package.json`
/// could be read and has a `scripts` object.
pub fn project_from_entry(
    dir_name: Option<&str>,
    lossy_path: &str,
    package_json: Option<&str>,
    os: Os,
) -> (r: Option<Project>)
    ensures
        match package_json {
            None => r is None,
            Some(t) => match package_scripts(t@) {
                None => r is None,
                Some(e) => r matches Some(p) && project_view(p) == (
                    match dir_name {
                        Some(n) => n@,
                        None => "unknown"@,
                    },
                    display_path(lossy_path@, os),
                    scripts_from_entries_spec(e),
                ),
            },
        },
{
    let t = match package_json {
        Some(t) => t,
        None => return None,
    };
    match parse_package_json(t) {
        Some(scripts) => Some(
            Project {
                name: project_name_from_path(dir_name),
                path: path_to_string(lossy_path, os),
                scripts,
            },
        ),
        None => None,
    }
}

} // verus!
