//! Editors the launcher can open a project with: the table of known
//! editors, how their launchers are recognised, and the checks made before
//! one is run.

use vstd::prelude::*;

use crate::paths::{display_path, result_view, strip_extended_path, verbatim_prefix, Os};
use crate::text::{
    ascii_lower, ascii_lower_chars, is_ascii_letter, is_ascii_upper, chars_of, concat, contains_chars, ends_with_chars, find_char,
    first_index_of, has_char, owned, seq_contains, seq_ends_with, seq_starts_with,
    starts_with_chars, str_eq, string_from_chars, take_chars, trim_char, trim_char_chars,
    trim_chars, trim_spec,
};

verus! {

/// What identifies one editor and where its launcher is looked for.
pub struct IdeSpec {
    pub id: &'static str,
    pub name: &'static str,
    /// Command names looked up on the `PATH`.
    pub cli_names: Vec<&'static str>,
    /// A launcher path must hold one of these (ASCII case ignored); none
    /// listed means no such condition.
    pub path_includes: Vec<&'static str>,
    /// A launcher path must hold none of these (ASCII case ignored).
    pub path_excludes: Vec<&'static str>,
    /// Launchers below the usual Windows install folders.
    pub windows_rel: Vec<&'static str>,
    /// The display name of a Windows uninstall entry holds all of these.
    pub reg_includes: Vec<&'static str>,
    /// ... and none of these.
    pub reg_excludes: Vec<&'static str>,
    /// Launcher file names inside a Windows install folder.
    pub exe_names: Vec<&'static str>,
    /// macOS application bundle names.
    pub mac_apps: Vec<&'static str>,
    /// Launchers at fixed places on Unix systems.
    pub unix_bins: Vec<&'static str>,
}

/// The contents of an `IdeSpec` as mathematical texts.
pub struct IdeSpecView {
    pub id: Seq<char>,
    pub name: Seq<char>,
    pub cli_names: Seq<Seq<char>>,
    pub path_includes: Seq<Seq<char>>,
    pub path_excludes: Seq<Seq<char>>,
    pub windows_rel: Seq<Seq<char>>,
    pub reg_includes: Seq<Seq<char>>,
    pub reg_excludes: Seq<Seq<char>>,
    pub exe_names: Seq<Seq<char>>,
    pub mac_apps: Seq<Seq<char>>,
    pub unix_bins: Seq<Seq<char>>,
}

pub open spec fn strs_view(v: Vec<&'static str>) -> Seq<Seq<char>> {
    v@.map_values(|s: &'static str| s@)
}

pub open spec fn spec_view(s: IdeSpec) -> IdeSpecView {
    IdeSpecView {
        id: s.id@,
        name: s.name@,
        cli_names: strs_view(s.cli_names),
        path_includes: strs_view(s.path_includes),
        path_excludes: strs_view(s.path_excludes),
        windows_rel: strs_view(s.windows_rel),
        reg_includes: strs_view(s.reg_includes),
        reg_excludes: strs_view(s.reg_excludes),
        exe_names: strs_view(s.exe_names),
        mac_apps: strs_view(s.mac_apps),
        unix_bins: strs_view(s.unix_bins),
    }
}

pub open spec fn specs_view(v: Seq<IdeSpec>) -> Seq<IdeSpecView> {
    v.map_values(|s: IdeSpec| spec_view(s))
}

pub open spec fn vscode_view() -> IdeSpecView {
    IdeSpecView {
        id: "vscode"@,
        name: "Visual Studio Code"@,
        cli_names: seq!["code"@],
        path_includes: seq!["microsoft vs code"@, "vscode"@],
        path_excludes: seq![],
        windows_rel: seq![r"Microsoft VS Code\Code.exe"@, r"Microsoft VS Code\bin\code.cmd"@],
        reg_includes: seq!["visual studio code"@],
        reg_excludes: seq![],
        exe_names: seq!["Code.exe"@],
        mac_apps: seq!["Visual Studio Code"@],
        unix_bins: seq!["/usr/local/bin/code"@, "/usr/bin/code"@, "/Applications/Visual Studio Code.app/Contents/Resources/app/bin/code"@],
    }
}

fn vscode_spec() -> (s: IdeSpec)
    ensures
        spec_view(s) == vscode_view(),
{
    let s = IdeSpec {
        id: "vscode",
        name: "Visual Studio Code",
        cli_names: vec!["code"],
        path_includes: vec!["microsoft vs code", "vscode"],
        path_excludes: vec![],
        windows_rel: vec![r"Microsoft VS Code\Code.exe", r"Microsoft VS Code\bin\code.cmd"],
        reg_includes: vec!["visual studio code"],
        reg_excludes: vec![],
        exe_names: vec!["Code.exe"],
        mac_apps: vec!["Visual Studio Code"],
        unix_bins: vec!["/usr/local/bin/code", "/usr/bin/code", "/Applications/Visual Studio Code.app/Contents/Resources/app/bin/code"],
    };
    assert(strs_view(s.cli_names) =~= seq!["code"@]);
    assert(strs_view(s.path_includes) =~= seq!["microsoft vs code"@, "vscode"@]);
    assert(strs_view(s.path_excludes) =~= seq![]);
    assert(strs_view(s.windows_rel) =~= seq![r"Microsoft VS Code\Code.exe"@, r"Microsoft VS Code\bin\code.cmd"@]);
    assert(strs_view(s.reg_includes) =~= seq!["visual studio code"@]);
    assert(strs_view(s.reg_excludes) =~= seq![]);
    assert(strs_view(s.exe_names) =~= seq!["Code.exe"@]);
    assert(strs_view(s.mac_apps) =~= seq!["Visual Studio Code"@]);
    assert(strs_view(s.unix_bins) =~= seq!["/usr/local/bin/code"@, "/usr/bin/code"@, "/Applications/Visual Studio Code.app/Contents/Resources/app/bin/code"@]);
    s
}

pub open spec fn cursor_view() -> IdeSpecView {
    IdeSpecView {
        id: "cursor"@,
        name: "Cursor"@,
        cli_names: seq!["cursor"@],
        path_includes: seq!["cursor"@],
        path_excludes: seq![],
        windows_rel: seq![r"cursor\Cursor.exe"@, r"Cursor\Cursor.exe"@, r"cursor\resources\app\bin\cursor.cmd"@],
        reg_includes: seq!["cursor"@],
        reg_excludes: seq![],
        exe_names: seq!["Cursor.exe"@],
        mac_apps: seq!["Cursor"@],
        unix_bins: seq!["/usr/local/bin/cursor"@, "/usr/bin/cursor"@, "/Applications/Cursor.app/Contents/Resources/app/bin/cursor"@],
    }
}

fn cursor_spec() -> (s: IdeSpec)
    ensures
        spec_view(s) == cursor_view(),
{
    let s = IdeSpec {
        id: "cursor",
        name: "Cursor",
        cli_names: vec!["cursor"],
        path_includes: vec!["cursor"],
        path_excludes: vec![],
        windows_rel: vec![r"cursor\Cursor.exe", r"Cursor\Cursor.exe", r"cursor\resources\app\bin\cursor.cmd"],
        reg_includes: vec!["cursor"],
        reg_excludes: vec![],
        exe_names: vec!["Cursor.exe"],
        mac_apps: vec!["Cursor"],
        unix_bins: vec!["/usr/local/bin/cursor", "/usr/bin/cursor", "/Applications/Cursor.app/Contents/Resources/app/bin/cursor"],
    };
    assert(strs_view(s.cli_names) =~= seq!["cursor"@]);
    assert(strs_view(s.path_includes) =~= seq!["cursor"@]);
    assert(strs_view(s.path_excludes) =~= seq![]);
    assert(strs_view(s.windows_rel) =~= seq![r"cursor\Cursor.exe"@, r"Cursor\Cursor.exe"@, r"cursor\resources\app\bin\cursor.cmd"@]);
    assert(strs_view(s.reg_includes) =~= seq!["cursor"@]);
    assert(strs_view(s.reg_excludes) =~= seq![]);
    assert(strs_view(s.exe_names) =~= seq!["Cursor.exe"@]);
    assert(strs_view(s.mac_apps) =~= seq!["Cursor"@]);
    assert(strs_view(s.unix_bins) =~= seq!["/usr/local/bin/cursor"@, "/usr/bin/cursor"@, "/Applications/Cursor.app/Contents/Resources/app/bin/cursor"@]);
    s
}

pub open spec fn trae_solo_cn_view() -> IdeSpecView {
    IdeSpecView {
        id: "trae-solo-cn"@,
        name: "TRAE SOLO CN"@,
        cli_names: seq!["trae"@],
        path_includes: seq!["trae solo"@],
        path_excludes: seq![],
        windows_rel: seq![r"TRAE SOLO CN\TRAE SOLO CN.exe"@],
        reg_includes: seq!["trae solo"@],
        reg_excludes: seq![],
        exe_names: seq!["TRAE SOLO CN.exe"@, "Trae Solo CN.exe"@],
        mac_apps: seq!["TRAE SOLO CN"@],
        unix_bins: seq![],
    }
}

fn trae_solo_cn_spec() -> (s: IdeSpec)
    ensures
        spec_view(s) == trae_solo_cn_view(),
{
    let s = IdeSpec {
        id: "trae-solo-cn",
        name: "TRAE SOLO CN",
        cli_names: vec!["trae"],
        path_includes: vec!["trae solo"],
        path_excludes: vec![],
        windows_rel: vec![r"TRAE SOLO CN\TRAE SOLO CN.exe"],
        reg_includes: vec!["trae solo"],
        reg_excludes: vec![],
        exe_names: vec!["TRAE SOLO CN.exe", "Trae Solo CN.exe"],
        mac_apps: vec!["TRAE SOLO CN"],
        unix_bins: vec![],
    };
    assert(strs_view(s.cli_names) =~= seq!["trae"@]);
    assert(strs_view(s.path_includes) =~= seq!["trae solo"@]);
    assert(strs_view(s.path_excludes) =~= seq![]);
    assert(strs_view(s.windows_rel) =~= seq![r"TRAE SOLO CN\TRAE SOLO CN.exe"@]);
    assert(strs_view(s.reg_includes) =~= seq!["trae solo"@]);
    assert(strs_view(s.reg_excludes) =~= seq![]);
    assert(strs_view(s.exe_names) =~= seq!["TRAE SOLO CN.exe"@, "Trae Solo CN.exe"@]);
    assert(strs_view(s.mac_apps) =~= seq!["TRAE SOLO CN"@]);
    assert(strs_view(s.unix_bins) =~= seq![]);
    s
}

pub open spec fn trae_cn_view() -> IdeSpecView {
    IdeSpecView {
        id: "trae-cn"@,
        name: "Trae CN"@,
        cli_names: seq!["trae"@],
        path_includes: seq!["trae cn"@],
        path_excludes: seq!["solo"@],
        windows_rel: seq![r"Trae CN\Trae CN.exe"@, r"Trae CN\bin\trae.cmd"@, r"Trae CN\bin\trae.exe"@],
        reg_includes: seq!["trae cn"@],
        reg_excludes: seq!["solo"@],
        exe_names: seq!["Trae CN.exe"@],
        mac_apps: seq!["Trae CN"@],
        unix_bins: seq!["/usr/local/bin/trae"@, "/usr/bin/trae"@],
    }
}

fn trae_cn_spec() -> (s: IdeSpec)
    ensures
        spec_view(s) == trae_cn_view(),
{
    let s = IdeSpec {
        id: "trae-cn",
        name: "Trae CN",
        cli_names: vec!["trae"],
        path_includes: vec!["trae cn"],
        path_excludes: vec!["solo"],
        windows_rel: vec![r"Trae CN\Trae CN.exe", r"Trae CN\bin\trae.cmd", r"Trae CN\bin\trae.exe"],
        reg_includes: vec!["trae cn"],
        reg_excludes: vec!["solo"],
        exe_names: vec!["Trae CN.exe"],
        mac_apps: vec!["Trae CN"],
        unix_bins: vec!["/usr/local/bin/trae", "/usr/bin/trae"],
    };
    assert(strs_view(s.cli_names) =~= seq!["trae"@]);
    assert(strs_view(s.path_includes) =~= seq!["trae cn"@]);
    assert(strs_view(s.path_excludes) =~= seq!["solo"@]);
    assert(strs_view(s.windows_rel) =~= seq![r"Trae CN\Trae CN.exe"@, r"Trae CN\bin\trae.cmd"@, r"Trae CN\bin\trae.exe"@]);
    assert(strs_view(s.reg_includes) =~= seq!["trae cn"@]);
    assert(strs_view(s.reg_excludes) =~= seq!["solo"@]);
    assert(strs_view(s.exe_names) =~= seq!["Trae CN.exe"@]);
    assert(strs_view(s.mac_apps) =~= seq!["Trae CN"@]);
    assert(strs_view(s.unix_bins) =~= seq!["/usr/local/bin/trae"@, "/usr/bin/trae"@]);
    s
}

pub open spec fn trae_view() -> IdeSpecView {
    IdeSpecView {
        id: "trae"@,
        name: "Trae"@,
        cli_names: seq!["trae"@],
        path_includes: seq!["trae"@],
        path_excludes: seq!["trae cn"@, "solo"@],
        windows_rel: seq![r"Trae\Trae.exe"@, r"Trae\bin\trae.cmd"@],
        reg_includes: seq!["trae"@],
        reg_excludes: seq!["trae cn"@, "solo"@],
        exe_names: seq!["Trae.exe"@],
        mac_apps: seq!["Trae"@],
        unix_bins: seq!["/usr/local/bin/trae"@, "/usr/bin/trae"@],
    }
}

fn trae_spec() -> (s: IdeSpec)
    ensures
        spec_view(s) == trae_view(),
{
    let s = IdeSpec {
        id: "trae",
        name: "Trae",
        cli_names: vec!["trae"],
        path_includes: vec!["trae"],
        path_excludes: vec!["trae cn", "solo"],
        windows_rel: vec![r"Trae\Trae.exe", r"Trae\bin\trae.cmd"],
        reg_includes: vec!["trae"],
        reg_excludes: vec!["trae cn", "solo"],
        exe_names: vec!["Trae.exe"],
        mac_apps: vec!["Trae"],
        unix_bins: vec!["/usr/local/bin/trae", "/usr/bin/trae"],
    };
    assert(strs_view(s.cli_names) =~= seq!["trae"@]);
    assert(strs_view(s.path_includes) =~= seq!["trae"@]);
    assert(strs_view(s.path_excludes) =~= seq!["trae cn"@, "solo"@]);
    assert(strs_view(s.windows_rel) =~= seq![r"Trae\Trae.exe"@, r"Trae\bin\trae.cmd"@]);
    assert(strs_view(s.reg_includes) =~= seq!["trae"@]);
    assert(strs_view(s.reg_excludes) =~= seq!["trae cn"@, "solo"@]);
    assert(strs_view(s.exe_names) =~= seq!["Trae.exe"@]);
    assert(strs_view(s.mac_apps) =~= seq!["Trae"@]);
    assert(strs_view(s.unix_bins) =~= seq!["/usr/local/bin/trae"@, "/usr/bin/trae"@]);
    s
}

pub open spec fn codebuddy_cn_view() -> IdeSpecView {
    IdeSpecView {
        id: "codebuddy-cn"@,
        name: "CodeBuddy (CN)"@,
        cli_names: seq!["codebuddy"@, "CodeBuddy"@],
        path_includes: seq!["codebuddy cn"@, "codebuddy-cn"@],
        path_excludes: seq![],
        windows_rel: seq![r"CodeBuddy CN\CodeBuddy CN.exe"@, r"CodeBuddy CN\CodeBuddy.exe"@, r"CodeBuddy CN\bin\codebuddy.cmd"@, r"CodeBuddy\CodeBuddy CN.exe"@],
        reg_includes: seq!["codebuddy cn"@],
        reg_excludes: seq![],
        exe_names: seq!["CodeBuddy CN.exe"@, "CodeBuddy.exe"@],
        mac_apps: seq!["CodeBuddy CN"@],
        unix_bins: seq![],
    }
}

fn codebuddy_cn_spec() -> (s: IdeSpec)
    ensures
        spec_view(s) == codebuddy_cn_view(),
{
    let s = IdeSpec {
        id: "codebuddy-cn",
        name: "CodeBuddy (CN)",
        cli_names: vec!["codebuddy", "CodeBuddy"],
        path_includes: vec!["codebuddy cn", "codebuddy-cn"],
        path_excludes: vec![],
        windows_rel: vec![r"CodeBuddy CN\CodeBuddy CN.exe", r"CodeBuddy CN\CodeBuddy.exe", r"CodeBuddy CN\bin\codebuddy.cmd", r"CodeBuddy\CodeBuddy CN.exe"],
        reg_includes: vec!["codebuddy cn"],
        reg_excludes: vec![],
        exe_names: vec!["CodeBuddy CN.exe", "CodeBuddy.exe"],
        mac_apps: vec!["CodeBuddy CN"],
        unix_bins: vec![],
    };
    assert(strs_view(s.cli_names) =~= seq!["codebuddy"@, "CodeBuddy"@]);
    assert(strs_view(s.path_includes) =~= seq!["codebuddy cn"@, "codebuddy-cn"@]);
    assert(strs_view(s.path_excludes) =~= seq![]);
    assert(strs_view(s.windows_rel) =~= seq![r"CodeBuddy CN\CodeBuddy CN.exe"@, r"CodeBuddy CN\CodeBuddy.exe"@, r"CodeBuddy CN\bin\codebuddy.cmd"@, r"CodeBuddy\CodeBuddy CN.exe"@]);
    assert(strs_view(s.reg_includes) =~= seq!["codebuddy cn"@]);
    assert(strs_view(s.reg_excludes) =~= seq![]);
    assert(strs_view(s.exe_names) =~= seq!["CodeBuddy CN.exe"@, "CodeBuddy.exe"@]);
    assert(strs_view(s.mac_apps) =~= seq!["CodeBuddy CN"@]);
    assert(strs_view(s.unix_bins) =~= seq![]);
    s
}

pub open spec fn codebuddy_view() -> IdeSpecView {
    IdeSpecView {
        id: "codebuddy"@,
        name: "CodeBuddy (Intl)"@,
        cli_names: seq!["codebuddy"@, "CodeBuddy"@],
        path_includes: seq!["codebuddy"@],
        path_excludes: seq!["codebuddy cn"@, "codebuddy-cn"@, "workbuddy"@],
        windows_rel: seq![r"CodeBuddy\CodeBuddy.exe"@, r"CodeBuddy\bin\codebuddy.cmd"@],
        reg_includes: seq!["codebuddy"@],
        reg_excludes: seq!["codebuddy cn"@, "workbuddy"@],
        exe_names: seq!["CodeBuddy.exe"@],
        mac_apps: seq!["CodeBuddy"@],
        unix_bins: seq!["/usr/local/bin/codebuddy"@, "/usr/bin/codebuddy"@],
    }
}

fn codebuddy_spec() -> (s: IdeSpec)
    ensures
        spec_view(s) == codebuddy_view(),
{
    let s = IdeSpec {
        id: "codebuddy",
        name: "CodeBuddy (Intl)",
        cli_names: vec!["codebuddy", "CodeBuddy"],
        path_includes: vec!["codebuddy"],
        path_excludes: vec!["codebuddy cn", "codebuddy-cn", "workbuddy"],
        windows_rel: vec![r"CodeBuddy\CodeBuddy.exe", r"CodeBuddy\bin\codebuddy.cmd"],
        reg_includes: vec!["codebuddy"],
        reg_excludes: vec!["codebuddy cn", "workbuddy"],
        exe_names: vec!["CodeBuddy.exe"],
        mac_apps: vec!["CodeBuddy"],
        unix_bins: vec!["/usr/local/bin/codebuddy", "/usr/bin/codebuddy"],
    };
    assert(strs_view(s.cli_names) =~= seq!["codebuddy"@, "CodeBuddy"@]);
    assert(strs_view(s.path_includes) =~= seq!["codebuddy"@]);
    assert(strs_view(s.path_excludes) =~= seq!["codebuddy cn"@, "codebuddy-cn"@, "workbuddy"@]);
    assert(strs_view(s.windows_rel) =~= seq![r"CodeBuddy\CodeBuddy.exe"@, r"CodeBuddy\bin\codebuddy.cmd"@]);
    assert(strs_view(s.reg_includes) =~= seq!["codebuddy"@]);
    assert(strs_view(s.reg_excludes) =~= seq!["codebuddy cn"@, "workbuddy"@]);
    assert(strs_view(s.exe_names) =~= seq!["CodeBuddy.exe"@]);
    assert(strs_view(s.mac_apps) =~= seq!["CodeBuddy"@]);
    assert(strs_view(s.unix_bins) =~= seq!["/usr/local/bin/codebuddy"@, "/usr/bin/codebuddy"@]);
    s
}

pub open spec fn windsurf_view() -> IdeSpecView {
    IdeSpecView {
        id: "windsurf"@,
        name: "Windsurf"@,
        cli_names: seq!["windsurf"@],
        path_includes: seq!["windsurf"@],
        path_excludes: seq![],
        windows_rel: seq![r"Windsurf\Windsurf.exe"@, r"Windsurf\bin\windsurf.cmd"@],
        reg_includes: seq!["windsurf"@],
        reg_excludes: seq![],
        exe_names: seq!["Windsurf.exe"@],
        mac_apps: seq!["Windsurf"@],
        unix_bins: seq!["/usr/local/bin/windsurf"@, "/usr/bin/windsurf"@],
    }
}

fn windsurf_spec() -> (s: IdeSpec)
    ensures
        spec_view(s) == windsurf_view(),
{
    let s = IdeSpec {
        id: "windsurf",
        name: "Windsurf",
        cli_names: vec!["windsurf"],
        path_includes: vec!["windsurf"],
        path_excludes: vec![],
        windows_rel: vec![r"Windsurf\Windsurf.exe", r"Windsurf\bin\windsurf.cmd"],
        reg_includes: vec!["windsurf"],
        reg_excludes: vec![],
        exe_names: vec!["Windsurf.exe"],
        mac_apps: vec!["Windsurf"],
        unix_bins: vec!["/usr/local/bin/windsurf", "/usr/bin/windsurf"],
    };
    assert(strs_view(s.cli_names) =~= seq!["windsurf"@]);
    assert(strs_view(s.path_includes) =~= seq!["windsurf"@]);
    assert(strs_view(s.path_excludes) =~= seq![]);
    assert(strs_view(s.windows_rel) =~= seq![r"Windsurf\Windsurf.exe"@, r"Windsurf\bin\windsurf.cmd"@]);
    assert(strs_view(s.reg_includes) =~= seq!["windsurf"@]);
    assert(strs_view(s.reg_excludes) =~= seq![]);
    assert(strs_view(s.exe_names) =~= seq!["Windsurf.exe"@]);
    assert(strs_view(s.mac_apps) =~= seq!["Windsurf"@]);
    assert(strs_view(s.unix_bins) =~= seq!["/usr/local/bin/windsurf"@, "/usr/bin/windsurf"@]);
    s
}

pub open spec fn vscodium_view() -> IdeSpecView {
    IdeSpecView {
        id: "vscodium"@,
        name: "VSCodium"@,
        cli_names: seq!["codium"@],
        path_includes: seq!["vscodium"@],
        path_excludes: seq![],
        windows_rel: seq![r"VSCodium\VSCodium.exe"@, r"VSCodium\bin\codium.cmd"@],
        reg_includes: seq!["vscodium"@],
        reg_excludes: seq![],
        exe_names: seq!["VSCodium.exe"@],
        mac_apps: seq!["VSCodium"@],
        unix_bins: seq!["/usr/local/bin/codium"@, "/usr/bin/codium"@],
    }
}

fn vscodium_spec() -> (s: IdeSpec)
    ensures
        spec_view(s) == vscodium_view(),
{
    let s = IdeSpec {
        id: "vscodium",
        name: "VSCodium",
        cli_names: vec!["codium"],
        path_includes: vec!["vscodium"],
        path_excludes: vec![],
        windows_rel: vec![r"VSCodium\VSCodium.exe", r"VSCodium\bin\codium.cmd"],
        reg_includes: vec!["vscodium"],
        reg_excludes: vec![],
        exe_names: vec!["VSCodium.exe"],
        mac_apps: vec!["VSCodium"],
        unix_bins: vec!["/usr/local/bin/codium", "/usr/bin/codium"],
    };
    assert(strs_view(s.cli_names) =~= seq!["codium"@]);
    assert(strs_view(s.path_includes) =~= seq!["vscodium"@]);
    assert(strs_view(s.path_excludes) =~= seq![]);
    assert(strs_view(s.windows_rel) =~= seq![r"VSCodium\VSCodium.exe"@, r"VSCodium\bin\codium.cmd"@]);
    assert(strs_view(s.reg_includes) =~= seq!["vscodium"@]);
    assert(strs_view(s.reg_excludes) =~= seq![]);
    assert(strs_view(s.exe_names) =~= seq!["VSCodium.exe"@]);
    assert(strs_view(s.mac_apps) =~= seq!["VSCodium"@]);
    assert(strs_view(s.unix_bins) =~= seq!["/usr/local/bin/codium"@, "/usr/bin/codium"@]);
    s
}

/// The editors the launcher knows, in the order they are looked for.
pub open spec fn ide_table() -> Seq<IdeSpecView> {
    seq![
        vscode_view(),
        cursor_view(),
        trae_solo_cn_view(),
        trae_cn_view(),
        trae_view(),
        codebuddy_cn_view(),
        codebuddy_view(),
        windsurf_view(),
        vscodium_view(),
    ]
}

/// The editors the launcher knows.
pub fn ide_specs() -> (specs: Vec<IdeSpec>)
    ensures
        specs_view(specs@) == ide_table(),
{
    let mut specs: Vec<IdeSpec> = Vec::new();
    specs.push(vscode_spec());
    specs.push(cursor_spec());
    specs.push(trae_solo_cn_spec());
    specs.push(trae_cn_spec());
    specs.push(trae_spec());
    specs.push(codebuddy_cn_spec());
    specs.push(codebuddy_spec());
    specs.push(windsurf_spec());
    specs.push(vscodium_spec());
    assert(specs_view(specs@) =~= ide_table());
    specs
}

/// The editors of the table have distinct identifiers, so an identifier
/// names at most one editor.
pub proof fn lemma_ide_ids_distinct()
    ensures
        forall|i: int, j: int|
            0 <= i < ide_table().len() && 0 <= j < ide_table().len() && i != j ==> #[trigger] ide_table()[i].id
                != #[trigger] ide_table()[j].id,
{
    reveal_strlit("vscode");
    reveal_strlit("cursor");
    reveal_strlit("trae-solo-cn");
    reveal_strlit("trae-cn");
    reveal_strlit("trae");
    reveal_strlit("codebuddy-cn");
    reveal_strlit("codebuddy");
    reveal_strlit("windsurf");
    reveal_strlit("vscodium");
    let t = ide_table();
    assert(t.len() == 9);
    assert forall|i: int, j: int| 0 <= i < t.len() && 0 <= j < t.len() && i != j implies #[trigger] t[i].id
        != #[trigger] t[j].id by {
        if t[i].id == t[j].id {
            assert(t[i].id.len() == t[j].id.len());
            assert(t[i].id[0] == t[j].id[0]);
            assert(t[i].id[t[i].id.len() - 1] == t[j].id[t[j].id.len() - 1]);
            if t[i].id.len() > 4 {
                assert(t[i].id[4] == t[j].id[4]);
            }
        }
    }
}

// ----- keyword rules -----

/// Some needle, ASCII lower-cased, occurs in the text.
pub open spec fn any_occurs(hay: Seq<char>, needles: Seq<Seq<char>>) -> bool {
    exists|i: int| 0 <= i < needles.len() && seq_contains(hay, ascii_lower(#[trigger] needles[i]))
}

/// Every needle, ASCII lower-cased, occurs in the text.
pub open spec fn all_occur(hay: Seq<char>, needles: Seq<Seq<char>>) -> bool {
    forall|i: int| 0 <= i < needles.len() ==> seq_contains(hay, ascii_lower(#[trigger] needles[i]))
}

fn any_needle_in(hay: &[char], needles: &Vec<&'static str>) -> (r: bool)
    ensures
        r == any_occurs(hay@, strs_view(*needles)),
{
    let mut i: usize = 0;
    while i < needles.len()
        invariant
            i <= needles.len(),
            forall|k: int|
                0 <= k < i ==> !seq_contains(hay@, ascii_lower(#[trigger] strs_view(*needles)[k])),
        decreases needles.len() - i,
    {
        let n = chars_of(needles[i]);
        let l = ascii_lower_chars(n.as_slice());
        if contains_chars(hay, l.as_slice()) {
            assert(strs_view(*needles)[i as int] == needles@[i as int]@);
            return true;
        }
        i = i + 1;
    }
    false
}

fn all_needles_in(hay: &[char], needles: &Vec<&'static str>) -> (r: bool)
    ensures
        r == all_occur(hay@, strs_view(*needles)),
{
    let mut i: usize = 0;
    while i < needles.len()
        invariant
            i <= needles.len(),
            forall|k: int|
                0 <= k < i ==> seq_contains(hay@, ascii_lower(#[trigger] strs_view(*needles)[k])),
        decreases needles.len() - i,
    {
        let n = chars_of(needles[i]);
        let l = ascii_lower_chars(n.as_slice());
        if !contains_chars(hay, l.as_slice()) {
            assert(strs_view(*needles)[i as int] == needles@[i as int]@);
            return false;
        }
        i = i + 1;
    }
    true
}

/// The path keyword rules of an editor: the ASCII lower-cased path holds one
/// of the include keywords (when any are listed) and none of the exclude
/// keywords.
pub open spec fn keywords_ok(v: IdeSpecView, path: Seq<char>) -> bool {
    let lower = ascii_lower(path);
    (v.path_includes.len() == 0 || any_occurs(lower, v.path_includes)) && !any_occurs(
        lower,
        v.path_excludes,
    )
}

/// Whether a launcher path satisfies the path keyword rules of an editor.
pub fn path_matches_spec(spec: &IdeSpec, path: &str) -> (r: bool)
    ensures
        r == keywords_ok(spec_view(*spec), path@),
{
    let cs = chars_of(path);
    let lower = ascii_lower_chars(cs.as_slice());
    let include_ok = spec.path_includes.len() == 0 || any_needle_in(
        lower.as_slice(),
        &spec.path_includes,
    );
    let exclude_ok = !any_needle_in(lower.as_slice(), &spec.path_excludes);
    include_ok && exclude_ok
}

/// The position of the first editor with this identifier in a table.
pub open spec fn find_spec(t: Seq<IdeSpecView>, id: Seq<char>) -> Option<nat>
    decreases t.len(),
{
    if t.len() == 0 {
        None
    } else if t[0].id == id {
        Some(0)
    } else {
        match find_spec(t.drop_first(), id) {
            Some(i) => Some(i + 1),
            None => None,
        }
    }
}

proof fn lemma_find_spec(t: Seq<IdeSpecView>, id: Seq<char>, i: int)
    requires
        0 <= i <= t.len(),
        forall|k: int| 0 <= k < i ==> t[k].id != id,
    ensures
        i < t.len() && t[i].id == id ==> find_spec(t, id) == Some(i as nat),
        i == t.len() ==> find_spec(t, id) is None,
    decreases i,
{
    if i > 0 {
        lemma_find_spec(t.drop_first(), id, i - 1);
    }
}

proof fn lemma_find_spec_found(t: Seq<IdeSpecView>, id: Seq<char>)
    ensures
        find_spec(t, id) matches Some(i) ==> i < t.len() && t[i as int].id == id,
    decreases t.len(),
{
    if t.len() > 0 && t[0].id != id {
        lemma_find_spec_found(t.drop_first(), id);
    }
}

/// The position of the first editor with this identifier.
pub fn find_spec_index(specs: &Vec<IdeSpec>, id: &str) -> (r: Option<usize>)
    ensures
        match r {
            Some(i) => find_spec(specs_view(specs@), id@) == Some(i as nat) && i < specs.len(),
            None => find_spec(specs_view(specs@), id@) is None,
        },
{
    let ghost t = specs_view(specs@);
    let mut i: usize = 0;
    while i < specs.len()
        invariant
            i <= specs.len(),
            t == specs_view(specs@),
            forall|k: int| 0 <= k < i ==> t[k].id != id@,
        decreases specs.len() - i,
    {
        if str_eq(specs[i].id, id) {
            proof {
                lemma_find_spec(t, id@, i as int);
            }
            return Some(i);
        }
        i = i + 1;
    }
    proof {
        lemma_find_spec(t, id@, i as int);
    }
    None
}

/// The keyword rules of the known editor with this identifier (false for an
/// unknown identifier).
pub open spec fn edition_matches(id: Seq<char>, path: Seq<char>) -> bool {
    match find_spec(ide_table(), id) {
        Some(i) => keywords_ok(ide_table()[i as int], path),
        None => false,
    }
}

/// Whether a launcher path satisfies the keyword rules of the known editor
/// with this identifier.
pub fn path_matches_edition(spec_id: &str, path: &str) -> (r: bool)
    ensures
        r == edition_matches(spec_id@, path@),
{
    let specs = ide_specs();
    match find_spec_index(&specs, spec_id) {
        Some(i) => path_matches_spec(&specs[i], path),
        None => false,
    }
}

/// A text without ASCII upper-case letters is its own ASCII lower case.
proof fn lemma_ascii_lower_unchanged(s: Seq<char>)
    requires
        forall|i: int| 0 <= i < s.len() ==> !is_ascii_upper(#[trigger] s[i]),
    ensures
        ascii_lower(s) == s,
{
    assert(ascii_lower(s) =~= s);
}

/// A text that holds `n` also holds every piece of `n`.
proof fn lemma_contains_piece(h: Seq<char>, n: Seq<char>, m: Seq<char>, k: int)
    requires
        seq_contains(h, n),
        0 <= k,
        k + m.len() <= n.len(),
        n.subrange(k, k + m.len()) == m,
    ensures
        seq_contains(h, m),
{
    let i = choose|i: int|
        0 <= i && i + n.len() <= h.len() && #[trigger] h.subrange(i, i + n.len()) == n;
    assert(h.subrange(i + k, i + k + m.len()) =~= n.subrange(k, k + m.len()));
}

/// The only include keyword of an editor that lists one.
proof fn lemma_single_include(v: IdeSpecView, path: Seq<char>)
    requires
        v.path_includes.len() == 1,
        keywords_ok(v, path),
    ensures
        seq_contains(ascii_lower(path), ascii_lower(v.path_includes[0])),
{
    let lower = ascii_lower(path);
    let i = choose|i: int|
        0 <= i < v.path_includes.len() && seq_contains(lower, ascii_lower(#[trigger] v.path_includes[i]));
    assert(i == 0);
}

/// A path that holds an exclude keyword of an editor fails its rules.
proof fn lemma_excluded(v: IdeSpecView, path: Seq<char>, k: int)
    requires
        0 <= k < v.path_excludes.len(),
        seq_contains(ascii_lower(path), ascii_lower(v.path_excludes[k])),
    ensures
        !keywords_ok(v, path),
{
    assert(any_occurs(ascii_lower(path), v.path_excludes));
}

/// The path keywords tell the editions of one product apart: no path
/// satisfies the rules of two of the Trae editions (`trae-solo-cn`,
/// `trae-cn`, `trae`), nor of both CodeBuddy editions (`codebuddy-cn`,
/// `codebuddy`).
pub proof fn lemma_editions_exclusive(path: Seq<char>)
    ensures
        !(edition_matches("trae-solo-cn"@, path) && edition_matches("trae-cn"@, path)),
        !(edition_matches("trae-solo-cn"@, path) && edition_matches("trae"@, path)),
        !(edition_matches("trae-cn"@, path) && edition_matches("trae"@, path)),
        !(edition_matches("codebuddy-cn"@, path) && edition_matches("codebuddy"@, path)),
{
    let t = ide_table();
    lemma_ide_ids_distinct();
    assert forall|k: int| 2 <= k <= 6 implies find_spec(t, t[k].id) == Some(k as nat) by {
        assert forall|m: int| 0 <= m < k implies t[m].id != t[k].id by {
            assert(t[m].id != t[k].id);
        }
        lemma_find_spec(t, t[k].id, k);
    }
    assert(t[2] == trae_solo_cn_view());
    assert(t[3] == trae_cn_view());
    assert(t[4] == trae_view());
    assert(t[5] == codebuddy_cn_view());
    assert(t[6] == codebuddy_view());
    assert(find_spec(t, t[2].id) == Some(2nat));
    assert(find_spec(t, t[3].id) == Some(3nat));
    assert(find_spec(t, t[4].id) == Some(4nat));
    assert(find_spec(t, t[5].id) == Some(5nat));
    assert(find_spec(t, t[6].id) == Some(6nat));
    reveal_strlit("trae solo");
    reveal_strlit("trae cn");
    reveal_strlit("solo");
    reveal_strlit("codebuddy cn");
    reveal_strlit("codebuddy-cn");
    lemma_ascii_lower_unchanged("trae solo"@);
    lemma_ascii_lower_unchanged("trae cn"@);
    lemma_ascii_lower_unchanged("solo"@);
    lemma_ascii_lower_unchanged("codebuddy cn"@);
    lemma_ascii_lower_unchanged("codebuddy-cn"@);
    let lower = ascii_lower(path);
    let solo = trae_solo_cn_view();
    let cn = trae_cn_view();
    let intl = trae_view();
    // `trae solo` holds `solo`, which both other Trae editions exclude.
    if keywords_ok(solo, path) {
        lemma_single_include(solo, path);
        assert("trae solo"@.subrange(5, 9) =~= "solo"@);
        lemma_contains_piece(lower, "trae solo"@, "solo"@, 5);
        assert(cn.path_excludes[0] == "solo"@);
        lemma_excluded(cn, path, 0);
        assert(intl.path_excludes[1] == "solo"@);
        lemma_excluded(intl, path, 1);
    }
    // `trae cn` is excluded by the international edition.
    if keywords_ok(cn, path) {
        lemma_single_include(cn, path);
        assert(intl.path_excludes[0] == "trae cn"@);
        lemma_excluded(intl, path, 0);
    }
    // Either include keyword of CodeBuddy CN is excluded by the international edition.
    let bcn = codebuddy_cn_view();
    let bintl = codebuddy_view();
    if keywords_ok(bcn, path) {
        let i = choose|i: int|
            0 <= i < bcn.path_includes.len() && seq_contains(lower, ascii_lower(#[trigger] bcn.path_includes[i]));
        assert(bintl.path_excludes[0] == bcn.path_includes[0]);
        assert(bintl.path_excludes[1] == bcn.path_includes[1]);
        lemma_excluded(bintl, path, i);
    }
}

// ----- install locations -----

/// Path fragments (lower case) that mark temporary folders.
pub open spec fn temp_markers() -> Seq<Seq<char>> {
    seq![
        r"\temp\"@,
        "/temp/"@,
        r"\tmp\"@,
        "/tmp/"@,
        r"\windows\temp"@,
        "/var/tmp"@,
        r"\appdata\local\temp"@,
        r"\appdata\local\tmp"@,
    ]
}

/// A path text read component by component: the components finished so
/// far (empty ones left out) and the one being read.
pub open spec fn components_acc(s: Seq<char>, os: Os) -> (Seq<Seq<char>>, Seq<char>)
    decreases s.len(),
{
    if s.len() == 0 {
        (Seq::empty(), Seq::empty())
    } else {
        let (done, cur) = components_acc(s.drop_last(), os);
        if is_separator(s.last(), os) {
            (push_component(done, cur), Seq::empty())
        } else {
            (done, cur.push(s.last()))
        }
    }
}

pub open spec fn push_component(done: Seq<Seq<char>>, c: Seq<char>) -> Seq<Seq<char>> {
    if c.len() > 0 {
        done.push(c)
    } else {
        done
    }
}

/// The components of a path: the texts between its separators, empty ones
/// left out.
pub open spec fn path_components(s: Seq<char>, os: Os) -> Seq<Seq<char>> {
    push_component(components_acc(s, os).0, components_acc(s, os).1)
}

/// Whether a path starts at the root (with a separator).
pub open spec fn path_is_rooted(s: Seq<char>, os: Os) -> bool {
    s.len() > 0 && is_separator(s[0], os)
}

/// Whether `path` is the folder `dir` or lies below it: both start at the
/// root or neither does, and the components of `dir` begin those of `path`
/// (whole components only, so `/tmpx` is not below `/tmp`).
pub open spec fn path_below(path: Seq<char>, dir: Seq<char>, os: Os) -> bool {
    let pc = path_components(path, os);
    let dc = path_components(dir, os);
    path_is_rooted(path, os) == path_is_rooted(dir, os) && dc.len() <= pc.len() && pc.take(
        dc.len() as int,
    ) == dc
}

/// The folder a `TEMP`, `TMP` or `TMPDIR` value names: trimmed, without the
/// Windows `\\?\` prefix; nothing when it is unset or that leaves it empty.
pub open spec fn temp_dir_of(value: Option<Seq<char>>, os: Os) -> Option<Seq<char>> {
    match value {
        Some(v) => {
            let t = display_path(trim_spec(v), os);
            if t.len() == 0 {
                None
            } else {
                Some(t)
            }
        },
        None => None,
    }
}

pub open spec fn below_temp_dir(path: Seq<char>, value: Option<Seq<char>>, os: Os) -> bool {
    match temp_dir_of(value, os) {
        Some(t) => path_below(display_path(path, os), t, os),
        None => false,
    }
}

/// Whether a path (without the Windows `\\?\` prefix) lies in or below the
/// folder of one of the given `TEMP` / `TMP` / `TMPDIR` values.
pub open spec fn under_temp_spec(path: Seq<char>, temps: Seq<Option<Seq<char>>>, os: Os) -> bool {
    exists|k: int| 0 <= k < temps.len() && #[trigger] below_temp_dir(path, temps[k], os)
}

pub open spec fn opt_strings_view(v: Seq<Option<String>>) -> Seq<Option<Seq<char>>> {
    v.map_values(|o: Option<String>| option_string_view(o))
}

pub open spec fn chars_seqs(v: Seq<Vec<char>>) -> Seq<Seq<char>> {
    v.map_values(|c: Vec<char>| c@)
}

fn path_components_exec(cs: &[char], os: Os) -> (r: Vec<Vec<char>>)
    ensures
        chars_seqs(r@) == path_components(cs@, os),
{
    let mut done: Vec<Vec<char>> = Vec::new();
    let mut cur: Vec<char> = Vec::new();
    let mut i: usize = 0;
    while i < cs.len()
        invariant
            i <= cs.len(),
            chars_seqs(done@) == components_acc(cs@.take(i as int), os).0,
            cur@ == components_acc(cs@.take(i as int), os).1,
        decreases cs.len() - i,
    {
        let c = cs[i];
        assert(cs@.take(i + 1).drop_last() =~= cs@.take(i as int));
        assert(cs@.take(i + 1).last() == c);
        if is_separator_exec(c, os) {
            if cur.len() > 0 {
                let ghost prev = chars_seqs(done@);
                let ghost item = cur@;
                done.push(cur);
                assert(chars_seqs(done@) =~= prev.push(item));
            }
            cur = Vec::new();
        } else {
            cur.push(c);
        }
        i = i + 1;
    }
    assert(cs@.take(cs.len() as int) =~= cs@);
    if cur.len() > 0 {
        let ghost prev = chars_seqs(done@);
        let ghost item = cur@;
        done.push(cur);
        assert(chars_seqs(done@) =~= prev.push(item));
    }
    done
}

fn components_begin_with(pc: &Vec<Vec<char>>, dc: &Vec<Vec<char>>) -> (r: bool)
    ensures
        r == (dc@.len() <= pc@.len() && chars_seqs(pc@).take(dc@.len() as int) == chars_seqs(dc@)),
{
    if dc.len() > pc.len() {
        return false;
    }
    let mut i: usize = 0;
    while i < dc.len()
        invariant
            i <= dc@.len() <= pc@.len(),
            forall|j: int| 0 <= j < i ==> pc@[j]@ == dc@[j]@,
        decreases dc.len() - i,
    {
        if !crate::text::chars_eq(pc[i].as_slice(), dc[i].as_slice()) {
            assert(chars_seqs(pc@).take(dc@.len() as int)[i as int] == pc@[i as int]@);
            assert(chars_seqs(dc@)[i as int] == dc@[i as int]@);
            return false;
        }
        i = i + 1;
    }
    assert(chars_seqs(pc@).take(dc@.len() as int) =~= chars_seqs(dc@));
    true
}

fn path_below_exec(path: &[char], dir: &[char], os: Os) -> (r: bool)
    ensures
        r == path_below(path@, dir@, os),
{
    let path_rooted = path.len() > 0 && is_separator_exec(path[0], os);
    let dir_rooted = dir.len() > 0 && is_separator_exec(dir[0], os);
    if path_rooted != dir_rooted {
        return false;
    }
    let pc = path_components_exec(path, os);
    let dc = path_components_exec(dir, os);
    components_begin_with(&pc, &dc)
}

fn temp_dir_exec(value: &Option<String>, os: Os) -> (r: Option<Vec<char>>)
    ensures
        match r {
            Some(t) => temp_dir_of(option_string_view(*value), os) == Some(t@),
            None => temp_dir_of(option_string_view(*value), os) is None,
        },
{
    match value {
        None => None,
        Some(v) => {
            let cs = chars_of(v.as_str());
            let trimmed = trim_chars(cs.as_slice());
            let ts = string_from_chars(trimmed.as_slice());
            let stripped = strip_extended_path(ts.as_str(), os);
            let t = chars_of(stripped.as_str());
            if t.len() == 0 {
                None
            } else {
                Some(t)
            }
        },
    }
}

/// Whether a launcher path (without the Windows `\\?\` prefix) lies in or
/// below the folder of one of the values of `TEMP`, `TMP`, `TMPDIR`
/// (`temps`; `None` for one that is unset).
pub fn under_temp_dir(path: &str, temps: &Vec<Option<String>>, os: Os) -> (r: bool)
    ensures
        r == under_temp_spec(path@, opt_strings_view(temps@), os),
{
    let stripped = strip_extended_path(path, os);
    let p = chars_of(stripped.as_str());
    let ghost tv = opt_strings_view(temps@);
    let mut k: usize = 0;
    while k < temps.len()
        invariant
            k <= temps.len(),
            tv == opt_strings_view(temps@),
            p@ == display_path(path@, os),
            forall|j: int| 0 <= j < k ==> !below_temp_dir(path@, #[trigger] tv[j], os),
        decreases temps.len() - k,
    {
        assert(tv[k as int] == option_string_view(temps@[k as int]));
        if let Some(t) = temp_dir_exec(&temps[k], os) {
            if path_below_exec(p.as_slice(), t.as_slice(), os) {
                assert(below_temp_dir(path@, tv[k as int], os));
                return true;
            }
        }
        k = k + 1;
    }
    false
}
/// Whether a launcher path lies in a temporary folder: its lower-cased text
/// (without the Windows `\\?\` prefix) holds a temporary-folder marker, or it
/// lies in or below the folder of one of the `TEMP`, `TMP`, `TMPDIR` values
/// (`temps`).
pub open spec fn unsafe_location(path: Seq<char>, os: Os, temps: Seq<Option<Seq<char>>>) -> bool {
    let lower = ascii_lower(display_path(path, os));
    (exists|i: int| 0 <= i < temp_markers().len() && seq_contains(lower, #[trigger] temp_markers()[i]))
        || under_temp_spec(path, temps, os)
}

/// The folder named by a `TEMP` / `TMP` / `TMPDIR` value is itself a
/// temporary location, whatever its name.
pub proof fn lemma_temp_folder_itself_unsafe(path: Seq<char>, temps: Seq<Option<Seq<char>>>, os: Os, k: int)
    requires
        0 <= k < temps.len(),
        temp_dir_of(temps[k], os) == Some(display_path(path, os)),
    ensures
        unsafe_location(path, os, temps),
{
    let d = display_path(path, os);
    assert(path_components(d, os).take(path_components(d, os).len() as int) =~= path_components(d, os));
    assert(below_temp_dir(path, temps[k], os));
}

/// A path marked as temporary by its text (`\temp\`, `/tmp/`, ...) is
/// refused whatever the environment says.
pub proof fn lemma_marked_path_unsafe(path: Seq<char>, temps: Seq<Option<Seq<char>>>, os: Os, i: int)
    requires
        0 <= i < temp_markers().len(),
        seq_contains(ascii_lower(display_path(path, os)), temp_markers()[i]),
    ensures
        unsafe_location(path, os, temps),
{
}

/// On Windows the extended-length prefix `\\?\` changes nothing: a path
/// with it is judged as the same path without it.
pub proof fn lemma_verbatim_prefix_ignored(path: Seq<char>, temps: Seq<Option<Seq<char>>>)
    requires
        !seq_starts_with(path, verbatim_prefix()),
    ensures
        unsafe_location(verbatim_prefix() + path, Os::Windows, temps) == unsafe_location(
            path,
            Os::Windows,
            temps,
        ),
{
    let full = verbatim_prefix() + path;
    assert(full.take(4) =~= verbatim_prefix());
    assert(full.skip(4) =~= path);
    assert(display_path(full, Os::Windows) == path);
    assert(display_path(path, Os::Windows) == path);
    assert forall|k: int| 0 <= k < temps.len() implies #[trigger] below_temp_dir(full, temps[k], Os::Windows)
        == below_temp_dir(path, temps[k], Os::Windows) by {}
    if under_temp_spec(full, temps, Os::Windows) {
        let k = choose|k: int| 0 <= k < temps.len() && #[trigger] below_temp_dir(full, temps[k], Os::Windows);
        assert(below_temp_dir(path, temps[k], Os::Windows));
    }
    if under_temp_spec(path, temps, Os::Windows) {
        let k = choose|k: int| 0 <= k < temps.len() && #[trigger] below_temp_dir(path, temps[k], Os::Windows);
        assert(below_temp_dir(full, temps[k], Os::Windows));
    }
}

/// Whether a launcher path lies in a temporary folder (spoofing risk).
pub fn is_unsafe_install_location(path: &str, os: Os, temps: &Vec<Option<String>>) -> (r: bool)
    ensures
        r == unsafe_location(path@, os, opt_strings_view(temps@)),
{
    let stripped = strip_extended_path(path, os);
    let cs = chars_of(stripped.as_str());
    let lower = ascii_lower_chars(cs.as_slice());
    let markers: Vec<&'static str> = vec![
        r"\temp\",
        "/temp/",
        r"\tmp\",
        "/tmp/",
        r"\windows\temp",
        "/var/tmp",
        r"\appdata\local\temp",
        r"\appdata\local\tmp",
    ];
    assert(strs_view(markers) =~= temp_markers());
    let mut i: usize = 0;
    while i < markers.len()
        invariant
            i <= markers.len(),
            strs_view(markers) == temp_markers(),
            lower@ == ascii_lower(display_path(path@, os)),
            forall|k: int| 0 <= k < i ==> !seq_contains(lower@, #[trigger] temp_markers()[k]),
        decreases markers.len() - i,
    {
        let m = chars_of(markers[i]);
        assert(m@ == temp_markers()[i as int]);
        if contains_chars(lower.as_slice(), m.as_slice()) {
            return true;
        }
        i = i + 1;
    }
    under_temp_dir(path, temps, os)
}

/// Whether a launcher may be run from this path: anywhere but a temporary
/// folder (custom install folders are allowed).
pub fn is_trusted_install_path(path: &str, os: Os, temps: &Vec<Option<String>>) -> (r: bool)
    ensures
        r == !unsafe_location(path@, os, opt_strings_view(temps@)),
{
    !is_unsafe_install_location(path, os, temps)
}

// ----- Windows uninstall entries -----

/// The launcher named by an uninstall entry's `DisplayIcon` value
/// (`"C:\...\Cursor.exe",0`): trimmed, quotes removed, the icon index after
/// the first comma dropped; nothing when that leaves an empty text.
pub open spec fn icon_path_spec(raw: Seq<char>) -> Option<Seq<char>> {
    let s = trim_char(trim_spec(raw), '"');
    let t = match first_index_of(s, ',') {
        Some(i) => trim_char(trim_spec(s.take(i as int)), '"'),
        None => s,
    };
    if t.len() == 0 {
        None
    } else {
        Some(t)
    }
}

/// The launcher path an uninstall entry's `DisplayIcon` value names, before
/// the check that the file exists.
pub fn normalize_icon_path(raw: &str) -> (r: Option<String>)
    ensures
        match r {
            Some(p) => icon_path_spec(raw@) == Some(p@),
            None => icon_path_spec(raw@) is None,
        },
{
    let cs = chars_of(raw);
    let t = trim_chars(cs.as_slice());
    let s = trim_char_chars(t.as_slice(), '"');
    let out = match find_char(s.as_slice(), ',') {
        Some(i) => {
            let left = take_chars(s.as_slice(), i);
            let lt = trim_chars(left.as_slice());
            trim_char_chars(lt.as_slice(), '"')
        },
        None => s,
    };
    if out.len() == 0 {
        None
    } else {
        Some(string_from_chars(out.as_slice()))
    }
}

/// Whether an uninstall entry's display name belongs to an editor: it holds
/// all the include words and none of the exclude words (ASCII case ignored).
pub open spec fn reg_name_ok(v: IdeSpecView, display_name: Seq<char>) -> bool {
    all_occur(ascii_lower(display_name), v.reg_includes) && !any_occurs(
        ascii_lower(display_name),
        v.reg_excludes,
    )
}

/// Whether an uninstall entry's display name belongs to an editor.
pub fn reg_name_matches(spec: &IdeSpec, display_name: &str) -> (r: bool)
    ensures
        r == reg_name_ok(spec_view(*spec), display_name@),
{
    let cs = chars_of(display_name);
    let lower = ascii_lower_chars(cs.as_slice());
    if !all_needles_in(lower.as_slice(), &spec.reg_includes) {
        return false;
    }
    !any_needle_in(lower.as_slice(), &spec.reg_excludes)
}

// ----- path joining -----

/// Whether `c` separates path components (`/`, and on Windows also `\`).
pub open spec fn is_separator(c: char, os: Os) -> bool {
    c == '/' || (os == Os::Windows && c == '\\')
}

/// The separator that joining inserts.
pub open spec fn main_separator(os: Os) -> char {
    if os == Os::Windows {
        '\\'
    } else {
        '/'
    }
}

/// A Windows drive alone, such as `C:`.
pub open spec fn is_bare_drive(base: Seq<char>, os: Os) -> bool {
    os == Os::Windows && base.len() == 2 && base[1] == ':' && (('a' <= base[0] && base[0] <= 'z')
        || ('A' <= base[0] && base[0] <= 'Z'))
}

/// `base` joined with a relative path `rel` (as `Path::join`): a separator is
/// put between them unless `base` is empty, already ends with a separator, or
/// is a bare Windows drive.
pub open spec fn join_spec(base: Seq<char>, rel: Seq<char>, os: Os) -> Seq<char> {
    if base.len() == 0 || is_separator(base.last(), os) || is_bare_drive(base, os) {
        base + rel
    } else {
        base + seq![main_separator(os)] + rel
    }
}

/// A relative path (`rel`) joined to a base path.
pub fn join_path(base: &str, rel: &str, os: Os) -> (r: String)
    ensures
        r@ == join_spec(base@, rel@, os),
{
    let mut cs = chars_of(base);
    let n = cs.len();
    let windows = os == Os::Windows;
    let need_sep = if n == 0 {
        false
    } else {
        let last = cs[n - 1];
        let bare_drive = windows && n == 2 && cs[1] == ':' && (('a' <= cs[0] && cs[0] <= 'z') || (
        'A' <= cs[0] && cs[0] <= 'Z'));
        !(last == '/' || (windows && last == '\\') || bare_drive)
    };
    if need_sep {
        if windows {
            cs.push('\\');
        } else {
            cs.push('/');
        }
    }
    let rs = chars_of(rel);
    let mut i: usize = 0;
    let ghost start = cs@;
    while i < rs.len()
        invariant
            i <= rs.len(),
            cs@ == start + rs@.take(i as int),
        decreases rs.len() - i,
    {
        cs.push(rs[i]);
        i = i + 1;
        assert(rs@.take(i as int) == rs@.take(i - 1).push(rs@[i - 1]));
    }
    assert(rs@.take(rs.len() as int) == rs@);
    string_from_chars(cs.as_slice())
}

// ----- candidates probed on disk -----

/// A path to try, and whether it only counts when the file exists.
pub struct Candidate {
    pub path: String,
    pub must_exist: bool,
}

pub open spec fn candidate_view(c: Candidate) -> (Seq<char>, bool) {
    (c.path@, c.must_exist)
}

pub open spec fn candidates_view(v: Seq<Candidate>) -> Seq<(Seq<char>, bool)> {
    v.map_values(|c: Candidate| candidate_view(c))
}

/// Whether the candidate at position `i` is taken: it need not exist, or the
/// file system says it does (`present[i]`; a missing answer means absent).
pub open spec fn accepted(cands: Seq<(Seq<char>, bool)>, present: Seq<bool>, i: int) -> bool {
    !cands[i].1 || (i < present.len() && present[i])
}

/// The first candidate taken, in order.
pub open spec fn first_accepted(cands: Seq<(Seq<char>, bool)>, present: Seq<bool>) -> Option<Seq<char>>
    decreases cands.len(),
{
    first_accepted_from(cands, present, 0)
}

pub open spec fn first_accepted_from(cands: Seq<(Seq<char>, bool)>, present: Seq<bool>, i: int) -> Option<Seq<char>>
    decreases cands.len() - i,
{
    if i < 0 || i >= cands.len() {
        None
    } else if accepted(cands, present, i) {
        Some(cands[i].0)
    } else {
        first_accepted_from(cands, present, i + 1)
    }
}

/// The first candidate that is taken, in order.
pub fn first_present(cands: &Vec<Candidate>, present: &Vec<bool>) -> (r: Option<String>)
    ensures
        option_string_view(r) == first_accepted(candidates_view(cands@), present@),
{
    let ghost cv = candidates_view(cands@);
    let mut i: usize = 0;
    while i < cands.len()
        invariant
            i <= cands.len(),
            cv == candidates_view(cands@),
            first_accepted_from(cv, present@, 0) == first_accepted_from(cv, present@, i as int),
        decreases cands.len() - i,
    {
        let taken = !cands[i].must_exist || (i < present.len() && present[i]);
        if taken {
            return Some(crate::text::owned(cands[i].path.as_str()));
        }
        i = i + 1;
    }
    None
}

pub open spec fn option_string_view(o: Option<String>) -> Option<Seq<char>> {
    match o {
        Some(s) => Some(s@),
        None => None,
    }
}

fn push_joined(out: &mut Vec<Candidate>, base: &str, names: &Vec<&'static str>, os: Os)
    ensures
        candidates_view(final(out)@) == candidates_view(old(out)@) + strs_view(*names).map_values(
            |n: Seq<char>| (join_spec(base@, n, os), true),
        ),
{
    let ghost start = candidates_view(out@);
    let mut i: usize = 0;
    while i < names.len()
        invariant
            i <= names.len(),
            candidates_view(out@) == start + strs_view(*names).take(i as int).map_values(
                |n: Seq<char>| (join_spec(base@, n, os), true),
            ),
        decreases names.len() - i,
    {
        let p = join_path(base, names[i], os);
        let ghost prev = candidates_view(out@);
        let ghost item = (p@, true);
        out.push(Candidate { path: p, must_exist: true });
        assert(candidates_view(out@) =~= prev.push(item));
        assert(strs_view(*names)[i as int] == names@[i as int]@);
        i = i + 1;
        assert(strs_view(*names).take(i as int) =~= strs_view(*names).take(i - 1).push(
            strs_view(*names)[i - 1],
        ));
        assert(strs_view(*names).take(i as int).map_values(
            |n: Seq<char>| (join_spec(base@, n, os), true),
        ) =~= strs_view(*names).take(i - 1).map_values(
            |n: Seq<char>| (join_spec(base@, n, os), true),
        ).push(item));
    }
    assert(strs_view(*names).take(names.len() as int) =~= strs_view(*names));
}

/// The install folder of an uninstall entry's `InstallLocation` value:
/// trimmed, quotes removed; nothing when that leaves an empty text.
pub open spec fn install_location_spec(raw: Seq<char>) -> Option<Seq<char>> {
    let t = trim_char(trim_spec(raw), '"');
    if t.len() == 0 {
        None
    } else {
        Some(t)
    }
}

/// The install folder named by an uninstall entry's `InstallLocation` value.
pub fn install_location_from(raw: &str) -> (r: Option<String>)
    ensures
        option_string_view(r) == install_location_spec(raw@),
{
    let cs = chars_of(raw);
    let t = trim_chars(cs.as_slice());
    let s = trim_char_chars(t.as_slice(), '"');
    if s.len() == 0 {
        None
    } else {
        Some(string_from_chars(s.as_slice()))
    }
}

/// A Windows uninstall entry: display name, install folder, and the launcher
/// its icon names (when that file exists).
pub struct RegApp {
    pub display_name: String,
    pub install_location: Option<String>,
    pub icon_exe: Option<String>,
}

pub struct RegAppView {
    pub display_name: Seq<char>,
    pub install_location: Option<Seq<char>>,
    pub icon_exe: Option<Seq<char>>,
}

pub open spec fn reg_app_view(a: RegApp) -> RegAppView {
    RegAppView {
        display_name: a.display_name@,
        install_location: option_string_view(a.install_location),
        icon_exe: option_string_view(a.icon_exe),
    }
}

pub open spec fn reg_apps_view(v: Seq<RegApp>) -> Seq<RegAppView> {
    v.map_values(|a: RegApp| reg_app_view(a))
}

/// The lower-cased file name of an icon launcher (empty when unknown).
pub open spec fn lower_name(file_name: Option<Seq<char>>) -> Seq<char> {
    match file_name {
        Some(n) => ascii_lower(n),
        None => Seq::empty(),
    }
}

/// Whether an icon launcher is taken for an editor: not an uninstaller, and
/// its file name is one of the editor's launcher names, or its path matches
/// the editor's keywords, or it is some `.exe`.
pub open spec fn icon_ok(v: IdeSpecView, icon: Seq<char>, os: Os) -> bool {
    let name = lower_name(path_file_name(icon, os));
    !seq_contains(name, "uninstall"@) && ((exists|i: int|
        0 <= i < v.exe_names.len() && ascii_lower(#[trigger] v.exe_names[i]) == name)
        || edition_matches(v.id, icon) || seq_ends_with(name, ".exe"@))
}

/// The launchers an uninstall entry offers for an editor, in the order they
/// are tried: the launcher names inside its install folder (each counts only
/// if the file exists), then the launcher its icon names.
pub open spec fn app_candidates(v: IdeSpecView, a: RegAppView, os: Os) -> Seq<(Seq<char>, bool)> {
    if !reg_name_ok(v, a.display_name) {
        Seq::empty()
    } else {
        let loc = match a.install_location {
            Some(l) => v.exe_names.map_values(|n: Seq<char>| (join_spec(l, n, os), true)),
            None => Seq::empty(),
        };
        let icon = match a.icon_exe {
            Some(i) => if icon_ok(v, i, os) {
                seq![(i, false)]
            } else {
                Seq::empty()
            },
            None => Seq::empty(),
        };
        loc + icon
    }
}

/// The launchers all uninstall entries offer for an editor, entry by entry.
pub open spec fn registry_candidates_spec(v: IdeSpecView, apps: Seq<RegAppView>, os: Os) -> Seq<
    (Seq<char>, bool),
>
    decreases apps.len(),
{
    if apps.len() == 0 {
        Seq::empty()
    } else {
        registry_candidates_spec(v, apps.drop_last(), os) + app_candidates(v, apps.last(), os)
    }
}

fn name_in_lowered(name: &[char], names: &Vec<&'static str>) -> (r: bool)
    ensures
        r == exists|i: int|
            0 <= i < names.len() && ascii_lower(#[trigger] strs_view(*names)[i]) == name@,
{
    let mut i: usize = 0;
    while i < names.len()
        invariant
            i <= names.len(),
            forall|k: int| 0 <= k < i ==> ascii_lower(#[trigger] strs_view(*names)[k]) != name@,
        decreases names.len() - i,
    {
        let n = chars_of(names[i]);
        let l = ascii_lower_chars(n.as_slice());
        assert(strs_view(*names)[i as int] == names@[i as int]@);
        if crate::text::chars_eq(l.as_slice(), name) {
            return true;
        }
        i = i + 1;
    }
    false
}

fn lowered_name(file_name: &Option<String>) -> (r: Vec<char>)
    ensures
        r@ == lower_name(option_string_view(*file_name)),
{
    match file_name {
        Some(n) => {
            let cs = chars_of(n.as_str());
            ascii_lower_chars(cs.as_slice())
        },
        None => Vec::new(),
    }
}

fn push_app_candidates(out: &mut Vec<Candidate>, spec: &IdeSpec, app: &RegApp, os: Os)
    ensures
        candidates_view(final(out)@) == candidates_view(old(out)@) + app_candidates(
            spec_view(*spec),
            reg_app_view(*app),
            os,
        ),
{
    let ghost start = candidates_view(out@);
    if !reg_name_matches(spec, app.display_name.as_str()) {
        assert(candidates_view(out@) =~= start + Seq::<(Seq<char>, bool)>::empty());
        return;
    }
    let ghost v = spec_view(*spec);
    let ghost a = reg_app_view(*app);
    let ghost loc_part = match a.install_location {
        Some(l) => v.exe_names.map_values(|n: Seq<char>| (join_spec(l, n, os), true)),
        None => Seq::<(Seq<char>, bool)>::empty(),
    };
    let ghost icon_part = match a.icon_exe {
        Some(i) => if icon_ok(v, i, os) {
            seq![(i, false)]
        } else {
            Seq::<(Seq<char>, bool)>::empty()
        },
        None => Seq::<(Seq<char>, bool)>::empty(),
    };
    if let Some(loc) = &app.install_location {
        push_joined(out, loc.as_str(), &spec.exe_names, os);
    }
    let ghost mid = candidates_view(out@);
    assert(mid =~= start + loc_part);
    if let Some(icon) = &app.icon_exe {
        let name = lowered_name(&launcher_parts(icon.as_str(), os).file_name);
        let uninstall = chars_of("uninstall");
        let exe_suffix = chars_of(".exe");
        let ok = !contains_chars(name.as_slice(), uninstall.as_slice()) && (name_in_lowered(
            name.as_slice(),
            &spec.exe_names,
        ) || path_matches_edition(spec.id, icon.as_str()) || ends_with_chars(
            name.as_slice(),
            exe_suffix.as_slice(),
        ));
        assert(ok == icon_ok(v, icon@, os));
        if ok {
            out.push(Candidate { path: crate::text::owned(icon.as_str()), must_exist: false });
        }
    }
    assert(candidates_view(out@) =~= mid + icon_part);
    assert(candidates_view(out@) =~= start + (loc_part + icon_part));
}

/// The launchers the uninstall entries offer for an editor, in the order
/// they are tried.
pub fn registry_candidates(spec: &IdeSpec, apps: &Vec<RegApp>, os: Os) -> (r: Vec<Candidate>)
    ensures
        candidates_view(r@) == registry_candidates_spec(spec_view(*spec), reg_apps_view(apps@), os),
{
    let mut out: Vec<Candidate> = Vec::new();
    let mut i: usize = 0;
    while i < apps.len()
        invariant
            i <= apps.len(),
            candidates_view(out@) == registry_candidates_spec(
                spec_view(*spec),
                reg_apps_view(apps@).take(i as int),
                os,
            ),
        decreases apps.len() - i,
    {
        push_app_candidates(&mut out, spec, &apps[i], os);
        i = i + 1;
        assert(reg_apps_view(apps@).take(i as int).drop_last() =~= reg_apps_view(apps@).take(
            i - 1,
        ));
    }
    assert(reg_apps_view(apps@).take(apps.len() as int) =~= reg_apps_view(apps@));
    out
}

/// The launcher of an editor found through the uninstall entries: the first
/// candidate taken, where `present` says which files exist.
pub fn resolve_via_registry(spec: &IdeSpec, apps: &Vec<RegApp>, os: Os, present: &Vec<bool>) -> (r:
    Option<String>)
    ensures
        option_string_view(r) == first_accepted(
            registry_candidates_spec(spec_view(*spec), reg_apps_view(apps@), os),
            present@,
        ),
{
    let cands = registry_candidates(spec, apps, os);
    first_present(&cands, present)
}

// ----- Windows install folders and GUI launchers -----

/// The folders below which editors are usually installed on Windows:
/// `%LOCALAPPDATA%\Programs`, `%ProgramFiles%`, `%ProgramFiles(x86)%` (each
/// when set), then `\Programs` and `\Program Files` on drives C: to G:.
pub open spec fn install_roots_spec(local: Option<Seq<char>>, pf: Option<Seq<char>>, pf86: Option<
    Seq<char>,
>) -> Seq<Seq<char>> {
    let a = match local {
        Some(l) => seq![join_spec(l, "Programs"@, Os::Windows)],
        None => Seq::empty(),
    };
    let b = match pf {
        Some(p) => seq![p],
        None => Seq::empty(),
    };
    let c = match pf86 {
        Some(p) => seq![p],
        None => Seq::empty(),
    };
    a + b + c + drive_roots()
}

pub open spec fn drive_roots() -> Seq<Seq<char>> {
    seq![
        r"C:\Programs"@,
        r"C:\Program Files"@,
        r"D:\Programs"@,
        r"D:\Program Files"@,
        r"E:\Programs"@,
        r"E:\Program Files"@,
        r"F:\Programs"@,
        r"F:\Program Files"@,
        r"G:\Programs"@,
        r"G:\Program Files"@,
    ]
}

pub open spec fn opt_str_view(o: Option<&str>) -> Option<Seq<char>> {
    match o {
        Some(s) => Some(s@),
        None => None,
    }
}

pub open spec fn strings_view(v: Seq<String>) -> Seq<Seq<char>> {
    v.map_values(|s: String| s@)
}

/// The usual Windows install folders, from the values of `LOCALAPPDATA`,
/// `ProgramFiles` and `ProgramFiles(x86)`.
pub fn windows_install_roots(
    local_app_data: Option<&str>,
    program_files: Option<&str>,
    program_files_x86: Option<&str>,
) -> (r: Vec<String>)
    ensures
        strings_view(r@) == install_roots_spec(
            opt_str_view(local_app_data),
            opt_str_view(program_files),
            opt_str_view(program_files_x86),
        ),
{
    let mut roots: Vec<String> = Vec::new();
    if let Some(l) = local_app_data {
        roots.push(join_path(l, "Programs", Os::Windows));
    }
    if let Some(p) = program_files {
        roots.push(crate::text::owned(p));
    }
    if let Some(p) = program_files_x86 {
        roots.push(crate::text::owned(p));
    }
    let drives: Vec<&'static str> = vec![
        r"C:\Programs",
        r"C:\Program Files",
        r"D:\Programs",
        r"D:\Program Files",
        r"E:\Programs",
        r"E:\Program Files",
        r"F:\Programs",
        r"F:\Program Files",
        r"G:\Programs",
        r"G:\Program Files",
    ];
    assert(strs_view(drives) =~= drive_roots());
    let ghost start = strings_view(roots@);
    let mut i: usize = 0;
    while i < drives.len()
        invariant
            i <= drives.len(),
            strs_view(drives) == drive_roots(),
            strings_view(roots@) == start + drive_roots().take(i as int),
        decreases drives.len() - i,
    {
        let d = crate::text::owned(drives[i]);
        let ghost prev = strings_view(roots@);
        roots.push(d);
        assert(strings_view(roots@) =~= prev.push(drive_roots()[i as int]));
        i = i + 1;
        assert(drive_roots().take(i as int) =~= drive_roots().take(i - 1).push(
            drive_roots()[i - 1],
        ));
    }
    assert(drive_roots().take(10) =~= drive_roots());
    assert(strings_view(roots@) =~= install_roots_spec(
        opt_str_view(local_app_data),
        opt_str_view(program_files),
        opt_str_view(program_files_x86),
    ));
    roots
}

// ----- launcher paths split into folders -----

/// How long the root of a path is: a Windows drive (`C:`), then at most one
/// separator.
pub open spec fn root_len(p: Seq<char>, os: Os) -> int {
    let d: int = if os == Os::Windows && p.len() >= 2 && p[1] == ':' && is_ascii_letter(p[0]) {
        2
    } else {
        0
    };
    if p.len() > d && is_separator(p[d], os) {
        d + 1
    } else {
        d
    }
}

/// `p` with the separators at its end removed (its root is kept).
pub open spec fn drop_trailing_seps(p: Seq<char>, os: Os) -> Seq<char>
    decreases p.len(),
{
    if p.len() > root_len(p, os) && is_separator(p.last(), os) {
        drop_trailing_seps(p.drop_last(), os)
    } else {
        p
    }
}

/// Where the last component of `t` starts, looking back from position `i`:
/// just after the last separator past the root.
pub open spec fn name_start(t: Seq<char>, os: Os, i: int) -> int
    decreases i,
{
    if i <= root_len(t, os) || i > t.len() {
        root_len(t, os)
    } else if is_separator(t[i - 1], os) {
        i
    } else {
        name_start(t, os, i - 1)
    }
}

/// The last component of a path, separators at its end ignored; nothing for
/// a bare root, an empty path, or a last component `..`.
pub open spec fn path_file_name(p: Seq<char>, os: Os) -> Option<Seq<char>> {
    let t = drop_trailing_seps(p, os);
    let name = t.skip(name_start(t, os, t.len() as int));
    if name.len() == 0 || name == seq!['.', '.'] {
        None
    } else {
        Some(name)
    }
}

/// The folder a path lies in: the path without its last component and the
/// separators before it (the root is kept); nothing for a bare root or an
/// empty path.  A relative path of one component has the empty parent.
pub open spec fn path_parent(p: Seq<char>, os: Os) -> Option<Seq<char>> {
    let t = drop_trailing_seps(p, os);
    let s = name_start(t, os, t.len() as int);
    if s >= t.len() {
        None
    } else {
        Some(drop_trailing_seps(t.take(s), os))
    }
}

/// The first `n` folders above a path: its parent, the parent of that, and
/// so on, as far as there is one.
pub open spec fn path_ancestors(p: Seq<char>, os: Os, n: nat) -> Seq<Seq<char>>
    decreases n,
{
    if n == 0 {
        Seq::empty()
    } else {
        match path_parent(p, os) {
            Some(q) => seq![q] + path_ancestors(q, os, (n - 1) as nat),
            None => Seq::empty(),
        }
    }
}

/// Where `c` last occurs in `s` before position `i` (`-1` when it does not).
pub open spec fn last_index_before(s: Seq<char>, c: char, i: int) -> int
    decreases i,
{
    if i <= 0 || i > s.len() {
        -1
    } else if s[i - 1] == c {
        i - 1
    } else {
        last_index_before(s, c, i - 1)
    }
}

/// The extension of a path (as `Path::extension` is documented): the text
/// after the last `.` of its file name; nothing without a file name, without
/// a `.` in it, or when its only `.` is the first character.
pub open spec fn path_extension(p: Seq<char>, os: Os) -> Option<Seq<char>> {
    match path_file_name(p, os) {
        Some(name) => {
            let d = last_index_before(name, '.', name.len() as int);
            if d <= 0 {
                None
            } else {
                Some(name.skip(d + 1))
            }
        },
        None => None,
    }
}

fn extension_chars(p: &str, os: Os) -> (r: Option<Vec<char>>)
    ensures
        match r {
            Some(e) => path_extension(p@, os) == Some(e@),
            None => path_extension(p@, os) is None,
        },
{
    let cs = chars_of(p);
    let name = match file_name_chars(cs.as_slice(), os) {
        Some(n) => n,
        None => return None,
    };
    let mut i: usize = name.len();
    while i > 0 && name[i - 1] != '.'
        invariant
            i <= name@.len(),
            last_index_before(name@, '.', i as int) == last_index_before(
                name@,
                '.',
                name@.len() as int,
            ),
        decreases i,
    {
        i = i - 1;
    }
    if i <= 1 {
        return None;
    }
    let mut ext: Vec<char> = Vec::new();
    let mut j: usize = i;
    while j < name.len()
        invariant
            i <= j <= name@.len(),
            ext@ == name@.subrange(i as int, j as int),
        decreases name.len() - j,
    {
        ext.push(name[j]);
        j = j + 1;
    }
    assert(ext@ =~= name@.skip(i as int));
    Some(ext)
}

/// A launcher path with its file name and the first four folders above it
/// (`ancestors[0]` is the parent, `ancestors[1]` the grandparent, and so on).
pub struct LauncherParts {
    pub path: String,
    pub file_name: Option<String>,
    pub ancestors: Vec<String>,
}

fn root_len_exec(cs: &[char], os: Os) -> (r: usize)
    ensures
        r == root_len(cs@, os),
{
    let windows = os == Os::Windows;
    let d: usize = if windows && cs.len() >= 2 && cs[1] == ':' && (('a' <= cs[0] && cs[0] <= 'z')
        || ('A' <= cs[0] && cs[0] <= 'Z')) {
        2
    } else {
        0
    };
    if cs.len() > d && (cs[d] == '/' || (windows && cs[d] == '\\')) {
        d + 1
    } else {
        d
    }
}

fn is_separator_exec(c: char, os: Os) -> (r: bool)
    ensures
        r == is_separator(c, os),
{
    c == '/' || (os == Os::Windows && c == '\\')
}

fn drop_trailing_seps_exec(cs: Vec<char>, os: Os) -> (r: Vec<char>)
    ensures
        r@ == drop_trailing_seps(cs@, os),
{
    let mut cur = cs;
    let ghost target = drop_trailing_seps(cs@, os);
    loop
        invariant
            target == drop_trailing_seps(cs@, os),
            drop_trailing_seps(cur@, os) == target,
        decreases cur.len(),
    {
        let n = cur.len();
        let root = root_len_exec(cur.as_slice(), os);
        if n > root && is_separator_exec(cur[n - 1], os) {
            cur.pop();
        } else {
            assert(n > 0 ==> cur@.last() == cur@[n - 1]);
            assert(drop_trailing_seps(cur@, os) == cur@);
            return cur;
        }
    }
}

fn name_start_exec(t: &[char], os: Os) -> (r: usize)
    ensures
        r as int == name_start(t@, os, t@.len() as int),
        r <= t@.len(),
{
    let root = root_len_exec(t, os);
    let mut i: usize = t.len();
    while i > root
        invariant
            root == root_len(t@, os),
            root <= t@.len(),
            i <= t@.len(),
            name_start(t@, os, i as int) == name_start(t@, os, t@.len() as int),
        decreases i,
    {
        if is_separator_exec(t[i - 1], os) {
            return i;
        }
        i = i - 1;
    }
    root
}

fn parent_chars(p: &[char], os: Os) -> (r: Option<Vec<char>>)
    ensures
        match r {
            Some(q) => path_parent(p@, os) == Some(q@),
            None => path_parent(p@, os) is None,
        },
{
    let all = take_chars(p, p.len());
    assert(all@ == p@);
    let t = drop_trailing_seps_exec(all, os);
    let s = name_start_exec(t.as_slice(), os);
    if s >= t.len() {
        None
    } else {
        let head = take_chars(t.as_slice(), s);
        Some(drop_trailing_seps_exec(head, os))
    }
}

fn file_name_chars(p: &[char], os: Os) -> (r: Option<Vec<char>>)
    ensures
        match r {
            Some(n) => path_file_name(p@, os) == Some(n@),
            None => path_file_name(p@, os) is None,
        },
{
    let all = take_chars(p, p.len());
    assert(all@ == p@);
    let t = drop_trailing_seps_exec(all, os);
    let s = name_start_exec(t.as_slice(), os);
    let mut name: Vec<char> = Vec::new();
    let mut i: usize = s;
    while i < t.len()
        invariant
            s <= i <= t@.len(),
            name@ == t@.subrange(s as int, i as int),
        decreases t.len() - i,
    {
        name.push(t[i]);
        i = i + 1;
    }
    assert(name@ == t@.skip(s as int));
    assert(t@ == drop_trailing_seps(p@, os));
    if name.len() == 0 || (name.len() == 2 && name[0] == '.' && name[1] == '.') {
        assert(name@.len() == 0 || name@ =~= seq!['.', '.']);
        None
    } else {
        assert(name@ != seq!['.', '.']) by {
            if name@ == seq!['.', '.'] {
                assert(name@[0] == '.' && name@[1] == '.');
            }
        }
        Some(name)
    }
}

/// A launcher path split into its file name and the folders above it.
pub fn launcher_parts(path: &str, os: Os) -> (r: LauncherParts)
    ensures
        r.path@ == path@,
        option_string_view(r.file_name) == path_file_name(path@, os),
        strings_view(r.ancestors@) == path_ancestors(path@, os, 4),
{
    let cs = chars_of(path);
    let file_name = match file_name_chars(cs.as_slice(), os) {
        Some(n) => Some(string_from_chars(n.as_slice())),
        None => None,
    };
    let ghost target = path_ancestors(path@, os, 4);
    let mut ancestors: Vec<String> = Vec::new();
    let mut cur = cs;
    let mut k: usize = 0;
    let mut done = false;
    while k < 4 && !done
        invariant
            k <= 4,
            strings_view(ancestors@) + (if done {
                Seq::empty()
            } else {
                path_ancestors(cur@, os, (4 - k) as nat)
            }) == target,
        decreases 4 - k,
    {
        match parent_chars(cur.as_slice(), os) {
            Some(q) => {
                let ghost prev = strings_view(ancestors@);
                let qs = string_from_chars(q.as_slice());
                ancestors.push(qs);
                assert(strings_view(ancestors@) =~= prev.push(q@));
                assert(path_ancestors(cur@, os, (4 - k) as nat) == seq![q@] + path_ancestors(
                    q@,
                    os,
                    (4 - k - 1) as nat,
                ));
                assert(strings_view(ancestors@) + path_ancestors(q@, os, (4 - k - 1) as nat)
                    =~= prev + path_ancestors(cur@, os, (4 - k) as nat));
                cur = q;
                k = k + 1;
            },
            None => {
                assert(path_ancestors(cur@, os, (4 - k) as nat) =~= Seq::<Seq<char>>::empty());
                done = true;
                k = 4;
            },
        }
    }
    if !done {
        assert(path_ancestors(cur@, os, 0) =~= Seq::<Seq<char>>::empty());
    }
    assert(strings_view(ancestors@) =~= target);
    LauncherParts { path: owned(path), file_name, ancestors }
}

/// GUI launchers looked for three levels above a `bin\*.cmd` wrapper.
pub open spec fn gui_names_install_root() -> Seq<Seq<char>> {
    seq![
        "Cursor.exe"@,
        "Code.exe"@,
        "CodeBuddy CN.exe"@,
        "CodeBuddy.exe"@,
        "Windsurf.exe"@,
        "VSCodium.exe"@,
        "Trae CN.exe"@,
        "TRAE SOLO CN.exe"@,
        "Trae.exe"@,
    ]
}

/// GUI launchers looked for next to the `bin` folder of a wrapper.
pub open spec fn gui_names_app_dir() -> Seq<Seq<char>> {
    seq![
        "Code.exe"@,
        "Cursor.exe"@,
        "CodeBuddy CN.exe"@,
        "CodeBuddy.exe"@,
        "Windsurf.exe"@,
        "VSCodium.exe"@,
        "Trae CN.exe"@,
        "TRAE SOLO CN.exe"@,
        "Trae.exe"@,
    ]
}

/// The GUI launchers tried in place of a `.cmd` / `.bat` wrapper, in order
/// (each counts only if the file exists).
pub open spec fn gui_candidates_spec(
    file_name: Option<Seq<char>>,
    ancestors: Seq<Seq<char>>,
    os: Os,
) -> Seq<(Seq<char>, bool)> {
    let name = lower_name(file_name);
    if seq_ends_with(name, ".cmd"@) || seq_ends_with(name, ".bat"@) {
        let a = if ancestors.len() >= 4 {
            gui_names_install_root().map_values(
                |n: Seq<char>| (join_spec(ancestors[3], n, os), true),
            )
        } else {
            Seq::empty()
        };
        let b = if ancestors.len() >= 2 {
            gui_names_app_dir().map_values(|n: Seq<char>| (join_spec(ancestors[1], n, os), true))
        } else {
            Seq::empty()
        };
        a + b
    } else {
        Seq::empty()
    }
}

/// The GUI launchers tried in place of a launcher (only a `.cmd` / `.bat`
/// wrapper has any): in the fourth folder above it, then in the second.
pub open spec fn gui_candidates_for(path: Seq<char>, os: Os) -> Seq<(Seq<char>, bool)> {
    gui_candidates_spec(path_file_name(path, os), path_ancestors(path, os, 4), os)
}

/// The launcher to run for a found one: the first GUI launcher tried in its
/// place that exists (`present` says which do), else the found one itself.
pub open spec fn preferred_launcher(path: Seq<char>, os: Os, present: Seq<bool>) -> Seq<char> {
    match first_accepted(gui_candidates_for(path, os), present) {
        Some(g) => g,
        None => path,
    }
}

/// A launcher that is not a `.cmd` / `.bat` wrapper is run as it is,
/// whatever exists around it.
pub proof fn lemma_non_wrapper_kept(path: Seq<char>, os: Os, present: Seq<bool>)
    requires
        !seq_ends_with(lower_name(path_file_name(path, os)), ".cmd"@),
        !seq_ends_with(lower_name(path_file_name(path, os)), ".bat"@),
    ensures
        preferred_launcher(path, os, present) == path,
{
    assert(gui_candidates_for(path, os) =~= Seq::<(Seq<char>, bool)>::empty());
    assert(first_accepted(gui_candidates_for(path, os), present) is None);
}

/// Whatever replaces a wrapper is one of the GUI launchers tried in its
/// place, and one that exists.
pub proof fn lemma_preferred_exists(path: Seq<char>, os: Os, present: Seq<bool>)
    requires
        preferred_launcher(path, os, present) != path,
    ensures
        exists|i: int|
            0 <= i < gui_candidates_for(path, os).len() && i < present.len() && present[i]
                && #[trigger] gui_candidates_for(path, os)[i].0 == preferred_launcher(path, os, present),
{
    lemma_first_accepted_found(gui_candidates_for(path, os), present, 0);
}

proof fn lemma_first_accepted_found(cands: Seq<(Seq<char>, bool)>, present: Seq<bool>, i: int)
    requires
        0 <= i,
        first_accepted_from(cands, present, i) is Some,
        forall|j: int| 0 <= j < cands.len() ==> #[trigger] cands[j].1,
    ensures
        exists|k: int|
            i <= k < cands.len() && k < present.len() && present[k] && #[trigger] cands[k].0
                == first_accepted_from(cands, present, i)->0,
    decreases cands.len() - i,
{
    if accepted(cands, present, i) {
        assert(cands[i].0 == first_accepted_from(cands, present, i)->0);
    } else {
        lemma_first_accepted_found(cands, present, i + 1);
    }
}

fn parts_gui_candidates(launcher: &LauncherParts, os: Os) -> (r: Vec<Candidate>)
    ensures
        candidates_view(r@) == gui_candidates_spec(
            option_string_view(launcher.file_name),
            strings_view(launcher.ancestors@),
            os,
        ),
{
    let mut out: Vec<Candidate> = Vec::new();
    let name = lowered_name(&launcher.file_name);
    let cmd = chars_of(".cmd");
    let bat = chars_of(".bat");
    if !(ends_with_chars(name.as_slice(), cmd.as_slice()) || ends_with_chars(
        name.as_slice(),
        bat.as_slice(),
    )) {
        assert(candidates_view(out@) =~= Seq::<(Seq<char>, bool)>::empty());
        return out;
    }
    let root_names: Vec<&'static str> = vec![
        "Cursor.exe",
        "Code.exe",
        "CodeBuddy CN.exe",
        "CodeBuddy.exe",
        "Windsurf.exe",
        "VSCodium.exe",
        "Trae CN.exe",
        "TRAE SOLO CN.exe",
        "Trae.exe",
    ];
    let dir_names: Vec<&'static str> = vec![
        "Code.exe",
        "Cursor.exe",
        "CodeBuddy CN.exe",
        "CodeBuddy.exe",
        "Windsurf.exe",
        "VSCodium.exe",
        "Trae CN.exe",
        "TRAE SOLO CN.exe",
        "Trae.exe",
    ];
    assert(strs_view(root_names) =~= gui_names_install_root());
    assert(strs_view(dir_names) =~= gui_names_app_dir());
    let ghost anc = strings_view(launcher.ancestors@);
    if launcher.ancestors.len() >= 4 {
        assert(anc[3] == launcher.ancestors@[3]@);
        push_joined(&mut out, launcher.ancestors[3].as_str(), &root_names, os);
    }
    let ghost mid = candidates_view(out@);
    if launcher.ancestors.len() >= 2 {
        assert(anc[1] == launcher.ancestors@[1]@);
        push_joined(&mut out, launcher.ancestors[1].as_str(), &dir_names, os);
    }
    assert(candidates_view(out@) =~= gui_candidates_spec(
        option_string_view(launcher.file_name),
        anc,
        os,
    ));
    out
}

/// The GUI launchers tried in place of a found launcher, in order.
pub fn gui_exe_candidates(launcher: &str, os: Os) -> (r: Vec<Candidate>)
    ensures
        candidates_view(r@) == gui_candidates_for(launcher@, os),
{
    let parts = launcher_parts(launcher, os);
    parts_gui_candidates(&parts, os)
}

/// The launcher to run for a found one: for a `.cmd` / `.bat` wrapper the
/// first GUI launcher that exists (`present` says which of
/// `gui_exe_candidates` do), otherwise the found launcher itself.
pub fn prefer_gui_exe(launcher: &str, os: Os, present: &Vec<bool>) -> (r: String)
    ensures
        r@ == preferred_launcher(launcher@, os, present@),
{
    let cands = gui_exe_candidates(launcher, os);
    match first_present(&cands, present) {
        Some(p) => p,
        None => owned(launcher),
    }
}

/// The launchers tried below the usual install folders: each relative
/// launcher path of the editor under each folder, in that order.
pub open spec fn common_candidates_spec(rels: Seq<Seq<char>>, roots: Seq<Seq<char>>, os: Os) -> Seq<
    (Seq<char>, bool),
>
    decreases rels.len(),
{
    if rels.len() == 0 {
        Seq::empty()
    } else {
        common_candidates_spec(rels.drop_last(), roots, os) + roots.map_values(
            |r: Seq<char>| (join_spec(r, rels.last(), os), true),
        )
    }
}

/// The launchers of an editor tried below the usual install folders.
pub fn common_path_candidates(spec: &IdeSpec, roots: &Vec<String>, os: Os) -> (r: Vec<Candidate>)
    ensures
        candidates_view(r@) == common_candidates_spec(
            strs_view(spec.windows_rel),
            strings_view(roots@),
            os,
        ),
{
    let ghost rels = strs_view(spec.windows_rel);
    let ghost rs = strings_view(roots@);
    let mut out: Vec<Candidate> = Vec::new();
    let mut i: usize = 0;
    while i < spec.windows_rel.len()
        invariant
            i <= spec.windows_rel.len(),
            rels == strs_view(spec.windows_rel),
            rs == strings_view(roots@),
            candidates_view(out@) == common_candidates_spec(rels.take(i as int), rs, os),
        decreases spec.windows_rel.len() - i,
    {
        let rel = spec.windows_rel[i];
        let ghost start = candidates_view(out@);
        let mut j: usize = 0;
        while j < roots.len()
            invariant
                j <= roots.len(),
                rs == strings_view(roots@),
                candidates_view(out@) == start + rs.take(j as int).map_values(
                    |r: Seq<char>| (join_spec(r, rel@, os), true),
                ),
            decreases roots.len() - j,
        {
            let p = join_path(roots[j].as_str(), rel, os);
            let ghost prev = candidates_view(out@);
            let ghost item = (p@, true);
            out.push(Candidate { path: p, must_exist: true });
            assert(candidates_view(out@) =~= prev.push(item));
            assert(rs[j as int] == roots@[j as int]@);
            j = j + 1;
            assert(rs.take(j as int) =~= rs.take(j - 1).push(rs[j - 1]));
            assert(rs.take(j as int).map_values(|r: Seq<char>| (join_spec(r, rel@, os), true))
                =~= rs.take(j - 1).map_values(|r: Seq<char>| (join_spec(r, rel@, os), true)).push(
                item,
            ));
        }
        assert(rs.take(roots.len() as int) =~= rs);
        assert(rels[i as int] == rel@);
        i = i + 1;
        assert(rels.take(i as int).drop_last() =~= rels.take(i - 1));
    }
    assert(rels.take(spec.windows_rel.len() as int) =~= rels);
    out
}

/// The launcher of an editor found below the usual install folders: the
/// first candidate that exists (`present` says which do), with the GUI
/// launcher preferred to it (`gui_present` says which of its
/// `gui_exe_candidates` exist).
pub fn resolve_via_common_paths(
    spec: &IdeSpec,
    roots: &Vec<String>,
    os: Os,
    present: &Vec<bool>,
    gui_present: &Vec<bool>,
) -> (r: Option<String>)
    ensures
        option_string_view(r) == match first_accepted(
            common_candidates_spec(strs_view(spec.windows_rel), strings_view(roots@), os),
            present@,
        ) {
            Some(f) => Some(preferred_launcher(f, os, gui_present@)),
            None => None,
        },
{
    let cands = common_path_candidates(spec, roots, os);
    match first_present(&cands, present) {
        Some(f) => Some(prefer_gui_exe(f.as_str(), os, gui_present)),
        None => None,
    }
}

// ----- lookups on the PATH -----

pub open spec fn push_nonempty(done: Seq<Seq<char>>, line: Seq<char>) -> Seq<Seq<char>> {
    if trim_spec(line).len() > 0 {
        done.push(trim_spec(line))
    } else {
        done
    }
}

/// Reading a text line by line: the trimmed non-empty lines finished so far,
/// and the line being read.
pub open spec fn lines_acc(s: Seq<char>) -> (Seq<Seq<char>>, Seq<char>)
    decreases s.len(),
{
    if s.len() == 0 {
        (Seq::empty(), Seq::empty())
    } else {
        let (done, cur) = lines_acc(s.drop_last());
        if s.last() == '\n' {
            (push_nonempty(done, cur), Seq::empty())
        } else {
            (done, cur.push(s.last()))
        }
    }
}

/// The trimmed, non-empty lines of a text, in order.
pub open spec fn output_paths(s: Seq<char>) -> Seq<Seq<char>> {
    push_nonempty(lines_acc(s).0, lines_acc(s).1)
}

/// The paths that `where` printed (one per line), trimmed, empty lines left
/// out.
pub fn where_candidates(output: &str) -> (r: Vec<Candidate>)
    ensures
        candidates_view(r@) == output_paths(output@).map_values(|p: Seq<char>| (p, true)),
{
    let cs = chars_of(output);
    let mut done: Vec<Candidate> = Vec::new();
    let mut cur: Vec<char> = Vec::new();
    let mut i: usize = 0;
    while i < cs.len()
        invariant
            i <= cs.len(),
            cs@ == output@,
            candidates_view(done@) == lines_acc(cs@.take(i as int)).0.map_values(
                |p: Seq<char>| (p, true),
            ),
            cur@ == lines_acc(cs@.take(i as int)).1,
        decreases cs.len() - i,
    {
        let c = cs[i];
        assert(cs@.take(i + 1).drop_last() =~= cs@.take(i as int));
        let ghost before = lines_acc(cs@.take(i as int));
        if c == '\n' {
            let t = trim_chars(cur.as_slice());
            if t.len() > 0 {
                let ghost prev = candidates_view(done@);
                done.push(Candidate { path: string_from_chars(t.as_slice()), must_exist: true });
                assert(candidates_view(done@) =~= prev.push((t@, true)));
            }
            cur = Vec::new();
        } else {
            cur.push(c);
        }
        i = i + 1;
        assert(candidates_view(done@) =~= lines_acc(cs@.take(i as int)).0.map_values(
            |p: Seq<char>| (p, true),
        ));
    }
    assert(cs@.take(cs.len() as int) =~= cs@);
    let t = trim_chars(cur.as_slice());
    if t.len() > 0 {
        let ghost prev = candidates_view(done@);
        done.push(Candidate { path: string_from_chars(t.as_slice()), must_exist: true });
        assert(candidates_view(done@) =~= prev.push((t@, true)));
    }
    assert(candidates_view(done@) =~= output_paths(output@).map_values(|p: Seq<char>| (p, true)));
    done
}

/// The launcher `where <name>` found: nothing when the command failed
/// (`output` is `None`), otherwise the first listed path that exists
/// (`present` says which do).
pub fn resolve_via_where(output: Option<&str>, present: &Vec<bool>) -> (r: Option<String>)
    ensures
        option_string_view(r) == match output {
            Some(o) => first_accepted(
                output_paths(o@).map_values(|p: Seq<char>| (p, true)),
                present@,
            ),
            None => None,
        },
{
    match output {
        None => None,
        Some(o) => {
            let cands = where_candidates(o);
            first_present(&cands, present)
        },
    }
}

/// The first line of a text (up to the first line feed), trimmed; nothing
/// when that is empty.
pub open spec fn first_line_path(s: Seq<char>) -> Option<Seq<char>> {
    let line = match first_index_of(s, '\n') {
        Some(i) => s.take(i as int),
        None => s,
    };
    if trim_spec(line).len() > 0 {
        Some(trim_spec(line))
    } else {
        None
    }
}

/// The path that `which <name>` printed first.
pub fn which_candidate(output: &str) -> (r: Option<String>)
    ensures
        option_string_view(r) == first_line_path(output@),
{
    let cs = chars_of(output);
    let line = match find_char(cs.as_slice(), '\n') {
        Some(i) => take_chars(cs.as_slice(), i),
        None => cs,
    };
    let t = trim_chars(line.as_slice());
    if t.len() > 0 {
        Some(string_from_chars(t.as_slice()))
    } else {
        None
    }
}

/// The launcher `which <name>` found: nothing when the command failed, and
/// the first printed path only when that file exists (`present`).
pub fn resolve_via_which(output: Option<&str>, present: bool) -> (r: Option<String>)
    ensures
        option_string_view(r) == match output {
            Some(o) => if present {
                first_line_path(o@)
            } else {
                None
            },
            None => None,
        },
{
    match output {
        None => None,
        Some(o) => {
            if present {
                which_candidate(o)
            } else {
                None
            }
        },
    }
}

// ----- detection -----

/// An editor found on this machine.
pub struct InstalledIde {
    pub id: String,
    pub name: String,
    /// Absolute path to the launcher (.exe / .cmd / binary / .app bundle).
    pub path: String,
}

pub open spec fn ide_view(i: InstalledIde) -> (Seq<char>, Seq<char>, Seq<char>) {
    (i.id@, i.name@, i.path@)
}

/// A launcher found through a command name on the `PATH`, and which of the
/// GUI launchers tried in its place (`gui_exe_candidates`) exist.
pub struct CliHit {
    pub found: String,
    pub gui_present: Vec<bool>,
}

/// What the lookups found for one editor: through the uninstall entries
/// (the launcher `resolve_via_registry` gives, and which of the GUI
/// launchers tried in its place exist), through each command name in order,
/// below the usual install folders (the launcher `resolve_via_common_paths`
/// gives, the GUI launcher already preferred), and which of the fixed Unix
/// launchers and macOS bundles exist.
pub struct DetectProbe {
    pub registry: Option<String>,
    pub registry_gui_present: Vec<bool>,
    pub cli_hits: Vec<Option<CliHit>>,
    pub common: Option<String>,
    pub unix_bins_present: Vec<bool>,
    pub mac_apps_present: Vec<bool>,
}

/// The launcher of the first command-name hit whose found path matches the
/// editor's keywords: on Windows the GUI launcher preferred to it, elsewhere
/// the found path.
pub open spec fn cli_choice(id: Seq<char>, hits: Seq<Option<CliHit>>, os: Os, i: int) -> Option<
    Seq<char>,
>
    decreases hits.len() - i,
{
    if i < 0 || i >= hits.len() {
        None
    } else {
        match hits[i] {
            Some(h) => if edition_matches(id, h.found@) {
                Some(
                    if os == Os::Windows {
                        preferred_launcher(h.found@, os, h.gui_present@)
                    } else {
                        h.found@
                    },
                )
            } else {
                cli_choice(id, hits, os, i + 1)
            },
            None => cli_choice(id, hits, os, i + 1),
        }
    }
}

/// The first listed item that is present.
pub open spec fn first_present_item(items: Seq<Seq<char>>, present: Seq<bool>, i: int) -> Option<
    int,
>
    decreases items.len() - i,
{
    if i < 0 || i >= items.len() {
        None
    } else if i < present.len() && present[i] {
        Some(i)
    } else {
        first_present_item(items, present, i + 1)
    }
}

/// The launcher detection settles on for an editor.
pub open spec fn detected_path(v: IdeSpecView, p: DetectProbe, os: Os) -> Option<Seq<char>> {
    if os == Os::Windows {
        match p.registry {
            Some(r) => Some(preferred_launcher(r@, os, p.registry_gui_present@)),
            None => match cli_choice(v.id, p.cli_hits@, os, 0) {
                Some(l) => Some(l),
                None => match p.common {
                    Some(c) => if edition_matches(v.id, c@) {
                        Some(c@)
                    } else {
                        None
                    },
                    None => None,
                },
            },
        }
    } else {
        match cli_choice(v.id, p.cli_hits@, os, 0) {
            Some(f) => Some(f),
            None => match first_present_item(v.unix_bins, p.unix_bins_present@, 0) {
                Some(i) => Some(v.unix_bins[i]),
                None => if os == Os::MacOs {
                    match first_present_item(v.mac_apps, p.mac_apps_present@, 0) {
                        Some(j) => Some("/Applications/"@ + v.mac_apps[j] + ".app"@),
                        None => None,
                    }
                } else {
                    None
                },
            },
        }
    }
}

/// Whether a command-name hit is one of the editor's own: the path found
/// matches the editor's keywords.
pub open spec fn hit_matches(id: Seq<char>, hit: Option<CliHit>) -> bool {
    hit matches Some(h) && edition_matches(id, h.found@)
}

/// A launcher chosen among the command-name hits comes from the first hit
/// whose found path matches the editor's keywords (on every system): it is
/// that found path, or on Windows the GUI launcher preferred to it.  And a
/// hit is chosen whenever one matches.
pub proof fn lemma_cli_choice_matches_edition(id: Seq<char>, hits: Seq<Option<CliHit>>, os: Os)
    ensures
        match cli_choice(id, hits, os, 0) {
            Some(p) => exists|k: int|
                0 <= k < hits.len() && #[trigger] hit_matches(id, hits[k]) && (forall|j: int|
                    0 <= j < k ==> !hit_matches(id, #[trigger] hits[j])) && p == (if os == Os::Windows {
                    preferred_launcher(hits[k]->0.found@, os, hits[k]->0.gui_present@)
                } else {
                    hits[k]->0.found@
                }),
            None => forall|k: int| 0 <= k < hits.len() ==> !#[trigger] hit_matches(id, hits[k]),
        },
{
    lemma_cli_choice_from(id, hits, os, 0);
}

proof fn lemma_cli_choice_from(id: Seq<char>, hits: Seq<Option<CliHit>>, os: Os, i: int)
    requires
        0 <= i <= hits.len(),
    ensures
        match cli_choice(id, hits, os, i) {
            Some(p) => exists|k: int|
                i <= k < hits.len() && #[trigger] hit_matches(id, hits[k]) && (forall|j: int|
                    i <= j < k ==> !hit_matches(id, #[trigger] hits[j])) && p == (if os == Os::Windows {
                    preferred_launcher(hits[k]->0.found@, os, hits[k]->0.gui_present@)
                } else {
                    hits[k]->0.found@
                }),
            None => forall|k: int| i <= k < hits.len() ==> !#[trigger] hit_matches(id, hits[k]),
        },
    decreases hits.len() - i,
{
    if i < hits.len() {
        lemma_cli_choice_from(id, hits, os, i + 1);
        if hit_matches(id, hits[i]) {
            assert(cli_choice(id, hits, os, i) is Some);
            let p = cli_choice(id, hits, os, i)->0;
            assert(i <= i < hits.len() && hit_matches(id, hits[i]) && (forall|j: int|
                i <= j < i ==> !hit_matches(id, #[trigger] hits[j])));
        } else {
            assert(cli_choice(id, hits, os, i) == cli_choice(id, hits, os, i + 1));
            match cli_choice(id, hits, os, i) {
                Some(p) => {
                    let k = choose|k: int|
                        i + 1 <= k < hits.len() && #[trigger] hit_matches(id, hits[k]) && (forall|j: int|
                            i + 1 <= j < k ==> !hit_matches(id, #[trigger] hits[j])) && p == (if os == Os::Windows {
                            preferred_launcher(hits[k]->0.found@, os, hits[k]->0.gui_present@)
                        } else {
                            hits[k]->0.found@
                        });
                    assert(forall|j: int| i <= j < k ==> !hit_matches(id, #[trigger] hits[j]));
                },
                None => {},
            }
        }
    }
}

proof fn lemma_first_present_item(items: Seq<Seq<char>>, present: Seq<bool>, i: int)
    requires
        0 <= i,
    ensures
        match first_present_item(items, present, i) {
            Some(k) => i <= k < items.len() && k < present.len() && present[k],
            None => true,
        },
    decreases items.len() - i,
{
    if i < items.len() && !(i < present.len() && present[i]) {
        lemma_first_present_item(items, present, i + 1);
    }
}

/// Away from Windows, a detected launcher is a command-name hit whose path
/// matches the editor's keywords, one of the editor's fixed Unix launchers
/// that exists, or (on macOS) one of its application bundles that exists.
pub proof fn lemma_detected_outside_windows(v: IdeSpecView, p: DetectProbe, os: Os, x: Seq<char>)
    requires
        os != Os::Windows,
        detected_path(v, p, os) == Some(x),
    ensures
        (exists|k: int|
            0 <= k < p.cli_hits@.len() && #[trigger] hit_matches(v.id, p.cli_hits@[k])
                && p.cli_hits@[k]->0.found@ == x && edition_matches(v.id, x)) || (exists|i: int|
            0 <= i < v.unix_bins.len() && i < p.unix_bins_present@.len() && p.unix_bins_present@[i]
                && #[trigger] v.unix_bins[i] == x) || (os == Os::MacOs && exists|j: int|
            0 <= j < v.mac_apps.len() && j < p.mac_apps_present@.len() && p.mac_apps_present@[j]
                && x == "/Applications/"@ + #[trigger] v.mac_apps[j] + ".app"@),
{
    lemma_cli_choice_matches_edition(v.id, p.cli_hits@, os);
    lemma_first_present_item(v.unix_bins, p.unix_bins_present@, 0);
    lemma_first_present_item(v.mac_apps, p.mac_apps_present@, 0);
    match cli_choice(v.id, p.cli_hits@, os, 0) {
        Some(f) => {
            let k = choose|k: int|
                0 <= k < p.cli_hits@.len() && #[trigger] hit_matches(v.id, p.cli_hits@[k]) && (forall|j: int|
                    0 <= j < k ==> !hit_matches(v.id, #[trigger] p.cli_hits@[j])) && f == (if os == Os::Windows {
                    preferred_launcher(p.cli_hits@[k]->0.found@, os, p.cli_hits@[k]->0.gui_present@)
                } else {
                    p.cli_hits@[k]->0.found@
                });
            assert(f == x);
            assert(p.cli_hits@[k]->0.found@ == x);
        },
        None => {
            match first_present_item(v.unix_bins, p.unix_bins_present@, 0) {
                Some(i) => {
                    assert(v.unix_bins[i] == x);
                },
                None => {
                    let j = first_present_item(v.mac_apps, p.mac_apps_present@, 0)->0;
                    assert(x == "/Applications/"@ + v.mac_apps[j] + ".app"@);
                },
            }
        },
    }
}

/// On Windows the uninstall entries win: their launcher (the GUI launcher
/// preferred to it) is taken whatever else was found.  Without one, a
/// command-name hit is taken only when its path matches the editor's
/// keywords, and the launcher below the usual install folders only when no
/// hit matches and its own path matches the keywords.
pub proof fn lemma_detected_on_windows(v: IdeSpecView, p: DetectProbe, x: Seq<char>)
    requires
        detected_path(v, p, Os::Windows) == Some(x),
    ensures
        p.registry is Some ==> x == preferred_launcher(p.registry->0@, Os::Windows, p.registry_gui_present@),
        p.registry is None ==> (exists|k: int|
            0 <= k < p.cli_hits@.len() && #[trigger] hit_matches(v.id, p.cli_hits@[k]) && x
                == preferred_launcher(
                p.cli_hits@[k]->0.found@,
                Os::Windows,
                p.cli_hits@[k]->0.gui_present@,
            )) || ((forall|k: int|
            0 <= k < p.cli_hits@.len() ==> !#[trigger] hit_matches(v.id, p.cli_hits@[k]))
            && p.common is Some && p.common->0@ == x && edition_matches(v.id, x)),
{
    lemma_cli_choice_matches_edition(v.id, p.cli_hits@, Os::Windows);
    if p.registry is None {
        match cli_choice(v.id, p.cli_hits@, Os::Windows, 0) {
            Some(f) => {
                let k = choose|k: int|
                    0 <= k < p.cli_hits@.len() && #[trigger] hit_matches(v.id, p.cli_hits@[k]) && (forall|j: int|
                        0 <= j < k ==> !hit_matches(v.id, #[trigger] p.cli_hits@[j])) && f == preferred_launcher(
                        p.cli_hits@[k]->0.found@,
                        Os::Windows,
                        p.cli_hits@[k]->0.gui_present@,
                    );
                assert(f == x);
            },
            None => {},
        }
    }
}

fn choose_cli(id: &str, hits: &Vec<Option<CliHit>>, os: Os) -> (r: Option<String>)
    ensures
        option_string_view(r) == cli_choice(id@, hits@, os, 0),
{
    let mut i: usize = 0;
    while i < hits.len()
        invariant
            i <= hits.len(),
            cli_choice(id@, hits@, os, 0) == cli_choice(id@, hits@, os, i as int),
        decreases hits.len() - i,
    {
        if let Some(h) = &hits[i] {
            if path_matches_edition(id, h.found.as_str()) {
                if os == Os::Windows {
                    return Some(prefer_gui_exe(h.found.as_str(), os, &h.gui_present));
                } else {
                    return Some(owned(h.found.as_str()));
                }
            }
        }
        i = i + 1;
    }
    None
}

fn choose_present(items: &Vec<&'static str>, present: &Vec<bool>) -> (r: Option<usize>)
    ensures
        match r {
            Some(i) => first_present_item(strs_view(*items), present@, 0) == Some(i as int) && i
                < items.len(),
            None => first_present_item(strs_view(*items), present@, 0) is None,
        },
{
    let mut i: usize = 0;
    while i < items.len()
        invariant
            i <= items.len(),
            first_present_item(strs_view(*items), present@, 0) == first_present_item(
                strs_view(*items),
                present@,
                i as int,
            ),
        decreases items.len() - i,
    {
        if i < present.len() && present[i] {
            return Some(i);
        }
        i = i + 1;
    }
    None
}

fn installed(spec: &IdeSpec, path: String) -> (r: InstalledIde)
    ensures
        ide_view(r) == (spec.id@, spec.name@, path@),
{
    InstalledIde { id: crate::text::owned(spec.id), name: crate::text::owned(spec.name), path }
}

/// Detection of one editor from what the lookups found.  On Windows: the
/// uninstall entries, then the `PATH` (only a launcher whose path matches
/// the editor's keywords), each with the GUI launcher preferred to a
/// wrapper script, then the usual install folders (again only a matching
/// launcher).  Elsewhere: the `PATH` (matching only), then the fixed
/// Unix launchers, then (macOS) the application bundles.
pub fn detect_ide(spec: &IdeSpec, probe: &DetectProbe, os: Os) -> (r: Option<InstalledIde>)
    ensures
        match detected_path(spec_view(*spec), *probe, os) {
            Some(p) => r matches Some(i) && ide_view(i) == (spec.id@, spec.name@, p),
            None => r is None,
        },
{
    if os == Os::Windows {
        if let Some(reg) = &probe.registry {
            return Some(installed(spec, prefer_gui_exe(reg.as_str(), os, &probe.registry_gui_present)));
        }
        if let Some(l) = choose_cli(spec.id, &probe.cli_hits, os) {
            return Some(installed(spec, l));
        }
        if let Some(c) = &probe.common {
            if path_matches_edition(spec.id, c.as_str()) {
                return Some(installed(spec, crate::text::owned(c.as_str())));
            }
        }
        return None;
    }
    if let Some(f) = choose_cli(spec.id, &probe.cli_hits, os) {
        return Some(installed(spec, f));
    }
    if let Some(i) = choose_present(&spec.unix_bins, &probe.unix_bins_present) {
        return Some(installed(spec, crate::text::owned(spec.unix_bins[i])));
    }
    if os == Os::MacOs {
        if let Some(j) = choose_present(&spec.mac_apps, &probe.mac_apps_present) {
            let a = crate::text::concat("/Applications/", spec.mac_apps[j]);
            let p = crate::text::concat(a.as_str(), ".app");
            return Some(installed(spec, p));
        }
    }
    None
}

// ----- the list of detected editors -----

pub open spec fn found_view(v: Seq<Option<InstalledIde>>) -> Seq<Option<(Seq<char>, Seq<char>, Seq<char>)>> {
    v.map_values(
        |o: Option<InstalledIde>|
            match o {
                Some(i) => Some(ide_view(i)),
                None => None,
            },
    )
}

pub open spec fn ides_view(v: Seq<InstalledIde>) -> Seq<(Seq<char>, Seq<char>, Seq<char>)> {
    v.map_values(|i: InstalledIde| ide_view(i))
}

pub open spec fn has_ide_id(list: Seq<(Seq<char>, Seq<char>, Seq<char>)>, id: Seq<char>) -> bool {
    exists|i: int| 0 <= i < list.len() && #[trigger] list[i].0 == id
}

/// No identifier occurs twice in the list.
pub open spec fn ide_ids_unique(list: Seq<(Seq<char>, Seq<char>, Seq<char>)>) -> bool {
    forall|i: int, j: int|
        0 <= i < list.len() && 0 <= j < list.len() && i != j ==> #[trigger] list[i].0
            != #[trigger] list[j].0
}

/// The detected editors in order, each identifier kept at its first
/// occurrence.
pub open spec fn dedup_found(found: Seq<Option<(Seq<char>, Seq<char>, Seq<char>)>>) -> Seq<
    (Seq<char>, Seq<char>, Seq<char>),
>
    decreases found.len(),
{
    if found.len() == 0 {
        Seq::empty()
    } else {
        let d = dedup_found(found.drop_last());
        match found.last() {
            Some(x) => if has_ide_id(d, x.0) {
                d
            } else {
                d.push(x)
            },
            None => d,
        }
    }
}

/// The position of the first editor with this identifier.
pub open spec fn first_with_id(list: Seq<(Seq<char>, Seq<char>, Seq<char>)>, id: Seq<char>, i: int) -> Option<
    int,
>
    decreases list.len() - i,
{
    if i < 0 || i >= list.len() {
        None
    } else if list[i].0 == id {
        Some(i)
    } else {
        first_with_id(list, id, i + 1)
    }
}

/// When the CN edition and the international edition of an editor resolve
/// to the same launcher (ASCII case ignored), the international one is
/// dropped.
pub open spec fn prefer_cn(list: Seq<(Seq<char>, Seq<char>, Seq<char>)>, cn: Seq<char>, intl: Seq<
    char,
>) -> Seq<(Seq<char>, Seq<char>, Seq<char>)> {
    match (first_with_id(list, cn, 0), first_with_id(list, intl, 0)) {
        (Some(a), Some(b)) => if ascii_lower(list[a].2) == ascii_lower(list[b].2) {
            list.remove(b)
        } else {
            list
        },
        _ => list,
    }
}

/// The list of installed editors from the detection of each known editor.
pub open spec fn all_ides_spec(found: Seq<Option<(Seq<char>, Seq<char>, Seq<char>)>>) -> Seq<
    (Seq<char>, Seq<char>, Seq<char>),
> {
    prefer_cn(
        prefer_cn(dedup_found(found), "trae-cn"@, "trae"@),
        "codebuddy-cn"@,
        "codebuddy"@,
    )
}

/// When the CN and the international edition were both detected with the
/// same launcher (ASCII case ignored), the final list holds the CN edition's
/// entry and no international one.
pub open spec fn cn_edition_kept(
    detected: Seq<(Seq<char>, Seq<char>, Seq<char>)>,
    result: Seq<(Seq<char>, Seq<char>, Seq<char>)>,
    cn: Seq<char>,
    intl: Seq<char>,
) -> bool {
    match (first_with_id(detected, cn, 0), first_with_id(detected, intl, 0)) {
        (Some(a), Some(b)) => ascii_lower(detected[a].2) == ascii_lower(detected[b].2) ==> (
        !has_ide_id(result, intl) && result.contains(detected[a])),
        _ => true,
    }
}

proof fn lemma_first_with_id_unique(list: Seq<(Seq<char>, Seq<char>, Seq<char>)>, id: Seq<char>, k: int)
    requires
        ide_ids_unique(list),
        0 <= k < list.len(),
        list[k].0 == id,
    ensures
        first_with_id(list, id, 0) == Some(k),
{
    assert forall|m: int| 0 <= m < k implies list[m].0 != id by {
        assert(list[m].0 != list[k].0);
    }
    lemma_first_with_id_from(list, id, 0, k);
}

proof fn lemma_first_with_id_from(list: Seq<(Seq<char>, Seq<char>, Seq<char>)>, id: Seq<char>, i: int, k: int)
    requires
        0 <= i <= k < list.len(),
        list[k].0 == id,
        forall|m: int| i <= m < k ==> list[m].0 != id,
    ensures
        first_with_id(list, id, i) == Some(k),
    decreases k - i,
{
    if i < k {
        lemma_first_with_id_from(list, id, i + 1, k);
    }
}

proof fn lemma_detect_all_editions(d: Seq<(Seq<char>, Seq<char>, Seq<char>)>)
    requires
        ide_ids_unique(d),
    ensures
        ide_ids_unique(
            prefer_cn(prefer_cn(d, "trae-cn"@, "trae"@), "codebuddy-cn"@, "codebuddy"@),
        ),
        cn_edition_kept(
            d,
            prefer_cn(prefer_cn(d, "trae-cn"@, "trae"@), "codebuddy-cn"@, "codebuddy"@),
            "trae-cn"@,
            "trae"@,
        ),
        cn_edition_kept(
            d,
            prefer_cn(prefer_cn(d, "trae-cn"@, "trae"@), "codebuddy-cn"@, "codebuddy"@),
            "codebuddy-cn"@,
            "codebuddy"@,
        ),
{
    reveal_strlit("trae-cn");
    reveal_strlit("trae");
    reveal_strlit("codebuddy-cn");
    reveal_strlit("codebuddy");
    assert("trae-cn"@ != "trae"@) by {
        assert("trae-cn"@.len() != "trae"@.len());
    }
    assert("codebuddy-cn"@ != "codebuddy"@) by {
        assert("codebuddy-cn"@.len() != "codebuddy"@.len());
    }
    assert("trae"@ != "codebuddy"@) by {
        assert("trae"@.len() != "codebuddy"@.len());
    }
    assert("trae-cn"@ != "codebuddy"@) by {
        assert("trae-cn"@.len() != "codebuddy"@.len());
    }
    assert("codebuddy-cn"@ != "trae"@) by {
        assert("codebuddy-cn"@.len() != "trae"@.len());
    }
    let d1 = prefer_cn(d, "trae-cn"@, "trae"@);
    lemma_prefer_cn_effect(d, "trae-cn"@, "trae"@);
    let d2 = prefer_cn(d1, "codebuddy-cn"@, "codebuddy"@);
    lemma_prefer_cn_effect(d1, "codebuddy-cn"@, "codebuddy"@);
    lemma_first_with_id_found(d, "trae-cn"@, 0);
    lemma_first_with_id_found(d, "trae"@, 0);
    lemma_first_with_id_found(d, "codebuddy-cn"@, 0);
    lemma_first_with_id_found(d, "codebuddy"@, 0);
    // trae: gone from d1, and d2 holds only entries of d1
    if let (Some(a), Some(b)) = (first_with_id(d, "trae-cn"@, 0), first_with_id(d, "trae"@, 0)) {
        if ascii_lower(d[a].2) == ascii_lower(d[b].2) {
            assert(d1.contains(d[a]));
            assert(d2.contains(d[a]));
            assert(!has_ide_id(d2, "trae"@)) by {
                if has_ide_id(d2, "trae"@) {
                    let k = choose|k: int| 0 <= k < d2.len() && #[trigger] d2[k].0 == "trae"@;
                    assert(d2.contains(d2[k]));
                    assert(d1.contains(d2[k]));
                    let m = choose|m: int| 0 <= m < d1.len() && d1[m] == d2[k];
                    assert(d1[m].0 == "trae"@);
                }
            }
        }
    }
    // codebuddy: its entries are the same in d1 as in d
    if let (Some(a), Some(b)) = (first_with_id(d, "codebuddy-cn"@, 0), first_with_id(
        d,
        "codebuddy"@,
        0,
    )) {
        if ascii_lower(d[a].2) == ascii_lower(d[b].2) {
            assert(d.contains(d[a]));
            assert(d.contains(d[b]));
            assert(d1.contains(d[a]));
            assert(d1.contains(d[b]));
            let a1 = choose|m: int| 0 <= m < d1.len() && d1[m] == d[a];
            let b1 = choose|m: int| 0 <= m < d1.len() && d1[m] == d[b];
            lemma_first_with_id_unique(d1, "codebuddy-cn"@, a1);
            lemma_first_with_id_unique(d1, "codebuddy"@, b1);
            assert(d2.contains(d[a]));
        }
    }
}

fn copy_ide(i: &InstalledIde) -> (r: InstalledIde)
    ensures
        ide_view(r) == ide_view(*i),
{
    InstalledIde {
        id: crate::text::owned(i.id.as_str()),
        name: crate::text::owned(i.name.as_str()),
        path: crate::text::owned(i.path.as_str()),
    }
}

fn position_of_id(list: &Vec<InstalledIde>, id: &str) -> (r: Option<usize>)
    ensures
        match r {
            Some(i) => first_with_id(ides_view(list@), id@, 0) == Some(i as int) && i < list.len(),
            None => first_with_id(ides_view(list@), id@, 0) is None,
        },
        first_with_id(ides_view(list@), id@, 0) is None <==> !has_ide_id(ides_view(list@), id@),
{
    let ghost l = ides_view(list@);
    let mut i: usize = 0;
    while i < list.len()
        invariant
            i <= list.len(),
            l == ides_view(list@),
            first_with_id(l, id@, 0) == first_with_id(l, id@, i as int),
            forall|k: int| 0 <= k < i ==> l[k].0 != id@,
        decreases list.len() - i,
    {
        if str_eq(list[i].id.as_str(), id) {
            return Some(i);
        }
        i = i + 1;
    }
    None
}

proof fn lemma_first_with_id_found(list: Seq<(Seq<char>, Seq<char>, Seq<char>)>, id: Seq<char>, i: int)
    requires
        0 <= i,
    ensures
        first_with_id(list, id, i) matches Some(k) ==> i <= k < list.len() && list[k].0 == id,
    decreases list.len() - i,
{
    if i < list.len() && list[i].0 != id {
        lemma_first_with_id_found(list, id, i + 1);
    }
}

fn apply_prefer_cn(list: &mut Vec<InstalledIde>, cn: &str, intl: &str)
    ensures
        ides_view(final(list)@) == prefer_cn(ides_view(old(list)@), cn@, intl@),
{
    let a = position_of_id(list, cn);
    let b = position_of_id(list, intl);
    if let (Some(a), Some(b)) = (a, b) {
        let pa = chars_of(list[a].path.as_str());
        let pb = chars_of(list[b].path.as_str());
        let la = ascii_lower_chars(pa.as_slice());
        let lb = ascii_lower_chars(pb.as_slice());
        if crate::text::chars_eq(la.as_slice(), lb.as_slice()) {
            let ghost before = ides_view(list@);
            list.remove(b);
            assert(ides_view(list@) =~= before.remove(b as int));
        }
    }
}

proof fn lemma_dedup_unique(found: Seq<Option<(Seq<char>, Seq<char>, Seq<char>)>>)
    ensures
        ide_ids_unique(dedup_found(found)),
    decreases found.len(),
{
    if found.len() > 0 {
        lemma_dedup_unique(found.drop_last());
        let d = dedup_found(found.drop_last());
        match found.last() {
            Some(x) => {
                if !has_ide_id(d, x.0) {
                    let e = d.push(x);
                    assert forall|i: int, j: int|
                        0 <= i < e.len() && 0 <= j < e.len() && i != j implies #[trigger] e[i].0
                        != #[trigger] e[j].0 by {
                        if i == d.len() {
                            assert(e[j] == d[j]);
                        } else if j == d.len() {
                            assert(e[i] == d[i]);
                        } else {
                            assert(e[i] == d[i]);
                            assert(e[j] == d[j]);
                        }
                    }
                }
            },
            None => {},
        }
    }
}

proof fn lemma_prefer_cn_unique(list: Seq<(Seq<char>, Seq<char>, Seq<char>)>, cn: Seq<char>, intl: Seq<char>)
    requires
        ide_ids_unique(list),
    ensures
        ide_ids_unique(prefer_cn(list, cn, intl)),
{
    lemma_first_with_id_found(list, intl, 0);
    if let (Some(a), Some(b)) = (first_with_id(list, cn, 0), first_with_id(list, intl, 0)) {
        let r = list.remove(b);
        assert forall|i: int, j: int|
            0 <= i < r.len() && 0 <= j < r.len() && i != j implies #[trigger] r[i].0
            != #[trigger] r[j].0 by {
            let i2 = if i < b { i } else { i + 1 };
            let j2 = if j < b { j } else { j + 1 };
            assert(r[i] == list[i2]);
            assert(r[j] == list[j2]);
        }
    }
}

proof fn lemma_first_with_id_none(list: Seq<(Seq<char>, Seq<char>, Seq<char>)>, id: Seq<char>, i: int)
    requires
        0 <= i,
        first_with_id(list, id, i) is None,
    ensures
        forall|k: int| i <= k < list.len() ==> #[trigger] list[k].0 != id,
    decreases list.len() - i,
{
    if i < list.len() {
        lemma_first_with_id_none(list, id, i + 1);
    }
}

/// `prefer_cn` drops at most the international edition: every other entry
/// stays, and when both editions resolve to the same launcher (ASCII case
/// ignored), the international edition is gone.
pub proof fn lemma_prefer_cn_effect(
    list: Seq<(Seq<char>, Seq<char>, Seq<char>)>,
    cn: Seq<char>,
    intl: Seq<char>,
)
    requires
        ide_ids_unique(list),
        cn != intl,
    ensures
        ({
            let r = prefer_cn(list, cn, intl);
            &&& forall|x: (Seq<char>, Seq<char>, Seq<char>)|
                x.0 != intl ==> (r.contains(x) <==> list.contains(x))
            &&& match (first_with_id(list, cn, 0), first_with_id(list, intl, 0)) {
                (Some(a), Some(b)) => ascii_lower(list[a].2) == ascii_lower(list[b].2) ==> !has_ide_id(
                    r,
                    intl,
                ),
                _ => true,
            }
            &&& ide_ids_unique(r)
        }),
{
    lemma_first_with_id_found(list, cn, 0);
    lemma_first_with_id_found(list, intl, 0);
    lemma_prefer_cn_unique(list, cn, intl);
    let r = prefer_cn(list, cn, intl);
    if let (Some(a), Some(b)) = (first_with_id(list, cn, 0), first_with_id(list, intl, 0)) {
        if ascii_lower(list[a].2) == ascii_lower(list[b].2) {
            assert(r == list.remove(b));
            assert forall|x: (Seq<char>, Seq<char>, Seq<char>)| x.0 != intl implies (r.contains(x)
                <==> list.contains(x)) by {
                if list.contains(x) {
                    let k = choose|k: int| 0 <= k < list.len() && list[k] == x;
                    assert(k != b);
                    if k < b {
                        assert(r[k] == x);
                    } else {
                        assert(r[k - 1] == x);
                    }
                }
                if r.contains(x) {
                    let k = choose|k: int| 0 <= k < r.len() && r[k] == x;
                    if k < b {
                        assert(list[k] == x);
                    } else {
                        assert(list[k + 1] == x);
                    }
                }
            }
            assert(!has_ide_id(r, intl)) by {
                if has_ide_id(r, intl) {
                    let k = choose|k: int| 0 <= k < r.len() && #[trigger] r[k].0 == intl;
                    if k < b {
                        assert(r[k] == list[k]);
                    } else {
                        assert(r[k] == list[k + 1]);
                    }
                }
            }
        }
    }
}

/// The list of installed editors: each identifier once (its first
/// detection), and when `trae-cn` and `trae`, or `codebuddy-cn` and
/// `codebuddy`, resolve to the same launcher (ASCII case ignored), only the
/// CN edition.
pub fn detect_all_ides(found: &Vec<Option<InstalledIde>>) -> (r: Vec<InstalledIde>)
    ensures
        ides_view(r@) == all_ides_spec(found_view(found@)),
        ide_ids_unique(ides_view(r@)),
        cn_edition_kept(dedup_found(found_view(found@)), ides_view(r@), "trae-cn"@, "trae"@),
        cn_edition_kept(
            dedup_found(found_view(found@)),
            ides_view(r@),
            "codebuddy-cn"@,
            "codebuddy"@,
        ),
{
    let ghost fv = found_view(found@);
    let mut list: Vec<InstalledIde> = Vec::new();
    let mut i: usize = 0;
    while i < found.len()
        invariant
            i <= found.len(),
            fv == found_view(found@),
            ides_view(list@) == dedup_found(fv.take(i as int)),
        decreases found.len() - i,
    {
        assert(fv.take(i + 1).drop_last() =~= fv.take(i as int));
        if let Some(x) = &found[i] {
            if position_of_id(&list, x.id.as_str()).is_none() {
                let ghost prev = ides_view(list@);
                list.push(copy_ide(x));
                assert(ides_view(list@) =~= prev.push(ide_view(*x)));
            }
        }
        i = i + 1;
    }
    assert(fv.take(found.len() as int) =~= fv);
    proof {
        lemma_dedup_unique(fv);
        lemma_detect_all_editions(dedup_found(fv));
    }
    apply_prefer_cn(&mut list, "trae-cn", "trae");
    apply_prefer_cn(&mut list, "codebuddy-cn", "codebuddy");
    list
}

// ----- checks before an editor is run -----

/// What the system said about a launcher: whether it exists, how it is
/// displayed, its canonical form (or the text of the error), whether that
/// canonical form is a directory or a file, and the values of `TEMP`, `TMP`
/// and `TMPDIR` (`None` for one that is unset).
pub struct LauncherProbe {
    pub exists: bool,
    pub display: String,
    pub canonical: Result<String, String>,
    pub is_dir: bool,
    pub is_file: bool,
    pub temp_dirs: Vec<Option<String>>,
}

/// File names an editor's launcher may have (lower case): on Windows its
/// launcher names; everywhere each command name, alone or with `.cmd`,
/// `.bat` or `.exe`.
pub open spec fn allowed_launcher_name(v: IdeSpecView, name: Seq<char>, os: Os) -> bool {
    (os == Os::Windows && exists|i: int|
        0 <= i < v.exe_names.len() && ascii_lower(#[trigger] v.exe_names[i]) == name) || exists|j: int|
        0 <= j < v.cli_names.len() && {
            let l = ascii_lower(#[trigger] v.cli_names[j]);
            name == l || name == l + ".cmd"@ || name == l + ".bat"@ || name == l + ".exe"@
        }
}

/// A macOS bundle name (lower case) that belongs to an editor.
pub open spec fn allowed_bundle_name(v: IdeSpecView, name: Seq<char>) -> bool {
    exists|k: int|
        0 <= k < v.mac_apps.len() && (name == ascii_lower(#[trigger] v.mac_apps[k]) + ".app"@
            || seq_contains(name, ascii_lower(v.mac_apps[k])))
}

/// What `validate_ide_launcher` answers: the canonical launcher, or why it
/// may not be run.
pub open spec fn launcher_check(id: Seq<char>, p: LauncherProbe, os: Os) -> Result<Seq<char>, Seq<char>> {
    match find_spec(ide_table(), id) {
        None => Err("未知的 IDE: "@ + id),
        Some(k) => {
            let v = ide_table()[k as int];
            if !p.exists {
                Err("IDE 路径不存在: "@ + p.display@)
            } else {
                match p.canonical {
                    Err(e) => Err("无法解析 IDE 路径: "@ + e@),
                    Ok(c) => {
                        let name = lower_name(path_file_name(c@, os));
                        let unsafe_path = unsafe_location(c@, os, opt_strings_view(p.temp_dirs@));
                        if os == Os::MacOs && p.is_dir {
                            if seq_ends_with(name, ".app"@) && allowed_bundle_name(v, name)
                                && !unsafe_path {
                                Ok(c@)
                            } else {
                                Err("IDE 应用包未通过安全校验"@)
                            }
                        } else if !p.is_file {
                            Err("IDE 启动器不是有效文件"@)
                        } else if seq_contains(name, "uninstall"@) || seq_starts_with(
                            name,
                            "unins"@,
                        ) {
                            Err("拒绝执行卸载程序"@)
                        } else if !allowed_launcher_name(v, name, os) {
                            Err("IDE 可执行文件名未通过白名单校验"@)
                        } else if !keywords_ok(v, c@) {
                            Err("IDE 路径关键词未通过校验"@)
                        } else if unsafe_path {
                            Err("IDE 位于临时目录等不安全路径，已拒绝启动"@)
                        } else {
                            Ok(c@)
                        }
                    },
                }
            }
        },
    }
}

fn name_allowed(spec: &IdeSpec, name: &[char], os: Os) -> (r: bool)
    ensures
        r == allowed_launcher_name(spec_view(*spec), name@, os),
{
    let ghost v = spec_view(*spec);
    if os == Os::Windows && name_in_lowered(name, &spec.exe_names) {
        proof {
            let i = choose|i: int|
                0 <= i < spec.exe_names.len() && ascii_lower(#[trigger] strs_view(spec.exe_names)[i])
                    == name@;
            assert(v.exe_names == strs_view(spec.exe_names));
            assert(ascii_lower(v.exe_names[i]) == name@);
        }
        return true;
    }
    let mut j: usize = 0;
    while j < spec.cli_names.len()
        invariant
            j <= spec.cli_names.len(),
            v == spec_view(*spec),
            forall|k: int|
                0 <= k < j ==> {
                    let l = ascii_lower(#[trigger] v.cli_names[k]);
                    !(name@ == l || name@ == l + ".cmd"@ || name@ == l + ".bat"@ || name@ == l
                        + ".exe"@)
                },
        decreases spec.cli_names.len() - j,
    {
        let c = chars_of(spec.cli_names[j]);
        let l = ascii_lower_chars(c.as_slice());
        assert(v.cli_names[j as int] == spec.cli_names@[j as int]@);
        let ls = string_from_chars(l.as_slice());
        let with_cmd = concat(ls.as_str(), ".cmd");
        let with_bat = concat(ls.as_str(), ".bat");
        let with_exe = concat(ls.as_str(), ".exe");
        let a = chars_of(with_cmd.as_str());
        let b = chars_of(with_bat.as_str());
        let e = chars_of(with_exe.as_str());
        if crate::text::chars_eq(name, l.as_slice()) || crate::text::chars_eq(name, a.as_slice())
            || crate::text::chars_eq(name, b.as_slice()) || crate::text::chars_eq(
            name,
            e.as_slice(),
        ) {
            return true;
        }
        j = j + 1;
    }
    false
}

fn bundle_allowed(spec: &IdeSpec, name: &[char]) -> (r: bool)
    ensures
        r == allowed_bundle_name(spec_view(*spec), name@),
{
    let ghost v = spec_view(*spec);
    let mut k: usize = 0;
    while k < spec.mac_apps.len()
        invariant
            k <= spec.mac_apps.len(),
            v == spec_view(*spec),
            forall|m: int|
                0 <= m < k ==> !(name@ == ascii_lower(#[trigger] v.mac_apps[m]) + ".app"@
                    || seq_contains(name@, ascii_lower(v.mac_apps[m]))),
        decreases spec.mac_apps.len() - k,
    {
        let c = chars_of(spec.mac_apps[k]);
        let l = ascii_lower_chars(c.as_slice());
        assert(v.mac_apps[k as int] == spec.mac_apps@[k as int]@);
        let ls = string_from_chars(l.as_slice());
        let with_app = concat(ls.as_str(), ".app");
        let a = chars_of(with_app.as_str());
        if crate::text::chars_eq(name, a.as_slice()) || contains_chars(name, l.as_slice()) {
            return true;
        }
        k = k + 1;
    }
    false
}

/// Checks a launcher again right before it is run (a cached path could have
/// been replaced): the editor is known, the launcher exists and can be made
/// canonical; a macOS bundle must be one of the editor's bundles outside
/// temporary folders; otherwise it must be a file, not an uninstaller, carry
/// one of the editor's launcher names, match its path keywords, and lie
/// outside temporary folders.  Gives the canonical launcher.
pub fn validate_ide_launcher(ide_id: &str, probe: &LauncherProbe, os: Os) -> (r: Result<String, String>)
    ensures
        result_view(r) == launcher_check(ide_id@, *probe, os),
{
    let specs = ide_specs();
    let k = match find_spec_index(&specs, ide_id) {
        None => return Err(concat("未知的 IDE: ", ide_id)),
        Some(k) => k,
    };
    let spec = &specs[k];
    assert(spec_view(*spec) == ide_table()[k as int]);
    if !probe.exists {
        return Err(concat("IDE 路径不存在: ", probe.display.as_str()));
    }
    let canonical = match &probe.canonical {
        Err(e) => return Err(concat("无法解析 IDE 路径: ", e.as_str())),
        Ok(c) => c,
    };
    let parts = launcher_parts(canonical.as_str(), os);
    let name = lowered_name(&parts.file_name);
    let unsafe_path = is_unsafe_install_location(canonical.as_str(), os, &probe.temp_dirs);
    if os == Os::MacOs && probe.is_dir {
        let app = chars_of(".app");
        if ends_with_chars(name.as_slice(), app.as_slice()) && bundle_allowed(spec, name.as_slice())
            && !unsafe_path {
            return Ok(owned(canonical.as_str()));
        }
        return Err(owned("IDE 应用包未通过安全校验"));
    }
    if !probe.is_file {
        return Err(owned("IDE 启动器不是有效文件"));
    }
    let uninstall = chars_of("uninstall");
    let unins = chars_of("unins");
    if contains_chars(name.as_slice(), uninstall.as_slice()) || starts_with_chars(
        name.as_slice(),
        unins.as_slice(),
    ) {
        return Err(owned("拒绝执行卸载程序"));
    }
    if !name_allowed(spec, name.as_slice(), os) {
        return Err(owned("IDE 可执行文件名未通过白名单校验"));
    }
    if !path_matches_spec(spec, canonical.as_str()) {
        return Err(owned("IDE 路径关键词未通过校验"));
    }
    if unsafe_path {
        return Err(owned("IDE 位于临时目录等不安全路径，已拒绝启动"));
    }
    Ok(owned(canonical.as_str()))
}

/// Whether `id` names a known editor.
pub open spec fn known_ide(id: Seq<char>) -> bool {
    find_spec(ide_table(), id) is Some
}

/// What `open_in_ide` answers first for an editor identifier: it must be 1
/// to 64 bytes long, hold no NUL, and name a known editor.
pub open spec fn ide_id_error(id: &str) -> Option<Seq<char>> {
    if id@.len() == 0 || id.len() > 64 || id@.contains('\0') {
        Some("无效的 IDE 标识"@)
    } else if !known_ide(id@) {
        Some("未知的 IDE: "@ + id@)
    } else {
        None
    }
}

/// Checks an editor identifier from the front end.
pub fn check_ide_id(ide_id: &str) -> (r: Result<(), String>)
    ensures
        match ide_id_error(ide_id) {
            Some(m) => r matches Err(e) && e@ == m,
            None => r is Ok,
        },
{
    if ide_id.is_empty() || ide_id.len() > 64 {
        return Err(owned("无效的 IDE 标识"));
    }
    let cs = chars_of(ide_id);
    if has_char(cs.as_slice(), '\0') {
        return Err(owned("无效的 IDE 标识"));
    }
    let specs = ide_specs();
    if find_spec_index(&specs, ide_id).is_none() {
        return Err(concat("未知的 IDE: ", ide_id));
    }
    Ok(())
}

/// The installed editor with this identifier (the first one listed).
pub fn find_installed(ides: &Vec<InstalledIde>, ide_id: &str) -> (r: Result<InstalledIde, String>)
    ensures
        match first_with_id(ides_view(ides@), ide_id@, 0) {
            Some(i) => r matches Ok(x) && ide_view(x) == ides_view(ides@)[i],
            None => r matches Err(e) && e@ == "未检测到已安装的 IDE: "@ + ide_id@,
        },
{
    match position_of_id(ides, ide_id) {
        Some(i) => Ok(copy_ide(&ides[i])),
        None => Err(concat("未检测到已安装的 IDE: ", ide_id)),
    }
}

/// A program to start, its arguments, and whether to start it without a
/// console window.
pub struct LaunchCommand {
    pub program: String,
    pub args: Vec<String>,
    pub hide_window: bool,
}

pub open spec fn command_view(c: LaunchCommand) -> (Seq<char>, Seq<Seq<char>>, bool) {
    (c.program@, strings_view(c.args@), c.hide_window)
}

/// How an editor opens a folder: a macOS bundle through `open -a`, a Windows
/// `.cmd` / `.bat` wrapper through `cmd /C` without a console window, any
/// other launcher directly with the folder as argument.
pub open spec fn ide_command_spec(
    launcher: Seq<char>,
    launcher_is_dir: bool,
    extension: Option<Seq<char>>,
    dir: Seq<char>,
    os: Os,
) -> (Seq<char>, Seq<Seq<char>>, bool) {
    let ext = lower_name(extension);
    if os == Os::MacOs && launcher_is_dir {
        ("open"@, seq!["-a"@, launcher, dir], false)
    } else if os == Os::Windows && (ext == "cmd"@ || ext == "bat"@) {
        ("cmd"@, seq!["/C"@, launcher, dir], true)
    } else {
        (launcher, seq![dir], false)
    }
}

/// The command that opens a folder with a checked launcher (whether the
/// launcher is a directory comes from the file system).
pub fn ide_launch_command(launcher: &str, launcher_is_dir: bool, dir: &str, os: Os) -> (r:
    LaunchCommand)
    ensures
        command_view(r) == ide_command_spec(
            launcher@,
            launcher_is_dir,
            path_extension(launcher@, os),
            dir@,
            os,
        ),
{
    let ext: Vec<char> = match extension_chars(launcher, os) {
        Some(e) => ascii_lower_chars(e.as_slice()),
        None => Vec::new(),
    };
    assert(ext@ == lower_name(path_extension(launcher@, os)));
    let mut args: Vec<String> = Vec::new();
    if os == Os::MacOs && launcher_is_dir {
        args.push(owned("-a"));
        args.push(owned(launcher));
        args.push(owned(dir));
        assert(strings_view(args@) =~= seq!["-a"@, launcher@, dir@]);
        return LaunchCommand { program: owned("open"), args, hide_window: false };
    }
    let cmd_ext = chars_of("cmd");
    let bat_ext = chars_of("bat");
    if os == Os::Windows && (crate::text::chars_eq(ext.as_slice(), cmd_ext.as_slice())
        || crate::text::chars_eq(ext.as_slice(), bat_ext.as_slice())) {
        args.push(owned("/C"));
        args.push(owned(launcher));
        args.push(owned(dir));
        assert(strings_view(args@) =~= seq!["/C"@, launcher@, dir@]);
        return LaunchCommand { program: owned("cmd"), args, hide_window: true };
    }
    args.push(owned(dir));
    assert(strings_view(args@) =~= seq![dir@]);
    LaunchCommand { program: owned(launcher), args, hide_window: false }
}

/// How the system file manager opens a folder: `explorer` on Windows,
/// `open` on macOS, `xdg-open` on Linux; other systems have none.
pub open spec fn explorer_spec(dir: Seq<char>, os: Os) -> Result<(Seq<char>, Seq<Seq<char>>, bool), Seq<char>> {
    match os {
        Os::Windows => Ok(("explorer"@, seq![dir], false)),
        Os::MacOs => Ok(("open"@, seq![dir], false)),
        Os::Linux => Ok(("xdg-open"@, seq![dir], false)),
        Os::Other => Err("当前系统不支持打开资源管理器"@),
    }
}

/// The command that opens a folder in the system file manager.
pub fn explorer_command(dir: &str, os: Os) -> (r: Result<LaunchCommand, String>)
    ensures
        match r {
            Ok(c) => explorer_spec(dir@, os) == Ok::<(Seq<char>, Seq<Seq<char>>, bool), Seq<char>>(
                command_view(c),
            ),
            Err(e) => explorer_spec(dir@, os) == Err::<(Seq<char>, Seq<Seq<char>>, bool), Seq<char>>(
                e@,
            ),
        },
{
    let program = match os {
        Os::Windows => owned("explorer"),
        Os::MacOs => owned("open"),
        Os::Linux => owned("xdg-open"),
        Os::Other => return Err(owned("当前系统不支持打开资源管理器")),
    };
    let mut args: Vec<String> = Vec::new();
    args.push(owned(dir));
    assert(strings_view(args@) =~= seq![dir@]);
    Ok(LaunchCommand { program, args, hide_window: false })
}

/// The message when a program could not be started; `error` is the text of
/// the operating system's error.
pub fn launch_error(error: &str) -> (r: String)
    ensures
        r@ == "启动失败: "@ + error@,
{
    concat("启动失败: ", error)
}

} // verus!
