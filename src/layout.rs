//! Where plugins are looked for and where they are put: volumes, source
//! directories, working directories, and the script runner's command line.
use vstd::prelude::*;
use crate::activation::PluginKind;
use crate::content::{chars_equal_ignore_ascii_case, extension, extension_of, eq_ignore_ascii_case, chars_equal};
use crate::invocation::{lowercase, lowercase_of};
use crate::text::{chars_of, push_str_chars, string_of};

verus! {

/// Where Edgeless archives are extracted, all into the same place.
pub const EDGELESS_TARGET_DIR: &'static str = "X:\\Program Files\\Edgeless";

/// The permanent root under which HPM modules are kept.
pub const HPM_MODULES_ROOT: &'static str = "X:\\Program Files\\HotPEModules";

/// Where an HPM archive is extracted before its module is named.
pub const HPM_STAGING_DIR: &'static str = "X:\\Program Files\\HotPEModules\\tmp";

/// The desktop template that Edgeless activation mirrors.
pub const DEFAULT_DESKTOP_DIR: &'static str = "X:\\Users\\Default\\Desktop";

/// The active user's desktop.
pub const USER_DESKTOP_DIR: &'static str = "X:\\Users\\Administrator\\Desktop";

/// The bundled script runner, as installed in the environment.
pub const SCRIPT_RUNNER_PATH: &'static str = "X:\\Windows\\PECMD.EXE";

pub open spec fn strings_view(v: Seq<String>) -> Seq<Seq<char>> {
    v.map_values(|s: String| s@)
}

/// Bit `i` of a logical-drive mask is set.
pub open spec fn drive_bit(mask: u32, i: u32) -> bool {
    (mask >> i) & 1u32 == 1u32
}

pub open spec fn drive_letter(i: int) -> char {
    "ABCDEFGHIJKLMNOPQRSTUVWXYZ"@[i]
}

/// The volumes among the first `n` bits of a mask, as `C:`, in letter order.
pub open spec fn drives_upto(mask: u32, n: int) -> Seq<Seq<char>>
    decreases n,
{
    if n <= 0 {
        Seq::empty()
    } else {
        let prev = drives_upto(mask, n - 1);
        if drive_bit(mask, (n - 1) as u32) {
            prev.push(seq![drive_letter(n - 1), ':'])
        } else {
            prev
        }
    }
}

/// The volumes that a logical-drive mask names (bit 0 is `A:`), in letter
/// order.
pub fn drives_from_mask(mask: u32) -> (r: Vec<String>)
    ensures
        strings_view(r@) == drives_upto(mask, 26),
{
    let letters = chars_of("ABCDEFGHIJKLMNOPQRSTUVWXYZ");
    proof {
        reveal_strlit("ABCDEFGHIJKLMNOPQRSTUVWXYZ");
    }
    let mut r: Vec<String> = Vec::new();
    let mut i: u32 = 0;
    while i < 26
        invariant
            i <= 26,
            letters@ == "ABCDEFGHIJKLMNOPQRSTUVWXYZ"@,
            letters@.len() == 26,
            strings_view(r@) == drives_upto(mask, i as int),
        decreases 26 - i,
    {
        if (mask >> i) & 1u32 == 1u32 {
            let d = vec![letters[i as usize], ':'];
            let s = string_of(&d);
            r.push(s);
            assert(strings_view(r@) =~= drives_upto(mask, i + 1));
        }
        i = i + 1;
    }
    r
}

/// Index of the first `true`.
pub open spec fn is_first_found(present: Seq<bool>, i: int) -> bool {
    0 <= i < present.len() && present[i] && forall|j: int| 0 <= j < i ==> !present[j]
}

/// The first volume on which a source was found: discovery takes the first in
/// enumeration order.
pub fn first_found(present: &Vec<bool>) -> (r: Option<usize>)
    ensures
        match r {
            Some(i) => is_first_found(present@, i as int),
            None => forall|j: int| 0 <= j < present@.len() ==> !present@[j],
        },
{
    let mut i: usize = 0;
    while i < present.len()
        invariant
            i <= present@.len(),
            forall|j: int| 0 <= j < i ==> !present@[j],
        decreases present@.len() - i,
    {
        if present[i] {
            return Some(i);
        }
        i = i + 1;
    }
    None
}

/// Where on a volume a kind keeps its plugins.
pub open spec fn source_suffix(kind: PluginKind) -> Seq<char> {
    match kind {
        PluginKind::Ce => "\\ce-apps"@,
        PluginKind::Edgeless => "\\Edgeless\\Resource"@,
        PluginKind::Hpm => "\\HotPEModule"@,
    }
}

/// The directory on a volume (written `C:`) where a kind keeps its plugins.
pub fn source_dir(kind: PluginKind, drive: &str) -> (r: String)
    ensures
        r@ == drive@ + source_suffix(kind),
{
    let mut out: Vec<char> = Vec::new();
    push_str_chars(&mut out, drive);
    match kind {
        PluginKind::Ce => push_str_chars(&mut out, "\\ce-apps"),
        PluginKind::Edgeless => push_str_chars(&mut out, "\\Edgeless\\Resource"),
        PluginKind::Hpm => push_str_chars(&mut out, "\\HotPEModule"),
    }
    string_of(&out)
}

/// A file of this name is an archive of the given kind.
pub open spec fn is_archive_of(kind: PluginKind, name: Seq<char>) -> bool {
    match extension_of(name) {
        None => false,
        Some(e) => match kind {
            PluginKind::Ce => e == "ce"@,
            PluginKind::Edgeless => e == "7z"@,
            PluginKind::Hpm => eq_ignore_ascii_case(e, "hpm"@),
        },
    }
}

/// Whether a file of this name is an archive of the given kind.
pub fn is_plugin_archive(kind: PluginKind, name: &String) -> (r: bool)
    ensures
        r == is_archive_of(kind, name@),
{
    let n = chars_of(name.as_str());
    match extension(&n) {
        None => false,
        Some(e) => match kind {
            PluginKind::Ce => {
                let l = chars_of("ce");
                chars_equal(&e, &l)
            },
            PluginKind::Edgeless => {
                let l = chars_of("7z");
                chars_equal(&e, &l)
            },
            PluginKind::Hpm => {
                let l = chars_of("hpm");
                chars_equal_ignore_ascii_case(&e, &l)
            },
        },
    }
}

/// The fresh working directory into which one CE archive is extracted.
pub fn ce_working_dir(suffix: &str) -> (r: String)
    ensures
        r@ == "X:\\Program Files\\CE-RAMOS\\"@ + suffix@,
{
    let mut out: Vec<char> = Vec::new();
    push_str_chars(&mut out, "X:\\Program Files\\CE-RAMOS\\");
    push_str_chars(&mut out, suffix);
    string_of(&out)
}

/// The permanent directory of an HPM module: its declared name and a suffix.
pub fn hpm_module_dir(module_name: &str, suffix: &str) -> (r: String)
    ensures
        r@ == "X:\\Program Files\\HotPEModules\\"@ + module_name@ + "_"@ + suffix@,
{
    let mut out: Vec<char> = Vec::new();
    push_str_chars(&mut out, "X:\\Program Files\\HotPEModules\\");
    push_str_chars(&mut out, module_name);
    push_str_chars(&mut out, "_");
    push_str_chars(&mut out, suffix);
    string_of(&out)
}

/// `dir` joined with a file name by one separator.
pub fn join_path(dir: &str, file: &str) -> (r: String)
    ensures
        r@ == dir@ + "\\"@ + file@,
{
    let mut out: Vec<char> = Vec::new();
    push_str_chars(&mut out, dir);
    push_str_chars(&mut out, "\\");
    push_str_chars(&mut out, file);
    string_of(&out)
}

/// The command that hands a script to the script runner: `LOAD` into a
/// runner that is already running, `MAIN` to start one.
pub open spec fn runner_command_line(running: bool, script: Seq<char>) -> Seq<char> {
    "PECMD.EXE "@ + (if running { "LOAD"@ } else { "MAIN"@ }) + " \""@ + script + "\""@
}

/// The command line that runs a script through the script runner.
pub fn script_runner_command(running: bool, script: &str) -> (r: String)
    ensures
        r@ == runner_command_line(running, script@),
{
    let mut out: Vec<char> = Vec::new();
    push_str_chars(&mut out, "PECMD.EXE ");
    if running {
        push_str_chars(&mut out, "LOAD");
    } else {
        push_str_chars(&mut out, "MAIN");
    }
    push_str_chars(&mut out, " \"");
    push_str_chars(&mut out, script);
    push_str_chars(&mut out, "\"");
    string_of(&out)
}


/// Some listed process has the wanted executable name, once both are put in
/// lower case.
pub open spec fn process_listed(running: Seq<Seq<char>>, wanted: Seq<char>) -> bool {
    exists|i: int| 0 <= i < running.len() && #[trigger] lowercase_of(running[i]) == lowercase_of(wanted)
}

/// Whether some name, already in lower case, equals the wanted name, also in
/// lower case.
pub fn lowered_name_listed(lowered: &Vec<String>, wanted: &String) -> (r: bool)
    ensures
        r == exists|i: int| 0 <= i < lowered@.len() && #[trigger] lowered@[i]@ == wanted@,
{
    let mut i: usize = 0;
    while i < lowered.len()
        invariant
            i <= lowered@.len(),
            forall|j: int| 0 <= j < i ==> #[trigger] lowered@[j]@ != wanted@,
        decreases lowered@.len() - i,
    {
        if lowered[i] == *wanted {
            return true;
        }
        i = i + 1;
    }
    false
}

/// Whether a process with the given executable name is among the running
/// ones, letter case ignored.
pub fn is_process_listed(running: &Vec<String>, wanted: &str) -> (r: bool)
    ensures
        r == process_listed(strings_view(running@), wanted@),
{
    let target = lowercase(wanted);
    let mut lowered: Vec<String> = Vec::new();
    let mut i: usize = 0;
    while i < running.len()
        invariant
            i <= running@.len(),
            lowered@.len() == i,
            forall|j: int| 0 <= j < i ==> #[trigger] lowered@[j]@ == lowercase_of(running@[j]@),
        decreases running@.len() - i,
    {
        let l = lowercase(running[i].as_str());
        lowered.push(l);
        i = i + 1;
    }
    let r = lowered_name_listed(&lowered, &target);
    proof {
        let sv = strings_view(running@);
        if r {
            let i = choose|i: int| 0 <= i < lowered@.len() && #[trigger] lowered@[i]@ == target@;
            assert(lowercase_of(sv[i]) == lowercase_of(wanted@));
        } else {
            assert forall|i: int| 0 <= i < sv.len() implies #[trigger] lowercase_of(sv[i]) != lowercase_of(wanted@) by {
                assert(lowered@[i]@ == lowercase_of(running@[i]@));
            }
        }
    }
    r
}

} // verus!
