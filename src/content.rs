//! Routing the files of an extracted plugin to their handlers.
use vstd::prelude::*;
use crate::text::{chars_of, matches_at};

verus! {

/// The kinds of file that plugin content processing acts on.
#[derive(Clone, Copy, Debug, PartialEq, Eq, Structural)]
pub enum FileCategory {
    /// `.reg`: imported into the registry.
    Registry,
    /// `.exe`, other than the bundled script runner: started hidden.
    Executable,
    /// `.bat`: started hidden.
    Batch,
    /// `.cmd`: started hidden.
    Command,
    /// `.ini`: handed to the script runner.
    Script,
    /// `.wcs`, in any letter case: handed to the script runner.
    ScriptVariant,
}

/// One file to act on: its category and its index among the listed names.
#[derive(Clone, Copy, Debug, PartialEq, Eq, Structural)]
pub struct ContentTask {
    pub category: FileCategory,
    pub entry: usize,
}

/// Index of the last `c` in `s`, or -1.
pub open spec fn last_index_of(s: Seq<char>, c: char) -> int
    decreases s.len(),
{
    if s.len() == 0 {
        -1
    } else if s.last() == c {
        s.len() - 1
    } else {
        last_index_of(s.drop_last(), c)
    }
}

/// A file name's extension: what follows its last dot, where that dot is
/// not the name's first character (and the name is not `..`).
pub open spec fn extension_of(name: Seq<char>) -> Option<Seq<char>> {
    let i = last_index_of(name, '.');
    if name == seq!['.', '.'] || i <= 0 {
        None
    } else {
        Some(name.skip(i + 1))
    }
}

/// The code of `c`, with ASCII upper case letters taken to lower case.
pub open spec fn ascii_folded(c: char) -> u32 {
    if 'A' <= c && c <= 'Z' {
        (c as u32 + 32) as u32
    } else {
        c as u32
    }
}

/// `a` and `b` are equal when ASCII letter case is ignored.
pub open spec fn eq_ignore_ascii_case(a: Seq<char>, b: Seq<char>) -> bool {
    a.len() == b.len() && forall|i: int| 0 <= i < a.len() ==> ascii_folded(#[trigger] a[i]) == ascii_folded(b[i])
}

/// Whether a file of the given name belongs to a category.
pub open spec fn in_category(name: Seq<char>, cat: FileCategory) -> bool {
    match extension_of(name) {
        None => false,
        Some(ext) => match cat {
            FileCategory::Registry => ext == "reg"@,
            FileCategory::Executable => ext == "exe"@ && !eq_ignore_ascii_case(name, "pecmd.exe"@),
            FileCategory::Batch => ext == "bat"@,
            FileCategory::Command => ext == "cmd"@,
            FileCategory::Script => ext == "ini"@,
            FileCategory::ScriptVariant => eq_ignore_ascii_case(ext, "wcs"@),
        },
    }
}

/// The tasks of one category among the first `n` names, in listing order.
pub open spec fn tasks_upto(names: Seq<Seq<char>>, cat: FileCategory, n: int) -> Seq<ContentTask>
    decreases n,
{
    if n <= 0 {
        Seq::empty()
    } else {
        let prev = tasks_upto(names, cat, n - 1);
        if in_category(names[n - 1], cat) {
            prev.push(ContentTask { category: cat, entry: (n - 1) as usize })
        } else {
            prev
        }
    }
}

pub open spec fn tasks_for(names: Seq<Seq<char>>, cat: FileCategory) -> Seq<ContentTask> {
    tasks_upto(names, cat, names.len() as int)
}

/// The fixed order in which extracted files are processed, whatever the
/// plugin kind: registry imports, executables, batch and command scripts,
/// then the two script-runner formats.
pub open spec fn category_order() -> Seq<FileCategory> {
    seq![
        FileCategory::Registry,
        FileCategory::Executable,
        FileCategory::Batch,
        FileCategory::Command,
        FileCategory::Script,
        FileCategory::ScriptVariant,
    ]
}

/// The tasks of the listed categories, category by category.
pub open spec fn tasks_in_order(names: Seq<Seq<char>>, cats: Seq<FileCategory>) -> Seq<ContentTask>
    decreases cats.len(),
{
    if cats.len() == 0 {
        Seq::empty()
    } else {
        tasks_in_order(names, cats.drop_last()) + tasks_for(names, cats.last())
    }
}

pub open spec fn names_view(names: Seq<String>) -> Seq<Seq<char>> {
    names.map_values(|s: String| s@)
}

/// What processing the extracted files of a plugin does.
pub open spec fn content_plan(names: Seq<Seq<char>>) -> Seq<ContentTask> {
    tasks_in_order(names, category_order())
}

/// Whether two character sequences are equal.
pub fn chars_equal(a: &Vec<char>, b: &Vec<char>) -> (r: bool)
    ensures
        r == (a@ == b@),
{
    if a.len() != b.len() {
        return false;
    }
    let m = matches_at(a, 0, b);
    assert(a@.subrange(0, b@.len() as int) =~= a@);
    m
}

fn folded(c: char) -> (r: u32)
    ensures
        r == ascii_folded(c),
{
    if 'A' <= c && c <= 'Z' {
        c as u32 + 32
    } else {
        c as u32
    }
}

/// Whether two character sequences are equal when ASCII letter case is
/// ignored.
pub fn chars_equal_ignore_ascii_case(a: &Vec<char>, b: &Vec<char>) -> (r: bool)
    ensures
        r == eq_ignore_ascii_case(a@, b@),
{
    if a.len() != b.len() {
        return false;
    }
    let mut i: usize = 0;
    while i < a.len()
        invariant
            a@.len() == b@.len(),
            i <= a@.len(),
            forall|k: int| 0 <= k < i ==> ascii_folded(#[trigger] a@[k]) == ascii_folded(b@[k]),
        decreases a@.len() - i,
    {
        if folded(a[i]) != folded(b[i]) {
            return false;
        }
        i = i + 1;
    }
    true
}

/// The extension of a file name, as `extension_of` describes it.
pub fn extension(name: &Vec<char>) -> (r: Option<Vec<char>>)
    ensures
        match r {
            Some(v) => extension_of(name@) == Some(v@),
            None => extension_of(name@) is None,
        },
{
    let mut i: usize = name.len();
    assert(name@.take(i as int) =~= name@);
    while i > 0 && name[i - 1] != '.'
        invariant
            i <= name@.len(),
            last_index_of(name@, '.') == last_index_of(name@.take(i as int), '.'),
        decreases i,
    {
        assert(name@.take(i as int).drop_last() =~= name@.take(i - 1));
        i = i - 1;
    }
    if i > 0 {
        assert(name@.take(i as int).last() == '.');
    }
    let dots = vec!['.', '.'];
    if chars_equal(name, &dots) || i <= 1 {
        assert(dots@ =~= seq!['.', '.']);
        return None;
    }
    let mut ext: Vec<char> = Vec::new();
    let mut j: usize = i;
    while j < name.len()
        invariant
            i <= j <= name@.len(),
            ext@ == name@.subrange(i as int, j as int),
        decreases name@.len() - j,
    {
        ext.push(name[j]);
        j = j + 1;
        assert(ext@ =~= name@.subrange(i as int, j as int));
    }
    assert(ext@ =~= name@.skip(i as int));
    assert(dots@ =~= seq!['.', '.']);
    Some(ext)
}

fn extension_is(ext: &Vec<char>, lit: &str) -> (r: bool)
    ensures
        r == (ext@ == lit@),
{
    let l = chars_of(lit);
    chars_equal(ext, &l)
}

/// Whether a file of the given name belongs to a category.
pub fn belongs_to(name: &String, cat: FileCategory) -> (r: bool)
    ensures
        r == in_category(name@, cat),
{
    let n = chars_of(name.as_str());
    match extension(&n) {
        None => false,
        Some(ext) => match cat {
            FileCategory::Registry => extension_is(&ext, "reg"),
            FileCategory::Executable => {
                let helper = chars_of("pecmd.exe");
                extension_is(&ext, "exe") && !chars_equal_ignore_ascii_case(&n, &helper)
            },
            FileCategory::Batch => extension_is(&ext, "bat"),
            FileCategory::Command => extension_is(&ext, "cmd"),
            FileCategory::Script => extension_is(&ext, "ini"),
            FileCategory::ScriptVariant => {
                let w = chars_of("wcs");
                chars_equal_ignore_ascii_case(&ext, &w)
            },
        },
    }
}

fn push_category(names: &Vec<String>, cat: FileCategory, out: &mut Vec<ContentTask>)
    ensures
        final(out)@ == old(out)@ + tasks_for(names_view(names@), cat),
{
    let ghost nv = names_view(names@);
    let mut i: usize = 0;
    while i < names.len()
        invariant
            i <= names@.len(),
            nv == names_view(names@),
            out@ == old(out)@ + tasks_upto(nv, cat, i as int),
        decreases names@.len() - i,
    {
        if belongs_to(&names[i], cat) {
            out.push(ContentTask { category: cat, entry: i });
        }
        i = i + 1;
        assert(out@ =~= old(out)@ + tasks_upto(nv, cat, i as int));
    }
}

/// What processing the extracted files of a plugin does, given the names of
/// the entries of its directory: one task per file that a category takes,
/// category by category in the fixed order, and in listing order within a
/// category.
pub fn plan_content(names: &Vec<String>) -> (r: Vec<ContentTask>)
    ensures
        r@ == content_plan(names_view(names@)),
{
    let ghost nv = names_view(names@);
    let mut r: Vec<ContentTask> = Vec::new();
    let order: Vec<FileCategory> = vec![
        FileCategory::Registry,
        FileCategory::Executable,
        FileCategory::Batch,
        FileCategory::Command,
        FileCategory::Script,
        FileCategory::ScriptVariant,
    ];
    assert(order@ =~= category_order());
    let mut k: usize = 0;
    assert(order@.take(0) =~= Seq::<FileCategory>::empty());
    while k < order.len()
        invariant
            k <= order@.len(),
            nv == names_view(names@),
            r@ == tasks_in_order(nv, order@.take(k as int)),
        decreases order@.len() - k,
    {
        assert(order@.take(k + 1).drop_last() =~= order@.take(k as int));
        push_category(names, order[k], &mut r);
        k = k + 1;
    }
    assert(order@.take(k as int) =~= order@);
    r
}

} // verus!
