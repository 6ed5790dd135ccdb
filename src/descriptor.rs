//! The descriptor interpreter: from a plugin's descriptor text to the
//! provisioning actions it asks for.
use vstd::prelude::*;
use crate::text::{
    chars_of, escape, escape_separators, has_prefix, normalize, normalize_path, starts_with_chars,
    string_of, substitute_dir_macro, substitute_macro,
};

verus! {

/// One section of a parsed key-value document. The unnamed section holds the
/// keys that stand before the first header.
#[derive(Clone, Debug, PartialEq, Eq)]
pub struct IniSection {
    pub name: Option<String>,
    pub entries: Vec<(String, String)>,
}

/// Key-value pairs, in document order.
pub type EntriesModel = Seq<(Seq<char>, Seq<char>)>;

/// A section's name (if any) and its key-value pairs.
pub type SectionModel = (Option<Seq<char>>, EntriesModel);

pub open spec fn entries_view(e: Seq<(String, String)>) -> EntriesModel {
    e.map_values(|p: (String, String)| (p.0@, p.1@))
}

pub open spec fn section_view(s: IniSection) -> SectionModel {
    (
        match s.name {
            Some(n) => Some(n@),
            None => None,
        },
        entries_view(s.entries@),
    )
}

pub open spec fn sections_view(v: Seq<IniSection>) -> Seq<SectionModel> {
    v.map_values(|s: IniSection| section_view(s))
}

/// The sections, in document order, that rust-ini reads from a text with its
/// default options (escapes and quotes honoured), or `None` where it reports
/// a parse error.
pub uninterp spec fn ini_sections_of(text: Seq<char>) -> Option<Seq<SectionModel>>;

/// Relies on rust-ini's `Ini::load_from_str`, walked with `Ini::iter` and
/// `Properties::iter`: the sections and their pairs in document order.
#[verifier::external_body]
fn parse_ini(text: &str) -> (r: Option<Vec<IniSection>>)
    ensures
        r is Some <==> ini_sections_of(text@) is Some,
        r is Some ==> sections_view(r->0@) == ini_sections_of(text@)->0,
{
    match ini::Ini::load_from_str(text) {
        Ok(conf) => Some(
            conf.iter().map(|(name, props)| IniSection {
                name: name.map(|n| n.to_string()),
                entries: props.iter().map(|(k, v)| (k.to_string(), v.to_string())).collect(),
            }).collect(),
        ),
        Err(_) => None,
    }
}

/// A provisioning action, over plain character sequences.
pub enum ActionModel {
    CopyDirectory { source: Seq<char>, destination: Seq<char> },
    CopyFile { source: Seq<char>, destination: Seq<char> },
    CreateDirectory { path: Seq<char> },
    RunProgram { program: Seq<char>, arguments: Seq<char>, hide: bool },
    CreateShortcut {
        name: Seq<char>,
        target: Seq<char>,
        arguments: Seq<char>,
        icon: Seq<char>,
        description: Seq<char>,
    },
    SetWallpaper { path: Seq<char> },
}

/// A provisioning action that a descriptor section asks for.
#[derive(Clone, Debug, PartialEq, Eq)]
pub enum Action {
    /// Copy a directory recursively, overwriting existing files.
    CopyDirectory { source: String, destination: String },
    /// Copy a file, creating the destination's parent directories first.
    CopyFile { source: String, destination: String },
    /// Create a directory and its missing ancestors.
    CreateDirectory { path: String },
    /// Start a program without waiting for it.
    RunProgram { program: String, arguments: String, hide: bool },
    /// Create a desktop shortcut; an empty icon means the target's own.
    CreateShortcut {
        name: String,
        target: String,
        arguments: String,
        icon: String,
        description: String,
    },
    /// Set the desktop wallpaper.
    SetWallpaper { path: String },
}

impl View for Action {
    type V = ActionModel;

    open spec fn view(&self) -> ActionModel {
        match self {
            Action::CopyDirectory { source, destination } => ActionModel::CopyDirectory {
                source: source@,
                destination: destination@,
            },
            Action::CopyFile { source, destination } => ActionModel::CopyFile {
                source: source@,
                destination: destination@,
            },
            Action::CreateDirectory { path } => ActionModel::CreateDirectory { path: path@ },
            Action::RunProgram { program, arguments, hide } => ActionModel::RunProgram {
                program: program@,
                arguments: arguments@,
                hide: *hide,
            },
            Action::CreateShortcut { name, target, arguments, icon, description } =>
                ActionModel::CreateShortcut {
                name: name@,
                target: target@,
                arguments: arguments@,
                icon: icon@,
                description: description@,
            },
            Action::SetWallpaper { path } => ActionModel::SetWallpaper { path: path@ },
        }
    }
}

pub open spec fn actions_view(v: Seq<Action>) -> Seq<ActionModel> {
    v.map_values(|a: Action| a@)
}

pub open spec fn opt_view(o: Option<String>) -> Option<Seq<char>> {
    match o {
        Some(s) => Some(s@),
        None => None,
    }
}

/// The last value given to `key`: a later pair overrides an earlier one.
pub open spec fn lookup(e: EntriesModel, key: Seq<char>) -> Option<Seq<char>>
    decreases e.len(),
{
    if e.len() == 0 {
        None
    } else if e.last().0 == key {
        Some(e.last().1)
    } else {
        lookup(e.drop_last(), key)
    }
}

/// The first value given to `key`.
pub open spec fn first_value(e: EntriesModel, key: Seq<char>) -> Option<Seq<char>>
    decreases e.len(),
{
    if e.len() == 0 {
        None
    } else if e[0].0 == key {
        Some(e[0].1)
    } else {
        first_value(e.skip(1), key)
    }
}

/// The value of `key`, or the empty text where it is absent.
pub open spec fn lookup_or_empty(e: EntriesModel, key: Seq<char>) -> Seq<char> {
    match lookup(e, key) {
        Some(v) => v,
        None => Seq::empty(),
    }
}

/// The last value given to `key` among `entries`.
pub fn lookup_value(entries: &Vec<(String, String)>, key: &str) -> (r: Option<String>)
    ensures
        opt_view(r) == lookup(entries_view(entries@), key@),
{
    let k = key.to_owned();
    let ghost ev = entries_view(entries@);
    let mut i: usize = entries.len();
    assert(ev.take(i as int) =~= ev);
    while i > 0
        invariant
            i <= entries@.len(),
            ev == entries_view(entries@),
            k@ == key@,
            lookup(ev, key@) == lookup(ev.take(i as int), key@),
        decreases i,
    {
        assert(ev.take(i as int).drop_last() =~= ev.take(i - 1));
        if entries[i - 1].0 == k {
            return Some(entries[i - 1].1.clone());
        }
        i = i - 1;
    }
    None
}

/// The first value given to `key` among `entries`.
pub fn first_value_of(entries: &Vec<(String, String)>, key: &str) -> (r: Option<String>)
    ensures
        opt_view(r) == first_value(entries_view(entries@), key@),
{
    let k = key.to_owned();
    let ghost ev = entries_view(entries@);
    let mut i: usize = 0;
    assert(ev.skip(0) =~= ev);
    while i < entries.len()
        invariant
            i <= entries@.len(),
            ev == entries_view(entries@),
            k@ == key@,
            first_value(ev, key@) == first_value(ev.skip(i as int), key@),
        decreases entries@.len() - i,
    {
        assert(ev.skip(i as int).skip(1) =~= ev.skip(i + 1));
        if entries[i].0 == k {
            return Some(entries[i].1.clone());
        }
        i = i + 1;
    }
    None
}


/// The action a section asks for. The first of the six section-name
/// prefixes that matches decides the kind; a section whose required keys are
/// missing, or whose name matches no prefix, asks for nothing.
pub open spec fn action_of(name: Seq<char>, e: EntriesModel) -> Option<ActionModel> {
    if has_prefix(name, "复制目录"@) {
        match (lookup(e, "源目录名称"@), lookup(e, "复制到目录名称"@)) {
            (Some(s), Some(d)) => Some(ActionModel::CopyDirectory { source: s, destination: d }),
            _ => None,
        }
    } else if has_prefix(name, "复制文件"@) {
        match (lookup(e, "源文件名称"@), lookup(e, "复制到文件名称"@)) {
            (Some(s), Some(d)) => Some(ActionModel::CopyFile { source: s, destination: d }),
            _ => None,
        }
    } else if has_prefix(name, "创建目录"@) {
        match lookup(e, "目录名称"@) {
            Some(d) => Some(ActionModel::CreateDirectory { path: d }),
            None => None,
        }
    } else if has_prefix(name, "运行程序"@) {
        match lookup(e, "程序名称"@) {
            Some(p) => Some(
                ActionModel::RunProgram {
                    program: p,
                    arguments: lookup_or_empty(e, "启动参数"@),
                    hide: lookup(e, "是否隐藏"@) != Some("0"@),
                },
            ),
            None => None,
        }
    } else if has_prefix(name, "快捷方式"@) {
        match (lookup(e, "快捷方式名称"@), lookup(e, "目标"@)) {
            (Some(n), Some(t)) => Some(
                ActionModel::CreateShortcut {
                    name: n,
                    target: normalize(t),
                    arguments: lookup_or_empty(e, "参数文本"@),
                    icon: normalize(lookup_or_empty(e, "图标文件"@)),
                    description: lookup_or_empty(e, "备注"@),
                },
            ),
            _ => None,
        }
    } else if has_prefix(name, "设置壁纸"@) {
        match lookup(e, "壁纸文件名称"@) {
            Some(w) => Some(ActionModel::SetWallpaper { path: normalize(w) }),
            None => None,
        }
    } else {
        None
    }
}

/// The actions of the named sections, in document order.
pub open spec fn actions_of(secs: Seq<SectionModel>) -> Seq<ActionModel>
    decreases secs.len(),
{
    if secs.len() == 0 {
        Seq::empty()
    } else {
        let prev = actions_of(secs.drop_last());
        match secs.last().0 {
            Some(name) => match action_of(name, secs.last().1) {
                Some(a) => prev.push(a),
                None => prev,
            },
            None => prev,
        }
    }
}

/// `s` without a leading byte-order mark, which a document loaded from a
/// file does not carry into parsing.
pub open spec fn strip_bom(s: Seq<char>) -> Seq<char> {
    if s.len() > 0 && s[0] == '\u{feff}' {
        s.skip(1)
    } else {
        s
    }
}

/// `s` without a leading byte-order mark.
pub fn without_bom(s: &Vec<char>) -> (r: Vec<char>)
    ensures
        r@ == strip_bom(s@),
{
    let mut r: Vec<char> = Vec::new();
    let start: usize = if s.len() > 0 && s[0] == '\u{feff}' { 1 } else { 0 };
    let mut i: usize = start;
    while i < s.len()
        invariant
            start <= i <= s@.len(),
            r@ == s@.subrange(start as int, i as int),
        decreases s@.len() - i,
    {
        r.push(s[i]);
        i = i + 1;
        assert(r@ =~= s@.subrange(start as int, i as int));
    }
    assert(s@.subrange(start as int, i as int) =~= strip_bom(s@));
    r
}

/// What interpreting a descriptor asks for: the directory macro is
/// substituted, separators are escaped, the text is parsed, and each section
/// is dispatched. Text that does not parse asks for nothing.
pub open spec fn descriptor_actions(text: Seq<char>, plugin_dir: Seq<char>) -> Seq<ActionModel> {
    match ini_sections_of(strip_bom(escape(substitute_macro(text, plugin_dir)))) {
        Some(secs) => actions_of(secs),
        None => Seq::empty(),
    }
}

pub open spec fn opt_action_view(o: Option<Action>) -> Option<ActionModel> {
    match o {
        Some(a) => Some(a@),
        None => None,
    }
}

fn value_or_empty(o: Option<String>) -> (r: String)
    ensures
        r@ == match opt_view(o) {
            Some(v) => v,
            None => Seq::empty(),
        },
{
    match o {
        Some(v) => v,
        None => String::new(),
    }
}

fn prefixed(name: &Vec<char>, prefix: &str) -> (b: bool)
    ensures
        b == has_prefix(name@, prefix@),
{
    let p = chars_of(prefix);
    starts_with_chars(name, &p)
}

/// The action that one section asks for, if any.
pub fn action_for_section(name: &String, entries: &Vec<(String, String)>) -> (r: Option<Action>)
    ensures
        opt_action_view(r) == action_of(name@, entries_view(entries@)),
{
    let n = chars_of(name.as_str());
    if prefixed(&n, "复制目录") {
        match (lookup_value(entries, "源目录名称"), lookup_value(entries, "复制到目录名称")) {
            (Some(s), Some(d)) => Some(Action::CopyDirectory { source: s, destination: d }),
            _ => None,
        }
    } else if prefixed(&n, "复制文件") {
        match (lookup_value(entries, "源文件名称"), lookup_value(entries, "复制到文件名称")) {
            (Some(s), Some(d)) => Some(Action::CopyFile { source: s, destination: d }),
            _ => None,
        }
    } else if prefixed(&n, "创建目录") {
        match lookup_value(entries, "目录名称") {
            Some(d) => Some(Action::CreateDirectory { path: d }),
            None => None,
        }
    } else if prefixed(&n, "运行程序") {
        match lookup_value(entries, "程序名称") {
            Some(p) => {
                let arguments = value_or_empty(lookup_value(entries, "启动参数"));
                let zero = "0".to_owned();
                let hide = match lookup_value(entries, "是否隐藏") {
                    Some(v) => !(v == zero),
                    None => true,
                };
                Some(Action::RunProgram { program: p, arguments, hide })
            },
            None => None,
        }
    } else if prefixed(&n, "快捷方式") {
        match (lookup_value(entries, "快捷方式名称"), lookup_value(entries, "目标")) {
            (Some(shortcut), Some(t)) => {
                let target = normalize_path(t.as_str());
                let arguments = value_or_empty(lookup_value(entries, "参数文本"));
                let icon_raw = value_or_empty(lookup_value(entries, "图标文件"));
                let icon = normalize_path(icon_raw.as_str());
                let description = value_or_empty(lookup_value(entries, "备注"));
                Some(Action::CreateShortcut { name: shortcut, target, arguments, icon, description })
            },
            _ => None,
        }
    } else if prefixed(&n, "设置壁纸") {
        match lookup_value(entries, "壁纸文件名称") {
            Some(w) => Some(Action::SetWallpaper { path: normalize_path(w.as_str()) }),
            None => None,
        }
    } else {
        None
    }
}

/// The actions that parsed sections ask for, in document order.
pub fn plan_actions(sections: &Vec<IniSection>) -> (r: Vec<Action>)
    ensures
        actions_view(r@) == actions_of(sections_view(sections@)),
{
    let ghost sv = sections_view(sections@);
    let mut r: Vec<Action> = Vec::new();
    let mut i: usize = 0;
    assert(actions_view(r@) =~= actions_of(sv.take(0)));
    while i < sections.len()
        invariant
            i <= sections@.len(),
            sv == sections_view(sections@),
            actions_view(r@) == actions_of(sv.take(i as int)),
        decreases sections@.len() - i,
    {
        assert(sv.take(i + 1).drop_last() =~= sv.take(i as int));
        let sec = &sections[i];
        match &sec.name {
            Some(name) => match action_for_section(name, &sec.entries) {
                Some(a) => {
                    r.push(a);
                    assert(actions_view(r@) =~= actions_of(sv.take(i + 1)));
                },
                None => {},
            },
            None => {},
        }
        i = i + 1;
    }
    assert(sv.take(i as int) =~= sv);
    r
}

/// Interprets a descriptor for a plugin extracted into `plugin_dir`: the
/// actions it asks for, in document order.
pub fn plan_descriptor(text: &str, plugin_dir: &str) -> (r: Vec<Action>)
    ensures
        actions_view(r@) == descriptor_actions(text@, plugin_dir@),
{
    let t = chars_of(text);
    let d = chars_of(plugin_dir);
    let substituted = substitute_dir_macro(&t, &d);
    let escaped = escape_separators(&substituted);
    let source = string_of(&without_bom(&escaped));
    match parse_ini(source.as_str()) {
        Some(sections) => plan_actions(&sections),
        None => Vec::new(),
    }
}


/// The pairs of the first section with the given name.
pub open spec fn first_section(secs: Seq<SectionModel>, name: Seq<char>) -> Option<EntriesModel>
    decreases secs.len(),
{
    if secs.len() == 0 {
        None
    } else if secs[0].0 == Some(name) {
        Some(secs[0].1)
    } else {
        first_section(secs.skip(1), name)
    }
}

/// The name a module's configuration declares: the first `mod_name` of the
/// first `HPM_config` section, else `unknown`.
pub open spec fn module_name_in(secs: Seq<SectionModel>) -> Seq<char> {
    match first_section(secs, "HPM_config"@) {
        Some(e) => match first_value(e, "mod_name"@) {
            Some(v) => v,
            None => "unknown"@,
        },
        None => "unknown"@,
    }
}

/// The declared module name of a configuration text; `unknown` where the
/// text does not parse.
pub open spec fn module_name_of(text: Seq<char>) -> Seq<char> {
    match ini_sections_of(strip_bom(text)) {
        Some(secs) => module_name_in(secs),
        None => "unknown"@,
    }
}

/// The declared module name among parsed sections.
pub fn module_name_from_sections(sections: &Vec<IniSection>) -> (r: String)
    ensures
        r@ == module_name_in(sections_view(sections@)),
{
    let ghost sv = sections_view(sections@);
    let wanted = "HPM_config".to_owned();
    let mut i: usize = 0;
    assert(sv.skip(0) =~= sv);
    while i < sections.len()
        invariant
            i <= sections@.len(),
            sv == sections_view(sections@),
            wanted@ == "HPM_config"@,
            first_section(sv, "HPM_config"@) == first_section(sv.skip(i as int), "HPM_config"@),
        decreases sections@.len() - i,
    {
        assert(sv.skip(i as int).skip(1) =~= sv.skip(i + 1));
        let sec = &sections[i];
        let found = match &sec.name {
            Some(n) => *n == wanted,
            None => false,
        };
        if found {
            return match first_value_of(&sec.entries, "mod_name") {
                Some(v) => v,
                None => "unknown".to_owned(),
            };
        }
        i = i + 1;
    }
    "unknown".to_owned()
}

/// The declared module name of a module's configuration text.
pub fn module_name_from_config(text: &str) -> (r: String)
    ensures
        r@ == module_name_of(text@),
{
    let t = chars_of(text);
    let source = string_of(&without_bom(&t));
    match parse_ini(source.as_str()) {
        Some(sections) => module_name_from_sections(&sections),
        None => "unknown".to_owned(),
    }
}


/// The shortcut a section with these pairs asks for, once dispatched.
pub open spec fn shortcut_of(e: EntriesModel) -> ActionModel {
    ActionModel::CreateShortcut {
        name: lookup(e, "快捷方式名称"@)->0,
        target: normalize(lookup(e, "目标"@)->0),
        arguments: lookup_or_empty(e, "参数文本"@),
        icon: normalize(lookup_or_empty(e, "图标文件"@)),
        description: lookup_or_empty(e, "备注"@),
    }
}

/// A section named `快捷方式` and one named `快捷方式-1` both ask for a
/// shortcut, each from its own pairs: two independent actions, in order.
pub proof fn lemma_shortcut_sections_independent(e1: EntriesModel, e2: EntriesModel)
    requires
        lookup(e1, "快捷方式名称"@) is Some,
        lookup(e1, "目标"@) is Some,
        lookup(e2, "快捷方式名称"@) is Some,
        lookup(e2, "目标"@) is Some,
    ensures
        actions_of(seq![(Some("快捷方式"@), e1), (Some("快捷方式-1"@), e2)]) == seq![
            shortcut_of(e1),
            shortcut_of(e2),
        ],
{
    reveal_strlit("快捷方式");
    reveal_strlit("快捷方式-1");
    reveal_strlit("复制目录");
    reveal_strlit("复制文件");
    reveal_strlit("创建目录");
    reveal_strlit("运行程序");
    let secs: Seq<SectionModel> = seq![(Some("快捷方式"@), e1), (Some("快捷方式-1"@), e2)];
    assert(!has_prefix("快捷方式"@, "复制目录"@)) by {
        assert("快捷方式"@[0] != "复制目录"@[0]);
    }
    assert(!has_prefix("快捷方式"@, "复制文件"@)) by {
        assert("快捷方式"@[0] != "复制文件"@[0]);
    }
    assert(!has_prefix("快捷方式"@, "创建目录"@)) by {
        assert("快捷方式"@[0] != "创建目录"@[0]);
    }
    assert(!has_prefix("快捷方式"@, "运行程序"@)) by {
        assert("快捷方式"@[0] != "运行程序"@[0]);
    }
    assert(has_prefix("快捷方式"@, "快捷方式"@)) by {
        assert("快捷方式"@.subrange(0, 4) =~= "快捷方式"@);
    }
    assert(!has_prefix("快捷方式-1"@, "复制目录"@)) by {
        assert("快捷方式-1"@.subrange(0, 4)[0] != "复制目录"@[0]);
    }
    assert(!has_prefix("快捷方式-1"@, "复制文件"@)) by {
        assert("快捷方式-1"@.subrange(0, 4)[0] != "复制文件"@[0]);
    }
    assert(!has_prefix("快捷方式-1"@, "创建目录"@)) by {
        assert("快捷方式-1"@.subrange(0, 4)[0] != "创建目录"@[0]);
    }
    assert(!has_prefix("快捷方式-1"@, "运行程序"@)) by {
        assert("快捷方式-1"@.subrange(0, 4)[0] != "运行程序"@[0]);
    }
    assert(has_prefix("快捷方式-1"@, "快捷方式"@)) by {
        assert("快捷方式-1"@.subrange(0, 4) =~= "快捷方式"@);
    }
    assert(action_of("快捷方式"@, e1) == Some(shortcut_of(e1)));
    assert(action_of("快捷方式-1"@, e2) == Some(shortcut_of(e2)));
    let one = secs.drop_last();
    assert(one =~= seq![(Some("快捷方式"@), e1)]);
    assert(one.drop_last() =~= Seq::<SectionModel>::empty());
    assert(actions_of(one.drop_last()) == Seq::<ActionModel>::empty());
    assert(one.last() == (Some("快捷方式"@), e1));
    assert(actions_of(one) =~= seq![shortcut_of(e1)]);
    assert(secs.last() == (Some("快捷方式-1"@), e2));
    assert(actions_of(secs) =~= seq![shortcut_of(e1), shortcut_of(e2)]);
}

/// A program section asks for a visible window exactly when its hide flag
/// is the text `0`; any other value, or none, asks for a hidden one.
pub proof fn lemma_run_program_visibility(name: Seq<char>, e: EntriesModel)
    requires
        has_prefix(name, "运行程序"@),
        lookup(e, "程序名称"@) is Some,
    ensures
        action_of(name, e) == Some(
            ActionModel::RunProgram {
                program: lookup(e, "程序名称"@)->0,
                arguments: lookup_or_empty(e, "启动参数"@),
                hide: lookup(e, "是否隐藏"@) != Some("0"@),
            },
        ),
{
    reveal_strlit("复制目录");
    reveal_strlit("复制文件");
    reveal_strlit("创建目录");
    reveal_strlit("运行程序");
    assert(name.subrange(0, 4)[0] == "运行程序"@[0]);
    assert(!has_prefix(name, "复制目录"@)) by {
        assert(name.subrange(0, 4)[0] == name[0]);
    }
    assert(!has_prefix(name, "复制文件"@)) by {
        assert(name.subrange(0, 4)[0] == name[0]);
    }
    assert(!has_prefix(name, "创建目录"@)) by {
        assert(name.subrange(0, 4)[0] == name[0]);
    }
}

} // verus!
