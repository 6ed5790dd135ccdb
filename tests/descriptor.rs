use pe_plugin_loader::descriptor::{
    action_for_section, module_name_from_config, module_name_from_sections, plan_actions, plan_descriptor,
    Action, IniSection,
};

fn s(x: &str) -> String {
    x.to_string()
}

#[test]
fn copy_and_create_sections_use_values_verbatim() {
    let text = "[复制文件]\n源文件名称=A\\f.txt\n复制到文件名称=B\\f.txt\n[创建目录]\n目录名称=C\\new\n";
    let actions = plan_descriptor(text, "X:\\Program Files\\CE-RAMOS\\abc");
    assert_eq!(
        actions,
        vec![
            Action::CopyFile { source: s("A\\f.txt"), destination: s("B\\f.txt") },
            Action::CreateDirectory { path: s("C\\new") },
        ]
    );
}

#[test]
fn leading_slashes_in_copy_fields_are_kept() {
    let text = "[复制文件]\n源文件名称=\\\\A\\f.txt\n复制到文件名称=//B\\f.txt\n[创建目录]\n目录名称=/\\C\\new\n";
    let actions = plan_descriptor(text, "D:\\p");
    assert_eq!(
        actions,
        vec![
            Action::CopyFile { source: s("\\\\A\\f.txt"), destination: s("//B\\f.txt") },
            Action::CreateDirectory { path: s("/\\C\\new") },
        ]
    );
}

#[test]
fn shortcut_sections_with_suffixes_are_independent() {
    let text = "[快捷方式]\n快捷方式名称=One\n目标=C:\\a.exe\n[快捷方式-1]\n快捷方式名称=Two\n目标=C:\\\\b//c.exe\n图标文件=C:/i.ico\n备注=note\n参数文本=-x\n";
    let actions = plan_descriptor(text, "D:\\p");
    assert_eq!(
        actions,
        vec![
            Action::CreateShortcut {
                name: s("One"),
                target: s("C:\\a.exe"),
                arguments: s(""),
                icon: s(""),
                description: s(""),
            },
            Action::CreateShortcut {
                name: s("Two"),
                target: s("C:\\b\\c.exe"),
                arguments: s("-x"),
                icon: s("C:\\i.ico"),
                description: s("note"),
            },
        ]
    );
}

#[test]
fn run_program_visibility_follows_hide_flag() {
    let text = "[运行程序]\n程序名称=a.exe\n是否隐藏=0\n[运行程序-1]\n程序名称=b.exe\n是否隐藏=1\n启动参数=/s /q\n[运行程序-2]\n程序名称=c.exe\n[运行程序-3]\n程序名称=d.exe\n是否隐藏=yes\n";
    let actions = plan_descriptor(text, "D:\\p");
    assert_eq!(
        actions,
        vec![
            Action::RunProgram { program: s("a.exe"), arguments: s(""), hide: false },
            Action::RunProgram { program: s("b.exe"), arguments: s("/s /q"), hide: true },
            Action::RunProgram { program: s("c.exe"), arguments: s(""), hide: true },
            Action::RunProgram { program: s("d.exe"), arguments: s(""), hide: true },
        ]
    );
}

#[test]
fn directory_macro_is_substituted_without_double_separator() {
    let text = "[运行程序]\n程序名称=%FN%\\setup.exe\n[设置壁纸]\n壁纸文件名称=%FN%wall.jpg\n";
    let actions = plan_descriptor(text, "X:\\Program Files\\CE-RAMOS\\abc");
    assert_eq!(
        actions,
        vec![
            Action::RunProgram {
                program: s("X:\\Program Files\\CE-RAMOS\\abc\\setup.exe"),
                arguments: s(""),
                hide: true,
            },
            Action::SetWallpaper { path: s("X:\\Program Files\\CE-RAMOS\\abc\\wall.jpg") },
        ]
    );
}

#[test]
fn directory_with_trailing_separator_is_used_as_is() {
    let text = "[创建目录]\n目录名称=%FN%\\data\n";
    let actions = plan_descriptor(text, "D:\\p\\");
    assert_eq!(actions, vec![Action::CreateDirectory { path: s("D:\\p\\data") }]);
}

#[test]
fn escaped_separators_survive_parsing() {
    let text = "[复制目录]\n源目录名称=C:\\Windows\\Temp\n复制到目录名称=D:\\n\\t\n";
    let actions = plan_descriptor(text, "D:\\p");
    assert_eq!(
        actions,
        vec![Action::CopyDirectory { source: s("C:\\Windows\\Temp"), destination: s("D:\\n\\t") }]
    );
}

#[test]
fn incomplete_and_unknown_sections_are_skipped() {
    let text = "top=1\n[复制文件]\n源文件名称=a\n[其他]\nk=v\n[快捷方式]\n快捷方式名称=x\n[设置壁纸]\n壁纸文件名称=C://w.png\n";
    let actions = plan_descriptor(text, "D:\\p");
    assert_eq!(actions, vec![Action::SetWallpaper { path: s("C:\\w.png") }]);
}

#[test]
fn later_value_of_a_key_wins() {
    let text = "[创建目录]\n目录名称=first\n目录名称=second\n";
    let actions = plan_descriptor(text, "D:\\p");
    assert_eq!(actions, vec![Action::CreateDirectory { path: s("second") }]);
}

#[test]
fn byte_order_mark_is_ignored() {
    let text = "\u{feff}[创建目录]\n目录名称=C:\\x\n";
    let actions = plan_descriptor(text, "D:\\p");
    assert_eq!(actions, vec![Action::CreateDirectory { path: s("C:\\x") }]);
}

#[test]
fn unparsable_descriptor_asks_for_nothing() {
    let text = "[创建目录\n目录名称=C:\\x\n";
    assert_eq!(plan_descriptor(text, "D:\\p"), vec![]);
}

#[test]
fn dispatch_takes_first_matching_prefix() {
    let entries = vec![(s("目录名称"), s("d")), (s("程序名称"), s("p"))];
    assert_eq!(action_for_section(&s("创建目录-9"), &entries), Some(Action::CreateDirectory { path: s("d") }));
    assert_eq!(action_for_section(&s("x创建目录"), &entries), None);
}

#[test]
fn planning_skips_the_unnamed_section() {
    let sections = vec![
        IniSection { name: None, entries: vec![(s("目录名称"), s("a"))] },
        IniSection { name: Some(s("创建目录")), entries: vec![(s("目录名称"), s("b"))] },
    ];
    assert_eq!(plan_actions(&sections), vec![Action::CreateDirectory { path: s("b") }]);
}

#[test]
fn module_name_is_read_from_config() {
    assert_eq!(module_name_from_config("[HPM_config]\nmod_name=Tools\n"), "Tools");
    assert_eq!(module_name_from_config("\u{feff}[HPM_config]\nmod_name=Tools\n"), "Tools");
    assert_eq!(module_name_from_config("[other]\nmod_name=Tools\n"), "unknown");
    assert_eq!(module_name_from_config("[HPM_config]\nname=Tools\n"), "unknown");
    assert_eq!(module_name_from_config("[HPM_config\n"), "unknown");
}

#[test]
fn module_name_uses_first_config_section_and_first_value() {
    let sections = vec![
        IniSection { name: Some(s("HPM_config")), entries: vec![(s("mod_name"), s("A")), (s("mod_name"), s("B"))] },
        IniSection { name: Some(s("HPM_config")), entries: vec![(s("mod_name"), s("C"))] },
    ];
    assert_eq!(module_name_from_sections(&sections), "A");
}

#[test]
fn directory_macro_leaves_one_separator_with_or_without_trailing_one() {
    let text = "[创建目录]\n目录名称=%FN%\\sub\n[创建目录-1]\n目录名称=%FN%sub2\n";
    for dir in ["X:\\p", "X:\\p\\"] {
        assert_eq!(
            plan_descriptor(text, dir),
            vec![
                Action::CreateDirectory { path: s("X:\\p\\sub") },
                Action::CreateDirectory { path: s("X:\\p\\sub2") },
            ]
        );
    }
}
