use pe_plugin_loader::content::{belongs_to, plan_content, ContentTask, FileCategory};

fn names(xs: &[&str]) -> Vec<String> {
    xs.iter().map(|x| x.to_string()).collect()
}

fn task(category: FileCategory, entry: usize) -> ContentTask {
    ContentTask { category, entry }
}

#[test]
fn content_is_routed_in_fixed_order() {
    let n = names(&["abc", "z.wcs", "a.reg", "run.exe", "PeCmd.exe", "b.bat", "c.cmd", "d.ini", "e.WCS", "f.txt", ".ini"]);
    assert_eq!(
        plan_content(&n),
        vec![
            task(FileCategory::Registry, 2),
            task(FileCategory::Executable, 3),
            task(FileCategory::Batch, 5),
            task(FileCategory::Command, 6),
            task(FileCategory::Script, 7),
            task(FileCategory::ScriptVariant, 1),
            task(FileCategory::ScriptVariant, 8),
        ]
    );
}

#[test]
fn script_runner_formats_come_after_batch_and_command_scripts() {
    let n = names(&["u.wcs", "v.ini", "w.cmd", "z.bat"]);
    assert_eq!(
        plan_content(&n),
        vec![
            task(FileCategory::Batch, 3),
            task(FileCategory::Command, 2),
            task(FileCategory::Script, 1),
            task(FileCategory::ScriptVariant, 0),
        ]
    );
}

#[test]
fn extension_match_is_case_sensitive_except_for_wcs() {
    assert!(!belongs_to(&"A.REG".to_string(), FileCategory::Registry));
    assert!(!belongs_to(&"A.BAT".to_string(), FileCategory::Batch));
    assert!(belongs_to(&"A.Wcs".to_string(), FileCategory::ScriptVariant));
    assert!(!belongs_to(&"reg".to_string(), FileCategory::Registry));
    assert!(!belongs_to(&".reg".to_string(), FileCategory::Registry));
    assert!(belongs_to(&"x.y.reg".to_string(), FileCategory::Registry));
}

#[test]
fn bundled_runner_is_not_started() {
    assert!(!belongs_to(&"PECMD.EXE".to_string(), FileCategory::Executable));
    assert!(!belongs_to(&"pecmd.exe".to_string(), FileCategory::Executable));
    assert!(belongs_to(&"pecmd2.exe".to_string(), FileCategory::Executable));
}

#[test]
fn empty_listing_plans_nothing() {
    assert_eq!(plan_content(&vec![]), vec![]);
}
