use pe_plugin_loader::activation::PluginKind;
use pe_plugin_loader::layout::{
    ce_working_dir, drives_from_mask, is_process_listed, first_found, hpm_module_dir, is_plugin_archive, join_path,
    script_runner_command, source_dir,
};

#[test]
fn drive_mask_lists_volumes_in_letter_order() {
    assert_eq!(drives_from_mask(0b101), vec!["A:".to_string(), "C:".to_string()]);
    assert_eq!(drives_from_mask(0), Vec::<String>::new());
    assert_eq!(drives_from_mask(1 << 25 | 1 << 23).len(), 2);
    assert_eq!(drives_from_mask(1 << 25)[0], "Z:");
    assert_eq!(drives_from_mask(u32::MAX).len(), 26);
}

#[test]
fn discovery_takes_first_volume_found() {
    assert_eq!(first_found(&vec![false, true, true]), Some(1));
    assert_eq!(first_found(&vec![false, false]), None);
    assert_eq!(first_found(&vec![]), None);
}

#[test]
fn source_directories_per_kind() {
    assert_eq!(source_dir(PluginKind::Ce, "D:"), "D:\\ce-apps");
    assert_eq!(source_dir(PluginKind::Edgeless, "E:"), "E:\\Edgeless\\Resource");
    assert_eq!(source_dir(PluginKind::Hpm, "F:"), "F:\\HotPEModule");
}

#[test]
fn archives_are_recognised_by_kind() {
    assert!(is_plugin_archive(PluginKind::Ce, &"a.ce".to_string()));
    assert!(!is_plugin_archive(PluginKind::Ce, &"a.CE".to_string()));
    assert!(is_plugin_archive(PluginKind::Edgeless, &"a.7z".to_string()));
    assert!(!is_plugin_archive(PluginKind::Edgeless, &"a.ce".to_string()));
    assert!(is_plugin_archive(PluginKind::Hpm, &"a.HPM".to_string()));
    assert!(!is_plugin_archive(PluginKind::Hpm, &"hpm".to_string()));
}

#[test]
fn working_and_module_directories() {
    assert_eq!(ce_working_dir("abc"), "X:\\Program Files\\CE-RAMOS\\abc");
    assert_eq!(hpm_module_dir("Tools", "x1Y2z"), "X:\\Program Files\\HotPEModules\\Tools_x1Y2z");
    assert_eq!(join_path("D:\\m", "HPM.WCE"), "D:\\m\\HPM.WCE");
}

#[test]
fn runner_loads_into_a_running_instance() {
    assert_eq!(script_runner_command(true, "D:\\a.ini"), "PECMD.EXE LOAD \"D:\\a.ini\"");
    assert_eq!(script_runner_command(false, "D:\\a.ini"), "PECMD.EXE MAIN \"D:\\a.ini\"");
}

#[test]
fn running_runner_is_found_in_any_letter_case() {
    let running = vec!["System".to_string(), "PeCmd.exe".to_string()];
    assert!(is_process_listed(&running, "PECMD.EXE"));
    assert!(!is_process_listed(&running, "explorer.exe"));
    assert!(!is_process_listed(&vec![], "PECMD.EXE"));
}
