use pe_plugin_loader::activation::{activate_all, run_driver, run_drivers, FlagKey, FlagStore, PluginKind};

#[test]
fn activating_everything_twice_works_once() {
    let mut flags = FlagStore::new();
    let first = activate_all(&mut flags);
    assert_eq!(first, vec![PluginKind::Ce, PluginKind::Edgeless, PluginKind::Hpm]);
    let after_first = flags;
    let second = activate_all(&mut flags);
    assert_eq!(second, vec![]);
    assert_eq!(flags, after_first);
    assert_eq!(flags.get(FlagKey::LoadPlugins), Some(1));
}

#[test]
fn clearing_edgeless_flag_repeats_only_edgeless() {
    let mut flags = FlagStore::new();
    assert_eq!(run_drivers(&mut flags).len(), 3);
    flags.edgeless_load = None;
    assert_eq!(run_drivers(&mut flags), vec![PluginKind::Edgeless]);
    assert_eq!(flags.get(FlagKey::EdgelessLoad), Some(1));
}

#[test]
fn run_once_flag_blocks_even_with_kind_flags_cleared() {
    let mut flags = FlagStore::new();
    flags.set(FlagKey::LoadPlugins, 1);
    assert_eq!(activate_all(&mut flags), vec![]);
    assert_eq!(flags.ce_load, None);
}

#[test]
fn run_once_flag_cleared_and_edgeless_cleared_repeats_edgeless() {
    let mut flags = FlagStore::new();
    activate_all(&mut flags);
    flags.load_plugins = Some(0);
    flags.edgeless_load = Some(0);
    assert_eq!(activate_all(&mut flags), vec![PluginKind::Edgeless]);
}

#[test]
fn a_flag_counts_only_when_it_holds_one() {
    let mut flags = FlagStore::new();
    flags.set(FlagKey::CeLoad, 2);
    assert!(run_driver(&mut flags, PluginKind::Ce));
    assert_eq!(flags.ce_load, Some(1));
    assert!(!run_driver(&mut flags, PluginKind::Ce));
}

#[test]
fn flag_names_match_the_persisted_store() {
    assert_eq!(FlagKey::LoadPlugins.name(), "LoadPlugins");
    assert_eq!(FlagKey::CeLoad.name(), "CELoad");
    assert_eq!(FlagKey::EdgelessLoad.name(), "EdgelessLoad");
    assert_eq!(FlagKey::HpmLoad.name(), "HPMLoad");
    assert_eq!(FlagKey::for_kind(PluginKind::Hpm), FlagKey::HpmLoad);
}
