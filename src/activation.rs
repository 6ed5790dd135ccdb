//! Plugin kinds, the persisted activation flags, and the run-once decisions
//! that the drivers and the top-level orchestrator make over them.
use vstd::prelude::*;
use crate::text::{chars_of, string_of};

verus! {

/// The three packaging and discovery conventions for plugins.
#[derive(Clone, Copy, Debug, PartialEq, Eq, Structural)]
pub enum PluginKind {
    Ce,
    Edgeless,
    Hpm,
}


/// The persisted flags: the top-level run-once flag and one flag per plugin kind.
/// A flag counts as set when it holds 1.
#[derive(Clone, Copy, Debug, PartialEq, Eq, Structural)]
pub struct FlagStore {
    /// "Activate everything" has run.
    pub load_plugins: Option<u32>,
    pub ce_load: Option<u32>,
    pub edgeless_load: Option<u32>,
    pub hpm_load: Option<u32>,
}

/// The names of the persisted flags.
#[derive(Clone, Copy, Debug, PartialEq, Eq, Structural)]
pub enum FlagKey {
    LoadPlugins,
    CeLoad,
    EdgelessLoad,
    HpmLoad,
}

/// The flag that records one kind's activation.
pub open spec fn kind_key(kind: PluginKind) -> FlagKey {
    match kind {
        PluginKind::Ce => FlagKey::CeLoad,
        PluginKind::Edgeless => FlagKey::EdgelessLoad,
        PluginKind::Hpm => FlagKey::HpmLoad,
    }
}

impl FlagKey {
    /// The flag that records one kind's activation.
    pub fn for_kind(kind: PluginKind) -> (r: FlagKey)
        ensures
            r == kind_key(kind),
    {
        match kind {
            PluginKind::Ce => FlagKey::CeLoad,
            PluginKind::Edgeless => FlagKey::EdgelessLoad,
            PluginKind::Hpm => FlagKey::HpmLoad,
        }
    }

    /// The name under which the flag is persisted.
    pub fn name(self) -> (r: String)
        ensures
            r@ == flag_name(self),
    {
        match self {
            FlagKey::LoadPlugins => "LoadPlugins".to_owned(),
            FlagKey::CeLoad => "CELoad".to_owned(),
            FlagKey::EdgelessLoad => "EdgelessLoad".to_owned(),
            FlagKey::HpmLoad => "HPMLoad".to_owned(),
        }
    }
}

pub open spec fn flag_name(key: FlagKey) -> Seq<char> {
    match key {
        FlagKey::LoadPlugins => "LoadPlugins"@,
        FlagKey::CeLoad => "CELoad"@,
        FlagKey::EdgelessLoad => "EdgelessLoad"@,
        FlagKey::HpmLoad => "HPMLoad"@,
    }
}

pub open spec fn is_set(v: Option<u32>) -> bool {
    v == Some(1u32)
}

impl FlagStore {
    pub open spec fn flag(self, key: FlagKey) -> Option<u32> {
        match key {
            FlagKey::LoadPlugins => self.load_plugins,
            FlagKey::CeLoad => self.ce_load,
            FlagKey::EdgelessLoad => self.edgeless_load,
            FlagKey::HpmLoad => self.hpm_load,
        }
    }

    pub open spec fn with_flag(self, key: FlagKey, v: Option<u32>) -> FlagStore {
        match key {
            FlagKey::LoadPlugins => FlagStore { load_plugins: v, ..self },
            FlagKey::CeLoad => FlagStore { ce_load: v, ..self },
            FlagKey::EdgelessLoad => FlagStore { edgeless_load: v, ..self },
            FlagKey::HpmLoad => FlagStore { hpm_load: v, ..self },
        }
    }

    /// A store in which no flag has been written.
    pub fn new() -> (r: FlagStore)
        ensures
            r.load_plugins is None,
            r.ce_load is None,
            r.edgeless_load is None,
            r.hpm_load is None,
    {
        FlagStore { load_plugins: None, ce_load: None, edgeless_load: None, hpm_load: None }
    }

    /// The value stored under `key`, if any.
    pub fn get(&self, key: FlagKey) -> (r: Option<u32>)
        ensures
            r == self.flag(key),
    {
        match key {
            FlagKey::LoadPlugins => self.load_plugins,
            FlagKey::CeLoad => self.ce_load,
            FlagKey::EdgelessLoad => self.edgeless_load,
            FlagKey::HpmLoad => self.hpm_load,
        }
    }

    /// Stores `value` under `key`, leaving the other flags alone.
    pub fn set(&mut self, key: FlagKey, value: u32)
        ensures
            *final(self) == old(self).with_flag(key, Some(value)),
    {
        match key {
            FlagKey::LoadPlugins => self.load_plugins = Some(value),
            FlagKey::CeLoad => self.ce_load = Some(value),
            FlagKey::EdgelessLoad => self.edgeless_load = Some(value),
            FlagKey::HpmLoad => self.hpm_load = Some(value),
        }
    }
}

/// A kind's driver does its work unless the kind's flag is set.
pub open spec fn kind_pending(s: FlagStore, kind: PluginKind) -> bool {
    !is_set(s.flag(kind_key(kind)))
}

/// The kinds whose drivers do their work, in driver order.
pub open spec fn pending_kinds(s: FlagStore) -> Seq<PluginKind> {
    (if kind_pending(s, PluginKind::Ce) { seq![PluginKind::Ce] } else { seq![] })
        + (if kind_pending(s, PluginKind::Edgeless) { seq![PluginKind::Edgeless] } else { seq![] })
        + (if kind_pending(s, PluginKind::Hpm) { seq![PluginKind::Hpm] } else { seq![] })
}

/// The store after the three drivers have run: each kind's flag is set.
pub open spec fn after_drivers(s: FlagStore) -> FlagStore {
    FlagStore { ce_load: Some(1u32), edgeless_load: Some(1u32), hpm_load: Some(1u32), ..s }
}

/// The kinds that a full activation works on: none once the run-once flag is set.
pub open spec fn activation_kinds(s: FlagStore) -> Seq<PluginKind> {
    if is_set(s.load_plugins) {
        seq![]
    } else {
        pending_kinds(s)
    }
}

/// The store after a full activation.
pub open spec fn after_activation(s: FlagStore) -> FlagStore {
    if is_set(s.load_plugins) {
        s
    } else {
        FlagStore { load_plugins: Some(1u32), ..after_drivers(s) }
    }
}

/// One driver's run: whether the kind's activation work is to be done, and
/// the kind's flag set once the run ends, whether work was found or not.
pub fn run_driver(flags: &mut FlagStore, kind: PluginKind) -> (work: bool)
    ensures
        work == kind_pending(*old(flags), kind),
        *final(flags) == old(flags).with_flag(kind_key(kind), Some(1u32)),
{
    let key = FlagKey::for_kind(kind);
    let work = match flags.get(key) {
        Some(v) => v != 1,
        None => true,
    };
    flags.set(key, 1);
    work
}

/// The three drivers in order: the kinds whose activation work is to be
/// done, with every kind's flag set afterwards.
pub fn run_drivers(flags: &mut FlagStore) -> (kinds: Vec<PluginKind>)
    ensures
        kinds@ == pending_kinds(*old(flags)),
        *final(flags) == after_drivers(*old(flags)),
{
    let mut kinds: Vec<PluginKind> = Vec::new();
    if run_driver(flags, PluginKind::Ce) {
        kinds.push(PluginKind::Ce);
    }
    if run_driver(flags, PluginKind::Edgeless) {
        kinds.push(PluginKind::Edgeless);
    }
    if run_driver(flags, PluginKind::Hpm) {
        kinds.push(PluginKind::Hpm);
    }
    assert(kinds@ =~= pending_kinds(*old(flags)));
    kinds
}

/// A full activation: nothing once the run-once flag is set; otherwise the three
/// drivers run and the run-once flag is written.
pub fn activate_all(flags: &mut FlagStore) -> (kinds: Vec<PluginKind>)
    ensures
        kinds@ == activation_kinds(*old(flags)),
        *final(flags) == after_activation(*old(flags)),
{
    if flags.get(FlagKey::LoadPlugins) == Some(1u32) {
        return Vec::new();
    }
    let kinds = run_drivers(flags);
    flags.set(FlagKey::LoadPlugins, 1);
    kinds
}

/// Two full activations with the flags kept in between: the second
/// run does no work and writes no flag, and a run on a store where nothing is
/// set works on all three kinds.
pub proof fn lemma_activation_idempotent(s: FlagStore)
    ensures
        activation_kinds(after_activation(s)) == Seq::<PluginKind>::empty(),
        after_activation(after_activation(s)) == after_activation(s),
        !is_set(s.load_plugins) && !is_set(s.ce_load) && !is_set(s.edgeless_load)
            && !is_set(s.hpm_load) ==> activation_kinds(s) == seq![
            PluginKind::Ce,
            PluginKind::Edgeless,
            PluginKind::Hpm,
        ],
{
    assert(activation_kinds(after_activation(s)) =~= Seq::<PluginKind>::empty());
    if !is_set(s.load_plugins) && !is_set(s.ce_load) && !is_set(s.edgeless_load)
        && !is_set(s.hpm_load) {
        assert(activation_kinds(s) =~= seq![PluginKind::Ce, PluginKind::Edgeless, PluginKind::Hpm]);
    }
}

/// Clearing only the Edgeless flag after the drivers have run makes the next
/// run of the drivers work on Edgeless alone. The same holds of a full
/// activation after one that did its work, where the run-once flag is cleared too.
pub proof fn lemma_kind_flags_independent(s: FlagStore, cleared: Option<u32>, once: Option<u32>)
    requires
        !is_set(cleared),
        !is_set(once),
    ensures
        pending_kinds(after_drivers(s).with_flag(FlagKey::EdgelessLoad, cleared))
            == seq![PluginKind::Edgeless],
        !is_set(s.load_plugins) ==> activation_kinds(
            after_activation(s).with_flag(FlagKey::EdgelessLoad, cleared).with_flag(
                FlagKey::LoadPlugins,
                once,
            ),
        ) == seq![PluginKind::Edgeless],
{
    assert(pending_kinds(after_drivers(s).with_flag(FlagKey::EdgelessLoad, cleared))
        =~= seq![PluginKind::Edgeless]);
    if !is_set(s.load_plugins) {
        assert(activation_kinds(
        after_activation(s).with_flag(FlagKey::EdgelessLoad, cleared).with_flag(
            FlagKey::LoadPlugins,
            once,
        ),
    ) =~= seq![PluginKind::Edgeless]);
    }
}

} // verus!
