//! Binding-map builder: from the validated module's globals, entry points,
//! and per-entry-point usage, build for every entry point the mapping from
//! (group, binding) resource slots to target buffer slots. Only uniform- and
//! storage-space globals with an explicit binding that the entry point
//! actually uses are emitted; a binding index above the target's greatest
//! representable slot is a hard failure, never truncated.

use vstd::prelude::*;

use crate::TranslateError;

verus! {

/// Address-space classification of a module global, as far as the binding
/// policy distinguishes spaces. `Storage` carries whether the access flags
/// include store permission; `Other` covers spaces the policy never maps.
#[derive(Clone, Copy, Debug, PartialEq, Eq)]
pub enum AddressClass {
    Function,
    Private,
    WorkGroup,
    Uniform,
    Storage { store: bool },
    Handle,
    Other,
}

/// A (group, binding) pair identifying a resource slot in the source
/// binding model.
#[derive(Clone, Copy, Debug, PartialEq, Eq)]
pub struct ResourceBinding {
    pub group: u32,
    pub binding: u32,
}

/// The translation of a resource binding into the target's addressing
/// scheme: a buffer slot plus a mutability flag. Texture and sampler slots
/// are never populated by this policy.
#[derive(Clone, Copy, Debug, PartialEq, Eq)]
pub struct BindTarget {
    pub buffer_slot: u8,
    pub mutable: bool,
}

/// One emitted entry of a per-entry-point resource map.
#[derive(Clone, Copy, Debug, PartialEq, Eq)]
pub struct BindingEntry {
    pub key: ResourceBinding,
    pub target: BindTarget,
}

/// A module global as the binding policy reads it: its address space and
/// its optional explicit (group, binding) pair.
#[derive(Clone, Copy, Debug, PartialEq, Eq)]
pub struct GlobalDesc {
    pub space: AddressClass,
    pub binding: Option<ResourceBinding>,
}

/// What the binding policy reads of a validated module: globals and entry
/// points in declaration order, and for each entry point one usage row with
/// one flag per global.
pub struct ModuleView {
    pub globals: Vec<GlobalDesc>,
    pub entry_points: Vec<String>,
    pub used: Vec<Vec<bool>>,
}

impl ModuleView {
    /// One usage row per entry point, one flag per global.
    pub open spec fn wf(self) -> bool {
        &&& self.used@.len() == self.entry_points@.len()
        &&& forall|i: int|
            0 <= i < self.used@.len() ==> #[trigger] self.used@[i]@.len() == self.globals@.len()
    }
}

/// The resource map of one entry point, keyed by the entry point's name.
#[derive(Clone, Debug)]
pub struct EntryPointBindings {
    pub entry_point: String,
    pub resources: Vec<BindingEntry>,
}

/// The per-entry-point resource maps of a whole module, in entry-point
/// declaration order.
#[derive(Clone, Debug)]
pub struct EntryPointResourceMap {
    pub entries: Vec<EntryPointBindings>,
}

/// Spec-level model of one entry point's resource map: the entry point's
/// name and its emitted entries in global declaration order.
pub ghost struct EntryPointBindingsModel {
    pub entry_point: Seq<char>,
    pub resources: Seq<BindingEntry>,
}

impl EntryPointBindings {
    /// The spec-level content of this entry point's resource map.
    pub open spec fn model(self) -> EntryPointBindingsModel {
        EntryPointBindingsModel { entry_point: self.entry_point@, resources: self.resources@ }
    }
}

impl EntryPointResourceMap {
    /// The spec-level content of the whole map, in entry-point declaration
    /// order.
    pub open spec fn model(self) -> Seq<EntryPointBindingsModel> {
        self.entries@.map_values(|b: EntryPointBindings| b.model())
    }
}

/// Spec-level model of what the binding policy reads of a validated
/// module: globals and entry-point names in declaration order, and one
/// usage row per entry point.
pub ghost struct ModuleModel {
    pub globals: Seq<GlobalDesc>,
    pub entry_points: Seq<Seq<char>>,
    pub used: Seq<Seq<bool>>,
}

impl ModuleView {
    /// The spec-level content of this view.
    pub open spec fn model(self) -> ModuleModel {
        ModuleModel {
            globals: self.globals@,
            entry_points: self.entry_points@.map_values(|s: String| s@),
            used: self.used@.map_values(|v: Vec<bool>| v@),
        }
    }
}

/// Uniform- and storage-space globals are the ones mapped to buffer slots.
pub open spec fn buffer_class(a: AddressClass) -> bool {
    a is Uniform || a is Storage
}

/// A slot is mutable exactly when the storage class permits stores.
pub open spec fn mutable_of(a: AddressClass) -> bool {
    match a {
        AddressClass::Storage { store } => store,
        _ => false,
    }
}

/// A global produces a map entry for an entry point exactly when the entry
/// point uses it, it has an explicit binding, and it lives in uniform or
/// storage space.
pub open spec fn emits(g: GlobalDesc, used: bool) -> bool {
    used && g.binding is Some && buffer_class(g.space)
}

/// The entry an emitted global produces: key is its (group, binding) pair,
/// the buffer slot is the binding index, and mutability follows the store
/// permission.
pub open spec fn entry_of(g: GlobalDesc) -> BindingEntry
    recommends
        g.binding is Some,
{
    BindingEntry {
        key: g.binding.unwrap(),
        target: BindTarget {
            buffer_slot: g.binding.unwrap().binding as u8,
            mutable: mutable_of(g.space),
        },
    }
}

/// Every global this row emits has a binding index the target can
/// represent.
pub open spec fn row_in_range(globals: Seq<GlobalDesc>, used: Seq<bool>) -> bool {
    forall|j: int|
        0 <= j < globals.len() ==> (#[trigger] emits(globals[j], used[j])
            ==> globals[j].binding.unwrap().binding <= 255)
}

/// Every entry point of the module has only representable binding indices
/// among its emitted globals.
pub open spec fn model_in_range(m: ModuleModel) -> bool {
    forall|i: int| 0 <= i < m.used.len() ==> row_in_range(m.globals, #[trigger] m.used[i])
}

/// The binding maps the builder owes a module: one per entry point, in
/// declaration order, each holding that entry point's resource entries.
pub open spec fn maps_model(m: ModuleModel) -> Seq<EntryPointBindingsModel> {
    Seq::new(
        m.entry_points.len(),
        |i: int|
            EntryPointBindingsModel {
                entry_point: m.entry_points[i],
                resources: entry_resources(m.globals, m.used[i]),
            },
    )
}

/// An out-of-range emitted global of entry point `i`, whose pair the
/// `BindingRange` error `e` reports.
pub open spec fn out_of_range_witness(m: ModuleModel, i: int, j: int, e: TranslateError) -> bool {
    &&& 0 <= i < m.used.len()
    &&& 0 <= j < m.globals.len()
    &&& emits(m.globals[j], m.used[i][j])
    &&& m.globals[j].binding.unwrap().binding > 255
    &&& e == (TranslateError::BindingRange {
        group: m.globals[j].binding.unwrap().group,
        binding: m.globals[j].binding.unwrap().binding,
    })
}

/// The resource entries one entry point gets, in global declaration order.
pub open spec fn entry_resources(globals: Seq<GlobalDesc>, used: Seq<bool>) -> Seq<BindingEntry>
    recommends
        globals.len() == used.len(),
    decreases globals.len(),
{
    if globals.len() == 0 {
        Seq::empty()
    } else {
        (if emits(globals[0], used[0]) {
            seq![entry_of(globals[0])]
        } else {
            Seq::empty()
        }) + entry_resources(globals.skip(1), used.skip(1))
    }
}

/// Builds the per-entry-point resource maps for every entry point of the
/// module, in declaration order. Fails with `BindingRange` exactly when
/// some entry point would emit a global whose binding index exceeds the
/// greatest representable buffer slot.
pub fn build_binding_maps(view: &ModuleView) -> (r: Result<EntryPointResourceMap, TranslateError>)
    requires
        view.wf(),
    ensures
        match r {
            Ok(m) => {
                &&& m.entries@.len() == view.entry_points@.len()
                &&& forall|i: int|
                    0 <= i < m.entries@.len() ==> #[trigger] m.entries@[i].entry_point@
                        == view.entry_points@[i]@
                &&& forall|i: int|
                    0 <= i < m.entries@.len() ==> #[trigger] m.entries@[i].resources@
                        == entry_resources(view.globals@, view.used@[i]@)
                &&& forall|i: int|
                    0 <= i < view.used@.len() ==> row_in_range(
                        view.globals@,
                        #[trigger] view.used@[i]@,
                    )
            },
            Err(e) => exists|i: int, j: int|
                {
                    &&& 0 <= i < view.used@.len()
                    &&& 0 <= j < view.globals@.len()
                    &&& #[trigger] emits(view.globals@[j], view.used@[i]@[j])
                    &&& view.globals@[j].binding.unwrap().binding > 255
                    &&& e == (TranslateError::BindingRange {
                        group: view.globals@[j].binding.unwrap().group,
                        binding: view.globals@[j].binding.unwrap().binding,
                    })
                },
        },
{
    let mut entries: Vec<EntryPointBindings> = Vec::new();
    let ep_count: usize = view.entry_points.len();
    let g_count: usize = view.globals.len();
    let mut i: usize = 0;
    while i < ep_count
        invariant
            view.wf(),
            ep_count == view.entry_points@.len(),
            g_count == view.globals@.len(),
            i <= ep_count,
            entries@.len() == i,
            forall|k: int|
                0 <= k < i ==> #[trigger] entries@[k].entry_point@ == view.entry_points@[k]@,
            forall|k: int|
                0 <= k < i ==> #[trigger] entries@[k].resources@ == entry_resources(
                    view.globals@,
                    view.used@[k]@,
                ),
            forall|k: int| 0 <= k < i ==> row_in_range(view.globals@, #[trigger] view.used@[k]@),
        decreases ep_count - i,
    {
        let row: &Vec<bool> = &view.used[i];
        let ghost gs = view.globals@;
        let ghost us = row@;
        let mut resources: Vec<BindingEntry> = Vec::new();
        let mut j: usize = 0;
        proof {
            assert(gs.skip(0) =~= gs);
            assert(us.skip(0) =~= us);
        }
        while j < g_count
            invariant
                gs == view.globals@,
                us == row@,
                us == view.used@[i as int]@,
                g_count == gs.len(),
                us.len() == gs.len(),
                i < view.used@.len(),
                j <= g_count,
                entry_resources(gs, us) == resources@ + entry_resources(
                    gs.skip(j as int),
                    us.skip(j as int),
                ),
                forall|t: int|
                    0 <= t < j ==> (#[trigger] emits(gs[t], us[t]) ==> gs[t].binding.unwrap().binding
                        <= 255),
            decreases g_count - j,
        {
            let g: GlobalDesc = view.globals[j];
            let u: bool = row[j];
            let ghost res0 = resources@;
            let ghost tail = gs.skip(j as int);
            let ghost utail = us.skip(j as int);
            proof {
                assert(tail[0] == gs[j as int]);
                assert(utail[0] == us[j as int]);
                assert(tail.skip(1) =~= gs.skip(j + 1));
                assert(utail.skip(1) =~= us.skip(j + 1));
            }
            if u {
                if let Some(rb) = g.binding {
                    match g.space {
                        AddressClass::Uniform => {
                            if rb.binding > 255 {
                                return Err(
                                    TranslateError::BindingRange {
                                        group: rb.group,
                                        binding: rb.binding,
                                    },
                                );
                            }
                            resources.push(
                                BindingEntry {
                                    key: rb,
                                    target: BindTarget {
                                        buffer_slot: rb.binding as u8,
                                        mutable: false,
                                    },
                                },
                            );
                        },
                        AddressClass::Storage { store } => {
                            if rb.binding > 255 {
                                return Err(
                                    TranslateError::BindingRange {
                                        group: rb.group,
                                        binding: rb.binding,
                                    },
                                );
                            }
                            resources.push(
                                BindingEntry {
                                    key: rb,
                                    target: BindTarget {
                                        buffer_slot: rb.binding as u8,
                                        mutable: store,
                                    },
                                },
                            );
                        },
                        AddressClass::Function => {},
                        AddressClass::Private => {},
                        AddressClass::WorkGroup => {},
                        AddressClass::Handle => {},
                        AddressClass::Other => {},
                    }
                }
            }
            proof {
                if emits(gs[j as int], us[j as int]) {
                    assert(resources@ =~= res0 + seq![entry_of(gs[j as int])]);
                    assert(res0 + (seq![entry_of(tail[0])] + entry_resources(
                        tail.skip(1),
                        utail.skip(1),
                    )) =~= resources@ + entry_resources(gs.skip(j + 1), us.skip(j + 1)));
                } else {
                    assert(resources@ == res0);
                    assert(entry_resources(tail, utail) == entry_resources(
                        tail.skip(1),
                        utail.skip(1),
                    ));
                }
            }
            j += 1;
        }
        proof {
            assert(gs.skip(g_count as int) =~= Seq::<GlobalDesc>::empty());
            assert(resources@ + Seq::<BindingEntry>::empty() =~= resources@);
        }
        let name: String = view.entry_points[i].clone();
        entries.push(EntryPointBindings { entry_point: name, resources });
        i += 1;
    }
    Ok(EntryPointResourceMap { entries })
}

/// Law: a global that an entry point uses, that has an explicit binding,
/// and that lives in uniform or storage space has its entry in that entry
/// point's resource sequence; by `entry_of`, the entry's buffer slot is the
/// binding index and its mutability holds exactly when the storage class
/// permits stores.
pub proof fn lemma_emitted_global_has_entry(globals: Seq<GlobalDesc>, used: Seq<bool>, j: int)
    requires
        globals.len() == used.len(),
        0 <= j < globals.len(),
        emits(globals[j], used[j]),
    ensures
        entry_resources(globals, used).contains(entry_of(globals[j])),
    decreases globals.len(),
{
    let whole = entry_resources(globals, used);
    let head: Seq<BindingEntry> = if emits(globals[0], used[0]) {
        seq![entry_of(globals[0])]
    } else {
        Seq::empty()
    };
    let tail = entry_resources(globals.skip(1), used.skip(1));
    if j == 0 {
        assert(whole[0] == entry_of(globals[0]));
    } else {
        assert(globals.skip(1)[j - 1] == globals[j]);
        assert(used.skip(1)[j - 1] == used[j]);
        lemma_emitted_global_has_entry(globals.skip(1), used.skip(1), j - 1);
        let k = choose|k: int| 0 <= k < tail.len() && tail[k] == entry_of(globals[j]);
        assert(whole[head.len() + k] == entry_of(globals[j]));
    }
}

/// Law: a storage-space global with an explicit binding that an entry
/// point uses gets an entry whose slot is mutable exactly when the access
/// flags include store permission; a load-only storage global's slot is
/// immutable.
pub proof fn lemma_storage_store_is_mutable(
    globals: Seq<GlobalDesc>,
    used: Seq<bool>,
    j: int,
    store: bool,
)
    requires
        globals.len() == used.len(),
        0 <= j < globals.len(),
        used[j],
        globals[j].binding is Some,
        globals[j].space == (AddressClass::Storage { store }),
    ensures
        entry_resources(globals, used).contains(entry_of(globals[j])),
        entry_of(globals[j]).target.mutable == store,
{
    lemma_emitted_global_has_entry(globals, used, j);
}

/// Law: every entry of a per-entry-point resource sequence comes from a
/// global that the entry point uses, that has an explicit binding, and that
/// lives in uniform or storage space. In particular, globals the usage
/// predicate reports unused, and texture- or sampler-space globals, never
/// appear, whatever their bindings.
pub proof fn lemma_entry_has_emitted_source(
    globals: Seq<GlobalDesc>,
    used: Seq<bool>,
    e: BindingEntry,
)
    requires
        globals.len() == used.len(),
        entry_resources(globals, used).contains(e),
    ensures
        exists|j: int|
            0 <= j < globals.len() && #[trigger] emits(globals[j], used[j]) && e == entry_of(
                globals[j],
            ),
    decreases globals.len(),
{
    let whole = entry_resources(globals, used);
    let head: Seq<BindingEntry> = if emits(globals[0], used[0]) {
        seq![entry_of(globals[0])]
    } else {
        Seq::empty()
    };
    let tail = entry_resources(globals.skip(1), used.skip(1));
    let k = choose|k: int| 0 <= k < whole.len() && whole[k] == e;
    if k < head.len() {
        assert(emits(globals[0], used[0]) && e == entry_of(globals[0]));
    } else {
        assert(tail[k - head.len()] == e);
        lemma_entry_has_emitted_source(globals.skip(1), used.skip(1), e);
        let j = choose|j: int|
            0 <= j < globals.skip(1).len() && #[trigger] emits(
                globals.skip(1)[j],
                used.skip(1)[j],
            ) && e == entry_of(globals.skip(1)[j]);
        assert(globals.skip(1)[j] == globals[j + 1]);
        assert(used.skip(1)[j] == used[j + 1]);
        assert(emits(globals[j + 1], used[j + 1]) && e == entry_of(globals[j + 1]));
    }
}

/// No other global shares this global's (group, binding) pair — the data
/// model's collision-freedom invariant, which upstream validation is
/// relied on to establish.
pub open spec fn key_unique(globals: Seq<GlobalDesc>, j: int) -> bool {
    forall|k: int|
        0 <= k < globals.len() && k != j && #[trigger] globals[k].binding is Some
            ==> globals[k].binding.unwrap() != globals[j].binding.unwrap()
}

/// Law: a bound global that an entry point does not use — even one used by
/// a different entry point of the same module — contributes no key to that
/// entry point's resources, provided no other global shares its pair.
pub proof fn lemma_unused_global_never_mapped(globals: Seq<GlobalDesc>, used: Seq<bool>, j: int)
    requires
        globals.len() == used.len(),
        0 <= j < globals.len(),
        !used[j],
        globals[j].binding is Some,
        key_unique(globals, j),
    ensures
        forall|e: BindingEntry| #[trigger]
            entry_resources(globals, used).contains(e) ==> e.key != globals[j].binding.unwrap(),
{
    assert forall|e: BindingEntry| #[trigger]
        entry_resources(globals, used).contains(e) implies e.key != globals[j].binding.unwrap() by {
        lemma_entry_has_emitted_source(globals, used, e);
        let k = choose|k: int|
            0 <= k < globals.len() && #[trigger] emits(globals[k], used[k]) && e == entry_of(
                globals[k],
            );
        assert(k != j);
        assert(e.key == globals[k].binding.unwrap());
    };
}

/// Law: a bound global outside uniform and storage space — textures and
/// samplers among them — contributes no key to any entry point's
/// resources, even when used, provided no other global shares its pair.
pub proof fn lemma_non_buffer_global_never_mapped(globals: Seq<GlobalDesc>, used: Seq<bool>, j: int)
    requires
        globals.len() == used.len(),
        0 <= j < globals.len(),
        !buffer_class(globals[j].space),
        globals[j].binding is Some,
        key_unique(globals, j),
    ensures
        forall|e: BindingEntry| #[trigger]
            entry_resources(globals, used).contains(e) ==> e.key != globals[j].binding.unwrap(),
{
    assert forall|e: BindingEntry| #[trigger]
        entry_resources(globals, used).contains(e) implies e.key != globals[j].binding.unwrap() by {
        lemma_entry_has_emitted_source(globals, used, e);
        let k = choose|k: int|
            0 <= k < globals.len() && #[trigger] emits(globals[k], used[k]) && e == entry_of(
                globals[k],
            );
        assert(k != j);
        assert(e.key == globals[k].binding.unwrap());
    };
}

} // verus!
