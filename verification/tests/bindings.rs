use wgsl_to_msl::TranslateError;
use wgsl_to_msl::bindings::{
    build_binding_maps, AddressClass, GlobalDesc, ModuleView, ResourceBinding,
};

fn global(space: AddressClass, group: u32, binding: u32) -> GlobalDesc {
    GlobalDesc { space, binding: Some(ResourceBinding { group, binding }) }
}

#[test]
fn single_uniform_global_gets_one_immutable_entry() {
    let view = ModuleView {
        globals: vec![global(AddressClass::Uniform, 0, 0)],
        entry_points: vec!["main".to_string()],
        used: vec![vec![true]],
    };
    let map = build_binding_maps(&view).unwrap();
    assert_eq!(map.entries.len(), 1);
    assert_eq!(map.entries[0].entry_point, "main");
    assert_eq!(map.entries[0].resources.len(), 1);
    let e = &map.entries[0].resources[0];
    assert_eq!(e.key, ResourceBinding { group: 0, binding: 0 });
    assert_eq!(e.target.buffer_slot, 0);
    assert!(!e.target.mutable);
}

#[test]
fn storage_with_store_access_is_mutable() {
    let view = ModuleView {
        globals: vec![
            global(AddressClass::Storage { store: true }, 0, 1),
            global(AddressClass::Storage { store: false }, 0, 2),
        ],
        entry_points: vec!["main".to_string()],
        used: vec![vec![true, true]],
    };
    let map = build_binding_maps(&view).unwrap();
    let res = &map.entries[0].resources;
    assert_eq!(res.len(), 2);
    assert_eq!(res[0].key.binding, 1);
    assert!(res[0].target.mutable);
    assert_eq!(res[1].key.binding, 2);
    assert!(!res[1].target.mutable);
}

#[test]
fn unused_globals_stay_out_per_entry_point() {
    let view = ModuleView {
        globals: vec![global(AddressClass::Uniform, 0, 0), global(AddressClass::Uniform, 0, 1)],
        entry_points: vec!["first".to_string(), "second".to_string()],
        used: vec![vec![true, false], vec![false, true]],
    };
    let map = build_binding_maps(&view).unwrap();
    assert_eq!(map.entries.len(), 2);
    let first = &map.entries[0].resources;
    assert_eq!(first.len(), 1);
    assert_eq!(first[0].key.binding, 0);
    let second = &map.entries[1].resources;
    assert_eq!(second.len(), 1);
    assert_eq!(second[0].key.binding, 1);
}

#[test]
fn handle_space_globals_never_appear() {
    // Texture- and sampler-like globals keep their explicit bindings but
    // are left to the generator's default handling.
    let view = ModuleView {
        globals: vec![
            global(AddressClass::Handle, 0, 0),
            global(AddressClass::Handle, 0, 1),
            global(AddressClass::Uniform, 0, 2),
        ],
        entry_points: vec!["main".to_string()],
        used: vec![vec![true, true, true]],
    };
    let map = build_binding_maps(&view).unwrap();
    let res = &map.entries[0].resources;
    assert_eq!(res.len(), 1);
    assert_eq!(res[0].key.binding, 2);
}

#[test]
fn other_spaces_and_unbound_globals_never_appear() {
    let view = ModuleView {
        globals: vec![
            global(AddressClass::Private, 0, 3),
            global(AddressClass::Function, 0, 4),
            global(AddressClass::WorkGroup, 0, 5),
            GlobalDesc { space: AddressClass::Uniform, binding: None },
        ],
        entry_points: vec!["main".to_string()],
        used: vec![vec![true, true, true, true]],
    };
    let map = build_binding_maps(&view).unwrap();
    assert!(map.entries[0].resources.is_empty());
}

#[test]
fn binding_above_greatest_slot_fails() {
    let view = ModuleView {
        globals: vec![global(AddressClass::Uniform, 0, 300)],
        entry_points: vec!["main".to_string()],
        used: vec![vec![true]],
    };
    match build_binding_maps(&view) {
        Err(TranslateError::BindingRange { group, binding }) => {
            assert_eq!(group, 0);
            assert_eq!(binding, 300);
        }
        other => panic!("expected a binding-range failure, got {:?}", other),
    }
}

#[test]
fn binding_at_greatest_slot_is_kept() {
    let view = ModuleView {
        globals: vec![global(AddressClass::Uniform, 1, 255)],
        entry_points: vec!["main".to_string()],
        used: vec![vec![true]],
    };
    let map = build_binding_maps(&view).unwrap();
    let e = &map.entries[0].resources[0];
    assert_eq!(e.key, ResourceBinding { group: 1, binding: 255 });
    assert_eq!(e.target.buffer_slot, 255);
}

#[test]
fn out_of_range_binding_unused_by_all_entry_points_is_harmless() {
    let view = ModuleView {
        globals: vec![global(AddressClass::Uniform, 0, 999)],
        entry_points: vec!["main".to_string()],
        used: vec![vec![false]],
    };
    let map = build_binding_maps(&view).unwrap();
    assert!(map.entries[0].resources.is_empty());
}
