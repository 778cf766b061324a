//! The inventory of native names.

use scribium_engine::natives::{
    bespoke_native_owners, deferred_native_names, is_deferred, native_dispatch_owner,
    NativeDispatchOwner,
};

#[test]
fn native_dispatch_inventory_has_exactly_one_owner() {
    let mut registered: Vec<(&str, NativeDispatchOwner)> = Vec::new();

    for builtin in ["multiply", "sum", "uppercase", "lowercase", "isnone"] {
        assert_eq!(
            native_dispatch_owner(builtin, true),
            Some(NativeDispatchOwner::RegularScalar),
            "regular builtin {} has no unique owner",
            builtin
        );
        assert!(
            registered.iter().all(|(name, _)| *name != builtin),
            "{} is registered by more than one native owner",
            builtin
        );
        registered.push((builtin, NativeDispatchOwner::RegularScalar));
    }

    for inventory in bespoke_native_owners() {
        for &name in &inventory.names {
            assert_eq!(
                native_dispatch_owner(name, false),
                Some(inventory.owner),
                "{name} does not have one unique native owner"
            );
            assert!(
                registered
                    .iter()
                    .all(|(registered_name, _)| *registered_name != name),
                "{name} is registered by more than one native owner"
            );
            registered.push((name, inventory.owner));
        }
    }

    for name in deferred_native_names() {
        assert_eq!(
            native_dispatch_owner(name, false),
            None,
            "deferred name {name} must not be a supported native owner"
        );
        assert!(is_deferred(name));
    }
}

#[test]
fn a_regular_name_that_is_also_native_has_no_owner() {
    assert_eq!(native_dispatch_owner("let", true), None);
    assert_eq!(
        native_dispatch_owner("let", false),
        Some(NativeDispatchOwner::Let)
    );
    assert_eq!(native_dispatch_owner("nobody", false), None);
}
