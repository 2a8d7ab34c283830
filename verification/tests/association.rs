use lune_std_ffi::ffi::ffi_association::{AssociationName, FfiAssociation};

#[test]
fn a_new_registry_keeps_nothing() {
    let registry = FfiAssociation::new();
    assert_eq!(registry.get_association(AssociationName::RefInner, 0), None);
    assert_eq!(registry.get_association(AssociationName::SymInner, 0), None);
    assert!(!registry.is_kept(0));
}

#[test]
fn a_tie_is_found_under_its_name_only() {
    let mut registry = FfiAssociation::new();
    registry.set_association(AssociationName::RefInner, 10, 1);
    assert_eq!(registry.get_association(AssociationName::RefInner, 10), Some(1));
    assert_eq!(registry.get_association(AssociationName::SymInner, 10), None);
    assert_eq!(registry.get_association(AssociationName::RefInner, 11), None);
    assert!(registry.is_kept(1));
    assert!(!registry.is_kept(10));
}

#[test]
fn a_dependent_keeps_one_owner_under_one_name() {
    let mut registry = FfiAssociation::new();
    registry.set_association(AssociationName::RefInner, 10, 1);
    registry.set_association(AssociationName::RefInner, 10, 2);
    assert_eq!(registry.get_association(AssociationName::RefInner, 10), Some(2));
    assert!(!registry.is_kept(1));
    assert!(registry.is_kept(2));
    registry.set_association(AssociationName::SymInner, 10, 3);
    assert_eq!(registry.get_association(AssociationName::RefInner, 10), Some(2));
    assert_eq!(registry.get_association(AssociationName::SymInner, 10), Some(3));
}

#[test]
fn an_owner_is_kept_while_any_dependent_keeps_it() {
    let mut registry = FfiAssociation::new();
    registry.set_association(AssociationName::RefInner, 10, 1);
    registry.set_association(AssociationName::RefInner, 11, 1);
    registry.remove_association(AssociationName::RefInner, 10);
    assert!(registry.is_kept(1));
    assert_eq!(registry.get_association(AssociationName::RefInner, 10), None);
    registry.remove_association(AssociationName::RefInner, 11);
    assert!(!registry.is_kept(1));
}

#[test]
fn removing_what_is_not_there_changes_nothing() {
    let mut registry = FfiAssociation::new();
    registry.set_association(AssociationName::RefInner, 10, 1);
    registry.remove_association(AssociationName::SymInner, 10);
    registry.remove_association(AssociationName::RefInner, 12);
    assert_eq!(registry.get_association(AssociationName::RefInner, 10), Some(1));
    assert!(registry.is_kept(1));
}

#[test]
fn a_reference_made_from_another_inherits_its_owner() {
    let mut registry = FfiAssociation::new();
    registry.set_association(AssociationName::RefInner, 10, 1);
    registry.inherit(10, 11);
    assert_eq!(registry.get_association(AssociationName::RefInner, 11), Some(1));
    assert_eq!(registry.get_association(AssociationName::SymInner, 11), None);
    registry.remove_association(AssociationName::RefInner, 10);
    assert!(registry.is_kept(1));
    registry.set_association(AssociationName::SymInner, 20, 2);
    registry.set_association(AssociationName::RefInner, 20, 3);
    registry.inherit(20, 21);
    assert_eq!(registry.get_association(AssociationName::SymInner, 21), Some(2));
    assert_eq!(registry.get_association(AssociationName::RefInner, 21), Some(3));
    registry.inherit(30, 31);
    assert_eq!(registry.get_association(AssociationName::RefInner, 31), None);
    assert_eq!(registry.get_association(AssociationName::SymInner, 31), None);
}
