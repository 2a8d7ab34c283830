use lune_std_ffi::c::c_type::CType;
use lune_std_ffi::c::types::i64::create_type;
use lune_std_ffi::cfn::CFn;
use lune_std_ffi::error::FfiError;
use lune_std_ffi::ffi::ffi_association::{AssociationName, FfiAssociation};
use lune_std_ffi::ffi::ffi_box::FfiBox;
use lune_std_ffi::ffi::ffi_lib::FfiLib;
use lune_std_ffi::ffi::ffi_native::data::read_data;
use lune_std_ffi::value::DynamicValue;

#[test]
fn a_zeroed_box_reads_as_zero() {
    let short = CType::<i8>::new(Some("i8"));
    let mut small = FfiBox::new(4).unwrap();
    small.zero();
    for offset in 0..4 {
        assert_eq!(small.read(&short, offset), Ok(DynamicValue::Integer(0)));
    }
    assert_eq!(small.stringify(), "00000000");
    let (_, long) = create_type();
    let mut large = FfiBox::new(8).unwrap();
    large.zero();
    assert_eq!(large.read(&long, 0), Ok(DynamicValue::Integer(0)));
}

#[test]
fn a_value_written_through_a_reference_is_read_back() {
    let (_, long) = create_type();
    let mut registry = FfiAssociation::new();
    let mut made = FfiBox::new(8).unwrap();
    let view = made.luaref(&mut registry, 1, 2, None).unwrap();
    view.write(&mut made, &long, 0, &DynamicValue::Integer(42)).unwrap();
    assert_eq!(view.read(&made, &long, 0), Ok(DynamicValue::Integer(42)));
}

#[test]
fn a_reference_beyond_the_box_is_refused() {
    let mut registry = FfiAssociation::new();
    let made = FfiBox::new(2).unwrap();
    assert_eq!(
        made.luaref(&mut registry, 1, 2, Some(5)),
        Err(FfiError::BoundsError { offset: 5, size: 0 })
    );
}

#[test]
fn a_missing_symbol_is_refused() {
    let mut registry = FfiAssociation::new();
    let lib = FfiLib::new(String::from("some-lib"), 1, Ok(())).unwrap();
    let name = String::from("nonexistent_symbol_xyz");
    let message = String::from("some-lib: undefined symbol: nonexistent_symbol_xyz");
    assert_eq!(
        lib.get_sym(&mut registry, 2, name.clone(), Err(message.clone())),
        Err(FfiError::SymbolError { name, message })
    );
    assert_eq!(registry.get_association(AssociationName::SymInner, 2), None);
}

#[test]
fn a_signature_of_known_types_is_built_and_an_unknown_one_refused() {
    let known = vec!["i64".to_string(), "i64".to_string()];
    assert!(CFn::from_lua_table(&known, &"i64".to_string()).is_ok());
    let unknown = vec!["not-a-type".to_string()];
    match CFn::from_lua_table(&unknown, &"i64".to_string()) {
        Err(e) => {
            assert_eq!(e, FfiError::TypeError { position: 0, name: "not-a-type".to_string() })
        }
        Ok(_) => panic!("the name stands for no type"),
    }
}

#[test]
fn a_large_box_is_not_written_out() {
    let mut made = FfiBox::new(2000).unwrap();
    made.zero();
    let text = made.stringify();
    assert_eq!(text, "exceed");
    assert_ne!(text.len(), 4000);
}

#[test]
fn a_leaked_region_outlives_its_box() {
    let (_, long) = create_type();
    let mut registry = FfiAssociation::new();
    let mut made = FfiBox::new(8).unwrap();
    made.zero();
    let view = made.leak_ref(&mut registry, 1, 2, None).unwrap();
    view.write(&mut made, &long, 0, &DynamicValue::Integer(77)).unwrap();
    let before = view.read(&made, &long, 0);
    let region = made.drop().unwrap();
    assert_eq!(read_data(&view, &region, &long, 0), before);
    assert_eq!(read_data(&view, &region, &long, 0), Ok(DynamicValue::Integer(77)));
}

#[test]
fn a_box_with_a_reference_is_not_destroyed() {
    let (_, long) = create_type();
    let mut registry = FfiAssociation::new();
    let mut made = FfiBox::new(8).unwrap();
    made.zero();
    let view = made.luaref(&mut registry, 1, 2, None).unwrap();
    view.write(&mut made, &long, 0, &DynamicValue::Integer(5)).unwrap();
    let kept = match made.release(&registry, 1) {
        Err(kept) => kept,
        Ok(_) => panic!("the reference keeps the box"),
    };
    assert_eq!(view.read(&kept, &long, 0), Ok(DynamicValue::Integer(5)));
    registry.remove_association(AssociationName::RefInner, 2);
    assert!(kept.release(&registry, 1).is_ok());
}
