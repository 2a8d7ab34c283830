use lune_std_ffi::c::c_type::CTypeKind;
use lune_std_ffi::cfn::CFn;
use lune_std_ffi::error::FfiError;

fn names(list: &[&str]) -> Vec<String> {
    list.iter().map(|name| name.to_string()).collect()
}

#[test]
fn a_signature_keeps_its_types_in_order() {
    let cfn = CFn::new(vec![CTypeKind::I64, CTypeKind::I8, CTypeKind::I64], CTypeKind::I8);
    assert_eq!(cfn.args(), &vec![CTypeKind::I64, CTypeKind::I8, CTypeKind::I64]);
    assert_eq!(cfn.ret(), CTypeKind::I8);
    let none = CFn::new(vec![], CTypeKind::I64);
    assert!(none.args().is_empty());
    assert_eq!(none.ret(), CTypeKind::I64);
}

#[test]
fn a_signature_is_built_from_names() {
    let cfn = CFn::from_lua_table(&names(&["i64", "i64"]), &"i64".to_string()).unwrap();
    assert_eq!(cfn.args(), &vec![CTypeKind::I64, CTypeKind::I64]);
    assert_eq!(cfn.ret(), CTypeKind::I64);
    let mixed = CFn::from_lua_table(&names(&["i8", "i64"]), &"i8".to_string()).unwrap();
    assert_eq!(mixed.args(), &vec![CTypeKind::I8, CTypeKind::I64]);
    assert_eq!(mixed.ret(), CTypeKind::I8);
}

#[test]
fn a_name_that_is_no_type_fails_with_its_position() {
    let failed = |args: &[&str], ret: &str| match CFn::from_lua_table(&names(args), &ret.to_string()) {
        Err(e) => e,
        Ok(_) => panic!("a name stands for no type"),
    };
    let error = |position: usize, name: &str| FfiError::TypeError { position, name: name.to_string() };
    assert_eq!(failed(&["not-a-type"], "i64"), error(0, "not-a-type"));
    assert_eq!(failed(&["i64", "i8", "u512"], "i64"), error(2, "u512"));
    assert_eq!(failed(&["i64", "", "u512"], "i64"), error(1, ""));
    assert_eq!(failed(&["i64", "i8"], "void*"), error(2, "void*"));
    assert_eq!(failed(&[], "nothing"), error(0, "nothing"));
    // the first argument that fails is named, whatever the return type
    assert_eq!(failed(&["i64", "x"], "y"), error(1, "x"));
}
