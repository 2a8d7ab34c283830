use lune_std_ffi::ffi::bit_mask::{
    u8_set, u8_test, u8_test_not, U8_MASK1, U8_MASK2, U8_MASK3, U8_MASK8,
};
use lune_std_ffi::ffi::ffi_box::{FfiBoxFlag, BOX_REF_FLAGS};
use lune_std_ffi::ffi::ffi_lib::LIB_REF_FLAGS;
use lune_std_ffi::ffi::ffi_ref::{FfiRefFlag, FfiRefFlagList};

fn all_flags() -> Vec<FfiRefFlag> {
    vec![
        FfiRefFlag::Leaked,
        FfiRefFlag::Dereferenceable,
        FfiRefFlag::Readable,
        FfiRefFlag::Writable,
        FfiRefFlag::Offsetable,
        FfiRefFlag::Function,
        FfiRefFlag::Uninit,
    ]
}

#[test]
fn flag_values_are_single_bits() {
    assert_eq!(FfiRefFlag::Leaked.value(), 1);
    assert_eq!(FfiRefFlag::Dereferenceable.value(), 2);
    assert_eq!(FfiRefFlag::Writable.value(), 4);
    assert_eq!(FfiRefFlag::Readable.value(), 8);
    assert_eq!(FfiRefFlag::Offsetable.value(), 16);
    assert_eq!(FfiRefFlag::Function.value(), 32);
    assert_eq!(FfiRefFlag::Uninit.value(), 64);
}

#[test]
fn flag_values_are_pairwise_disjoint() {
    let flags = all_flags();
    for a in flags.iter() {
        for b in flags.iter() {
            if a == b {
                assert_eq!(a.value() & b.value(), a.value());
            } else {
                assert_eq!(a.value() & b.value(), 0);
            }
        }
    }
}

#[test]
fn box_flag_leaked_is_the_first_bit() {
    assert_eq!(FfiBoxFlag::Leaked.value(), U8_MASK1);
}

#[test]
fn bit_mask_test_and_set() {
    assert!(u8_test(0b0000_0110, U8_MASK2));
    assert!(!u8_test(0b0000_0110, U8_MASK1));
    assert!(u8_test_not(0b0000_0110, U8_MASK1));
    assert!(!u8_test_not(0b0000_0110, U8_MASK3));
    assert_eq!(u8_set(0, U8_MASK8, true), 128);
    assert_eq!(u8_set(0xff, U8_MASK8, false), 127);
    assert_eq!(u8_set(0b101, U8_MASK2, true), 0b111);
    assert_eq!(u8_set(0b101, U8_MASK2, false), 0b101);
}

#[test]
fn flag_list_holds_exactly_what_it_was_given() {
    let given = [FfiRefFlag::Readable, FfiRefFlag::Function];
    let list = FfiRefFlagList::new(&given);
    for flag in all_flags() {
        assert_eq!(list.has(flag), given.contains(&flag));
    }
    assert_eq!(list.0, 8 | 32);
    assert!(list.is_readable());
    assert!(!list.is_writable());
    assert!(!list.is_offsetable());
    assert!(!list.is_dereferenceable());
}

#[test]
fn flag_list_of_nothing_and_of_repeats() {
    assert_eq!(FfiRefFlagList::zero(), FfiRefFlagList(0));
    assert_eq!(FfiRefFlagList::new(&[]), FfiRefFlagList(0));
    let twice = FfiRefFlagList::new(&[FfiRefFlag::Writable, FfiRefFlag::Writable]);
    assert_eq!(twice, FfiRefFlagList(4));
    for flag in all_flags() {
        assert!(!FfiRefFlagList::zero().has(flag));
    }
}

#[test]
fn box_references_may_be_read_written_and_moved() {
    let list = FfiRefFlagList(BOX_REF_FLAGS);
    assert_eq!(BOX_REF_FLAGS, 28);
    for flag in all_flags() {
        let expected = matches!(
            flag,
            FfiRefFlag::Readable | FfiRefFlag::Writable | FfiRefFlag::Offsetable
        );
        assert_eq!(list.has(flag), expected);
    }
}

#[test]
fn symbol_references_are_not_writable() {
    let list = FfiRefFlagList(LIB_REF_FLAGS);
    assert_eq!(LIB_REF_FLAGS, 58);
    for flag in all_flags() {
        let expected = matches!(
            flag,
            FfiRefFlag::Offsetable
                | FfiRefFlag::Readable
                | FfiRefFlag::Dereferenceable
                | FfiRefFlag::Function
        );
        assert_eq!(list.has(flag), expected);
    }
}
