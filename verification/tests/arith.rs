use state_machine::arith::Quantity;
use state_machine::identity::Identifier;

#[test]
fn identities_of_u32() {
    assert_eq!(<u32 as Quantity>::zero(), 0);
    assert_eq!(<u32 as Quantity>::one(), 1);
}

#[test]
fn identities_of_u128() {
    assert_eq!(<u128 as Quantity>::zero(), 0);
    assert_eq!(<u128 as Quantity>::one(), 1);
}

#[test]
fn checked_add_of_u32() {
    assert_eq!(Quantity::checked_add(&3u32, &4u32), Some(7));
    assert_eq!(Quantity::checked_add(&(u32::MAX - 1), &1u32), Some(u32::MAX));
    assert_eq!(Quantity::checked_add(&u32::MAX, &1u32), None);
    assert_eq!(Quantity::checked_add(&0u32, &0u32), Some(0));
}

#[test]
fn checked_sub_of_u32() {
    assert_eq!(Quantity::checked_sub(&7u32, &4u32), Some(3));
    assert_eq!(Quantity::checked_sub(&4u32, &4u32), Some(0));
    assert_eq!(Quantity::checked_sub(&4u32, &5u32), None);
}

#[test]
fn checked_add_of_u128() {
    assert_eq!(Quantity::checked_add(&3u128, &4u128), Some(7));
    assert_eq!(Quantity::checked_add(&(u128::MAX - 1), &1u128), Some(u128::MAX));
    assert_eq!(Quantity::checked_add(&u128::MAX, &1u128), None);
    assert_eq!(Quantity::checked_add(&(1u128 << 100), &(1u128 << 100)), Some(1u128 << 101));
}

#[test]
fn checked_sub_of_u128() {
    assert_eq!(Quantity::checked_sub(&7u128, &4u128), Some(3));
    assert_eq!(Quantity::checked_sub(&0u128, &1u128), None);
    assert_eq!(Quantity::checked_sub(&u128::MAX, &u128::MAX), Some(0));
}

#[test]
fn strings_are_the_same_when_they_spell_the_same() {
    let a = String::from("jae");
    let b = format!("{}{}", "ja", "e");
    assert!(a.same(&b));
    assert!(!a.same(&String::from("ja")));
    assert!(!a.same(&String::from("Jae")));
    assert_eq!(a.duplicate(), "jae");
}

#[test]
fn string_slices_are_the_same_when_they_spell_the_same() {
    let a: &'static str = "jae";
    let b: &'static str = Box::leak(format!("{}{}", "ja", "e").into_boxed_str());
    assert!(a.same(&b));
    assert!(!a.same(&"ja"));
    assert!(!a.same(&""));
    assert_eq!(a.duplicate(), "jae");
}
