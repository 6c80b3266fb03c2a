use twelve_knights_vigil::elements::{Element, ElementalAffliction};

#[test]
fn add_elemental_afflictions_together() {
    let mut first = ElementalAffliction::empty();
    let mut second = ElementalAffliction::empty();
    let mut result = ElementalAffliction::empty();

    first.add_element(Element::Air, 3);
    result.add_element(Element::Air, 3);

    second.add_element(Element::Earth, 6);
    result.add_element(Element::Earth, 6);

    assert_eq!(&first + &second, result);
}

#[test]
fn add_element_to_affliction() {
    let mut affliction = ElementalAffliction::empty();

    affliction.add_element(Element::Air, 3);

    let expected = 3;
    let actual = affliction.get_element_amount(Element::Air);
    assert_eq!(expected, actual);

    affliction.add_element(Element::Air, 6);

    let expected = 3 + 6;
    let actual = affliction.get_element_amount(Element::Air);
    assert_eq!(expected, actual);
}

#[test]
fn test_afflictions_contain_other_afflictions() {
    let mut parent = ElementalAffliction::empty();
    let mut child = ElementalAffliction::empty();

    // Empty contains empty
    assert!(parent.contains(&child));

    // Child contains one and parent is empty
    child.add_element(Element::Earth, 4);
    assert_eq!(false, parent.contains(&child));

    // Parent and Child Single Element
    parent.add_element(Element::Earth, 4);
    assert!(parent.contains(&child));

    // Parent has more than child
    parent.add_element(Element::Earth, 4);
    assert!(parent.contains(&child));

    // Parent has other elements
    parent.add_element(Element::Water, 5);
    assert!(parent.contains(&child));
}

#[test]
fn every_affliction_contains_the_empty_one() {
    let empty = ElementalAffliction::empty();
    assert!(empty.contains(&empty));
    let mut some = ElementalAffliction::single(Element::Fire, 7);
    some.add_element(Element::Water, 0);
    assert!(some.contains(&empty));
    assert!(some.contains_exactly(&empty));
}

#[test]
fn contains_fails_where_one_element_exceeds() {
    let mut have = ElementalAffliction::single(Element::Fire, 10);
    have.add_element(Element::Water, 5);
    let mut want = ElementalAffliction::single(Element::Fire, 10);
    want.add_element(Element::Water, 6);
    assert!(!have.contains(&want));
    want.subtract_element(Element::Water, 1);
    assert!(have.contains(&want));
}

#[test]
fn adding_then_subtracting_gives_the_start_without_saturation() {
    let mut a = ElementalAffliction::single(Element::Fire, 40);
    a.add_element(Element::Air, 2);
    let b = ElementalAffliction::single(Element::Fire, 2);
    let sum = &a + &b;
    assert_eq!(sum.get_element_amount(Element::Fire), 42);
    let back = &sum - &b;
    assert_eq!(back, a);
}

#[test]
fn adding_saturates_at_the_largest_amount() {
    let a = ElementalAffliction::single(Element::Fire, u32::MAX - 1);
    let b = ElementalAffliction::single(Element::Fire, 5);
    let sum = &a + &b;
    assert_eq!(sum.get_element_amount(Element::Fire), u32::MAX);
    let back = &sum - &b;
    assert_eq!(back.get_element_amount(Element::Fire), u32::MAX - 5);
    assert_ne!(back, a);
}

#[test]
fn subtracting_stops_at_zero_and_keeps_the_element() {
    let mut a = ElementalAffliction::single(Element::Water, 3);
    a.subtract_element(Element::Water, 10);
    assert_eq!(a.get_element_amount(Element::Water), 0);
    assert!(a.has_element(Element::Water));
    a.subtract_element(Element::Earth, 1);
    assert!(!a.has_element(Element::Earth));
    assert_eq!(a.get_element_amount(Element::Earth), 0);
}

#[test]
fn subtracting_never_adds_an_element() {
    let a = ElementalAffliction::single(Element::Water, 3);
    let b = ElementalAffliction::single(Element::Fire, 1);
    let diff = &a - &b;
    assert_eq!(diff, a);
    assert!(!diff.has_element(Element::Fire));
}

#[test]
fn an_absent_element_is_not_a_present_zero() {
    let empty = ElementalAffliction::empty();
    let zero = ElementalAffliction::single(Element::Fire, 0);
    assert_ne!(empty, zero);
    assert!(!empty.has_element(Element::Fire));
    assert!(zero.has_element(Element::Fire));
    assert_eq!(empty.get_element_amount(Element::Fire), 0);
}

#[test]
fn exact_match_looks_only_at_what_the_other_mentions() {
    let mut tile = ElementalAffliction::single(Element::Fire, 0);
    tile.add_element(Element::Water, 9);
    let cold = ElementalAffliction::single(Element::Fire, 0);
    assert!(tile.contains_exactly(&cold));
    assert!(ElementalAffliction::empty().contains_exactly(&cold));
    let warm = ElementalAffliction::single(Element::Fire, 1);
    assert!(!tile.contains_exactly(&warm));
    let mut hot = tile;
    hot.add_element(Element::Fire, 2);
    assert!(!hot.contains_exactly(&cold));
    assert!(hot.contains(&cold));
}

#[test]
fn in_place_sum_and_difference_agree_with_the_operators() {
    let mut a = ElementalAffliction::single(Element::Earth, 6);
    let b = ElementalAffliction::single(Element::Earth, 4);
    let sum = &a + &b;
    a.add_all(&b);
    assert_eq!(a, sum);
    let diff = &a - &b;
    a.subtract(&b);
    assert_eq!(a, diff);
    assert_eq!(a.get_element_amount(Element::Earth), 6);
}

#[test]
fn elements_are_listed_with_their_names() {
    let all = Element::all();
    assert_eq!(all.len(), 4);
    let names: Vec<&str> = all.iter().map(|e| e.display_name()).collect();
    assert_eq!(names, vec!["Fire", "Water", "Earth", "Air"]);
}
