//! Elements and the affliction algebra: a sparse table of elemental charge
//! that tiles carry and that messages move around.

use vstd::prelude::*;
use vstd::std_specs::cmp::PartialEqSpecImpl;
use vstd::std_specs::ops::AddSpecImpl;
use vstd::std_specs::ops::SubSpecImpl;

verus! {

/// The four elements a tile can be charged with.
#[derive(PartialEq, Eq, Debug, Hash, Clone, Copy, Structural)]
pub enum Element {
    Fire,
    Water,
    Earth,
    Air,
}

impl Element {
    /// Every element, in declaration order.
    pub fn all() -> (r: [Element; 4])
        ensures
            r@ == seq![Element::Fire, Element::Water, Element::Earth, Element::Air],
    {
        let r = [Element::Fire, Element::Water, Element::Earth, Element::Air];
        assert(r@ =~= seq![Element::Fire, Element::Water, Element::Earth, Element::Air]);
        r
    }

    /// The label shown for the element.
    pub fn display_name(&self) -> (r: &'static str)
        ensures
            r@ == Self::spec_display_name(*self),
    {
        match *self {
            Element::Fire => "Fire",
            Element::Water => "Water",
            Element::Earth => "Earth",
            Element::Air => "Air",
        }
    }

    pub open spec fn spec_display_name(e: Element) -> Seq<char> {
        match e {
            Element::Fire => "Fire"@,
            Element::Water => "Water"@,
            Element::Earth => "Earth"@,
            Element::Air => "Air"@,
        }
    }
}

/// The amount recorded for `e` in a charge table; an absent element holds zero.
pub open spec fn amount_of(m: Map<Element, nat>, e: Element) -> nat {
    if m.dom().contains(e) {
        m[e]
    } else {
        0
    }
}

/// `a + b`, clamped to what a `u32` can hold.
pub open spec fn clamped_sum(a: nat, b: nat) -> nat {
    if a + b > u32::MAX {
        u32::MAX as nat
    } else {
        a + b
    }
}

/// `a - b`, clamped at zero.
pub open spec fn clamped_diff(a: nat, b: nat) -> nat {
    if a >= b {
        (a - b) as nat
    } else {
        0
    }
}

/// Charging `m` with `amount` of `e`: the element becomes present and its
/// amount grows, stopping at the largest `u32`.
pub open spec fn charged(m: Map<Element, nat>, e: Element, amount: nat) -> Map<Element, nat> {
    m.insert(e, clamped_sum(amount_of(m, e), amount))
}

/// Draining `amount` of `e` from `m`: a present element loses charge down to
/// zero and stays present; an absent one stays absent.
pub open spec fn drained(m: Map<Element, nat>, e: Element, amount: nat) -> Map<Element, nat> {
    if m.dom().contains(e) {
        m.insert(e, clamped_diff(m[e], amount))
    } else {
        m
    }
}

/// The sum of two charge tables: every element of either is present, and each
/// element of `b` is charged onto `a`.
pub open spec fn combined(a: Map<Element, nat>, b: Map<Element, nat>) -> Map<Element, nat> {
    Map::new(
        |e: Element| a.dom().contains(e) || b.dom().contains(e),
        |e: Element|
            if b.dom().contains(e) {
                clamped_sum(amount_of(a, e), b[e])
            } else {
                a[e]
            },
    )
}

/// The difference of two charge tables: each element of `b` is drained from
/// `a`. No element appears or disappears.
pub open spec fn reduced(a: Map<Element, nat>, b: Map<Element, nat>) -> Map<Element, nat> {
    Map::new(
        |e: Element| a.dom().contains(e),
        |e: Element|
            if b.dom().contains(e) {
                clamped_diff(a[e], b[e])
            } else {
                a[e]
            },
    )
}

/// `a` holds at least as much as `b` of every element present in `b`.
pub open spec fn covers(a: Map<Element, nat>, b: Map<Element, nat>) -> bool {
    forall|e: Element| b.dom().contains(e) ==> amount_of(a, e) >= #[trigger] b[e]
}

/// `a` holds exactly as much as `b` of every element present in `b`. Elements
/// that `b` does not mention are not compared.
pub open spec fn matches_on(a: Map<Element, nat>, b: Map<Element, nat>) -> bool {
    forall|e: Element| b.dom().contains(e) ==> amount_of(a, e) == #[trigger] b[e]
}

/// Every amount fits in a `u32`.
pub open spec fn bounded(m: Map<Element, nat>) -> bool {
    forall|e: Element| m.dom().contains(e) ==> #[trigger] m[e] <= u32::MAX
}

/// A sparse table of elemental charge. An element is either absent or present
/// with an amount. Wherever an amount is asked for, an absent element counts
/// as zero; but it is not the same as one that is present with zero: two
/// afflictions are equal when the same elements are present with the same
/// amounts, and a comparison looks only at the elements that its second
/// operand holds.
#[derive(Debug, Clone, Copy)]
pub struct ElementalAffliction {
    fire: Option<u32>,
    water: Option<u32>,
    earth: Option<u32>,
    air: Option<u32>,
}

impl View for ElementalAffliction {
    type V = Map<Element, nat>;

    closed spec fn view(&self) -> Map<Element, nat> {
        Map::new(|e: Element| self.slot(e) is Some, |e: Element| self.slot(e)->0 as nat)
    }
}

impl ElementalAffliction {
    spec fn slot(&self, e: Element) -> Option<u32> {
        match e {
            Element::Fire => self.fire,
            Element::Water => self.water,
            Element::Earth => self.earth,
            Element::Air => self.air,
        }
    }

    fn get_slot(&self, e: Element) -> (r: Option<u32>)
        ensures
            r == self.slot(e),
    {
        match e {
            Element::Fire => self.fire,
            Element::Water => self.water,
            Element::Earth => self.earth,
            Element::Air => self.air,
        }
    }

    fn set_slot(&mut self, e: Element, v: Option<u32>)
        ensures
            final(self).slot(e) == v,
            forall|o: Element| o != e ==> final(self).slot(o) == old(self).slot(o),
    {
        match e {
            Element::Fire => {
                self.fire = v;
            },
            Element::Water => {
                self.water = v;
            },
            Element::Earth => {
                self.earth = v;
            },
            Element::Air => {
                self.air = v;
            },
        }
    }

    /// The amounts of any affliction fit in a `u32`.
    pub proof fn lemma_bounded(&self)
        ensures
            bounded(self@),
    {
    }

    /// Two afflictions with the same table are the same value.
    pub proof fn lemma_view_injective(&self, other: &ElementalAffliction)
        requires
            self@ == other@,
        ensures
            *self == *other,
    {
        assert forall|e: Element| self.slot(e) == other.slot(e) by {
            assert(self@.dom().contains(e) == (self.slot(e) is Some));
            assert(other@.dom().contains(e) == (other.slot(e) is Some));
            if self.slot(e) is Some {
                assert(self@[e] == self.slot(e)->0 as nat);
                assert(other@[e] == other.slot(e)->0 as nat);
            }
        }
        assert(self.slot(Element::Fire) == other.slot(Element::Fire));
        assert(self.slot(Element::Water) == other.slot(Element::Water));
        assert(self.slot(Element::Earth) == other.slot(Element::Earth));
        assert(self.slot(Element::Air) == other.slot(Element::Air));
    }

    /// The affliction with no element present, as a value to reason about.
    pub closed spec fn spec_empty() -> Self {
        ElementalAffliction { fire: None, water: None, earth: None, air: None }
    }

    /// The table of the empty affliction is the empty table.
    pub proof fn lemma_spec_empty()
        ensures
            Self::spec_empty()@ == Map::<Element, nat>::empty(),
    {
        assert(Self::spec_empty()@ =~= Map::<Element, nat>::empty());
    }

    /// The affliction with no element present.
    pub fn empty() -> (r: Self)
        ensures
            r == Self::spec_empty(),
            r@ == Map::<Element, nat>::empty(),
    {
        let r = ElementalAffliction { fire: None, water: None, earth: None, air: None };
        assert(r@ =~= Map::<Element, nat>::empty());
        r
    }

    /// Charges the affliction with `amount` of `element`.
    pub fn add_element(&mut self, element: Element, amount: u32)
        ensures
            final(self)@ == charged(old(self)@, element, amount as nat),
    {
        let initial: u32 = match self.get_slot(element) {
            Some(existing) => existing,
            None => 0,
        };
        self.set_slot(element, Some(initial.saturating_add(amount)));
        assert(self@ =~= charged(old(self)@, element, amount as nat));
    }

    /// Drains `amount` of `element`, stopping at zero.
    pub fn subtract_element(&mut self, element: Element, amount: u32)
        ensures
            final(self)@ == drained(old(self)@, element, amount as nat),
    {
        match self.get_slot(element) {
            Some(existing) => {
                self.set_slot(element, Some(existing.saturating_sub(amount)));
            },
            None => {},
        }
        assert(self@ =~= drained(old(self)@, element, amount as nat));
    }

    /// The affliction that holds `amount` of `element` and nothing else, as
    /// a value to reason about.
    pub closed spec fn spec_single(element: Element, amount: u32) -> Self {
        match element {
            Element::Fire => ElementalAffliction {
                fire: Some(amount),
                water: None,
                earth: None,
                air: None,
            },
            Element::Water => ElementalAffliction {
                fire: None,
                water: Some(amount),
                earth: None,
                air: None,
            },
            Element::Earth => ElementalAffliction {
                fire: None,
                water: None,
                earth: Some(amount),
                air: None,
            },
            Element::Air => ElementalAffliction {
                fire: None,
                water: None,
                earth: None,
                air: Some(amount),
            },
        }
    }

    /// The table of a single-element affliction holds that element alone.
    pub proof fn lemma_spec_single(element: Element, amount: u32)
        ensures
            Self::spec_single(element, amount)@ == Map::<Element, nat>::empty().insert(
                element,
                amount as nat,
            ),
    {
        assert(Self::spec_single(element, amount)@ =~= Map::<Element, nat>::empty().insert(
            element,
            amount as nat,
        ));
    }

    /// The affliction that holds `amount` of `element` and nothing else.
    pub fn single(element: Element, amount: u32) -> (r: Self)
        ensures
            r == Self::spec_single(element, amount),
            r@ == Map::<Element, nat>::empty().insert(element, amount as nat),
    {
        let mut result = Self::empty();
        result.add_element(element, amount);
        assert(result@ =~= Map::<Element, nat>::empty().insert(element, amount as nat));
        proof {
            Self::lemma_spec_single(element, amount);
            result.lemma_view_injective(&Self::spec_single(element, amount));
        }
        result
    }

    /// The amount held of `element`; zero when it is absent.
    pub fn get_element_amount(&self, element: Element) -> (r: u32)
        ensures
            r == amount_of(self@, element),
    {
        match self.get_slot(element) {
            Some(val) => val,
            None => 0,
        }
    }

    /// Whether `element` is present, with whatever amount.
    pub fn has_element(&self, element: Element) -> (r: bool)
        ensures
            r == self@.dom().contains(element),
    {
        self.get_slot(element).is_some()
    }

    fn covers_element(&self, other: &ElementalAffliction, e: Element) -> (r: bool)
        ensures
            r == (other@.dom().contains(e) ==> amount_of(self@, e) >= other@[e]),
    {
        match other.get_slot(e) {
            Some(needed) => self.get_element_amount(e) >= needed,
            None => true,
        }
    }

    fn matches_element(&self, other: &ElementalAffliction, e: Element) -> (r: bool)
        ensures
            r == (other@.dom().contains(e) ==> amount_of(self@, e) == other@[e]),
    {
        match other.get_slot(e) {
            Some(needed) => self.get_element_amount(e) == needed,
            None => true,
        }
    }

    /// Whether this affliction holds at least what `other` asks of each
    /// element that `other` mentions.
    pub fn contains(&self, other: &ElementalAffliction) -> (r: bool)
        ensures
            r == covers(self@, other@),
    {
        let r = self.covers_element(other, Element::Fire) && self.covers_element(
            other,
            Element::Water,
        ) && self.covers_element(other, Element::Earth) && self.covers_element(
            other,
            Element::Air,
        );
        proof {
            if r {
                assert forall|e: Element| other@.dom().contains(e) implies amount_of(self@, e)
                    >= #[trigger] other@[e] by {
                    match e {
                        Element::Fire => {},
                        Element::Water => {},
                        Element::Earth => {},
                        Element::Air => {},
                    }
                }
            }
        }
        r
    }

    /// Whether this affliction holds exactly what `other` asks of each element
    /// that `other` mentions. Elements that only this affliction holds are not
    /// looked at.
    pub fn contains_exactly(&self, other: &ElementalAffliction) -> (r: bool)
        ensures
            r == matches_on(self@, other@),
    {
        let r = self.matches_element(other, Element::Fire) && self.matches_element(
            other,
            Element::Water,
        ) && self.matches_element(other, Element::Earth) && self.matches_element(
            other,
            Element::Air,
        );
        proof {
            if r {
                assert forall|e: Element| other@.dom().contains(e) implies amount_of(self@, e)
                    == #[trigger] other@[e] by {
                    match e {
                        Element::Fire => {},
                        Element::Water => {},
                        Element::Earth => {},
                        Element::Air => {},
                    }
                }
            }
        }
        r
    }

    fn charge_from(&mut self, other: &ElementalAffliction, e: Element)
        ensures
            final(self).slot(e) == (if other.slot(e) is Some {
                Some(
                    clamped_sum(
                        amount_of(old(self)@, e),
                        other.slot(e)->0 as nat,
                    ) as u32,
                )
            } else {
                old(self).slot(e)
            }),
            forall|o: Element| o != e ==> final(self).slot(o) == old(self).slot(o),
    {
        match other.get_slot(e) {
            Some(amount) => {
                let initial: u32 = self.get_element_amount(e);
                self.set_slot(e, Some(initial.saturating_add(amount)));
            },
            None => {},
        }
    }

    fn drain_from(&mut self, other: &ElementalAffliction, e: Element)
        ensures
            final(self).slot(e) == (if other.slot(e) is Some && old(self).slot(e) is Some {
                Some(
                    clamped_diff(
                        old(self).slot(e)->0 as nat,
                        other.slot(e)->0 as nat,
                    ) as u32,
                )
            } else {
                old(self).slot(e)
            }),
            forall|o: Element| o != e ==> final(self).slot(o) == old(self).slot(o),
    {
        match other.get_slot(e) {
            Some(amount) => {
                match self.get_slot(e) {
                    Some(existing) => {
                        self.set_slot(e, Some(existing.saturating_sub(amount)));
                    },
                    None => {},
                }
            },
            None => {},
        }
    }

    /// Charges this affliction with everything in `other`.
    pub fn add_all(&mut self, other: &ElementalAffliction)
        ensures
            *final(self) == sum_of(*old(self), *other),
            final(self)@ == combined(old(self)@, other@),
    {
        self.charge_from(other, Element::Fire);
        self.charge_from(other, Element::Water);
        self.charge_from(other, Element::Earth);
        self.charge_from(other, Element::Air);
        assert(self@ =~= combined(old(self)@, other@));
        proof {
            lemma_sum_of_view(*old(self), *other);
            self.lemma_view_injective(&sum_of(*old(self), *other));
        }
    }

    /// Drains everything in `other` from this affliction, in place.
    pub fn subtract(&mut self, other: &ElementalAffliction)
        ensures
            *final(self) == difference_of(*old(self), *other),
            final(self)@ == reduced(old(self)@, other@),
    {
        self.drain_from(other, Element::Fire);
        self.drain_from(other, Element::Water);
        self.drain_from(other, Element::Earth);
        self.drain_from(other, Element::Air);
        assert(self@ =~= reduced(old(self)@, other@));
        proof {
            lemma_difference_of_view(*old(self), *other);
            self.lemma_view_injective(&difference_of(*old(self), *other));
        }
    }
}

impl PartialEq for ElementalAffliction {
    fn eq(&self, other: &ElementalAffliction) -> (r: bool) {
        let r = self.fire == other.fire && self.water == other.water && self.earth == other.earth
            && self.air == other.air;
        proof {
            if r {
                assert(self@ =~= other@);
            } else if self@ == other@ {
                self.lemma_view_injective(other);
            }
        }
        r
    }
}

impl PartialEqSpecImpl for ElementalAffliction {
    open spec fn obeys_eq_spec() -> bool {
        true
    }

    open spec fn eq_spec(&self, other: &ElementalAffliction) -> bool {
        self@ == other@
    }
}

impl<'a, 'b> core::ops::Add<&'b ElementalAffliction> for &'a ElementalAffliction {
    type Output = ElementalAffliction;

    fn add(self, other: &'b ElementalAffliction) -> (r: ElementalAffliction) {
        let mut result = *self;
        result.add_all(other);
        result
    }
}

impl<'a, 'b> AddSpecImpl<&'b ElementalAffliction> for &'a ElementalAffliction {
    open spec fn obeys_add_spec() -> bool {
        true
    }

    open spec fn add_req(self, other: &'b ElementalAffliction) -> bool {
        true
    }

    open spec fn add_spec(self, other: &'b ElementalAffliction) -> ElementalAffliction {
        sum_of(*self, *other)
    }
}

impl<'a, 'b> core::ops::Sub<&'b ElementalAffliction> for &'a ElementalAffliction {
    type Output = ElementalAffliction;

    fn sub(self, other: &'b ElementalAffliction) -> (r: ElementalAffliction) {
        let mut result = *self;
        result.subtract(other);
        result
    }
}

impl<'a, 'b> SubSpecImpl<&'b ElementalAffliction> for &'a ElementalAffliction {
    open spec fn obeys_sub_spec() -> bool {
        true
    }

    open spec fn sub_req(self, other: &'b ElementalAffliction) -> bool {
        true
    }

    open spec fn sub_spec(self, other: &'b ElementalAffliction) -> ElementalAffliction {
        difference_of(*self, *other)
    }
}

/// The affliction whose table is the sum of the two tables.
pub closed spec fn sum_of(a: ElementalAffliction, b: ElementalAffliction) -> ElementalAffliction {
    ElementalAffliction {
        fire: sum_slot(a.fire, b.fire),
        water: sum_slot(a.water, b.water),
        earth: sum_slot(a.earth, b.earth),
        air: sum_slot(a.air, b.air),
    }
}

/// The affliction whose table is the first table reduced by the second.
pub closed spec fn difference_of(a: ElementalAffliction, b: ElementalAffliction) -> ElementalAffliction {
    ElementalAffliction {
        fire: diff_slot(a.fire, b.fire),
        water: diff_slot(a.water, b.water),
        earth: diff_slot(a.earth, b.earth),
        air: diff_slot(a.air, b.air),
    }
}

spec fn sum_slot(a: Option<u32>, b: Option<u32>) -> Option<u32> {
    match b {
        Some(y) => Some(
            clamped_sum(
                match a {
                    Some(x) => x as nat,
                    None => 0,
                },
                y as nat,
            ) as u32,
        ),
        None => a,
    }
}

spec fn diff_slot(a: Option<u32>, b: Option<u32>) -> Option<u32> {
    match (a, b) {
        (Some(x), Some(y)) => Some(clamped_diff(x as nat, y as nat) as u32),
        _ => a,
    }
}

/// What `+` yields: the table of the sum is the combination of the tables.
pub proof fn lemma_sum_of_view(a: ElementalAffliction, b: ElementalAffliction)
    ensures
        sum_of(a, b)@ == combined(a@, b@),
{
    assert(sum_of(a, b)@ =~= combined(a@, b@));
}

/// What `-` yields: the table of the difference is the first table reduced by
/// the second.
pub proof fn lemma_difference_of_view(a: ElementalAffliction, b: ElementalAffliction)
    ensures
        difference_of(a, b)@ == reduced(a@, b@),
{
    assert(difference_of(a, b)@ =~= reduced(a@, b@));
}

/// Adding and then taking away the same affliction, `(a + b) - b`, gives
/// back the first amount of every element where the sum did not hit the
/// `u32` ceiling. Where it did, the result is the ceiling less what was
/// taken away: below the first amount, and never below zero.
pub proof fn lemma_add_then_subtract(a: ElementalAffliction, b: ElementalAffliction, e: Element)
    ensures
        amount_of(a@, e) + amount_of(b@, e) <= u32::MAX ==> amount_of(
            difference_of(sum_of(a, b), b)@,
            e,
        ) == amount_of(a@, e),
        amount_of(a@, e) + amount_of(b@, e) > u32::MAX ==> amount_of(
            difference_of(sum_of(a, b), b)@,
            e,
        ) == u32::MAX - amount_of(b@, e),
        0 <= amount_of(difference_of(sum_of(a, b), b)@, e) <= amount_of(a@, e),
{
    a.lemma_bounded();
    b.lemma_bounded();
    lemma_sum_of_view(a, b);
    lemma_difference_of_view(sum_of(a, b), b);
    if a@.dom().contains(e) {
        assert(a@[e] <= u32::MAX);
    }
    if b@.dom().contains(e) {
        assert(b@[e] <= u32::MAX);
    }
}

/// Taking away never leaves less than nothing, and never more than there
/// was.
pub proof fn lemma_subtract_is_clamped(a: ElementalAffliction, b: ElementalAffliction, e: Element)
    ensures
        0 <= amount_of(difference_of(a, b)@, e) <= amount_of(a@, e),
        amount_of(difference_of(a, b)@, e) == clamped_diff(amount_of(a@, e), amount_of(b@, e)),
{
    lemma_difference_of_view(a, b);
}

/// Every affliction contains the empty one.
pub proof fn lemma_contains_empty(a: Map<Element, nat>)
    ensures
        covers(a, Map::<Element, nat>::empty()),
{
}

/// An affliction does not contain another that asks more of some element
/// than it holds.
pub proof fn lemma_contains_fails_on_excess(a: Map<Element, nat>, b: Map<Element, nat>, e: Element)
    requires
        b.dom().contains(e),
        b[e] > amount_of(a, e),
    ensures
        !covers(a, b),
{
}

} // verus!
