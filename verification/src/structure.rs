//! The intervallic structure of a chord: which degrees sound, and how each
//! is altered.

use vstd::prelude::*;
use crate::pitch_class::{ChordComponent, PitchClass, PitchOffset, PITCH_CLASS_COUNT};

verus! {

/// The degrees of a chord with their alterations, relative to a root that
/// the structure does not hold.
///
/// The model of a structure is the map from each degree that is present to
/// its alteration.
#[derive(Debug)]
pub struct ChordStructure([Option<PitchOffset>; 10]);

impl View for ChordStructure {
    type V = Map<PitchClass, PitchOffset>;

    closed spec fn view(&self) -> Map<PitchClass, PitchOffset> {
        degrees_of(self.0)
    }
}

/// What a table of ten slots holds: each degree whose slot is filled, with
/// the alteration found there.
spec fn degrees_of(table: [Option<PitchOffset>; 10]) -> Map<PitchClass, PitchOffset> {
    Map::new(
        |class: PitchClass| table[class.slot()] is Some,
        |class: PitchClass| table[class.slot()]->0,
    )
}

/// The degree of a slot is held exactly when the slot is filled, and then
/// with the alteration found in the slot.
proof fn lemma_slot_in_degrees(table: [Option<PitchOffset>; 10], i: int)
    requires
        0 <= i < 10,
    ensures
        degrees_of(table).contains_key(PitchClass::at(i)) == (table[i] is Some),
        table[i] is Some ==> degrees_of(table)[PitchClass::at(i)] == table[i]->0,
{
    assert(PitchClass::at(i).slot() == i);
}

/// The degrees of `base` overwritten by one component.
pub open spec fn with_component(
    base: Map<PitchClass, PitchOffset>,
    component: ChordComponent,
) -> Map<PitchClass, PitchOffset> {
    base.insert(component.0, component.1)
}

/// The degrees of `base` overwritten by each component in turn, so that of
/// two components for one degree the later one stays.
pub open spec fn with_components(
    base: Map<PitchClass, PitchOffset>,
    components: Seq<ChordComponent>,
) -> Map<PitchClass, PitchOffset> {
    components.fold_left(
        base,
        |acc: Map<PitchClass, PitchOffset>, c: ChordComponent| with_component(acc, c),
    )
}

/// The degrees of `base` overwritten by every degree of `other`; a degree
/// that `other` lacks keeps what `base` had for it.
pub open spec fn merged(
    base: Map<PitchClass, PitchOffset>,
    other: Map<PitchClass, PitchOffset>,
) -> Map<PitchClass, PitchOffset> {
    base.union_prefer_right(other)
}

impl ChordStructure {
    /// The structure of a bare root: the unison, unaltered, and no other
    /// degree.
    pub fn new() -> (r: ChordStructure)
        ensures
            r@ == Map::<PitchClass, PitchOffset>::empty().insert(PitchClass::N1, 0i8),
            r@.contains_key(PitchClass::N1),
            r@[PitchClass::N1] == 0,
            forall|class: PitchClass| class != PitchClass::N1 ==> !r@.contains_key(class),
    {
        let mut classes: [Option<PitchOffset>; 10] = [None; 10];
        classes[PitchClass::N1.index()] = Some(0);
        let r = ChordStructure(classes);
        assert(r@ =~= Map::<PitchClass, PitchOffset>::empty().insert(PitchClass::N1, 0i8));
        r
    }

    /// The structure that holds one component and nothing else, not even
    /// the unison.
    pub fn from_component(component: ChordComponent) -> (r: ChordStructure)
        ensures
            r@ == Map::<PitchClass, PitchOffset>::empty().insert(component.0, component.1),
    {
        let mut classes: [Option<PitchOffset>; 10] = [None; 10];
        classes[component.0.index()] = Some(component.1);
        let r = ChordStructure(classes);
        assert(r@ =~= Map::<PitchClass, PitchOffset>::empty().insert(component.0, component.1));
        r
    }

    /// The alteration of a degree, if the degree is present.
    pub fn get(&self, class: PitchClass) -> (r: Option<PitchOffset>)
        ensures
            r == (if self@.contains_key(class) {
                Some(self@[class])
            } else {
                None
            }),
    {
        self.0[class.index()]
    }

    /// This structure with one component written over the degree it names,
    /// whether the degree was present or not.
    pub fn insert(self, component: ChordComponent) -> (r: ChordStructure)
        ensures
            r@ == with_component(self@, component),
            self@.dom().subset_of(r@.dom()),
    {
        let mut classes = self.0;
        classes[component.0.index()] = Some(component.1);
        let r = ChordStructure(classes);
        assert(r@ =~= with_component(self@, component));
        r
    }

    /// This structure with each component of the list written over the
    /// degree it names, in the order of the list.
    pub fn insert_many(self, components: &[ChordComponent]) -> (r: ChordStructure)
        ensures
            r@ == with_components(self@, components@),
            self@.dom().subset_of(r@.dom()),
    {
        let mut classes = self.0;
        let mut i: usize = 0;
        assert(components@.take(0) =~= Seq::empty());
        while i < components.len()
            invariant
                0 <= i <= components.len(),
                degrees_of(classes) == with_components(self@, components@.take(i as int)),
                self@.dom().subset_of(degrees_of(classes).dom()),
            decreases components.len() - i,
        {
            let component = components[i];
            let ghost before = degrees_of(classes);
            classes[component.0.index()] = Some(component.1);
            proof {
                let next = components@.take(i + 1);
                assert(next.drop_last() =~= components@.take(i as int));
                assert(next.last() == component);
                assert(degrees_of(classes) =~= with_component(before, component));
            }
            i = i + 1;
        }
        assert(components@.take(i as int) =~= components@);
        ChordStructure(classes)
    }

    /// This structure with every degree that `other` holds written over its
    /// own; where both hold a degree, `other` wins.
    pub fn merge(self, other: &ChordStructure) -> (r: ChordStructure)
        ensures
            r@ == merged(self@, other@),
            self@.dom().subset_of(r@.dom()),
    {
        let mut classes = self.0;
        let mut i: usize = 0;
        while i < PITCH_CLASS_COUNT
            invariant
                0 <= i <= 10,
                forall|k: int|
                    0 <= k < i ==> #[trigger] classes[k] == (if other.0[k] is Some {
                        other.0[k]
                    } else {
                        self.0[k]
                    }),
                forall|k: int| i <= k < 10 ==> #[trigger] classes[k] == self.0[k],
            decreases 10 - i,
        {
            if other.0[i].is_some() {
                classes[i] = other.0[i];
            }
            i = i + 1;
        }
        let r = ChordStructure(classes);
        assert(r@ =~= merged(self@, other@));
        r
    }
}

impl Clone for ChordStructure {
    /// A copy of the structure.
    fn clone(&self) -> (r: ChordStructure)
        ensures
            r == *self,
    {
        ChordStructure(self.0)
    }
}

impl PartialEq for ChordStructure {
    /// Whether two structures hold the same degrees with the same
    /// alterations.
    fn eq(&self, other: &ChordStructure) -> (r: bool) {
        let mut i: usize = 0;
        while i < PITCH_CLASS_COUNT
            invariant
                0 <= i <= 10,
                forall|k: int| 0 <= k < i ==> self.0[k] == other.0[k],
            decreases 10 - i,
        {
            let same = match (self.0[i], other.0[i]) {
                (Some(x), Some(y)) => x == y,
                (None, None) => true,
                _ => false,
            };
            if !same {
                proof {
                    lemma_slot_in_degrees(self.0, i as int);
                    lemma_slot_in_degrees(other.0, i as int);
                }
                return false;
            }
            i = i + 1;
        }
        assert(self.0 =~= other.0);
        true
    }
}

impl vstd::std_specs::cmp::PartialEqSpecImpl for ChordStructure {
    open spec fn obeys_eq_spec() -> bool {
        true
    }

    open spec fn eq_spec(&self, other: &ChordStructure) -> bool {
        self@ == other@
    }
}

impl Default for ChordStructure {
    /// The empty structure: no degree is present.
    fn default() -> (r: ChordStructure)
        ensures
            r@ == Map::<PitchClass, PitchOffset>::empty(),
    {
        let r = ChordStructure([None; 10]);
        assert(r@ =~= Map::<PitchClass, PitchOffset>::empty());
        r
    }
}

/// Merging the empty structure into the merge of two structures, or into
/// any structure, changes nothing.
pub proof fn lemma_merge_empty(a: ChordStructure, b: ChordStructure, e: ChordStructure)
    requires
        e@ == Map::<PitchClass, PitchOffset>::empty(),
    ensures
        merged(merged(a@, b@), e@) == merged(a@, b@),
        merged(a@, e@) == a@,
{
    assert(merged(merged(a@, b@), e@) =~= merged(a@, b@));
    assert(merged(a@, e@) =~= a@);
}

/// A merge is biased to its right: a degree that `other` holds takes the
/// alteration of `other`, and any other degree is as it was in `base`.
pub proof fn lemma_merge_prefers_other(
    base: ChordStructure,
    other: ChordStructure,
    class: PitchClass,
)
    ensures
        merged(base@, other@).contains_key(class) <==> base@.contains_key(class)
            || other@.contains_key(class),
        other@.contains_key(class) ==> merged(base@, other@)[class] == other@[class],
        !other@.contains_key(class) && base@.contains_key(class) ==> merged(
            base@,
            other@,
        )[class] == base@[class],
{
}

/// A merge does not commute: where both structures hold a degree with
/// different alterations, the two orders of merging them differ.
pub proof fn lemma_merge_order_matters(a: ChordStructure, b: ChordStructure, class: PitchClass)
    requires
        a@.contains_key(class),
        b@.contains_key(class),
        a@[class] != b@[class],
    ensures
        merged(a@, b@) != merged(b@, a@),
{
    assert(merged(a@, b@)[class] == b@[class]);
    assert(merged(b@, a@)[class] == a@[class]);
}

/// Merging a structure that holds a single component is inserting that
/// component.
pub proof fn lemma_merge_single_is_insert(
    base: ChordStructure,
    single: ChordStructure,
    component: ChordComponent,
)
    requires
        single@ == Map::<PitchClass, PitchOffset>::empty().insert(component.0, component.1),
    ensures
        merged(base@, single@) == with_component(base@, component),
{
    assert(merged(base@, single@) =~= with_component(base@, component));
}

/// Of two components written to one degree only the second stays, whether
/// they are inserted one by one or in one list.
pub proof fn lemma_insert_overwrites(
    base: ChordStructure,
    class: PitchClass,
    first: PitchOffset,
    second: PitchOffset,
)
    ensures
        with_component(with_component(base@, (class, first)), (class, second)) == with_component(
            base@,
            (class, second),
        ),
        with_components(base@, seq![(class, first), (class, second)]) == with_component(
            base@,
            (class, second),
        ),
{
    let twice = with_component(with_component(base@, (class, first)), (class, second));
    assert(twice =~= with_component(base@, (class, second)));
    let both = seq![(class, first), (class, second)];
    let one = seq![(class, first)];
    assert(both.drop_last() =~= one);
    assert(one.drop_last() =~= Seq::<ChordComponent>::empty());
    reveal_with_fuel(Seq::fold_left, 3);
    assert(with_components(base@, both) == twice);
}

/// Whether component `i` of a list names the degree `class`.
pub open spec fn names(components: Seq<ChordComponent>, i: int, class: PitchClass) -> bool {
    0 <= i < components.len() && components[i].0 == class
}

/// A degree that a list of components names carries, after the list is
/// inserted, the alteration of the last component that names it.
pub proof fn lemma_insert_many_last_wins(
    base: ChordStructure,
    components: Seq<ChordComponent>,
    class: PitchClass,
    i: int,
)
    requires
        names(components, i, class),
        forall|j: int| i < j < components.len() ==> !names(components, j, class),
    ensures
        with_components(base@, components).contains_key(class),
        with_components(base@, components)[class] == components[i].1,
    decreases components.len(),
{
    let front = components.drop_last();
    if i < components.len() - 1 {
        assert(!names(components, components.len() - 1, class));
        assert(names(front, i, class));
        assert forall|j: int| i < j < front.len() implies !names(front, j, class) by {
            assert(!names(components, j, class));
        }
        lemma_insert_many_last_wins(base, front, class, i);
    }
}

/// A degree that no component of a list names is, after the list is
/// inserted, as it was before: present or absent, with the same alteration.
pub proof fn lemma_insert_many_keeps_others(
    base: ChordStructure,
    components: Seq<ChordComponent>,
    class: PitchClass,
)
    requires
        forall|j: int| 0 <= j < components.len() ==> !names(components, j, class),
    ensures
        with_components(base@, components).contains_key(class) == base@.contains_key(class),
        with_components(base@, components)[class] == base@[class],
    decreases components.len(),
{
    if components.len() > 0 {
        let front = components.drop_last();
        assert(!names(components, components.len() - 1, class));
        assert forall|j: int| 0 <= j < front.len() implies !names(front, j, class) by {
            assert(!names(components, j, class));
        }
        lemma_insert_many_keeps_others(base, front, class);
    }
}

/// Two structures that hold the same degrees with the same alterations are
/// the same structure.
pub proof fn lemma_degrees_determine_structure(a: ChordStructure, b: ChordStructure)
    requires
        a@ == b@,
    ensures
        a == b,
{
    assert forall|i: int| 0 <= i < 10 implies a.0[i] == b.0[i] by {
        lemma_slot_in_degrees(a.0, i);
        lemma_slot_in_degrees(b.0, i);
    }
    assert(a.0 =~= b.0);
}

} // verus!
