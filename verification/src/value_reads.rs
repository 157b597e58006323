//! Reading many values at once: which reads a batch of values starts with, and what is known once they
//! are answered.

use crate::jdwp::{RuntimeValue, ValueData};
use std::collections::HashMap;
use vstd::prelude::*;

verus! {

/// The tag of a reference to a string.
pub const TAG_STRING: u8 = 115;

/// The read that showing a value starts with.
#[derive(Debug, Clone, Copy, PartialEq, Eq, Structural)]
pub enum FirstRead {
    StringContents(u64),
    ReferenceType(u64),
}

/// The reads to send for a batch of values.
#[derive(Debug)]
pub struct ReadPlan {
    /// The strings whose contents are read.
    pub string_ids: Vec<u64>,
    /// The objects whose types are read.
    pub object_ids: Vec<u64>,
}

/// What is known of objects. An answer that failed is known as a failure, and is not asked again.
#[derive(Debug)]
pub struct ValueReads {
    pub strings: HashMap<u64, Option<String>>,
    pub types: HashMap<u64, Option<u64>>,
    pub boxed: HashMap<u64, Option<RuntimeValue>>,
}

/// The read that showing a value starts with. A null reference and a primitive need none.
pub open spec fn starts_with(value: RuntimeValue) -> Option<FirstRead> {
    match value.data {
        ValueData::Object(id) => if id == 0 {
            None
        } else if value.tag == TAG_STRING {
            Some(FirstRead::StringContents(id))
        } else {
            Some(FirstRead::ReferenceType(id))
        },
        _ => None,
    }
}

/// The strings and the objects to read for a batch of values: the first read of each, in the order of
/// the values, and none of an object that is read already.
pub open spec fn planned(values: Seq<&RuntimeValue>) -> (Seq<u64>, Seq<u64>)
    decreases values.len(),
{
    if values.len() == 0 {
        (Seq::empty(), Seq::empty())
    } else {
        let (strings, objects) = planned(values.drop_last());
        match starts_with(*values.last()) {
            Some(FirstRead::StringContents(id)) => if strings.contains(id) || objects.contains(id) {
                (strings, objects)
            } else {
                (strings.push(id), objects)
            },
            Some(FirstRead::ReferenceType(id)) => if strings.contains(id) || objects.contains(id) {
                (strings, objects)
            } else {
                (strings, objects.push(id))
            },
            None => (strings, objects),
        }
    }
}

/// `map` with each of `ids` bound to the answer at its place, as far as there are answers.
pub open spec fn answered<T>(map: Map<u64, Option<T>>, ids: Seq<u64>, answers: Seq<Option<T>>, n: nat) -> Map<
    u64,
    Option<T>,
>
    decreases n,
{
    if n == 0 {
        map
    } else {
        answered(map, ids, answers, (n - 1) as nat).insert(ids[n - 1], answers[n - 1])
    }
}

/// What is known of an object.
pub open spec fn known<T>(map: Map<u64, Option<T>>, id: u64) -> Option<Option<T>> {
    if map.dom().contains(id) {
        Some(map[id])
    } else {
        None
    }
}

/// The first of the values that a read gave.
pub open spec fn first_of(answer: Option<Vec<RuntimeValue>>) -> Option<RuntimeValue> {
    match answer {
        Some(values) => if values@.len() == 0 {
            None
        } else {
            Some(values@[0])
        },
        None => None,
    }
}

/// The objects that reads are of.
pub open spec fn objects_of(reads: Seq<(u64, Vec<u64>)>) -> Seq<u64> {
    Seq::new(reads.len(), |i: int| reads[i].0)
}

/// What the answers to reads of boxes say.
pub open spec fn values_of(answers: Seq<Option<Vec<RuntimeValue>>>) -> Seq<Option<RuntimeValue>> {
    Seq::new(answers.len(), |i: int| first_of(answers[i]))
}

pub open spec fn shorter(a: nat, b: nat) -> nat {
    if a < b {
        a
    } else {
        b
    }
}

fn contains_id(ids: &Vec<u64>, id: u64) -> (r: bool)
    ensures
        r == ids@.contains(id),
{
    let mut i: usize = 0;
    while i < ids.len()
        invariant
            i <= ids@.len(),
            forall|k: int| 0 <= k < i ==> ids@[k] != id,
        decreases ids@.len() - i,
    {
        if ids[i] == id {
            return true;
        }
        i += 1;
    }
    false
}

impl ValueReads {
    /// Nothing is known.
    pub fn none() -> (r: Self)
        ensures
            r.strings@ == Map::<u64, Option<String>>::empty(),
            r.types@ == Map::<u64, Option<u64>>::empty(),
            r.boxed@ == Map::<u64, Option<RuntimeValue>>::empty(),
    {
        ValueReads { strings: HashMap::new(), types: HashMap::new(), boxed: HashMap::new() }
    }

    /// The read that showing a value starts with.
    pub fn first_read(value: &RuntimeValue) -> (r: Option<FirstRead>)
        ensures
            r == starts_with(*value),
    {
        match value.data {
            ValueData::Object(id) => if id == 0 {
                None
            } else if value.tag == TAG_STRING {
                Some(FirstRead::StringContents(id))
            } else {
                Some(FirstRead::ReferenceType(id))
            },
            _ => None,
        }
    }

    /// The reads to send for a batch of values.
    pub fn plan(values: &[&RuntimeValue]) -> (r: ReadPlan)
        ensures
            (r.string_ids@, r.object_ids@) == planned(values@),
    {
        let mut string_ids: Vec<u64> = Vec::new();
        let mut object_ids: Vec<u64> = Vec::new();
        let mut i: usize = 0;
        assert(values@.take(0) =~= Seq::empty());
        while i < values.len()
            invariant
                i <= values@.len(),
                (string_ids@, object_ids@) == planned(values@.take(i as int)),
            decreases values@.len() - i,
        {
            assert(values@.take(i + 1).drop_last() =~= values@.take(i as int));
            match Self::first_read(values[i]) {
                Some(FirstRead::StringContents(id)) => if !contains_id(&string_ids, id)
                    && !contains_id(&object_ids, id) {
                    string_ids.push(id);
                },
                Some(FirstRead::ReferenceType(id)) => if !contains_id(&string_ids, id)
                    && !contains_id(&object_ids, id) {
                    object_ids.push(id);
                },
                None => {},
            }
            i += 1;
        }
        assert(values@.take(i as int) =~= values@);
        ReadPlan { string_ids, object_ids }
    }

    /// What is known once the reads of a plan are answered, `None` for one that failed.
    pub fn committed(plan: &ReadPlan, strings: Vec<Option<String>>, types: Vec<Option<u64>>) -> (r:
        Self)
        ensures
            r.strings@ == answered(
                Map::<u64, Option<String>>::empty(),
                plan.string_ids@,
                strings@,
                shorter(plan.string_ids@.len(), strings@.len()),
            ),
            r.types@ == answered(
                Map::<u64, Option<u64>>::empty(),
                plan.object_ids@,
                types@,
                shorter(plan.object_ids@.len(), types@.len()),
            ),
            r.boxed@ == Map::<u64, Option<RuntimeValue>>::empty(),
    {
        broadcast use vstd::std_specs::hash::group_hash_axioms;

        let mut r = ValueReads::none();
        let ghost none_s = r.strings@;
        let ghost all_s = strings@;
        let mut i: usize = 0;
        for answer in it: strings.into_iter()
            invariant
                it.seq() == all_s,
                i == shorter(plan.string_ids@.len(), it.index() as nat),
                r.strings@ == answered(none_s, plan.string_ids@, all_s, i as nat),
                r.types@ == Map::<u64, Option<u64>>::empty(),
                r.boxed@ == Map::<u64, Option<RuntimeValue>>::empty(),
        {
            if i < plan.string_ids.len() {
                let _ = r.strings.insert(plan.string_ids[i], answer);
                i += 1;
            }
        }
        let ghost none_t = r.types@;
        let ghost all_t = types@;
        let mut j: usize = 0;
        while j < plan.object_ids.len() && j < types.len()
            invariant
                j <= plan.object_ids@.len(),
                j <= types@.len(),
                all_t == types@,
                r.strings@ == answered(
                    none_s,
                    plan.string_ids@,
                    all_s,
                    shorter(plan.string_ids@.len(), all_s.len()),
                ),
                r.types@ == answered(none_t, plan.object_ids@, all_t, j as nat),
                r.boxed@ == Map::<u64, Option<RuntimeValue>>::empty(),
            decreases types@.len() - j,
        {
            let _ = r.types.insert(plan.object_ids[j], types[j]);
            j += 1;
        }
        r
    }

    /// The contents of a string, as far as they were read: `Some(None)` for a read that failed, and `None`
    /// for a string that has yet to be read.
    pub fn string_contents(&self, id: u64) -> (r: Option<Option<String>>)
        ensures
            r == known(self.strings@, id),
    {
        broadcast use vstd::std_specs::hash::group_hash_axioms;

        match self.strings.get(&id) {
            Some(Some(contents)) => Some(Some(contents.clone())),
            Some(None) => Some(None),
            None => None,
        }
    }

    /// The type of an object, as far as it was read: `Some(None)` for a read that failed, and `None` for
    /// an object that has yet to be asked.
    pub fn reference_type(&self, id: u64) -> (r: Option<Option<u64>>)
        ensures
            r == known(self.types@, id),
    {
        broadcast use vstd::std_specs::hash::group_hash_axioms;

        match self.types.get(&id) {
            Some(answer) => Some(*answer),
            None => None,
        }
    }

    /// The type that is known of an object. Nothing is asked.
    pub fn known_type(&self, id: u64) -> (r: Option<u64>)
        ensures
            r == (match known(self.types@, id) {
                Some(answer) => answer,
                None => None,
            }),
    {
        match self.reference_type(id) {
            Some(answer) => answer,
            None => None,
        }
    }

    /// The value in a box, as far as it was read: `Some(None)` for a read that failed, and `None` for a
    /// box that has yet to be read.
    pub fn boxed_value(&self, id: u64) -> (r: Option<Option<RuntimeValue>>)
        ensures
            r == known(self.boxed@, id),
    {
        broadcast use vstd::std_specs::hash::group_hash_axioms;

        match self.boxed.get(&id) {
            Some(answer) => Some(*answer),
            None => None,
        }
    }

    /// What the answer to the read of a box says: the first of its values, and nothing where the read
    /// failed or gave none.
    pub fn unboxed(answer: &Option<Vec<RuntimeValue>>) -> (r: Option<RuntimeValue>)
        ensures
            r == first_of(*answer),
    {
        match answer {
            Some(values) => if values.len() == 0 {
                None
            } else {
                Some(values[0])
            },
            None => None,
        }
    }

    /// Takes in the answers to the reads of boxes. Each read names an object and the fields that were
    /// asked of it.
    pub fn committed_boxed(
        &mut self,
        reads: &[(u64, Vec<u64>)],
        answers: &[Option<Vec<RuntimeValue>>],
    )
        ensures
            final(self).strings@ == old(self).strings@,
            final(self).types@ == old(self).types@,
            final(self).boxed@ == answered(
                old(self).boxed@,
                objects_of(reads@),
                values_of(answers@),
                shorter(reads@.len(), answers@.len()),
            ),
    {
        broadcast use vstd::std_specs::hash::group_hash_axioms;

        let mut i: usize = 0;
        while i < reads.len() && i < answers.len()
            invariant
                i <= reads@.len(),
                i <= answers@.len(),
                self.strings@ == old(self).strings@,
                self.types@ == old(self).types@,
                self.boxed@ == answered(
                    old(self).boxed@,
                    objects_of(reads@),
                    values_of(answers@),
                    i as nat,
                ),
            decreases reads@.len() - i,
        {
            let _ = self.boxed.insert(reads[i].0, Self::unboxed(&answers[i]));
            i += 1;
        }
    }
}

/// The ids of the strings and of the objects that are read for a batch.
pub open spec fn planned_ids(values: Seq<&RuntimeValue>) -> Seq<u64> {
    let (strings, objects) = planned(values);
    strings + objects
}

/// The object a value starts by reading.
pub open spec fn read_by(value: RuntimeValue) -> Option<u64> {
    match starts_with(value) {
        Some(FirstRead::StringContents(id)) => Some(id),
        Some(FirstRead::ReferenceType(id)) => Some(id),
        None => None,
    }
}

/// No object is read twice for a batch.
pub proof fn no_object_is_read_twice(values: Seq<&RuntimeValue>)
    ensures
        planned_ids(values).no_duplicates(),
        planned(values).0.no_duplicates(),
        planned(values).1.no_duplicates(),
    decreases values.len(),
{
    if values.len() > 0 {
        no_object_is_read_twice(values.drop_last());
        let (strings, objects) = planned(values.drop_last());
        let (s, o) = planned(values);
        assert forall|id: u64| strings.contains(id) || objects.contains(id) implies (strings
            + objects).contains(id) by {
            if strings.contains(id) {
                let k = strings.index_of(id);
                assert((strings + objects)[k] == id);
            } else {
                let k = objects.index_of(id);
                assert((strings + objects)[strings.len() + k] == id);
            }
        }
        assert forall|i: int, j: int| 0 <= i < j < (s + o).len() implies (s + o)[i] != (s + o)[j] by {
            if s.len() > strings.len() {
                if j == strings.len() {
                    assert(strings.contains(strings[i]));
                } else if i == strings.len() {
                    assert(objects.contains(objects[j - s.len()]));
                } else {
                    let a = if i < strings.len() {
                        i
                    } else {
                        i - 1
                    };
                    let b = if j < strings.len() {
                        j
                    } else {
                        j - 1
                    };
                    assert((strings + objects)[a] == (s + o)[i]);
                    assert((strings + objects)[b] == (s + o)[j]);
                }
            } else if o.len() > objects.len() {
                if j == s.len() + objects.len() {
                    if i < s.len() {
                        assert(strings.contains(strings[i]));
                    } else {
                        assert(objects.contains(objects[i - s.len()]));
                    }
                } else {
                    assert((strings + objects)[i] == (s + o)[i]);
                    assert((strings + objects)[j] == (s + o)[j]);
                }
            }
        }
        assert forall|i: int, j: int| 0 <= i < j < s.len() implies s[i] != s[j] by {
            assert((s + o)[i] == s[i]);
            assert((s + o)[j] == s[j]);
        }
        assert forall|i: int, j: int| 0 <= i < j < o.len() implies o[i] != o[j] by {
            assert((s + o)[s.len() + i] == o[i]);
            assert((s + o)[s.len() + j] == o[j]);
        }
    }
}

/// An object is read for a batch exactly where showing one of the values starts by reading it.
pub proof fn a_batch_reads_what_its_values_start_with(values: Seq<&RuntimeValue>, id: u64)
    ensures
        planned_ids(values).contains(id) <==> exists|i: int|
            0 <= i < values.len() && read_by(*#[trigger] values[i]) == Some(id),
    decreases values.len(),
{
    let (s, o) = planned(values);
    if values.len() == 0 {
        assert(s + o =~= Seq::empty());
    } else {
        let rest = values.drop_last();
        a_batch_reads_what_its_values_start_with(rest, id);
        let (strings, objects) = planned(rest);
        in_either(strings, objects, id);
        in_either(s, o, id);
        if s.len() > strings.len() {
            pushed(strings, s.last(), id);
        }
        if o.len() > objects.len() {
            pushed(objects, o.last(), id);
        }
        if planned_ids(values).contains(id) {
            if planned_ids(rest).contains(id) {
                let i = choose|i: int|
                    0 <= i < rest.len() && read_by(*#[trigger] rest[i]) == Some(id);
                assert(values[i] == rest[i]);
            } else {
                assert(read_by(*values[values.len() - 1]) == Some(id));
            }
        }
        if exists|i: int| 0 <= i < values.len() && read_by(*#[trigger] values[i]) == Some(id) {
            let i = choose|i: int|
                0 <= i < values.len() && read_by(*#[trigger] values[i]) == Some(id);
            if i < rest.len() {
                assert(read_by(*rest[i]) == Some(id));
            }
        }
    }
}

proof fn in_either(a: Seq<u64>, b: Seq<u64>, id: u64)
    ensures
        (a + b).contains(id) <==> a.contains(id) || b.contains(id),
{
    if a.contains(id) {
        assert((a + b)[a.index_of(id)] == id);
    } else if b.contains(id) {
        assert((a + b)[a.len() + b.index_of(id)] == id);
    }
}

proof fn pushed(a: Seq<u64>, x: u64, id: u64)
    ensures
        a.push(x).contains(id) <==> a.contains(id) || id == x,
{
    if a.contains(id) {
        assert(a.push(x)[a.index_of(id)] == id);
    }
    if id == x {
        assert(a.push(x)[a.len() as int] == id);
    }
}

/// A batch never takes more reads than its values take one after another.
pub proof fn a_batch_costs_no_more_reads(values: Seq<&RuntimeValue>)
    ensures
        planned_ids(values).len() <= values.len(),
    decreases values.len(),
{
    if values.len() > 0 {
        a_batch_costs_no_more_reads(values.drop_last());
    }
}

/// Once the reads of distinct objects are answered, each is known by its own answer, a failed one too:
/// none is asked again.
pub proof fn a_failure_is_an_answer<T>(ids: Seq<u64>, answers: Seq<Option<T>>, n: nat, i: int)
    requires
        ids.no_duplicates(),
        n <= ids.len(),
        n <= answers.len(),
        0 <= i < n,
    ensures
        known(answered(Map::<u64, Option<T>>::empty(), ids, answers, n), ids[i]) == Some(answers[i]),
    decreases n,
{
    if i < n - 1 {
        a_failure_is_an_answer(ids, answers, (n - 1) as nat, i);
    }
}

/// Only an object that is there has to be read: a string for its contents, and any other for its type. A
/// null reference and a primitive need no read.
pub proof fn only_an_object_has_to_be_read(value: RuntimeValue)
    ensures
        starts_with(value) is Some <==> value.data is Object && value.data->Object_0 != 0,
        value.data matches ValueData::Object(id) ==> id != 0 ==> starts_with(value) == Some(
            if value.tag == 115 {
                FirstRead::StringContents(id)
            } else {
                FirstRead::ReferenceType(id)
            },
        ),
{
}

/// One more value of a batch adds at most its own read, to the end of the reads of its sort.
pub proof fn one_more_value_adds_its_own_read(values: Seq<&RuntimeValue>, value: &RuntimeValue)
    ensures
        ({
            let (strings, objects) = planned(values);
            let (more_strings, more_objects) = planned(values.push(value));
            match starts_with(*value) {
                Some(FirstRead::StringContents(id)) => more_objects == objects && (
                if planned_ids(values).contains(id) {
                    more_strings == strings
                } else {
                    more_strings == strings.push(id)
                }),
                Some(FirstRead::ReferenceType(id)) => more_strings == strings && (
                if planned_ids(values).contains(id) {
                    more_objects == objects
                } else {
                    more_objects == objects.push(id)
                }),
                None => more_strings == strings && more_objects == objects,
            }
        }),
{
    let (strings, objects) = planned(values);
    assert(values.push(value).drop_last() =~= values);
    assert forall|id: u64| (strings + objects).contains(id) <==> strings.contains(id)
        || objects.contains(id) by {
        let all = strings + objects;
        if all.contains(id) {
            let k = choose|k: int| 0 <= k < all.len() && all[k] == id;
            if k < strings.len() {
                assert(strings[k] == id);
            } else {
                assert(objects[k - strings.len()] == id);
            }
        }
        if strings.contains(id) {
            let k = choose|k: int| 0 <= k < strings.len() && strings[k] == id;
            assert(all[k] == id);
        }
        if objects.contains(id) {
            let k = choose|k: int| 0 <= k < objects.len() && objects[k] == id;
            assert(all[strings.len() + k] == id);
        }
    }
}

/// Each id is bound to the answer at its own place; where an id occurs again the later answer counts, and an
/// id that was not asked for stays as it was.
pub proof fn an_answer_is_bound_to_its_own_id<T>(
    map: Map<u64, Option<T>>,
    ids: Seq<u64>,
    answers: Seq<Option<T>>,
    n: nat,
    i: int,
    other: u64,
)
    requires
        0 <= i < n <= ids.len(),
        n <= answers.len(),
        forall|k: int| i < k < n ==> #[trigger] ids[k] != ids[i],
        forall|k: int| 0 <= k < n ==> #[trigger] ids[k] != other,
    ensures
        known(answered(map, ids, answers, n), ids[i]) == Some(answers[i]),
        known(answered(map, ids, answers, n), other) == known(map, other),
    decreases n,
{
    let m = (n - 1) as nat;
    assert(ids[m as int] != other);
    if i < m {
        assert(ids[m as int] != ids[i]);
        an_answer_is_bound_to_its_own_id(map, ids, answers, m, i, other);
    } else {
        others_stay(map, ids, answers, m, other);
    }
}

proof fn others_stay<T>(
    map: Map<u64, Option<T>>,
    ids: Seq<u64>,
    answers: Seq<Option<T>>,
    n: nat,
    other: u64,
)
    requires
        n <= ids.len(),
        forall|k: int| 0 <= k < n ==> #[trigger] ids[k] != other,
    ensures
        known(answered(map, ids, answers, n), other) == known(map, other),
    decreases n,
{
    if n > 0 {
        assert(ids[n - 1] != other);
        others_stay(map, ids, answers, (n - 1) as nat, other);
    }
}

/// What a read of a box gave is the first of its values, where it gave any.
pub proof fn a_box_holds_its_first_value(values: Vec<RuntimeValue>)
    ensures
        first_of(None) is None,
        values@.len() == 0 ==> first_of(Some(values)) is None,
        values@.len() > 0 ==> first_of(Some(values)) == Some(values@[0]),
{
}

} // verus!
