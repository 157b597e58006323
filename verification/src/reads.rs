//! Reading a debuggee, and a debuggee that is stated rather than run.

use crate::jdwp::{
    ClassInfo, FieldInfo, LineTable, LineTableEntry, MethodInfo, RuntimeValue, ValueData,
    VmCapabilities,
};
use crate::text;
use std::collections::HashSet;
use vstd::prelude::*;

verus! {

/// The state of a class that is loaded and ready: verified, prepared and initialized.
pub const READY: i32 = 7;

/// A class of a stated debuggee.
#[derive(Debug, Clone)]
pub struct StatedClass {
    pub signature: String,
    pub type_id: u64,
    pub methods: Vec<MethodInfo>,
    pub fields: Vec<FieldInfo>,
    pub superclass: Option<u64>,
    pub class_loader: Option<u64>,
    pub source_file: Option<String>,
    /// The lines of each method that has any, by the method's id.
    pub line_tables: Vec<(u64, Vec<LineTableEntry>)>,
    /// The code of each method that has any, by the method's id.
    pub bytecodes: Vec<(u64, Vec<u8>)>,
    pub modifiers: i32,
    pub interfaces: Vec<u64>,
    pub tag: u8,
}

impl Default for StatedClass {
    fn default() -> (r: Self)
        ensures
            r.signature@ == Seq::<char>::empty(),
            r.type_id == 0,
            r.methods@ == Seq::<MethodInfo>::empty(),
            r.fields@ == Seq::<FieldInfo>::empty(),
            r.superclass == None::<u64>,
            r.class_loader == None::<u64>,
            r.source_file == None::<String>,
            r.line_tables@ == Seq::<(u64, Vec<LineTableEntry>)>::empty(),
            r.bytecodes@ == Seq::<(u64, Vec<u8>)>::empty(),
            r.modifiers == 0,
            r.interfaces@ == Seq::<u64>::empty(),
            r.tag == 0,
    {
        StatedClass {
            signature: String::new(),
            type_id: 0,
            methods: Vec::new(),
            fields: Vec::new(),
            superclass: None,
            class_loader: None,
            source_file: None,
            line_tables: Vec::new(),
            bytecodes: Vec::new(),
            modifiers: 0,
            interfaces: Vec::new(),
            tag: 0,
        }
    }
}

/// Lines as they are kept.
pub open spec fn entries(lines: Seq<(u64, i32)>) -> Seq<LineTableEntry> {
    Seq::new(
        lines.len(),
        |i: int| LineTableEntry { line_code_index: lines[i].0, line_number: lines[i].1 },
    )
}

impl StatedClass {
    /// A class with nothing in it.
    pub fn new(signature: &str, type_id: u64) -> (r: Self)
        ensures
            r.signature@ == signature@,
            r.type_id == type_id,
            r.methods@ == Seq::<MethodInfo>::empty(),
            r.fields@ == Seq::<FieldInfo>::empty(),
            r.superclass == None::<u64>,
            r.class_loader == None::<u64>,
            r.source_file == None::<String>,
            r.line_tables@ == Seq::<(u64, Vec<LineTableEntry>)>::empty(),
            r.bytecodes@ == Seq::<(u64, Vec<u8>)>::empty(),
            r.modifiers == 0,
            r.interfaces@ == Seq::<u64>::empty(),
            r.tag == 1,
    {
        let mut class = StatedClass::default();
        class.signature = signature.to_owned();
        class.type_id = type_id;
        class.tag = 1;
        class
    }

    pub fn with_methods(self, methods: Vec<MethodInfo>) -> (r: Self)
        ensures
            r == (StatedClass { methods, ..self }),
    {
        StatedClass { methods, ..self }
    }

    pub fn with_fields(self, fields: Vec<FieldInfo>) -> (r: Self)
        ensures
            r == (StatedClass { fields, ..self }),
    {
        StatedClass { fields, ..self }
    }

    pub fn with_superclass(self, superclass: u64) -> (r: Self)
        ensures
            r == (StatedClass { superclass: Some(superclass), ..self }),
    {
        StatedClass { superclass: Some(superclass), ..self }
    }

    pub fn with_interface(self, type_id: u64) -> (r: Self)
        ensures
            r == (StatedClass { interfaces: r.interfaces, ..self }),
            r.interfaces@ == self.interfaces@.push(type_id),
    {
        let mut class = self;
        class.interfaces.push(type_id);
        class
    }

    pub fn with_modifiers(self, modifiers: i32) -> (r: Self)
        ensures
            r == (StatedClass { modifiers, ..self }),
    {
        StatedClass { modifiers, ..self }
    }

    pub fn with_bytecode(self, method_id: u64, code: &[u8]) -> (r: Self)
        ensures
            r == (StatedClass { bytecodes: r.bytecodes, ..self }),
            r.bytecodes@.len() == self.bytecodes@.len() + 1,
            r.bytecodes@.drop_last() == self.bytecodes@,
            r.bytecodes@.last().0 == method_id,
            r.bytecodes@.last().1@ == code@,
    {
        let mut class = self;
        class.bytecodes.push((method_id, copied(code)));
        assert(class.bytecodes@.drop_last() =~= self.bytecodes@);
        class
    }

    pub fn with_line_table(self, method_id: u64, lines: &[(u64, i32)]) -> (r: Self)
        ensures
            r == (StatedClass { line_tables: r.line_tables, ..self }),
            r.line_tables@.len() == self.line_tables@.len() + 1,
            r.line_tables@.drop_last() == self.line_tables@,
            r.line_tables@.last().0 == method_id,
            r.line_tables@.last().1@ == entries(lines@),
    {
        let mut table: Vec<LineTableEntry> = Vec::new();
        let mut i: usize = 0;
        while i < lines.len()
            invariant
                i <= lines@.len(),
                table@ == entries(lines@).take(i as int),
            decreases lines@.len() - i,
        {
            table.push(LineTableEntry { line_code_index: lines[i].0, line_number: lines[i].1 });
            i += 1;
        }
        assert(table@ =~= entries(lines@));
        let mut class = self;
        class.line_tables.push((method_id, table));
        assert(class.line_tables@.drop_last() =~= self.line_tables@);
        class
    }
}

/// An object of a stated debuggee.
#[derive(Debug, Clone)]
pub struct StatedObject {
    pub object_id: u64,
    pub type_id: u64,
    pub fields: Vec<(u64, ValueData)>,
}

impl Default for StatedObject {
    fn default() -> (r: Self)
        ensures
            r.object_id == 0,
            r.type_id == 0,
            r.fields@ == Seq::<(u64, ValueData)>::empty(),
    {
        StatedObject { object_id: 0, type_id: 0, fields: Vec::new() }
    }
}

impl StatedObject {
    pub fn new(object_id: u64, type_id: u64) -> (r: Self)
        ensures
            r.object_id == object_id,
            r.type_id == type_id,
            r.fields@ == Seq::<(u64, ValueData)>::empty(),
    {
        StatedObject { object_id, type_id, fields: Vec::new() }
    }

    pub fn with_field(self, field_id: u64, value: ValueData) -> (r: Self)
        ensures
            r == (StatedObject { fields: r.fields, ..self }),
            r.fields@ == self.fields@.push((field_id, value)),
    {
        let mut object = self;
        object.fields.push((field_id, value));
        object
    }
}

/// The tag that a value comes with: the letter of its type.
pub open spec fn tag(data: ValueData) -> u8 {
    match data {
        ValueData::Byte(_) => 66,
        ValueData::Char(_) => 67,
        ValueData::FloatBits(_) => 70,
        ValueData::DoubleBits(_) => 68,
        ValueData::Int(_) => 73,
        ValueData::Long(_) => 74,
        ValueData::Short(_) => 83,
        ValueData::Boolean(_) => 90,
        ValueData::Object(_) => 76,
        ValueData::Void => 86,
    }
}

/// The tag that a value comes with.
pub fn tag_of(data: &ValueData) -> (r: u8)
    ensures
        r == tag(*data),
{
    match data {
        ValueData::Byte(_) => 66,
        ValueData::Char(_) => 67,
        ValueData::FloatBits(_) => 70,
        ValueData::DoubleBits(_) => 68,
        ValueData::Int(_) => 73,
        ValueData::Long(_) => 74,
        ValueData::Short(_) => 83,
        ValueData::Boolean(_) => 90,
        ValueData::Object(_) => 76,
        ValueData::Void => 86,
    }
}

/// The first of `s` that meets `p`.
pub open spec fn first_where<T>(s: Seq<T>, p: spec_fn(T) -> bool) -> Option<T>
    decreases s.len(),
{
    if s.len() == 0 {
        None
    } else {
        match first_where(s.drop_last(), p) {
            Some(x) => Some(x),
            None => if p(s.last()) {
                Some(s.last())
            } else {
                None
            },
        }
    }
}

proof fn first_is<T>(s: Seq<T>, p: spec_fn(T) -> bool, i: int)
    requires
        0 <= i < s.len(),
        p(s[i]),
        forall|k: int| 0 <= k < i ==> !p(#[trigger] s[k]),
    ensures
        first_where(s, p) == Some(s[i]),
    decreases s.len(),
{
    if i == s.len() - 1 {
        none_is(s.drop_last(), p);
    } else {
        first_is(s.drop_last(), p, i);
    }
}

proof fn none_is<T>(s: Seq<T>, p: spec_fn(T) -> bool)
    requires
        forall|k: int| 0 <= k < s.len() ==> !p(#[trigger] s[k]),
    ensures
        first_where(s, p) == None::<T>,
    decreases s.len(),
{
    if s.len() > 0 {
        assert(!p(s[s.len() - 1]));
        assert forall|k: int| 0 <= k < s.drop_last().len() implies !p(
            #[trigger] s.drop_last()[k],
        ) by {
            assert(!p(s[k]));
        }
        none_is(s.drop_last(), p);
    }
}

pub open spec fn keyed<T>(id: u64) -> spec_fn((u64, T)) -> bool {
    |x: (u64, T)| x.0 == id
}

pub open spec fn class_with(id: u64) -> spec_fn(StatedClass) -> bool {
    |c: StatedClass| c.type_id == id
}

pub open spec fn object_with(id: u64) -> spec_fn(StatedObject) -> bool {
    |o: StatedObject| o.object_id == id
}

pub open spec fn signed(signature: Seq<char>) -> spec_fn(StatedClass) -> bool {
    |c: StatedClass| c.signature@ == signature
}

/// What a read says of a class.
pub open spec fn info(c: StatedClass) -> ClassInfo {
    ClassInfo {
        ref_type_tag: c.tag,
        type_id: c.type_id,
        signature: c.signature,
        status: READY,
    }
}

/// The values of the fields that an object has, in the order in which they are asked for.
pub open spec fn values_at(fields: Seq<(u64, ValueData)>, ids: Seq<u64>) -> Seq<RuntimeValue>
    decreases ids.len(),
{
    if ids.len() == 0 {
        Seq::empty()
    } else {
        let before = values_at(fields, ids.drop_last());
        match first_where(fields, keyed(ids.last())) {
            Some(field) => before.push(RuntimeValue { tag: tag(field.1), data: field.1 }),
            None => before,
        }
    }
}

/// The class of an id.
pub open spec fn class_of(classes: Seq<StatedClass>, id: u64) -> Option<StatedClass> {
    first_where(classes, class_with(id))
}

/// Whether `b` is an interface or the superclass that the class of `a` names.
pub open spec fn names_parent(classes: Seq<StatedClass>, a: u64, b: u64) -> bool {
    match class_of(classes, a) {
        Some(c) => c.interfaces@.contains(b) || c.superclass == Some(b),
        None => false,
    }
}

pub open spec fn link(classes: Seq<StatedClass>, path: Seq<u64>, i: int) -> bool {
    names_parent(classes, path[i], path[i + 1])
}

/// Whether each type on a path names the next one as a parent.
pub open spec fn is_lineage(classes: Seq<StatedClass>, path: Seq<u64>) -> bool {
    &&& path.len() > 0
    &&& forall|i: int| 0 <= i < path.len() - 1 ==> #[trigger] link(classes, path, i)
}

pub open spec fn has_signature(classes: Seq<StatedClass>, id: u64, wanted: Seq<char>) -> bool {
    match class_of(classes, id) {
        Some(c) => c.signature@ == wanted,
        None => false,
    }
}

/// Whether `wanted` is the type itself, or a type that is reached from it over superclasses and
/// interfaces.
pub open spec fn implements(classes: Seq<StatedClass>, type_id: u64, wanted: Seq<char>) -> bool {
    exists|path: Seq<u64>|
        #[trigger] is_lineage(classes, path) && path[0] == type_id && has_signature(
            classes,
            path.last(),
            wanted,
        )
}

fn copied<T: Copy>(from: &[T]) -> (r: Vec<T>)
    ensures
        r@ == from@,
{
    let mut to: Vec<T> = Vec::new();
    let mut i: usize = 0;
    while i < from.len()
        invariant
            i <= from@.len(),
            to@ == from@.take(i as int),
        decreases from@.len() - i,
    {
        to.push(from[i]);
        i += 1;
    }
    assert(to@ =~= from@);
    to
}

/// Where the entry of an id is.
fn find_keyed<T>(from: &Vec<(u64, T)>, id: u64) -> (r: Option<&T>)
    ensures
        match (r, first_where(from@, keyed(id))) {
            (Some(value), Some(entry)) => *value == entry.1,
            (None, None) => true,
            _ => false,
        },
{
    let mut i: usize = 0;
    while i < from.len()
        invariant
            i <= from@.len(),
            forall|k: int| 0 <= k < i ==> !keyed::<T>(id)(#[trigger] from@[k]),
        decreases from@.len() - i,
    {
        if from[i].0 == id {
            proof {
                first_is(from@, keyed(id), i as int);
            }
            return Some(&from[i].1);
        }
        i += 1;
    }
    proof {
        none_is(from@, keyed(id));
    }
    None
}

/// A debuggee that is stated: it answers of the classes and objects it holds, and counts what it is asked.
#[derive(Debug)]
pub struct StatedDebuggee {
    pub classes: Vec<StatedClass>,
    pub capabilities: VmCapabilities,
    pub objects: Vec<StatedObject>,
    /// How many reads it has answered.
    pub served: u64,
}

impl StatedDebuggee {
    /// The same debuggee, one read later.
    pub open spec fn charged(self) -> Self {
        StatedDebuggee {
            served: (if self.served == u64::MAX {
                0
            } else {
                (self.served + 1) as u64
            }),
            ..self
        }
    }

    pub open spec fn object(self, id: u64) -> Option<StatedObject> {
        first_where(self.objects@, object_with(id))
    }

    pub open spec fn class(self, id: u64) -> Option<StatedClass> {
        class_of(self.classes@, id)
    }

    /// A debuggee of the given classes that can be asked everything.
    pub fn new(classes: Vec<StatedClass>) -> (r: Self)
        ensures
            r.classes == classes,
            r.capabilities == (VmCapabilities {
                can_watch_field_modification: true,
                can_watch_field_access: true,
                can_get_bytecodes: true,
                can_get_synthetic_attribute: true,
                can_get_owned_monitor_info: true,
                can_get_current_contended_monitor: true,
                can_get_monitor_info: true,
            }),
            r.objects@ == Seq::<StatedObject>::empty(),
            r.served == 0,
    {
        StatedDebuggee {
            classes,
            capabilities: VmCapabilities {
                can_watch_field_modification: true,
                can_watch_field_access: true,
                can_get_bytecodes: true,
                can_get_synthetic_attribute: true,
                can_get_owned_monitor_info: true,
                can_get_current_contended_monitor: true,
                can_get_monitor_info: true,
            },
            objects: Vec::new(),
            served: 0,
        }
    }

    pub fn with_objects(self, objects: Vec<StatedObject>) -> (r: Self)
        ensures
            r == (StatedDebuggee { objects, ..self }),
    {
        StatedDebuggee { objects, ..self }
    }

    /// The same debuggee, which cannot be asked for code.
    pub fn without_bytecode_capability(self) -> (r: Self)
        ensures
            r == (StatedDebuggee {
                capabilities: VmCapabilities { can_get_bytecodes: false, ..self.capabilities },
                ..self
            }),
    {
        StatedDebuggee {
            capabilities: VmCapabilities { can_get_bytecodes: false, ..self.capabilities },
            ..self
        }
    }

    /// How many reads it has answered.
    pub fn reads(&self) -> (r: u64)
        ensures
            r == self.served,
    {
        self.served
    }

    fn charge(&mut self)
        ensures
            *final(self) == old(self).charged(),
    {
        self.served = self.served.wrapping_add(1);
    }

    fn by_id(&self, type_id: u64) -> (r: Option<&StatedClass>)
        ensures
            match (r, self.class(type_id)) {
                (Some(found), Some(class)) => *found == class,
                (None, None) => true,
                _ => false,
            },
    {
        let mut i: usize = 0;
        while i < self.classes.len()
            invariant
                i <= self.classes@.len(),
                forall|k: int| 0 <= k < i ==> !class_with(type_id)(#[trigger] self.classes@[k]),
            decreases self.classes@.len() - i,
        {
            if self.classes[i].type_id == type_id {
                proof {
                    first_is(self.classes@, class_with(type_id), i as int);
                }
                return Some(&self.classes[i]);
            }
            i += 1;
        }
        proof {
            none_is(self.classes@, class_with(type_id));
        }
        None
    }

    fn object_by_id(&self, object_id: u64) -> (r: Option<&StatedObject>)
        ensures
            match (r, self.object(object_id)) {
                (Some(found), Some(object)) => *found == object,
                (None, None) => true,
                _ => false,
            },
    {
        let mut i: usize = 0;
        while i < self.objects.len()
            invariant
                i <= self.objects@.len(),
                forall|k: int| 0 <= k < i ==> !object_with(object_id)(#[trigger] self.objects@[k]),
            decreases self.objects@.len() - i,
        {
            if self.objects[i].object_id == object_id {
                proof {
                    first_is(self.objects@, object_with(object_id), i as int);
                }
                return Some(&self.objects[i]);
            }
            i += 1;
        }
        proof {
            none_is(self.objects@, object_with(object_id));
        }
        None
    }
}

/// Which of the classes are still to be visited.
spec fn unseen(classes: Seq<StatedClass>, seen: Set<u64>) -> nat
    decreases classes.len(),
{
    if classes.len() == 0 {
        0
    } else {
        unseen(classes.drop_last(), seen) + if seen.contains(classes.last().type_id) {
            0nat
        } else {
            1nat
        }
    }
}

proof fn visiting_shrinks(classes: Seq<StatedClass>, seen: Set<u64>, id: u64)
    ensures
        unseen(classes, seen.insert(id)) <= unseen(classes, seen),
        !seen.contains(id) && class_of(classes, id) is Some ==> unseen(classes, seen.insert(id))
            < unseen(classes, seen),
        class_of(classes, id) is None ==> unseen(classes, seen.insert(id)) == unseen(classes, seen),
    decreases classes.len(),
{
    if classes.len() > 0 {
        visiting_shrinks(classes.drop_last(), seen, id);
    }
}

/// Whether a visited type is dealt with: it is not the wanted one, and its parents are visited or queued.
spec fn settled(
    classes: Seq<StatedClass>,
    id: u64,
    wanted: Seq<char>,
    seen: Set<u64>,
    queue: Seq<u64>,
) -> bool {
    &&& !has_signature(classes, id, wanted)
    &&& forall|p: u64| #[trigger]
        names_parent(classes, id, p) ==> seen.contains(p) || queue.contains(p)
}

spec fn reached(classes: Seq<StatedClass>, from: u64, to: u64) -> bool {
    exists|path: Seq<u64>| #[trigger]
        is_lineage(classes, path) && path[0] == from && path.last() == to
}

proof fn reached_further(classes: Seq<StatedClass>, from: u64, via: u64, to: u64)
    requires
        reached(classes, from, via),
        names_parent(classes, via, to),
    ensures
        reached(classes, from, to),
{
    let path = choose|path: Seq<u64>| #[trigger]
        is_lineage(classes, path) && path[0] == from && path.last() == via;
    let longer = path.push(to);
    assert forall|i: int| 0 <= i < longer.len() - 1 implies #[trigger] link(classes, longer, i) by {
        if i < path.len() - 1 {
            assert(link(classes, path, i));
        }
    }
    assert(is_lineage(classes, longer));
}

proof fn reached_at_once(classes: Seq<StatedClass>, from: u64)
    ensures
        reached(classes, from, from),
{
    assert(is_lineage(classes, seq![from]));
    assert(seq![from].last() == from);
}

proof fn closed_under_parents(classes: Seq<StatedClass>, seen: Set<u64>, path: Seq<u64>, n: int)
    requires
        is_lineage(classes, path),
        seen.contains(path[0]),
        forall|id: u64, p: u64|
            seen.contains(id) && #[trigger] names_parent(classes, id, p) ==> seen.contains(p),
        0 <= n < path.len(),
    ensures
        seen.contains(path[n]),
    decreases n,
{
    if n > 0 {
        closed_under_parents(classes, seen, path, n - 1);
        assert(link(classes, path, n - 1));
    }
}

impl StatedDebuggee {
    /// Whether `wanted` is reached from a type over superclasses and interfaces.
    fn walk(&self, type_id: u64, wanted: &str) -> (r: bool)
        ensures
            r == implements(self.classes@, type_id, wanted@),
    {
        broadcast use vstd::std_specs::hash::group_hash_axioms;

        let ghost classes = self.classes@;
        let mut seen: HashSet<u64> = HashSet::new();
        let mut queue: Vec<u64> = Vec::new();
        queue.push(type_id);
        proof {
            reached_at_once(classes, type_id);
            assert(queue@[0] == type_id);
        }
        while queue.len() > 0
            invariant
                classes == self.classes@,
                forall|id: u64|
                    #![trigger seen@.contains(id)]
                    #![trigger queue@.contains(id)]
                    seen@.contains(id) || queue@.contains(id) ==> reached(classes, type_id, id),
                forall|id: u64| #[trigger]
                    seen@.contains(id) ==> settled(classes, id, wanted@, seen@, queue@),
                seen@.contains(type_id) || queue@.contains(type_id),
            decreases unseen(classes, seen@), queue@.len(),
        {
            let ghost q0 = queue@;
            let ghost s0 = seen@;
            let id: u64 = match queue.pop() {
                Some(id) => id,
                None => {
                    return false;
                },
            };
            let ghost q1 = queue@;
            assert(q0 =~= q1.push(id));
            assert(q0[q0.len() - 1] == id);
            assert(q0.contains(id));
            assert forall|x: u64| q0.contains(x) implies x == id || q1.contains(x) by {
                let k = q0.index_of(x);
                if k < q1.len() {
                    assert(q1[k] == x);
                }
            }
            assert forall|x: u64| q1.contains(x) implies q0.contains(x) by {
                assert(q0[q1.index_of(x)] == x);
            }
            if seen.contains(&id) {
                assert forall|x: u64| #[trigger] s0.contains(x) implies settled(
                    classes,
                    x,
                    wanted@,
                    s0,
                    q1,
                ) by {
                    assert(settled(classes, x, wanted@, s0, q0));
                }
                continue ;
            }
            let _ = seen.insert(id);
            let ghost s1 = seen@;
            proof {
                visiting_shrinks(classes, s0, id);
                assert(s1 =~= s0.insert(id));
            }
            match self.by_id(id) {
                None => {
                    assert forall|x: u64| #[trigger] s1.contains(x) implies settled(
                        classes,
                        x,
                        wanted@,
                        s1,
                        q1,
                    ) by {
                        if x != id {
                            assert(settled(classes, x, wanted@, s0, q0));
                        }
                    }
                },
                Some(class) => {
                    if text::same(class.signature.as_str(), wanted) {
                        proof {
                            let path = choose|path: Seq<u64>| #[trigger]
                                is_lineage(classes, path) && path[0] == type_id && path.last()
                                    == id;
                            assert(has_signature(classes, path.last(), wanted@));
                        }
                        return true;
                    }
                    extend_with(&mut queue, &class.interfaces);
                    let ghost q2 = queue@;
                    if let Some(parent) = class.superclass {
                        queue.push(parent);
                    }
                    proof {
                        widened(classes, type_id, wanted@, id, s0, q0, q1, q2, queue@);
                    }
                },
            }
        }
        proof {
            assert forall|id: u64, p: u64|
                seen@.contains(id) && #[trigger] names_parent(
                    classes,
                    id,
                    p,
                ) implies seen@.contains(p) by {
                assert(settled(classes, id, wanted@, seen@, queue@));
            }
            if implements(classes, type_id, wanted@) {
                let path = choose|path: Seq<u64>| #[trigger]
                    is_lineage(classes, path) && path[0] == type_id && has_signature(
                        classes,
                        path.last(),
                        wanted@,
                    );
                closed_under_parents(classes, seen@, path, path.len() - 1);
                assert(settled(classes, path.last(), wanted@, seen@, queue@));
            }
        }
        false
    }
}

/// What holds once a type is visited and its parents are queued.
proof fn widened(
    classes: Seq<StatedClass>,
    from: u64,
    wanted: Seq<char>,
    id: u64,
    s0: Set<u64>,
    q0: Seq<u64>,
    q1: Seq<u64>,
    q2: Seq<u64>,
    q3: Seq<u64>,
)
    requires
        forall|x: u64| s0.contains(x) || q0.contains(x) ==> #[trigger] reached(classes, from, x),
        forall|x: u64| #[trigger] s0.contains(x) ==> settled(classes, x, wanted, s0, q0),
        q0 == q1.push(id),
        class_of(classes, id) is Some,
        !has_signature(classes, id, wanted),
        q2 == q1 + class_of(classes, id)->0.interfaces@,
        q3 == (match class_of(classes, id)->0.superclass {
            Some(parent) => q2.push(parent),
            None => q2,
        }),
    ensures
        forall|x: u64|
            s0.insert(id).contains(x) || q3.contains(x) ==> #[trigger] reached(classes, from, x),
        forall|x: u64| #[trigger]
            s0.insert(id).contains(x) ==> settled(classes, x, wanted, s0.insert(id), q3),
        s0.contains(from) || q0.contains(from) ==> s0.insert(id).contains(from) || q3.contains(
            from,
        ),
{
    let class = class_of(classes, id)->0;
    let s1 = s0.insert(id);
    assert(q0[q0.len() - 1] == id);
    assert(q0.contains(id));
    assert forall|x: u64| q1.contains(x) implies q0.contains(x) && q3.contains(x) by {
        let k = q1.index_of(x);
        assert(q0[k] == x);
        assert(q3[k] == x);
    }
    assert forall|x: u64| q0.contains(x) implies x == id || q1.contains(x) by {
        let k = q0.index_of(x);
        if k < q1.len() {
            assert(q1[k] == x);
        }
    }
    assert forall|x: u64| #[trigger] names_parent(classes, id, x) implies q3.contains(x) by {
        if class.interfaces@.contains(x) {
            let k = class.interfaces@.index_of(x);
            assert(q3[q1.len() + k] == x);
        } else {
            assert(q3[q3.len() - 1] == x);
        }
    }
    assert forall|x: u64| s1.contains(x) || q3.contains(x) implies #[trigger] reached(
        classes,
        from,
        x,
    ) by {
        if s0.contains(x) || q0.contains(x) {
        } else {
            let k = q3.index_of(x);
            if k < q1.len() {
                assert(q1[k] == x);
                assert(q1.contains(x));
            } else if k < q2.len() {
                assert(class.interfaces@[k - q1.len()] == x);
                assert(class.interfaces@.contains(x));
            }
            assert(names_parent(classes, id, x));
            reached_further(classes, from, id, x);
        }
    }
    assert forall|x: u64| #[trigger] s1.contains(x) implies settled(classes, x, wanted, s1, q3) by {
        if x != id {
            assert(settled(classes, x, wanted, s0, q0));
        }
    }
}

fn extend_with(to: &mut Vec<u64>, from: &Vec<u64>)
    ensures
        final(to)@ == old(to)@ + from@,
{
    let mut i: usize = 0;
    while i < from.len()
        invariant
            i <= from@.len(),
            to@ == old(to)@ + from@.take(i as int),
        decreases from@.len() - i,
    {
        to.push(from[i]);
        i += 1;
    }
    assert(from@.take(i as int) =~= from@);
}

/// Where reads are answered from.
pub enum Reads<'a> {
    Stated(&'a mut StatedDebuggee),
}

impl<'a> Reads<'a> {
    /// The debuggee as it stands.
    pub open spec fn vm(self) -> StatedDebuggee {
        match self {
            Reads::Stated(vm) => *vm,
        }
    }

    /// The loaded classes of a signature, in the order in which they are stated.
    pub fn classes_by_signature(&mut self, signature: &str) -> (r: Vec<ClassInfo>)
        ensures
            r@ == old(self).vm().classes@.filter(signed(signature@)).map_values(
                |c: StatedClass| info(c),
            ),
            final(self).vm() == old(self).vm().charged(),
            *final(final(self)->Stated_0) == *final(old(self)->Stated_0),
    {
        match self {
            Reads::Stated(vm) => {
                vm.charge();
                vm.signed_by(signature)
            },
        }
    }

    /// The signature of a type, and nothing for one that is not stated.
    pub fn get_signature(&mut self, type_id: u64) -> (r: String)
        ensures
            r@ == (match old(self).vm().class(type_id) {
                Some(class) => class.signature@,
                None => Seq::<char>::empty(),
            }),
            final(self).vm() == old(self).vm().charged(),
            *final(final(self)->Stated_0) == *final(old(self)->Stated_0),
    {
        match self {
            Reads::Stated(vm) => {
                vm.charge();
                match vm.by_id(type_id) {
                    Some(class) => class.signature.clone(),
                    None => String::new(),
                }
            },
        }
    }

    /// The methods of a type, and none for one that is not stated.
    pub fn get_methods(&mut self, type_id: u64) -> (r: Vec<MethodInfo>)
        ensures
            r@ == (match old(self).vm().class(type_id) {
                Some(class) => class.methods@,
                None => Seq::<MethodInfo>::empty(),
            }),
            final(self).vm() == old(self).vm().charged(),
            *final(final(self)->Stated_0) == *final(old(self)->Stated_0),
    {
        match self {
            Reads::Stated(vm) => {
                vm.charge();
                match vm.by_id(type_id) {
                    Some(class) => duplicate_methods(&class.methods),
                    None => Vec::new(),
                }
            },
        }
    }

    /// The fields of a type, and none for one that is not stated.
    pub fn get_fields(&mut self, type_id: u64) -> (r: Vec<FieldInfo>)
        ensures
            r@ == (match old(self).vm().class(type_id) {
                Some(class) => class.fields@,
                None => Seq::<FieldInfo>::empty(),
            }),
            final(self).vm() == old(self).vm().charged(),
            *final(final(self)->Stated_0) == *final(old(self)->Stated_0),
    {
        match self {
            Reads::Stated(vm) => {
                vm.charge();
                match vm.by_id(type_id) {
                    Some(class) => duplicate_fields(&class.fields),
                    None => Vec::new(),
                }
            },
        }
    }

    /// The superclass of a type, where it has one.
    pub fn get_superclass(&mut self, type_id: u64) -> (r: Option<u64>)
        ensures
            r == (match old(self).vm().class(type_id) {
                Some(class) => class.superclass,
                None => None,
            }),
            final(self).vm() == old(self).vm().charged(),
            *final(final(self)->Stated_0) == *final(old(self)->Stated_0),
    {
        match self {
            Reads::Stated(vm) => {
                vm.charge();
                match vm.by_id(type_id) {
                    Some(class) => class.superclass,
                    None => None,
                }
            },
        }
    }

    /// The loader of a type, where it has one.
    pub fn get_class_loader(&mut self, type_id: u64) -> (r: Option<u64>)
        ensures
            r == (match old(self).vm().class(type_id) {
                Some(class) => class.class_loader,
                None => None,
            }),
            final(self).vm() == old(self).vm().charged(),
            *final(final(self)->Stated_0) == *final(old(self)->Stated_0),
    {
        match self {
            Reads::Stated(vm) => {
                vm.charge();
                match vm.by_id(type_id) {
                    Some(class) => class.class_loader,
                    None => None,
                }
            },
        }
    }

    /// The type of an object. One that is not stated answers with its own id.
    pub fn get_object_reference_type(&mut self, object_id: u64) -> (r: u64)
        ensures
            r == (match old(self).vm().object(object_id) {
                Some(object) => object.type_id,
                None => object_id,
            }),
            final(self).vm() == old(self).vm().charged(),
            *final(final(self)->Stated_0) == *final(old(self)->Stated_0),
    {
        match self {
            Reads::Stated(vm) => {
                vm.charge();
                match vm.object_by_id(object_id) {
                    Some(object) => object.type_id,
                    None => object_id,
                }
            },
        }
    }

    /// The lines of a method, from the first code index to the last. A method without lines has an empty table.
    pub fn get_line_table(&mut self, type_id: u64, method_id: u64) -> (r: LineTable)
        ensures
            r.lines@ == lines_of(old(self).vm(), type_id, method_id),
            r.start == (if r.lines@.len() == 0 {
                0
            } else {
                r.lines@[0].line_code_index
            }),
            r.end == (if r.lines@.len() == 0 {
                0
            } else {
                r.lines@.last().line_code_index
            }),
            final(self).vm() == old(self).vm().charged(),
            *final(final(self)->Stated_0) == *final(old(self)->Stated_0),
    {
        match self {
            Reads::Stated(vm) => {
                vm.charge();
                let lines: Vec<LineTableEntry> = match vm.by_id(type_id) {
                    Some(class) => match find_keyed(&class.line_tables, method_id) {
                        Some(table) => copied(table.as_slice()),
                        None => Vec::new(),
                    },
                    None => Vec::new(),
                };
                let n: usize = lines.len();
                let start: u64 = if n == 0 {
                    0
                } else {
                    lines[0].line_code_index
                };
                let end: u64 = if n == 0 {
                    0
                } else {
                    lines[n - 1].line_code_index
                };
                LineTable { start, end, lines }
            },
        }
    }

    /// The code of a method, and none for one that states none.
    pub fn get_bytecodes(&mut self, type_id: u64, method_id: u64) -> (r: Vec<u8>)
        ensures
            r@ == code_of(old(self).vm(), type_id, method_id),
            final(self).vm() == old(self).vm().charged(),
            *final(final(self)->Stated_0) == *final(old(self)->Stated_0),
    {
        match self {
            Reads::Stated(vm) => {
                vm.charge();
                match vm.by_id(type_id) {
                    Some(class) => match find_keyed(&class.bytecodes, method_id) {
                        Some(code) => copied(code.as_slice()),
                        None => Vec::new(),
                    },
                    None => Vec::new(),
                }
            },
        }
    }

    /// The modifiers of a type.
    pub fn get_modifiers(&mut self, type_id: u64) -> (r: i32)
        ensures
            r == (match old(self).vm().class(type_id) {
                Some(class) => class.modifiers,
                None => 0,
            }),
            final(self).vm() == old(self).vm().charged(),
            *final(final(self)->Stated_0) == *final(old(self)->Stated_0),
    {
        match self {
            Reads::Stated(vm) => {
                vm.charge();
                match vm.by_id(type_id) {
                    Some(class) => class.modifiers,
                    None => 0,
                }
            },
        }
    }

    /// The interfaces that a type names.
    pub fn get_interfaces(&mut self, type_id: u64) -> (r: Vec<u64>)
        ensures
            r@ == (match old(self).vm().class(type_id) {
                Some(class) => class.interfaces@,
                None => Seq::<u64>::empty(),
            }),
            final(self).vm() == old(self).vm().charged(),
            *final(final(self)->Stated_0) == *final(old(self)->Stated_0),
    {
        match self {
            Reads::Stated(vm) => {
                vm.charge();
                match vm.by_id(type_id) {
                    Some(class) => copied(class.interfaces.as_slice()),
                    None => Vec::new(),
                }
            },
        }
    }

    /// What can be asked.
    pub fn capabilities(&mut self) -> (r: VmCapabilities)
        ensures
            r == old(self).vm().capabilities,
            final(self).vm() == old(self).vm().charged(),
            *final(final(self)->Stated_0) == *final(old(self)->Stated_0),
    {
        match self {
            Reads::Stated(vm) => {
                vm.charge();
                vm.capabilities
            },
        }
    }

    /// Whether a type is `wanted`, or has it among its superclasses and interfaces. One read, however far the walk goes.
    pub fn implements_interface(&mut self, type_id: u64, wanted: &str) -> (r: bool)
        ensures
            r == implements(old(self).vm().classes@, type_id, wanted@),
            final(self).vm() == old(self).vm().charged(),
            *final(final(self)->Stated_0) == *final(old(self)->Stated_0),
    {
        match self {
            Reads::Stated(vm) => {
                vm.charge();
                vm.walk(type_id, wanted)
            },
        }
    }

    /// The values of the fields of an object that it has, in the order asked for.
    pub fn get_object_values(&mut self, object_id: u64, field_ids: Vec<u64>) -> (r: Vec<RuntimeValue>)
        ensures
            r@ == (match old(self).vm().object(object_id) {
                Some(object) => values_at(object.fields@, field_ids@),
                None => Seq::<RuntimeValue>::empty(),
            }),
            final(self).vm() == old(self).vm().charged(),
            *final(final(self)->Stated_0) == *final(old(self)->Stated_0),
    {
        match self {
            Reads::Stated(vm) => {
                vm.charge();
                match vm.object_by_id(object_id) {
                    Some(object) => read_values(&object.fields, &field_ids),
                    None => Vec::new(),
                }
            },
        }
    }

    /// The file that a type was compiled from, and nothing for one that does not say.
    pub fn get_source_file(&mut self, type_id: u64) -> (r: String)
        ensures
            r@ == (match old(self).vm().class(type_id) {
                Some(class) => match class.source_file {
                    Some(file) => file@,
                    None => Seq::<char>::empty(),
                },
                None => Seq::<char>::empty(),
            }),
            final(self).vm() == old(self).vm().charged(),
            *final(final(self)->Stated_0) == *final(old(self)->Stated_0),
    {
        match self {
            Reads::Stated(vm) => {
                vm.charge();
                match vm.by_id(type_id) {
                    Some(class) => match &class.source_file {
                        Some(file) => file.clone(),
                        None => String::new(),
                    },
                    None => String::new(),
                }
            },
        }
    }

    /// How many reads were answered, as far as the count fits.
    pub fn packets_sent(&self) -> (r: u32)
        ensures
            r == (if self.vm().served > u32::MAX {
                u32::MAX
            } else {
                self.vm().served as u32
            }),
    {
        match self {
            Reads::Stated(vm) => {
                let served: u64 = vm.reads();
                if served > u32::MAX as u64 {
                    u32::MAX
                } else {
                    served as u32
                }
            },
        }
    }
}

/// The lines of a method.
pub open spec fn lines_of(vm: StatedDebuggee, type_id: u64, method_id: u64) -> Seq<LineTableEntry> {
    match vm.class(type_id) {
        Some(class) => match first_where(class.line_tables@, keyed(method_id)) {
            Some(table) => table.1@,
            None => Seq::empty(),
        },
        None => Seq::empty(),
    }
}

/// The code of a method.
pub open spec fn code_of(vm: StatedDebuggee, type_id: u64, method_id: u64) -> Seq<u8> {
    match vm.class(type_id) {
        Some(class) => match first_where(class.bytecodes@, keyed(method_id)) {
            Some(code) => code.1@,
            None => Seq::empty(),
        },
        None => Seq::empty(),
    }
}

fn duplicate_methods(from: &Vec<MethodInfo>) -> (r: Vec<MethodInfo>)
    ensures
        r@ == from@,
{
    let mut to: Vec<MethodInfo> = Vec::new();
    let mut i: usize = 0;
    while i < from.len()
        invariant
            i <= from@.len(),
            to@ == from@.take(i as int),
        decreases from@.len() - i,
    {
        to.push(from[i].duplicate());
        i += 1;
    }
    assert(to@ =~= from@);
    to
}

fn duplicate_fields(from: &Vec<FieldInfo>) -> (r: Vec<FieldInfo>)
    ensures
        r@ == from@,
{
    let mut to: Vec<FieldInfo> = Vec::new();
    let mut i: usize = 0;
    while i < from.len()
        invariant
            i <= from@.len(),
            to@ == from@.take(i as int),
        decreases from@.len() - i,
    {
        to.push(from[i].duplicate());
        i += 1;
    }
    assert(to@ =~= from@);
    to
}

fn read_values(fields: &Vec<(u64, ValueData)>, ids: &Vec<u64>) -> (r: Vec<RuntimeValue>)
    ensures
        r@ == values_at(fields@, ids@),
{
    let mut values: Vec<RuntimeValue> = Vec::new();
    let mut i: usize = 0;
    while i < ids.len()
        invariant
            i <= ids@.len(),
            values@ == values_at(fields@, ids@.take(i as int)),
        decreases ids@.len() - i,
    {
        assert(ids@.take(i + 1).drop_last() =~= ids@.take(i as int));
        if let Some(data) = find_keyed(fields, ids[i]) {
            values.push(RuntimeValue { tag: tag_of(data), data: *data });
        }
        i += 1;
    }
    assert(ids@.take(i as int) =~= ids@);
    values
}

impl StatedDebuggee {
    fn signed_by(&self, signature: &str) -> (r: Vec<ClassInfo>)
        ensures
            r@ == self.classes@.filter(signed(signature@)).map_values(|c: StatedClass| info(c)),
    {
        reveal(Seq::filter);
        let ghost p = signed(signature@);
        let ghost f = |c: StatedClass| info(c);
        let mut found: Vec<ClassInfo> = Vec::new();
        let mut i: usize = 0;
        while i < self.classes.len()
            invariant
                i <= self.classes@.len(),
                p == signed(signature@),
                f == (|c: StatedClass| info(c)),
                found@ == self.classes@.take(i as int).filter(p).map_values(f),
            decreases self.classes@.len() - i,
        {
            reveal(Seq::filter);
            let ghost seen = self.classes@.take(i + 1);
            assert(seen.drop_last() =~= self.classes@.take(i as int));
            if text::same(self.classes[i].signature.as_str(), signature) {
                found.push(
                    ClassInfo {
                        ref_type_tag: self.classes[i].tag,
                        type_id: self.classes[i].type_id,
                        signature: self.classes[i].signature.clone(),
                        status: READY,
                    },
                );
                assert(found@ =~= seen.filter(p).map_values(f));
            }
            i += 1;
        }
        assert(self.classes@.take(i as int) =~= self.classes@);
        found
    }
}

/// A type implements what it is.
pub proof fn a_type_implements_itself(classes: Seq<StatedClass>, type_id: u64)
    requires
        class_of(classes, type_id) is Some,
    ensures
        implements(classes, type_id, class_of(classes, type_id)->0.signature@),
{
    let path = seq![type_id];
    assert(is_lineage(classes, path));
    assert(path.last() == type_id);
}

/// A type implements whatever its superclass and its interfaces implement.
pub proof fn a_type_implements_what_its_parents_do(
    classes: Seq<StatedClass>,
    type_id: u64,
    parent: u64,
    wanted: Seq<char>,
)
    requires
        names_parent(classes, type_id, parent),
        implements(classes, parent, wanted),
    ensures
        implements(classes, type_id, wanted),
{
    let path = choose|path: Seq<u64>| #[trigger]
        is_lineage(classes, path) && path[0] == parent && has_signature(
            classes,
            path.last(),
            wanted,
        );
    let longer = seq![type_id] + path;
    assert forall|i: int| 0 <= i < longer.len() - 1 implies #[trigger] link(classes, longer, i) by {
        if i > 0 {
            assert(link(classes, path, i - 1));
        }
    }
    assert(is_lineage(classes, longer));
    assert(longer.last() == path.last());
}

/// A value comes with the letter of its type.
pub proof fn a_value_comes_with_the_letter_of_its_type(data: ValueData)
    ensures
        tag(data) == (match data {
            ValueData::Byte(_) => 'B',
            ValueData::Char(_) => 'C',
            ValueData::FloatBits(_) => 'F',
            ValueData::DoubleBits(_) => 'D',
            ValueData::Int(_) => 'I',
            ValueData::Long(_) => 'J',
            ValueData::Short(_) => 'S',
            ValueData::Boolean(_) => 'Z',
            ValueData::Object(_) => 'L',
            ValueData::Void => 'V',
        }) as int,
{
}

/// What is found is the first that was looked for: it meets the condition, nothing before it does, and where
/// nothing is found nothing meets it.
pub proof fn the_first_is_found<T>(s: Seq<T>, p: spec_fn(T) -> bool, i: int)
    requires
        0 <= i <= s.len(),
        forall|k: int| 0 <= k < i ==> !p(#[trigger] s[k]),
    ensures
        i < s.len() && p(s[i]) ==> first_where(s, p) == Some(s[i]),
        i == s.len() ==> first_where(s, p) is None,
{
    if i < s.len() {
        if p(s[i]) {
            first_is(s, p, i);
        }
    } else {
        none_is(s, p);
    }
}

/// The class of an id is the first that states it, and so are the lines and the code of a method of that
/// class; there are none of a method that states none.
pub proof fn a_method_has_the_lines_that_were_stated(
    vm: StatedDebuggee,
    class: StatedClass,
    type_id: u64,
    method_id: u64,
    i: int,
)
    requires
        vm.class(type_id) == Some(class),
        0 <= i <= class.line_tables@.len(),
        forall|k: int| 0 <= k < i ==> (#[trigger] class.line_tables@[k]).0 != method_id,
    ensures
        i < class.line_tables@.len() && class.line_tables@[i].0 == method_id ==> lines_of(
            vm,
            type_id,
            method_id,
        ) == class.line_tables@[i].1@,
        i == class.line_tables@.len() ==> lines_of(vm, type_id, method_id).len() == 0,
{
    let p = keyed::<Vec<LineTableEntry>>(method_id);
    assert forall|k: int| 0 <= k < i implies !p(#[trigger] class.line_tables@[k]) by {}
    the_first_is_found(class.line_tables@, p, i);
}

/// One more field that is asked for adds its own value behind the others, where the object has it.
pub proof fn fields_are_read_in_the_order_asked_for(
    fields: Seq<(u64, ValueData)>,
    ids: Seq<u64>,
    id: u64,
    i: int,
)
    requires
        0 <= i <= fields.len(),
        forall|k: int| 0 <= k < i ==> (#[trigger] fields[k]).0 != id,
    ensures
        values_at(fields, Seq::empty()).len() == 0,
        i < fields.len() && fields[i].0 == id ==> values_at(fields, ids.push(id)) == values_at(
            fields,
            ids,
        ).push(RuntimeValue { tag: tag(fields[i].1), data: fields[i].1 }),
        i == fields.len() ==> values_at(fields, ids.push(id)) == values_at(fields, ids),
{
    let p = keyed::<ValueData>(id);
    assert forall|k: int| 0 <= k < i implies !p(#[trigger] fields[k]) by {}
    the_first_is_found(fields, p, i);
    assert(ids.push(id).drop_last() =~= ids);
}

/// What a class names as its superclass, and everything it names as an interface, is a parent of it, and
/// nothing else is.
pub proof fn a_class_names_its_parents(classes: Seq<StatedClass>, class: StatedClass, a: u64, b: u64)
    requires
        class_of(classes, a) == Some(class),
    ensures
        class.superclass == Some(b) ==> names_parent(classes, a, b),
        class.interfaces@.contains(b) ==> names_parent(classes, a, b),
        names_parent(classes, a, b) ==> class.superclass == Some(b) || class.interfaces@.contains(b),
{
}

/// A type that implements something other than itself has a parent that does.
pub proof fn what_a_type_implements_comes_from_a_parent(
    classes: Seq<StatedClass>,
    type_id: u64,
    wanted: Seq<char>,
) -> (parent: u64)
    requires
        implements(classes, type_id, wanted),
        !has_signature(classes, type_id, wanted),
    ensures
        names_parent(classes, type_id, parent),
        implements(classes, parent, wanted),
{
    let path = choose|path: Seq<u64>| #[trigger]
        is_lineage(classes, path) && path[0] == type_id && has_signature(
            classes,
            path.last(),
            wanted,
        );
    assert(path.len() > 1) by {
        if path.len() == 1 {
            assert(path.last() == path[0]);
        }
    }
    assert(link(classes, path, 0));
    let rest = path.drop_first();
    assert forall|i: int| 0 <= i < rest.len() - 1 implies #[trigger] link(classes, rest, i) by {
        assert(link(classes, path, i + 1));
    }
    assert(is_lineage(classes, rest));
    assert(rest.last() == path.last());
    path[1]
}

} // verus!
