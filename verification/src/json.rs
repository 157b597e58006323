//! JSON values as plain data, and the two ends where JSON is text.
//!
//! [`Json`] is what the rest of the library reads and builds. Its model is [`JsonView`]: an object is
//! the sequence of its entries, in ascending key order. Reading text and writing text is
//! `serde_json`'s work, done by the four functions at the end of this file.

use crate::text;
use vstd::prelude::*;

verus! {

/// `serde_json::Value`, the parsed form between text and [`Json`].
#[verifier::external_type_specification]
#[verifier::external_body]
pub struct ExValue(serde_json::Value);

/// What a JSON value says.
#[verifier::ext_equal]
pub enum JsonView {
    Null,
    Bool(bool),
    Unsigned(u64),
    /// A number below zero.
    Negative(i64),
    Text(Seq<char>),
    Array(Seq<JsonView>),
    Object(Seq<(Seq<char>, JsonView)>),
    /// A number that is no 64-bit integer, carried and never read.
    Other(serde_json::Value),
}

/// A JSON value.
#[derive(Debug)]
pub enum Json {
    Null,
    Bool(bool),
    Unsigned(u64),
    /// A number below zero.
    Negative(i64),
    Text(String),
    Array(Vec<Json>),
    Object(Vec<(String, Json)>),
    /// A number that is no 64-bit integer, carried and never read.
    Other(serde_json::Value),
}

/// The entries of an object under construction or under inspection.
pub type Entries = Seq<(Seq<char>, JsonView)>;

// ---------------------------------------------------------------------------------------------
// The model
// ---------------------------------------------------------------------------------------------
/// Keys in strictly ascending order, so none occurs twice.
pub open spec fn ascending(entries: Entries) -> bool {
    forall|i: int, j: int|
        0 <= i < j < entries.len() ==> text::before(#[trigger] entries[i].0, #[trigger] entries[j].0)
}

/// How many of the leading entries have a key before `key`.
pub open spec fn slot(entries: Entries, key: Seq<char>) -> nat
    decreases entries.len(),
{
    if entries.len() == 0 || !text::before(entries[0].0, key) {
        0
    } else {
        1 + slot(entries.drop_first(), key)
    }
}

/// `entries` with `key` bound to `value`: in its place by key order, instead of what `key` was bound
/// to before.
pub open spec fn put(entries: Entries, key: Seq<char>, value: JsonView) -> Entries {
    let at = slot(entries, key) as int;
    let rest = if at < entries.len() && entries[at].0 == key {
        at + 1
    } else {
        at
    };
    entries.take(at).push((key, value)) + entries.skip(rest)
}

/// What `key` is bound to.
pub open spec fn lookup(entries: Entries, key: Seq<char>) -> Option<JsonView>
    decreases entries.len(),
{
    if entries.len() == 0 {
        None
    } else if entries[0].0 == key {
        Some(entries[0].1)
    } else {
        lookup(entries.drop_first(), key)
    }
}

/// What `key` is bound to in `value`, if `value` is an object that binds it.
pub open spec fn member(value: JsonView, key: Seq<char>) -> Option<JsonView> {
    match value {
        JsonView::Object(entries) => lookup(entries, key),
        _ => None,
    }
}

impl JsonView {
    /// Every object inside keeps its keys in order, and what is carried as a number that cannot be
    /// read is one.
    pub open spec fn wf(self) -> bool
        decreases self,
    {
        match self {
            JsonView::Array(items) => forall|i: int| 0 <= i < items.len() ==> (#[trigger] items[i]).wf(),
            JsonView::Object(entries) => ascending(entries) && forall|i: int|
                0 <= i < entries.len() ==> (#[trigger] entries[i]).1.wf(),
            JsonView::Negative(n) => n < 0,
            JsonView::Other(v) => value_view(v) == self,
            _ => true,
        }
    }

    /// No number but 64-bit integers, and arrays and objects nested at most `levels` deep: what
    /// reading gives back exactly as it was written.
    pub open spec fn exact(self, levels: nat) -> bool
        decreases self,
    {
        match self {
            JsonView::Array(items) => levels > 0 && forall|i: int|
                0 <= i < items.len() ==> (#[trigger] items[i]).exact((levels - 1) as nat),
            JsonView::Object(entries) => levels > 0 && forall|i: int|
                0 <= i < entries.len() ==> (#[trigger] entries[i]).1.exact((levels - 1) as nat),
            JsonView::Other(_) => false,
            _ => true,
        }
    }
}

impl Json {
    /// What the value says.
    pub open spec fn view(&self) -> JsonView
        decreases self,
    {
        match self {
            Json::Null => JsonView::Null,
            Json::Bool(b) => JsonView::Bool(*b),
            Json::Unsigned(n) => JsonView::Unsigned(*n),
            Json::Negative(n) => JsonView::Negative(*n),
            Json::Text(s) => JsonView::Text(s@),
            Json::Array(items) => JsonView::Array(
                Seq::new(
                    items@.len(),
                    |i: int|
                        if 0 <= i < items@.len() {
                            items@[i].view()
                        } else {
                            JsonView::Null
                        },
                ),
            ),
            Json::Object(entries) => JsonView::Object(
                Seq::new(
                    entries@.len(),
                    |i: int|
                        if 0 <= i < entries@.len() {
                            (entries@[i].0@, entries@[i].1.view())
                        } else {
                            (Seq::empty(), JsonView::Null)
                        },
                ),
            ),
            Json::Other(v) => JsonView::Other(*v),
        }
    }
}

/// The entries of an object, as the model has them.
pub open spec fn entries_view(entries: Seq<(String, Json)>) -> Entries {
    entries.map_values(|e: (String, Json)| (e.0@, e.1@))
}

/// The items of an array, as the model has them.
pub open spec fn items_view(items: Seq<Json>) -> Seq<JsonView> {
    items.map_values(|j: Json| j@)
}

/// An array says what its items say.
pub broadcast proof fn array_view(items: Vec<Json>)
    ensures
        #[trigger] Json::Array(items)@ == JsonView::Array(items_view(items@)),
{
    assert(Json::Array(items)@->Array_0 =~= items_view(items@));
}

/// An object says what its entries say.
pub broadcast proof fn object_view(entries: Vec<(String, Json)>)
    ensures
        #[trigger] Json::Object(entries)@ == JsonView::Object(entries_view(entries@)),
{
    assert(Json::Object(entries)@->Object_0 =~= entries_view(entries@));
}


// ---------------------------------------------------------------------------------------------
// Reading and building values
// ---------------------------------------------------------------------------------------------
/// Binds `key` to `value` in an object under construction.
pub fn bind(entries: &mut Vec<(String, Json)>, key: &str, value: Json)
    requires
        ascending(entries_view(old(entries)@)),
    ensures
        entries_view(final(entries)@) == put(entries_view(old(entries)@), key@, value@),
        ascending(entries_view(final(entries)@)),
{
    let ghost before = entries_view(entries@);
    let mut i: usize = 0;
    assert(before.skip(0) =~= before);
    while i < entries.len() && text::precedes(entries[i].0.as_str(), key)
        invariant
            entries@ == old(entries)@,
            before == entries_view(entries@),
            i <= entries@.len(),
            slot(before, key@) == i + slot(before.skip(i as int), key@),
        decreases entries@.len() - i,
    {
        assert(before.skip(i as int).drop_first() =~= before.skip(i + 1));
        i += 1;
    }
    assert(slot(before, key@) == i);
    proof {
        put_keeps_order(before, key@, value@);
    }
    if i < entries.len() && text::same(entries[i].0.as_str(), key) {
        entries[i] = (text::owned(key), value);
    } else {
        entries.insert(i, (text::owned(key), value));
    }
    assert(entries_view(entries@) =~= put(before, key@, value@));
}

impl Json {
    /// An integer.
    pub open spec fn integer_view(n: int) -> JsonView {
        if n >= 0 {
            JsonView::Unsigned(n as u64)
        } else {
            JsonView::Negative(n as i64)
        }
    }

    /// An integer.
    pub fn integer(n: i64) -> (r: Self)
        ensures
            r@ == Json::integer_view(n as int),
            r@.wf(),
    {
        if n >= 0 {
            Json::Unsigned(n as u64)
        } else {
            Json::Negative(n)
        }
    }

    /// A text.
    pub fn text(s: &str) -> (r: Self)
        ensures
            r@ == JsonView::Text(s@),
    {
        Json::Text(text::owned(s))
    }

    /// An array of texts.
    pub fn texts(parts: &Vec<String>) -> (r: Self)
        ensures
            r@ == texts_view(text::views(parts@)),
            r@.wf(),
            r@.exact(1),
    {
        broadcast use array_view;

        let mut items: Vec<Json> = Vec::new();
        let mut i: usize = 0;
        while i < parts.len()
            invariant
                i <= parts@.len(),
                items@.len() == i,
                forall|k: int| 0 <= k < i ==> (#[trigger] items@[k])@ == JsonView::Text(parts@[k]@),
            decreases parts@.len() - i,
        {
            items.push(Json::text(parts[i].as_str()));
            i += 1;
        }
        let r = Json::Array(items);
        assert(r@->Array_0 =~= texts_view(text::views(parts@))->Array_0);
        assert forall|k: int| 0 <= k < r@->Array_0.len() implies (#[trigger] r@->Array_0[k]).wf()
            && r@->Array_0[k].exact(0) by {
            assert(r@->Array_0[k] is Text);
        }
        r
    }

    /// The value that `key` is bound to, in an object that binds it.
    pub fn get(&self, key: &str) -> (r: Option<&Json>)
        ensures
            match member(self@, key@) {
                Some(v) => r is Some && r->0@ == v,
                None => r is None,
            },
    {
        broadcast use object_view;

        match self {
            Json::Object(entries) => {
                let ghost all = entries_view(entries@);
                let mut i: usize = 0;
                assert(all.skip(0) =~= all);
                while i < entries.len()
                    invariant
                        all == entries_view(entries@),
                        self@ == JsonView::Object(all),
                        i <= entries@.len(),
                        lookup(all, key@) == lookup(all.skip(i as int), key@),
                    decreases entries@.len() - i,
                {
                    if text::same(entries[i].0.as_str(), key) {
                        return Some(&entries[i].1);
                    }
                    assert(all.skip(i as int).drop_first() =~= all.skip(i + 1));
                    i += 1;
                }
                None
            },
            _ => None,
        }
    }

    /// A copy.
    pub fn duplicate(&self) -> (r: Self)
        ensures
            r@ == self@,
        decreases self,
    {
        broadcast use {array_view, object_view};

        match self {
            Json::Null => Json::Null,
            Json::Bool(b) => Json::Bool(*b),
            Json::Unsigned(n) => Json::Unsigned(*n),
            Json::Negative(n) => Json::Negative(*n),
            Json::Text(s) => Json::Text(s.clone()),
            Json::Array(items) => {
                let mut out: Vec<Json> = Vec::new();
                let mut i: usize = 0;
                while i < items.len()
                    invariant
                        i <= items@.len(),
                        *self == Json::Array(*items),
                        out@.len() == i,
                        forall|k: int| 0 <= k < i ==> (#[trigger] out@[k])@ == items@[k]@,
                    decreases items@.len() - i,
                {
                    assert(decreases_to!(*self => self->Array_0));
                    assert(decreases_to!(*items => items@[i as int]));
                    out.push(items[i].duplicate());
                    i += 1;
                }
                let r = Json::Array(out);
                assert(r@->Array_0 =~= self@->Array_0);
                r
            },
            Json::Object(entries) => {
                assert(decreases_to!(*self => self->Object_0));
                Json::Object(duplicate_entries(entries))
            },
            Json::Other(v) => Json::Other(v.clone()),
        }
    }
}

/// A copy of an object's entries.
pub fn duplicate_entries(entries: &Vec<(String, Json)>) -> (r: Vec<(String, Json)>)
    ensures
        entries_view(r@) == entries_view(entries@),
    decreases *entries,
{
    let mut out: Vec<(String, Json)> = Vec::new();
    let mut i: usize = 0;
    while i < entries.len()
        invariant
            i <= entries@.len(),
            out@.len() == i,
            forall|k: int|
                0 <= k < i ==> (#[trigger] out@[k]).0@ == entries@[k].0@ && out@[k].1@
                    == entries@[k].1@,
        decreases entries@.len() - i,
    {
        assert(decreases_to!(*entries => entries@[i as int]));
        assert(decreases_to!(entries@[i as int] => entries@[i as int].1));
        out.push((entries[i].0.clone(), entries[i].1.duplicate()));
        i += 1;
    }
    assert(entries_view(out@) =~= entries_view(entries@));
    out
}

/// An array of texts.
pub open spec fn texts_view(parts: Seq<Seq<char>>) -> JsonView {
    JsonView::Array(parts.map_values(|s: Seq<char>| JsonView::Text(s)))
}

proof fn slot_is_ordered(entries: Entries, key: Seq<char>)
    requires
        ascending(entries),
    ensures
        slot(entries, key) <= entries.len(),
        forall|i: int| 0 <= i < slot(entries, key) ==> text::before(#[trigger] entries[i].0, key),
        forall|i: int|
            slot(entries, key) <= i < entries.len() ==> (#[trigger] entries[i]).0 == key
                || text::before(key, entries[i].0),
        forall|i: int|
            slot(entries, key) < i < entries.len() ==> (#[trigger] entries[i]).0 != key
                && text::before(key, entries[i].0),
    decreases entries.len(),
{
    if entries.len() > 0 {
        let rest = entries.drop_first();
        assert forall|i: int, j: int| 0 <= i < j < rest.len() implies text::before(
            #[trigger] rest[i].0,
            #[trigger] rest[j].0,
        ) by {
            assert(text::before(entries[i + 1].0, entries[j + 1].0));
        }
        slot_is_ordered(rest, key);
        if text::before(entries[0].0, key) {
            let at = slot(rest, key);
            assert forall|i: int| 0 <= i < slot(entries, key) implies text::before(
                #[trigger] entries[i].0,
                key,
            ) by {
                if i > 0 {
                    assert(rest[i - 1].0 == entries[i].0);
                }
            }
            assert forall|i: int| slot(entries, key) <= i < entries.len() implies (
            #[trigger] entries[i]).0 == key || text::before(key, entries[i].0) by {
                assert(rest[i - 1] == entries[i]);
            }
            assert forall|i: int| slot(entries, key) < i < entries.len() implies (
            #[trigger] entries[i]).0 != key && text::before(key, entries[i].0) by {
                assert(rest[i - 1] == entries[i]);
            }
        } else {
            text::before_is_total(entries[0].0, key);
            assert forall|i: int| 0 < i < entries.len() implies (#[trigger] entries[i]).0 != key
                && text::before(key, entries[i].0) by {
                assert(text::before(entries[0].0, entries[i].0));
                if entries[0].0 != key {
                    text::before_is_transitive(key, entries[0].0, entries[i].0);
                }
                text::before_is_strict(key, entries[i].0);
            }
        }
    }
}

/// Binding a key keeps the keys in order.
pub proof fn put_keeps_order(entries: Entries, key: Seq<char>, value: JsonView)
    requires
        ascending(entries),
    ensures
        ascending(put(entries, key, value)),
        slot(entries, key) <= entries.len(),
{
    slot_is_ordered(entries, key);
    let at = slot(entries, key) as int;
    let rest = if at < entries.len() && entries[at].0 == key {
        at + 1
    } else {
        at
    };
    let now = put(entries, key, value);
    assert forall|i: int, j: int| 0 <= i < j < now.len() implies text::before(
        #[trigger] now[i].0,
        #[trigger] now[j].0,
    ) by {
        if i < at {
            assert(now[i] == entries[i]);
        } else if i > at {
            assert(now[i] == entries[i - at - 1 + rest]);
        }
        if j < at {
            assert(now[j] == entries[j]);
        } else if j > at {
            assert(now[j] == entries[j - at - 1 + rest]);
        }
    }
}

/// Binding a key to a value that is one keeps an object one.
pub proof fn put_keeps_wf(entries: Entries, key: Seq<char>, value: JsonView, levels: nat)
    requires
        JsonView::Object(entries).wf(),
        value.wf(),
    ensures
        JsonView::Object(put(entries, key, value)).wf(),
        JsonView::Object(entries).exact(levels + 1) && value.exact(levels) ==> JsonView::Object(
            put(entries, key, value),
        ).exact(levels + 1),
{
    put_keeps_order(entries, key, value);
    let at = slot(entries, key) as int;
    let rest = if at < entries.len() && entries[at].0 == key {
        at + 1
    } else {
        at
    };
    let now = put(entries, key, value);
    assert forall|i: int| 0 <= i < now.len() implies (#[trigger] now[i]).1.wf() by {
        if i < at {
            assert(now[i] == entries[i]);
        } else if i > at {
            assert(now[i] == entries[i - at - 1 + rest]);
        }
    }
    if JsonView::Object(entries).exact(levels + 1) && value.exact(levels) {
        assert forall|i: int| 0 <= i < now.len() implies (#[trigger] now[i]).1.exact(
            (levels + 1 - 1) as nat,
        ) by {
            if i < at {
                assert(now[i] == entries[i]);
            } else if i > at {
                assert(now[i] == entries[i - at - 1 + rest]);
            }
        }
    }
}

/// What nests no deeper than `levels` nests no deeper than `more`.
pub proof fn exact_grows(value: JsonView, levels: nat, more: nat)
    requires
        value.exact(levels),
        levels <= more,
    ensures
        value.exact(more),
    decreases value,
{
    match value {
        JsonView::Array(items) => {
            assert forall|i: int| 0 <= i < items.len() implies (#[trigger] items[i]).exact(
                (more - 1) as nat,
            ) by {
                exact_grows(items[i], (levels - 1) as nat, (more - 1) as nat);
            }
        },
        JsonView::Object(entries) => {
            assert forall|i: int| 0 <= i < entries.len() implies (#[trigger] entries[i]).1.exact(
                (more - 1) as nat,
            ) by {
                exact_grows(entries[i].1, (levels - 1) as nat, (more - 1) as nat);
            }
        },
        _ => {},
    }
}

/// The empty object is one.
pub proof fn empty_object_is_wf(levels: nat)
    ensures
        JsonView::Object(Seq::empty()).wf(),
        JsonView::Object(Seq::empty()).exact(levels + 1),
{
}

/// An entry that stands among the others is what its key is bound to.
proof fn lookup_finds(entries: Entries, i: int)
    requires
        ascending(entries),
        0 <= i < entries.len(),
    ensures
        lookup(entries, entries[i].0) == Some(entries[i].1),
    decreases i,
{
    if i > 0 {
        let rest = entries.drop_first();
        text::before_is_strict(entries[0].0, entries[i].0);
        assert forall|a: int, b: int| 0 <= a < b < rest.len() implies text::before(
            #[trigger] rest[a].0,
            #[trigger] rest[b].0,
        ) by {
            assert(text::before(entries[a + 1].0, entries[b + 1].0));
        }
        lookup_finds(rest, i - 1);
    }
}

/// A key that no entry has is bound to nothing.
proof fn lookup_misses(entries: Entries, key: Seq<char>)
    requires
        forall|i: int| 0 <= i < entries.len() ==> (#[trigger] entries[i]).0 != key,
    ensures
        lookup(entries, key) is None,
    decreases entries.len(),
{
    if entries.len() > 0 {
        let rest = entries.drop_first();
        assert forall|i: int| 0 <= i < rest.len() implies (#[trigger] rest[i]).0 != key by {
            assert(rest[i] == entries[i + 1]);
        }
        assert(entries[0].0 != key);
        lookup_misses(rest, key);
    }
}

/// What a key is bound to, it is bound to by some entry.
proof fn lookup_place(entries: Entries, key: Seq<char>) -> (i: int)
    requires
        lookup(entries, key) is Some,
    ensures
        0 <= i < entries.len(),
        entries[i] == (key, lookup(entries, key)->0),
    decreases entries.len(),
{
    if entries[0].0 == key {
        0
    } else {
        let i = lookup_place(entries.drop_first(), key);
        i + 1
    }
}

/// What a key of a value is bound to is a value.
pub proof fn what_is_looked_up_is_wf(entries: Entries, key: Seq<char>)
    requires
        JsonView::Object(entries).wf(),
    ensures
        lookup(entries, key) is Some ==> lookup(entries, key)->0.wf(),
{
    if lookup(entries, key) is Some {
        let i = lookup_place(entries, key);
        assert(entries[i].1.wf());
    }
}

/// A bound key reads back what it was bound to, and binding it changes no other key.
pub proof fn what_is_bound_reads_back(
    entries: Entries,
    key: Seq<char>,
    value: JsonView,
    other: Seq<char>,
)
    requires
        ascending(entries),
    ensures
        lookup(put(entries, key, value), key) == Some(value),
        other != key ==> lookup(put(entries, key, value), other) == lookup(entries, other),
{
    slot_is_ordered(entries, key);
    put_keeps_order(entries, key, value);
    let at = slot(entries, key) as int;
    let rest = if at < entries.len() && entries[at].0 == key {
        at + 1
    } else {
        at
    };
    let now = put(entries, key, value);
    assert(now[at] == (key, value));
    lookup_finds(now, at);
    if other != key {
        if lookup(entries, other) is Some {
            let i = lookup_place(entries, other);
            let j = if i < at {
                i
            } else {
                i - rest + at + 1
            };
            assert(now[j] == entries[i]);
            lookup_finds(now, j);
        } else {
            assert forall|j: int| 0 <= j < now.len() implies (#[trigger] now[j]).0 != other by {
                if now[j].0 == other {
                    let i = if j < at {
                        j
                    } else {
                        j - at - 1 + rest
                    };
                    assert(j != at);
                    assert(entries[i] == now[j]);
                    lookup_finds(entries, i);
                }
            }
            lookup_misses(now, other);
        }
    }
}

// ---------------------------------------------------------------------------------------------
// Text
// ---------------------------------------------------------------------------------------------
/// One level of a `serde_json::Value`.
enum Node {
    Null,
    Bool(bool),
    Unsigned(u64),
    Negative(i64),
    Text(String),
    Array(Vec<serde_json::Value>),
    Object(Vec<(String, serde_json::Value)>),
    Other(serde_json::Value),
}

/// What a `serde_json::Value` holds.
pub uninterp spec fn value_view(v: serde_json::Value) -> JsonView;

/// What `serde_json::from_str` makes of a text: the value, or the words of its error.
pub uninterp spec fn json_reading(text: Seq<char>) -> Result<JsonView, Seq<char>>;

/// What `serde_json::to_string` writes.
pub uninterp spec fn json_text(value: JsonView) -> Seq<char>;

/// What `serde_json::to_string_pretty` writes.
pub uninterp spec fn json_pretty_text(value: JsonView) -> Seq<char>;

/// Reading `text` gives `value`.
pub open spec fn reads_as(text: Seq<char>, value: JsonView) -> bool {
    json_reading(text) == Ok::<JsonView, Seq<char>>(value)
}

/// `text` starts with an opening brace and ends with a closing one.
pub open spec fn is_braced(text: Seq<char>) -> bool {
    text.len() >= 2 && text[0] == '{' && text.last() == '}'
}

/// `text` holds no line break.
pub open spec fn is_one_line(text: Seq<char>) -> bool {
    forall|i: int| 0 <= i < text.len() ==> #[trigger] text[i] != '\n' && text[i] != '\r'
}

/// Reading `text` fails with the words `why`.
pub open spec fn misreads_as(text: Seq<char>, why: Seq<char>) -> bool {
    json_reading(text) == Err::<JsonView, Seq<char>>(why)
}

spec fn node_view(node: Node) -> JsonView {
    match node {
        Node::Null => JsonView::Null,
        Node::Bool(b) => JsonView::Bool(b),
        Node::Unsigned(n) => JsonView::Unsigned(n),
        Node::Negative(n) => JsonView::Negative(n),
        Node::Text(s) => JsonView::Text(s@),
        Node::Array(items) => JsonView::Array(
            Seq::new(items@.len(), |i: int| value_view(items@[i])),
        ),
        Node::Object(entries) => JsonView::Object(
            Seq::new(entries@.len(), |i: int| (entries@[i].0@, value_view(entries@[i].1))),
        ),
        Node::Other(v) => JsonView::Other(v),
    }
}

spec fn node_wf(node: Node) -> bool {
    match node_view(node) {
        JsonView::Object(entries) => ascending(entries),
        JsonView::Negative(n) => n < 0,
        JsonView::Other(v) => value_view(v) == JsonView::Other(v),
        _ => true,
    }
}

/// Tells the variants of `serde_json::Value` apart and moves their fields out. A number that `as_u64`
/// reads is an unsigned integer, one that only `as_i64` reads is below zero, and any other is put back
/// into a value. The entries of an object come in
/// the order of its map, which is a `BTreeMap` keyed by the text of the key.
#[verifier::external_body]
fn open_value(v: serde_json::Value) -> (node: Node)
    ensures
        node_view(node) == value_view(v),
        node_wf(node),
{
    match v {
        serde_json::Value::Null => Node::Null,
        serde_json::Value::Bool(b) => Node::Bool(b),
        serde_json::Value::Number(n) => match (n.as_u64(), n.as_i64()) {
            (Some(u), _) => Node::Unsigned(u),
            (None, Some(i)) => Node::Negative(i),
            (None, None) => Node::Other(serde_json::Value::Number(n)),
        },
        serde_json::Value::String(s) => Node::Text(s),
        serde_json::Value::Array(items) => Node::Array(items),
        serde_json::Value::Object(map) => Node::Object(map.into_iter().collect()),
    }
}

/// Builds the `serde_json::Value` of one level, from values one level down. Collecting the entries of
/// an object into its map keeps them all where no key occurs twice, and their order is the map's.
#[verifier::external_body]
fn close_value(node: Node) -> (v: serde_json::Value)
    requires
        node_wf(node),
    ensures
        value_view(v) == node_view(node),
{
    match node {
        Node::Null => serde_json::Value::Null,
        Node::Bool(b) => serde_json::Value::Bool(b),
        Node::Unsigned(n) => serde_json::Value::from(n),
        Node::Negative(n) => serde_json::Value::from(n),
        Node::Text(s) => serde_json::Value::String(s),
        Node::Array(items) => serde_json::Value::Array(items),
        Node::Object(entries) => serde_json::Value::Object(entries.into_iter().collect()),
        Node::Other(v) => v,
    }
}

/// `serde_json::from_str` into a `serde_json::Value`: the value that the text holds, or the error in
/// words. Both are settled by the text alone.
#[verifier::external_body]
fn value_from_text(text: &str) -> (r: Result<serde_json::Value, String>)
    ensures
        match r {
            Ok(v) => json_reading(text@) == Ok::<JsonView, Seq<char>>(value_view(v)),
            Err(why) => json_reading(text@) == Err::<JsonView, Seq<char>>(why@),
        },
{
    serde_json::from_str::<serde_json::Value>(text).map_err(|e| e.to_string())
}

/// What an error of `serde_json` calls a value that is not of the kind it should be.
pub open spec fn found_instead(value: JsonView) -> Seq<char> {
    match value {
        JsonView::Null => "null"@,
        JsonView::Bool(true) => "boolean `true`"@,
        JsonView::Bool(false) => "boolean `false`"@,
        JsonView::Unsigned(n) => "integer `"@ + text::dec(n as nat) + "`"@,
        JsonView::Negative(n) => "integer `-"@ + text::dec((-n) as nat) + "`"@,
        JsonView::Other(_) => "floating point `"@ + json_text(value) + "`"@,
        JsonView::Array(_) => "sequence"@,
        JsonView::Object(_) => "map"@,
        // A text is what should be there, so no error speaks of one.
        JsonView::Text(_) => Seq::empty(),
    }
}

/// The words of the error on a value that should be a text and is none.
pub open spec fn no_text(value: JsonView) -> Seq<char> {
    "invalid type: "@ + found_instead(value) + ", expected a string"@
}

/// `serde_json::from_value` into a `String`: the text of a value that is one. The error on any other says
/// what was found instead, a float as `serde_json::to_string` writes it.
#[verifier::external_body]
fn text_from_value(v: serde_json::Value) -> (r: Result<String, String>)
    ensures
        match value_view(v) {
            JsonView::Text(s) => r is Ok && r->Ok_0@ == s,
            other => r is Err && r->Err_0@ == no_text(other),
        },
{
    serde_json::from_value::<String>(v).map_err(|e| e.to_string())
}

/// `<serde_json::Value as Clone>::clone` gives an equal value.
pub assume_specification[ <serde_json::Value as Clone>::clone ](v: &serde_json::Value) -> (r:
    serde_json::Value)
    ensures
        r == *v,
;

/// What a `serde_json::Value` holds, as plain data.
pub fn json_of(v: serde_json::Value) -> (j: Json)
    ensures
        j@ == value_view(v),
        j@.wf(),
    decreases value_view(v),
{
    broadcast use {array_view, object_view};

    match open_value(v) {
        Node::Null => Json::Null,
        Node::Bool(b) => Json::Bool(b),
        Node::Unsigned(n) => Json::Unsigned(n),
        Node::Negative(n) => Json::Negative(n),
        Node::Text(s) => Json::Text(s),
        Node::Array(items) => {
            let mut out: Vec<Json> = Vec::new();
            for item in it: items.into_iter()
                invariant
                    it.seq() == items@,
                    value_view(v) == node_view(Node::Array(items)),
                    out@.len() == it.index(),
                    forall|i: int| 0 <= i < out@.len() ==> (#[trigger] out@[i])@ == value_view(items@[i]) && out@[i]@.wf(),
            {
                assert(value_view(v)->Array_0[it.index() as int] == value_view(item));
                out.push(json_of(item));
            }
            let j = Json::Array(out);
            assert(j@->Array_0 =~= node_view(Node::Array(items))->Array_0);
            j
        },
        Node::Object(entries) => {
            let mut out: Vec<(String, Json)> = Vec::new();
            for entry in it: entries.into_iter()
                invariant
                    it.seq() == entries@,
                    value_view(v) == node_view(Node::Object(entries)),
                    out@.len() == it.index(),
                    forall|i: int| 0 <= i < out@.len() ==> (#[trigger] out@[i]).1@ == value_view(entries@[i].1) && out@[i].0@ == entries@[i].0@ && out@[i].1@.wf(),
            {
                let (key, value) = entry;
                assert(value_view(v)->Object_0[it.index() as int].1 == value_view(value));
                out.push((key, json_of(value)));
            }
            let j = Json::Object(out);
            assert(j@->Object_0 =~= node_view(Node::Object(entries))->Object_0);
            j
        },
        Node::Other(v) => Json::Other(v),
    }
}

/// The `serde_json::Value` that says what `j` says.
pub fn value_of(j: &Json) -> (v: serde_json::Value)
    requires
        j@.wf(),
    ensures
        value_view(v) == j@,
    decreases j,
{
    broadcast use {array_view, object_view};

    match j {
        Json::Null => close_value(Node::Null),
        Json::Bool(b) => close_value(Node::Bool(*b)),
        Json::Unsigned(n) => close_value(Node::Unsigned(*n)),
        Json::Negative(n) => close_value(Node::Negative(*n)),
        Json::Text(s) => close_value(Node::Text(s.clone())),
        Json::Array(items) => {
            let mut out: Vec<serde_json::Value> = Vec::new();
            let mut i: usize = 0;
            while i < items.len()
                invariant
                    0 <= i <= items@.len(),
                    *j == Json::Array(*items),
                    j@.wf(),
                    out@.len() == i,
                    forall|k: int| 0 <= k < i ==> value_view(#[trigger] out@[k]) == items@[k]@,
                decreases items@.len() - i,
            {
                assert(j@->Array_0[i as int] == items@[i as int]@);
                out.push(value_of(&items[i]));
                i += 1;
            }
            let node = Node::Array(out);
            assert(node_view(node)->Array_0 =~= j@->Array_0);
            close_value(node)
        },
        Json::Object(entries) => {
            let mut out: Vec<(String, serde_json::Value)> = Vec::new();
            let mut i: usize = 0;
            while i < entries.len()
                invariant
                    0 <= i <= entries@.len(),
                    *j == Json::Object(*entries),
                    j@.wf(),
                    out@.len() == i,
                    forall|k: int|
                        0 <= k < i ==> value_view((#[trigger] out@[k]).1) == entries@[k].1@
                            && out@[k].0@ == entries@[k].0@,
                decreases entries@.len() - i,
            {
                assert(j@->Object_0[i as int] == (entries@[i as int].0@, entries@[i as int].1@));
                out.push((entries[i].0.clone(), value_of(&entries[i].1)));
                i += 1;
            }
            let node = Node::Object(out);
            assert(node_view(node)->Object_0 =~= j@->Object_0);
            close_value(node)
        },
        Json::Other(v) => v.clone(),
    }
}

/// `serde_json::to_string` of a `serde_json::Value`: its compact text, which for an object starts and ends
/// with a brace. Writing into a string cannot fail for such a value, whose keys are texts and whose numbers
/// are finite. Nothing is put between the parts, and a line break inside a text is escaped, so the whole
/// stands on one line. `serde_json::from_str` gives the value back where it holds no number but 64-bit
/// integers and nests below the reader's limit of 128 levels.
#[verifier::external_body]
fn value_to_text(v: &serde_json::Value) -> (r: Result<String, String>)
    ensures
        r is Ok,
        r->Ok_0@ == json_text(value_view(*v)),
        is_one_line(r->Ok_0@),
        value_view(*v) is Object ==> is_braced(r->Ok_0@),
        value_view(*v).exact(127) ==> reads_as(r->Ok_0@, value_view(*v)),
{
    serde_json::to_string(v).map_err(|e| e.to_string())
}

/// `serde_json::to_string_pretty` of a `serde_json::Value`: its indented text, which for an object
/// starts and ends with a brace. Writing cannot fail, as above. `serde_json::from_str` gives the value back
/// where it holds no number but 64-bit integers and nests below the reader's limit of 128 levels.
#[verifier::external_body]
fn value_to_pretty_text(v: &serde_json::Value) -> (r: Result<String, String>)
    ensures
        r is Ok,
        r->Ok_0@ == json_pretty_text(value_view(*v)),
        value_view(*v) is Object ==> is_braced(r->Ok_0@),
        value_view(*v).exact(127) ==> reads_as(r->Ok_0@, value_view(*v)),
{
    serde_json::to_string_pretty(v).map_err(|e| e.to_string())
}

/// The text that `j` is, or the words of the error where it is none.
pub fn text_of(j: &Json) -> (r: Result<String, String>)
    requires
        j@.wf(),
    ensures
        match j@ {
            JsonView::Text(s) => r is Ok && r->Ok_0@ == s,
            other => r is Err && r->Err_0@ == no_text(other),
        },
{
    text_from_value(value_of(j))
}

/// Reads one JSON value from `text`.
pub fn read(text: &str) -> (r: Result<Json, String>)
    ensures
        match r {
            Ok(j) => j@.wf() && reads_as(text@, j@),
            Err(why) => misreads_as(text@, why@),
        },
{
    match value_from_text(text) {
        Ok(v) => Ok(json_of(v)),
        Err(why) => Err(why),
    }
}

/// `j` as compact text.
pub fn write(j: &Json) -> (text: String)
    requires
        j@.wf(),
    ensures
        text@ == json_text(j@),
        is_one_line(text@),
        j@ is Object ==> is_braced(text@),
        j@.exact(127) ==> reads_as(text@, j@),
{
    match value_to_text(&value_of(j)) {
        Ok(text) => text,
        Err(why) => why,
    }
}

/// `j` as indented text.
pub fn write_pretty(j: &Json) -> (text: String)
    requires
        j@.wf(),
    ensures
        text@ == json_pretty_text(j@),
        j@ is Object ==> is_braced(text@),
        j@.exact(127) ==> reads_as(text@, j@),
{
    match value_to_pretty_text(&value_of(j)) {
        Ok(text) => text,
        Err(why) => why,
    }
}

} // verus!
