//! What holds of reading class files as a whole: a file ends where its last method does, and a file
//! that is cut short is either whole all the same or says that it is truncated.

use crate::class_format;
use crate::class_format::{ConstantView, Fault, Reading};
use crate::text;
use vstd::prelude::*;

verus! {

/// `short` is how `long` starts.
pub open spec fn starts(short: Seq<u8>, long: Seq<u8>) -> bool {
    short.len() <= long.len() && short == long.take(short.len() as int)
}

/// Whether a result is that of bytes that end too early.
pub open spec fn is_cut<T>(r: Result<T, Fault>) -> bool {
    r is Err && r->Err_0 is Truncated
}

/// What is read from the start of some bytes at `at` is what is read from all of them, and reading goes
/// on from no earlier offset; or those bytes end too early.
spec fn agrees<T>(short: Reading<T>, long: Reading<T>, at: int) -> bool {
    is_cut(short) || (short == long && (short matches Ok((_, end)) ==> at <= end))
}

/// The same of a reader.
spec fn readers_agree<T>(short: spec_fn(int) -> Reading<T>, long: spec_fn(int) -> Reading<T>) -> bool {
    forall|at: int| 0 <= at ==> agrees(#[trigger] short(at), long(at), at)
}

proof fn spans_agree(p: Seq<u8>, b: Seq<u8>, at: int, n: int)
    requires
        starts(p, b),
        0 <= at,
        0 <= n,
    ensures
        is_cut(class_format::span(p, at, n)) || class_format::span(p, at, n) == class_format::span(
            b,
            at,
            n,
        ),
        agrees(class_format::bytes_at(p, at, n), class_format::bytes_at(b, at, n), at),
{
    if at + n <= p.len() {
        assert(p.subrange(at, at + n) =~= b.subrange(at, at + n));
    }
}

proof fn numbers_agree(p: Seq<u8>, b: Seq<u8>, at: int)
    requires
        starts(p, b),
        0 <= at,
    ensures
        agrees(class_format::u8_at(p, at), class_format::u8_at(b, at), at),
        agrees(class_format::u16_at(p, at), class_format::u16_at(b, at), at),
{
    if at < p.len() {
        assert(p[at] == b[at]);
    }
    if at + 1 < p.len() {
        assert(p[at + 1] == b[at + 1]);
    }
}

proof fn long_numbers_agree(p: Seq<u8>, b: Seq<u8>, at: int)
    requires
        starts(p, b),
        0 <= at,
    ensures
        agrees(class_format::u32_at(p, at), class_format::u32_at(b, at), at),
{
    numbers_agree(p, b, at);
    numbers_agree(p, b, at + 2);
}

proof fn repetitions_agree<T>(
    short: spec_fn(int) -> Reading<T>,
    long: spec_fn(int) -> Reading<T>,
    at: int,
    n: nat,
)
    requires
        readers_agree(short, long),
        0 <= at,
    ensures
        agrees(class_format::times(short, at, n), class_format::times(long, at, n), at),
    decreases n,
{
    if n > 0 {
        repetitions_agree(short, long, at, (n - 1) as nat);
        match class_format::times(short, at, (n - 1) as nat) {
            Ok((_, next)) => {
                assert(agrees(short(next), long(next), next));
            },
            Err(_) => {},
        }
    }
}

proof fn tables_agree<T>(
    p: Seq<u8>,
    b: Seq<u8>,
    short: spec_fn(int) -> Reading<T>,
    long: spec_fn(int) -> Reading<T>,
    at: int,
)
    requires
        starts(p, b),
        readers_agree(short, long),
        0 <= at,
    ensures
        agrees(class_format::table_at(p, short, at), class_format::table_at(b, long, at), at),
{
    numbers_agree(p, b, at);
    match class_format::u16_at(p, at) {
        Ok((n, next)) => {
            repetitions_agree(short, long, next, n as nat);
        },
        Err(_) => {},
    }
}

proof fn constants_agree(p: Seq<u8>, b: Seq<u8>, at: int, tag: u8, entry: u16)
    requires
        starts(p, b),
        0 <= at,
    ensures
        agrees(
            class_format::constant_at(p, at, tag, entry),
            class_format::constant_at(b, at, tag, entry),
            at,
        ),
{
    numbers_agree(p, b, at);
    match class_format::u16_at(p, at) {
        Ok((len, next)) => {
            spans_agree(p, b, next, len as int);
        },
        Err(_) => {},
    }
    match class_format::skipped_width(tag) {
        Some(width) => {
            spans_agree(p, b, at, width as int);
        },
        None => {},
    }
}

proof fn pools_agree(p: Seq<u8>, b: Seq<u8>, at: int, pool: Seq<ConstantView>, count: nat)
    requires
        starts(p, b),
        0 <= at,
    ensures
        agrees(
            class_format::pool_from(p, at, pool, count),
            class_format::pool_from(b, at, pool, count),
            at,
        ),
    decreases count + 1 - pool.len(),
{
    if pool.len() < count {
        numbers_agree(p, b, at);
        match class_format::u8_at(p, at) {
            Ok((tag, next)) => {
                let entry = pool.len() as u16;
                constants_agree(p, b, next, tag, entry);
                match class_format::constant_at(p, next, tag, entry) {
                    Ok((found, rest)) => {
                        pools_agree(p, b, rest, pool + class_format::slots(tag, found), count);
                    },
                    Err(_) => {},
                }
            },
            Err(_) => {},
        }
    }
}

proof fn names_agree(p: Seq<u8>, b: Seq<u8>, pool: Seq<ConstantView>, at: int)
    requires
        starts(p, b),
        0 <= at,
    ensures
        agrees(class_format::utf8_at(p, pool, at), class_format::utf8_at(b, pool, at), at),
        agrees(class_format::class_at(p, pool, at), class_format::class_at(b, pool, at), at),
        agrees(class_format::super_at(p, pool, at), class_format::super_at(b, pool, at), at),
{
    numbers_agree(p, b, at);
}

proof fn skipped_attributes_agree(p: Seq<u8>, b: Seq<u8>, at: int)
    requires
        starts(p, b),
        0 <= at,
    ensures
        agrees(
            class_format::skipped_attribute_at(p, at),
            class_format::skipped_attribute_at(b, at),
            at,
        ),
{
    spans_agree(p, b, at, 2);
    long_numbers_agree(p, b, at + 2);
    match class_format::u32_at(p, at + 2) {
        Ok((len, next)) => {
            spans_agree(p, b, next, len as int);
        },
        Err(_) => {},
    }
}

proof fn attributes_agree(p: Seq<u8>, b: Seq<u8>, pool: Seq<ConstantView>, at: int)
    requires
        starts(p, b),
        0 <= at,
    ensures
        agrees(class_format::attribute_at(p, pool, at), class_format::attribute_at(b, pool, at), at),
{
    names_agree(p, b, pool, at);
    match class_format::utf8_at(p, pool, at) {
        Ok((_, next)) => {
            long_numbers_agree(p, b, next);
            match class_format::u32_at(p, next) {
                Ok((len, rest)) => {
                    spans_agree(p, b, rest, len as int);
                },
                Err(_) => {},
            }
        },
        Err(_) => {},
    }
}

proof fn bodies_agree(p: Seq<u8>, b: Seq<u8>, pool: Seq<ConstantView>, at: int, n: nat)
    requires
        starts(p, b),
        0 <= at,
    ensures
        agrees(
            class_format::body_at(p, pool, at, n),
            class_format::body_at(b, pool, at, n),
            at,
        ),
    decreases n,
{
    if n > 0 {
        bodies_agree(p, b, pool, at, (n - 1) as nat);
        match class_format::body_at(p, pool, at, (n - 1) as nat) {
            Ok((_, next)) => {
                attributes_agree(p, b, pool, next);
            },
            Err(_) => {},
        }
    }
}

/// Two names and the two bytes before them, which fields and methods both start with.
proof fn beginnings_agree(p: Seq<u8>, b: Seq<u8>, pool: Seq<ConstantView>, at: int)
    requires
        starts(p, b),
        0 <= at,
    ensures
        agrees(class_format::u16_at(p, at), class_format::u16_at(b, at), at),
        agrees(class_format::utf8_at(p, pool, at + 2), class_format::utf8_at(b, pool, at + 2), at),
        agrees(class_format::utf8_at(p, pool, at + 4), class_format::utf8_at(b, pool, at + 4), at),
{
    numbers_agree(p, b, at);
    names_agree(p, b, pool, at + 2);
    names_agree(p, b, pool, at + 4);
}

proof fn fields_agree(p: Seq<u8>, b: Seq<u8>, pool: Seq<ConstantView>, at: int)
    requires
        starts(p, b),
        0 <= at,
    ensures
        agrees(class_format::field_at(p, pool, at), class_format::field_at(b, pool, at), at),
{
    let short = class_format::skipped_attribute_reader(p);
    let long = class_format::skipped_attribute_reader(b);
    assert forall|k: int| 0 <= k implies agrees(#[trigger] short(k), long(k), k) by {
        skipped_attributes_agree(p, b, k);
    }
    beginnings_agree(p, b, pool, at);
    tables_agree(p, b, short, long, at + 6);
}

proof fn methods_agree(p: Seq<u8>, b: Seq<u8>, pool: Seq<ConstantView>, at: int)
    requires
        starts(p, b),
        0 <= at,
    ensures
        agrees(class_format::method_at(p, pool, at), class_format::method_at(b, pool, at), at),
{
    beginnings_agree(p, b, pool, at);
    numbers_agree(p, b, at + 6);
    match class_format::u16_at(p, at + 6) {
        Ok((n, next)) => {
            bodies_agree(p, b, pool, next, n as nat);
        },
        Err(_) => {},
    }
}

proof fn headers_agree(p: Seq<u8>, b: Seq<u8>, pool: Seq<ConstantView>, at: int)
    requires
        starts(p, b),
        0 <= at,
    ensures
        agrees(class_format::header_at(p, pool, at), class_format::header_at(b, pool, at), at),
{
    let short = class_format::class_reader(p, pool);
    let long = class_format::class_reader(b, pool);
    assert forall|k: int| 0 <= k implies agrees(#[trigger] short(k), long(k), k) by {
        names_agree(p, b, pool, k);
    }
    numbers_agree(p, b, at);
    names_agree(p, b, pool, at + 2);
    names_agree(p, b, pool, at + 4);
    tables_agree(p, b, short, long, at + 6);
}

proof fn declarations_agree(p: Seq<u8>, b: Seq<u8>, pool: Seq<ConstantView>, at: int)
    requires
        starts(p, b),
        0 <= at,
    ensures
        is_cut(class_format::declarations(p, pool, at)) || class_format::declarations(p, pool, at)
            == class_format::declarations(b, pool, at),
{
    let fields = class_format::field_reader(p, pool);
    let all_fields = class_format::field_reader(b, pool);
    let methods = class_format::method_reader(p, pool);
    let all_methods = class_format::method_reader(b, pool);
    assert forall|k: int| 0 <= k implies agrees(#[trigger] fields(k), all_fields(k), k) by {
        fields_agree(p, b, pool, k);
    }
    assert forall|k: int| 0 <= k implies agrees(#[trigger] methods(k), all_methods(k), k) by {
        methods_agree(p, b, pool, k);
    }
    headers_agree(p, b, pool, at);
    match class_format::header_at(p, pool, at) {
        Ok((_, next)) => {
            tables_agree(p, b, fields, all_fields, next);
            match class_format::table_at(p, fields, next) {
                Ok((_, rest)) => {
                    tables_agree(p, b, methods, all_methods, rest);
                },
                Err(_) => {},
            }
        },
        Err(_) => {},
    }
}

/// The start of some bytes reads as all of them do, or it is cut short.
proof fn files_agree(p: Seq<u8>, b: Seq<u8>)
    requires
        starts(p, b),
    ensures
        is_cut(class_format::class_file(p)) || class_format::class_file(p)
            == class_format::class_file(b),
{
    long_numbers_agree(p, b, 0);
    spans_agree(p, b, 4, 4);
    numbers_agree(p, b, 8);
    match class_format::u16_at(p, 8) {
        Ok((count, next)) => {
            pools_agree(p, b, next, seq![ConstantView::Other], count as nat);
            match class_format::pool_at(p, 8) {
                Ok((pool, rest)) => {
                    declarations_agree(p, b, pool, rest);
                },
                Err(_) => {},
            }
        },
        Err(_) => {},
    }
}

/// What is wrong with bytes that end too early says so.
proof fn a_cut_file_says_so(fault: Fault)
    requires
        fault is Truncated,
    ensures
        text::holds(fault.words(), "truncated"@),
{
    match fault {
        Fault::Truncated { wanted, at, len } => {
            reveal_strlit("class file is truncated: wanted ");
            reveal_strlit("truncated");
            let words = fault.words();
            let first = "class file is truncated: wanted "@;
            assert(words.take(first.len() as int) =~= first);
            assert(first.subrange(14, 23) =~= "truncated"@);
            assert(words.subrange(14, 14int + "truncated"@.len()) =~= first.subrange(14, 23));
        },
        _ => {},
    }
}

/// A class file ends by itself: whatever stands behind it changes nothing of what it says.
pub proof fn what_follows_a_class_file_is_not_read(bytes: Seq<u8>, more: Seq<u8>)
    requires
        class_format::class_file(bytes) is Ok,
    ensures
        class_format::class_file(bytes + more) == class_format::class_file(bytes),
{
    assert(bytes =~= (bytes + more).take(bytes.len() as int));
    files_agree(bytes, bytes + more);
}

/// A class file that is cut short says what the whole one says, or it is refused in words that say that
/// it is truncated. It never says anything else.
pub proof fn a_class_file_cut_short_is_truncated(bytes: Seq<u8>, len: int)
    requires
        0 <= len <= bytes.len(),
    ensures
        ({
            let short = class_format::class_file(bytes.take(len));
            ||| short == class_format::class_file(bytes)
            ||| short is Err && text::holds(short->Err_0.words(), "truncated"@)
        }),
{
    let short = bytes.take(len);
    files_agree(short, bytes);
    if is_cut(class_format::class_file(short)) {
        a_cut_file_says_so(class_format::class_file(short)->Err_0);
    }
}

// ---------------------------------------------------------------------------------------------
// What stands where
// ---------------------------------------------------------------------------------------------
/// The number that two bytes at `at` make, the first the more significant.
pub open spec fn number(b: Seq<u8>, at: int) -> int {
    b[at] * 256 + b[at + 1]
}

/// Numbers are read with the more significant byte first.
pub proof fn the_first_byte_counts_most(b: Seq<u8>, at: int)
    requires
        0 <= at,
        at + 2 <= b.len() <= usize::MAX,
    ensures
        class_format::u8_at(b, at) == Ok::<(u8, int), Fault>((b[at], at + 1)),
        class_format::u16_at(b, at) is Ok,
        class_format::u16_at(b, at)->Ok_0.0 == b[at] * 256 + b[at + 1],
        class_format::u16_at(b, at)->Ok_0.1 == at + 2,
        at + 4 <= b.len() ==> class_format::u32_at(b, at) is Ok && class_format::u32_at(
            b,
            at,
        )->Ok_0.0 == b[at] * 16777216 + b[at + 1] * 65536 + b[at + 2] * 256 + b[at + 3]
            && class_format::u32_at(b, at)->Ok_0.1 == at + 4,
{
}

/// An entry of the constant pool that holds no name is passed over as a whole, whatever it holds, and the
/// next entry is looked for right behind it. How wide it is rests on its tag; a long or double takes two
/// slots of the pool and any other one.
pub proof fn an_entry_that_is_no_name_is_passed_over(
    b: Seq<u8>,
    at: int,
    tag: u8,
    width: int,
    pool: Seq<ConstantView>,
    count: nat,
)
    requires
        (width == 2 && (tag == 8 || tag == 16 || tag == 19 || tag == 20)) || (width == 3 && tag == 15)
            || (width == 4 && (tag == 3 || tag == 4 || tag == 9 || tag == 10 || tag == 11 || tag == 12
            || tag == 17 || tag == 18)) || (width == 8 && (tag == 5 || tag == 6)),
        0 <= at,
        at + 1 + width <= b.len() <= usize::MAX,
        b[at] == tag,
        pool.len() < count,
    ensures
        class_format::pool_from(b, at, pool, count) == class_format::pool_from(
            b,
            at + 1 + width,
            if width == 8 {
                pool.push(ConstantView::Other).push(ConstantView::Other)
            } else {
                pool.push(ConstantView::Other)
            },
            count,
        ),
{
    let next = pool + class_format::slots(tag, ConstantView::Other);
    if width == 8 {
        assert(next =~= pool.push(ConstantView::Other).push(ConstantView::Other));
    } else {
        assert(next =~= pool.push(ConstantView::Other));
    }
}

/// A text in the constant pool is its length and as many bytes, and the next entry is looked for right
/// behind them.
pub proof fn a_text_entry_holds_its_text(b: Seq<u8>, at: int, pool: Seq<ConstantView>, count: nat)
    requires
        0 <= at,
        at + 3 <= b.len() <= usize::MAX,
        b[at] == 1,
        at + 3 + number(b, at + 1) <= b.len(),
        vstd::utf8::valid_utf8(b.subrange(at + 3, at + 3 + number(b, at + 1))),
        pool.len() < count,
    ensures
        class_format::pool_from(b, at, pool, count) == class_format::pool_from(
            b,
            at + 3 + number(b, at + 1),
            pool.push(
                ConstantView::Utf8(
                    vstd::utf8::decode_utf8(b.subrange(at + 3, at + 3 + number(b, at + 1))),
                ),
            ),
            count,
        ),
{
    let s = vstd::utf8::decode_utf8(b.subrange(at + 3, at + 3 + number(b, at + 1)));
    the_first_byte_counts_most(b, at + 1);
    assert(pool + class_format::slots(1, ConstantView::Utf8(s)) =~= pool.push(
        ConstantView::Utf8(s),
    ));
}

/// A class in the constant pool is the entry of its name.
pub proof fn a_class_entry_holds_the_entry_of_its_name(
    b: Seq<u8>,
    at: int,
    pool: Seq<ConstantView>,
    count: nat,
)
    requires
        0 <= at,
        at + 3 <= b.len() <= usize::MAX,
        b[at] == 7,
        pool.len() < count,
    ensures
        class_format::pool_from(b, at, pool, count) == class_format::pool_from(
            b,
            at + 3,
            pool.push(ConstantView::Class(number(b, at + 1) as u16)),
            count,
        ),
{
    let entry = ConstantView::Class(number(b, at + 1) as u16);
    the_first_byte_counts_most(b, at + 1);
    assert(pool + class_format::slots(7, entry) =~= pool.push(entry));
}

/// The constant pool starts with the number of its slots, of which the one before the first entry is
/// unusable, and is full when it has so many.
pub proof fn a_pool_has_as_many_slots_as_it_says(b: Seq<u8>, at: int, pool: Seq<ConstantView>, end: int)
    requires
        0 <= at,
        at + 2 <= b.len() <= usize::MAX,
    ensures
        class_format::pool_at(b, at) == class_format::pool_from(
            b,
            at + 2,
            seq![ConstantView::Other],
            number(b, at) as nat,
        ),
        class_format::pool_from(b, end, pool, pool.len()) == Ok::<(Seq<ConstantView>, int), Fault>(
            (pool, end),
        ),
{
    the_first_byte_counts_most(b, at);
}

/// A pool of any one entry that holds no name and of a text behind it has that text in its next usable
/// slot, and ends where the text does.
pub proof fn a_text_behind_any_entry_is_found(b: Seq<u8>, tag: u8, width: int)
    requires
        (width == 2 && (tag == 8 || tag == 16 || tag == 19 || tag == 20)) || (width == 3 && tag == 15)
            || (width == 4 && (tag == 3 || tag == 4 || tag == 9 || tag == 10 || tag == 11 || tag == 12
            || tag == 17 || tag == 18)) || (width == 8 && (tag == 5 || tag == 6)),
        6 + width <= b.len() <= usize::MAX,
        b[0] == 0,
        b[1] == (if width == 8 {
            4int
        } else {
            3
        }),
        b[2] == tag,
        b[3 + width] == 1,
        6 + width + number(b, 4 + width) <= b.len(),
        vstd::utf8::valid_utf8(b.subrange(6 + width, 6 + width + number(b, 4 + width))),
    ensures
        ({
            let next = if width == 8 {
                3int
            } else {
                2
            };
            &&& class_format::pool_at(b, 0) is Ok
            &&& class_format::pool_at(b, 0)->Ok_0.1 == 6 + width + number(b, 4 + width)
            &&& class_format::pool_at(b, 0)->Ok_0.0.len() == next + 1
            &&& class_format::pool_at(b, 0)->Ok_0.0[next] == ConstantView::Utf8(
                vstd::utf8::decode_utf8(b.subrange(6 + width, 6 + width + number(b, 4 + width))),
            )
            &&& class_format::utf8_in(class_format::pool_at(b, 0)->Ok_0.0, next as u16) == Ok::<
                Seq<char>,
                Fault,
            >(vstd::utf8::decode_utf8(b.subrange(6 + width, 6 + width + number(b, 4 + width))))
        }),
{
    let count = number(b, 0) as nat;
    let start = seq![ConstantView::Other];
    let then = if width == 8 {
        start.push(ConstantView::Other).push(ConstantView::Other)
    } else {
        start.push(ConstantView::Other)
    };
    let text = ConstantView::Utf8(
        vstd::utf8::decode_utf8(b.subrange(6 + width, 6 + width + number(b, 4 + width))),
    );
    a_pool_has_as_many_slots_as_it_says(
        b,
        0,
        then.push(text),
        6 + width + number(b, 4 + width),
    );
    an_entry_that_is_no_name_is_passed_over(b, 2, tag, width, start, count);
    a_text_entry_holds_its_text(b, 3 + width, then, count);
}

/// An entry with any other tag is refused, by its tag and its number.
pub proof fn a_tag_that_is_none_is_refused(
    b: Seq<u8>,
    at: int,
    pool: Seq<ConstantView>,
    count: nat,
)
    requires
        0 <= at < b.len(),
        b.len() <= usize::MAX,
        b[at] == 0 || b[at] == 2 || b[at] == 13 || b[at] == 14 || b[at] > 20,
        pool.len() < count <= 0xFFFF,
    ensures
        class_format::pool_from(b, at, pool, count) == Err::<(Seq<ConstantView>, int), Fault>(
            Fault::UnknownTag { tag: b[at], entry: pool.len() as u16 },
        ),
{
}

/// The name of a class is found through the entry of the class, with a dot for every slash and every other
/// character as it is.
pub proof fn a_class_is_named_by_its_entry(pool: Seq<ConstantView>, class: u16, name: u16, s: Seq<char>)
    requires
        class < pool.len(),
        name < pool.len(),
        pool[class as int] == ConstantView::Class(name),
        pool[name as int] == ConstantView::Utf8(s),
    ensures
        class_format::utf8_in(pool, name) == Ok::<Seq<char>, Fault>(s),
        class_format::class_in(pool, class) is Ok,
        class_format::class_in(pool, class)->Ok_0.len() == s.len(),
        forall|i: int|
            0 <= i < s.len() ==> #[trigger] class_format::class_in(pool, class)->Ok_0[i] == (if s[i]
                == '/' {
                '.'
            } else {
                s[i]
            }),
{
}

/// Access flags, the class, its superclass and its interfaces stand one behind the other, and the
/// interfaces are read in the order they stand in. No superclass is told by the entry 0.
pub proof fn a_header_is_read_in_its_order(b: Seq<u8>, pool: Seq<ConstantView>, at: int, i: int)
    requires
        0 <= at,
        at + 8 <= b.len() <= usize::MAX,
        at + 8 + 2 * number(b, at + 6) <= b.len(),
        class_format::class_in(pool, number(b, at + 2) as u16) is Ok,
        number(b, at + 4) == 0 || class_format::class_in(pool, number(b, at + 4) as u16) is Ok,
        forall|k: int|
            0 <= k < number(b, at + 6) ==> (#[trigger] class_format::class_in(
                pool,
                number(b, at + 8 + 2 * k) as u16,
            )) is Ok,
    ensures
        class_format::header_at(b, pool, at) is Ok,
        ({
            let (header, end) = class_format::header_at(b, pool, at)->Ok_0;
            &&& header.access_flags == number(b, at)
            &&& header.this_class == class_format::class_in(pool, number(b, at + 2) as u16)->Ok_0
            &&& header.super_class == if number(b, at + 4) == 0 {
                None
            } else {
                Some(class_format::class_in(pool, number(b, at + 4) as u16)->Ok_0)
            }
            &&& header.interfaces.len() == number(b, at + 6)
            &&& 0 <= i < number(b, at + 6) ==> header.interfaces[i] == class_format::class_in(
                pool,
                number(b, at + 8 + 2 * i) as u16,
            )->Ok_0
            &&& end == at + 8 + 2 * number(b, at + 6)
        }),
{
    the_first_byte_counts_most(b, at);
    the_first_byte_counts_most(b, at + 2);
    the_first_byte_counts_most(b, at + 4);
    the_first_byte_counts_most(b, at + 6);
    classes_are_read(b, pool, at + 8, number(b, at + 6) as nat, i);
}

proof fn classes_are_read(b: Seq<u8>, pool: Seq<ConstantView>, at: int, n: nat, i: int)
    requires
        0 <= at,
        at + 2 * n <= b.len() <= usize::MAX,
        forall|k: int|
            0 <= k < n ==> (#[trigger] class_format::class_in(pool, number(b, at + 2 * k) as u16)) is Ok,
    ensures
        class_format::times(class_format::class_reader(b, pool), at, n) is Ok,
        class_format::times(class_format::class_reader(b, pool), at, n)->Ok_0.0.len() == n,
        0 <= i < n ==> class_format::times(class_format::class_reader(b, pool), at, n)->Ok_0.0[i]
            == class_format::class_in(pool, number(b, at + 2 * i) as u16)->Ok_0,
        class_format::times(class_format::class_reader(b, pool), at, n)->Ok_0.1 == at + 2 * n,
    decreases n,
{
    if n > 0 {
        let m = (n - 1) as nat;
        classes_are_read(b, pool, at, m, i);
        the_first_byte_counts_most(b, at + 2 * m);
        assert(class_format::class_in(pool, number(b, at + 2 * m) as u16) is Ok);
    }
}

/// An attribute is the entry of its name, its length, and as many bytes.
pub proof fn an_attribute_is_as_long_as_it_says(b: Seq<u8>, pool: Seq<ConstantView>, at: int, len: int)
    requires
        0 <= at,
        at + 6 <= b.len() <= usize::MAX,
        len == b[at + 2] * 16777216 + b[at + 3] * 65536 + b[at + 4] * 256 + b[at + 5],
        at + 6 + len <= b.len(),
    ensures
        class_format::skipped_attribute_at(b, at) == Ok::<((), int), Fault>(((), at + 6 + len)),
        class_format::utf8_in(pool, number(b, at) as u16) matches Ok(name)
            ==> class_format::attribute_at(b, pool, at) == Ok::<((Seq<char>, Seq<u8>), int), Fault>(
            ((name, b.subrange(at + 6, at + 6 + len)), at + 6 + len),
        ),
{
    the_first_byte_counts_most(b, at);
    the_first_byte_counts_most(b, at + 2);
}

/// A field is its access flags, the entries of its name and its descriptor, and attributes, which are passed
/// over.
pub proof fn a_field_is_read_in_its_order(
    b: Seq<u8>,
    pool: Seq<ConstantView>,
    at: int,
    name: Seq<char>,
    descriptor: Seq<char>,
)
    requires
        0 <= at,
        at + 8 <= b.len() <= usize::MAX,
        class_format::utf8_in(pool, number(b, at + 2) as u16) == Ok::<Seq<char>, Fault>(name),
        class_format::utf8_in(pool, number(b, at + 4) as u16) == Ok::<Seq<char>, Fault>(descriptor),
        class_format::times(
            class_format::skipped_attribute_reader(b),
            at + 8,
            number(b, at + 6) as nat,
        ) is Ok,
    ensures
        class_format::field_at(b, pool, at) == Ok::<(class_format::FieldView, int), Fault>(
            (
                class_format::FieldView { access_flags: number(b, at) as u16, name, descriptor },
                class_format::times(
                    class_format::skipped_attribute_reader(b),
                    at + 8,
                    number(b, at + 6) as nat,
                )->Ok_0.1,
            ),
        ),
{
    the_first_byte_counts_most(b, at);
    the_first_byte_counts_most(b, at + 2);
    the_first_byte_counts_most(b, at + 4);
    the_first_byte_counts_most(b, at + 6);
}

/// A table holds as many things as it says, each read where the one before it ended.
pub proof fn a_table_goes_on_where_it_ended<T>(one: spec_fn(int) -> Reading<T>, at: int, n: nat)
    ensures
        class_format::times(one, at, 0) == Ok::<(Seq<T>, int), Fault>((Seq::empty(), at)),
        class_format::times(one, at, n) matches Ok((found, end)) ==> (one(end) matches Ok((x, then))
            ==> class_format::times(one, at, n + 1) == Ok::<(Seq<T>, int), Fault>(
            (found.push(x), then),
        )),
{
}

/// A row of a line table is where the code of a line starts, and the line; the rows are read in the order
/// they stand in.
pub proof fn a_line_table_is_read_in_its_order(content: Seq<u8>, i: int)
    requires
        2 <= content.len() <= usize::MAX,
        2 + 4 * number(content, 0) <= content.len(),
    ensures
        class_format::line_table(content) is Ok,
        class_format::line_table(content)->Ok_0.len() == number(content, 0),
        0 <= i < number(content, 0) ==> class_format::line_table(content)->Ok_0[i].0 == number(
            content,
            2 + 4 * i,
        ) && class_format::line_table(content)->Ok_0[i].1 == number(content, 4 + 4 * i),
{
    the_first_byte_counts_most(content, 0);
    lines_are_read(content, number(content, 0) as nat, i);
}

proof fn lines_are_read(content: Seq<u8>, n: nat, i: int)
    requires
        2 + 4 * n <= content.len() <= usize::MAX,
    ensures
        ({
            let found = class_format::times(class_format::line_reader(content), 2, n);
            &&& found is Ok
            &&& found->Ok_0.0.len() == n
            &&& found->Ok_0.1 == 2 + 4 * n
            &&& 0 <= i < n ==> found->Ok_0.0[i].0 == number(content, 2 + 4 * i) && found->Ok_0.0[i].1
                == number(content, 4 + 4 * i)
        }),
    decreases n,
{
    if n > 0 {
        let m = (n - 1) as nat;
        lines_are_read(content, m, i);
        the_first_byte_counts_most(content, 2int + 4 * m);
        the_first_byte_counts_most(content, 4int + 4 * m);
    }
}

/// The content of a `Code` attribute: behind four bytes the length of the code and the code, then the
/// exception table, whose rows take eight bytes each and are passed over, then attributes. The code is what
/// stands there, whatever else does.
pub proof fn code_is_read_whatever_it_catches(
    content: Seq<u8>,
    pool: Seq<ConstantView>,
    len: int,
    caught: int,
)
    requires
        8 <= content.len() <= usize::MAX,
        len == content[4] * 16777216 + content[5] * 65536 + content[6] * 256 + content[7],
        8 + len + 2 <= content.len(),
        caught == number(content, 8 + len),
        12 + len + 8 * caught <= content.len(),
        class_format::first_line_table(
            content,
            pool,
            12 + len + 8 * caught,
            number(content, 10 + len + 8 * caught) as nat,
        ) is Ok,
    ensures
        class_format::code_body(content, pool) is Ok,
        ({
            let body = class_format::code_body(content, pool)->Ok_0;
            let lines = class_format::first_line_table(
                content,
                pool,
                12 + len + 8 * caught,
                number(content, 10 + len + 8 * caught) as nat,
            )->Ok_0;
            &&& body.has_code
            &&& body.code == content.subrange(8, 8 + len)
            &&& body.has_line_table == (lines is Some)
            &&& body.lines == match lines {
                Some(lines) => lines,
                None => Seq::empty(),
            }
        }),
{
    the_first_byte_counts_most(content, 4);
    the_first_byte_counts_most(content, 8 + len);
    the_first_byte_counts_most(content, 10 + len + 8 * caught);
}

/// The first attribute of the name `LineNumberTable` is the line table, and one of any other name is passed
/// over.
pub proof fn the_first_line_table_counts(
    b: Seq<u8>,
    pool: Seq<ConstantView>,
    at: int,
    n: nat,
    name: Seq<char>,
    content: Seq<u8>,
    end: int,
)
    requires
        class_format::attribute_at(b, pool, at) == Ok::<((Seq<char>, Seq<u8>), int), Fault>(
            ((name, content), end),
        ),
    ensures
        class_format::first_line_table(b, pool, at, 0) == Ok::<Option<Seq<(u64, i32)>>, Fault>(None),
        name != "LineNumberTable"@ ==> class_format::first_line_table(b, pool, at, n + 1)
            == class_format::first_line_table(b, pool, end, n),
        name == "LineNumberTable"@ ==> (class_format::line_table(content) matches Ok(lines)
            ==> class_format::first_line_table(b, pool, at, n + 1) == Ok::<
            Option<Seq<(u64, i32)>>,
            Fault,
        >(Some(lines))),
{
}

/// A method is its access flags, the entries of its name and its descriptor, and attributes, of which the
/// last of the name `Code` is its body and any other is passed over.
pub proof fn a_method_is_read_in_its_order(
    b: Seq<u8>,
    pool: Seq<ConstantView>,
    at: int,
    name: Seq<char>,
    descriptor: Seq<char>,
    n: nat,
)
    requires
        0 <= at,
        at + 8 <= b.len() <= usize::MAX,
        class_format::utf8_in(pool, number(b, at + 2) as u16) == Ok::<Seq<char>, Fault>(name),
        class_format::utf8_in(pool, number(b, at + 4) as u16) == Ok::<Seq<char>, Fault>(descriptor),
    ensures
        class_format::body_at(b, pool, at + 8, number(b, at + 6) as nat) matches Ok((body, end))
            ==> class_format::method_at(b, pool, at) == Ok::<(class_format::MethodView, int), Fault>(
            (
                class_format::MethodView {
                    access_flags: number(b, at) as u16,
                    name,
                    descriptor,
                    body,
                },
                end,
            ),
        ),
        class_format::body_at(b, pool, at, 0) is Ok,
        !class_format::body_at(b, pool, at, 0)->Ok_0.0.has_code,
        class_format::body_at(b, pool, at, 0)->Ok_0.1 == at,
        class_format::body_at(b, pool, at, n) matches Ok((body, next)) ==> (
        class_format::attribute_at(b, pool, next) matches Ok(((named, content), end)) ==> {
            &&& named != "Code"@ ==> class_format::body_at(b, pool, at, n + 1) == Ok::<
                (class_format::BodyView, int),
                Fault,
            >((body, end))
            &&& named == "Code"@ ==> (class_format::code_body(content, pool) matches Ok(newer)
                ==> class_format::body_at(b, pool, at, n + 1) == Ok::<
                (class_format::BodyView, int),
                Fault,
            >((newer, end)))
        }),
{
    the_first_byte_counts_most(b, at);
    the_first_byte_counts_most(b, at + 2);
    the_first_byte_counts_most(b, at + 4);
    the_first_byte_counts_most(b, at + 6);
}

/// A class file is the magic, four bytes that are passed over, the constant pool, the header, the fields and
/// the methods, in this order, and says all that they say.
pub proof fn a_class_file_is_read_in_its_order(b: Seq<u8>)
    requires
        8 <= b.len() <= usize::MAX,
        b[0] == 0xCA && b[1] == 0xFE && b[2] == 0xBA && b[3] == 0xBE,
    ensures
        class_format::pool_at(b, 8) matches Ok((pool, at)) ==> (class_format::header_at(b, pool, at)
            matches Ok((header, behind)) ==> (class_format::table_at(
            b,
            class_format::field_reader(b, pool),
            behind,
        ) matches Ok((fields, next)) ==> (class_format::table_at(
            b,
            class_format::method_reader(b, pool),
            next,
        ) matches Ok((methods, _)) ==> {
            &&& class_format::class_file(b) is Ok
            &&& class_format::class_file(b)->Ok_0.this_class == header.this_class
            &&& class_format::class_file(b)->Ok_0.access_flags == header.access_flags
            &&& class_format::class_file(b)->Ok_0.super_class == header.super_class
            &&& class_format::class_file(b)->Ok_0.interfaces == header.interfaces
            &&& class_format::class_file(b)->Ok_0.fields == fields
            &&& class_format::class_file(b)->Ok_0.methods == methods
        }))),
{
    the_first_byte_counts_most(b, 0);
}

} // verus!
