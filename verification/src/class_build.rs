//! Class files made from a stated shape: what is emitted is what [`crate::classfile::parse`] reads.
//!
//! Only what the parser reads is emitted. A JVM would not load the result.

use crate::class_format;
use crate::class_format::{BodyView, ClassView, ConstantView, FieldView, MethodView};
use crate::text;
use vstd::prelude::*;

verus! {

/// A method to emit.
#[derive(Debug)]
pub struct Method {
    pub name: &'static str,
    pub descriptor: &'static str,
    pub access_flags: u16,
    /// Where the code of each line starts, and the line. Code without lines gets no line table.
    pub lines: Vec<(u16, u16)>,
    /// Whether there is a `Code` attribute.
    pub has_code: bool,
    pub code: Vec<u8>,
}

impl Method {
    /// A method with a line table.
    pub fn new(name: &'static str, descriptor: &'static str, lines: &[(u16, u16)]) -> (r: Self)
        ensures
            r.name == name,
            r.descriptor == descriptor,
            r.access_flags == 1,
            r.lines@ == lines@,
            r.has_code,
            r.code@ == seq![0xB1u8],
    {
        let mut code: Vec<u8> = Vec::new();
        code.push(0xB1);
        assert(code@ =~= seq![0xB1u8]);
        Method {
            name,
            descriptor,
            access_flags: 1,
            lines: vstd::slice::slice_to_vec(lines),
            has_code: true,
            code,
        }
    }

    /// A method with code and no line table.
    pub fn stripped(name: &'static str, descriptor: &'static str) -> (r: Self)
        ensures
            r.name == name,
            r.descriptor == descriptor,
            r.access_flags == 1,
            r.lines@ == Seq::<(u16, u16)>::empty(),
            r.has_code,
            r.code@ == seq![0xB1u8],
    {
        let mut method = Method::new(name, descriptor, &[]);
        method.lines = Vec::new();
        method
    }

    /// A method without code: abstract or native.
    pub fn bodyless(name: &'static str, descriptor: &'static str) -> (r: Self)
        ensures
            r.name == name,
            r.descriptor == descriptor,
            r.access_flags == 1,
            r.lines@ == Seq::<(u16, u16)>::empty(),
            !r.has_code,
            r.code@ == Seq::<u8>::empty(),
    {
        let mut method = Method::stripped(name, descriptor);
        method.has_code = false;
        method.code = Vec::new();
        method
    }

    /// The same method with other code.
    pub fn with_code(self, code: &[u8]) -> (r: Self)
        ensures
            r == (Method { code: r.code, ..self }),
            r.code@ == code@,
    {
        let mut method = self;
        method.code = vstd::slice::slice_to_vec(code);
        method
    }
}

// ---------------------------------------------------------------------------------------------
// What is emitted
// ---------------------------------------------------------------------------------------------
/// Two bytes, the first the more significant.
#[verifier::opaque]
pub open spec fn be16(n: int) -> Seq<u8> {
    seq![(n / 256) as u8, (n % 256) as u8]
}

/// Four bytes, as two halves of two.
#[verifier::opaque]
pub open spec fn be32(n: int) -> Seq<u8> {
    be16(n / 65536) + be16(n % 65536)
}

/// A text in the constant pool.
pub open spec fn text_entry(s: Seq<char>) -> Seq<u8> {
    let bytes = vstd::utf8::encode_utf8(s);
    seq![1u8] + (be16(bytes.len() as int) + bytes)
}

/// A class in the constant pool, by the entry of its name.
pub open spec fn class_entry(name: int) -> Seq<u8> {
    seq![7u8] + be16(name)
}

/// The names and descriptors of methods, in the constant pool.
pub open spec fn member_entries(methods: Seq<Method>) -> Seq<u8>
    decreases methods.len(),
{
    if methods.len() == 0 {
        Seq::empty()
    } else {
        member_entries(methods.drop_last()) + (text_entry(methods.last().name@) + text_entry(
            methods.last().descriptor@,
        ))
    }
}

/// The name of a class as the format writes it.
pub open spec fn internal(this_class: Seq<char>) -> Seq<char> {
    text::swapped(this_class, '.', '/')
}

/// The entries of the constant pool that every class has.
pub open spec fn own_entries(this_class: Seq<char>) -> Seq<u8> {
    text_entry(internal(this_class)) + (class_entry(1) + (text_entry("java/lang/Object"@) + (
    class_entry(3) + (text_entry("Code"@) + text_entry("LineNumberTable"@)))))
}

/// The rows of a line table.
pub open spec fn line_rows(lines: Seq<(u16, u16)>) -> Seq<u8>
    decreases lines.len(),
{
    if lines.len() == 0 {
        Seq::empty()
    } else {
        line_rows(lines.drop_last()) + (be16(lines.last().0 as int) + be16(lines.last().1 as int))
    }
}

/// The attributes of the code of a method: its line table, where it has lines.
pub open spec fn code_attributes(lines: Seq<(u16, u16)>) -> Seq<u8> {
    if lines.len() == 0 {
        be16(0)
    } else {
        be16(1) + (be16(6) + (be32((2 + 4 * lines.len()) as int) + (be16(lines.len() as int) + line_rows(
            lines,
        ))))
    }
}

/// The content of the `Code` attribute of a method.
pub open spec fn code_content(method: Method) -> Seq<u8> {
    be16(1) + (be16(1) + (be32(method.code@.len() as int) + (method.code@ + (be16(0)
        + code_attributes(method.lines@)))))
}

/// The attributes of a method: its code, where it has any.
pub open spec fn method_attributes(method: Method) -> Seq<u8> {
    if method.has_code {
        let content = code_content(method);
        be16(1) + (be16(5) + (be32(content.len() as int) + content))
    } else {
        be16(0)
    }
}

/// The method whose name is at `name` in the constant pool.
pub open spec fn method_bytes(method: Method, name: int) -> Seq<u8> {
    be16(method.access_flags as int) + (be16(name) + (be16(name + 1) + method_attributes(method)))
}

/// Methods, one behind the other.
pub open spec fn methods_bytes(methods: Seq<Method>) -> Seq<u8>
    decreases methods.len(),
{
    if methods.len() == 0 {
        Seq::empty()
    } else {
        methods_bytes(methods.drop_last()) + method_bytes(
            methods.last(),
            (5 + 2 * methods.len()) as int,
        )
    }
}

/// What stands behind the constant pool.
pub open spec fn declared(methods: Seq<Method>) -> Seq<u8> {
    be16(0x21) + (be16(2) + (be16(4) + (be16(0) + (be16(0) + (be16(methods.len() as int)
        + methods_bytes(methods))))))
}

/// The file of a class.
pub open spec fn emitted(this_class: Seq<char>, methods: Seq<Method>) -> Seq<u8> {
    be32(0xCAFE_BABE) + (seq![0u8, 0u8, 0u8, 65u8] + (be16((7 + 2 * methods.len()) as int) + (own_entries(
        this_class,
    ) + (member_entries(methods) + declared(methods)))))
}

/// Whether a text is short enough for the constant pool.
pub open spec fn text_fits(s: Seq<char>) -> bool {
    vstd::utf8::encode_utf8(s).len() <= 0xFFFF
}

/// Whether the counts of a method fit the format.
pub open spec fn method_fits(method: Method) -> bool {
    &&& text_fits(method.name@)
    &&& text_fits(method.descriptor@)
    &&& method.lines@.len() <= 0xFFFF
    &&& method.code@.len() <= 0xFFFF_FFFF
    &&& code_content(method).len() <= 0xFFFF_FFFF
}

/// Whether the counts of a class fit the format: the constant pool has an index for every name.
pub open spec fn class_fits(this_class: Seq<char>, methods: Seq<Method>) -> bool {
    &&& text_fits(internal(this_class))
    &&& 7 + 2 * methods.len() <= 0xFFFF
    &&& forall|i: int| 0 <= i < methods.len() ==> method_fits(#[trigger] methods[i])
}

// ---------------------------------------------------------------------------------------------
// What is read
// ---------------------------------------------------------------------------------------------
/// A row of a line table as it is read.
pub open spec fn line_view(line: (u16, u16)) -> (u64, i32) {
    (line.0 as u64, line.1 as i32)
}

/// A method as it is read.
pub open spec fn shape_of(method: Method) -> MethodView {
    MethodView {
        access_flags: method.access_flags,
        name: method.name@,
        descriptor: method.descriptor@,
        body: if method.has_code {
            BodyView {
                has_code: true,
                has_line_table: method.lines@.len() > 0,
                lines: method.lines@.map_values(|l: (u16, u16)| line_view(l)),
                code: method.code@,
            }
        } else {
            class_format::no_body()
        },
    }
}

/// A class as it is read: dotted, below `java.lang.Object`, with the stated methods and no fields.
pub open spec fn class_shape(this_class: Seq<char>, methods: Seq<Method>) -> ClassView {
    ClassView {
        this_class: text::swapped(this_class, '/', '.'),
        access_flags: 0x21,
        super_class: Some("java.lang.Object"@),
        interfaces: Seq::empty(),
        fields: Seq::empty(),
        methods: methods.map_values(|m: Method| shape_of(m)),
    }
}

// ---------------------------------------------------------------------------------------------
// Reading back
// ---------------------------------------------------------------------------------------------
/// Whether `piece` stands at `at` in `b`.
#[verifier::opaque]
spec fn stands(b: Seq<u8>, at: int, piece: Seq<u8>) -> bool {
    &&& 0 <= at
    &&& at + piece.len() <= b.len() <= usize::MAX
    &&& b.subrange(at, at + piece.len()) == piece
}

broadcast proof fn two_bytes(n: int)
    ensures
        (#[trigger] be16(n)).len() == 2,
{
    reveal(be16);
}

broadcast proof fn four_bytes(n: int)
    ensures
        (#[trigger] be32(n)).len() == 4,
{
    reveal(be16);
    reveal(be32);
}

/// What stands as a whole stands at its own start.
proof fn all_stands(b: Seq<u8>)
    requires
        b.len() <= usize::MAX,
    ensures
        stands(b, 0, b),
{
    reveal(stands);
    assert(b.subrange(0, b.len() as int) =~= b);
}

proof fn parts_stand(b: Seq<u8>, at: int, p: Seq<u8>, q: Seq<u8>)
    requires
        stands(b, at, p + q),
    ensures
        stands(b, at, p),
        stands(b, at + p.len(), q),
{
    reveal(stands);
    let whole = b.subrange(at, at + (p + q).len());
    assert(b.subrange(at, at + p.len()) =~= p) by {
        assert forall|i: int| 0 <= i < p.len() implies b[at + i] == p[i] by {
            assert(whole[i] == (p + q)[i]);
        }
    }
    assert(b.subrange(at + p.len(), at + p.len() + q.len()) =~= q) by {
        assert forall|i: int| 0 <= i < q.len() implies b[at + p.len() + i] == q[i] by {
            assert(whole[p.len() + i] == (p + q)[p.len() + i]);
        }
    }
}

proof fn reads8(b: Seq<u8>, at: int, n: u8)
    requires
        stands(b, at, seq![n]),
    ensures
        class_format::u8_at(b, at) == Ok::<(u8, int), class_format::Fault>((n, at + 1)),
{
    reveal(stands);
    assert(b.subrange(at, at + 1)[0] == n);
}

proof fn reads16(b: Seq<u8>, at: int, n: int)
    requires
        stands(b, at, be16(n)),
        0 <= n <= 0xFFFF,
    ensures
        class_format::u16_at(b, at) == Ok::<(u16, int), class_format::Fault>((n as u16, at + 2)),
{
    reveal(stands);
    reveal(be16);
    let piece = b.subrange(at, at + 2);
    assert(piece[0] == be16(n)[0] && piece[1] == be16(n)[1]);
    assert(b[at] == (n / 256) as u8 && b[at + 1] == (n % 256) as u8);
}

proof fn reads32(b: Seq<u8>, at: int, n: int)
    requires
        stands(b, at, be32(n)),
        0 <= n <= 0xFFFF_FFFF,
    ensures
        class_format::u32_at(b, at) == Ok::<(u32, int), class_format::Fault>((n as u32, at + 4)),
{
    broadcast use {two_bytes, four_bytes};

    reveal(be32);
    parts_stand(b, at, be16(n / 65536), be16(n % 65536));
    reads16(b, at, n / 65536);
    reads16(b, at + 2, n % 65536);
}

proof fn reads_bytes(b: Seq<u8>, at: int, bytes: Seq<u8>)
    requires
        stands(b, at, bytes),
    ensures
        class_format::bytes_at(b, at, bytes.len() as int) == Ok::<
            (Seq<u8>, int),
            class_format::Fault,
        >((bytes, at + bytes.len())),
{
    reveal(stands);
}

proof fn an_entry_reads(b: Seq<u8>, at: int, s: Seq<char>, pool: Seq<ConstantView>, count: nat)
    requires
        stands(b, at, text_entry(s)),
        text_fits(s),
        pool.len() < count <= 0xFFFF,
    ensures
        class_format::pool_from(b, at, pool, count) == class_format::pool_from(
            b,
            at + text_entry(s).len(),
            pool.push(ConstantView::Utf8(s)),
            count,
        ),
{
    broadcast use {two_bytes, vstd::utf8::encode_utf8_valid_utf8, vstd::utf8::encode_utf8_decode_utf8};

    let bytes = vstd::utf8::encode_utf8(s);
    parts_stand(b, at, seq![1u8], be16(bytes.len() as int) + bytes);
    reads8(b, at, 1);
    parts_stand(b, at + 1, be16(bytes.len() as int), bytes);
    reads16(b, at + 1, bytes.len() as int);
    reads_bytes(b, at + 3, bytes);
    assert(pool + class_format::slots(1, ConstantView::Utf8(s)) =~= pool.push(
        ConstantView::Utf8(s),
    ));
}

proof fn a_class_entry_reads(b: Seq<u8>, at: int, name: int, pool: Seq<ConstantView>, count: nat)
    requires
        stands(b, at, class_entry(name)),
        0 <= name <= 0xFFFF,
        pool.len() < count <= 0xFFFF,
    ensures
        class_format::pool_from(b, at, pool, count) == class_format::pool_from(
            b,
            at + 3,
            pool.push(ConstantView::Class(name as u16)),
            count,
        ),
{
    broadcast use {two_bytes, four_bytes};

    parts_stand(b, at, seq![7u8], be16(name));
    reads8(b, at, 7);
    reads16(b, at + 1, name);
    assert(pool + class_format::slots(7, ConstantView::Class(name as u16)) =~= pool.push(
        ConstantView::Class(name as u16),
    ));
}

/// The pool of a class without methods.
spec fn own_pool(this_class: Seq<char>) -> Seq<ConstantView> {
    seq![
        ConstantView::Other,
        ConstantView::Utf8(internal(this_class)),
        ConstantView::Class(1),
        ConstantView::Utf8("java/lang/Object"@),
        ConstantView::Class(3),
        ConstantView::Utf8("Code"@),
        ConstantView::Utf8("LineNumberTable"@),
    ]
}

/// The pool of a class.
spec fn whole_pool(this_class: Seq<char>, methods: Seq<Method>) -> Seq<ConstantView>
    decreases methods.len(),
{
    if methods.len() == 0 {
        own_pool(this_class)
    } else {
        whole_pool(this_class, methods.drop_last()).push(
            ConstantView::Utf8(methods.last().name@),
        ).push(ConstantView::Utf8(methods.last().descriptor@))
    }
}

proof fn the_pool_holds(this_class: Seq<char>, methods: Seq<Method>)
    ensures
        whole_pool(this_class, methods).len() == 7 + 2 * methods.len(),
        whole_pool(this_class, methods).take(7) == own_pool(this_class),
        forall|i: int|
            0 <= i < methods.len() ==> whole_pool(this_class, methods)[7 + 2 * i]
                == ConstantView::Utf8((#[trigger] methods[i]).name@) && whole_pool(
                this_class,
                methods,
            )[8 + 2 * i] == ConstantView::Utf8(methods[i].descriptor@),
    decreases methods.len(),
{
    if methods.len() == 0 {
        assert(own_pool(this_class).take(7) =~= own_pool(this_class));
    } else {
        let rest = methods.drop_last();
        the_pool_holds(this_class, rest);
        let pool = whole_pool(this_class, methods);
        assert(pool.take(7) =~= whole_pool(this_class, rest).take(7));
        assert forall|i: int| 0 <= i < methods.len() implies pool[7 + 2 * i]
            == ConstantView::Utf8((#[trigger] methods[i]).name@) && pool[8 + 2 * i]
            == ConstantView::Utf8(methods[i].descriptor@) by {
            if i < rest.len() {
                assert(rest[i] == methods[i]);
            }
        }
    }
}

proof fn own_entries_read(b: Seq<u8>, at: int, this_class: Seq<char>, count: nat)
    requires
        stands(b, at, own_entries(this_class)),
        text_fits(internal(this_class)),
        7 <= count <= 0xFFFF,
    ensures
        class_format::pool_from(b, at, seq![ConstantView::Other], count)
            == class_format::pool_from(
            b,
            at + own_entries(this_class).len(),
            own_pool(this_class),
            count,
        ),
{
    broadcast use {two_bytes, four_bytes};

    the_format_names_fit();
    let a = text_entry(internal(this_class));
    let c = text_entry("java/lang/Object"@);
    let e = text_entry("Code"@);
    let f = text_entry("LineNumberTable"@);
    let at1 = at + a.len();
    let at2 = at1 + 3;
    let at3 = at2 + c.len();
    let at4 = at3 + 3;
    let at5 = at4 + e.len();
    parts_stand(b, at, a, class_entry(1) + (c + (class_entry(3) + (e + f))));
    parts_stand(b, at1, class_entry(1), c + (class_entry(3) + (e + f)));
    parts_stand(b, at2, c, class_entry(3) + (e + f));
    parts_stand(b, at3, class_entry(3), e + f);
    parts_stand(b, at4, e, f);
    let p0: Seq<ConstantView> = seq![ConstantView::Other];
    let p1 = p0.push(ConstantView::Utf8(internal(this_class)));
    let p2 = p1.push(ConstantView::Class(1));
    let p3 = p2.push(ConstantView::Utf8("java/lang/Object"@));
    let p4 = p3.push(ConstantView::Class(3));
    let p5 = p4.push(ConstantView::Utf8("Code"@));
    let p6 = p5.push(ConstantView::Utf8("LineNumberTable"@));
    an_entry_reads(b, at, internal(this_class), p0, count);
    a_class_entry_reads(b, at1, 1, p1, count);
    an_entry_reads(b, at2, "java/lang/Object"@, p2, count);
    a_class_entry_reads(b, at3, 3, p3, count);
    an_entry_reads(b, at4, "Code"@, p4, count);
    an_entry_reads(b, at5, "LineNumberTable"@, p5, count);
    assert(p6 =~= own_pool(this_class));
    assert(own_entries(this_class).len() == a.len() + 3 + c.len() + 3 + e.len() + f.len());
}

proof fn the_format_names_fit()
    ensures
        text_fits("java/lang/Object"@),
        text_fits("Code"@),
        text_fits("LineNumberTable"@),
{
    reveal_strlit("java/lang/Object");
    reveal_strlit("Code");
    reveal_strlit("LineNumberTable");
    vstd::utf8::is_ascii_chars_encode_utf8("java/lang/Object"@);
    vstd::utf8::is_ascii_chars_encode_utf8("Code"@);
    vstd::utf8::is_ascii_chars_encode_utf8("LineNumberTable"@);
}

proof fn member_entries_read(
    b: Seq<u8>,
    at: int,
    this_class: Seq<char>,
    methods: Seq<Method>,
    count: nat,
)
    requires
        stands(b, at, member_entries(methods)),
        7 + 2 * methods.len() <= count <= 0xFFFF,
        forall|i: int| 0 <= i < methods.len() ==> method_fits(#[trigger] methods[i]),
    ensures
        class_format::pool_from(b, at, own_pool(this_class), count) == class_format::pool_from(
            b,
            at + member_entries(methods).len(),
            whole_pool(this_class, methods),
            count,
        ),
    decreases methods.len(),
{
    broadcast use {two_bytes, four_bytes};

    if methods.len() > 0 {
        let rest = methods.drop_last();
        let last = methods.last();
        let name = text_entry(last.name@);
        let descriptor = text_entry(last.descriptor@);
        assert(method_fits(methods[methods.len() - 1]));
        assert forall|i: int| 0 <= i < rest.len() implies method_fits(#[trigger] rest[i]) by {
            assert(rest[i] == methods[i]);
        }
        parts_stand(b, at, member_entries(rest), name + descriptor);
        let then = at + member_entries(rest).len();
        parts_stand(b, then, name, descriptor);
        member_entries_read(b, at, this_class, rest, count);
        the_pool_holds(this_class, rest);
        let pool = whole_pool(this_class, rest);
        an_entry_reads(b, then, last.name@, pool, count);
        an_entry_reads(
            b,
            then + name.len(),
            last.descriptor@,
            pool.push(ConstantView::Utf8(last.name@)),
            count,
        );
    }
}

proof fn line_rows_read(b: Seq<u8>, at: int, lines: Seq<(u16, u16)>)
    requires
        stands(b, at, line_rows(lines)),
    ensures
        line_rows(lines).len() == 4 * lines.len(),
        class_format::times(class_format::line_reader(b), at, lines.len()) == Ok::<
            (Seq<(u64, i32)>, int),
            class_format::Fault,
        >((lines.map_values(|l: (u16, u16)| line_view(l)), at + line_rows(lines).len())),
    decreases lines.len(),
{
    broadcast use {two_bytes, four_bytes};

    let all = lines.map_values(|l: (u16, u16)| line_view(l));
    if lines.len() == 0 {
        assert(all =~= Seq::empty());
    } else {
        let rest = lines.drop_last();
        let (pc, line) = lines.last();
        parts_stand(b, at, line_rows(rest), be16(pc as int) + be16(line as int));
        line_rows_read(b, at, rest);
        let then = at + line_rows(rest).len();
        parts_stand(b, then, be16(pc as int), be16(line as int));
        reads16(b, then, pc as int);
        reads16(b, then + 2, line as int);
        assert(all =~= rest.map_values(|l: (u16, u16)| line_view(l)).push(line_view(lines.last())));
    }
}

proof fn line_rows_len(lines: Seq<(u16, u16)>)
    ensures
        line_rows(lines).len() == 4 * lines.len(),
    decreases lines.len(),
{
    broadcast use {two_bytes, four_bytes};

    if lines.len() > 0 {
        line_rows_len(lines.drop_last());
    }
}

/// Whether the pool has the format's own names where they are looked for.
spec fn is_pool(pool: Seq<ConstantView>) -> bool {
    &&& pool.len() >= 7
    &&& pool[5] == ConstantView::Utf8("Code"@)
    &&& pool[6] == ConstantView::Utf8("LineNumberTable"@)
}

proof fn a_line_table_reads(
    b: Seq<u8>,
    at: int,
    pool: Seq<ConstantView>,
    lines: Seq<(u16, u16)>,
)
    requires
        stands(b, at, code_attributes(lines)),
        is_pool(pool),
        lines.len() <= 0xFFFF,
    ensures
        ({
            let n: nat = if lines.len() == 0 {
                0
            } else {
                1
            };
            &&& class_format::u16_at(b, at) == Ok::<(u16, int), class_format::Fault>(
                (n as u16, at + 2),
            )
            &&& class_format::first_line_table(b, pool, at + 2, n) == Ok::<
                Option<Seq<(u64, i32)>>,
                class_format::Fault,
            >(
                if lines.len() == 0 {
                    None
                } else {
                    Some(lines.map_values(|l: (u16, u16)| line_view(l)))
                },
            )
        }),
{
    broadcast use {two_bytes, four_bytes};

    if lines.len() == 0 {
        reads16(b, at, 0);
    } else {
        let n = lines.len() as int;
        let table = be16(n) + line_rows(lines);
        line_rows_len(lines);
        assert(table.len() == 2 + 4 * n);
        parts_stand(b, at, be16(1), be16(6) + (be32(2 + 4 * n) + table));
        parts_stand(b, at + 2, be16(6), be32(2 + 4 * n) + table);
        parts_stand(b, at + 4, be32(2 + 4 * n), table);
        reads16(b, at, 1);
        reads16(b, at + 2, 6);
        reads32(b, at + 4, 2 + 4 * n);
        reads_bytes(b, at + 8, table);
        all_stands(table);
        parts_stand(table, 0, be16(n), line_rows(lines));
        reads16(table, 0, n);
        line_rows_read(table, 2, lines);
        reveal_with_fuel(class_format::first_line_table, 2);
    }
}

proof fn a_code_attribute_reads(pool: Seq<ConstantView>, method: Method)
    requires
        is_pool(pool),
        method_fits(method),
        code_content(method).len() <= usize::MAX,
    ensures
        class_format::code_body(code_content(method), pool) == Ok::<BodyView, class_format::Fault>(
            BodyView {
                has_code: true,
                has_line_table: method.lines@.len() > 0,
                lines: method.lines@.map_values(|l: (u16, u16)| line_view(l)),
                code: method.code@,
            },
        ),
{
    broadcast use {two_bytes, four_bytes};

    let b = code_content(method);
    let code = method.code@;
    let rest = code_attributes(method.lines@);
    all_stands(b);
    let n = code.len() as int;
    parts_stand(b, 0, be16(1), be16(1) + (be32(n) + (code + (be16(0) + rest))));
    parts_stand(b, 2, be16(1), be32(n) + (code + (be16(0) + rest)));
    parts_stand(b, 4, be32(n), code + (be16(0) + rest));
    parts_stand(b, 8, code, be16(0) + rest);
    parts_stand(b, 8 + n, be16(0), rest);
    reads32(b, 4, n);
    reads_bytes(b, 8, code);
    reads16(b, 8 + n, 0);
    a_line_table_reads(b, 10 + n, pool, method.lines@);
    if method.lines@.len() == 0 {
        assert(method.lines@.map_values(|l: (u16, u16)| line_view(l)) =~= Seq::empty());
    }
}

/// The attribute that holds `content` under the name `Code`.
proof fn a_named_attribute_reads(b: Seq<u8>, at: int, pool: Seq<ConstantView>, content: Seq<u8>)
    requires
        stands(b, at, be16(5) + (be32(content.len() as int) + content)),
        is_pool(pool),
        content.len() <= 0xFFFF_FFFF,
    ensures
        class_format::attribute_at(b, pool, at) == Ok::<
            ((Seq<char>, Seq<u8>), int),
            class_format::Fault,
        >((("Code"@, content), at + 6 + content.len())),
{
    broadcast use {two_bytes, four_bytes};

    let n = content.len() as int;
    parts_stand(b, at, be16(5), be32(n) + content);
    parts_stand(b, at + 2, be32(n), content);
    reads16(b, at, 5);
    reads32(b, at + 2, n);
    reads_bytes(b, at + 6, content);
}

/// A method with one attribute, `Code`, has the body that its content says.
proof fn one_attribute_is_the_body(
    b: Seq<u8>,
    at: int,
    pool: Seq<ConstantView>,
    content: Seq<u8>,
    body: BodyView,
    end: int,
)
    requires
        class_format::attribute_at(b, pool, at) == Ok::<
            ((Seq<char>, Seq<u8>), int),
            class_format::Fault,
        >((("Code"@, content), end)),
        class_format::code_body(content, pool) == Ok::<BodyView, class_format::Fault>(body),
    ensures
        class_format::body_at(b, pool, at, 1) == Ok::<(BodyView, int), class_format::Fault>(
            (body, end),
        ),
{
    assert(class_format::body_at(b, pool, at, 0) == Ok::<(BodyView, int), class_format::Fault>(
        (class_format::no_body(), at),
    ));
}

proof fn a_body_reads(b: Seq<u8>, at: int, pool: Seq<ConstantView>, method: Method)
    requires
        stands(b, at, method_attributes(method)),
        is_pool(pool),
        method_fits(method),
    ensures
        ({
            let n: nat = if method.has_code {
                1
            } else {
                0
            };
            &&& class_format::u16_at(b, at) == Ok::<(u16, int), class_format::Fault>(
                (n as u16, at + 2),
            )
            &&& class_format::body_at(b, pool, at + 2, n) == Ok::<
                (BodyView, int),
                class_format::Fault,
            >((shape_of(method).body, at + method_attributes(method).len()))
        }),
{
    broadcast use {two_bytes, four_bytes};

    let content = code_content(method);
    if method.has_code {
        let n = content.len() as int;
        parts_stand(b, at, be16(1), be16(5) + (be32(n) + content));
        reads16(b, at, 1);
        assert(n <= usize::MAX) by {
            reveal(stands);
        }
        a_named_attribute_reads(b, at + 2, pool, content);
        a_code_attribute_reads(pool, method);
        one_attribute_is_the_body(b, at + 2, pool, content, shape_of(method).body, at + 8 + n);
        assert(method_attributes(method).len() == 8 + n);
    } else {
        reads16(b, at, 0);
    }
}

proof fn a_method_reads(b: Seq<u8>, at: int, pool: Seq<ConstantView>, method: Method, name: int)
    requires
        stands(b, at, method_bytes(method, name)),
        is_pool(pool),
        method_fits(method),
        7 <= name,
        name + 1 < pool.len() <= 0xFFFF,
        pool[name] == ConstantView::Utf8(method.name@),
        pool[name + 1] == ConstantView::Utf8(method.descriptor@),
    ensures
        class_format::method_at(b, pool, at) == Ok::<(MethodView, int), class_format::Fault>(
            (shape_of(method), at + method_bytes(method, name).len()),
        ),
{
    broadcast use {two_bytes, four_bytes};

    let body = method_attributes(method);
    let flags = method.access_flags as int;
    parts_stand(b, at, be16(flags), be16(name) + (be16(name + 1) + body));
    parts_stand(b, at + 2, be16(name), be16(name + 1) + body);
    parts_stand(b, at + 4, be16(name + 1), body);
    reads16(b, at, flags);
    reads16(b, at + 2, name);
    reads16(b, at + 4, name + 1);
    a_body_reads(b, at + 6, pool, method);
}

proof fn methods_read(
    b: Seq<u8>,
    at: int,
    pool: Seq<ConstantView>,
    methods: Seq<Method>,
)
    requires
        stands(b, at, methods_bytes(methods)),
        is_pool(pool),
        7 + 2 * methods.len() <= pool.len() <= 0xFFFF,
        forall|i: int| 0 <= i < methods.len() ==> method_fits(#[trigger] methods[i]),
        forall|i: int|
            0 <= i < methods.len() ==> pool[7 + 2 * i] == ConstantView::Utf8(
                (#[trigger] methods[i]).name@,
            ) && pool[8 + 2 * i] == ConstantView::Utf8(methods[i].descriptor@),
    ensures
        class_format::times(class_format::method_reader(b, pool), at, methods.len()) == Ok::<
            (Seq<MethodView>, int),
            class_format::Fault,
        >(
            (
                methods.map_values(|m: Method| shape_of(m)),
                at + methods_bytes(methods).len(),
            ),
        ),
    decreases methods.len(),
{
    broadcast use {two_bytes, four_bytes};

    let all = methods.map_values(|m: Method| shape_of(m));
    if methods.len() == 0 {
        assert(all =~= Seq::empty());
    } else {
        let rest = methods.drop_last();
        let last = methods.last();
        let name = 5 + 2 * methods.len();
        assert(methods[methods.len() - 1] == last);
        assert forall|i: int| 0 <= i < rest.len() implies method_fits(#[trigger] rest[i])
            && pool[7 + 2 * i] == ConstantView::Utf8(rest[i].name@) && pool[8 + 2 * i]
            == ConstantView::Utf8(rest[i].descriptor@) by {
            assert(rest[i] == methods[i]);
        }
        parts_stand(b, at, methods_bytes(rest), method_bytes(last, name as int));
        methods_read(b, at, pool, rest);
        a_method_reads(b, at + methods_bytes(rest).len(), pool, last, name as int);
        assert(all =~= rest.map_values(|m: Method| shape_of(m)).push(shape_of(last)));
    }
}

proof fn own_names_read(this_class: Seq<char>, methods: Seq<Method>)
    ensures
        ({
            let pool = whole_pool(this_class, methods);
            &&& is_pool(pool)
            &&& class_format::class_in(pool, 2) == Ok::<Seq<char>, class_format::Fault>(
                text::swapped(this_class, '/', '.'),
            )
            &&& class_format::class_in(pool, 4) == Ok::<Seq<char>, class_format::Fault>(
                "java.lang.Object"@,
            )
        }),
{
    let pool = whole_pool(this_class, methods);
    the_pool_holds(this_class, methods);
    assert forall|i: int| 0 <= i < 7 implies pool[i] == #[trigger] own_pool(this_class)[i] by {
        assert(pool.take(7)[i] == own_pool(this_class)[i]);
    }
    assert(own_pool(this_class)[1] == ConstantView::Utf8(internal(this_class)));
    assert(own_pool(this_class)[2] == ConstantView::Class(1));
    assert(own_pool(this_class)[3] == ConstantView::Utf8("java/lang/Object"@));
    assert(own_pool(this_class)[4] == ConstantView::Class(3));
    assert(own_pool(this_class)[5] == ConstantView::Utf8("Code"@));
    assert(own_pool(this_class)[6] == ConstantView::Utf8("LineNumberTable"@));
    assert(text::swapped(internal(this_class), '/', '.') =~= text::swapped(this_class, '/', '.'));
    reveal_strlit("java/lang/Object");
    reveal_strlit("java.lang.Object");
    assert(text::swapped("java/lang/Object"@, '/', '.') =~= "java.lang.Object"@);
}

proof fn an_empty_table_reads<T>(b: Seq<u8>, at: int, one: spec_fn(int) -> class_format::Reading<T>)
    requires
        stands(b, at, be16(0)),
    ensures
        class_format::table_at(b, one, at) == Ok::<(Seq<T>, int), class_format::Fault>(
            (Seq::empty(), at + 2),
        ),
{
    reads16(b, at, 0);
}

proof fn declarations_read(b: Seq<u8>, at: int, this_class: Seq<char>, methods: Seq<Method>)
    requires
        stands(b, at, declared(methods)),
        class_fits(this_class, methods),
    ensures
        class_format::declarations(b, whole_pool(this_class, methods), at) == Ok::<
            ClassView,
            class_format::Fault,
        >(class_shape(this_class, methods)),
{
    broadcast use {two_bytes, four_bytes};

    let pool = whole_pool(this_class, methods);
    the_pool_holds(this_class, methods);
    own_names_read(this_class, methods);
    let n = methods.len() as int;
    let m = methods_bytes(methods);
    parts_stand(
        b,
        at,
        be16(0x21),
        be16(2) + (be16(4) + (be16(0) + (be16(0) + (be16(n) + m)))),
    );
    parts_stand(b, at + 2, be16(2), be16(4) + (be16(0) + (be16(0) + (be16(n) + m))));
    parts_stand(b, at + 4, be16(4), be16(0) + (be16(0) + (be16(n) + m)));
    parts_stand(b, at + 6, be16(0), be16(0) + (be16(n) + m));
    parts_stand(b, at + 8, be16(0), be16(n) + m);
    parts_stand(b, at + 10, be16(n), m);
    reads16(b, at, 0x21);
    reads16(b, at + 2, 2);
    reads16(b, at + 4, 4);
    reads16(b, at + 10, n);
    an_empty_table_reads(b, at + 6, class_format::class_reader(b, pool));
    an_empty_table_reads(b, at + 8, class_format::field_reader(b, pool));
    methods_read(b, at + 12, pool, methods);
}

/// A file that is emitted reads as the shape that was stated: every method with its flags, names, code and
/// lines, and the three kinds of method (with a line table, without one, without code) told apart.
pub proof fn what_is_emitted_reads_as_stated(this_class: Seq<char>, methods: Seq<Method>)
    requires
        class_fits(this_class, methods),
        emitted(this_class, methods).len() <= usize::MAX,
    ensures
        class_format::class_file(emitted(this_class, methods)) == Ok::<
            ClassView,
            class_format::Fault,
        >(class_shape(this_class, methods)),
{
    broadcast use {two_bytes, four_bytes};

    let b = emitted(this_class, methods);
    all_stands(b);
    let own = own_entries(this_class);
    let more = member_entries(methods);
    let rest = declared(methods);
    let count = 7 + 2 * methods.len();
    let version = seq![0u8, 0u8, 0u8, 65u8];
    parts_stand(b, 0, be32(0xCAFE_BABE), version + (be16(count as int) + (own + (more + rest))));
    parts_stand(b, 4, version, be16(count as int) + (own + (more + rest)));
    parts_stand(b, 8, be16(count as int), own + (more + rest));
    parts_stand(b, 10, own, more + rest);
    let then: int = 10 + own.len() as int;
    parts_stand(b, then, more, rest);
    reads32(b, 0, 0xCAFE_BABE);
    reads16(b, 8, count as int);
    own_entries_read(b, 10, this_class, count);
    member_entries_read(b, then, this_class, methods, count);
    the_pool_holds(this_class, methods);
    declarations_read(b, then + more.len(), this_class, methods);
}

// ---------------------------------------------------------------------------------------------
// Emitting
// ---------------------------------------------------------------------------------------------
fn push16(out: &mut Vec<u8>, n: u16)
    ensures
        final(out)@ == old(out)@ + be16(n as int),
{
    reveal(be16);
    out.push((n / 256) as u8);
    out.push((n % 256) as u8);
    assert(out@ =~= old(out)@ + be16(n as int));
}

fn push32(out: &mut Vec<u8>, n: u32)
    ensures
        final(out)@ == old(out)@ + be32(n as int),
{
    reveal(be32);
    push16(out, (n / 65536) as u16);
    push16(out, (n % 65536) as u16);
    assert(out@ =~= old(out)@ + be32(n as int));
}

fn push_all(out: &mut Vec<u8>, bytes: &[u8])
    ensures
        final(out)@ == old(out)@ + bytes@,
{
    let mut i: usize = 0;
    while i < bytes.len()
        invariant
            i <= bytes@.len(),
            out@ == old(out)@ + bytes@.take(i as int),
        decreases bytes@.len() - i,
    {
        out.push(bytes[i]);
        i += 1;
    }
    assert(bytes@.take(i as int) =~= bytes@);
}

fn utf8(out: &mut Vec<u8>, s: &str)
    requires
        text_fits(s@),
    ensures
        final(out)@ == old(out)@ + text_entry(s@),
{
    let bytes = s.as_bytes();
    out.push(1);
    push16(out, bytes.len() as u16);
    push_all(out, bytes);
    assert(out@ =~= old(out)@ + text_entry(s@));
}

fn class_constant(out: &mut Vec<u8>, name: u16)
    ensures
        final(out)@ == old(out)@ + class_entry(name as int),
{
    out.push(7);
    push16(out, name);
    assert(out@ =~= old(out)@ + class_entry(name as int));
}

fn own_constants(out: &mut Vec<u8>, this_class: &str)
    requires
        text_fits(internal(this_class@)),
    ensures
        final(out)@ == old(out)@ + own_entries(this_class@),
{
    let chars = text::chars_of(this_class);
    assert(chars@.subrange(0, chars@.len() as int) =~= this_class@);
    let name = text::swap_between(&chars, 0, chars.len(), '.', '/');
    proof {
        the_format_names_fit();
    }
    utf8(out, name.as_str());
    class_constant(out, 1);
    utf8(out, "java/lang/Object");
    class_constant(out, 3);
    utf8(out, "Code");
    utf8(out, "LineNumberTable");
    assert(out@ =~= old(out)@ + own_entries(this_class@));
}

fn member_constants(out: &mut Vec<u8>, methods: &[Method])
    requires
        forall|i: int| 0 <= i < methods@.len() ==> method_fits(#[trigger] methods@[i]),
    ensures
        final(out)@ == old(out)@ + member_entries(methods@),
{
    let mut i: usize = 0;
    assert(methods@.take(0) =~= Seq::empty());
    assert(out@ =~= old(out)@ + member_entries(methods@.take(0)));
    while i < methods.len()
        invariant
            i <= methods@.len(),
            forall|k: int| 0 <= k < methods@.len() ==> method_fits(#[trigger] methods@[k]),
            out@ == old(out)@ + member_entries(methods@.take(i as int)),
        decreases methods@.len() - i,
    {
        assert(methods@.take(i + 1).drop_last() =~= methods@.take(i as int));
        assert(method_fits(methods@[i as int]));
        utf8(out, methods[i].name);
        utf8(out, methods[i].descriptor);
        i += 1;
        assert(out@ =~= old(out)@ + member_entries(methods@.take(i as int)));
    }
    assert(methods@.take(i as int) =~= methods@);
}

fn push_lines(out: &mut Vec<u8>, lines: &Vec<(u16, u16)>)
    ensures
        final(out)@ == old(out)@ + line_rows(lines@),
{
    let mut i: usize = 0;
    assert(lines@.take(0) =~= Seq::empty());
    assert(out@ =~= old(out)@ + line_rows(lines@.take(0)));
    while i < lines.len()
        invariant
            i <= lines@.len(),
            out@ == old(out)@ + line_rows(lines@.take(i as int)),
        decreases lines@.len() - i,
    {
        assert(lines@.take(i + 1).drop_last() =~= lines@.take(i as int));
        push16(out, lines[i].0);
        push16(out, lines[i].1);
        i += 1;
        assert(out@ =~= old(out)@ + line_rows(lines@.take(i as int)));
    }
    assert(lines@.take(i as int) =~= lines@);
}

fn code_of(method: &Method) -> (r: Vec<u8>)
    requires
        method_fits(*method),
    ensures
        r@ == code_content(*method),
{
    let mut out: Vec<u8> = Vec::new();
    push16(&mut out, 1);
    push16(&mut out, 1);
    push32(&mut out, method.code.len() as u32);
    push_all(&mut out, method.code.as_slice());
    push16(&mut out, 0);
    if method.lines.len() == 0 {
        push16(&mut out, 0);
    } else {
        push16(&mut out, 1);
        push16(&mut out, 6);
        push32(&mut out, 2 + 4 * method.lines.len() as u32);
        push16(&mut out, method.lines.len() as u16);
        push_lines(&mut out, &method.lines);
    }
    assert(out@ =~= code_content(*method));
    out
}

fn push_method(out: &mut Vec<u8>, method: &Method, name: u16)
    requires
        method_fits(*method),
        name < 0xFFFF,
    ensures
        final(out)@ == old(out)@ + method_bytes(*method, name as int),
{
    push16(out, method.access_flags);
    push16(out, name);
    push16(out, name + 1);
    if method.has_code {
        let content = code_of(method);
        push16(out, 1);
        push16(out, 5);
        push32(out, content.len() as u32);
        push_all(out, content.as_slice());
    } else {
        push16(out, 0);
    }
    assert(out@ =~= old(out)@ + method_bytes(*method, name as int));
}

fn push_methods(out: &mut Vec<u8>, methods: &[Method])
    requires
        7 + 2 * methods@.len() <= 0xFFFF,
        forall|i: int| 0 <= i < methods@.len() ==> method_fits(#[trigger] methods@[i]),
    ensures
        final(out)@ == old(out)@ + methods_bytes(methods@),
{
    let mut i: usize = 0;
    assert(methods@.take(0) =~= Seq::empty());
    assert(out@ =~= old(out)@ + methods_bytes(methods@.take(0)));
    while i < methods.len()
        invariant
            i <= methods@.len(),
            7 + 2 * methods@.len() <= 0xFFFF,
            forall|k: int| 0 <= k < methods@.len() ==> method_fits(#[trigger] methods@[k]),
            out@ == old(out)@ + methods_bytes(methods@.take(i as int)),
        decreases methods@.len() - i,
    {
        assert(methods@.take(i + 1).drop_last() =~= methods@.take(i as int));
        assert(method_fits(methods@[i as int]));
        push_method(out, &methods[i], 7 + 2 * i as u16);
        i += 1;
        assert(out@ =~= old(out)@ + methods_bytes(methods@.take(i as int)));
    }
    assert(methods@.take(i as int) =~= methods@);
}

fn push_declared(out: &mut Vec<u8>, methods: &[Method])
    requires
        7 + 2 * methods@.len() <= 0xFFFF,
        forall|i: int| 0 <= i < methods@.len() ==> method_fits(#[trigger] methods@[i]),
    ensures
        final(out)@ == old(out)@ + declared(methods@),
{
    push16(out, 0x21);
    push16(out, 2);
    push16(out, 4);
    push16(out, 0);
    push16(out, 0);
    push16(out, methods.len() as u16);
    push_methods(out, methods);
    assert(out@ =~= old(out)@ + declared(methods@));
}

fn push_start(out: &mut Vec<u8>, count: u16)
    ensures
        final(out)@ == old(out)@ + (be32(0xCAFE_BABE) + (seq![0u8, 0u8, 0u8, 65u8] + be16(
            count as int,
        ))),
{
    push32(out, 0xCAFE_BABE);
    out.push(0);
    out.push(0);
    out.push(0);
    out.push(65);
    push16(out, count);
    assert(out@ =~= old(out)@ + (be32(0xCAFE_BABE) + (seq![0u8, 0u8, 0u8, 65u8] + be16(
        count as int,
    ))));
}

proof fn regrouped(a: Seq<u8>, b: Seq<u8>, c: Seq<u8>, d: Seq<u8>, e: Seq<u8>, f: Seq<u8>)
    ensures
        Seq::<u8>::empty() + (a + (b + c)) + d + e + f == a + (b + (c + (d + (e + f)))),
{
    assert(Seq::<u8>::empty() + (a + (b + c)) + d + e + f =~= a + (b + (c + (d + (e + f)))));
}

/// The file of a class with these methods and no fields. It reads as it is stated.
pub fn class_file(this_class: &str, methods: &[Method]) -> (r: Vec<u8>)
    requires
        class_fits(this_class@, methods@),
    ensures
        r@ == emitted(this_class@, methods@),
        class_format::class_file(r@) == Ok::<ClassView, class_format::Fault>(
            class_shape(this_class@, methods@),
        ),
{
    let mut out: Vec<u8> = Vec::new();
    push_start(&mut out, 7 + 2 * methods.len() as u16);
    own_constants(&mut out, this_class);
    member_constants(&mut out, methods);
    push_declared(&mut out, methods);
    proof {
        regrouped(
            be32(0xCAFE_BABE),
            seq![0u8, 0u8, 0u8, 65u8],
            be16((7 + 2 * methods@.len()) as int),
            own_entries(this_class@),
            member_entries(methods@),
            declared(methods@),
        );
    }
    let n: usize = out.len();
    proof {
        what_is_emitted_reads_as_stated(this_class@, methods@);
    }
    out
}

} // verus!
