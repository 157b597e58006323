//! Class files: names, declared members, line tables and bytecode.
//!
//! This reads just enough of a `.class` file to compare it with the class a JVM is running: the
//! constant pool for its names, the declared fields and methods, and the code and line table of each
//! method. The input may be any bytes at all. A file that was cut off is the ordinary case, so every
//! read is checked against the end and every failure says what is wrong with the file.

use crate::class_format;
use crate::class_format::Fault;
use crate::text;
use vstd::prelude::*;
use vstd::slice::{slice_subrange, slice_to_vec};

verus! {

/// One method as the class file declares it.
#[derive(Debug, Clone)]
pub struct ClassFileMethod {
    pub access_flags: u16,
    pub name: String,
    /// The JVM descriptor, such as `(Ljava/lang/String;)I`.
    pub descriptor: String,
    /// `(start_pc, line)` pairs in file order.
    pub lines: Vec<(u64, i32)>,
    /// Whether there is a `Code` attribute. Abstract and native methods have none.
    pub has_code: bool,
    /// Whether the code came with a line table. A stripped build has code and no lines.
    pub has_line_table: bool,
    /// The bytecode; empty where there is none.
    pub code: Vec<u8>,
}

/// One field as the class file declares it.
#[derive(Debug, Clone, PartialEq, Eq)]
pub struct ClassFileField {
    pub access_flags: u16,
    pub name: String,
    /// The JVM descriptor, such as `Ljava/lang/String;`.
    pub descriptor: String,
}

/// The parts of a `.class` file that are compared.
#[derive(Debug, Clone)]
pub struct ClassFile {
    /// The declared class, dotted.
    pub this_class: String,
    pub access_flags: u16,
    /// The direct superclass, dotted; `None` for the root class.
    pub super_class: Option<String>,
    /// The directly declared interfaces, dotted, in declaration order.
    pub interfaces: Vec<String>,
    pub fields: Vec<ClassFileField>,
    pub methods: Vec<ClassFileMethod>,
}

impl View for ClassFileMethod {
    type V = class_format::MethodView;

    open spec fn view(&self) -> class_format::MethodView {
        class_format::MethodView {
            access_flags: self.access_flags,
            name: self.name@,
            descriptor: self.descriptor@,
            body: class_format::BodyView {
                has_code: self.has_code,
                has_line_table: self.has_line_table,
                lines: self.lines@,
                code: self.code@,
            },
        }
    }
}

impl View for ClassFileField {
    type V = class_format::FieldView;

    open spec fn view(&self) -> class_format::FieldView {
        class_format::FieldView {
            access_flags: self.access_flags,
            name: self.name@,
            descriptor: self.descriptor@,
        }
    }
}

impl View for ClassFile {
    type V = class_format::ClassView;

    open spec fn view(&self) -> class_format::ClassView {
        class_format::ClassView {
            this_class: self.this_class@,
            access_flags: self.access_flags,
            super_class: match self.super_class {
                Some(s) => Some(s@),
                None => None,
            },
            interfaces: self.interfaces@.map_values(|s: String| s@),
            fields: self.fields@.map_values(|f: ClassFileField| f@),
            methods: self.methods@.map_values(|m: ClassFileMethod| m@),
        }
    }
}

/// `String::from_utf8_lossy` reads bytes as UTF-8: bytes that are UTF-8 are decoded as they are, and in any
/// others what is not is replaced. The text depends on the bytes alone.
#[verifier::external_body]
fn lossy(bytes: &[u8]) -> (r: String)
    ensures
        vstd::utf8::valid_utf8(bytes@) ==> r@ == vstd::utf8::decode_utf8(bytes@),
        !vstd::utf8::valid_utf8(bytes@) ==> r@ == class_format::lossy_text(bytes@),
{
    String::from_utf8_lossy(bytes).into_owned()
}

/// A place in the file's bytes.
pub struct Cursor<'a> {
    pub data: &'a [u8],
    pub at: usize,
}

impl<'a> Cursor<'a> {
    /// The start of some bytes.
    pub fn new(data: &'a [u8]) -> (r: Self)
        ensures
            r.wf(),
            r.data == data,
            r.at == 0,
    {
        Cursor { data, at: 0 }
    }

    /// The place is among the bytes, or right behind them.
    pub open spec fn wf(self) -> bool {
        self.at <= self.data@.len()
    }

    /// The next `n` bytes.
    pub fn take(&mut self, n: usize) -> (r: Result<&'a [u8], Fault>)
        requires
            old(self).wf(),
        ensures
            final(self).wf(),
            final(self).data == old(self).data,
            match class_format::bytes_at(old(self).data@, old(self).at as int, n as int) {
                Ok((bytes, at)) => r is Ok && r->Ok_0@ == bytes && final(self).at == at,
                Err(f) => r == Err::<&'a [u8], Fault>(f) && final(self).at == old(self).at,
            },
    {
        if n > usize::MAX - self.at {
            return Err(Fault::LengthOverflow);
        }
        let end: usize = self.at + n;
        if end > self.data.len() {
            return Err(Fault::Truncated { wanted: n, at: self.at, len: self.data.len() });
        }
        let found = slice_subrange(self.data, self.at, end);
        self.at = end;
        Ok(found)
    }

    /// Passes over `n` bytes.
    pub fn skip(&mut self, n: usize) -> (r: Result<(), Fault>)
        requires
            old(self).wf(),
        ensures
            final(self).wf(),
            final(self).data == old(self).data,
            match class_format::span(old(self).data@, old(self).at as int, n as int) {
                Ok(at) => r is Ok && final(self).at == at,
                Err(f) => r == Err::<(), Fault>(f) && final(self).at == old(self).at,
            },
    {
        match self.take(n) {
            Ok(_) => Ok(()),
            Err(f) => Err(f),
        }
    }

    /// The next byte.
    pub fn u8(&mut self) -> (r: Result<u8, Fault>)
        requires
            old(self).wf(),
        ensures
            final(self).wf(),
            final(self).data == old(self).data,
            match class_format::u8_at(old(self).data@, old(self).at as int) {
                Ok((x, at)) => r == Ok::<u8, Fault>(x) && final(self).at == at,
                Err(f) => r == Err::<u8, Fault>(f) && final(self).at == old(self).at,
            },
    {
        match self.take(1) {
            Ok(b) => Ok(b[0]),
            Err(f) => Err(f),
        }
    }

    /// The next two bytes, as a number.
    pub fn u16(&mut self) -> (r: Result<u16, Fault>)
        requires
            old(self).wf(),
        ensures
            final(self).wf(),
            final(self).data == old(self).data,
            match class_format::u16_at(old(self).data@, old(self).at as int) {
                Ok((x, at)) => r == Ok::<u16, Fault>(x) && final(self).at == at,
                Err(f) => r == Err::<u16, Fault>(f) && final(self).at == old(self).at,
            },
    {
        match self.take(2) {
            Ok(b) => Ok(b[0] as u16 * 256 + b[1] as u16),
            Err(f) => Err(f),
        }
    }

    /// The next four bytes, as a number.
    pub fn u32(&mut self) -> (r: Result<u32, Fault>)
        requires
            old(self).wf(),
        ensures
            final(self).wf(),
            final(self).data == old(self).data,
            match class_format::u32_at(old(self).data@, old(self).at as int) {
                Ok((x, at)) => r == Ok::<u32, Fault>(x) && final(self).at == at,
                Err(f) => r == Err::<u32, Fault>(f) && final(self).at == (if class_format::u16_at(
                    old(self).data@,
                    old(self).at as int,
                ) is Ok {
                    old(self).at + 2
                } else {
                    old(self).at as int
                }),
            },
    {
        match self.u16() {
            Err(f) => Err(f),
            Ok(high) => match self.u16() {
                Err(f) => Err(f),
                Ok(low) => Ok(high as u32 * 65536 + low as u32),
            },
        }
    }
}

/// One constant-pool entry.
pub enum Constant {
    Utf8(String),
    /// The pool index of a class's name.
    Class(u16),
    /// Everything else, and the second slot of a long or double.
    Other,
}

impl View for Constant {
    type V = class_format::ConstantView;

    open spec fn view(&self) -> class_format::ConstantView {
        match self {
            Constant::Utf8(s) => class_format::ConstantView::Utf8(s@),
            Constant::Class(index) => class_format::ConstantView::Class(*index),
            Constant::Other => class_format::ConstantView::Other,
        }
    }
}

pub open spec fn pool_view(pool: Seq<Constant>) -> Seq<class_format::ConstantView> {
    pool.map_values(|c: Constant| c@)
}

spec fn names_view(names: Seq<String>) -> Seq<Seq<char>> {
    names.map_values(|s: String| s@)
}

spec fn fields_view(fields: Seq<ClassFileField>) -> Seq<class_format::FieldView> {
    fields.map_values(|f: ClassFileField| f@)
}

spec fn methods_view(methods: Seq<ClassFileMethod>) -> Seq<class_format::MethodView> {
    methods.map_values(|m: ClassFileMethod| m@)
}

fn width_of(tag: u8) -> (r: Option<usize>)
    ensures
        match class_format::skipped_width(tag) {
            Some(width) => r is Some && r->0 == width,
            None => r is None,
        },
{
    if tag == 8 || tag == 16 || tag == 19 || tag == 20 {
        Some(2)
    } else if tag == 15 {
        Some(3)
    } else if tag == 3 || tag == 4 || tag == 9 || tag == 10 || tag == 11 || tag == 12 || tag == 17
        || tag == 18 {
        Some(4)
    } else if tag == 5 || tag == 6 {
        Some(8)
    } else {
        None
    }
}

fn read_constant(c: &mut Cursor, tag: u8, entry: u16) -> (r: Result<Constant, Fault>)
    requires
        old(c).wf(),
    ensures
        final(c).wf(),
        final(c).data == old(c).data,
        match class_format::constant_at(old(c).data@, old(c).at as int, tag, entry) {
            Ok((x, at)) => r is Ok && r->Ok_0@ == x && final(c).at == at,
            Err(f) => {
                &&& r == Err::<Constant, Fault>(f)
                &&& f is UnknownTag ==> final(c).at == old(c).at
                &&& tag == 1 && class_format::u16_at(old(c).data@, old(c).at as int) is Ok
                    ==> final(c).at == old(c).at + 2
                &&& !(tag == 1 && class_format::u16_at(old(c).data@, old(c).at as int) is Ok)
                    ==> final(c).at == old(c).at
            },
        },
{
    if tag == 1 {
        match c.u16() {
            Err(f) => Err(f),
            Ok(len) => match c.take(len as usize) {
                Err(f) => Err(f),
                Ok(bytes) => Ok(Constant::Utf8(lossy(bytes))),
            },
        }
    } else if tag == 7 {
        match c.u16() {
            Err(f) => Err(f),
            Ok(index) => Ok(Constant::Class(index)),
        }
    } else {
        match width_of(tag) {
            None => Err(Fault::UnknownTag { tag, entry }),
            Some(width) => match c.skip(width) {
                Err(f) => Err(f),
                Ok(()) => Ok(Constant::Other),
            },
        }
    }
}

/// The constant pool, with a slot for each index.
pub fn parse_constant_pool(c: &mut Cursor) -> (r: Result<Vec<Constant>, Fault>)
    requires
        old(c).wf(),
    ensures
        final(c).wf(),
        final(c).data == old(c).data,
        match class_format::pool_at(old(c).data@, old(c).at as int) {
            Ok((pool, at)) => r is Ok && pool_view(r->Ok_0@) == pool && final(c).at == at,
            Err(f) => r == Err::<Vec<Constant>, Fault>(f),
        },
{
    let count: u16 = match c.u16() {
        Err(f) => {
            return Err(f);
        },
        Ok(n) => n,
    };
    // Index 0 is unused by the format; a placeholder there makes every lookup one-based.
    let mut pool: Vec<Constant> = Vec::new();
    pool.push(Constant::Other);
    assert(pool_view(pool@) =~= seq![class_format::ConstantView::Other]);
    while pool.len() < count as usize
        invariant
            c.wf(),
            c.data == old(c).data,
            class_format::pool_at(old(c).data@, old(c).at as int) == class_format::pool_from(
                c.data@,
                c.at as int,
                pool_view(pool@),
                count as nat,
            ),
        decreases count + 1 - pool@.len(),
    {
        let ghost before = pool_view(pool@);
        let tag: u8 = match c.u8() {
            Err(f) => {
                return Err(f);
            },
            Ok(n) => n,
        };
        let entry = match read_constant(c, tag, pool.len() as u16) {
            Err(f) => {
                return Err(f);
            },
            Ok(x) => x,
        };
        let ghost found = entry@;
        pool.push(entry);
        // A long or double takes two slots. Missing the second would shift every later index.
        if tag == 5 || tag == 6 {
            pool.push(Constant::Other);
        }
        assert(pool_view(pool@) =~= before + class_format::slots(tag, found));
    }
    Ok(pool)
}

/// The text at a pool index.
pub fn utf8(pool: &Vec<Constant>, index: u16) -> (r: Result<String, Fault>)
    ensures
        match class_format::utf8_in(pool_view(pool@), index) {
            Ok(s) => r is Ok && r->Ok_0@ == s,
            Err(f) => r == Err::<String, Fault>(f),
        },
{
    if (index as usize) < pool.len() {
        match &pool[index as usize] {
            Constant::Utf8(s) => Ok(s.clone()),
            _ => Err(Fault::NotUtf8 { index }),
        }
    } else {
        Err(Fault::NotUtf8 { index })
    }
}

fn class_name(pool: &Vec<Constant>, index: u16) -> (r: Result<String, Fault>)
    ensures
        match class_format::class_in(pool_view(pool@), index) {
            Ok(s) => r is Ok && r->Ok_0@ == s,
            Err(f) => r == Err::<String, Fault>(f),
        },
{
    if (index as usize) < pool.len() {
        match &pool[index as usize] {
            Constant::Class(name) => match utf8(pool, *name) {
                Err(f) => Err(f),
                Ok(s) => {
                    let chars = text::chars_of(s.as_str());
                    assert(chars@.subrange(0, chars@.len() as int) =~= s@);
                    Ok(text::swap_between(&chars, 0, chars.len(), '/', '.'))
                },
            },
            _ => Err(Fault::NotAClass { index }),
        }
    } else {
        Err(Fault::NotAClass { index })
    }
}

fn read_utf8(c: &mut Cursor, pool: &Vec<Constant>) -> (r: Result<String, Fault>)
    requires
        old(c).wf(),
    ensures
        final(c).wf(),
        final(c).data == old(c).data,
        match class_format::utf8_at(old(c).data@, pool_view(pool@), old(c).at as int) {
            Ok((s, at)) => r is Ok && r->Ok_0@ == s && final(c).at == at,
            Err(f) => r == Err::<String, Fault>(f),
        },
{
    match c.u16() {
        Err(f) => Err(f),
        Ok(index) => utf8(pool, index),
    }
}

fn read_class(c: &mut Cursor, pool: &Vec<Constant>) -> (r: Result<String, Fault>)
    requires
        old(c).wf(),
    ensures
        final(c).wf(),
        final(c).data == old(c).data,
        match class_format::class_at(old(c).data@, pool_view(pool@), old(c).at as int) {
            Ok((s, at)) => r is Ok && r->Ok_0@ == s && final(c).at == at,
            Err(f) => r == Err::<String, Fault>(f),
        },
{
    match c.u16() {
        Err(f) => Err(f),
        Ok(index) => class_name(pool, index),
    }
}

fn read_super(c: &mut Cursor, pool: &Vec<Constant>) -> (r: Result<Option<String>, Fault>)
    requires
        old(c).wf(),
    ensures
        final(c).wf(),
        final(c).data == old(c).data,
        match class_format::super_at(old(c).data@, pool_view(pool@), old(c).at as int) {
            Ok((s, at)) => r is Ok && final(c).at == at && match s {
                Some(s) => r->Ok_0 is Some && r->Ok_0->0@ == s,
                None => r->Ok_0 is None,
            },
            Err(f) => r == Err::<Option<String>, Fault>(f),
        },
{
    match c.u16() {
        Err(f) => Err(f),
        Ok(index) => if index == 0 {
            Ok(None)
        } else {
            match class_name(pool, index) {
                Err(f) => Err(f),
                Ok(s) => Ok(Some(s)),
            }
        },
    }
}

fn parse_interfaces(c: &mut Cursor, pool: &Vec<Constant>) -> (r: Result<Vec<String>, Fault>)
    requires
        old(c).wf(),
    ensures
        final(c).wf(),
        final(c).data == old(c).data,
        match class_format::table_at(
            old(c).data@,
            class_format::class_reader(old(c).data@, pool_view(pool@)),
            old(c).at as int,
        ) {
            Ok((found, at)) => r is Ok && names_view(r->Ok_0@) == found && final(c).at == at,
            Err(f) => r == Err::<Vec<String>, Fault>(f),
        },
{
    let count: u16 = match c.u16() {
        Err(f) => {
            return Err(f);
        },
        Ok(n) => n,
    };
    let ghost start = c.at as int;
    let ghost one = class_format::class_reader(old(c).data@, pool_view(pool@));
    let mut out: Vec<String> = Vec::new();
    assert(names_view(out@) =~= Seq::empty());
    let mut i: u16 = 0;
    while i < count
        invariant
            c.wf(),
            c.data == old(c).data,
            i <= count,
            one == class_format::class_reader(c.data@, pool_view(pool@)),
            class_format::times(one, start, i as nat) == Ok::<(Seq<Seq<char>>, int), Fault>(
                (names_view(out@), c.at as int),
            ),
            class_format::table_at(c.data@, one, old(c).at as int) == class_format::times(
                one,
                start,
                count as nat,
            ),
        decreases count - i,
    {
        let ghost before = names_view(out@);
        match read_class(c, pool) {
            Err(f) => {
                proof {
                    class_format::times_fault(one, start, (i + 1) as nat, count as nat);
                }
                return Err(f);
            },
            Ok(s) => {
                let ghost found = s@;
                out.push(s);
                assert(names_view(out@) =~= before.push(found));
            },
        }
        i += 1;
    }
    Ok(out)
}

fn skip_attributes(c: &mut Cursor) -> (r: Result<(), Fault>)
    requires
        old(c).wf(),
    ensures
        final(c).wf(),
        final(c).data == old(c).data,
        match class_format::table_at(
            old(c).data@,
            class_format::skipped_attribute_reader(old(c).data@),
            old(c).at as int,
        ) {
            Ok((_, at)) => r is Ok && final(c).at == at,
            Err(f) => r == Err::<(), Fault>(f),
        },
{
    let count: u16 = match c.u16() {
        Err(f) => {
            return Err(f);
        },
        Ok(n) => n,
    };
    let ghost start = c.at as int;
    let ghost one = class_format::skipped_attribute_reader(old(c).data@);
    let mut i: u16 = 0;
    while i < count
        invariant
            c.wf(),
            c.data == old(c).data,
            i <= count,
            one == class_format::skipped_attribute_reader(c.data@),
            class_format::times(one, start, i as nat) is Ok,
            class_format::times(one, start, i as nat)->Ok_0.1 == c.at,
            class_format::table_at(c.data@, one, old(c).at as int) == class_format::times(
                one,
                start,
                count as nat,
            ),
        decreases count - i,
    {
        proof {
            if class_format::times(one, start, (i + 1) as nat) is Err {
                class_format::times_fault(one, start, (i + 1) as nat, count as nat);
            }
        }
        match c.skip(2) {
            Err(f) => {
                return Err(f);
            },
            Ok(()) => {},
        }
        let len: u32 = match c.u32() {
            Err(f) => {
                return Err(f);
            },
            Ok(n) => n,
        };
        match c.skip(len as usize) {
            Err(f) => {
                return Err(f);
            },
            Ok(()) => {},
        }
        i += 1;
    }
    Ok(())
}

fn parse_one_field(c: &mut Cursor, pool: &Vec<Constant>) -> (r: Result<ClassFileField, Fault>)
    requires
        old(c).wf(),
    ensures
        final(c).wf(),
        final(c).data == old(c).data,
        match class_format::field_at(old(c).data@, pool_view(pool@), old(c).at as int) {
            Ok((x, at)) => r is Ok && r->Ok_0@ == x && final(c).at == at,
            Err(f) => r == Err::<ClassFileField, Fault>(f),
        },
{
    let access_flags: u16 = match c.u16() {
        Err(f) => {
            return Err(f);
        },
        Ok(n) => n,
    };
    let name = match read_utf8(c, pool) {
        Err(f) => {
            return Err(f);
        },
        Ok(s) => s,
    };
    let descriptor = match read_utf8(c, pool) {
        Err(f) => {
            return Err(f);
        },
        Ok(s) => s,
    };
    match skip_attributes(c) {
        Err(f) => Err(f),
        Ok(()) => Ok(ClassFileField { access_flags, name, descriptor }),
    }
}

fn parse_fields(c: &mut Cursor, pool: &Vec<Constant>) -> (r: Result<Vec<ClassFileField>, Fault>)
    requires
        old(c).wf(),
    ensures
        final(c).wf(),
        final(c).data == old(c).data,
        match class_format::table_at(
            old(c).data@,
            class_format::field_reader(old(c).data@, pool_view(pool@)),
            old(c).at as int,
        ) {
            Ok((found, at)) => r is Ok && fields_view(r->Ok_0@) == found && final(c).at == at,
            Err(f) => r == Err::<Vec<ClassFileField>, Fault>(f),
        },
{
    let count: u16 = match c.u16() {
        Err(f) => {
            return Err(f);
        },
        Ok(n) => n,
    };
    let ghost start = c.at as int;
    let ghost one = class_format::field_reader(old(c).data@, pool_view(pool@));
    let mut out: Vec<ClassFileField> = Vec::new();
    assert(fields_view(out@) =~= Seq::empty());
    let mut i: u16 = 0;
    while i < count
        invariant
            c.wf(),
            c.data == old(c).data,
            i <= count,
            one == class_format::field_reader(c.data@, pool_view(pool@)),
            class_format::times(one, start, i as nat) == Ok::<
                (Seq<class_format::FieldView>, int),
                Fault,
            >((fields_view(out@), c.at as int)),
            class_format::table_at(c.data@, one, old(c).at as int) == class_format::times(
                one,
                start,
                count as nat,
            ),
        decreases count - i,
    {
        let ghost before = fields_view(out@);
        match parse_one_field(c, pool) {
            Err(f) => {
                proof {
                    class_format::times_fault(one, start, (i + 1) as nat, count as nat);
                }
                return Err(f);
            },
            Ok(x) => {
                let ghost found = x@;
                out.push(x);
                assert(fields_view(out@) =~= before.push(found));
            },
        }
        i += 1;
    }
    Ok(out)
}

/// An attribute's name and content.
fn read_attribute<'a>(c: &mut Cursor<'a>, pool: &Vec<Constant>) -> (r: Result<
    (String, &'a [u8]),
    Fault,
>)
    requires
        old(c).wf(),
    ensures
        final(c).wf(),
        final(c).data == old(c).data,
        match class_format::attribute_at(old(c).data@, pool_view(pool@), old(c).at as int) {
            Ok(((name, content), at)) => r is Ok && r->Ok_0.0@ == name && r->Ok_0.1@ == content
                && final(c).at == at,
            Err(f) => r == Err::<(String, &'a [u8]), Fault>(f),
        },
{
    let name = match read_utf8(c, pool) {
        Err(f) => {
            return Err(f);
        },
        Ok(s) => s,
    };
    let len: u32 = match c.u32() {
        Err(f) => {
            return Err(f);
        },
        Ok(n) => n,
    };
    match c.take(len as usize) {
        Err(f) => Err(f),
        Ok(content) => Ok((name, content)),
    }
}

/// The `(start_pc, line)` pairs of a `LineNumberTable` attribute.
fn read_line_number_table(content: &[u8]) -> (r: Result<Vec<(u64, i32)>, Fault>)
    ensures
        match class_format::line_table(content@) {
            Ok(lines) => r is Ok && r->Ok_0@ == lines,
            Err(f) => r == Err::<Vec<(u64, i32)>, Fault>(f),
        },
{
    let mut table = Cursor { data: content, at: 0 };
    let count: u16 = match table.u16() {
        Err(f) => {
            return Err(f);
        },
        Ok(n) => n,
    };
    let ghost start = table.at as int;
    let ghost one = class_format::line_reader(content@);
    let mut lines: Vec<(u64, i32)> = Vec::new();
    let mut i: u16 = 0;
    while i < count
        invariant
            table.wf(),
            table.data == content,
            i <= count,
            one == class_format::line_reader(content@),
            class_format::times(one, start, i as nat) == Ok::<(Seq<(u64, i32)>, int), Fault>(
                (lines@, table.at as int),
            ),
            class_format::table_at(content@, one, 0) == class_format::times(one, start, count as nat),
        decreases count - i,
    {
        proof {
            if class_format::times(one, start, (i + 1) as nat) is Err {
                class_format::times_fault(one, start, (i + 1) as nat, count as nat);
            }
        }
        let start_pc: u16 = match table.u16() {
            Err(f) => {
                return Err(f);
            },
            Ok(n) => n,
        };
        let line: u16 = match table.u16() {
            Err(f) => {
                return Err(f);
            },
            Ok(n) => n,
        };
        lines.push((start_pc as u64, line as i32));
        i += 1;
    }
    Ok(lines)
}

/// What the attributes of a method say of its code.
struct CodeAttribute {
    has_code: bool,
    has_line_table: bool,
    lines: Vec<(u64, i32)>,
    code: Vec<u8>,
}

impl View for CodeAttribute {
    type V = class_format::BodyView;

    closed spec fn view(&self) -> class_format::BodyView {
        class_format::BodyView {
            has_code: self.has_code,
            has_line_table: self.has_line_table,
            lines: self.lines@,
            code: self.code@,
        }
    }
}

/// The bytecode and the line table of a `Code` attribute.
fn parse_code_body(content: &[u8], pool: &Vec<Constant>) -> (r: Result<CodeAttribute, Fault>)
    ensures
        match class_format::code_body(content@, pool_view(pool@)) {
            Ok(body) => r is Ok && r->Ok_0@ == body,
            Err(f) => r == Err::<CodeAttribute, Fault>(f),
        },
{
    let mut c = Cursor { data: content, at: 0 };
    match c.skip(4) {
        Err(f) => {
            return Err(f);
        },
        Ok(()) => {},
    }
    let code_len: u32 = match c.u32() {
        Err(f) => {
            return Err(f);
        },
        Ok(n) => n,
    };
    let code = match c.take(code_len as usize) {
        Err(f) => {
            return Err(f);
        },
        Ok(bytes) => slice_to_vec(bytes),
    };
    let exceptions: u16 = match c.u16() {
        Err(f) => {
            return Err(f);
        },
        Ok(n) => n,
    };
    match c.skip(exceptions as usize * 8) {
        Err(f) => {
            return Err(f);
        },
        Ok(()) => {},
    }
    let mut left: u16 = match c.u16() {
        Err(f) => {
            return Err(f);
        },
        Ok(n) => n,
    };
    let ghost found = class_format::first_line_table(
        content@,
        pool_view(pool@),
        c.at as int,
        left as nat,
    );
    while left > 0
        invariant
            c.wf(),
            c.data == content,
            found == class_format::first_line_table(
                content@,
                pool_view(pool@),
                c.at as int,
                left as nat,
            ),
            match found {
                Err(f) => class_format::code_body(content@, pool_view(pool@)) == Err::<
                    class_format::BodyView,
                    Fault,
                >(f),
                Ok(table) => class_format::code_body(content@, pool_view(pool@)) == Ok::<
                    class_format::BodyView,
                    Fault,
                >(
                    class_format::BodyView {
                        has_code: true,
                        has_line_table: table is Some,
                        lines: match table {
                            Some(lines) => lines,
                            None => Seq::empty(),
                        },
                        code: code@,
                    },
                ),
            },
        decreases left,
    {
        match read_attribute(&mut c, pool) {
            Err(f) => {
                return Err(f);
            },
            Ok((name, content)) => {
                if text::same(name.as_str(), "LineNumberTable") {
                    return match read_line_number_table(content) {
                        Err(f) => Err(f),
                        Ok(lines) => Ok(
                            CodeAttribute { has_code: true, has_line_table: true, lines, code },
                        ),
                    };
                }
            },
        }
        left -= 1;
    }
    Ok(CodeAttribute { has_code: true, has_line_table: false, lines: Vec::new(), code })
}

/// One method: its name, its descriptor, and what its attributes say of its code.
fn parse_one_method(c: &mut Cursor, pool: &Vec<Constant>) -> (r: Result<ClassFileMethod, Fault>)
    requires
        old(c).wf(),
    ensures
        final(c).wf(),
        final(c).data == old(c).data,
        match class_format::method_at(old(c).data@, pool_view(pool@), old(c).at as int) {
            Ok((x, at)) => r is Ok && r->Ok_0@ == x && final(c).at == at,
            Err(f) => r == Err::<ClassFileMethod, Fault>(f),
        },
{
    let access_flags: u16 = match c.u16() {
        Err(f) => {
            return Err(f);
        },
        Ok(n) => n,
    };
    let name = match read_utf8(c, pool) {
        Err(f) => {
            return Err(f);
        },
        Ok(s) => s,
    };
    let descriptor = match read_utf8(c, pool) {
        Err(f) => {
            return Err(f);
        },
        Ok(s) => s,
    };
    let attributes: u16 = match c.u16() {
        Err(f) => {
            return Err(f);
        },
        Ok(n) => n,
    };
    let ghost start = c.at as int;
    let ghost all = class_format::body_at(c.data@, pool_view(pool@), start, attributes as nat);
    let mut body = CodeAttribute {
        has_code: false,
        has_line_table: false,
        lines: Vec::new(),
        code: Vec::new(),
    };
    let mut i: u16 = 0;
    assert(body@ =~= class_format::no_body());
    while i < attributes
        invariant
            c.wf(),
            c.data == old(c).data,
            i <= attributes,
            all == class_format::body_at(c.data@, pool_view(pool@), start, attributes as nat),
            class_format::body_at(c.data@, pool_view(pool@), start, i as nat) == Ok::<
                (class_format::BodyView, int),
                Fault,
            >((body@, c.at as int)),
            all is Err ==> class_format::method_at(old(c).data@, pool_view(pool@), old(c).at as int)
                == Err::<(class_format::MethodView, int), Fault>(all->Err_0),
        decreases attributes - i,
    {
        proof {
            if class_format::body_at(c.data@, pool_view(pool@), start, (i + 1) as nat) is Err {
                class_format::body_fault(
                    c.data@,
                    pool_view(pool@),
                    start,
                    (i + 1) as nat,
                    attributes as nat,
                );
            }
        }
        match read_attribute(c, pool) {
            Err(f) => {
                return Err(f);
            },
            Ok((attribute, content)) => {
                if text::same(attribute.as_str(), "Code") {
                    body = match parse_code_body(content, pool) {
                        Err(f) => {
                            return Err(f);
                        },
                        Ok(body) => body,
                    };
                }
            },
        }
        i += 1;
    }
    Ok(
        ClassFileMethod {
            access_flags,
            name,
            descriptor,
            lines: body.lines,
            has_code: body.has_code,
            has_line_table: body.has_line_table,
            code: body.code,
        },
    )
}

fn parse_methods(c: &mut Cursor, pool: &Vec<Constant>) -> (r: Result<Vec<ClassFileMethod>, Fault>)
    requires
        old(c).wf(),
    ensures
        final(c).wf(),
        final(c).data == old(c).data,
        match class_format::table_at(
            old(c).data@,
            class_format::method_reader(old(c).data@, pool_view(pool@)),
            old(c).at as int,
        ) {
            Ok((found, at)) => r is Ok && methods_view(r->Ok_0@) == found && final(c).at == at,
            Err(f) => r == Err::<Vec<ClassFileMethod>, Fault>(f),
        },
{
    let count: u16 = match c.u16() {
        Err(f) => {
            return Err(f);
        },
        Ok(n) => n,
    };
    let ghost start = c.at as int;
    let ghost one = class_format::method_reader(old(c).data@, pool_view(pool@));
    let mut out: Vec<ClassFileMethod> = Vec::new();
    assert(methods_view(out@) =~= Seq::empty());
    let mut i: u16 = 0;
    while i < count
        invariant
            c.wf(),
            c.data == old(c).data,
            i <= count,
            one == class_format::method_reader(c.data@, pool_view(pool@)),
            class_format::times(one, start, i as nat) == Ok::<
                (Seq<class_format::MethodView>, int),
                Fault,
            >((methods_view(out@), c.at as int)),
            class_format::table_at(c.data@, one, old(c).at as int) == class_format::times(
                one,
                start,
                count as nat,
            ),
        decreases count - i,
    {
        let ghost before = methods_view(out@);
        match parse_one_method(c, pool) {
            Err(f) => {
                proof {
                    class_format::times_fault(one, start, (i + 1) as nat, count as nat);
                }
                return Err(f);
            },
            Ok(x) => {
                let ghost found = x@;
                out.push(x);
                assert(methods_view(out@) =~= before.push(found));
            },
        }
        i += 1;
    }
    Ok(out)
}

/// Everything between the constant pool and the field table.
struct ClassHeader {
    access_flags: u16,
    this_class: String,
    super_class: Option<String>,
    interfaces: Vec<String>,
}

impl View for ClassHeader {
    type V = class_format::HeaderView;

    closed spec fn view(&self) -> class_format::HeaderView {
        class_format::HeaderView {
            access_flags: self.access_flags,
            this_class: self.this_class@,
            super_class: match self.super_class {
                Some(s) => Some(s@),
                None => None,
            },
            interfaces: names_view(self.interfaces@),
        }
    }
}

fn parse_header(c: &mut Cursor, pool: &Vec<Constant>) -> (r: Result<ClassHeader, Fault>)
    requires
        old(c).wf(),
    ensures
        final(c).wf(),
        final(c).data == old(c).data,
        match class_format::header_at(old(c).data@, pool_view(pool@), old(c).at as int) {
            Ok((header, at)) => r is Ok && r->Ok_0@ == header && final(c).at == at,
            Err(f) => r == Err::<ClassHeader, Fault>(f),
        },
{
    let access_flags: u16 = match c.u16() {
        Err(f) => {
            return Err(f);
        },
        Ok(n) => n,
    };
    let this_class = match read_class(c, pool) {
        Err(f) => {
            return Err(f);
        },
        Ok(s) => s,
    };
    let super_class = match read_super(c, pool) {
        Err(f) => {
            return Err(f);
        },
        Ok(s) => s,
    };
    match parse_interfaces(c, pool) {
        Err(f) => Err(f),
        Ok(interfaces) => Ok(ClassHeader { access_flags, this_class, super_class, interfaces }),
    }
}

fn parse_file(bytes: &[u8]) -> (r: Result<ClassFile, Fault>)
    ensures
        match class_format::class_file(bytes@) {
            Ok(file) => r is Ok && r->Ok_0@ == file,
            Err(f) => r == Err::<ClassFile, Fault>(f),
        },
{
    let mut c = Cursor { data: bytes, at: 0 };
    let magic: u32 = match c.u32() {
        Err(f) => {
            return Err(f);
        },
        Ok(n) => n,
    };
    if magic != 0xCAFE_BABE {
        return Err(Fault::NotAClassFile);
    }
    // The two version numbers: a file that a JVM cannot load is the JVM's to refuse.
    match c.skip(4) {
        Err(f) => {
            return Err(f);
        },
        Ok(()) => {},
    }
    let pool = match parse_constant_pool(&mut c) {
        Err(f) => {
            return Err(f);
        },
        Ok(pool) => pool,
    };
    let header = match parse_header(&mut c, &pool) {
        Err(f) => {
            return Err(f);
        },
        Ok(header) => header,
    };
    let fields = match parse_fields(&mut c, &pool) {
        Err(f) => {
            return Err(f);
        },
        Ok(fields) => fields,
    };
    let methods = match parse_methods(&mut c, &pool) {
        Err(f) => {
            return Err(f);
        },
        Ok(methods) => methods,
    };
    Ok(
        ClassFile {
            this_class: header.this_class,
            access_flags: header.access_flags,
            super_class: header.super_class,
            interfaces: header.interfaces,
            fields,
            methods,
        },
    )
}

/// Reads a class file, or says what is wrong with it.
pub fn parse(bytes: &[u8]) -> (r: Result<ClassFile, String>)
    ensures
        match class_format::class_file(bytes@) {
            Ok(file) => r is Ok && r->Ok_0@ == file,
            Err(f) => r is Err && r->Err_0@ == f.words(),
        },
{
    match parse_file(bytes) {
        Ok(file) => Ok(file),
        Err(f) => Err(f.to_text()),
    }
}

} // verus!
