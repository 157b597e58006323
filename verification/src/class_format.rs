//! The class-file format, as far as this library reads it: what stands where, and what is wrong with
//! a file in which it does not.
//!
//! A reader is a specification function from an offset to what stands there and the offset behind it,
//! or to the [`Fault`] that stops it.

use crate::text;
use vstd::prelude::*;

verus! {

/// What is wrong with a file that cannot be read.
#[derive(Clone, Copy, Debug, PartialEq, Eq, Structural)]
pub enum Fault {
    /// The end of what was asked for is no machine offset.
    LengthOverflow,
    /// `wanted` bytes were asked for at offset `at` of `len` bytes, which end before that.
    Truncated { wanted: usize, at: usize, len: usize },
    /// The first four bytes are not the class-file magic.
    NotAClassFile,
    /// Entry `entry` of the constant pool has a tag that the format does not know.
    UnknownTag { tag: u8, entry: u16 },
    /// A name was looked for at this entry of the constant pool.
    NotUtf8 { index: u16 },
    /// A class was looked for at this entry of the constant pool.
    NotAClass { index: u16 },
}

impl Fault {
    /// The fault in words.
    pub open spec fn words(self) -> Seq<char> {
        match self {
            Fault::LengthOverflow => "class file: length overflow"@,
            Fault::Truncated { wanted, at, len } => "class file is truncated: wanted "@ + text::dec(
                wanted as nat,
            ) + " byte(s) at offset "@ + text::dec(at as nat) + ", file is "@ + text::dec(len as nat)
                + " byte(s)"@,
            Fault::NotAClassFile => "not a class file: it does not start with 0xCAFEBABE"@,
            Fault::UnknownTag { tag, entry } => "class file: unknown constant pool tag "@ + text::dec(
                tag as nat,
            ) + " at entry "@ + text::dec(entry as nat),
            Fault::NotUtf8 { index } => "class file: constant pool entry "@ + text::dec(index as nat)
                + " is not a UTF-8 constant"@,
            Fault::NotAClass { index } => "class file: constant pool entry "@ + text::dec(index as nat)
                + " is not a class constant"@,
        }
    }

    /// The fault in words.
    pub fn to_text(self) -> (r: String)
        ensures
            r@ == self.words(),
    {
        match self {
            Fault::LengthOverflow => text::owned("class file: length overflow"),
            Fault::Truncated { wanted, at, len } => {
                let mut r = text::owned("class file is truncated: wanted ");
                r.append(text::decimal(wanted as u64).as_str());
                r.append(" byte(s) at offset ");
                r.append(text::decimal(at as u64).as_str());
                r.append(", file is ");
                r.append(text::decimal(len as u64).as_str());
                r.append(" byte(s)");
                r
            },
            Fault::NotAClassFile => text::owned(
                "not a class file: it does not start with 0xCAFEBABE",
            ),
            Fault::UnknownTag { tag, entry } => {
                let mut r = text::owned("class file: unknown constant pool tag ");
                r.append(text::decimal(tag as u64).as_str());
                r.append(" at entry ");
                r.append(text::decimal(entry as u64).as_str());
                r
            },
            Fault::NotUtf8 { index } => {
                let mut r = text::owned("class file: constant pool entry ");
                r.append(text::decimal(index as u64).as_str());
                r.append(" is not a UTF-8 constant");
                r
            },
            Fault::NotAClass { index } => {
                let mut r = text::owned("class file: constant pool entry ");
                r.append(text::decimal(index as u64).as_str());
                r.append(" is not a class constant");
                r
            },
        }
    }
}

/// What a reader found and the offset behind it, or the fault that stopped it.
pub type Reading<T> = Result<(T, int), Fault>;

/// A constant-pool entry, as far as names go.
pub enum ConstantView {
    Utf8(Seq<char>),
    /// The entry that holds the name of a class.
    Class(u16),
    /// Any other entry, and the unusable second slot of a long or double.
    Other,
}

pub struct FieldView {
    pub access_flags: u16,
    pub name: Seq<char>,
    pub descriptor: Seq<char>,
}

pub struct MethodView {
    pub access_flags: u16,
    pub name: Seq<char>,
    pub descriptor: Seq<char>,
    pub body: BodyView,
}

/// What the `Code` attribute of a method says.
pub struct BodyView {
    pub has_code: bool,
    pub has_line_table: bool,
    pub lines: Seq<(u64, i32)>,
    pub code: Seq<u8>,
}

/// What a class file says between its constant pool and its fields.
pub struct HeaderView {
    pub access_flags: u16,
    pub this_class: Seq<char>,
    pub super_class: Option<Seq<char>>,
    pub interfaces: Seq<Seq<char>>,
}

pub struct ClassView {
    pub this_class: Seq<char>,
    pub access_flags: u16,
    pub super_class: Option<Seq<char>>,
    pub interfaces: Seq<Seq<char>>,
    pub fields: Seq<FieldView>,
    pub methods: Seq<MethodView>,
}

// ---------------------------------------------------------------------------------------------
// Bytes
// ---------------------------------------------------------------------------------------------
/// The offset behind `n` bytes at `at`.
pub open spec fn span(b: Seq<u8>, at: int, n: int) -> Result<int, Fault> {
    if at + n > usize::MAX {
        Err(Fault::LengthOverflow)
    } else if at + n > b.len() {
        Err(Fault::Truncated { wanted: n as usize, at: at as usize, len: b.len() as usize })
    } else {
        Ok(at + n)
    }
}

pub open spec fn bytes_at(b: Seq<u8>, at: int, n: int) -> Reading<Seq<u8>> {
    match span(b, at, n) {
        Ok(end) => Ok((b.subrange(at, end), end)),
        Err(f) => Err(f),
    }
}

pub open spec fn u8_at(b: Seq<u8>, at: int) -> Reading<u8> {
    match span(b, at, 1) {
        Ok(end) => Ok((b[at], end)),
        Err(f) => Err(f),
    }
}

/// Two bytes, the first the more significant.
pub open spec fn u16_at(b: Seq<u8>, at: int) -> Reading<u16> {
    match span(b, at, 2) {
        Ok(end) => Ok(((b[at] * 256 + b[at + 1]) as u16, end)),
        Err(f) => Err(f),
    }
}

/// Four bytes, as two halves of two.
pub open spec fn u32_at(b: Seq<u8>, at: int) -> Reading<u32> {
    match u16_at(b, at) {
        Err(f) => Err(f),
        Ok((high, at)) => match u16_at(b, at) {
            Err(f) => Err(f),
            Ok((low, at)) => Ok(((high * 65536 + low) as u32, at)),
        },
    }
}

/// `n` things one behind the other, each read by `one`.
pub open spec fn times<T>(one: spec_fn(int) -> Reading<T>, at: int, n: nat) -> Reading<Seq<T>>
    decreases n,
{
    if n == 0 {
        Ok((Seq::empty(), at))
    } else {
        match times(one, at, (n - 1) as nat) {
            Err(f) => Err(f),
            Ok((found, at)) => match one(at) {
                Err(f) => Err(f),
                Ok((x, at)) => Ok((found.push(x), at)),
            },
        }
    }
}

/// A table: two bytes that say how many, then that many things.
pub open spec fn table_at<T>(b: Seq<u8>, one: spec_fn(int) -> Reading<T>, at: int) -> Reading<Seq<T>> {
    match u16_at(b, at) {
        Err(f) => Err(f),
        Ok((n, at)) => times(one, at, n as nat),
    }
}

/// A fault in the first `k` of `n` things is the fault of the whole.
pub proof fn times_fault<T>(one: spec_fn(int) -> Reading<T>, at: int, k: nat, n: nat)
    requires
        k <= n,
        times(one, at, k) is Err,
    ensures
        times(one, at, n) == times(one, at, k),
    decreases n,
{
    if k < n {
        times_fault(one, at, k, (n - 1) as nat);
    }
}

// ---------------------------------------------------------------------------------------------
// The constant pool
// ---------------------------------------------------------------------------------------------
/// What `String::from_utf8_lossy` makes of bytes that are no UTF-8.
pub uninterp spec fn lossy_text(bytes: Seq<u8>) -> Seq<char>;

/// The text of bytes: what they encode where they are UTF-8.
pub open spec fn utf8_text(bytes: Seq<u8>) -> Seq<char> {
    if vstd::utf8::valid_utf8(bytes) {
        vstd::utf8::decode_utf8(bytes)
    } else {
        lossy_text(bytes)
    }
}

/// How many bytes an entry with this tag holds behind the tag, for the tags whose content is not
/// read here.
pub open spec fn skipped_width(tag: u8) -> Option<nat> {
    if tag == 8 || tag == 16 || tag == 19 || tag == 20 {
        Some(2)
    } else if tag == 15 {
        Some(3)
    } else if tag == 3 || tag == 4 || tag == 9 || tag == 10 || tag == 11 || tag == 12 || tag == 17
        || tag == 18 {
        Some(4)
    } else if tag == 5 || tag == 6 {
        Some(8)
    } else {
        None
    }
}

/// The content of entry `entry`, whose tag is `tag`.
pub open spec fn constant_at(b: Seq<u8>, at: int, tag: u8, entry: u16) -> Reading<ConstantView> {
    if tag == 1 {
        match u16_at(b, at) {
            Err(f) => Err(f),
            Ok((len, at)) => match bytes_at(b, at, len as int) {
                Err(f) => Err(f),
                Ok((bytes, at)) => Ok((ConstantView::Utf8(utf8_text(bytes)), at)),
            },
        }
    } else if tag == 7 {
        match u16_at(b, at) {
            Err(f) => Err(f),
            Ok((index, at)) => Ok((ConstantView::Class(index), at)),
        }
    } else {
        match skipped_width(tag) {
            None => Err(Fault::UnknownTag { tag, entry }),
            Some(width) => match span(b, at, width as int) {
                Err(f) => Err(f),
                Ok(at) => Ok((ConstantView::Other, at)),
            },
        }
    }
}

/// How many slots of the pool an entry with this tag takes: a long or double takes two, of which the
/// second is unusable.
pub open spec fn slots(tag: u8, entry: ConstantView) -> Seq<ConstantView> {
    if tag == 5 || tag == 6 {
        seq![entry, ConstantView::Other]
    } else {
        seq![entry]
    }
}

/// The pool that starts with `pool` and goes on at `at` until `count` slots are filled.
pub open spec fn pool_from(b: Seq<u8>, at: int, pool: Seq<ConstantView>, count: nat) -> Reading<
    Seq<ConstantView>,
>
    decreases count + 1 - pool.len(),
{
    if pool.len() >= count {
        Ok((pool, at))
    } else {
        match u8_at(b, at) {
            Err(f) => Err(f),
            Ok((tag, at)) => match constant_at(b, at, tag, pool.len() as u16) {
                Err(f) => Err(f),
                Ok((entry, at)) => pool_from(b, at, pool + slots(tag, entry), count),
            },
        }
    }
}

/// The constant pool: two bytes that say how many slots there are, then the entries from slot 1 on.
pub open spec fn pool_at(b: Seq<u8>, at: int) -> Reading<Seq<ConstantView>> {
    match u16_at(b, at) {
        Err(f) => Err(f),
        Ok((count, at)) => pool_from(b, at, seq![ConstantView::Other], count as nat),
    }
}

/// The text at a pool index.
pub open spec fn utf8_in(pool: Seq<ConstantView>, index: u16) -> Result<Seq<char>, Fault> {
    if index < pool.len() {
        match pool[index as int] {
            ConstantView::Utf8(s) => Ok(s),
            _ => Err(Fault::NotUtf8 { index }),
        }
    } else {
        Err(Fault::NotUtf8 { index })
    }
}

/// The dotted name of the class at a pool index.
pub open spec fn class_in(pool: Seq<ConstantView>, index: u16) -> Result<Seq<char>, Fault> {
    if index < pool.len() {
        match pool[index as int] {
            ConstantView::Class(name) => match utf8_in(pool, name) {
                Ok(s) => Ok(text::swapped(s, '/', '.')),
                Err(f) => Err(f),
            },
            _ => Err(Fault::NotAClass { index }),
        }
    } else {
        Err(Fault::NotAClass { index })
    }
}

pub open spec fn utf8_at(b: Seq<u8>, pool: Seq<ConstantView>, at: int) -> Reading<Seq<char>> {
    match u16_at(b, at) {
        Err(f) => Err(f),
        Ok((index, at)) => match utf8_in(pool, index) {
            Err(f) => Err(f),
            Ok(s) => Ok((s, at)),
        },
    }
}

pub open spec fn class_at(b: Seq<u8>, pool: Seq<ConstantView>, at: int) -> Reading<Seq<char>> {
    match u16_at(b, at) {
        Err(f) => Err(f),
        Ok((index, at)) => match class_in(pool, index) {
            Err(f) => Err(f),
            Ok(s) => Ok((s, at)),
        },
    }
}

pub open spec fn class_reader(b: Seq<u8>, pool: Seq<ConstantView>) -> spec_fn(int) -> Reading<
    Seq<char>,
> {
    |at: int| class_at(b, pool, at)
}

/// The superclass: index 0 is no pool entry, it says that there is none.
pub open spec fn super_at(b: Seq<u8>, pool: Seq<ConstantView>, at: int) -> Reading<
    Option<Seq<char>>,
> {
    match u16_at(b, at) {
        Err(f) => Err(f),
        Ok((index, at)) => if index == 0 {
            Ok((None, at))
        } else {
            match class_in(pool, index) {
                Err(f) => Err(f),
                Ok(s) => Ok((Some(s), at)),
            }
        },
    }
}

// ---------------------------------------------------------------------------------------------
// Fields
// ---------------------------------------------------------------------------------------------
/// An attribute that is passed over: its name, its length, its content.
pub open spec fn skipped_attribute_at(b: Seq<u8>, at: int) -> Reading<()> {
    match span(b, at, 2) {
        Err(f) => Err(f),
        Ok(at) => match u32_at(b, at) {
            Err(f) => Err(f),
            Ok((len, at)) => match span(b, at, len as int) {
                Err(f) => Err(f),
                Ok(at) => Ok(((), at)),
            },
        },
    }
}

pub open spec fn skipped_attribute_reader(b: Seq<u8>) -> spec_fn(int) -> Reading<()> {
    |at: int| skipped_attribute_at(b, at)
}

pub open spec fn field_at(b: Seq<u8>, pool: Seq<ConstantView>, at: int) -> Reading<FieldView> {
    match u16_at(b, at) {
        Err(f) => Err(f),
        Ok((access_flags, at)) => match utf8_at(b, pool, at) {
            Err(f) => Err(f),
            Ok((name, at)) => match utf8_at(b, pool, at) {
                Err(f) => Err(f),
                Ok((descriptor, at)) => match table_at(b, skipped_attribute_reader(b), at) {
                    Err(f) => Err(f),
                    Ok((_, at)) => Ok((FieldView { access_flags, name, descriptor }, at)),
                },
            },
        },
    }
}

pub open spec fn field_reader(b: Seq<u8>, pool: Seq<ConstantView>) -> spec_fn(int) -> Reading<
    FieldView,
> {
    |at: int| field_at(b, pool, at)
}

// ---------------------------------------------------------------------------------------------
// Methods
// ---------------------------------------------------------------------------------------------
/// An attribute as a whole: its name and its content.
pub open spec fn attribute_at(b: Seq<u8>, pool: Seq<ConstantView>, at: int) -> Reading<
    (Seq<char>, Seq<u8>),
> {
    match utf8_at(b, pool, at) {
        Err(f) => Err(f),
        Ok((name, at)) => match u32_at(b, at) {
            Err(f) => Err(f),
            Ok((len, at)) => match bytes_at(b, at, len as int) {
                Err(f) => Err(f),
                Ok((content, at)) => Ok(((name, content), at)),
            },
        },
    }
}

/// One row of a line-number table: where the line's code starts, and the line.
pub open spec fn line_at(b: Seq<u8>, at: int) -> Reading<(u64, i32)> {
    match u16_at(b, at) {
        Err(f) => Err(f),
        Ok((start_pc, at)) => match u16_at(b, at) {
            Err(f) => Err(f),
            Ok((line, at)) => Ok(((start_pc as u64, line as i32), at)),
        },
    }
}

pub open spec fn line_reader(b: Seq<u8>) -> spec_fn(int) -> Reading<(u64, i32)> {
    |at: int| line_at(b, at)
}

/// The content of a `LineNumberTable` attribute.
pub open spec fn line_table(content: Seq<u8>) -> Result<Seq<(u64, i32)>, Fault> {
    match table_at(content, line_reader(content), 0) {
        Err(f) => Err(f),
        Ok((lines, _)) => Ok(lines),
    }
}

/// The first `LineNumberTable` among the `n` attributes at `at`; those behind it are not looked at.
pub open spec fn first_line_table(b: Seq<u8>, pool: Seq<ConstantView>, at: int, n: nat) -> Result<
    Option<Seq<(u64, i32)>>,
    Fault,
>
    decreases n,
{
    if n == 0 {
        Ok(None)
    } else {
        match attribute_at(b, pool, at) {
            Err(f) => Err(f),
            Ok(((name, content), at)) => if name == "LineNumberTable"@ {
                match line_table(content) {
                    Err(f) => Err(f),
                    Ok(lines) => Ok(Some(lines)),
                }
            } else {
                first_line_table(b, pool, at, (n - 1) as nat)
            },
        }
    }
}

/// The content of a `Code` attribute: stack and local sizes, the code, the exception table, and
/// attributes of its own.
pub open spec fn code_body(content: Seq<u8>, pool: Seq<ConstantView>) -> Result<BodyView, Fault> {
    match span(content, 0, 4) {
        Err(f) => Err(f),
        Ok(at) => match u32_at(content, at) {
            Err(f) => Err(f),
            Ok((code_len, at)) => match bytes_at(content, at, code_len as int) {
                Err(f) => Err(f),
                Ok((code, at)) => match u16_at(content, at) {
                    Err(f) => Err(f),
                    Ok((exceptions, at)) => match span(content, at, exceptions * 8) {
                        Err(f) => Err(f),
                        Ok(at) => match u16_at(content, at) {
                            Err(f) => Err(f),
                            Ok((n, at)) => match first_line_table(content, pool, at, n as nat) {
                                Err(f) => Err(f),
                                Ok(None) => Ok(
                                    BodyView {
                                        has_code: true,
                                        has_line_table: false,
                                        lines: Seq::empty(),
                                        code,
                                    },
                                ),
                                Ok(Some(lines)) => Ok(
                                    BodyView { has_code: true, has_line_table: true, lines, code },
                                ),
                            },
                        },
                    },
                },
            },
        },
    }
}

/// A method without code: abstract or native.
pub open spec fn no_body() -> BodyView {
    BodyView { has_code: false, has_line_table: false, lines: Seq::empty(), code: Seq::empty() }
}

/// What the `n` attributes of a method at `at` say of its code: the last `Code` attribute counts.
pub open spec fn body_at(b: Seq<u8>, pool: Seq<ConstantView>, at: int, n: nat) -> Reading<BodyView>
    decreases n,
{
    if n == 0 {
        Ok((no_body(), at))
    } else {
        match body_at(b, pool, at, (n - 1) as nat) {
            Err(f) => Err(f),
            Ok((body, at)) => match attribute_at(b, pool, at) {
                Err(f) => Err(f),
                Ok(((name, content), at)) => if name == "Code"@ {
                    match code_body(content, pool) {
                        Err(f) => Err(f),
                        Ok(body) => Ok((body, at)),
                    }
                } else {
                    Ok((body, at))
                },
            },
        }
    }
}

pub open spec fn method_at(b: Seq<u8>, pool: Seq<ConstantView>, at: int) -> Reading<MethodView> {
    match u16_at(b, at) {
        Err(f) => Err(f),
        Ok((access_flags, at)) => match utf8_at(b, pool, at) {
            Err(f) => Err(f),
            Ok((name, at)) => match utf8_at(b, pool, at) {
                Err(f) => Err(f),
                Ok((descriptor, at)) => match u16_at(b, at) {
                    Err(f) => Err(f),
                    Ok((n, at)) => match body_at(b, pool, at, n as nat) {
                        Err(f) => Err(f),
                        Ok((body, at)) => Ok(
                            (MethodView { access_flags, name, descriptor, body }, at),
                        ),
                    },
                },
            },
        },
    }
}

pub open spec fn method_reader(b: Seq<u8>, pool: Seq<ConstantView>) -> spec_fn(int) -> Reading<
    MethodView,
> {
    |at: int| method_at(b, pool, at)
}

/// A fault in the first `k` of `n` attributes is the fault of all of them.
pub proof fn body_fault(b: Seq<u8>, pool: Seq<ConstantView>, at: int, k: nat, n: nat)
    requires
        k <= n,
        body_at(b, pool, at, k) is Err,
    ensures
        body_at(b, pool, at, n) == body_at(b, pool, at, k),
    decreases n,
{
    if k < n {
        body_fault(b, pool, at, k, (n - 1) as nat);
    }
}

// ---------------------------------------------------------------------------------------------
// The file
// ---------------------------------------------------------------------------------------------
/// Access flags, the class, its superclass, its interfaces.
pub open spec fn header_at(b: Seq<u8>, pool: Seq<ConstantView>, at: int) -> Reading<HeaderView> {
    match u16_at(b, at) {
        Err(f) => Err(f),
        Ok((access_flags, at)) => match class_at(b, pool, at) {
            Err(f) => Err(f),
            Ok((this_class, at)) => match super_at(b, pool, at) {
                Err(f) => Err(f),
                Ok((super_class, at)) => match table_at(b, class_reader(b, pool), at) {
                    Err(f) => Err(f),
                    Ok((interfaces, at)) => Ok(
                        (HeaderView { access_flags, this_class, super_class, interfaces }, at),
                    ),
                },
            },
        },
    }
}

/// What stands behind the constant pool: the header, the fields, the methods.
pub open spec fn declarations(b: Seq<u8>, pool: Seq<ConstantView>, at: int) -> Result<
    ClassView,
    Fault,
> {
    match header_at(b, pool, at) {
        Err(f) => Err(f),
        Ok((header, at)) => match table_at(b, field_reader(b, pool), at) {
            Err(f) => Err(f),
            Ok((fields, at)) => match table_at(b, method_reader(b, pool), at) {
                Err(f) => Err(f),
                Ok((methods, _)) => Ok(
                    ClassView {
                        this_class: header.this_class,
                        access_flags: header.access_flags,
                        super_class: header.super_class,
                        interfaces: header.interfaces,
                        fields,
                        methods,
                    },
                ),
            },
        },
    }
}

/// What a class file says: the magic, two version numbers that are passed over, the constant pool,
/// and the declarations.
pub open spec fn class_file(b: Seq<u8>) -> Result<ClassView, Fault> {
    match u32_at(b, 0) {
        Err(f) => Err(f),
        Ok((magic, at)) => if magic != 0xCAFE_BABE {
            Err(Fault::NotAClassFile)
        } else {
            match span(b, at, 4) {
                Err(f) => Err(f),
                Ok(at) => match pool_at(b, at) {
                    Err(f) => Err(f),
                    Ok((pool, at)) => declarations(b, pool, at),
                },
            }
        },
    }
}

} // verus!
