//! The grammar of generic signatures: what a signature says, how it is spelled in a class file, and
//! how Java source spells it.

use crate::text;
use vstd::prelude::*;

verus! {

/// A type: an array of so many dimensions of something that is no array.
#[verifier::ext_equal]
pub struct TypeSig {
    pub dims: nat,
    pub base: BaseSig,
}

#[verifier::ext_equal]
pub enum BaseSig {
    /// A base type by its letter.
    Primitive(char),
    /// A type variable.
    Variable(Seq<char>),
    /// A class: its outermost type, then the types nested in it down to the one meant.
    Class(Seq<Segment>),
}

/// One type of a nesting, with the type arguments given to it.
#[verifier::ext_equal]
pub struct Segment {
    pub name: Seq<char>,
    pub args: Seq<TypeArg>,
}

#[verifier::ext_equal]
pub enum TypeArg {
    Any,
    Extends(TypeSig),
    Super(TypeSig),
    Exactly(TypeSig),
}

/// A declared type parameter with its bounds.
#[verifier::ext_equal]
pub struct TypeParam {
    pub name: Seq<char>,
    pub class_bound: Option<TypeSig>,
    pub interface_bounds: Seq<TypeSig>,
}

#[verifier::ext_equal]
pub struct MethodSig {
    pub type_params: Seq<TypeParam>,
    pub params: Seq<TypeSig>,
    /// What it returns; `None` for a method that returns nothing.
    pub ret: Option<TypeSig>,
    pub throws: Seq<TypeSig>,
}

// ---------------------------------------------------------------------------------------------
// Which of these are signatures
// ---------------------------------------------------------------------------------------------
/// The Java name of a base type.
pub open spec fn base_name(c: char) -> Option<Seq<char>> {
    if c == 'B' {
        Some("byte"@)
    } else if c == 'C' {
        Some("char"@)
    } else if c == 'D' {
        Some("double"@)
    } else if c == 'F' {
        Some("float"@)
    } else if c == 'I' {
        Some("int"@)
    } else if c == 'J' {
        Some("long"@)
    } else if c == 'S' {
        Some("short"@)
    } else if c == 'Z' {
        Some("boolean"@)
    } else {
        None
    }
}

/// Where an identifier stands, which settles the characters that end it.
#[derive(Clone, Copy)]
pub enum Place {
    Variable,
    Segment,
    Parameter,
}

/// Whether `c` ends an identifier.
pub open spec fn ends(place: Place, c: char) -> bool {
    match place {
        Place::Variable => c == ';',
        Place::Segment => c == '<' || c == ';' || c == '.',
        Place::Parameter => c == ':',
    }
}

/// An identifier: not empty, and free of what would end it.
pub open spec fn is_ident(place: Place, name: Seq<char>) -> bool {
    name.len() > 0 && forall|i: int| 0 <= i < name.len() ==> !ends(place, #[trigger] name[i])
}

impl TypeSig {
    pub open spec fn wf(self) -> bool
        decreases self,
    {
        self.dims <= 255 && self.base.wf()
    }

    /// A class, a type variable or an array: what a type argument or a bound may be.
    pub open spec fn is_reference(self) -> bool {
        self.dims > 0 || !(self.base is Primitive)
    }
}

impl BaseSig {
    pub open spec fn wf(self) -> bool
        decreases self,
    {
        match self {
            BaseSig::Primitive(c) => base_name(c) is Some,
            BaseSig::Variable(name) => is_ident(Place::Variable, name),
            BaseSig::Class(segments) => segments.len() > 0 && segments_wf(segments),
        }
    }
}

pub open spec fn segments_wf(segments: Seq<Segment>) -> bool
    decreases segments,
{
    segments.len() == 0 || (is_ident(Place::Segment, segments[0].name) && args_wf(segments[0].args)
        && segments_wf(segments.drop_first()))
}

pub open spec fn args_wf(args: Seq<TypeArg>) -> bool
    decreases args,
{
    args.len() == 0 || (args[0].wf() && args_wf(args.drop_first()))
}

impl TypeArg {
    pub open spec fn wf(self) -> bool
        decreases self,
    {
        match self {
            TypeArg::Any => true,
            TypeArg::Extends(t) => t.wf() && t.is_reference(),
            TypeArg::Super(t) => t.wf() && t.is_reference(),
            TypeArg::Exactly(t) => t.wf() && t.is_reference(),
        }
    }
}

pub open spec fn types_wf(types: Seq<TypeSig>) -> bool {
    forall|i: int| 0 <= i < types.len() ==> (#[trigger] types[i]).wf()
}

/// Whether `t` may stand behind `mark`: behind the `:` of a bound no base type, and behind the `^` of
/// an exception no array either.
pub open spec fn fits(mark: char, t: TypeSig) -> bool {
    t.is_reference() && (mark == '^' ==> t.dims == 0)
}

pub open spec fn marked_wf(mark: char, types: Seq<TypeSig>) -> bool {
    forall|i: int| 0 <= i < types.len() ==> (#[trigger] types[i]).wf() && fits(mark, types[i])
}

impl TypeParam {
    pub open spec fn wf(self) -> bool {
        &&& is_ident(Place::Parameter, self.name)
        &&& self.name[0] != '>'
        &&& self.class_bound matches Some(t) ==> t.wf() && fits(':', t)
        &&& marked_wf(':', self.interface_bounds)
    }

    pub open spec fn is_bounded(self) -> bool {
        self.class_bound is Some || self.interface_bounds.len() > 0
    }
}

/// Only the last parameter may go without any bound: what follows an unbounded one would be taken for
/// its bound.
pub open spec fn params_wf(params: Seq<TypeParam>) -> bool {
    forall|i: int|
        0 <= i < params.len() ==> (#[trigger] params[i]).wf() && (i + 1 < params.len()
            ==> params[i].is_bounded())
}

impl MethodSig {
    pub open spec fn wf(self) -> bool {
        &&& params_wf(self.type_params)
        &&& types_wf(self.params)
        &&& self.ret matches Some(t) ==> t.wf()
        &&& marked_wf('^', self.throws)
    }
}

// ---------------------------------------------------------------------------------------------
// The spelling in a class file
// ---------------------------------------------------------------------------------------------
/// `unit`, `n` times.
pub open spec fn repeated(unit: Seq<char>, n: nat) -> Seq<char>
    decreases n,
{
    if n == 0 {
        Seq::empty()
    } else {
        repeated(unit, (n - 1) as nat) + unit
    }
}

impl TypeSig {
    pub open spec fn wire(self) -> Seq<char>
        decreases self,
    {
        Seq::new(self.dims, |i: int| '[') + self.base.wire()
    }
}

impl BaseSig {
    pub open spec fn wire(self) -> Seq<char>
        decreases self,
    {
        match self {
            BaseSig::Primitive(c) => seq![c],
            BaseSig::Variable(name) => seq!['T'] + name + seq![';'],
            BaseSig::Class(segments) => seq!['L'] + segments_wire(segments),
        }
    }
}

/// The nesting, a `.` before each nested type and a `;` behind the last.
pub open spec fn segments_wire(segments: Seq<Segment>) -> Seq<char>
    decreases segments,
{
    if segments.len() == 0 {
        Seq::empty()
    } else {
        segments[0].name + bracketed_wire(segments[0].args) + (if segments.len() == 1 {
            seq![';']
        } else {
            seq!['.']
        }) + segments_wire(segments.drop_first())
    }
}

/// Type arguments in angle brackets; nothing where there are none.
pub open spec fn bracketed_wire(args: Seq<TypeArg>) -> Seq<char>
    decreases args, 1nat,
{
    if args.len() == 0 {
        Seq::empty()
    } else {
        seq!['<'] + args_wire(args) + seq!['>']
    }
}

pub open spec fn args_wire(args: Seq<TypeArg>) -> Seq<char>
    decreases args, 0nat,
{
    if args.len() == 0 {
        Seq::empty()
    } else {
        args[0].wire() + args_wire(args.drop_first())
    }
}

impl TypeArg {
    pub open spec fn wire(self) -> Seq<char>
        decreases self,
    {
        match self {
            TypeArg::Any => seq!['*'],
            TypeArg::Extends(t) => seq!['+'] + t.wire(),
            TypeArg::Super(t) => seq!['-'] + t.wire(),
            TypeArg::Exactly(t) => t.wire(),
        }
    }
}

/// Types one behind the other, `mark` before each.
pub open spec fn types_wire(mark: Seq<char>, types: Seq<TypeSig>) -> Seq<char>
    decreases types.len(),
{
    if types.len() == 0 {
        Seq::empty()
    } else {
        mark + types[0].wire() + types_wire(mark, types.drop_first())
    }
}

impl TypeParam {
    pub open spec fn wire(self) -> Seq<char> {
        self.name + seq![':'] + (match self.class_bound {
            Some(t) => t.wire(),
            None => Seq::empty(),
        }) + types_wire(seq![':'], self.interface_bounds)
    }
}

pub open spec fn params_wire(params: Seq<TypeParam>) -> Seq<char>
    decreases params.len(),
{
    if params.len() == 0 {
        Seq::empty()
    } else {
        params[0].wire() + params_wire(params.drop_first())
    }
}

/// Type parameters in angle brackets; nothing where there are none.
pub open spec fn declared_wire(params: Seq<TypeParam>) -> Seq<char> {
    if params.len() == 0 {
        Seq::empty()
    } else {
        seq!['<'] + params_wire(params) + seq!['>']
    }
}

/// What a method returns; `V` for nothing.
pub open spec fn ret_wire(ret: Option<TypeSig>) -> Seq<char> {
    match ret {
        Some(t) => t.wire(),
        None => seq!['V'],
    }
}

impl MethodSig {
    pub open spec fn wire(self) -> Seq<char> {
        declared_wire(self.type_params) + seq!['('] + types_wire(Seq::empty(), self.params)
            + seq![')'] + ret_wire(self.ret) + types_wire(seq!['^'], self.throws)
    }
}

// ---------------------------------------------------------------------------------------------
// The spelling in Java source
// ---------------------------------------------------------------------------------------------
impl TypeSig {
    pub open spec fn java(self) -> Seq<char>
        decreases self,
    {
        self.base.java() + repeated("[]"@, self.dims)
    }
}

impl BaseSig {
    pub open spec fn java(self) -> Seq<char>
        decreases self,
    {
        match self {
            BaseSig::Primitive(c) => base_name(c)->0,
            BaseSig::Variable(name) => name,
            BaseSig::Class(segments) => segments_java(segments),
        }
    }
}

/// The nesting with a `.` between its types.
pub open spec fn segments_java(segments: Seq<Segment>) -> Seq<char>
    decreases segments,
{
    if segments.len() == 0 {
        Seq::empty()
    } else {
        (if segments.len() == 1 {
            Seq::empty()
        } else {
            segments_java(segments.drop_last()).push('.')
        }) + text::swapped(segments.last().name, '/', '.') + bracketed_java(segments.last().args)
    }
}

pub open spec fn bracketed_java(args: Seq<TypeArg>) -> Seq<char>
    decreases args, 1nat,
{
    if args.len() == 0 {
        Seq::empty()
    } else {
        "<"@ + text::joined(args_java(args), ", "@) + ">"@
    }
}

pub open spec fn args_java(args: Seq<TypeArg>) -> Seq<Seq<char>>
    decreases args, 0nat,
{
    if args.len() == 0 {
        Seq::empty()
    } else {
        args_java(args.drop_last()).push(args.last().java())
    }
}

impl TypeArg {
    pub open spec fn java(self) -> Seq<char>
        decreases self,
    {
        match self {
            TypeArg::Any => "?"@,
            TypeArg::Extends(t) => "? extends "@ + t.java(),
            TypeArg::Super(t) => "? super "@ + t.java(),
            TypeArg::Exactly(t) => t.java(),
        }
    }
}

pub open spec fn types_java(types: Seq<TypeSig>) -> Seq<Seq<char>> {
    types.map_values(|t: TypeSig| t.java())
}

impl TypeParam {
    /// The bounds as Java writes them: the one that every class has is left out.
    pub open spec fn bounds_java(self) -> Seq<Seq<char>> {
        types_java(
            (match self.class_bound {
                Some(t) => seq![t],
                None => Seq::empty(),
            }) + self.interface_bounds,
        ).filter(|b: Seq<char>| b != "java.lang.Object"@)
    }

    pub open spec fn java(self) -> Seq<char> {
        if self.bounds_java().len() == 0 {
            self.name
        } else {
            self.name + " extends "@ + text::joined(self.bounds_java(), " & "@)
        }
    }
}

pub open spec fn params_java(params: Seq<TypeParam>) -> Seq<Seq<char>> {
    params.map_values(|p: TypeParam| p.java())
}

/// What a method returns; `void` for nothing.
pub open spec fn ret_java(ret: Option<TypeSig>) -> Seq<char> {
    match ret {
        Some(t) => t.java(),
        None => "void"@,
    }
}

/// `sig` spells the type `t`.
pub open spec fn spells_type(sig: Seq<char>, t: TypeSig) -> bool {
    t.wf() && t.wire() == sig
}

/// `sig` spells the method `m`.
pub open spec fn spells_method(sig: Seq<char>, m: MethodSig) -> bool {
    m.wf() && m.wire() == sig
}

} // verus!
