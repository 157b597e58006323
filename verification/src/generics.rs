//! Generic signatures rendered as Java source.
//!
//! A generic signature is an optional attribute of a class file, and its grammar is not that of a
//! plain descriptor. Everything here gives `None` for a text that the grammar does not spell, the
//! empty text among them, so that a caller falls back to the descriptor it already has and never
//! shows a blank type.

use crate::generics_grammar;
use crate::generics_grammar::Place;
use crate::generics_parse;
use crate::text;
use vstd::prelude::*;

verus! {

/// A method signature in the pieces a declaration is written from.
#[derive(Debug, PartialEq, Eq)]
pub struct MethodParts {
    /// Such as `T` and `U extends Number`; empty for a method that declares none.
    pub type_params: Vec<String>,
    /// The parameter types in order.
    pub params: Vec<String>,
    /// The return type, `void` included.
    pub ret: String,
    /// The `throws` types.
    pub throws: Vec<String>,
}

impl MethodParts {
    /// These pieces are those of `m`.
    pub open spec fn renders(self, m: generics_grammar::MethodSig) -> bool {
        &&& text::views(self.type_params@) == generics_grammar::params_java(m.type_params)
        &&& text::views(self.params@) == generics_grammar::types_java(m.params)
        &&& self.ret@ == generics_grammar::ret_java(m.ret)
        &&& text::views(self.throws@) == generics_grammar::types_java(m.throws)
    }
}

/// A place in the characters of a signature.
struct Cursor<'a> {
    s: &'a Vec<char>,
    i: usize,
}

impl<'a> Cursor<'a> {
    spec fn wf(self) -> bool {
        self.i <= self.s@.len()
    }

    fn peek(&self) -> (r: Option<char>)
        requires
            self.wf(),
        ensures
            r == (if self.i < self.s@.len() {
                Some(self.s@[self.i as int])
            } else {
                None
            }),
    {
        if self.i < self.s.len() {
            Some(self.s[self.i])
        } else {
            None
        }
    }

    fn at(&self, c: char) -> (r: bool)
        requires
            self.wf(),
        ensures
            r == (self.i < self.s@.len() && self.s@[self.i as int] == c),
    {
        self.i < self.s.len() && self.s[self.i] == c
    }

    fn eat(&mut self, c: char) -> (r: bool)
        requires
            old(self).wf(),
        ensures
            final(self).wf(),
            final(self).s == old(self).s,
            r == (old(self).i < old(self).s@.len() && old(self).s@[old(self).i as int] == c),
            final(self).i == (if r {
                old(self).i + 1
            } else {
                old(self).i as int
            }),
    {
        if self.i < self.s.len() && self.s[self.i] == c {
            self.i += 1;
            true
        } else {
            false
        }
    }

    fn bump(&mut self)
        requires
            old(self).i < old(self).s@.len(),
        ensures
            final(self).wf(),
            final(self).s == old(self).s,
            final(self).i == old(self).i + 1,
    {
        if self.i < self.s.len() {
            self.i += 1;
        }
    }

    /// Moves behind the identifier that stands here, which may be empty.
    fn pass_ident(&mut self, place: Place)
        requires
            old(self).wf(),
        ensures
            final(self).wf(),
            final(self).s == old(self).s,
            final(self).i == generics_parse::ident_end(place, old(self).s@, old(self).i as int),
            old(self).i <= final(self).i,
    {
        while self.i < self.s.len() && !ends_here(place, self.s[self.i])
            invariant
                self.wf(),
                self.s == old(self).s,
                old(self).i <= self.i,
                generics_parse::ident_end(place, old(self).s@, old(self).i as int)
                    == generics_parse::ident_end(place, self.s@, self.i as int),
            decreases self.s@.len() - self.i,
        {
            self.i += 1;
        }
    }
}

fn ends_here(place: Place, c: char) -> (r: bool)
    ensures
        r == generics_grammar::ends(place, c),
{
    match place {
        Place::Variable => c == ';',
        Place::Segment => c == '<' || c == ';' || c == '.',
        Place::Parameter => c == ':',
    }
}

/// The Java name of a base type.
fn base_type(c: char) -> (r: Option<&'static str>)
    ensures
        match generics_grammar::base_name(c) {
            Some(name) => r is Some && r->0@ == name,
            None => r is None,
        },
{
    if c == 'B' {
        Some("byte")
    } else if c == 'C' {
        Some("char")
    } else if c == 'D' {
        Some("double")
    } else if c == 'F' {
        Some("float")
    } else if c == 'I' {
        Some("int")
    } else if c == 'J' {
        Some("long")
    } else if c == 'S' {
        Some("short")
    } else if c == 'Z' {
        Some("boolean")
    } else {
        None
    }
}

/// An array, a class type, a type variable, or a base type.
fn type_sig(c: &mut Cursor) -> (r: Option<String>)
    requires
        old(c).wf(),
    ensures
        final(c).wf(),
        final(c).s == old(c).s,
        match generics_parse::read_type(old(c).s@, old(c).i as int) {
            Some((t, j)) => r is Some && r->0@ == t.java() && final(c).i == j && old(c).i < j,
            None => r is None,
        },
    decreases old(c).s@.len() - old(c).i, 1nat,
{
    proof {
        generics_parse::brackets_count(c.s@, c.i as int);
        if generics_parse::read_type(c.s@, c.i as int) is Some {
            generics_parse::type_sound(c.s@, c.i as int);
        }
    }
    let mut dims: usize = 0;
    while c.eat('[')
        invariant
            c.wf(),
            c.s == old(c).s,
            dims <= 255,
            c.i == old(c).i + dims,
            generics_parse::brackets(c.s@, old(c).i as int) == dims + generics_parse::brackets(
                c.s@,
                c.i as int,
            ),
        decreases c.s@.len() - c.i,
    {
        dims += 1;
        // Brackets and nothing else are no type, and no type has more dimensions than this.
        if dims > 255 {
            return None;
        }
    }
    let base = match c.peek() {
        None => {
            return None;
        },
        Some(first) => if first == 'L' {
            match class_type(c) {
                None => {
                    return None;
                },
                Some(s) => s,
            }
        } else if first == 'T' {
            c.bump();
            let start: usize = c.i;
            proof {
                generics_parse::ident_end_stops(Place::Variable, c.s@, c.i as int);
            }
            c.pass_ident(Place::Variable);
            let end: usize = c.i;
            if start == end || !c.eat(';') {
                return None;
            }
            text::text_between(c.s, start, end)
        } else {
            match base_type(first) {
                None => {
                    return None;
                },
                Some(name) => {
                    c.bump();
                    text::owned(name)
                },
            }
        },
    };
    let mut out = base;
    let ghost name = out@;
    let mut k: usize = 0;
    while k < dims
        invariant
            k <= dims,
            out@ == name + generics_grammar::repeated("[]"@, k as nat),
        decreases dims - k,
    {
        out.append("[]");
        k += 1;
    }
    Some(out)
}

/// A class, a type variable or an array, and no base type.
fn reference_sig(c: &mut Cursor) -> (r: Option<String>)
    requires
        old(c).wf(),
    ensures
        final(c).wf(),
        final(c).s == old(c).s,
        match generics_parse::read_reference(old(c).s@, old(c).i as int) {
            Some((t, j)) => r is Some && r->0@ == t.java() && final(c).i == j && old(c).i < j,
            None => r is None,
        },
    decreases old(c).s@.len() - old(c).i, 2nat,
{
    proof {
        generics_parse::reference_starts(c.s@, c.i as int);
    }
    match c.peek() {
        Some(first) => if first == 'L' || first == 'T' || first == '[' {
            type_sig(c)
        } else {
            None
        },
        None => None,
    }
}

/// A class with the types nested in it, each with its own arguments.
fn class_type(c: &mut Cursor) -> (r: Option<String>)
    requires
        old(c).wf(),
        old(c).i < old(c).s@.len(),
        old(c).s@[old(c).i as int] == 'L',
    ensures
        final(c).wf(),
        final(c).s == old(c).s,
        match generics_parse::read_segments(old(c).s@, old(c).i + 1, Seq::empty()) {
            Some((segments, j)) => r is Some && r->0@ == generics_grammar::segments_java(segments)
                && final(c).i == j,
            None => r is None,
        },
    decreases old(c).s@.len() - old(c).i, 0nat,
{
    c.bump();
    let mut out = String::new();
    let mut nested: bool = false;
    let ghost mut done: Seq<generics_grammar::Segment> = Seq::empty();
    loop
        invariant
            c.wf(),
            c.s == old(c).s,
            old(c).i < c.i,
            nested == (done.len() > 0),
            out@ == generics_grammar::segments_java(done),
            generics_parse::read_segments(old(c).s@, old(c).i + 1, Seq::empty())
                == generics_parse::read_segments(c.s@, c.i as int, done),
        decreases c.s@.len() - c.i,
    {
        let start: usize = c.i;
        proof {
            generics_parse::ident_end_stops(Place::Segment, c.s@, c.i as int);
        }
        c.pass_ident(Place::Segment);
        let end: usize = c.i;
        if start == end {
            return None;
        }
        if nested {
            out.push('.');
        }
        let name = text::swap_between(c.s, start, end, '/', '.');
        out.append(name.as_str());
        let args = match type_arguments(c) {
            None => {
                return None;
            },
            Some(args) => args,
        };
        out.append(args.as_str());
        proof {
            let (found, _) = generics_parse::read_bracketed(c.s@, end as int)->0;
            let segment = generics_grammar::Segment {
                name: c.s@.subrange(start as int, end as int),
                args: found,
            };
            let now = done.push(segment);
            assert(now.drop_last() =~= done);
            assert(out@ =~= generics_grammar::segments_java(now));
            done = now;
        }
        nested = true;
        // A `.` starts a nested type; a `;` ends the whole.
        if c.eat(';') {
            return Some(out);
        }
        if !c.eat('.') {
            return None;
        }
    }
}

/// The type arguments that stand here, angle brackets included; empty where there are none.
fn type_arguments(c: &mut Cursor) -> (r: Option<String>)
    requires
        old(c).wf(),
    ensures
        final(c).wf(),
        final(c).s == old(c).s,
        match generics_parse::read_bracketed(old(c).s@, old(c).i as int) {
            Some((args, j)) => r is Some && r->0@ == generics_grammar::bracketed_java(args)
                && final(c).i == j && old(c).i <= j,
            None => r is None,
        },
    decreases old(c).s@.len() - old(c).i, 0nat,
{
    if !c.eat('<') {
        return Some(String::new());
    }
    let mut args: Vec<String> = Vec::new();
    let ghost mut done: Seq<generics_grammar::TypeArg> = Seq::empty();
    assert(text::views(args@) =~= Seq::empty());
    loop
        invariant
            c.wf(),
            c.s == old(c).s,
            old(c).i < c.i,
            text::views(args@) == generics_grammar::args_java(done),
            args@.len() == done.len(),
            generics_parse::read_args(old(c).s@, old(c).i + 1, Seq::empty())
                == generics_parse::read_args(c.s@, c.i as int, done),
            generics_parse::read_bracketed(old(c).s@, old(c).i as int) == (
            match generics_parse::read_args(old(c).s@, old(c).i + 1, Seq::empty()) {
                None => None,
                Some((args, j)) => if args.len() > 0 {
                    Some((args, j + 1))
                } else {
                    None
                },
            }),
        ensures
            c.wf(),
            c.s == old(c).s,
            old(c).i < c.i < c.s@.len(),
            c.s@[c.i as int] == '>',
        decreases c.s@.len() - c.i,
    {
        let ghost before = text::views(args@);
        let ghost at = c.i as int;
        let arg = match c.peek() {
            None => {
                return None;
            },
            Some(first) => {
                if first == '>' {
                    break;
                }
                if first == '*' {
                    c.bump();
                    text::owned("?")
                } else if first == '+' {
                    c.bump();
                    match reference_sig(c) {
                        None => {
                            return None;
                        },
                        Some(t) => text::owned("? extends ").concat(t.as_str()),
                    }
                } else if first == '-' {
                    c.bump();
                    match reference_sig(c) {
                        None => {
                            return None;
                        },
                        Some(t) => text::owned("? super ").concat(t.as_str()),
                    }
                } else {
                    match reference_sig(c) {
                        None => {
                            return None;
                        },
                        Some(t) => t,
                    }
                }
            },
        };
        let ghost shown = arg@;
        args.push(arg);
        proof {
            let (found, _) = generics_parse::read_arg(c.s@, at)->0;
            let now = done.push(found);
            assert(shown == found.java());
            assert(now.drop_last() =~= done);
            assert(generics_grammar::args_java(now) == generics_grammar::args_java(done).push(
                found.java(),
            ));
            assert(text::views(args@) =~= before.push(shown));
            done = now;
        }
    }
    c.bump();
    if args.len() == 0 {
        return None;
    }
    let mut out = text::owned("<");
    out.append(text::join(&args, ", ").as_str());
    out.append(">");
    Some(out)
}

/// Types with `mark` before each, as many as follow, rendered behind those in `out`.
fn marked_types(c: &mut Cursor, mark: char, out: &mut Vec<String>) -> (r: bool)
    requires
        old(c).wf(),
    ensures
        final(c).wf(),
        final(c).s == old(c).s,
        match generics_parse::read_marked(old(c).s@, old(c).i as int, mark, Seq::empty()) {
            Some((types, j)) => r && final(c).i == j && old(c).i <= j && text::views(final(out)@)
                == text::views(old(out)@) + generics_grammar::types_java(types),
            None => !r,
        },
{
    let ghost mut done: Seq<generics_grammar::TypeSig> = Seq::empty();
    assert(text::views(out@) =~= text::views(old(out)@) + generics_grammar::types_java(done));
    while c.eat(mark)
        invariant
            c.wf(),
            c.s == old(c).s,
            old(c).i <= c.i,
            text::views(out@) == text::views(old(out)@) + generics_grammar::types_java(done),
            generics_parse::read_marked(old(c).s@, old(c).i as int, mark, Seq::empty())
                == generics_parse::read_marked(c.s@, c.i as int, mark, done),
        decreases c.s@.len() - c.i,
    {
        let ghost before = text::views(out@);
        let ghost at = c.i as int;
        proof {
            generics_parse::reference_starts(c.s@, c.i as int);
        }
        // An exception is a class or a type variable.
        if mark == '^' && c.at('[') {
            return false;
        }
        match reference_sig(c) {
            None => {
                return false;
            },
            Some(t) => {
                let ghost shown = t@;
                out.push(t);
                proof {
                    let (found, _) = generics_parse::read_reference(c.s@, at)->0;
                    assert(text::views(out@) =~= before.push(shown));
                    done = done.push(found);
                    assert(text::views(out@) =~= text::views(old(out)@)
                        + generics_grammar::types_java(done));
                }
            },
        }
    }
    true
}

/// `bounds` without the one that every class has.
fn written_bounds(bounds: Vec<String>) -> (r: Vec<String>)
    ensures
        text::views(r@) == text::views(bounds@).filter(|b: Seq<char>| b != "java.lang.Object"@),
{
    let ghost all = text::views(bounds@);
    let ghost keep = |b: Seq<char>| b != "java.lang.Object"@;
    let mut r: Vec<String> = Vec::new();
    let mut i: usize = 0;
    proof {
        reveal(Seq::filter);
        assert(all.take(0) =~= Seq::empty());
        assert(text::views(r@) =~= all.take(0).filter(keep));
    }
    while i < bounds.len()
        invariant
            i <= bounds@.len(),
            all == text::views(bounds@),
            text::views(r@) == all.take(i as int).filter(keep),
            keep == (|b: Seq<char>| b != "java.lang.Object"@),
        decreases bounds@.len() - i,
    {
        let ghost before = text::views(r@);
        proof {
            reveal(Seq::filter);
            assert(all.take(i + 1).drop_last() =~= all.take(i as int));
            assert(all.take(i + 1).last() == bounds@[i as int]@);
        }
        if !text::same(bounds[i].as_str(), "java.lang.Object") {
            r.push(bounds[i].clone());
            assert(text::views(r@) =~= before.push(bounds@[i as int]@));
        }
        i += 1;
    }
    assert(all.take(i as int) =~= all);
    r
}

/// One type parameter as Java declares it.
fn type_parameter(c: &mut Cursor) -> (r: Option<String>)
    requires
        old(c).wf(),
    ensures
        final(c).wf(),
        final(c).s == old(c).s,
        match generics_parse::read_param(old(c).s@, old(c).i as int) {
            Some((p, j)) => r is Some && r->0@ == p.java() && final(c).i == j && old(c).i < j,
            None => r is None,
        },
{
    let start: usize = c.i;
    proof {
        generics_parse::ident_end_stops(Place::Parameter, c.s@, c.i as int);
    }
    c.pass_ident(Place::Parameter);
    let end: usize = c.i;
    // At least one `:` is required; a parameter with interface bounds only has two.
    if start == end || !c.eat(':') {
        return None;
    }
    let mut bounds: Vec<String> = Vec::new();
    let ghost class_bound = generics_parse::read_class_bound(c.s@, c.i as int);
    let ghost mut written: Seq<generics_grammar::TypeSig> = Seq::empty();
    match c.peek() {
        Some(next) => {
            if next != ':' && next != '>' {
                match reference_sig(c) {
                    None => {
                        return None;
                    },
                    Some(t) => {
                        let ghost shown = t@;
                        bounds.push(t);
                        proof {
                            let (bound, _) = class_bound->0;
                            written = seq![bound->0];
                            assert(text::views(bounds@) =~= seq![shown]);
                        }
                    },
                }
            }
        },
        None => {},
    }
    assert(text::views(bounds@) =~= generics_grammar::types_java(written));
    let ghost at = c.i as int;
    if !marked_types(c, ':', &mut bounds) {
        return None;
    }
    let ghost (more, _) = generics_parse::read_marked(c.s@, at, ':', Seq::empty())->0;
    assert(text::views(bounds@) =~= generics_grammar::types_java(written + more));
    let bounds = written_bounds(bounds);
    let mut out = text::text_between(c.s, start, end);
    if bounds.len() > 0 {
        out.append(" extends ");
        out.append(text::join(&bounds, " & ").as_str());
    }
    Some(out)
}

/// The declared type parameters that stand here, in angle brackets.
fn type_parameters(c: &mut Cursor) -> (r: Option<Vec<String>>)
    requires
        old(c).wf(),
        old(c).i == 0,
    ensures
        final(c).wf(),
        final(c).s == old(c).s,
        match generics_parse::read_declared(old(c).s@) {
            Some((params, j)) => r is Some && text::views(r->0@) == generics_grammar::params_java(
                params,
            ) && final(c).i == j,
            None => r is None,
        },
{
    let mut out: Vec<String> = Vec::new();
    let ghost mut done: Seq<generics_grammar::TypeParam> = Seq::empty();
    assert(text::views(out@) =~= generics_grammar::params_java(done));
    if !c.eat('<') {
        return Some(out);
    }
    loop
        invariant
            c.wf(),
            c.s == old(c).s,
            old(c).i == 0,
            0 < c.i,
            c.s@[0] == '<',
            out@.len() == done.len(),
            text::views(out@) == generics_grammar::params_java(done),
            generics_parse::read_params(c.s@, 1, Seq::empty()) == generics_parse::read_params(
                c.s@,
                c.i as int,
                done,
            ),
        ensures
            c.wf(),
            c.s == old(c).s,
            0 < c.i < c.s@.len(),
            c.s@[c.i as int] == '>',
        decreases c.s@.len() - c.i,
    {
        match c.peek() {
            None => {
                return None;
            },
            Some(next) => {
                if next == '>' {
                    break;
                }
            },
        }
        let ghost before = text::views(out@);
        let ghost at = c.i as int;
        match type_parameter(c) {
            None => {
                return None;
            },
            Some(p) => {
                let ghost shown = p@;
                out.push(p);
                proof {
                    let (found, _) = generics_parse::read_param(c.s@, at)->0;
                    assert(text::views(out@) =~= before.push(shown));
                    done = done.push(found);
                    assert(text::views(out@) =~= generics_grammar::params_java(done));
                }
            },
        }
    }
    c.bump();
    if out.len() == 0 {
        return None;
    }
    Some(out)
}

/// The parameter types up to the closing parenthesis, which is passed too.
fn parameter_types(c: &mut Cursor) -> (r: Option<Vec<String>>)
    requires
        old(c).wf(),
    ensures
        final(c).wf(),
        final(c).s == old(c).s,
        match generics_parse::read_types(old(c).s@, old(c).i as int, Seq::empty()) {
            Some((types, j)) => r is Some && text::views(r->0@) == generics_grammar::types_java(
                types,
            ) && final(c).i == j + 1,
            None => r is None,
        },
{
    let mut out: Vec<String> = Vec::new();
    let ghost mut done: Seq<generics_grammar::TypeSig> = Seq::empty();
    assert(text::views(out@) =~= generics_grammar::types_java(done));
    loop
        invariant
            c.wf(),
            c.s == old(c).s,
            text::views(out@) == generics_grammar::types_java(done),
            generics_parse::read_types(c.s@, old(c).i as int, Seq::empty())
                == generics_parse::read_types(c.s@, c.i as int, done),
        ensures
            c.wf(),
            c.s == old(c).s,
            c.i < c.s@.len(),
            c.s@[c.i as int] == ')',
        decreases c.s@.len() - c.i,
    {
        match c.peek() {
            None => {
                return None;
            },
            Some(next) => {
                if next == ')' {
                    break;
                }
            },
        }
        let ghost before = text::views(out@);
        let ghost at = c.i as int;
        match type_sig(c) {
            None => {
                return None;
            },
            Some(t) => {
                let ghost shown = t@;
                out.push(t);
                proof {
                    let (found, _) = generics_parse::read_type(c.s@, at)->0;
                    assert(text::views(out@) =~= before.push(shown));
                    done = done.push(found);
                    assert(text::views(out@) =~= generics_grammar::types_java(done));
                }
            },
        }
    }
    c.bump();
    Some(out)
}

/// Renders a type signature as Java source; `None` for a text that spells no type.
pub fn render_type(sig: &str) -> (r: Option<String>)
    ensures
        match r {
            Some(out) => exists|t: generics_grammar::TypeSig|
                generics_grammar::spells_type(sig@, t) && out@ == t.java(),
            None => forall|t: generics_grammar::TypeSig| !generics_grammar::spells_type(sig@, t),
        },
{
    let chars = text::chars_of(sig);
    let mut c = Cursor { s: &chars, i: 0 };
    let found = type_sig(&mut c);
    proof {
        assert forall|t: generics_grammar::TypeSig|
            generics_grammar::spells_type(sig@, t) <==> generics_parse::read_type(sig@, 0) == Some(
                (t, sig@.len() as int),
            ) by {
            generics_parse::reads_what_is_spelled(sig@, t);
        }
    }
    match found {
        None => None,
        // What is left over means that this was not the signature it seemed to be.
        Some(out) => if c.i < chars.len() {
            None
        } else {
            proof {
                let (t, _) = generics_parse::read_type(sig@, 0)->0;
                assert(generics_grammar::spells_type(sig@, t));
            }
            Some(out)
        },
    }
}

fn method_parts(chars: &Vec<char>) -> (r: Option<MethodParts>)
    ensures
        match generics_parse::read_method(chars@) {
            Some(m) => r is Some && r->0.renders(m),
            None => r is None,
        },
{
    let mut c = Cursor { s: chars, i: 0 };
    let type_params = match type_parameters(&mut c) {
        None => {
            return None;
        },
        Some(v) => v,
    };
    if !c.eat('(') {
        return None;
    }
    let params = match parameter_types(&mut c) {
        None => {
            return None;
        },
        Some(v) => v,
    };
    let ret = if c.eat('V') {
        text::owned("void")
    } else {
        match type_sig(&mut c) {
            None => {
                return None;
            },
            Some(t) => t,
        }
    };
    let mut throws: Vec<String> = Vec::new();
    let ghost none = text::views(throws@);
    assert(none =~= Seq::empty());
    let ghost at = c.i as int;
    if !marked_types(&mut c, '^', &mut throws) {
        return None;
    }
    if c.i < chars.len() {
        return None;
    }
    proof {
        let (found, _) = generics_parse::read_marked(chars@, at, '^', Seq::empty())->0;
        assert(none + generics_grammar::types_java(found) =~= generics_grammar::types_java(found));
    }
    Some(MethodParts { type_params, params, ret, throws })
}

/// Renders a method signature into its pieces; `None` for a text that spells no method.
pub fn render_method(sig: &str) -> (r: Option<MethodParts>)
    ensures
        match r {
            Some(parts) => exists|m: generics_grammar::MethodSig|
                generics_grammar::spells_method(sig@, m) && parts.renders(m),
            None => forall|m: generics_grammar::MethodSig| !generics_grammar::spells_method(sig@, m),
        },
{
    let chars = text::chars_of(sig);
    let r = method_parts(&chars);
    proof {
        assert forall|m: generics_grammar::MethodSig|
            generics_grammar::spells_method(sig@, m) <==> generics_parse::read_method(sig@) == Some(
                m,
            ) by {
            generics_parse::reads_the_method_spelled(sig@, m);
        }
        if r is Some {
            let m = generics_parse::read_method(sig@)->0;
            assert(generics_grammar::spells_method(sig@, m) && r->0.renders(m));
        }
    }
    r
}

// ---------------------------------------------------------------------------------------------
// Laws
// ---------------------------------------------------------------------------------------------
/// A text spells at most one type, so what it is rendered as is settled by the text.
pub proof fn a_type_is_spelled_one_way(
    sig: Seq<char>,
    a: generics_grammar::TypeSig,
    b: generics_grammar::TypeSig,
)
    requires
        generics_grammar::spells_type(sig, a),
        generics_grammar::spells_type(sig, b),
    ensures
        a == b,
{
    generics_parse::reads_what_is_spelled(sig, a);
    generics_parse::reads_what_is_spelled(sig, b);
}

/// A text spells at most one method.
pub proof fn a_method_is_spelled_one_way(
    sig: Seq<char>,
    a: generics_grammar::MethodSig,
    b: generics_grammar::MethodSig,
)
    requires
        generics_grammar::spells_method(sig, a),
        generics_grammar::spells_method(sig, b),
    ensures
        a == b,
{
    generics_parse::reads_the_method_spelled(sig, a);
    generics_parse::reads_the_method_spelled(sig, b);
}

/// `void` is what a method returns and no type: neither its letter spells one, nor an array of it.
pub proof fn void_is_no_type(dims: nat, t: generics_grammar::TypeSig)
    ensures
        !generics_grammar::spells_type(Seq::new(dims, |i: int| '[').push('V'), t),
{
    let sig = Seq::new(dims, |i: int| '[').push('V');
    generics_parse::reads_what_is_spelled(sig, t);
    generics_parse::brackets_count(sig, 0);
    let found = generics_parse::brackets(sig, 0);
    assert(found <= dims) by {
        if found > dims {
            assert(sig[dims as int] == 'V');
        }
    }
    assert(found == dims) by {
        if found < dims {
            assert(sig[found as int] == '[');
        }
    }
}

/// No signature renders as a blank type, and the empty text is no signature.
pub proof fn a_type_is_never_blank(sig: Seq<char>, t: generics_grammar::TypeSig)
    requires
        generics_grammar::spells_type(sig, t),
    ensures
        sig.len() > 0,
        t.java().len() > 0,
{
    generics_parse::reads_what_is_spelled(sig, t);
    generics_parse::type_sound(sig, 0);
    reveal_strlit("byte");
    reveal_strlit("char");
    reveal_strlit("double");
    reveal_strlit("float");
    reveal_strlit("int");
    reveal_strlit("long");
    reveal_strlit("short");
    reveal_strlit("boolean");
    match t.base {
        generics_grammar::BaseSig::Class(segments) => {
            segments_are_never_blank(segments);
        },
        _ => {},
    }
}

proof fn segments_are_never_blank(segments: Seq<generics_grammar::Segment>)
    requires
        segments.len() > 0,
        generics_grammar::segments_wf(segments),
    ensures
        generics_grammar::segments_java(segments).len() > 0,
{
    if segments.len() == 1 {
        assert(segments.last() == segments[0]);
    }
}

/// A text that spells a type spells no method: a method starts with a parenthesis or an angle
/// bracket, and no type does.
pub proof fn a_type_is_no_method(
    sig: Seq<char>,
    t: generics_grammar::TypeSig,
    m: generics_grammar::MethodSig,
)
    requires
        generics_grammar::spells_type(sig, t),
    ensures
        !generics_grammar::spells_method(sig, m),
{
    generics_parse::reads_what_is_spelled(sig, t);
    generics_parse::type_sound(sig, 0);
    if generics_grammar::spells_method(sig, m) {
        generics_parse::reads_the_method_spelled(sig, m);
        generics_parse::brackets_count(sig, 0);
        assert(sig[0] == '<' || sig[0] == '(');
        assert(generics_parse::brackets(sig, 0) == 0);
    }
}

} // verus!
