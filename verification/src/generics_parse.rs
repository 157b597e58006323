//! Reading the grammar of generic signatures from left to right, and why that reads exactly what the
//! grammar spells: each `read_*` function finds a phrase at an offset and the offset behind it, the
//! `*_sound` lemmas say that the phrase found is spelled there, and the `*_complete` lemmas that a
//! phrase spelled there is found.

use crate::generics_grammar;
use crate::generics_grammar::Place;
use vstd::prelude::*;

verus! {

// ---------------------------------------------------------------------------------------------
// The readers
// ---------------------------------------------------------------------------------------------
/// The offset behind the characters at `i` that do not end an identifier.
pub open spec fn ident_end(place: Place, s: Seq<char>, i: int) -> int
    decreases s.len() - i,
{
    if i < 0 || i >= s.len() || generics_grammar::ends(place, s[i]) {
        i
    } else {
        ident_end(place, s, i + 1)
    }
}

/// How many `[` stand at `i`.
pub open spec fn brackets(s: Seq<char>, i: int) -> nat
    decreases s.len() - i,
{
    if 0 <= i < s.len() && s[i] == '[' {
        1 + brackets(s, i + 1)
    } else {
        0
    }
}

pub open spec fn read_type(s: Seq<char>, i: int) -> Option<(generics_grammar::TypeSig, int)>
    decreases s.len() - i, 1nat,
{
    let dims = brackets(s, i);
    if dims > 255 || i + dims > s.len() {
        None
    } else {
        match read_base(s, i + dims) {
            Some((base, j)) => Some((generics_grammar::TypeSig { dims, base }, j)),
            None => None,
        }
    }
}

/// A class, a type variable or an array at `i`.
pub open spec fn read_reference(s: Seq<char>, i: int) -> Option<(generics_grammar::TypeSig, int)>
    decreases s.len() - i, 2nat,
{
    match read_type(s, i) {
        Some((t, j)) => if t.is_reference() {
            Some((t, j))
        } else {
            None
        },
        None => None,
    }
}

pub open spec fn read_base(s: Seq<char>, i: int) -> Option<(generics_grammar::BaseSig, int)>
    decreases s.len() - i, 0nat,
{
    if !(0 <= i < s.len()) {
        None
    } else if s[i] == 'L' {
        match read_segments(s, i + 1, Seq::empty()) {
            Some((segments, j)) => Some((generics_grammar::BaseSig::Class(segments), j)),
            None => None,
        }
    } else if s[i] == 'T' {
        let j = ident_end(Place::Variable, s, i + 1);
        if i + 1 < j < s.len() {
            Some((generics_grammar::BaseSig::Variable(s.subrange(i + 1, j)), j + 1))
        } else {
            None
        }
    } else if generics_grammar::base_name(s[i]) is Some {
        Some((generics_grammar::BaseSig::Primitive(s[i]), i + 1))
    } else {
        None
    }
}

/// The rest of a nesting whose types so far are `done`.
pub open spec fn read_segments(
    s: Seq<char>,
    i: int,
    done: Seq<generics_grammar::Segment>,
) -> Option<(Seq<generics_grammar::Segment>, int)>
    decreases s.len() - i, 0nat,
{
    let j = ident_end(Place::Segment, s, i);
    if !(0 <= i < j < s.len()) {
        None
    } else {
        match read_bracketed(s, j) {
            None => None,
            Some((args, k)) => {
                let now = done.push(
                    generics_grammar::Segment { name: s.subrange(i, j), args },
                );
                if !(j <= k < s.len()) {
                    None
                } else if s[k] == ';' {
                    Some((now, k + 1))
                } else if s[k] == '.' {
                    read_segments(s, k + 1, now)
                } else {
                    None
                }
            },
        }
    }
}

/// Type arguments in angle brackets, if there are any at `i`.
pub open spec fn read_bracketed(s: Seq<char>, i: int) -> Option<
    (Seq<generics_grammar::TypeArg>, int),
>
    decreases s.len() - i, 0nat,
{
    if 0 <= i < s.len() && s[i] == '<' {
        match read_args(s, i + 1, Seq::empty()) {
            None => None,
            Some((args, j)) => if args.len() > 0 {
                Some((args, j + 1))
            } else {
                None
            },
        }
    } else {
        Some((Seq::empty(), i))
    }
}

/// Type arguments up to the `>` behind the last of them.
pub open spec fn read_args(
    s: Seq<char>,
    i: int,
    done: Seq<generics_grammar::TypeArg>,
) -> Option<(Seq<generics_grammar::TypeArg>, int)>
    decreases s.len() - i, 4nat,
{
    if !(0 <= i < s.len()) {
        None
    } else if s[i] == '>' {
        Some((done, i))
    } else {
        match read_arg(s, i) {
            None => None,
            Some((arg, j)) => if i < j <= s.len() {
                read_args(s, j, done.push(arg))
            } else {
                None
            },
        }
    }
}

pub open spec fn read_arg(s: Seq<char>, i: int) -> Option<(generics_grammar::TypeArg, int)>
    decreases s.len() - i, 3nat,
{
    if !(0 <= i < s.len()) {
        None
    } else if s[i] == '*' {
        Some((generics_grammar::TypeArg::Any, i + 1))
    } else if s[i] == '+' {
        match read_reference(s, i + 1) {
            Some((t, j)) => Some((generics_grammar::TypeArg::Extends(t), j)),
            None => None,
        }
    } else if s[i] == '-' {
        match read_reference(s, i + 1) {
            Some((t, j)) => Some((generics_grammar::TypeArg::Super(t), j)),
            None => None,
        }
    } else {
        match read_reference(s, i) {
            Some((t, j)) => Some((generics_grammar::TypeArg::Exactly(t), j)),
            None => None,
        }
    }
}

// ---------------------------------------------------------------------------------------------
// Identifiers and brackets
// ---------------------------------------------------------------------------------------------
pub proof fn ident_end_stops(place: Place, s: Seq<char>, i: int)
    requires
        0 <= i <= s.len(),
    ensures
        i <= ident_end(place, s, i) <= s.len(),
        forall|k: int|
            i <= k < ident_end(place, s, i) ==> !generics_grammar::ends(place, #[trigger] s[k]),
        ident_end(place, s, i) < s.len() ==> generics_grammar::ends(
            place,
            s[ident_end(place, s, i)],
        ),
    decreases s.len() - i,
{
    if i < s.len() && !generics_grammar::ends(place, s[i]) {
        ident_end_stops(place, s, i + 1);
    }
}

proof fn ident_end_is(place: Place, s: Seq<char>, i: int, j: int)
    requires
        0 <= i <= j < s.len(),
        forall|k: int| i <= k < j ==> !generics_grammar::ends(place, #[trigger] s[k]),
        generics_grammar::ends(place, s[j]),
    ensures
        ident_end(place, s, i) == j,
    decreases j - i,
{
    if i < j {
        ident_end_is(place, s, i + 1, j);
    }
}

pub proof fn brackets_count(s: Seq<char>, i: int)
    requires
        0 <= i <= s.len(),
    ensures
        i + brackets(s, i) <= s.len(),
        forall|k: int| i <= k < i + brackets(s, i) ==> #[trigger] s[k] == '[',
        i + brackets(s, i) < s.len() ==> s[i + brackets(s, i)] != '[',
    decreases s.len() - i,
{
    if i < s.len() && s[i] == '[' {
        brackets_count(s, i + 1);
    }
}

proof fn brackets_are(s: Seq<char>, i: int, n: nat)
    requires
        0 <= i,
        i + n < s.len(),
        forall|k: int| i <= k < i + n ==> #[trigger] s[k] == '[',
        s[i + n] != '[',
    ensures
        brackets(s, i) == n,
    decreases n,
{
    if n > 0 {
        brackets_are(s, i + 1, (n - 1) as nat);
    }
}

/// The first character tells whether a type is a base type, and whether it is an array.
pub proof fn reference_starts(s: Seq<char>, i: int)
    requires
        0 <= i <= s.len(),
    ensures
        match read_type(s, i) {
            Some((t, _)) => {
                &&& i < s.len()
                &&& t.is_reference() <==> s[i] == 'L' || s[i] == 'T' || s[i] == '['
                &&& t.dims > 0 <==> s[i] == '['
            },
            None => true,
        },
{
    brackets_count(s, i);
}

// ---------------------------------------------------------------------------------------------
// What is found is spelled there
// ---------------------------------------------------------------------------------------------
pub proof fn type_sound(s: Seq<char>, i: int)
    requires
        0 <= i <= s.len(),
        read_type(s, i) is Some,
    ensures
        ({
            let (t, j) = read_type(s, i)->0;
            t.wf() && i < j <= s.len() && s.subrange(i, j) == t.wire()
        }),
    decreases s.len() - i, 1nat,
{
    let dims = brackets(s, i);
    brackets_count(s, i);
    base_sound(s, i + dims);
    let (base, j) = read_base(s, i + dims)->0;
    let t = generics_grammar::TypeSig { dims, base };
    assert(s.subrange(i, j) =~= Seq::new(dims, |k: int| '[') + s.subrange(i + dims, j));
    assert(t.wire() == s.subrange(i, j));
}

proof fn base_sound(s: Seq<char>, i: int)
    requires
        0 <= i <= s.len(),
        read_base(s, i) is Some,
    ensures
        ({
            let (b, j) = read_base(s, i)->0;
            b.wf() && i < j <= s.len() && s.subrange(i, j) == b.wire()
        }),
    decreases s.len() - i, 0nat,
{
    let (b, j) = read_base(s, i)->0;
    if s[i] == 'L' {
        segments_sound(s, i + 1, Seq::empty());
        let (segments, _) = read_segments(s, i + 1, Seq::empty())->0;
        assert(segments.skip(0) =~= segments);
        assert(s.subrange(i, j) =~= seq!['L'] + s.subrange(i + 1, j));
    } else if s[i] == 'T' {
        let k = ident_end(Place::Variable, s, i + 1);
        ident_end_stops(Place::Variable, s, i + 1);
        let name = s.subrange(i + 1, k);
        assert forall|x: int| 0 <= x < name.len() implies !generics_grammar::ends(
            Place::Variable,
            #[trigger] name[x],
        ) by {
            assert(name[x] == s[i + 1 + x]);
        }
        assert(s.subrange(i, j) =~= seq!['T'] + name + seq![';']);
    } else {
        assert(s.subrange(i, j) =~= seq![s[i]]);
    }
}

proof fn segments_sound(s: Seq<char>, i: int, done: Seq<generics_grammar::Segment>)
    requires
        0 <= i <= s.len(),
        read_segments(s, i, done) is Some,
    ensures
        ({
            let (all, j) = read_segments(s, i, done)->0;
            let more = all.skip(done.len() as int);
            &&& done.len() < all.len()
            &&& all.take(done.len() as int) == done
            &&& generics_grammar::segments_wf(more)
            &&& i < j <= s.len()
            &&& s.subrange(i, j) == generics_grammar::segments_wire(more)
        }),
    decreases s.len() - i, 0nat,
{
    let j = ident_end(Place::Segment, s, i);
    ident_end_stops(Place::Segment, s, i);
    bracketed_sound(s, j);
    let (args, k) = read_bracketed(s, j)->0;
    let name = s.subrange(i, j);
    let segment = generics_grammar::Segment { name, args };
    let now = done.push(segment);
    let (all, end) = read_segments(s, i, done)->0;
    let more = all.skip(done.len() as int);
    assert forall|x: int| 0 <= x < name.len() implies !generics_grammar::ends(
        Place::Segment,
        #[trigger] name[x],
    ) by {
        assert(name[x] == s[i + x]);
    }
    if s[k] == ';' {
        assert(more =~= seq![segment]);
        let none = Seq::<generics_grammar::Segment>::empty();
        assert(more.drop_first() =~= none);
        assert(generics_grammar::segments_wf(none));
        assert(generics_grammar::segments_wire(none) =~= Seq::empty());
        assert(all.take(done.len() as int) =~= done);
        assert(s.subrange(i, end) =~= name + s.subrange(j, k) + seq![';'] + Seq::<char>::empty());
    } else {
        segments_sound(s, k + 1, now);
        let rest = all.skip(now.len() as int);
        assert(all.take(now.len() as int)[done.len() as int] == segment);
        assert(more.drop_first() =~= rest);
        assert(more[0] == segment);
        assert(all.take(done.len() as int) =~= all.take(now.len() as int).take(done.len() as int));
        assert(now.take(done.len() as int) =~= done);
        assert(s.subrange(i, end) =~= name + s.subrange(j, k) + seq!['.'] + s.subrange(k + 1, end));
    }
}

proof fn bracketed_sound(s: Seq<char>, i: int)
    requires
        0 <= i <= s.len(),
        read_bracketed(s, i) is Some,
    ensures
        ({
            let (args, j) = read_bracketed(s, i)->0;
            &&& generics_grammar::args_wf(args)
            &&& i <= j <= s.len()
            &&& s.subrange(i, j) == generics_grammar::bracketed_wire(args)
        }),
    decreases s.len() - i, 0nat,
{
    let (args, j) = read_bracketed(s, i)->0;
    if i < s.len() && s[i] == '<' {
        args_sound(s, i + 1, Seq::empty());
        assert(args.skip(0) =~= args);
        assert(s.subrange(i, j) =~= seq!['<'] + s.subrange(i + 1, j - 1) + seq!['>']);
    } else {
        assert(s.subrange(i, j) =~= Seq::empty());
    }
}

proof fn args_sound(s: Seq<char>, i: int, done: Seq<generics_grammar::TypeArg>)
    requires
        0 <= i <= s.len(),
        read_args(s, i, done) is Some,
    ensures
        ({
            let (all, j) = read_args(s, i, done)->0;
            let more = all.skip(done.len() as int);
            &&& done.len() <= all.len()
            &&& all.take(done.len() as int) == done
            &&& generics_grammar::args_wf(more)
            &&& i <= j < s.len()
            &&& s[j] == '>'
            &&& s.subrange(i, j) == generics_grammar::args_wire(more)
        }),
    decreases s.len() - i, 3nat,
{
    let (all, end) = read_args(s, i, done)->0;
    let more = all.skip(done.len() as int);
    if s[i] == '>' {
        assert(more =~= Seq::empty());
        assert(all.take(done.len() as int) =~= done);
        assert(s.subrange(i, end) =~= Seq::empty());
    } else {
        arg_sound(s, i);
        let (arg, j) = read_arg(s, i)->0;
        let now = done.push(arg);
        args_sound(s, j, now);
        assert(all.take(now.len() as int)[done.len() as int] == arg);
        assert(more.drop_first() =~= all.skip(now.len() as int));
        assert(more[0] == arg);
        assert(all.take(done.len() as int) =~= all.take(now.len() as int).take(done.len() as int));
        assert(now.take(done.len() as int) =~= done);
        assert(s.subrange(i, end) =~= s.subrange(i, j) + s.subrange(j, end));
    }
}

proof fn arg_sound(s: Seq<char>, i: int)
    requires
        0 <= i <= s.len(),
        read_arg(s, i) is Some,
    ensures
        ({
            let (arg, j) = read_arg(s, i)->0;
            arg.wf() && i < j <= s.len() && s.subrange(i, j) == arg.wire()
        }),
    decreases s.len() - i, 2nat,
{
    let (arg, j) = read_arg(s, i)->0;
    if s[i] == '*' {
        assert(s.subrange(i, j) =~= seq!['*']);
    } else if s[i] == '+' {
        type_sound(s, i + 1);
        assert(s.subrange(i, j) =~= seq!['+'] + s.subrange(i + 1, j));
    } else if s[i] == '-' {
        type_sound(s, i + 1);
        assert(s.subrange(i, j) =~= seq!['-'] + s.subrange(i + 1, j));
    } else {
        type_sound(s, i);
    }
}

// ---------------------------------------------------------------------------------------------
// What is spelled there is found
// ---------------------------------------------------------------------------------------------
/// `w` stands in `s` at `i`.
pub open spec fn stands(s: Seq<char>, i: int, w: Seq<char>) -> bool {
    0 <= i && i + w.len() <= s.len() && s.subrange(i, i + w.len()) == w
}

proof fn stands_parts(s: Seq<char>, i: int, a: Seq<char>, b: Seq<char>)
    requires
        stands(s, i, a + b),
    ensures
        stands(s, i, a),
        stands(s, i + a.len(), b),
        stands(s, i, a) && a.len() > 0 ==> s[i] == a[0],
        b.len() > 0 ==> s[i + a.len()] == b[0],
{
    let w = a + b;
    let t = s.subrange(i, i + w.len());
    assert(s.subrange(i, i + a.len()) =~= t.subrange(0, a.len() as int));
    assert(w.subrange(0, a.len() as int) =~= a);
    assert(s.subrange(i + a.len(), i + w.len()) =~= t.subrange(a.len() as int, w.len() as int));
    assert(w.subrange(a.len() as int, w.len() as int) =~= b);
    if a.len() > 0 {
        assert(t[0] == s[i]);
    }
    if b.len() > 0 {
        assert(t[a.len() as int] == s[i + a.len()]);
    }
}

/// A type is spelled with one of these letters or brackets first.
proof fn wire_starts(t: generics_grammar::TypeSig)
    requires
        t.wf(),
    ensures
        t.wire().len() > 0,
        t.wire()[0] != '>',
        t.wire()[0] != ')',
        t.wire()[0] != ':',
        t.wire()[0] != '*',
        t.wire()[0] != '+',
        t.wire()[0] != '-',
        t.wire()[0] != 'V',
        t.base.wire().len() > 0,
        t.base.wire()[0] != '[',
{
    base_wire_starts(t.base);
    assert(t.wire() == Seq::new(t.dims, |i: int| '[') + t.base.wire());
    if t.dims > 0 {
        assert(t.wire()[0] == '[');
    } else {
        assert(t.wire() =~= t.base.wire());
    }
}

proof fn base_wire_starts(b: generics_grammar::BaseSig)
    requires
        b.wf(),
    ensures
        b.wire().len() > 0,
        b.wire()[0] == 'L' || b.wire()[0] == 'T' || generics_grammar::base_name(b.wire()[0]) is Some,
{
}

pub proof fn type_complete(s: Seq<char>, i: int, t: generics_grammar::TypeSig)
    requires
        t.wf(),
        stands(s, i, t.wire()),
    ensures
        read_type(s, i) == Some((t, i + t.wire().len())),
    decreases t,
{
    let dims = Seq::new(t.dims, |k: int| '[');
    wire_starts(t);
    stands_parts(s, i, dims, t.base.wire());
    assert forall|k: int| i <= k < i + t.dims implies #[trigger] s[k] == '[' by {
        assert(s.subrange(i, i + dims.len())[k - i] == s[k]);
    }
    brackets_are(s, i, t.dims);
    base_complete(s, i + t.dims, t.base);
    assert(t =~= generics_grammar::TypeSig { dims: t.dims, base: t.base });
}

proof fn base_complete(s: Seq<char>, i: int, b: generics_grammar::BaseSig)
    requires
        b.wf(),
        stands(s, i, b.wire()),
    ensures
        read_base(s, i) == Some((b, i + b.wire().len())),
    decreases b,
{
    match b {
        generics_grammar::BaseSig::Primitive(c) => {
            assert(s.subrange(i, i + 1)[0] == s[i]);
        },
        generics_grammar::BaseSig::Variable(name) => {
            stands_parts(s, i, seq!['T'] + name, seq![';']);
            stands_parts(s, i, seq!['T'], name);
            let j = i + 1 + name.len();
            assert(s.subrange(i + 1, j) =~= name);
            assert forall|k: int| i + 1 <= k < j implies !generics_grammar::ends(
                Place::Variable,
                #[trigger] s[k],
            ) by {
                assert(s[k] == name[k - i - 1]);
            }
            ident_end_is(Place::Variable, s, i + 1, j);
        },
        generics_grammar::BaseSig::Class(segments) => {
            stands_parts(s, i, seq!['L'], generics_grammar::segments_wire(segments));
            segments_complete(s, i + 1, segments, Seq::empty());
            assert(Seq::<generics_grammar::Segment>::empty() + segments =~= segments);
        },
    }
}

proof fn segments_complete(
    s: Seq<char>,
    i: int,
    segments: Seq<generics_grammar::Segment>,
    done: Seq<generics_grammar::Segment>,
)
    requires
        segments.len() > 0,
        generics_grammar::segments_wf(segments),
        stands(s, i, generics_grammar::segments_wire(segments)),
    ensures
        read_segments(s, i, done) == Some(
            (done + segments, i + generics_grammar::segments_wire(segments).len()),
        ),
    decreases segments,
{
    let name = segments[0].name;
    let args = segments[0].args;
    let args_wire = generics_grammar::bracketed_wire(args);
    let rest = generics_grammar::segments_wire(segments.drop_first());
    let mark = if segments.len() == 1 {
        seq![';']
    } else {
        seq!['.']
    };
    assert(generics_grammar::segments_wire(segments) == name + args_wire + mark + rest);
    stands_parts(s, i, name + args_wire + mark, rest);
    stands_parts(s, i, name + args_wire, mark);
    stands_parts(s, i, name, args_wire);
    let j = i + name.len();
    let k = j + args_wire.len();
    assert(s[k] == mark[0]);
    assert(s.subrange(i, j) =~= name);
    assert forall|x: int| i <= x < j implies !generics_grammar::ends(
        Place::Segment,
        #[trigger] s[x],
    ) by {
        assert(s[x] == name[x - i]);
    }
    assert(generics_grammar::ends(Place::Segment, s[j])) by {
        if args.len() == 0 {
            assert(k == j);
        } else {
            assert(args_wire[0] == '<');
        }
    }
    ident_end_is(Place::Segment, s, i, j);
    bracketed_complete(s, j, args);
    let segment = generics_grammar::Segment { name, args };
    assert(segment =~= segments[0]);
    let now = done.push(segment);
    if segments.len() == 1 {
        assert(segments.drop_first() =~= Seq::empty());
        assert(rest =~= Seq::empty());
        assert(now =~= done + segments);
    } else {
        segments_complete(s, k + 1, segments.drop_first(), now);
        assert(now + segments.drop_first() =~= done + segments);
    }
}

proof fn bracketed_complete(s: Seq<char>, i: int, args: Seq<generics_grammar::TypeArg>)
    requires
        generics_grammar::args_wf(args),
        stands(s, i, generics_grammar::bracketed_wire(args)),
        args.len() == 0 ==> i < s.len() && s[i] != '<',
    ensures
        read_bracketed(s, i) == Some((args, i + generics_grammar::bracketed_wire(args).len())),
    decreases args, 1nat,
{
    if args.len() > 0 {
        stands_parts(s, i, seq!['<'] + generics_grammar::args_wire(args), seq!['>']);
        stands_parts(s, i, seq!['<'], generics_grammar::args_wire(args));
        args_complete(s, i + 1, args, Seq::empty());
        assert(Seq::<generics_grammar::TypeArg>::empty() + args =~= args);
    } else {
        assert(args =~= Seq::empty());
    }
}

proof fn args_complete(
    s: Seq<char>,
    i: int,
    args: Seq<generics_grammar::TypeArg>,
    done: Seq<generics_grammar::TypeArg>,
)
    requires
        generics_grammar::args_wf(args),
        stands(s, i, generics_grammar::args_wire(args)),
        i + generics_grammar::args_wire(args).len() < s.len(),
        s[i + generics_grammar::args_wire(args).len()] == '>',
    ensures
        read_args(s, i, done) == Some((done + args, i + generics_grammar::args_wire(args).len())),
    decreases args, 0nat,
{
    if args.len() == 0 {
        assert(done + args =~= done);
    } else {
        let arg = args[0];
        let rest = args.drop_first();
        stands_parts(s, i, arg.wire(), generics_grammar::args_wire(rest));
        arg_complete(s, i, arg);
        args_complete(s, i + arg.wire().len(), rest, done.push(arg));
        assert(done.push(arg) + rest =~= done + args);
    }
}

proof fn arg_complete(s: Seq<char>, i: int, arg: generics_grammar::TypeArg)
    requires
        arg.wf(),
        stands(s, i, arg.wire()),
    ensures
        read_arg(s, i) == Some((arg, i + arg.wire().len())),
        arg.wire().len() > 0,
        s[i] != '>',
    decreases arg,
{
    match arg {
        generics_grammar::TypeArg::Any => {
            assert(s.subrange(i, i + 1)[0] == s[i]);
        },
        generics_grammar::TypeArg::Extends(t) => {
            stands_parts(s, i, seq!['+'], t.wire());
            type_complete(s, i + 1, t);
        },
        generics_grammar::TypeArg::Super(t) => {
            stands_parts(s, i, seq!['-'], t.wire());
            type_complete(s, i + 1, t);
        },
        generics_grammar::TypeArg::Exactly(t) => {
            wire_starts(t);
            assert(s.subrange(i, i + t.wire().len())[0] == s[i]);
            type_complete(s, i, t);
        },
    }
}

/// Reading the whole of `s` as a type finds exactly the type that `s` spells.
pub proof fn reads_what_is_spelled(s: Seq<char>, t: generics_grammar::TypeSig)
    ensures
        generics_grammar::spells_type(s, t) <==> read_type(s, 0) == Some((t, s.len() as int)),
{
    if generics_grammar::spells_type(s, t) {
        assert(s.subrange(0, s.len() as int) =~= s);
        type_complete(s, 0, t);
    }
    if read_type(s, 0) == Some((t, s.len() as int)) {
        type_sound(s, 0);
        assert(s.subrange(0, s.len() as int) =~= s);
    }
}

// ---------------------------------------------------------------------------------------------
// Methods
// ---------------------------------------------------------------------------------------------
/// Types up to the `)` behind the last of them.
pub open spec fn read_types(
    s: Seq<char>,
    i: int,
    done: Seq<generics_grammar::TypeSig>,
) -> Option<(Seq<generics_grammar::TypeSig>, int)>
    decreases s.len() - i,
{
    if !(0 <= i < s.len()) {
        None
    } else if s[i] == ')' {
        Some((done, i))
    } else {
        match read_type(s, i) {
            None => None,
            Some((t, j)) => if i < j <= s.len() {
                read_types(s, j, done.push(t))
            } else {
                None
            },
        }
    }
}

/// Types with `mark` before each, as many as follow.
pub open spec fn read_marked(
    s: Seq<char>,
    i: int,
    mark: char,
    done: Seq<generics_grammar::TypeSig>,
) -> Option<(Seq<generics_grammar::TypeSig>, int)>
    decreases s.len() - i,
{
    if !(0 <= i < s.len()) || s[i] != mark {
        Some((done, i))
    } else {
        match read_reference(s, i + 1) {
            None => None,
            Some((t, j)) => if i < j <= s.len() && generics_grammar::fits(mark, t) {
                read_marked(s, j, mark, done.push(t))
            } else {
                None
            },
        }
    }
}

/// The class bound of a type parameter, if one stands at `i`.
pub open spec fn read_class_bound(s: Seq<char>, i: int) -> Option<
    (Option<generics_grammar::TypeSig>, int),
> {
    if 0 <= i < s.len() && s[i] != ':' && s[i] != '>' {
        match read_reference(s, i) {
            None => None,
            Some((t, j)) => Some((Some(t), j)),
        }
    } else {
        Some((None, i))
    }
}

pub open spec fn read_param(s: Seq<char>, i: int) -> Option<(generics_grammar::TypeParam, int)> {
    let j = ident_end(Place::Parameter, s, i);
    if !(0 <= i < j < s.len()) {
        None
    } else {
        match read_class_bound(s, j + 1) {
            None => None,
            Some((class_bound, k)) => match read_marked(s, k, ':', Seq::empty()) {
                None => None,
                Some((interface_bounds, end)) => Some(
                    (
                        generics_grammar::TypeParam {
                            name: s.subrange(i, j),
                            class_bound,
                            interface_bounds,
                        },
                        end,
                    ),
                ),
            },
        }
    }
}

/// Type parameters up to the `>` behind the last of them.
pub open spec fn read_params(
    s: Seq<char>,
    i: int,
    done: Seq<generics_grammar::TypeParam>,
) -> Option<(Seq<generics_grammar::TypeParam>, int)>
    decreases s.len() - i,
{
    if !(0 <= i < s.len()) {
        None
    } else if s[i] == '>' {
        Some((done, i))
    } else {
        match read_param(s, i) {
            None => None,
            Some((p, j)) => if i < j <= s.len() {
                read_params(s, j, done.push(p))
            } else {
                None
            },
        }
    }
}

/// The declared type parameters of a method, if it declares any.
pub open spec fn read_declared(s: Seq<char>) -> Option<(Seq<generics_grammar::TypeParam>, int)> {
    if s.len() > 0 && s[0] == '<' {
        match read_params(s, 1, Seq::empty()) {
            None => None,
            Some((params, j)) => if params.len() > 0 {
                Some((params, j + 1))
            } else {
                None
            },
        }
    } else {
        Some((Seq::empty(), 0))
    }
}

/// What a method returns, with `V` for nothing.
pub open spec fn read_ret(s: Seq<char>, i: int) -> Option<
    (Option<generics_grammar::TypeSig>, int),
> {
    if 0 <= i < s.len() && s[i] == 'V' {
        Some((None, i + 1))
    } else {
        match read_type(s, i) {
            None => None,
            Some((t, j)) => Some((Some(t), j)),
        }
    }
}

/// The method that the whole of `s` spells.
pub open spec fn read_method(s: Seq<char>) -> Option<generics_grammar::MethodSig> {
    match read_declared(s) {
        None => None,
        Some((type_params, i)) => if !(0 <= i < s.len()) || s[i] != '(' {
            None
        } else {
            match read_types(s, i + 1, Seq::empty()) {
                None => None,
                Some((params, j)) => match read_ret(s, j + 1) {
                    None => None,
                    Some((ret, k)) => match read_marked(s, k, '^', Seq::empty()) {
                        None => None,
                        Some((throws, end)) => if end == s.len() {
                            Some(generics_grammar::MethodSig { type_params, params, ret, throws })
                        } else {
                            None
                        },
                    },
                },
            }
        },
    }
}

/// `all` goes on where `done` ends, with `more`.
spec fn goes_on<T>(all: Seq<T>, done: Seq<T>, more: Seq<T>) -> bool {
    all == done + more
}

proof fn first_of_more<T>(all: Seq<T>, done: Seq<T>, x: T, rest: Seq<T>)
    requires
        goes_on(all, done.push(x), rest),
    ensures
        goes_on(all, done, seq![x] + rest),
        (seq![x] + rest).drop_first() == rest,
{
    assert(all =~= done + (seq![x] + rest));
    assert((seq![x] + rest).drop_first() =~= rest);
}

proof fn types_wf_more(t: generics_grammar::TypeSig, rest: Seq<generics_grammar::TypeSig>)
    requires
        t.wf(),
        generics_grammar::types_wf(rest),
    ensures
        generics_grammar::types_wf(seq![t] + rest),
{
    let all = seq![t] + rest;
    assert forall|i: int| 0 <= i < all.len() implies (#[trigger] all[i]).wf() by {
        if i > 0 {
            assert(all[i] == rest[i - 1]);
        }
    }
}

proof fn types_wf_rest(types: Seq<generics_grammar::TypeSig>)
    requires
        types.len() > 0,
        generics_grammar::types_wf(types),
    ensures
        types[0].wf(),
        generics_grammar::types_wf(types.drop_first()),
{
    let rest = types.drop_first();
    assert forall|i: int| 0 <= i < rest.len() implies (#[trigger] rest[i]).wf() by {
        assert(rest[i] == types[i + 1]);
    }
}

proof fn marked_wf_more(
    mark: char,
    t: generics_grammar::TypeSig,
    rest: Seq<generics_grammar::TypeSig>,
)
    requires
        t.wf(),
        generics_grammar::fits(mark, t),
        generics_grammar::marked_wf(mark, rest),
    ensures
        generics_grammar::marked_wf(mark, seq![t] + rest),
{
    let all = seq![t] + rest;
    assert forall|i: int| 0 <= i < all.len() implies (#[trigger] all[i]).wf()
        && generics_grammar::fits(mark, all[i]) by {
        if i > 0 {
            assert(all[i] == rest[i - 1]);
        }
    }
}

proof fn marked_wf_rest(mark: char, types: Seq<generics_grammar::TypeSig>)
    requires
        types.len() > 0,
        generics_grammar::marked_wf(mark, types),
    ensures
        types[0].wf(),
        generics_grammar::fits(mark, types[0]),
        generics_grammar::marked_wf(mark, types.drop_first()),
{
    let rest = types.drop_first();
    assert forall|i: int| 0 <= i < rest.len() implies (#[trigger] rest[i]).wf()
        && generics_grammar::fits(mark, rest[i]) by {
        assert(rest[i] == types[i + 1]);
    }
}

proof fn types_sound(s: Seq<char>, i: int, done: Seq<generics_grammar::TypeSig>) -> (more: Seq<
    generics_grammar::TypeSig,
>)
    requires
        0 <= i <= s.len(),
        read_types(s, i, done) is Some,
    ensures
        ({
            let (all, j) = read_types(s, i, done)->0;
            &&& goes_on(all, done, more)
            &&& generics_grammar::types_wf(more)
            &&& i <= j < s.len()
            &&& s[j] == ')'
            &&& s.subrange(i, j) == generics_grammar::types_wire(Seq::empty(), more)
        }),
    decreases s.len() - i,
{
    let (all, end) = read_types(s, i, done)->0;
    if s[i] == ')' {
        let more = Seq::empty();
        assert(done + more =~= done);
        assert(s.subrange(i, end) =~= Seq::empty());
        more
    } else {
        type_sound(s, i);
        let (t, j) = read_type(s, i)->0;
        let rest = types_sound(s, j, done.push(t));
        first_of_more(all, done, t, rest);
        types_wf_more(t, rest);
        assert(s.subrange(i, end) =~= Seq::<char>::empty() + s.subrange(i, j) + s.subrange(j, end));
        seq![t] + rest
    }
}

proof fn marked_sound(
    s: Seq<char>,
    i: int,
    mark: char,
    done: Seq<generics_grammar::TypeSig>,
) -> (more: Seq<generics_grammar::TypeSig>)
    requires
        0 <= i <= s.len(),
        read_marked(s, i, mark, done) is Some,
    ensures
        ({
            let (all, j) = read_marked(s, i, mark, done)->0;
            &&& goes_on(all, done, more)
            &&& generics_grammar::marked_wf(mark, more)
            &&& i <= j <= s.len()
            &&& j < s.len() ==> s[j] != mark
            &&& s.subrange(i, j) == generics_grammar::types_wire(seq![mark], more)
        }),
    decreases s.len() - i,
{
    let (all, end) = read_marked(s, i, mark, done)->0;
    if i == s.len() || s[i] != mark {
        let more = Seq::empty();
        assert(done + more =~= done);
        assert(s.subrange(i, end) =~= Seq::empty());
        more
    } else {
        type_sound(s, i + 1);
        let (t, j) = read_reference(s, i + 1)->0;
        let rest = marked_sound(s, j, mark, done.push(t));
        first_of_more(all, done, t, rest);
        marked_wf_more(mark, t, rest);
        assert(s.subrange(i, end) =~= seq![mark] + s.subrange(i + 1, j) + s.subrange(j, end));
        seq![t] + rest
    }
}

proof fn param_sound(s: Seq<char>, i: int)
    requires
        0 <= i < s.len(),
        s[i] != '>',
        read_param(s, i) is Some,
    ensures
        ({
            let (p, j) = read_param(s, i)->0;
            &&& p.wf()
            &&& i < j <= s.len()
            &&& s.subrange(i, j) == p.wire()
            &&& p.is_bounded() || j == s.len() || s[j] == '>'
        }),
{
    let j = ident_end(Place::Parameter, s, i);
    ident_end_stops(Place::Parameter, s, i);
    let (p, end) = read_param(s, i)->0;
    let (class_bound, k) = read_class_bound(s, j + 1)->0;
    assert forall|x: int| 0 <= x < p.name.len() implies !generics_grammar::ends(
        Place::Parameter,
        #[trigger] p.name[x],
    ) by {
        assert(p.name[x] == s[i + x]);
    }
    assert(p.name[0] == s[i]);
    if class_bound is Some {
        type_sound(s, j + 1);
        assert(s.subrange(j + 1, k) == class_bound->0.wire());
    } else {
        assert(s.subrange(j + 1, k) =~= Seq::empty());
    }
    let more = marked_sound(s, k, ':', Seq::empty());
    assert(Seq::<generics_grammar::TypeSig>::empty() + more =~= more);
    assert(s.subrange(i, end) =~= p.name + seq![':'] + s.subrange(j + 1, k) + s.subrange(k, end));
    if more.len() == 0 {
        assert(generics_grammar::types_wire(seq![':'], more) =~= Seq::empty());
        assert(s.subrange(k, end).len() == 0);
        assert(end == k);
    }
}

proof fn params_sound(s: Seq<char>, i: int, done: Seq<generics_grammar::TypeParam>) -> (more: Seq<
    generics_grammar::TypeParam,
>)
    requires
        0 <= i <= s.len(),
        read_params(s, i, done) is Some,
    ensures
        ({
            let (all, j) = read_params(s, i, done)->0;
            &&& goes_on(all, done, more)
            &&& generics_grammar::params_wf(more)
            &&& i <= j < s.len()
            &&& s[j] == '>'
            &&& s[i] == '>' ==> more.len() == 0
            &&& s.subrange(i, j) == generics_grammar::params_wire(more)
        }),
    decreases s.len() - i,
{
    let (all, end) = read_params(s, i, done)->0;
    if s[i] == '>' {
        let more = Seq::empty();
        assert(done + more =~= done);
        assert(s.subrange(i, end) =~= Seq::empty());
        more
    } else {
        param_sound(s, i);
        let (p, j) = read_param(s, i)->0;
        let rest = params_sound(s, j, done.push(p));
        first_of_more(all, done, p, rest);
        let more = seq![p] + rest;
        assert forall|x: int| 0 <= x < more.len() implies (#[trigger] more[x]).wf() && (x + 1
            < more.len() ==> more[x].is_bounded()) by {
            if x > 0 {
                assert(more[x] == rest[x - 1]);
            }
        }
        assert(s.subrange(i, end) =~= s.subrange(i, j) + s.subrange(j, end));
        more
    }
}

proof fn types_complete(
    s: Seq<char>,
    i: int,
    types: Seq<generics_grammar::TypeSig>,
    done: Seq<generics_grammar::TypeSig>,
)
    requires
        generics_grammar::types_wf(types),
        stands(s, i, generics_grammar::types_wire(Seq::empty(), types)),
        i + generics_grammar::types_wire(Seq::empty(), types).len() < s.len(),
        s[i + generics_grammar::types_wire(Seq::empty(), types).len()] == ')',
    ensures
        read_types(s, i, done) == Some(
            (done + types, i + generics_grammar::types_wire(Seq::empty(), types).len()),
        ),
    decreases types.len(),
{
    if types.len() == 0 {
        assert(done + types =~= done);
    } else {
        let t = types[0];
        let rest = types.drop_first();
        let none = Seq::<char>::empty();
        types_wf_rest(types);
        wire_starts(t);
        assert(none + t.wire() =~= t.wire());
        stands_parts(s, i, t.wire(), generics_grammar::types_wire(none, rest));
        type_complete(s, i, t);
        types_complete(s, i + t.wire().len(), rest, done.push(t));
        assert(done.push(t) + rest =~= done + types);
    }
}

proof fn marked_complete(
    s: Seq<char>,
    i: int,
    mark: char,
    types: Seq<generics_grammar::TypeSig>,
    done: Seq<generics_grammar::TypeSig>,
)
    requires
        generics_grammar::marked_wf(mark, types),
        stands(s, i, generics_grammar::types_wire(seq![mark], types)),
        ({
            let end = i + generics_grammar::types_wire(seq![mark], types).len();
            end < s.len() ==> s[end] != mark
        }),
    ensures
        read_marked(s, i, mark, done) == Some(
            (done + types, i + generics_grammar::types_wire(seq![mark], types).len()),
        ),
    decreases types.len(),
{
    if types.len() == 0 {
        assert(done + types =~= done);
    } else {
        let t = types[0];
        let rest = types.drop_first();
        marked_wf_rest(mark, types);
        stands_parts(s, i, seq![mark] + t.wire(), generics_grammar::types_wire(seq![mark], rest));
        stands_parts(s, i, seq![mark], t.wire());
        type_complete(s, i + 1, t);
        marked_complete(s, i + 1 + t.wire().len(), mark, rest, done.push(t));
        assert(done.push(t) + rest =~= done + types);
    }
}

proof fn param_complete(s: Seq<char>, i: int, p: generics_grammar::TypeParam)
    requires
        p.wf(),
        stands(s, i, p.wire()),
        i + p.wire().len() < s.len(),
        s[i + p.wire().len()] != ':',
        !p.is_bounded() ==> s[i + p.wire().len()] == '>',
    ensures
        read_param(s, i) == Some((p, i + p.wire().len())),
        p.wire().len() > 0,
        s[i] == p.name[0],
{
    let bound = match p.class_bound {
        Some(t) => t.wire(),
        None => Seq::empty(),
    };
    let marked = generics_grammar::types_wire(seq![':'], p.interface_bounds);
    assert(p.wire() == p.name + seq![':'] + bound + marked);
    stands_parts(s, i, p.name + seq![':'] + bound, marked);
    stands_parts(s, i, p.name + seq![':'], bound);
    stands_parts(s, i, p.name, seq![':']);
    let j = i + p.name.len();
    assert(s.subrange(i, j) =~= p.name);
    assert forall|x: int| i <= x < j implies !generics_grammar::ends(
        Place::Parameter,
        #[trigger] s[x],
    ) by {
        assert(s[x] == p.name[x - i]);
    }
    ident_end_is(Place::Parameter, s, i, j);
    match p.class_bound {
        Some(t) => {
            wire_starts(t);
            type_complete(s, j + 1, t);
        },
        None => {
            if p.interface_bounds.len() > 0 {
                assert(marked[0] == ':');
            } else {
                assert(marked =~= Seq::empty());
            }
        },
    }
    marked_complete(s, j + 1 + bound.len(), ':', p.interface_bounds, Seq::empty());
    assert(Seq::<generics_grammar::TypeSig>::empty() + p.interface_bounds =~= p.interface_bounds);
}

proof fn params_complete(
    s: Seq<char>,
    i: int,
    params: Seq<generics_grammar::TypeParam>,
    done: Seq<generics_grammar::TypeParam>,
)
    requires
        generics_grammar::params_wf(params),
        stands(s, i, generics_grammar::params_wire(params)),
        i + generics_grammar::params_wire(params).len() < s.len(),
        s[i + generics_grammar::params_wire(params).len()] == '>',
    ensures
        read_params(s, i, done) == Some(
            (done + params, i + generics_grammar::params_wire(params).len()),
        ),
        params.len() > 0 ==> s[i] == params[0].name[0],
    decreases params.len(),
{
    if params.len() == 0 {
        assert(done + params =~= done);
    } else {
        let p = params[0];
        let rest = params.drop_first();
        let j = i + p.wire().len();
        assert(p.wf());
        assert forall|x: int| 0 <= x < rest.len() implies (#[trigger] rest[x]).wf() && (x + 1
            < rest.len() ==> rest[x].is_bounded()) by {
            assert(rest[x] == params[x + 1]);
        }
        stands_parts(s, i, p.wire(), generics_grammar::params_wire(rest));
        params_complete(s, j, rest, done.push(p));
        if rest.len() > 0 {
            assert(rest[0].wf());
            assert(!generics_grammar::ends(Place::Parameter, rest[0].name[0]));
        } else {
            assert(generics_grammar::params_wire(rest) =~= Seq::empty());
        }
        param_complete(s, i, p);
        assert(done.push(p) + rest =~= done + params);
    }
}

/// A text whose parts are these is these parts one behind the other.
proof fn method_parts(
    s: Seq<char>,
    i: int,
    j: int,
    k: int,
    declared: Seq<char>,
    params: Seq<char>,
    ret: Seq<char>,
    throws: Seq<char>,
)
    requires
        0 <= i < j < k <= s.len(),
        s.subrange(0, i) == declared,
        s[i] == '(',
        s.subrange(i + 1, j) == params,
        s[j] == ')',
        s.subrange(j + 1, k) == ret,
        s.subrange(k, s.len() as int) == throws,
    ensures
        s == declared + seq!['('] + params + seq![')'] + ret + throws,
{
    assert(s.subrange(0, i + 1) =~= declared + seq!['(']);
    assert(s.subrange(0, j) =~= s.subrange(0, i + 1) + params);
    assert(s.subrange(0, j + 1) =~= s.subrange(0, j) + seq![')']);
    assert(s.subrange(0, k) =~= s.subrange(0, j + 1) + ret);
    assert(s =~= s.subrange(0, k) + throws);
}

proof fn declared_sound(s: Seq<char>)
    requires
        read_declared(s) is Some,
    ensures
        ({
            let (params, i) = read_declared(s)->0;
            &&& generics_grammar::params_wf(params)
            &&& 0 <= i <= s.len()
            &&& s.subrange(0, i) == generics_grammar::declared_wire(params)
        }),
{
    let (params, i) = read_declared(s)->0;
    if s.len() > 0 && s[0] == '<' {
        let more = params_sound(s, 1, Seq::empty());
        assert(Seq::<generics_grammar::TypeParam>::empty() + more =~= more);
        assert(s.subrange(0, i) =~= seq!['<'] + s.subrange(1, i - 1) + seq!['>']);
    } else {
        assert(s.subrange(0, i) =~= Seq::empty());
    }
}

proof fn ret_sound(s: Seq<char>, i: int)
    requires
        0 <= i <= s.len(),
        read_ret(s, i) is Some,
    ensures
        ({
            let (ret, j) = read_ret(s, i)->0;
            &&& ret matches Some(t) ==> t.wf()
            &&& i < j <= s.len()
            &&& s.subrange(i, j) == generics_grammar::ret_wire(ret)
        }),
{
    if i < s.len() && s[i] == 'V' {
        assert(s.subrange(i, i + 1) =~= seq!['V']);
    } else {
        type_sound(s, i);
    }
}

proof fn ret_complete(s: Seq<char>, i: int, ret: Option<generics_grammar::TypeSig>)
    requires
        ret matches Some(t) ==> t.wf(),
        stands(s, i, generics_grammar::ret_wire(ret)),
    ensures
        read_ret(s, i) == Some((ret, i + generics_grammar::ret_wire(ret).len())),
{
    let w = generics_grammar::ret_wire(ret);
    match ret {
        Some(t) => {
            wire_starts(t);
            assert(s.subrange(i, i + w.len())[0] == s[i]);
            type_complete(s, i, t);
        },
        None => {
            assert(s.subrange(i, i + w.len())[0] == s[i]);
        },
    }
}

proof fn method_sound(s: Seq<char>)
    requires
        read_method(s) is Some,
    ensures
        generics_grammar::spells_method(s, read_method(s)->0),
{
    let m = read_method(s)->0;
    let (type_params, i) = read_declared(s)->0;
    declared_sound(s);
    let params = types_sound(s, i + 1, Seq::empty());
    assert(Seq::<generics_grammar::TypeSig>::empty() + params =~= params);
    let (_, j) = read_types(s, i + 1, Seq::empty())->0;
    ret_sound(s, j + 1);
    let (ret, k) = read_ret(s, j + 1)->0;
    let throws = marked_sound(s, k, '^', Seq::empty());
    assert(Seq::<generics_grammar::TypeSig>::empty() + throws =~= throws);
    assert(m == generics_grammar::MethodSig { type_params, params, ret, throws });
    method_parts(
        s,
        i,
        j,
        k,
        generics_grammar::declared_wire(type_params),
        generics_grammar::types_wire(Seq::empty(), params),
        generics_grammar::ret_wire(ret),
        generics_grammar::types_wire(seq!['^'], throws),
    );
}

proof fn method_complete(s: Seq<char>, m: generics_grammar::MethodSig)
    requires
        generics_grammar::spells_method(s, m),
    ensures
        read_method(s) == Some(m),
{
    let declared = generics_grammar::declared_wire(m.type_params);
    let params = generics_grammar::types_wire(Seq::empty(), m.params);
    let ret = generics_grammar::ret_wire(m.ret);
    let throws = generics_grammar::types_wire(seq!['^'], m.throws);
    assert(s.subrange(0, s.len() as int) =~= s);
    assert(m.wire() == declared + seq!['('] + params + seq![')'] + ret + throws);
    stands_parts(s, 0, declared + seq!['('] + params + seq![')'] + ret, throws);
    stands_parts(s, 0, declared + seq!['('] + params + seq![')'], ret);
    stands_parts(s, 0, declared + seq!['('] + params, seq![')']);
    stands_parts(s, 0, declared + seq!['('], params);
    stands_parts(s, 0, declared, seq!['(']);
    let i = declared.len() as int;
    if m.type_params.len() > 0 {
        stands_parts(
            s,
            0,
            seq!['<'] + generics_grammar::params_wire(m.type_params),
            seq!['>'],
        );
        stands_parts(s, 0, seq!['<'], generics_grammar::params_wire(m.type_params));
        params_complete(s, 1, m.type_params, Seq::empty());
        assert(Seq::<generics_grammar::TypeParam>::empty() + m.type_params =~= m.type_params);
    } else {
        assert(m.type_params =~= Seq::empty());
    }
    types_complete(s, i + 1, m.params, Seq::empty());
    assert(Seq::<generics_grammar::TypeSig>::empty() + m.params =~= m.params);
    let j = i + 1 + params.len();
    ret_complete(s, j + 1, m.ret);
    let k = j + 1 + ret.len();
    marked_complete(s, k, '^', m.throws, Seq::empty());
    assert(Seq::<generics_grammar::TypeSig>::empty() + m.throws =~= m.throws);
}

/// Reading the whole of `s` as a method finds exactly the method that `s` spells.
pub proof fn reads_the_method_spelled(s: Seq<char>, m: generics_grammar::MethodSig)
    ensures
        generics_grammar::spells_method(s, m) <==> read_method(s) == Some(m),
{
    if generics_grammar::spells_method(s, m) {
        method_complete(s, m);
    }
    if read_method(s) == Some(m) {
        method_sound(s);
    }
}

} // verus!
