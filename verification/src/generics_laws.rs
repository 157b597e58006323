//! What holds of generic signatures and of what they are rendered as: how the spelling of a type and its
//! rendering grow together, part by part, and that a method is rendered in the order it declares things.

use crate::generics::MethodParts;
use crate::generics_grammar;
use crate::generics_grammar::{BaseSig, MethodSig, Place, Segment, TypeArg, TypeParam, TypeSig};
use crate::text;
use vstd::prelude::*;

verus! {

/// The type that is no array and has this base.
pub open spec fn plain(base: BaseSig) -> TypeSig {
    TypeSig { dims: 0, base }
}

/// The class of this name, with these arguments.
pub open spec fn class(name: Seq<char>, args: Seq<TypeArg>) -> TypeSig {
    plain(BaseSig::Class(seq![Segment { name, args }]))
}

/// Each base type has its letter, and is rendered by its keyword.
pub proof fn a_base_type_is_rendered_by_its_keyword(c: char, word: Seq<char>)
    requires
        (c == 'B' && word == "byte"@) || (c == 'C' && word == "char"@) || (c == 'D' && word
            == "double"@) || (c == 'F' && word == "float"@) || (c == 'I' && word == "int"@) || (c == 'J'
            && word == "long"@) || (c == 'S' && word == "short"@) || (c == 'Z' && word == "boolean"@),
    ensures
        generics_grammar::spells_type(seq![c], plain(BaseSig::Primitive(c))),
        plain(BaseSig::Primitive(c)).java() == word,
{
    let t = plain(BaseSig::Primitive(c));
    assert(t.wire() =~= seq![c]);
    assert(t.java() =~= word);
}

/// One more bracket before a signature is one more pair of brackets behind what it is rendered as.
pub proof fn one_more_bracket_is_one_more_dimension(sig: Seq<char>, t: TypeSig)
    requires
        generics_grammar::spells_type(sig, t),
        t.dims < 255,
    ensures
        ({
            let array = TypeSig { dims: t.dims + 1, base: t.base };
            &&& generics_grammar::spells_type(seq!['['] + sig, array)
            &&& array.java() == t.java() + seq!['[', ']']
        }),
{
    let array = TypeSig { dims: t.dims + 1, base: t.base };
    reveal_strlit("[]");
    assert(array.wire() =~= seq!['['] + t.wire());
    assert("[]"@ =~= seq!['[', ']']);
    assert(array.java() =~= t.java() + seq!['[', ']']);
}

/// A type variable is spelled between `T` and `;`, and is rendered by its name.
pub proof fn a_variable_is_rendered_by_its_name(name: Seq<char>)
    requires
        name.len() > 0,
        !name.contains(';'),
    ensures
        generics_grammar::spells_type(
            seq!['T'] + name + seq![';'],
            plain(BaseSig::Variable(name)),
        ),
        plain(BaseSig::Variable(name)).java() == name,
{
    let t = plain(BaseSig::Variable(name));
    assert forall|i: int| 0 <= i < name.len() implies !generics_grammar::ends(
        Place::Variable,
        #[trigger] name[i],
    ) by {
        if name[i] == ';' {
            assert(name.contains(';'));
        }
    }
    assert(t.wire() =~= seq!['T'] + name + seq![';']);
    assert(t.java() =~= name);
}

/// A class is spelled between `L` and `;`, and is rendered by its name with a dot for every slash and every
/// other character as it is.
pub proof fn a_class_is_rendered_dotted(name: Seq<char>)
    requires
        name.len() > 0,
        !name.contains(';'),
        !name.contains('<'),
        !name.contains('.'),
    ensures
        generics_grammar::spells_type(seq!['L'] + name + seq![';'], class(name, Seq::empty())),
        class(name, Seq::empty()).java().len() == name.len(),
        forall|i: int|
            0 <= i < name.len() ==> #[trigger] class(name, Seq::empty()).java()[i] == (if name[i]
                == '/' {
                '.'
            } else {
                name[i]
            }),
{
    let none = Seq::<TypeArg>::empty();
    let segments = seq![Segment { name, args: none }];
    let t = class(name, none);
    assert forall|i: int| 0 <= i < name.len() implies !generics_grammar::ends(
        Place::Segment,
        #[trigger] name[i],
    ) by {
        assert(name.contains(name[i]));
    }
    let rest = segments.drop_first();
    assert(rest =~= Seq::empty());
    assert(generics_grammar::segments_wf(rest));
    assert(generics_grammar::args_wf(none));
    assert(generics_grammar::segments_wire(rest) =~= Seq::empty());
    assert(generics_grammar::bracketed_wire(none) =~= Seq::empty());
    assert(generics_grammar::segments_wire(segments) =~= name + seq![';']);
    assert(t.wire() =~= seq!['L'] + name + seq![';']);
    assert(generics_grammar::bracketed_java(none) =~= Seq::empty());
    assert(segments.last() == segments[0]);
    assert(t.java() =~= text::swapped(name, '/', '.'));
}

/// The first type argument of a class goes into angle brackets, in the spelling before the `;` and in the
/// rendering behind the name.
pub proof fn a_first_argument_is_put_in_angle_brackets(name: Seq<char>, arg: TypeArg)
    ensures
        class(name, Seq::empty()).wf() && arg.wf() ==> class(name, seq![arg]).wf(),
        class(name, seq![arg]).wire() == class(name, Seq::empty()).wire().drop_last() + seq!['<']
            + arg.wire() + seq!['>', ';'],
        class(name, seq![arg]).java() == class(name, Seq::empty()).java() + seq!['<'] + arg.java()
            + seq!['>'],
{
    let none = Seq::<TypeArg>::empty();
    let one = seq![arg];
    assert(one.drop_first() =~= none);
    assert(generics_grammar::args_wf(none));
    let bare = seq![Segment { name, args: none }];
    let full = seq![Segment { name, args: one }];
    assert(bare.drop_first() =~= Seq::<Segment>::empty());
    assert(full.drop_first() =~= Seq::<Segment>::empty());
    assert(generics_grammar::segments_wire(Seq::<Segment>::empty()) =~= Seq::empty());
    assert(generics_grammar::bracketed_wire(none) =~= Seq::empty());
    assert(one.drop_first() =~= none);
    assert(generics_grammar::args_wire(none) =~= Seq::empty());
    assert(generics_grammar::args_wire(one) =~= arg.wire());
    assert(generics_grammar::bracketed_wire(one) =~= seq!['<'] + arg.wire() + seq!['>']);
    assert(class(name, none).wire() =~= seq!['L'] + name + seq![';']);
    assert(class(name, one).wire() =~= class(name, none).wire().drop_last() + seq!['<'] + arg.wire()
        + seq!['>', ';']);
    reveal_strlit("<");
    reveal_strlit(">");
    assert(bare.last() == bare[0] && full.last() == full[0]);
    assert(one.drop_last() =~= none);
    assert(generics_grammar::args_java(none) =~= Seq::empty());
    assert(generics_grammar::args_java(one) =~= seq![arg.java()]);
    assert(text::joined(seq![arg.java()], ", "@) =~= arg.java());
    assert(generics_grammar::bracketed_java(none) =~= Seq::empty());
    assert("<"@ =~= seq!['<'] && ">"@ =~= seq!['>']);
    assert(class(name, one).java() =~= class(name, none).java() + seq!['<'] + arg.java() + seq!['>']);
}

/// One more type argument is put behind the others, in the spelling as it is and in the rendering behind a
/// comma and a space.
pub proof fn a_further_argument_is_put_behind_the_others(
    name: Seq<char>,
    args: Seq<TypeArg>,
    arg: TypeArg,
)
    requires
        args.len() > 0,
    ensures
        class(name, args).wf() && arg.wf() ==> class(name, args.push(arg)).wf(),
        class(name, args.push(arg)).wire() == class(name, args).wire().drop_last().drop_last()
            + arg.wire() + seq!['>', ';'],
        class(name, args.push(arg)).java() == class(name, args).java().drop_last() + seq![',', ' ']
            + arg.java() + seq!['>'],
{
    let more = args.push(arg);
    let few_segments = seq![Segment { name, args }];
    let all_segments = seq![Segment { name, args: more }];
    assert(few_segments.drop_first() =~= Seq::<Segment>::empty());
    assert(all_segments.drop_first() =~= Seq::<Segment>::empty());
    assert(generics_grammar::segments_wire(Seq::<Segment>::empty()) =~= Seq::empty());
    args_wire_of_more(args, arg);
    args_wf_of_more(args, arg);
    assert(class(name, args).wire() =~= seq!['L'] + name + (seq!['<'] + generics_grammar::args_wire(
        args,
    )) + seq!['>', ';']);
    assert(class(name, more).wire() =~= seq!['L'] + name + (seq!['<'] + generics_grammar::args_wire(
        args,
    )) + arg.wire() + seq!['>', ';']);
    assert(class(name, args).wire().drop_last().drop_last() =~= seq!['L'] + name + (seq!['<']
        + generics_grammar::args_wire(args)));
    reveal_strlit("<");
    reveal_strlit(">");
    reveal_strlit(", ");
    assert(few_segments.last() == few_segments[0] && all_segments.last() == all_segments[0]);
    assert(more.drop_last() =~= args);
    let few = generics_grammar::args_java(args);
    args_java_len(args);
    joined_of_more(few, arg.java(), ", "@);
    assert(generics_grammar::args_java(more) =~= few.push(arg.java()));
    assert("<"@ =~= seq!['<'] && ">"@ =~= seq!['>'] && ", "@ =~= seq![',', ' ']);
    let dotted = text::swapped(name, '/', '.');
    assert(class(name, args).java() =~= dotted + seq!['<'] + text::joined(few, ", "@) + seq!['>']);
    assert(class(name, args).java().drop_last() =~= dotted + seq!['<'] + text::joined(few, ", "@));
    assert(class(name, more).java() =~= dotted + seq!['<'] + text::joined(few, ", "@) + seq![
        ',',
        ' ',
    ] + arg.java() + seq!['>']);
}

proof fn args_wire_of_more(args: Seq<TypeArg>, arg: TypeArg)
    ensures
        generics_grammar::args_wire(args.push(arg)) == generics_grammar::args_wire(args) + arg.wire(),
    decreases args.len(),
{
    let more = args.push(arg);
    if args.len() == 0 {
        assert(more.drop_first() =~= args);
        assert(more[0] == arg);
        assert(generics_grammar::args_wire(args) =~= Seq::empty());
        assert(generics_grammar::args_wire(more.drop_first()) =~= Seq::empty());
        assert(generics_grammar::args_wire(more) =~= arg.wire());
    } else {
        args_wire_of_more(args.drop_first(), arg);
        assert(more.drop_first() =~= args.drop_first().push(arg));
        assert(generics_grammar::args_wire(more) =~= generics_grammar::args_wire(args) + arg.wire());
    }
}

proof fn args_wf_of_more(args: Seq<TypeArg>, arg: TypeArg)
    ensures
        generics_grammar::args_wf(args) && arg.wf() ==> generics_grammar::args_wf(args.push(arg)),
    decreases args.len(),
{
    let more = args.push(arg);
    if args.len() == 0 {
        assert(more.drop_first() =~= args);
    } else {
        args_wf_of_more(args.drop_first(), arg);
        assert(more.drop_first() =~= args.drop_first().push(arg));
    }
}

proof fn args_java_len(args: Seq<TypeArg>)
    ensures
        generics_grammar::args_java(args).len() == args.len(),
    decreases args.len(),
{
    if args.len() > 0 {
        args_java_len(args.drop_last());
    }
}

proof fn joined_of_more(parts: Seq<Seq<char>>, part: Seq<char>, sep: Seq<char>)
    requires
        parts.len() > 0,
    ensures
        text::joined(parts.push(part), sep) == text::joined(parts, sep) + sep + part,
{
    assert(parts.push(part).drop_last() =~= parts);
    assert(parts.push(part).last() == part);
}

/// A wildcard is a question mark; a bound above or below it follows in words, and a mark before the bound
/// spells it. A type that is given as it is needs no mark.
pub proof fn a_wildcard_is_rendered_with_its_bound(t: TypeSig)
    ensures
        TypeArg::Any.wire() == seq!['*'],
        TypeArg::Any.java() == "?"@,
        TypeArg::Extends(t).wire() == seq!['+'] + t.wire(),
        TypeArg::Extends(t).java() == "? extends "@ + t.java(),
        TypeArg::Super(t).wire() == seq!['-'] + t.wire(),
        TypeArg::Super(t).java() == "? super "@ + t.java(),
        TypeArg::Exactly(t).wire() == t.wire(),
        TypeArg::Exactly(t).java() == t.java(),
        TypeArg::Any.wf(),
        t.wf() && (t.dims > 0 || t.base is Variable || t.base is Class) ==> TypeArg::Extends(t).wf()
            && TypeArg::Super(t).wf() && TypeArg::Exactly(t).wf(),
{
}

/// A type nested in another is put behind a dot, in the spelling in place of the `;`.
pub proof fn a_nested_type_is_put_behind_a_dot(outer: Seq<Segment>, inner: Segment)
    requires
        outer.len() > 0,
    ensures
        ({
            let all = plain(BaseSig::Class(outer.push(inner)));
            let around = plain(BaseSig::Class(outer));
            let alone = class(inner.name, inner.args);
            &&& around.wf() && alone.wf() ==> all.wf()
            &&& all.wire() == around.wire().drop_last() + seq!['.'] + alone.wire().drop_first()
            &&& all.java() == around.java() + seq!['.'] + alone.java()
        }),
{
    let more = outer.push(inner);
    let alone = seq![inner];
    assert(alone =~= seq![Segment { name: inner.name, args: inner.args }]);
    segments_wire_of_more(outer, inner);
    segments_wf_of_more(outer, inner);
    let all = plain(BaseSig::Class(more));
    let around = plain(BaseSig::Class(outer));
    let single = class(inner.name, inner.args);
    assert(single.wire() =~= seq!['L'] + generics_grammar::segments_wire(alone));
    assert(single.wire().drop_first() =~= generics_grammar::segments_wire(alone));
    assert(around.wire() =~= seq!['L'] + generics_grammar::segments_wire(outer));
    assert(around.wire().drop_last() =~= seq!['L'] + generics_grammar::segments_wire(
        outer,
    ).drop_last());
    assert(all.wire() =~= around.wire().drop_last() + seq!['.'] + single.wire().drop_first());
    assert(more.drop_last() =~= outer);
    assert(more.last() == inner && alone.last() == inner);
    assert(all.java() =~= around.java() + seq!['.'] + single.java());
}

proof fn segments_wf_of_more(outer: Seq<Segment>, inner: Segment)
    ensures
        generics_grammar::segments_wf(outer) && generics_grammar::segments_wf(seq![inner])
            ==> generics_grammar::segments_wf(outer.push(inner)),
    decreases outer.len(),
{
    let more = outer.push(inner);
    if outer.len() == 0 {
        assert(more =~= seq![inner]);
    } else {
        segments_wf_of_more(outer.drop_first(), inner);
        assert(more.drop_first() =~= outer.drop_first().push(inner));
    }
}

proof fn segments_wire_of_more(outer: Seq<Segment>, inner: Segment)
    requires
        outer.len() > 0,
    ensures
        generics_grammar::segments_wire(outer).len() > 0,
        generics_grammar::segments_wire(outer.push(inner)) == generics_grammar::segments_wire(
            outer,
        ).drop_last() + seq!['.'] + generics_grammar::segments_wire(seq![inner]),
    decreases outer.len(),
{
    let more = outer.push(inner);
    let rest = outer.drop_first();
    assert(more.drop_first() =~= rest.push(inner));
    let head = outer[0].name + generics_grammar::bracketed_wire(outer[0].args);
    if outer.len() == 1 {
        assert(rest =~= Seq::empty());
        assert(generics_grammar::segments_wire(rest) =~= Seq::empty());
        assert(rest.push(inner) =~= seq![inner]);
        assert(generics_grammar::segments_wire(outer) =~= head + seq![';']);
        assert(generics_grammar::segments_wire(outer).drop_last() =~= head);
        assert(generics_grammar::segments_wire(more) =~= head + seq!['.']
            + generics_grammar::segments_wire(seq![inner]));
    } else {
        segments_wire_of_more(rest, inner);
        let tail = generics_grammar::segments_wire(rest);
        assert(generics_grammar::segments_wire(outer) =~= head + seq!['.'] + tail);
        assert(generics_grammar::segments_wire(outer).drop_last() =~= head + seq!['.']
            + tail.drop_last());
        assert(generics_grammar::segments_wire(more) =~= head + seq!['.'] + (tail.drop_last() + seq![
            '.',
        ] + generics_grammar::segments_wire(seq![inner])));
    }
}

/// What a method is rendered as has a part for each thing that it declares, in the order it declares them:
/// a type parameter begins with its own name, and every other part is the rendering of its own type.
pub proof fn a_method_is_rendered_in_its_own_order(parts: MethodParts, m: MethodSig, i: int)
    requires
        parts.renders(m),
    ensures
        parts.type_params@.len() == m.type_params.len(),
        parts.params@.len() == m.params.len(),
        parts.throws@.len() == m.throws.len(),
        0 <= i < m.type_params.len() ==> {
            let shown = parts.type_params@[i]@;
            let name = m.type_params[i].name;
            &&& name.len() <= shown.len()
            &&& shown.take(name.len() as int) == name
        },
        0 <= i < m.params.len() ==> parts.params@[i]@ == m.params[i].java(),
        0 <= i < m.throws.len() ==> parts.throws@[i]@ == m.throws[i].java(),
        parts.ret@ == match m.ret {
            Some(t) => t.java(),
            None => "void"@,
        },
{
    let type_params = text::views(parts.type_params@);
    let params = text::views(parts.params@);
    let throws = text::views(parts.throws@);
    assert(type_params.len() == parts.type_params@.len());
    assert(params.len() == parts.params@.len());
    assert(throws.len() == parts.throws@.len());
    if 0 <= i < m.type_params.len() {
        assert(type_params[i] == parts.type_params@[i]@);
        assert(type_params[i] == m.type_params[i].java());
        let name = m.type_params[i].name;
        assert(m.type_params[i].java().take(name.len() as int) =~= name);
    }
    if 0 <= i < m.params.len() {
        assert(params[i] == parts.params@[i]@);
    }
    if 0 <= i < m.throws.len() {
        assert(throws[i] == parts.throws@[i]@);
    }
}

/// What a type parameter without any bound, or with none but `java.lang.Object`, is rendered as is its name.
pub proof fn an_unbounded_parameter_is_rendered_by_its_name(name: Seq<char>, bound: TypeSig)
    requires
        bound.java() == "java.lang.Object"@,
    ensures
        (TypeParam { name, class_bound: None, interface_bounds: Seq::empty() }).java() == name,
        (TypeParam { name, class_bound: Some(bound), interface_bounds: Seq::empty() }).java() == name,
{
    reveal(Seq::filter);
    let keep = |b: Seq<char>| b != "java.lang.Object"@;
    let none = TypeParam { name, class_bound: None, interface_bounds: Seq::empty() };
    let one = TypeParam { name, class_bound: Some(bound), interface_bounds: Seq::empty() };
    let no_types = Seq::<TypeSig>::empty();
    assert(no_types + no_types =~= no_types);
    assert(seq![bound] + no_types =~= seq![bound]);
    let shown = generics_grammar::types_java(seq![bound]);
    assert(shown =~= seq!["java.lang.Object"@]);
    assert(shown.drop_last() =~= Seq::empty());
    assert(shown.drop_last().filter(keep) =~= Seq::empty());
    assert(one.bounds_java() =~= shown.filter(keep));
    assert(generics_grammar::types_java(no_types) =~= Seq::empty());
    assert(none.bounds_java() =~= Seq::empty());
}

/// The first bound of a type parameter that says anything is put behind `extends`, whether it is a class
/// or an interface.
pub proof fn a_bound_is_rendered_behind_extends(name: Seq<char>, bound: TypeSig)
    requires
        bound.java() != "java.lang.Object"@,
    ensures
        (TypeParam { name, class_bound: Some(bound), interface_bounds: Seq::empty() }).java() == name
            + " extends "@ + bound.java(),
        (TypeParam { name, class_bound: None, interface_bounds: seq![bound] }).java() == name
            + " extends "@ + bound.java(),
{
    reveal(Seq::filter);
    let keep = |b: Seq<char>| b != "java.lang.Object"@;
    let no_types = Seq::<TypeSig>::empty();
    assert(seq![bound] + no_types =~= seq![bound]);
    assert(no_types + seq![bound] =~= seq![bound]);
    let shown = generics_grammar::types_java(seq![bound]);
    assert(shown =~= seq![bound.java()]);
    assert(shown.drop_last() =~= Seq::empty());
    assert(shown.drop_last().filter(keep) =~= Seq::empty());
    assert(shown.filter(keep) =~= seq![bound.java()]);
    assert(text::joined(seq![bound.java()], " & "@) =~= bound.java());
    let a = TypeParam { name, class_bound: Some(bound), interface_bounds: no_types };
    let b = TypeParam { name, class_bound: None, interface_bounds: seq![bound] };
    assert(a.bounds_java() =~= shown.filter(keep));
    assert(b.bounds_java() =~= shown.filter(keep));
}

/// One more interface that a type parameter is bounded by is put behind an ampersand, or behind `extends`
/// where no bound was rendered before; `java.lang.Object` is never rendered.
pub proof fn a_further_bound_is_rendered_behind_an_ampersand(p: TypeParam, bound: TypeSig)
    ensures
        ({
            let more = TypeParam { interface_bounds: p.interface_bounds.push(bound), ..p };
            more.java() == if bound.java() == "java.lang.Object"@ {
                p.java()
            } else if p.bounds_java().len() == 0 {
                p.name + " extends "@ + bound.java()
            } else {
                p.java() + " & "@ + bound.java()
            }
        }),
{
    let keep = |b: Seq<char>| b != "java.lang.Object"@;
    let more = TypeParam { interface_bounds: p.interface_bounds.push(bound), ..p };
    let class_bound = match p.class_bound {
        Some(t) => seq![t],
        None => Seq::empty(),
    };
    let few = generics_grammar::types_java(class_bound + p.interface_bounds);
    let all = generics_grammar::types_java(class_bound + more.interface_bounds);
    assert(all =~= few.push(bound.java()));
    kept_of_more(few, bound.java());
    let shown = p.bounds_java();
    assert(shown == few.filter(keep));
    assert(more.bounds_java() == all.filter(keep));
    if bound.java() != "java.lang.Object"@ {
        if shown.len() == 0 {
            assert(shown.push(bound.java()) =~= seq![bound.java()]);
            assert(text::joined(seq![bound.java()], " & "@) =~= bound.java());
        } else {
            joined_of_more(shown, bound.java(), " & "@);
            let head = p.name + " extends "@;
            let before = text::joined(shown, " & "@);
            assert(head + (before + " & "@ + bound.java()) =~= head + before + " & "@ + bound.java());
        }
    }
}

proof fn kept_of_more(shown: Seq<Seq<char>>, bound: Seq<char>)
    ensures
        ({
            let keep = |b: Seq<char>| b != "java.lang.Object"@;
            shown.push(bound).filter(keep) == if bound == "java.lang.Object"@ {
                shown.filter(keep)
            } else {
                shown.filter(keep).push(bound)
            }
        }),
{
    reveal(Seq::filter);
    assert(shown.push(bound).drop_last() =~= shown);
    assert(shown.push(bound).last() == bound);
}

/// A method is spelled by its type parameters in angle brackets, its parameters in parentheses, what it
/// returns, and a mark before each type it throws. One more of any stands behind the others.
pub proof fn a_method_is_spelled_part_by_part(
    params: Seq<TypeSig>,
    t: TypeSig,
    declared: Seq<TypeParam>,
    p: TypeParam,
)
    ensures
        (MethodSig {
            type_params: Seq::empty(),
            params: Seq::empty(),
            ret: None,
            throws: Seq::empty(),
        }).wire() == seq!['(', ')', 'V'],
        (MethodSig {
            type_params: Seq::empty(),
            params: params.push(t),
            ret: Some(t),
            throws: params.push(t),
        }).wire() == seq!['('] + generics_grammar::types_wire(Seq::empty(), params) + t.wire() + seq![
            ')',
        ] + t.wire() + generics_grammar::types_wire(seq!['^'], params) + seq!['^'] + t.wire(),
        generics_grammar::declared_wire(declared.push(p)) == seq!['<'] + generics_grammar::params_wire(
            declared,
        ) + p.wire() + seq!['>'],
        (TypeParam { name: p.name, class_bound: None, interface_bounds: Seq::empty() }).wire() == p.name
            + seq![':'],
        (TypeParam { name: p.name, class_bound: Some(t), interface_bounds: Seq::empty() }).wire()
            == p.name + seq![':'] + t.wire(),
        (TypeParam { interface_bounds: p.interface_bounds.push(t), ..p }).wire() == p.wire() + seq![':']
            + t.wire(),
{
    let none = Seq::<TypeSig>::empty();
    assert(generics_grammar::types_wire(Seq::empty(), none) =~= Seq::empty());
    assert(generics_grammar::types_wire(seq!['^'], none) =~= Seq::empty());
    assert(generics_grammar::types_wire(seq![':'], none) =~= Seq::empty());
    types_wire_of_more(Seq::empty(), params, t);
    types_wire_of_more(seq!['^'], params, t);
    types_wire_of_more(seq![':'], p.interface_bounds, t);
    params_wire_of_more(declared, p);
    let empty = MethodSig {
        type_params: Seq::empty(),
        params: Seq::empty(),
        ret: None,
        throws: Seq::empty(),
    };
    assert(empty.wire() =~= seq!['(', ')', 'V']);
    let full = MethodSig {
        type_params: Seq::empty(),
        params: params.push(t),
        ret: Some(t),
        throws: params.push(t),
    };
    assert(full.wire() =~= seq!['('] + generics_grammar::types_wire(Seq::empty(), params) + t.wire()
        + seq![')'] + t.wire() + generics_grammar::types_wire(seq!['^'], params) + seq!['^'] + t.wire());
    assert(generics_grammar::declared_wire(declared.push(p)) =~= seq!['<']
        + generics_grammar::params_wire(declared) + p.wire() + seq!['>']);
    let bare = TypeParam { name: p.name, class_bound: None, interface_bounds: Seq::empty() };
    let bounded = TypeParam { name: p.name, class_bound: Some(t), interface_bounds: Seq::empty() };
    let more = TypeParam { interface_bounds: p.interface_bounds.push(t), ..p };
    assert(bare.wire() =~= p.name + seq![':']);
    assert(bounded.wire() =~= p.name + seq![':'] + t.wire());
    assert(more.wire() =~= p.wire() + seq![':'] + t.wire());
}

proof fn types_wire_of_more(mark: Seq<char>, types: Seq<TypeSig>, t: TypeSig)
    ensures
        generics_grammar::types_wire(mark, types.push(t)) == generics_grammar::types_wire(mark, types)
            + mark + t.wire(),
    decreases types.len(),
{
    let more = types.push(t);
    if types.len() == 0 {
        assert(more.drop_first() =~= types);
        assert(generics_grammar::types_wire(mark, more) =~= generics_grammar::types_wire(mark, types)
            + mark + t.wire());
    } else {
        types_wire_of_more(mark, types.drop_first(), t);
        assert(more.drop_first() =~= types.drop_first().push(t));
        assert(generics_grammar::types_wire(mark, more) =~= generics_grammar::types_wire(mark, types)
            + mark + t.wire());
    }
}

proof fn params_wire_of_more(params: Seq<TypeParam>, p: TypeParam)
    ensures
        generics_grammar::params_wire(params.push(p)) == generics_grammar::params_wire(params)
            + p.wire(),
    decreases params.len(),
{
    let more = params.push(p);
    if params.len() == 0 {
        assert(more.drop_first() =~= params);
        assert(generics_grammar::params_wire(more) =~= generics_grammar::params_wire(params)
            + p.wire());
    } else {
        params_wire_of_more(params.drop_first(), p);
        assert(more.drop_first() =~= params.drop_first().push(p));
        assert(generics_grammar::params_wire(more) =~= generics_grammar::params_wire(params)
            + p.wire());
    }
}

/// A method may take and return any types, throw any classes and type variables, and be told by type
/// parameters that are bounded by anything but base types.
pub proof fn a_method_may_be_made_of_any_types(m: MethodSig)
    requires
        forall|i: int| 0 <= i < m.params.len() ==> (#[trigger] m.params[i]).wf(),
        m.ret matches Some(t) ==> t.wf(),
        forall|i: int|
            0 <= i < m.throws.len() ==> (#[trigger] m.throws[i]).wf() && m.throws[i].dims == 0 && (
            m.throws[i].base is Variable || m.throws[i].base is Class),
        forall|i: int|
            0 <= i < m.type_params.len() ==> {
                let p = #[trigger] m.type_params[i];
                &&& p.name.len() > 0
                &&& !p.name.contains(':')
                &&& p.name[0] != '>'
                &&& p.class_bound matches Some(t) && t.wf() && (t.dims > 0 || t.base is Variable
                    || t.base is Class)
                &&& p.interface_bounds.len() == 0
            },
    ensures
        m.wf(),
{
    assert forall|i: int| 0 <= i < m.type_params.len() implies (#[trigger] m.type_params[i]).wf()
        && (i + 1 < m.type_params.len() ==> m.type_params[i].is_bounded()) by {
        let p = m.type_params[i];
        assert forall|k: int| 0 <= k < p.name.len() implies !generics_grammar::ends(
            Place::Parameter,
            #[trigger] p.name[k],
        ) by {
            assert(p.name.contains(p.name[k]));
        }
    }
}

} // verus!
