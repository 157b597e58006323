use jdwp_mcp::generics::{render_method, render_type};

#[test]
fn nested_type_arguments_render_as_java_source() {
    assert_eq!(
        render_type("Ljava/util/List<Ljava/lang/String;>;").as_deref(),
        Some("java.util.List<java.lang.String>")
    );
    assert_eq!(
        render_type("Ljava/util/Map<Ljava/lang/Integer;Ljava/util/List<Lcom/x/Widget;>;>;").as_deref(),
        Some("java.util.Map<java.lang.Integer, java.util.List<com.x.Widget>>")
    );
    assert_eq!(
        render_type(
            "Ljava/util/Map<Ljava/lang/Integer;Ljava/util/Map<Lcom/x/WSIntegradorEnum;Ljava/util/LinkedList<Lcom/x/WSSessao;>;>;>;"
        )
        .as_deref(),
        Some(
            "java.util.Map<java.lang.Integer, java.util.Map<com.x.WSIntegradorEnum, java.util.LinkedList<com.x.WSSessao>>>"
        )
    );
}

#[test]
fn wildcards_render_the_way_java_writes_them() {
    assert_eq!(
        render_type("Ljava/util/Map<Ljava/lang/String;+Ljava/lang/Number;>;").as_deref(),
        Some("java.util.Map<java.lang.String, ? extends java.lang.Number>")
    );
    assert_eq!(
        render_type("Ljava/util/List<-Ljava/lang/Integer;>;").as_deref(),
        Some("java.util.List<? super java.lang.Integer>")
    );
    assert_eq!(
        render_type("Ljava/util/List<*>;").as_deref(),
        Some("java.util.List<?>"),
        "an unbounded wildcard is the whole argument — there is no type after the `*`"
    );
}

#[test]
fn type_variables_and_arrays() {
    assert_eq!(render_type("TT;").as_deref(), Some("T"));
    assert_eq!(render_type("[TT;").as_deref(), Some("T[]"));
    assert_eq!(render_type("[[Ljava/util/List<TE;>;").as_deref(), Some("java.util.List<E>[][]"));
    assert_eq!(render_type("[I").as_deref(), Some("int[]"), "a base type still parses here");
}

#[test]
fn a_nested_type_keeps_the_outers_arguments() {
    assert_eq!(
        render_type("Lcom/x/Outer<Ljava/lang/String;>.Inner<Ljava/lang/Integer;>;").as_deref(),
        Some("com.x.Outer<java.lang.String>.Inner<java.lang.Integer>")
    );
    assert_eq!(
        render_type("Lcom/x/Outer.Inner;").as_deref(),
        Some("com.x.Outer.Inner"),
        "and a nested type with no arguments at all still parses"
    );
}

#[test]
fn method_signatures_split_into_the_pieces_a_declaration_needs() {
    let plain =
        render_method("(Ljava/util/List<Ljava/lang/String;>;I)Ljava/util/Map<Ljava/lang/String;TT;>;")
            .expect("a plain generic method signature must parse");
    assert!(plain.type_params.is_empty());
    assert_eq!(plain.params, vec!["java.util.List<java.lang.String>".to_string(), "int".to_string()]);
    assert_eq!(plain.ret, "java.util.Map<java.lang.String, T>");
    assert!(plain.throws.is_empty());

    let generic = render_method("<T:Ljava/lang/Object;>(TT;)TT;").expect("a generic method must parse");
    assert_eq!(
        generic.type_params,
        vec!["T".to_string()],
        "the universal bound is left off, as Java leaves it"
    );
    assert_eq!(generic.params, vec!["T".to_string()]);
    assert_eq!(generic.ret, "T");

    let bounded = render_method("<T:Ljava/lang/Number;:Ljava/lang/Comparable<TT;>;>(TT;)V")
        .expect("an intersection bound must parse");
    assert_eq!(
        bounded.type_params,
        vec!["T extends java.lang.Number & java.lang.Comparable<T>".to_string()]
    );
    assert_eq!(bounded.ret, "void");

    let thrown = render_method("<E:Ljava/lang/Throwable;>()V^TE;").expect("a generic throws must parse");
    assert_eq!(thrown.throws, vec!["E".to_string()]);

    let iface_only = render_method("<T::Ljava/lang/Comparable<TT;>;>(TT;)V")
        .expect("an interface-only bound (`::`) must parse");
    assert_eq!(iface_only.type_params, vec!["T extends java.lang.Comparable<T>".to_string()]);
}

#[test]
fn nothing_unparseable_ever_renders_as_a_type() {
    for bad in [
        "",                                    // no attribute — the common case, by a wide margin
        "Ljava/util/List<Ljava/lang/String;>", // unterminated class type
        "Ljava/util/List<;>;",                 // an argument that is not a type
        "Ljava/util/List<>;",                  // empty argument list
        "L;",                                  // no name
        "T;",                                  // no type-variable name
        "Q",                                   // not a type character at all
        "Ljava/lang/String;X",                 // trailing garbage: a partial parse would look plausible
        "[",                                   // brackets and nothing else
        "*",                                   // a wildcard outside an argument list
    ] {
        assert!(render_type(bad).is_none(), "'{bad}' must not render as a type, but it did");
    }
    for bad in [
        "",
        "(I)",                // no return type
        "Ljava/lang/String;", // a TYPE signature, handed here by mistake
        "(I)VX",              // trailing garbage
        "<>(I)V",             // empty type parameters
        "<T>(I)V",            // a type parameter with no bound marker
        "(TT)V",              // a type variable with no `;`
    ] {
        assert!(render_method(bad).is_none(), "'{bad}' must not render as a method, but it did");
    }
}

#[test]
fn an_ungeneric_signature_renders_what_the_plain_one_does() {
    for (sig, want) in [
        ("Ljava/lang/String;", "java.lang.String"),
        ("[Ljava/lang/String;", "java.lang.String[]"),
        ("I", "int"),
        ("[[D", "double[][]"),
        ("Lcom/x/Order$Line;", "com.x.Order$Line"),
    ] {
        assert_eq!(render_type(sig).as_deref(), Some(want), "{sig}");
    }
}

#[test]
fn a_signature_is_a_type_or_a_method_and_never_both() {
    for sig in ["I", "Ljava/util/List<*>;", "(I)V", "<T::Ljava/lang/Runnable;>(TT;)[TT;", ""] {
        assert!(render_type(sig).is_none() || render_method(sig).is_none(), "{sig}");
    }
    assert_eq!(render_method("()V").map(|m| m.ret).as_deref(), Some("void"));
}

#[test]
fn every_base_type_has_its_java_name() {
    for (sig, want) in [
        ("B", "byte"),
        ("C", "char"),
        ("D", "double"),
        ("F", "float"),
        ("I", "int"),
        ("J", "long"),
        ("S", "short"),
        ("Z", "boolean"),
    ] {
        assert_eq!(render_type(sig).as_deref(), Some(want), "{sig}");
    }
}

#[test]
fn void_is_returned_and_is_no_type() {
    for bad in ["V", "[V", "[[V", "Ljava/util/List<V>;", "Ljava/util/List<+V>;"] {
        assert!(render_type(bad).is_none(), "{bad}");
    }
    for bad in ["(V)V", "(I[V)V", "()[V", "<T:V>()V", "()V^V"] {
        assert!(render_method(bad).is_none(), "{bad}");
    }
    let m = render_method("(IJ)V").unwrap();
    assert_eq!(m.params, ["int", "long"]);
    assert_eq!(m.ret, "void");
}

#[test]
fn a_base_type_is_no_argument_no_bound_and_no_exception() {
    for bad in ["Ljava/util/List<I>;", "Ljava/util/List<+I>;", "Ljava/util/List<-J>;"] {
        assert!(render_type(bad).is_none(), "{bad}");
    }
    for bad in ["<T:I>()V", "<T::Z>()V", "<T:Ljava/lang/Object;:B>()V", "()V^I", "()V^[Ljava/lang/Exception;"] {
        assert!(render_method(bad).is_none(), "{bad}");
    }
    assert_eq!(render_type("Ljava/util/List<[I>;").as_deref(), Some("java.util.List<int[]>"));
    assert_eq!(render_type("Ljava/util/List<-[[J>;").as_deref(), Some("java.util.List<? super long[][]>"));
    assert_eq!(render_method("<E:Ljava/lang/Exception;>()V^TE;^Ljava/io/IOException;").unwrap().throws, ["E", "java.io.IOException"]);
}
