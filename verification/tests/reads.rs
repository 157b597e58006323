use jdwp_mcp::jdwp::{MethodInfo, ValueData};
use jdwp_mcp::reads::{tag_of, Reads, StatedClass, StatedDebuggee, StatedObject};

fn method(name: &str, signature: &str, mod_bits: i32) -> MethodInfo {
    MethodInfo {
        method_id: 1,
        name: name.to_string(),
        signature: signature.to_string(),
        generic_signature: None,
        mod_bits,
    }
}

#[test]
fn a_stated_debuggee_answers_only_about_the_classes_it_states() {
    let mut vm = StatedDebuggee::new(vec![
        StatedClass::new("LEvalProbe;", 10).with_methods(vec![method("twice", "(I)I", 0x0009)])
    ]);
    let mut reads = Reads::Stated(&mut vm);

    let found = reads.classes_by_signature("LEvalProbe;");
    assert_eq!(found.len(), 1);
    assert_eq!(found[0].type_id, 10);

    assert!(
        reads.classes_by_signature("LNeverLoaded;").is_empty(),
        "a signature the stated debuggee does not state must come back empty, not as an error — an error \
         here would send the resolver down its failure path instead of its not-loaded path"
    );
    assert_eq!(reads.get_methods(10).len(), 1);
    assert!(reads.get_methods(999).is_empty());
}

#[test]
fn a_stated_debuggee_counts_the_reads_it_serves() {
    let mut vm = StatedDebuggee::new(vec![StatedClass::new("LEvalProbe;", 10)]);
    assert_eq!(vm.reads(), 0);
    let mut reads = Reads::Stated(&mut vm);
    let _ = reads.get_signature(10);
    let _ = reads.get_methods(10);
    assert_eq!(reads.packets_sent(), 2);
    assert_eq!(vm.reads(), 2, "each read served is one charged");
}

#[test]
fn a_stated_line_table_comes_back_and_an_unstated_method_comes_back_empty() {
    let mut vm = StatedDebuggee::new(vec![StatedClass::new("LOrder;", 10)
        .with_methods(vec![method("total", "()I", 0x0001)])
        .with_line_table(77, &[(0, 41), (8, 42), (19, 44)])]);
    let mut reads = Reads::Stated(&mut vm);

    let stated = reads.get_line_table(10, 77);
    assert_eq!(
        stated.lines.iter().map(|e| (e.line_code_index, e.line_number)).collect::<Vec<_>>(),
        vec![(0, 41), (8, 42), (19, 44)]
    );
    assert_eq!((stated.start, stated.end), (0, 19), "start and end bracket the stated entries");

    let unstated = reads.get_line_table(10, 999);
    assert!(
        unstated.lines.is_empty(),
        "a method the stated debuggee states no table for is the `-g:none` shape — an EMPTY table, not an \
         error, because those are two different not-comparable cases and only one of them is this one"
    );
}

#[test]
fn a_stated_superclass_chain_terminates() {
    let mut vm = StatedDebuggee::new(vec![
        StatedClass::new("LChild;", 1).with_superclass(2),
        StatedClass::new("LParent;", 2),
    ]);
    let mut reads = Reads::Stated(&mut vm);
    assert_eq!(reads.get_superclass(1), Some(2));
    assert_eq!(reads.get_superclass(2), None, "the top of a stated chain is the end");
}

#[test]
fn an_interface_is_found_over_superclasses_and_other_interfaces() {
    let mut vm = StatedDebuggee::new(vec![
        StatedClass::new("LChild;", 1).with_superclass(2).with_interface(9),
        StatedClass::new("LParent;", 2).with_interface(3).with_superclass(1),
        StatedClass::new("LCollection;", 3).with_interface(4),
        StatedClass::new("LIterable;", 4),
        StatedClass::new("LOther;", 5),
    ]);
    let mut reads = Reads::Stated(&mut vm);
    assert!(reads.implements_interface(1, "LIterable;"));
    assert!(reads.implements_interface(1, "LChild;"), "a type is what it is");
    assert!(!reads.implements_interface(1, "LOther;"), "a circle ends the walk");
    assert!(!reads.implements_interface(9, "LIterable;"), "nothing is known of a type that is not stated");
    assert_eq!(reads.packets_sent(), 4, "a walk is one read");
}

#[test]
fn what_a_class_states_is_what_is_read() {
    let mut class = StatedClass::new("LOrder;", 10).with_modifiers(0x21).with_bytecode(5, &[0xB1]);
    class.source_file = Some("Order.java".to_string());
    class.class_loader = Some(70);
    let mut vm = StatedDebuggee::new(vec![class]).without_bytecode_capability();
    let mut reads = Reads::Stated(&mut vm);
    assert_eq!(reads.get_modifiers(10), 0x21);
    assert_eq!(reads.get_modifiers(11), 0);
    assert_eq!(reads.get_bytecodes(10, 5), vec![0xB1]);
    assert!(reads.get_bytecodes(10, 6).is_empty());
    assert_eq!(reads.get_source_file(10), "Order.java");
    assert_eq!(reads.get_source_file(11), "");
    assert_eq!(reads.get_class_loader(10), Some(70));
    assert_eq!(reads.get_signature(10), "LOrder;");
    assert!(reads.get_fields(10).is_empty());
    assert!(reads.get_interfaces(10).is_empty());
    let can = reads.capabilities();
    assert!(!can.can_get_bytecodes && can.can_get_monitor_info);
    let infos = reads.classes_by_signature("LOrder;");
    assert_eq!((infos[0].ref_type_tag, infos[0].status), (1, 7));
}

#[test]
fn the_fields_of_an_object_come_in_the_order_asked_for() {
    let mut vm = StatedDebuggee::new(Vec::new()).with_objects(vec![StatedObject::new(100, 10)
        .with_field(1, ValueData::Int(7))
        .with_field(2, ValueData::Object(200))]);
    let mut reads = Reads::Stated(&mut vm);
    let values = reads.get_object_values(100, vec![2, 9, 1]);
    assert_eq!(values.len(), 2, "a field that is not stated is left out");
    assert_eq!((values[0].tag, values[0].data), (b'L', ValueData::Object(200)));
    assert_eq!((values[1].tag, values[1].data), (b'I', ValueData::Int(7)));
    assert!(reads.get_object_values(101, vec![1]).is_empty());
    assert_eq!(reads.get_object_reference_type(100), 10);
    assert_eq!(reads.get_object_reference_type(101), 101);
}

#[test]
fn a_value_is_tagged_by_the_letter_of_its_type() {
    for (data, letter) in [
        (ValueData::Byte(1), b'B'),
        (ValueData::Char(65), b'C'),
        (ValueData::FloatBits(0), b'F'),
        (ValueData::DoubleBits(0), b'D'),
        (ValueData::Int(1), b'I'),
        (ValueData::Long(1), b'J'),
        (ValueData::Short(1), b'S'),
        (ValueData::Boolean(true), b'Z'),
        (ValueData::Object(1), b'L'),
        (ValueData::Void, b'V'),
    ] {
        assert_eq!(tag_of(&data), letter, "{data:?}");
    }
}
