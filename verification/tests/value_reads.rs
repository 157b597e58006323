use jdwp_mcp::jdwp::{RuntimeValue, ValueData};
use jdwp_mcp::value_reads::{FirstRead, ValueReads, TAG_STRING};

fn object(tag: u8, id: u64) -> RuntimeValue {
    RuntimeValue { tag, data: ValueData::Object(id) }
}

#[test]
fn the_planned_read_follows_the_tag_and_nothing_else() {
    assert_eq!(ValueReads::first_read(&object(TAG_STRING, 0x11)), Some(FirstRead::StringContents(0x11)));
    assert_eq!(ValueReads::first_read(&object(76, 0x22)), Some(FirstRead::ReferenceType(0x22)));
    assert_eq!(ValueReads::first_read(&object(91, 0x33)), Some(FirstRead::ReferenceType(0x33)));
}

#[test]
fn a_value_that_reads_nothing_plans_nothing() {
    assert_eq!(ValueReads::first_read(&object(76, 0)), None, "a null object reference reads nothing");
    assert_eq!(
        ValueReads::first_read(&object(TAG_STRING, 0)),
        None,
        "a null String reference reads nothing either — the tag does not make it readable"
    );
    for data in [
        ValueData::Int(7),
        ValueData::Long(7),
        ValueData::Boolean(true),
        ValueData::Char(65),
        ValueData::DoubleBits(1.5f64.to_bits()),
        ValueData::Void,
    ] {
        assert_eq!(
            ValueReads::first_read(&RuntimeValue { tag: 73, data }),
            None,
            "a primitive renders from the wire and must not be committed: {data:?}"
        );
    }
}

#[test]
fn an_object_committed_twice_is_read_once() {
    let values = [object(76, 5), object(TAG_STRING, 6), object(76, 5), object(76, 0), object(TAG_STRING, 5)];
    let plan = ValueReads::plan(&values.iter().collect::<Vec<_>>());
    assert_eq!(plan.string_ids, vec![6]);
    assert_eq!(plan.object_ids, vec![5], "the first sighting decides how it is read");
}

#[test]
fn a_read_that_failed_is_known_as_a_failure() {
    let values = [object(TAG_STRING, 1), object(TAG_STRING, 2), object(76, 3), object(76, 4)];
    let plan = ValueReads::plan(&values.iter().collect::<Vec<_>>());
    let reads =
        ValueReads::committed(&plan, vec![Some("one".to_string()), None], vec![Some(30), None]);
    assert_eq!(reads.string_contents(1), Some(Some("one".to_string())));
    assert_eq!(reads.string_contents(2), Some(None), "it was asked, and did not answer");
    assert_eq!(reads.string_contents(9), None, "it was never asked");
    assert_eq!(reads.reference_type(3), Some(Some(30)));
    assert_eq!(reads.known_type(3), Some(30));
    assert_eq!(reads.known_type(4), None);
    assert_eq!(reads.known_type(1), None, "a string is read as a string, and its type is not known");
    assert_eq!(ValueReads::none().reference_type(3), None);
}

#[test]
fn a_box_gives_the_first_of_its_values() {
    let seven = RuntimeValue { tag: 73, data: ValueData::Int(7) };
    let mut reads = ValueReads::none();
    reads.committed_boxed(
        &[(1, vec![50]), (2, vec![50]), (3, vec![50])],
        &[Some(vec![seven]), Some(Vec::new()), None],
    );
    assert_eq!(reads.boxed_value(1), Some(Some(seven)));
    assert_eq!(reads.boxed_value(2), Some(None));
    assert_eq!(reads.boxed_value(3), Some(None));
    assert_eq!(reads.boxed_value(4), None);
    assert_eq!(ValueReads::unboxed(&Some(vec![seven])), Some(seven));
}
