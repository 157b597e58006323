use jdwp_mcp::args;
use jdwp_mcp::json;
use jdwp_mcp::json::Json;

#[test]
fn a_thread_id_is_read_with_its_prefix_or_without() {
    assert_eq!(args::parse_thread_id(Some("0x2")), Some(2));
    assert_eq!(args::parse_thread_id(Some("2")), Some(2));
    assert_eq!(args::parse_thread_id(Some("0x0x1F")), Some(31), "every leading prefix comes off");
    assert_eq!(args::parse_thread_id(Some("+ff")), Some(255));
    assert_eq!(args::parse_thread_id(Some("ffffffffffffffff")), Some(u64::MAX));
    for bad in ["", "0x", "-1", "g", "0X2", "1 ", "10000000000000000"] {
        assert_eq!(args::parse_thread_id(Some(bad)), None, "{bad:?}");
    }
    assert_eq!(args::parse_thread_id(None), None);
}

#[test]
fn what_is_not_given_has_its_default() {
    assert_eq!(args::default_host(), "localhost");
    assert_eq!(args::default_port(), 5005);
    assert_eq!(args::default_max_frames(), 20);
    assert!(args::default_true());
    assert_eq!(args::default_max_result_length(), 2000);
    assert_eq!(args::default_limit(), 40);
    assert_eq!(args::default_class_limit(), 100);
    assert_eq!(args::default_source_context(), 20);
    assert_eq!(args::default_source_max_lines(), 400);
    assert_eq!(args::default_trace_limit(), 50);
    assert_eq!(args::default_event_limit(), 1);
    assert_eq!(args::default_max_depth(), 2);
    assert_eq!(args::default_max_children(), 16);
    assert_eq!(args::default_trace_frames(), 3);
    assert_eq!(args::default_dump_frames(), 8);
}

#[test]
fn no_arguments_stand_for_an_empty_object() {
    assert_eq!(json::write(&args::arguments(&Json::Null)), "{}");
    assert_eq!(json::write(&args::arguments(&json::read(r#"{"port":1}"#).unwrap())), r#"{"port":1}"#);
    assert_eq!(args::invalid_arguments("missing field `line`"), "Invalid arguments: missing field `line`");
}
