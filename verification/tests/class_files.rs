use jdwp_mcp::class_build::{class_file, Method};
use jdwp_mcp::classfile::{parse, parse_constant_pool, utf8, Cursor};

#[test]
fn a_file_that_is_not_a_class_file_is_named_as_such() {
    assert!(parse(b"public class Order {}").unwrap_err().contains("0xCAFEBABE"));
    assert!(parse(&[]).unwrap_err().contains("truncated"));
    assert!(parse(&[0xCA, 0xFE, 0xBA, 0xBE]).unwrap_err().contains("truncated"));
}

#[test]
fn a_long_constant_consumes_two_pool_slots() {
    let mut bytes: Vec<u8> = vec![0xCA, 0xFE, 0xBA, 0xBE, 0, 0, 0, 65, 0, 4];
    bytes.push(5); // CONSTANT_Long
    bytes.extend_from_slice(&7i64.to_be_bytes());
    bytes.push(1); // CONSTANT_Utf8
    bytes.extend_from_slice(&3u16.to_be_bytes());
    bytes.extend_from_slice(b"Hey");

    let mut c = Cursor::new(&bytes);
    assert_eq!(c.u32().unwrap(), 0xCAFE_BABE);
    c.skip(4).unwrap();
    let pool = parse_constant_pool(&mut c).unwrap();
    assert_eq!(utf8(&pool, 3).unwrap(), "Hey");
    assert!(utf8(&pool, 2).is_err(), "the second slot of a Long is unusable, not the next constant");
}

#[test]
fn what_the_builder_emits_is_what_the_parser_reads() {
    let bytes = class_file(
        "com.example.Order",
        &[
            Method::new("total", "()I", &[(0, 41), (8, 42)]),
            Method::stripped("hidden", "()V"),
            Method::bodyless("abstractOne", "()V"),
        ],
    );
    let c = parse(&bytes).expect("the builder emits a parseable class file");

    assert_eq!(c.this_class, "com.example.Order", "dotted, as parse renders it");
    assert_eq!(c.super_class.as_deref(), Some("java.lang.Object"));
    assert!(c.interfaces.is_empty());
    assert!(c.fields.is_empty());
    assert_eq!(c.methods.len(), 3);

    let total = &c.methods[0];
    assert_eq!((total.name.as_str(), total.descriptor.as_str()), ("total", "()I"));
    assert_eq!(total.lines, vec![(0, 41), (8, 42)]);
    assert!(total.has_code && total.has_line_table);

    let stripped = &c.methods[1];
    assert!(stripped.has_code, "-g:none has code");
    assert!(!stripped.has_line_table, "…and no LineNumberTable, which is not the same as no code");
    let bodyless = &c.methods[2];
    assert!(!bodyless.has_code, "an abstract method has no Code attribute and is never drift");
}

#[test]
fn stated_bytecode_survives_the_round_trip() {
    let bytes = class_file("A", &[Method::new("f", "()V", &[(0, 1)]).with_code(&[0x03, 0x3C, 0xB1])]);
    let c = parse(&bytes).expect("parseable");
    assert_eq!(c.methods[0].code, vec![0x03, 0x3C, 0xB1]);
}

#[test]
fn a_fault_says_what_is_wrong_with_the_file() {
    let header = [0xCA, 0xFE, 0xBA, 0xBE, 0, 0, 0, 65];
    assert_eq!(
        parse(&header[..6]).unwrap_err(),
        "class file is truncated: wanted 4 byte(s) at offset 4, file is 6 byte(s)"
    );
    assert_eq!(
        parse(b"PK\x03\x04").unwrap_err(),
        "not a class file: it does not start with 0xCAFEBABE"
    );

    let mut unknown = header.to_vec();
    unknown.extend_from_slice(&[0, 2, 99]);
    assert_eq!(parse(&unknown).unwrap_err(), "class file: unknown constant pool tag 99 at entry 1");

    // One constant, an integer, and a class that is looked for at it.
    let mut no_class = header.to_vec();
    no_class.extend_from_slice(&[0, 2, 3, 0, 0, 0, 7, 0, 0x21, 0, 1]);
    assert_eq!(
        parse(&no_class).unwrap_err(),
        "class file: constant pool entry 1 is not a class constant"
    );

    // A class whose name is looked for at itself.
    let mut no_name = header.to_vec();
    no_name.extend_from_slice(&[0, 2, 7, 0, 1, 0, 0x21, 0, 1]);
    assert_eq!(
        parse(&no_name).unwrap_err(),
        "class file: constant pool entry 1 is not a UTF-8 constant"
    );
}

#[test]
fn every_prefix_of_a_file_is_refused() {
    let bytes = class_file("com.example.Order", &[Method::new("total", "()I", &[(0, 41), (8, 42)])]);
    for n in 0..bytes.len() {
        let why = parse(&bytes[..n]).unwrap_err();
        assert!(why.contains("truncated"), "{n} of {} bytes: {why}", bytes.len());
    }
    assert!(parse(&bytes).is_ok());
}

#[test]
fn what_stands_behind_a_file_is_not_read() {
    let bytes = class_file("com.example.Order", &[Method::new("total", "()I", &[(0, 41), (8, 42)])]);
    let alone = format!("{:?}", parse(&bytes).unwrap());
    for more in [&[0u8][..], b"more", &bytes] {
        let mut longer = bytes.clone();
        longer.extend_from_slice(more);
        assert_eq!(format!("{:?}", parse(&longer).unwrap()), alone);
    }
}

#[test]
fn a_read_that_fails_stays_where_it_was() {
    let mut c = Cursor::new(&[7]);
    assert!(c.u16().is_err() && c.take(2).is_err() && c.skip(9).is_err());
    assert_eq!(c.at, 0);
    assert_eq!(c.u8().unwrap(), 7);
    assert!(c.u8().is_err());
    assert_eq!(c.at, 1);
    let mut halfway = Cursor::new(&[0xCA, 0xFE, 0xBA]);
    assert!(halfway.u32().is_err());
    assert_eq!(halfway.at, 2);
}

#[test]
fn a_name_that_is_not_utf8_is_read_with_replacements() {
    let mut bytes = class_file("Ab", &[]);
    let at = bytes.windows(2).position(|w| w == b"Ab").unwrap();
    bytes[at + 1] = 0xFF;
    assert_eq!(parse(&bytes).unwrap().this_class, "A\u{FFFD}");
}

#[test]
fn a_name_beyond_ascii_survives_the_round_trip() {
    let bytes = class_file("com.example.Reserva\u{E7}\u{E3}o", &[Method::stripped("pre\u{E7}o", "()D")]);
    let c = parse(&bytes).unwrap();
    assert_eq!(c.this_class, "com.example.Reserva\u{E7}\u{E3}o");
    assert_eq!(c.methods[0].name, "pre\u{E7}o");
}

#[test]
fn a_built_file_starts_with_the_magic_and_the_version() {
    let bytes = class_file("A", &[]);
    assert_eq!(&bytes[..10], &[0xCA, 0xFE, 0xBA, 0xBE, 0, 0, 0, 65, 0, 7]);
    let c = parse(&bytes).unwrap();
    assert_eq!(c.access_flags, 0x21);
    assert!(c.methods.is_empty());
}
