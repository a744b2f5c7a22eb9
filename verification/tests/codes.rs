use dns_codec::{Class, ErrorCondition, Type};

const TYPES: [(u16, Type); 20] = [
    (1, Type::A),
    (2, Type::NS),
    (3, Type::MD),
    (4, Type::MF),
    (5, Type::CNAME),
    (6, Type::SOA),
    (7, Type::MB),
    (8, Type::MG),
    (9, Type::MR),
    (10, Type::NULL),
    (11, Type::WKS),
    (12, Type::PTR),
    (13, Type::HINFO),
    (14, Type::MINFO),
    (15, Type::MX),
    (16, Type::TXT),
    (252, Type::AXFR),
    (253, Type::MAILB),
    (254, Type::MAILA),
    (255, Type::_ALL_),
];

const CLASSES: [(u16, Class); 5] =
    [(1, Class::IN), (2, Class::CS), (3, Class::CH), (4, Class::HS), (255, Class::_ALL_)];

fn unknown_type(n: u16) -> Result<Type, ErrorCondition> {
    Err(ErrorCondition::DeserializationErr(format!("Unknown Question Type {}", n)))
}

fn unknown_class(n: u16) -> Result<Class, ErrorCondition> {
    Err(ErrorCondition::DeserializationErr(format!("Unknown Question Class {}", n)))
}

#[test]
fn every_type_has_its_code() {
    for (code, t) in TYPES {
        assert_eq!(t.to_code(), code);
        assert_eq!(t.to_bytes(), code.to_be_bytes());
        assert_eq!(Type::of_code(code), Some(t));
        assert_eq!(Type::from_bytes(&code.to_be_bytes()), Ok(t));
    }
}

#[test]
fn every_class_has_its_code() {
    for (code, c) in CLASSES {
        assert_eq!(c.to_code(), code);
        assert_eq!(c.to_bytes(), code.to_be_bytes());
        assert_eq!(Class::of_code(code), Some(c));
        assert_eq!(Class::from_bytes(&code.to_be_bytes()), Ok(c));
    }
}

#[test]
fn every_other_type_code_is_refused_by_name() {
    for n in 0..=u16::MAX {
        if TYPES.iter().any(|(code, _)| *code == n) {
            continue;
        }
        assert_eq!(Type::of_code(n), None);
        assert_eq!(Type::from_bytes(&n.to_be_bytes()), unknown_type(n));
    }
}

#[test]
fn every_other_class_code_is_refused_by_name() {
    for n in 0..=u16::MAX {
        if CLASSES.iter().any(|(code, _)| *code == n) {
            continue;
        }
        assert_eq!(Class::of_code(n), None);
        assert_eq!(Class::from_bytes(&n.to_be_bytes()), unknown_class(n));
    }
}

#[test]
fn unknown_codes_are_written_in_decimal() {
    assert_eq!(
        Type::from_bytes(&[0, 0]),
        Err(ErrorCondition::DeserializationErr("Unknown Question Type 0".to_string()))
    );
    assert_eq!(
        Type::from_bytes(&[0, 17]),
        Err(ErrorCondition::DeserializationErr("Unknown Question Type 17".to_string()))
    );
    assert_eq!(
        Type::from_bytes(&[1, 0]),
        Err(ErrorCondition::DeserializationErr("Unknown Question Type 256".to_string()))
    );
    assert_eq!(
        Type::from_bytes(&[0x27, 0x10]),
        Err(ErrorCondition::DeserializationErr("Unknown Question Type 10000".to_string()))
    );
    assert_eq!(
        Type::from_bytes(&[0xff, 0xff]),
        Err(ErrorCondition::DeserializationErr("Unknown Question Type 65535".to_string()))
    );
    assert_eq!(
        Class::from_bytes(&[0, 5]),
        Err(ErrorCondition::DeserializationErr("Unknown Question Class 5".to_string()))
    );
    assert_eq!(
        Class::from_bytes(&[0x03, 0xe9]),
        Err(ErrorCondition::DeserializationErr("Unknown Question Class 1001".to_string()))
    );
}

#[test]
fn codes_are_big_endian() {
    assert_eq!(Type::from_bytes(&[0, 1]), Ok(Type::A));
    assert_eq!(Type::from_bytes(&[1, 0]), unknown_type(256));
    assert_eq!(Class::from_bytes(&[0, 1]), Ok(Class::IN));
    assert_eq!(Class::from_bytes(&[1, 0]), unknown_class(256));
    assert_eq!(Type::TXT.to_bytes(), [0, 16]);
    assert_eq!(Type::AXFR.to_bytes(), [0, 252]);
    assert_eq!(Class::_ALL_.to_bytes(), [0, 255]);
}

#[test]
fn codes_ignore_what_follows_them() {
    assert_eq!(Type::from_bytes(&[0, 15, 0xff, 0xff]), Ok(Type::MX));
    assert_eq!(Class::from_bytes(&[0, 3, 0xff]), Ok(Class::CH));
}

#[test]
fn a_code_needs_two_bytes() {
    let short = ErrorCondition::DeserializationErr(
        "Buffer length is less than code length".to_string(),
    );
    assert_eq!(Type::from_bytes(&[]), Err(ErrorCondition::DeserializationErr(
        "Buffer length is less than code length".to_string(),
    )));
    assert_eq!(Type::from_bytes(&[1]).unwrap_err(), short);
    assert_eq!(Class::from_bytes(&[]).unwrap_err(), short);
    assert_eq!(Class::from_bytes(&[1]).unwrap_err(), short);
}

#[test]
fn every_type_is_described() {
    let expected = [
        "a host address",
        "an authoritative name server",
        "a mail destination (Obsolete - use MX)",
        "a mail forwarder (Obsolete - use MX)",
        "the canonical name for an alias",
        "marks the start of a zone of authority",
        "a mailbox domain name (EXPERIMENTAL)",
        "a mail group member (EXPERIMENTAL)",
        "a mail rename domain name (EXPERIMENTAL)",
        "a null RR (EXPERIMENTAL)",
        "a well known service description",
        "a domain name pointer",
        "host information",
        "mailbox or mail list information",
        "mail exchange",
        "text strings",
        "A request for a transfer of an entire zone",
        "A request for mailbox-related records (MB, MG or MR)",
        "A request for mail agent RRs (Obsolete - see MX)",
        "A request for all records",
    ];
    for (i, (_, t)) in TYPES.iter().enumerate() {
        assert_eq!(t.description(), expected[i]);
    }
}
