use dns_codec::{Class, ErrorCondition, Label, Question, Type};

fn label(text: &str) -> Label {
    Label::new(text.as_bytes()).unwrap()
}

fn www_example_com() -> Question {
    Question {
        name: vec![label("www"), label("example"), label("com")],
        qtype: Type::A,
        qclass: Class::IN,
    }
}

const WWW_EXAMPLE_COM: [u8; 21] = [
    0x03, 0x77, 0x77, 0x77, 0x07, 0x65, 0x78, 0x61, 0x6d, 0x70, 0x6c, 0x65, 0x03, 0x63, 0x6f,
    0x6d, 0x00, 0x00, 0x01, 0x00, 0x01,
];

fn overrun() -> ErrorCondition {
    ErrorCondition::DeserializationErr("Name runs past the end of the buffer".to_string())
}

fn short_code() -> ErrorCondition {
    ErrorCondition::DeserializationErr("Buffer length is less than code length".to_string())
}

#[test]
fn label_keeps_its_text() {
    let l = Label::new(b"example").unwrap();
    assert_eq!(l.as_str(), "example");
    assert_eq!(l.len(), 7);
    let l = Label::new("z\u{fc}rich".as_bytes()).unwrap();
    assert_eq!(l.as_str(), "z\u{fc}rich");
    assert_eq!(l.len(), 7);
    let l = Label::new(&[]).unwrap();
    assert_eq!(l.as_str(), "");
    assert_eq!(l.len(), 0);
}

#[test]
fn label_refuses_what_is_not_text() {
    assert_eq!(Label::new(&[0xff]), Err(ErrorCondition::InvalidLabel));
    assert_eq!(Label::new(&[0x61, 0xc3]), Err(ErrorCondition::InvalidLabel));
    assert_eq!(Label::new(&[0xc0, 0x80]), Err(ErrorCondition::InvalidLabel));
    assert_eq!(Label::new(&[0xed, 0xa0, 0x80]), Err(ErrorCondition::InvalidLabel));
    assert_eq!(Label::new(&[0x80]), Err(ErrorCondition::InvalidLabel));
}

#[test]
fn label_clone_is_equal() {
    let l = label("example");
    assert_eq!(l.clone(), l);
    assert_eq!(l.clone().as_str(), "example");
}

#[test]
fn encodes_www_example_com() {
    assert_eq!(www_example_com().to_bytes(), WWW_EXAMPLE_COM.to_vec());
}

#[test]
fn decodes_www_example_com() {
    let q = Question::from_bytes(&WWW_EXAMPLE_COM).unwrap();
    assert_eq!(q.name.len(), 3);
    assert_eq!(q.name[0].as_str(), "www");
    assert_eq!(q.name[1].as_str(), "example");
    assert_eq!(q.name[2].as_str(), "com");
    assert_eq!(q.qtype, Type::A);
    assert_eq!(q.qclass, Class::IN);
    assert_eq!(q, www_example_com());
}

#[test]
fn question_survives_a_round_trip() {
    let longest = "x".repeat(255);
    let questions = [
        www_example_com(),
        Question { name: vec![], qtype: Type::NS, qclass: Class::CH },
        Question { name: vec![label("a")], qtype: Type::_ALL_, qclass: Class::_ALL_ },
        Question {
            name: vec![label(&longest), label("m\u{fc}nchen"), label("\u{1f980}")],
            qtype: Type::TXT,
            qclass: Class::HS,
        },
    ];
    for q in questions {
        assert_eq!(Question::from_bytes(&q.to_bytes()), Ok(q));
    }
}

#[test]
fn decoded_question_encodes_to_the_bytes_it_came_from() {
    let mut bytes = WWW_EXAMPLE_COM.to_vec();
    bytes.extend_from_slice(&[0xc0, 0x0c, 0x00]);
    let q = Question::from_bytes(&bytes).unwrap();
    assert_eq!(q, www_example_com());
    assert_eq!(q.to_bytes(), WWW_EXAMPLE_COM.to_vec());
}

#[test]
fn root_name_is_one_zero_byte() {
    let q = Question { name: vec![], qtype: Type::SOA, qclass: Class::IN };
    assert_eq!(q.to_bytes(), vec![0, 0, 6, 0, 1]);
    assert_eq!(Question::from_bytes(&[0, 0, 6, 0, 1]), Ok(q));
}

#[test]
fn name_without_its_closing_byte_is_refused() {
    assert_eq!(Question::from_bytes(&WWW_EXAMPLE_COM[..16]), Err(overrun()));
    assert_eq!(Question::from_bytes(&[]), Err(overrun()));
    assert_eq!(Question::from_bytes(&[1, 0x61]), Err(overrun()));
}

#[test]
fn label_longer_than_the_buffer_is_refused() {
    assert_eq!(Question::from_bytes(&[5, 0x61, 0x62]), Err(overrun()));
    assert_eq!(Question::from_bytes(&[3, 0x77, 0x77, 0x77, 9, 0x65, 0, 0, 1, 0, 1]), Err(overrun()));
    assert_eq!(Question::from_bytes(&[1]), Err(overrun()));
    assert_eq!(Question::from_bytes(&[0xc0, 0x0c, 0, 1, 0, 1]), Err(overrun()));
    assert_eq!(Question::from_bytes(&[255]), Err(overrun()));
}

#[test]
fn label_that_is_not_text_is_refused() {
    assert_eq!(
        Question::from_bytes(&[2, 0xff, 0xfe, 0, 0, 1, 0, 1]),
        Err(ErrorCondition::InvalidLabel)
    );
    assert_eq!(
        Question::from_bytes(&[1, 0x61, 1, 0x80, 0, 0, 1, 0, 1]),
        Err(ErrorCondition::InvalidLabel)
    );
}

#[test]
fn the_first_fault_decides_the_error() {
    assert_eq!(Question::from_bytes(&[1, 0xff, 9, 0x61]), Err(ErrorCondition::InvalidLabel));
    assert_eq!(Question::from_bytes(&[1, 0x61, 9, 0xff]), Err(overrun()));
    assert_eq!(
        Question::from_bytes(&[1, 0x61, 0, 0, 99, 0, 99]),
        Err(ErrorCondition::DeserializationErr("Unknown Question Type 99".to_string()))
    );
    assert_eq!(
        Question::from_bytes(&[1, 0x61, 0, 0, 99]),
        Err(ErrorCondition::DeserializationErr("Unknown Question Type 99".to_string()))
    );
}

#[test]
fn missing_type_or_class_is_refused() {
    assert_eq!(Question::from_bytes(&WWW_EXAMPLE_COM[..17]), Err(short_code()));
    assert_eq!(Question::from_bytes(&WWW_EXAMPLE_COM[..18]), Err(short_code()));
    assert_eq!(Question::from_bytes(&WWW_EXAMPLE_COM[..19]), Err(short_code()));
    assert_eq!(Question::from_bytes(&WWW_EXAMPLE_COM[..20]), Err(short_code()));
    assert_eq!(Question::from_bytes(&[0]), Err(short_code()));
}

#[test]
fn unknown_type_or_class_is_refused() {
    let mut bytes = WWW_EXAMPLE_COM;
    bytes[18] = 17;
    assert_eq!(
        Question::from_bytes(&bytes),
        Err(ErrorCondition::DeserializationErr("Unknown Question Type 17".to_string()))
    );
    let mut bytes = WWW_EXAMPLE_COM;
    bytes[19] = 1;
    assert_eq!(
        Question::from_bytes(&bytes),
        Err(ErrorCondition::DeserializationErr("Unknown Question Class 257".to_string()))
    );
}

#[test]
fn class_for_all_records_decodes() {
    let mut bytes = WWW_EXAMPLE_COM;
    bytes[20] = 255;
    assert_eq!(Question::from_bytes(&bytes).unwrap().qclass, Class::_ALL_);
}

#[test]
fn length_byte_is_the_length_reduced_to_one_byte() {
    let q = Question { name: vec![label(&"y".repeat(255))], qtype: Type::A, qclass: Class::IN };
    let bytes = q.to_bytes();
    assert_eq!(bytes.len(), 1 + 255 + 1 + 4);
    assert_eq!(bytes[0], 255);
    let q = Question { name: vec![label(&"y".repeat(256))], qtype: Type::A, qclass: Class::IN };
    let bytes = q.to_bytes();
    assert_eq!(bytes.len(), 1 + 256 + 1 + 4);
    assert_eq!(bytes[0], 0);
    assert_eq!(bytes[1..257], [0x79; 256]);
    let q = Question { name: vec![label(&"y".repeat(300))], qtype: Type::A, qclass: Class::IN };
    assert_eq!(q.to_bytes()[0], 44);
}

#[test]
fn empty_label_does_not_survive_a_round_trip() {
    let q = Question { name: vec![label(""), label("a")], qtype: Type::A, qclass: Class::IN };
    let bytes = q.to_bytes();
    assert_eq!(bytes, vec![0, 1, 0x61, 0, 0, 1, 0, 1]);
    assert_ne!(Question::from_bytes(&bytes), Ok(q));
}

#[test]
fn question_clone_is_equal() {
    let q = www_example_com();
    let c = q.clone();
    assert_eq!(c, q);
    assert_eq!(c.to_bytes(), WWW_EXAMPLE_COM.to_vec());
}
