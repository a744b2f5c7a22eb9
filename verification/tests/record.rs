use dns_codec::{Class, ResourceRecord, Type};

fn record(name: &str) -> ResourceRecord {
    ResourceRecord {
        name: name.to_string(),
        rtype: Type::A,
        rclass: Class::IN,
        ttl: 60,
        rdlength: 4,
        rdata: vec![1, 2, 3, 4],
    }
}

const TAIL: [u8; 14] = [0, 1, 0, 1, 0, 0, 0, 60, 0, 4, 1, 2, 3, 4];

fn with_tail(name: &[u8]) -> Vec<u8> {
    let mut bytes = name.to_vec();
    bytes.extend_from_slice(&TAIL);
    bytes
}

#[test]
fn encodes_a_record_for_a_b() {
    assert_eq!(
        record("a.b").to_bytes(),
        vec![0x01, 0x61, 0x01, 0x62, 0x00, 0, 1, 0, 1, 0, 0, 0, 60, 0, 4, 1, 2, 3, 4]
    );
}

#[test]
fn name_is_cut_at_every_dot() {
    assert_eq!(record("").to_bytes(), with_tail(&[0, 0]));
    assert_eq!(record(".").to_bytes(), with_tail(&[0, 0, 0]));
    assert_eq!(record("a").to_bytes(), with_tail(&[1, 0x61, 0]));
    assert_eq!(record("a.").to_bytes(), with_tail(&[1, 0x61, 0, 0]));
    assert_eq!(record(".a").to_bytes(), with_tail(&[0, 1, 0x61, 0]));
    assert_eq!(record("a..b").to_bytes(), with_tail(&[1, 0x61, 0, 1, 0x62, 0]));
    assert_eq!(record("ab.cde").to_bytes(), with_tail(&[2, 0x61, 0x62, 3, 0x63, 0x64, 0x65, 0]));
}

#[test]
fn name_is_cut_like_text() {
    for name in ["", ".", "a.b", "..", "www.rust-trends.com", "m\u{fc}nchen.de.", "\u{1f980}.\u{2e2e}.x"] {
        let mut expected = Vec::new();
        for part in name.split('.') {
            expected.push(part.len() as u8);
            expected.extend_from_slice(part.as_bytes());
        }
        expected.push(0);
        assert_eq!(record(name).to_bytes(), with_tail(&expected));
    }
}

#[test]
fn labels_count_bytes_not_characters() {
    assert_eq!(record("\u{e9}.b").to_bytes(), with_tail(&[2, 0xc3, 0xa9, 1, 0x62, 0]));
}

#[test]
fn long_label_has_its_length_reduced_to_one_byte() {
    let name = "z".repeat(258);
    let bytes = record(&name).to_bytes();
    assert_eq!(bytes[0], 2);
    assert_eq!(bytes.len(), 1 + 258 + 1 + TAIL.len());
    assert_eq!(bytes[1..259], [0x7a; 258]);
    assert_eq!(bytes[259..], with_tail(&[0])[..]);
}

#[test]
fn fields_follow_the_name_in_order() {
    let r = ResourceRecord {
        name: "x".to_string(),
        rtype: Type::MX,
        rclass: Class::CH,
        ttl: 0x0102_0304,
        rdlength: 0x0506,
        rdata: vec![0xaa, 0xbb],
    };
    assert_eq!(
        r.to_bytes(),
        vec![1, 0x78, 0, 0, 15, 0, 3, 1, 2, 3, 4, 5, 6, 0xaa, 0xbb]
    );
}

#[test]
fn data_length_is_written_as_it_stands() {
    let r = ResourceRecord { rdlength: 9, rdata: vec![7], ..record("a") };
    assert_eq!(r.to_bytes(), vec![1, 0x61, 0, 0, 1, 0, 1, 0, 0, 0, 60, 0, 9, 7]);
    let r = ResourceRecord { rdlength: 0, rdata: vec![], ttl: u32::MAX, ..record("a") };
    assert_eq!(r.to_bytes(), vec![1, 0x61, 0, 0, 1, 0, 1, 255, 255, 255, 255, 0, 0]);
}

#[test]
fn default_record_is_the_fixed_answer() {
    let r = ResourceRecord::default();
    assert_eq!(r.name, "www.rust-trends.com");
    assert_eq!(r.rtype, Type::A);
    assert_eq!(r.rclass, Class::IN);
    assert_eq!(r.ttl, 60);
    assert_eq!(r.rdlength, 4);
    assert_eq!(r.rdata, vec![172, 67, 221, 148]);
    assert_eq!(
        r.to_bytes(),
        vec![
            3, 0x77, 0x77, 0x77, 11, 0x72, 0x75, 0x73, 0x74, 0x2d, 0x74, 0x72, 0x65, 0x6e, 0x64,
            0x73, 3, 0x63, 0x6f, 0x6d, 0, 0, 1, 0, 1, 0, 0, 0, 60, 0, 4, 172, 67, 221, 148
        ]
    );
}

#[test]
fn record_clone_is_equal() {
    let r = record("a.b");
    assert_eq!(r.clone(), r);
    assert_eq!(r.clone().to_bytes(), r.to_bytes());
}
