//! Names, records and messages, and the bytes that stand for them.

use dns_pool::message::{Edns, Message, MessageType, Query};
use dns_pool::name::Name;
use dns_pool::record::{Dnskey, Ds, RData, Record, RecordType, Rrsig, Soa};
use dns_pool::replies::{echo, open_request, RequestFault};

fn name(text: &str) -> Name {
    Name::from_ascii(text).unwrap()
}

fn aaaa() -> Record {
    Record::from_rdata(name("www.example.com."), 60, RData::aaaa(0x2001, 0xdb8, 0, 0, 0, 0, 0, 1))
}

#[test]
fn aaaa_data_and_owned_record_report_aaaa() {
    let record = aaaa();
    assert_eq!(record.data.record_type(), RecordType::AAAA);
    assert_eq!(record.record_type(), RecordType::AAAA);
}

#[test]
fn aaaa_typed_record_round_trips() {
    let record = aaaa();
    let bytes = record.to_bytes().unwrap();
    let decoded = Record::from_bytes(&bytes).expect("an AAAA record is a valid record");
    assert_eq!(decoded, record);
}

#[test]
fn a_record_type_and_wire_format_are_unchanged() {
    let record = Record::from_rdata(name("www.example.com."), 60, RData::a(192, 0, 2, 1));
    assert_eq!(record.record_type(), RecordType::A);
    let bytes = record.to_bytes().unwrap();
    assert_eq!(
        bytes,
        b"\x03www\x07example\x03com\x00\x00\x01\x00\x01\x00\x00\x00\x3c\x00\x04\xc0\x00\x02\x01"
    );
    assert_eq!(Record::from_bytes(&bytes).unwrap(), record);
}

#[test]
fn names_are_spelled_label_by_label() {
    assert_eq!(name("www.example.com.").labels, vec![b"www".to_vec(), b"example".to_vec(), b"com".to_vec()]);
    assert_eq!(name("www.example.com"), name("www.example.com."));
    assert!(name(".").labels.is_empty());
    assert!(name("").labels.is_empty());
    assert!(Name::from_ascii("a..b").is_none());
    assert!(Name::from_ascii(".a").is_none());
    assert!(Name::from_ascii("a b").is_none());
    assert!(Name::from_ascii("a\\046b").is_none());
}

#[test]
fn names_have_bounds() {
    let longest = "a".repeat(63);
    assert!(Name::from_ascii(&longest).is_some());
    assert!(Name::from_ascii(&"a".repeat(64)).is_none());
    let full = format!("{longest}.{longest}.{longest}.{}", "b".repeat(61));
    assert!(Name::from_ascii(&full).is_some());
    let over = format!("{longest}.{longest}.{longest}.{}", "b".repeat(62));
    assert!(Name::from_ascii(&over).is_none());
}

#[test]
fn names_are_compared_without_case() {
    let a = name("WWW.Example.com.");
    let b = name("www.example.COM.");
    let c = name("www.EXAMPLE.com.");
    assert_eq!(a, a);
    assert!(a == b && b == a);
    assert!(b == c && a == c);
    assert!(!a.eq_case(&b));
    assert!(a.to_lowercase().eq_case(&b.to_lowercase()));
    assert_ne!(a, name("www.example.org."));
    assert_ne!(a, name("example.com."));
    assert_ne!(name("["), name("{"));
}

#[test]
fn a_leading_asterisk_is_not_counted() {
    assert_eq!(name("*.example.com.").num_labels(), 2);
    assert_eq!(name("a.example.com.").num_labels(), 3);
    assert_eq!(name("a.*.com.").num_labels(), 3);
    assert_eq!(Name::root().num_labels(), 0);
}

#[test]
fn types_have_their_codes() {
    for (t, code) in [
        (RecordType::A, 1),
        (RecordType::NS, 2),
        (RecordType::CNAME, 5),
        (RecordType::SOA, 6),
        (RecordType::PTR, 12),
        (RecordType::AAAA, 28),
        (RecordType::OPT, 41),
        (RecordType::DS, 43),
        (RecordType::RRSIG, 46),
        (RecordType::DNSKEY, 48),
        (RecordType::Unknown(99), 99),
    ] {
        assert_eq!(t.code(), code);
        assert_eq!(RecordType::from_code(code), t);
    }
}

fn full_message() -> Message {
    let mut m = Message::new();
    m.header.id = 0xbeef;
    m.header.message_type = MessageType::Response;
    m.header.op_code = 5;
    m.header.authoritative = true;
    m.header.truncated = true;
    m.header.recursion_desired = true;
    m.header.recursion_available = true;
    m.header.authentic_data = true;
    m.header.checking_disabled = true;
    m.header.response_code = 3;
    m.add_query(Query::query(name("www.example.com."), RecordType::AAAA));
    m.add_query(Query::query(Name::root(), RecordType::Unknown(255)));
    m.add_answer(aaaa());
    m.add_answer(Record::from_rdata(name("a."), 1, RData::Ns(name("b.a."))));
    m.add_answer(Record::from_rdata(name("a."), 1, RData::Cname(name("c.a."))));
    m.add_answer(Record::from_rdata(name("a."), 1, RData::Ptr(Name::root())));
    m.add_name_server(Record::from_rdata(
        name("example.com."),
        60,
        RData::Soa(Soa {
            mname: name("ns.example.com."),
            rname: name("hostmaster.example.com."),
            serial: 1,
            refresh: 2,
            retry: 3,
            expire: 4,
            minimum: 5,
        }),
    ));
    m.additionals.push(Record::from_rdata(
        name("k."),
        u32::MAX,
        RData::Dnskey(Dnskey { flags: 257, protocol: 3, algorithm: 13, public_key: vec![1, 2, 3] }),
    ));
    m.additionals.push(Record::from_rdata(
        name("k."),
        0,
        RData::Ds(Ds { key_tag: 7, algorithm: 13, digest_type: 2, digest: vec![9; 32] }),
    ));
    m.additionals.push(Record::from_rdata(
        name("k."),
        0,
        RData::Rrsig(Rrsig {
            type_covered: RecordType::DNSKEY,
            algorithm: 13,
            num_labels: 1,
            original_ttl: 60,
            sig_expiration: 70,
            sig_inception: 50,
            key_tag: 7,
            signer_name: name("k."),
            sig: vec![4; 64],
        }),
    ));
    m.additionals.push(Record::from_rdata(
        name("t."),
        0,
        RData::Unknown { code: 16, data: vec![1, 65] },
    ));
    m.additionals.push(Record::from_rdata(name("e."), 0, RData::Empty(RecordType::A)));
    m.edns = Some(Edns {
        rcode_high: 1,
        version: 0,
        dnssec_ok: true,
        z: 5,
        max_payload: 1232,
        options: vec![0, 10, 0, 0],
    });
    m
}

#[test]
fn messages_are_read_back() {
    let m = full_message();
    let mut bytes = m.to_vec().unwrap();
    assert_eq!(Message::from_vec(&bytes).unwrap(), m);
    // What stands behind the message counts for nothing.
    bytes.extend([1, 2, 3]);
    assert_eq!(Message::from_vec(&bytes).unwrap(), m);
}

#[test]
fn different_messages_have_different_bytes() {
    let m = full_message();
    let mut other = full_message();
    other.header.id = 0xbeee;
    assert_ne!(m.to_vec().unwrap(), other.to_vec().unwrap());
    let mut other = full_message();
    other.answers[0].ttl = 61;
    assert_ne!(m.to_vec().unwrap(), other.to_vec().unwrap());
}

#[test]
fn a_query_has_these_bytes() {
    let mut m = Message::new();
    m.header.id = 0x1234;
    m.header.recursion_desired = true;
    m.add_query(Query::query(name("www.example.com."), RecordType::A));
    assert_eq!(
        m.to_vec().unwrap(),
        b"\x12\x34\x01\x00\x00\x01\x00\x00\x00\x00\x00\x00\x03www\x07example\x03com\x00\x00\x01\x00\x01"
    );
}

#[test]
fn shortened_names_are_read() {
    // The owner of the answer points to the question.
    let bytes = b"\x00\x01\x80\x00\x00\x01\x00\x01\x00\x00\x00\x00\
        \x03www\x07example\x03com\x00\x00\x01\x00\x01\
        \xc0\x0c\x00\x01\x00\x01\x00\x00\x00\x3c\x00\x04\x5d\xb8\xd7\x0e";
    let m = Message::from_vec(bytes).unwrap();
    assert_eq!(m.answers[0].name, name("www.example.com."));
    assert_eq!(m.answers[0].data, RData::a(93, 184, 215, 14));
    // Written out in full, it is read as the same message.
    let written = m.to_vec().unwrap();
    assert_eq!(Message::from_vec(&written).unwrap(), m);
    assert_eq!(echo(bytes), Some(written));
}

#[test]
fn pointers_must_point_back() {
    let front = b"\x00\x01\x00\x00\x00\x01\x00\x00\x00\x00\x00\x00";
    for target in [b"\xc0\x0c", b"\xc0\x0e", b"\xc0\x20"] {
        let mut bytes = front.to_vec();
        bytes.extend(target);
        bytes.extend(b"\x00\x01\x00\x01\x00\x00");
        assert!(Message::from_vec(&bytes).is_none());
    }
}

#[test]
fn broken_messages_are_not_read() {
    let bytes = full_message().to_vec().unwrap();
    for end in 0..bytes.len() {
        assert!(Message::from_vec(&bytes[..end]).is_none());
    }
    assert!(Message::from_vec(&[0; 11]).is_none());
    assert_eq!(Message::from_vec(&[0; 12]).unwrap(), Message::new());
}

#[test]
fn options_come_once_and_under_the_root() {
    let mut m = Message::new();
    m.edns = full_message().edns;
    let once = m.to_vec().unwrap();
    let mut twice = once.clone();
    twice.extend_from_slice(&once[12..]);
    twice[11] = 2;
    assert!(Message::from_vec(&once).is_some());
    assert!(Message::from_vec(&twice).is_none());
    // A payload of less than 512 bytes is none.
    let mut small = once.clone();
    small[15] = 0;
    small[16] = 100;
    assert_eq!(Message::from_vec(&small).unwrap().max_payload(), 512);
}

#[test]
fn the_payload_is_at_least_512() {
    let mut m = Message::new();
    assert_eq!(m.max_payload(), 512);
    m.edns = full_message().edns;
    assert_eq!(m.max_payload(), 1232);
    m.edns.as_mut().unwrap().max_payload = 100;
    assert_eq!(m.max_payload(), 512);
}

#[test]
fn what_the_format_cannot_carry_is_not_written() {
    let mut m = Message::new();
    m.header.op_code = 16;
    assert!(m.to_vec().is_none());
    let mut m = Message::new();
    m.add_query(Query::query(Name { labels: vec![vec![1; 64]] }, RecordType::A));
    assert!(m.to_vec().is_none());
    let mut m = Message::new();
    m.add_query(Query::query(Name::root(), RecordType::Unknown(1)));
    assert!(m.to_vec().is_none());
    let mut m = Message::new();
    m.add_answer(Record::from_rdata(
        Name::root(),
        0,
        RData::Unknown { code: 16, data: vec![0; 65536] },
    ));
    assert!(m.to_vec().is_none());
    let mut m = Message::new();
    for _ in 0..2 {
        m.add_answer(Record::from_rdata(
            Name::root(),
            0,
            RData::Unknown { code: 16, data: vec![0; 40000] },
        ));
    }
    assert!(m.to_vec().is_none());
    assert!(echo(&[1]).is_none());
}

#[test]
fn requests_are_refused_for_what_is_wrong_with_them() {
    let query = Query::query(name("www.example.com."), RecordType::A);
    let mut m = Message::new();
    m.header.id = 77;
    m.add_query(Query::query(name("WWW.example.com."), RecordType::A));
    assert_eq!(open_request(&m.to_vec().unwrap(), &query, true), Ok(77));
    assert_eq!(open_request(&[0], &query, true), Err(RequestFault::Unreadable));
    m.header.op_code = 4;
    assert_eq!(open_request(&m.to_vec().unwrap(), &query, true), Err(RequestFault::NotStandard));
    assert_eq!(open_request(&m.to_vec().unwrap(), &query, false), Ok(77));
    m.header.message_type = MessageType::Response;
    assert_eq!(open_request(&m.to_vec().unwrap(), &query, false), Err(RequestFault::NotAQuery));
    let mut m = Message::new();
    assert_eq!(open_request(&m.to_vec().unwrap(), &query, true), Err(RequestFault::OtherQuestions));
    m.add_query(Query::query(name("www.example.com."), RecordType::AAAA));
    assert_eq!(open_request(&m.to_vec().unwrap(), &query, true), Err(RequestFault::OtherQuestions));
    let mut m = Message::new();
    m.add_query(query.clone());
    m.add_query(query.clone());
    assert_eq!(open_request(&m.to_vec().unwrap(), &query, true), Err(RequestFault::OtherQuestions));
    let mut m = Message::new();
    m.add_query(query.clone());
    m.queries[0].query_class = 3;
    assert_eq!(open_request(&m.to_vec().unwrap(), &query, true), Err(RequestFault::OtherQuestions));
}
