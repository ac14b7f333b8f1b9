//! Keys, signatures and what a validator makes of them.

use dns_pool::canonical::tbs;
use dns_pool::config::{LookupIpStrategy, ResolveHosts, ResolverOpts};
use dns_pool::dnssec::{delegation, dnskey, signature, signed, signer, Proof, Signer};
use dns_pool::keyset::{
    check_answer, check_delegation, keyset, keyset_queries, KeysetSignature, Validated,
};
use dns_pool::local_dns::{equal_names, Received, Turn, Worker};
use dns_pool::message::{Edns, Message, Query};
use dns_pool::name::Name;
use dns_pool::record::{Dnskey, RData, Record, RecordType, Rrsig};
use dns_pool::signed_lookup::{
    check_lookup, expected_data, expected_names, expected_proof, validating_options, SignedZone,
    ZoneFault,
};
use dns_pool::signed_responses::{SendFault, SignedResponses};

const NOW: u32 = 1_700_000_000;

fn name(text: &str) -> Name {
    Name::from_ascii(text).unwrap()
}

/// Stands for the signature of a key: everyone can make it, which does not matter here.
fn mark(key: &Dnskey, bytes: &[u8]) -> Vec<u8> {
    let mut hash: u64 = 0xcbf2_9ce4_8422_2325;
    for b in key.public_key.iter().chain(bytes) {
        hash = (hash ^ u64::from(*b)).wrapping_mul(0x100_0000_01b3);
    }
    hash.to_be_bytes().to_vec()
}

fn sign(signer: &Signer, bytes: &Vec<u8>) -> Vec<u8> {
    mark(&signer.key, bytes)
}

fn digest(bytes: &Vec<u8>) -> Vec<u8> {
    mark(&Dnskey { flags: 0, protocol: 0, algorithm: 0, public_key: vec![] }, bytes)
}

fn rrsig_of(record: &Record) -> &Rrsig {
    match &record.data {
        RData::Rrsig(rrsig) => rrsig,
        _ => panic!("no signature: {record:?}"),
    }
}

/// Whether the key made the signature of the set.
fn verifies(key: &Dnskey, set: &Vec<Record>, signature: &Record) -> bool {
    let rrsig = rrsig_of(signature);
    rrsig.key_tag == key.calculate_key_tag()
        && rrsig.sig == mark(key, &tbs(&set[0].name, rrsig, set))
}

fn signed_request(query: &Query) -> Message {
    let mut request = Message::new();
    request.header.id = 3;
    request.add_query(query.clone());
    request.edns = Some(Edns {
        rcode_high: 0,
        version: 0,
        dnssec_ok: true,
        z: 0,
        max_payload: 1232,
        options: vec![],
    });
    request
}

/// A validator that starts from one key.
struct Validator {
    server: SignedResponses,
    anchor: Dnskey,
}

impl Validator {
    fn ask(&mut self, query: &Query) -> Vec<Record> {
        match self.server.send(&signed_request(query)) {
            Ok(bytes) => {
                let response = Message::from_vec(&bytes).unwrap();
                assert_eq!(response.header.id, 3);
                assert!(response.header.authoritative && response.header.authentic_data);
                response.answers
            }
            Err(fault) => panic!("unexpected query: {fault:?}"),
        }
    }

    fn split(answers: Vec<Record>) -> (Vec<Record>, Vec<Record>) {
        answers.into_iter().partition(|record| record.record_type() != RecordType::RRSIG)
    }

    /// The keys of a zone, and whether each of them can be relied on.
    fn keys(&mut self, zone: &Name) -> Vec<(Record, bool)> {
        let answers = self.ask(&Query::query(zone.clone(), RecordType::DNSKEY));
        let (keys, signatures) = Self::split(answers);
        let key = |record: &Record| match &record.data {
            RData::Dnskey(key) => key.clone(),
            _ => panic!("no key: {record:?}"),
        };
        let mut vouched: Vec<bool> = keys.iter().map(|record| key(record) == self.anchor).collect();
        if !vouched.contains(&true) {
            let answers = self.ask(&Query::query(zone.clone(), RecordType::DS));
            let (ds, ds_signatures) = Self::split(answers);
            let parents = self.keys(&Name::root());
            let good = parents.iter().any(|(parent, reliable)| {
                *reliable && ds_signatures.iter().any(|s| verifies(&key(parent), &ds, s))
            });
            for (i, record) in keys.iter().enumerate() {
                let fitting = delegation(
                    &Signer { name: zone.clone(), key: key(record) },
                    &|bytes: &Vec<u8>| digest(bytes),
                );
                vouched[i] = good && ds.contains(&fitting);
            }
        }
        let all = keys.iter().zip(&vouched).any(|(record, vouched)| {
            *vouched && signatures.iter().any(|s| verifies(&key(record), &keys, s))
        });
        keys.into_iter().zip(vouched).map(|(record, vouched)| (record, all || vouched)).collect()
    }

    fn lookup(&mut self, query: &Query) -> Vec<Validated> {
        let zone = name("example.");
        if query.query_type == RecordType::DNSKEY {
            return self
                .keys(&zone)
                .into_iter()
                .map(|(record, reliable)| Validated {
                    record,
                    proof_found: if reliable { Proof::Secure } else { Proof::Bogus },
                })
                .collect();
        }
        let answers = self.ask(query);
        let (data, signatures) = Self::split(answers);
        let keys = self.keys(&zone);
        let good = keys.iter().any(|(record, reliable)| match &record.data {
            RData::Dnskey(key) => {
                *reliable && signatures.iter().any(|s| verifies(key, &data, s))
            }
            _ => false,
        });
        data.into_iter()
            .map(|record| Validated {
                record,
                proof_found: if good { Proof::Secure } else { Proof::Indeterminate },
            })
            .collect()
    }
}

fn validate_keyset(delegated: bool, kind: KeysetSignature, single_key: bool) {
    let zone = name("example.");
    let trusted = signer(&zone, vec![1; 64], 13);
    let untrusted = signer(&zone, vec![2; 64], 13);
    let parent = signer(&Name::root(), vec![3; 64], 13);
    let set = keyset(
        delegated,
        kind,
        single_key,
        &trusted,
        &untrusted,
        &parent,
        NOW,
        &sign,
        &digest,
    );
    assert_eq!(set.keys.len(), if single_key { 1 } else { 2 });
    assert_eq!(set.answer.data, RData::a(192, 0, 2, 1));
    assert_eq!(set.anchor, if delegated { parent.key.clone() } else { trusted.key.clone() });
    let mut validator =
        Validator { server: SignedResponses::new(set.records), anchor: set.anchor };
    for query in keyset_queries() {
        let answers = validator.lookup(&query);
        assert!(
            check_answer(kind, single_key, query.query_type, &answers),
            "{query:?}: {answers:?}"
        );
    }
    assert!(check_delegation(&validator.server.queries, delegated));
}

#[test]
fn trust_anchor_cannot_promote_attacker_signed_keys() {
    validate_keyset(false, KeysetSignature::Untrusted, false);
}

#[test]
fn ds_key_cannot_promote_attacker_signed_keys() {
    validate_keyset(true, KeysetSignature::Untrusted, false);
}

#[test]
fn trust_anchor_cannot_promote_unsigned_keys() {
    validate_keyset(false, KeysetSignature::Missing, false);
}

#[test]
fn ds_key_cannot_promote_unsigned_keys() {
    validate_keyset(true, KeysetSignature::Missing, false);
}

#[test]
fn trust_anchor_signature_must_cover_all_keys() {
    validate_keyset(false, KeysetSignature::TrustedSubset, false);
}

#[test]
fn ds_key_signature_must_cover_all_keys() {
    validate_keyset(true, KeysetSignature::TrustedSubset, false);
}

#[test]
fn trust_anchor_authenticates_key_rollover() {
    validate_keyset(false, KeysetSignature::Trusted, false);
}

#[test]
fn ds_key_authenticates_key_rollover() {
    validate_keyset(true, KeysetSignature::Trusted, false);
}

#[test]
fn independently_trusted_unsigned_key_remains_secure() {
    validate_keyset(false, KeysetSignature::Missing, true);
}

fn validated(record: &Record, proof_found: Proof) -> Validated {
    Validated { record: record.clone(), proof_found }
}

#[test]
fn promoted_keys_do_not_pass() {
    let zone = name("example.");
    let first = dnskey(&signer(&zone, vec![1; 64], 13));
    let second = dnskey(&signer(&zone, vec![2; 64], 13));
    let check = |kind: KeysetSignature, a: Proof, b: Proof| {
        check_answer(
            kind,
            false,
            RecordType::DNSKEY,
            &vec![validated(&first, a), validated(&second, b)],
        )
    };
    assert!(check(KeysetSignature::Trusted, Proof::Secure, Proof::Secure));
    assert!(!check(KeysetSignature::Trusted, Proof::Secure, Proof::Bogus));
    assert!(check(KeysetSignature::Missing, Proof::Secure, Proof::Insecure));
    assert!(!check(KeysetSignature::Missing, Proof::Secure, Proof::Secure));
    assert!(!check(KeysetSignature::Missing, Proof::Bogus, Proof::Bogus));
    // A key is missing, or is kept for too long.
    let one = vec![validated(&first, Proof::Secure)];
    assert!(!check_answer(KeysetSignature::Trusted, false, RecordType::DNSKEY, &one));
    assert!(check_answer(KeysetSignature::Trusted, true, RecordType::DNSKEY, &one));
    let mut lasting = first.clone();
    lasting.ttl = 301;
    let one = vec![validated(&lasting, Proof::Secure)];
    assert!(!check_answer(KeysetSignature::Trusted, true, RecordType::DNSKEY, &one));
    assert!(check_answer(KeysetSignature::Missing, true, RecordType::DNSKEY, &one));
    let ds = vec![Query::query(zone.clone(), RecordType::DS)];
    assert!(check_delegation(&ds, true));
    assert!(!check_delegation(&ds, false));
    assert!(check_delegation(&vec![], false));
}

#[test]
fn key_tags_are_calculated() {
    let public_key = vec![
        1, 3, 158, 138, 36, 116, 24, 227, 24, 144, 59, 33, 90, 132, 138, 207,
        213, 243, 127, 2, 107, 212, 6, 45, 178, 108, 119, 76, 105, 9, 104, 213,
        213, 109, 248, 191, 218, 145, 230, 243, 109, 154, 39, 152, 136, 244, 19, 51,
        53, 124, 94, 96, 41, 153, 13, 16, 253, 245, 102, 48, 98, 165, 18, 118,
        51, 38, 152, 10, 97, 93, 219, 241, 122, 5, 221, 252, 206, 126, 95, 179,
        171, 204, 160, 90, 49, 176, 149, 116, 82, 212, 82, 30, 131, 135, 7, 137,
        6, 49, 21, 191, 151, 246, 195, 8, 204, 245, 124, 220, 156, 231, 254, 16,
        246, 237, 27, 208, 204, 6, 96, 3, 140, 80, 220, 219, 15, 235, 150, 60,
        47, 23,
    ];
    let key = Dnskey { flags: 256, protocol: 3, algorithm: 5, public_key };
    assert_eq!(key.calculate_key_tag(), 60485);
    let empty = Dnskey { flags: 0, protocol: 0, algorithm: 0, public_key: vec![] };
    assert_eq!(empty.calculate_key_tag(), 0);
}

#[test]
fn keys_are_those_of_a_zone() {
    let signer = signer(&name("example."), vec![9, 8, 7], 13);
    assert_eq!(signer.key.flags, 257);
    assert_eq!(signer.key.protocol, 3);
    let record = dnskey(&signer);
    assert_eq!(record.name, name("example."));
    assert_eq!(record.ttl, 300);
    assert_eq!(record.data, RData::Dnskey(signer.key.clone()));
}

#[test]
fn signatures_have_their_fields() {
    let by = signer(&name("example."), vec![9, 8, 7], 13);
    let record = Record::from_rdata(name("*.www.example."), 77, RData::a(1, 2, 3, 4));
    let set = vec![record];
    let made = signature(&set, &by, NOW, &sign);
    assert_eq!(made.name, name("*.www.example."));
    assert_eq!(made.ttl, 60);
    let rrsig = rrsig_of(&made);
    assert_eq!(rrsig.type_covered, RecordType::A);
    assert_eq!(rrsig.algorithm, 13);
    assert_eq!(rrsig.num_labels, 2);
    assert_eq!(rrsig.original_ttl, 77);
    assert_eq!(rrsig.sig_expiration, NOW + 3600);
    assert_eq!(rrsig.sig_inception, NOW - 60);
    assert_eq!(rrsig.key_tag, by.key.calculate_key_tag());
    assert_eq!(rrsig.signer_name, name("example."));
    assert!(verifies(&by.key, &set, &made));
    let pair = signed(set[0].clone(), &by, NOW, &sign);
    assert_eq!(pair.len(), 2);
    assert_eq!(pair[0], set[0]);
    assert_eq!(pair[1].ttl, 77);
    assert_eq!(rrsig_of(&pair[1]).sig, rrsig.sig);
}

#[test]
fn signed_bytes_are_canonical() {
    let by = signer(&name("Example."), vec![5], 13);
    let set = vec![
        Record::from_rdata(name("A.Example."), 300, RData::a(2, 0, 0, 1)),
        Record::from_rdata(name("a.example."), 1, RData::a(1, 0, 0, 1)),
        Record::from_rdata(name("a.example."), 1, RData::Ns(name("Ns."))),
        Record::from_rdata(name("b.example."), 1, RData::a(0, 0, 0, 1)),
    ];
    let made = signature(&set, &by, 100, &sign);
    let rrsig = rrsig_of(&made);
    let tag = by.key.calculate_key_tag().to_be_bytes();
    let mut expected = vec![0, 1, 13, 2, 0, 0, 1, 44, 0, 0, 14, 116, 0, 0, 0, 40];
    expected.extend(tag);
    expected.extend(b"\x07example\x00");
    for first in [1, 2] {
        expected.extend(b"\x01a\x07example\x00\x00\x01\x00\x01\x00\x00\x01\x2c\x00\x04");
        expected.extend([first, 0, 0, 1]);
    }
    assert_eq!(tbs(&set[0].name, rrsig, &set), expected);
}

#[test]
fn the_order_of_records_is_not_signed() {
    let by = signer(&name("example."), vec![5], 13);
    let make = |last: u8| Record::from_rdata(name("a.example."), 60, RData::a(10, 0, 0, last));
    let set = vec![make(3), make(1), make(2)];
    let other = vec![make(2), make(3), make(1)];
    let made = signature(&set, &by, NOW, &sign);
    assert_eq!(signature(&other, &by, NOW, &sign), made);
    assert!(verifies(&by.key, &other, &made));
    // Other data is.
    assert!(!verifies(&by.key, &vec![make(3), make(1), make(4)], &made));
    assert!(!verifies(&by.key, &vec![make(3), make(1)], &made));
}

#[test]
fn names_in_signed_data_have_small_letters() {
    let by = signer(&name("example."), vec![5], 13);
    let make = |text: &str| {
        vec![Record::from_rdata(name("example."), 60, RData::Ns(name(text)))]
    };
    let made = signature(&make("NS.example."), &by, NOW, &sign);
    assert!(verifies(&by.key, &make("ns.EXAMPLE."), &made));
    assert!(!verifies(&by.key, &make("ns2.example."), &made));
}

#[test]
fn delegations_hold_a_digest() {
    let by = signer(&name("Example."), vec![5, 6], 13);
    let record = delegation(&by, &|bytes: &Vec<u8>| bytes.clone());
    assert_eq!(record.name, name("example."));
    assert_eq!(record.ttl, 300);
    match &record.data {
        RData::Ds(ds) => {
            assert_eq!(ds.key_tag, by.key.calculate_key_tag());
            assert_eq!(ds.algorithm, 13);
            assert_eq!(ds.digest_type, 2);
            assert_eq!(ds.digest, b"\x07example\x00\x01\x01\x03\x0d\x05\x06");
        }
        _ => panic!("no delegation: {record:?}"),
    }
}

#[test]
fn a_server_answers_with_what_matches() {
    let by = signer(&name("example."), vec![5], 13);
    let a = Record::from_rdata(name("w.example."), 60, RData::a(1, 1, 1, 1));
    let b = Record::from_rdata(name("W.example."), 60, RData::Ns(name("n.")));
    let sig_a = signature(&vec![a.clone()], &by, NOW, &sign);
    let sig_b = signature(&vec![b.clone()], &by, NOW, &sign);
    let other = Record::from_rdata(name("x.example."), 60, RData::a(1, 1, 1, 1));
    let mut server =
        SignedResponses::new(vec![sig_a.clone(), a.clone(), b.clone(), sig_b.clone(), other]);
    let query = Query::query(name("w.example."), RecordType::A);
    assert_eq!(server.answers(&query), vec![sig_a.clone(), a]);
    let bytes = server.send(&signed_request(&query)).unwrap();
    assert_eq!(Message::from_vec(&bytes).unwrap().answers.len(), 2);
    let query_b = Query::query(name("w.example."), RecordType::NS);
    assert_eq!(server.answers(&query_b), vec![b, sig_b.clone()]);
    let query_sig = Query::query(name("w.example."), RecordType::RRSIG);
    assert_eq!(server.answers(&query_sig), vec![sig_a, sig_b]);
    assert_eq!(server.queries, vec![query]);
}

#[test]
fn a_server_does_not_answer_everything() {
    let mut server = SignedResponses::new(vec![]);
    assert_eq!(server.send(&Message::new()), Err(SendFault::NoQuestion));
    let query = Query::query(name("w.example."), RecordType::A);
    let mut plain = signed_request(&query);
    plain.edns = None;
    assert_eq!(server.send(&plain), Err(SendFault::NotSigned));
    assert!(server.queries.is_empty());
    assert_eq!(server.send(&signed_request(&query)), Err(SendFault::NoAnswers));
    assert_eq!(server.queries, vec![query.clone()]);
    let long = RData::Unknown { code: 1, data: vec![1] };
    let mut server = SignedResponses::new(vec![Record::from_rdata(name("w.example."), 1, long)]);
    assert_eq!(server.send(&signed_request(&query)), Err(SendFault::Unwritable));
}

/// Looks up the addresses in a zone, through the worker that serves it.
fn signed_lookup(tampered: bool, trusted: bool) {
    let by = signer(&name("example.com."), vec![7; 64], 13);
    let zone = SignedZone::new(tampered, trusted, &by, NOW, &sign);
    let mut worker = Worker::new();
    let mut ask = |text: &str, query_type: RecordType| -> Vec<Record> {
        let request = signed_request(&Query::query(name(text), query_type));
        let datagram = Received::Datagram(request.to_vec().unwrap());
        let turn = worker.turn(datagram, false, &|m: &Message| zone.respond(m).unwrap());
        match turn {
            Turn::Reply(bytes) => {
                assert!(bytes.len() <= 1232);
                let response = Message::from_vec(&bytes).unwrap();
                assert_eq!(response.header.authentic_data, query_type != RecordType::DS);
                response.answers
            }
            other => panic!("no reply: {other:?}"),
        }
    };
    for index in 0..4 {
        let query_type = expected_data(tampered, index).record_type();
        let answers = ask("www.example.com.", query_type);
        let keys = ask("example.com.", RecordType::DNSKEY);
        let proof = if trusted {
            assert!(verifies(&by.key, &vec![keys[0].clone()], &keys[1]));
            if verifies(&by.key, &vec![answers[0].clone()], &answers[1]) {
                Proof::Secure
            } else {
                Proof::Bogus
            }
        } else {
            for text in ["example.com.", "com.", "."] {
                assert!(ask(text, RecordType::DS).is_empty());
            }
            Proof::Bogus
        };
        assert_eq!(proof, expected_proof(tampered, trusted));
        let found = vec![(answers[0].data.clone(), proof)];
        assert!(check_lookup(tampered, trusted, index, &found));
    }
    assert!(equal_names(&worker.names, &expected_names(trusted)));
}

#[test]
fn test_sec_lookup() {
    signed_lookup(false, true);
}

#[test]
fn test_sec_lookup_tampered_answers_are_bogus() {
    signed_lookup(true, true);
}

#[test]
fn test_sec_lookup_default_anchors_do_not_trust_private_key() {
    signed_lookup(false, false);
}

#[test]
fn lookups_find_just_what_is_served() {
    let v4 = RData::a(93, 184, 215, 14);
    let changed = RData::a(93, 184, 215, 15);
    assert_eq!(expected_data(false, 1), v4);
    assert_eq!(expected_data(true, 0), changed);
    assert_eq!(
        expected_data(true, 2),
        RData::aaaa(0x2606, 0x2800, 0x21f, 0xcb07, 0x6820, 0x80da, 0xaf6b, 0x8b2d)
    );
    assert!(check_lookup(false, true, 0, &vec![(v4.clone(), Proof::Secure)]));
    assert!(!check_lookup(false, true, 0, &vec![(changed, Proof::Secure)]));
    assert!(!check_lookup(false, true, 0, &vec![(v4.clone(), Proof::Bogus)]));
    assert!(!check_lookup(false, true, 2, &vec![(v4.clone(), Proof::Secure)]));
    assert!(!check_lookup(false, true, 0, &vec![]));
    assert!(!check_lookup(
        false,
        true,
        0,
        &vec![(v4.clone(), Proof::Secure), (v4, Proof::Secure)]
    ));
}

#[test]
fn the_names_that_are_asked_for() {
    let trusted = expected_names(true);
    assert_eq!(trusted.len(), 8);
    assert_eq!(trusted[6..], [name("www.example.com."), name("example.com.")]);
    let other = expected_names(false);
    assert_eq!(other.len(), 20);
    assert_eq!(
        other[5..10],
        [
            name("www.example.com."),
            name("example.com."),
            name("example.com."),
            name("com."),
            name("."),
        ]
    );
}

#[test]
fn a_zone_does_not_answer_everything() {
    let by = signer(&name("example.com."), vec![7; 64], 13);
    let trusted = SignedZone::new(false, true, &by, NOW, &sign);
    let other = SignedZone::new(false, false, &by, NOW, &sign);
    let ask = |zone: &SignedZone, text: &str, query_type: RecordType| {
        zone.respond(&signed_request(&Query::query(name(text), query_type))).err()
    };
    assert_eq!(ask(&trusted, "example.com.", RecordType::DS), Some(ZoneFault::OtherType));
    assert_eq!(ask(&other, "example.com.", RecordType::DS), None);
    assert_eq!(ask(&other, "www.example.com.", RecordType::DS), Some(ZoneFault::OtherName));
    assert_eq!(ask(&other, "example.com.", RecordType::A), Some(ZoneFault::OtherName));
    assert_eq!(ask(&other, "example.com.", RecordType::AAAA), Some(ZoneFault::OtherName));
    assert_eq!(ask(&other, "www.example.com.", RecordType::DNSKEY), Some(ZoneFault::OtherName));
    assert_eq!(ask(&other, "www.example.com.", RecordType::NS), Some(ZoneFault::OtherType));
    assert_eq!(trusted.respond(&Message::new()).err(), Some(ZoneFault::NoQuestion));
    let query = Query::query(name("www.example.com."), RecordType::A);
    let mut plain = Message::new();
    plain.add_query(query.clone());
    assert_eq!(trusted.respond(&plain).err(), Some(ZoneFault::NotSigned));
    // A key that does not fit into what the requester takes.
    let big = SignedZone::new(false, true, &signer(&name("example.com."), vec![7; 2000], 8), NOW, &sign);
    assert_eq!(ask(&big, "example.com.", RecordType::DNSKEY), Some(ZoneFault::TooLong));
}

#[test]
fn options_ask_for_validation() {
    let expected = ResolverOpts {
        validate: true,
        edns0: true,
        cache_size: 0,
        attempts: 0,
        timeout: 2000,
        use_hosts_file: ResolveHosts::Never,
        ip_strategy: LookupIpStrategy::Ipv4Only,
        ..ResolverOpts::default()
    };
    assert_eq!(validating_options(), expected);
}
