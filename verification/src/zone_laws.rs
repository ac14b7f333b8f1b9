//! What the signed zones serve, and how what was validated of them is judged.

use vstd::prelude::*;

use crate::dnssec::{key_record, signed_by, vouches, Proof, Signer, SignerView};
use crate::keyset::{
    answer_signed, answer_valid, asked_for_delegation, delegated_by, keys_signed, of_type,
    zone_answer, zone_keys, KeysetSignature, ValidatedView,
};
use crate::local_name_laws::{com, example, law_local_names_in_bytes, www};
use crate::message::{MessageType, MessageView, QueryView};
use crate::name::lower_labels;
use crate::name_laws::law_same_names_are_the_same_in_small_letters;
use crate::record::{data_type, RData, RDataView, RecordType, RecordView};
use crate::signed_lookup::{
    check_lookup, claimed_response, expected_proof, names_of_lookups, served_data, served_pair,
    zone_answers, zone_key, zone_response, SignedZoneView, ZoneFault,
};
use crate::signed_responses::{
    answers_query, asks_for_signatures, matching, send_fault, signed_response, SendFault,
};
use crate::wire_format::{data_bytes, message_bytes, message_ok};
use crate::wire_layout_laws::{law_ipv4_in_bytes, law_ipv6_in_bytes};

verus! {

/// A record answers a question for its own name, in whatever case, and its own type; a signature
/// answers also one for the type of the records that it is of.
pub proof fn law_which_records_answer(r: RecordView, q: QueryView)
    ensures
        answers_query(r, q) <==> lower_labels(r.name) == lower_labels(q.name) && (data_type(r.data)
            == q.query_type || (r.data is Rrsig && r.data->Rrsig_0.type_covered == q.query_type)),
{
    law_same_names_are_the_same_in_small_letters(r.name, q.name);
}

/// The records that answer a question are picked one by one and keep their order.
pub proof fn law_answers_keep_their_order(
    a: Seq<RecordView>,
    b: Seq<RecordView>,
    r: RecordView,
    q: QueryView,
)
    ensures
        matching(a + b, q) == matching(a, q) + matching(b, q),
        matching(seq![r], q) == if answers_query(r, q) {
            seq![r]
        } else {
            Seq::empty()
        },
    decreases b.len(),
{
    reveal(Seq::filter);
    let one = seq![r];
    assert(one.drop_last() =~= Seq::<RecordView>::empty());
    assert(matching(one.drop_last(), q) =~= Seq::<RecordView>::empty());
    assert(matching(one, q) =~= if answers_query(r, q) {
        seq![r]
    } else {
        Seq::empty()
    });
    if b.len() == 0 {
        assert(a + b =~= a);
        assert(matching(b, q) =~= Seq::<RecordView>::empty());
    } else {
        law_answers_keep_their_order(a, b.drop_last(), r, q);
        assert((a + b).drop_last() =~= a + b.drop_last());
        assert((a + b).last() == b.last());
    }
    assert(matching(a + b, q) =~= matching(a, q) + matching(b, q));
}

/// What a server of signed records says: the identifier and the first question come back, with the
/// records that answer it, with authority and the claim that they were validated, and without an
/// error.
pub proof fn law_fields_of_signed_responses(m: MessageView, records: Seq<RecordView>)
    ensures
        ({
            let r = signed_response(m, records);
            &&& r.header.id == m.header.id
            &&& r.header.message_type == MessageType::Response
            &&& r.header.op_code == 0 && r.header.response_code == 0
            &&& r.header.authoritative && r.header.authentic_data
            &&& !r.header.truncated && !r.header.recursion_desired
            &&& !r.header.recursion_available && !r.header.checking_disabled
            &&& r.queries == seq![m.queries[0]]
            &&& r.answers == matching(records, m.queries[0])
            &&& r.name_servers.len() == 0 && r.additionals.len() == 0 && r.edns is None
        }),
{
}

/// Which requests a server of signed records answers: those with a question that ask for signatures
/// and are answered by some record, in a response that can be written. What is wrong with others is
/// the first of these that fails.
pub proof fn law_which_signed_requests_are_answered(m: MessageView, records: Seq<RecordView>)
    ensures
        asks_for_signatures(m) <==> m.edns is Some && m.edns->Some_0.dnssec_ok,
        send_fault(m, records) == if m.queries.len() == 0 {
            Some(SendFault::NoQuestion)
        } else if m.edns is None || !m.edns->Some_0.dnssec_ok {
            Some(SendFault::NotSigned)
        } else if matching(records, m.queries[0]).len() == 0 {
            Some(SendFault::NoAnswers)
        } else if message_ok(signed_response(m, records)) && message_bytes(
            signed_response(m, records),
        ).len() <= 65535 {
            None
        } else {
            Some(SendFault::Unwritable)
        },
{
}

/// The keys of the zone `example.`: the one that is trusted first, and the other behind it unless
/// there is only one. Its address record is that of `www.example.`, 192.0.2.1, to be kept for five
/// minutes.
pub proof fn law_what_the_zone_holds(single_key: bool, trusted: SignerView, untrusted: SignerView)
    ensures
        zone_keys(single_key, trusted, untrusted).len() == if single_key {
            1nat
        } else {
            2
        },
        zone_keys(single_key, trusted, untrusted)[0] == key_record(trusted),
        !single_key ==> zone_keys(single_key, trusted, untrusted)[1] == key_record(untrusted),
        zone_answer().name == seq![www(), example()],
        zone_answer().class == 1,
        zone_answer().ttl == 300,
        data_type(zone_answer().data) == RecordType::A,
        data_bytes(zone_answer().data) == seq![192u8, 0, 2, 1],
{
    law_local_names_in_bytes();
    law_ipv4_in_bytes(192, 0, 2, 1);
}

/// Who signed the keys: the trusted key all of them, or the other key all of them, or nobody any, or
/// the trusted key itself alone. The signature may be kept for a minute.
pub proof fn law_who_signed_the_keys<F: Fn(&Signer, &Vec<u8>) -> Vec<u8>>(
    sign: F,
    kind: KeysetSignature,
    keys: Seq<RecordView>,
    trusted: Signer,
    untrusted: Signer,
    now: u32,
    part: Seq<RecordView>,
)
    requires
        keys_signed(sign, kind, keys, trusted, untrusted, now, part),
        keys.len() > 0,
    ensures
        kind == KeysetSignature::Missing <==> part.len() == 0,
        kind != KeysetSignature::Missing ==> part.len() == 1,
        kind == KeysetSignature::Trusted ==> signed_by(sign, trusted, keys, now, 60, part[0]),
        kind == KeysetSignature::Untrusted ==> signed_by(sign, untrusted, keys, now, 60, part[0]),
        kind == KeysetSignature::TrustedSubset ==> signed_by(
            sign,
            trusted,
            seq![keys[0]],
            now,
            60,
            part[0],
        ),
{
    assert(keys.take(1) =~= seq![keys[0]]);
}

/// A zone that is delegated comes with the parent's key and its delegation, each behind a signature
/// by the parent; one that is not comes with neither.
pub proof fn law_who_vouches_for_the_zone<
    F: Fn(&Signer, &Vec<u8>) -> Vec<u8>,
    D: Fn(&Vec<u8>) -> Vec<u8>,
>(
    sign: F,
    digest: D,
    delegated: bool,
    trusted: Signer,
    parent: Signer,
    now: u32,
    part: Seq<RecordView>,
)
    requires
        delegated_by(sign, digest, delegated, trusted, parent, now, part),
    ensures
        !delegated ==> part.len() == 0,
        delegated ==> {
            &&& part.len() == 4
            &&& signed_by(sign, parent, seq![part[1]], now, 60, part[0])
            &&& part[1] == key_record(parent@)
            &&& signed_by(sign, parent, seq![part[3]], now, 60, part[2])
            &&& vouches(digest, trusted@, part[3])
        },
{
}

/// The answer of the zone comes behind its signature.
pub proof fn law_who_signed_the_answer<F: Fn(&Signer, &Vec<u8>) -> Vec<u8>>(
    sign: F,
    signer: Signer,
    now: u32,
    part: Seq<RecordView>,
)
    requires
        answer_signed(sign, signer, now, part),
    ensures
        part.len() == 2,
        part[1] == zone_answer(),
        signed_by(sign, signer, seq![part[1]], now, 60, part[0]),
{
}

/// How a validated answer is judged, of the records of the type that was asked for: there are both
/// keys, or the one key or address; where the trusted key signed all keys, or is the only one, all
/// of them are secure, and else the first key alone; and where it signed all keys, none may be kept
/// for longer than five minutes.
pub proof fn law_how_answers_are_judged(
    kind: KeysetSignature,
    single_key: bool,
    query_type: RecordType,
    answers: Seq<ValidatedView>,
)
    ensures
        ({
            let found = of_type(answers, query_type);
            let all_secure = kind == KeysetSignature::Trusted || single_key;
            let both = query_type == RecordType::DNSKEY && !single_key;
            answer_valid(kind, single_key, query_type, answers) <==> {
                &&& both ==> found.len() == 2
                &&& !both ==> found.len() == 1
                &&& forall|i: int|
                    0 <= i < found.len() ==> {
                        &&& all_secure || (query_type == RecordType::DNSKEY && i == 0)
                            ==> (#[trigger] found[i]).proof_found == Proof::Secure
                        &&& !all_secure && !(query_type == RecordType::DNSKEY && i == 0)
                            ==> found[i].proof_found != Proof::Secure
                        &&& kind == KeysetSignature::Trusted ==> found[i].record.ttl <= 300
                    }
            }
        }),
{
    let found = of_type(answers, query_type);
    if answer_valid(kind, single_key, query_type, answers) {
        assert forall|i: int| 0 <= i < found.len() implies crate::keyset::record_valid(
            kind,
            single_key,
            query_type,
            i,
            #[trigger] found[i],
        ) by {}
    }
}

/// The records of a type are picked one by one and keep their order.
pub proof fn law_types_are_picked_in_order(
    a: Seq<ValidatedView>,
    b: Seq<ValidatedView>,
    v: ValidatedView,
    query_type: RecordType,
)
    ensures
        of_type(a + b, query_type) == of_type(a, query_type) + of_type(b, query_type),
        of_type(seq![v], query_type) == if data_type(v.record.data) == query_type {
            seq![v]
        } else {
            Seq::empty()
        },
    decreases b.len(),
{
    reveal(Seq::filter);
    let one = seq![v];
    assert(one.drop_last() =~= Seq::<ValidatedView>::empty());
    assert(of_type(one.drop_last(), query_type) =~= Seq::<ValidatedView>::empty());
    assert(of_type(one, query_type) =~= if data_type(v.record.data) == query_type {
        seq![v]
    } else {
        Seq::empty()
    });
    if b.len() == 0 {
        assert(a + b =~= a);
        assert(of_type(b, query_type) =~= Seq::<ValidatedView>::empty());
    } else {
        law_types_are_picked_in_order(a, b.drop_last(), v, query_type);
        assert((a + b).drop_last() =~= a + b.drop_last());
        assert((a + b).last() == b.last());
    }
    assert(of_type(a + b, query_type) =~= of_type(a, query_type) + of_type(b, query_type));
}

/// A delegation was asked for exactly when a question for one is among the questions.
pub proof fn law_questions_for_delegations(queries: Seq<QueryView>, q: QueryView)
    ensures
        !asked_for_delegation(Seq::empty()),
        asked_for_delegation(queries.push(q)) <==> asked_for_delegation(queries) || q.query_type
            == RecordType::DS,
{
    let all = queries.push(q);
    if asked_for_delegation(queries) {
        let i = choose|i: int|
            0 <= i < queries.len() && (#[trigger] queries[i]).query_type == RecordType::DS;
        assert(all[i].query_type == RecordType::DS);
    }
    if q.query_type == RecordType::DS {
        assert(all[queries.len() as int].query_type == RecordType::DS);
    }
    if asked_for_delegation(all) && q.query_type != RecordType::DS {
        let i = choose|i: int|
            0 <= i < all.len() && (#[trigger] all[i]).query_type == RecordType::DS;
        assert(queries[i] == all[i]);
    }
}

/// Whether the name has these labels, in whatever case.
pub open spec fn is_name(name: Seq<Seq<u8>>, labels: Seq<Seq<u8>>) -> bool {
    lower_labels(name) == lower_labels(labels)
}

/// What the zone `example.com.` answers: its addresses under `www.example.com.`, its key under its
/// own name, and nothing else. Who does not trust its key is told that there is no delegation, at
/// the zone, at `com.` and at the root; who does has no business asking.
pub proof fn law_what_the_signed_zone_answers(zone: SignedZoneView, q: QueryView)
    ensures
        zone_answers(zone, q) == match q.query_type {
            RecordType::A => if is_name(q.name, seq![www(), example(), com()]) {
                Ok(zone.ipv4)
            } else {
                Err(ZoneFault::OtherName)
            },
            RecordType::AAAA => if is_name(q.name, seq![www(), example(), com()]) {
                Ok(zone.ipv6)
            } else {
                Err(ZoneFault::OtherName)
            },
            RecordType::DNSKEY => if is_name(q.name, seq![example(), com()]) {
                Ok(zone.dnskey)
            } else {
                Err(ZoneFault::OtherName)
            },
            RecordType::DS => if zone.trusted {
                Err(ZoneFault::OtherType)
            } else if is_name(q.name, seq![example(), com()]) || is_name(q.name, seq![com()])
                || is_name(q.name, Seq::empty()) {
                Ok(Seq::<RecordView>::empty())
            } else {
                Err(ZoneFault::OtherName)
            },
            _ => Err(ZoneFault::OtherType),
        },
{
    law_local_names_in_bytes();
    law_same_names_are_the_same_in_small_letters(q.name, seq![www(), example(), com()]);
    law_same_names_are_the_same_in_small_letters(q.name, seq![example(), com()]);
    law_same_names_are_the_same_in_small_letters(q.name, seq![com()]);
    law_same_names_are_the_same_in_small_letters(q.name, Seq::empty());
}

/// What the response of the zone says: identifier, first question and wish for recursion come back,
/// with authority and without an error; the records claim to be validated, and the want of a
/// delegation does not.
pub proof fn law_fields_of_zone_responses(zone: SignedZoneView, m: MessageView, r: MessageView)
    requires
        zone_response(zone, m) == Ok::<MessageView, ZoneFault>(r),
    ensures
        m.queries.len() > 0,
        m.edns is Some && m.edns->Some_0.dnssec_ok,
        r.header.id == m.header.id,
        r.header.message_type == MessageType::Response,
        r.header.op_code == 0 && r.header.response_code == 0,
        r.header.authoritative && r.header.recursion_available,
        r.header.recursion_desired == m.header.recursion_desired,
        !r.header.truncated && !r.header.checking_disabled,
        r.header.authentic_data <==> m.queries[0].query_type != RecordType::DS,
        r.queries == seq![m.queries[0]],
        zone_answers(zone, m.queries[0]) == Ok::<Seq<RecordView>, ZoneFault>(r.answers),
        r.name_servers.len() == 0 && r.additionals.len() == 0 && r.edns is None,
        m.queries[0].query_type != RecordType::DS ==> message_bytes(r).len()
            <= m.edns->Some_0.max_payload || message_bytes(r).len() <= 512,
{
}

/// Which requests the zone answers, and what is wrong with others: without a question, without a
/// wish for signatures, with a question that the zone does not answer, or with an answer that is
/// longer than the requester takes.
pub proof fn law_which_zone_requests_are_answered(zone: SignedZoneView, m: MessageView)
    ensures
        zone_response(zone, m) is Err ==> zone_response(zone, m)->Err_0 == if m.queries.len() == 0 {
            ZoneFault::NoQuestion
        } else if m.edns is None || !m.edns->Some_0.dnssec_ok {
            ZoneFault::NotSigned
        } else {
            match zone_answers(zone, m.queries[0]) {
                Err(fault) => fault,
                Ok(_) => ZoneFault::TooLong,
            }
        },
        m.queries.len() > 0 && m.edns is Some && m.edns->Some_0.dnssec_ok && zone_answers(
            zone,
            m.queries[0],
        ) is Ok && (m.queries[0].query_type == RecordType::DS || ({
            let r = claimed_response(m, zone_answers(zone, m.queries[0])->Ok_0);
            message_ok(r) && message_bytes(r).len() <= m.edns->Some_0.max_payload
        })) ==> zone_response(zone, m) is Ok,
{
}

/// What is served beside a signature: the record itself, or the one that took its place after it was
/// signed. The signature may be kept for as long as the record that was signed.
pub proof fn law_what_is_served_beside_a_signature<F: Fn(&Signer, &Vec<u8>) -> Vec<u8>>(
    sign: F,
    signer: Signer,
    now: u32,
    was_signed: RecordView,
    is_served: RecordView,
    pair: Seq<RecordView>,
)
    requires
        served_pair(sign, signer, now, was_signed, is_served, pair),
    ensures
        pair.len() == 2,
        pair[0] == is_served,
        signed_by(sign, signer, seq![was_signed], now, was_signed.ttl, pair[1]),
{
}

/// The record of the zone's key stands under `example.com.` and may be kept for a minute.
pub proof fn law_the_key_of_the_signed_zone(signer: SignerView)
    ensures
        zone_key(signer).name == seq![example(), com()],
        zone_key(signer).class == 1,
        zone_key(signer).ttl == 60,
        zone_key(signer).data == RDataView::Dnskey(signer.key),
{
    law_local_names_in_bytes();
}

/// The addresses that lookups find: the first two IPv4, the others IPv6; what is tampered with is
/// one more in its last byte.
#[verifier::rlimit(40)]
pub proof fn law_addresses_that_are_served(index: nat)
    ensures
        index < 2 ==> {
            &&& data_type(served_data(false, index)) == RecordType::A
            &&& data_type(served_data(true, index)) == RecordType::A
            &&& data_bytes(served_data(false, index)) == seq![93u8, 184, 215, 14]
            &&& data_bytes(served_data(true, index)) == seq![93u8, 184, 215, 15]
        },
        index >= 2 ==> {
            &&& data_type(served_data(false, index)) == RecordType::AAAA
            &&& data_type(served_data(true, index)) == RecordType::AAAA
            &&& data_bytes(served_data(false, index)) == crate::answer_laws::www_ipv6()
            &&& data_bytes(served_data(true, index)) == crate::answer_laws::www_ipv6().update(
                15,
                0x2d,
            )
        },
{
    law_ipv4_in_bytes(93, 184, 215, 14);
    law_ipv4_in_bytes(93, 184, 215, 15);
    law_ipv6_in_bytes(0x2606, 0x2800, 0x21f, 0xcb07, 0x6820, 0x80da, 0xaf6b, 0x8b2c);
    law_ipv6_in_bytes(0x2606, 0x2800, 0x21f, 0xcb07, 0x6820, 0x80da, 0xaf6b, 0x8b2d);
    if index >= 2 {
        assert(data_bytes(served_data(false, index)) =~= crate::answer_laws::www_ipv6());
        assert(data_bytes(served_data(true, index)) =~= crate::answer_laws::www_ipv6().update(
            15,
            0x2d,
        ));
    }
}

/// The names that lookups ask for: nothing is kept from one to the next, so that each asks for the
/// address and the key, and where the key is not trusted for a delegation from the zone up to the
/// root.
pub proof fn law_names_of_lookups(trusted: bool, count: nat)
    ensures
        names_of_lookups(trusted, 0).len() == 0,
        names_of_lookups(true, count + 1) == names_of_lookups(true, count) + seq![
            seq![www(), example(), com()],
            seq![example(), com()],
        ],
        names_of_lookups(false, count + 1) == names_of_lookups(false, count) + seq![
            seq![www(), example(), com()],
            seq![example(), com()],
            seq![example(), com()],
            seq![com()],
            Seq::<Seq<u8>>::empty(),
        ],
        names_of_lookups(trusted, count).len() == count * (if trusted {
            2int
        } else {
            5int
        }),
    decreases count,
{
    law_local_names_in_bytes();
    if count > 0 {
        law_names_of_lookups(trusted, (count - 1) as nat);
        let n = if trusted {
            2int
        } else {
            5int
        };
        assert(count * n == (count - 1) * n + n) by (nonlinear_arith);
    }
}

/// What validation must find: an answer is secure if and only if it was not tampered with and the
/// key is trusted, and a lookup passes if and only if it found just the address that is served, with
/// this verdict.
pub proof fn law_what_validation_must_find(
    tampered: bool,
    trusted: bool,
    index: usize,
    found: Vec<(RData, Proof)>,
    verdict: Proof,
    passes: bool,
)
    requires
        call_ensures(expected_proof, (tampered, trusted), verdict),
        call_ensures(check_lookup, (tampered, trusted, index, &found), passes),
    ensures
        verdict == Proof::Secure <==> !tampered && trusted,
        verdict == Proof::Bogus <==> tampered || !trusted,
        passes <==> found@.len() == 1 && found@[0].0@ == served_data(tampered, index as nat)
            && found@[0].1 == verdict,
{
}

} // verus!
