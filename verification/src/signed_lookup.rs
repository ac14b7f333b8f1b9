//! A signed zone whose answers may have been tampered with, and what lookups in it come to.

use vstd::prelude::*;

use crate::canonical::{lower_data, to_be_signed};
use crate::canonical_laws::law_signature_pins_the_data;
use crate::config::ResolverOpts;
use crate::dnssec::{
    can_sign, signable, signed, signed_by, signer_ok, time_ok, unsigned_rrsig, Proof, Signer,
    SignerView,
};
use crate::encrypted::{direct_opts, options};
use crate::local_dns::{name_views, response_to, LocalDns};
use crate::local_names::{
    com_name, com_zone, example_com, example_com_name, lemma_local_names, www_example_com, www_name,
};
use crate::lookups::COUNT;
use crate::message::{
    copy_records, payload, record_views, Header, Message, MessageView, QueryView,
};
use crate::name::{law_same_name_is_equivalence, same_name, Name};
use crate::record::{
    ipv4, ipv6_half, RData, RDataView, Record, RecordType, RecordView, CLASS_IN,
};
use crate::signed_responses::asks_for_signatures;
use crate::wire_fixture::{local_ipv4, local_ipv6, www_record, ANSWER_TTL};
use crate::wire_format::{be16, be32, be64, data_bytes, message_bytes, message_ok, MAX_MESSAGE};

verus! {

/// The options of a resolver that validates what it finds. It takes long answers, which signatures
/// need.
pub fn validating_options() -> (r: ResolverOpts)
    ensures
        r == (ResolverOpts { validate: true, edns0: true, ..direct_opts() }),
{
    let mut r = options();
    r.validate = true;
    r.edns0 = true;
    r
}

/// The record of the zone's key.
pub open spec fn zone_key(signer: SignerView) -> RecordView {
    RecordView {
        name: example_com(),
        class: CLASS_IN,
        ttl: ANSWER_TTL,
        data: RDataView::Dnskey(signer.key),
    }
}

/// The IPv4 address that is served: the one that was signed, or its neighbour where the answer is
/// tampered with.
pub open spec fn served_ipv4(tampered: bool) -> RDataView {
    if tampered {
        RDataView::A(ipv4(93, 184, 215, 15) as u32)
    } else {
        local_ipv4()
    }
}

/// The IPv6 address that is served: the one that was signed, or its neighbour where the answer is
/// tampered with.
pub open spec fn served_ipv6(tampered: bool) -> RDataView {
    if tampered {
        RDataView::Aaaa {
            hi: ipv6_half(0x2606, 0x2800, 0x21f, 0xcb07) as u64,
            lo: ipv6_half(0x6820, 0x80da, 0xaf6b, 0x8b2d) as u64,
        }
    } else {
        local_ipv6()
    }
}

/// A record as it is served, and the signature of the record as it was signed.
pub open spec fn served_pair<F: Fn(&Signer, &Vec<u8>) -> Vec<u8>>(
    sign: F,
    signer: Signer,
    now: u32,
    was_signed: RecordView,
    is_served: RecordView,
    pair: Seq<RecordView>,
) -> bool {
    &&& pair.len() == 2
    &&& pair[0] == is_served
    &&& signed_by(sign, signer, seq![was_signed], now, was_signed.ttl, pair[1])
}

/// Why a request is not answered.
#[derive(Debug, Clone, Copy, PartialEq, Eq, Structural)]
pub enum ZoneFault {
    /// There is no question.
    NoQuestion,
    /// The request does not ask for signatures.
    NotSigned,
    /// The question is for a name to which questions of its type do not go.
    OtherName,
    /// The question is of a type that nobody needs for these lookups.
    OtherType,
    /// The response cannot be put into bytes, or into as many as the requester takes.
    TooLong,
}

/// The zone `example.com.`, with the address records of `www.example.com.`
#[derive(Debug)]
pub struct SignedZone {
    pub dnskey: Vec<Record>,
    pub ipv4: Vec<Record>,
    pub ipv6: Vec<Record>,
    /// Whether the requesters trust the key of the zone. Those who do not ask the parents about it.
    pub trusted: bool,
}

pub struct SignedZoneView {
    pub dnskey: Seq<RecordView>,
    pub ipv4: Seq<RecordView>,
    pub ipv6: Seq<RecordView>,
    pub trusted: bool,
}

impl View for SignedZone {
    type V = SignedZoneView;

    open spec fn view(&self) -> SignedZoneView {
        SignedZoneView {
            dnskey: record_views(self.dnskey@),
            ipv4: record_views(self.ipv4@),
            ipv6: record_views(self.ipv6@),
            trusted: self.trusted,
        }
    }
}

/// A name at which requesters who do not trust the key look for a delegation.
pub open spec fn on_the_way(name: Seq<Seq<u8>>) -> bool {
    same_name(name, example_com()) || same_name(name, com_zone()) || same_name(name, Seq::empty())
}

/// The records that answer a question, or why it is not answered. There is no delegation: a
/// question for one gets no records.
pub open spec fn zone_answers(zone: SignedZoneView, q: QueryView) -> Result<
    Seq<RecordView>,
    ZoneFault,
> {
    match q.query_type {
        RecordType::DS => if zone.trusted {
            Err(ZoneFault::OtherType)
        } else if on_the_way(q.name) {
            Ok(Seq::empty())
        } else {
            Err(ZoneFault::OtherName)
        },
        RecordType::A => if same_name(q.name, www_example_com()) {
            Ok(zone.ipv4)
        } else {
            Err(ZoneFault::OtherName)
        },
        RecordType::AAAA => if same_name(q.name, www_example_com()) {
            Ok(zone.ipv6)
        } else {
            Err(ZoneFault::OtherName)
        },
        RecordType::DNSKEY => if same_name(q.name, example_com()) {
            Ok(zone.dnskey)
        } else {
            Err(ZoneFault::OtherName)
        },
        _ => Err(ZoneFault::OtherType),
    }
}

/// A response with these records. It claims that they were validated, which is no substitute for
/// validating them.
pub open spec fn claimed_response(m: MessageView, records: Seq<RecordView>) -> MessageView {
    let plain = response_to(m);
    MessageView {
        header: Header { authentic_data: true, ..plain.header },
        answers: records,
        ..plain
    }
}

/// A response that the requester takes.
pub open spec fn fits(response: MessageView, m: MessageView) -> bool {
    message_ok(response) && message_bytes(response).len() <= MAX_MESSAGE && message_bytes(
        response,
    ).len() <= payload(m.edns)
}

/// The response to a request, or why there is none.
pub open spec fn zone_response(zone: SignedZoneView, m: MessageView) -> Result<
    MessageView,
    ZoneFault,
> {
    if m.queries.len() == 0 {
        Err(ZoneFault::NoQuestion)
    } else if !asks_for_signatures(m) {
        Err(ZoneFault::NotSigned)
    } else {
        let q = m.queries[0];
        match zone_answers(zone, q) {
            Err(fault) => Err(fault),
            Ok(records) => if q.query_type == RecordType::DS {
                Ok(response_to(m))
            } else if fits(claimed_response(m, records), m) {
                Ok(claimed_response(m, records))
            } else {
                Err(ZoneFault::TooLong)
            },
        }
    }
}

/// The records of the zone are signable by the zone's signer.
proof fn lemma_zone_signable(signer: SignerView)
    ensures
        signable(seq![zone_key(signer)]),
        signable(seq![www_record(local_ipv4())]),
        signable(seq![www_record(local_ipv6())]),
{
    lemma_local_names();
}

impl SignedZone {
    /// The zone with all its records signed. Where it is tampered with, the addresses are changed
    /// after they were signed.
    pub fn new<F: Fn(&Signer, &Vec<u8>) -> Vec<u8>>(
        tampered: bool,
        trusted: bool,
        signer: &Signer,
        now: u32,
        sign: &F,
    ) -> (r: SignedZone)
        requires
            signer_ok(signer@),
            signer@.name == example_com(),
            time_ok(now),
            can_sign(*sign, *signer),
        ensures
            served_pair(*sign, *signer, now, zone_key(signer@), zone_key(signer@), r@.dnskey),
            served_pair(
                *sign,
                *signer,
                now,
                www_record(local_ipv4()),
                www_record(served_ipv4(tampered)),
                r@.ipv4,
            ),
            served_pair(
                *sign,
                *signer,
                now,
                www_record(local_ipv6()),
                www_record(served_ipv6(tampered)),
                r@.ipv6,
            ),
            r@.trusted == trusted,
    {
        proof {
            lemma_zone_signable(signer@);
        }
        let dnskey = signed(
            Record::from_rdata(example_com_name(), ANSWER_TTL, RData::Dnskey(signer.key.clone())),
            signer,
            now,
            sign,
        );
        let mut ipv4 = signed(
            Record::from_rdata(www_name(), ANSWER_TTL, RData::a(93, 184, 215, 14)),
            signer,
            now,
            sign,
        );
        let mut ipv6 = signed(
            Record::from_rdata(
                www_name(),
                ANSWER_TTL,
                RData::aaaa(0x2606, 0x2800, 0x21f, 0xcb07, 0x6820, 0x80da, 0xaf6b, 0x8b2c),
            ),
            signer,
            now,
            sign,
        );
        if tampered {
            ipv4.set(0, Record::from_rdata(www_name(), ANSWER_TTL, RData::a(93, 184, 215, 15)));
            ipv6.set(
                0,
                Record::from_rdata(
                    www_name(),
                    ANSWER_TTL,
                    RData::aaaa(0x2606, 0x2800, 0x21f, 0xcb07, 0x6820, 0x80da, 0xaf6b, 0x8b2d),
                ),
            );
        }
        SignedZone { dnskey, ipv4, ipv6, trusted }
    }

    /// The records that answer a question, or why it is not answered.
    pub fn answers(&self, name: &Name, query_type: RecordType) -> (r: Result<Vec<Record>, ZoneFault>)
        ensures
            match r {
                Ok(records) => zone_answers(
                    self@,
                    (QueryView { name: name@, query_type, query_class: CLASS_IN }),
                ) == Ok::<Seq<RecordView>, ZoneFault>(record_views(records@)),
                Err(fault) => zone_answers(
                    self@,
                    (QueryView { name: name@, query_type, query_class: CLASS_IN }),
                ) == Err::<Seq<RecordView>, ZoneFault>(fault),
            },
    {
        match query_type {
            RecordType::DS => if self.trusted {
                Err(ZoneFault::OtherType)
            } else if name.same_as(&example_com_name()) || name.same_as(&com_name())
                || name.same_as(&Name::root()) {
                let none: Vec<Record> = Vec::new();
                assert(record_views(none@) =~= Seq::<RecordView>::empty());
                Ok(none)
            } else {
                Err(ZoneFault::OtherName)
            },
            RecordType::A => if name.same_as(&www_name()) {
                Ok(copy_records(&self.ipv4))
            } else {
                Err(ZoneFault::OtherName)
            },
            RecordType::AAAA => if name.same_as(&www_name()) {
                Ok(copy_records(&self.ipv6))
            } else {
                Err(ZoneFault::OtherName)
            },
            RecordType::DNSKEY => if name.same_as(&example_com_name()) {
                Ok(copy_records(&self.dnskey))
            } else {
                Err(ZoneFault::OtherName)
            },
            _ => Err(ZoneFault::OtherType),
        }
    }

    /// The response to a request, or why there is none.
    pub fn respond(&self, request: &Message) -> (r: Result<Message, ZoneFault>)
        ensures
            match r {
                Ok(response) => zone_response(self@, request@) == Ok::<MessageView, ZoneFault>(
                    response@,
                ),
                Err(fault) => zone_response(self@, request@) == Err::<MessageView, ZoneFault>(fault),
            },
    {
        assert(request@.queries.len() == request.queries@.len());
        if request.queries.len() == 0 {
            return Err(ZoneFault::NoQuestion);
        }
        let signatures = match &request.edns {
            Some(e) => e.dnssec_ok,
            None => false,
        };
        if !signatures {
            return Err(ZoneFault::NotSigned);
        }
        let query = &request.queries[0];
        assert(query@ == request@.queries[0]);
        let records = match self.answers(&query.name, query.query_type) {
            Ok(records) => records,
            Err(fault) => return Err(fault),
        };
        let mut response = LocalDns::response(request);
        if query.query_type == RecordType::DS {
            return Ok(response);
        }
        response.header.authentic_data = true;
        response.answers = records;
        assert(response@ == claimed_response(request@, record_views(records@)));
        match response.to_vec() {
            Some(bytes) => if bytes.len() <= request.max_payload() as usize {
                Ok(response)
            } else {
                Err(ZoneFault::TooLong)
            },
            None => Err(ZoneFault::TooLong),
        }
    }
}

/// What validation must find out about every answer.
pub fn expected_proof(tampered: bool, trusted: bool) -> (r: Proof)
    ensures
        r == if tampered || !trusted {
            Proof::Bogus
        } else {
            Proof::Secure
        },
{
    if tampered || !trusted {
        Proof::Bogus
    } else {
        Proof::Secure
    }
}

/// The names that one lookup asks for: that of the address and that of the key. A requester who
/// does not trust the key then asks for a delegation, from the zone up to the root.
pub open spec fn lookup_names(trusted: bool) -> Seq<Seq<Seq<u8>>> {
    if trusted {
        seq![www_example_com(), example_com()]
    } else {
        seq![www_example_com(), example_com(), example_com(), com_zone(), Seq::empty()]
    }
}

/// The names that so many lookups ask for.
pub open spec fn names_of_lookups(trusted: bool, count: nat) -> Seq<Seq<Seq<u8>>>
    decreases count,
{
    if count == 0 {
        Seq::empty()
    } else {
        names_of_lookups(trusted, (count - 1) as nat) + lookup_names(trusted)
    }
}

/// The names that one lookup asks for.
fn names_of_lookup(trusted: bool) -> (r: Vec<Name>)
    ensures
        name_views(r@) == lookup_names(trusted),
{
    let mut r: Vec<Name> = Vec::new();
    r.push(www_name());
    r.push(example_com_name());
    if !trusted {
        r.push(example_com_name());
        r.push(com_name());
        r.push(Name::root());
    }
    assert(name_views(r@) =~= lookup_names(trusted));
    r
}

/// The names that a server is asked for by all lookups: nothing is kept from one to the next.
pub fn expected_names(trusted: bool) -> (r: Vec<Name>)
    ensures
        name_views(r@) == names_of_lookups(trusted, COUNT as nat),
{
    let mut r: Vec<Name> = Vec::new();
    let mut i: usize = 0;
    assert(name_views(r@) =~= Seq::<Seq<Seq<u8>>>::empty());
    while i < COUNT
        invariant
            i <= COUNT,
            name_views(r@) == names_of_lookups(trusted, i as nat),
        decreases COUNT - i,
    {
        let ghost before = name_views(r@);
        let mut names = names_of_lookup(trusted);
        let ghost more = name_views(names@);
        r.append(&mut names);
        assert(name_views(r@) =~= before + more);
        i += 1;
    }
    r
}

/// The data that a lookup finds.
pub open spec fn served_data(tampered: bool, index: nat) -> RDataView {
    if index < 2 {
        served_ipv4(tampered)
    } else {
        served_ipv6(tampered)
    }
}

/// Whether the two addresses are the same.
fn same_address(a: &RData, b: &RData) -> (r: bool)
    requires
        b@ is A || b@ is Aaaa,
    ensures
        r == (a@ == b@),
{
    match (a, b) {
        (RData::A(x), RData::A(y)) => *x == *y,
        (RData::Aaaa { hi, lo }, RData::Aaaa { hi: h, lo: l }) => *hi == *h && *lo == *l,
        _ => false,
    }
}

/// The data that a lookup finds.
pub fn expected_data(tampered: bool, index: usize) -> (r: RData)
    ensures
        r@ == served_data(tampered, index as nat),
{
    if index < 2 {
        if tampered {
            RData::a(93, 184, 215, 15)
        } else {
            RData::a(93, 184, 215, 14)
        }
    } else if tampered {
        RData::aaaa(0x2606, 0x2800, 0x21f, 0xcb07, 0x6820, 0x80da, 0xaf6b, 0x8b2d)
    } else {
        RData::aaaa(0x2606, 0x2800, 0x21f, 0xcb07, 0x6820, 0x80da, 0xaf6b, 0x8b2c)
    }
}

/// Whether a lookup found just the data that is served, with the proof that it must have: answers
/// that cannot be validated are found and marked, not withheld.
pub fn check_lookup(tampered: bool, trusted: bool, index: usize, found: &Vec<(RData, Proof)>) -> (r:
    bool)
    ensures
        r == (found@.len() == 1 && found@[0].0@ == served_data(tampered, index as nat) && found@[0].1
            == (if tampered || !trusted {
            Proof::Bogus
        } else {
            Proof::Secure
        })),
{
    let expected = expected_data(tampered, index);
    found.len() == 1 && same_address(&found[0].0, &expected) && found[0].1 == expected_proof(
        tampered,
        trusted,
    )
}

/// Different numbers have different bytes.
proof fn lemma_be32_differ(x: u32, y: u32)
    requires
        x != y,
    ensures
        be32(x) != be32(y),
{
    if be32(x) == be32(y) {
        let (a, b) = ((x / 0x1_0000) as u16, (x % 0x1_0000) as u16);
        let (c, d) = ((y / 0x1_0000) as u16, (y % 0x1_0000) as u16);
        assert(be32(x)[0] == be16(a)[0] && be32(x)[1] == be16(a)[1]);
        assert(be32(x)[2] == be16(b)[0] && be32(x)[3] == be16(b)[1]);
        assert(be32(y)[0] == be16(c)[0] && be32(y)[1] == be16(c)[1]);
        assert(be32(y)[2] == be16(d)[0] && be32(y)[3] == be16(d)[1]);
        assert(a == c && b == d);
    }
}

/// IPv6 addresses that differ in their last half differ in their bytes.
proof fn lemma_aaaa_differ(hi: u64, x: u64, y: u64)
    requires
        x % 0x1_0000_0000 != y % 0x1_0000_0000,
    ensures
        be64(hi) + be64(x) != be64(hi) + be64(y),
{
    let (a, b) = ((x % 0x1_0000_0000) as u32, (y % 0x1_0000_0000) as u32);
    lemma_be32_differ(a, b);
    if be64(hi) + be64(x) == be64(hi) + be64(y) {
        assert((be64(hi) + be64(x)).subrange(12, 16) =~= be32(a));
        assert((be64(hi) + be64(y)).subrange(12, 16) =~= be32(b));
    }
}

/// The addresses that are tampered with are not those that were signed.
proof fn lemma_addresses_differ(index: nat)
    ensures
        data_bytes(lower_data(served_data(false, index))) != data_bytes(
            lower_data(served_data(true, index)),
        ),
{
    if index < 2 {
        lemma_be32_differ(ipv4(93, 184, 215, 14) as u32, ipv4(93, 184, 215, 15) as u32);
    } else {
        lemma_aaaa_differ(
            ipv6_half(0x2606, 0x2800, 0x21f, 0xcb07) as u64,
            ipv6_half(0x6820, 0x80da, 0xaf6b, 0x8b2c) as u64,
            ipv6_half(0x6820, 0x80da, 0xaf6b, 0x8b2d) as u64,
        );
    }
}

/// Changing a served address changes what its signature would have to be made over: the signature
/// that is served beside it was made over other bytes.
pub proof fn law_tampering_is_not_signed(
    index: nat,
    signer: SignerView,
    now: u32,
    was_signed: Seq<u8>,
    is_served: Seq<u8>,
)
    requires
        to_be_signed(
            www_example_com(),
            unsigned_rrsig(www_record(served_data(false, index)), signer, now),
            seq![www_record(served_data(false, index))],
            was_signed,
        ),
        to_be_signed(
            www_example_com(),
            unsigned_rrsig(www_record(served_data(false, index)), signer, now),
            seq![www_record(served_data(true, index))],
            is_served,
        ),
    ensures
        was_signed != is_served,
{
    law_same_name_is_equivalence(www_example_com(), www_example_com(), www_example_com());
    lemma_addresses_differ(index);
    law_signature_pins_the_data(
        www_example_com(),
        unsigned_rrsig(www_record(served_data(false, index)), signer, now),
        www_record(served_data(false, index)),
        www_record(served_data(true, index)),
        was_signed,
        is_served,
    );
}

} // verus!
