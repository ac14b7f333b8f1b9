//! Where in the bytes of a message each of its fields stands.

use vstd::prelude::*;

use crate::message::{EdnsView, MessageType, MessageView, QueryView};
use crate::name::name_ok;
use crate::record::{
    data_type, ipv4, ipv6_half, type_code, type_of, type_ok, DnskeyView, DsView, RDataView,
    RecordType, RecordView, RrsigView, SoaView,
};
use crate::wire_format::{
    additional_records, be16, be32, be64, data_bytes, data_ok, edns_ok, edns_record, edns_of,
    flag_bytes, header_bytes, labels_bytes, message_bytes, message_ok, name_bytes, queries_bytes,
    query_bytes, query_ok, read16, read_message, record_bytes, record_ok, records_bytes, section_ok,
    MAX_MESSAGE,
};
use crate::wire_laws::lemma_labels_bytes_front;

verus! {

/// The codes of the types that are taken apart, and back. Every other code stands for itself.
pub proof fn law_codes_of_types(code: u16)
    ensures
        type_code(RecordType::A) == 1 && type_of(1) == RecordType::A,
        type_code(RecordType::NS) == 2 && type_of(2) == RecordType::NS,
        type_code(RecordType::CNAME) == 5 && type_of(5) == RecordType::CNAME,
        type_code(RecordType::SOA) == 6 && type_of(6) == RecordType::SOA,
        type_code(RecordType::PTR) == 12 && type_of(12) == RecordType::PTR,
        type_code(RecordType::AAAA) == 28 && type_of(28) == RecordType::AAAA,
        type_code(RecordType::OPT) == 41 && type_of(41) == RecordType::OPT,
        type_code(RecordType::DS) == 43 && type_of(43) == RecordType::DS,
        type_code(RecordType::RRSIG) == 46 && type_of(46) == RecordType::RRSIG,
        type_code(RecordType::DNSKEY) == 48 && type_of(48) == RecordType::DNSKEY,
        type_code(RecordType::Unknown(code)) == code,
        type_code(type_of(code)) == code,
        type_ok(type_of(code)),
        type_of(code) is Unknown <==> !(seq![1u16, 2, 5, 6, 12, 28, 41, 43, 46, 48].contains(code)),
{
    let named = seq![1u16, 2, 5, 6, 12, 28, 41, 43, 46, 48];
    assert(named[0] == 1 && named[1] == 2 && named[2] == 5 && named[3] == 6 && named[4] == 12);
    assert(named[5] == 28 && named[6] == 41 && named[7] == 43 && named[8] == 46 && named[9] == 48);
    if named.contains(code) {
        let i = choose|i: int| 0 <= i < named.len() && named[i] == code;
        assert(type_of(named[i]) !is Unknown);
    }
}

/// The type of data is the one that it is data of.
pub proof fn law_types_of_data(data: RDataView)
    ensures
        match data {
            RDataView::A(_) => data_type(data) == RecordType::A,
            RDataView::Aaaa { .. } => data_type(data) == RecordType::AAAA,
            RDataView::Ns(_) => data_type(data) == RecordType::NS,
            RDataView::Cname(_) => data_type(data) == RecordType::CNAME,
            RDataView::Ptr(_) => data_type(data) == RecordType::PTR,
            RDataView::Soa(_) => data_type(data) == RecordType::SOA,
            RDataView::Ds(_) => data_type(data) == RecordType::DS,
            RDataView::Rrsig(_) => data_type(data) == RecordType::RRSIG,
            RDataView::Dnskey(_) => data_type(data) == RecordType::DNSKEY,
            RDataView::Empty(t) => data_type(data) == t,
            RDataView::Unknown { code, data: _ } => type_code(data_type(data)) == code,
        },
{
}

/// Numbers stand with their most significant byte first.
pub proof fn law_numbers_in_bytes(x: u16, y: u32, z: u64)
    ensures
        be16(x).len() == 2,
        be16(x)[0] * 0x100 + be16(x)[1] == x,
        be32(y).len() == 4,
        be32(y)[0] * 0x100_0000 + be32(y)[1] * 0x1_0000 + be32(y)[2] * 0x100 + be32(y)[3] == y,
        be64(z).len() == 8,
        be64(z)[0] * 0x100_0000_0000_0000 + be64(z)[1] * 0x1_0000_0000_0000 + be64(z)[2]
            * 0x100_0000_0000 + be64(z)[3] * 0x1_0000_0000 + be64(z)[4] * 0x100_0000 + be64(z)[5]
            * 0x1_0000 + be64(z)[6] * 0x100 + be64(z)[7] == z,
{
    lemma_be32_sum(y);
    lemma_be32_sum((z / 0x1_0000_0000) as u32);
    lemma_be32_sum((z % 0x1_0000_0000) as u32);
    let hi = be32((z / 0x1_0000_0000) as u32);
    let lo = be32((z % 0x1_0000_0000) as u32);
    assert(be64(z)[0] == hi[0] && be64(z)[1] == hi[1] && be64(z)[2] == hi[2] && be64(z)[3] == hi[3]);
    assert(be64(z)[4] == lo[0] && be64(z)[5] == lo[1] && be64(z)[6] == lo[2] && be64(z)[7] == lo[3]);
}

proof fn lemma_be32_sum(y: u32)
    ensures
        be32(y).len() == 4,
        be32(y)[0] * 0x100_0000 + be32(y)[1] * 0x1_0000 + be32(y)[2] * 0x100 + be32(y)[3] == y,
{
    let a = (y / 0x1_0000) as u16;
    let b = (y % 0x1_0000) as u16;
    assert(be32(y)[0] == be16(a)[0] && be32(y)[1] == be16(a)[1]);
    assert(be32(y)[2] == be16(b)[0] && be32(y)[3] == be16(b)[1]);
    assert(be16(a)[0] * 0x100 + be16(a)[1] == a);
    assert(be16(b)[0] * 0x100 + be16(b)[1] == b);
}

/// An IPv4 address stands byte by byte as it is spoken.
pub proof fn law_ipv4_in_bytes(a: u8, b: u8, c: u8, d: u8)
    ensures
        0 <= ipv4(a, b, c, d) <= u32::MAX,
        data_bytes(RDataView::A(ipv4(a, b, c, d) as u32)) == seq![a, b, c, d],
{
    let y = ipv4(a, b, c, d) as u32;
    let hi = (y / 0x1_0000) as u16;
    let lo = (y % 0x1_0000) as u16;
    assert(hi == a * 0x100 + b && lo == c * 0x100 + d);
    assert(be16(hi) =~= seq![a, b]);
    assert(be16(lo) =~= seq![c, d]);
    assert(data_bytes(RDataView::A(y)) =~= seq![a, b, c, d]);
}

/// An IPv6 address stands group by group as it is spoken.
#[verifier::rlimit(40)]
pub proof fn law_ipv6_in_bytes(a: u16, b: u16, c: u16, d: u16, e: u16, f: u16, g: u16, h: u16)
    ensures
        0 <= ipv6_half(a, b, c, d) <= u64::MAX,
        0 <= ipv6_half(e, f, g, h) <= u64::MAX,
        data_bytes(
            RDataView::Aaaa {
                hi: ipv6_half(a, b, c, d) as u64,
                lo: ipv6_half(e, f, g, h) as u64,
            },
        ) == be16(a) + be16(b) + be16(c) + be16(d) + be16(e) + be16(f) + be16(g) + be16(h),
{
    lemma_half_bytes(a, b, c, d);
    lemma_half_bytes(e, f, g, h);
    assert(data_bytes(
        RDataView::Aaaa { hi: ipv6_half(a, b, c, d) as u64, lo: ipv6_half(e, f, g, h) as u64 },
    ) =~= be16(a) + be16(b) + be16(c) + be16(d) + be16(e) + be16(f) + be16(g) + be16(h));
}

proof fn lemma_half_bytes(a: u16, b: u16, c: u16, d: u16)
    ensures
        0 <= ipv6_half(a, b, c, d) <= u64::MAX,
        be64(ipv6_half(a, b, c, d) as u64) == be16(a) + be16(b) + be16(c) + be16(d),
{
    let z = ipv6_half(a, b, c, d) as u64;
    let hi = (z / 0x1_0000_0000) as u32;
    let lo = (z % 0x1_0000_0000) as u32;
    assert(hi == a * 0x1_0000 + b && lo == c * 0x1_0000 + d);
    assert((hi / 0x1_0000) as u16 == a && (hi % 0x1_0000) as u16 == b);
    assert((lo / 0x1_0000) as u16 == c && (lo % 0x1_0000) as u16 == d);
    assert(be64(z) =~= be16(a) + be16(b) + be16(c) + be16(d));
}

/// A name stands label by label, each behind a byte with its length, and a zero byte closes it.
pub proof fn law_names_in_bytes(label: Seq<u8>, rest: Seq<Seq<u8>>)
    requires
        label.len() <= 255,
    ensures
        name_bytes(Seq::empty()) == seq![0u8],
        name_bytes(seq![label] + rest) == seq![label.len() as u8] + label + name_bytes(rest),
        labels_bytes(Seq::empty()).len() == 0,
        labels_bytes(seq![label] + rest) == seq![label.len() as u8] + label + labels_bytes(rest),
{
    let all = seq![label] + rest;
    lemma_labels_bytes_front(all);
    assert(all.drop_first() =~= rest);
    assert(all[0] == label);
    assert(labels_bytes(all) =~= seq![label.len() as u8] + label + labels_bytes(rest));
    assert(name_bytes(all) =~= seq![label.len() as u8] + label + name_bytes(rest));
    assert(labels_bytes(Seq::empty()) =~= Seq::<u8>::empty());
    assert(name_bytes(Seq::empty()) =~= seq![0u8]);
}

/// Data that names something is that name; all other data stands field by field.
pub proof fn law_data_in_bytes(
    name: Seq<Seq<u8>>,
    soa: SoaView,
    ds: DsView,
    key: DnskeyView,
    r: RrsigView,
    code: u16,
    data: Seq<u8>,
    t: RecordType,
)
    ensures
        data_bytes(RDataView::Ns(name)) == name_bytes(name),
        data_bytes(RDataView::Cname(name)) == name_bytes(name),
        data_bytes(RDataView::Ptr(name)) == name_bytes(name),
        data_bytes(RDataView::Soa(soa)) == name_bytes(soa.mname) + name_bytes(soa.rname) + be32(
            soa.serial,
        ) + be32(soa.refresh) + be32(soa.retry) + be32(soa.expire) + be32(soa.minimum),
        data_bytes(RDataView::Ds(ds)) == be16(ds.key_tag).push(ds.algorithm).push(ds.digest_type)
            + ds.digest,
        data_bytes(RDataView::Dnskey(key)) == be16(key.flags).push(key.protocol).push(key.algorithm)
            + key.public_key,
        data_bytes(RDataView::Rrsig(r)) == be16(type_code(r.type_covered)).push(r.algorithm).push(
            r.num_labels,
        ) + be32(r.original_ttl) + be32(r.sig_expiration) + be32(r.sig_inception) + be16(r.key_tag)
            + name_bytes(r.signer_name) + r.sig,
        data_bytes(RDataView::Empty(t)).len() == 0,
        data_bytes(RDataView::Unknown { code, data }) == data,
{
    assert(data_bytes(RDataView::Soa(soa)) =~= name_bytes(soa.mname) + name_bytes(soa.rname) + be32(
        soa.serial,
    ) + be32(soa.refresh) + be32(soa.retry) + be32(soa.expire) + be32(soa.minimum));
    assert(data_bytes(RDataView::Ds(ds)) =~= be16(ds.key_tag).push(ds.algorithm).push(
        ds.digest_type,
    ) + ds.digest);
    assert(data_bytes(RDataView::Dnskey(key)) =~= be16(key.flags).push(key.protocol).push(
        key.algorithm,
    ) + key.public_key);
    assert(data_bytes(RDataView::Rrsig(r)) =~= be16(type_code(r.type_covered)).push(
        r.algorithm,
    ).push(r.num_labels) + be32(r.original_ttl) + be32(r.sig_expiration) + be32(r.sig_inception)
        + be16(r.key_tag) + name_bytes(r.signer_name) + r.sig);
}

/// A record is its name, its type, its class, its time to live, and its data behind the length of
/// it; a question is its name, its type and its class. Several stand one behind the other.
pub proof fn law_entries_in_bytes(
    r: RecordView,
    q: QueryView,
    records: Seq<RecordView>,
    queries: Seq<QueryView>,
)
    ensures
        record_bytes(r) == name_bytes(r.name) + be16(type_code(data_type(r.data))) + be16(r.class)
            + be32(r.ttl) + be16(data_bytes(r.data).len() as u16) + data_bytes(r.data),
        query_bytes(q) == name_bytes(q.name) + be16(type_code(q.query_type)) + be16(q.query_class),
        records_bytes(Seq::empty()).len() == 0,
        records_bytes(records.push(r)) == records_bytes(records) + record_bytes(r),
        queries_bytes(Seq::empty()).len() == 0,
        queries_bytes(queries.push(q)) == queries_bytes(queries) + query_bytes(q),
{
    assert(record_bytes(r) =~= name_bytes(r.name) + be16(type_code(data_type(r.data))) + be16(
        r.class,
    ) + be32(r.ttl) + be16(data_bytes(r.data).len() as u16) + data_bytes(r.data));
    assert(query_bytes(q) =~= name_bytes(q.name) + be16(type_code(q.query_type)) + be16(
        q.query_class,
    ));
    assert(records.push(r).drop_last() =~= records);
    assert(queries.push(q).drop_last() =~= queries);
}

/// The first twelve bytes of a message: the identifier; the bits and codes, each at its place, with
/// one bit that is always zero; and the numbers of entries of the four sections, of which the last
/// counts the extension options.
pub proof fn law_header_in_bytes(m: MessageView)
    requires
        message_ok(m),
    ensures
        ({
            let bytes = message_bytes(m);
            &&& bytes.len() >= 12
            &&& bytes[0] * 0x100 + bytes[1] == m.header.id
            &&& bytes[2] / 128 == 1 <==> m.header.message_type == MessageType::Response
            &&& (bytes[2] / 8) % 16 == m.header.op_code
            &&& (bytes[2] / 4) % 2 == 1 <==> m.header.authoritative
            &&& (bytes[2] / 2) % 2 == 1 <==> m.header.truncated
            &&& bytes[2] % 2 == 1 <==> m.header.recursion_desired
            &&& bytes[3] / 128 == 1 <==> m.header.recursion_available
            &&& (bytes[3] / 64) % 2 == 0
            &&& (bytes[3] / 32) % 2 == 1 <==> m.header.authentic_data
            &&& (bytes[3] / 16) % 2 == 1 <==> m.header.checking_disabled
            &&& bytes[3] % 16 == m.header.response_code
            &&& bytes[4] * 0x100 + bytes[5] == m.queries.len()
            &&& bytes[6] * 0x100 + bytes[7] == m.answers.len()
            &&& bytes[8] * 0x100 + bytes[9] == m.name_servers.len()
            &&& bytes[10] * 0x100 + bytes[11] == m.additionals.len() + (if m.edns is Some {
                1int
            } else {
                0int
            })
        }),
{
    let bytes = message_bytes(m);
    let flags = flag_bytes(m.header);
    let n = additional_records(m).len() as u16;
    assert(header_bytes(m).len() == 12);
    assert(bytes[2] == flags[0] && bytes[3] == flags[1]);
    assert(bytes[0] == be16(m.header.id)[0] && bytes[1] == be16(m.header.id)[1]);
    let q = m.queries.len() as u16;
    let a = m.answers.len() as u16;
    let s = m.name_servers.len() as u16;
    assert(bytes[4] == be16(q)[0] && bytes[5] == be16(q)[1]);
    assert(bytes[6] == be16(a)[0] && bytes[7] == be16(a)[1]);
    assert(bytes[8] == be16(s)[0] && bytes[9] == be16(s)[1]);
    assert(bytes[10] == be16(n)[0] && bytes[11] == be16(n)[1]);
    law_numbers_in_bytes(m.header.id, 0, 0);
    law_numbers_in_bytes(q, 0, 0);
    law_numbers_in_bytes(a, 0, 0);
    law_numbers_in_bytes(s, 0, 0);
    law_numbers_in_bytes(n, 0, 0);
    crate::wire_laws::lemma_header_of(m.header);
}

/// Behind the first twelve bytes stand the questions, the answers, the authorities and the
/// additional records, in this order, and the extension options come last.
#[verifier::rlimit(40)]
pub proof fn law_sections_in_bytes(m: MessageView)
    ensures
        message_bytes(m).len() >= 12,
        message_bytes(m).skip(12) == queries_bytes(m.queries) + records_bytes(m.answers)
            + records_bytes(m.name_servers) + records_bytes(m.additionals) + (match m.edns {
            Some(e) => record_bytes(edns_record(e)),
            None => Seq::empty(),
        }),
{
    let all = additional_records(m);
    if m.edns is Some {
        assert(all.drop_last() =~= m.additionals);
    }
    assert(header_bytes(m).len() == 12);
    assert(message_bytes(m).skip(12) =~= queries_bytes(m.queries) + records_bytes(m.answers)
        + records_bytes(m.name_servers) + records_bytes(m.additionals) + (match m.edns {
        Some(e) => record_bytes(edns_record(e)),
        None => Seq::empty(),
    }));
}

/// The extension options travel in a record of the root whose type has the code 41 and whose class
/// is the payload; its time to live holds the upper part of the response code, the version, the wish
/// for signatures and the flags without a meaning; its data is the options.
pub proof fn law_extension_options_in_a_record(e: EdnsView)
    requires
        edns_ok(e),
    ensures
        ({
            let r = edns_record(e);
            &&& r.name.len() == 0
            &&& type_code(data_type(r.data)) == 41
            &&& r.class == e.max_payload
            &&& be32(r.ttl)[0] == e.rcode_high
            &&& be32(r.ttl)[1] == e.version
            &&& be32(r.ttl)[2] / 128 == 1 <==> e.dnssec_ok
            &&& (be32(r.ttl)[2] % 128) * 0x100 + be32(r.ttl)[3] == e.z
            &&& data_bytes(r.data) == e.options
        }),
{
    let r = edns_record(e);
    crate::wire_laws::lemma_edns_of(e);
    law_numbers_in_bytes(0, r.ttl, 0);
    assert(data_bytes(r.data) =~= e.options);
}

/// What a record of extension options says, whoever wrote it. A payload below 512 counts as 512.
pub proof fn law_extension_options_are_read(r: RecordView)
    ensures
        ({
            let e = edns_of(r);
            &&& e.rcode_high == be32(r.ttl)[0]
            &&& e.version == be32(r.ttl)[1]
            &&& e.dnssec_ok <==> be32(r.ttl)[2] >= 128
            &&& e.z == (be32(r.ttl)[2] % 128) * 0x100 + be32(r.ttl)[3]
            &&& r.class >= 512 ==> e.max_payload == r.class
            &&& r.class < 512 ==> e.max_payload == 512
            &&& e.options == data_bytes(r.data)
        }),
{
    law_numbers_in_bytes(0, r.ttl, 0);
    let b = be32(r.ttl);
    assert(r.ttl / 0x100_0000 == b[0]);
    assert((r.ttl / 0x1_0000) % 256 == b[1]);
    assert((r.ttl / 0x8000) % 2 == b[2] / 128);
    assert(r.ttl % 0x8000 == (b[2] % 128) * 0x100 + b[3]);
}

/// What the first twelve bytes say when a message is read, whoever wrote it: the bit that is
/// reserved counts for nothing, and there are as many entries in each section as are announced.
pub proof fn law_header_is_read(buf: Seq<u8>, m: MessageView)
    requires
        read_message(buf) == Some(m),
    ensures
        buf.len() >= 12,
        m.header.id == buf[0] * 0x100 + buf[1],
        m.header.message_type == MessageType::Response <==> buf[2] >= 128,
        m.header.op_code == (buf[2] / 8) % 16,
        m.header.authoritative <==> (buf[2] / 4) % 2 == 1,
        m.header.truncated <==> (buf[2] / 2) % 2 == 1,
        m.header.recursion_desired <==> buf[2] % 2 == 1,
        m.header.recursion_available <==> buf[3] >= 128,
        m.header.authentic_data <==> (buf[3] / 32) % 2 == 1,
        m.header.checking_disabled <==> (buf[3] / 16) % 2 == 1,
        m.header.response_code == buf[3] % 16,
        m.queries.len() == buf[4] * 0x100 + buf[5],
        m.answers.len() == buf[6] * 0x100 + buf[7],
        m.name_servers.len() == buf[8] * 0x100 + buf[9],
        m.additionals.len() + (if m.edns is Some {
            1int
        } else {
            0int
        }) == buf[10] * 0x100 + buf[11],
{
    let (queries, p) = crate::wire_format::read_queries(
        buf,
        12,
        read16(buf, 4).unwrap().0 as nat,
    ).unwrap();
    let (answers, q) = crate::wire_format::read_records(
        buf,
        p,
        read16(buf, 6).unwrap().0 as nat,
    ).unwrap();
    let (name_servers, r) = crate::wire_format::read_records(
        buf,
        q,
        read16(buf, 8).unwrap().0 as nat,
    ).unwrap();
    let (all, _) = crate::wire_format::read_records(
        buf,
        r,
        read16(buf, 10).unwrap().0 as nat,
    ).unwrap();
    lemma_queries_count(buf, 12, read16(buf, 4).unwrap().0 as nat);
    lemma_records_count(buf, p, read16(buf, 6).unwrap().0 as nat);
    lemma_records_count(buf, q, read16(buf, 8).unwrap().0 as nat);
    lemma_records_count(buf, r, read16(buf, 10).unwrap().0 as nat);
    lemma_split_count(all);
}

proof fn lemma_queries_count(buf: Seq<u8>, pos: int, count: nat)
    requires
        crate::wire_format::read_queries(buf, pos, count) is Some,
    ensures
        crate::wire_format::read_queries(buf, pos, count).unwrap().0.len() == count,
    decreases count,
{
    if count > 0 {
        lemma_queries_count(buf, pos, (count - 1) as nat);
    }
}

proof fn lemma_records_count(buf: Seq<u8>, pos: int, count: nat)
    requires
        crate::wire_format::read_records(buf, pos, count) is Some,
    ensures
        crate::wire_format::read_records(buf, pos, count).unwrap().0.len() == count,
    decreases count,
{
    if count > 0 {
        lemma_records_count(buf, pos, (count - 1) as nat);
    }
}

proof fn lemma_split_count(records: Seq<RecordView>)
    requires
        crate::wire_format::split_additional(records) is Some,
    ensures
        ({
            let (rest, edns) = crate::wire_format::split_additional(records).unwrap();
            rest.len() + (if edns is Some {
                1int
            } else {
                0int
            }) == records.len()
        }),
    decreases records.len(),
{
    if records.len() > 0 {
        lemma_split_count(records.drop_last());
    }
}

/// The format carries every message whose codes have four bits, whose sections have at most 65535
/// entries each, whose names and data are within their bounds, and whose extension options name a
/// payload of 512 or more. Only the extension options are of their type, and they stand apart.
pub proof fn law_what_the_format_carries(m: MessageView)
    ensures
        message_ok(m) <==> {
            &&& m.header.op_code < 16
            &&& m.header.response_code < 16
            &&& m.queries.len() <= 65535
            &&& m.answers.len() <= 65535
            &&& m.name_servers.len() <= 65535
            &&& m.additionals.len() + (if m.edns is Some {
                1int
            } else {
                0int
            }) <= 65535
            &&& forall|i: int| 0 <= i < m.queries.len() ==> query_ok(#[trigger] m.queries[i])
            &&& section_ok(m.answers)
            &&& section_ok(m.name_servers)
            &&& section_ok(m.additionals)
            &&& m.edns matches Some(e) ==> e.z < 0x8000 && e.max_payload >= 512 && e.options.len()
                <= 65535
        },
        MAX_MESSAGE == 65535,
{
}

/// Which records, questions and data the format carries: names are within their bounds, no data is
/// longer than 65535 bytes, and data that is not taken apart is of no type that is.
pub proof fn law_which_entries_the_format_carries(r: RecordView, q: QueryView, s: Seq<RecordView>)
    ensures
        record_ok(r) <==> name_ok(r.name) && data_ok(r.data),
        query_ok(q) <==> name_ok(q.name) && type_of(type_code(q.query_type)) == q.query_type,
        section_ok(s) <==> s.len() <= 65535 && forall|i: int|
            0 <= i < s.len() ==> record_ok(#[trigger] s[i]) && data_type(s[i].data)
                != RecordType::OPT,
        data_ok(r.data) <==> data_bytes(r.data).len() <= 65535 && match r.data {
            RDataView::Ns(name) => name_ok(name),
            RDataView::Cname(name) => name_ok(name),
            RDataView::Ptr(name) => name_ok(name),
            RDataView::Soa(soa) => name_ok(soa.mname) && name_ok(soa.rname),
            RDataView::Rrsig(rrsig) => name_ok(rrsig.signer_name) && type_of(
                type_code(rrsig.type_covered),
            ) == rrsig.type_covered,
            RDataView::Empty(t) => type_of(type_code(t)) == t,
            RDataView::Unknown { code, data } => data.len() > 0 && (type_of(code) is Unknown || code
                == 41),
            _ => true,
        },
{
}

} // verus!
