//! The format in which messages travel: what bytes stand for a message, and what message bytes
//! stand for.

use vstd::prelude::*;

use crate::message::{
    EdnsView, Header, MessageType, MessageView, QueryView, MIN_PAYLOAD,
};
use crate::name::{name_ok, MAX_LABEL};
use crate::record::{
    data_type, type_code, type_of, type_ok, DnskeyView, DsView, RDataView, RecordType, RecordView,
    RrsigView, SoaView,
};

verus! {

/// The longest message, and the longest data of a record, in bytes.
pub const MAX_MESSAGE: usize = 65535;

// What bytes stand for a message.

/// Two bytes, the more significant first.
pub open spec fn be16(x: u16) -> Seq<u8> {
    seq![(x / 256) as u8, (x % 256) as u8]
}

/// Four bytes, the most significant first.
pub open spec fn be32(x: u32) -> Seq<u8> {
    be16((x / 0x1_0000) as u16) + be16((x % 0x1_0000) as u16)
}

/// Eight bytes, the most significant first.
pub open spec fn be64(x: u64) -> Seq<u8> {
    be32((x / 0x1_0000_0000) as u32) + be32((x % 0x1_0000_0000) as u32)
}

/// A label behind its length.
pub open spec fn label_bytes(label: Seq<u8>) -> Seq<u8> {
    seq![label.len() as u8] + label
}

/// Labels one behind the other.
pub open spec fn labels_bytes(labels: Seq<Seq<u8>>) -> Seq<u8>
    decreases labels.len(),
{
    if labels.len() == 0 {
        Seq::empty()
    } else {
        labels_bytes(labels.drop_last()) + label_bytes(labels.last())
    }
}

/// A name, written out in full and closed by a zero byte.
pub open spec fn name_bytes(labels: Seq<Seq<u8>>) -> Seq<u8> {
    labels_bytes(labels) + seq![0u8]
}

/// The fields of a signature up to the name of the signer.
pub open spec fn rrsig_head_bytes(r: RrsigView) -> Seq<u8> {
    be16(type_code(r.type_covered)) + (seq![r.algorithm, r.num_labels] + (be32(r.original_ttl) + (
    be32(r.sig_expiration) + (be32(r.sig_inception) + be16(r.key_tag)))))
}

/// The data of a record.
pub open spec fn data_bytes(data: RDataView) -> Seq<u8> {
    match data {
        RDataView::A(address) => be32(address),
        RDataView::Aaaa { hi, lo } => be64(hi) + be64(lo),
        RDataView::Ns(name) => name_bytes(name),
        RDataView::Cname(name) => name_bytes(name),
        RDataView::Ptr(name) => name_bytes(name),
        RDataView::Soa(soa) => name_bytes(soa.mname) + (name_bytes(soa.rname) + (be32(soa.serial) + (
        be32(soa.refresh) + (be32(soa.retry) + (be32(soa.expire) + be32(soa.minimum)))))),
        RDataView::Ds(ds) => be16(ds.key_tag) + (seq![ds.algorithm, ds.digest_type] + ds.digest),
        RDataView::Rrsig(r) => rrsig_head_bytes(r) + (name_bytes(r.signer_name) + r.sig),
        RDataView::Dnskey(k) => be16(k.flags) + (seq![k.protocol, k.algorithm] + k.public_key),
        RDataView::Empty(_) => Seq::empty(),
        RDataView::Unknown { code: _, data } => data,
    }
}

/// A record.
pub open spec fn record_bytes(r: RecordView) -> Seq<u8> {
    name_bytes(r.name) + (be16(type_code(data_type(r.data))) + (be16(r.class) + (be32(r.ttl) + (be16(
        data_bytes(r.data).len() as u16,
    ) + data_bytes(r.data)))))
}

/// Records one behind the other.
pub open spec fn records_bytes(records: Seq<RecordView>) -> Seq<u8>
    decreases records.len(),
{
    if records.len() == 0 {
        Seq::empty()
    } else {
        records_bytes(records.drop_last()) + record_bytes(records.last())
    }
}

/// A question.
pub open spec fn query_bytes(q: QueryView) -> Seq<u8> {
    name_bytes(q.name) + (be16(type_code(q.query_type)) + be16(q.query_class))
}

/// Questions one behind the other.
pub open spec fn queries_bytes(queries: Seq<QueryView>) -> Seq<u8>
    decreases queries.len(),
{
    if queries.len() == 0 {
        Seq::empty()
    } else {
        queries_bytes(queries.drop_last()) + query_bytes(queries.last())
    }
}

pub open spec fn bit(b: bool) -> int {
    if b {
        1
    } else {
        0
    }
}

/// The two bytes of flags and codes.
pub open spec fn flag_bytes(h: Header) -> Seq<u8> {
    seq![
        (bit(h.message_type is Response) * 128 + h.op_code * 8 + bit(h.authoritative) * 4 + bit(
            h.truncated,
        ) * 2 + bit(h.recursion_desired)) as u8,
        (bit(h.recursion_available) * 128 + bit(h.authentic_data) * 32 + bit(h.checking_disabled)
            * 16 + h.response_code) as u8,
    ]
}

/// The record in which the extension options travel.
pub open spec fn edns_record(e: EdnsView) -> RecordView {
    RecordView {
        name: Seq::empty(),
        class: e.max_payload,
        ttl: (e.rcode_high * 0x100_0000 + e.version * 0x1_0000 + bit(e.dnssec_ok) * 0x8000 + e.z) as u32,
        data: if e.options.len() == 0 {
            RDataView::Empty(RecordType::OPT)
        } else {
            RDataView::Unknown { code: 41, data: e.options }
        },
    }
}

/// The records of the additional section: the extension options come last.
pub open spec fn additional_records(m: MessageView) -> Seq<RecordView> {
    match m.edns {
        Some(e) => m.additionals.push(edns_record(e)),
        None => m.additionals,
    }
}

/// The first twelve bytes of a message.
pub open spec fn header_bytes(m: MessageView) -> Seq<u8> {
    be16(m.header.id) + (flag_bytes(m.header) + (be16(m.queries.len() as u16) + (be16(
        m.answers.len() as u16,
    ) + (be16(m.name_servers.len() as u16) + be16(additional_records(m).len() as u16)))))
}

/// A message.
pub open spec fn message_bytes(m: MessageView) -> Seq<u8> {
    header_bytes(m) + (queries_bytes(m.queries) + (records_bytes(m.answers) + (records_bytes(
        m.name_servers,
    ) + records_bytes(additional_records(m)))))
}

// What can be put into bytes without loss.

/// A code whose data is taken apart.
pub open spec fn known_data(code: u16) -> bool {
    code == 1 || code == 2 || code == 5 || code == 6 || code == 12 || code == 28 || code == 43 || code
        == 46 || code == 48
}

/// Data that the format can carry.
pub open spec fn data_ok(data: RDataView) -> bool {
    &&& data_bytes(data).len() <= MAX_MESSAGE
    &&& match data {
        RDataView::A(_) => true,
        RDataView::Aaaa { .. } => true,
        RDataView::Ns(name) => name_ok(name),
        RDataView::Cname(name) => name_ok(name),
        RDataView::Ptr(name) => name_ok(name),
        RDataView::Soa(soa) => name_ok(soa.mname) && name_ok(soa.rname),
        RDataView::Ds(_) => true,
        RDataView::Rrsig(r) => name_ok(r.signer_name) && type_ok(r.type_covered),
        RDataView::Dnskey(_) => true,
        RDataView::Empty(t) => type_ok(t),
        RDataView::Unknown { code, data } => data.len() > 0 && !known_data(code),
    }
}

/// A record that the format can carry.
pub open spec fn record_ok(r: RecordView) -> bool {
    name_ok(r.name) && data_ok(r.data)
}

/// A record of a section that is not the one of the extension options.
pub open spec fn section_ok(records: Seq<RecordView>) -> bool {
    &&& records.len() <= 65535
    &&& forall|i: int|
        0 <= i < records.len() ==> record_ok(#[trigger] records[i]) && data_type(records[i].data)
            != RecordType::OPT
}

/// A question that the format can carry.
pub open spec fn query_ok(q: QueryView) -> bool {
    name_ok(q.name) && type_ok(q.query_type)
}

/// Extension options that the format can carry.
pub open spec fn edns_ok(e: EdnsView) -> bool {
    e.z < 0x8000 && e.max_payload >= MIN_PAYLOAD && e.options.len() <= MAX_MESSAGE
}

/// A message that the format can carry.
pub open spec fn message_ok(m: MessageView) -> bool {
    &&& m.header.op_code < 16
    &&& m.header.response_code < 16
    &&& m.queries.len() <= 65535
    &&& forall|i: int| 0 <= i < m.queries.len() ==> query_ok(#[trigger] m.queries[i])
    &&& section_ok(m.answers)
    &&& section_ok(m.name_servers)
    &&& section_ok(m.additionals)
    &&& additional_records(m).len() <= 65535
    &&& m.edns matches Some(e) ==> edns_ok(e)
}

// What message bytes stand for. Each function reads at a position and gives what stands there and
// the position behind it, or nothing where the bytes end or break the format.

pub open spec fn read8(buf: Seq<u8>, pos: int) -> Option<(u8, int)> {
    if 0 <= pos && pos + 1 <= buf.len() {
        Some((buf[pos], pos + 1))
    } else {
        None
    }
}

pub open spec fn read16(buf: Seq<u8>, pos: int) -> Option<(u16, int)> {
    if 0 <= pos && pos + 2 <= buf.len() {
        Some(((buf[pos] * 256 + buf[pos + 1]) as u16, pos + 2))
    } else {
        None
    }
}

pub open spec fn read32(buf: Seq<u8>, pos: int) -> Option<(u32, int)> {
    match (read16(buf, pos), read16(buf, pos + 2)) {
        (Some((hi, _)), Some((lo, end))) => Some(((hi * 0x1_0000 + lo) as u32, end)),
        _ => None,
    }
}

pub open spec fn read64(buf: Seq<u8>, pos: int) -> Option<(u64, int)> {
    match (read32(buf, pos), read32(buf, pos + 4)) {
        (Some((hi, _)), Some((lo, end))) => Some(((hi * 0x1_0000_0000 + lo) as u64, end)),
        _ => None,
    }
}

/// The labels from `pos` on. `start` is where this run of labels began, and no label of it may
/// stand at `bound` or behind.
///
/// A byte with its two highest bits set begins a pointer: the rest of the name stands at an earlier
/// place, before the run of labels that points to it.
pub open spec fn read_labels(buf: Seq<u8>, pos: int, start: int, bound: int) -> Option<
    (Seq<Seq<u8>>, int),
>
    decreases bound, buf.len() - pos,
{
    if !(0 <= start <= pos < bound <= buf.len()) {
        None
    } else if buf[pos] == 0 {
        Some((Seq::empty(), pos + 1))
    } else if buf[pos] <= MAX_LABEL {
        let next = pos + 1 + buf[pos];
        if next > buf.len() {
            None
        } else {
            match read_labels(buf, next, start, bound) {
                Some((labels, end)) => Some((seq![buf.subrange(pos + 1, next)] + labels, end)),
                None => None,
            }
        }
    } else if buf[pos] >= 192 && pos + 2 <= buf.len() {
        let target = (buf[pos] - 192) * 256 + buf[pos + 1];
        match read_labels(buf, target, target, start) {
            Some((labels, _)) => Some((labels, pos + 2)),
            None => None,
        }
    } else {
        None
    }
}

pub open spec fn read_name(buf: Seq<u8>, pos: int) -> Option<(Seq<Seq<u8>>, int)> {
    match read_labels(buf, pos, pos, buf.len() as int) {
        Some((labels, end)) => if name_ok(labels) {
            Some((labels, end))
        } else {
            None
        },
        None => None,
    }
}

/// The bytes from `pos` up to `end`.
pub open spec fn read_rest(buf: Seq<u8>, pos: int, end: int) -> Option<Seq<u8>> {
    if 0 <= pos <= end <= buf.len() {
        Some(buf.subrange(pos, end))
    } else {
        None
    }
}

/// A name that ends exactly at `end`.
pub open spec fn read_name_to(buf: Seq<u8>, pos: int, end: int) -> Option<Seq<Seq<u8>>> {
    match read_name(buf, pos) {
        Some((name, e)) => if e == end {
            Some(name)
        } else {
            None
        },
        None => None,
    }
}

pub open spec fn read_soa(buf: Seq<u8>, pos: int, end: int) -> Option<SoaView> {
    match read_name(buf, pos) {
        None => None,
        Some((mname, p)) => match read_name(buf, p) {
            None => None,
            Some((rname, q)) => match (
                read32(buf, q),
                read32(buf, q + 4),
                read32(buf, q + 8),
                read32(buf, q + 12),
                read32(buf, q + 16),
            ) {
                (
                    Some((serial, _)),
                    Some((refresh, _)),
                    Some((retry, _)),
                    Some((expire, _)),
                    Some((minimum, e)),
                ) => if e == end {
                    Some(SoaView { mname, rname, serial, refresh, retry, expire, minimum })
                } else {
                    None
                },
                _ => None,
            },
        },
    }
}

pub open spec fn read_ds(buf: Seq<u8>, pos: int, end: int) -> Option<DsView> {
    match (read16(buf, pos), read8(buf, pos + 2), read8(buf, pos + 3), read_rest(buf, pos + 4, end)) {
        (
            Some((key_tag, _)),
            Some((algorithm, _)),
            Some((digest_type, _)),
            Some(digest),
        ) => Some(DsView { key_tag, algorithm, digest_type, digest }),
        _ => None,
    }
}

pub open spec fn read_dnskey(buf: Seq<u8>, pos: int, end: int) -> Option<DnskeyView> {
    match (read16(buf, pos), read8(buf, pos + 2), read8(buf, pos + 3), read_rest(buf, pos + 4, end)) {
        (
            Some((flags, _)),
            Some((protocol, _)),
            Some((algorithm, _)),
            Some(public_key),
        ) => Some(DnskeyView { flags, protocol, algorithm, public_key }),
        _ => None,
    }
}

pub open spec fn read_rrsig(buf: Seq<u8>, pos: int, end: int) -> Option<RrsigView> {
    match (
        read16(buf, pos),
        read8(buf, pos + 2),
        read8(buf, pos + 3),
        read32(buf, pos + 4),
        read32(buf, pos + 8),
        read32(buf, pos + 12),
        read16(buf, pos + 16),
        read_name(buf, pos + 18),
    ) {
        (
            Some((covered, _)),
            Some((algorithm, _)),
            Some((num_labels, _)),
            Some((original_ttl, _)),
            Some((sig_expiration, _)),
            Some((sig_inception, _)),
            Some((key_tag, _)),
            Some((signer_name, p)),
        ) => match read_rest(buf, p, end) {
            Some(sig) => Some(
                RrsigView {
                    type_covered: type_of(covered),
                    algorithm,
                    num_labels,
                    original_ttl,
                    sig_expiration,
                    sig_inception,
                    key_tag,
                    signer_name,
                    sig,
                },
            ),
            None => None,
        },
        _ => None,
    }
}

/// The data of a record of the type with this code, from `pos` up to `end`.
pub open spec fn read_data(buf: Seq<u8>, pos: int, end: int, code: u16) -> Option<RDataView> {
    if !(0 <= pos <= end <= buf.len()) {
        None
    } else if pos == end {
        Some(RDataView::Empty(type_of(code)))
    } else if code == 1 {
        match read32(buf, pos) {
            Some((address, e)) => if e == end {
                Some(RDataView::A(address))
            } else {
                None
            },
            None => None,
        }
    } else if code == 28 {
        match (read64(buf, pos), read64(buf, pos + 8)) {
            (Some((hi, _)), Some((lo, e))) => if e == end {
                Some(RDataView::Aaaa { hi, lo })
            } else {
                None
            },
            _ => None,
        }
    } else if code == 2 {
        match read_name_to(buf, pos, end) {
            Some(name) => Some(RDataView::Ns(name)),
            None => None,
        }
    } else if code == 5 {
        match read_name_to(buf, pos, end) {
            Some(name) => Some(RDataView::Cname(name)),
            None => None,
        }
    } else if code == 12 {
        match read_name_to(buf, pos, end) {
            Some(name) => Some(RDataView::Ptr(name)),
            None => None,
        }
    } else if code == 6 {
        match read_soa(buf, pos, end) {
            Some(soa) => Some(RDataView::Soa(soa)),
            None => None,
        }
    } else if code == 43 {
        match read_ds(buf, pos, end) {
            Some(ds) => Some(RDataView::Ds(ds)),
            None => None,
        }
    } else if code == 46 {
        match read_rrsig(buf, pos, end) {
            Some(rrsig) => Some(RDataView::Rrsig(rrsig)),
            None => None,
        }
    } else if code == 48 {
        match read_dnskey(buf, pos, end) {
            Some(dnskey) => Some(RDataView::Dnskey(dnskey)),
            None => None,
        }
    } else {
        Some(RDataView::Unknown { code, data: buf.subrange(pos, end) })
    }
}

pub open spec fn read_record(buf: Seq<u8>, pos: int) -> Option<(RecordView, int)> {
    match read_name(buf, pos) {
        None => None,
        Some((name, p)) => match (
            read16(buf, p),
            read16(buf, p + 2),
            read32(buf, p + 4),
            read16(buf, p + 8),
        ) {
            (Some((code, _)), Some((class, _)), Some((ttl, _)), Some((len, q))) => match read_data(
                buf,
                q,
                q + len,
                code,
            ) {
                Some(data) => Some((RecordView { name, class, ttl, data }, q + len)),
                None => None,
            },
            _ => None,
        },
    }
}

/// So many records, one behind the other.
pub open spec fn read_records(buf: Seq<u8>, pos: int, count: nat) -> Option<
    (Seq<RecordView>, int),
>
    decreases count,
{
    if count == 0 {
        Some((Seq::empty(), pos))
    } else {
        match read_records(buf, pos, (count - 1) as nat) {
            None => None,
            Some((records, p)) => match read_record(buf, p) {
                None => None,
                Some((record, q)) => Some((records.push(record), q)),
            },
        }
    }
}

pub open spec fn read_query(buf: Seq<u8>, pos: int) -> Option<(QueryView, int)> {
    match read_name(buf, pos) {
        None => None,
        Some((name, p)) => match (read16(buf, p), read16(buf, p + 2)) {
            (Some((code, _)), Some((query_class, q))) => Some(
                (QueryView { name, query_type: type_of(code), query_class }, q),
            ),
            _ => None,
        },
    }
}

/// So many questions, one behind the other.
pub open spec fn read_queries(buf: Seq<u8>, pos: int, count: nat) -> Option<(Seq<QueryView>, int)>
    decreases count,
{
    if count == 0 {
        Some((Seq::empty(), pos))
    } else {
        match read_queries(buf, pos, (count - 1) as nat) {
            None => None,
            Some((queries, p)) => match read_query(buf, p) {
                None => None,
                Some((query, q)) => Some((queries.push(query), q)),
            },
        }
    }
}

/// What the identifier and the bytes of flags and codes say. The bit that is reserved counts for
/// nothing.
pub open spec fn header_of(id: u16, a: u8, b: u8) -> Header {
    Header {
        id,
        message_type: if a >= 128 {
            MessageType::Response
        } else {
            MessageType::Query
        },
        op_code: (a / 8) % 16,
        authoritative: (a / 4) % 2 == 1,
        truncated: (a / 2) % 2 == 1,
        recursion_desired: a % 2 == 1,
        recursion_available: b >= 128,
        authentic_data: (b / 32) % 2 == 1,
        checking_disabled: (b / 16) % 2 == 1,
        response_code: b % 16,
    }
}

/// The extension options that a record carries.
pub open spec fn edns_of(r: RecordView) -> EdnsView {
    EdnsView {
        rcode_high: (r.ttl / 0x100_0000) as u8,
        version: ((r.ttl / 0x1_0000) % 256) as u8,
        dnssec_ok: (r.ttl / 0x8000) % 2 == 1,
        z: (r.ttl % 0x8000) as u16,
        max_payload: if r.class < MIN_PAYLOAD {
            MIN_PAYLOAD
        } else {
            r.class
        },
        options: data_bytes(r.data),
    }
}

pub open spec fn is_opt(r: RecordView) -> bool {
    data_type(r.data) == RecordType::OPT
}

/// The records of the additional section but for the extension options, and those. None where there
/// are several, or where they stand under a name other than the root.
pub open spec fn split_additional(records: Seq<RecordView>) -> Option<
    (Seq<RecordView>, Option<EdnsView>),
>
    decreases records.len(),
{
    if records.len() == 0 {
        Some((Seq::empty(), None))
    } else {
        match split_additional(records.drop_last()) {
            None => None,
            Some((rest, edns)) => if !is_opt(records.last()) {
                Some((rest.push(records.last()), edns))
            } else if edns is None && records.last().name.len() == 0 {
                Some((rest, Some(edns_of(records.last()))))
            } else {
                None
            },
        }
    }
}

pub open spec fn no_opt(records: Seq<RecordView>) -> bool {
    forall|i: int| 0 <= i < records.len() ==> !is_opt(#[trigger] records[i])
}

/// The message that the bytes stand for. Bytes behind its end count for nothing.
pub open spec fn read_message(buf: Seq<u8>) -> Option<MessageView> {
    if buf.len() < 12 {
        None
    } else {
        let header = header_of(read16(buf, 0).unwrap().0, buf[2], buf[3]);
        match read_queries(buf, 12, read16(buf, 4).unwrap().0 as nat) {
            None => None,
            Some((queries, p)) => match read_records(buf, p, read16(buf, 6).unwrap().0 as nat) {
                None => None,
                Some((answers, q)) => match read_records(
                    buf,
                    q,
                    read16(buf, 8).unwrap().0 as nat,
                ) {
                    None => None,
                    Some((name_servers, r)) => match read_records(
                        buf,
                        r,
                        read16(buf, 10).unwrap().0 as nat,
                    ) {
                        None => None,
                        Some((all, _)) => match split_additional(all) {
                            Some((additionals, edns)) => if no_opt(answers) && no_opt(
                                name_servers,
                            ) {
                                Some(
                                    MessageView {
                                        header,
                                        queries,
                                        answers,
                                        name_servers,
                                        additionals,
                                        edns,
                                    },
                                )
                            } else {
                                None
                            },
                            None => None,
                        },
                    },
                },
            },
        }
    }
}

} // verus!
