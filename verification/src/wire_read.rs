//! Reading messages from bytes.

use vstd::prelude::*;

use crate::message::{
    edns_view, query_views, record_views, Edns, Header, Message, MessageType, Query, QueryView,
    MIN_PAYLOAD,
};
use crate::name::{
    label_ok, labels_len, lemma_labels_len_add, lemma_labels_len_push, name_ok, Name, MAX_LABEL,
    MAX_NAME,
};
use crate::record::{
    data_type, Dnskey, Ds, RData, RDataView, Record, RecordType, RecordView, Rrsig, Soa,
};
use crate::wire_format::{
    edns_of, header_of, is_opt, no_opt, query_ok, read16, read32, read64, read8, read_data,
    read_dnskey, read_ds, read_labels, read_message, read_name, read_name_to, read_queries,
    read_query, read_record, read_records, read_rest, read_rrsig, read_soa, split_additional,
};

verus! {

fn get8(buf: &[u8], pos: usize) -> (r: Option<u8>)
    ensures
        match r {
            Some(x) => read8(buf@, pos as int) == Some((x, pos + 1)) && pos + 1
                <= buf@.len() <= usize::MAX,
            None => read8(buf@, pos as int) is None,
        },
{
    if pos < buf.len() {
        Some(buf[pos])
    } else {
        None
    }
}

fn get16(buf: &[u8], pos: usize) -> (r: Option<u16>)
    ensures
        match r {
            Some(x) => read16(buf@, pos as int) == Some((x, pos + 2)) && pos + 2
                <= buf@.len() <= usize::MAX,
            None => read16(buf@, pos as int) is None,
        },
{
    if buf.len() >= 2 && pos <= buf.len() - 2 {
        Some(buf[pos] as u16 * 256 + buf[pos + 1] as u16)
    } else {
        None
    }
}

fn get32(buf: &[u8], pos: usize) -> (r: Option<u32>)
    ensures
        match r {
            Some(x) => read32(buf@, pos as int) == Some((x, pos + 4)) && pos + 4
                <= buf@.len() <= usize::MAX,
            None => read32(buf@, pos as int) is None,
        },
{
    match get16(buf, pos) {
        None => None,
        Some(hi) => match get16(buf, pos + 2) {
            None => None,
            Some(lo) => Some(hi as u32 * 0x1_0000 + lo as u32),
        },
    }
}

fn get64(buf: &[u8], pos: usize) -> (r: Option<u64>)
    ensures
        match r {
            Some(x) => read64(buf@, pos as int) == Some((x, pos + 8)) && pos + 8
                <= buf@.len() <= usize::MAX,
            None => read64(buf@, pos as int) is None,
        },
{
    match get32(buf, pos) {
        None => None,
        Some(hi) => match get32(buf, pos + 4) {
            None => None,
            Some(lo) => Some(hi as u64 * 0x1_0000_0000 + lo as u64),
        },
    }
}

/// A copy of the bytes from `pos` up to `end`.
pub fn get_range(buf: &[u8], pos: usize, end: usize) -> (r: Vec<u8>)
    requires
        pos <= end <= buf@.len(),
    ensures
        r@ == buf@.subrange(pos as int, end as int),
{
    let mut r: Vec<u8> = Vec::new();
    let mut i: usize = pos;
    while i < end
        invariant
            pos <= i <= end <= buf@.len(),
            r@ == buf@.subrange(pos as int, i as int),
        decreases end - i,
    {
        r.push(buf[i]);
        i += 1;
        assert(r@ =~= buf@.subrange(pos as int, i as int));
    }
    r
}

fn get_rest(buf: &[u8], pos: usize, end: usize) -> (r: Option<Vec<u8>>)
    ensures
        match r {
            Some(bytes) => read_rest(buf@, pos as int, end as int) == Some(bytes@),
            None => read_rest(buf@, pos as int, end as int) is None,
        },
{
    if pos <= end && end <= buf.len() {
        Some(get_range(buf, pos, end))
    } else {
        None
    }
}

/// What was read of a name and what there is still to read of it, put together. `end` is the
/// position behind the name, where it is known already.
pub open spec fn joined(
    acc: Seq<Seq<u8>>,
    rest: Option<(Seq<Seq<u8>>, int)>,
    end: Option<usize>,
) -> Option<(Seq<Seq<u8>>, int)> {
    match rest {
        Some((labels, e)) => Some(
            (
                acc + labels,
                match end {
                    Some(x) => x as int,
                    None => e,
                },
            ),
        ),
        None => None,
    }
}

/// Labels that are too long already make no name, whatever follows.
proof fn lemma_joined_too_long(
    acc: Seq<Seq<u8>>,
    rest: Option<(Seq<Seq<u8>>, int)>,
    end: Option<usize>,
)
    requires
        labels_len(acc) + 1 > MAX_NAME,
    ensures
        joined(acc, rest, end) matches Some((labels, _)) ==> !name_ok(labels),
{
    match rest {
        Some((labels, _)) => {
            lemma_labels_len_add(acc, labels);
        },
        None => {},
    }
}

fn get_name(buf: &[u8], at: usize) -> (r: Option<(Name, usize)>)
    ensures
        match r {
            Some((name, end)) => read_name(buf@, at as int) == Some((name@, end as int))
                && name_ok(name@) && end <= buf@.len(),
            None => read_name(buf@, at as int) is None,
        },
{
    let len: usize = buf.len();
    let mut name = Name::root();
    let mut size: usize = 0;
    let mut pos: usize = at;
    let mut start: usize = at;
    let mut bound: usize = len;
    let mut end: Option<usize> = None;
    let ghost whole = read_labels(buf@, at as int, at as int, len as int);
    assert(whole == joined(
        name@,
        read_labels(buf@, pos as int, start as int, bound as int),
        end,
    )) by {
        match whole {
            Some((labels, _)) => {
                assert(name@ + labels =~= labels);
            },
            None => {},
        }
    }
    while pos < bound
        invariant
            len == buf@.len(),
            start <= pos,
            bound <= len,
            whole == read_labels(buf@, at as int, at as int, len as int),
            whole == joined(
                name@,
                read_labels(buf@, pos as int, start as int, bound as int),
                end,
            ),
            size == labels_len(name@),
            size + 1 <= MAX_NAME,
            forall|j: int| 0 <= j < name@.len() ==> label_ok(#[trigger] name@[j]),
            end matches Some(e) ==> e <= len,
        decreases bound, len - pos,
    {
        let b: u8 = buf[pos];
        if b == 0 {
            let e: usize = match end {
                Some(e) => e,
                None => pos + 1,
            };
            assert(name@ + Seq::<Seq<u8>>::empty() =~= name@);
            return Some((name, e));
        } else if b as usize <= MAX_LABEL {
            let n: usize = b as usize;
            if n > len - pos - 1 {
                return None;
            }
            let next: usize = pos + 1 + n;
            let label = get_range(buf, pos + 1, next);
            let ghost rest = read_labels(buf@, next as int, start as int, bound as int);
            let ghost before = name@;
            proof {
                lemma_labels_len_push(name@, label@);
            }
            name.append_label(label);
            size = size + 1 + n;
            pos = next;
            proof {
                match rest {
                    Some((labels, _)) => {
                        assert(before + (seq![label@] + labels) =~= before.push(label@) + labels);
                    },
                    None => {},
                }
            }
            if size + 1 > MAX_NAME {
                proof {
                    lemma_joined_too_long(name@, rest, end);
                }
                return None;
            }
        } else if b >= 192 && len - pos >= 2 {
            let target: usize = (b as usize - 192) * 256 + buf[pos + 1] as usize;
            if end.is_none() {
                end = Some(pos + 2);
            }
            bound = start;
            start = target;
            pos = target;
        } else {
            return None;
        }
    }
    None
}

fn get_name_to(buf: &[u8], pos: usize, end: usize) -> (r: Option<Name>)
    ensures
        match r {
            Some(name) => read_name_to(buf@, pos as int, end as int) == Some(name@),
            None => read_name_to(buf@, pos as int, end as int) is None,
        },
{
    match get_name(buf, pos) {
        Some((name, e)) => if e == end {
            Some(name)
        } else {
            None
        },
        None => None,
    }
}

fn get_soa(buf: &[u8], pos: usize, end: usize) -> (r: Option<Soa>)
    ensures
        match r {
            Some(soa) => read_soa(buf@, pos as int, end as int) == Some(soa@),
            None => read_soa(buf@, pos as int, end as int) is None,
        },
{
    let (mname, p) = match get_name(buf, pos) {
        Some(x) => x,
        None => return None,
    };
    let (rname, q) = match get_name(buf, p) {
        Some(x) => x,
        None => return None,
    };
    let serial: u32 = match get32(buf, q) {
        Some(x) => x,
        None => return None,
    };
    let refresh: u32 = match get32(buf, q + 4) {
        Some(x) => x,
        None => return None,
    };
    let retry: u32 = match get32(buf, q + 8) {
        Some(x) => x,
        None => return None,
    };
    let expire: u32 = match get32(buf, q + 12) {
        Some(x) => x,
        None => return None,
    };
    let minimum: u32 = match get32(buf, q + 16) {
        Some(x) => x,
        None => return None,
    };
    if q + 20 == end {
        Some(Soa { mname, rname, serial, refresh, retry, expire, minimum })
    } else {
        None
    }
}

fn get_ds(buf: &[u8], pos: usize, end: usize) -> (r: Option<Ds>)
    ensures
        match r {
            Some(ds) => read_ds(buf@, pos as int, end as int) == Some(ds@),
            None => read_ds(buf@, pos as int, end as int) is None,
        },
{
    let key_tag: u16 = match get16(buf, pos) {
        Some(x) => x,
        None => return None,
    };
    let algorithm: u8 = match get8(buf, pos + 2) {
        Some(x) => x,
        None => return None,
    };
    let digest_type: u8 = match get8(buf, pos + 3) {
        Some(x) => x,
        None => return None,
    };
    match get_rest(buf, pos + 4, end) {
        Some(digest) => Some(Ds { key_tag, algorithm, digest_type, digest }),
        None => None,
    }
}

fn get_dnskey(buf: &[u8], pos: usize, end: usize) -> (r: Option<Dnskey>)
    ensures
        match r {
            Some(key) => read_dnskey(buf@, pos as int, end as int) == Some(key@),
            None => read_dnskey(buf@, pos as int, end as int) is None,
        },
{
    let flags: u16 = match get16(buf, pos) {
        Some(x) => x,
        None => return None,
    };
    let protocol: u8 = match get8(buf, pos + 2) {
        Some(x) => x,
        None => return None,
    };
    let algorithm: u8 = match get8(buf, pos + 3) {
        Some(x) => x,
        None => return None,
    };
    match get_rest(buf, pos + 4, end) {
        Some(public_key) => Some(Dnskey { flags, protocol, algorithm, public_key }),
        None => None,
    }
}

fn get_rrsig(buf: &[u8], pos: usize, end: usize) -> (r: Option<Rrsig>)
    ensures
        match r {
            Some(rrsig) => read_rrsig(buf@, pos as int, end as int) == Some(rrsig@),
            None => read_rrsig(buf@, pos as int, end as int) is None,
        },
{
    let covered: u16 = match get16(buf, pos) {
        Some(x) => x,
        None => return None,
    };
    let algorithm: u8 = match get8(buf, pos + 2) {
        Some(x) => x,
        None => return None,
    };
    let num_labels: u8 = match get8(buf, pos + 3) {
        Some(x) => x,
        None => return None,
    };
    let original_ttl: u32 = match get32(buf, pos + 4) {
        Some(x) => x,
        None => return None,
    };
    let sig_expiration: u32 = match get32(buf, pos + 8) {
        Some(x) => x,
        None => return None,
    };
    let sig_inception: u32 = match get32(buf, pos + 12) {
        Some(x) => x,
        None => return None,
    };
    let key_tag: u16 = match get16(buf, pos + 16) {
        Some(x) => x,
        None => return None,
    };
    let (signer_name, p) = match get_name(buf, pos + 18) {
        Some(x) => x,
        None => return None,
    };
    match get_rest(buf, p, end) {
        Some(sig) => Some(
            Rrsig {
                type_covered: RecordType::from_code(covered),
                algorithm,
                num_labels,
                original_ttl,
                sig_expiration,
                sig_inception,
                key_tag,
                signer_name,
                sig,
            },
        ),
        None => None,
    }
}

fn get_data(buf: &[u8], pos: usize, end: usize, code: u16) -> (r: Option<RData>)
    requires
        pos <= end,
    ensures
        match r {
            Some(data) => read_data(buf@, pos as int, end as int, code) == Some(data@),
            None => read_data(buf@, pos as int, end as int, code) is None,
        },
{
    if end > buf.len() {
        return None;
    }
    if pos == end {
        return Some(RData::Empty(RecordType::from_code(code)));
    }
    match code {
        1 => match get32(buf, pos) {
            Some(address) => if pos + 4 == end {
                Some(RData::A(address))
            } else {
                None
            },
            None => None,
        },
        28 => match get64(buf, pos) {
            Some(hi) => match get64(buf, pos + 8) {
                Some(lo) => if pos + 16 == end {
                    Some(RData::Aaaa { hi, lo })
                } else {
                    None
                },
                None => None,
            },
            None => None,
        },
        2 => match get_name_to(buf, pos, end) {
            Some(name) => Some(RData::Ns(name)),
            None => None,
        },
        5 => match get_name_to(buf, pos, end) {
            Some(name) => Some(RData::Cname(name)),
            None => None,
        },
        12 => match get_name_to(buf, pos, end) {
            Some(name) => Some(RData::Ptr(name)),
            None => None,
        },
        6 => match get_soa(buf, pos, end) {
            Some(soa) => Some(RData::Soa(soa)),
            None => None,
        },
        43 => match get_ds(buf, pos, end) {
            Some(ds) => Some(RData::Ds(ds)),
            None => None,
        },
        46 => match get_rrsig(buf, pos, end) {
            Some(rrsig) => Some(RData::Rrsig(rrsig)),
            None => None,
        },
        48 => match get_dnskey(buf, pos, end) {
            Some(key) => Some(RData::Dnskey(key)),
            None => None,
        },
        _ => Some(RData::Unknown { code, data: get_range(buf, pos, end) }),
    }
}

/// The record that stands at the position, and the position behind it.
pub fn get_record(buf: &[u8], pos: usize) -> (r: Option<(Record, usize)>)
    ensures
        match r {
            Some((record, end)) => read_record(buf@, pos as int) == Some((record@, end as int))
                && end <= buf@.len(),
            None => read_record(buf@, pos as int) is None,
        },
{
    let (name, p) = match get_name(buf, pos) {
        Some(x) => x,
        None => return None,
    };
    let code: u16 = match get16(buf, p) {
        Some(x) => x,
        None => return None,
    };
    let class: u16 = match get16(buf, p + 2) {
        Some(x) => x,
        None => return None,
    };
    let ttl: u32 = match get32(buf, p + 4) {
        Some(x) => x,
        None => return None,
    };
    let len: u16 = match get16(buf, p + 8) {
        Some(x) => x,
        None => return None,
    };
    let q: usize = p + 10;
    if len as usize > buf.len() - q {
        return None;
    }
    let end: usize = q + len as usize;
    match get_data(buf, q, end, code) {
        Some(data) => Some((Record { name, class, ttl, data }, end)),
        None => None,
    }
}

fn get_records(buf: &[u8], pos: usize, count: u16) -> (r: Option<(Vec<Record>, usize)>)
    requires
        pos <= buf@.len(),
    ensures
        match r {
            Some((records, end)) => read_records(buf@, pos as int, count as nat) == Some(
                (record_views(records@), end as int),
            ) && end <= buf@.len() && records.len() == count,
            None => read_records(buf@, pos as int, count as nat) is None,
        },
{
    let mut records: Vec<Record> = Vec::new();
    let mut p: usize = pos;
    let mut i: u16 = 0;
    assert(record_views(records@) =~= Seq::<RecordView>::empty());
    while i < count
        invariant
            i <= count,
            p <= buf@.len(),
            records.len() == i,
            read_records(buf@, pos as int, i as nat) == Some((record_views(records@), p as int)),
        decreases count - i,
    {
        match get_record(buf, p) {
            Some((record, q)) => {
                let ghost before = record_views(records@);
                records.push(record);
                p = q;
                assert(record_views(records@) =~= before.push(record@));
            },
            None => {
                proof {
                    lemma_records_stop(buf@, pos as int, (i + 1) as nat, count as nat);
                }
                return None;
            },
        }
        i += 1;
    }
    Some((records, p))
}

/// Where some records cannot be read, more of them cannot be read either.
proof fn lemma_records_stop(buf: Seq<u8>, pos: int, some: nat, more: nat)
    requires
        some <= more,
        read_records(buf, pos, some) is None,
    ensures
        read_records(buf, pos, more) is None,
    decreases more,
{
    if some < more {
        lemma_records_stop(buf, pos, some, (more - 1) as nat);
    }
}

fn get_query(buf: &[u8], pos: usize) -> (r: Option<(Query, usize)>)
    ensures
        match r {
            Some((query, end)) => read_query(buf@, pos as int) == Some((query@, end as int))
                && query_ok(query@) && end <= buf@.len(),
            None => read_query(buf@, pos as int) is None,
        },
{
    let (name, p) = match get_name(buf, pos) {
        Some(x) => x,
        None => return None,
    };
    let code: u16 = match get16(buf, p) {
        Some(x) => x,
        None => return None,
    };
    let query_class: u16 = match get16(buf, p + 2) {
        Some(x) => x,
        None => return None,
    };
    Some((Query { name, query_type: RecordType::from_code(code), query_class }, p + 4))
}

fn get_queries(buf: &[u8], pos: usize, count: u16) -> (r: Option<(Vec<Query>, usize)>)
    requires
        pos <= buf@.len(),
    ensures
        match r {
            Some((queries, end)) => read_queries(buf@, pos as int, count as nat) == Some(
                (query_views(queries@), end as int),
            ) && end <= buf@.len(),
            None => read_queries(buf@, pos as int, count as nat) is None,
        },
{
    let mut queries: Vec<Query> = Vec::new();
    let mut p: usize = pos;
    let mut i: u16 = 0;
    assert(query_views(queries@) =~= Seq::<QueryView>::empty());
    while i < count
        invariant
            i <= count,
            p <= buf@.len(),
            read_queries(buf@, pos as int, i as nat) == Some((query_views(queries@), p as int)),
        decreases count - i,
    {
        match get_query(buf, p) {
            Some((query, q)) => {
                let ghost before = query_views(queries@);
                queries.push(query);
                p = q;
                assert(query_views(queries@) =~= before.push(query@));
            },
            None => {
                proof {
                    lemma_queries_stop(buf@, pos as int, (i + 1) as nat, count as nat);
                }
                return None;
            },
        }
        i += 1;
    }
    Some((queries, p))
}

/// Where some questions cannot be read, more of them cannot be read either.
proof fn lemma_queries_stop(buf: Seq<u8>, pos: int, some: nat, more: nat)
    requires
        some <= more,
        read_queries(buf, pos, some) is None,
    ensures
        read_queries(buf, pos, more) is None,
    decreases more,
{
    if some < more {
        lemma_queries_stop(buf, pos, some, (more - 1) as nat);
    }
}

fn get_header(id: u16, a: u8, b: u8) -> (r: Header)
    ensures
        r == header_of(id, a, b),
{
    Header {
        id,
        message_type: if a >= 128 {
            MessageType::Response
        } else {
            MessageType::Query
        },
        op_code: (a / 8) % 16,
        authoritative: (a / 4) % 2 == 1,
        truncated: (a / 2) % 2 == 1,
        recursion_desired: a % 2 == 1,
        recursion_available: b >= 128,
        authentic_data: (b / 32) % 2 == 1,
        checking_disabled: (b / 16) % 2 == 1,
        response_code: b % 16,
    }
}

/// Whether no record of the section carries the extension options.
fn has_no_opt(records: &Vec<Record>) -> (r: bool)
    ensures
        r == no_opt(record_views(records@)),
{
    let ghost views = record_views(records@);
    let mut i: usize = 0;
    while i < records.len()
        invariant
            i <= records.len(),
            views == record_views(records@),
            forall|j: int| 0 <= j < i ==> !is_opt(#[trigger] views[j]),
        decreases records.len() - i,
    {
        if records[i].record_type() == RecordType::OPT {
            assert(is_opt(views[i as int]));
            return false;
        }
        i += 1;
    }
    true
}

/// The extension options that a record carries.
fn get_edns(record: Record) -> (r: Edns)
    requires
        is_opt(record@),
        record@.data is Empty || record@.data is Unknown,
    ensures
        r@ == edns_of(record@),
{
    let ttl: u32 = record.ttl;
    Edns {
        rcode_high: (ttl / 0x100_0000) as u8,
        version: ((ttl / 0x1_0000) % 256) as u8,
        dnssec_ok: (ttl / 0x8000) % 2 == 1,
        z: (ttl % 0x8000) as u16,
        max_payload: if record.class < MIN_PAYLOAD {
            MIN_PAYLOAD
        } else {
            record.class
        },
        options: match record.data {
            RData::Unknown { data, .. } => data,
            _ => {
                let none: Vec<u8> = Vec::new();
                assert(none@ =~= Seq::<u8>::empty());
                none
            },
        },
    }
}

/// Only data that is not taken apart is of the type of the extension options.
proof fn lemma_opt_data(data: RDataView)
    requires
        data_type(data) == RecordType::OPT,
    ensures
        data is Empty || data is Unknown,
{
}

/// Takes the additional section apart.
fn get_additional(records: Vec<Record>) -> (r: Option<(Vec<Record>, Option<Edns>)>)
    ensures
        match r {
            Some((rest, edns)) => split_additional(record_views(records@)) == Some(
                (record_views(rest@), edns_view(edns)),
            ),
            None => split_additional(record_views(records@)) is None,
        },
{
    let ghost all = records@;
    let ghost views = record_views(all);
    let mut rest: Vec<Record> = Vec::new();
    let mut edns: Option<Edns> = None;
    assert(views.take(0) =~= Seq::<RecordView>::empty());
    assert(record_views(rest@) =~= Seq::<RecordView>::empty());
    for record in iter: records
        invariant
            all == records@,
            iter.seq() == all,
            views == record_views(all),
            split_additional(views.take(iter.index() as int)) == Some(
                (record_views(rest@), edns_view(edns)),
            ),
    {
        let ghost i = iter.index() as int;
        let ghost before = record_views(rest@);
        let ghost view = record@;
        assert(views.take(i + 1).drop_last() =~= views.take(i));
        assert(views.take(i + 1).last() == view);
        if record.record_type() != RecordType::OPT {
            rest.push(record);
            assert(record_views(rest@) =~= before.push(view));
        } else if edns.is_none() && record.name.labels.len() == 0 {
            proof {
                lemma_opt_data(view.data);
            }
            edns = Some(get_edns(record));
        } else {
            proof {
                assert(split_additional(views.take(i + 1)) is None);
                lemma_split_stops(views, i + 1);
            }
            return None;
        }
    }
    assert(views.take(views.len() as int) =~= views);
    Some((rest, edns))
}

/// An additional section whose front cannot be taken apart cannot be taken apart either.
proof fn lemma_split_stops(records: Seq<RecordView>, front: int)
    requires
        0 <= front <= records.len(),
        split_additional(records.take(front)) is None,
    ensures
        split_additional(records) is None,
    decreases records.len(),
{
    if front == records.len() {
        assert(records.take(front) =~= records);
    } else {
        assert(records.drop_last().take(front) =~= records.take(front));
        lemma_split_stops(records.drop_last(), front);
    }
}

impl Record {
    /// The record that the bytes begin with, where they begin with one.
    pub fn from_bytes(bytes: &[u8]) -> (r: Option<Record>)
        ensures
            match r {
                Some(record) => read_record(bytes@, 0) matches Some((view, _)) && view == record@,
                None => read_record(bytes@, 0) is None,
            },
    {
        match get_record(bytes, 0) {
            Some((record, _)) => Some(record),
            None => None,
        }
    }
}

impl Message {
    /// The message that the bytes stand for, where they stand for one.
    pub fn from_vec(bytes: &[u8]) -> (r: Option<Message>)
        ensures
            match r {
                Some(message) => read_message(bytes@) == Some(message@),
                None => read_message(bytes@) is None,
            },
    {
        if bytes.len() < 12 {
            return None;
        }
        let id: u16 = get16(bytes, 0)?;
        let header = get_header(id, bytes[2], bytes[3]);
        let n_queries: u16 = get16(bytes, 4)?;
        let n_answers: u16 = get16(bytes, 6)?;
        let n_name_servers: u16 = get16(bytes, 8)?;
        let n_additional: u16 = get16(bytes, 10)?;
        let (queries, p) = match get_queries(bytes, 12, n_queries) {
            Some(x) => x,
            None => return None,
        };
        let (answers, q) = match get_records(bytes, p, n_answers) {
            Some(x) => x,
            None => return None,
        };
        let (name_servers, s) = match get_records(bytes, q, n_name_servers) {
            Some(x) => x,
            None => return None,
        };
        let (all, _) = match get_records(bytes, s, n_additional) {
            Some(x) => x,
            None => return None,
        };
        let (additionals, edns) = match get_additional(all) {
            Some(x) => x,
            None => return None,
        };
        if has_no_opt(&answers) && has_no_opt(&name_servers) {
            Some(Message { header, queries, answers, name_servers, additionals, edns })
        } else {
            None
        }
    }
}

} // verus!
