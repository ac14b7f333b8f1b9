//! A message that was put into bytes is read back as it was.

use vstd::prelude::*;

use crate::message::{EdnsView, Header, MessageView, QueryView};
use crate::name::{label_ok, labels_len, name_ok};
use crate::record::{data_type, type_code, type_of, RDataView, RecordView};
use crate::wire_format::{
    additional_records, be16, be32, be64, bit, data_bytes, data_ok, edns_of, edns_ok, edns_record,
    flag_bytes, header_bytes, header_of, is_opt, label_bytes, labels_bytes, message_bytes,
    message_ok, name_bytes, no_opt, queries_bytes, query_bytes, query_ok, read16, read32, read64,
    read8, read_data, read_labels, read_message, read_name, read_queries, read_query, read_record,
    read_records, read_rest, read_rrsig, read_soa, record_bytes, record_ok, records_bytes,
    rrsig_head_bytes, split_additional,
};

verus! {

/// Whether the bytes stand in the buffer at the position.
#[verifier::opaque]
pub open spec fn at(buf: Seq<u8>, pos: int, bytes: Seq<u8>) -> bool {
    &&& 0 <= pos
    &&& pos + bytes.len() <= buf.len()
    &&& buf.subrange(pos, pos + bytes.len()) == bytes
}

pub proof fn lemma_at_split(buf: Seq<u8>, pos: int, a: Seq<u8>, b: Seq<u8>)
    requires
        at(buf, pos, a + b),
    ensures
        at(buf, pos, a),
        at(buf, pos + a.len(), b),
{
    reveal(at);
    let whole = buf.subrange(pos, pos + (a + b).len());
    assert(buf.subrange(pos, pos + a.len()) =~= a) by {
        assert forall|i: int| 0 <= i < a.len() implies buf[pos + i] == a[i] by {
            assert(whole[i] == (a + b)[i]);
        }
    }
    assert(buf.subrange(pos + a.len(), pos + a.len() + b.len()) =~= b) by {
        assert forall|i: int| 0 <= i < b.len() implies buf[pos + a.len() + i] == b[i] by {
            assert(whole[a.len() + i] == (a + b)[a.len() + i]);
        }
    }
}

pub proof fn lemma_at_index(buf: Seq<u8>, pos: int, bytes: Seq<u8>, i: int)
    requires
        at(buf, pos, bytes),
        0 <= i < bytes.len(),
    ensures
        0 <= pos,
        pos + bytes.len() <= buf.len(),
        buf[pos + i] == bytes[i],
{
    reveal(at);
    assert(buf.subrange(pos, pos + bytes.len())[i] == bytes[i]);
}

/// Bytes that stand in the buffer are what is read up to their end.
proof fn lemma_at_rest(buf: Seq<u8>, pos: int, bytes: Seq<u8>)
    requires
        at(buf, pos, bytes),
    ensures
        0 <= pos,
        pos + bytes.len() <= buf.len(),
        buf.subrange(pos, pos + bytes.len()) == bytes,
        read_rest(buf, pos, pos + bytes.len()) == Some(bytes),
{
    reveal(at);
}

proof fn lemma_read16(buf: Seq<u8>, pos: int, x: u16)
    requires
        at(buf, pos, be16(x)),
    ensures
        read16(buf, pos) == Some((x, pos + 2)),
{
    lemma_at_index(buf, pos, be16(x), 0);
    lemma_at_index(buf, pos, be16(x), 1);
}

proof fn lemma_read32(buf: Seq<u8>, pos: int, x: u32)
    requires
        at(buf, pos, be32(x)),
    ensures
        read32(buf, pos) == Some((x, pos + 4)),
{
    lemma_at_split(buf, pos, be16((x / 0x1_0000) as u16), be16((x % 0x1_0000) as u16));
    lemma_read16(buf, pos, (x / 0x1_0000) as u16);
    lemma_read16(buf, pos + 2, (x % 0x1_0000) as u16);
}

proof fn lemma_read64(buf: Seq<u8>, pos: int, x: u64)
    requires
        at(buf, pos, be64(x)),
    ensures
        read64(buf, pos) == Some((x, pos + 8)),
{
    lemma_at_split(buf, pos, be32((x / 0x1_0000_0000) as u32), be32((x % 0x1_0000_0000) as u32));
    lemma_read32(buf, pos, (x / 0x1_0000_0000) as u32);
    lemma_read32(buf, pos + 4, (x % 0x1_0000_0000) as u32);
}

pub proof fn lemma_labels_bytes_front(labels: Seq<Seq<u8>>)
    requires
        labels.len() > 0,
    ensures
        labels_bytes(labels) == label_bytes(labels[0]) + labels_bytes(labels.drop_first()),
    decreases labels.len(),
{
    let rest = labels.drop_first();
    if labels.len() == 1 {
        assert(labels.drop_last() =~= Seq::<Seq<u8>>::empty());
        assert(labels_bytes(labels.drop_last()) =~= Seq::<u8>::empty());
        assert(rest =~= Seq::<Seq<u8>>::empty());
        assert(labels_bytes(labels) =~= label_bytes(labels[0]) + labels_bytes(rest));
    } else {
        lemma_labels_bytes_front(labels.drop_last());
        assert(labels.drop_last().drop_first() =~= rest.drop_last());
        assert(rest.last() == labels.last());
        assert(labels_bytes(labels) =~= label_bytes(labels[0]) + labels_bytes(rest));
    }
}

/// A name takes as many bytes as are counted for its labels, and one.
pub proof fn lemma_name_bytes_len(labels: Seq<Seq<u8>>)
    ensures
        name_bytes(labels).len() == labels_len(labels) + 1,
    decreases labels.len(),
{
    if labels.len() > 0 {
        lemma_name_bytes_len(labels.drop_last());
    }
}

proof fn lemma_read_labels(buf: Seq<u8>, pos: int, start: int, labels: Seq<Seq<u8>>)
    requires
        at(buf, pos, name_bytes(labels)),
        0 <= start <= pos,
        forall|i: int| 0 <= i < labels.len() ==> label_ok(#[trigger] labels[i]),
    ensures
        read_labels(buf, pos, start, buf.len() as int) == Some(
            (labels, pos + name_bytes(labels).len()),
        ),
    decreases labels.len(),
{
    if labels.len() == 0 {
        lemma_at_index(buf, pos, name_bytes(labels), 0);
        assert(labels =~= Seq::<Seq<u8>>::empty());
    } else {
        let label = labels[0];
        let rest = labels.drop_first();
        lemma_labels_bytes_front(labels);
        assert(name_bytes(labels) =~= label_bytes(label) + name_bytes(rest));
        lemma_at_split(buf, pos, label_bytes(label), name_bytes(rest));
        assert(label_ok(labels[0]));
        lemma_at_index(buf, pos, label_bytes(label), 0);
        let next = pos + 1 + label.len();
        assert(buf[pos] == label.len());
        assert(buf.subrange(pos + 1, next) =~= label) by {
            assert forall|i: int| 0 <= i < label.len() implies buf[pos + 1 + i] == label[i] by {
                lemma_at_index(buf, pos, label_bytes(label), 1 + i);
            }
        }
        assert forall|i: int| 0 <= i < rest.len() implies label_ok(#[trigger] rest[i]) by {
            assert(rest[i] == labels[i + 1]);
        }
        lemma_read_labels(buf, next, start, rest);
        assert(seq![label] + rest =~= labels);
    }
}

pub proof fn lemma_read_name(buf: Seq<u8>, pos: int, labels: Seq<Seq<u8>>)
    requires
        at(buf, pos, name_bytes(labels)),
        name_ok(labels),
    ensures
        read_name(buf, pos) == Some((labels, pos + name_bytes(labels).len())),
{
    lemma_at_rest(buf, pos, name_bytes(labels));
    lemma_read_labels(buf, pos, pos, labels);
}

proof fn lemma_read_soa(buf: Seq<u8>, pos: int, data: RDataView)
    requires
        data is Soa,
        at(buf, pos, data_bytes(data)),
        data_ok(data),
    ensures
        read_soa(buf, pos, pos + data_bytes(data).len()) == Some(data->Soa_0),
{
    let soa = data->Soa_0;
    let t4 = be32(soa.expire) + be32(soa.minimum);
    let t3 = be32(soa.retry) + t4;
    let t2 = be32(soa.refresh) + t3;
    let t1 = be32(soa.serial) + t2;
    let t0 = name_bytes(soa.rname) + t1;
    lemma_at_split(buf, pos, name_bytes(soa.mname), t0);
    let p = pos + name_bytes(soa.mname).len();
    lemma_at_split(buf, p, name_bytes(soa.rname), t1);
    let q = p + name_bytes(soa.rname).len();
    lemma_at_split(buf, q, be32(soa.serial), t2);
    lemma_at_split(buf, q + 4, be32(soa.refresh), t3);
    lemma_at_split(buf, q + 8, be32(soa.retry), t4);
    lemma_at_split(buf, q + 12, be32(soa.expire), be32(soa.minimum));
    lemma_read_name(buf, pos, soa.mname);
    lemma_read_name(buf, p, soa.rname);
    lemma_read32(buf, q, soa.serial);
    lemma_read32(buf, q + 4, soa.refresh);
    lemma_read32(buf, q + 8, soa.retry);
    lemma_read32(buf, q + 12, soa.expire);
    lemma_read32(buf, q + 16, soa.minimum);
}

proof fn lemma_read_rrsig(buf: Seq<u8>, pos: int, data: RDataView)
    requires
        data is Rrsig,
        at(buf, pos, data_bytes(data)),
        data_ok(data),
    ensures
        read_rrsig(buf, pos, pos + data_bytes(data).len()) == Some(data->Rrsig_0),
{
    let r = data->Rrsig_0;
    let end = pos + data_bytes(data).len();
    let code = type_code(r.type_covered);
    let t5 = be32(r.sig_inception) + be16(r.key_tag);
    let t4 = be32(r.sig_expiration) + t5;
    let t3 = be32(r.original_ttl) + t4;
    let two = seq![r.algorithm, r.num_labels];
    let t2 = two + t3;
    let name = name_bytes(r.signer_name);
    lemma_at_split(buf, pos, rrsig_head_bytes(r), name + r.sig);
    lemma_at_split(buf, pos, be16(code), t2);
    lemma_at_split(buf, pos + 2, two, t3);
    lemma_at_split(buf, pos + 4, be32(r.original_ttl), t4);
    lemma_at_split(buf, pos + 8, be32(r.sig_expiration), t5);
    lemma_at_split(buf, pos + 12, be32(r.sig_inception), be16(r.key_tag));
    lemma_at_split(buf, pos + 18, name, r.sig);
    lemma_read16(buf, pos, code);
    lemma_at_index(buf, pos + 2, two, 0);
    lemma_at_index(buf, pos + 2, two, 1);
    lemma_read32(buf, pos + 4, r.original_ttl);
    lemma_read32(buf, pos + 8, r.sig_expiration);
    lemma_read32(buf, pos + 12, r.sig_inception);
    lemma_read16(buf, pos + 16, r.key_tag);
    lemma_read_name(buf, pos + 18, r.signer_name);
    lemma_at_rest(buf, pos + 18 + name.len(), r.sig);
    assert(end == pos + 18 + name.len() + r.sig.len());
}

/// Four bytes and the rest, as keys and digests have them.
proof fn lemma_read_four_and_rest(buf: Seq<u8>, pos: int, x: u16, two: Seq<u8>, rest: Seq<u8>)
    requires
        two.len() == 2,
        at(buf, pos, be16(x) + (two + rest)),
    ensures
        read16(buf, pos) == Some((x, pos + 2)),
        read8(buf, pos + 2) == Some((two[0], pos + 3)),
        read8(buf, pos + 3) == Some((two[1], pos + 4)),
        read_rest(buf, pos + 4, pos + 4 + rest.len()) == Some(rest),
{
    lemma_at_split(buf, pos, be16(x), two + rest);
    lemma_at_split(buf, pos + 2, two, rest);
    lemma_read16(buf, pos, x);
    lemma_at_index(buf, pos + 2, two, 0);
    lemma_at_index(buf, pos + 2, two, 1);
    lemma_at_rest(buf, pos + 4, rest);
}

/// An address is read back.
proof fn lemma_read_address(buf: Seq<u8>, pos: int, data: RDataView)
    requires
        data is A || data is Aaaa,
        at(buf, pos, data_bytes(data)),
        data_ok(data),
    ensures
        read_data(buf, pos, pos + data_bytes(data).len(), type_code(data_type(data))) == Some(data),
{
    lemma_at_rest(buf, pos, data_bytes(data));
    match data {
        RDataView::A(address) => {
            lemma_read32(buf, pos, address);
        },
        RDataView::Aaaa { hi, lo } => {
            lemma_at_split(buf, pos, be64(hi), be64(lo));
            lemma_read64(buf, pos, hi);
            lemma_read64(buf, pos + 8, lo);
        },
        _ => {},
    }
}

/// Data that is a name is read back.
proof fn lemma_read_named(buf: Seq<u8>, pos: int, data: RDataView)
    requires
        data is Ns || data is Cname || data is Ptr,
        at(buf, pos, data_bytes(data)),
        data_ok(data),
    ensures
        read_data(buf, pos, pos + data_bytes(data).len(), type_code(data_type(data))) == Some(data),
{
    lemma_at_rest(buf, pos, data_bytes(data));
    match data {
        RDataView::Ns(name) => {
            lemma_read_name(buf, pos, name);
        },
        RDataView::Cname(name) => {
            lemma_read_name(buf, pos, name);
        },
        RDataView::Ptr(name) => {
            lemma_read_name(buf, pos, name);
        },
        _ => {},
    }
}

/// A digest of a key is read back.
proof fn lemma_read_ds(buf: Seq<u8>, pos: int, data: RDataView)
    requires
        data is Ds,
        at(buf, pos, data_bytes(data)),
        data_ok(data),
    ensures
        read_data(buf, pos, pos + data_bytes(data).len(), type_code(data_type(data))) == Some(data),
{
    lemma_at_rest(buf, pos, data_bytes(data));
    let ds = data->Ds_0;
    lemma_read_four_and_rest(
        buf,
        pos,
        ds.key_tag,
        seq![ds.algorithm, ds.digest_type],
        ds.digest,
    );
}

/// A key is read back.
proof fn lemma_read_dnskey(buf: Seq<u8>, pos: int, data: RDataView)
    requires
        data is Dnskey,
        at(buf, pos, data_bytes(data)),
        data_ok(data),
    ensures
        read_data(buf, pos, pos + data_bytes(data).len(), type_code(data_type(data))) == Some(data),
{
    lemma_at_rest(buf, pos, data_bytes(data));
    let k = data->Dnskey_0;
    lemma_read_four_and_rest(buf, pos, k.flags, seq![k.protocol, k.algorithm], k.public_key);
}

/// Data of several names or fields is read back.
proof fn lemma_read_fields(buf: Seq<u8>, pos: int, data: RDataView)
    requires
        data is Soa || data is Rrsig,
        at(buf, pos, data_bytes(data)),
        data_ok(data),
    ensures
        read_data(buf, pos, pos + data_bytes(data).len(), type_code(data_type(data))) == Some(data),
{
    lemma_at_rest(buf, pos, data_bytes(data));
    if data is Soa {
        lemma_read_soa(buf, pos, data);
    } else {
        lemma_read_rrsig(buf, pos, data);
    }
}

/// Data that is not taken apart is read back.
proof fn lemma_read_plain(buf: Seq<u8>, pos: int, data: RDataView)
    requires
        data is Empty || data is Unknown,
        at(buf, pos, data_bytes(data)),
        data_ok(data),
    ensures
        read_data(buf, pos, pos + data_bytes(data).len(), type_code(data_type(data))) == Some(data),
{
    lemma_at_rest(buf, pos, data_bytes(data));
    if data is Unknown {
        assert(type_code(type_of(data->code)) == data->code);
    }
}

proof fn lemma_read_data(buf: Seq<u8>, pos: int, data: RDataView)
    requires
        at(buf, pos, data_bytes(data)),
        data_ok(data),
    ensures
        read_data(buf, pos, pos + data_bytes(data).len(), type_code(data_type(data))) == Some(data),
{
    match data {
        RDataView::A(_) => lemma_read_address(buf, pos, data),
        RDataView::Aaaa { .. } => lemma_read_address(buf, pos, data),
        RDataView::Ns(_) => lemma_read_named(buf, pos, data),
        RDataView::Cname(_) => lemma_read_named(buf, pos, data),
        RDataView::Ptr(_) => lemma_read_named(buf, pos, data),
        RDataView::Soa(_) => lemma_read_fields(buf, pos, data),
        RDataView::Ds(_) => lemma_read_ds(buf, pos, data),
        RDataView::Rrsig(_) => lemma_read_fields(buf, pos, data),
        RDataView::Dnskey(_) => lemma_read_dnskey(buf, pos, data),
        RDataView::Empty(_) => lemma_read_plain(buf, pos, data),
        RDataView::Unknown { .. } => lemma_read_plain(buf, pos, data),
    }
}

/// A record that was put into bytes is read back as it was.
pub proof fn lemma_read_record(buf: Seq<u8>, pos: int, r: RecordView)
    requires
        at(buf, pos, record_bytes(r)),
        record_ok(r),
    ensures
        read_record(buf, pos) == Some((r, pos + record_bytes(r).len())),
{
    let code = type_code(data_type(r.data));
    let data = data_bytes(r.data);
    let len = data.len() as u16;
    let t3 = be16(len) + data;
    let t2 = be32(r.ttl) + t3;
    let t1 = be16(r.class) + t2;
    let t0 = be16(code) + t1;
    lemma_at_split(buf, pos, name_bytes(r.name), t0);
    let p = pos + name_bytes(r.name).len();
    lemma_at_split(buf, p, be16(code), t1);
    lemma_at_split(buf, p + 2, be16(r.class), t2);
    lemma_at_split(buf, p + 4, be32(r.ttl), t3);
    lemma_at_split(buf, p + 8, be16(len), data);
    lemma_read_name(buf, pos, r.name);
    lemma_read16(buf, p, code);
    lemma_read16(buf, p + 2, r.class);
    lemma_read32(buf, p + 4, r.ttl);
    lemma_read16(buf, p + 8, len);
    lemma_read_data(buf, p + 10, r.data);
}

proof fn lemma_read_records(buf: Seq<u8>, pos: int, records: Seq<RecordView>)
    requires
        at(buf, pos, records_bytes(records)),
        forall|i: int| 0 <= i < records.len() ==> record_ok(#[trigger] records[i]),
    ensures
        read_records(buf, pos, records.len()) == Some(
            (records, pos + records_bytes(records).len()),
        ),
    decreases records.len(),
{
    if records.len() == 0 {
        assert(records =~= Seq::<RecordView>::empty());
    } else {
        let before = records.drop_last();
        lemma_at_split(buf, pos, records_bytes(before), record_bytes(records.last()));
        assert forall|i: int| 0 <= i < before.len() implies record_ok(#[trigger] before[i]) by {
            assert(before[i] == records[i]);
        }
        assert(record_ok(records[records.len() - 1]));
        lemma_read_records(buf, pos, before);
        lemma_read_record(buf, pos + records_bytes(before).len(), records.last());
        assert(before.push(records.last()) =~= records);
    }
}

proof fn lemma_read_query(buf: Seq<u8>, pos: int, q: QueryView)
    requires
        at(buf, pos, query_bytes(q)),
        query_ok(q),
    ensures
        read_query(buf, pos) == Some((q, pos + query_bytes(q).len())),
{
    let code = type_code(q.query_type);
    lemma_at_split(buf, pos, name_bytes(q.name), be16(code) + be16(q.query_class));
    let p = pos + name_bytes(q.name).len();
    lemma_at_split(buf, p, be16(code), be16(q.query_class));
    lemma_read_name(buf, pos, q.name);
    lemma_read16(buf, p, code);
    lemma_read16(buf, p + 2, q.query_class);
}

proof fn lemma_read_queries(buf: Seq<u8>, pos: int, queries: Seq<QueryView>)
    requires
        at(buf, pos, queries_bytes(queries)),
        forall|i: int| 0 <= i < queries.len() ==> query_ok(#[trigger] queries[i]),
    ensures
        read_queries(buf, pos, queries.len()) == Some(
            (queries, pos + queries_bytes(queries).len()),
        ),
    decreases queries.len(),
{
    if queries.len() == 0 {
        assert(queries =~= Seq::<QueryView>::empty());
    } else {
        let before = queries.drop_last();
        lemma_at_split(buf, pos, queries_bytes(before), query_bytes(queries.last()));
        assert forall|i: int| 0 <= i < before.len() implies query_ok(#[trigger] before[i]) by {
            assert(before[i] == queries[i]);
        }
        assert(query_ok(queries[queries.len() - 1]));
        lemma_read_queries(buf, pos, before);
        lemma_read_query(buf, pos + queries_bytes(before).len(), queries.last());
        assert(before.push(queries.last()) =~= queries);
    }
}

/// The bytes of flags and codes say what they were made from.
pub proof fn lemma_header_of(h: Header)
    requires
        h.op_code < 16,
        h.response_code < 16,
    ensures
        header_of(h.id, flag_bytes(h)[0], flag_bytes(h)[1]) == h,
{
    let t = bit(h.authoritative) * 4 + bit(h.truncated) * 2 + bit(h.recursion_desired);
    let a = bit(h.message_type is Response) * 128 + h.op_code * 8 + t;
    assert(0 <= t < 8);
    assert(0 <= a < 256);
    assert(a / 8 == bit(h.message_type is Response) * 16 + h.op_code);
    assert((a / 4) % 2 == bit(h.authoritative));
    assert((a / 2) % 2 == bit(h.truncated));
    assert(a % 2 == bit(h.recursion_desired));
    let b = bit(h.recursion_available) * 128 + bit(h.authentic_data) * 32 + bit(h.checking_disabled)
        * 16 + h.response_code;
    assert(0 <= b < 256);
}

pub proof fn lemma_edns_of(e: EdnsView)
    requires
        edns_ok(e),
    ensures
        edns_of(edns_record(e)) == e,
        record_ok(edns_record(e)),
        is_opt(edns_record(e)),
{
    let low = bit(e.dnssec_ok) * 0x8000 + e.z;
    let ttl = e.rcode_high * 0x100_0000 + e.version * 0x1_0000 + low;
    assert(0 <= low < 0x1_0000);
    assert(0 <= ttl <= u32::MAX);
    assert(ttl / 0x100_0000 == e.rcode_high);
    assert((ttl / 0x1_0000) % 256 == e.version);
    assert((ttl / 0x8000) % 2 == bit(e.dnssec_ok));
    assert(ttl % 0x8000 == e.z);
    assert(edns_of(edns_record(e)).options =~= e.options);
    assert(labels_len(Seq::empty()) == 0);
}

pub proof fn lemma_split_plain(records: Seq<RecordView>)
    requires
        no_opt(records),
    ensures
        split_additional(records) == Some((records, None::<EdnsView>)),
    decreases records.len(),
{
    if records.len() == 0 {
        assert(records =~= Seq::<RecordView>::empty());
    } else {
        assert(no_opt(records.drop_last())) by {
            assert forall|i: int| 0 <= i < records.drop_last().len() implies !is_opt(
                #[trigger] records.drop_last()[i],
            ) by {
                assert(records.drop_last()[i] == records[i]);
            }
        }
        lemma_split_plain(records.drop_last());
        assert(!is_opt(records[records.len() - 1]));
        assert(records.drop_last().push(records.last()) =~= records);
    }
}

/// The first twelve bytes are read back as they were.
proof fn lemma_read_header(buf: Seq<u8>, m: MessageView)
    requires
        at(buf, 0, header_bytes(m)),
        m.header.op_code < 16,
        m.header.response_code < 16,
    ensures
        buf.len() >= 12,
        header_bytes(m).len() == 12,
        header_of(m.header.id, buf[2], buf[3]) == m.header,
        read16(buf, 0) == Some((m.header.id, 2int)),
        read16(buf, 4) == Some((m.queries.len() as u16, 6int)),
        read16(buf, 6) == Some((m.answers.len() as u16, 8int)),
        read16(buf, 8) == Some((m.name_servers.len() as u16, 10int)),
        read16(buf, 10) == Some((additional_records(m).len() as u16, 12int)),
{
    let all = additional_records(m);
    let n3 = be16(m.name_servers.len() as u16) + be16(all.len() as u16);
    let n2 = be16(m.answers.len() as u16) + n3;
    let n1 = be16(m.queries.len() as u16) + n2;
    let n0 = flag_bytes(m.header) + n1;
    lemma_at_rest(buf, 0, header_bytes(m));
    lemma_at_split(buf, 0, be16(m.header.id), n0);
    lemma_at_split(buf, 2, flag_bytes(m.header), n1);
    lemma_at_split(buf, 4, be16(m.queries.len() as u16), n2);
    lemma_at_split(buf, 6, be16(m.answers.len() as u16), n3);
    lemma_at_split(buf, 8, be16(m.name_servers.len() as u16), be16(all.len() as u16));
    lemma_read16(buf, 0, m.header.id);
    lemma_at_index(buf, 2, flag_bytes(m.header), 0);
    lemma_at_index(buf, 2, flag_bytes(m.header), 1);
    lemma_header_of(m.header);
    lemma_read16(buf, 4, m.queries.len() as u16);
    lemma_read16(buf, 6, m.answers.len() as u16);
    lemma_read16(buf, 8, m.name_servers.len() as u16);
    lemma_read16(buf, 10, all.len() as u16);
}

/// The additional section holds records that the format can carry, and is taken apart again into
/// what it was made from.
proof fn lemma_split_back(m: MessageView)
    requires
        message_ok(m),
    ensures
        forall|i: int|
            0 <= i < additional_records(m).len() ==> record_ok(#[trigger] additional_records(m)[i]),
        split_additional(additional_records(m)) == Some((m.additionals, m.edns)),
{
    let all = additional_records(m);
    assert(no_opt(m.additionals));
    lemma_split_plain(m.additionals);
    match m.edns {
        Some(e) => {
            lemma_edns_of(e);
            assert forall|i: int| 0 <= i < all.len() implies record_ok(#[trigger] all[i]) by {
                if i < m.additionals.len() {
                    assert(all[i] == m.additionals[i]);
                }
            }
            assert(all.drop_last() =~= m.additionals);
        },
        None => {},
    }
}

/// A message that was put into bytes is read back as it was, whatever stands behind it.
pub proof fn law_message_is_read_back(m: MessageView, behind: Seq<u8>)
    requires
        message_ok(m),
    ensures
        read_message(message_bytes(m) + behind) == Some(m),
{
    let buf = message_bytes(m) + behind;
    let all = additional_records(m);
    assert(at(buf, 0, message_bytes(m))) by {
        reveal(at);
        assert(buf.subrange(0, message_bytes(m).len() as int) =~= message_bytes(m));
    }
    let t3 = records_bytes(m.name_servers) + records_bytes(all);
    let t2 = records_bytes(m.answers) + t3;
    let t1 = queries_bytes(m.queries) + t2;
    lemma_at_split(buf, 0, header_bytes(m), t1);
    lemma_read_header(buf, m);
    lemma_at_split(buf, 12, queries_bytes(m.queries), t2);
    let p = 12 + queries_bytes(m.queries).len();
    lemma_at_split(buf, p as int, records_bytes(m.answers), t3);
    let q = p + records_bytes(m.answers).len();
    lemma_at_split(buf, q as int, records_bytes(m.name_servers), records_bytes(all));
    let r = q + records_bytes(m.name_servers).len();
    lemma_split_back(m);
    lemma_read_queries(buf, 12, m.queries);
    lemma_read_records(buf, p as int, m.answers);
    lemma_read_records(buf, q as int, m.name_servers);
    lemma_read_records(buf, r as int, all);
    assert(no_opt(m.answers));
    assert(no_opt(m.name_servers));
}

/// A record that was put into bytes is read back as it was, whatever follows.
pub proof fn law_record_is_read_back(r: RecordView, behind: Seq<u8>)
    requires
        record_ok(r),
    ensures
        read_record(record_bytes(r) + behind, 0) == Some((r, record_bytes(r).len() as int)),
{
    let buf = record_bytes(r) + behind;
    assert(at(buf, 0, record_bytes(r))) by {
        reveal(at);
        assert(buf.subrange(0, record_bytes(r).len() as int) =~= record_bytes(r));
    }
    lemma_read_record(buf, 0, r);
}

/// Different messages are put into different bytes.
pub proof fn law_bytes_tell_messages_apart(a: MessageView, b: MessageView)
    requires
        message_ok(a),
        message_ok(b),
        message_bytes(a) == message_bytes(b),
    ensures
        a == b,
{
    law_message_is_read_back(a, Seq::empty());
    law_message_is_read_back(b, Seq::empty());
}

} // verus!
