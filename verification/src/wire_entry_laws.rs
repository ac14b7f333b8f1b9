//! How the entries of a message are read, whoever wrote them.

use vstd::prelude::*;

use crate::message::{EdnsView, QueryView};
use crate::record::{type_code, DnskeyView, DsView, RDataView, RecordView, SoaView};
use crate::wire_format::{
    edns_of, is_opt, no_opt, read16, read32, read64, read_data, read_message, read_name,
    read_queries, read_query, read_record, read_records, split_additional,
};

verus! {

/// The number in two bytes of a buffer, the more significant first.
pub open spec fn number16(buf: Seq<u8>, pos: int) -> int {
    buf[pos] * 0x100 + buf[pos + 1]
}

/// The number in four bytes of a buffer, the most significant first.
pub open spec fn number32(buf: Seq<u8>, pos: int) -> int {
    buf[pos] * 0x100_0000 + buf[pos + 1] * 0x1_0000 + buf[pos + 2] * 0x100 + buf[pos + 3]
}

/// Numbers are read where all their bytes are there, and nowhere else.
pub proof fn law_numbers_are_read(buf: Seq<u8>, pos: int)
    requires
        0 <= pos,
    ensures
        pos + 2 <= buf.len() ==> read16(buf, pos) == Some((number16(buf, pos) as u16, pos + 2)),
        pos + 2 > buf.len() ==> read16(buf, pos) is None,
        pos + 4 <= buf.len() ==> read32(buf, pos) == Some((number32(buf, pos) as u32, pos + 4)),
        pos + 4 > buf.len() ==> read32(buf, pos) is None,
        pos + 8 <= buf.len() ==> (read64(buf, pos) matches Some((x, end)) && end == pos + 8 && x
            == number32(buf, pos) * 0x1_0000_0000 + number32(buf, pos + 4)),
        pos + 8 > buf.len() ==> read64(buf, pos) is None,
{
    if pos + 4 <= buf.len() {
        lemma_read32_value(buf, pos);
    }
    if pos + 8 <= buf.len() {
        lemma_read32_value(buf, pos + 4);
    }
}

proof fn lemma_read32_value(buf: Seq<u8>, pos: int)
    requires
        0 <= pos,
        pos + 4 <= buf.len(),
    ensures
        read32(buf, pos) == Some((number32(buf, pos) as u32, pos + 4)),
        0 <= number32(buf, pos) <= u32::MAX,
{
    let hi = read16(buf, pos).unwrap().0;
    let lo = read16(buf, pos + 2).unwrap().0;
    assert(hi == number16(buf, pos) && lo == number16(buf, pos + 2));
    assert(hi * 0x1_0000 + lo == number32(buf, pos));
}

/// A question is read behind its name, which may be shortened: two bytes of type, two of class.
pub proof fn law_questions_are_read(buf: Seq<u8>, pos: int, name: Seq<Seq<u8>>, p: int)
    requires
        read_name(buf, pos) == Some((name, p)),
        0 <= p,
    ensures
        p + 4 <= buf.len() ==> (read_query(buf, pos) matches Some((q, end)) && end == p + 4
            && q.name == name && type_code(q.query_type) == number16(buf, p) && q.query_class
            == number16(buf, p + 2)),
        p + 4 > buf.len() ==> read_query(buf, pos) is None,
{
}

/// A record is read behind its name, which may be shortened: two bytes of type, two of class, four
/// of time to live and two of length, and then as much data as the length says.
pub proof fn law_records_are_read(buf: Seq<u8>, pos: int, name: Seq<Seq<u8>>, p: int)
    requires
        read_name(buf, pos) == Some((name, p)),
        0 <= p,
    ensures
        p + 10 <= buf.len() ==> match read_data(
            buf,
            p + 10,
            p + 10 + number16(buf, p + 8),
            number16(buf, p) as u16,
        ) {
            Some(data) => read_record(buf, pos) matches Some((r, end)) && {
                &&& end == p + 10 + number16(buf, p + 8)
                &&& r.name == name
                &&& r.class == number16(buf, p + 2)
                &&& r.ttl == number32(buf, p + 4)
                &&& r.data == data
            },
            None => read_record(buf, pos) is None,
        },
        p + 10 > buf.len() ==> read_record(buf, pos) is None,
{
    if p + 8 <= buf.len() {
        lemma_read32_value(buf, p + 4);
    }
}

/// No entry is read where its name cannot be.
pub proof fn law_no_entry_without_a_name(buf: Seq<u8>, pos: int)
    requires
        read_name(buf, pos) is None,
    ensures
        read_query(buf, pos) is None,
        read_record(buf, pos) is None,
{
}

/// Addresses have four bytes or sixteen, and data of another length is none; without any data there
/// is only the type. Data of a type that is not taken apart is kept as it is.
pub proof fn law_plain_data_is_read(buf: Seq<u8>, pos: int, end: int, code: u16)
    requires
        0 <= pos < end <= buf.len(),
    ensures
        end == pos + 4 ==> read_data(buf, pos, end, 1) == Some(
            RDataView::A(number32(buf, pos) as u32),
        ),
        end != pos + 4 ==> read_data(buf, pos, end, 1) is None,
        end == pos + 16 ==> (read_data(buf, pos, end, 28) matches Some(RDataView::Aaaa { hi, lo })
            && hi == number32(buf, pos) * 0x1_0000_0000 + number32(buf, pos + 4) && lo == number32(
            buf,
            pos + 8,
        ) * 0x1_0000_0000 + number32(buf, pos + 12)),
        end != pos + 16 ==> read_data(buf, pos, end, 28) is None,
        !(seq![1u16, 2, 5, 6, 12, 28, 43, 46, 48].contains(code)) ==> read_data(buf, pos, end, code)
            == Some(RDataView::Unknown { code, data: buf.subrange(pos, end) }),
        read_data(buf, pos, pos, code) matches Some(RDataView::Empty(t)) && type_code(t) == code,
{
    law_numbers_are_read(buf, pos);
    law_numbers_are_read(buf, pos + 8);
    let named = seq![1u16, 2, 5, 6, 12, 28, 43, 46, 48];
    assert(named[0] == 1 && named[1] == 2 && named[2] == 5 && named[3] == 6 && named[4] == 12);
    assert(named[5] == 28 && named[6] == 43 && named[7] == 46 && named[8] == 48);
}

/// Data that is a name may be shortened, and ends where the name does.
pub proof fn law_named_data_is_read(buf: Seq<u8>, pos: int, end: int, name: Seq<Seq<u8>>, p: int)
    requires
        0 <= pos < end <= buf.len(),
        read_name(buf, pos) == Some((name, p)),
    ensures
        p == end ==> {
            &&& read_data(buf, pos, end, 2) == Some(RDataView::Ns(name))
            &&& read_data(buf, pos, end, 5) == Some(RDataView::Cname(name))
            &&& read_data(buf, pos, end, 12) == Some(RDataView::Ptr(name))
        },
        p != end ==> {
            &&& read_data(buf, pos, end, 2) is None
            &&& read_data(buf, pos, end, 5) is None
            &&& read_data(buf, pos, end, 12) is None
        },
{
}

/// The start of authority has two names, which may be shortened, and five numbers.
pub proof fn law_authority_is_read(
    buf: Seq<u8>,
    pos: int,
    mname: Seq<Seq<u8>>,
    p: int,
    rname: Seq<Seq<u8>>,
    q: int,
)
    requires
        0 <= pos,
        read_name(buf, pos) == Some((mname, p)),
        read_name(buf, p) == Some((rname, q)),
        pos < q,
        q + 20 <= buf.len(),
    ensures
        read_data(buf, pos, q + 20, 6) == Some(
            RDataView::Soa(
                SoaView {
                    mname,
                    rname,
                    serial: number32(buf, q) as u32,
                    refresh: number32(buf, q + 4) as u32,
                    retry: number32(buf, q + 8) as u32,
                    expire: number32(buf, q + 12) as u32,
                    minimum: number32(buf, q + 16) as u32,
                },
            ),
        ),
{
    lemma_read32_value(buf, q);
    lemma_read32_value(buf, q + 4);
    lemma_read32_value(buf, q + 8);
    lemma_read32_value(buf, q + 12);
    lemma_read32_value(buf, q + 16);
}

/// Keys and their digests have four bytes of fields, and the rest is the key or the digest.
pub proof fn law_keys_are_read(buf: Seq<u8>, pos: int, end: int)
    requires
        0 <= pos,
        pos + 4 <= end <= buf.len(),
    ensures
        read_data(buf, pos, end, 48) == Some(
            RDataView::Dnskey(
                DnskeyView {
                    flags: number16(buf, pos) as u16,
                    protocol: buf[pos + 2],
                    algorithm: buf[pos + 3],
                    public_key: buf.subrange(pos + 4, end),
                },
            ),
        ),
        read_data(buf, pos, end, 43) == Some(
            RDataView::Ds(
                DsView {
                    key_tag: number16(buf, pos) as u16,
                    algorithm: buf[pos + 2],
                    digest_type: buf[pos + 3],
                    digest: buf.subrange(pos + 4, end),
                },
            ),
        ),
{
}

/// A signature has eighteen bytes of fields, the name of the signer, and the rest is the signature
/// itself.
pub proof fn law_signatures_are_read(buf: Seq<u8>, pos: int, name: Seq<Seq<u8>>, p: int, end: int)
    requires
        0 <= pos,
        pos + 18 <= buf.len(),
        read_name(buf, pos + 18) == Some((name, p)),
        pos < p <= end <= buf.len(),
    ensures
        read_data(buf, pos, end, 46) matches Some(RDataView::Rrsig(r)) && {
            &&& type_code(r.type_covered) == number16(buf, pos)
            &&& r.algorithm == buf[pos + 2]
            &&& r.num_labels == buf[pos + 3]
            &&& r.original_ttl == number32(buf, pos + 4)
            &&& r.sig_expiration == number32(buf, pos + 8)
            &&& r.sig_inception == number32(buf, pos + 12)
            &&& r.key_tag == number16(buf, pos + 16)
            &&& r.signer_name == name
            &&& r.sig == buf.subrange(p, end)
        },
{
    lemma_read32_value(buf, pos + 4);
    lemma_read32_value(buf, pos + 8);
    lemma_read32_value(buf, pos + 12);
}

/// Entries are read one behind the other, as many as are announced.
pub proof fn law_entries_are_read_in_turn(buf: Seq<u8>, pos: int, count: nat)
    ensures
        read_records(buf, pos, 0) == Some((Seq::<RecordView>::empty(), pos)),
        read_queries(buf, pos, 0) == Some((Seq::<QueryView>::empty(), pos)),
        read_records(buf, pos, count) matches Some((some, p)) ==> match read_record(buf, p) {
            Some((r, q)) => read_records(buf, pos, count + 1) == Some((some.push(r), q)),
            None => read_records(buf, pos, count + 1) is None,
        },
        read_queries(buf, pos, count) matches Some((some, p)) ==> match read_query(buf, p) {
            Some((r, q)) => read_queries(buf, pos, count + 1) == Some((some.push(r), q)),
            None => read_queries(buf, pos, count + 1) is None,
        },
{
}

/// Extension options may stand anywhere among the additional records, once and under the root. The
/// other records keep their order.
pub proof fn law_extension_options_stand_apart(
    a: Seq<RecordView>,
    opt: RecordView,
    b: Seq<RecordView>,
)
    requires
        no_opt(a),
        no_opt(b),
        is_opt(opt),
    ensures
        split_additional(a) == Some((a, None::<EdnsView>)),
        opt.name.len() == 0 ==> split_additional(a.push(opt) + b) == Some(
            (a + b, Some(edns_of(opt))),
        ),
        opt.name.len() > 0 ==> split_additional(a.push(opt) + b) is None,
    decreases b.len(),
{
    crate::wire_laws::lemma_split_plain(a);
    if b.len() == 0 {
        assert(a.push(opt) + b =~= a.push(opt));
        assert(a.push(opt).drop_last() =~= a);
        assert(a + b =~= a);
    } else {
        let all = a.push(opt) + b;
        let front = b.drop_last();
        assert forall|i: int| 0 <= i < front.len() implies !is_opt(#[trigger] front[i]) by {
            assert(front[i] == b[i]);
        }
        law_extension_options_stand_apart(a, opt, front);
        assert(all.drop_last() =~= a.push(opt) + front);
        assert(all.last() == b[b.len() - 1]);
        assert((a + front).push(b.last()) =~= a + b);
    }
}

/// Extension options that come twice are refused.
pub proof fn law_extension_options_come_once(records: Seq<RecordView>, i: int, j: int)
    requires
        0 <= i < j < records.len(),
        is_opt(records[i]),
        is_opt(records[j]),
    ensures
        split_additional(records) is None,
    decreases records.len(),
{
    if j < records.len() - 1 {
        law_extension_options_come_once(records.drop_last(), i, j);
    } else if split_additional(records) is Some {
        lemma_opt_is_found(records.drop_last(), i);
    }
}

proof fn lemma_opt_is_found(records: Seq<RecordView>, i: int)
    requires
        0 <= i < records.len(),
        is_opt(records[i]),
        split_additional(records) is Some,
    ensures
        split_additional(records).unwrap().1 is Some,
    decreases records.len(),
{
    if i < records.len() - 1 {
        lemma_opt_is_found(records.drop_last(), i);
    }
}

/// A message is read section by section from the thirteenth byte on, and is one exactly when every
/// section can be read, extension options stand among the additional records only, and are in order
/// there.
pub proof fn law_messages_are_read_by_section(
    buf: Seq<u8>,
    queries: Seq<QueryView>,
    p: int,
    answers: Seq<RecordView>,
    q: int,
    name_servers: Seq<RecordView>,
    r: int,
    all: Seq<RecordView>,
    end: int,
)
    requires
        buf.len() >= 12,
        read_queries(buf, 12, number16(buf, 4) as nat) == Some((queries, p)),
        read_records(buf, p, number16(buf, 6) as nat) == Some((answers, q)),
        read_records(buf, q, number16(buf, 8) as nat) == Some((name_servers, r)),
        read_records(buf, r, number16(buf, 10) as nat) == Some((all, end)),
    ensures
        match split_additional(all) {
            Some((additionals, edns)) => if no_opt(answers) && no_opt(name_servers) {
                read_message(buf) matches Some(m) && {
                    &&& m.queries == queries
                    &&& m.answers == answers
                    &&& m.name_servers == name_servers
                    &&& m.additionals == additionals
                    &&& m.edns == edns
                }
            } else {
                read_message(buf) is None
            },
            None => read_message(buf) is None,
        },
{
}

/// Bytes are no message where they are fewer than twelve, or where a section cannot be read.
pub proof fn law_cut_messages_are_refused(buf: Seq<u8>)
    ensures
        buf.len() < 12 ==> read_message(buf) is None,
        buf.len() >= 12 && read_queries(buf, 12, number16(buf, 4) as nat) is None ==> read_message(
            buf,
        ) is None,
        read_message(buf) is Some ==> {
            let p = read_queries(buf, 12, number16(buf, 4) as nat).unwrap().1;
            let q = read_records(buf, p, number16(buf, 6) as nat).unwrap().1;
            let r = read_records(buf, q, number16(buf, 8) as nat).unwrap().1;
            &&& read_queries(buf, 12, number16(buf, 4) as nat) is Some
            &&& read_records(buf, p, number16(buf, 6) as nat) is Some
            &&& read_records(buf, q, number16(buf, 8) as nat) is Some
            &&& read_records(buf, r, number16(buf, 10) as nat) is Some
        },
{
}

} // verus!
