//! A message that was read from bytes is one that can be put into bytes.

use vstd::prelude::*;

use crate::message::MessageView;
use crate::record::{type_code, type_of, type_ok, RecordView};
use crate::wire_format::{
    data_bytes, data_ok, edns_ok, header_of, is_opt, message_bytes, message_ok, no_opt, query_ok,
    read16, read_data, read_message, read_name, read_queries, read_record, read_records, record_ok,
    split_additional, MAX_MESSAGE,
};
use crate::wire_laws::law_message_is_read_back;

verus! {

/// Data that the format can carry once it has been written out: names in it may have stood
/// shortened by a pointer where they were read.
pub open spec fn data_fits(records: Seq<RecordView>) -> bool {
    forall|i: int|
        0 <= i < records.len() ==> data_bytes((#[trigger] records[i]).data).len() <= MAX_MESSAGE
}

/// The same of the records that do not carry the extension options.
spec fn plain_data_fits(records: Seq<RecordView>) -> bool {
    forall|i: int|
        0 <= i < records.len() ==> is_opt(#[trigger] records[i]) || data_bytes(
            records[i].data,
        ).len() <= MAX_MESSAGE
}

proof fn lemma_type_of_ok(code: u16)
    ensures
        type_ok(type_of(code)),
        type_code(type_of(code)) == code,
{
}

proof fn lemma_read_data_ok(buf: Seq<u8>, pos: int, end: int, code: u16)
    requires
        read_data(buf, pos, end, code) is Some,
        data_bytes(read_data(buf, pos, end, code).unwrap()).len() <= MAX_MESSAGE,
    ensures
        data_ok(read_data(buf, pos, end, code).unwrap()),
{
    lemma_type_of_ok(code);
}

proof fn lemma_read_record_ok(buf: Seq<u8>, pos: int)
    requires
        read_record(buf, pos) is Some,
        is_opt(read_record(buf, pos).unwrap().0) || data_bytes(
            read_record(buf, pos).unwrap().0.data,
        ).len() <= MAX_MESSAGE,
    ensures
        record_ok(read_record(buf, pos).unwrap().0),
{
    let (name, p) = read_name(buf, pos).unwrap();
    let code = read16(buf, p).unwrap().0;
    let (len, q) = read16(buf, p + 8).unwrap();
    lemma_read_data_ok(buf, q, q + len, code);
}

/// Records that were read can be written.
proof fn lemma_read_records_ok(buf: Seq<u8>, pos: int, count: nat)
    requires
        read_records(buf, pos, count) is Some,
        plain_data_fits(read_records(buf, pos, count).unwrap().0),
    ensures
        read_records(buf, pos, count).unwrap().0.len() == count,
        forall|i: int|
            0 <= i < count ==> record_ok(#[trigger] read_records(buf, pos, count).unwrap().0[i]),
    decreases count,
{
    if count > 0 {
        let (records, p) = read_records(buf, pos, (count - 1) as nat).unwrap();
        let all = read_records(buf, pos, count).unwrap().0;
        assert(all.drop_last() =~= records);
        assert forall|i: int| 0 <= i < records.len() implies is_opt(#[trigger] records[i])
            || data_bytes(records[i].data).len() <= MAX_MESSAGE by {
            assert(all[i] == records[i]);
        }
        lemma_read_records_ok(buf, pos, (count - 1) as nat);
        assert(all[all.len() - 1] == read_record(buf, p).unwrap().0);
        lemma_read_record_ok(buf, p);
        assert forall|i: int| 0 <= i < count implies record_ok(#[trigger] all[i]) by {
            if i < count - 1 {
                assert(all[i] == records[i]);
            }
        }
    }
}

/// Questions that were read can be written.
pub proof fn lemma_read_queries_ok(buf: Seq<u8>, pos: int, count: nat)
    requires
        read_queries(buf, pos, count) is Some,
    ensures
        read_queries(buf, pos, count).unwrap().0.len() == count,
        forall|i: int|
            0 <= i < count ==> query_ok(#[trigger] read_queries(buf, pos, count).unwrap().0[i]),
    decreases count,
{
    if count > 0 {
        let (queries, p) = read_queries(buf, pos, (count - 1) as nat).unwrap();
        let all = read_queries(buf, pos, count).unwrap().0;
        lemma_read_queries_ok(buf, pos, (count - 1) as nat);
        let (name, q) = read_name(buf, p).unwrap();
        lemma_type_of_ok(read16(buf, q).unwrap().0);
        assert forall|i: int| 0 <= i < count implies query_ok(#[trigger] all[i]) by {
            if i < count - 1 {
                assert(all[i] == queries[i]);
            }
        }
    }
}

proof fn lemma_header_codes(id: u16, a: u8, b: u8)
    ensures
        header_of(id, a, b).op_code < 16,
        header_of(id, a, b).response_code < 16,
{
}

/// The questions and the header of a message that was read can be written.
pub proof fn lemma_read_message_front(buf: Seq<u8>)
    requires
        read_message(buf) is Some,
    ensures
        read_message(buf).unwrap().header.op_code < 16,
        read_message(buf).unwrap().header.response_code < 16,
        read_message(buf).unwrap().queries.len() <= 65535,
        forall|i: int|
            0 <= i < read_message(buf).unwrap().queries.len() ==> query_ok(
                #[trigger] read_message(buf).unwrap().queries[i],
            ),
{
    lemma_header_codes(read16(buf, 0).unwrap().0, buf[2], buf[3]);
    lemma_read_queries_ok(buf, 12, read16(buf, 4).unwrap().0 as nat);
}

/// What an additional section is taken apart into holds no other records than the section.
proof fn lemma_split_parts(records: Seq<RecordView>)
    requires
        split_additional(records) is Some,
        forall|i: int| 0 <= i < records.len() ==> record_ok(#[trigger] records[i]),
    ensures
        ({
            let (rest, edns) = split_additional(records).unwrap();
            &&& rest.len() + (if edns is Some {
                1int
            } else {
                0int
            }) == records.len()
            &&& no_opt(rest)
            &&& edns matches Some(e) ==> edns_ok(e)
            &&& forall|i: int| 0 <= i < rest.len() ==> records.contains(#[trigger] rest[i])
        }),
    decreases records.len(),
{
    if records.len() > 0 {
        let front = records.drop_last();
        assert forall|i: int| 0 <= i < front.len() implies record_ok(#[trigger] front[i]) by {
            assert(front[i] == records[i]);
        }
        lemma_split_parts(front);
        let (rest, edns) = split_additional(records).unwrap();
        let (before, _) = split_additional(front).unwrap();
        assert(records.last() == records[records.len() - 1]);
        assert forall|i: int| 0 <= i < rest.len() implies records.contains(#[trigger] rest[i]) by {
            if i < before.len() {
                assert(front.contains(before[i]));
                let j = choose|j: int| 0 <= j < front.len() && front[j] == before[i];
                assert(records[j] == rest[i]);
            } else {
                assert(records[records.len() - 1] == rest[i]);
            }
        }
    }
}

proof fn lemma_split_fits(records: Seq<RecordView>)
    requires
        split_additional(records) is Some,
        data_fits(split_additional(records).unwrap().0),
    ensures
        plain_data_fits(records),
    decreases records.len(),
{
    if records.len() > 0 {
        let front = records.drop_last();
        let (rest, edns) = split_additional(records).unwrap();
        let (before, edns_before) = split_additional(front).unwrap();
        assert forall|i: int| 0 <= i < before.len() implies data_bytes(
            (#[trigger] before[i]).data,
        ).len() <= MAX_MESSAGE by {
            assert(rest[i] == before[i]);
        }
        lemma_split_fits(front);
        assert forall|i: int| 0 <= i < records.len() implies is_opt(#[trigger] records[i])
            || data_bytes(records[i].data).len() <= MAX_MESSAGE by {
            if i < front.len() {
                assert(front[i] == records[i]);
            } else if !is_opt(records.last()) {
                assert(rest[rest.len() - 1] == records.last());
            }
        }
    }
}

/// What is read can be written: a message that was read from bytes is one that the format can
/// carry, as long as no data outgrows the format when its names are written out in full.
pub proof fn law_what_is_read_can_be_written(buf: Seq<u8>, m: MessageView)
    requires
        read_message(buf) == Some(m),
        data_fits(m.answers),
        data_fits(m.name_servers),
        data_fits(m.additionals),
    ensures
        message_ok(m),
{
    lemma_read_message_front(buf);
    let (queries, p) = read_queries(buf, 12, read16(buf, 4).unwrap().0 as nat).unwrap();
    let n = read16(buf, 6).unwrap().0 as nat;
    let (answers, q) = read_records(buf, p, n).unwrap();
    lemma_read_records_ok(buf, p, n);
    let n = read16(buf, 8).unwrap().0 as nat;
    let (name_servers, r) = read_records(buf, q, n).unwrap();
    lemma_read_records_ok(buf, q, n);
    let n = read16(buf, 10).unwrap().0 as nat;
    let (all, _) = read_records(buf, r, n).unwrap();
    lemma_split_fits(all);
    lemma_read_records_ok(buf, r, n);
    lemma_split_parts(all);
    assert forall|i: int| 0 <= i < m.additionals.len() implies record_ok(
        #[trigger] m.additionals[i],
    ) && !is_opt(m.additionals[i]) by {
        assert(all.contains(m.additionals[i]));
        let j = choose|j: int| 0 <= j < all.len() && all[j] == m.additionals[i];
        assert(record_ok(all[j]));
    }
    assert forall|i: int| 0 <= i < m.answers.len() implies record_ok(#[trigger] m.answers[i])
        && !is_opt(m.answers[i]) by {
        assert(record_ok(answers[i]));
    }
    assert forall|i: int| 0 <= i < m.name_servers.len() implies record_ok(
        #[trigger] m.name_servers[i],
    ) && !is_opt(m.name_servers[i]) by {
        assert(record_ok(name_servers[i]));
    }
}

/// A message that goes back to where it came from is read there as it was read here.
pub proof fn law_echo_is_faithful(buf: Seq<u8>, m: MessageView)
    requires
        read_message(buf) == Some(m),
        data_fits(m.answers),
        data_fits(m.name_servers),
        data_fits(m.additionals),
    ensures
        read_message(message_bytes(m)) == Some(m),
{
    law_what_is_read_can_be_written(buf, m);
    law_message_is_read_back(m, Seq::empty());
    assert(message_bytes(m) + Seq::<u8>::empty() =~= message_bytes(m));
}

} // verus!
