//! How many bytes things take on the wire.

use vstd::prelude::*;

use crate::message::{MessageView, QueryView};
use crate::name::labels_len;
use crate::record::{RDataView, RecordView};
use crate::wire_format::{
    additional_records, data_bytes, message_bytes, queries_bytes, query_bytes, record_bytes,
    records_bytes,
};
use crate::wire_laws::lemma_name_bytes_len;

verus! {

pub proof fn lemma_query_len(q: QueryView)
    ensures
        query_bytes(q).len() == labels_len(q.name) + 5,
{
    lemma_name_bytes_len(q.name);
}

pub proof fn lemma_record_len(r: RecordView)
    ensures
        record_bytes(r).len() == labels_len(r.name) + 11 + data_bytes(r.data).len(),
{
    lemma_name_bytes_len(r.name);
}

pub proof fn lemma_one_record_len(r: RecordView)
    ensures
        records_bytes(seq![r]).len() == labels_len(r.name) + 11 + data_bytes(r.data).len(),
{
    lemma_record_len(r);
    let all = seq![r];
    assert(all.drop_last() =~= Seq::<RecordView>::empty());
    assert(records_bytes(all.drop_last()).len() == 0);
}

pub proof fn lemma_soa_len(data: RDataView)
    requires
        data is Soa,
    ensures
        data_bytes(data).len() == labels_len(data->Soa_0.mname) + labels_len(data->Soa_0.rname)
            + 22,
{
    lemma_name_bytes_len(data->Soa_0.mname);
    lemma_name_bytes_len(data->Soa_0.rname);
}

/// A message takes twelve bytes for its header, and what its sections take.
pub proof fn lemma_message_len(m: MessageView)
    ensures
        message_bytes(m).len() == 12 + queries_bytes(m.queries).len() + records_bytes(
            m.answers,
        ).len() + records_bytes(m.name_servers).len() + records_bytes(additional_records(m)).len(),
{
}

/// A message with one question, and neither authority nor additional records.
pub proof fn lemma_answer_len(m: MessageView)
    requires
        m.queries.len() == 1,
        m.name_servers.len() == 0,
        m.additionals.len() == 0,
        m.edns is None,
    ensures
        message_bytes(m).len() == 17 + labels_len(m.queries[0].name) + records_bytes(
            m.answers,
        ).len(),
{
    lemma_message_len(m);
    lemma_query_len(m.queries[0]);
    assert(m.queries.drop_last() =~= Seq::<QueryView>::empty());
    assert(queries_bytes(m.queries.drop_last()).len() == 0);
}

} // verus!
