//! Putting messages into bytes.

use vstd::prelude::*;

use crate::message::{
    query_views, record_views, Edns, Header, Message, MessageType, Query, MIN_PAYLOAD,
};
use crate::name::{
    label_ok, labels_len, lemma_labels_len_push, name_ok, Name, MAX_LABEL, MAX_NAME,
};
use crate::record::{
    data_type, type_ok, Dnskey, Ds, RData, RDataView, Record, RecordType, RecordView, Rrsig, Soa,
};
use crate::wire_format::{
    additional_records, be16, be32, be64, bit, data_bytes, data_ok, edns_ok, edns_record,
    flag_bytes, header_bytes, labels_bytes, message_bytes, message_ok, name_bytes, queries_bytes,
    query_bytes, query_ok, record_bytes, record_ok, records_bytes, rrsig_head_bytes, section_ok,
    MAX_MESSAGE,
};

verus! {

/// Puts a number behind the bytes.
pub fn put16(out: &mut Vec<u8>, x: u16)
    ensures
        final(out)@ == old(out)@ + be16(x),
{
    out.push((x / 256) as u8);
    out.push((x % 256) as u8);
    assert(out@ =~= old(out)@ + be16(x));
}

/// Puts a number behind the bytes.
pub fn put32(out: &mut Vec<u8>, x: u32)
    ensures
        final(out)@ == old(out)@ + be32(x),
{
    put16(out, (x / 0x1_0000) as u16);
    put16(out, (x % 0x1_0000) as u16);
    assert(out@ =~= old(out)@ + be32(x));
}

fn put64(out: &mut Vec<u8>, x: u64)
    ensures
        final(out)@ == old(out)@ + be64(x),
{
    put32(out, (x / 0x1_0000_0000) as u32);
    put32(out, (x % 0x1_0000_0000) as u32);
    assert(out@ =~= old(out)@ + be64(x));
}

fn put_bytes(out: &mut Vec<u8>, bytes: &Vec<u8>)
    ensures
        final(out)@ == old(out)@ + bytes@,
{
    out.extend_from_slice(bytes.as_slice());
    assert(out@ =~= old(out)@ + bytes@);
}

/// Puts a name behind the bytes.
pub fn put_name(out: &mut Vec<u8>, name: &Name)
    requires
        name_ok(name@),
    ensures
        final(out)@ == old(out)@ + name_bytes(name@),
{
    let ghost before = out@;
    let mut i: usize = 0;
    assert(name@.take(0) =~= Seq::<Seq<u8>>::empty());
    assert(out@ =~= before + labels_bytes(name@.take(0)));
    while i < name.labels.len()
        invariant
            i <= name.labels.len(),
            name_ok(name@),
            out@ == before + labels_bytes(name@.take(i as int)),
        decreases name.labels.len() - i,
    {
        let label = &name.labels[i];
        assert(label_ok(name@[i as int]));
        assert(name@.take(i + 1).drop_last() =~= name@.take(i as int));
        out.push(label.len() as u8);
        put_bytes(out, label);
        i += 1;
        assert(out@ =~= before + labels_bytes(name@.take(i as int)));
    }
    assert(name@.take(i as int) =~= name@);
    out.push(0);
    assert(out@ =~= before + name_bytes(name@));
}

fn put_soa(out: &mut Vec<u8>, soa: &Soa)
    requires
        name_ok(soa@.mname),
        name_ok(soa@.rname),
    ensures
        final(out)@ == old(out)@ + data_bytes(RDataView::Soa(soa@)),
{
    put_name(out, &soa.mname);
    put_name(out, &soa.rname);
    put32(out, soa.serial);
    put32(out, soa.refresh);
    put32(out, soa.retry);
    put32(out, soa.expire);
    put32(out, soa.minimum);
    assert(out@ =~= old(out)@ + data_bytes(RDataView::Soa(soa@)));
}

/// Puts the fields of a signature up to the name of the signer behind the bytes.
pub fn put_rrsig_head(out: &mut Vec<u8>, rrsig: &Rrsig)
    ensures
        final(out)@ == old(out)@ + rrsig_head_bytes(rrsig@),
{
    put16(out, rrsig.type_covered.code());
    out.push(rrsig.algorithm);
    out.push(rrsig.num_labels);
    put32(out, rrsig.original_ttl);
    put32(out, rrsig.sig_expiration);
    put32(out, rrsig.sig_inception);
    put16(out, rrsig.key_tag);
    assert(out@ =~= old(out)@ + rrsig_head_bytes(rrsig@));
}

fn put_ds(out: &mut Vec<u8>, ds: &Ds)
    ensures
        final(out)@ == old(out)@ + data_bytes(RDataView::Ds(ds@)),
{
    put16(out, ds.key_tag);
    out.push(ds.algorithm);
    out.push(ds.digest_type);
    put_bytes(out, &ds.digest);
    assert(out@ =~= old(out)@ + data_bytes(RDataView::Ds(ds@)));
}

/// Puts a key behind the bytes.
pub fn put_dnskey(out: &mut Vec<u8>, key: &Dnskey)
    ensures
        final(out)@ == old(out)@ + data_bytes(RDataView::Dnskey(key@)),
{
    put16(out, key.flags);
    out.push(key.protocol);
    out.push(key.algorithm);
    put_bytes(out, &key.public_key);
    assert(out@ =~= old(out)@ + data_bytes(RDataView::Dnskey(key@)));
}

/// The names in the data have lengths that a name may have.
pub open spec fn data_names_ok(data: RDataView) -> bool {
    match data {
        RDataView::Ns(name) => name_ok(name),
        RDataView::Cname(name) => name_ok(name),
        RDataView::Ptr(name) => name_ok(name),
        RDataView::Soa(soa) => name_ok(soa.mname) && name_ok(soa.rname),
        RDataView::Rrsig(r) => name_ok(r.signer_name),
        _ => true,
    }
}

/// Puts the data of a record behind the bytes.
pub fn put_data(out: &mut Vec<u8>, data: &RData)
    requires
        data_names_ok(data@),
    ensures
        final(out)@ == old(out)@ + data_bytes(data@),
{
    match data {
        RData::A(address) => {
            put32(out, *address);
        },
        RData::Aaaa { hi, lo } => {
            put64(out, *hi);
            put64(out, *lo);
            assert(out@ =~= old(out)@ + data_bytes(data@));
        },
        RData::Ns(name) => {
            put_name(out, name);
        },
        RData::Cname(name) => {
            put_name(out, name);
        },
        RData::Ptr(name) => {
            put_name(out, name);
        },
        RData::Soa(soa) => {
            put_soa(out, soa);
        },
        RData::Ds(ds) => {
            put_ds(out, ds);
        },
        RData::Rrsig(rrsig) => {
            put_rrsig_head(out, rrsig);
            put_name(out, &rrsig.signer_name);
            put_bytes(out, &rrsig.sig);
            assert(out@ =~= old(out)@ + data_bytes(data@));
        },
        RData::Dnskey(key) => {
            put_dnskey(out, key);
        },
        RData::Empty(_) => {
            assert(out@ =~= old(out)@ + data_bytes(data@));
        },
        RData::Unknown { data: bytes, .. } => {
            put_bytes(out, bytes);
        },
    }
}

/// Puts a record behind the bytes.
pub fn put_record(out: &mut Vec<u8>, record: &Record)
    requires
        record_ok(record@),
    ensures
        final(out)@ == old(out)@ + record_bytes(record@),
{
    let mut data: Vec<u8> = Vec::new();
    put_data(&mut data, &record.data);
    assert(data@ =~= data_bytes(record@.data));
    put_name(out, &record.name);
    put16(out, record.record_type().code());
    put16(out, record.class);
    put32(out, record.ttl);
    put16(out, data.len() as u16);
    put_bytes(out, &data);
    assert(out@ =~= old(out)@ + record_bytes(record@));
}

fn put_records(out: &mut Vec<u8>, records: &Vec<Record>)
    requires
        forall|i: int| 0 <= i < records@.len() ==> record_ok((#[trigger] records@[i])@),
    ensures
        final(out)@ == old(out)@ + records_bytes(record_views(records@)),
{
    let ghost before = out@;
    let ghost views = record_views(records@);
    let mut i: usize = 0;
    assert(views.take(0) =~= Seq::<RecordView>::empty());
    assert(out@ =~= before + records_bytes(views.take(0)));
    while i < records.len()
        invariant
            i <= records.len(),
            views == record_views(records@),
            forall|i: int| 0 <= i < records@.len() ==> record_ok((#[trigger] records@[i])@),
            out@ == before + records_bytes(views.take(i as int)),
        decreases records.len() - i,
    {
        assert(views.take(i + 1).drop_last() =~= views.take(i as int));
        assert(views.take(i + 1).last() == records@[i as int]@);
        put_record(out, &records[i]);
        i += 1;
        assert(out@ =~= before + records_bytes(views.take(i as int)));
    }
    assert(views.take(i as int) =~= views);
}

fn put_query(out: &mut Vec<u8>, query: &Query)
    requires
        query_ok(query@),
    ensures
        final(out)@ == old(out)@ + query_bytes(query@),
{
    put_name(out, &query.name);
    put16(out, query.query_type.code());
    put16(out, query.query_class);
    assert(out@ =~= old(out)@ + query_bytes(query@));
}

fn put_queries(out: &mut Vec<u8>, queries: &Vec<Query>)
    requires
        forall|i: int| 0 <= i < queries@.len() ==> query_ok((#[trigger] queries@[i])@),
    ensures
        final(out)@ == old(out)@ + queries_bytes(query_views(queries@)),
{
    let ghost before = out@;
    let ghost views = query_views(queries@);
    let mut i: usize = 0;
    assert(views.take(0).len() == 0);
    assert(out@ =~= before + queries_bytes(views.take(0)));
    while i < queries.len()
        invariant
            i <= queries.len(),
            views == query_views(queries@),
            forall|i: int| 0 <= i < queries@.len() ==> query_ok((#[trigger] queries@[i])@),
            out@ == before + queries_bytes(views.take(i as int)),
        decreases queries.len() - i,
    {
        assert(views.take(i + 1).drop_last() =~= views.take(i as int));
        assert(views.take(i + 1).last() == queries@[i as int]@);
        put_query(out, &queries[i]);
        i += 1;
        assert(out@ =~= before + queries_bytes(views.take(i as int)));
    }
    assert(views.take(i as int) =~= views);
}

fn flag(b: bool, weight: u8) -> (r: u8)
    ensures
        r == bit(b) * weight,
{
    if b {
        assert(bit(b) * weight == weight) by (nonlinear_arith)
            requires
                bit(b) == 1,
        ;
        weight
    } else {
        assert(bit(b) * weight == 0) by (nonlinear_arith)
            requires
                bit(b) == 0,
        ;
        0
    }
}

fn put_flags(out: &mut Vec<u8>, h: &Header)
    requires
        h.op_code < 16,
        h.response_code < 16,
    ensures
        final(out)@ == old(out)@ + flag_bytes(*h),
{
    let response = match h.message_type {
        MessageType::Response => true,
        MessageType::Query => false,
    };
    let a: u8 = flag(response, 128) + h.op_code * 8 + flag(h.authoritative, 4) + flag(
        h.truncated,
        2,
    ) + flag(h.recursion_desired, 1);
    let b: u8 = flag(h.recursion_available, 128) + flag(h.authentic_data, 32) + flag(
        h.checking_disabled,
        16,
    ) + h.response_code;
    out.push(a);
    out.push(b);
    assert(out@ =~= old(out)@ + flag_bytes(*h));
}

/// Puts the record that carries the extension options behind the bytes.
fn put_edns(out: &mut Vec<u8>, edns: &Edns)
    requires
        edns_ok(edns@),
    ensures
        final(out)@ == old(out)@ + record_bytes(edns_record(edns@)),
{
    let ghost low = bit(edns.dnssec_ok) * 0x8000 + edns.z;
    assert(0 <= low < 0x1_0000);
    let ttl: u32 = edns.rcode_high as u32 * 0x100_0000 + edns.version as u32 * 0x1_0000 + (
    if edns.dnssec_ok {
        0x8000u32
    } else {
        0u32
    }) + edns.z as u32;
    assert(ttl == edns_record(edns@).ttl);
    out.push(0);
    put16(out, 41);
    put16(out, edns.max_payload);
    put32(out, ttl);
    put16(out, edns.options.len() as u16);
    put_bytes(out, &edns.options);
    assert(name_bytes(Seq::<Seq<u8>>::empty()) =~= seq![0u8]);
    assert(data_bytes(edns_record(edns@).data) =~= edns@.options);
    assert(out@ =~= old(out)@ + record_bytes(edns_record(edns@)));
}

impl Name {
    /// Whether the lengths of the labels and of the whole are those that a name may have.
    pub fn is_ok(&self) -> (r: bool)
        ensures
            r == name_ok(self@),
    {
        let mut size: usize = 1;
        let mut i: usize = 0;
        assert(self@.take(0) =~= Seq::<Seq<u8>>::empty());
        while i < self.labels.len()
            invariant
                i <= self.labels.len(),
                size == labels_len(self@.take(i as int)) + 1,
                size <= MAX_NAME,
                forall|j: int| 0 <= j < i ==> label_ok(#[trigger] self@[j]),
            decreases self.labels.len() - i,
        {
            let len: usize = self.labels[i].len();
            assert(self@[i as int].len() == len);
            if len < 1 || len > MAX_LABEL {
                assert(!label_ok(self@[i as int]));
                return false;
            }
            proof {
                lemma_labels_len_push(self@.take(i as int), self@[i as int]);
                assert(self@.take(i as int).push(self@[i as int]) =~= self@.take(i + 1));
                crate::name::lemma_labels_len_add(self@.take(i + 1), self@.skip(i + 1));
                assert(self@.take(i + 1) + self@.skip(i + 1) =~= self@);
            }
            size = size + 1 + len;
            if size > MAX_NAME {
                return false;
            }
            i += 1;
        }
        assert(self@.take(i as int) =~= self@);
        true
    }
}

impl RecordType {
    /// Whether the type is the one that its code stands for.
    pub fn is_ok(self) -> (r: bool)
        ensures
            r == type_ok(self),
    {
        RecordType::from_code(self.code()) == self
    }
}

impl RData {
    /// Whether the format can carry the data.
    pub fn is_ok(&self) -> (r: bool)
        ensures
            r == data_ok(self@),
    {
        let fits = match self {
            RData::A(_) => true,
            RData::Aaaa { .. } => true,
            RData::Ns(name) => name.is_ok(),
            RData::Cname(name) => name.is_ok(),
            RData::Ptr(name) => name.is_ok(),
            RData::Soa(soa) => soa.mname.is_ok() && soa.rname.is_ok(),
            RData::Ds(_) => true,
            RData::Rrsig(rrsig) => rrsig.signer_name.is_ok() && rrsig.type_covered.is_ok(),
            RData::Dnskey(_) => true,
            RData::Empty(t) => t.is_ok(),
            RData::Unknown { code, data } => {
                let code: u16 = *code;
                data.len() > 0 && !(code == 1 || code == 2 || code == 5 || code == 6 || code == 12
                    || code == 28 || code == 43 || code == 46 || code == 48)
            },
        };
        if !fits {
            return false;
        }
        let mut bytes: Vec<u8> = Vec::new();
        put_data(&mut bytes, self);
        assert(bytes@ =~= data_bytes(self@));
        bytes.len() <= MAX_MESSAGE
    }
}

impl Record {
    /// Whether the format can carry the record.
    pub fn is_ok(&self) -> (r: bool)
        ensures
            r == record_ok(self@),
    {
        self.name.is_ok() && self.data.is_ok()
    }
}

fn is_section_ok(records: &Vec<Record>) -> (r: bool)
    ensures
        r == section_ok(record_views(records@)),
{
    if records.len() > 65535 {
        return false;
    }
    let ghost views = record_views(records@);
    let mut i: usize = 0;
    while i < records.len()
        invariant
            i <= records.len() <= 65535,
            views == record_views(records@),
            forall|j: int|
                0 <= j < i ==> record_ok(#[trigger] views[j]) && data_type(views[j].data)
                    != RecordType::OPT,
        decreases records.len() - i,
    {
        if !records[i].is_ok() || records[i].record_type() == RecordType::OPT {
            assert(views[i as int] == records@[i as int]@);
            assert(!section_ok(views));
            return false;
        }
        i += 1;
    }
    true
}

fn are_queries_ok(queries: &Vec<Query>) -> (r: bool)
    ensures
        r == forall|i: int|
            0 <= i < query_views(queries@).len() ==> query_ok(#[trigger] query_views(queries@)[i]),
{
    let ghost views = query_views(queries@);
    let mut i: usize = 0;
    while i < queries.len()
        invariant
            i <= queries.len(),
            views == query_views(queries@),
            forall|j: int| 0 <= j < i ==> query_ok(#[trigger] views[j]),
        decreases queries.len() - i,
    {
        if !queries[i].name.is_ok() || !queries[i].query_type.is_ok() {
            assert(!query_ok(views[i as int]));
            return false;
        }
        i += 1;
    }
    true
}

impl Message {
    /// Whether the format can carry the message.
    pub fn is_ok(&self) -> (r: bool)
        ensures
            r == message_ok(self@),
    {
        let edns_fits = match &self.edns {
            Some(e) => self.additionals.len() < 65535 && e.z < 0x8000 && e.max_payload
                >= MIN_PAYLOAD && e.options.len() <= MAX_MESSAGE,
            None => true,
        };
        edns_fits && self.header.op_code < 16 && self.header.response_code < 16 && self.queries.len()
            <= 65535 && are_queries_ok(&self.queries) && is_section_ok(&self.answers)
            && is_section_ok(&self.name_servers) && is_section_ok(&self.additionals)
    }

    /// Puts the header behind the bytes.
    fn put_header(&self, out: &mut Vec<u8>)
        requires
            message_ok(self@),
        ensures
            final(out)@ == old(out)@ + header_bytes(self@),
    {
        let additional: u16 = self.additionals.len() as u16 + (if self.edns.is_some() {
            1u16
        } else {
            0u16
        });
        assert(additional == additional_records(self@).len());
        put16(out, self.header.id);
        put_flags(out, &self.header);
        put16(out, self.queries.len() as u16);
        put16(out, self.answers.len() as u16);
        put16(out, self.name_servers.len() as u16);
        put16(out, additional);
        assert(out@ =~= old(out)@ + header_bytes(self@));
    }

    /// Puts the additional section behind the bytes.
    fn put_additional(&self, out: &mut Vec<u8>)
        requires
            message_ok(self@),
        ensures
            final(out)@ == old(out)@ + records_bytes(additional_records(self@)),
    {
        proof {
            lemma_section_items(self.additionals@);
        }
        put_records(out, &self.additionals);
        match &self.edns {
            Some(e) => {
                put_edns(out, e);
                assert(additional_records(self@).drop_last() =~= self@.additionals);
                assert(out@ =~= old(out)@ + records_bytes(additional_records(self@)));
            },
            None => {},
        }
    }

    /// The bytes that stand for the message. None where the format cannot carry it or it would be
    /// too long.
    pub fn to_vec(&self) -> (r: Option<Vec<u8>>)
        ensures
            match r {
                Some(bytes) => message_ok(self@) && bytes@ == message_bytes(self@) && bytes.len()
                    <= MAX_MESSAGE,
                None => !message_ok(self@) || message_bytes(self@).len() > MAX_MESSAGE,
            },
    {
        if !self.is_ok() {
            return None;
        }
        proof {
            assert forall|i: int| 0 <= i < self.queries@.len() implies query_ok(
                (#[trigger] self.queries@[i])@,
            ) by {
                assert(self@.queries[i] == self.queries@[i]@);
            }
            lemma_section_items(self.answers@);
            lemma_section_items(self.name_servers@);
        }
        let mut out: Vec<u8> = Vec::new();
        self.put_header(&mut out);
        put_queries(&mut out, &self.queries);
        put_records(&mut out, &self.answers);
        put_records(&mut out, &self.name_servers);
        self.put_additional(&mut out);
        assert(out@ =~= message_bytes(self@));
        if out.len() <= MAX_MESSAGE {
            Some(out)
        } else {
            None
        }
    }
}

impl Record {
    /// The bytes that stand for the record. None where the format cannot carry it.
    pub fn to_bytes(&self) -> (r: Option<Vec<u8>>)
        ensures
            match r {
                Some(bytes) => record_ok(self@) && bytes@ == record_bytes(self@),
                None => !record_ok(self@),
            },
    {
        if !self.is_ok() {
            return None;
        }
        let mut out: Vec<u8> = Vec::new();
        put_record(&mut out, self);
        assert(out@ =~= record_bytes(self@));
        Some(out)
    }
}

/// The records of a section that the format can carry can be written one by one.
proof fn lemma_section_items(records: Seq<Record>)
    requires
        section_ok(record_views(records)),
    ensures
        forall|i: int| 0 <= i < records.len() ==> record_ok((#[trigger] records[i])@),
{
    assert forall|i: int| 0 <= i < records.len() implies record_ok((#[trigger] records[i])@) by {
        assert(record_views(records)[i] == records[i]@);
    }
}

} // verus!
