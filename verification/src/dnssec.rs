//! Keys of zones, and the signatures that are made with them.

use vstd::prelude::*;

use crate::canonical::{canonical_order, covered_data, set_bytes, tbs, to_be_signed, writable};
use crate::canonical_laws::law_signed_bytes_ignore_order;
use crate::message::record_views;
use crate::name::{counted_labels, lower_labels, name_ok, Name};
use crate::record::{
    data_type, Dnskey, DnskeyView, Ds, DsView, RData, RDataView, Record, RecordView, Rrsig,
    RrsigView, CLASS_IN,
};
use crate::wire_format::{data_bytes, name_bytes, MAX_MESSAGE};
use crate::wire_write::{put_dnskey, put_name};

verus! {

/// The flags of a key that signs a zone and is vouched for from outside.
pub const KEY_FLAGS: u16 = 257;

/// The only protocol that a key may name.
pub const KEY_PROTOCOL: u8 = 3;

/// The digest SHA-256.
pub const SHA256: u8 = 2;

/// The time that a key may be kept, in seconds.
pub const KEY_TTL: u32 = 300;

/// How long a signature is good for, in seconds.
pub const VALIDITY: u32 = 3600;

/// How long before it was made a signature is good already, in seconds.
pub const LEEWAY: u32 = 60;

/// What validation found out about a record.
#[derive(Debug, Clone, Copy, PartialEq, Eq, Structural)]
pub enum Proof {
    /// There is a chain of signatures from a trusted key.
    Secure,
    /// It is proved that there is no such chain.
    Insecure,
    /// There should be such a chain, and there is none.
    Bogus,
    /// Nothing was found out.
    Indeterminate,
}

/// Who signs: the name of a zone and its public key. The private key stays with the caller.
#[derive(Debug)]
pub struct Signer {
    pub name: Name,
    pub key: Dnskey,
}

pub struct SignerView {
    pub name: Seq<Seq<u8>>,
    pub key: DnskeyView,
}

impl View for Signer {
    type V = SignerView;

    open spec fn view(&self) -> SignerView {
        SignerView { name: self.name@, key: self.key@ }
    }
}

/// A signer whose key fits into a record.
pub open spec fn signer_ok(signer: SignerView) -> bool {
    name_ok(signer.name) && signer.key.public_key.len() + 4 <= MAX_MESSAGE
}

/// The sum of the bytes, of which every other one, from the first on, counts 256 times.
pub open spec fn tag_sum(bytes: Seq<u8>) -> nat
    decreases bytes.len(),
{
    if bytes.len() == 0 {
        0
    } else {
        tag_sum(bytes.drop_last()) + (if (bytes.len() - 1) % 2 == 0 {
            bytes.last() as nat * 256
        } else {
            bytes.last() as nat
        })
    }
}

/// The number by which signatures refer to a key: the sum with its upper half added in once, of
/// which the lower sixteen bits count.
pub open spec fn key_tag(key: DnskeyView) -> u16 {
    let sum = tag_sum(data_bytes(RDataView::Dnskey(key))) as int;
    ((sum + sum / 0x1_0000) % 0x1_0000) as u16
}

/// The record of a signer's key.
pub open spec fn key_record(signer: SignerView) -> RecordView {
    RecordView {
        name: signer.name,
        class: CLASS_IN,
        ttl: KEY_TTL,
        data: RDataView::Dnskey(signer.key),
    }
}

/// A signature over the set of a record, but for the signature itself: good for an hour, and
/// already a minute before.
pub open spec fn unsigned_rrsig(record: RecordView, signer: SignerView, now: u32) -> RrsigView {
    RrsigView {
        type_covered: data_type(record.data),
        algorithm: signer.key.algorithm,
        num_labels: counted_labels(record.name) as u8,
        original_ttl: record.ttl,
        sig_expiration: (now + VALIDITY) as u32,
        sig_inception: (now - LEEWAY) as u32,
        key_tag: key_tag(signer.key),
        signer_name: signer.name,
        sig: Seq::empty(),
    }
}

/// The record of a signature over the set of a record.
pub open spec fn signature_record(
    record: RecordView,
    signer: SignerView,
    now: u32,
    ttl: u32,
    sig: Seq<u8>,
) -> RecordView {
    RecordView {
        name: record.name,
        class: CLASS_IN,
        ttl,
        data: RDataView::Rrsig(RrsigView { sig, ..unsigned_rrsig(record, signer, now) }),
    }
}

/// A time at which a signature can be made.
pub open spec fn time_ok(now: u32) -> bool {
    LEEWAY <= now && now + VALIDITY <= u32::MAX
}

/// A set of records that can be signed.
pub open spec fn signable(records: Seq<RecordView>) -> bool {
    records.len() > 0 && name_ok(records[0].name) && writable(records)
}

/// Whether the record is the signature of a set that `sign` makes for the signer.
pub open spec fn signed_by<F: Fn(&Signer, &Vec<u8>) -> Vec<u8>>(
    sign: F,
    signer: Signer,
    records: Seq<RecordView>,
    now: u32,
    ttl: u32,
    signature: RecordView,
) -> bool {
    exists|bytes: Vec<u8>, sig: Vec<u8>|
        {
            &&& #[trigger] call_ensures(sign, (&signer, &bytes), sig)
            &&& to_be_signed(
                records[0].name,
                unsigned_rrsig(records[0], signer@, now),
                records,
                bytes@,
            )
            &&& signature == signature_record(records[0], signer@, now, ttl, sig@)
        }
}

/// Whether `sign` can be asked for the signature of anything by the signer.
pub open spec fn can_sign<F: Fn(&Signer, &Vec<u8>) -> Vec<u8>>(sign: F, signer: Signer) -> bool {
    forall|bytes: Vec<u8>| call_requires(sign, (&signer, &bytes))
}

/// A signer for a zone with this public key.
pub fn signer(name: &Name, public_key: Vec<u8>, algorithm: u8) -> (r: Signer)
    ensures
        r@ == (SignerView {
            name: name@,
            key: DnskeyView {
                flags: KEY_FLAGS,
                protocol: KEY_PROTOCOL,
                algorithm,
                public_key: public_key@,
            },
        }),
{
    Signer {
        name: name.clone(),
        key: Dnskey { flags: KEY_FLAGS, protocol: KEY_PROTOCOL, algorithm, public_key },
    }
}

proof fn lemma_tag_sum_bound(bytes: Seq<u8>)
    ensures
        tag_sum(bytes) <= bytes.len() * 65280,
    decreases bytes.len(),
{
    if bytes.len() > 0 {
        lemma_tag_sum_bound(bytes.drop_last());
    }
}

/// The sum of the bytes, of which every other one, from the first on, counts 256 times.
fn sum_for_tag(bytes: &Vec<u8>) -> (r: u64)
    requires
        bytes.len() <= MAX_MESSAGE,
    ensures
        r == tag_sum(bytes@),
        r <= 0xffff_ffff,
{
    let mut sum: u64 = 0;
    let mut i: usize = 0;
    while i < bytes.len()
        invariant
            i <= bytes.len() <= MAX_MESSAGE,
            sum == tag_sum(bytes@.take(i as int)),
        decreases bytes.len() - i,
    {
        assert(bytes@.take(i + 1).drop_last() =~= bytes@.take(i as int));
        proof {
            lemma_tag_sum_bound(bytes@.take(i as int));
        }
        let weight: u64 = if i % 2 == 0 {
            256
        } else {
            1
        };
        sum = sum + bytes[i] as u64 * weight;
        i += 1;
    }
    assert(bytes@.take(i as int) =~= bytes@);
    proof {
        lemma_tag_sum_bound(bytes@);
    }
    sum
}

impl Dnskey {
    /// The number by which signatures refer to the key.
    pub fn calculate_key_tag(&self) -> (r: u16)
        requires
            self@.public_key.len() + 4 <= MAX_MESSAGE,
        ensures
            r == key_tag(self@),
    {
        let mut bytes: Vec<u8> = Vec::new();
        put_dnskey(&mut bytes, self);
        assert(bytes@ =~= data_bytes(RDataView::Dnskey(self@)));
        let sum: u64 = sum_for_tag(&bytes);
        ((sum + sum / 0x1_0000) % 0x1_0000) as u16
    }
}

impl Clone for Signer {
    fn clone(&self) -> (r: Signer)
        ensures
            r@ == self@,
    {
        Signer { name: self.name.clone(), key: self.key.clone() }
    }
}

/// The record of a signer's key.
pub fn dnskey(signer: &Signer) -> (r: Record)
    ensures
        r@ == key_record(signer@),
{
    Record::from_rdata(signer.name.clone(), KEY_TTL, RData::Dnskey(signer.key.clone()))
}

/// A signature over the set of a record, with these bytes for the signature itself.
fn rrsig(record: &Record, signer: &Signer, now: u32, sig: Vec<u8>) -> (r: Rrsig)
    requires
        name_ok(record@.name),
        signer_ok(signer@),
        time_ok(now),
    ensures
        r@ == (RrsigView { sig: sig@, ..unsigned_rrsig(record@, signer@, now) }),
{
    Rrsig {
        type_covered: record.record_type(),
        algorithm: signer.key.algorithm,
        num_labels: record.name.num_labels(),
        original_ttl: record.ttl,
        sig_expiration: now + VALIDITY,
        sig_inception: now - LEEWAY,
        key_tag: signer.key.calculate_key_tag(),
        signer_name: signer.name.clone(),
        sig,
    }
}

/// Signs a set of records. `sign` makes the signature of bytes with the signer's private key.
fn sign_set<F: Fn(&Signer, &Vec<u8>) -> Vec<u8>>(
    records: &Vec<Record>,
    signer: &Signer,
    now: u32,
    ttl: u32,
    sign: &F,
) -> (r: Record)
    requires
        signable(record_views(records@)),
        signer_ok(signer@),
        time_ok(now),
        can_sign(*sign, *signer),
    ensures
        signed_by(*sign, *signer, record_views(records@), now, ttl, r@),
{
    let ghost views = record_views(records@);
    let record = &records[0];
    assert(record@ == views[0]);
    let empty: Vec<u8> = Vec::new();
    assert(empty@ =~= Seq::<u8>::empty());
    let unsigned = rrsig(record, signer, now, empty);
    let bytes = tbs(&record.name, &unsigned, records);
    let sig = sign(signer, &bytes);
    let signed = rrsig(record, signer, now, sig);
    let r = Record::from_rdata(record.name.clone(), ttl, RData::Rrsig(signed));
    assert(r@ == signature_record(views[0], signer@, now, ttl, sig@));
    r
}

/// The time that the signature of a set may be kept, in seconds.
pub const SIGNATURE_TTL: u32 = 60;

/// The signature of a set of records.
pub fn signature<F: Fn(&Signer, &Vec<u8>) -> Vec<u8>>(
    records: &Vec<Record>,
    signer: &Signer,
    now: u32,
    sign: &F,
) -> (r: Record)
    requires
        signable(record_views(records@)),
        signer_ok(signer@),
        time_ok(now),
        can_sign(*sign, *signer),
    ensures
        signed_by(*sign, *signer, record_views(records@), now, SIGNATURE_TTL, r@),
{
    sign_set(records, signer, now, SIGNATURE_TTL, sign)
}

/// A record and its signature, which may be kept for as long as the record.
pub fn signed<F: Fn(&Signer, &Vec<u8>) -> Vec<u8>>(
    record: Record,
    signer: &Signer,
    now: u32,
    sign: &F,
) -> (r: Vec<Record>)
    requires
        signable(seq![record@]),
        signer_ok(signer@),
        time_ok(now),
        can_sign(*sign, *signer),
    ensures
        r.len() == 2,
        r@[0]@ == record@,
        signed_by(*sign, *signer, seq![record@], now, record@.ttl, r@[1]@),
{
    let ttl: u32 = record.ttl;
    let mut r: Vec<Record> = Vec::new();
    r.push(record);
    assert(record_views(r@) =~= seq![record@]);
    let signature = sign_set(&r, signer, now, ttl, sign);
    r.push(signature);
    r
}

/// A signature can be verified from what is served: the bytes that a verifier works out from the
/// fields of the signature and the records, in whatever order they come, are the ones for which the
/// signature was made.
pub proof fn law_signature_can_be_verified<F: Fn(&Signer, &Vec<u8>) -> Vec<u8>>(
    sign: F,
    signer: Signer,
    records: Seq<RecordView>,
    now: u32,
    ttl: u32,
    signature: RecordView,
    served: Seq<RecordView>,
    worked_out: Seq<u8>,
)
    requires
        signed_by(sign, signer, records, now, ttl, signature),
        served.to_multiset() == records.to_multiset(),
        to_be_signed(signature.name, signature.data->Rrsig_0, served, worked_out),
    ensures
        exists|bytes: Vec<u8>, sig: Vec<u8>|
            {
                &&& #[trigger] call_ensures(sign, (&signer, &bytes), sig)
                &&& bytes@ == worked_out
                &&& sig@ == signature.data->Rrsig_0.sig
            },
{
    let (bytes, sig) = choose|bytes: Vec<u8>, sig: Vec<u8>|
        {
            &&& #[trigger] call_ensures(sign, (&signer, &bytes), sig)
            &&& to_be_signed(
                records[0].name,
                unsigned_rrsig(records[0], signer@, now),
                records,
                bytes@,
            )
            &&& signature == signature_record(records[0], signer@, now, ttl, sig@)
        };
    let name = records[0].name;
    let unsigned = unsigned_rrsig(records[0], signer@, now);
    let rrsig = signature.data->Rrsig_0;
    let order = choose|order: Seq<Seq<u8>>|
        canonical_order(order, covered_data(name, rrsig.type_covered, served)) && worked_out
            == #[trigger] set_bytes(name, rrsig, order);
    assert(set_bytes(name, rrsig, order) == set_bytes(name, unsigned, order));
    assert(to_be_signed(name, unsigned, served, worked_out));
    law_signed_bytes_ignore_order(name, unsigned, served, records, worked_out, bytes@);
}

/// The bytes of which a digest vouches for a key.
pub open spec fn digest_input(name: Seq<Seq<u8>>, key: DnskeyView) -> Seq<u8> {
    name_bytes(lower_labels(name)) + data_bytes(RDataView::Dnskey(key))
}

/// Whether the record is the one by which a parent zone vouches for the signer's key, with the
/// digest that `digest` makes.
pub open spec fn vouches<D: Fn(&Vec<u8>) -> Vec<u8>>(
    digest: D,
    signer: SignerView,
    r: RecordView,
) -> bool {
    exists|bytes: Vec<u8>, hash: Vec<u8>|
        {
            &&& #[trigger] call_ensures(digest, (&bytes,), hash)
            &&& bytes@ == digest_input(signer.name, signer.key)
            &&& r == (RecordView {
                name: signer.name,
                class: CLASS_IN,
                ttl: KEY_TTL,
                data: RDataView::Ds(
                    DsView {
                        key_tag: key_tag(signer.key),
                        algorithm: signer.key.algorithm,
                        digest_type: SHA256,
                        digest: hash@,
                    },
                ),
            })
        }
}

/// The record by which a parent zone vouches for the signer's key. `digest` is SHA-256.
pub fn delegation<D: Fn(&Vec<u8>) -> Vec<u8>>(signer: &Signer, digest: &D) -> (r: Record)
    requires
        signer_ok(signer@),
        forall|bytes: Vec<u8>| call_requires(*digest, (&bytes,)),
    ensures
        vouches(*digest, signer@, r@),
{
    let mut bytes: Vec<u8> = Vec::new();
    proof {
        crate::name::lemma_lower_labels(signer@.name);
    }
    put_name(&mut bytes, &signer.name.to_lowercase());
    put_dnskey(&mut bytes, &signer.key);
    assert(bytes@ =~= digest_input(signer@.name, signer@.key));
    let hash = digest(&bytes);
    Record::from_rdata(
        signer.name.clone(),
        KEY_TTL,
        RData::Ds(
            Ds {
                key_tag: signer.key.calculate_key_tag(),
                algorithm: signer.key.algorithm,
                digest_type: SHA256,
                digest: hash,
            },
        ),
    )
}

} // verus!
