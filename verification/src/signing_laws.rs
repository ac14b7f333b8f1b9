//! What the fields of keys, signatures and delegations say.

use vstd::prelude::*;

use crate::canonical::{to_be_signed, writable};
use crate::dnssec::{
    digest_input, key_record, key_tag, signable, signature_record, signed_by, signer_ok, tag_sum,
    time_ok, unsigned_rrsig, vouches, Signer, SignerView,
};
use crate::name::{counted_labels, lower_labels, name_ok, same_name};
use crate::name_laws::law_same_names_are_the_same_in_small_letters;
use crate::record::{data_type, DnskeyView, RDataView, RecordView, RrsigView};
use crate::wire_format::{data_bytes, name_bytes};
use crate::wire_write::data_names_ok;

verus! {

/// The sum for a key tag is that of the numbers of two bytes each, the more significant byte first.
/// A single byte at the end counts as the more significant one.
pub proof fn law_tags_sum_numbers_of_two_bytes(a: u8, b: u8, rest: Seq<u8>)
    ensures
        tag_sum(Seq::empty()) == 0,
        tag_sum(seq![a]) == a * 0x100,
        tag_sum(seq![a, b] + rest) == a * 0x100 + b + tag_sum(rest),
    decreases rest.len(),
{
    let one = seq![a];
    let two = seq![a, b];
    assert(one.drop_last() =~= Seq::<u8>::empty());
    assert(two.drop_last() =~= one);
    assert(tag_sum(one.drop_last()) == 0);
    assert(tag_sum(one) == a * 0x100);
    assert(tag_sum(two) == a * 0x100 + b);
    if rest.len() == 0 {
        assert(two + rest =~= two);
    } else {
        law_tags_sum_numbers_of_two_bytes(a, b, rest.drop_last());
        assert((two + rest).drop_last() =~= two + rest.drop_last());
        assert((two + rest).last() == rest.last());
        assert(((two + rest).len() - 1) % 2 == (rest.len() - 1) % 2);
    }
}

/// A key tag is the lower half of the sum over the data of the key, into which its upper half is
/// added once. It depends on every field of the key.
pub proof fn law_key_tags(key: DnskeyView)
    ensures
        ({
            let data = seq![
                (key.flags / 0x100) as u8,
                (key.flags % 0x100) as u8,
                key.protocol,
                key.algorithm,
            ] + key.public_key;
            let sum = tag_sum(data) as int;
            &&& data == data_bytes(RDataView::Dnskey(key))
            &&& key_tag(key) == (sum % 0x1_0000 + sum / 0x1_0000) % 0x1_0000
            &&& sum == key.flags + key.protocol * 0x100 + key.algorithm + tag_sum(key.public_key)
        }),
{
    let (f, g) = ((key.flags / 0x100) as u8, (key.flags % 0x100) as u8);
    let data = seq![f, g, key.protocol, key.algorithm] + key.public_key;
    assert(data =~= data_bytes(RDataView::Dnskey(key)));
    let two = seq![key.protocol, key.algorithm] + key.public_key;
    assert(data =~= seq![f, g] + two);
    law_tags_sum_numbers_of_two_bytes(f, g, two);
    law_tags_sum_numbers_of_two_bytes(key.protocol, key.algorithm, key.public_key);
}

/// What a signature of a set says: it is of the name and the type of the set, made with the key of
/// the signer, good from a minute before it was made to an hour after. It was made over the bytes
/// that are due for the set.
pub proof fn law_fields_of_signatures<F: Fn(&Signer, &Vec<u8>) -> Vec<u8>>(
    sign: F,
    signer: Signer,
    records: Seq<RecordView>,
    now: u32,
    ttl: u32,
    signature: RecordView,
)
    requires
        signed_by(sign, signer, records, now, ttl, signature),
        time_ok(now),
        name_ok(records[0].name),
    ensures
        signature.name == records[0].name,
        signature.class == 1,
        signature.ttl == ttl,
        signature.data matches RDataView::Rrsig(r) && {
            &&& r.type_covered == data_type(records[0].data)
            &&& r.algorithm == signer@.key.algorithm
            &&& r.num_labels == counted_labels(records[0].name)
            &&& r.original_ttl == records[0].ttl
            &&& r.sig_expiration == now + 3600
            &&& r.sig_inception == now - 60
            &&& r.key_tag == key_tag(signer@.key)
            &&& r.signer_name == signer@.name
            &&& exists|bytes: Vec<u8>, sig: Vec<u8>|
                {
                    &&& #[trigger] call_ensures(sign, (&signer, &bytes), sig)
                    &&& sig@ == r.sig
                    &&& to_be_signed(
                        records[0].name,
                        RrsigView { sig: Seq::empty(), ..r },
                        records,
                        bytes@,
                    )
                }
        },
{
    let (bytes, sig) = choose|bytes: Vec<u8>, sig: Vec<u8>|
        {
            &&& #[trigger] call_ensures(sign, (&signer, &bytes), sig)
            &&& to_be_signed(
                records[0].name,
                unsigned_rrsig(records[0], signer@, now),
                records,
                bytes@,
            )
            &&& signature == signature_record(records[0], signer@, now, ttl, sig@)
        };
    let r = signature.data->Rrsig_0;
    crate::name::lemma_labels_bound(records[0].name);
    assert(RrsigView { sig: Seq::empty(), ..r } == unsigned_rrsig(records[0], signer@, now));
    assert(call_ensures(sign, (&signer, &bytes), sig));
}

/// When signatures can be made, and of what: from the first minute of the clock to the last hour
/// that it can count, with a key that fits into a record, of records whose names can be written.
pub proof fn law_when_sets_can_be_signed(now: u32, signer: SignerView, records: Seq<RecordView>)
    ensures
        time_ok(now) <==> 60 <= now && now + 3600 <= 0xffff_ffff,
        signer_ok(signer) <==> name_ok(signer.name) && signer.key.public_key.len() <= 65531,
        signable(records) <==> records.len() > 0 && name_ok(records[0].name) && writable(records),
        writable(records) <==> forall|i: int|
            0 <= i < records.len() ==> data_names_ok((#[trigger] records[i]).data),
        forall|data: RDataView| #[trigger]
            data_names_ok(data) <==> match data {
                RDataView::Ns(name) => name_ok(name),
                RDataView::Cname(name) => name_ok(name),
                RDataView::Ptr(name) => name_ok(name),
                RDataView::Soa(soa) => name_ok(soa.mname) && name_ok(soa.rname),
                RDataView::Rrsig(rrsig) => name_ok(rrsig.signer_name),
                _ => true,
            },
{
}

/// The record of a signer's key stands under the name of the signer and may be kept for five
/// minutes.
pub proof fn law_records_of_keys(signer: SignerView)
    ensures
        key_record(signer).name == signer.name,
        key_record(signer).class == 1,
        key_record(signer).ttl == 300,
        key_record(signer).data == RDataView::Dnskey(signer.key),
{
}

/// What a parent says of a key: its tag, its algorithm, and the digest of the second type over the
/// name in small letters and the data of the key, as both would be written.
pub proof fn law_fields_of_delegations<D: Fn(&Vec<u8>) -> Vec<u8>>(
    digest: D,
    signer: SignerView,
    r: RecordView,
)
    requires
        vouches(digest, signer, r),
    ensures
        r.name == signer.name,
        r.class == 1,
        r.ttl == 300,
        r.data matches RDataView::Ds(ds) && {
            &&& ds.key_tag == key_tag(signer.key)
            &&& ds.algorithm == signer.key.algorithm
            &&& ds.digest_type == 2
            &&& exists|bytes: Vec<u8>, hash: Vec<u8>|
                {
                    &&& #[trigger] call_ensures(digest, (&bytes,), hash)
                    &&& bytes@ == name_bytes(lower_labels(signer.name)) + data_bytes(
                        RDataView::Dnskey(signer.key),
                    )
                    &&& hash@ == ds.digest
                }
        },
{
}

/// The case of the letters of a name makes no difference to the digest of its key.
pub proof fn law_case_is_not_digested(a: Seq<Seq<u8>>, b: Seq<Seq<u8>>, key: DnskeyView)
    requires
        same_name(a, b),
    ensures
        digest_input(a, key) == digest_input(b, key),
{
    law_same_names_are_the_same_in_small_letters(a, b);
}

/// A signer that is made for a zone has a key of the zone that is vouched for from outside, and the
/// one protocol that there is. A signature may be kept for a minute.
pub proof fn law_signers_of_zones(
    name: crate::name::Name,
    public_key: Vec<u8>,
    algorithm: u8,
    r: Signer,
)
    requires
        call_ensures(crate::dnssec::signer, (&name, public_key, algorithm), r),
    ensures
        r@.name == name@,
        r@.key.flags == 0x0101,
        r@.key.protocol == 3,
        r@.key.algorithm == algorithm,
        r@.key.public_key == public_key@,
        crate::dnssec::SIGNATURE_TTL == 60,
{
}

} // verus!
