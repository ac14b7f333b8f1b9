//! What a server with the records of a zone answers to the questions of a validator.

use vstd::prelude::*;

use crate::canonical::to_be_signed;
use crate::canonical_laws::law_signature_covers_every_record;
use crate::dnssec::{
    key_record, signed_by, unsigned_rrsig, vouches, Signer, SignerView, SIGNATURE_TTL,
};
use crate::keyset::{signers_ok, zone_answer, zone_keys, zone_records, KeysetSignature};
use crate::local_names::{example_zone, www_example};
use crate::message::QueryView;
use crate::name::{law_same_name_is_equivalence, same_name};
use crate::record::{data_type, RDataView, RecordType, RecordView, CLASS_IN};
use crate::signed_responses::{answers_query, matching};

verus! {

/// A question for the keys of the zone.
pub open spec fn keys_query() -> QueryView {
    QueryView { name: example_zone(), query_type: RecordType::DNSKEY, query_class: CLASS_IN }
}

/// A question for the answer of the zone.
pub open spec fn answer_query() -> QueryView {
    QueryView { name: www_example(), query_type: RecordType::A, query_class: CLASS_IN }
}

/// A question for the delegation of the zone.
pub open spec fn delegation_query() -> QueryView {
    QueryView { name: example_zone(), query_type: RecordType::DS, query_class: CLASS_IN }
}

/// A question for the keys of the root.
pub open spec fn root_keys_query() -> QueryView {
    QueryView { name: Seq::empty(), query_type: RecordType::DNSKEY, query_class: CLASS_IN }
}

/// A signature of this name over records of this type.
spec fn is_signature(r: RecordView, name: Seq<Seq<u8>>, covered: RecordType) -> bool {
    r.name == name && (r.data matches RDataView::Rrsig(rrsig) && rrsig.type_covered == covered)
}

proof fn lemma_signed<F: Fn(&Signer, &Vec<u8>) -> Vec<u8>>(
    sign: F,
    signer: Signer,
    records: Seq<RecordView>,
    now: u32,
    r: RecordView,
)
    requires
        signed_by(sign, signer, records, now, SIGNATURE_TTL, r),
    ensures
        is_signature(r, records[0].name, data_type(records[0].data)),
{
}

proof fn lemma_vouches<D: Fn(&Vec<u8>) -> Vec<u8>>(digest: D, signer: Signer, r: RecordView)
    requires
        vouches(digest, signer@, r),
    ensures
        r.name == signer@.name,
        r.data is Ds,
{
}

/// The names that are asked for are different ones.
proof fn lemma_names_differ()
    ensures
        same_name(example_zone(), example_zone()),
        same_name(www_example(), www_example()),
        same_name(Seq::empty(), Seq::empty()),
        !same_name(example_zone(), www_example()),
        !same_name(www_example(), example_zone()),
        !same_name(Seq::empty(), example_zone()),
        !same_name(example_zone(), Seq::empty()),
        !same_name(Seq::empty(), www_example()),
        !same_name(www_example(), Seq::empty()),
{
    law_same_name_is_equivalence(example_zone(), example_zone(), example_zone());
    law_same_name_is_equivalence(www_example(), www_example(), www_example());
}

/// All records of a part answer the question.
proof fn lemma_all_match(part: Seq<RecordView>, q: QueryView)
    requires
        forall|i: int| 0 <= i < part.len() ==> answers_query(#[trigger] part[i], q),
    ensures
        matching(part, q) == part,
    decreases part.len(),
{
    reveal(Seq::filter);
    if part.len() > 0 {
        assert forall|i: int| 0 <= i < part.drop_last().len() implies answers_query(
            #[trigger] part.drop_last()[i],
            q,
        ) by {
            assert(part.drop_last()[i] == part[i]);
        }
        lemma_all_match(part.drop_last(), q);
        assert(answers_query(part[part.len() - 1], q));
        assert(part =~= part.drop_last().push(part.last()));
    } else {
        assert(matching(part, q) =~= part);
    }
}

/// No record of a part answers the question.
proof fn lemma_none_match(part: Seq<RecordView>, q: QueryView)
    requires
        forall|i: int| 0 <= i < part.len() ==> !answers_query(#[trigger] part[i], q),
    ensures
        matching(part, q) == Seq::<RecordView>::empty(),
    decreases part.len(),
{
    reveal(Seq::filter);
    if part.len() > 0 {
        assert forall|i: int| 0 <= i < part.drop_last().len() implies !answers_query(
            #[trigger] part.drop_last()[i],
            q,
        ) by {
            assert(part.drop_last()[i] == part[i]);
        }
        lemma_none_match(part.drop_last(), q);
        assert(!answers_query(part[part.len() - 1], q));
    } else {
        assert(matching(part, q) =~= Seq::<RecordView>::empty());
    }
}

proof fn lemma_parts(
    keys: Seq<RecordView>,
    signatures: Seq<RecordView>,
    vouching: Seq<RecordView>,
    answers: Seq<RecordView>,
    q: QueryView,
)
    ensures
        matching(keys + signatures + vouching + answers, q) == matching(keys, q) + matching(
            signatures,
            q,
        ) + matching(vouching, q) + matching(answers, q),
{
    let pred = |r: RecordView| answers_query(r, q);
    Seq::filter_distributes_over_add(keys + signatures + vouching, answers, pred);
    Seq::filter_distributes_over_add(keys + signatures, vouching, pred);
    Seq::filter_distributes_over_add(keys, signatures, pred);
}

/// What the records of the zone are like, part by part.
spec fn parts_ok(
    delegated: bool,
    keys: Seq<RecordView>,
    signatures: Seq<RecordView>,
    vouching: Seq<RecordView>,
    answers: Seq<RecordView>,
) -> bool {
    &&& forall|i: int|
        0 <= i < keys.len() ==> (#[trigger] keys[i]).name == example_zone() && keys[i].data is Dnskey
    &&& forall|i: int|
        0 <= i < signatures.len() ==> is_signature(
            #[trigger] signatures[i],
            example_zone(),
            RecordType::DNSKEY,
        )
    &&& if delegated {
        &&& vouching.len() == 4
        &&& is_signature(vouching[0], Seq::empty(), RecordType::DNSKEY)
        &&& vouching[1].name == Seq::<Seq<u8>>::empty() && vouching[1].data is Dnskey
        &&& is_signature(vouching[2], example_zone(), RecordType::DS)
        &&& vouching[3].name == example_zone() && vouching[3].data is Ds
    } else {
        vouching.len() == 0
    }
    &&& answers.len() == 2
    &&& is_signature(answers[0], www_example(), RecordType::A)
    &&& answers[1] == zone_answer()
}

proof fn lemma_zone_parts<F: Fn(&Signer, &Vec<u8>) -> Vec<u8>, D: Fn(&Vec<u8>) -> Vec<u8>>(
    sign: F,
    digest: D,
    delegated: bool,
    kind: KeysetSignature,
    single_key: bool,
    trusted: Signer,
    untrusted: Signer,
    parent: Signer,
    now: u32,
    signatures: Seq<RecordView>,
    vouching: Seq<RecordView>,
    answers: Seq<RecordView>,
)
    requires
        signers_ok(trusted@, untrusted@, parent@),
        zone_records(
            sign,
            digest,
            delegated,
            kind,
            single_key,
            trusted,
            untrusted,
            parent,
            now,
            signatures,
            vouching,
            answers,
        ),
    ensures
        parts_ok(
            delegated,
            zone_keys(single_key, trusted@, untrusted@),
            signatures,
            vouching,
            answers,
        ),
{
    let keys = zone_keys(single_key, trusted@, untrusted@);
    match kind {
        KeysetSignature::Trusted => {
            lemma_signed(sign, trusted, keys, now, signatures[0]);
        },
        KeysetSignature::Untrusted => {
            lemma_signed(sign, untrusted, keys, now, signatures[0]);
        },
        KeysetSignature::Missing => {},
        KeysetSignature::TrustedSubset => {
            lemma_signed(sign, trusted, keys.take(1), now, signatures[0]);
        },
    }
    if delegated {
        lemma_signed(sign, parent, seq![key_record(parent@)], now, vouching[0]);
        assert(vouching[1].name =~= Seq::<Seq<u8>>::empty());
        lemma_vouches(digest, trusted, vouching[3]);
        lemma_signed(sign, parent, seq![vouching[3]], now, vouching[2]);
    }
    let signer = if single_key {
        trusted
    } else {
        untrusted
    };
    lemma_signed(sign, signer, seq![zone_answer()], now, answers[0]);
}

proof fn lemma_answers(
    delegated: bool,
    keys: Seq<RecordView>,
    signatures: Seq<RecordView>,
    vouching: Seq<RecordView>,
    answers: Seq<RecordView>,
)
    requires
        parts_ok(delegated, keys, signatures, vouching, answers),
    ensures
        matching(keys + signatures + vouching + answers, keys_query()) == keys + signatures,
        matching(keys + signatures + vouching + answers, answer_query()) == answers,
{
    lemma_names_differ();
    lemma_parts(keys, signatures, vouching, answers, keys_query());
    lemma_all_match(keys, keys_query());
    lemma_all_match(signatures, keys_query());
    lemma_none_match(vouching, keys_query());
    lemma_none_match(answers, keys_query());
    assert(keys + signatures + Seq::<RecordView>::empty() + Seq::<RecordView>::empty() =~= keys
        + signatures);
    lemma_parts(keys, signatures, vouching, answers, answer_query());
    lemma_none_match(keys, answer_query());
    lemma_none_match(signatures, answer_query());
    lemma_none_match(vouching, answer_query());
    lemma_all_match(answers, answer_query());
    assert(Seq::<RecordView>::empty() + Seq::<RecordView>::empty() + Seq::<RecordView>::empty()
        + answers =~= answers);
}

/// What the records by which the parent vouches answer.
proof fn lemma_vouching_answers(vouching: Seq<RecordView>)
    requires
        vouching.len() == 4,
        is_signature(vouching[0], Seq::empty(), RecordType::DNSKEY),
        vouching[1].name == Seq::<Seq<u8>>::empty() && vouching[1].data is Dnskey,
        is_signature(vouching[2], example_zone(), RecordType::DS),
        vouching[3].name == example_zone() && vouching[3].data is Ds,
    ensures
        matching(vouching, delegation_query()) == vouching.skip(2),
        matching(vouching, root_keys_query()) == vouching.take(2),
{
    lemma_names_differ();
    let a = vouching.take(2);
    let b = vouching.skip(2);
    let none = Seq::<RecordView>::empty();
    assert(vouching =~= a + b);
    lemma_none_match(a, delegation_query());
    lemma_all_match(b, delegation_query());
    Seq::filter_distributes_over_add(a, b, |r: RecordView| answers_query(r, delegation_query()));
    assert(none + b =~= b);
    lemma_all_match(a, root_keys_query());
    lemma_none_match(b, root_keys_query());
    Seq::filter_distributes_over_add(a, b, |r: RecordView| answers_query(r, root_keys_query()));
    assert(a + none =~= a);
}

/// Only the records by which the parent vouches answer a question to which no other part has an
/// answer.
proof fn lemma_only_vouching(
    keys: Seq<RecordView>,
    signatures: Seq<RecordView>,
    vouching: Seq<RecordView>,
    answers: Seq<RecordView>,
    q: QueryView,
)
    requires
        forall|i: int| 0 <= i < keys.len() ==> !answers_query(#[trigger] keys[i], q),
        forall|i: int| 0 <= i < signatures.len() ==> !answers_query(#[trigger] signatures[i], q),
        forall|i: int| 0 <= i < answers.len() ==> !answers_query(#[trigger] answers[i], q),
    ensures
        matching(keys + signatures + vouching + answers, q) == matching(vouching, q),
{
    let none = Seq::<RecordView>::empty();
    lemma_parts(keys, signatures, vouching, answers, q);
    lemma_none_match(keys, q);
    lemma_none_match(signatures, q);
    lemma_none_match(answers, q);
    assert(none + none + matching(vouching, q) + none =~= matching(vouching, q));
}

proof fn lemma_delegation_answers(
    delegated: bool,
    keys: Seq<RecordView>,
    signatures: Seq<RecordView>,
    vouching: Seq<RecordView>,
    answers: Seq<RecordView>,
)
    requires
        parts_ok(delegated, keys, signatures, vouching, answers),
    ensures
        matching(keys + signatures + vouching + answers, delegation_query()) == if delegated {
            vouching.skip(2)
        } else {
            Seq::empty()
        },
        matching(keys + signatures + vouching + answers, root_keys_query()) == if delegated {
            vouching.take(2)
        } else {
            Seq::empty()
        },
{
    lemma_names_differ();
    lemma_only_vouching(keys, signatures, vouching, answers, delegation_query());
    lemma_only_vouching(keys, signatures, vouching, answers, root_keys_query());
    if delegated {
        lemma_vouching_answers(vouching);
    } else {
        lemma_none_match(vouching, delegation_query());
        lemma_none_match(vouching, root_keys_query());
    }
}

/// A server with the records of the zone answers a question for the keys with just the keys, in
/// their order, and their signatures; and a question for the address with it and its signature. It
/// has the delegation and the keys of the root if and only if the zone is delegated.
pub proof fn law_zone_answers<F: Fn(&Signer, &Vec<u8>) -> Vec<u8>, D: Fn(&Vec<u8>) -> Vec<u8>>(
    sign: F,
    digest: D,
    delegated: bool,
    kind: KeysetSignature,
    single_key: bool,
    trusted: Signer,
    untrusted: Signer,
    parent: Signer,
    now: u32,
    signatures: Seq<RecordView>,
    vouching: Seq<RecordView>,
    answers: Seq<RecordView>,
)
    requires
        signers_ok(trusted@, untrusted@, parent@),
        zone_records(
            sign,
            digest,
            delegated,
            kind,
            single_key,
            trusted,
            untrusted,
            parent,
            now,
            signatures,
            vouching,
            answers,
        ),
    ensures
        ({
            let keys = zone_keys(single_key, trusted@, untrusted@);
            let records = keys + signatures + vouching + answers;
            &&& matching(records, keys_query()) == keys + signatures
            &&& matching(records, answer_query()) == answers
            &&& (matching(records, delegation_query()).len() > 0) == delegated
            &&& (matching(records, root_keys_query()).len() > 0) == delegated
            &&& delegated ==> matching(records, delegation_query()) == vouching.skip(2)
            &&& delegated ==> matching(records, root_keys_query()) == vouching.take(2)
        }),
{
    let keys = zone_keys(single_key, trusted@, untrusted@);
    lemma_zone_parts(
        sign,
        digest,
        delegated,
        kind,
        single_key,
        trusted,
        untrusted,
        parent,
        now,
        signatures,
        vouching,
        answers,
    );
    lemma_answers(delegated, keys, signatures, vouching, answers);
    lemma_delegation_answers(delegated, keys, signatures, vouching, answers);
}

/// The signature of the trusted key alone is none of both keys: for those, other bytes would have
/// been signed.
pub proof fn law_signature_of_one_key_does_not_cover_both(
    trusted: SignerView,
    untrusted: SignerView,
    now: u32,
    one: Seq<u8>,
    both: Seq<u8>,
)
    requires
        trusted.name == example_zone(),
        untrusted.name == example_zone(),
        to_be_signed(
            example_zone(),
            unsigned_rrsig(key_record(trusted), trusted, now),
            zone_keys(true, trusted, untrusted),
            one,
        ),
        to_be_signed(
            example_zone(),
            unsigned_rrsig(key_record(trusted), trusted, now),
            zone_keys(false, trusted, untrusted),
            both,
        ),
    ensures
        one != both,
{
    lemma_names_differ();
    assert(zone_keys(false, trusted, untrusted) =~= zone_keys(true, trusted, untrusted).push(
        key_record(untrusted),
    ));
    law_signature_covers_every_record(
        example_zone(),
        unsigned_rrsig(key_record(trusted), trusted, now),
        zone_keys(true, trusted, untrusted),
        key_record(untrusted),
        one,
        both,
    );
}

} // verus!
