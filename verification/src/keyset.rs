//! The keys of a zone, signed in one way or another, and what may come of validating them.

use vstd::prelude::*;

use crate::dnssec::{
    can_sign, delegation, dnskey, key_record, signable, signature, signed_by, signer_ok, time_ok,
    vouches, Proof, Signer, SignerView, KEY_TTL, SIGNATURE_TTL,
};
use crate::local_names::{
    example_name, example_zone, lemma_local_names, www_example, www_example_name,
};
use crate::message::{query_views, record_views, Query, QueryView};
use crate::record::{
    data_type, ipv4, Dnskey, RData, RDataView, Record, RecordType, RecordView, CLASS_IN,
};

verus! {

/// How the keys of a zone are signed.
#[derive(Debug, Clone, Copy, PartialEq, Eq, Structural)]
pub enum KeysetSignature {
    /// All keys, by the key that is trusted.
    Trusted,
    /// All keys, by the key that is not trusted.
    Untrusted,
    /// Not at all.
    Missing,
    /// Only the key that is trusted, by itself.
    TrustedSubset,
}

/// The keys and records of a zone, and the key from which trust comes.
#[derive(Debug)]
pub struct Keyset {
    pub anchor: Dnskey,
    pub keys: Vec<Record>,
    pub records: Vec<Record>,
    pub answer: Record,
}

/// The keys of the zone: the one that is trusted, and behind it the other, unless there is only
/// one.
pub open spec fn zone_keys(single_key: bool, trusted: SignerView, untrusted: SignerView) -> Seq<
    RecordView,
> {
    if single_key {
        seq![key_record(trusted)]
    } else {
        seq![key_record(trusted), key_record(untrusted)]
    }
}

/// The address record of `www.example.`, 192.0.2.1.
pub open spec fn zone_answer() -> RecordView {
    RecordView {
        name: www_example(),
        class: CLASS_IN,
        ttl: KEY_TTL,
        data: RDataView::A(ipv4(192, 0, 2, 1) as u32),
    }
}

/// The signers of the zone and of its parent, the root.
pub open spec fn signers_ok(trusted: SignerView, untrusted: SignerView, parent: SignerView) -> bool {
    &&& signer_ok(trusted) && trusted.name == example_zone()
    &&& signer_ok(untrusted) && untrusted.name == example_zone()
    &&& signer_ok(parent) && parent.name.len() == 0
}

/// Whether these are the signatures of the keys: one, or none.
pub open spec fn keys_signed<F: Fn(&Signer, &Vec<u8>) -> Vec<u8>>(
    sign: F,
    kind: KeysetSignature,
    keys: Seq<RecordView>,
    trusted: Signer,
    untrusted: Signer,
    now: u32,
    part: Seq<RecordView>,
) -> bool {
    match kind {
        KeysetSignature::Trusted => part.len() == 1 && signed_by(
            sign,
            trusted,
            keys,
            now,
            SIGNATURE_TTL,
            part[0],
        ),
        KeysetSignature::Untrusted => part.len() == 1 && signed_by(
            sign,
            untrusted,
            keys,
            now,
            SIGNATURE_TTL,
            part[0],
        ),
        KeysetSignature::Missing => part.len() == 0,
        KeysetSignature::TrustedSubset => part.len() == 1 && signed_by(
            sign,
            trusted,
            keys.take(1),
            now,
            SIGNATURE_TTL,
            part[0],
        ),
    }
}

/// Whether these are the records by which the parent vouches for the trusted key: the signature of
/// the parent's key, that key, the signature of the delegation, and the delegation. None where the
/// zone is not delegated.
pub open spec fn delegated_by<
    F: Fn(&Signer, &Vec<u8>) -> Vec<u8>,
    D: Fn(&Vec<u8>) -> Vec<u8>,
>(
    sign: F,
    digest: D,
    delegated: bool,
    trusted: Signer,
    parent: Signer,
    now: u32,
    part: Seq<RecordView>,
) -> bool {
    if delegated {
        &&& part.len() == 4
        &&& signed_by(sign, parent, seq![key_record(parent@)], now, SIGNATURE_TTL, part[0])
        &&& part[1] == key_record(parent@)
        &&& signed_by(sign, parent, seq![part[3]], now, SIGNATURE_TTL, part[2])
        &&& vouches(digest, trusted@, part[3])
    } else {
        part.len() == 0
    }
}

/// Whether these are the signature of the answer and the answer. The key that is not trusted by
/// itself signs it, unless there is only one key: so it is good only if the keys are.
pub open spec fn answer_signed<F: Fn(&Signer, &Vec<u8>) -> Vec<u8>>(
    sign: F,
    signer: Signer,
    now: u32,
    part: Seq<RecordView>,
) -> bool {
    &&& part.len() == 2
    &&& signed_by(sign, signer, seq![zone_answer()], now, SIGNATURE_TTL, part[0])
    &&& part[1] == zone_answer()
}

/// Whether the records are those of the zone: the keys, their signatures, the records by which the
/// parent vouches, and the answer.
pub open spec fn zone_records<
    F: Fn(&Signer, &Vec<u8>) -> Vec<u8>,
    D: Fn(&Vec<u8>) -> Vec<u8>,
>(
    sign: F,
    digest: D,
    delegated: bool,
    kind: KeysetSignature,
    single_key: bool,
    trusted: Signer,
    untrusted: Signer,
    parent: Signer,
    now: u32,
    signatures: Seq<RecordView>,
    vouching: Seq<RecordView>,
    answers: Seq<RecordView>,
) -> bool {
    let keys = zone_keys(single_key, trusted@, untrusted@);
    &&& keys_signed(sign, kind, keys, trusted, untrusted, now, signatures)
    &&& delegated_by(sign, digest, delegated, trusted, parent, now, vouching)
    &&& answer_signed(
        sign,
        if single_key {
            trusted
        } else {
            untrusted
        },
        now,
        answers,
    )
}

/// Whether a keyset is made for these signers in this way.
pub open spec fn keyset_for<
    F: Fn(&Signer, &Vec<u8>) -> Vec<u8>,
    D: Fn(&Vec<u8>) -> Vec<u8>,
>(
    sign: F,
    digest: D,
    delegated: bool,
    kind: KeysetSignature,
    single_key: bool,
    trusted: Signer,
    untrusted: Signer,
    parent: Signer,
    now: u32,
    r: Keyset,
) -> bool {
    &&& r.anchor@ == if delegated {
        parent@.key
    } else {
        trusted@.key
    }
    &&& record_views(r.keys@) == zone_keys(single_key, trusted@, untrusted@)
    &&& r.answer@ == zone_answer()
    &&& exists|
        signatures: Seq<RecordView>,
        vouching: Seq<RecordView>,
        answers: Seq<RecordView>,
    |
        #[trigger] zone_records(
            sign,
            digest,
            delegated,
            kind,
            single_key,
            trusted,
            untrusted,
            parent,
            now,
            signatures,
            vouching,
            answers,
        ) && record_views(r.records@) == zone_keys(single_key, trusted@, untrusted@) + signatures
            + vouching + answers
}

proof fn lemma_signable()
    ensures
        signable(seq![zone_answer()]),
{
    lemma_local_names();
}

/// A vector of one record.
fn one(record: Record) -> (r: Vec<Record>)
    ensures
        record_views(r@) == seq![record@],
{
    let mut r: Vec<Record> = Vec::new();
    r.push(record);
    assert(record_views(r@) =~= seq![record@]);
    r
}

/// The signatures of the keys: one, or none.
fn sign_keys<F: Fn(&Signer, &Vec<u8>) -> Vec<u8>>(
    kind: KeysetSignature,
    keys: &Vec<Record>,
    trusted: &Signer,
    untrusted: &Signer,
    now: u32,
    sign: &F,
) -> (r: Vec<Record>)
    requires
        signable(record_views(keys@)),
        signer_ok(trusted@),
        signer_ok(untrusted@),
        time_ok(now),
        can_sign(*sign, *trusted),
        can_sign(*sign, *untrusted),
    ensures
        keys_signed(
            *sign,
            kind,
            record_views(keys@),
            *trusted,
            *untrusted,
            now,
            record_views(r@),
        ),
{
    match kind {
        KeysetSignature::Trusted => one(signature(keys, trusted, now, sign)),
        KeysetSignature::Untrusted => one(signature(keys, untrusted, now, sign)),
        KeysetSignature::Missing => Vec::new(),
        KeysetSignature::TrustedSubset => {
            assert(record_views(keys@)[0] == keys@[0]@);
            let first = one(keys[0].clone());
            assert(record_views(first@) =~= record_views(keys@).take(1));
            one(signature(&first, trusted, now, sign))
        },
    }
}

/// The records by which the parent vouches for the trusted key.
fn vouch<F: Fn(&Signer, &Vec<u8>) -> Vec<u8>, D: Fn(&Vec<u8>) -> Vec<u8>>(
    trusted: &Signer,
    parent: &Signer,
    now: u32,
    sign: &F,
    digest: &D,
) -> (r: Vec<Record>)
    requires
        signer_ok(trusted@),
        signer_ok(parent@),
        time_ok(now),
        can_sign(*sign, *parent),
        forall|bytes: Vec<u8>| call_requires(*digest, (&bytes,)),
    ensures
        delegated_by(*sign, *digest, true, *trusted, *parent, now, record_views(r@)),
{
    let parent_key = one(dnskey(parent));
    let ds = one(delegation(trusted, digest));
    let mut r: Vec<Record> = Vec::new();
    r.push(signature(&parent_key, parent, now, sign));
    r.push(dnskey(parent));
    r.push(signature(&ds, parent, now, sign));
    r.push(ds[0].clone());
    assert(record_views(ds@)[0] == ds@[0]@);
    assert(seq![record_views(r@)[3]] =~= record_views(ds@));
    r
}

/// The keys and records of the zone `example.`, delegated by the root or not. `sign` makes
/// signatures, `digest` is SHA-256.
pub fn keyset<F: Fn(&Signer, &Vec<u8>) -> Vec<u8>, D: Fn(&Vec<u8>) -> Vec<u8>>(
    delegated: bool,
    kind: KeysetSignature,
    single_key: bool,
    trusted: &Signer,
    untrusted: &Signer,
    parent: &Signer,
    now: u32,
    sign: &F,
    digest: &D,
) -> (r: Keyset)
    requires
        signers_ok(trusted@, untrusted@, parent@),
        time_ok(now),
        can_sign(*sign, *trusted),
        can_sign(*sign, *untrusted),
        can_sign(*sign, *parent),
        forall|bytes: Vec<u8>| call_requires(*digest, (&bytes,)),
    ensures
        keyset_for(
            *sign,
            *digest,
            delegated,
            kind,
            single_key,
            *trusted,
            *untrusted,
            *parent,
            now,
            r,
        ),
{
    let anchor = if delegated {
        parent.key.clone()
    } else {
        trusted.key.clone()
    };
    let mut keys: Vec<Record> = Vec::new();
    keys.push(dnskey(trusted));
    if !single_key {
        keys.push(dnskey(untrusted));
    }
    let ghost key_views = zone_keys(single_key, trusted@, untrusted@);
    assert(record_views(keys@) =~= key_views);
    let mut records = crate::message::copy_records(&keys);
    let mut signatures = sign_keys(kind, &keys, trusted, untrusted, now, sign);
    let ghost signature_views = record_views(signatures@);
    let mut vouching = if delegated {
        vouch(trusted, parent, now, sign, digest)
    } else {
        Vec::new()
    };
    let ghost vouching_views = record_views(vouching@);
    let answer = Record::from_rdata(www_example_name(), KEY_TTL, RData::a(192, 0, 2, 1));
    let mut answers = one(answer.clone());
    proof {
        lemma_signable();
    }
    let answer_signer = if single_key {
        trusted
    } else {
        untrusted
    };
    answers.insert(0, signature(&answers, answer_signer, now, sign));
    let ghost answer_views = record_views(answers@);
    assert(answer_views[1] == zone_answer());
    assert(zone_records(
        *sign,
        *digest,
        delegated,
        kind,
        single_key,
        *trusted,
        *untrusted,
        *parent,
        now,
        signature_views,
        vouching_views,
        answer_views,
    ));
    records.append(&mut signatures);
    records.append(&mut vouching);
    records.append(&mut answers);
    assert(record_views(records@) =~= key_views + signature_views + vouching_views + answer_views);
    Keyset { anchor, keys, records, answer }
}

/// The questions that are put to a validator: for the keys, and for the answer.
pub fn keyset_queries() -> (r: Vec<Query>)
    ensures
        query_views(r@) == seq![
            QueryView {
                name: example_zone(),
                query_type: RecordType::DNSKEY,
                query_class: CLASS_IN,
            },
            QueryView { name: www_example(), query_type: RecordType::A, query_class: CLASS_IN },
        ],
{
    let mut r: Vec<Query> = Vec::new();
    r.push(Query::query(example_name(), RecordType::DNSKEY));
    r.push(Query::query(www_example_name(), RecordType::A));
    assert(query_views(r@) =~= seq![
        QueryView { name: example_zone(), query_type: RecordType::DNSKEY, query_class: CLASS_IN },
        QueryView { name: www_example(), query_type: RecordType::A, query_class: CLASS_IN },
    ]);
    r
}

/// A record of a validated answer.
#[derive(Debug)]
pub struct Validated {
    pub record: Record,
    pub proof_found: Proof,
}

pub struct ValidatedView {
    pub record: RecordView,
    pub proof_found: Proof,
}

impl View for Validated {
    type V = ValidatedView;

    open spec fn view(&self) -> ValidatedView {
        ValidatedView { record: self.record@, proof_found: self.proof_found }
    }
}

/// The views of the records.
pub open spec fn validated_views(answers: Seq<Validated>) -> Seq<ValidatedView> {
    answers.map_values(|v: Validated| v@)
}

/// The records of an answer that are of the type that was asked for, in their order.
pub open spec fn of_type(answers: Seq<ValidatedView>, query_type: RecordType) -> Seq<ValidatedView> {
    answers.filter(|v: ValidatedView| data_type(v.record.data) == query_type)
}

/// Whether a record must be found secure: where the trusted key signed all keys or is the only one,
/// every record; else the trusted key alone, which comes first among the keys. No other record may
/// be found secure.
pub open spec fn must_be_secure(
    kind: KeysetSignature,
    single_key: bool,
    query_type: RecordType,
    index: int,
) -> bool {
    kind == KeysetSignature::Trusted || single_key || (query_type == RecordType::DNSKEY && index
        == 0)
}

/// Whether a record came out of validation as it must. Where the keys were signed, the time that it
/// may be kept has come down to that of the signature's set.
pub open spec fn record_valid(
    kind: KeysetSignature,
    single_key: bool,
    query_type: RecordType,
    index: int,
    v: ValidatedView,
) -> bool {
    &&& must_be_secure(kind, single_key, query_type, index) == (v.proof_found == Proof::Secure)
    &&& kind == KeysetSignature::Trusted ==> v.record.ttl <= KEY_TTL
}

/// Whether an answer came out of validation as it must: all keys, or the one address, and each as
/// it must.
pub open spec fn answer_valid(
    kind: KeysetSignature,
    single_key: bool,
    query_type: RecordType,
    answers: Seq<ValidatedView>,
) -> bool {
    let found = of_type(answers, query_type);
    &&& found.len() == if query_type == RecordType::DNSKEY && !single_key {
        2int
    } else {
        1int
    }
    &&& forall|i: int|
        0 <= i < found.len() ==> record_valid(kind, single_key, query_type, i, #[trigger] found[i])
}

/// The records that are of the type grow by one that is, and by none that is not.
proof fn lemma_of_type_push(answers: Seq<ValidatedView>, v: ValidatedView, query_type: RecordType)
    ensures
        of_type(answers.push(v), query_type) == if data_type(v.record.data) == query_type {
            of_type(answers, query_type).push(v)
        } else {
            of_type(answers, query_type)
        },
{
    reveal(Seq::filter);
    assert(answers.push(v).drop_last() =~= answers);
}

/// The records that are of the type are at least those of the front.
proof fn lemma_of_type_front(answers: Seq<ValidatedView>, front: int, query_type: RecordType)
    requires
        0 <= front <= answers.len(),
    ensures
        of_type(answers.take(front), query_type).len() <= of_type(answers, query_type).len(),
        forall|i: int|
            0 <= i < of_type(answers.take(front), query_type).len() ==> #[trigger] of_type(
                answers.take(front),
                query_type,
            )[i] == of_type(answers, query_type)[i],
    decreases answers.len(),
{
    if front == answers.len() {
        assert(answers.take(front) =~= answers);
    } else {
        let rest = answers.drop_last();
        lemma_of_type_front(rest, front, query_type);
        assert(rest.take(front) =~= answers.take(front));
        assert(rest.push(answers.last()) =~= answers);
        lemma_of_type_push(rest, answers.last(), query_type);
    }
}

/// Whether an answer came out of validation as it must.
pub fn check_answer(
    kind: KeysetSignature,
    single_key: bool,
    query_type: RecordType,
    answers: &Vec<Validated>,
) -> (r: bool)
    ensures
        r == answer_valid(kind, single_key, query_type, validated_views(answers@)),
{
    let ghost views = validated_views(answers@);
    let mut found: usize = 0;
    let mut i: usize = 0;
    proof {
        reveal(Seq::filter);
    }
    assert(views.take(0) =~= Seq::<ValidatedView>::empty());
    while i < answers.len()
        invariant
            found <= i <= answers.len(),
            views == validated_views(answers@),
            found == of_type(views.take(i as int), query_type).len(),
            forall|j: int|
                0 <= j < found ==> record_valid(
                    kind,
                    single_key,
                    query_type,
                    j,
                    #[trigger] of_type(views.take(i as int), query_type)[j],
                ),
        decreases answers.len() - i,
    {
        let answer = &answers[i];
        proof {
            assert(views[i as int] == answer@);
            assert(views.take(i as int).push(answer@) =~= views.take(i + 1));
            lemma_of_type_push(views.take(i as int), answer@, query_type);
        }
        if answer.record.record_type() == query_type {
            let secure = kind == KeysetSignature::Trusted || single_key || (query_type
                == RecordType::DNSKEY && found == 0);
            let lasting = kind == KeysetSignature::Trusted && answer.record.ttl > KEY_TTL;
            if secure != (answer.proof_found == Proof::Secure) || lasting {
                proof {
                    lemma_of_type_front(views, i + 1, query_type);
                    assert(of_type(views.take(i + 1), query_type)[found as int] == answer@);
                    assert(!record_valid(
                        kind,
                        single_key,
                        query_type,
                        found as int,
                        of_type(views, query_type)[found as int],
                    ));
                }
                return false;
            }
            found += 1;
        }
        i += 1;
    }
    assert(views.take(i as int) =~= views);
    if query_type == RecordType::DNSKEY && !single_key {
        found == 2
    } else {
        found == 1
    }
}

/// Whether a question for a delegation is among the questions.
pub open spec fn asked_for_delegation(queries: Seq<QueryView>) -> bool {
    exists|i: int| 0 <= i < queries.len() && (#[trigger] queries[i]).query_type == RecordType::DS
}

/// Whether the validator asked for the delegation of the zone if and only if it is delegated.
pub fn check_delegation(queries: &Vec<Query>, delegated: bool) -> (r: bool)
    ensures
        r == (asked_for_delegation(query_views(queries@)) == delegated),
{
    let ghost views = query_views(queries@);
    let mut i: usize = 0;
    while i < queries.len()
        invariant
            i <= queries.len(),
            views == query_views(queries@),
            forall|j: int| 0 <= j < i ==> (#[trigger] views[j]).query_type != RecordType::DS,
        decreases queries.len() - i,
    {
        assert(views[i as int] == queries@[i as int]@);
        if queries[i].query_type == RecordType::DS {
            return delegated;
        }
        i += 1;
    }
    !delegated
}

/// Unless the trusted key signed all keys or is the only one, no answer in which the other key or
/// the address was found secure passes: keys that are merely served beside a trusted one are not
/// promoted by it.
pub proof fn law_unsigned_keys_are_not_promoted(
    kind: KeysetSignature,
    query_type: RecordType,
    answers: Seq<ValidatedView>,
    index: int,
)
    requires
        kind != KeysetSignature::Trusted,
        0 <= index < of_type(answers, query_type).len(),
        query_type != RecordType::DNSKEY || index > 0,
        of_type(answers, query_type)[index].proof_found == Proof::Secure,
    ensures
        !answer_valid(kind, false, query_type, answers),
{
    assert(!record_valid(kind, false, query_type, index, of_type(answers, query_type)[index]));
}

} // verus!
