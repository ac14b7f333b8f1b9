//! The canonical order of data, and what of the records stands in the bytes that are signed.

use vstd::prelude::*;

use crate::canonical::{
    bytes_le, canonical_order, canonical_record, canonical_records, covered_data, covers,
    law_bytes_are_ordered, lower_data, set_bytes, to_be_signed,
};
use crate::name::{lower_labels, same_name};
use crate::name_laws::law_same_names_are_the_same_in_small_letters;
use crate::record::{data_type, RDataView, RecordType, RecordView, RrsigView};
use crate::wire_format::{data_bytes, record_bytes};

verus! {

/// The order of data is that of a dictionary: the first byte in which two differ decides, whatever
/// their lengths.
pub proof fn law_the_first_difference_decides(a: Seq<u8>, b: Seq<u8>, i: int)
    requires
        0 <= i < a.len(),
        i < b.len(),
        forall|j: int| 0 <= j < i ==> a[j] == b[j],
        a[i] < b[i],
    ensures
        bytes_le(a, b),
        !bytes_le(b, a),
    decreases i,
{
    if i > 0 {
        let p = a.drop_first();
        let q = b.drop_first();
        assert(a[0] == b[0]);
        assert forall|j: int| 0 <= j < i - 1 implies p[j] == q[j] by {
            assert(a[j + 1] == b[j + 1]);
        }
        law_the_first_difference_decides(p, q, i - 1);
    }
}

/// Data comes before everything that begins with it and goes on.
pub proof fn law_the_shorter_comes_first(a: Seq<u8>, more: Seq<u8>)
    requires
        more.len() > 0,
    ensures
        bytes_le(a, a + more),
        !bytes_le(a + more, a),
    decreases a.len(),
{
    if a.len() > 0 {
        law_the_shorter_comes_first(a.drop_first(), more);
        assert((a + more).drop_first() =~= a.drop_first() + more);
    }
}

/// The set of a signature is signed in the order of a dictionary: of two of its data that stand one
/// behind the other, at the first byte in which they differ that of the first is the smaller, or
/// the first is the beginning of the second.
pub proof fn law_sets_are_signed_in_order(
    order: Seq<Seq<u8>>,
    items: Seq<Seq<u8>>,
    i: int,
    j: int,
    at: int,
)
    requires
        canonical_order(order, items),
        0 <= i < j < order.len(),
        0 <= at < order[i].len(),
        forall|k: int| 0 <= k < at ==> k < order[j].len() && order[i][k] == order[j][k],
        at < order[j].len() ==> order[i][at] != order[j][at],
    ensures
        order.to_multiset() == items.to_multiset(),
        at < order[j].len(),
        order[i][at] < order[j][at],
{
    let a = order[i];
    let b = order[j];
    assert(bytes_le(a, b));
    if at >= b.len() {
        if at > 0 {
            assert(a[at - 1] == b[at - 1]);
        }
        assert(a =~= b + a.skip(b.len() as int));
        law_the_shorter_comes_first(b, a.skip(b.len() as int));
    } else if b[at] < a[at] {
        law_the_first_difference_decides(b, a, at);
    }
}

/// A signature covers a record exactly when it is of the name, in whatever case, of the type, and of
/// the Internet class.
pub proof fn law_which_records_are_covered(
    name: Seq<Seq<u8>>,
    covered: RecordType,
    r: RecordView,
)
    ensures
        covers(name, covered, r) <==> r.class == 1 && data_type(r.data) == covered && lower_labels(
            r.name,
        ) == lower_labels(name),
{
    law_same_names_are_the_same_in_small_letters(r.name, name);
}

/// The data that a signature covers is taken record by record, and of each record that is covered
/// it is the data with small letters, as it stands on the wire.
pub proof fn law_covered_data_is_taken_one_by_one(
    name: Seq<Seq<u8>>,
    covered: RecordType,
    a: Seq<RecordView>,
    b: Seq<RecordView>,
    r: RecordView,
)
    ensures
        covered_data(name, covered, a + b) == covered_data(name, covered, a) + covered_data(
            name,
            covered,
            b,
        ),
        covered_data(name, covered, seq![r]) == if covers(name, covered, r) {
            seq![data_bytes(lower_data(r.data))]
        } else {
            Seq::empty()
        },
    decreases b.len(),
{
    let one = seq![r];
    assert(one.drop_last() =~= Seq::<RecordView>::empty());
    assert(covered_data(name, covered, one.drop_last()) =~= Seq::<Seq<u8>>::empty());
    assert(covered_data(name, covered, one) =~= if covers(name, covered, r) {
        seq![data_bytes(lower_data(r.data))]
    } else {
        Seq::empty()
    });
    if b.len() == 0 {
        assert(a + b =~= a);
        assert(covered_data(name, covered, a) + covered_data(name, covered, b) =~= covered_data(
            name,
            covered,
            a,
        ));
    } else {
        law_covered_data_is_taken_one_by_one(name, covered, a, b.drop_last(), r);
        assert((a + b).drop_last() =~= a + b.drop_last());
        assert((a + b).last() == b.last());
        assert(covered_data(name, covered, a + b) =~= covered_data(name, covered, a)
            + covered_data(name, covered, b));
    }
}

/// Small letters in data: names lose their capitals, and nothing else changes. Data whose names
/// differ only in the case of letters is the same in small letters.
pub proof fn law_small_letters_change_names_only(data: RDataView)
    ensures
        data_type(lower_data(data)) == data_type(data),
        match data {
            RDataView::A(_) => lower_data(data) == data,
            RDataView::Aaaa { .. } => lower_data(data) == data,
            RDataView::Ds(_) => lower_data(data) == data,
            RDataView::Dnskey(_) => lower_data(data) == data,
            RDataView::Empty(_) => lower_data(data) == data,
            RDataView::Unknown { .. } => lower_data(data) == data,
            RDataView::Ns(name) => lower_data(data) == RDataView::Ns(lower_labels(name)),
            RDataView::Cname(name) => lower_data(data) == RDataView::Cname(lower_labels(name)),
            RDataView::Ptr(name) => lower_data(data) == RDataView::Ptr(lower_labels(name)),
            RDataView::Soa(soa) => lower_data(data) matches RDataView::Soa(low) && {
                &&& low.mname == lower_labels(soa.mname)
                &&& low.rname == lower_labels(soa.rname)
                &&& low.serial == soa.serial && low.refresh == soa.refresh
                &&& low.retry == soa.retry && low.expire == soa.expire
                &&& low.minimum == soa.minimum
            },
            RDataView::Rrsig(r) => lower_data(data) matches RDataView::Rrsig(low) && {
                &&& low.signer_name == lower_labels(r.signer_name)
                &&& low.type_covered == r.type_covered && low.algorithm == r.algorithm
                &&& low.num_labels == r.num_labels && low.original_ttl == r.original_ttl
                &&& low.sig_expiration == r.sig_expiration && low.sig_inception == r.sig_inception
                &&& low.key_tag == r.key_tag && low.sig == r.sig
            },
        },
{
}

/// Names that differ only in the case of letters make no difference to what is signed.
pub proof fn law_case_is_not_signed(a: Seq<Seq<u8>>, b: Seq<Seq<u8>>)
    requires
        same_name(a, b),
    ensures
        lower_data(RDataView::Ns(a)) == lower_data(RDataView::Ns(b)),
        lower_data(RDataView::Cname(a)) == lower_data(RDataView::Cname(b)),
        lower_data(RDataView::Ptr(a)) == lower_data(RDataView::Ptr(b)),
        forall|covered: RecordType, ttl: u32, data: Seq<u8>|
            #[trigger] canonical_record(a, covered, ttl, data) == canonical_record(
                b,
                covered,
                ttl,
                data,
            ),
        forall|covered: RecordType, r: RecordView|
            #[trigger] covers(a, covered, r) == covers(b, covered, r),
{
    law_same_names_are_the_same_in_small_letters(a, b);
    assert forall|covered: RecordType, r: RecordView|
        #[trigger] covers(a, covered, r) == covers(b, covered, r) by {
        law_same_names_are_the_same_in_small_letters(r.name, a);
        law_same_names_are_the_same_in_small_letters(r.name, b);
    }
}

/// A record is signed as it would be written, with small letters and the time to live that the
/// signature names.
pub proof fn law_records_are_signed_as_written(
    name: Seq<Seq<u8>>,
    original_ttl: u32,
    data: RDataView,
)
    ensures
        canonical_record(name, data_type(data), original_ttl, data_bytes(data)) == record_bytes(
            RecordView { name: lower_labels(name), class: 1, ttl: original_ttl, data },
        ),
{
}

/// What is signed is the data of the signature as it would be written, with small letters and
/// without the signature itself, and behind it the records of the set one by one.
pub proof fn law_signed_bytes_are_head_and_records(
    name: Seq<Seq<u8>>,
    rrsig: RrsigView,
    a: Seq<Seq<u8>>,
    b: Seq<Seq<u8>>,
    item: Seq<u8>,
)
    ensures
        set_bytes(name, rrsig, Seq::empty()) == data_bytes(
            RDataView::Rrsig(
                RrsigView {
                    signer_name: lower_labels(rrsig.signer_name),
                    sig: Seq::empty(),
                    ..rrsig
                },
            ),
        ),
        set_bytes(name, rrsig, a) == set_bytes(name, rrsig, Seq::empty()) + canonical_records(
            name,
            rrsig.type_covered,
            rrsig.original_ttl,
            a,
        ),
        canonical_records(name, rrsig.type_covered, rrsig.original_ttl, a + b)
            == canonical_records(name, rrsig.type_covered, rrsig.original_ttl, a)
            + canonical_records(name, rrsig.type_covered, rrsig.original_ttl, b),
        canonical_records(name, rrsig.type_covered, rrsig.original_ttl, seq![item])
            == canonical_record(name, rrsig.type_covered, rrsig.original_ttl, item),
    decreases b.len(),
{
    let (t, ttl) = (rrsig.type_covered, rrsig.original_ttl);
    let none = Seq::<Seq<u8>>::empty();
    assert(canonical_records(name, t, ttl, none) =~= Seq::<u8>::empty());
    assert(set_bytes(name, rrsig, none) =~= data_bytes(
        RDataView::Rrsig(
            RrsigView { signer_name: lower_labels(rrsig.signer_name), sig: Seq::empty(), ..rrsig },
        ),
    ));
    assert(set_bytes(name, rrsig, a) =~= set_bytes(name, rrsig, none) + canonical_records(
        name,
        t,
        ttl,
        a,
    ));
    let one = seq![item];
    assert(one.drop_last() =~= none);
    assert(canonical_records(name, t, ttl, one) =~= canonical_record(name, t, ttl, item));
    if b.len() == 0 {
        assert(a + b =~= a);
        assert(canonical_records(name, t, ttl, b) =~= Seq::<u8>::empty());
        assert(canonical_records(name, t, ttl, a) + canonical_records(name, t, ttl, b)
            =~= canonical_records(name, t, ttl, a));
    } else {
        law_signed_bytes_are_head_and_records(name, rrsig, a, b.drop_last(), item);
        assert((a + b).drop_last() =~= a + b.drop_last());
        assert((a + b).last() == b.last());
        assert(canonical_records(name, t, ttl, a + b) =~= canonical_records(name, t, ttl, a)
            + canonical_records(name, t, ttl, b));
    }
}

/// What is signed of one record is the head of the signature and the record as it would be written,
/// with small letters and the time to live that the signature names.
pub proof fn law_one_signed_record(rrsig: RrsigView, r: RecordView, bytes: Seq<u8>)
    requires
        r.class == 1,
        data_type(r.data) == rrsig.type_covered,
        to_be_signed(r.name, rrsig, seq![r], bytes),
    ensures
        bytes == data_bytes(
            RDataView::Rrsig(
                RrsigView {
                    signer_name: lower_labels(rrsig.signer_name),
                    sig: Seq::empty(),
                    ..rrsig
                },
            ),
        ) + record_bytes(
            RecordView {
                name: lower_labels(r.name),
                class: 1,
                ttl: rrsig.original_ttl,
                data: lower_data(r.data),
            },
        ),
{
    let item = data_bytes(lower_data(r.data));
    let items = covered_data(r.name, rrsig.type_covered, seq![r]);
    law_which_records_are_covered(r.name, rrsig.type_covered, r);
    law_covered_data_is_taken_one_by_one(r.name, rrsig.type_covered, seq![r], seq![r], r);
    let order = choose|order: Seq<Seq<u8>>|
        canonical_order(order, items) && bytes == #[trigger] set_bytes(r.name, rrsig, order);
    law_bytes_are_ordered(item, item, item);
    assert(canonical_order(seq![item], seq![item]));
    crate::canonical::law_canonical_order_is_unique(order, seq![item], items, seq![item]);
    law_signed_bytes_are_head_and_records(r.name, rrsig, order, order, item);
    law_small_letters_change_names_only(r.data);
    law_records_are_signed_as_written(r.name, rrsig.original_ttl, lower_data(r.data));
}

/// What is signed of a set: the head of the signature, and behind it every record that the signature
/// covers, once for each time that it comes, in the order of a dictionary.
pub proof fn law_sets_are_signed_whole(
    name: Seq<Seq<u8>>,
    rrsig: RrsigView,
    records: Seq<RecordView>,
    bytes: Seq<u8>,
)
    requires
        to_be_signed(name, rrsig, records, bytes),
    ensures
        exists|order: Seq<Seq<u8>>|
            {
                &&& order.to_multiset() == covered_data(
                    name,
                    rrsig.type_covered,
                    records,
                ).to_multiset()
                &&& forall|i: int, j: int|
                    0 <= i < j < order.len() ==> bytes_le(#[trigger] order[i], #[trigger] order[j])
                &&& bytes == data_bytes(
                    RDataView::Rrsig(
                        RrsigView {
                            signer_name: lower_labels(rrsig.signer_name),
                            sig: Seq::empty(),
                            ..rrsig
                        },
                    ),
                ) + #[trigger] canonical_records(
                    name,
                    rrsig.type_covered,
                    rrsig.original_ttl,
                    order,
                )
            },
{
    let order = choose|order: Seq<Seq<u8>>|
        canonical_order(order, covered_data(name, rrsig.type_covered, records)) && bytes
            == #[trigger] set_bytes(name, rrsig, order);
    law_signed_bytes_are_head_and_records(name, rrsig, order, order, Seq::empty());
    assert(bytes == set_bytes(name, rrsig, Seq::empty()) + canonical_records(
        name,
        rrsig.type_covered,
        rrsig.original_ttl,
        order,
    ));
}

} // verus!
