//! What a signature of a set of records is good for.

use vstd::prelude::*;

use crate::canonical::{
    canonical_order, canonical_record, canonical_records, covered_data, covers,
    law_bytes_are_ordered, law_canonical_order_is_unique, lower_data, set_bytes, to_be_signed,
};
use crate::name::lower_labels;
use crate::record::{RecordType, RecordView, RrsigView};
use crate::wire_format::{data_bytes, name_bytes, rrsig_head_bytes};

verus! {

/// What is signed does not depend on the order in which the records come.
pub proof fn law_signed_bytes_ignore_order(
    name: Seq<Seq<u8>>,
    rrsig: RrsigView,
    records: Seq<RecordView>,
    others: Seq<RecordView>,
    a: Seq<u8>,
    b: Seq<u8>,
)
    requires
        records.to_multiset() == others.to_multiset(),
        to_be_signed(name, rrsig, records, a),
        to_be_signed(name, rrsig, others, b),
    ensures
        a == b,
{
    let x = choose|order: Seq<Seq<u8>>|
        canonical_order(order, covered_data(name, rrsig.type_covered, records)) && a
            == #[trigger] set_bytes(name, rrsig, order);
    let y = choose|order: Seq<Seq<u8>>|
        canonical_order(order, covered_data(name, rrsig.type_covered, others)) && b
            == #[trigger] set_bytes(name, rrsig, order);
    lemma_covered_multiset(name, rrsig.type_covered, records, others);
    law_canonical_order_is_unique(
        x,
        y,
        covered_data(name, rrsig.type_covered, records),
        covered_data(name, rrsig.type_covered, others),
    );
}

/// Taking out one record takes out its data.
proof fn lemma_covered_remove(
    name: Seq<Seq<u8>>,
    covered: RecordType,
    records: Seq<RecordView>,
    k: int,
)
    requires
        0 <= k < records.len(),
    ensures
        covered_data(name, covered, records).to_multiset() == if covers(name, covered, records[k]) {
            covered_data(name, covered, records.remove(k)).to_multiset().insert(
                data_bytes(lower_data(records[k].data)),
            )
        } else {
            covered_data(name, covered, records.remove(k)).to_multiset()
        },
    decreases records.len(),
{
    broadcast use vstd::seq_lib::group_to_multiset_ensures;

    let front = records.drop_last();
    if k == records.len() - 1 {
        assert(records.remove(k) =~= front);
    } else {
        lemma_covered_remove(name, covered, front, k);
        assert(records.remove(k).drop_last() =~= front.remove(k));
        assert(records.remove(k).last() == records.last());
        assert(front[k] == records[k]);
        let item = data_bytes(lower_data(records[k].data));
        let last = data_bytes(lower_data(records.last().data));
        let rest = covered_data(name, covered, front.remove(k)).to_multiset();
        assert(rest.insert(item).insert(last) =~= rest.insert(last).insert(item));
    }
}

proof fn lemma_covered_multiset(
    name: Seq<Seq<u8>>,
    covered: RecordType,
    a: Seq<RecordView>,
    b: Seq<RecordView>,
)
    requires
        a.to_multiset() == b.to_multiset(),
    ensures
        covered_data(name, covered, a).to_multiset() == covered_data(name, covered, b).to_multiset(),
    decreases a.len(),
{
    broadcast use vstd::seq_lib::group_to_multiset_ensures;

    assert(a.len() == b.len()) by {
        assert(a.to_multiset().len() == a.len());
        assert(b.to_multiset().len() == b.len());
    }
    if a.len() == 0 {
        assert(a =~= b);
    } else {
        let n = a.len() - 1;
        let x = a[n];
        assert(a.contains(x));
        assert(a.to_multiset().count(x) > 0);
        assert(b.contains(x));
        let k = choose|k: int| 0 <= k < b.len() && b[k] == x;
        assert(a.remove(n).to_multiset() =~= a.to_multiset().remove(x));
        assert(b.remove(k).to_multiset() =~= b.to_multiset().remove(x));
        lemma_covered_multiset(name, covered, a.remove(n), b.remove(k));
        lemma_covered_remove(name, covered, a, n);
        lemma_covered_remove(name, covered, b, k);
    }
}

/// What is signed of a set of one record.
proof fn lemma_one_signed(name: Seq<Seq<u8>>, rrsig: RrsigView, r: RecordView, bytes: Seq<u8>)
    requires
        covers(name, rrsig.type_covered, r),
        to_be_signed(name, rrsig, seq![r], bytes),
    ensures
        bytes == set_bytes(name, rrsig, seq![data_bytes(lower_data(r.data))]),
{
    let item = data_bytes(lower_data(r.data));
    let records = seq![r];
    assert(records.drop_last() =~= Seq::<RecordView>::empty());
    assert(covered_data(name, rrsig.type_covered, records.drop_last()) =~= Seq::<Seq<u8>>::empty());
    assert(covered_data(name, rrsig.type_covered, records) =~= seq![item]);
    let order = choose|order: Seq<Seq<u8>>|
        canonical_order(order, covered_data(name, rrsig.type_covered, records)) && bytes
            == #[trigger] set_bytes(name, rrsig, order);
    law_bytes_are_ordered(item, item, item);
    assert(canonical_order(seq![item], seq![item]));
    law_canonical_order_is_unique(order, seq![item], seq![item], seq![item]);
}

/// A signature of one record pins its data: the same bytes are signed for two records if and only if
/// their data is the same, but for the case of letters in names.
pub proof fn law_signature_pins_the_data(
    name: Seq<Seq<u8>>,
    rrsig: RrsigView,
    a: RecordView,
    b: RecordView,
    x: Seq<u8>,
    y: Seq<u8>,
)
    requires
        covers(name, rrsig.type_covered, a),
        covers(name, rrsig.type_covered, b),
        to_be_signed(name, rrsig, seq![a], x),
        to_be_signed(name, rrsig, seq![b], y),
    ensures
        (x == y) == (data_bytes(lower_data(a.data)) == data_bytes(lower_data(b.data))),
{
    let p = data_bytes(lower_data(a.data));
    let q = data_bytes(lower_data(b.data));
    lemma_one_signed(name, rrsig, a, x);
    lemma_one_signed(name, rrsig, b, y);
    lemma_set_end(name, rrsig, p);
    lemma_set_end(name, rrsig, q);
    if x == y {
        assert(p.len() == q.len());
        assert(x.subrange(x.len() - p.len(), x.len() as int) == y.subrange(
            y.len() - q.len(),
            y.len() as int,
        ));
    }
}

/// The bytes that are signed for one record end with its data, and the length of what stands before
/// does not depend on it.
proof fn lemma_set_end(name: Seq<Seq<u8>>, rrsig: RrsigView, item: Seq<u8>)
    ensures
        ({
            let bytes = set_bytes(name, rrsig, seq![item]);
            &&& bytes.len() == rrsig_head_bytes(rrsig).len() + name_bytes(
                lower_labels(rrsig.signer_name),
            ).len() + name_bytes(lower_labels(name)).len() + 10 + item.len()
            &&& bytes.subrange(bytes.len() - item.len(), bytes.len() as int) == item
        }),
{
    let bytes = set_bytes(name, rrsig, seq![item]);
    let one = seq![item];
    assert(one.drop_last() =~= Seq::<Seq<u8>>::empty());
    assert(canonical_records(name, rrsig.type_covered, rrsig.original_ttl, one.drop_last())
        =~= Seq::<u8>::empty());
    let record = canonical_record(name, rrsig.type_covered, rrsig.original_ttl, item);
    assert(canonical_records(name, rrsig.type_covered, rrsig.original_ttl, one) =~= record);
    assert(record.subrange(record.len() - item.len(), record.len() as int) =~= item);
    assert(bytes.subrange(bytes.len() - item.len(), bytes.len() as int) =~= item);
}

/// The bytes that the items take, each with so many before it.
spec fn total_len(items: Seq<Seq<u8>>, before: nat) -> nat
    decreases items.len(),
{
    if items.len() == 0 {
        0
    } else {
        total_len(items.drop_last(), before) + before + items.last().len()
    }
}

proof fn lemma_total_remove(items: Seq<Seq<u8>>, before: nat, k: int)
    requires
        0 <= k < items.len(),
    ensures
        total_len(items, before) == total_len(items.remove(k), before) + before + items[k].len(),
    decreases items.len(),
{
    let front = items.drop_last();
    if k == items.len() - 1 {
        assert(items.remove(k) =~= front);
    } else {
        lemma_total_remove(front, before, k);
        assert(items.remove(k).drop_last() =~= front.remove(k));
        assert(items.remove(k).last() == items.last());
    }
}

proof fn lemma_total_multiset(a: Seq<Seq<u8>>, b: Seq<Seq<u8>>, before: nat)
    requires
        a.to_multiset() == b.to_multiset(),
    ensures
        total_len(a, before) == total_len(b, before),
    decreases a.len(),
{
    broadcast use vstd::seq_lib::group_to_multiset_ensures;

    assert(a.len() == b.len()) by {
        assert(a.to_multiset().len() == a.len());
        assert(b.to_multiset().len() == b.len());
    }
    if a.len() > 0 {
        let n = a.len() - 1;
        let x = a[n];
        assert(a.contains(x));
        assert(a.to_multiset().count(x) > 0);
        assert(b.contains(x));
        let k = choose|k: int| 0 <= k < b.len() && b[k] == x;
        assert(a.remove(n).to_multiset() =~= a.to_multiset().remove(x));
        assert(b.remove(k).to_multiset() =~= b.to_multiset().remove(x));
        lemma_total_multiset(a.remove(n), b.remove(k), before);
        lemma_total_remove(a, before, n);
        lemma_total_remove(b, before, k);
    }
}

proof fn lemma_canonical_len(
    name: Seq<Seq<u8>>,
    covered: RecordType,
    original_ttl: u32,
    items: Seq<Seq<u8>>,
)
    ensures
        canonical_records(name, covered, original_ttl, items).len() == total_len(
            items,
            name_bytes(lower_labels(name)).len() + 10,
        ),
    decreases items.len(),
{
    if items.len() > 0 {
        lemma_canonical_len(name, covered, original_ttl, items.drop_last());
    }
}

/// How many bytes are signed for a set.
proof fn lemma_signed_len(
    name: Seq<Seq<u8>>,
    rrsig: RrsigView,
    records: Seq<RecordView>,
    bytes: Seq<u8>,
)
    requires
        to_be_signed(name, rrsig, records, bytes),
    ensures
        bytes.len() == rrsig_head_bytes(rrsig).len() + name_bytes(
            lower_labels(rrsig.signer_name),
        ).len() + total_len(
            covered_data(name, rrsig.type_covered, records),
            name_bytes(lower_labels(name)).len() + 10,
        ),
{
    let order = choose|order: Seq<Seq<u8>>|
        canonical_order(order, covered_data(name, rrsig.type_covered, records)) && bytes
            == #[trigger] set_bytes(name, rrsig, order);
    lemma_canonical_len(name, rrsig.type_covered, rrsig.original_ttl, order);
    lemma_total_multiset(
        order,
        covered_data(name, rrsig.type_covered, records),
        name_bytes(lower_labels(name)).len() + 10,
    );
}

/// A signature covers every record of its set: with one more record that it covers, other bytes
/// are signed. So a signature of some of the records is none of all of them.
pub proof fn law_signature_covers_every_record(
    name: Seq<Seq<u8>>,
    rrsig: RrsigView,
    records: Seq<RecordView>,
    more: RecordView,
    x: Seq<u8>,
    y: Seq<u8>,
)
    requires
        covers(name, rrsig.type_covered, more),
        to_be_signed(name, rrsig, records, x),
        to_be_signed(name, rrsig, records.push(more), y),
    ensures
        x.len() < y.len(),
        x != y,
{
    lemma_signed_len(name, rrsig, records, x);
    lemma_signed_len(name, rrsig, records.push(more), y);
    assert(records.push(more).drop_last() =~= records);
    let items = covered_data(name, rrsig.type_covered, records);
    let item = data_bytes(lower_data(more.data));
    assert(covered_data(name, rrsig.type_covered, records.push(more)) == items.push(item));
    assert(items.push(item).drop_last() =~= items);
}

} // verus!
