//! The canonical form and order of records, in which a set of them is signed.

use vstd::prelude::*;

use crate::message::record_views;
use crate::name::{copy_bytes, lemma_lower_labels, lower_labels, name_ok, same_name, Name};
use crate::record::{
    data_type, type_code, RData, RDataView, Record, RecordType, RecordView, Rrsig, RrsigView, Soa,
    SoaView, CLASS_IN,
};
use crate::wire_format::{be16, be32, data_bytes, name_bytes, rrsig_head_bytes};
use crate::wire_laws::lemma_name_bytes_len;
use crate::wire_write::{data_names_ok, put16, put32, put_data, put_name, put_rrsig_head};

verus! {

/// Whether the first bytes come before the second, or are the same: the first byte that differs
/// decides, and else the shorter comes first.
pub open spec fn bytes_le(a: Seq<u8>, b: Seq<u8>) -> bool
    decreases a.len(),
{
    if a.len() == 0 {
        true
    } else if b.len() == 0 {
        false
    } else if a[0] != b[0] {
        a[0] < b[0]
    } else {
        bytes_le(a.drop_first(), b.drop_first())
    }
}

/// Of two strings of bytes one comes first, and only the same string comes both before and after.
pub proof fn law_bytes_are_ordered(a: Seq<u8>, b: Seq<u8>, c: Seq<u8>)
    ensures
        bytes_le(a, a),
        bytes_le(a, b) || bytes_le(b, a),
        bytes_le(a, b) && bytes_le(b, a) ==> a == b,
        bytes_le(a, b) && bytes_le(b, c) ==> bytes_le(a, c),
    decreases a.len() + b.len() + c.len(),
{
    if a.len() > 0 && b.len() > 0 && c.len() > 0 {
        law_bytes_are_ordered(a.drop_first(), b.drop_first(), c.drop_first());
    } else if a.len() > 0 && b.len() > 0 {
        law_bytes_are_ordered(a.drop_first(), b.drop_first(), c);
    } else if a.len() > 0 {
        law_bytes_are_ordered(a.drop_first(), b, c);
    }
    if a.len() > 0 && b.len() > 0 && bytes_le(a, b) && bytes_le(b, a) {
        assert(a =~= seq![a[0]] + a.drop_first());
        assert(b =~= seq![b[0]] + b.drop_first());
    } else if a.len() == 0 && b.len() == 0 {
        assert(a =~= b);
    }
}

/// None of the strings comes before the one in front of it.
pub open spec fn in_order(items: Seq<Seq<u8>>) -> bool {
    forall|i: int, j: int|
        0 <= i <= j < items.len() ==> bytes_le(#[trigger] items[i], #[trigger] items[j])
}

/// The items in their canonical order.
pub open spec fn canonical_order(order: Seq<Seq<u8>>, items: Seq<Seq<u8>>) -> bool {
    &&& order.to_multiset() == items.to_multiset()
    &&& in_order(order)
}

/// The first of the ordered items comes before all of them.
proof fn lemma_least(order: Seq<Seq<u8>>, x: Seq<u8>)
    requires
        in_order(order),
        order.contains(x),
    ensures
        bytes_le(order[0], x),
{
    let i = choose|i: int| 0 <= i < order.len() && order[i] == x;
    assert(bytes_le(order[0], order[i]));
}

/// There is one canonical order: it does not matter in which order the items came.
pub proof fn law_canonical_order_is_unique(
    a: Seq<Seq<u8>>,
    b: Seq<Seq<u8>>,
    items: Seq<Seq<u8>>,
    others: Seq<Seq<u8>>,
)
    requires
        items.to_multiset() == others.to_multiset(),
        canonical_order(a, items),
        canonical_order(b, others),
    ensures
        a == b,
    decreases a.len(),
{
    broadcast use vstd::seq_lib::group_to_multiset_ensures;

    assert(a.len() == b.len()) by {
        assert(a.to_multiset().len() == a.len());
        assert(b.to_multiset().len() == b.len());
    }
    if a.len() == 0 {
        assert(a =~= b);
    } else {
        let x = a[0];
        let y = b[0];
        assert(a.contains(x));
        assert(b.contains(y));
        assert(a.to_multiset().count(y) > 0 && b.to_multiset().count(x) > 0);
        assert(a.contains(y));
        assert(b.contains(x));
        lemma_least(a, y);
        lemma_least(b, x);
        law_bytes_are_ordered(x, y, x);
        let p = a.drop_first();
        let q = b.drop_first();
        assert(a.remove(0) =~= p);
        assert(b.remove(0) =~= q);
        assert(p.to_multiset() =~= a.to_multiset().remove(x));
        assert(q.to_multiset() =~= b.to_multiset().remove(x));
        assert(in_order(p)) by {
            assert forall|i: int, j: int| 0 <= i <= j < p.len() implies bytes_le(
                #[trigger] p[i],
                #[trigger] p[j],
            ) by {
                assert(p[i] == a[i + 1] && p[j] == a[j + 1]);
            }
        }
        assert(in_order(q)) by {
            assert forall|i: int, j: int| 0 <= i <= j < q.len() implies bytes_le(
                #[trigger] q[i],
                #[trigger] q[j],
            ) by {
                assert(q[i] == b[i + 1] && q[j] == b[j + 1]);
            }
        }
        law_canonical_order_is_unique(p, q, p, q);
        assert(a =~= seq![x] + p);
        assert(b =~= seq![y] + q);
    }
}

/// The data with all letters of its names small.
pub open spec fn lower_data(data: RDataView) -> RDataView {
    match data {
        RDataView::Ns(name) => RDataView::Ns(lower_labels(name)),
        RDataView::Cname(name) => RDataView::Cname(lower_labels(name)),
        RDataView::Ptr(name) => RDataView::Ptr(lower_labels(name)),
        RDataView::Soa(soa) => RDataView::Soa(
            SoaView { mname: lower_labels(soa.mname), rname: lower_labels(soa.rname), ..soa },
        ),
        RDataView::Rrsig(rrsig) => RDataView::Rrsig(
            RrsigView { signer_name: lower_labels(rrsig.signer_name), ..rrsig },
        ),
        _ => data,
    }
}

/// Whether a signature over records of the name and the type covers the record.
pub open spec fn covers(name: Seq<Seq<u8>>, covered: RecordType, r: RecordView) -> bool {
    r.class == CLASS_IN && data_type(r.data) == covered && same_name(r.name, name)
}

/// The canonical data of the records that a signature covers, in the order of the records.
pub open spec fn covered_data(
    name: Seq<Seq<u8>>,
    covered: RecordType,
    records: Seq<RecordView>,
) -> Seq<Seq<u8>>
    decreases records.len(),
{
    if records.len() == 0 {
        Seq::empty()
    } else {
        let front = covered_data(name, covered, records.drop_last());
        if covers(name, covered, records.last()) {
            front.push(data_bytes(lower_data(records.last().data)))
        } else {
            front
        }
    }
}

/// A record in canonical form, with the time to live that it had when it was signed.
pub open spec fn canonical_record(
    name: Seq<Seq<u8>>,
    covered: RecordType,
    original_ttl: u32,
    data: Seq<u8>,
) -> Seq<u8> {
    name_bytes(lower_labels(name)) + (be16(type_code(covered)) + (be16(CLASS_IN) + (be32(
        original_ttl,
    ) + (be16(data.len() as u16) + data))))
}

/// Records in canonical form, one behind the other.
pub open spec fn canonical_records(
    name: Seq<Seq<u8>>,
    covered: RecordType,
    original_ttl: u32,
    items: Seq<Seq<u8>>,
) -> Seq<u8>
    decreases items.len(),
{
    if items.len() == 0 {
        Seq::empty()
    } else {
        canonical_records(name, covered, original_ttl, items.drop_last()) + canonical_record(
            name,
            covered,
            original_ttl,
            items.last(),
        )
    }
}

/// The bytes over which a signature of a set is made: its fields but for the signature itself, and
/// the records of the set.
pub open spec fn set_bytes(name: Seq<Seq<u8>>, rrsig: RrsigView, order: Seq<Seq<u8>>) -> Seq<u8> {
    rrsig_head_bytes(rrsig) + (name_bytes(lower_labels(rrsig.signer_name)) + canonical_records(
        name,
        rrsig.type_covered,
        rrsig.original_ttl,
        order,
    ))
}

/// Whether these are the bytes over which a signature of the records is made.
pub open spec fn to_be_signed(
    name: Seq<Seq<u8>>,
    rrsig: RrsigView,
    records: Seq<RecordView>,
    bytes: Seq<u8>,
) -> bool {
    exists|order: Seq<Seq<u8>>|
        canonical_order(order, covered_data(name, rrsig.type_covered, records)) && bytes
            == #[trigger] set_bytes(name, rrsig, order)
}

/// Whether the first bytes come before the second, or are the same.
fn le(a: &Vec<u8>, b: &Vec<u8>) -> (r: bool)
    ensures
        r == bytes_le(a@, b@),
{
    let mut i: usize = 0;
    assert(a@.skip(0) =~= a@);
    assert(b@.skip(0) =~= b@);
    while i < a.len() && i < b.len()
        invariant
            i <= a.len(),
            i <= b.len(),
            bytes_le(a@, b@) == bytes_le(a@.skip(i as int), b@.skip(i as int)),
        decreases a.len() - i,
    {
        assert(a@.skip(i as int).drop_first() =~= a@.skip(i + 1));
        assert(b@.skip(i as int).drop_first() =~= b@.skip(i + 1));
        if a[i] != b[i] {
            return a[i] < b[i];
        }
        i += 1;
    }
    i == a.len()
}

/// The items as bytes.
pub open spec fn item_views(items: Seq<Vec<u8>>) -> Seq<Seq<u8>> {
    items.map_values(|item: Vec<u8>| item@)
}

/// Puts an item where it belongs among ordered ones.
proof fn lemma_insert_in_order(items: Seq<Seq<u8>>, at: int, x: Seq<u8>)
    requires
        in_order(items),
        0 <= at <= items.len(),
        forall|i: int| 0 <= i < at ==> bytes_le(#[trigger] items[i], x),
        at < items.len() ==> bytes_le(x, items[at]),
    ensures
        in_order(items.insert(at, x)),
        items.insert(at, x).to_multiset() == items.to_multiset().insert(x),
{
    broadcast use vstd::seq_lib::group_to_multiset_ensures;

    let all = items.insert(at, x);
    assert(all.remove(at) =~= items);
    assert(all[at] == x);
    assert(all.contains(x));
    assert(all.to_multiset() =~= items.to_multiset().insert(x));
    assert forall|i: int, j: int| 0 <= i <= j < all.len() implies bytes_le(
        #[trigger] all[i],
        #[trigger] all[j],
    ) by {
        let p = if i < at {
            i
        } else {
            i - 1
        };
        let q = if j < at {
            j
        } else {
            j - 1
        };
        if i == at && j == at {
            law_bytes_are_ordered(x, x, x);
        } else if i == at {
            assert(all[j] == items[q]);
            assert(bytes_le(items[at], items[q]));
            law_bytes_are_ordered(x, items[at], items[q]);
        } else if j == at {
            assert(all[i] == items[p]);
        } else {
            assert(all[i] == items[p] && all[j] == items[q]);
        }
    }
}

/// Puts an item where it belongs among ordered ones.
fn insert_item(items: &mut Vec<Vec<u8>>, item: Vec<u8>)
    requires
        in_order(item_views(old(items)@)),
    ensures
        in_order(item_views(final(items)@)),
        item_views(final(items)@).to_multiset() == item_views(old(items)@).to_multiset().insert(
            item@,
        ),
{
    let ghost views = item_views(items@);
    let mut at: usize = 0;
    while at < items.len() && le(&items[at], &item)
        invariant
            at <= items.len(),
            views == item_views(items@),
            forall|i: int| 0 <= i < at ==> bytes_le(#[trigger] views[i], item@),
        decreases items.len() - at,
    {
        assert(views[at as int] == items@[at as int]@);
        at += 1;
    }
    proof {
        if at < items.len() {
            assert(views[at as int] == items@[at as int]@);
            law_bytes_are_ordered(item@, views[at as int], item@);
        }
        lemma_insert_in_order(views, at as int, item@);
    }
    items.insert(at, item);
    assert(item_views(items@) =~= views.insert(at as int, item@));
}

/// The data with all letters of its names small.
fn to_lower_data(data: &RData) -> (r: RData)
    ensures
        r@ == lower_data(data@),
{
    match data {
        RData::Ns(name) => RData::Ns(name.to_lowercase()),
        RData::Cname(name) => RData::Cname(name.to_lowercase()),
        RData::Ptr(name) => RData::Ptr(name.to_lowercase()),
        RData::Soa(soa) => RData::Soa(
            Soa {
                mname: soa.mname.to_lowercase(),
                rname: soa.rname.to_lowercase(),
                serial: soa.serial,
                refresh: soa.refresh,
                retry: soa.retry,
                expire: soa.expire,
                minimum: soa.minimum,
            },
        ),
        RData::Rrsig(rrsig) => RData::Rrsig(
            Rrsig {
                type_covered: rrsig.type_covered,
                algorithm: rrsig.algorithm,
                num_labels: rrsig.num_labels,
                original_ttl: rrsig.original_ttl,
                sig_expiration: rrsig.sig_expiration,
                sig_inception: rrsig.sig_inception,
                key_tag: rrsig.key_tag,
                signer_name: rrsig.signer_name.to_lowercase(),
                sig: copy_bytes(&rrsig.sig),
            },
        ),
        _ => data.clone(),
    }
}

/// Small letters in its names leave data one that can be written, of the same length.
proof fn lemma_lower_data(data: RDataView)
    requires
        data_names_ok(data),
    ensures
        data_names_ok(lower_data(data)),
        data_bytes(lower_data(data)).len() == data_bytes(data).len(),
{
    match data {
        RDataView::Ns(name) => {
            lemma_lower_name(name);
        },
        RDataView::Cname(name) => {
            lemma_lower_name(name);
        },
        RDataView::Ptr(name) => {
            lemma_lower_name(name);
        },
        RDataView::Soa(soa) => {
            lemma_lower_name(soa.mname);
            lemma_lower_name(soa.rname);
        },
        RDataView::Rrsig(rrsig) => {
            lemma_lower_name(rrsig.signer_name);
        },
        _ => {},
    }
}

proof fn lemma_lower_name(name: Seq<Seq<u8>>)
    ensures
        name_ok(name) ==> name_ok(lower_labels(name)),
        name_bytes(lower_labels(name)).len() == name_bytes(name).len(),
{
    lemma_lower_labels(name);
    lemma_name_bytes_len(name);
    lemma_name_bytes_len(lower_labels(name));
}

/// Records whose data can be written.
pub open spec fn writable(records: Seq<RecordView>) -> bool {
    forall|i: int| 0 <= i < records.len() ==> data_names_ok((#[trigger] records[i]).data)
}

/// The canonical data of the records that a signature covers, in canonical order.
fn ordered_data(name: &Name, covered: RecordType, records: &Vec<Record>) -> (r: Vec<Vec<u8>>)
    requires
        writable(record_views(records@)),
    ensures
        canonical_order(item_views(r@), covered_data(name@, covered, record_views(records@))),
{
    let ghost views = record_views(records@);
    let mut items: Vec<Vec<u8>> = Vec::new();
    let mut i: usize = 0;
    assert(item_views(items@) =~= Seq::<Seq<u8>>::empty());
    assert(covered_data(name@, covered, views.take(0)) =~= Seq::<Seq<u8>>::empty());
    while i < records.len()
        invariant
            i <= records.len(),
            views == record_views(records@),
            writable(views),
            canonical_order(item_views(items@), covered_data(name@, covered, views.take(i as int))),
        decreases records.len() - i,
    {
        let record = &records[i];
        assert(views.take(i + 1).drop_last() =~= views.take(i as int));
        assert(views.take(i + 1).last() == views[i as int]);
        assert(record@ == views[i as int]);
        if record.class == CLASS_IN && record.record_type() == covered && record.name.same_as(name) {
            let data = to_lower_data(&record.data);
            proof {
                lemma_lower_data(record@.data);
            }
            let mut item: Vec<u8> = Vec::new();
            put_data(&mut item, &data);
            assert(item@ =~= data_bytes(lower_data(record@.data)));
            proof {
                vstd::seq_lib::to_multiset_build(
                    covered_data(name@, covered, views.take(i as int)),
                    item@,
                );
            }
            insert_item(&mut items, item);
        }
        i += 1;
    }
    assert(views.take(i as int) =~= views);
    items
}

/// The bytes over which a signature of the records of a name is made.
pub fn tbs(name: &Name, rrsig: &Rrsig, records: &Vec<Record>) -> (r: Vec<u8>)
    requires
        name_ok(name@),
        name_ok(rrsig@.signer_name),
        writable(record_views(records@)),
    ensures
        to_be_signed(name@, rrsig@, record_views(records@), r@),
{
    let items = ordered_data(name, rrsig.type_covered, records);
    let ghost order = item_views(items@);
    proof {
        lemma_lower_labels(name@);
        lemma_lower_labels(rrsig@.signer_name);
    }
    let owner = name.to_lowercase();
    let mut out: Vec<u8> = Vec::new();
    put_rrsig_head(&mut out, rrsig);
    put_name(&mut out, &rrsig.signer_name.to_lowercase());
    let ghost head = out@;
    assert(head =~= rrsig_head_bytes(rrsig@) + name_bytes(lower_labels(rrsig@.signer_name)));
    let mut i: usize = 0;
    assert(order.take(0).len() == 0);
    while i < items.len()
        invariant
            i <= items.len(),
            order == item_views(items@),
            owner@ == lower_labels(name@),
            name_ok(owner@),
            out@ == head + canonical_records(
                name@,
                rrsig.type_covered,
                rrsig.original_ttl,
                order.take(i as int),
            ),
        decreases items.len() - i,
    {
        let ghost before = out@;
        assert(order.take(i + 1).drop_last() =~= order.take(i as int));
        assert(order.take(i + 1).last() == items@[i as int]@);
        put_name(&mut out, &owner);
        put16(&mut out, rrsig.type_covered.code());
        put16(&mut out, CLASS_IN);
        put32(&mut out, rrsig.original_ttl);
        put16(&mut out, items[i].len() as u16);
        out.extend_from_slice(items[i].as_slice());
        assert(out@ =~= before + canonical_record(
            name@,
            rrsig.type_covered,
            rrsig.original_ttl,
            items@[i as int]@,
        ));
        i += 1;
    }
    assert(order.take(i as int) =~= order);
    assert(out@ =~= set_bytes(name@, rrsig@, order));
    out
}

} // verus!
