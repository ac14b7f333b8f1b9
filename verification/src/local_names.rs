//! The names that the local servers answer for.

use vstd::prelude::*;

use crate::name::{label_of, labels_len, name_ok, Name};

verus! {

/// `www.example.com.`
pub open spec fn www_example_com() -> Seq<Seq<u8>> {
    seq![label_of("www"@), label_of("example"@), label_of("com"@)]
}

/// `example.com.`
pub open spec fn example_com() -> Seq<Seq<u8>> {
    seq![label_of("example"@), label_of("com"@)]
}

/// `ns.example.com.`
pub open spec fn ns_example_com() -> Seq<Seq<u8>> {
    seq![label_of("ns"@), label_of("example"@), label_of("com"@)]
}

/// `hostmaster.example.com.`
pub open spec fn hostmaster_example_com() -> Seq<Seq<u8>> {
    seq![label_of("hostmaster"@), label_of("example"@), label_of("com"@)]
}

/// `com.`
pub open spec fn com_zone() -> Seq<Seq<u8>> {
    seq![label_of("com"@)]
}

/// `example.`
pub open spec fn example_zone() -> Seq<Seq<u8>> {
    seq![label_of("example"@)]
}

/// `www.example.`
pub open spec fn www_example() -> Seq<Seq<u8>> {
    seq![label_of("www"@), label_of("example"@)]
}

/// The lengths of the names, as they stand on the wire without the closing zero byte.
pub proof fn lemma_local_names()
    ensures
        name_ok(www_example_com()) && labels_len(www_example_com()) == 16,
        name_ok(example_com()) && labels_len(example_com()) == 12,
        name_ok(ns_example_com()) && labels_len(ns_example_com()) == 15,
        name_ok(hostmaster_example_com()) && labels_len(hostmaster_example_com()) == 23,
        name_ok(com_zone()) && labels_len(com_zone()) == 4,
        name_ok(example_zone()) && labels_len(example_zone()) == 8,
        name_ok(www_example()) && labels_len(www_example()) == 12,
{
    reveal_strlit("www");
    reveal_strlit("ns");
    reveal_strlit("hostmaster");
    reveal_strlit("example");
    reveal_strlit("com");
    lemma_three_labels(label_of("www"@), label_of("example"@), label_of("com"@));
    lemma_three_labels(label_of("ns"@), label_of("example"@), label_of("com"@));
    lemma_three_labels(label_of("hostmaster"@), label_of("example"@), label_of("com"@));
    lemma_two_labels(label_of("example"@), label_of("com"@));
    lemma_two_labels(label_of("www"@), label_of("example"@));
    lemma_one_label(label_of("com"@));
    lemma_one_label(label_of("example"@));
}

proof fn lemma_one_label(a: Seq<u8>)
    ensures
        labels_len(seq![a]) == 1 + a.len(),
{
    crate::name::lemma_labels_len_push(Seq::empty(), a);
    assert(seq![a] =~= Seq::<Seq<u8>>::empty().push(a));
}

proof fn lemma_two_labels(a: Seq<u8>, b: Seq<u8>)
    ensures
        labels_len(seq![a, b]) == 2 + a.len() + b.len(),
{
    lemma_one_label(a);
    crate::name::lemma_labels_len_push(seq![a], b);
    assert(seq![a, b] =~= seq![a].push(b));
}

proof fn lemma_three_labels(a: Seq<u8>, b: Seq<u8>, c: Seq<u8>)
    ensures
        labels_len(seq![a, b, c]) == 3 + a.len() + b.len() + c.len(),
{
    lemma_two_labels(a, b);
    crate::name::lemma_labels_len_push(seq![a, b], c);
    assert(seq![a, b, c] =~= seq![a, b].push(c));
}

/// The name `www.example.com.`
pub fn www_name() -> (r: Name)
    ensures
        r@ == www_example_com(),
        name_ok(r@),
{
    proof {
        reveal_strlit("www");
        reveal_strlit("example");
        reveal_strlit("com");
        lemma_local_names();
    }
    let mut r = Name::root();
    r.append_text("www");
    r.append_text("example");
    r.append_text("com");
    assert(r@ =~= www_example_com());
    r
}

/// The name `example.com.`
pub fn example_com_name() -> (r: Name)
    ensures
        r@ == example_com(),
        name_ok(r@),
{
    proof {
        reveal_strlit("example");
        reveal_strlit("com");
        lemma_local_names();
    }
    let mut r = Name::root();
    r.append_text("example");
    r.append_text("com");
    assert(r@ =~= example_com());
    r
}

/// The name `ns.example.com.`
pub fn ns_name() -> (r: Name)
    ensures
        r@ == ns_example_com(),
        name_ok(r@),
{
    proof {
        reveal_strlit("ns");
        reveal_strlit("example");
        reveal_strlit("com");
        lemma_local_names();
    }
    let mut r = Name::root();
    r.append_text("ns");
    r.append_text("example");
    r.append_text("com");
    assert(r@ =~= ns_example_com());
    r
}

/// The name `hostmaster.example.com.`
pub fn hostmaster_name() -> (r: Name)
    ensures
        r@ == hostmaster_example_com(),
        name_ok(r@),
{
    proof {
        reveal_strlit("hostmaster");
        reveal_strlit("example");
        reveal_strlit("com");
        lemma_local_names();
    }
    let mut r = Name::root();
    r.append_text("hostmaster");
    r.append_text("example");
    r.append_text("com");
    assert(r@ =~= hostmaster_example_com());
    r
}

/// The name `com.`
pub fn com_name() -> (r: Name)
    ensures
        r@ == com_zone(),
        name_ok(r@),
{
    proof {
        reveal_strlit("com");
        lemma_local_names();
    }
    let mut r = Name::root();
    r.append_text("com");
    assert(r@ =~= com_zone());
    r
}

/// The name `example.`
pub fn example_name() -> (r: Name)
    ensures
        r@ == example_zone(),
        name_ok(r@),
{
    proof {
        reveal_strlit("example");
        lemma_local_names();
    }
    let mut r = Name::root();
    r.append_text("example");
    assert(r@ =~= example_zone());
    r
}

/// The name `www.example.`
pub fn www_example_name() -> (r: Name)
    ensures
        r@ == www_example(),
        name_ok(r@),
{
    proof {
        reveal_strlit("www");
        reveal_strlit("example");
        lemma_local_names();
    }
    let mut r = Name::root();
    r.append_text("www");
    r.append_text("example");
    assert(r@ =~= www_example());
    r
}

} // verus!
