//! When names are the same, how long they may be, and how texts spell them.

use vstd::prelude::*;

use crate::name::{
    ascii_name, ascii_scan, counted_labels, labels_len, lower, lower_labels, name_ok, same_label,
    same_name,
};
use crate::wire_format::name_bytes;
use crate::wire_laws::lemma_name_bytes_len;

verus! {

/// The 26 capital letters turn into the small ones, which stand 32 behind them. Every other byte
/// stays as it is.
pub proof fn law_small_letters(b: u8)
    ensures
        b >= 0x41 && b <= 0x5a ==> lower(b) == b + 0x20,
        b < 0x41 || b > 0x5a ==> lower(b) == b,
{
}

/// Names are the same if and only if they have the same labels once all letters are small; small
/// letters keep the number of labels, and the length of each; and a name in small letters stays as
/// it is.
pub proof fn law_same_names_are_the_same_in_small_letters(a: Seq<Seq<u8>>, b: Seq<Seq<u8>>)
    ensures
        same_name(a, b) <==> lower_labels(a) == lower_labels(b),
        lower_labels(a).len() == a.len(),
        forall|i: int|
            0 <= i < a.len() ==> (#[trigger] lower_labels(a)[i]).len() == a[i].len(),
        forall|i: int, k: int|
            0 <= i < a.len() && 0 <= k < a[i].len() ==> #[trigger] lower_labels(a)[i][k] == lower(
                a[i][k],
            ),
        lower_labels(lower_labels(a)) == lower_labels(a),
{
    let x = lower_labels(a);
    let y = lower_labels(b);
    if same_name(a, b) {
        assert forall|i: int| 0 <= i < x.len() implies x[i] =~= y[i] by {
            assert(same_label(a[i], b[i]));
            assert forall|k: int| 0 <= k < x[i].len() implies x[i][k] == y[i][k] by {
                assert(lower(a[i][k]) == lower(b[i][k]));
            }
        }
        assert(x =~= y);
    }
    if x == y {
        assert(a.len() == x.len() && b.len() == y.len());
        assert forall|i: int| 0 <= i < a.len() implies same_label(#[trigger] a[i], b[i]) by {
            assert(x[i].len() == a[i].len() && y[i].len() == b[i].len());
            assert forall|k: int| 0 <= k < a[i].len() implies lower(#[trigger] a[i][k]) == lower(
                b[i][k],
            ) by {
                assert(x[i][k] == lower(a[i][k]));
                assert(y[i][k] == lower(b[i][k]));
            }
        }
    }
    let z = lower_labels(x);
    assert forall|i: int| 0 <= i < x.len() implies z[i] =~= x[i] by {}
    assert(z =~= x);
}

/// Names that differ in a byte that is no letter, or in more than the case of a letter, are not the
/// same.
pub proof fn law_other_bytes_make_other_names(a: Seq<Seq<u8>>, b: Seq<Seq<u8>>, i: int, k: int)
    requires
        0 <= i < a.len(),
        0 <= k < a[i].len(),
        i < b.len(),
        k < b[i].len(),
        a[i][k] != b[i][k],
        !(0x41 <= a[i][k] <= 0x5a && b[i][k] == a[i][k] + 0x20),
        !(0x41 <= b[i][k] <= 0x5a && a[i][k] == b[i][k] + 0x20),
    ensures
        !same_name(a, b),
{
    if same_name(a, b) {
        assert(same_label(a[i], b[i]));
        assert(lower(a[i][k]) == lower(b[i][k]));
    }
}

/// Labels make up a name exactly when each holds from 1 to 63 bytes and all together, as they stand
/// on the wire, take at most 255.
pub proof fn law_lengths_of_names(labels: Seq<Seq<u8>>)
    ensures
        name_ok(labels) <==> name_bytes(labels).len() <= 255 && forall|i: int|
            0 <= i < labels.len() ==> 1 <= (#[trigger] labels[i]).len() <= 63,
        name_bytes(labels).len() == labels_len(labels) + 1,
{
    lemma_name_bytes_len(labels);
    if forall|i: int| 0 <= i < labels.len() ==> 1 <= (#[trigger] labels[i]).len() <= 63 {
        assert forall|i: int| 0 <= i < labels.len() implies crate::name::label_ok(
            #[trigger] labels[i],
        ) by {}
    }
    if name_ok(labels) {
        assert forall|i: int| 0 <= i < labels.len() implies 1 <= (#[trigger] labels[i]).len()
            <= 63 by {
            assert(crate::name::label_ok(labels[i]));
        }
    }
}

/// A signature counts all labels of a name but for an asterisk that stands first.
pub proof fn law_an_asterisk_is_not_counted(labels: Seq<Seq<u8>>, first: Seq<u8>)
    ensures
        counted_labels(seq![seq![0x2au8]] + labels) == labels.len(),
        first != seq![0x2au8] ==> counted_labels(seq![first] + labels) == labels.len() + 1,
        counted_labels(Seq::empty()) == 0,
{
    assert((seq![seq![0x2au8]] + labels)[0] == seq![0x2au8]);
    assert((seq![first] + labels)[0] == first);
}

/// The text of labels, each with a dot behind it.
pub open spec fn dotted(labels: Seq<Seq<u8>>) -> Seq<u8>
    decreases labels.len(),
{
    if labels.len() == 0 {
        Seq::empty()
    } else {
        labels[0] + (seq![0x2eu8] + dotted(labels.drop_first()))
    }
}

/// Labels whose bytes all stand for themselves: printable, no blank, no dot and no backslash.
pub open spec fn plain_labels(labels: Seq<Seq<u8>>) -> bool {
    forall|i: int, k: int|
        0 <= i < labels.len() && 0 <= k < labels[i].len() ==> {
            let b = #[trigger] labels[i][k];
            0x21 <= b <= 0x7e && b != 0x2e && b != 0x5c
        }
}

/// Reading a label goes on behind it.
proof fn lemma_scan_label(
    label: Seq<u8>,
    rest: Seq<u8>,
    done: Seq<Seq<u8>>,
    cur: Seq<u8>,
)
    requires
        forall|k: int|
            0 <= k < label.len() ==> 0x21 <= #[trigger] label[k] <= 0x7e && label[k] != 0x2e
                && label[k] != 0x5c,
    ensures
        ascii_scan(label + rest, done, cur) == ascii_scan(rest, done, cur + label),
    decreases label.len(),
{
    if label.len() == 0 {
        assert(label + rest =~= rest);
        assert(cur + label =~= cur);
    } else {
        let text = label + rest;
        assert(text[0] == label[0]);
        assert(text.drop_first() =~= label.drop_first() + rest);
        assert forall|k: int| 0 <= k < label.drop_first().len() implies 0x21
            <= #[trigger] label.drop_first()[k] <= 0x7e && label.drop_first()[k] != 0x2e
            && label.drop_first()[k] != 0x5c by {
            assert(label.drop_first()[k] == label[k + 1]);
        }
        lemma_scan_label(label.drop_first(), rest, done, cur.push(label[0]));
        assert(cur.push(label[0]) + label.drop_first() =~= cur + label);
    }
}

proof fn lemma_scan_dotted(labels: Seq<Seq<u8>>, rest: Seq<u8>, done: Seq<Seq<u8>>)
    requires
        plain_labels(labels),
        forall|i: int| 0 <= i < labels.len() ==> (#[trigger] labels[i]).len() > 0,
    ensures
        ascii_scan(dotted(labels) + rest, done, Seq::empty()) == ascii_scan(
            rest,
            done + labels,
            Seq::empty(),
        ),
    decreases labels.len(),
{
    if labels.len() == 0 {
        assert(dotted(labels) + rest =~= rest);
        assert(done + labels =~= done);
    } else {
        let label = labels[0];
        let more = labels.drop_first();
        let tail = seq![0x2eu8] + (dotted(more) + rest);
        assert(dotted(labels) + rest =~= label + tail);
        assert forall|k: int| 0 <= k < label.len() implies 0x21 <= #[trigger] label[k] <= 0x7e
            && label[k] != 0x2e && label[k] != 0x5c by {
            assert(labels[0][k] == label[k]);
        }
        lemma_scan_label(label, tail, done, Seq::empty());
        assert(Seq::<u8>::empty() + label =~= label);
        assert(tail.drop_first() =~= dotted(more) + rest);
        assert forall|i: int, k: int| 0 <= i < more.len() && 0 <= k < more[i].len() implies ({
            let b = #[trigger] more[i][k];
            0x21 <= b <= 0x7e && b != 0x2e && b != 0x5c
        }) by {
            assert(more[i][k] == labels[i + 1][k]);
        }
        assert forall|i: int| 0 <= i < more.len() implies (#[trigger] more[i]).len() > 0 by {
            assert(more[i] == labels[i + 1]);
        }
        lemma_scan_dotted(more, rest, done.push(label));
        assert(done.push(label) + more =~= done + labels);
    }
}

/// The labels of a name with a dot behind each spell the name, and so they do without the last dot:
/// letters, digits and every other byte that stands for itself. A dot alone is the root.
pub proof fn law_texts_spell_names(labels: Seq<Seq<u8>>)
    requires
        name_ok(labels),
        plain_labels(labels),
        labels.len() > 0,
    ensures
        ascii_name(dotted(labels)) == Some(labels),
        ascii_name(dotted(labels).drop_last()) == Some(labels),
        ascii_name(seq![0x2eu8]) == Some(Seq::<Seq<u8>>::empty()),
{
    law_lengths_of_names(labels);
    let text = dotted(labels);
    assert forall|i: int| 0 <= i < labels.len() implies (#[trigger] labels[i]).len() > 0 by {}
    lemma_scan_dotted(labels, Seq::empty(), Seq::empty());
    assert(text + Seq::<u8>::empty() =~= text);
    assert(Seq::<Seq<u8>>::empty() + labels =~= labels);
    assert(labels[0].len() > 0 && text[0] == labels[0][0]);
    assert(text != seq![0x2eu8]);
    // Without the last dot, the last label is still open at the end of the text.
    let front = labels.drop_last();
    let last = labels.last();
    lemma_dotted_push(front, last);
    assert(front.push(last) =~= labels);
    assert(text.drop_last() =~= dotted(front) + last);
    assert forall|i: int, k: int| 0 <= i < front.len() && 0 <= k < front[i].len() implies ({
        let b = #[trigger] front[i][k];
        0x21 <= b <= 0x7e && b != 0x2e && b != 0x5c
    }) by {
        assert(front[i][k] == labels[i][k]);
    }
    assert forall|i: int| 0 <= i < front.len() implies (#[trigger] front[i]).len() > 0 by {
        assert(front[i] == labels[i]);
    }
    lemma_scan_dotted(front, last, Seq::empty());
    assert(Seq::<Seq<u8>>::empty() + front =~= front);
    assert forall|k: int| 0 <= k < last.len() implies 0x21 <= #[trigger] last[k] <= 0x7e && last[k]
        != 0x2e && last[k] != 0x5c by {
        assert(labels[labels.len() - 1][k] == last[k]);
    }
    lemma_scan_label(last, Seq::empty(), front, Seq::empty());
    assert(last + Seq::<u8>::empty() =~= last);
    assert(Seq::<u8>::empty() + last =~= last);
    assert(last.len() > 0) by {
        assert(labels[labels.len() - 1].len() > 0);
    }
    assert(text.drop_last() != seq![0x2eu8]) by {
        if text.drop_last() == seq![0x2eu8] {
            assert(text.drop_last()[0] == labels[0][0]);
        }
    }
}

proof fn lemma_dotted_push(front: Seq<Seq<u8>>, last: Seq<u8>)
    ensures
        dotted(front.push(last)) == dotted(front) + last + seq![0x2eu8],
    decreases front.len(),
{
    let all = front.push(last);
    if front.len() == 0 {
        assert(all.drop_first() =~= Seq::<Seq<u8>>::empty());
        assert(dotted(all.drop_first()) =~= Seq::<u8>::empty());
        assert(dotted(all) =~= dotted(front) + last + seq![0x2eu8]);
    } else {
        lemma_dotted_push(front.drop_first(), last);
        assert(all.drop_first() =~= front.drop_first().push(last));
        assert(dotted(all) =~= dotted(front) + last + seq![0x2eu8]);
    }
}

/// What a text spells is a name that could be written out, and spells it back: the text is the
/// labels with dots behind them, or without the last dot, or the dot of the root.
pub proof fn law_only_spellings_are_names(text: Seq<u8>, labels: Seq<Seq<u8>>)
    requires
        ascii_name(text) == Some(labels),
    ensures
        name_ok(labels),
        text == dotted(labels) || text.push(0x2e) == dotted(labels) || (text == seq![0x2eu8]
            && labels.len() == 0),
{
    if text == seq![0x2eu8] {
        law_lengths_of_names(labels);
        assert(name_ok(labels)) by {
            assert(labels =~= Seq::<Seq<u8>>::empty());
            assert(labels_len(labels) == 0);
        }
    } else {
        lemma_scan_back(text, Seq::empty(), Seq::empty(), labels);
        assert(dotted(Seq::empty()) + Seq::<u8>::empty() + text =~= text);
    }
}

proof fn lemma_scan_back(
    text: Seq<u8>,
    done: Seq<Seq<u8>>,
    cur: Seq<u8>,
    labels: Seq<Seq<u8>>,
)
    requires
        ascii_scan(text, done, cur) == Some(labels),
    ensures
        name_ok(labels),
        dotted(done) + cur + text == dotted(labels) || (dotted(done) + cur + text).push(0x2e)
            == dotted(labels),
    decreases text.len(),
{
    let all = dotted(done) + cur + text;
    if text.len() == 0 {
        if cur.len() == 0 {
            assert(all =~= dotted(done));
        } else {
            lemma_dotted_push(done, cur);
            assert(all.push(0x2e) =~= dotted(labels));
        }
    } else if text[0] == 0x2e {
        lemma_scan_back(text.drop_first(), done.push(cur), Seq::empty(), labels);
        lemma_dotted_push(done, cur);
        assert(dotted(done.push(cur)) + Seq::<u8>::empty() + text.drop_first() =~= all);
    } else {
        lemma_scan_back(text.drop_first(), done, cur.push(text[0]), labels);
        assert(dotted(done) + cur.push(text[0]) + text.drop_first() =~= all);
    }
}

} // verus!
