//! Shortened names: what a pointer to an earlier place stands for.

use vstd::prelude::*;

use crate::name::{label_ok, name_ok};
use crate::wire_format::{labels_bytes, name_bytes, read_labels, read_name};
use crate::wire_laws::{
    at, lemma_at_index, lemma_at_split, lemma_labels_bytes_front, lemma_read_name,
};

verus! {

/// Labels that are read from the front of a buffer are read from the whole of it as well.
proof fn lemma_read_from_front(buf: Seq<u8>, p: int, pos: int, start: int, bound: int)
    requires
        0 <= p <= buf.len(),
        bound <= p,
        read_labels(buf.take(p), pos, start, bound) is Some,
    ensures
        read_labels(buf, pos, start, bound) == read_labels(buf.take(p), pos, start, bound),
    decreases bound, p - pos,
{
    let front = buf.take(p);
    assert(front[pos] == buf[pos]);
    if front[pos] == 0 {
    } else if front[pos] <= 63 {
        let next = pos + 1 + front[pos];
        lemma_read_from_front(buf, p, next, start, bound);
        assert(front.subrange(pos + 1, next) =~= buf.subrange(pos + 1, next));
    } else {
        let target = (front[pos] - 192) * 256 + front[pos + 1];
        assert(front[pos + 1] == buf[pos + 1]);
        lemma_read_from_front(buf, p, target, target, start);
    }
}

/// Labels that stand in the buffer are read in front of what stands behind them.
proof fn lemma_read_prefix(
    buf: Seq<u8>,
    pos: int,
    start: int,
    prefix: Seq<Seq<u8>>,
    tail: Seq<Seq<u8>>,
    end: int,
)
    requires
        at(buf, pos, labels_bytes(prefix)),
        0 <= start <= pos,
        forall|i: int| 0 <= i < prefix.len() ==> label_ok(#[trigger] prefix[i]),
        read_labels(buf, pos + labels_bytes(prefix).len(), start, buf.len() as int) == Some(
            (tail, end),
        ),
    ensures
        read_labels(buf, pos, start, buf.len() as int) == Some((prefix + tail, end)),
    decreases prefix.len(),
{
    if prefix.len() == 0 {
        assert(prefix + tail =~= tail);
    } else {
        let label = prefix[0];
        let rest = prefix.drop_first();
        let one = crate::wire_format::label_bytes(label);
        lemma_labels_bytes_front(prefix);
        lemma_at_split(buf, pos, one, labels_bytes(rest));
        assert(label_ok(prefix[0]));
        lemma_at_index(buf, pos, one, 0);
        let next = pos + 1 + label.len();
        assert(buf[pos] == label.len());
        assert(buf.subrange(pos + 1, next) =~= label) by {
            assert forall|i: int| 0 <= i < label.len() implies buf[pos + 1 + i] == label[i] by {
                lemma_at_index(buf, pos, one, 1 + i);
            }
        }
        assert forall|i: int| 0 <= i < rest.len() implies label_ok(#[trigger] rest[i]) by {
            assert(rest[i] == prefix[i + 1]);
        }
        lemma_read_prefix(buf, next, start, rest, tail, end);
        assert(seq![label] + (rest + tail) =~= prefix + tail);
    }
}

/// The place that a pointer names: the two bytes without their two highest bits, fourteen bits in
/// all.
pub open spec fn pointed_to(a: u8, b: u8) -> int {
    (a - 0xc0) * 0x100 + b
}

/// A name that consists of a pointer is the name that stands where it points, at any place before
/// it: the pointer takes two bytes, whatever the name takes.
pub proof fn law_a_pointer_stands_for_the_name(buf: Seq<u8>, p: int, labels: Seq<Seq<u8>>, end: int)
    requires
        0 <= p,
        p + 1 < buf.len(),
        buf[p] >= 0xc0,
        read_name(buf.take(p), pointed_to(buf[p], buf[p + 1])) == Some((labels, end)),
    ensures
        read_name(buf, p) == Some((labels, p + 2)),
{
    let t = pointed_to(buf[p], buf[p + 1]);
    lemma_read_from_front(buf, p, t, t, p);
}

/// A name of which only the end is shortened: some labels written out, and behind them a pointer to
/// a place before the name. It is those labels and the name that stands there.
pub proof fn law_a_pointer_ends_a_name(
    buf: Seq<u8>,
    p: int,
    prefix: Seq<Seq<u8>>,
    tail: Seq<Seq<u8>>,
    end: int,
)
    requires
        0 <= p,
        p + labels_bytes(prefix).len() + 1 < buf.len(),
        buf.subrange(p, p + labels_bytes(prefix).len()) == labels_bytes(prefix),
        buf[p + labels_bytes(prefix).len()] >= 0xc0,
        read_name(
            buf.take(p),
            pointed_to(
                buf[p + labels_bytes(prefix).len()],
                buf[p + labels_bytes(prefix).len() + 1],
            ),
        ) == Some((tail, end)),
        name_ok(prefix + tail),
    ensures
        read_name(buf, p) == Some((prefix + tail, p + labels_bytes(prefix).len() + 2)),
{
    let q = p + labels_bytes(prefix).len();
    let t = pointed_to(buf[q], buf[q + 1]);
    lemma_read_from_front(buf, p, t, t, p);
    assert(at(buf, p, labels_bytes(prefix))) by {
        reveal(at);
    }
    assert forall|i: int| 0 <= i < prefix.len() implies label_ok(#[trigger] prefix[i]) by {
        assert((prefix + tail)[i] == prefix[i]);
        assert(label_ok((prefix + tail)[i]));
    }
    lemma_read_prefix(buf, p, p, prefix, tail, q + 2);
}

/// A name that was written out in full can be pointed to from anywhere behind it, with any labels in
/// front: what is read is those labels and the name.
pub proof fn law_written_names_can_be_pointed_to(
    buf: Seq<u8>,
    t: int,
    p: int,
    prefix: Seq<Seq<u8>>,
    name: Seq<Seq<u8>>,
)
    requires
        name_ok(name),
        name_ok(prefix + name),
        0 <= t,
        t + name_bytes(name).len() <= p,
        p + labels_bytes(prefix).len() + 1 < buf.len(),
        buf.subrange(t, t + name_bytes(name).len()) == name_bytes(name),
        buf.subrange(p, p + labels_bytes(prefix).len()) == labels_bytes(prefix),
        t < 0x4000,
        buf[p + labels_bytes(prefix).len()] == 0xc0 + t / 0x100,
        buf[p + labels_bytes(prefix).len() + 1] == t % 0x100,
    ensures
        read_name(buf, p) == Some((prefix + name, p + labels_bytes(prefix).len() + 2)),
{
    let front = buf.take(p);
    assert(at(front, t, name_bytes(name))) by {
        reveal(at);
        assert(front.subrange(t, t + name_bytes(name).len()) =~= name_bytes(name));
    }
    lemma_read_name(front, t, name);
    let q = p + labels_bytes(prefix).len();
    assert(pointed_to(buf[q], buf[q + 1]) == t);
    law_a_pointer_ends_a_name(buf, p, prefix, name, t + name_bytes(name).len());
}

/// A pointer that does not point to an earlier place is refused, so that reading comes to an end;
/// and so is a byte that is neither a length of up to 63 nor begins a pointer.
pub proof fn law_other_pointers_are_refused(buf: Seq<u8>, p: int)
    requires
        0 <= p < buf.len(),
    ensures
        buf[p] >= 0xc0 && p + 1 < buf.len() && pointed_to(buf[p], buf[p + 1]) >= p ==> read_name(
            buf,
            p,
        ) is None,
        buf[p] >= 0xc0 && p + 1 == buf.len() ==> read_name(buf, p) is None,
        0x40 <= buf[p] < 0xc0 ==> read_name(buf, p) is None,
        1 <= buf[p] < 0x40 && p + 1 + buf[p] >= buf.len() ==> read_name(buf, p) is None,
{
    reveal_with_fuel(read_labels, 2);
}

} // verus!
