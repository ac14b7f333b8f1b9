//! Domain names: sequences of labels, compared without regard to ASCII case.

use vstd::prelude::*;
#[allow(unused_imports)]
use vstd::string::StringSliceAdditionalSpecFns;

verus! {

/// The longest label that a name may hold, in bytes.
pub const MAX_LABEL: usize = 63;

/// The longest name, counted as it stands on the wire: each label with its length byte, and the
/// closing zero byte.
pub const MAX_NAME: usize = 255;

/// A fully qualified domain name, from the leftmost label to the one below the root.
#[derive(Debug)]
pub struct Name {
    pub labels: Vec<Vec<u8>>,
}

/// A byte with an ASCII capital letter turned into the small one.
pub open spec fn lower(b: u8) -> u8 {
    if 65 <= b <= 90 {
        (b + 32) as u8
    } else {
        b
    }
}

/// Two labels that differ at most in the case of ASCII letters.
pub open spec fn same_label(a: Seq<u8>, b: Seq<u8>) -> bool {
    &&& a.len() == b.len()
    &&& forall|i: int| 0 <= i < a.len() ==> lower(#[trigger] a[i]) == lower(b[i])
}

/// Two names that differ at most in the case of ASCII letters.
pub open spec fn same_name(a: Seq<Seq<u8>>, b: Seq<Seq<u8>>) -> bool {
    &&& a.len() == b.len()
    &&& forall|i: int| 0 <= i < a.len() ==> same_label(#[trigger] a[i], b[i])
}

/// The bytes that the labels take on the wire, without the closing zero byte.
pub open spec fn labels_len(labels: Seq<Seq<u8>>) -> nat
    decreases labels.len(),
{
    if labels.len() == 0 {
        0
    } else {
        labels_len(labels.drop_last()) + 1 + labels.last().len()
    }
}

/// A label of a length that a name may hold.
pub open spec fn label_ok(label: Seq<u8>) -> bool {
    1 <= label.len() <= MAX_LABEL
}

/// Labels that make up a name.
pub open spec fn name_ok(labels: Seq<Seq<u8>>) -> bool {
    &&& forall|i: int| 0 <= i < labels.len() ==> label_ok(#[trigger] labels[i])
    &&& labels_len(labels) + 1 <= MAX_NAME
}

/// The number of labels as a signature counts them: a leading asterisk label stands for the labels
/// that it was expanded to and is left out.
pub open spec fn counted_labels(labels: Seq<Seq<u8>>) -> nat {
    if labels.len() > 0 && labels[0] == seq![42u8] {
        (labels.len() - 1) as nat
    } else {
        labels.len()
    }
}

/// The labels of a name with all ASCII letters small.
pub open spec fn lower_labels(labels: Seq<Seq<u8>>) -> Seq<Seq<u8>> {
    labels.map_values(|label: Seq<u8>| label.map_values(|b: u8| lower(b)))
}

/// A byte that stands for itself in the text of a name: printable, and neither a dot nor a
/// backslash, which would begin an escape.
pub open spec fn plain(b: u8) -> bool {
    33 <= b <= 126 && b != 46 && b != 92
}

/// What the rest of a text spells, after the labels `done` and the first bytes `cur` of the next.
pub open spec fn ascii_scan(text: Seq<u8>, done: Seq<Seq<u8>>, cur: Seq<u8>) -> Option<
    Seq<Seq<u8>>,
>
    decreases text.len(),
{
    if text.len() == 0 {
        let labels = if cur.len() == 0 {
            done
        } else {
            done.push(cur)
        };
        if name_ok(labels) {
            Some(labels)
        } else {
            None
        }
    } else if text[0] == 46 {
        if cur.len() == 0 {
            None
        } else {
            ascii_scan(text.drop_first(), done.push(cur), Seq::empty())
        }
    } else if plain(text[0]) {
        ascii_scan(text.drop_first(), done, cur.push(text[0]))
    } else {
        None
    }
}

/// The labels that a text spells: they stand between dots, a dot at the end may be left out, and
/// a lone dot is the root. None where a label is empty or a length is out of bounds.
pub open spec fn ascii_name(text: Seq<u8>) -> Option<Seq<Seq<u8>>> {
    if text == seq![46u8] {
        Some(Seq::empty())
    } else {
        ascii_scan(text, Seq::empty(), Seq::empty())
    }
}

/// The label that a text without dots and escapes spells.
pub open spec fn label_of(text: Seq<char>) -> Seq<u8> {
    text.map_values(|c: char| c as u8)
}

pub proof fn lemma_labels_len_push(labels: Seq<Seq<u8>>, label: Seq<u8>)
    ensures
        labels_len(labels.push(label)) == labels_len(labels) + 1 + label.len(),
{
    assert(labels.push(label).drop_last() =~= labels);
}

pub proof fn lemma_labels_len_add(a: Seq<Seq<u8>>, b: Seq<Seq<u8>>)
    ensures
        labels_len(a + b) == labels_len(a) + labels_len(b),
    decreases b.len(),
{
    if b.len() == 0 {
        assert(a + b =~= a);
    } else {
        assert((a + b).drop_last() =~= a + b.drop_last());
        lemma_labels_len_add(a, b.drop_last());
    }
}

/// A name of acceptable length has fewer labels than a byte can count.
pub proof fn lemma_labels_bound(labels: Seq<Seq<u8>>)
    requires
        forall|i: int| 0 <= i < labels.len() ==> label_ok(#[trigger] labels[i]),
    ensures
        2 * labels.len() <= labels_len(labels),
    decreases labels.len(),
{
    if labels.len() > 0 {
        assert forall|i: int| 0 <= i < labels.drop_last().len() implies label_ok(
            #[trigger] labels.drop_last()[i],
        ) by {
            assert(labels.drop_last()[i] == labels[i]);
        }
        lemma_labels_bound(labels.drop_last());
        assert(label_ok(labels[labels.len() - 1]));
    }
}

/// Small letters do not change the length on the wire, nor what name it is.
pub proof fn lemma_lower_labels(labels: Seq<Seq<u8>>)
    ensures
        labels_len(lower_labels(labels)) == labels_len(labels),
        same_name(lower_labels(labels), labels),
        name_ok(labels) ==> name_ok(lower_labels(labels)),
    decreases labels.len(),
{
    let low = lower_labels(labels);
    assert forall|i: int| 0 <= i < low.len() implies same_label(#[trigger] low[i], labels[i]) by {
        assert(low[i] == labels[i].map_values(|b: u8| lower(b)));
    }
    if labels.len() > 0 {
        lemma_lower_labels(labels.drop_last());
        assert(low.drop_last() =~= lower_labels(labels.drop_last()));
    }
    if name_ok(labels) {
        assert forall|i: int| 0 <= i < low.len() implies label_ok(#[trigger] low[i]) by {
            assert(label_ok(labels[i]));
        }
    }
}

/// Sameness of names is an equivalence: every name is the same as itself, the order of the two
/// does not matter, and it carries over from one name to the next.
pub proof fn law_same_name_is_equivalence(a: Seq<Seq<u8>>, b: Seq<Seq<u8>>, c: Seq<Seq<u8>>)
    ensures
        same_name(a, a),
        same_name(a, b) == same_name(b, a),
        same_name(a, b) && same_name(b, c) ==> same_name(a, c),
{
    if same_name(a, b) {
        assert forall|i: int| 0 <= i < b.len() implies same_label(#[trigger] b[i], a[i]) by {
            assert(same_label(a[i], b[i]));
        }
        if same_name(b, c) {
            assert forall|i: int| 0 <= i < a.len() implies same_label(#[trigger] a[i], c[i]) by {
                assert(same_label(a[i], b[i]));
                assert(same_label(b[i], c[i]));
            }
        }
    }
    if same_name(b, a) {
        assert forall|i: int| 0 <= i < a.len() implies same_label(#[trigger] a[i], b[i]) by {
            assert(same_label(b[i], a[i]));
        }
    }
}

/// A scan whose finished labels are too long already comes to nothing.
proof fn lemma_scan_too_long(text: Seq<u8>, done: Seq<Seq<u8>>, cur: Seq<u8>)
    requires
        labels_len(done) >= MAX_NAME,
    ensures
        ascii_scan(text, done, cur) is None,
    decreases text.len(),
{
    lemma_labels_len_push(done, cur);
    if text.len() > 0 {
        lemma_scan_too_long(text.drop_first(), done.push(cur), Seq::empty());
        lemma_scan_too_long(text.drop_first(), done, cur.push(text[0]));
    }
}

/// A scan with an overlong label among the finished ones comes to nothing.
proof fn lemma_scan_bad_label(text: Seq<u8>, done: Seq<Seq<u8>>, cur: Seq<u8>, k: int)
    requires
        0 <= k < done.len(),
        done[k].len() > MAX_LABEL,
    ensures
        ascii_scan(text, done, cur) is None,
    decreases text.len(),
{
    assert(!label_ok(done[k]));
    assert(done.push(cur)[k] == done[k]);
    if text.len() > 0 {
        lemma_scan_bad_label(text.drop_first(), done.push(cur), Seq::empty(), k);
        lemma_scan_bad_label(text.drop_first(), done, cur.push(text[0]), k);
    }
}

/// A scan whose current label is too long already comes to nothing.
proof fn lemma_scan_label_too_long(text: Seq<u8>, done: Seq<Seq<u8>>, cur: Seq<u8>)
    requires
        cur.len() > MAX_LABEL,
    ensures
        ascii_scan(text, done, cur) is None,
    decreases text.len(),
{
    assert(done.push(cur)[done.len() as int] == cur);
    if text.len() > 0 {
        lemma_scan_bad_label(text.drop_first(), done.push(cur), Seq::empty(), done.len() as int);
        lemma_scan_label_too_long(text.drop_first(), done, cur.push(text[0]));
    } else {
        assert(!label_ok(done.push(cur)[done.len() as int]));
    }
}

fn to_lower(b: u8) -> (r: u8)
    ensures
        r == lower(b),
{
    if 65 <= b && b <= 90 {
        b + 32
    } else {
        b
    }
}

fn labels_match(a: &Vec<u8>, b: &Vec<u8>) -> (r: bool)
    ensures
        r == same_label(a@, b@),
{
    if a.len() != b.len() {
        return false;
    }
    let mut i: usize = 0;
    while i < a.len()
        invariant
            i <= a.len(),
            a.len() == b.len(),
            forall|j: int| 0 <= j < i ==> lower(#[trigger] a@[j]) == lower(b@[j]),
        decreases a.len() - i,
    {
        if to_lower(a[i]) != to_lower(b[i]) {
            assert(lower(a@[i as int]) != lower(b@[i as int]));
            return false;
        }
        i += 1;
    }
    true
}

/// A copy of the bytes.
pub fn copy_bytes(bytes: &Vec<u8>) -> (r: Vec<u8>)
    ensures
        r@ == bytes@,
{
    let mut r: Vec<u8> = Vec::new();
    r.extend_from_slice(bytes.as_slice());
    assert(r@ =~= bytes@);
    r
}

impl View for Name {
    type V = Seq<Seq<u8>>;

    open spec fn view(&self) -> Seq<Seq<u8>> {
        self.labels@.map_values(|label: Vec<u8>| label@)
    }
}

impl Name {
    /// The name of the root, which has no labels.
    pub fn root() -> (r: Name)
        ensures
            r@ == Seq::<Seq<u8>>::empty(),
            name_ok(r@),
    {
        let r = Name { labels: Vec::new() };
        assert(r@ =~= Seq::<Seq<u8>>::empty());
        r
    }

    /// The name that a text without escapes spells.
    pub fn from_ascii(text: &str) -> (r: Option<Name>)
        ensures
            match r {
                Some(name) => ascii_name(text.spec_bytes()) == Some(name@) && name_ok(name@),
                None => ascii_name(text.spec_bytes()) is None,
            },
    {
        let bytes = text.as_bytes();
        if bytes.len() == 1 && bytes[0] == 46 {
            assert(bytes@ =~= seq![46u8]);
            return Some(Name::root());
        }
        assert(bytes@ != seq![46u8]) by {
            if bytes@ == seq![46u8] {
                assert(bytes@.len() == 1 && bytes@[0] == 46);
            }
        }
        let mut name = Name::root();
        let mut cur: Vec<u8> = Vec::new();
        let mut size: usize = 0;
        let mut i: usize = 0;
        assert(bytes@.skip(0) =~= bytes@);
        while i < bytes.len()
            invariant
                i <= bytes.len(),
                bytes@ == text.spec_bytes(),
                size == labels_len(name@),
                size <= MAX_NAME,
                cur.len() <= MAX_LABEL,
                forall|j: int| 0 <= j < name@.len() ==> label_ok(#[trigger] name@[j]),
                bytes@ != seq![46u8],
                ascii_name(text.spec_bytes()) == ascii_scan(bytes@.skip(i as int), name@, cur@),
            decreases bytes.len() - i,
        {
            let b: u8 = bytes[i];
            let ghost rest = bytes@.skip(i as int);
            assert(rest.drop_first() =~= bytes@.skip(i + 1));
            assert(rest[0] == b);
            if b == 46 {
                if cur.len() == 0 {
                    return None;
                }
                proof {
                    lemma_labels_len_push(name@, cur@);
                }
                size = size + 1 + cur.len();
                name.append_label(cur);
                cur = Vec::new();
                assert(cur@ =~= Seq::<u8>::empty());
                if size >= MAX_NAME {
                    proof {
                        lemma_scan_too_long(bytes@.skip(i + 1), name@, cur@);
                    }
                    return None;
                }
            } else if 33 <= b && b <= 126 && b != 92 {
                cur.push(b);
                if cur.len() > MAX_LABEL {
                    proof {
                        lemma_scan_label_too_long(bytes@.skip(i + 1), name@, cur@);
                    }
                    return None;
                }
            } else {
                return None;
            }
            i += 1;
        }
        assert(bytes@.skip(i as int).len() == 0);
        if cur.len() > 0 {
            proof {
                lemma_labels_len_push(name@, cur@);
            }
            size = size + 1 + cur.len();
            name.append_label(cur);
        }
        if size + 1 > MAX_NAME {
            None
        } else {
            Some(name)
        }
    }

    /// The name with one label more, put next to the root.
    pub fn append_label(&mut self, label: Vec<u8>)
        ensures
            final(self)@ == old(self)@.push(label@),
    {
        self.labels.push(label);
        assert(self@ =~= old(self)@.push(label@));
    }

    /// Adds the label that an ASCII text spells at the end that is nearest to the root.
    pub fn append_text(&mut self, text: &str)
        requires
            text.is_ascii(),
        ensures
            final(self)@ == old(self)@.push(label_of(text@)),
    {
        let mut label: Vec<u8> = Vec::new();
        label.extend_from_slice(text.as_bytes());
        assert(label@ =~= label_of(text@)) by {
            vstd::string::is_ascii_spec_bytes(text);
        }
        self.append_label(label);
    }

    /// Whether the two are the same name, whatever the case of their letters.
    pub fn same_as(&self, other: &Name) -> (r: bool)
        ensures
            r == same_name(self@, other@),
    {
        if self.labels.len() != other.labels.len() {
            return false;
        }
        let mut i: usize = 0;
        while i < self.labels.len()
            invariant
                i <= self.labels.len(),
                self.labels.len() == other.labels.len(),
                forall|j: int| 0 <= j < i ==> same_label(#[trigger] self@[j], other@[j]),
            decreases self.labels.len() - i,
        {
            if !labels_match(&self.labels[i], &other.labels[i]) {
                assert(!same_label(self@[i as int], other@[i as int]));
                return false;
            }
            i += 1;
        }
        true
    }

    /// Whether the two names are equal letter for letter.
    pub fn eq_case(&self, other: &Name) -> (r: bool)
        ensures
            r == (self@ == other@),
    {
        if self.labels.len() != other.labels.len() {
            assert(self@.len() != other@.len());
            return false;
        }
        let mut i: usize = 0;
        while i < self.labels.len()
            invariant
                i <= self.labels.len(),
                self.labels.len() == other.labels.len(),
                forall|j: int| 0 <= j < i ==> #[trigger] self@[j] == other@[j],
            decreases self.labels.len() - i,
        {
            if !(self.labels[i] == other.labels[i]) {
                assert(self@[i as int] != other@[i as int]);
                return false;
            }
            assert(self@[i as int] =~= other@[i as int]);
            i += 1;
        }
        assert(self@ =~= other@);
        true
    }

    /// The number of labels as a signature counts them.
    pub fn num_labels(&self) -> (r: u8)
        requires
            name_ok(self@),
        ensures
            r == counted_labels(self@),
    {
        proof {
            lemma_labels_bound(self@);
        }
        let n: usize = self.labels.len();
        if n > 0 && self.labels[0].len() == 1 && self.labels[0][0] == 42 {
            assert(self@[0] =~= seq![42u8]);
            (n - 1) as u8
        } else {
            assert(n > 0 ==> self@[0] == self.labels@[0]@);
            n as u8
        }
    }

    /// The name with all ASCII letters small.
    pub fn to_lowercase(&self) -> (r: Name)
        ensures
            r@ == lower_labels(self@),
    {
        let mut labels: Vec<Vec<u8>> = Vec::new();
        let mut i: usize = 0;
        while i < self.labels.len()
            invariant
                i <= self.labels.len(),
                labels.len() == i,
                forall|j: int|
                    0 <= j < i ==> (#[trigger] labels@[j])@ == self.labels@[j]@.map_values(
                        |b: u8| lower(b),
                    ),
            decreases self.labels.len() - i,
        {
            let label = &self.labels[i];
            let mut low: Vec<u8> = Vec::new();
            let mut k: usize = 0;
            while k < label.len()
                invariant
                    k <= label.len(),
                    low@ == label@.take(k as int).map_values(|b: u8| lower(b)),
                decreases label.len() - k,
            {
                low.push(to_lower(label[k]));
                k += 1;
                assert(low@ =~= label@.take(k as int).map_values(|b: u8| lower(b)));
            }
            assert(label@.take(k as int) =~= label@);
            labels.push(low);
            i += 1;
        }
        let r = Name { labels };
        assert(r@ =~= lower_labels(self@));
        r
    }
}

impl Clone for Name {
    /// A copy of the name, letter for letter.
    fn clone(&self) -> (r: Name)
        ensures
            r@ == self@,
    {
        let mut labels: Vec<Vec<u8>> = Vec::new();
        let mut i: usize = 0;
        while i < self.labels.len()
            invariant
                i <= self.labels.len(),
                labels.len() == i,
                forall|j: int| 0 <= j < i ==> (#[trigger] labels@[j])@ == self.labels@[j]@,
            decreases self.labels.len() - i,
        {
            labels.push(copy_bytes(&self.labels[i]));
            i += 1;
        }
        let r = Name { labels };
        assert(r@ =~= self@);
        r
    }
}

impl PartialEq for Name {
    fn eq(&self, other: &Name) -> (r: bool) {
        self.same_as(other)
    }
}

impl vstd::std_specs::cmp::PartialEqSpecImpl for Name {
    open spec fn obeys_eq_spec() -> bool {
        true
    }

    open spec fn eq_spec(&self, other: &Name) -> bool {
        same_name(self@, other@)
    }
}

} // verus!
