//! The PDF object model: objects, dictionaries and streams, with their
//! written (file) syntax and their display form.
use vstd::prelude::*;
use vstd::utf8::{encode_utf8, decode_utf8, encode_utf8_decode_utf8};
use crate::objects::{PdfName, PdfString, IndirectRef, StringFormat};

verus! {

// ---------------------------------------------------------------------------
// Byte order of names
// ---------------------------------------------------------------------------

/// Lexicographic order of byte sequences (a proper prefix comes first):
/// the order of `String` keys.
pub open spec fn bytes_lt(a: Seq<u8>, b: Seq<u8>) -> bool
    decreases a.len(),
{
    if a.len() == 0 {
        b.len() > 0
    } else if b.len() == 0 {
        false
    } else if a[0] != b[0] {
        a[0] < b[0]
    } else {
        bytes_lt(a.drop_first(), b.drop_first())
    }
}

/// No byte sequence is below itself.
pub proof fn lemma_bytes_lt_irreflexive(a: Seq<u8>)
    ensures
        !bytes_lt(a, a),
    decreases a.len(),
{
    if a.len() > 0 {
        lemma_bytes_lt_irreflexive(a.drop_first());
    }
}

/// The byte order is transitive.
pub proof fn lemma_bytes_lt_transitive(a: Seq<u8>, b: Seq<u8>, c: Seq<u8>)
    requires
        bytes_lt(a, b),
        bytes_lt(b, c),
    ensures
        bytes_lt(a, c),
    decreases a.len(),
{
    if a.len() > 0 && b.len() > 0 && c.len() > 0 && a[0] == b[0] && b[0] == c[0] {
        lemma_bytes_lt_transitive(a.drop_first(), b.drop_first(), c.drop_first());
    }
}

/// Two different byte sequences are ordered one way or the other.
pub proof fn lemma_bytes_lt_total(a: Seq<u8>, b: Seq<u8>)
    requires
        a != b,
    ensures
        bytes_lt(a, b) || bytes_lt(b, a),
    decreases a.len(),
{
    if a.len() > 0 && b.len() > 0 && a[0] == b[0] {
        if a.drop_first() == b.drop_first() {
            assert(a =~= seq![a[0]] + a.drop_first());
            assert(b =~= seq![b[0]] + b.drop_first());
        }
        lemma_bytes_lt_total(a.drop_first(), b.drop_first());
    } else if a.len() == 0 && b.len() == 0 {
        assert(a =~= b);
    }
}

/// Whether `a` is below `b`, as byte sequences.
pub fn bytes_less(a: &[u8], b: &[u8]) -> (r: bool)
    ensures
        r == bytes_lt(a@, b@),
{
    let mut i: usize = 0;
    assert(a@.skip(0) =~= a@);
    assert(b@.skip(0) =~= b@);
    while i < a.len() && i < b.len()
        invariant
            i <= a.len(),
            i <= b.len(),
            bytes_lt(a@, b@) == bytes_lt(a@.skip(i as int), b@.skip(i as int)),
        decreases a.len() - i,
    {
        if a[i] != b[i] {
            return a[i] < b[i];
        }
        assert(a@.skip(i as int).drop_first() =~= a@.skip(i + 1));
        assert(b@.skip(i as int).drop_first() =~= b@.skip(i + 1));
        i = i + 1;
    }
    i == a.len() && i < b.len()
}

/// The bytes by which a name is ordered: its UTF-8 encoding.
pub open spec fn key_bytes(k: Seq<char>) -> Seq<u8> {
    encode_utf8(k)
}

/// Names with the same encoding are the same name.
pub proof fn lemma_key_bytes_injective(a: Seq<char>, b: Seq<char>)
    requires
        key_bytes(a) == key_bytes(b),
    ensures
        a == b,
{
    encode_utf8_decode_utf8(a);
    encode_utf8_decode_utf8(b);
}

// ---------------------------------------------------------------------------
// Real numbers
// ---------------------------------------------------------------------------

/// A real number held as its shortest decimal form: a sign, the digits
/// before the point without leading zeros (`0` when there are none) and
/// the digits after it without trailing zeros, all as ASCII digits.
#[derive(Debug, PartialEq, Eq)]
pub struct RealNumber {
    negative: bool,
    int_digits: Vec<u8>,
    frac_digits: Vec<u8>,
}

/// A real number as plain values: sign, integer digits, fraction digits.
pub type RealView = (bool, Seq<u8>, Seq<u8>);

impl View for RealNumber {
    type V = RealView;

    closed spec fn view(&self) -> RealView {
        (self.negative, self.int_digits@, self.frac_digits@)
    }
}

// ---------------------------------------------------------------------------
// Objects
// ---------------------------------------------------------------------------

/// A PDF Stream object: its dictionary and its raw (possibly encoded) data.
#[derive(Debug, PartialEq)]
pub struct PdfStream {
    /// The stream dictionary (e.g. `/Length`, `/Filter`).
    pub dict: Dictionary,
    /// The raw (potentially compressed) stream data.
    pub data: Vec<u8>,
}

/// A PDF Dictionary: entries from names to objects, kept in the byte
/// order of their names, each name at most once.
#[derive(Debug, PartialEq)]
pub struct Dictionary {
    entries: Vec<(PdfName, Object)>,
}

/// The fundamental PDF object type: every value in a PDF document is one
/// of these.
#[derive(Debug, PartialEq)]
pub enum Object {
    /// Boolean value: `true` or `false`.
    Boolean(bool),
    /// Integer number.
    Integer(i64),
    /// Real number.
    Real(RealNumber),
    /// String (literal or hexadecimal).
    String(PdfString),
    /// Name (e.g. `/Type`).
    Name(PdfName),
    /// Ordered collection of objects.
    Array(Vec<Object>),
    /// Map from names to objects.
    Dictionary(Dictionary),
    /// Dictionary and binary data.
    Stream(PdfStream),
    /// The null object.
    Null,
    /// Reference to an indirect object.
    Reference(IndirectRef),
}

/// An object as plain values.
pub enum ObjView {
    Boolean(bool),
    Integer(i64),
    Real(RealView),
    String(Seq<u8>, StringFormat),
    Name(Seq<char>),
    Array(Seq<ObjView>),
    Dictionary(Seq<(Seq<char>, ObjView)>),
    Stream(Seq<(Seq<char>, ObjView)>, Seq<u8>),
    Null,
    Reference(u32, u16),
}

/// The plain value of an object.
pub open spec fn object_view(o: Object) -> ObjView
    decreases o, 2int,
{
    match o {
        Object::Boolean(b) => ObjView::Boolean(b),
        Object::Integer(n) => ObjView::Integer(n),
        Object::Real(r) => ObjView::Real(r@),
        Object::String(s) => ObjView::String(s.bytes@, s.format),
        Object::Name(n) => ObjView::Name(n.0@),
        Object::Array(v) => ObjView::Array(objects_view(v@)),
        Object::Dictionary(d) => ObjView::Dictionary(dict_view(d)),
        Object::Stream(s) => ObjView::Stream(dict_view(s.dict), s.data@),
        Object::Null => ObjView::Null,
        Object::Reference(r) => ObjView::Reference(r.object_number, r.generation),
    }
}

/// The plain values of a sequence of objects.
pub open spec fn objects_view(s: Seq<Object>) -> Seq<ObjView>
    decreases s, 0int,
{
    if s.len() == 0 {
        Seq::empty()
    } else {
        objects_view(s.drop_last()).push(object_view(s.last()))
    }
}

/// The entries of a dictionary as plain values, in order.
pub closed spec fn dict_view(d: Dictionary) -> Seq<(Seq<char>, ObjView)>
    decreases d, 1int,
{
    entries_view(d.entries@)
}

/// The plain values of a sequence of dictionary entries.
pub open spec fn entries_view(s: Seq<(PdfName, Object)>) -> Seq<(Seq<char>, ObjView)>
    decreases s, 0int,
{
    if s.len() == 0 {
        Seq::empty()
    } else {
        entries_view(s.drop_last()).push((s.last().0.0@, object_view(s.last().1)))
    }
}

impl View for Object {
    type V = ObjView;

    open spec fn view(&self) -> ObjView {
        object_view(*self)
    }
}

impl View for Dictionary {
    type V = Seq<(Seq<char>, ObjView)>;

    open spec fn view(&self) -> Seq<(Seq<char>, ObjView)> {
        dict_view(*self)
    }
}

/// The plain values of a sequence of objects, element by element.
pub proof fn lemma_objects_view(s: Seq<Object>)
    ensures
        objects_view(s).len() == s.len(),
        forall|i: int| 0 <= i < s.len() ==> #[trigger] objects_view(s)[i] == object_view(s[i]),
    decreases s.len(),
{
    if s.len() > 0 {
        lemma_objects_view(s.drop_last());
    }
}

/// The plain values of dictionary entries, entry by entry.
pub proof fn lemma_entries_view(s: Seq<(PdfName, Object)>)
    ensures
        entries_view(s).len() == s.len(),
        forall|i: int|
            0 <= i < s.len() ==> #[trigger] entries_view(s)[i] == (s[i].0.0@, object_view(s[i].1)),
    decreases s.len(),
{
    if s.len() > 0 {
        lemma_entries_view(s.drop_last());
    }
}

// ---------------------------------------------------------------------------
// Dictionary model
// ---------------------------------------------------------------------------

/// Whether the keys of entries are in strictly increasing byte order.
pub open spec fn keys_sorted<V>(es: Seq<(Seq<char>, V)>) -> bool {
    forall|i: int, j: int|
        0 <= i < j < es.len() ==> bytes_lt(key_bytes(#[trigger] es[i].0), key_bytes(#[trigger] es[j].0))
}

/// The value of the last entry with key `k`.
pub open spec fn lookup<V>(es: Seq<(Seq<char>, V)>, k: Seq<char>) -> Option<V>
    decreases es.len(),
{
    if es.len() == 0 {
        None
    } else if es.last().0 == k {
        Some(es.last().1)
    } else {
        lookup(es.drop_last(), k)
    }
}

/// The number of leading entries whose key is below `k`.
pub open spec fn below_count<V>(es: Seq<(Seq<char>, V)>, k: Seq<char>) -> nat
    decreases es.len(),
{
    if es.len() == 0 || !bytes_lt(key_bytes(es[0].0), key_bytes(k)) {
        0
    } else {
        1 + below_count(es.drop_first(), k)
    }
}

/// The entries after setting key `k` to `v`: the entry for `k` takes the
/// new value, or a new entry goes where the order puts it.
pub open spec fn insert_sorted<V>(es: Seq<(Seq<char>, V)>, k: Seq<char>, v: V) -> Seq<(Seq<char>, V)> {
    let p = below_count(es, k) as int;
    if p < es.len() && es[p].0 == k {
        es.update(p, (k, v))
    } else {
        es.insert(p, (k, v))
    }
}

/// The entries without the entry for key `k`.
pub open spec fn remove_key<V>(es: Seq<(Seq<char>, V)>, k: Seq<char>) -> Seq<(Seq<char>, V)> {
    let p = below_count(es, k) as int;
    if p < es.len() && es[p].0 == k {
        es.remove(p)
    } else {
        es
    }
}

proof fn lemma_below_count<V>(es: Seq<(Seq<char>, V)>, k: Seq<char>)
    ensures
        below_count(es, k) <= es.len(),
        forall|j: int| 0 <= j < below_count(es, k) ==> bytes_lt(key_bytes(#[trigger] es[j].0), key_bytes(k)),
        below_count(es, k) < es.len() ==> !bytes_lt(key_bytes(es[below_count(es, k) as int].0), key_bytes(k)),
    decreases es.len(),
{
    if es.len() > 0 && bytes_lt(key_bytes(es[0].0), key_bytes(k)) {
        lemma_below_count(es.drop_first(), k);
        assert forall|j: int| 0 <= j < below_count(es, k) implies bytes_lt(
            key_bytes(#[trigger] es[j].0),
            key_bytes(k),
        ) by {
            if j > 0 {
                assert(es[j] == es.drop_first()[j - 1]);
            }
        }
    }
}

/// Sorted keys are distinct.
proof fn lemma_sorted_distinct<V>(es: Seq<(Seq<char>, V)>, i: int, j: int)
    requires
        keys_sorted(es),
        0 <= i < es.len(),
        0 <= j < es.len(),
        i != j,
    ensures
        es[i].0 != es[j].0,
{
    if i < j {
        assert(bytes_lt(key_bytes(es[i].0), key_bytes(es[j].0)));
    } else {
        assert(bytes_lt(key_bytes(es[j].0), key_bytes(es[i].0)));
    }
    if es[i].0 == es[j].0 {
        lemma_bytes_lt_irreflexive(key_bytes(es[i].0));
    }
}

/// With distinct keys, the lookup of an entry's key gives its value.
proof fn lemma_lookup_at<V>(es: Seq<(Seq<char>, V)>, j: int)
    requires
        0 <= j < es.len(),
        forall|a: int, b: int| 0 <= a < b < es.len() ==> #[trigger] es[a].0 != #[trigger] es[b].0,
    ensures
        lookup(es, es[j].0) == Some(es[j].1),
    decreases es.len(),
{
    if j < es.len() - 1 {
        assert(es.last().0 != es[j].0) by {
            assert(es[j].0 != es[es.len() - 1].0);
        }
        assert(es.drop_last()[j] == es[j]);
        lemma_lookup_at(es.drop_last(), j);
    }
}

/// A key that no entry has is not found.
proof fn lemma_lookup_absent<V>(es: Seq<(Seq<char>, V)>, k: Seq<char>)
    requires
        forall|j: int| 0 <= j < es.len() ==> #[trigger] es[j].0 != k,
    ensures
        lookup(es, k) is None,
    decreases es.len(),
{
    if es.len() > 0 {
        assert(es.last().0 != k) by {
            assert(es[es.len() - 1].0 != k);
        }
        assert forall|j: int| 0 <= j < es.drop_last().len() implies #[trigger] es.drop_last()[j].0 != k by {
            assert(es.drop_last()[j] == es[j]);
        }
        lemma_lookup_absent(es.drop_last(), k);
    }
}

/// Setting a key keeps the keys in order.
pub proof fn lemma_insert_sorted_order<V>(es: Seq<(Seq<char>, V)>, k: Seq<char>, v: V)
    requires
        keys_sorted(es),
    ensures
        keys_sorted(insert_sorted(es, k, v)),
{
    lemma_below_count(es, k);
    let p = below_count(es, k) as int;
    let r = insert_sorted(es, k, v);
    if p < es.len() && es[p].0 == k {
        assert forall|i: int, j: int| 0 <= i < j < r.len() implies bytes_lt(
            key_bytes(#[trigger] r[i].0),
            key_bytes(#[trigger] r[j].0),
        ) by {
            assert(r[i].0 == es[i].0);
            assert(r[j].0 == es[j].0);
        }
    } else {
        if p < es.len() {
            if key_bytes(es[p].0) == key_bytes(k) {
                lemma_key_bytes_injective(es[p].0, k);
            }
            lemma_bytes_lt_total(key_bytes(es[p].0), key_bytes(k));
        }
        assert forall|i: int, j: int| 0 <= i < j < r.len() implies bytes_lt(
            key_bytes(#[trigger] r[i].0),
            key_bytes(#[trigger] r[j].0),
        ) by {
            if j < p {
                assert(r[i] == es[i]);
                assert(r[j] == es[j]);
            } else if j == p {
                assert(r[i] == es[i]);
            } else if i < p {
                assert(r[i] == es[i]);
                assert(r[j] == es[j - 1]);
            } else if i == p {
                assert(r[j] == es[j - 1]);
                if p < j - 1 {
                    lemma_bytes_lt_transitive(key_bytes(k), key_bytes(es[p].0), key_bytes(es[j - 1].0));
                }
            } else {
                assert(r[i] == es[i - 1]);
                assert(r[j] == es[j - 1]);
            }
        }
    }
}

/// Reading a key back after setting it gives the value set, and every
/// other key keeps its value.
pub proof fn lemma_insert_sorted_lookup<V>(es: Seq<(Seq<char>, V)>, k: Seq<char>, v: V, other: Seq<char>)
    requires
        keys_sorted(es),
    ensures
        lookup(insert_sorted(es, k, v), k) == Some(v),
        other != k ==> lookup(insert_sorted(es, k, v), other) == lookup(es, other),
{
    lemma_below_count(es, k);
    lemma_insert_sorted_order(es, k, v);
    let p = below_count(es, k) as int;
    let r = insert_sorted(es, k, v);
    assert forall|a: int, b: int| 0 <= a < b < r.len() implies #[trigger] r[a].0 != #[trigger] r[b].0 by {
        lemma_sorted_distinct(r, a, b);
    }
    assert forall|a: int, b: int| 0 <= a < b < es.len() implies #[trigger] es[a].0 != #[trigger] es[b].0 by {
        lemma_sorted_distinct(es, a, b);
    }
    assert(r[p] == (k, v));
    lemma_lookup_at(r, p);
    if other != k {
        lemma_insert_sorted_lookup_other(es, k, v, other);
    }
}

proof fn lemma_insert_sorted_lookup_other<V>(es: Seq<(Seq<char>, V)>, k: Seq<char>, v: V, other: Seq<char>)
    requires
        keys_sorted(es),
        other != k,
    ensures
        lookup(insert_sorted(es, k, v), other) == lookup(es, other),
{
    lemma_insert_sorted_order(es, k, v);
    let r = insert_sorted(es, k, v);
    assert forall|a: int, b: int| 0 <= a < b < r.len() implies #[trigger] r[a].0 != #[trigger] r[b].0 by {
        lemma_sorted_distinct(r, a, b);
    }
    if exists|j: int| 0 <= j < es.len() && es[j].0 == other {
        let j = choose|j: int| 0 <= j < es.len() && es[j].0 == other;
        lemma_insert_present(es, k, v, j);
    } else {
        lemma_insert_absent(es, k, v, other);
    }
}

proof fn lemma_insert_present<V>(es: Seq<(Seq<char>, V)>, k: Seq<char>, v: V, j: int)
    requires
        keys_sorted(es),
        0 <= j < es.len(),
        es[j].0 != k,
        forall|a: int, b: int|
            0 <= a < b < insert_sorted(es, k, v).len() ==> #[trigger] insert_sorted(es, k, v)[a].0
                != #[trigger] insert_sorted(es, k, v)[b].0,
    ensures
        lookup(insert_sorted(es, k, v), es[j].0) == lookup(es, es[j].0),
{
    lemma_below_count(es, k);
    let p = below_count(es, k) as int;
    let r = insert_sorted(es, k, v);
    assert forall|a: int, b: int| 0 <= a < b < es.len() implies #[trigger] es[a].0 != #[trigger] es[b].0 by {
        lemma_sorted_distinct(es, a, b);
    }
    lemma_lookup_at(es, j);
    if p < es.len() && es[p].0 == k {
        assert(r[j] == es[j]);
        lemma_lookup_at(r, j);
    } else if j < p {
        assert(r[j] == es[j]);
        lemma_lookup_at(r, j);
    } else {
        assert(r[j + 1] == es[j]);
        lemma_lookup_at(r, j + 1);
    }
}

proof fn lemma_insert_absent<V>(es: Seq<(Seq<char>, V)>, k: Seq<char>, v: V, other: Seq<char>)
    requires
        other != k,
        forall|j: int| 0 <= j < es.len() ==> #[trigger] es[j].0 != other,
    ensures
        lookup(insert_sorted(es, k, v), other) is None,
        lookup(es, other) is None,
{
    let p = below_count(es, k) as int;
    let r = insert_sorted(es, k, v);
    lemma_below_count(es, k);
    lemma_lookup_absent(es, other);
    assert forall|j: int| 0 <= j < r.len() implies #[trigger] r[j].0 != other by {
        if j != p {
            if p < es.len() && es[p].0 == k {
                assert(r[j] == es[j]);
            } else if j < p {
                assert(r[j] == es[j]);
            } else {
                assert(r[j] == es[j - 1]);
            }
        }
    }
    lemma_lookup_absent(r, other);
}

/// A key that sorts at or after position `p` and differs from the entry
/// there is not in the entries.
proof fn lemma_not_found<V>(es: Seq<(Seq<char>, V)>, k: Seq<char>)
    requires
        keys_sorted(es),
        !(below_count(es, k) < es.len() && es[below_count(es, k) as int].0 == k),
    ensures
        lookup(es, k) is None,
{
    lemma_below_count(es, k);
    let p = below_count(es, k) as int;
    assert forall|j: int| 0 <= j < es.len() implies #[trigger] es[j].0 != k by {
        if es[j].0 == k {
            if j < p {
                lemma_bytes_lt_irreflexive(key_bytes(k));
            } else if j > p {
                assert(bytes_lt(key_bytes(es[p].0), key_bytes(es[j].0)));
            }
        }
    }
    lemma_lookup_absent(es, k);
}

/// Removing a key leaves the keys in order, the key no longer found and
/// every other key with its value.
pub proof fn lemma_remove_key_lookup<V>(es: Seq<(Seq<char>, V)>, k: Seq<char>, other: Seq<char>)
    requires
        keys_sorted(es),
    ensures
        keys_sorted(remove_key(es, k)),
        lookup(remove_key(es, k), k) is None,
        other != k ==> lookup(remove_key(es, k), other) == lookup(es, other),
{
    lemma_below_count(es, k);
    let p = below_count(es, k) as int;
    let r = remove_key(es, k);
    if p < es.len() && es[p].0 == k {
        assert forall|i: int, j: int| 0 <= i < j < r.len() implies bytes_lt(
            key_bytes(#[trigger] r[i].0),
            key_bytes(#[trigger] r[j].0),
        ) by {
            let i0 = if i < p { i } else { i + 1 };
            let j0 = if j < p { j } else { j + 1 };
            assert(r[i] == es[i0]);
            assert(r[j] == es[j0]);
        }
        assert forall|a: int, b: int| 0 <= a < b < es.len() implies #[trigger] es[a].0 != #[trigger] es[b].0 by {
            lemma_sorted_distinct(es, a, b);
        }
        assert forall|a: int, b: int| 0 <= a < b < r.len() implies #[trigger] r[a].0 != #[trigger] r[b].0 by {
            lemma_sorted_distinct(r, a, b);
        }
        assert forall|j: int| 0 <= j < r.len() implies #[trigger] r[j].0 != k by {
            if j < p {
                assert(r[j] == es[j]);
            } else {
                assert(r[j] == es[j + 1]);
            }
        }
        lemma_lookup_absent(r, k);
        if other != k {
            if exists|j: int| 0 <= j < es.len() && es[j].0 == other {
                let j = choose|j: int| 0 <= j < es.len() && es[j].0 == other;
                lemma_lookup_at(es, j);
                if j < p {
                    assert(r[j] == es[j]);
                    lemma_lookup_at(r, j);
                } else {
                    assert(r[j - 1] == es[j]);
                    lemma_lookup_at(r, j - 1);
                }
            } else {
                assert forall|j: int| 0 <= j < r.len() implies #[trigger] r[j].0 != other by {
                    if j < p {
                        assert(r[j] == es[j]);
                    } else {
                        assert(r[j] == es[j + 1]);
                    }
                }
                lemma_lookup_absent(es, other);
                lemma_lookup_absent(r, other);
            }
        }
    } else {
        lemma_not_found(es, k);
    }
}

// ---------------------------------------------------------------------------
// Dictionary operations
// ---------------------------------------------------------------------------

/// The position of the first entry whose key is not below the key with
/// bytes `kb`.
fn below_position(es: &[(PdfName, Object)], kb: &[u8], Ghost(k): Ghost<Seq<char>>) -> (p: usize)
    requires
        kb@ == key_bytes(k),
    ensures
        p == below_count(entries_view(es@), k),
{
    let ghost ev = entries_view(es@);
    proof {
        lemma_entries_view(es@);
        assert(ev.skip(0) =~= ev);
    }
    let mut i: usize = 0;
    while i < es.len()
        invariant
            i <= es.len(),
            ev == entries_view(es@),
            ev.len() == es@.len(),
            forall|j: int| 0 <= j < es@.len() ==> #[trigger] ev[j] == (es@[j].0.0@, object_view(es@[j].1)),
            kb@ == key_bytes(k),
            below_count(ev, k) == i + below_count(ev.skip(i as int), k),
        decreases es.len() - i,
    {
        let name: &str = es[i].0.0.as_str();
        assert(ev.skip(i as int)[0] == ev[i as int]);
        if !bytes_less(name.as_bytes(), kb) {
            return i;
        }
        assert(ev.skip(i as int).drop_first() =~= ev.skip(i + 1));
        i = i + 1;
    }
    assert(ev.skip(i as int).len() == 0);
    i
}

impl Dictionary {
    #[verifier::type_invariant]
    spec fn keys_in_order(self) -> bool {
        keys_sorted(entries_view(self.entries@))
    }

    /// Creates an empty dictionary.
    pub fn new() -> (r: Dictionary)
        ensures
            r@ == Seq::<(Seq<char>, ObjView)>::empty(),
    {
        let r = Dictionary { entries: Vec::new() };
        assert(entries_view(r.entries@) =~= Seq::<(Seq<char>, ObjView)>::empty());
        r
    }

    /// The number of entries.
    pub fn len(&self) -> (r: usize)
        ensures
            r == self@.len(),
    {
        proof {
            lemma_entries_view(self.entries@);
        }
        self.entries.len()
    }

    /// Whether the dictionary has no entries.
    pub fn is_empty(&self) -> (r: bool)
        ensures
            r == (self@.len() == 0),
    {
        proof {
            lemma_entries_view(self.entries@);
        }
        self.entries.len() == 0
    }

    /// The entries in key order.
    pub fn entries(&self) -> (r: &[(PdfName, Object)])
        ensures
            entries_view(r@) == self@,
            keys_sorted(self@),
    {
        proof {
            use_type_invariant(self);
        }
        self.entries.as_slice()
    }

    /// The value for a key, if present.
    pub fn get(&self, key: &str) -> (r: Option<&Object>)
        ensures
            match r {
                Some(o) => lookup(self@, key@) == Some(o@),
                None => lookup(self@, key@) is None,
            },
    {
        let ghost ev = entries_view(self.entries@);
        proof {
            lemma_entries_view(self.entries@);
            assert(ev.take(ev.len() as int) =~= ev);
        }
        let mut i: usize = self.entries.len();
        while i > 0
            invariant
                i <= self.entries@.len(),
                ev == entries_view(self.entries@),
                ev.len() == self.entries@.len(),
                forall|j: int|
                    0 <= j < self.entries@.len() ==> #[trigger] ev[j] == (
                        self.entries@[j].0.0@,
                        object_view(self.entries@[j].1),
                    ),
                lookup(ev, key@) == lookup(ev.take(i as int), key@),
            decreases i,
        {
            let entry = &self.entries[i - 1];
            assert(ev.take(i as int).last() == ev[i - 1]);
            if crate::unicode::str_eq(entry.0.0.as_str(), key) {
                return Some(&entry.1);
            }
            assert(ev.take(i as int).drop_last() =~= ev.take(i - 1));
            i = i - 1;
        }
        None
    }

    /// Whether a key is present.
    pub fn contains_key(&self, key: &str) -> (r: bool)
        ensures
            r == lookup(self@, key@) is Some,
    {
        self.get(key).is_some()
    }

    /// Sets the value of a key: the entry for the key takes the new value,
    /// or a new entry goes where the key order puts it.
    pub fn insert(&mut self, key: PdfName, value: Object)
        ensures
            final(self)@ == insert_sorted(old(self)@, key.0@, value@),
    {
        proof {
            use_type_invariant(&*self);
        }
        let ghost k = key.0@;
        let ghost v = value@;
        let ghost ev = entries_view(self.entries@);
        let mut es: Vec<(PdfName, Object)> = Vec::new();
        std::mem::swap(&mut es, &mut self.entries);
        proof {
            lemma_entries_view(es@);
        }
        let p = below_position(es.as_slice(), key.0.as_str().as_bytes(), Ghost(k));
        proof {
            lemma_below_count(ev, k);
        }
        let found = p < es.len() && crate::unicode::str_eq(es[p].0.0.as_str(), key.0.as_str());
        let ghost es0 = es@;
        assert(found == (p < ev.len() && ev[p as int].0 == k));
        if found {
            es.set(p, (key, value));
        } else {
            es.insert(p, (key, value));
        }
        proof {
            lemma_entries_view(es@);
            let r = insert_sorted(ev, k, v);
            assert(entries_view(es@).len() == r.len());
            assert forall|j: int| 0 <= j < r.len() implies #[trigger] entries_view(es@)[j] == r[j] by {
                if found {
                    if j != p {
                        assert(es@[j] == es0[j]);
                    }
                } else if j < p {
                    assert(es@[j] == es0[j]);
                } else if j > p {
                    assert(es@[j] == es0[j - 1]);
                }
            }
            assert(entries_view(es@) =~= r);
            lemma_insert_sorted_order(ev, k, v);
        }
        self.entries = es;
    }

    /// Exchanges the value of the entry at position `i` with `v`; the keys
    /// stay as they are.
    pub fn swap_value(&mut self, i: usize, v: &mut Object)
        requires
            i < old(self)@.len(),
        ensures
            final(self)@ == old(self)@.update(i as int, (old(self)@[i as int].0, old(v)@)),
            final(v)@ == old(self)@[i as int].1,
    {
        proof {
            use_type_invariant(&*self);
            lemma_entries_view(self.entries@);
        }
        let ghost ev = entries_view(self.entries@);
        let mut es: Vec<(PdfName, Object)> = Vec::new();
        std::mem::swap(&mut es, &mut self.entries);
        let ghost es0 = es@;
        let mut e = (PdfName(String::new()), Object::Null);
        es.set_and_swap(i, &mut e);
        std::mem::swap(&mut e.1, v);
        es.set_and_swap(i, &mut e);
        proof {
            lemma_entries_view(es@);
            let r = ev.update(i as int, (ev[i as int].0, old(v)@));
            assert forall|j: int| 0 <= j < r.len() implies #[trigger] entries_view(es@)[j] == r[j] by {
                if j != i {
                    assert(es@[j] == es0[j]);
                }
            }
            assert(entries_view(es@) =~= r);
            assert forall|a: int, b: int| 0 <= a < b < r.len() implies bytes_lt(
                key_bytes(#[trigger] r[a].0),
                key_bytes(#[trigger] r[b].0),
            ) by {
                assert(r[a].0 == ev[a].0);
                assert(r[b].0 == ev[b].0);
            }
        }
        self.entries = es;
    }

    /// Removes a key, returning its value if it was present.
    pub fn remove(&mut self, key: &str) -> (r: Option<Object>)
        ensures
            final(self)@ == remove_key(old(self)@, key@),
            match r {
                Some(o) => lookup(old(self)@, key@) == Some(o@),
                None => lookup(old(self)@, key@) is None,
            },
    {
        proof {
            use_type_invariant(&*self);
        }
        let ghost ev = entries_view(self.entries@);
        let mut es: Vec<(PdfName, Object)> = Vec::new();
        std::mem::swap(&mut es, &mut self.entries);
        proof {
            lemma_entries_view(es@);
            lemma_remove_key_lookup(ev, key@, key@);
            lemma_below_count(ev, key@);
        }
        let p = below_position(es.as_slice(), key.as_bytes(), Ghost(key@));
        let found = p < es.len() && crate::unicode::str_eq(es[p].0.0.as_str(), key);
        let r = if found {
            let (_name, value) = es.remove(p);
            proof {
                assert forall|a: int, b: int| 0 <= a < b < ev.len() implies #[trigger] ev[a].0 != #[trigger] ev[b].0 by {
                    lemma_sorted_distinct(ev, a, b);
                }
                lemma_lookup_at(ev, p as int);
            }
            Some(value)
        } else {
            proof {
                lemma_not_found(ev, key@);
            }
            None
        };
        proof {
            lemma_entries_view(es@);
            assert(entries_view(es@) =~= remove_key(ev, key@));
        }
        self.entries = es;
        r
    }
}

// ---------------------------------------------------------------------------
// Copies
// ---------------------------------------------------------------------------

fn copy_name(n: &PdfName) -> (r: PdfName)
    ensures
        r.0@ == n.0@,
{
    PdfName(n.0.clone())
}

fn copy_string(s: &PdfString) -> (r: PdfString)
    ensures
        r.bytes@ == s.bytes@,
        r.format == s.format,
{
    PdfString {
        bytes: crate::content::lexer::copy_bytes(s.bytes.as_slice(), 0, s.bytes.len()),
        format: s.format,
    }
}

fn copy_real(x: &RealNumber) -> (r: RealNumber)
    ensures
        r@ == x@,
{
    let r = RealNumber {
        negative: x.negative,
        int_digits: crate::content::lexer::copy_bytes(x.int_digits.as_slice(), 0, x.int_digits.len()),
        frac_digits: crate::content::lexer::copy_bytes(x.frac_digits.as_slice(), 0, x.frac_digits.len()),
    };
    assert(r.int_digits@ =~= x.int_digits@);
    assert(r.frac_digits@ =~= x.frac_digits@);
    r
}

pub(crate) fn copy_object(o: &Object) -> (r: Object)
    ensures
        r@ == o@,
    decreases *o, 2int,
{
    match o {
        Object::Boolean(b) => Object::Boolean(*b),
        Object::Integer(n) => Object::Integer(*n),
        Object::Real(x) => Object::Real(copy_real(x)),
        Object::String(s) => Object::String(copy_string(s)),
        Object::Name(n) => Object::Name(copy_name(n)),
        Object::Array(v) => Object::Array(copy_objects(v)),
        Object::Dictionary(d) => Object::Dictionary(copy_dict(d)),
        Object::Stream(st) => {
            let data = crate::content::lexer::copy_bytes(st.data.as_slice(), 0, st.data.len());
            assert(data@ =~= st.data@);
            Object::Stream(PdfStream { dict: copy_dict(&st.dict), data })
        },
        Object::Null => Object::Null,
        Object::Reference(r) => Object::Reference(*r),
    }
}

pub(crate) fn copy_objects(v: &Vec<Object>) -> (r: Vec<Object>)
    ensures
        objects_view(r@) == objects_view(v@),
    decreases v@, 0int,
{
    let mut out: Vec<Object> = Vec::new();
    let mut i: usize = 0;
    while i < v.len()
        invariant
            i <= v.len(),
            objects_view(out@) == objects_view(v@.take(i as int)),
        decreases v.len() - i,
    {
        let c = copy_object(&v[i]);
        let ghost before = out@;
        out.push(c);
        proof {
            assert(out@.drop_last() =~= before);
            assert(v@.take(i + 1).drop_last() =~= v@.take(i as int));
        }
        i = i + 1;
    }
    assert(v@.take(v.len() as int) =~= v@);
    out
}

pub(crate) fn copy_dict(d: &Dictionary) -> (r: Dictionary)
    ensures
        r@ == d@,
    decreases *d, 1int,
{
    proof {
        use_type_invariant(d);
    }
    let mut out: Vec<(PdfName, Object)> = Vec::new();
    let mut i: usize = 0;
    while i < d.entries.len()
        invariant
            i <= d.entries.len(),
            entries_view(out@) == entries_view(d.entries@.take(i as int)),
        decreases d.entries.len() - i,
    {
        let e = &d.entries[i];
        let c = (copy_name(&e.0), copy_object(&e.1));
        let ghost before = out@;
        out.push(c);
        proof {
            assert(out@.drop_last() =~= before);
            assert(d.entries@.take(i + 1).drop_last() =~= d.entries@.take(i as int));
        }
        i = i + 1;
    }
    assert(d.entries@.take(d.entries.len() as int) =~= d.entries@);
    Dictionary { entries: out }
}

// ---------------------------------------------------------------------------
// Renumbering references
// ---------------------------------------------------------------------------

/// The place of the last `id` in `ids`, or -1.
pub open spec fn id_place(ids: Seq<(u32, u16)>, id: (u32, u16)) -> int
    decreases ids.len(),
{
    if ids.len() == 0 {
        -1
    } else if ids.last() == id {
        ids.len() - 1
    } else {
        id_place(ids.drop_last(), id)
    }
}

/// An object with every reference to an id of `ids` made to point at
/// number `base` plus that id's place, generation 0; other references
/// stay.
pub open spec fn renumbered_view(o: ObjView, ids: Seq<(u32, u16)>, base: nat) -> ObjView
    decreases o, 1int,
{
    match o {
        ObjView::Reference(n, g) => if id_place(ids, (n, g)) >= 0 {
            ObjView::Reference((base + id_place(ids, (n, g))) as u32, 0)
        } else {
            o
        },
        ObjView::Array(items) => ObjView::Array(renumbered_items(items, ids, base)),
        ObjView::Dictionary(es) => ObjView::Dictionary(renumbered_entries(es, ids, base)),
        ObjView::Stream(es, data) => ObjView::Stream(renumbered_entries(es, ids, base), data),
        _ => o,
    }
}

/// Items with their references renumbered.
pub open spec fn renumbered_items(items: Seq<ObjView>, ids: Seq<(u32, u16)>, base: nat) -> Seq<ObjView>
    decreases items, 0int,
{
    if items.len() == 0 {
        Seq::empty()
    } else {
        renumbered_items(items.drop_last(), ids, base).push(renumbered_view(items.last(), ids, base))
    }
}

/// Dictionary entries with the references in their values renumbered.
pub open spec fn renumbered_entries(es: Seq<(Seq<char>, ObjView)>, ids: Seq<(u32, u16)>, base: nat) -> Seq<(Seq<char>, ObjView)>
    decreases es, 0int,
{
    if es.len() == 0 {
        Seq::empty()
    } else {
        renumbered_entries(es.drop_last(), ids, base).push((es.last().0, renumbered_view(es.last().1, ids, base)))
    }
}

/// The place of the last `id` in `ids`, or `None`.
pub(crate) fn find_id_place(ids: &[(u32, u16)], id: (u32, u16)) -> (r: Option<usize>)
    ensures
        match r {
            Some(p) => id_place(ids@, id) == p as int && p < ids@.len(),
            None => id_place(ids@, id) < 0,
        },
{
    assert(ids@.take(ids@.len() as int) =~= ids@);
    let mut i: usize = ids.len();
    while i > 0
        invariant
            i <= ids@.len(),
            id_place(ids@, id) == id_place(ids@.take(i as int), id),
        decreases i,
    {
        let e = ids[i - 1];
        assert(ids@.take(i as int).last() == ids@[i - 1]);
        if e.0 == id.0 && e.1 == id.1 {
            assert(ids@[i - 1] == id);
            return Some(i - 1);
        }
        assert(ids@.take(i as int).drop_last() =~= ids@.take(i - 1));
        i = i - 1;
    }
    None
}

/// A copy of an object with its references renumbered (see
/// `renumbered_view`).
pub(crate) fn renumber_object(o: &Object, ids: &[(u32, u16)], base: u32) -> (r: Object)
    requires
        base + ids@.len() <= u32::MAX,
    ensures
        r@ == renumbered_view(o@, ids@, base as nat),
    decreases *o, 2int,
{
    match o {
        Object::Reference(x) => match find_id_place(ids, (x.object_number, x.generation)) {
            Some(p) => {
                let q: u32 = p as u32;
                Object::Reference(IndirectRef::new(base + q, 0))
            },
            None => Object::Reference(*x),
        },
        Object::Array(v) => Object::Array(renumber_objects(v, ids, base)),
        Object::Dictionary(d) => Object::Dictionary(renumber_dict(d, ids, base)),
        Object::Stream(st) => {
            let data = crate::content::lexer::copy_bytes(st.data.as_slice(), 0, st.data.len());
            assert(data@ =~= st.data@);
            Object::Stream(PdfStream { dict: renumber_dict(&st.dict, ids, base), data })
        },
        _ => copy_object(o),
    }
}

pub(crate) fn renumber_objects(v: &Vec<Object>, ids: &[(u32, u16)], base: u32) -> (r: Vec<Object>)
    requires
        base + ids@.len() <= u32::MAX,
    ensures
        objects_view(r@) == renumbered_items(objects_view(v@), ids@, base as nat),
    decreases v@, 0int,
{
    let mut out: Vec<Object> = Vec::new();
    let mut i: usize = 0;
    while i < v.len()
        invariant
            i <= v.len(),
            base + ids@.len() <= u32::MAX,
            objects_view(out@) == renumbered_items(objects_view(v@.take(i as int)), ids@, base as nat),
        decreases v.len() - i,
    {
        let c = renumber_object(&v[i], ids, base);
        let ghost before = out@;
        out.push(c);
        proof {
            assert(out@.drop_last() =~= before);
            assert(v@.take(i + 1).drop_last() =~= v@.take(i as int));
            assert(objects_view(v@.take(i + 1)).drop_last() =~= objects_view(v@.take(i as int)));
        }
        i = i + 1;
    }
    assert(v@.take(v.len() as int) =~= v@);
    out
}

fn renumber_dict(d: &Dictionary, ids: &[(u32, u16)], base: u32) -> (r: Dictionary)
    requires
        base + ids@.len() <= u32::MAX,
    ensures
        r@ == renumbered_entries(d@, ids@, base as nat),
    decreases *d, 1int,
{
    proof {
        use_type_invariant(d);
    }
    let mut out: Vec<(PdfName, Object)> = Vec::new();
    let mut i: usize = 0;
    while i < d.entries.len()
        invariant
            i <= d.entries.len(),
            base + ids@.len() <= u32::MAX,
            entries_view(out@) == renumbered_entries(entries_view(d.entries@.take(i as int)), ids@, base as nat),
        decreases d.entries.len() - i,
    {
        let e = &d.entries[i];
        let c = (copy_name(&e.0), renumber_object(&e.1, ids, base));
        let ghost before = out@;
        out.push(c);
        proof {
            assert(out@.drop_last() =~= before);
            assert(d.entries@.take(i + 1).drop_last() =~= d.entries@.take(i as int));
            assert(entries_view(d.entries@.take(i + 1)).drop_last() =~= entries_view(d.entries@.take(i as int)));
        }
        i = i + 1;
    }
    assert(d.entries@.take(d.entries.len() as int) =~= d.entries@);
    proof {
        lemma_renumbered_keys(entries_view(d.entries@), ids@, base as nat);
    }
    Dictionary { entries: out }
}

/// Renumbering keeps the keys of the entries.
proof fn lemma_renumbered_keys(es: Seq<(Seq<char>, ObjView)>, ids: Seq<(u32, u16)>, base: nat)
    ensures
        renumbered_entries(es, ids, base).len() == es.len(),
        forall|i: int| 0 <= i < es.len() ==> #[trigger] renumbered_entries(es, ids, base)[i].0 == es[i].0,
    decreases es.len(),
{
    if es.len() > 0 {
        lemma_renumbered_keys(es.drop_last(), ids, base);
    }
}

impl Clone for Object {
    fn clone(&self) -> (r: Object)
        ensures
            r@ == self@,
    {
        copy_object(self)
    }
}

impl Clone for Dictionary {
    fn clone(&self) -> (r: Dictionary)
        ensures
            r@ == self@,
    {
        copy_dict(self)
    }
}

impl Clone for PdfStream {
    fn clone(&self) -> (r: PdfStream)
        ensures
            r.dict@ == self.dict@,
            r.data@ == self.data@,
    {
        let data = crate::content::lexer::copy_bytes(self.data.as_slice(), 0, self.data.len());
        assert(data@ =~= self.data@);
        PdfStream { dict: copy_dict(&self.dict), data }
    }
}

impl Clone for RealNumber {
    fn clone(&self) -> (r: RealNumber)
        ensures
            r@ == self@,
    {
        copy_real(self)
    }
}


// ---------------------------------------------------------------------------
// Real numbers from decimal text
// ---------------------------------------------------------------------------

/// Whether a byte is an ASCII digit.
pub open spec fn is_ascii_digit(b: u8) -> bool {
    0x30 <= b <= 0x39
}

/// The end of the run of digits that starts at `i`.
pub open spec fn digit_run_end(t: Seq<u8>, i: int) -> int
    decreases t.len() - i,
{
    if i < 0 || i >= t.len() || !is_ascii_digit(t[i]) {
        i
    } else {
        digit_run_end(t, i + 1)
    }
}

/// The end of the run of `0` digits from `i`, stopping at `e`.
pub open spec fn zeros_end(t: Seq<u8>, i: int, e: int) -> int
    decreases e - i,
{
    if i < e && t[i] == 0x30 {
        zeros_end(t, i + 1, e)
    } else {
        i
    }
}

/// The start of the run of `0` digits that ends at `e`, stopping at `s`.
pub open spec fn zeros_start(t: Seq<u8>, s: int, e: int) -> int
    decreases e - s,
{
    if s < e && t[e - 1] == 0x30 {
        zeros_start(t, s, e - 1)
    } else {
        e
    }
}

/// The length of a leading sign (`+` or `-`).
pub open spec fn sign_len(t: Seq<u8>) -> int {
    if t.len() > 0 && (t[0] == 0x2B || t[0] == 0x2D) {
        1
    } else {
        0
    }
}

/// The shortest decimal form of decimal text `[+-]digits[.digits]` (with
/// at least one digit): leading zeros of the integer part and trailing
/// zeros of the fraction dropped, `0` for an empty integer part; `None`
/// for any other text.
pub open spec fn decimal_value(t: Seq<u8>) -> Option<RealView> {
    let s = sign_len(t);
    let neg = s == 1 && t[0] == 0x2D;
    let e1 = digit_run_end(t, s);
    let z = zeros_end(t, s, e1);
    let ip = if z == e1 {
        seq![0x30u8]
    } else {
        t.subrange(z, e1)
    };
    if e1 == t.len() {
        if e1 > s {
            Some((neg, ip, Seq::<u8>::empty()))
        } else {
            None
        }
    } else if t[e1] == 0x2E && digit_run_end(t, e1 + 1) == t.len() && (e1 > s || t.len() > e1 + 1) {
        Some((neg, ip, t.subrange(e1 + 1, zeros_start(t, e1 + 1, t.len() as int))))
    } else {
        None
    }
}

proof fn lemma_digit_run_end(t: Seq<u8>, i: int)
    requires
        0 <= i <= t.len(),
    ensures
        i <= digit_run_end(t, i) <= t.len(),
        forall|k: int| i <= k < digit_run_end(t, i) ==> is_ascii_digit(#[trigger] t[k]),
    decreases t.len() - i,
{
    if i < t.len() && is_ascii_digit(t[i]) {
        lemma_digit_run_end(t, i + 1);
    }
}

proof fn lemma_zeros_end(t: Seq<u8>, i: int, e: int)
    requires
        i <= e,
    ensures
        i <= zeros_end(t, i, e) <= e,
    decreases e - i,
{
    if i < e && t[i] == 0x30 {
        lemma_zeros_end(t, i + 1, e);
    }
}

proof fn lemma_zeros_start(t: Seq<u8>, s: int, e: int)
    requires
        s <= e,
    ensures
        s <= zeros_start(t, s, e) <= e,
    decreases e - s,
{
    if s < e && t[e - 1] == 0x30 {
        lemma_zeros_start(t, s, e - 1);
    }
}

impl RealNumber {
    /// Reads decimal text `[+-]digits[.digits]` (at least one digit) into
    /// its shortest decimal form; `None` for any other text.
    pub fn from_decimal(text: &str) -> (r: Option<RealNumber>)
        ensures
            match decimal_value(encode_utf8(text@)) {
                Some(v) => r matches Some(x) && x@ == v,
                None => r is None,
            },
    {
        let t = text.as_bytes();
        let ghost tv = t@;
        let mut i: usize = 0;
        let mut negative = false;
        if t.len() > 0 && (t[0] == 0x2B || t[0] == 0x2D) {
            negative = t[0] == 0x2D;
            i = 1;
        }
        let s = i;
        assert(s == sign_len(tv));
        while i < t.len() && 0x30 <= t[i] && t[i] <= 0x39
            invariant
                s <= i <= t.len(),
                digit_run_end(tv, s as int) == digit_run_end(tv, i as int),
                tv == t@,
            decreases t.len() - i,
        {
            i = i + 1;
        }
        let e1 = i;
        assert(digit_run_end(tv, e1 as int) == e1);
        let mut frac_end = e1;
        let mut frac_start = e1;
        if e1 < t.len() {
            if t[e1] != 0x2E {
                return None;
            }
            i = e1 + 1;
            frac_start = i;
            while i < t.len() && 0x30 <= t[i] && t[i] <= 0x39
                invariant
                    frac_start <= i <= t.len(),
                    digit_run_end(tv, frac_start as int) == digit_run_end(tv, i as int),
                    tv == t@,
                decreases t.len() - i,
            {
                i = i + 1;
            }
            if i < t.len() {
                return None;
            }
            if e1 == s && t.len() == e1 + 1 {
                return None;
            }
            frac_end = i;
        } else if e1 == s {
            return None;
        }
        let mut a = s;
        while a < e1 && t[a] == 0x30
            invariant
                s <= a <= e1,
                e1 <= t.len(),
                zeros_end(tv, s as int, e1 as int) == zeros_end(tv, a as int, e1 as int),
                tv == t@,
            decreases e1 - a,
        {
            a = a + 1;
        }
        let mut b = frac_end;
        while b > frac_start && t[b - 1] == 0x30
            invariant
                frac_start <= b <= frac_end,
                frac_end <= t.len(),
                zeros_start(tv, frac_start as int, frac_end as int) == zeros_start(
                    tv,
                    frac_start as int,
                    b as int,
                ),
                tv == t@,
            decreases b,
        {
            b = b - 1;
        }
        let int_digits = if a == e1 {
            let mut v: Vec<u8> = Vec::new();
            v.push(0x30u8);
            v
        } else {
            crate::content::lexer::copy_bytes(t, a, e1)
        };
        let frac_digits = crate::content::lexer::copy_bytes(t, frac_start, b);
        let r = RealNumber { negative, int_digits, frac_digits };
        proof {
            if e1 == t.len() {
                assert(frac_digits@ =~= Seq::<u8>::empty());
            }
            if a == e1 {
                assert(int_digits@ =~= seq![0x30u8]);
            }
        }
        Some(r)
    }
}

/// The written form of a real number: the integer digits, then `.` and
/// the fraction digits; an integral value below 10^15 gets `.0`.
pub open spec fn real_syntax(r: RealView) -> Seq<u8> {
    (if r.0 {
        seq![0x2Du8]
    } else {
        Seq::<u8>::empty()
    }) + r.1 + (if r.2.len() > 0 {
        seq![0x2Eu8] + r.2
    } else if r.1.len() <= 15 {
        seq![0x2Eu8, 0x30u8]
    } else {
        Seq::<u8>::empty()
    })
}

/// The display form of a real number: as written, with `.0` for every
/// integral value.
pub open spec fn real_display(r: RealView) -> Seq<char> {
    crate::content::builder::byte_chars(
        (if r.0 {
            seq![0x2Du8]
        } else {
            Seq::<u8>::empty()
        }) + r.1 + (if r.2.len() > 0 {
            seq![0x2Eu8] + r.2
        } else {
            seq![0x2Eu8, 0x30u8]
        }),
    )
}

// ---------------------------------------------------------------------------
// Object accessors
// ---------------------------------------------------------------------------

/// The text of a string object's bytes: UTF-16BE after a `FE FF` byte
/// order mark, otherwise UTF-8; `None` when the bytes do not decode.
pub open spec fn text_string_value(bytes: Seq<u8>) -> Option<Seq<char>> {
    if bytes.len() >= 2 && bytes[0] == 0xFE && bytes[1] == 0xFF {
        crate::unicode::utf16_decode(crate::unicode::be_units(bytes.skip(2)))
    } else if vstd::utf8::valid_utf8(bytes) {
        Some(decode_utf8(bytes))
    } else {
        None
    }
}

/// The type name of an object, for error messages.
pub open spec fn kind_name_of(o: ObjView) -> Seq<char> {
    match o {
        ObjView::Boolean(_) => "Boolean"@,
        ObjView::Integer(_) => "Integer"@,
        ObjView::Real(_) => "Real"@,
        ObjView::String(_, _) => "String"@,
        ObjView::Name(_) => "Name"@,
        ObjView::Array(_) => "Array"@,
        ObjView::Dictionary(_) => "Dictionary"@,
        ObjView::Stream(_, _) => "Stream"@,
        ObjView::Null => "Null"@,
        ObjView::Reference(_, _) => "Reference"@,
    }
}

impl Object {
    /// Whether the object is a Boolean.
    pub fn is_boolean(&self) -> (r: bool)
        ensures
            r == (self@ is Boolean),
    {
        match self {
            Object::Boolean(_) => true,
            _ => false,
        }
    }

    /// Whether the object is an Integer.
    pub fn is_integer(&self) -> (r: bool)
        ensures
            r == (self@ is Integer),
    {
        match self {
            Object::Integer(_) => true,
            _ => false,
        }
    }

    /// Whether the object is a Real.
    pub fn is_real(&self) -> (r: bool)
        ensures
            r == (self@ is Real),
    {
        match self {
            Object::Real(_) => true,
            _ => false,
        }
    }

    /// Whether the object is numeric (Integer or Real).
    pub fn is_number(&self) -> (r: bool)
        ensures
            r == (self@ is Integer || self@ is Real),
    {
        match self {
            Object::Integer(_) => true,
            Object::Real(_) => true,
            _ => false,
        }
    }

    /// Whether the object is a String.
    pub fn is_string(&self) -> (r: bool)
        ensures
            r == (self@ is String),
    {
        match self {
            Object::String(_) => true,
            _ => false,
        }
    }

    /// Whether the object is a Name.
    pub fn is_name(&self) -> (r: bool)
        ensures
            r == (self@ is Name),
    {
        match self {
            Object::Name(_) => true,
            _ => false,
        }
    }

    /// Whether the object is an Array.
    pub fn is_array(&self) -> (r: bool)
        ensures
            r == (self@ is Array),
    {
        match self {
            Object::Array(_) => true,
            _ => false,
        }
    }

    /// Whether the object is a Dictionary.
    pub fn is_dictionary(&self) -> (r: bool)
        ensures
            r == (self@ is Dictionary),
    {
        match self {
            Object::Dictionary(_) => true,
            _ => false,
        }
    }

    /// Whether the object is a Stream.
    pub fn is_stream(&self) -> (r: bool)
        ensures
            r == (self@ is Stream),
    {
        match self {
            Object::Stream(_) => true,
            _ => false,
        }
    }

    /// Whether the object is Null.
    pub fn is_null(&self) -> (r: bool)
        ensures
            r == (self@ is Null),
    {
        match self {
            Object::Null => true,
            _ => false,
        }
    }

    /// Whether the object is a Reference.
    pub fn is_reference(&self) -> (r: bool)
        ensures
            r == (self@ is Reference),
    {
        match self {
            Object::Reference(_) => true,
            _ => false,
        }
    }

    /// The boolean value, if this is a Boolean.
    pub fn as_bool(&self) -> (r: Option<bool>)
        ensures
            r == (match self@ {
                ObjView::Boolean(b) => Some(b),
                _ => None,
            }),
    {
        match self {
            Object::Boolean(b) => Some(*b),
            _ => None,
        }
    }

    /// The integer value, if this is an Integer.
    pub fn as_i64(&self) -> (r: Option<i64>)
        ensures
            r == (match self@ {
                ObjView::Integer(n) => Some(n),
                _ => None,
            }),
    {
        match self {
            Object::Integer(n) => Some(*n),
            _ => None,
        }
    }

    /// The string, if this is a String.
    pub fn as_pdf_string(&self) -> (r: Option<&PdfString>)
        ensures
            r is Some == (self@ is String),
            r matches Some(s) ==> self@ == ObjView::String(s.bytes@, s.format),
    {
        match self {
            Object::String(s) => Some(s),
            _ => None,
        }
    }

    /// The text of a String object: UTF-16BE after a `FE FF` byte order
    /// mark, otherwise UTF-8; `None` for other objects and for bytes that
    /// do not decode.
    pub fn as_text_string(&self) -> (r: Option<String>)
        ensures
            match self@ {
                ObjView::String(bytes, _) => match text_string_value(bytes) {
                    Some(t) => r matches Some(x) && x@ == t,
                    None => r is None,
                },
                _ => r is None,
            },
    {
        let s = match self.as_pdf_string() {
            Some(s) => s,
            None => {
                return None;
            },
        };
        let b = s.bytes.as_slice();
        if b.len() >= 2 && b[0] == 0xFE && b[1] == 0xFF {
            let rest = crate::content::lexer::copy_bytes(b, 2, b.len());
            assert(rest@ =~= s.bytes@.skip(2));
            crate::objects::decode_utf16be(rest.as_slice())
        } else {
            match s.as_text() {
                Some(t) => Some(t.to_owned()),
                None => None,
            }
        }
    }

    /// The name, if this is a Name.
    pub fn as_name(&self) -> (r: Option<&str>)
        ensures
            r is Some == (self@ is Name),
            r matches Some(n) ==> self@ == ObjView::Name(n@),
    {
        match self {
            Object::Name(n) => Some(n.as_str()),
            _ => None,
        }
    }

    /// The elements, if this is an Array.
    pub fn as_array(&self) -> (r: Option<&[Object]>)
        ensures
            r is Some == (self@ is Array),
            r matches Some(a) ==> self@ == ObjView::Array(objects_view(a@)),
    {
        match self {
            Object::Array(a) => Some(a.as_slice()),
            _ => None,
        }
    }

    /// The dictionary, if this is a Dictionary.
    pub fn as_dict(&self) -> (r: Option<&Dictionary>)
        ensures
            r is Some == (self@ is Dictionary),
            r matches Some(d) ==> self@ == ObjView::Dictionary(d@),
    {
        match self {
            Object::Dictionary(d) => Some(d),
            _ => None,
        }
    }

    /// The stream, if this is a Stream.
    pub fn as_stream(&self) -> (r: Option<&PdfStream>)
        ensures
            r is Some == (self@ is Stream),
            r matches Some(s) ==> self@ == ObjView::Stream(s.dict@, s.data@),
    {
        match self {
            Object::Stream(s) => Some(s),
            _ => None,
        }
    }

    /// The indirect reference, if this is a Reference.
    pub fn as_reference(&self) -> (r: Option<&IndirectRef>)
        ensures
            r is Some == (self@ is Reference),
            r matches Some(x) ==> self@ == ObjView::Reference(x.object_number, x.generation),
    {
        match self {
            Object::Reference(x) => Some(x),
            _ => None,
        }
    }

    /// The type name of the object, for error messages.
    pub fn kind_name(&self) -> (r: &'static str)
        ensures
            r@ == kind_name_of(self@),
    {
        match self {
            Object::Boolean(_) => "Boolean",
            Object::Integer(_) => "Integer",
            Object::Real(_) => "Real",
            Object::String(_) => "String",
            Object::Name(_) => "Name",
            Object::Array(_) => "Array",
            Object::Dictionary(_) => "Dictionary",
            Object::Stream(_) => "Stream",
            Object::Null => "Null",
            Object::Reference(_) => "Reference",
        }
    }
}


// ---------------------------------------------------------------------------
// Written (file) syntax
// ---------------------------------------------------------------------------

/// The written form of a name: `/` and its UTF-8 bytes, special bytes
/// escaped as `#xx`.
pub open spec fn name_syntax(k: Seq<char>) -> Seq<u8> {
    seq![0x2Fu8] + crate::objects::escape_name(encode_utf8(k))
}

/// The written form of an integer.
pub open spec fn integer_syntax(n: int) -> Seq<u8> {
    crate::content::builder::ascii_bytes(crate::unicode::signed_decimal(n))
}

/// The written form of the `/Length` entry of a stream: ` /Length n`.
pub open spec fn length_entry_syntax(n: int) -> Seq<u8> {
    seq![0x20u8] + name_syntax("Length"@) + seq![0x20u8] + integer_syntax(n)
}

/// The position of a stream dictionary's entries after the `/Length`
/// entry: past the existing `/Length` entry, or where one would go.
pub open spec fn after_length(es: Seq<(Seq<char>, ObjView)>) -> int {
    let p = below_count(es, "Length"@) as int;
    if p < es.len() && es[p].0 == "Length"@ {
        p + 1
    } else {
        p
    }
}

/// The written form of an object in PDF file syntax.
pub open spec fn object_syntax(o: ObjView) -> Seq<u8>
    decreases o, 1int, 0int,
{
    match o {
        ObjView::Boolean(b) => if b {
            seq![0x74u8, 0x72u8, 0x75u8, 0x65u8]
        } else {
            seq![0x66u8, 0x61u8, 0x6Cu8, 0x73u8, 0x65u8]
        },
        ObjView::Integer(n) => integer_syntax(n as int),
        ObjView::Real(r) => real_syntax(r),
        ObjView::String(bytes, format) => crate::objects::pdf_string_syntax(bytes, format),
        ObjView::Name(k) => name_syntax(k),
        ObjView::Array(items) => seq![0x5Bu8] + items_syntax(items) + seq![0x5Du8],
        ObjView::Dictionary(es) => seq![0x3Cu8, 0x3Cu8] + entries_range(es, 0, es.len() as int)
            + seq![0x20u8, 0x3Eu8, 0x3Eu8],
        ObjView::Stream(es, data) => seq![0x3Cu8, 0x3Cu8] + entries_range(
            es,
            0,
            below_count(es, "Length"@) as int,
        ) + length_entry_syntax(data.len() as i64 as int) + entries_range(
            es,
            after_length(es),
            es.len() as int,
        ) + seq![0x20u8, 0x3Eu8, 0x3Eu8] + seq![
            0x0Au8,
            0x73u8,
            0x74u8,
            0x72u8,
            0x65u8,
            0x61u8,
            0x6Du8,
            0x0Du8,
            0x0Au8,
        ] + data + seq![
            0x0Du8,
            0x0Au8,
            0x65u8,
            0x6Eu8,
            0x64u8,
            0x73u8,
            0x74u8,
            0x72u8,
            0x65u8,
            0x61u8,
            0x6Du8,
        ],
        ObjView::Null => seq![0x6Eu8, 0x75u8, 0x6Cu8, 0x6Cu8],
        ObjView::Reference(n, g) => integer_syntax(n as int) + seq![0x20u8] + integer_syntax(
            g as int,
        ) + seq![0x20u8, 0x52u8],
    }
}

/// The written forms of array elements, separated by spaces.
pub open spec fn items_syntax(items: Seq<ObjView>) -> Seq<u8>
    decreases items, 0int, 0int,
{
    if items.len() == 0 {
        Seq::empty()
    } else if items.len() == 1 {
        object_syntax(items[0])
    } else {
        items_syntax(items.drop_last()) + seq![0x20u8] + object_syntax(items.last())
    }
}

/// The written forms of the dictionary entries from `lo` up to `hi`: each
/// is a space, the name, a space and the value.
pub open spec fn entries_range(es: Seq<(Seq<char>, ObjView)>, lo: int, hi: int) -> Seq<u8>
    decreases es, 0int, hi - lo,
{
    if lo < 0 || hi <= lo || hi > es.len() {
        Seq::empty()
    } else {
        entries_range(es, lo, hi - 1) + seq![0x20u8] + name_syntax(es[hi - 1].0) + seq![0x20u8]
            + object_syntax(es[hi - 1].1)
    }
}

fn push_real(out: &mut Vec<u8>, x: &RealNumber)
    ensures
        final(out)@ == old(out)@ + real_syntax(x@),
{
    let ghost start = out@;
    if x.negative {
        out.push(0x2Du8);
    }
    crate::content::builder::push_all(out, x.int_digits.as_slice());
    if x.frac_digits.len() > 0 {
        out.push(0x2Eu8);
        crate::content::builder::push_all(out, x.frac_digits.as_slice());
    } else if x.int_digits.len() <= 15 {
        out.push(0x2Eu8);
        out.push(0x30u8);
    }
    assert(out@ =~= start + real_syntax(x@));
}

fn push_name(out: &mut Vec<u8>, n: &PdfName)
    ensures
        final(out)@ == old(out)@ + name_syntax(n.0@),
{
    crate::objects::write_pdf_name(out, n);
    assert(old(out)@ + seq![0x2Fu8] + crate::objects::escape_name(encode_utf8(n.0@)) =~= old(out)@
        + name_syntax(n.0@));
}

fn push_bytes(out: &mut Vec<u8>, b: &[u8])
    ensures
        final(out)@ == old(out)@ + b@,
{
    crate::content::builder::push_all(out, b);
}

fn write_object(o: &Object, out: &mut Vec<u8>)
    ensures
        final(out)@ == old(out)@ + object_syntax(o@),
    decreases *o, 2int, 0int,
{
    let ghost start = out@;
    match o {
        Object::Boolean(b) => {
            if *b {
                push_bytes(out, &[0x74u8, 0x72u8, 0x75u8, 0x65u8]);
            } else {
                push_bytes(out, &[0x66u8, 0x61u8, 0x6Cu8, 0x73u8, 0x65u8]);
            }
        },
        Object::Integer(n) => {
            crate::content::builder::push_signed_decimal_units(out, *n);
        },
        Object::Real(x) => {
            push_real(out, x);
        },
        Object::String(st) => {
            crate::objects::write_pdf_string(out, st);
        },
        Object::Name(n) => {
            push_name(out, n);
        },
        Object::Array(items) => {
            out.push(0x5Bu8);
            write_items(items, out);
            out.push(0x5Du8);
            assert(out@ =~= start + object_syntax(o@));
        },
        Object::Dictionary(d) => {
            write_dict(d, out);
            assert(out@ =~= start + object_syntax(o@));
        },
        Object::Stream(st) => {
            write_stream_dict(&st.dict, st.data.len() as i64, out);
            push_bytes(out, &[0x0Au8, 0x73u8, 0x74u8, 0x72u8, 0x65u8, 0x61u8, 0x6Du8, 0x0Du8, 0x0Au8]);
            push_bytes(out, st.data.as_slice());
            push_bytes(
                out,
                &[0x0Du8, 0x0Au8, 0x65u8, 0x6Eu8, 0x64u8, 0x73u8, 0x74u8, 0x72u8, 0x65u8, 0x61u8, 0x6Du8],
            );
            assert(out@ =~= start + object_syntax(o@));
        },
        Object::Null => {
            push_bytes(out, &[0x6Eu8, 0x75u8, 0x6Cu8, 0x6Cu8]);
        },
        Object::Reference(x) => {
            crate::content::builder::push_signed_decimal_units(out, x.object_number as i64);
            out.push(0x20u8);
            crate::content::builder::push_signed_decimal_units(out, x.generation as i64);
            out.push(0x20u8);
            out.push(0x52u8);
            assert(out@ =~= start + object_syntax(o@));
        },
    }
}

fn write_items(items: &Vec<Object>, out: &mut Vec<u8>)
    ensures
        final(out)@ == old(out)@ + items_syntax(objects_view(items@)),
    decreases items@, 1int, 0int,
{
    let ghost start = out@;
    let ghost iv = objects_view(items@);
    proof {
        lemma_objects_view(items@);
    }
    let mut i: usize = 0;
    while i < items.len()
        invariant
            i <= items.len(),
            iv == objects_view(items@),
            iv.len() == items@.len(),
            forall|j: int| 0 <= j < items@.len() ==> #[trigger] iv[j] == object_view(items@[j]),
            out@ == start + items_syntax(iv.take(i as int)),
        decreases items.len() - i,
    {
        let ghost before = out@;
        if i > 0 {
            out.push(0x20u8);
        }
        write_object(&items[i], out);
        proof {
            let t = iv.take(i + 1);
            assert(t.drop_last() =~= iv.take(i as int));
            assert(t.last() == iv[i as int]);
            if i == 0 {
                assert(t.len() == 1);
                assert(out@ =~= start + items_syntax(t));
            } else {
                assert(out@ =~= start + items_syntax(t));
            }
        }
        i = i + 1;
    }
    assert(iv.take(items.len() as int) =~= iv);
}

/// Appends the entries from `lo` up to `hi`.
fn write_entries(d: &Dictionary, lo: usize, hi: usize, out: &mut Vec<u8>)
    requires
        lo <= hi <= d@.len(),
    ensures
        final(out)@ == old(out)@ + entries_range(d@, lo as int, hi as int),
    decreases *d, 0int, 0int,
{
    let ghost start = out@;
    let ghost ev = entries_view(d.entries@);
    proof {
        lemma_entries_view(d.entries@);
    }
    let mut i: usize = lo;
    while i < hi
        invariant
            lo <= i <= hi,
            hi <= d.entries@.len(),
            ev == entries_view(d.entries@),
            ev == d@,
            ev.len() == d.entries@.len(),
            forall|j: int|
                0 <= j < d.entries@.len() ==> #[trigger] ev[j] == (
                    d.entries@[j].0.0@,
                    object_view(d.entries@[j].1),
                ),
            out@ == start + entries_range(ev, lo as int, i as int),
        decreases hi - i,
    {
        out.push(0x20u8);
        push_name(out, &d.entries[i].0);
        out.push(0x20u8);
        write_object(&d.entries[i].1, out);
        proof {
            assert(ev[i as int] == (d.entries@[i as int].0.0@, object_view(d.entries@[i as int].1)));
            assert(out@ =~= start + entries_range(ev, lo as int, i + 1));
        }
        i = i + 1;
    }
}

fn write_dict(d: &Dictionary, out: &mut Vec<u8>)
    ensures
        final(out)@ == old(out)@ + seq![0x3Cu8, 0x3Cu8] + entries_range(d@, 0, d@.len() as int) + seq![
            0x20u8,
            0x3Eu8,
            0x3Eu8,
        ],
    decreases *d, 1int, 0int,
{
    let ghost start = out@;
    out.push(0x3Cu8);
    out.push(0x3Cu8);
    let n = d.len();
    write_entries(d, 0, n, out);
    out.push(0x20u8);
    out.push(0x3Eu8);
    out.push(0x3Eu8);
    assert(out@ =~= start + seq![0x3Cu8, 0x3Cu8] + entries_range(d@, 0, d@.len() as int) + seq![
        0x20u8,
        0x3Eu8,
        0x3Eu8,
    ]);
}

/// Appends a stream dictionary with `/Length` set to `len`.
#[verifier::spinoff_prover]
#[verifier::rlimit(40)]
fn write_stream_dict(d: &Dictionary, len: i64, out: &mut Vec<u8>)
    ensures
        final(out)@ == old(out)@ + seq![0x3Cu8, 0x3Cu8] + entries_range(
            d@,
            0,
            below_count(d@, "Length"@) as int,
        ) + length_entry_syntax(len as int) + entries_range(d@, after_length(d@), d@.len() as int)
            + seq![0x20u8, 0x3Eu8, 0x3Eu8],
    decreases *d, 1int, 0int,
{
    let ghost start = out@;
    let ghost ev = entries_view(d.entries@);
    proof {
        lemma_entries_view(d.entries@);
        lemma_below_count(ev, "Length"@);
    }
    let key = PdfName::new("Length");
    let p = below_position(d.entries.as_slice(), key.0.as_str().as_bytes(), Ghost(key.0@));
    let found = p < d.entries.len() && crate::unicode::str_eq(d.entries[p].0.0.as_str(), key.0.as_str());
    let q = if found {
        p + 1
    } else {
        p
    };
    assert(q == after_length(ev));
    out.push(0x3Cu8);
    out.push(0x3Cu8);
    write_entries(d, 0, p, out);
    out.push(0x20u8);
    push_name(out, &key);
    out.push(0x20u8);
    crate::content::builder::push_signed_decimal_units(out, len);
    let n = d.entries.len();
    write_entries(d, q, n, out);
    out.push(0x20u8);
    out.push(0x3Eu8);
    out.push(0x3Eu8);
    assert(out@ =~= start + seq![0x3Cu8, 0x3Cu8] + entries_range(
        d@,
        0,
        below_count(d@, "Length"@) as int,
    ) + length_entry_syntax(len as int) + entries_range(d@, after_length(d@), d@.len() as int)
        + seq![0x20u8, 0x3Eu8, 0x3Eu8]);
}

impl Object {
    /// Appends the object in PDF file syntax: names escaped as `#xx`,
    /// strings as `(..)` or `<..>`, arrays as `[a b]`, dictionaries as
    /// `<< /K v >>` in key order, a stream as its dictionary with `/Length`
    /// set to the data length, then `stream`, the data and `endstream`.
    pub fn write_pdf(&self, out: &mut Vec<u8>)
        ensures
            final(out)@ == old(out)@ + object_syntax(self@),
    {
        write_object(self, out);
    }
}


// ---------------------------------------------------------------------------
// Display form
// ---------------------------------------------------------------------------

/// The display form of an object, for people: like the written form but
/// with names unescaped, strings as text where they can be, dictionaries
/// as `<< /K v >>` and streams by their dictionary and data length.
pub open spec fn object_display(o: ObjView) -> Seq<char>
    decreases o, 1int,
{
    match o {
        ObjView::Boolean(b) => if b {
            seq!['t', 'r', 'u', 'e']
        } else {
            seq!['f', 'a', 'l', 's', 'e']
        },
        ObjView::Integer(n) => crate::unicode::signed_decimal(n as int),
        ObjView::Real(r) => real_display(r),
        ObjView::String(bytes, format) => crate::objects::pdf_string_display(bytes, format),
        ObjView::Name(k) => seq!['/'] + k,
        ObjView::Array(items) => seq!['['] + items_display(items) + seq![']'],
        ObjView::Dictionary(es) => seq!['<', '<', ' '] + entries_display(es) + seq!['>', '>'],
        ObjView::Stream(es, data) => seq!['<', '<', ' '] + entries_display(es) + seq![
            '>',
            '>',
            ' ',
            's',
            't',
            'r',
            'e',
            'a',
            'm',
            '[',
        ] + crate::unicode::decimal(data.len()) + seq![' ', 'b', 'y', 't', 'e', 's', ']'],
        ObjView::Null => seq!['n', 'u', 'l', 'l'],
        ObjView::Reference(n, g) => crate::unicode::decimal(n as nat) + seq![' '] + crate::unicode::decimal(
            g as nat,
        ) + seq![' ', 'R'],
    }
}

/// The display forms of array elements, separated by spaces.
pub open spec fn items_display(items: Seq<ObjView>) -> Seq<char>
    decreases items, 0int,
{
    if items.len() == 0 {
        Seq::empty()
    } else if items.len() == 1 {
        object_display(items[0])
    } else {
        items_display(items.drop_last()) + seq![' '] + object_display(items.last())
    }
}

/// The display forms of dictionary entries: each is `/`, the name, a
/// space, the value and a space.
pub open spec fn entries_display(es: Seq<(Seq<char>, ObjView)>) -> Seq<char>
    decreases es, 0int,
{
    if es.len() == 0 {
        Seq::empty()
    } else {
        entries_display(es.drop_last()) + seq!['/'] + es.last().0 + seq![' '] + object_display(
            es.last().1,
        ) + seq![' ']
    }
}

fn push_chars(out: &mut Vec<char>, cs: &[char])
    ensures
        final(out)@ == old(out)@ + cs@,
{
    let ghost start = out@;
    let mut i: usize = 0;
    while i < cs.len()
        invariant
            i <= cs.len(),
            out@ == start + cs@.take(i as int),
        decreases cs.len() - i,
    {
        out.push(cs[i]);
        i = i + 1;
        assert(out@ =~= start + cs@.take(i as int));
    }
    assert(cs@.take(cs.len() as int) =~= cs@);
}

fn push_byte_chars(out: &mut Vec<char>, bs: &[u8])
    ensures
        final(out)@ == old(out)@ + crate::content::builder::byte_chars(bs@),
{
    let ghost start = out@;
    let mut i: usize = 0;
    while i < bs.len()
        invariant
            i <= bs.len(),
            out@ == start + crate::content::builder::byte_chars(bs@.take(i as int)),
        decreases bs.len() - i,
    {
        out.push(bs[i] as char);
        i = i + 1;
        assert(out@ =~= start + crate::content::builder::byte_chars(bs@.take(i as int)));
    }
    assert(bs@.take(bs.len() as int) =~= bs@);
}

fn display_real(out: &mut Vec<char>, x: &RealNumber)
    ensures
        final(out)@ == old(out)@ + real_display(x@),
{
    let mut bytes: Vec<u8> = Vec::new();
    if x.negative {
        bytes.push(0x2Du8);
    }
    crate::content::builder::push_all(&mut bytes, x.int_digits.as_slice());
    bytes.push(0x2Eu8);
    if x.frac_digits.len() > 0 {
        crate::content::builder::push_all(&mut bytes, x.frac_digits.as_slice());
    } else {
        bytes.push(0x30u8);
    }
    assert(bytes@ =~= (if x@.0 {
        seq![0x2Du8]
    } else {
        Seq::<u8>::empty()
    }) + x@.1 + (if x@.2.len() > 0 {
        seq![0x2Eu8] + x@.2
    } else {
        seq![0x2Eu8, 0x30u8]
    }));
    push_byte_chars(out, bytes.as_slice());
}

fn display_object(o: &Object, out: &mut Vec<char>)
    ensures
        final(out)@ == old(out)@ + object_display(o@),
    decreases *o, 2int,
{
    let ghost start = out@;
    match o {
        Object::Boolean(b) => {
            if *b {
                push_chars(out, &['t', 'r', 'u', 'e']);
            } else {
                push_chars(out, &['f', 'a', 'l', 's', 'e']);
            }
        },
        Object::Integer(n) => {
            crate::unicode::push_signed_decimal(out, *n);
        },
        Object::Real(x) => {
            display_real(out, x);
        },
        Object::String(st) => {
            let t = st.to_display_string();
            let cs = crate::unicode::str_chars(t.as_str());
            push_chars(out, cs.as_slice());
        },
        Object::Name(n) => {
            out.push('/');
            let cs = crate::unicode::str_chars(n.0.as_str());
            push_chars(out, cs.as_slice());
            assert(out@ =~= start + object_display(o@));
        },
        Object::Array(items) => {
            out.push('[');
            display_items(items, out);
            out.push(']');
            assert(out@ =~= start + object_display(o@));
        },
        Object::Dictionary(d) => {
            push_chars(out, &['<', '<', ' ']);
            display_entries(d, out);
            push_chars(out, &['>', '>']);
            assert(out@ =~= start + object_display(o@));
        },
        Object::Stream(st) => {
            push_chars(out, &['<', '<', ' ']);
            display_entries(&st.dict, out);
            push_chars(out, &['>', '>', ' ', 's', 't', 'r', 'e', 'a', 'm', '[']);
            crate::unicode::push_decimal(out, st.data.len() as u64);
            push_chars(out, &[' ', 'b', 'y', 't', 'e', 's', ']']);
            assert(out@ =~= start + object_display(o@));
        },
        Object::Null => {
            push_chars(out, &['n', 'u', 'l', 'l']);
        },
        Object::Reference(x) => {
            crate::unicode::push_decimal(out, x.object_number as u64);
            out.push(' ');
            crate::unicode::push_decimal(out, x.generation as u64);
            out.push(' ');
            out.push('R');
            assert(out@ =~= start + object_display(o@));
        },
    }
}

fn display_items(items: &Vec<Object>, out: &mut Vec<char>)
    ensures
        final(out)@ == old(out)@ + items_display(objects_view(items@)),
    decreases items@, 1int,
{
    let ghost start = out@;
    let ghost iv = objects_view(items@);
    proof {
        lemma_objects_view(items@);
    }
    let mut i: usize = 0;
    while i < items.len()
        invariant
            i <= items.len(),
            iv == objects_view(items@),
            iv.len() == items@.len(),
            forall|j: int| 0 <= j < items@.len() ==> #[trigger] iv[j] == object_view(items@[j]),
            out@ == start + items_display(iv.take(i as int)),
        decreases items.len() - i,
    {
        if i > 0 {
            out.push(' ');
        }
        display_object(&items[i], out);
        proof {
            let t = iv.take(i + 1);
            assert(t.drop_last() =~= iv.take(i as int));
            assert(t.last() == iv[i as int]);
            assert(out@ =~= start + items_display(t));
        }
        i = i + 1;
    }
    assert(iv.take(items.len() as int) =~= iv);
}

fn display_entries(d: &Dictionary, out: &mut Vec<char>)
    ensures
        final(out)@ == old(out)@ + entries_display(d@),
    decreases *d, 1int,
{
    let ghost start = out@;
    let ghost ev = entries_view(d.entries@);
    proof {
        lemma_entries_view(d.entries@);
    }
    let mut i: usize = 0;
    while i < d.entries.len()
        invariant
            i <= d.entries@.len(),
            ev == entries_view(d.entries@),
            ev == d@,
            ev.len() == d.entries@.len(),
            forall|j: int|
                0 <= j < d.entries@.len() ==> #[trigger] ev[j] == (
                    d.entries@[j].0.0@,
                    object_view(d.entries@[j].1),
                ),
            out@ == start + entries_display(ev.take(i as int)),
        decreases d.entries.len() - i,
    {
        out.push('/');
        let cs = crate::unicode::str_chars(d.entries[i].0.0.as_str());
        push_chars(out, cs.as_slice());
        out.push(' ');
        display_object(&d.entries[i].1, out);
        out.push(' ');
        proof {
            let t = ev.take(i + 1);
            assert(t.drop_last() =~= ev.take(i as int));
            assert(t.last() == ev[i as int]);
            assert(out@ =~= start + entries_display(t));
        }
        i = i + 1;
    }
    assert(ev.take(d.entries.len() as int) =~= ev);
}

impl Object {
    /// The display form of the object, for people.
    pub fn to_display_string(&self) -> (r: String)
        ensures
            r@ == object_display(self@),
    {
        let mut out: Vec<char> = Vec::new();
        display_object(self, &mut out);
        assert(out@ =~= object_display(self@));
        crate::unicode::string_from_chars(out.as_slice())
    }
}


// ---------------------------------------------------------------------------
// Dictionary access by key
// ---------------------------------------------------------------------------

/// The integer value of an entry, if it is an Integer.
pub open spec fn int_value(o: Option<ObjView>) -> Option<i64> {
    match o {
        Some(ObjView::Integer(n)) => Some(n),
        _ => None,
    }
}

/// Typed access to dictionary entries by key.
pub trait DictExt {
    /// The value for a key.
    fn get_str(&self, key: &str) -> Option<&Object>;

    /// The name value for a key, if the value is a Name.
    fn get_name(&self, key: &str) -> Option<&str>;

    /// The integer value for a key, if the value is an Integer.
    fn get_i64(&self, key: &str) -> Option<i64>;

    /// The text of a String value for a key.
    fn get_text(&self, key: &str) -> Option<String>;
}

impl DictExt for Dictionary {
    fn get_str(&self, key: &str) -> (r: Option<&Object>)
        ensures
            match r {
                Some(o) => lookup(self@, key@) == Some(o@),
                None => lookup(self@, key@) is None,
            },
    {
        self.get(key)
    }

    fn get_name(&self, key: &str) -> (r: Option<&str>)
        ensures
            match lookup(self@, key@) {
                Some(ObjView::Name(n)) => r matches Some(x) && x@ == n,
                _ => r is None,
            },
    {
        match self.get(key) {
            Some(o) => o.as_name(),
            None => None,
        }
    }

    fn get_i64(&self, key: &str) -> (r: Option<i64>)
        ensures
            r == int_value(lookup(self@, key@)),
    {
        match self.get(key) {
            Some(o) => o.as_i64(),
            None => None,
        }
    }

    fn get_text(&self, key: &str) -> (r: Option<String>)
        ensures
            match lookup(self@, key@) {
                Some(ObjView::String(bytes, _)) => match text_string_value(bytes) {
                    Some(t) => r matches Some(x) && x@ == t,
                    None => r is None,
                },
                _ => r is None,
            },
    {
        match self.get(key) {
            Some(o) => o.as_text_string(),
            None => None,
        }
    }
}

// ---------------------------------------------------------------------------
// Streams
// ---------------------------------------------------------------------------

/// Whether a filter item models an array element: a name by its text,
/// anything else by its type name.
pub open spec fn filter_item_models(it: crate::filters::FilterItem, o: ObjView) -> bool {
    match it {
        crate::filters::FilterItem::Name(s) => o matches ObjView::Name(n) && s@ == n,
        crate::filters::FilterItem::Other(t) => !(o is Name) && t@ == kind_name_of(o),
    }
}

/// Whether a `/Filter` model describes the dictionary's `/Filter` entry.
pub open spec fn filter_models(f: Option<crate::filters::FilterValue>, o: Option<ObjView>) -> bool {
    match f {
        None => o is None,
        Some(crate::filters::FilterValue::Name(s)) => o matches Some(ObjView::Name(n)) && s@ == n,
        Some(crate::filters::FilterValue::Array(items)) => o matches Some(ObjView::Array(os))
            && items@.len() == os.len() && forall|j: int|
            0 <= j < os.len() ==> filter_item_models(#[trigger] items@[j], os[j]),
        Some(crate::filters::FilterValue::Other(t)) => o matches Some(x) && !(x is Name) && !(x is Array)
            && t@ == kind_name_of(x),
    }
}

/// The predictor parameters read from a parameter dictionary.
pub open spec fn params_of(es: Seq<(Seq<char>, ObjView)>) -> crate::predictors::PredictorParams {
    crate::predictors::PredictorParams {
        predictor: int_value(lookup(es, "Predictor"@)),
        columns: int_value(lookup(es, "Columns"@)),
        colors: int_value(lookup(es, "Colors"@)),
        bits_per_component: int_value(lookup(es, "BitsPerComponent"@)),
    }
}

/// The parameters of an element of a parameter array: those of a
/// dictionary, none for anything else.
pub open spec fn element_params(o: ObjView) -> Option<crate::predictors::PredictorParams> {
    match o {
        ObjView::Dictionary(es) => Some(params_of(es)),
        _ => None,
    }
}

/// Whether a parameter model describes a `/DecodeParms` (or `/DP`) entry.
pub open spec fn parms_models(p: Option<crate::filters::ParmsValue>, o: Option<ObjView>) -> bool {
    match p {
        None => o is None,
        Some(crate::filters::ParmsValue::Dict(pp)) => o matches Some(ObjView::Dictionary(es)) && pp
            == params_of(es),
        Some(crate::filters::ParmsValue::Array(v)) => o matches Some(ObjView::Array(os)) && v@.len()
            == os.len() && forall|j: int| 0 <= j < os.len() ==> #[trigger] v@[j] == element_params(os[j]),
        Some(crate::filters::ParmsValue::Other) => o matches Some(x) && !(x is Dictionary) && !(
        x is Array),
    }
}

/// Whether a stream-decoding model describes a stream dictionary: its
/// `/Filter`, `/DecodeParms` and `/DP` entries.
pub open spec fn models_stream_dict(m: crate::filters::StreamDict, es: Seq<(Seq<char>, ObjView)>) -> bool {
    &&& filter_models(m.filter, lookup(es, "Filter"@))
    &&& parms_models(m.decode_parms, lookup(es, "DecodeParms"@))
    &&& parms_models(m.dp, lookup(es, "DP"@))
}

fn filter_model(o: Option<&Object>) -> (r: Option<crate::filters::FilterValue>)
    ensures
        filter_models(r, match o {
            Some(x) => Some(x@),
            None => None,
        }),
{
    match o {
        None => None,
        Some(Object::Name(n)) => Some(crate::filters::FilterValue::Name(n.0.clone())),
        Some(Object::Array(items)) => {
            let ghost ov = objects_view(items@);
            proof {
                lemma_objects_view(items@);
            }
            let mut v: Vec<crate::filters::FilterItem> = Vec::new();
            let mut i: usize = 0;
            while i < items.len()
                invariant
                    i <= items.len(),
                    v@.len() == i,
                    ov == objects_view(items@),
                    ov.len() == items@.len(),
                    forall|j: int| 0 <= j < items@.len() ==> #[trigger] ov[j] == object_view(items@[j]),
                    forall|j: int| 0 <= j < i ==> filter_item_models(#[trigger] v@[j], ov[j]),
                decreases items.len() - i,
            {
                let it = match &items[i] {
                    Object::Name(n) => crate::filters::FilterItem::Name(n.0.clone()),
                    other => crate::filters::FilterItem::Other(other.kind_name().to_owned()),
                };
                assert(ov[i as int] == object_view(items@[i as int]));
                v.push(it);
                i = i + 1;
            }
            Some(crate::filters::FilterValue::Array(v))
        },
        Some(other) => Some(crate::filters::FilterValue::Other(other.kind_name().to_owned())),
    }
}

fn params_from(d: &Dictionary) -> (r: crate::predictors::PredictorParams)
    ensures
        r == params_of(d@),
{
    crate::predictors::PredictorParams {
        predictor: d.get_i64("Predictor"),
        columns: d.get_i64("Columns"),
        colors: d.get_i64("Colors"),
        bits_per_component: d.get_i64("BitsPerComponent"),
    }
}

fn parms_model(o: Option<&Object>) -> (r: Option<crate::filters::ParmsValue>)
    ensures
        parms_models(r, match o {
            Some(x) => Some(x@),
            None => None,
        }),
{
    match o {
        None => None,
        Some(Object::Dictionary(d)) => Some(crate::filters::ParmsValue::Dict(params_from(d))),
        Some(Object::Array(items)) => {
            let ghost ov = objects_view(items@);
            proof {
                lemma_objects_view(items@);
            }
            let mut v: Vec<Option<crate::predictors::PredictorParams>> = Vec::new();
            let mut i: usize = 0;
            while i < items.len()
                invariant
                    i <= items.len(),
                    v@.len() == i,
                    ov == objects_view(items@),
                    ov.len() == items@.len(),
                    forall|j: int| 0 <= j < items@.len() ==> #[trigger] ov[j] == object_view(items@[j]),
                    forall|j: int| 0 <= j < i ==> #[trigger] v@[j] == element_params(ov[j]),
                decreases items.len() - i,
            {
                let p = match &items[i] {
                    Object::Dictionary(d) => Some(params_from(d)),
                    _ => None,
                };
                assert(ov[i as int] == object_view(items@[i as int]));
                v.push(p);
                i = i + 1;
            }
            Some(crate::filters::ParmsValue::Array(v))
        },
        Some(_) => Some(crate::filters::ParmsValue::Other),
    }
}

impl PdfStream {
    /// Creates a stream from its dictionary and data.
    pub fn new(dict: Dictionary, data: Vec<u8>) -> (r: PdfStream)
        ensures
            r.dict@ == dict@,
            r.data@ == data@,
    {
        PdfStream { dict, data }
    }

    /// The `/Filter` entry, if present.
    pub fn filter(&self) -> (r: Option<&Object>)
        ensures
            match r {
                Some(o) => lookup(self.dict@, "Filter"@) == Some(o@),
                None => lookup(self.dict@, "Filter"@) is None,
            },
    {
        self.dict.get("Filter")
    }

    /// The length of the raw data.
    pub fn data_len(&self) -> (r: usize)
        ensures
            r == self.data@.len(),
    {
        self.data.len()
    }

    /// What stream decoding reads from the dictionary: the `/Filter`,
    /// `/DecodeParms` and `/DP` entries.
    pub fn decode_model(&self) -> (r: crate::filters::StreamDict)
        ensures
            models_stream_dict(r, self.dict@),
    {
        crate::filters::StreamDict {
            filter: filter_model(self.dict.get("Filter")),
            decode_parms: parms_model(self.dict.get("DecodeParms")),
            dp: parms_model(self.dict.get("DP")),
        }
    }

    /// Decodes the data through the filters named in the dictionary, each
    /// followed by the predictor of its parameters; the raw data when
    /// there is no `/Filter`.
    pub fn decode_data(&self) -> (r: crate::error::PdfResult<Vec<u8>>)
        ensures
            exists|m: crate::filters::StreamDict|
                #[trigger] models_stream_dict(m, self.dict@) && crate::filters::stream_result(m, self.data@, r),
    {
        let m = self.decode_model();
        let r = crate::filters::decode_stream(self.data.as_slice(), &m);
        assert(models_stream_dict(m, self.dict@) && crate::filters::stream_result(m, self.data@, r));
        r
    }
}

// ---------------------------------------------------------------------------
// Conversions
// ---------------------------------------------------------------------------

impl vstd::std_specs::convert::FromSpecImpl<bool> for Object {
    open spec fn obeys_from_spec() -> bool {
        true
    }

    open spec fn from_spec(v: bool) -> Object {
        Object::Boolean(v)
    }
}

impl From<bool> for Object {
    fn from(v: bool) -> (r: Object) {
        Object::Boolean(v)
    }
}

impl vstd::std_specs::convert::FromSpecImpl<i64> for Object {
    open spec fn obeys_from_spec() -> bool {
        true
    }

    open spec fn from_spec(v: i64) -> Object {
        Object::Integer(v)
    }
}

impl From<i64> for Object {
    fn from(v: i64) -> (r: Object) {
        Object::Integer(v)
    }
}

impl vstd::std_specs::convert::FromSpecImpl<i32> for Object {
    open spec fn obeys_from_spec() -> bool {
        true
    }

    open spec fn from_spec(v: i32) -> Object {
        Object::Integer(v as i64)
    }
}

impl From<i32> for Object {
    fn from(v: i32) -> (r: Object) {
        Object::Integer(v as i64)
    }
}

impl vstd::std_specs::convert::FromSpecImpl<RealNumber> for Object {
    open spec fn obeys_from_spec() -> bool {
        true
    }

    open spec fn from_spec(v: RealNumber) -> Object {
        Object::Real(v)
    }
}

impl From<RealNumber> for Object {
    fn from(v: RealNumber) -> (r: Object) {
        Object::Real(v)
    }
}

impl vstd::std_specs::convert::FromSpecImpl<PdfName> for Object {
    open spec fn obeys_from_spec() -> bool {
        true
    }

    open spec fn from_spec(v: PdfName) -> Object {
        Object::Name(v)
    }
}

impl From<PdfName> for Object {
    fn from(v: PdfName) -> (r: Object) {
        Object::Name(v)
    }
}

impl vstd::std_specs::convert::FromSpecImpl<PdfString> for Object {
    open spec fn obeys_from_spec() -> bool {
        true
    }

    open spec fn from_spec(v: PdfString) -> Object {
        Object::String(v)
    }
}

impl From<PdfString> for Object {
    fn from(v: PdfString) -> (r: Object) {
        Object::String(v)
    }
}

impl vstd::std_specs::convert::FromSpecImpl<Vec<Object>> for Object {
    open spec fn obeys_from_spec() -> bool {
        true
    }

    open spec fn from_spec(v: Vec<Object>) -> Object {
        Object::Array(v)
    }
}

impl From<Vec<Object>> for Object {
    fn from(v: Vec<Object>) -> (r: Object) {
        Object::Array(v)
    }
}

impl vstd::std_specs::convert::FromSpecImpl<Dictionary> for Object {
    open spec fn obeys_from_spec() -> bool {
        true
    }

    open spec fn from_spec(v: Dictionary) -> Object {
        Object::Dictionary(v)
    }
}

impl From<Dictionary> for Object {
    fn from(v: Dictionary) -> (r: Object) {
        Object::Dictionary(v)
    }
}

impl vstd::std_specs::convert::FromSpecImpl<PdfStream> for Object {
    open spec fn obeys_from_spec() -> bool {
        true
    }

    open spec fn from_spec(v: PdfStream) -> Object {
        Object::Stream(v)
    }
}

impl From<PdfStream> for Object {
    fn from(v: PdfStream) -> (r: Object) {
        Object::Stream(v)
    }
}

impl vstd::std_specs::convert::FromSpecImpl<IndirectRef> for Object {
    open spec fn obeys_from_spec() -> bool {
        true
    }

    open spec fn from_spec(v: IndirectRef) -> Object {
        Object::Reference(v)
    }
}

impl From<IndirectRef> for Object {
    fn from(v: IndirectRef) -> (r: Object) {
        Object::Reference(v)
    }
}

} // verus!
