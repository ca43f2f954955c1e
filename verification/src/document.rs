//! A PDF document as an in-memory object store, and locating the file
//! header of a PDF file.
use vstd::prelude::*;
use crate::error::{append_str, message_text, PdfError, PdfResult};
use crate::unicode::{decimal, push_decimal, push_signed_decimal, signed_decimal, string_from_chars};
use crate::objects::{DictExt, Dictionary, IndirectRef, Object, ObjectId, PdfName};
use crate::objects::object::{
    copy_object, copy_objects, insert_sorted, kind_name_of, lemma_objects_view, lookup, objects_view, ObjView,
};
use crate::objects::PdfStream;
use crate::objects::object::object_syntax;
use crate::objects::object::{id_place, renumbered_items, renumbered_view};
use crate::content::builder::ascii_bytes;
use vstd::utf8::encode_utf8;

verus! {

/// The bytes of the header marker `%PDF-`.
pub open spec fn header_marker() -> Seq<u8> {
    seq![0x25u8, 0x50, 0x44, 0x46, 0x2D]
}

/// Whether the header marker begins at `p` within the first `limit`
/// bytes.
pub open spec fn header_at(d: Seq<u8>, p: int, limit: int) -> bool {
    0 <= p && p + 5 <= limit && d.subrange(p, p + 5) == header_marker()
}

/// How far the header is searched for: the first 1024 bytes.
pub open spec fn search_limit(d: Seq<u8>) -> int {
    if d.len() < 1024 {
        d.len() as int
    } else {
        1024
    }
}

/// Finds the offset of the `%PDF-` header in the first 1024 bytes: the
/// first place it begins, whatever comes before it (white space, a byte
/// order mark).
pub fn find_header_offset(data: &[u8]) -> (r: PdfResult<usize>)
    ensures
        match r {
            Ok(p) => header_at(data@, p as int, search_limit(data@)) && forall|q: int|
                0 <= q < p ==> !#[trigger] header_at(data@, q, search_limit(data@)),
            Err(e) => (forall|q: int| !#[trigger] header_at(data@, q, search_limit(data@))) && (e matches PdfError::SyntaxError { position, message } && position == 0
                && message@ == "%PDF- header not found in first 1024 bytes"@),
        },
{
    let limit: usize = if data.len() < 1024 { data.len() } else { 1024 };
    let ghost lim = search_limit(data@);
    let mut p: usize = 0;
    while p + 5 <= limit
        invariant
            limit == lim,
            lim == search_limit(data@),
            p <= limit,
            limit <= data@.len(),
            lim <= 1024,
            forall|q: int| 0 <= q < p ==> !#[trigger] header_at(data@, q, lim),
        decreases limit - p,
    {
        if data[p] == 0x25 && data[p + 1] == 0x50 && data[p + 2] == 0x44 && data[p + 3] == 0x46 && data[p + 4] == 0x2D {
            assert(data@.subrange(p as int, p + 5) =~= header_marker());
            return Ok(p);
        }
        proof {
            if header_at(data@, p as int, lim) {
                assert(data@.subrange(p as int, p + 5)[0] == data@[p as int]);
                assert(data@.subrange(p as int, p + 5)[1] == data@[p + 1]);
                assert(data@.subrange(p as int, p + 5)[2] == data@[p + 2]);
                assert(data@.subrange(p as int, p + 5)[3] == data@[p + 3]);
                assert(data@.subrange(p as int, p + 5)[4] == data@[p + 4]);
            }
        }
        p = p + 1;
    }
    let mut msg: Vec<char> = Vec::new();
    append_str(&mut msg, "%PDF- header not found in first 1024 bytes");
    Err(PdfError::SyntaxError { position: 0, message: string_from_chars(msg.as_slice()) })
}


// ---------------------------------------------------------------------------
// The document
// ---------------------------------------------------------------------------

/// A PDF version number.
#[derive(Debug, Clone, Copy, PartialEq, Eq, Structural)]
pub struct PdfVersion {
    /// The major version.
    pub major: u8,
    /// The minor version.
    pub minor: u8,
}

impl PdfVersion {
    /// A version number.
    pub fn new(major: u8, minor: u8) -> (r: PdfVersion)
        ensures
            r.major == major,
            r.minor == minor,
    {
        PdfVersion { major, minor }
    }
}

/// A PDF document: its version, its trailer dictionary and its indirect
/// objects, each under an object id (number and generation) of its own.
pub struct Document {
    /// The PDF version from the file header.
    pub version: PdfVersion,
    /// The trailer dictionary.
    pub trailer: Dictionary,
    objects: Vec<(u32, u16, Object)>,
}

/// The indirect objects of a document as plain values, in the order they
/// are stored.
pub type ObjectsView = Seq<(ObjectId, ObjView)>;

/// The plain values of stored objects.
pub open spec fn entry_views(s: Seq<(u32, u16, Object)>) -> ObjectsView {
    s.map_values(|e: (u32, u16, Object)| ((e.0, e.1), e.2@))
}

/// Whether no two objects share an id.
pub open spec fn ids_unique(es: ObjectsView) -> bool {
    forall|i: int, j: int| 0 <= i < j < es.len() ==> #[trigger] es[i].0 != #[trigger] es[j].0
}

/// The largest object number (0 when there are none).
pub open spec fn max_num(es: ObjectsView) -> nat
    decreases es.len(),
{
    if es.len() == 0 {
        0
    } else {
        let m = max_num(es.drop_last());
        if es.last().0.0 > m {
            es.last().0.0 as nat
        } else {
            m
        }
    }
}

/// The number the next added object gets: one above the largest.
pub open spec fn next_num(es: ObjectsView) -> nat {
    max_num(es) + 1
}

/// The index of the object with id `id` (the last such), or -1.
pub open spec fn id_index(es: ObjectsView, id: ObjectId) -> int
    decreases es.len(),
{
    if es.len() == 0 {
        -1
    } else if es.last().0 == id {
        es.len() - 1
    } else {
        id_index(es.drop_last(), id)
    }
}

/// The object with id `id`.
pub open spec fn obj_lookup(es: ObjectsView, id: ObjectId) -> Option<ObjView> {
    let p = id_index(es, id);
    if p < 0 {
        None
    } else {
        Some(es[p].1)
    }
}

pub proof fn lemma_id_index(es: ObjectsView, id: ObjectId)
    ensures
        -1 <= id_index(es, id) < es.len(),
        id_index(es, id) >= 0 ==> es[id_index(es, id)].0 == id,
        id_index(es, id) < 0 ==> forall|j: int| 0 <= j < es.len() ==> #[trigger] es[j].0 != id,
        forall|j: int| id_index(es, id) < j < es.len() ==> #[trigger] es[j].0 != id,
    decreases es.len(),
{
    if es.len() > 0 {
        lemma_id_index(es.drop_last(), id);
        if es.last().0 != id {
            assert forall|j: int| id_index(es, id) < j < es.len() implies #[trigger] es[j].0 != id by {
                if j < es.len() - 1 {
                    assert(es[j] == es.drop_last()[j]);
                }
            }
            assert forall|j: int| 0 <= j < es.len() && id_index(es, id) < 0 implies #[trigger] es[j].0 != id by {
                if j < es.len() - 1 {
                    assert(es[j] == es.drop_last()[j]);
                }
            }
        }
    }
}

/// Two object lists with the same ids in the same places find each id at
/// the same place.
pub proof fn lemma_id_index_same_ids(a: ObjectsView, b: ObjectsView, id: ObjectId)
    requires
        a.len() == b.len(),
        forall|j: int| 0 <= j < a.len() ==> (#[trigger] a[j]).0 == b[j].0,
    ensures
        id_index(a, id) == id_index(b, id),
    decreases a.len(),
{
    if a.len() > 0 {
        assert(a.last().0 == b.last().0);
        lemma_id_index_same_ids(a.drop_last(), b.drop_last(), id);
    }
}

/// What a lookup finds after an object is added: the added object under
/// its own id, and for every other id what it found before.
pub proof fn lemma_lookup_after_add(es: ObjectsView, id: ObjectId, v: ObjView, other: ObjectId)
    ensures
        obj_lookup(es.push((id, v)), id) == Some(v),
        other != id ==> obj_lookup(es.push((id, v)), other) == obj_lookup(es, other),
{
    assert(es.push((id, v)).drop_last() =~= es);
    lemma_id_index(es, other);
    let p = id_index(es, other);
    if other != id && p >= 0 {
        assert(es.push((id, v))[p] == es[p]);
    }
}

/// Replacing the value of an object keeps the ids unique.
pub proof fn lemma_update_keeps_ids(es: ObjectsView, p: int, id: ObjectId)
    requires
        ids_unique(es),
        0 <= p < es.len(),
        es[p].0 == id,
    ensures
        forall|v: ObjView| ids_unique(#[trigger] es.update(p, (id, v))),
{
    assert forall|v: ObjView| ids_unique(#[trigger] es.update(p, (id, v))) by {
        let u = es.update(p, (id, v));
        assert forall|a: int, b: int| 0 <= a < b < u.len() implies #[trigger] u[a].0 != #[trigger] u[b].0 by {
            assert(u[a].0 == es[a].0);
            assert(u[b].0 == es[b].0);
        }
    }
}

proof fn lemma_max_num(es: ObjectsView)
    ensures
        forall|j: int| 0 <= j < es.len() ==> (#[trigger] es[j]).0.0 <= max_num(es),
        es.len() > 0 ==> exists|j: int| 0 <= j < es.len() && (#[trigger] es[j]).0.0 == max_num(es),
    decreases es.len(),
{
    if es.len() > 0 {
        lemma_max_num(es.drop_last());
        assert forall|j: int| 0 <= j < es.len() implies (#[trigger] es[j]).0.0 <= max_num(es) by {
            if j < es.len() - 1 {
                assert(es[j] == es.drop_last()[j]);
            }
        }
        if es.last().0.0 > max_num(es.drop_last()) || es.len() == 1 {
            assert(es[es.len() - 1].0.0 == max_num(es));
        } else {
            let j = choose|j: int| 0 <= j < es.drop_last().len() && (#[trigger] es.drop_last()[j]).0.0 == max_num(es.drop_last());
            assert(es[j] == es.drop_last()[j]);
        }
    }
}

/// The catalog of a new document: `<< /Type /Catalog /Pages 2 0 R >>`.
pub open spec fn new_catalog_view() -> ObjView {
    ObjView::Dictionary(
        insert_sorted(
            insert_sorted(Seq::empty(), "Type"@, ObjView::Name("Catalog"@)),
            "Pages"@,
            ObjView::Reference(2, 0),
        ),
    )
}

/// The page tree root of a new document: no kids, count 0.
pub open spec fn new_pages_view() -> ObjView {
    ObjView::Dictionary(
        insert_sorted(
            insert_sorted(
                insert_sorted(Seq::empty(), "Type"@, ObjView::Name("Pages"@)),
                "Kids"@,
                ObjView::Array(Seq::empty()),
            ),
            "Count"@,
            ObjView::Integer(0),
        ),
    )
}

/// The trailer of a new document: `/Size 3`, `/Root 1 0 R`.
pub open spec fn new_trailer_view() -> Seq<(Seq<char>, ObjView)> {
    insert_sorted(
        insert_sorted(Seq::empty(), "Size"@, ObjView::Integer(3)),
        "Root"@,
        ObjView::Reference(1, 0),
    )
}

/// A document as plain values: its version (major, minor), its trailer
/// entries and its indirect objects in stored order.
pub struct DocView {
    pub version: (u8, u8),
    pub trailer: Seq<(Seq<char>, ObjView)>,
    pub objects: ObjectsView,
}

impl View for Document {
    type V = DocView;

    closed spec fn view(&self) -> DocView {
        DocView {
            version: (self.version.major, self.version.minor),
            trailer: self.trailer@,
            objects: entry_views(self.objects@),
        }
    }
}

impl Document {
    /// Whether no two objects share an id.
    pub open spec fn wf(&self) -> bool {
        ids_unique(self@.objects)
    }

    /// A new document: version 1.7, a catalog (object 1) and an empty page
    /// tree (object 2), and a trailer whose `/Root` is the catalog.
    pub fn new() -> (r: Document)
        ensures
            r.wf(),
            r@.version == (1u8, 7u8),
            r@.trailer == new_trailer_view(),
            r@.objects == seq![((1u32, 0u16), new_catalog_view()), ((2u32, 0u16), new_pages_view())],
    {
        let mut catalog = Dictionary::new();
        catalog.insert(PdfName::new("Type"), Object::Name(PdfName::new("Catalog")));
        catalog.insert(PdfName::new("Pages"), Object::Reference(IndirectRef::new(2, 0)));
        let mut pages = Dictionary::new();
        pages.insert(PdfName::new("Type"), Object::Name(PdfName::new("Pages")));
        pages.insert(PdfName::new("Kids"), Object::Array(Vec::new()));
        pages.insert(PdfName::new("Count"), Object::Integer(0));
        let mut trailer = Dictionary::new();
        trailer.insert(PdfName::new("Size"), Object::Integer(3));
        trailer.insert(PdfName::new("Root"), Object::Reference(IndirectRef::new(1, 0)));
        let mut objects: Vec<(u32, u16, Object)> = Vec::new();
        objects.push((1, 0, Object::Dictionary(catalog)));
        objects.push((2, 0, Object::Dictionary(pages)));
        let d = Document { version: PdfVersion::new(1, 7), trailer, objects };
        proof {
            let kids = crate::objects::object::objects_view(Seq::<Object>::empty());
            assert(kids =~= Seq::<ObjView>::empty());
            assert(d@.objects =~= seq![((1u32, 0u16), new_catalog_view()), ((2u32, 0u16), new_pages_view())]);
        }
        d
    }

    /// The number of indirect objects.
    pub fn object_count(&self) -> (r: usize)
        ensures
            r == self@.objects.len(),
    {
        self.objects.len()
    }

    /// The object with the given id.
    pub fn get_object(&self, id: ObjectId) -> (r: Option<&Object>)
        ensures
            match r {
                Some(o) => obj_lookup(self@.objects, id) == Some(o@),
                None => obj_lookup(self@.objects, id) is None,
            },
    {
        let ghost ev = self@.objects;
        proof {
            lemma_id_index(ev, id);
        }
        let mut i: usize = self.objects.len();
        while i > 0
            invariant
                i <= self.objects@.len(),
                ev == self@.objects,
                ev.len() == self.objects@.len(),
                forall|j: int| i <= j < ev.len() ==> #[trigger] ev[j].0 != id,
                forall|j: int| id_index(ev, id) < j < ev.len() ==> #[trigger] ev[j].0 != id,
                -1 <= id_index(ev, id) < ev.len(),
                id_index(ev, id) >= 0 ==> ev[id_index(ev, id)].0 == id,
                id_index(ev, id) < i,
            decreases i,
        {
            let e = &self.objects[i - 1];
            assert(ev[i - 1] == ((e.0, e.1), e.2@));
            if e.0 == id.0 && e.1 == id.1 {
                assert(ev[i - 1].0 == id);
                assert(id_index(ev, id) == i - 1);
                return Some(&e.2);
            }
            i = i - 1;
        }
        None
    }

    /// The object with the given number and generation 0.
    pub fn get_object_by_number(&self, object_number: u32) -> (r: Option<&Object>)
        ensures
            match r {
                Some(o) => obj_lookup(self@.objects, (object_number, 0u16)) == Some(o@),
                None => obj_lookup(self@.objects, (object_number, 0u16)) is None,
            },
    {
        self.get_object((object_number, 0))
    }

    /// What an object stands for: the object a reference points to, any
    /// other object itself.
    pub fn resolve<'a>(&'a self, obj: &'a Object) -> (r: Option<&'a Object>)
        ensures
            match obj@ {
                ObjView::Reference(n, g) => match r {
                    Some(o) => obj_lookup(self@.objects, (n, g)) == Some(o@),
                    None => obj_lookup(self@.objects, (n, g)) is None,
                },
                _ => r matches Some(o) && o@ == obj@,
            },
    {
        match obj {
            Object::Reference(x) => self.get_object(x.id()),
            _ => Some(obj),
        }
    }

    /// The id of the catalog: the reference under `/Root` in the trailer.
    pub fn catalog_object_id(&self) -> (r: Option<ObjectId>)
        ensures
            r == catalog_id_of(self@.trailer),
    {
        match self.trailer.get("Root") {
            Some(Object::Reference(x)) => Some(x.id()),
            _ => None,
        }
    }

    /// Adds an object under the next object number (one above the
    /// largest) with generation 0, and gives its id.
    pub fn add_object(&mut self, obj: Object) -> (r: ObjectId)
        requires
            old(self).wf(),
            max_num(old(self)@.objects) < u32::MAX,
        ensures
            final(self).wf(),
            r == (next_num(old(self)@.objects) as u32, 0u16),
            final(self)@.objects == old(self)@.objects.push((r, obj@)),
            max_num(final(self)@.objects) == next_num(old(self)@.objects),
            final(self)@.version == old(self)@.version,
            final(self)@.trailer == old(self)@.trailer,
    {
        let ghost ev = self@.objects;
        proof {
            lemma_max_num(ev);
        }
        let mut m: u32 = 0;
        let mut i: usize = 0;
        while i < self.objects.len()
            invariant
                i <= self.objects@.len(),
                ev == self@.objects,
                ev.len() == self.objects@.len(),
                m <= max_num(ev),
                forall|j: int| 0 <= j < ev.len() ==> (#[trigger] ev[j]).0.0 <= max_num(ev),
                i == 0 ==> m == 0,
                forall|j: int| 0 <= j < i ==> (#[trigger] ev[j]).0.0 <= m,
                i > 0 ==> exists|j: int| 0 <= j < i && (#[trigger] ev[j]).0.0 == m,
            decreases self.objects@.len() - i,
        {
            assert(ev[i as int].0.0 == self.objects@[i as int].0);
            if self.objects[i].0 > m {
                m = self.objects[i].0;
            }
            i = i + 1;
        }
        proof {
            if ev.len() > 0 {
                let j = choose|j: int| 0 <= j < ev.len() && (#[trigger] ev[j]).0.0 == max_num(ev);
                assert(ev[j].0.0 <= m);
            }
        }
        let id: ObjectId = (m + 1, 0);
        let ghost ov = obj@;
        self.objects.push((m + 1, 0, obj));
        proof {
            assert(self@.objects =~= ev.push((id, ov)));
            assert(self@.objects.drop_last() =~= ev);
            assert forall|a: int, b: int| 0 <= a < b < self@.objects.len() implies #[trigger] self@.objects[a].0
                != #[trigger] self@.objects[b].0 by {
                if b == ev.len() {
                    assert(ev[a].0.0 <= m);
                }
            }
        }
        id
    }

    /// A mutable borrow of the object with the given id.
    pub fn get_object_mut(&mut self, id: ObjectId) -> (r: Option<&mut Object>)
        ensures
            match r {
                Some(m) => {
                    let p = id_index(old(self)@.objects, id);
                    &&& p >= 0
                    &&& old(self)@.objects[p].0 == id
                    &&& (*m)@ == old(self)@.objects[p].1
                    &&& final(self)@.objects == old(self)@.objects.update(p, (id, final(m)@))
                },
                None => id_index(old(self)@.objects, id) < 0 && final(self)@.objects
                    == old(self)@.objects,
            },
            final(self)@.version == old(self)@.version,
            final(self)@.trailer == old(self)@.trailer,
    {
        let ghost ev = self@.objects;
        proof {
            lemma_id_index(ev, id);
        }
        let mut i: usize = self.objects.len();
        let mut found = false;
        while i > 0 && !found
            invariant
                i <= self.objects@.len(),
                ev == self@.objects,
                ev.len() == self.objects@.len(),
                !found ==> forall|j: int| i <= j < ev.len() ==> #[trigger] ev[j].0 != id,
                found ==> i > 0 && ev[i - 1].0 == id && forall|j: int| i <= j < ev.len() ==> #[trigger] ev[j].0 != id,
                forall|j: int| id_index(ev, id) < j < ev.len() ==> #[trigger] ev[j].0 != id,
                -1 <= id_index(ev, id) < ev.len(),
                id_index(ev, id) >= 0 ==> ev[id_index(ev, id)].0 == id,
            decreases i, if found { 0int } else { 1int },
        {
            let e = &self.objects[i - 1];
            assert(ev[i - 1] == ((e.0, e.1), e.2@));
            if e.0 == id.0 && e.1 == id.1 {
                assert(ev[i - 1].0 == id);
                found = true;
            } else {
                i = i - 1;
            }
        }
        if !found {
            return None;
        }
        let p = i - 1;
        assert(id_index(ev, id) == p);
        let entry = &mut self.objects[p];
        Some(&mut entry.2)
    }
}

/// The catalog id named by a trailer: its `/Root` reference.
pub open spec fn catalog_id_of(trailer: Seq<(Seq<char>, ObjView)>) -> Option<ObjectId> {
    match lookup(trailer, "Root"@) {
        Some(ObjView::Reference(n, g)) => Some((n, g)),
        _ => None,
    }
}


// ---------------------------------------------------------------------------
// The page tree
// ---------------------------------------------------------------------------

/// What the trailer's `/Root` stands for, or the message of the error.
pub open spec fn root_object(d: DocView) -> Result<ObjView, Seq<char>> {
    match lookup(d.trailer, "Root"@) {
        None => Err("Invalid PDF structure: "@ + "No /Root in trailer"@),
        Some(ObjView::Reference(n, g)) => match obj_lookup(d.objects, (n, g)) {
            Some(o) => Ok(o),
            None => Err("Invalid reference: "@ + "Cannot resolve /Root reference"@),
        },
        Some(o) => Ok(o),
    }
}

/// The entries of the catalog, or the message of the error.
pub open spec fn catalog_entries(d: DocView) -> Result<Seq<(Seq<char>, ObjView)>, Seq<char>> {
    match root_object(d) {
        Err(m) => Err(m),
        Ok(ObjView::Dictionary(c)) => Ok(c),
        Ok(o) => Err("Type error: expected "@ + "Dictionary"@ + ", found "@ + kind_name_of(o)),
    }
}

/// The id of the page tree root, or the message of the error.
pub open spec fn pages_id_of(d: DocView) -> Result<ObjectId, Seq<char>> {
    match catalog_entries(d) {
        Err(m) => Err(m),
        Ok(c) => match lookup(c, "Pages"@) {
            None => Err("Invalid PDF structure: "@ + "No /Pages in catalog"@),
            Some(ObjView::Reference(n, g)) => Ok((n, g)),
            Some(_) => Err("Invalid PDF structure: "@ + "/Pages is not a reference"@),
        },
    }
}

/// What an object stands for: the object a reference points to, any
/// other object itself.
pub open spec fn resolve_view(d: DocView, o: ObjView) -> Option<ObjView> {
    match o {
        ObjView::Reference(n, g) => obj_lookup(d.objects, (n, g)),
        _ => Some(o),
    }
}

/// The `/Count` of the page tree root, or the message of the error.
pub open spec fn page_count_of(d: DocView) -> Result<i64, Seq<char>> {
    match catalog_entries(d) {
        Err(m) => Err(m),
        Ok(c) => match lookup(c, "Pages"@) {
            None => Err("Invalid PDF structure: "@ + "No /Pages in catalog"@),
            Some(pv) => match resolve_view(d, pv) {
                None => Err("Invalid reference: "@ + "Cannot resolve /Pages reference"@),
                Some(ObjView::Dictionary(pages)) => match lookup(pages, "Count"@) {
                    Some(ObjView::Integer(n)) => if n < 0 {
                        Err("Invalid PDF structure: "@ + ("Negative page count: "@ + signed_decimal(n as int)))
                    } else {
                        Ok(n)
                    },
                    _ => Err("Invalid PDF structure: "@ + "No /Count in Pages"@),
                },
                Some(o) => Err("Type error: expected "@ + "Dictionary"@ + ", found "@ + kind_name_of(o)),
            },
        },
    }
}

/// The message for a page index past the end.
pub open spec fn page_range_message(index: nat, total: nat) -> Seq<char> {
    "Invalid page: "@ + ("Page index "@ + decimal(index) + " out of range (total: "@ + decimal(total) + ")"@)
}

/// The id of the page at `index` among the kids of the page tree root, or
/// the message of the error.
pub open spec fn page_id_of(d: DocView, index: nat) -> Result<ObjectId, Seq<char>> {
    match pages_id_of(d) {
        Err(m) => Err(m),
        Ok(pid) => match obj_lookup(d.objects, pid) {
            Some(ObjView::Dictionary(pages)) => match lookup(pages, "Kids"@) {
                Some(ObjView::Array(kids)) => if index >= kids.len() {
                    Err(page_range_message(index, kids.len()))
                } else {
                    match kids[index as int] {
                        ObjView::Reference(n, g) => Ok((n, g)),
                        _ => Err("Invalid PDF structure: "@ + "Page ref is not a reference"@),
                    }
                },
                _ => Err("Invalid PDF structure: "@ + "No /Kids in /Pages"@),
            },
            _ => Err("Invalid PDF structure: "@ + "Cannot get /Pages dict"@),
        },
    }
}

/// An error of the document structure with the given message.
fn structure_error(msg: &str) -> (e: PdfError)
    ensures
        e is InvalidStructure,
        message_text(e) == "Invalid PDF structure: "@ + msg@,
{
    let mut v: Vec<char> = Vec::new();
    append_str(&mut v, msg);
    assert(Seq::<char>::empty() + msg@ =~= msg@);
    PdfError::InvalidStructure(string_from_chars(v.as_slice()))
}

// ---------------------------------------------------------------------------
// Appending content
// ---------------------------------------------------------------------------

/// `/Contents` once a stream is appended: a single reference becomes an
/// array of it and the new one, an array gets the new one at its end, and
/// anything else gives way to the new reference.
pub open spec fn contents_after(cur: Option<ObjView>, added: ObjView) -> ObjView {
    match cur {
        Some(ObjView::Reference(n, g)) => ObjView::Array(seq![ObjView::Reference(n, g), added]),
        Some(ObjView::Array(a)) => ObjView::Array(a.push(added)),
        _ => added,
    }
}

/// Each font of `fonts`, in order, added where `fd` has no entry of that
/// name yet.
pub open spec fn merge_missing(fd: Seq<(Seq<char>, ObjView)>, fonts: Seq<(Seq<char>, ObjView)>) -> Seq<(Seq<char>, ObjView)>
    decreases fonts.len(),
{
    if fonts.len() == 0 {
        fd
    } else {
        let m = merge_missing(fd, fonts.drop_last());
        if lookup(m, fonts.last().0) is None {
            insert_sorted(m, fonts.last().0, fonts.last().1)
        } else {
            m
        }
    }
}

/// A resource dictionary with fonts merged into its `/Font` dictionary
/// (made when missing; left alone when it is not a dictionary).
pub open spec fn with_fonts(res: Seq<(Seq<char>, ObjView)>, fonts: Seq<(Seq<char>, ObjView)>) -> Seq<(Seq<char>, ObjView)> {
    match lookup(res, "Font"@) {
        None => insert_sorted(res, "Font"@, ObjView::Dictionary(merge_missing(Seq::empty(), fonts))),
        Some(ObjView::Dictionary(fd)) => insert_sorted(res, "Font"@, ObjView::Dictionary(merge_missing(fd, fonts))),
        Some(_) => res,
    }
}

/// A page dictionary with fonts merged into its inline `/Resources`
/// (made when missing; left alone when it is neither missing nor a
/// dictionary).
pub open spec fn page_with_fonts(page: Seq<(Seq<char>, ObjView)>, fonts: Seq<(Seq<char>, ObjView)>) -> Seq<(Seq<char>, ObjView)> {
    match lookup(page, "Resources"@) {
        None => insert_sorted(page, "Resources"@, ObjView::Dictionary(with_fonts(Seq::empty(), fonts))),
        Some(ObjView::Dictionary(res)) => insert_sorted(page, "Resources"@, ObjView::Dictionary(with_fonts(res, fonts))),
        Some(_) => page,
    }
}

/// The objects with the dictionary at `id` replaced by `f` of it; other
/// objects, and an object that is no dictionary, stay.
pub open spec fn update_dict(es: ObjectsView, id: ObjectId, new_entries: spec_fn(Seq<(Seq<char>, ObjView)>) -> Seq<(Seq<char>, ObjView)>) -> ObjectsView {
    let p = id_index(es, id);
    if p >= 0 {
        match es[p].1 {
            ObjView::Dictionary(c) => es.update(p, (id, ObjView::Dictionary(new_entries(c)))),
            _ => es,
        }
    } else {
        es
    }
}

/// The new content stream: `/Length` and the bytes.
pub open spec fn content_stream(content: Seq<u8>) -> ObjView {
    ObjView::Stream(insert_sorted(Seq::empty(), "Length"@, ObjView::Integer(content.len() as i64)), content)
}

/// The page dictionary once the stream `sid` is appended to `/Contents`,
/// and, for fonts with inline (or no) resources, the fonts merged.
pub open spec fn page_after(page: Seq<(Seq<char>, ObjView)>, sid: nat, fonts: Option<Seq<(Seq<char>, ObjView)>>) -> Seq<(Seq<char>, ObjView)> {
    let p1 = insert_sorted(page, "Contents"@, contents_after(lookup(page, "Contents"@), ObjView::Reference(sid as u32, 0)));
    match fonts {
        Some(f) => match lookup(p1, "Resources"@) {
            Some(ObjView::Reference(_, _)) => p1,
            _ => page_with_fonts(p1, f),
        },
        None => p1,
    }
}

/// The objects after appending `content` to the page `page_id` with the
/// page as found at `p`: the stream added, the page updated, and fonts
/// merged into resources that the page refers to.
pub open spec fn appended_objects(es: ObjectsView, page_id: ObjectId, content: Seq<u8>, fonts: Option<Seq<(Seq<char>, ObjView)>>) -> ObjectsView {
    let sid = next_num(es);
    let es1 = es.push(((sid as u32, 0u16), content_stream(content)));
    let es2 = update_dict(es1, page_id, |pg: Seq<(Seq<char>, ObjView)>| page_after(pg, sid, fonts));
    let q = id_index(es2, page_id);
    match (fonts, es2[q].1) {
        (Some(f), ObjView::Dictionary(pg)) => match lookup(pg, "Resources"@) {
            Some(ObjView::Reference(n, g)) => update_dict(es2, (n, g), |r: Seq<(Seq<char>, ObjView)>| with_fonts(r, f)),
            _ => es2,
        },
        _ => es2,
    }
}

/// The entries of the fonts to merge, if any.
pub open spec fn fonts_view(fonts: Option<Dictionary>) -> Option<Seq<(Seq<char>, ObjView)>> {
    match fonts {
        Some(f) => Some(f@),
        None => None,
    }
}

/// Whether the object at `id` is a dictionary.
pub open spec fn is_dict_at(es: ObjectsView, id: ObjectId) -> bool {
    obj_lookup(es, id) matches Some(ObjView::Dictionary(_))
}

/// Adds each font of `fonts`, in order, where `fd` has no entry of its name.
fn merge_fonts(fd: &mut Dictionary, fonts: &Dictionary)
    ensures
        final(fd)@ == merge_missing(old(fd)@, fonts@),
{
    let es = fonts.entries();
    let ghost fv = fonts@;
    let ghost start = fd@;
    proof {
        crate::objects::object::lemma_entries_view(es@);
    }
    let mut j: usize = 0;
    while j < es.len()
        invariant
            j <= es@.len(),
            fv.len() == es@.len(),
            crate::objects::object::entries_view(es@) == fv,
            forall|x: int| 0 <= x < fv.len() ==> #[trigger] fv[x] == (es@[x].0.0@, es@[x].1@),
            fd@ == merge_missing(start, fv.take(j as int)),
        decreases es@.len() - j,
    {
        let e = &es[j];
        proof {
            assert(fv.take(j + 1).drop_last() =~= fv.take(j as int));
            assert(fv.take(j + 1).last() == fv[j as int]);
        }
        if !fd.contains_key(e.0.as_str()) {
            fd.insert(crate::objects::PdfName::new(e.0.as_str()), copy_object(&e.1));
        }
        j = j + 1;
    }
    proof {
        assert(fv.take(es@.len() as int) =~= fv);
    }
}

/// Merges fonts into a resource dictionary's `/Font` dictionary.
fn merge_into_resources(res: &mut Dictionary, fonts: &Dictionary)
    ensures
        final(res)@ == with_fonts(old(res)@, fonts@),
{
    match res.get("Font") {
        None => {
            let mut fd = Dictionary::new();
            merge_fonts(&mut fd, fonts);
            res.insert(crate::objects::PdfName::new("Font"), Object::Dictionary(fd));
        },
        Some(Object::Dictionary(cur)) => {
            let mut fd = crate::objects::object::copy_dict(cur);
            merge_fonts(&mut fd, fonts);
            res.insert(crate::objects::PdfName::new("Font"), Object::Dictionary(fd));
        },
        Some(_) => {},
    }
}

/// Appends the reference to stream `sid` to a page's `/Contents`.
fn append_contents_ref(page: &mut Dictionary, sid: u32)
    ensures
        final(page)@ == insert_sorted(old(page)@, "Contents"@, contents_after(lookup(old(page)@, "Contents"@), ObjView::Reference(sid, 0))),
{
    let added = Object::Reference(IndirectRef::new(sid, 0));
    let ghost av = added@;
    let new_contents = match page.get("Contents") {
        Some(Object::Reference(x)) => {
            let mut v: Vec<Object> = Vec::new();
            v.push(Object::Reference(*x));
            v.push(added);
            proof {
                lemma_objects_view(v@);
                assert(objects_view(v@) =~= seq![ObjView::Reference(x.object_number, x.generation), av]);
            }
            Object::Array(v)
        },
        Some(Object::Array(a)) => {
            let mut v = copy_objects(a);
            let ghost before = v@;
            v.push(added);
            proof {
                lemma_objects_view(v@);
                lemma_objects_view(before);
                lemma_objects_view(a@);
                assert(objects_view(v@) =~= objects_view(a@).push(av)) by {
                    assert forall|i: int| 0 <= i < before.len() implies objects_view(v@)[i] == objects_view(a@)[i] by {
                        assert(v@[i] == before[i]);
                        assert(objects_view(before)[i] == before[i]@);
                    }
                }
            }
            Object::Array(v)
        },
        _ => added,
    };
    page.insert(crate::objects::PdfName::new("Contents"), new_contents);
}

impl Document {
    /// The catalog dictionary: what the trailer's `/Root` stands for.
    pub fn catalog(&self) -> (r: PdfResult<&Dictionary>)
        ensures
            match r {
                Ok(c) => catalog_entries(self@) == Ok::<_, Seq<char>>(c@),
                Err(e) => catalog_entries(self@) == Err::<Seq<(Seq<char>, ObjView)>, _>(message_text(e)),
            },
    {
        let root = match self.trailer.get("Root") {
            Some(o) => o,
            None => return Err(structure_error("No /Root in trailer")),
        };
        let obj = match self.resolve(root) {
            Some(o) => o,
            None => {
                let mut v: Vec<char> = Vec::new();
                append_str(&mut v, "Cannot resolve /Root reference");
                assert(Seq::<char>::empty() + "Cannot resolve /Root reference"@ =~= "Cannot resolve /Root reference"@);
                return Err(PdfError::InvalidReference(string_from_chars(v.as_slice())));
            },
        };
        match obj {
            Object::Dictionary(d) => Ok(d),
            _ => {
                let mut ex: Vec<char> = Vec::new();
                append_str(&mut ex, "Dictionary");
                let mut found: Vec<char> = Vec::new();
                append_str(&mut found, obj.kind_name());
                assert(Seq::<char>::empty() + "Dictionary"@ =~= "Dictionary"@);
                assert(Seq::<char>::empty() + kind_name_of(obj@) =~= kind_name_of(obj@));
                let e = PdfError::TypeError {
                    expected: string_from_chars(ex.as_slice()),
                    found: string_from_chars(found.as_slice()),
                };
                assert(message_text(e) =~= "Type error: expected "@ + "Dictionary"@ + ", found "@ + kind_name_of(obj@));
                Err(e)
            },
        }
    }

    /// The number of pages: the `/Count` of the page tree root.
    pub fn page_count(&self) -> (r: PdfResult<usize>)
        ensures
            match r {
                Ok(n) => page_count_of(self@) matches Ok(c) && n == c as usize,
                Err(e) => page_count_of(self@) == Err::<i64, _>(message_text(e)),
            },
    {
        let catalog = self.catalog()?;
        let pages_ref = match catalog.get("Pages") {
            Some(o) => o,
            None => return Err(structure_error("No /Pages in catalog")),
        };
        let pages_obj = match self.resolve(pages_ref) {
            Some(o) => o,
            None => {
                let mut v: Vec<char> = Vec::new();
                append_str(&mut v, "Cannot resolve /Pages reference");
                assert(Seq::<char>::empty() + "Cannot resolve /Pages reference"@ =~= "Cannot resolve /Pages reference"@);
                return Err(PdfError::InvalidReference(string_from_chars(v.as_slice())));
            },
        };
        let pages = match pages_obj {
            Object::Dictionary(d) => d,
            _ => {
                let mut ex: Vec<char> = Vec::new();
                append_str(&mut ex, "Dictionary");
                let mut found: Vec<char> = Vec::new();
                append_str(&mut found, pages_obj.kind_name());
                assert(Seq::<char>::empty() + "Dictionary"@ =~= "Dictionary"@);
                assert(Seq::<char>::empty() + kind_name_of(pages_obj@) =~= kind_name_of(pages_obj@));
                let e = PdfError::TypeError {
                    expected: string_from_chars(ex.as_slice()),
                    found: string_from_chars(found.as_slice()),
                };
                assert(message_text(e) =~= "Type error: expected "@ + "Dictionary"@ + ", found "@ + kind_name_of(pages_obj@));
                return Err(e);
            },
        };
        let count = match pages.get("Count") {
            Some(Object::Integer(n)) => *n,
            _ => return Err(structure_error("No /Count in Pages")),
        };
        if count < 0 {
            let mut v: Vec<char> = Vec::new();
            append_str(&mut v, "Negative page count: ");
            push_signed_decimal(&mut v, count);
            let e = PdfError::InvalidStructure(string_from_chars(v.as_slice()));
            assert(message_text(e) =~= "Invalid PDF structure: "@ + ("Negative page count: "@ + signed_decimal(count as int)));
            return Err(e);
        }
        Ok(count as usize)
    }

    /// The id of the page tree root: the catalog's `/Pages` reference.
    pub fn pages_id(&self) -> (r: PdfResult<ObjectId>)
        ensures
            match r {
                Ok(id) => pages_id_of(self@) == Ok::<_, Seq<char>>(id),
                Err(e) => pages_id_of(self@) == Err::<ObjectId, _>(message_text(e)),
            },
    {
        let catalog = self.catalog()?;
        match catalog.get("Pages") {
            None => Err(structure_error("No /Pages in catalog")),
            Some(Object::Reference(x)) => Ok(x.id()),
            Some(_) => Err(structure_error("/Pages is not a reference")),
        }
    }

    /// The id of the page at `index`: the reference at that place among
    /// the kids of the page tree root.
    pub fn page_object_id(&self, index: usize) -> (r: PdfResult<ObjectId>)
        ensures
            match r {
                Ok(id) => page_id_of(self@, index as nat) == Ok::<_, Seq<char>>(id),
                Err(e) => page_id_of(self@, index as nat) == Err::<ObjectId, _>(message_text(e)),
            },
    {
        let pid = self.pages_id()?;
        let pages = match self.get_object(pid) {
            Some(Object::Dictionary(d)) => d,
            _ => return Err(structure_error("Cannot get /Pages dict")),
        };
        let kids = match pages.get("Kids") {
            Some(Object::Array(a)) => a,
            _ => return Err(structure_error("No /Kids in /Pages")),
        };
        proof {
            lemma_objects_view(kids@);
        }
        if index >= kids.len() {
            let mut v: Vec<char> = Vec::new();
            append_str(&mut v, "Page index ");
            push_decimal(&mut v, index as u64);
            append_str(&mut v, " out of range (total: ");
            push_decimal(&mut v, kids.len() as u64);
            append_str(&mut v, ")");
            let e = PdfError::InvalidPage(string_from_chars(v.as_slice()));
            assert(message_text(e) =~= page_range_message(index as nat, kids@.len()));
            return Err(e);
        }
        match &kids[index] {
            Object::Reference(x) => Ok(x.id()),
            _ => Err(structure_error("Page ref is not a reference")),
        }
    }

    /// Appends a content stream to an existing page: a new stream object
    /// holding `content` (with its `/Length`) is added and named in the
    /// page's `/Contents` (a single reference becomes an array), and
    /// `fonts` are merged into the page's `/Resources /Font`, where
    /// fonts of those names are not there yet.
    pub fn append_content_stream(&mut self, page_index: usize, content: &[u8], fonts: Option<Dictionary>) -> (r: PdfResult<()>)
        requires
            old(self).wf(),
            max_num(old(self)@.objects) < u32::MAX,
        ensures
            final(self).wf(),
            final(self)@.version == old(self)@.version,
            final(self)@.trailer == old(self)@.trailer,
            match page_id_of(old(self)@, page_index as nat) {
                Err(m) => r matches Err(e) && message_text(e) == m && final(self)@ == old(self)@,
                Ok(pid) => if is_dict_at(old(self)@.objects, pid) {
                    r is Ok && final(self)@.objects == appended_objects(
                        old(self)@.objects,
                        pid,
                        content@,
                        fonts_view(fonts),
                    )
                } else {
                    r matches Err(e) && message_text(e) == "Invalid PDF structure: "@ + "Page is not a dictionary"@
                        && final(self)@.objects == old(self)@.objects.push(
                        ((next_num(old(self)@.objects) as u32, 0u16), content_stream(content@)),
                    )
                },
            },
    {
        let page_id = self.page_object_id(page_index)?;
        let ghost ev = self@.objects;
        let mut sd = Dictionary::new();
        sd.insert(crate::objects::PdfName::new("Length"), Object::Integer(content.len() as i64));
        let data = vstd::slice::slice_to_vec(content);
        let stream_id = self.add_object(Object::Stream(PdfStream { dict: sd, data }));
        let ghost es1 = self@.objects;
        proof {
            lemma_id_index(ev, page_id);
            lemma_id_index(es1, page_id);
            if id_index(ev, page_id) >= 0 {
                assert(es1[id_index(ev, page_id)] == ev[id_index(ev, page_id)]);
            }
        }
        let ghost sid = next_num(ev);
        let ghost fv = fonts_view(fonts);
        proof {
            assert(es1.drop_last() =~= ev);
            assert(stream_id.0 as nat == sid);
        }
        let mut res_id: Option<ObjectId> = None;
        match self.get_object_mut(page_id) {
            Some(Object::Dictionary(page)) => {
                let ghost page0 = page@;
                append_contents_ref(page, stream_id.0);
                let ghost p1 = page@;
                // Reading the entries tells the proof they are in key order.
                let _in_order = page.entries();
                match page.get("Resources") {
                    Some(Object::Reference(x)) => {
                        res_id = Some(x.id());
                    },
                    _ => {
                        match &fonts {
                            Some(f) => {
                                match page.get("Resources") {
                                    None => {
                                        let mut res = Dictionary::new();
                                        merge_into_resources(&mut res, f);
                                        let ghost rv = ObjView::Dictionary(res@);
                                        page.insert(crate::objects::PdfName::new("Resources"), Object::Dictionary(res));
                                        proof {
                                            crate::objects::object::lemma_insert_sorted_lookup(p1, "Resources"@, rv, "Resources"@);
                                        }
                                    },
                                    Some(Object::Dictionary(cur)) => {
                                        let mut res = crate::objects::object::copy_dict(cur);
                                        merge_into_resources(&mut res, f);
                                        let ghost rv = ObjView::Dictionary(res@);
                                        page.insert(crate::objects::PdfName::new("Resources"), Object::Dictionary(res));
                                        proof {
                                            crate::objects::object::lemma_insert_sorted_lookup(p1, "Resources"@, rv, "Resources"@);
                                        }
                                    },
                                    Some(_) => {},
                                }
                            },
                            None => {},
                        }
                    },
                }
                proof {
                    assert(page@ == page_after(page0, sid, fv));
                    match res_id {
                        Some(x) => {
                            assert(lookup(page@, "Resources"@) == Some(ObjView::Reference(x.0, x.1)));
                        },
                        None => {
                            assert(fv is Some ==> !(lookup(page@, "Resources"@) matches Some(ObjView::Reference(_, _))));
                        },
                    }
                }
            },
            _ => {
                return Err(structure_error("Page is not a dictionary"));
            },
        }
        let ghost es2 = self@.objects;
        proof {
            lemma_id_index(es1, page_id);
            lemma_update_keeps_ids(es1, id_index(es1, page_id), page_id);
            assert(es2 == update_dict(es1, page_id, |pg: Seq<(Seq<char>, ObjView)>| page_after(pg, sid, fv)));
            lemma_id_index(es2, page_id);
            lemma_id_index_same_ids(es1, es2, page_id);
        }
        match (res_id, &fonts) {
            (Some(rid), Some(f)) => {
                match self.get_object_mut(rid) {
                    Some(Object::Dictionary(res)) => {
                        merge_into_resources(res, f);
                    },
                    _ => {},
                }
                proof {
                    lemma_id_index(es2, rid);
                    if id_index(es2, rid) >= 0 {
                        lemma_update_keeps_ids(es2, id_index(es2, rid), rid);
                    }
                }
            },
            _ => {},
        }
        Ok(())
    }
}

// ---------------------------------------------------------------------------
// Writing a file
// ---------------------------------------------------------------------------

/// Whether id `a` comes before id `b`: by number, then by generation.
pub open spec fn id_lt(a: ObjectId, b: ObjectId) -> bool {
    a.0 < b.0 || (a.0 == b.0 && a.1 < b.1)
}

/// `x` put into `s` after the last entry whose id comes before its own.
pub open spec fn insert_by_id(s: ObjectsView, x: (ObjectId, ObjView)) -> ObjectsView
    decreases s.len(),
{
    if s.len() == 0 {
        seq![x]
    } else if id_lt(s.last().0, x.0) {
        s.push(x)
    } else {
        insert_by_id(s.drop_last(), x).push(s.last())
    }
}

/// The objects in id order.
pub open spec fn sort_by_id(s: ObjectsView) -> ObjectsView
    decreases s.len(),
{
    if s.len() == 0 {
        Seq::empty()
    } else {
        insert_by_id(sort_by_id(s.drop_last()), s.last())
    }
}

/// The ASCII digits of a number.
pub open spec fn ascii_num(n: nat) -> Seq<u8> {
    ascii_bytes(decimal(n))
}

/// A number in ten digits at least, zeros in front.
pub open spec fn padded10(n: nat) -> Seq<u8> {
    let d = ascii_num(n);
    if d.len() < 10 {
        Seq::new((10 - d.len()) as nat, |i: int| 0x30u8) + d
    } else {
        d
    }
}

/// `%PDF-M.m`, a line end, and the binary marker line.
pub open spec fn header_bytes(version: (u8, u8)) -> Seq<u8> {
    header_marker() + ascii_num(version.0 as nat) + seq![0x2Eu8] + ascii_num(version.1 as nat) + seq![0x0Au8]
        + seq![0x25u8, 0xE2, 0xE3, 0xCF, 0xD3, 0x0A]
}

/// `N G obj`, the object, and `endobj`.
pub open spec fn object_block(e: (ObjectId, ObjView)) -> Seq<u8> {
    ascii_num(e.0.0 as nat) + seq![0x20u8] + ascii_num(e.0.1 as nat) + seq![0x20u8, 0x6F, 0x62, 0x6A, 0x0A]
        + object_syntax(e.1) + seq![0x0Au8, 0x65, 0x6E, 0x64, 0x6F, 0x62, 0x6A, 0x0A]
}

/// The objects written one after the other.
pub open spec fn body_bytes(s: ObjectsView) -> Seq<u8>
    decreases s.len(),
{
    if s.len() == 0 {
        Seq::empty()
    } else {
        body_bytes(s.drop_last()) + object_block(s.last())
    }
}

/// Where the last object with number `num` begins, when the objects are
/// written from offset `h` on.
pub open spec fn num_offset(h: nat, s: ObjectsView, num: nat) -> Option<nat>
    decreases s.len(),
{
    if s.len() == 0 {
        None
    } else if s.last().0.0 == num {
        Some(h + body_bytes(s.drop_last()).len())
    } else {
        num_offset(h, s.drop_last(), num)
    }
}

/// A cross-reference line: the offset of an object in use, or a free
/// entry.
pub open spec fn xref_line(off: Option<nat>) -> Seq<u8> {
    match off {
        Some(o) => padded10(o) + seq![0x20u8, 0x30, 0x30, 0x30, 0x30, 0x30, 0x20, 0x6E, 0x20, 0x0A],
        None => padded10(0) + seq![0x20u8, 0x30, 0x30, 0x30, 0x30, 0x30, 0x20, 0x66, 0x20, 0x0A],
    }
}

/// The cross-reference lines of objects 1 to `k`.
pub open spec fn xref_lines(h: nat, s: ObjectsView, k: nat) -> Seq<u8>
    decreases k,
{
    if k == 0 {
        Seq::empty()
    } else {
        xref_lines(h, s, (k - 1) as nat) + xref_line(num_offset(h, s, k))
    }
}

/// The bytes of a document written as a PDF file: the header, the objects
/// in id order, the cross-reference table (one line per number up to the
/// largest, free where no object has it), the trailer with `/Size` set,
/// and where the table begins.
pub open spec fn document_bytes(d: DocView) -> Seq<u8> {
    let head = header_bytes(d.version);
    let s = sort_by_id(d.objects);
    let body = body_bytes(s);
    let size = max_num(d.objects) + 1;
    head + body + seq![0x78u8, 0x72, 0x65, 0x66, 0x0A, 0x30, 0x20] + ascii_num(size) + seq![0x0Au8]
        + padded10(0) + seq![0x20u8, 0x36, 0x35, 0x35, 0x33, 0x35, 0x20, 0x66, 0x20, 0x0A]
        + xref_lines(head.len(), s, max_num(d.objects))
        + seq![0x74u8, 0x72, 0x61, 0x69, 0x6C, 0x65, 0x72, 0x0A]
        + object_syntax(ObjView::Dictionary(insert_sorted(d.trailer, "Size"@, ObjView::Integer(size as i64))))
        + seq![0x0Au8, 0x73, 0x74, 0x61, 0x72, 0x74, 0x78, 0x72, 0x65, 0x66, 0x0A]
        + ascii_num(head.len() + body.len()) + seq![0x0Au8, 0x25, 0x25, 0x45, 0x4F, 0x46, 0x0A]
}

proof fn lemma_insert_by_id(s: ObjectsView, x: (ObjectId, ObjView), j: int)
    requires
        0 <= j <= s.len(),
        forall|i: int| j <= i < s.len() ==> !id_lt(#[trigger] s[i].0, x.0),
        j > 0 ==> id_lt(s[j - 1].0, x.0),
    ensures
        insert_by_id(s, x) == s.take(j) + seq![x] + s.skip(j),
    decreases s.len(),
{
    if s.len() == 0 {
        assert(s.take(j) + seq![x] + s.skip(j) =~= seq![x]);
    } else if j == s.len() {
        assert(s.take(j) + seq![x] + s.skip(j) =~= s.push(x));
    } else {
        assert(!id_lt(s[s.len() - 1].0, x.0));
        let t = s.drop_last();
        assert forall|i: int| j <= i < t.len() implies !id_lt(#[trigger] t[i].0, x.0) by {
            assert(t[i] == s[i]);
        }
        if j > 0 {
            assert(t[j - 1] == s[j - 1]);
        }
        lemma_insert_by_id(t, x, j);
        assert((t.take(j) + seq![x] + t.skip(j)).push(s.last()) =~= s.take(j) + seq![x] + s.skip(j));
    }
}

/// The entries of `es` at the given places.
pub open spec fn pick(es: ObjectsView, order: Seq<usize>) -> ObjectsView {
    order.map_values(|i: usize| es[i as int])
}

/// Appends bytes.
fn push_bytes(buf: &mut Vec<u8>, bs: &[u8])
    ensures
        final(buf)@ == old(buf)@ + bs@,
{
    let ghost start = buf@;
    let mut i: usize = 0;
    while i < bs.len()
        invariant
            i <= bs@.len(),
            buf@ == start + bs@.take(i as int),
        decreases bs@.len() - i,
    {
        buf.push(bs[i]);
        i = i + 1;
        assert(buf@ =~= start + bs@.take(i as int));
    }
    assert(bs@.take(bs@.len() as int) =~= bs@);
}

/// The ASCII digits of a number.
fn ascii_digits(n: u64) -> (v: Vec<u8>)
    ensures
        v@ == ascii_num(n as nat),
{
    let mut cs: Vec<char> = Vec::new();
    push_decimal(&mut cs, n);
    assert(cs@ =~= decimal(n as nat));
    let mut v: Vec<u8> = Vec::new();
    let mut i: usize = 0;
    while i < cs.len()
        invariant
            i <= cs@.len(),
            v@ == ascii_bytes(cs@.take(i as int)),
        decreases cs@.len() - i,
    {
        let u: u32 = cs[i] as u32;
        v.push(u as u8);
        i = i + 1;
        assert(v@ =~= ascii_bytes(cs@.take(i as int)));
    }
    assert(cs@.take(cs@.len() as int) =~= cs@);
    v
}

/// Appends the ASCII digits of a number.
fn push_ascii_num(buf: &mut Vec<u8>, n: u64)
    ensures
        final(buf)@ == old(buf)@ + ascii_num(n as nat),
{
    let v = ascii_digits(n);
    push_bytes(buf, v.as_slice());
}

/// Appends a number in ten digits at least.
fn push_padded10(buf: &mut Vec<u8>, n: u64)
    ensures
        final(buf)@ == old(buf)@ + padded10(n as nat),
{
    let v = ascii_digits(n);
    let d = v.len();
    let ghost start = buf@;
    if d < 10 {
        let mut z: usize = 0;
        while z < 10 - d
            invariant
                z <= 10 - d,
                d < 10,
                buf@ == start + Seq::new(z as nat, |i: int| 0x30u8),
            decreases 10 - d - z,
        {
            buf.push(0x30);
            z = z + 1;
            assert(buf@ =~= start + Seq::new(z as nat, |i: int| 0x30u8));
        }
    }
    let ghost mid = buf@;
    push_bytes(buf, v.as_slice());
    proof {
        if d < 10 {
            assert(buf@ =~= start + (Seq::new((10 - d) as nat, |i: int| 0x30u8) + ascii_num(n as nat)));
        } else {
            assert(mid =~= start);
        }
    }
}

impl Document {
    /// The places of the objects in id order.
    fn sorted_order(&self) -> (order: Vec<usize>)
        ensures
            forall|i: int| 0 <= i < order@.len() ==> (#[trigger] order@[i]) < self@.objects.len(),
            pick(self@.objects, order@) == sort_by_id(self@.objects),
    {
        let ghost ev = self@.objects;
        let mut order: Vec<usize> = Vec::new();
        let mut k: usize = 0;
        while k < self.objects.len()
            invariant
                k <= self.objects@.len(),
                ev == self@.objects,
                ev.len() == self.objects@.len(),
                forall|i: int| 0 <= i < order@.len() ==> (#[trigger] order@[i]) < k,
                pick(ev, order@) == sort_by_id(ev.take(k as int)),
            decreases self.objects@.len() - k,
        {
            let ghost before = pick(ev, order@);
            let kn = self.objects[k].0;
            let kg = self.objects[k].1;
            assert(ev[k as int].0 == (kn, kg));
            let mut j: usize = order.len();
            while j > 0
                invariant
                    j <= order@.len(),
                    before == pick(ev, order@),
                    forall|i: int| 0 <= i < order@.len() ==> (#[trigger] order@[i]) < k,
                    k < self.objects@.len(),
                    ev == self@.objects,
                    ev.len() == self.objects@.len(),
                    ev[k as int].0 == (kn, kg),
                    forall|i: int| j <= i < before.len() ==> !id_lt(#[trigger] before[i].0, ev[k as int].0),
                ensures
                    j <= order@.len(),
                    forall|i: int| j <= i < before.len() ==> !id_lt(#[trigger] before[i].0, ev[k as int].0),
                    j > 0 ==> id_lt(before[j - 1].0, ev[k as int].0),
                decreases j,
            {
                let o = order[j - 1];
                let on = self.objects[o].0;
                let og = self.objects[o].1;
                assert(before[j - 1] == ev[o as int]);
                assert(ev[o as int].0 == (on, og));
                if on < kn || (on == kn && og < kg) {
                    break;
                }
                j = j - 1;
            }
            proof {
                lemma_insert_by_id(before, ev[k as int], j as int);
                assert(ev.take(k + 1).drop_last() =~= ev.take(k as int));
                assert(ev.take(k + 1).last() == ev[k as int]);
            }
            let ghost old_order = order@;
            order.insert(j, k);
            proof {
                assert(pick(ev, order@) =~= before.take(j as int) + seq![ev[k as int]] + before.skip(j as int)) by {
                    assert(order@ == old_order.insert(j as int, k));
                }
            }
            k = k + 1;
        }
        assert(ev.take(ev.len() as int) =~= ev);
        order
    }
}

/// An optional offset as a number.
pub open spec fn opt_offset(o: Option<usize>) -> Option<nat> {
    match o {
        Some(x) => Some(x as nat),
        None => None,
    }
}

impl Document {
    /// The largest object number (0 when there are none).
    pub fn max_object_number(&self) -> (m: u32)
        ensures
            m == max_num(self@.objects),
    {
        let ghost ev = self@.objects;
        proof {
            lemma_max_num(ev);
        }
        let mut m: u32 = 0;
        let mut i: usize = 0;
        while i < self.objects.len()
            invariant
                i <= self.objects@.len(),
                ev == self@.objects,
                ev.len() == self.objects@.len(),
                m <= max_num(ev),
                forall|j: int| 0 <= j < ev.len() ==> (#[trigger] ev[j]).0.0 <= max_num(ev),
                i == 0 ==> m == 0,
                forall|j: int| 0 <= j < i ==> (#[trigger] ev[j]).0.0 <= m,
                i > 0 ==> exists|j: int| 0 <= j < i && (#[trigger] ev[j]).0.0 == m,
            decreases self.objects@.len() - i,
        {
            assert(ev[i as int].0.0 == self.objects@[i as int].0);
            if self.objects[i].0 > m {
                m = self.objects[i].0;
            }
            i = i + 1;
        }
        proof {
            if ev.len() > 0 {
                let j = choose|j: int| 0 <= j < ev.len() && (#[trigger] ev[j]).0.0 == max_num(ev);
                assert(ev[j].0.0 <= m);
            }
        }
        m
    }

    /// The document as the bytes of a PDF file: the header, every object
    /// in id order, the cross-reference table, and the trailer with
    /// `/Size` one above the largest object number.
    pub fn to_bytes(&self) -> (r: PdfResult<Vec<u8>>)
        requires
            max_num(self@.objects) < u32::MAX,
        ensures
            r matches Ok(b) && b@ == document_bytes(self@),
    {
        let ghost ev = self@.objects;
        proof {
            lemma_max_num(ev);
        }
        let mut buf: Vec<u8> = Vec::new();
        push_bytes(&mut buf, &[0x25u8, 0x50, 0x44, 0x46, 0x2D]);
        push_ascii_num(&mut buf, self.version.major as u64);
        buf.push(0x2E);
        push_ascii_num(&mut buf, self.version.minor as u64);
        buf.push(0x0A);
        push_bytes(&mut buf, &[0x25u8, 0xE2, 0xE3, 0xCF, 0xD3, 0x0A]);
        let ghost head = buf@;
        assert(head =~= header_bytes(self@.version));
        let h = buf.len();
        let order = self.sorted_order();
        let ghost s = sort_by_id(ev);
        let m = self.max_object_number();
        let mut table: Vec<Option<usize>> = Vec::new();
        let mut t: u32 = 0;
        while t <= m
            invariant
                t <= m + 1,
                m < u32::MAX,
                table@.len() == t,
                forall|n: int| 0 <= n < t ==> (#[trigger] table@[n]) is None,
            decreases m + 1 - t,
        {
            table.push(None);
            t = t + 1;
        }
        let mut i: usize = 0;
        while i < order.len()
            invariant
                i <= order@.len(),
                ev == self@.objects,
                s == sort_by_id(ev),
                pick(ev, order@) == s,
                forall|j: int| 0 <= j < order@.len() ==> (#[trigger] order@[j]) < ev.len(),
                forall|j: int| 0 <= j < ev.len() ==> (#[trigger] ev[j]).0.0 <= m,
                ev.len() == self.objects@.len(),
                m == max_num(ev),
                m < u32::MAX,
                h == head.len(),
                table@.len() == m + 1,
                buf@ == head + body_bytes(s.take(i as int)),
                forall|n: int| 0 <= n <= m ==> opt_offset(#[trigger] table@[n]) == num_offset(h as nat, s.take(i as int), n as nat),
            decreases order@.len() - i,
        {
            let o = order[i];
            let e = &self.objects[o];
            assert(s[i as int] == ev[o as int]);
            assert(ev[o as int] == ((e.0, e.1), e.2@));
            let ghost before = buf@;
            let ghost old_table = table@;
            table.set(e.0 as usize, Some(buf.len()));
            push_ascii_num(&mut buf, e.0 as u64);
            buf.push(0x20);
            push_ascii_num(&mut buf, e.1 as u64);
            push_bytes(&mut buf, &[0x20u8, 0x6F, 0x62, 0x6A, 0x0A]);
            e.2.write_pdf(&mut buf);
            push_bytes(&mut buf, &[0x0Au8, 0x65, 0x6E, 0x64, 0x6F, 0x62, 0x6A, 0x0A]);
            proof {
                let tk = s.take(i + 1);
                assert(tk.drop_last() =~= s.take(i as int));
                assert(tk.last() == s[i as int]);
                assert(buf@ =~= head + body_bytes(tk));
                assert forall|n: int| 0 <= n <= m implies opt_offset(#[trigger] table@[n]) == num_offset(h as nat, tk, n as nat) by {
                    if n != e.0 as int {
                        assert(table@[n] == old_table[n]);
                    }
                }
            }
            i = i + 1;
        }
        proof {
            assert(s.take(order@.len() as int) =~= s);
        }
        let xref_offset = buf.len();
        push_bytes(&mut buf, &[0x78u8, 0x72, 0x65, 0x66, 0x0A, 0x30, 0x20]);
        push_ascii_num(&mut buf, m as u64 + 1);
        buf.push(0x0A);
        push_padded10(&mut buf, 0);
        push_bytes(&mut buf, &[0x20u8, 0x36, 0x35, 0x35, 0x33, 0x35, 0x20, 0x66, 0x20, 0x0A]);
        let ghost xstart = buf@;
        let mut k: u32 = 1;
        while k <= m
            invariant
                1 <= k <= m + 1,
                m < u32::MAX,
                table@.len() == m + 1,
                forall|n: int| 0 <= n <= m ==> opt_offset(#[trigger] table@[n]) == num_offset(h as nat, s, n as nat),
                buf@ == xstart + xref_lines(h as nat, s, (k - 1) as nat),
            decreases m + 1 - k,
        {
            match table[k as usize] {
                Some(off) => {
                    push_padded10(&mut buf, off as u64);
                    push_bytes(&mut buf, &[0x20u8, 0x30, 0x30, 0x30, 0x30, 0x30, 0x20, 0x6E, 0x20, 0x0A]);
                },
                None => {
                    push_padded10(&mut buf, 0);
                    push_bytes(&mut buf, &[0x20u8, 0x30, 0x30, 0x30, 0x30, 0x30, 0x20, 0x66, 0x20, 0x0A]);
                },
            }
            proof {
                assert(opt_offset(table@[k as int]) == num_offset(h as nat, s, k as nat));
                assert(buf@ =~= xstart + xref_lines(h as nat, s, k as nat));
            }
            k = k + 1;
        }
        let mut trailer = crate::objects::object::copy_dict(&self.trailer);
        trailer.insert(PdfName::new("Size"), Object::Integer(m as i64 + 1));
        push_bytes(&mut buf, &[0x74u8, 0x72, 0x61, 0x69, 0x6C, 0x65, 0x72, 0x0A]);
        Object::Dictionary(trailer).write_pdf(&mut buf);
        push_bytes(&mut buf, &[0x0Au8, 0x73, 0x74, 0x61, 0x72, 0x74, 0x78, 0x72, 0x65, 0x66, 0x0A]);
        push_ascii_num(&mut buf, xref_offset as u64);
        push_bytes(&mut buf, &[0x0Au8, 0x25, 0x25, 0x45, 0x4F, 0x46, 0x0A]);
        proof {
            assert(buf@ =~= document_bytes(self@));
        }
        Ok(buf)
    }
}

// ---------------------------------------------------------------------------
// Information and the pages in order
// ---------------------------------------------------------------------------

/// The document information dictionary: what the trailer's `/Info`
/// stands for, when that is a dictionary.
pub open spec fn info_of(d: DocView) -> Option<Seq<(Seq<char>, ObjView)>> {
    match lookup(d.trailer, "Info"@) {
        Some(o) => match resolve_view(d, o) {
            Some(ObjView::Dictionary(i)) => Some(i),
            _ => None,
        },
        None => None,
    }
}

/// The title: the `/Title` string of the information dictionary, when its
/// bytes are UTF-8.
pub open spec fn title_of(d: DocView) -> Option<Seq<char>> {
    match info_of(d) {
        Some(i) => match lookup(i, "Title"@) {
            Some(ObjView::String(b, _)) => if vstd::utf8::valid_utf8(b) {
                Some(vstd::utf8::decode_utf8(b))
            } else {
                None
            },
            _ => None,
        },
        None => None,
    }
}

/// How deep the page tree is walked.
pub open spec fn page_tree_depth() -> nat {
    64
}

/// The leaf pages under a page tree node, in order, walking at most
/// `depth` levels; or the message of the error. A node of `/Type /Pages`
/// is a branch, any other node a page.
pub open spec fn pages_under(d: DocView, node: Seq<(Seq<char>, ObjView)>, depth: nat) -> Result<Seq<Seq<(Seq<char>, ObjView)>>, Seq<char>>
    decreases depth, 0nat, 0nat,
{
    if depth == 0 {
        Err("Invalid PDF structure: "@ + "Page tree exceeds maximum depth (circular reference or excessive nesting)"@)
    } else if lookup(node, "Type"@) == Some(ObjView::Name("Pages"@)) {
        match lookup(node, "Kids"@) {
            Some(ObjView::Array(kids)) => pages_of_kids(d, kids, (depth - 1) as nat),
            _ => Err("Invalid PDF structure: "@ + "No /Kids in /Pages node"@),
        }
    } else {
        Ok(seq![node])
    }
}

/// The leaf pages under each of the kids, in order.
pub open spec fn pages_of_kids(d: DocView, kids: Seq<ObjView>, depth: nat) -> Result<Seq<Seq<(Seq<char>, ObjView)>>, Seq<char>>
    decreases depth, 1nat, kids.len(),
{
    if kids.len() == 0 {
        Ok(Seq::empty())
    } else {
        match pages_of_kids(d, kids.drop_last(), depth) {
            Err(m) => Err(m),
            Ok(before) => match resolve_view(d, kids.last()) {
                None => Err("Invalid reference: "@ + "Cannot resolve page tree child"@),
                Some(ObjView::Dictionary(kd)) => match pages_under(d, kd, depth) {
                    Err(m) => Err(m),
                    Ok(more) => Ok(before + more),
                },
                Some(o) => Err("Type error: expected "@ + "Dictionary"@ + ", found "@ + kind_name_of(o)),
            },
        }
    }
}

/// The pages of a document in order, or the message of the error.
pub open spec fn pages_of(d: DocView) -> Result<Seq<Seq<(Seq<char>, ObjView)>>, Seq<char>> {
    match catalog_entries(d) {
        Err(m) => Err(m),
        Ok(c) => match lookup(c, "Pages"@) {
            None => Err("Invalid PDF structure: "@ + "No /Pages in catalog"@),
            Some(pv) => match resolve_view(d, pv) {
                None => Err("Invalid reference: "@ + "Cannot resolve /Pages reference"@),
                Some(ObjView::Dictionary(root)) => pages_under(d, root, page_tree_depth()),
                Some(o) => Err("Type error: expected "@ + "Dictionary"@ + ", found "@ + kind_name_of(o)),
            },
        },
    }
}

/// A type error: a dictionary was expected, an object of another kind was
/// found.
fn not_a_dictionary(o: &Object) -> (e: PdfError)
    ensures
        message_text(e) == "Type error: expected "@ + "Dictionary"@ + ", found "@ + kind_name_of(o@),
{
    let mut ex: Vec<char> = Vec::new();
    append_str(&mut ex, "Dictionary");
    let mut found: Vec<char> = Vec::new();
    append_str(&mut found, o.kind_name());
    assert(Seq::<char>::empty() + "Dictionary"@ =~= "Dictionary"@);
    assert(Seq::<char>::empty() + kind_name_of(o@) =~= kind_name_of(o@));
    let e = PdfError::TypeError { expected: string_from_chars(ex.as_slice()), found: string_from_chars(found.as_slice()) };
    assert(message_text(e) =~= "Type error: expected "@ + "Dictionary"@ + ", found "@ + kind_name_of(o@));
    e
}

/// An error of a reference that resolves to nothing.
fn unresolved(msg: &str) -> (e: PdfError)
    ensures
        message_text(e) == "Invalid reference: "@ + msg@,
{
    let mut v: Vec<char> = Vec::new();
    append_str(&mut v, msg);
    assert(Seq::<char>::empty() + msg@ =~= msg@);
    PdfError::InvalidReference(string_from_chars(v.as_slice()))
}

/// The entries of the dictionaries, in order.
pub open spec fn dict_views(v: Seq<&Dictionary>) -> Seq<Seq<(Seq<char>, ObjView)>> {
    v.map_values(|x: &Dictionary| x@)
}

impl Document {
    /// The document information dictionary, if the trailer names one.
    pub fn info(&self) -> (r: Option<&Dictionary>)
        ensures
            match r {
                Some(i) => info_of(self@) == Some(i@),
                None => info_of(self@) is None,
            },
    {
        let info_ref = self.trailer.get("Info")?;
        let info_obj = self.resolve(info_ref)?;
        match info_obj {
            Object::Dictionary(i) => Some(i),
            _ => None,
        }
    }

    /// The document title from the information dictionary, if present.
    pub fn title(&self) -> (r: Option<&str>)
        ensures
            match r {
                Some(t) => title_of(self@) == Some(t@),
                None => title_of(self@) is None,
            },
    {
        let info = self.info()?;
        match info.get("Title") {
            Some(Object::String(s)) => s.as_text(),
            _ => None,
        }
    }

    /// Appends the leaf pages under `node`, walking at most `depth` levels.
    fn collect_pages_inner<'a>(&'a self, node: &'a Dictionary, result: &mut Vec<&'a Dictionary>, depth: usize) -> (r: PdfResult<()>)
        ensures
            match pages_under(self@, node@, depth as nat) {
                Ok(ps) => r is Ok && dict_views(final(result)@) == dict_views(old(result)@) + ps,
                Err(m) => r matches Err(e) && message_text(e) == m,
            },
        decreases depth, 0nat, 0nat,
    {
        if depth == 0 {
            return Err(structure_error("Page tree exceeds maximum depth (circular reference or excessive nesting)"));
        }
        let is_branch = match node.get("Type") {
            Some(Object::Name(n)) => crate::unicode::str_eq(n.as_str(), "Pages"),
            _ => false,
        };
        proof {
            reveal_strlit("Pages");
        }
        if !is_branch {
            proof {
                if lookup(node@, "Type"@) == Some(ObjView::Name("Pages"@)) {
                    assert(false);
                }
            }
            let ghost before = result@;
            result.push(node);
            assert(dict_views(result@) =~= dict_views(before) + seq![node@]);
            return Ok(());
        }
        let kids = match node.get("Kids") {
            Some(Object::Array(a)) => a,
            _ => return Err(structure_error("No /Kids in /Pages node")),
        };
        self.collect_kids(kids, result, depth - 1)
    }

    /// Appends the leaf pages under each of the kids in turn.
    fn collect_kids<'a>(&'a self, kids: &'a Vec<Object>, result: &mut Vec<&'a Dictionary>, depth: usize) -> (r: PdfResult<()>)
        ensures
            match pages_of_kids(self@, objects_view(kids@), depth as nat) {
                Ok(ps) => r is Ok && dict_views(final(result)@) == dict_views(old(result)@) + ps,
                Err(m) => r matches Err(e) && message_text(e) == m,
            },
        decreases depth, 1nat, kids@.len(),
    {
        let ghost kv = objects_view(kids@);
        let ghost start = dict_views(result@);
        proof {
            lemma_objects_view(kids@);
        }
        let mut i: usize = 0;
        while i < kids.len()
            invariant
                i <= kids@.len(),
                kv == objects_view(kids@),
                kv.len() == kids@.len(),
                forall|j: int| 0 <= j < kids@.len() ==> #[trigger] kv[j] == kids@[j]@,
                start == dict_views(old(result)@),
                pages_of_kids(self@, kv.take(i as int), depth as nat) matches Ok(ps) && dict_views(result@) == start + ps,
            decreases kids@.len() - i,
        {
            let ghost ki = kv.take(i + 1);
            proof {
                assert(ki.drop_last() =~= kv.take(i as int));
                assert(ki.last() == kids@[i as int]@);
            }
            let kid = match self.resolve(&kids[i]) {
                Some(o) => o,
                None => {
                    proof { self.lemma_kids_error_stays(kv, i as int + 1, depth as nat); }
                    return Err(unresolved("Cannot resolve page tree child"));
                },
            };
            let kd = match kid {
                Object::Dictionary(d) => d,
                _ => {
                    proof { self.lemma_kids_error_stays(kv, i as int + 1, depth as nat); }
                    return Err(not_a_dictionary(kid));
                },
            };
            match self.collect_pages_inner(kd, result, depth) {
                Ok(()) => {},
                Err(e) => {
                    proof { self.lemma_kids_error_stays(kv, i as int + 1, depth as nat); }
                    return Err(e);
                },
            }
            proof {
                let ps = pages_of_kids(self@, kv.take(i as int), depth as nat)->Ok_0;
                let more = pages_under(self@, kd@, depth as nat)->Ok_0;
                assert(start + ps + more =~= start + (ps + more));
            }
            i = i + 1;
        }
        proof {
            assert(kv.take(kids@.len() as int) =~= kv);
        }
        Ok(())
    }

    /// An error among the first kids is the error of all of them.
    proof fn lemma_kids_error_stays(&self, kv: Seq<ObjView>, n: int, depth: nat)
        requires
            0 <= n <= kv.len(),
            pages_of_kids(self@, kv.take(n), depth) is Err,
        ensures
            pages_of_kids(self@, kv, depth) == pages_of_kids(self@, kv.take(n), depth),
        decreases kv.len() - n,
    {
        if n < kv.len() {
            assert(kv.take(n + 1).drop_last() =~= kv.take(n));
            self.lemma_kids_error_stays(kv, n + 1, depth);
        } else {
            assert(kv.take(n) =~= kv);
        }
    }

    /// The page dictionaries in document order: the leaves of the page
    /// tree, walked at most 64 levels deep.
    pub fn pages(&self) -> (r: PdfResult<Vec<&Dictionary>>)
        ensures
            match pages_of(self@) {
                Ok(ps) => r matches Ok(v) && dict_views(v@) == ps,
                Err(m) => r matches Err(e) && message_text(e) == m,
            },
    {
        let catalog = self.catalog()?;
        let pages_ref = match catalog.get("Pages") {
            Some(o) => o,
            None => return Err(structure_error("No /Pages in catalog")),
        };
        let pages_obj = match self.resolve(pages_ref) {
            Some(o) => o,
            None => return Err(unresolved("Cannot resolve /Pages reference")),
        };
        let root = match pages_obj {
            Object::Dictionary(d) => d,
            _ => return Err(not_a_dictionary(pages_obj)),
        };
        let mut result: Vec<&Dictionary> = Vec::new();
        assert(dict_views(result@) =~= Seq::<Seq<(Seq<char>, ObjView)>>::empty());
        self.collect_pages_inner(root, &mut result, 64)?;
        proof {
            let ps = pages_under(self@, root@, 64)->Ok_0;
            assert(Seq::<Seq<(Seq<char>, ObjView)>>::empty() + ps =~= ps);
        }
        Ok(result)
    }

    /// The page dictionary at `index` (from zero) in document order.
    pub fn get_page(&self, index: usize) -> (r: PdfResult<&Dictionary>)
        ensures
            match pages_of(self@) {
                Ok(ps) => if index < ps.len() {
                    r matches Ok(p) && p@ == ps[index as int]
                } else {
                    r matches Err(e) && message_text(e) == page_range_message(index as nat, ps.len())
                },
                Err(m) => r matches Err(e) && message_text(e) == m,
            },
    {
        let pages = self.pages()?;
        if index < pages.len() {
            assert(dict_views(pages@)[index as int] == pages@[index as int]@);
            Ok(pages[index])
        } else {
            let mut v: Vec<char> = Vec::new();
            append_str(&mut v, "Page index ");
            push_decimal(&mut v, index as u64);
            append_str(&mut v, " out of range (total: ");
            push_decimal(&mut v, pages.len() as u64);
            append_str(&mut v, ")");
            let e = PdfError::InvalidPage(string_from_chars(v.as_slice()));
            assert(message_text(e) =~= page_range_message(index as nat, pages@.len()));
            Err(e)
        }
    }
}

// ---------------------------------------------------------------------------
// The objects of the first page
// ---------------------------------------------------------------------------

/// The ids a list holds, as a set.
pub open spec fn ids_set(v: Seq<ObjectId>) -> Set<ObjectId> {
    Set::new(|x: ObjectId| v.contains(x))
}

/// The ids reached from an object within `depth` steps, added to
/// `vis`: a reference not yet seen is added and its target (dictionary,
/// stream dictionary or array) walked one level deeper; arrays and
/// dictionaries are walked one level deeper.
pub open spec fn refs_obj(d: DocView, o: ObjView, vis: Set<ObjectId>, depth: nat) -> Set<ObjectId>
    decreases depth, 0nat, 0nat,
{
    if depth == 0 {
        vis
    } else {
        match o {
            ObjView::Reference(n, g) => if vis.contains((n, g)) {
                vis
            } else {
                let v2 = vis.insert((n, g));
                match obj_lookup(d.objects, (n, g)) {
                    Some(ObjView::Dictionary(t)) => refs_entries(d, t, v2, (depth - 1) as nat),
                    Some(ObjView::Stream(sd, _)) => refs_entries(d, sd, v2, (depth - 1) as nat),
                    Some(ObjView::Array(a)) => refs_items(d, a, v2, (depth - 1) as nat),
                    _ => v2,
                }
            },
            ObjView::Array(a) => refs_items(d, a, vis, (depth - 1) as nat),
            ObjView::Dictionary(t) => refs_entries(d, t, vis, (depth - 1) as nat),
            _ => vis,
        }
    }
}

/// The ids reached from the values of a dictionary, in key order.
pub open spec fn refs_entries(d: DocView, es: Seq<(Seq<char>, ObjView)>, vis: Set<ObjectId>, depth: nat) -> Set<ObjectId>
    decreases depth, 1nat, es.len(),
{
    if depth == 0 || es.len() == 0 {
        vis
    } else {
        refs_obj(d, es.last().1, refs_entries(d, es.drop_last(), vis, depth), depth)
    }
}

/// The ids reached from the items of an array, in order.
pub open spec fn refs_items(d: DocView, items: Seq<ObjView>, vis: Set<ObjectId>, depth: nat) -> Set<ObjectId>
    decreases depth, 1nat, items.len(),
{
    if items.len() == 0 {
        vis
    } else {
        refs_obj(d, items.last(), refs_items(d, items.drop_last(), vis, depth), depth)
    }
}

/// The objects of the first page: what its dictionary reaches within 8
/// levels, then what the catalog reaches within 4; none when there is no
/// first page.
pub open spec fn first_page_ids(d: DocView) -> Set<ObjectId> {
    match pages_of(d) {
        Ok(ps) => if ps.len() > 0 {
            let v1 = refs_entries(d, ps[0], Set::empty(), 8);
            match catalog_entries(d) {
                Ok(c) => refs_entries(d, c, v1, 4),
                Err(_) => v1,
            }
        } else {
            Set::empty()
        },
        Err(_) => Set::empty(),
    }
}

/// Whether a list of ids holds `id`.
fn holds_id(ids: &Vec<ObjectId>, id: ObjectId) -> (r: bool)
    ensures
        r == ids@.contains(id),
{
    let mut i: usize = 0;
    while i < ids.len()
        invariant
            i <= ids@.len(),
            forall|j: int| 0 <= j < i ==> ids@[j] != id,
        decreases ids@.len() - i,
    {
        if ids[i].0 == id.0 && ids[i].1 == id.1 {
            assert(ids@[i as int] == id);
            return true;
        }
        i = i + 1;
    }
    false
}

impl Document {
    /// Adds the ids reached from an object (see `refs_obj`).
    fn collect_refs_from_object(&self, obj: &Object, ids: &mut Vec<ObjectId>, depth: usize)
        ensures
            ids_set(final(ids)@) == refs_obj(self@, obj@, ids_set(old(ids)@), depth as nat),
        decreases depth, 0nat, 0nat,
    {
        if depth == 0 {
            return;
        }
        match obj {
            Object::Reference(r) => {
                let id = r.id();
                if holds_id(ids, id) {
                    return;
                }
                let ghost before = ids@;
                ids.push(id);
                proof {
                    assert forall|y: ObjectId| #[trigger] ids@.contains(y) == (before.contains(y) || y == id) by {
                        if y == id {
                            assert(ids@[before.len() as int] == id);
                        }
                        if before.contains(y) {
                            let j = choose|j: int| 0 <= j < before.len() && before[j] == y;
                            assert(ids@[j] == y);
                        }
                        if ids@.contains(y) {
                            let j = choose|j: int| 0 <= j < ids@.len() && ids@[j] == y;
                            if j < before.len() {
                                assert(before[j] == y);
                            }
                        }
                    }
                    assert(ids_set(ids@) =~= ids_set(before).insert(id));
                }
                match self.get_object(id) {
                    Some(Object::Dictionary(t)) => self.collect_refs_from_dict(t, ids, depth - 1),
                    Some(Object::Stream(st)) => self.collect_refs_from_dict(&st.dict, ids, depth - 1),
                    Some(Object::Array(a)) => self.collect_refs_from_items(a, ids, depth - 1),
                    _ => {},
                }
            },
            Object::Array(a) => self.collect_refs_from_items(a, ids, depth - 1),
            Object::Dictionary(t) => self.collect_refs_from_dict(t, ids, depth - 1),
            _ => {},
        }
    }

    /// Adds the ids reached from the values of a dictionary.
    fn collect_refs_from_dict(&self, dict: &Dictionary, ids: &mut Vec<ObjectId>, depth: usize)
        ensures
            ids_set(final(ids)@) == refs_entries(self@, dict@, ids_set(old(ids)@), depth as nat),
        decreases depth, 1nat, dict@.len(),
    {
        if depth == 0 {
            return;
        }
        let es = dict.entries();
        let ghost ev = dict@;
        let ghost start = ids_set(ids@);
        proof {
            crate::objects::object::lemma_entries_view(es@);
        }
        let mut i: usize = 0;
        while i < es.len()
            invariant
                i <= es@.len(),
                depth > 0,
                ev == dict@,
                ev.len() == es@.len(),
                crate::objects::object::entries_view(es@) == ev,
                forall|j: int| 0 <= j < es@.len() ==> #[trigger] ev[j] == (es@[j].0.0@, es@[j].1@),
                ids_set(ids@) == refs_entries(self@, ev.take(i as int), start, depth as nat),
            decreases es@.len() - i,
        {
            proof {
                assert(ev.take(i + 1).drop_last() =~= ev.take(i as int));
                assert(ev.take(i + 1).last() == ev[i as int]);
            }
            self.collect_refs_from_object(&es[i].1, ids, depth);
            i = i + 1;
        }
        proof {
            assert(ev.take(es@.len() as int) =~= ev);
        }
    }

    /// Adds the ids reached from the items of an array.
    fn collect_refs_from_items(&self, items: &Vec<Object>, ids: &mut Vec<ObjectId>, depth: usize)
        ensures
            ids_set(final(ids)@) == refs_items(self@, objects_view(items@), ids_set(old(ids)@), depth as nat),
        decreases depth, 1nat, items@.len(),
    {
        let ghost iv = objects_view(items@);
        let ghost start = ids_set(ids@);
        proof {
            lemma_objects_view(items@);
        }
        let mut i: usize = 0;
        while i < items.len()
            invariant
                i <= items@.len(),
                iv == objects_view(items@),
                iv.len() == items@.len(),
                forall|j: int| 0 <= j < items@.len() ==> #[trigger] iv[j] == items@[j]@,
                ids_set(ids@) == refs_items(self@, iv.take(i as int), start, depth as nat),
            decreases items@.len() - i,
        {
            proof {
                assert(iv.take(i + 1).drop_last() =~= iv.take(i as int));
                assert(iv.take(i + 1).last() == iv[i as int]);
            }
            self.collect_refs_from_object(&items[i], ids, depth);
            i = i + 1;
        }
        proof {
            assert(iv.take(items@.len() as int) =~= iv);
        }
    }

    /// The objects of the first page and what the catalog reaches.
    fn collect_first_page_object_ids(&self) -> (ids: Vec<ObjectId>)
        ensures
            ids_set(ids@) == first_page_ids(self@),
    {
        let mut ids: Vec<ObjectId> = Vec::new();
        assert(ids_set(ids@) =~= Set::<ObjectId>::empty());
        let page = match self.get_page(0) {
            Ok(p) => p,
            Err(_) => return ids,
        };
        self.collect_refs_from_dict(page, &mut ids, 8);
        match self.catalog() {
            Ok(c) => self.collect_refs_from_dict(c, &mut ids, 4),
            Err(_) => {},
        }
        ids
    }
}

// ---------------------------------------------------------------------------
// Linearized output
// ---------------------------------------------------------------------------

/// The objects split, in order, into those whose id is in `f` and the
/// others.
pub open spec fn split_by(s: ObjectsView, f: Set<ObjectId>) -> (ObjectsView, ObjectsView)
    decreases s.len(),
{
    if s.len() == 0 {
        (Seq::empty(), Seq::empty())
    } else {
        let (a, b) = split_by(s.drop_last(), f);
        if f.contains(s.last().0) {
            (a.push(s.last()), b)
        } else {
            (a, b.push(s.last()))
        }
    }
}

/// The number and the offset of each object written from `start` on.
pub open spec fn block_offsets(start: nat, s: ObjectsView) -> Seq<(nat, nat)>
    decreases s.len(),
{
    if s.len() == 0 {
        Seq::empty()
    } else {
        block_offsets(start, s.drop_last()).push((s.last().0.0 as nat, start + body_bytes(s.drop_last()).len()))
    }
}

/// The offset last recorded for number `num`.
pub open spec fn last_offset(list: Seq<(nat, nat)>, num: nat) -> Option<nat>
    decreases list.len(),
{
    if list.len() == 0 {
        None
    } else if list.last().0 == num {
        Some(list.last().1)
    } else {
        last_offset(list.drop_last(), num)
    }
}

/// The cross-reference lines of objects 1 to `k` by recorded offsets.
pub open spec fn xref_lines_of(list: Seq<(nat, nat)>, k: nat) -> Seq<u8>
    decreases k,
{
    if k == 0 {
        Seq::empty()
    } else {
        xref_lines_of(list, (k - 1) as nat) + xref_line(last_offset(list, k))
    }
}

/// The linearization dictionary as an indirect object: `/L` the file
/// length, `/O` the first page object, `/E` the end of the first page,
/// `/N` the page count, `/T` the cross-reference offset.
pub open spec fn lin_dict_bytes(lin: nat, l: nat, o: nat, e: nat, n: nat, t: nat) -> Seq<u8> {
    ascii_num(lin) + encode_utf8(" 0 obj\n<< /Linearized 1 /L "@) + ascii_num(l) + encode_utf8(" /O "@) + ascii_num(o)
        + encode_utf8(" /E "@) + ascii_num(e) + encode_utf8(" /N "@) + ascii_num(n) + encode_utf8(" /T "@)
        + ascii_num(t) + encode_utf8(" /H [ 0 0 ] >>\nendobj\n"@)
}

/// Spaces reserved after the linearization dictionary: room for the file
/// length, the end of the first page and the cross-reference offset,
/// twenty digits each.
pub open spec fn hint_reserve() -> nat {
    60
}

/// The linearization dictionary as first written, with zeros for the
/// values only known at the end, followed by the reserved spaces.
pub open spec fn lin_placeholder(lin: nat, o: nat, n: nat) -> Seq<u8> {
    lin_dict_bytes(lin, 0, o, 0, n, 0) + Seq::new(hint_reserve(), |i: int| 0x20u8)
}

/// Ten to the power `k`.
pub open spec fn pow10(k: nat) -> nat
    decreases k,
{
    if k == 0 {
        1
    } else {
        10 * pow10((k - 1) as nat)
    }
}

proof fn lemma_decimal_len(n: nat, k: nat)
    requires
        k >= 1,
        n < pow10(k),
    ensures
        decimal(n).len() <= k,
    decreases k,
{
    if n >= 10 {
        assert(k >= 2) by {
            if k == 1 {
                assert(pow10(1) == 10 * pow10(0));
            }
        }
        let p = pow10((k - 1) as nat);
        assert(pow10(k) == 10 * p);
        assert(n / 10 < p) by (nonlinear_arith)
            requires
                n < 10 * p,
        ;
        lemma_decimal_len(n / 10, (k - 1) as nat);
    }
}

/// A 64-bit number has at most twenty decimal digits.
proof fn lemma_u64_digits(n: u64)
    ensures
        ascii_num(n as nat).len() <= 20,
{
    reveal_with_fuel(pow10, 21);
    assert(pow10(20) == 100000000000000000000nat);
    lemma_decimal_len(n as nat, 20);
}

/// The page count, or 0 when it cannot be had.
pub open spec fn page_count_or_zero(d: DocView) -> nat {
    match page_count_of(d) {
        Ok(c) => (c as usize) as nat,
        Err(_) => 0,
    }
}

/// The number of the first of the first page's objects, or 0.
pub open spec fn first_number(fs: ObjectsView) -> nat {
    if fs.len() > 0 {
        fs[0].0.0 as nat
    } else {
        0
    }
}

/// The cross-reference table of objects up to `lin` by recorded offsets,
/// the trailer with `/Size` one above `lin`, and the table's offset `x`.
pub open spec fn xref_and_trailer(trailer: Seq<(Seq<char>, ObjView)>, list: Seq<(nat, nat)>, lin: nat, x: nat) -> Seq<u8> {
    seq![0x78u8, 0x72, 0x65, 0x66, 0x0A, 0x30, 0x20] + ascii_num(lin + 1) + seq![0x0Au8] + padded10(0)
        + seq![0x20u8, 0x36, 0x35, 0x35, 0x33, 0x35, 0x20, 0x66, 0x20, 0x0A] + xref_lines_of(list, lin)
        + seq![0x74u8, 0x72, 0x61, 0x69, 0x6C, 0x65, 0x72, 0x0A]
        + object_syntax(ObjView::Dictionary(insert_sorted(trailer, "Size"@, ObjView::Integer((lin + 1) as i64))))
        + seq![0x0Au8, 0x73, 0x74, 0x61, 0x72, 0x74, 0x78, 0x72, 0x65, 0x66, 0x0A] + ascii_num(x)
        + seq![0x0Au8, 0x25, 0x25, 0x45, 0x4F, 0x46, 0x0A]
}

/// The linearized file before the linearization dictionary is filled in,
/// with the end of the first page's objects and the offset of the
/// cross-reference table.
pub open spec fn linearized_draft(d: DocView) -> (Seq<u8>, nat, nat) {
    let head = header_bytes(d.version);
    let (fs, rs) = split_by(sort_by_id(d.objects), first_page_ids(d));
    let lin = max_num(d.objects) + 1;
    let placeholder = lin_placeholder(lin, first_number(fs), page_count_or_zero(d));
    let p0 = head.len() + placeholder.len();
    let e = p0 + body_bytes(fs).len();
    let x = e + body_bytes(rs).len();
    let list = seq![(lin, head.len())] + block_offsets(p0, fs) + block_offsets(e, rs);
    let bytes = head + placeholder + body_bytes(fs) + body_bytes(rs) + xref_and_trailer(d.trailer, list, lin, x);
    (bytes, e, x)
}

/// The bytes of a document written linearized: the header, a
/// linearization dictionary (object one above the largest), the first
/// page's objects, the other objects, the cross-reference table and the
/// trailer. The dictionary is first written with zeros and reserved
/// spaces, then overwritten with the file length (`/L`), the end of the
/// first page's objects (`/E`) and the cross-reference offset (`/T`),
/// padded with spaces to its first length.
pub open spec fn linearized_layout(d: DocView) -> Seq<u8> {
    let (draft, e, x) = linearized_draft(d);
    let h = header_bytes(d.version).len();
    let (fs, rs) = split_by(sort_by_id(d.objects), first_page_ids(d));
    let lin = max_num(d.objects) + 1;
    let placeholder = lin_placeholder(lin, first_number(fs), page_count_or_zero(d));
    let hints = lin_dict_bytes(lin, draft.len(), first_number(fs), e, page_count_or_zero(d), x);
    draft.take(h as int) + hints + Seq::new((placeholder.len() - hints.len()) as nat, |i: int| 0x20u8)
        + draft.skip((h + placeholder.len()) as int)
}

/// Appends the UTF-8 bytes of a text.
fn push_text(buf: &mut Vec<u8>, t: &str)
    ensures
        final(buf)@ == old(buf)@ + encode_utf8(t@),
{
    push_bytes(buf, t.as_bytes());
}

/// The linearization dictionary's bytes.
fn lin_dict(lin: u64, l: u64, o: u64, e: u64, n: u64, t: u64) -> (v: Vec<u8>)
    ensures
        v@ == lin_dict_bytes(lin as nat, l as nat, o as nat, e as nat, n as nat, t as nat),
{
    let mut v: Vec<u8> = Vec::new();
    push_ascii_num(&mut v, lin);
    push_text(&mut v, " 0 obj\n<< /Linearized 1 /L ");
    push_ascii_num(&mut v, l);
    push_text(&mut v, " /O ");
    push_ascii_num(&mut v, o);
    push_text(&mut v, " /E ");
    push_ascii_num(&mut v, e);
    push_text(&mut v, " /N ");
    push_ascii_num(&mut v, n);
    push_text(&mut v, " /T ");
    push_ascii_num(&mut v, t);
    push_text(&mut v, " /H [ 0 0 ] >>\nendobj\n");
    assert(v@ =~= lin_dict_bytes(lin as nat, l as nat, o as nat, e as nat, n as nat, t as nat));
    v
}


/// Writes `patched` over `placeholder` at `h` when it is no longer,
/// padding with spaces.
fn fill_in(buf: &mut Vec<u8>, h: usize, placeholder: &Vec<u8>, patched: &Vec<u8>)
    requires
        h + placeholder@.len() <= old(buf)@.len(),
    ensures
        patched@.len() <= placeholder@.len() ==> final(buf)@ == old(buf)@.take(h as int) + patched@ + Seq::new(
            (placeholder@.len() - patched@.len()) as nat,
            |i: int| 0x20u8,
        ) + old(buf)@.skip(h + placeholder@.len()),
        patched@.len() > placeholder@.len() ==> final(buf)@ == old(buf)@,
{
    let ghost draft = buf@;
    if patched.len() <= placeholder.len() {
        let mut j: usize = 0;
        while j < patched.len()
            invariant
                j <= patched@.len(),
                patched@.len() <= placeholder@.len(),
                h + placeholder@.len() <= draft.len(),
                buf@.len() == draft.len(),
                buf.len() == draft.len(),
                forall|q: int| 0 <= q < draft.len() ==> #[trigger] buf@[q] == (if h <= q < h + j {
                    patched@[q - h]
                } else {
                    draft[q]
                }),
            decreases patched@.len() - j,
        {
            buf.set(h + j, patched[j]);
            j = j + 1;
        }
        while j < placeholder.len()
            invariant
                patched@.len() <= j <= placeholder@.len(),
                h + placeholder@.len() <= draft.len(),
                buf@.len() == draft.len(),
                buf.len() == draft.len(),
                forall|q: int| 0 <= q < draft.len() ==> #[trigger] buf@[q] == (if h <= q < h + patched@.len() {
                    patched@[q - h]
                } else if h + patched@.len() <= q < h + j {
                    0x20u8
                } else {
                    draft[q]
                }),
            decreases placeholder@.len() - j,
        {
            buf.set(h + j, 0x20);
            j = j + 1;
        }
        proof {
            let want = draft.take(h as int) + patched@ + Seq::new((placeholder@.len() - patched@.len()) as nat, |i: int| 0x20u8)
                + draft.skip(h + placeholder@.len());
            assert(buf@ =~= want);
        }
    }
}

impl Document {
    /// Writes the cross-reference table from the recorded offsets and the
    /// trailer.
    fn write_xref_and_trailer(&self, buf: &mut Vec<u8>, table: &Vec<Option<usize>>, lin: u32, x: usize, Ghost(list): Ghost<Seq<(nat, nat)>>)
        requires
            lin < u32::MAX,
            table@.len() == lin + 1,
            forall|q: int| 0 <= q < table@.len() ==> opt_offset(#[trigger] table@[q]) == last_offset(list, q as nat),
        ensures
            final(buf)@ == old(buf)@ + xref_and_trailer(self@.trailer, list, lin as nat, x as nat),
    {
        let ghost start = buf@;
        push_bytes(buf, &[0x78u8, 0x72, 0x65, 0x66, 0x0A, 0x30, 0x20]);
        push_ascii_num(buf, lin as u64 + 1);
        buf.push(0x0A);
        push_padded10(buf, 0);
        push_bytes(buf, &[0x20u8, 0x36, 0x35, 0x35, 0x33, 0x35, 0x20, 0x66, 0x20, 0x0A]);
        let ghost xstart = buf@;
        let mut k: u32 = 1;
        while k <= lin
            invariant
                1 <= k <= lin + 1,
                lin < u32::MAX,
                table@.len() == lin + 1,
                forall|q: int| 0 <= q < table@.len() ==> opt_offset(#[trigger] table@[q]) == last_offset(list, q as nat),
                buf@ == xstart + xref_lines_of(list, (k - 1) as nat),
            decreases lin + 1 - k,
        {
            match table[k as usize] {
                Some(off) => {
                    push_padded10(buf, off as u64);
                    push_bytes(buf, &[0x20u8, 0x30, 0x30, 0x30, 0x30, 0x30, 0x20, 0x6E, 0x20, 0x0A]);
                },
                None => {
                    push_padded10(buf, 0);
                    push_bytes(buf, &[0x20u8, 0x30, 0x30, 0x30, 0x30, 0x30, 0x20, 0x66, 0x20, 0x0A]);
                },
            }
            proof {
                assert(opt_offset(table@[k as int]) == last_offset(list, k as nat));
                assert(buf@ =~= xstart + xref_lines_of(list, k as nat));
            }
            k = k + 1;
        }
        let mut trailer = crate::objects::object::copy_dict(&self.trailer);
        trailer.insert(PdfName::new("Size"), Object::Integer(lin as i64 + 1));
        push_bytes(buf, &[0x74u8, 0x72, 0x61, 0x69, 0x6C, 0x65, 0x72, 0x0A]);
        Object::Dictionary(trailer).write_pdf(buf);
        push_bytes(buf, &[0x0Au8, 0x73, 0x74, 0x61, 0x72, 0x74, 0x78, 0x72, 0x65, 0x66, 0x0A]);
        push_ascii_num(buf, x as u64);
        push_bytes(buf, &[0x0Au8, 0x25, 0x25, 0x45, 0x4F, 0x46, 0x0A]);
        proof {
            assert(buf@ =~= start + xref_and_trailer(self@.trailer, list, lin as nat, x as nat));
        }
    }

    /// Writes the objects at the given places one after the other,
    /// recording where each begins under its number.
    fn write_blocks(&self, order: &Vec<usize>, buf: &mut Vec<u8>, table: &mut Vec<Option<usize>>, Ghost(list): Ghost<Seq<(nat, nat)>>)
        requires
            forall|j: int| 0 <= j < order@.len() ==> (#[trigger] order@[j]) < self@.objects.len(),
            forall|j: int| 0 <= j < self@.objects.len() ==> (#[trigger] self@.objects[j]).0.0 < old(table)@.len(),
            forall|n: int| 0 <= n < old(table)@.len() ==> opt_offset(#[trigger] old(table)@[n]) == last_offset(list, n as nat),
        ensures
            final(buf)@ == old(buf)@ + body_bytes(pick(self@.objects, order@)),
            final(table)@.len() == old(table)@.len(),
            forall|n: int| 0 <= n < final(table)@.len() ==> opt_offset(#[trigger] final(table)@[n]) == last_offset(
                list + block_offsets(old(buf)@.len(), pick(self@.objects, order@)),
                n as nat,
            ),
    {
        let ghost ev = self@.objects;
        let ghost s = pick(ev, order@);
        let ghost start = buf@;
        let ghost t0 = table@;
        let mut i: usize = 0;
        while i < order.len()
            invariant
                i <= order@.len(),
                ev == self@.objects,
                s == pick(ev, order@),
                forall|j: int| 0 <= j < order@.len() ==> (#[trigger] order@[j]) < ev.len(),
                forall|j: int| 0 <= j < ev.len() ==> (#[trigger] ev[j]).0.0 < table@.len(),
                ev.len() == self.objects@.len(),
                table@.len() == t0.len(),
                buf@ == start + body_bytes(s.take(i as int)),
                forall|n: int| 0 <= n < table@.len() ==> opt_offset(#[trigger] table@[n]) == last_offset(
                    list + block_offsets(start.len(), s.take(i as int)),
                    n as nat,
                ),
            decreases order@.len() - i,
        {
            let o = order[i];
            let e = &self.objects[o];
            assert(s[i as int] == ev[o as int]);
            assert(ev[o as int] == ((e.0, e.1), e.2@));
            let ghost old_table = table@;
            table.set(e.0 as usize, Some(buf.len()));
            push_ascii_num(buf, e.0 as u64);
            buf.push(0x20);
            push_ascii_num(buf, e.1 as u64);
            push_bytes(buf, &[0x20u8, 0x6F, 0x62, 0x6A, 0x0A]);
            e.2.write_pdf(buf);
            push_bytes(buf, &[0x0Au8, 0x65, 0x6E, 0x64, 0x6F, 0x62, 0x6A, 0x0A]);
            proof {
                let tk = s.take(i + 1);
                assert(tk.drop_last() =~= s.take(i as int));
                assert(tk.last() == s[i as int]);
                assert(buf@ =~= start + body_bytes(tk));
                let l1 = list + block_offsets(start.len(), s.take(i as int));
                let l2 = list + block_offsets(start.len(), tk);
                assert(l2.drop_last() =~= l1);
                assert forall|n: int| 0 <= n < table@.len() implies opt_offset(#[trigger] table@[n]) == last_offset(l2, n as nat) by {
                    if n != e.0 as int {
                        assert(table@[n] == old_table[n]);
                    }
                }
            }
            i = i + 1;
        }
        proof {
            assert(s.take(order@.len() as int) =~= s);
        }
    }

    /// The document in linearized ("Fast Web View") form: the objects of
    /// the first page and what they reach come first, after a
    /// linearization dictionary; see `linearized_layout`.
    #[verifier::rlimit(60)]
    pub fn to_linearized_bytes(&self) -> (r: PdfResult<Vec<u8>>)
        requires
            max_num(self@.objects) + 1 < u32::MAX,
        ensures
            r matches Ok(b) && b@ == linearized_layout(self@),
    {
        let ghost ev = self@.objects;
        proof {
            lemma_max_num(ev);
        }
        let mut buf: Vec<u8> = Vec::new();
        push_bytes(&mut buf, &[0x25u8, 0x50, 0x44, 0x46, 0x2D]);
        push_ascii_num(&mut buf, self.version.major as u64);
        buf.push(0x2E);
        push_ascii_num(&mut buf, self.version.minor as u64);
        buf.push(0x0A);
        push_bytes(&mut buf, &[0x25u8, 0xE2, 0xE3, 0xCF, 0xD3, 0x0A]);
        let ghost head = buf@;
        assert(head =~= header_bytes(self@.version));
        let h = buf.len();
        let order = self.sorted_order();
        let ghost s = sort_by_id(ev);
        let first_ids = self.collect_first_page_object_ids();
        let ghost f = first_page_ids(self@);
        let mut first: Vec<usize> = Vec::new();
        let mut rest: Vec<usize> = Vec::new();
        let mut i: usize = 0;
        while i < order.len()
            invariant
                i <= order@.len(),
                ev == self@.objects,
                s == sort_by_id(ev),
                pick(ev, order@) == s,
                forall|j: int| 0 <= j < order@.len() ==> (#[trigger] order@[j]) < ev.len(),
                forall|j: int| 0 <= j < first@.len() ==> (#[trigger] first@[j]) < ev.len(),
                forall|j: int| 0 <= j < rest@.len() ==> (#[trigger] rest@[j]) < ev.len(),
                ev.len() == self.objects@.len(),
                ids_set(first_ids@) == f,
                (pick(ev, first@), pick(ev, rest@)) == split_by(s.take(i as int), f),
            decreases order@.len() - i,
        {
            let o = order[i];
            let id: ObjectId = (self.objects[o].0, self.objects[o].1);
            assert(s[i as int] == ev[o as int]);
            assert(ev[o as int].0 == id);
            let inside = holds_id(&first_ids, id);
            assert(inside == f.contains(id));
            proof {
                assert(s.take(i + 1).drop_last() =~= s.take(i as int));
                assert(s.take(i + 1).last() == s[i as int]);
            }
            let ghost fb = pick(ev, first@);
            let ghost rb = pick(ev, rest@);
            if inside {
                first.push(o);
                assert(pick(ev, first@) =~= fb.push(ev[o as int]));
                assert(pick(ev, rest@) =~= rb);
            } else {
                rest.push(o);
                assert(pick(ev, rest@) =~= rb.push(ev[o as int]));
                assert(pick(ev, first@) =~= fb);
            }
            i = i + 1;
        }
        proof {
            assert(s.take(order@.len() as int) =~= s);
        }
        let ghost fs = pick(ev, first@);
        let ghost rs = pick(ev, rest@);
        let m = self.max_object_number();
        let lin: u32 = m + 1;
        let fnum: u64 = if first.len() > 0 {
            self.objects[first[0]].0 as u64
        } else {
            0
        };
        proof {
            if first@.len() > 0 {
                assert(fs[0] == ev[first@[0] as int]);
            }
            assert(fnum as nat == first_number(fs));
        }
        let n: u64 = match self.page_count() {
            Ok(c) => c as u64,
            Err(_) => 0,
        };
        assert(n as nat == page_count_or_zero(self@));
        let mut placeholder = lin_dict(lin as u64, 0, fnum, 0, n, 0);
        let mut sp: usize = 0;
        while sp < 60
            invariant
                sp <= 60,
                placeholder@ == lin_dict_bytes(lin as nat, 0, fnum as nat, 0, n as nat, 0) + Seq::new(sp as nat, |i: int| 0x20u8),
            decreases 60 - sp,
        {
            placeholder.push(0x20);
            sp = sp + 1;
            assert(placeholder@ =~= lin_dict_bytes(lin as nat, 0, fnum as nat, 0, n as nat, 0) + Seq::new(sp as nat, |i: int| 0x20u8));
        }
        assert(placeholder@ == lin_placeholder(lin as nat, fnum as nat, n as nat));
        push_bytes(&mut buf, placeholder.as_slice());
        let mut table: Vec<Option<usize>> = Vec::new();
        let mut t: u32 = 0;
        while t <= lin
            invariant
                t <= lin + 1,
                lin < u32::MAX,
                table@.len() == t,
                forall|q: int| 0 <= q < t ==> (#[trigger] table@[q]) is None,
            decreases lin + 1 - t,
        {
            table.push(None);
            t = t + 1;
        }
        let ghost pre = table@;
        table.set(lin as usize, Some(h));
        let ghost list0: Seq<(nat, nat)> = seq![(lin as nat, h as nat)];
        proof {
            assert(list0.drop_last() =~= Seq::<(nat, nat)>::empty());
            assert forall|q: int| 0 <= q < table@.len() implies opt_offset(#[trigger] table@[q]) == last_offset(list0, q as nat) by {
                if q != lin as int {
                    assert(table@[q] == pre[q]);
                    assert(last_offset(list0.drop_last(), q as nat) is None);
                }
            }
            assert forall|j: int| 0 <= j < ev.len() implies (#[trigger] ev[j]).0.0 < table@.len() by {}
        }
        let p0 = buf.len();
        self.write_blocks(&first, &mut buf, &mut table, Ghost(list0));
        let ghost list1 = list0 + block_offsets(p0 as nat, fs);
        let e = buf.len();
        self.write_blocks(&rest, &mut buf, &mut table, Ghost(list1));
        let ghost list2 = list1 + block_offsets(e as nat, rs);
        let x = buf.len();
        let ghost before_tail = buf@;
        self.write_xref_and_trailer(&mut buf, &table, lin, x, Ghost(list2));
        let ghost draft = buf@;
        proof {
            assert(draft =~= linearized_draft(self@).0);
            assert(e as nat == linearized_draft(self@).1);
            assert(x as nat == linearized_draft(self@).2);
        }
        let file_length = buf.len();
        let patched = lin_dict(lin as u64, file_length as u64, fnum, e as u64, n, x as u64);
        assert(h + placeholder@.len() <= draft.len());
        proof {
            lemma_u64_digits(file_length as u64);
            lemma_u64_digits(e as u64);
            lemma_u64_digits(x as u64);
            assert(ascii_num(0) =~= seq![0x30u8]);
            assert(patched@.len() <= placeholder@.len());
        }
        fill_in(&mut buf, h, &placeholder, &patched);
        Ok(buf)

    }
}

// ---------------------------------------------------------------------------
// Editing pages
// ---------------------------------------------------------------------------

/// The page tree root's dictionary, when the catalog names one that is a
/// dictionary.
pub open spec fn pages_root_of(d: DocView) -> Option<Seq<(Seq<char>, ObjView)>> {
    match pages_id_of(d) {
        Ok(pid) => match obj_lookup(d.objects, pid) {
            Some(ObjView::Dictionary(p)) => Some(p),
            _ => None,
        },
        Err(_) => None,
    }
}

/// The page tree root with the kid at `index` removed and `/Count`
/// lowered by one (when it is an integer).
pub open spec fn without_kid(p: Seq<(Seq<char>, ObjView)>, index: int) -> Seq<(Seq<char>, ObjView)> {
    let kids = match lookup(p, "Kids"@) {
        Some(ObjView::Array(k)) => k,
        _ => Seq::empty(),
    };
    let p1 = insert_sorted(p, "Kids"@, ObjView::Array(kids.remove(index)));
    match lookup(p1, "Count"@) {
        Some(ObjView::Integer(c)) => insert_sorted(p1, "Count"@, ObjView::Integer((c - 1) as i64)),
        _ => p1,
    }
}

/// Where removing page `index` fails, the message; `None` when it
/// succeeds.
pub open spec fn remove_page_error(d: DocView, index: nat) -> Option<Seq<char>> {
    match pages_id_of(d) {
        Err(m) => Some(m),
        Ok(pid) => match obj_lookup(d.objects, pid) {
            Some(ObjView::Dictionary(p)) => match lookup(p, "Kids"@) {
                Some(ObjView::Array(kids)) => if index >= kids.len() {
                    Some(page_range_message(index, kids.len()))
                } else {
                    None
                },
                _ => Some("Invalid PDF structure: "@ + "No /Kids in /Pages"@),
            },
            _ => Some("Invalid PDF structure: "@ + "Cannot get /Pages dict"@),
        },
    }
}

/// Whether a rotation is a whole number of quarter turns.
pub open spec fn quarter_turns(degrees: i32) -> bool {
    (if degrees < 0 { -degrees } else { degrees as int }) % 90 == 0
}

impl Document {
    /// Removes the page at `index` from the kids of the page tree root,
    /// and lowers its `/Count` by one.
    pub fn remove_page(&mut self, index: usize) -> (r: PdfResult<()>)
        requires
            old(self).wf(),
            !(pages_root_of(old(self)@) matches Some(p) && lookup(p, "Count"@) == Some(ObjView::Integer(i64::MIN))),
        ensures
            final(self).wf(),
            final(self)@.version == old(self)@.version,
            final(self)@.trailer == old(self)@.trailer,
            match remove_page_error(old(self)@, index as nat) {
                Some(m) => r matches Err(e) && message_text(e) == m && final(self)@ == old(self)@,
                None => r is Ok && final(self)@.objects == update_dict(
                    old(self)@.objects,
                    pages_id_of(old(self)@)->Ok_0,
                    |p: Seq<(Seq<char>, ObjView)>| without_kid(p, index as int),
                ),
            },
    {
        let pid = self.pages_id()?;
        let ghost ev = self@.objects;
        proof {
            lemma_id_index(ev, pid);
        }
        let kids_len = match self.get_object(pid) {
            Some(Object::Dictionary(pages)) => match pages.get("Kids") {
                Some(Object::Array(a)) => {
                    proof {
                        lemma_objects_view(a@);
                    }
                    a.len()
                },
                _ => return Err(structure_error("No /Kids in /Pages")),
            },
            _ => return Err(structure_error("Cannot get /Pages dict")),
        };
        if index >= kids_len {
            let mut v: Vec<char> = Vec::new();
            append_str(&mut v, "Page index ");
            push_decimal(&mut v, index as u64);
            append_str(&mut v, " out of range (total: ");
            push_decimal(&mut v, kids_len as u64);
            append_str(&mut v, ")");
            let e = PdfError::InvalidPage(string_from_chars(v.as_slice()));
            proof {
                match obj_lookup(ev, pid) {
                    Some(ObjView::Dictionary(pg)) => {
                        match lookup(pg, "Kids"@) {
                            Some(ObjView::Array(k)) => {
                                assert(message_text(e) =~= page_range_message(index as nat, k.len()));
                            },
                            _ => {},
                        }
                    },
                    _ => {},
                }
            }
            return Err(e);
        }
        match self.get_object_mut(pid) {
            Some(Object::Dictionary(pages)) => {
                let ghost p0 = pages@;
                // Reading the entries tells the proof they are in key order.
                let _in_order = pages.entries();
                match pages.get("Kids") {
                    Some(Object::Array(a)) => {
                        let mut kids = copy_objects(a);
                        proof {
                            lemma_objects_view(kids@);
                            lemma_objects_view(a@);
                        }
                        let ghost kv = objects_view(kids@);
                        let ghost kb = kids@;
                        kids.remove(index);
                        proof {
                            lemma_objects_view(kids@);
                            assert(objects_view(kids@) =~= kv.remove(index as int)) by {
                                assert forall|j: int| 0 <= j < kids@.len() implies objects_view(kids@)[j] == kv.remove(index as int)[j] by {
                                    if j < index {
                                        assert(kids@[j] == kb[j]);
                                    } else {
                                        assert(kids@[j] == kb[j + 1]);
                                    }
                                }
                            }
                        }
                        pages.insert(PdfName::new("Kids"), Object::Array(kids));
                        let count = match pages.get("Count") {
                            Some(Object::Integer(c)) => Some(*c),
                            _ => None,
                        };
                        match count {
                            Some(c) => {
                                proof {
                                    crate::objects::object::lemma_insert_sorted_lookup(p0, "Kids"@, ObjView::Array(kv.remove(index as int)), "Count"@);
                                    assert(obj_lookup(ev, pid) == Some(ObjView::Dictionary(p0)));
                                }
                                pages.insert(PdfName::new("Count"), Object::Integer(c - 1));
                            },
                            None => {},
                        }
                        assert(pages@ == without_kid(p0, index as int));
                    },
                    _ => {},
                }
            },
            _ => {},
        }
        proof {
            lemma_update_keeps_ids(ev, id_index(ev, pid), pid);
        }
        Ok(())
    }
}

impl Document {
    /// Sets the rotation of the page at `page_index` to `degrees`, which
    /// must be a multiple of 90.
    pub fn rotate_page(&mut self, page_index: usize, degrees: i32) -> (r: PdfResult<()>)
        requires
            old(self).wf(),
        ensures
            final(self).wf(),
            final(self)@.version == old(self)@.version,
            final(self)@.trailer == old(self)@.trailer,
            if !quarter_turns(degrees) {
                r matches Err(e) && message_text(e) == "Invalid page: "@ + "Rotation must be a multiple of 90"@
                    && final(self)@ == old(self)@
            } else {
                match page_id_of(old(self)@, page_index as nat) {
                    Err(m) => r matches Err(e) && message_text(e) == m && final(self)@ == old(self)@,
                    Ok(pr) => if is_dict_at(old(self)@.objects, pr) {
                        r is Ok && final(self)@.objects == update_dict(
                            old(self)@.objects,
                            pr,
                            |p: Seq<(Seq<char>, ObjView)>| insert_sorted(p, "Rotate"@, ObjView::Integer(degrees as i64)),
                        )
                    } else {
                        r matches Err(e) && message_text(e) == "Invalid PDF structure: "@ + "Cannot get page dict"@
                            && final(self)@ == old(self)@
                    },
                }
            },
    {
        let turns: i64 = if degrees < 0 { -(degrees as i64) } else { degrees as i64 };
        if turns % 90 != 0 {
            let mut v: Vec<char> = Vec::new();
            append_str(&mut v, "Rotation must be a multiple of 90");
            assert(Seq::<char>::empty() + "Rotation must be a multiple of 90"@ =~= "Rotation must be a multiple of 90"@);
            return Err(PdfError::InvalidPage(string_from_chars(v.as_slice())));
        }
        let page_ref = self.page_object_id(page_index)?;
        let ghost ev = self@.objects;
        proof {
            lemma_id_index(ev, page_ref);
        }
        match self.get_object(page_ref) {
            Some(Object::Dictionary(_)) => {},
            _ => return Err(structure_error("Cannot get page dict")),
        }
        match self.get_object_mut(page_ref) {
            Some(Object::Dictionary(page)) => {
                page.insert(PdfName::new("Rotate"), Object::Integer(degrees as i64));
            },
            _ => {},
        }
        proof {
            lemma_update_keeps_ids(ev, id_index(ev, page_ref), page_ref);
        }
        Ok(())
    }
}

/// The kids in a new order: place `j` gets the kid at `order[j]`.
pub open spec fn permuted(kids: Seq<ObjView>, order: Seq<usize>) -> Seq<ObjView> {
    Seq::new(order.len(), |j: int| kids[order[j] as int])
}

/// Whether `order` names each of the places `0..len` exactly once.
pub open spec fn is_page_permutation(order: Seq<usize>, len: nat) -> bool {
    &&& order.len() == len
    &&& forall|j: int| 0 <= j < order.len() ==> #[trigger] order[j] < len
    &&& forall|i: int, j: int| 0 <= i < j < order.len() ==> #[trigger] order[i] != #[trigger] order[j]
}

/// Whether entry `j` of `order` names no page, or a page named before it.
pub open spec fn offends(order: Seq<usize>, len: nat, j: int) -> bool {
    order[j] >= len || exists|i: int| 0 <= i < j && order[i] == order[j]
}

/// The first entry of `order` that names no page or a page named before
/// it, or the length of `order`.
pub open spec fn first_offense(order: Seq<usize>, len: nat) -> int
    decreases order.len(),
{
    if order.len() == 0 {
        0
    } else {
        let b = first_offense(order.drop_last(), len);
        if b < order.len() - 1 {
            b
        } else if offends(order, len, order.len() - 1) {
            order.len() - 1
        } else {
            order.len() as int
        }
    }
}

proof fn lemma_first_offense(order: Seq<usize>, len: nat)
    ensures
        0 <= first_offense(order, len) <= order.len(),
        forall|j: int| 0 <= j < first_offense(order, len) ==> !#[trigger] offends(order, len, j),
        first_offense(order, len) < order.len() ==> offends(order, len, first_offense(order, len)),
    decreases order.len(),
{
    if order.len() > 0 {
        let t = order.drop_last();
        lemma_first_offense(t, len);
        assert forall|j: int| 0 <= j < t.len() implies #[trigger] offends(order, len, j) == offends(t, len, j) by {
            assert(order[j] == t[j]);
            if offends(order, len, j) && order[j] < len {
                let i = choose|i: int| 0 <= i < j && order[i] == order[j];
                assert(t[i] == t[j]);
            }
            if offends(t, len, j) && t[j] < len {
                let i = choose|i: int| 0 <= i < j && t[i] == t[j];
                assert(order[i] == order[j]);
            }
        }
    }
}

/// The permutation check: the first offending entry is past the end
/// exactly when `order` is a permutation of the page places.
proof fn lemma_offense_permutation(order: Seq<usize>, len: nat)
    requires
        order.len() == len,
    ensures
        (first_offense(order, len) == order.len()) == is_page_permutation(order, len),
{
    lemma_first_offense(order, len);
    let b = first_offense(order, len);
    if b == order.len() {
        assert forall|j: int| 0 <= j < order.len() implies #[trigger] order[j] < len by {
            assert(!offends(order, len, j));
        }
        assert forall|i: int, j: int| 0 <= i < j < order.len() implies #[trigger] order[i] != #[trigger] order[j] by {
            assert(!offends(order, len, j));
        }
    } else {
        assert(offends(order, len, b));
        if order[b] < len {
            let i = choose|i: int| 0 <= i < b && order[i] == order[b];
            assert(order[i] == order[b]);
        }
    }
}

/// The error for the first entry of `order` that names no page place
/// below `len` or a place named before it; `None` when there is none.
fn permutation_error(order: &[usize], len: usize) -> (r: Option<PdfError>)
    ensures
        r is None <==> first_offense(order@, len as nat) == order@.len(),
        r matches Some(e) ==> ({
            let b = first_offense(order@, len as nat);
            message_text(e) == "Invalid page: "@ + if order@[b] >= len {
                "Invalid page index "@ + decimal(order@[b] as nat) + " in order"@
            } else {
                "Page index "@ + decimal(order@[b] as nat) + " repeated in order"@
            }
        }),
{
    proof {
        lemma_first_offense(order@, len as nat);
    }
    let ghost fo = first_offense(order@, len as nat);
    let mut seen: Vec<bool> = Vec::new();
    let mut t: usize = 0;
    while t < len
        invariant
            t <= len,
            seen@.len() == t,
            forall|q: int| 0 <= q < t ==> !#[trigger] seen@[q],
        decreases len - t,
    {
        seen.push(false);
        t = t + 1;
    }
    let mut j: usize = 0;
    while j < order.len()
        invariant
            j <= order@.len(),
            seen@.len() == len,
            fo == first_offense(order@, len as nat),
            0 <= fo <= order@.len(),
            forall|q: int| 0 <= q < fo ==> !#[trigger] offends(order@, len as nat, q),
            fo < order@.len() ==> offends(order@, len as nat, fo),
            j <= fo,
            forall|v: int| 0 <= v < len ==> (#[trigger] seen@[v] <==> exists|i: int| 0 <= i < j && order@[i] == v),
        decreases order@.len() - j,
    {
        let src = order[j];
        if src >= len {
            proof {
                assert(offends(order@, len as nat, j as int));
            }
            let mut v: Vec<char> = Vec::new();
            append_str(&mut v, "Invalid page index ");
            push_decimal(&mut v, src as u64);
            append_str(&mut v, " in order");
            let e = PdfError::InvalidPage(string_from_chars(v.as_slice()));
            assert(message_text(e) =~= "Invalid page: "@ + ("Invalid page index "@ + decimal(order@[fo] as nat) + " in order"@));
            return Some(e);
        }
        if seen[src] {
            proof {
                let i = choose|i: int| 0 <= i < j && order@[i] == src;
                assert(offends(order@, len as nat, j as int));
            }
            let mut v: Vec<char> = Vec::new();
            append_str(&mut v, "Page index ");
            push_decimal(&mut v, src as u64);
            append_str(&mut v, " repeated in order");
            let e = PdfError::InvalidPage(string_from_chars(v.as_slice()));
            assert(message_text(e) =~= "Invalid page: "@ + ("Page index "@ + decimal(order@[fo] as nat) + " repeated in order"@));
            return Some(e);
        }
        proof {
            if offends(order@, len as nat, j as int) {
                let i = choose|i: int| 0 <= i < j && order@[i] == order@[j as int];
                assert(seen@[src as int]);
            }
        }
        let ghost before = seen@;
        seen.set(src, true);
        proof {
            assert forall|v: int| 0 <= v < len implies (#[trigger] seen@[v] <==> exists|i: int| 0 <= i < j + 1 && order@[i] == v) by {
                if v == src as int {
                    assert(order@[j as int] == v);
                } else {
                    assert(seen@[v] == before[v]);
                    if exists|i: int| 0 <= i < j + 1 && order@[i] == v {
                        let i = choose|i: int| 0 <= i < j + 1 && order@[i] == v;
                        assert(i < j);
                    }
                }
            }
        }
        j = j + 1;
    }
    None
}

impl Document {
    /// Puts the pages in a new order: place `i` gets the page that was at
    /// `order[i]`. `order` must name each page place exactly once; when it
    /// does not, the error names the first entry that fails (one past the
    /// pages, or one named before) and nothing changes.
    pub fn reorder_pages(&mut self, order: &[usize]) -> (r: PdfResult<()>)
        requires
            old(self).wf(),
        ensures
            final(self).wf(),
            final(self)@.version == old(self)@.version,
            final(self)@.trailer == old(self)@.trailer,
            r is Err ==> final(self)@ == old(self)@,
            match pages_id_of(old(self)@) {
                Err(m) => r matches Err(e) && message_text(e) == m,
                Ok(pid) => match obj_lookup(old(self)@.objects, pid) {
                    Some(ObjView::Dictionary(p)) => match lookup(p, "Kids"@) {
                        Some(ObjView::Array(kids)) => {
                            &&& (r is Ok) == is_page_permutation(order@, kids.len())
                            &&& r is Ok ==> final(self)@.objects == update_dict(
                                old(self)@.objects,
                                pid,
                                |q: Seq<(Seq<char>, ObjView)>| insert_sorted(q, "Kids"@, ObjView::Array(permuted(kids, order@))),
                            )
                            &&& order@.len() != kids.len() ==> (r matches Err(e) && message_text(e) == "Invalid page: "@ + (
                                "Order length ("@ + decimal(order@.len()) + ") doesn't match page count ("@ + decimal(kids.len())
                                + ")"@))
                            &&& (order@.len() == kids.len() && first_offense(order@, kids.len()) < order@.len()) ==> ({
                                let b = first_offense(order@, kids.len());
                                r matches Err(e) && message_text(e) == "Invalid page: "@ + if order@[b] >= kids.len() {
                                    "Invalid page index "@ + decimal(order@[b] as nat) + " in order"@
                                } else {
                                    "Page index "@ + decimal(order@[b] as nat) + " repeated in order"@
                                }
                            })
                        },
                        _ => r is Ok && final(self)@ == old(self)@,
                    },
                    _ => r matches Err(e) && message_text(e) == "Invalid PDF structure: "@ + "Cannot get /Pages dict"@,
                },
            },
    {
        let pid = self.pages_id()?;
        let ghost ev = self@.objects;
        proof {
            lemma_id_index(ev, pid);
        }
        let old_kids = match self.get_object(pid) {
            Some(Object::Dictionary(pages)) => match pages.get("Kids") {
                Some(Object::Array(a)) => copy_objects(a),
                _ => return Ok(()),
            },
            _ => return Err(structure_error("Cannot get /Pages dict")),
        };
        proof {
            lemma_objects_view(old_kids@);
        }
        let ghost kv = objects_view(old_kids@);
        let len = old_kids.len();
        if order.len() != len {
            let mut v: Vec<char> = Vec::new();
            append_str(&mut v, "Order length (");
            push_decimal(&mut v, order.len() as u64);
            append_str(&mut v, ") doesn't match page count (");
            push_decimal(&mut v, len as u64);
            append_str(&mut v, ")");
            let e = PdfError::InvalidPage(string_from_chars(v.as_slice()));
            assert(message_text(e) =~= "Invalid page: "@ + ("Order length ("@ + decimal(order@.len()) + ") doesn't match page count ("@
                + decimal(kv.len()) + ")"@));
            return Err(e);
        }
        proof {
            lemma_first_offense(order@, kv.len());
            lemma_offense_permutation(order@, kv.len());
        }
        let ghost fo = first_offense(order@, kv.len());
        match permutation_error(order, len) {
            Some(e) => return Err(e),
            None => {},
        }
        assert forall|q: int| 0 <= q < order@.len() implies #[trigger] order@[q] < len by {
            assert(!offends(order@, kv.len(), q));
        }
        let mut kids: Vec<Object> = Vec::new();
        let mut k: usize = 0;
        while k < order.len()
            invariant
                k <= order@.len(),
                order@.len() == len,
                len == kv.len(),
                kv == objects_view(old_kids@),
                kv.len() == old_kids@.len(),
                forall|q: int| 0 <= q < old_kids@.len() ==> #[trigger] kv[q] == old_kids@[q]@,
                forall|q: int| 0 <= q < order@.len() ==> #[trigger] order@[q] < len,
                kids@.len() == k,
                forall|q: int| 0 <= q < k ==> (#[trigger] kids@[q])@ == kv[order@[q] as int],
            decreases order@.len() - k,
        {
            kids.push(crate::objects::object::copy_object(&old_kids[order[k]]));
            k = k + 1;
        }
        proof {
            lemma_objects_view(kids@);
            assert(objects_view(kids@) =~= permuted(kv, order@));
        }
        match self.get_object_mut(pid) {
            Some(Object::Dictionary(pages)) => {
                pages.insert(PdfName::new("Kids"), Object::Array(kids));
            },
            _ => {},
        }
        proof {
            lemma_update_keeps_ids(ev, id_index(ev, pid), pid);
        }
        Ok(())
    }
}

// ---------------------------------------------------------------------------
// Inherited page attributes
// ---------------------------------------------------------------------------

/// The value of `key` in a page dictionary or, failing that, in its
/// ancestors along `/Parent`, looking at most `depth` parents up.
pub open spec fn inherited(d: DocView, page: Seq<(Seq<char>, ObjView)>, key: Seq<char>, depth: nat) -> Option<ObjView>
    decreases depth,
{
    match lookup(page, key) {
        Some(o) => Some(o),
        None => if depth == 0 {
            None
        } else {
            match lookup(page, "Parent"@) {
                Some(pr) => match resolve_view(d, pr) {
                    Some(ObjView::Dictionary(parent)) => inherited(d, parent, key, (depth - 1) as nat),
                    _ => None,
                },
                None => None,
            }
        },
    }
}

impl Document {
    /// Finds `key` in a page or its ancestors, `depth` parents up at most.
    fn find_inherited_inner<'a>(&'a self, page_dict: &'a Dictionary, key: &str, depth: usize) -> (r: Option<&'a Object>)
        ensures
            match r {
                Some(o) => inherited(self@, page_dict@, key@, depth as nat) == Some(o@),
                None => inherited(self@, page_dict@, key@, depth as nat) is None,
            },
        decreases depth,
    {
        if let Some(obj) = page_dict.get(key) {
            return Some(obj);
        }
        if depth == 0 {
            return None;
        }
        let parent_ref = page_dict.get("Parent")?;
        let parent_obj = self.resolve(parent_ref)?;
        match parent_obj {
            Object::Dictionary(parent) => self.find_inherited_inner(parent, key, depth - 1),
            _ => None,
        }
    }

    /// Finds an attribute a page inherits: from the page itself or its
    /// ancestors along `/Parent`, 32 parents up at most.
    pub fn find_inherited<'a>(&'a self, page_dict: &'a Dictionary, key: &str) -> (r: Option<&'a Object>)
        ensures
            match r {
                Some(o) => inherited(self@, page_dict@, key@, 32) == Some(o@),
                None => inherited(self@, page_dict@, key@, 32) is None,
            },
    {
        self.find_inherited_inner(page_dict, key, 32)
    }

    /// The resource dictionary of a page: its `/Resources`, or the nearest
    /// ancestor's, resolved.
    pub fn page_resources<'a>(&'a self, page_dict: &'a Dictionary) -> (r: Option<&'a Dictionary>)
        ensures
            match inherited(self@, page_dict@, "Resources"@, 32) {
                Some(o) => match resolve_view(self@, o) {
                    Some(ObjView::Dictionary(res)) => r matches Some(x) && x@ == res,
                    _ => r is None,
                },
                None => r is None,
            },
    {
        let res_obj = self.find_inherited(page_dict, "Resources")?;
        match self.resolve(res_obj)? {
            Object::Dictionary(d) => Some(d),
            _ => None,
        }
    }
}

// ---------------------------------------------------------------------------
// Merging documents
// ---------------------------------------------------------------------------

/// The ids of stored objects, in order.
pub open spec fn ids_of(es: ObjectsView) -> Seq<(u32, u16)> {
    es.map_values(|e: (ObjectId, ObjView)| e.0)
}

/// Another document's objects under new numbers from `base` on, in
/// stored order, their references renumbered the same way.
pub open spec fn merged_objects(oe: ObjectsView, base: nat) -> ObjectsView {
    Seq::new(oe.len(), |i: int| (((base + i) as u32, 0u16), renumbered_view(oe[i].1, ids_of(oe), base)))
}

/// The kids and the `/Count` of another document's page tree root (none
/// and 0 where they are missing), or the message of the error.
pub open spec fn other_pages_of(od: DocView) -> Result<(Seq<ObjView>, i64), Seq<char>> {
    match catalog_entries(od) {
        Err(m) => Err(m),
        Ok(c) => match lookup(c, "Pages"@) {
            None => Err("Invalid PDF structure: "@ + "No /Pages in other catalog"@),
            Some(pv) => match resolve_view(od, pv) {
                Some(ObjView::Dictionary(p)) => Ok((
                    match lookup(p, "Kids"@) {
                        Some(ObjView::Array(k)) => k,
                        _ => Seq::empty(),
                    },
                    match lookup(p, "Count"@) {
                        Some(ObjView::Integer(n)) => n,
                        _ => 0,
                    },
                )),
                _ => Err("Invalid PDF structure: "@ + "Cannot resolve other /Pages"@),
            },
        },
    }
}

/// The objects once each copied page that the kids name gets `/Parent`
/// pointing at `pid`.
pub open spec fn with_parents(es: ObjectsView, kids: Seq<ObjView>, ids: Seq<(u32, u16)>, base: nat, pid: ObjectId) -> ObjectsView
    decreases kids.len(),
{
    if kids.len() == 0 {
        es
    } else {
        let prev = with_parents(es, kids.drop_last(), ids, base, pid);
        match kids.last() {
            ObjView::Reference(n, g) => if id_place(ids, (n, g)) >= 0 {
                update_dict(
                    prev,
                    ((base + id_place(ids, (n, g))) as u32, 0u16),
                    |d: Seq<(Seq<char>, ObjView)>| insert_sorted(d, "Parent"@, ObjView::Reference(pid.0, pid.1)),
                )
            } else {
                prev
            },
            _ => prev,
        }
    }
}

/// A page tree root with the new kids appended to its `/Kids` (when it is
/// an array) and the other document's count added to its `/Count` (when
/// it is an integer).
pub open spec fn merged_root(p: Seq<(Seq<char>, ObjView)>, new_kids: Seq<ObjView>, other_count: i64) -> Seq<(Seq<char>, ObjView)> {
    let p1 = match lookup(p, "Kids"@) {
        Some(ObjView::Array(a)) => insert_sorted(p, "Kids"@, ObjView::Array(a + new_kids)),
        _ => p,
    };
    match lookup(p1, "Count"@) {
        Some(ObjView::Integer(c)) => insert_sorted(p1, "Count"@, ObjView::Integer((c + other_count) as i64)),
        _ => p1,
    }
}

/// The objects after the copies are added and the pages' parents set,
/// with the page tree root's id; or the objects and the message where it
/// fails.
pub open spec fn merge_parents(d: DocView, od: DocView) -> (ObjectsView, Result<(ObjectId, Seq<ObjView>, i64), Seq<char>>) {
    let base = max_num(d.objects) + 1;
    let ids = ids_of(od.objects);
    let es1 = d.objects + merged_objects(od.objects, base);
    let d1 = DocView { version: d.version, trailer: d.trailer, objects: es1 };
    match other_pages_of(od) {
        Err(m) => (es1, Err(m)),
        Ok((kids, oc)) => match pages_id_of(d1) {
            Err(m) => (es1, Err(m)),
            Ok(pid) => (with_parents(es1, kids, ids, base, pid), Ok((pid, kids, oc))),
        },
    }
}

/// The objects after merging another document, and the message where it
/// fails.
pub open spec fn merge_outcome(d: DocView, od: DocView) -> (ObjectsView, Option<Seq<char>>) {
    let base = max_num(d.objects) + 1;
    let (es2, r) = merge_parents(d, od);
    match r {
        Err(m) => (es2, Some(m)),
        Ok((pid, kids, oc)) => if is_dict_at(es2, pid) {
            (
                update_dict(
                    es2,
                    pid,
                    |p: Seq<(Seq<char>, ObjView)>| merged_root(p, renumbered_items(kids, ids_of(od.objects), base), oc),
                ),
                None,
            )
        } else {
            (es2, Some("Invalid PDF structure: "@ + "Cannot get /Pages dict"@))
        },
    }
}

/// Whether the page counts can be added in 64 bits when the merge gets
/// that far.
pub open spec fn merge_counts_fit(d: DocView, od: DocView) -> bool {
    let (es2, r) = merge_parents(d, od);
    match r {
        Ok((pid, kids, oc)) => match obj_lookup(es2, pid) {
            Some(ObjView::Dictionary(p)) => match lookup(p, "Count"@) {
                Some(ObjView::Integer(c)) => i64::MIN <= c + oc <= i64::MAX,
                _ => true,
            },
            _ => true,
        },
        Err(_) => true,
    }
}

impl Document {
    /// Adds copies of another document's objects under numbers from
    /// `base` on, their references renumbered.
    fn copy_in(&mut self, other: &Document, ids: &Vec<(u32, u16)>, base: u32)
        requires
            old(self).wf(),
            base as nat == max_num(old(self)@.objects) + 1,
            base + other@.objects.len() <= u32::MAX,
            ids@ == ids_of(other@.objects),
        ensures
            final(self).wf(),
            final(self)@.version == old(self)@.version,
            final(self)@.trailer == old(self)@.trailer,
            final(self)@.objects == old(self)@.objects + merged_objects(other@.objects, base as nat),
    {
        let ghost ev = self@.objects;
        let ghost oe = other@.objects;
        proof {
            lemma_max_num(ev);
        }
        let ghost added = merged_objects(oe, base as nat);
        let mut k: usize = 0;
        while k < other.objects.len()
            invariant
                k <= other.objects@.len(),
                oe == other@.objects,
                oe.len() == other.objects@.len(),
                ids@ == ids_of(oe),
                base as nat == max_num(ev) + 1,
                base + oe.len() <= u32::MAX,
                added == merged_objects(oe, base as nat),
                self@.objects == ev + added.take(k as int),
                self@.version == old(self)@.version,
                self@.trailer == old(self)@.trailer,
                ev == old(self)@.objects,
            decreases other.objects@.len() - k,
        {
            let o = crate::objects::object::renumber_object(&other.objects[k].2, ids.as_slice(), base);
            let kk: u32 = k as u32;
            let ghost before = self.objects@;
            self.objects.push((base + kk, 0, o));
            proof {
                assert(oe[k as int].1 == other.objects@[k as int].2@);
                assert(added[k as int] == (((base + k) as u32, 0u16), renumbered_view(oe[k as int].1, ids_of(oe), base as nat)));
                assert(added.take(k + 1) =~= added.take(k as int).push(added[k as int]));
                assert(entry_views(self.objects@) =~= entry_views(before).push(added[k as int]));
                assert(self@.objects =~= ev + added.take(k + 1));
            }
            k = k + 1;
        }
        proof {
            assert(added.take(oe.len() as int) =~= added);
            assert forall|a: int, b: int| 0 <= a < b < self@.objects.len() implies #[trigger] self@.objects[a].0
                != #[trigger] self@.objects[b].0 by {
                if b >= ev.len() && a < ev.len() {
                    assert(ev[a].0.0 <= max_num(ev));
                }
            }
        }
    }

    /// Points the `/Parent` of each copied page the kids name at `pid`.
    fn set_parents(&mut self, kids: &Vec<Object>, ids: &Vec<(u32, u16)>, base: u32, pid: ObjectId)
        requires
            old(self).wf(),
            base + ids@.len() <= u32::MAX,
        ensures
            final(self).wf(),
            final(self)@.version == old(self)@.version,
            final(self)@.trailer == old(self)@.trailer,
            final(self)@.objects == with_parents(old(self)@.objects, objects_view(kids@), ids@, base as nat, pid),
    {
        let ghost es1 = self@.objects;
        let ghost kv = objects_view(kids@);
        proof {
            lemma_objects_view(kids@);
        }
        let mut q: usize = 0;
        while q < kids.len()
            invariant
                q <= kids@.len(),
                kv == objects_view(kids@),
                kv.len() == kids@.len(),
                forall|j: int| 0 <= j < kids@.len() ==> #[trigger] kv[j] == kids@[j]@,
                base + ids@.len() <= u32::MAX,
                self.wf(),
                self@.version == old(self)@.version,
                self@.trailer == old(self)@.trailer,
                es1 == old(self)@.objects,
                self@.objects == with_parents(es1, kv.take(q as int), ids@, base as nat, pid),
            decreases kids@.len() - q,
        {
            proof {
                assert(kv.take(q + 1).drop_last() =~= kv.take(q as int));
                assert(kv.take(q + 1).last() == kv[q as int]);
            }
            let ghost before = self@.objects;
            match &kids[q] {
                Object::Reference(x) => {
                    match crate::objects::object::find_id_place(ids.as_slice(), (x.object_number, x.generation)) {
                        Some(p) => {
                            let pp: u32 = p as u32;
                            let new_id: ObjectId = (base + pp, 0);
                            proof {
                                lemma_id_index(before, new_id);
                            }
                            match self.get_object_mut(new_id) {
                                Some(Object::Dictionary(page)) => {
                                    page.insert(PdfName::new("Parent"), Object::Reference(IndirectRef::new(pid.0, pid.1)));
                                },
                                _ => {},
                            }
                            proof {
                                if id_index(before, new_id) >= 0 {
                                    lemma_update_keeps_ids(before, id_index(before, new_id), new_id);
                                }
                            }
                        },
                        None => {},
                    }
                },
                _ => {},
            }
            q = q + 1;
        }
        proof {
            assert(kv.take(kv.len() as int) =~= kv);
        }
    }

    /// Appends kids to the page tree root at `pid` (when its `/Kids` is an
    /// array) and adds `other_count` to its `/Count` (when an integer).
    fn grow_root(&mut self, pid: ObjectId, new_kids: Vec<Object>, other_count: i64)
        requires
            old(self).wf(),
            is_dict_at(old(self)@.objects, pid),
            match obj_lookup(old(self)@.objects, pid) {
                Some(ObjView::Dictionary(p)) => match lookup(p, "Count"@) {
                    Some(ObjView::Integer(c)) => i64::MIN <= c + other_count <= i64::MAX,
                    _ => true,
                },
                _ => true,
            },
        ensures
            final(self).wf(),
            final(self)@.version == old(self)@.version,
            final(self)@.trailer == old(self)@.trailer,
            final(self)@.objects == update_dict(
                old(self)@.objects,
                pid,
                |p: Seq<(Seq<char>, ObjView)>| merged_root(p, objects_view(new_kids@), other_count),
            ),
    {
        let ghost es2 = self@.objects;
        let ghost nv = objects_view(new_kids@);
        proof {
            lemma_id_index(es2, pid);
        }
        match self.get_object_mut(pid) {
            Some(Object::Dictionary(pages)) => {
                let ghost p0 = pages@;
                // Reading the entries tells the proof they are in key order.
                let _in_order = pages.entries();
                let cur = match pages.get("Kids") {
                    Some(Object::Array(a)) => Some(copy_objects(a)),
                    _ => None,
                };
                match cur {
                    Some(mut arr) => {
                        let ghost av = objects_view(arr@);
                        let mut nk = new_kids;
                        proof {
                            lemma_objects_view(arr@);
                            lemma_objects_view(nk@);
                        }
                        let ghost a0 = arr@;
                        let ghost n0 = nk@;
                        arr.append(&mut nk);
                        proof {
                            lemma_objects_view(arr@);
                            assert(objects_view(arr@) =~= av + nv) by {
                                assert forall|j: int| 0 <= j < arr@.len() implies objects_view(arr@)[j] == (av + nv)[j] by {
                                    if j < a0.len() {
                                        assert(arr@[j] == a0[j]);
                                    } else {
                                        assert(arr@[j] == n0[j - a0.len()]);
                                    }
                                }
                            }
                        }
                        pages.insert(PdfName::new("Kids"), Object::Array(arr));
                        proof {
                            crate::objects::object::lemma_insert_sorted_lookup(p0, "Kids"@, ObjView::Array(av + nv), "Count"@);
                        }
                    },
                    None => {},
                }
                let count = match pages.get("Count") {
                    Some(Object::Integer(c)) => Some(*c),
                    _ => None,
                };
                match count {
                    Some(c) => {
                        proof {
                            assert(obj_lookup(es2, pid) == Some(ObjView::Dictionary(p0)));
                        }
                        pages.insert(PdfName::new("Count"), Object::Integer(c + other_count));
                    },
                    None => {},
                }
                assert(pages@ == merged_root(p0, nv, other_count));
            },
            _ => {},
        }
        proof {
            lemma_update_keeps_ids(es2, id_index(es2, pid), pid);
        }
    }

    /// Merges all pages of another document into this one: its objects
    /// are copied under new numbers above the largest here (in stored
    /// order, references renumbered), its pages get this document's page
    /// tree root as `/Parent`, and are appended to `/Kids`, with `/Count`
    /// grown by theirs.
    pub fn merge(&mut self, other: &Document) -> (r: PdfResult<()>)
        requires
            old(self).wf(),
            other.wf(),
            max_num(old(self)@.objects) + 1 + other@.objects.len() <= u32::MAX,
            merge_counts_fit(old(self)@, other@),
        ensures
            final(self).wf(),
            final(self)@.version == old(self)@.version,
            final(self)@.trailer == old(self)@.trailer,
            final(self)@.objects == merge_outcome(old(self)@, other@).0,
            match merge_outcome(old(self)@, other@).1 {
                None => r is Ok,
                Some(m) => r matches Err(e) && message_text(e) == m,
            },
    {
        let ghost oe = other@.objects;
        let m = self.max_object_number();
        let base: u32 = m + 1;
        let mut ids: Vec<(u32, u16)> = Vec::new();
        let mut i: usize = 0;
        while i < other.objects.len()
            invariant
                i <= other.objects@.len(),
                oe == other@.objects,
                oe.len() == other.objects@.len(),
                ids@ == ids_of(oe).take(i as int),
            decreases other.objects@.len() - i,
        {
            proof {
                assert(oe[i as int].0 == (other.objects@[i as int].0, other.objects@[i as int].1));
            }
            ids.push((other.objects[i].0, other.objects[i].1));
            assert(ids@ =~= ids_of(oe).take(i + 1));
            i = i + 1;
        }
        assert(ids@ =~= ids_of(oe));
        self.copy_in(other, &ids, base);
        let other_catalog = other.catalog()?;
        let other_pages_ref = match other_catalog.get("Pages") {
            Some(o) => o,
            None => return Err(structure_error("No /Pages in other catalog")),
        };
        let other_pages = match other.resolve(other_pages_ref) {
            Some(Object::Dictionary(d)) => d,
            _ => return Err(structure_error("Cannot resolve other /Pages")),
        };
        let empty: Vec<Object> = Vec::new();
        let other_kids: &Vec<Object> = match other_pages.get("Kids") {
            Some(Object::Array(a)) => a,
            _ => &empty,
        };
        let other_count: i64 = match other_pages.get("Count") {
            Some(Object::Integer(n)) => *n,
            _ => 0,
        };
        proof {
            lemma_objects_view(empty@);
            assert(objects_view(empty@) =~= Seq::<ObjView>::empty());
        }
        assert(other_pages_of(other@) == Ok::<(Seq<ObjView>, i64), Seq<char>>((objects_view(other_kids@), other_count)));
        let pages_id = self.pages_id()?;
        self.set_parents(other_kids, &ids, base, pages_id);
        let new_kids = crate::objects::object::renumber_objects(other_kids, ids.as_slice(), base);
        match self.get_object(pages_id) {
            Some(Object::Dictionary(_)) => {},
            _ => return Err(structure_error("Cannot get /Pages dict")),
        }
        self.grow_root(pages_id, new_kids, other_count);
        Ok(())
    }
}

// ---------------------------------------------------------------------------
// The structure tree
// ---------------------------------------------------------------------------

/// What a reference stands for in a document; nothing for other objects.
pub open spec fn ref_target(d: DocView, ov: ObjView) -> Option<ObjView> {
    match ov {
        ObjView::Reference(n, g) => obj_lookup(d.objects, (n, g)),
        _ => None,
    }
}

/// How a document resolves references, as plain values.
pub open spec fn doc_resolver(d: DocView) -> crate::accessibility::structure_tree::ResolverView {
    |ov: ObjView| ref_target(d, ov)
}

/// The structure tree root of a document: what the catalog's
/// `/StructTreeRoot` stands for, when that is a dictionary.
pub open spec fn struct_root_of(d: DocView) -> Option<Seq<(Seq<char>, ObjView)>> {
    match catalog_entries(d) {
        Ok(c) => match lookup(c, "StructTreeRoot"@) {
            Some(o) => match resolve_view(d, o) {
                Some(ObjView::Dictionary(root)) => Some(root),
                _ => None,
            },
            None => None,
        },
        Err(_) => None,
    }
}

impl Document {
    /// The object a reference stands for; nothing for other objects.
    fn resolve_reference(&self, obj: &Object) -> (r: Option<&Object>)
        ensures
            crate::accessibility::structure_tree::opt_obj_view(r) == ref_target(self@, obj@),
    {
        match obj {
            Object::Reference(x) => self.get_object(x.id()),
            _ => None,
        }
    }

    /// The structure tree of a tagged document, read from the catalog's
    /// `/StructTreeRoot` with references resolved in this document; `None`
    /// when the document has none.
    pub fn structure_tree(&self) -> (r: Option<crate::accessibility::structure_tree::StructTree>)
        ensures
            match struct_root_of(self@) {
                Some(root) => r matches Some(t) && crate::accessibility::structure_tree::tree_matches(
                    t,
                    doc_resolver(self@),
                    root,
                ),
                None => r is None,
            },
    {
        let catalog = match self.catalog() {
            Ok(c) => c,
            Err(_) => return None,
        };
        let sref = match catalog.get("StructTreeRoot") {
            Some(o) => o,
            None => return None,
        };
        let root = match self.resolve(sref) {
            Some(Object::Dictionary(d)) => d,
            _ => return None,
        };
        let resolve = |obj: &Object| -> (r: Option<&Object>)
            ensures
                crate::accessibility::structure_tree::opt_obj_view(r) == ref_target(self@, obj@),
            { self.resolve_reference(obj) };
        let ghost rv = doc_resolver(self@);
        Some(crate::accessibility::structure_tree::StructTree::from_dict_with(root, &resolve, Ghost(rv)))
    }
}

/// Whether `checks` are the accessibility checks of tree `t`, and `t` is
/// the document's structure tree (or, when it has none, a tree with no
/// elements and no language).
pub open spec fn report_from(
    d: DocView,
    t: crate::accessibility::structure_tree::StructTree,
    checks: Seq<crate::accessibility::validation::AccessibilityCheck>,
) -> bool {
    &&& match struct_root_of(d) {
        Some(root) => crate::accessibility::structure_tree::tree_matches(t, doc_resolver(d), root),
        None => t.children@.len() == 0 && t.lang is None,
    }
    &&& forall|k: int|
        0 <= k < 6 ==> #[trigger] crate::accessibility::validation::check_is(
            checks[k],
            crate::accessibility::validation::expected_check(t, k),
        )
}

impl Document {
    /// Runs the accessibility checks on the document's structure tree, or
    /// on an empty tree (no elements, no language) when it has none.
    pub fn accessibility_report(&self) -> (r: crate::accessibility::validation::AccessibilityReport)
        requires
            forall|t: crate::accessibility::structure_tree::StructTree|
                struct_root_of(self@) is Some && #[trigger] crate::accessibility::structure_tree::tree_matches(
                    t,
                    doc_resolver(self@),
                    struct_root_of(self@)->Some_0,
                ) ==> crate::accessibility::validation::headings_fit(
                    crate::accessibility::validation::heading_levels(
                        crate::accessibility::structure_tree::preorder_all(t.children@),
                    ),
                ),
        ensures
            r.checks@.len() == 6,
            exists|t: crate::accessibility::structure_tree::StructTree| #[trigger] report_from(self@, t, r.checks@),
    {
        match self.structure_tree() {
            Some(tree) => {
                let r = crate::accessibility::validation::validate_pdf_ua(&tree);
                assert(report_from(self@, tree, r.checks@));
                r
            },
            None => {
                let empty = crate::accessibility::structure_tree::StructTree {
                    role_map: Vec::new(),
                    children: Vec::new(),
                    lang: None,
                };
                assert(empty.children@ =~= Seq::<crate::accessibility::structure_tree::StructElem>::empty());
                let r = crate::accessibility::validation::validate_pdf_ua(&empty);
                assert(report_from(self@, empty, r.checks@));
                r
            },
        }
    }
}

// ---------------------------------------------------------------------------
// Page contents
// ---------------------------------------------------------------------------

/// Whether decoding a stream with dictionary `sd` and data `data` gives
/// `r`.
pub open spec fn stream_decodes(sd: Seq<(Seq<char>, ObjView)>, data: Seq<u8>, r: PdfResult<Vec<u8>>) -> bool {
    exists|m: crate::filters::StreamDict|
        #[trigger] crate::objects::object::models_stream_dict(m, sd) && crate::filters::stream_result(m, data, r)
}

/// Whether one more item `item` of a `/Contents` array turns what the
/// items before it gave, `prev`, into `r`: an error stays, a stream's
/// decoded bytes are added with a line feed, another object is skipped,
/// and an item that resolves to nothing gives an error.
pub open spec fn array_step(d: DocView, item: ObjView, prev: PdfResult<Vec<u8>>, r: PdfResult<Vec<u8>>) -> bool {
    match prev {
        Err(_) => r == prev,
        Ok(pv) => match resolve_view(d, item) {
            None => r matches Err(e) && message_text(e) == "Invalid reference: "@
                + "Cannot resolve content stream array element"@,
            Some(ObjView::Stream(sd, data)) => exists|dr: PdfResult<Vec<u8>>|
                #[trigger] stream_decodes(sd, data, dr) && match dr {
                    Err(_) => r == dr,
                    Ok(v) => r matches Ok(w) && w@ == pv@ + v@ + seq![0x0Au8],
                },
            Some(_) => r matches Ok(w) && w@ == pv@,
        },
    }
}

/// Whether the items of a `/Contents` array give `r`: each stream
/// decoded and followed by a line feed, other objects skipped; the first
/// item that resolves to nothing, or whose decoding fails, gives the
/// error.
pub open spec fn array_data_is(d: DocView, items: Seq<ObjView>, r: PdfResult<Vec<u8>>) -> bool
    decreases items.len(),
{
    if items.len() == 0 {
        r matches Ok(v) && v@.len() == 0
    } else {
        exists|prev: PdfResult<Vec<u8>>|
            array_data_is(d, items.drop_last(), prev) && #[trigger] array_step(d, items.last(), prev, r)
    }
}

proof fn lemma_stream_step(
    d: DocView,
    item: ObjView,
    sd: Seq<(Seq<char>, ObjView)>,
    data: Seq<u8>,
    prev: PdfResult<Vec<u8>>,
    dr: PdfResult<Vec<u8>>,
    r: PdfResult<Vec<u8>>,
)
    requires
        resolve_view(d, item) == Some(ObjView::Stream(sd, data)),
        stream_decodes(sd, data, dr),
        prev is Ok,
        match dr {
            Err(_) => r == dr,
            Ok(v) => r matches Ok(w) && w@ == prev->Ok_0@ + v@ + seq![0x0Au8],
        },
    ensures
        array_step(d, item, prev, r),
{
    let pv = prev->Ok_0;
    assert(stream_decodes(sd, data, dr) && match dr {
        Err(_) => r == dr,
        Ok(v) => r matches Ok(w) && w@ == pv@ + v@ + seq![0x0Au8],
    });
    assert(resolve_view(d, item) matches Some(ObjView::Stream(a, b)) && a == sd && b == data);
}

proof fn lemma_array_step(d: DocView, items: Seq<ObjView>, prev: PdfResult<Vec<u8>>, r: PdfResult<Vec<u8>>)
    requires
        items.len() > 0,
        array_data_is(d, items.drop_last(), prev),
        array_step(d, items.last(), prev, r),
    ensures
        array_data_is(d, items, r),
{
    reveal_with_fuel(array_data_is, 2);
}

/// Whether a `/Contents` value gives the bytes (or error) `r`: a
/// reference is followed (at most `fuel` times), a stream decoded, and an
/// array's streams joined.
pub open spec fn content_data_is(d: DocView, o: ObjView, fuel: nat, r: PdfResult<Vec<u8>>) -> bool
    decreases fuel,
{
    match o {
        ObjView::Reference(n, g) => if fuel == 0 {
            r matches Err(e) && message_text(e) == "Invalid reference: "@ + "Cannot resolve /Contents"@
        } else {
            match obj_lookup(d.objects, (n, g)) {
                None => r matches Err(e) && message_text(e) == "Invalid reference: "@ + "Cannot resolve /Contents"@,
                Some(t) => content_data_is(d, t, (fuel - 1) as nat, r),
            }
        },
        ObjView::Stream(sd, data) => stream_decodes(sd, data, r),
        ObjView::Array(items) => array_data_is(d, items, r),
        _ => r matches Err(e) && message_text(e) == "Type error: expected "@ + "Stream, Reference, or Array"@
            + ", found "@ + kind_name_of(o),
    }
}

proof fn lemma_array_error_stays(d: DocView, items: Seq<ObjView>, n: int, e: PdfResult<Vec<u8>>)
    requires
        0 <= n <= items.len(),
        e is Err,
        array_data_is(d, items.take(n), e),
    ensures
        array_data_is(d, items, e),
    decreases items.len() - n,
{
    if n < items.len() {
        let t = items.take(n + 1);
        assert(t.drop_last() =~= items.take(n));
        assert(array_data_is(d, t.drop_last(), e));
        lemma_array_step(d, t, e, e);
        lemma_array_error_stays(d, items, n + 1, e);
    } else {
        assert(items.take(n) =~= items);
    }
}

/// An error of a type: `expected` was expected, an object of another kind
/// was found.
fn type_error(expected: &str, o: &Object) -> (e: PdfError)
    ensures
        message_text(e) == "Type error: expected "@ + expected@ + ", found "@ + kind_name_of(o@),
{
    let mut ex: Vec<char> = Vec::new();
    append_str(&mut ex, expected);
    let mut found: Vec<char> = Vec::new();
    append_str(&mut found, o.kind_name());
    assert(Seq::<char>::empty() + expected@ =~= expected@);
    assert(Seq::<char>::empty() + kind_name_of(o@) =~= kind_name_of(o@));
    let e = PdfError::TypeError { expected: string_from_chars(ex.as_slice()), found: string_from_chars(found.as_slice()) };
    assert(message_text(e) =~= "Type error: expected "@ + expected@ + ", found "@ + kind_name_of(o@));
    e
}

impl Document {
    /// The decoded bytes of a `/Contents` value: a reference followed, a
    /// stream decoded, an array's streams joined, each followed by a line
    /// feed.
    fn resolve_content_data_within(&self, contents: &Object, fuel: usize) -> (r: PdfResult<Vec<u8>>)
        ensures
            content_data_is(self@, contents@, fuel as nat, r),
        decreases fuel,
    {
        match contents {
            Object::Reference(x) => {
                if fuel == 0 {
                    return Err(unresolved("Cannot resolve /Contents"));
                }
                match self.get_object(x.id()) {
                    Some(t) => self.resolve_content_data_within(t, fuel - 1),
                    None => Err(unresolved("Cannot resolve /Contents")),
                }
            },
            Object::Stream(st) => st.decode_data(),
            Object::Array(arr) => {
                let ghost items = objects_view(arr@);
                proof {
                    lemma_objects_view(arr@);
                }
                let mut data: Vec<u8> = Vec::new();
                assert(items.take(0) =~= Seq::<ObjView>::empty());
                let mut i: usize = 0;
                while i < arr.len()
                    invariant
                        i <= arr@.len(),
                        items == objects_view(arr@),
                        contents@ == ObjView::Array(items),
                        items.len() == arr@.len(),
                        forall|j: int| 0 <= j < arr@.len() ==> #[trigger] items[j] == arr@[j]@,
                        array_data_is(self@, items.take(i as int), Ok::<Vec<u8>, PdfError>(data)),
                    decreases arr@.len() - i,
                {
                    let ghost prev: PdfResult<Vec<u8>> = Ok(data);
                    let ghost t = items.take(i + 1);
                    proof {
                        assert(t.drop_last() =~= items.take(i as int));
                        assert(t.last() == arr@[i as int]@);
                    }
                    let resolved = match self.resolve(&arr[i]) {
                        Some(o) => o,
                        None => {
                            let e = unresolved("Cannot resolve content stream array element");
                            proof {
                                let r: PdfResult<Vec<u8>> = Err(e);
                                assert(resolve_view(self@, t.last()) is None);
                                assert(message_text(e) == "Invalid reference: "@ + "Cannot resolve content stream array element"@);
                                assert(array_data_is(self@, t.drop_last(), prev));
                                lemma_array_step(self@, t, prev, r);
                                lemma_array_error_stays(self@, items, i + 1, r);
                                assert(items =~= items.take(items.len() as int));
                            }
                            return Err(e);
                        },
                    };
                    match resolved {
                        Object::Stream(st) => {
                            let decoded = st.decode_data();
                            match decoded {
                                Ok(v) => {
                                    let ghost dr: PdfResult<Vec<u8>> = Ok(v);
                                    let ghost before = data@;
                                    let mut moved = v;
                                    data.append(&mut moved);
                                    data.push(0x0A);
                                    proof {
                                        let r: PdfResult<Vec<u8>> = Ok(data);
                                        assert(stream_decodes(st.dict@, st.data@, dr));
                                        assert(resolve_view(self@, t.last()) == Some(ObjView::Stream(st.dict@, st.data@)));
                                        assert(data@ =~= before + dr->Ok_0@ + seq![0x0Au8]);
                                        assert(array_data_is(self@, t.drop_last(), prev));
                                        assert(prev matches Ok(pv) && pv@ == before);
                                        assert(r matches Ok(w) && w@ == before + dr->Ok_0@ + seq![0x0Au8]);
                                        assert(dr matches Ok(v) && r matches Ok(w) && w@ == prev->Ok_0@ + v@ + seq![0x0Au8]);
                                        lemma_stream_step(self@, t.last(), st.dict@, st.data@, prev, dr, r);
                                        lemma_array_step(self@, t, prev, r);
                                    }
                                },
                                Err(e) => {
                                    proof {
                                        let r: PdfResult<Vec<u8>> = Err(e);
                                        assert(stream_decodes(st.dict@, st.data@, r));
                                        assert(resolve_view(self@, t.last()) == Some(ObjView::Stream(st.dict@, st.data@)));
                                        assert(array_data_is(self@, t.drop_last(), prev));
                                        lemma_stream_step(self@, t.last(), st.dict@, st.data@, prev, r, r);
                                        lemma_array_step(self@, t, prev, r);
                                        lemma_array_error_stays(self@, items, i + 1, r);
                                        assert(items =~= items.take(items.len() as int));
                                    }
                                    return Err(e);
                                },
                            }
                        },
                        _ => {
                            proof {
                                let r: PdfResult<Vec<u8>> = Ok(data);
                                assert(array_data_is(self@, t.drop_last(), prev));
                                lemma_array_step(self@, t, prev, r);
                            }
                        },
                    }
                    i = i + 1;
                }
                proof {
                    assert(items.take(items.len() as int) =~= items);
                }
                Ok(data)
            },
            _ => Err(type_error("Stream, Reference, or Array", contents)),
        }
    }
}

// ---------------------------------------------------------------------------
// Page fonts
// ---------------------------------------------------------------------------

/// The name an entry of a dictionary holds, where it is a name.
pub open spec fn name_entry(dict: Seq<(Seq<char>, ObjView)>, key: Seq<char>) -> Option<Seq<char>> {
    match lookup(dict, key) {
        Some(ObjView::Name(n)) => Some(n),
        _ => None,
    }
}

/// Whether an optional string holds the optional text `v`.
pub open spec fn opt_text_is(o: Option<String>, v: Option<Seq<char>>) -> bool {
    match o {
        Some(s) => v == Some(s@),
        None => v is None,
    }
}

/// Whether `fd` holds what the font dictionary `dict` says, with `tu` as
/// the decoded data of its ToUnicode stream.
pub open spec fn font_dict_of(dict: Seq<(Seq<char>, ObjView)>, tu: Option<Seq<u8>>, fd: crate::fonts::font::FontDict) -> bool {
    &&& opt_text_is(fd.subtype, name_entry(dict, "Subtype"@))
    &&& opt_text_is(fd.base_font, name_entry(dict, "BaseFont"@))
    &&& match fd.to_unicode {
        Some(v) => tu == Some(v@),
        None => tu is None,
    }
    &&& match lookup(dict, "Encoding"@) {
        Some(o) => fd.encoding matches Some(m) && crate::fonts::encoding::encoding_models(m, o),
        None => fd.encoding is None,
    }
}

/// Whether `f` is the font used where a font dictionary cannot be read:
/// named `Unknown`, Type 1, WinAnsi encoding, no ToUnicode map.
pub open spec fn is_fallback_font(f: crate::fonts::font::Font) -> bool {
    &&& f.spec_name() == "Unknown"@
    &&& f.spec_subtype() == crate::fonts::font::FontSubtype::Type1
    &&& f.spec_encoding() == crate::fonts::encoding::table_of(|c: u8| crate::fonts::encoding::win_ansi_entry(c))
    &&& f.spec_cmap() is None
}

/// Whether `f` is the font that the font dictionary `dict` with ToUnicode
/// data `tu` gives: the font it describes, or the fallback font where the
/// dictionary is refused.
pub open spec fn font_from_parts(dict: Seq<(Seq<char>, ObjView)>, tu: Option<Seq<u8>>, f: crate::fonts::font::Font) -> bool {
    exists|fd: crate::fonts::font::FontDict|
        #[trigger] font_dict_of(dict, tu, fd) && (crate::fonts::font::font_built_from(fd, f) || (
        crate::fonts::font::font_refused(fd) && is_fallback_font(f)))
}

/// Whether `f` is the font loaded from the font dictionary `dict`: its
/// ToUnicode stream (followed where it is a reference) decoded, and the
/// fallback font where that stream cannot be decoded or its data cannot
/// be read as CMap tokens.
pub open spec fn font_for(d: DocView, dict: Seq<(Seq<char>, ObjView)>, f: crate::fonts::font::Font) -> bool {
    match lookup(dict, "ToUnicode"@) {
        Some(o) => match resolve_view(d, o) {
            Some(ObjView::Stream(sd, data)) => exists|dr: PdfResult<Vec<u8>>|
                #[trigger] stream_decodes(sd, data, dr) && match dr {
                    Err(_) => is_fallback_font(f),
                    Ok(v) => if crate::fonts::cmap::cmap_tokens(v@) is Some {
                        font_from_parts(dict, Some(v@), f)
                    } else {
                        is_fallback_font(f)
                    },
                },
            _ => font_from_parts(dict, None, f),
        },
        None => font_from_parts(dict, None, f),
    }
}

/// The entries of a font resource dictionary whose values resolve to
/// dictionaries: each name with its font dictionary, in order.
pub open spec fn font_entries(d: DocView, es: Seq<(Seq<char>, ObjView)>) -> Seq<(Seq<char>, Seq<(Seq<char>, ObjView)>)>
    decreases es.len(),
{
    if es.len() == 0 {
        Seq::empty()
    } else {
        let rest = font_entries(d, es.drop_last());
        match resolve_view(d, es.last().1) {
            Some(ObjView::Dictionary(fd)) => rest.push((es.last().0, fd)),
            _ => rest,
        }
    }
}

/// The `/Font` resource dictionary of a page (resources inherited through
/// the page tree), empty where there is none.
pub open spec fn page_font_dict(d: DocView, page: Seq<(Seq<char>, ObjView)>) -> Seq<(Seq<char>, ObjView)> {
    match inherited(d, page, "Resources"@, 32) {
        Some(o) => match resolve_view(d, o) {
            Some(ObjView::Dictionary(res)) => match lookup(res, "Font"@) {
                Some(fe) => match resolve_view(d, fe) {
                    Some(ObjView::Dictionary(fd)) => fd,
                    _ => Seq::empty(),
                },
                None => Seq::empty(),
            },
            _ => Seq::empty(),
        },
        None => Seq::empty(),
    }
}

/// Whether `fonts` are the fonts of the font entries `ks`, name by name.
pub open spec fn fonts_match(d: DocView, ks: Seq<(Seq<char>, Seq<(Seq<char>, ObjView)>)>, fonts: Seq<(String, crate::fonts::font::Font)>) -> bool {
    &&& fonts.len() == ks.len()
    &&& forall|i: int| 0 <= i < ks.len() ==> (#[trigger] fonts[i]).0@ == ks[i].0 && font_for(d, ks[i].1, fonts[i].1)
}

/// Whether `fonts` are the fonts of a page: one for each entry of its
/// `/Font` resources that resolves to a dictionary, in order.
pub open spec fn page_fonts_are(d: DocView, page: Seq<(Seq<char>, ObjView)>, fonts: Seq<(String, crate::fonts::font::Font)>) -> bool {
    fonts_match(d, font_entries(d, page_font_dict(d, page)), fonts)
}

/// The name an object holds, where it is a name.
fn name_value(o: Option<&Object>) -> (r: Option<String>)
    ensures
        opt_text_is(r, match o {
            Some(x) => match x@ {
                ObjView::Name(n) => Some(n),
                _ => None,
            },
            None => None,
        }),
{
    match o {
        Some(Object::Name(n)) => Some(n.0.clone()),
        _ => None,
    }
}

proof fn lemma_font_for_stream(
    d: DocView,
    dict: Seq<(Seq<char>, ObjView)>,
    o: ObjView,
    sd: Seq<(Seq<char>, ObjView)>,
    data: Seq<u8>,
    dr: PdfResult<Vec<u8>>,
    f: crate::fonts::font::Font,
)
    requires
        lookup(dict, "ToUnicode"@) == Some(o),
        resolve_view(d, o) == Some(ObjView::Stream(sd, data)),
        stream_decodes(sd, data, dr),
        match dr {
            Err(_) => is_fallback_font(f),
            Ok(v) => if crate::fonts::cmap::cmap_tokens(v@) is Some {
                font_from_parts(dict, Some(v@), f)
            } else {
                is_fallback_font(f)
            },
        },
    ensures
        font_for(d, dict, f),
{
    assert(stream_decodes(sd, data, dr) && match dr {
        Err(_) => is_fallback_font(f),
        Ok(v) => if crate::fonts::cmap::cmap_tokens(v@) is Some {
            font_from_parts(dict, Some(v@), f)
        } else {
            is_fallback_font(f)
        },
    });
    assert(lookup(dict, "ToUnicode"@) matches Some(x) && x == o);
    assert(resolve_view(d, o) matches Some(ObjView::Stream(a, b)) && a == sd && b == data);
}

proof fn lemma_font_from_parts(
    dict: Seq<(Seq<char>, ObjView)>,
    tu: Option<Seq<u8>>,
    fd: crate::fonts::font::FontDict,
    f: crate::fonts::font::Font,
)
    requires
        font_dict_of(dict, tu, fd),
        crate::fonts::font::font_built_from(fd, f) || (crate::fonts::font::font_refused(fd) && is_fallback_font(f)),
    ensures
        font_from_parts(dict, tu, f),
{
}

impl Document {
    /// The font loaded from a font dictionary; the fallback font where the
    /// dictionary cannot be read.
    fn font_from(&self, dict: &Dictionary) -> (f: crate::fonts::font::Font)
        ensures
            font_for(self@, dict@, f),
    {
        let subtype = name_value(dict.get("Subtype"));
        let base_font = name_value(dict.get("BaseFont"));
        let encoding = match dict.get("Encoding") {
            Some(o) => Some(crate::fonts::encoding::EncodingObject::of(o)),
            None => None,
        };
        let tu_obj = dict.get("ToUnicode");
        let ghost mut stream_case: Option<(ObjView, Seq<(Seq<char>, ObjView)>, Seq<u8>, PdfResult<Vec<u8>>)> = None;
        let to_unicode: Option<Vec<u8>> = match tu_obj {
            None => None,
            Some(o) => match self.resolve(o) {
                Some(Object::Stream(st)) => {
                    let decoded = st.decode_data();
                    match decoded {
                        Ok(v) => {
                            if crate::fonts::cmap::cmap_tokenizable(v.as_slice()) {
                                proof {
                                    stream_case = Some((o@, st.dict@, st.data@, decoded));
                                }
                                Some(v)
                            } else {
                                let f = crate::fonts::font::Font::default_fallback();
                                proof {
                                    lemma_font_for_stream(self@, dict@, o@, st.dict@, st.data@, decoded, f);
                                }
                                return f;
                            }
                        },
                        Err(_) => {
                            let f = crate::fonts::font::Font::default_fallback();
                            proof {
                                lemma_font_for_stream(self@, dict@, o@, st.dict@, st.data@, decoded, f);
                            }
                            return f;
                        },
                    }
                },
                _ => None,
            },
        };
        let ghost tu: Option<Seq<u8>> = match &to_unicode {
            Some(v) => Some(v@),
            None => None,
        };
        let fd = crate::fonts::font::FontDict { subtype, base_font, to_unicode, encoding };
        assert(font_dict_of(dict@, tu, fd));
        let f = match crate::fonts::font::Font::from_dict(&fd) {
            Ok(f) => f,
            Err(_) => crate::fonts::font::Font::default_fallback(),
        };
        proof {
            lemma_font_from_parts(dict@, tu, fd, f);
            match stream_case {
                Some((o, sd, data, dr)) => {
                    lemma_font_for_stream(self@, dict@, o, sd, data, dr, f);
                },
                None => {},
            }
        }
        f
    }
}

impl Document {
    /// The fonts of a page, from its (possibly inherited) `/Font`
    /// resources: each name with the font its dictionary describes, or
    /// the fallback font where that dictionary cannot be read. Entries
    /// that do not resolve to a dictionary are left out.
    pub fn page_fonts(&self, page_dict: &Dictionary) -> (r: Vec<(String, crate::fonts::font::Font)>)
        ensures
            page_fonts_are(self@, page_dict@, r@),
    {
        let ghost fdv = page_font_dict(self@, page_dict@);
        let resources = match self.page_resources(page_dict) {
            Some(x) => x,
            None => {
                assert(fdv =~= Seq::<(Seq<char>, ObjView)>::empty());
                return Vec::new();
            },
        };
        let font_entry = match resources.get("Font") {
            Some(x) => x,
            None => {
                assert(fdv =~= Seq::<(Seq<char>, ObjView)>::empty());
                return Vec::new();
            },
        };
        let font_dict = match self.resolve(font_entry) {
            Some(Object::Dictionary(x)) => x,
            _ => {
                assert(fdv =~= Seq::<(Seq<char>, ObjView)>::empty());
                return Vec::new();
            },
        };
        assert(fdv == font_dict@);
        let es = font_dict.entries();
        proof {
            crate::objects::object::lemma_entries_view(es@);
            assert(font_dict@.take(0) =~= Seq::<(Seq<char>, ObjView)>::empty());
        }
        let mut out: Vec<(String, crate::fonts::font::Font)> = Vec::new();
        let mut i: usize = 0;
        while i < es.len()
            invariant
                i <= es@.len(),
                crate::objects::object::entries_view(es@) == fdv,
                fdv.len() == es@.len(),
                forall|j: int| 0 <= j < es@.len() ==> #[trigger] fdv[j] == (es@[j].0.0@, crate::objects::object::object_view(es@[j].1)),
                fonts_match(self@, font_entries(self@, fdv.take(i as int)), out@),
            decreases es@.len() - i,
        {
            let ghost before = font_entries(self@, fdv.take(i as int));
            proof {
                assert(fdv.take(i + 1).drop_last() =~= fdv.take(i as int));
                assert(fdv.take(i + 1).last() == fdv[i as int]);
            }
            let entry = &es[i];
            match self.resolve(&entry.1) {
                Some(Object::Dictionary(fd)) => {
                    let f = self.font_from(fd);
                    let name = entry.0.0.clone();
                    let ghost prev_out = out@;
                    out.push((name, f));
                    proof {
                        assert(font_entries(self@, fdv.take(i + 1)) == before.push((fdv[i as int].0, fd@)));
                        assert forall|j: int| 0 <= j < before.len() + 1 implies (#[trigger] out@[j]).0@ == before.push((fdv[i as int].0, fd@))[j].0
                            && font_for(self@, before.push((fdv[i as int].0, fd@))[j].1, out@[j].1) by {
                            if j < before.len() {
                                assert(out@[j] == prev_out[j]);
                            }
                        }
                    }
                },
                _ => {
                    proof {
                        assert(font_entries(self@, fdv.take(i + 1)) == before);
                    }
                },
            }
            i = i + 1;
        }
        proof {
            assert(fdv.take(es@.len() as int) =~= fdv);
        }
        out
    }
}

// ---------------------------------------------------------------------------
// Page text
// ---------------------------------------------------------------------------

/// What extracting text from the content bytes `data` with `fonts` gives.
pub open spec fn text_result(fonts: Seq<(String, crate::fonts::font::Font)>, data: Seq<u8>, r: Result<String, PdfError>) -> bool {
    match r {
        Ok(s) => crate::content::text::extracted_text(fonts, data) == Ok::<Seq<char>, (Seq<char>, bool)>(s@),
        Err(e) => crate::content::lexer::lex_error_matches(crate::content::lexer::lex_from(data, 0), e),
    }
}

/// Whether the decoded page contents `dr` lead to the text result `r`: a
/// decoding error is passed on, decoded bytes are read with the page's
/// fonts.
pub open spec fn text_from_data(d: DocView, page: Seq<(Seq<char>, ObjView)>, dr: PdfResult<Vec<u8>>, r: Result<String, PdfError>) -> bool {
    match dr {
        Err(e) => r == Err::<String, PdfError>(e),
        Ok(v) => exists|fonts: Seq<(String, crate::fonts::font::Font)>|
            #[trigger] page_fonts_are(d, page, fonts) && text_result(fonts, v@, r),
    }
}

/// Whether `r` is the text of the page with dictionary `page`: its
/// `/Contents` decoded (references followed at most once per stored
/// object) and read with the page's fonts.
pub open spec fn page_text_is(d: DocView, page: Seq<(Seq<char>, ObjView)>, r: Result<String, PdfError>) -> bool {
    match lookup(page, "Contents"@) {
        None => r matches Err(e) && message_text(e) == "Invalid page: "@ + "No /Contents in page"@,
        Some(c) => exists|dr: PdfResult<Vec<u8>>|
            #[trigger] content_data_is(d, c, d.objects.len(), dr) && text_from_data(d, page, dr, r),
    }
}

/// The texts of pages joined: a form feed between pages, nothing for a
/// page whose text could not be extracted.
pub open spec fn joined_texts(rs: Seq<Result<String, PdfError>>) -> Seq<char>
    decreases rs.len(),
{
    if rs.len() == 0 {
        Seq::empty()
    } else {
        let sep: Seq<char> = if rs.len() > 1 { seq!['\x0C'] } else { Seq::empty() };
        let t: Seq<char> = match rs.last() {
            Ok(s) => s@,
            Err(_) => Seq::empty(),
        };
        joined_texts(rs.drop_last()) + sep + t
    }
}

/// Whether `rs` are the text results of the pages `ps`, page by page.
pub open spec fn page_texts(d: DocView, ps: Seq<Seq<(Seq<char>, ObjView)>>, rs: Seq<Result<String, PdfError>>) -> bool {
    &&& rs.len() == ps.len()
    &&& forall|i: int| 0 <= i < ps.len() ==> #[trigger] page_text_is(d, ps[i], rs[i])
}

proof fn lemma_text_from_data(
    d: DocView,
    page: Seq<(Seq<char>, ObjView)>,
    v: Vec<u8>,
    fonts: Seq<(String, crate::fonts::font::Font)>,
    r: Result<String, PdfError>,
)
    requires
        page_fonts_are(d, page, fonts),
        text_result(fonts, v@, r),
    ensures
        text_from_data(d, page, Ok(v), r),
{
    assert(page_fonts_are(d, page, fonts) && text_result(fonts, v@, r));
}

proof fn lemma_page_text(
    d: DocView,
    page: Seq<(Seq<char>, ObjView)>,
    c: ObjView,
    dr: PdfResult<Vec<u8>>,
    r: Result<String, PdfError>,
)
    requires
        lookup(page, "Contents"@) == Some(c),
        content_data_is(d, c, d.objects.len(), dr),
        text_from_data(d, page, dr, r),
    ensures
        page_text_is(d, page, r),
{
    assert(content_data_is(d, c, d.objects.len(), dr) && text_from_data(d, page, dr, r));
    assert(lookup(page, "Contents"@) matches Some(x) && x == c);
}

impl Document {
    /// The decoded bytes of a `/Contents` value: a reference followed
    /// (no more often than there are stored objects), a stream decoded,
    /// an array's streams joined, each followed by a line feed.
    pub(crate) fn resolve_content_data(&self, contents: &Object) -> (r: PdfResult<Vec<u8>>)
        ensures
            content_data_is(self@, contents@, self@.objects.len(), r),
    {
        proof {
            assert(self@.objects.len() == self.objects@.len());
        }
        self.resolve_content_data_within(contents, self.objects.len())
    }

    /// The text of a page dictionary: its content streams decoded and read
    /// with the page's fonts.
    fn extract_text_from_page_dict(&self, page: &Dictionary) -> (r: Result<String, PdfError>)
        ensures
            page_text_is(self@, page@, r),
    {
        let contents = match page.get("Contents") {
            Some(c) => c,
            None => {
                let mut v: Vec<char> = Vec::new();
                append_str(&mut v, "No /Contents in page");
                let e = PdfError::InvalidPage(string_from_chars(v.as_slice()));
                assert(message_text(e) =~= "Invalid page: "@ + "No /Contents in page"@);
                return Err(e);
            },
        };
        let dr = self.resolve_content_data(contents);
        let data = match dr {
            Ok(v) => v,
            Err(e) => {
                proof {
                    lemma_page_text(self@, page@, contents@, dr, Err(e));
                }
                return Err(e);
            },
        };
        let fonts = self.page_fonts(page);
        let r = crate::content::text::extract_text_with_fonts(data.as_slice(), fonts.as_slice());
        proof {
            lemma_text_from_data(self@, page@, data, fonts@, r);
            lemma_page_text(self@, page@, contents@, dr, r);
        }
        r
    }

    /// The text of the page at `page_index`, read through its fonts.
    pub fn extract_page_text(&self, page_index: usize) -> (r: Result<String, PdfError>)
        ensures
            match pages_of(self@) {
                Ok(ps) => if page_index < ps.len() {
                    page_text_is(self@, ps[page_index as int], r)
                } else {
                    r matches Err(e) && message_text(e) == page_range_message(page_index as nat, ps.len())
                },
                Err(m) => r matches Err(e) && message_text(e) == m,
            },
    {
        let page = self.get_page(page_index)?;
        self.extract_text_from_page_dict(page)
    }

    /// The text of all pages, a form feed between pages; a page whose text
    /// cannot be extracted adds nothing.
    pub fn extract_all_text(&self) -> (r: Result<String, PdfError>)
        ensures
            match pages_of(self@) {
                Ok(ps) => r matches Ok(s) && exists|rs: Seq<Result<String, PdfError>>|
                    #[trigger] page_texts(self@, ps, rs) && s@ == joined_texts(rs),
                Err(m) => r matches Err(e) && message_text(e) == m,
            },
    {
        let pages = self.pages()?;
        let ghost ps = dict_views(pages@);
        let mut out: Vec<char> = Vec::new();
        let ghost mut rs: Seq<Result<String, PdfError>> = Seq::empty();
        let mut i: usize = 0;
        while i < pages.len()
            invariant
                i <= pages@.len(),
                ps == dict_views(pages@),
                ps.len() == pages@.len(),
                rs.len() == i,
                forall|j: int| 0 <= j < i ==> #[trigger] page_text_is(self@, ps[j], rs[j]),
                out@ == joined_texts(rs),
            decreases pages@.len() - i,
        {
            proof {
                assert(ps[i as int] == pages@[i as int]@);
            }
            let ghost before = out@;
            if i > 0 {
                out.push('\x0C');
            }
            let t = self.extract_text_from_page_dict(pages[i]);
            match &t {
                Ok(text) => {
                    append_str(&mut out, text.as_str());
                },
                Err(_) => {},
            }
            proof {
                let nrs = rs.push(t);
                assert(nrs.drop_last() =~= rs);
                if i > 0 {
                    assert(out@ =~= joined_texts(nrs));
                } else {
                    assert(out@ =~= joined_texts(nrs));
                }
                rs = nrs;
            }
            i = i + 1;
        }
        let s = string_from_chars(out.as_slice());
        proof {
            assert(page_texts(self@, ps, rs));
        }
        Ok(s)
    }
}

} // verus!
