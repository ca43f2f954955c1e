//! The document structure tree of a tagged PDF: structure elements and
//! their standard roles.
use vstd::prelude::*;
use crate::unicode::str_eq;
use crate::objects::DictExt;

verus! {

/// Standard structure element roles.
#[derive(Debug, Clone, PartialEq, Eq, Hash)]
pub enum StandardRole {
    /// Document root.
    Document,
    /// Part of a document.
    Part,
    /// Article.
    Art,
    /// Section.
    Sect,
    /// Division (generic block-level grouping).
    Div,
    /// Block quotation.
    BlockQuote,
    /// Caption for a figure or table.
    Caption,
    /// Table of contents.
    TOC,
    /// Table of contents item.
    TOCI,
    /// Index.
    Index,
    /// Paragraph.
    P,
    /// Heading (level 1-6; 0 for an unnumbered `H`).
    H(u8),
    /// Generic heading group.
    HGroup,
    /// List.
    L,
    /// List item.
    LI,
    /// Label (list bullet or number).
    Lbl,
    /// List body.
    LBody,
    /// Table.
    Table,
    /// Table row.
    TR,
    /// Table header cell.
    TH,
    /// Table data cell.
    TD,
    /// Table header row group.
    THead,
    /// Table body row group.
    TBody,
    /// Table footer row group.
    TFoot,
    /// Span (inline content).
    Span,
    /// Link.
    Link,
    /// Annotation reference.
    Annot,
    /// Figure.
    Figure,
    /// Formula.
    Formula,
    /// Form widget.
    Form,
    /// Ruby annotation.
    Ruby,
    /// Partial document.
    DocumentFragment,
    /// Footnote or endnote.
    FENote,
    /// Note.
    Note,
    /// Emphasis.
    Em,
    /// Strong emphasis.
    Strong,
    /// Sidebar content.
    Aside,
    /// Document title element.
    Title,
    /// Subscript.
    Sub,
    /// Non-standard or unknown role.
    NonStandard(String),
}

/// The standard role that a structure type name denotes, if it is a standard one.
pub open spec fn known_role(name: Seq<char>) -> Option<StandardRole> {
    if name == "Document"@ {
        Some(StandardRole::Document)
    } else if name == "Part"@ {
        Some(StandardRole::Part)
    } else if name == "Art"@ {
        Some(StandardRole::Art)
    } else if name == "Sect"@ {
        Some(StandardRole::Sect)
    } else if name == "Div"@ {
        Some(StandardRole::Div)
    } else if name == "BlockQuote"@ {
        Some(StandardRole::BlockQuote)
    } else if name == "Caption"@ {
        Some(StandardRole::Caption)
    } else if name == "TOC"@ {
        Some(StandardRole::TOC)
    } else if name == "TOCI"@ {
        Some(StandardRole::TOCI)
    } else if name == "Index"@ {
        Some(StandardRole::Index)
    } else if name == "P"@ {
        Some(StandardRole::P)
    } else if name == "H"@ {
        Some(StandardRole::H(0))
    } else if name == "H1"@ {
        Some(StandardRole::H(1))
    } else if name == "H2"@ {
        Some(StandardRole::H(2))
    } else if name == "H3"@ {
        Some(StandardRole::H(3))
    } else if name == "H4"@ {
        Some(StandardRole::H(4))
    } else if name == "H5"@ {
        Some(StandardRole::H(5))
    } else if name == "H6"@ {
        Some(StandardRole::H(6))
    } else if name == "L"@ {
        Some(StandardRole::L)
    } else if name == "LI"@ {
        Some(StandardRole::LI)
    } else if name == "Lbl"@ {
        Some(StandardRole::Lbl)
    } else if name == "LBody"@ {
        Some(StandardRole::LBody)
    } else if name == "Table"@ {
        Some(StandardRole::Table)
    } else if name == "TR"@ {
        Some(StandardRole::TR)
    } else if name == "TH"@ {
        Some(StandardRole::TH)
    } else if name == "TD"@ {
        Some(StandardRole::TD)
    } else if name == "THead"@ {
        Some(StandardRole::THead)
    } else if name == "TBody"@ {
        Some(StandardRole::TBody)
    } else if name == "TFoot"@ {
        Some(StandardRole::TFoot)
    } else if name == "Span"@ {
        Some(StandardRole::Span)
    } else if name == "Link"@ {
        Some(StandardRole::Link)
    } else if name == "Annot"@ {
        Some(StandardRole::Annot)
    } else if name == "Figure"@ {
        Some(StandardRole::Figure)
    } else if name == "Formula"@ {
        Some(StandardRole::Formula)
    } else if name == "Form"@ {
        Some(StandardRole::Form)
    } else if name == "Ruby"@ {
        Some(StandardRole::Ruby)
    } else if name == "DocumentFragment"@ {
        Some(StandardRole::DocumentFragment)
    } else if name == "FENote"@ {
        Some(StandardRole::FENote)
    } else if name == "Note"@ {
        Some(StandardRole::Note)
    } else if name == "Em"@ {
        Some(StandardRole::Em)
    } else if name == "Strong"@ {
        Some(StandardRole::Strong)
    } else if name == "Aside"@ {
        Some(StandardRole::Aside)
    } else if name == "Title"@ {
        Some(StandardRole::Title)
    } else if name == "Sub"@ {
        Some(StandardRole::Sub)
    } else {
        None
    }
}

/// Whether a role is block-level.
pub open spec fn role_is_block(r: StandardRole) -> bool {
    match r {
        StandardRole::Document | StandardRole::Part | StandardRole::Art | StandardRole::Sect
        | StandardRole::Div | StandardRole::BlockQuote | StandardRole::P | StandardRole::H(_)
        | StandardRole::HGroup | StandardRole::L | StandardRole::LI | StandardRole::Table
        | StandardRole::TR | StandardRole::THead | StandardRole::TBody | StandardRole::TFoot
        | StandardRole::Figure | StandardRole::DocumentFragment | StandardRole::FENote
        | StandardRole::Note | StandardRole::Aside | StandardRole::Title => true,
        _ => false,
    }
}

/// Whether a role is inline-level.
pub open spec fn role_is_inline(r: StandardRole) -> bool {
    match r {
        StandardRole::Span | StandardRole::Link | StandardRole::Annot | StandardRole::Lbl
        | StandardRole::Formula | StandardRole::Ruby | StandardRole::Em | StandardRole::Strong
        | StandardRole::Sub => true,
        _ => false,
    }
}

/// `r` is the role that `name` denotes: the standard role of that name,
/// or a non-standard role carrying the name.
pub open spec fn role_of_name(name: Seq<char>, r: StandardRole) -> bool {
    match known_role(name) {
        Some(k) => r == k,
        None => r matches StandardRole::NonStandard(s) && s@ == name,
    }
}

impl StandardRole {
    /// Parses a structure element type name into a role.
    pub fn from_name(name: &str) -> (r: StandardRole)
        ensures
            role_of_name(name@, r),
    {
        proof {
            reveal_strlit("Document");
            reveal_strlit("Part");
            reveal_strlit("Art");
            reveal_strlit("Sect");
            reveal_strlit("Div");
            reveal_strlit("BlockQuote");
            reveal_strlit("Caption");
            reveal_strlit("TOC");
            reveal_strlit("TOCI");
            reveal_strlit("Index");
            reveal_strlit("P");
            reveal_strlit("H");
            reveal_strlit("H1");
            reveal_strlit("H2");
            reveal_strlit("H3");
            reveal_strlit("H4");
            reveal_strlit("H5");
            reveal_strlit("H6");
            reveal_strlit("L");
            reveal_strlit("LI");
            reveal_strlit("Lbl");
            reveal_strlit("LBody");
            reveal_strlit("Table");
            reveal_strlit("TR");
            reveal_strlit("TH");
            reveal_strlit("TD");
            reveal_strlit("THead");
            reveal_strlit("TBody");
            reveal_strlit("TFoot");
            reveal_strlit("Span");
            reveal_strlit("Link");
            reveal_strlit("Annot");
            reveal_strlit("Figure");
            reveal_strlit("Formula");
            reveal_strlit("Form");
            reveal_strlit("Ruby");
            reveal_strlit("DocumentFragment");
            reveal_strlit("FENote");
            reveal_strlit("Note");
            reveal_strlit("Em");
            reveal_strlit("Strong");
            reveal_strlit("Aside");
            reveal_strlit("Title");
            reveal_strlit("Sub");
        }
        if str_eq(name, "Document") {
            StandardRole::Document
        } else if str_eq(name, "Part") {
            StandardRole::Part
        } else if str_eq(name, "Art") {
            StandardRole::Art
        } else if str_eq(name, "Sect") {
            StandardRole::Sect
        } else if str_eq(name, "Div") {
            StandardRole::Div
        } else if str_eq(name, "BlockQuote") {
            StandardRole::BlockQuote
        } else if str_eq(name, "Caption") {
            StandardRole::Caption
        } else if str_eq(name, "TOC") {
            StandardRole::TOC
        } else if str_eq(name, "TOCI") {
            StandardRole::TOCI
        } else if str_eq(name, "Index") {
            StandardRole::Index
        } else if str_eq(name, "P") {
            StandardRole::P
        } else if str_eq(name, "H") {
            StandardRole::H(0)
        } else if str_eq(name, "H1") {
            StandardRole::H(1)
        } else if str_eq(name, "H2") {
            StandardRole::H(2)
        } else if str_eq(name, "H3") {
            StandardRole::H(3)
        } else if str_eq(name, "H4") {
            StandardRole::H(4)
        } else if str_eq(name, "H5") {
            StandardRole::H(5)
        } else if str_eq(name, "H6") {
            StandardRole::H(6)
        } else if str_eq(name, "L") {
            StandardRole::L
        } else if str_eq(name, "LI") {
            StandardRole::LI
        } else if str_eq(name, "Lbl") {
            StandardRole::Lbl
        } else if str_eq(name, "LBody") {
            StandardRole::LBody
        } else if str_eq(name, "Table") {
            StandardRole::Table
        } else if str_eq(name, "TR") {
            StandardRole::TR
        } else if str_eq(name, "TH") {
            StandardRole::TH
        } else if str_eq(name, "TD") {
            StandardRole::TD
        } else if str_eq(name, "THead") {
            StandardRole::THead
        } else if str_eq(name, "TBody") {
            StandardRole::TBody
        } else if str_eq(name, "TFoot") {
            StandardRole::TFoot
        } else if str_eq(name, "Span") {
            StandardRole::Span
        } else if str_eq(name, "Link") {
            StandardRole::Link
        } else if str_eq(name, "Annot") {
            StandardRole::Annot
        } else if str_eq(name, "Figure") {
            StandardRole::Figure
        } else if str_eq(name, "Formula") {
            StandardRole::Formula
        } else if str_eq(name, "Form") {
            StandardRole::Form
        } else if str_eq(name, "Ruby") {
            StandardRole::Ruby
        } else if str_eq(name, "DocumentFragment") {
            StandardRole::DocumentFragment
        } else if str_eq(name, "FENote") {
            StandardRole::FENote
        } else if str_eq(name, "Note") {
            StandardRole::Note
        } else if str_eq(name, "Em") {
            StandardRole::Em
        } else if str_eq(name, "Strong") {
            StandardRole::Strong
        } else if str_eq(name, "Aside") {
            StandardRole::Aside
        } else if str_eq(name, "Title") {
            StandardRole::Title
        } else if str_eq(name, "Sub") {
            StandardRole::Sub
        } else {
            StandardRole::NonStandard(name.to_owned())
        }
    }

    /// Whether this is a block-level element.
    pub fn is_block(&self) -> (r: bool)
        ensures
            r == role_is_block(*self),
    {
        match self {
            StandardRole::Document | StandardRole::Part | StandardRole::Art | StandardRole::Sect
            | StandardRole::Div | StandardRole::BlockQuote | StandardRole::P | StandardRole::H(_)
            | StandardRole::HGroup | StandardRole::L | StandardRole::LI | StandardRole::Table
            | StandardRole::TR | StandardRole::THead | StandardRole::TBody | StandardRole::TFoot
            | StandardRole::Figure | StandardRole::DocumentFragment | StandardRole::FENote
            | StandardRole::Note | StandardRole::Aside | StandardRole::Title => true,
            _ => false,
        }
    }

    /// Whether this is an inline-level element.
    pub fn is_inline(&self) -> (r: bool)
        ensures
            r == role_is_inline(*self),
    {
        match self {
            StandardRole::Span | StandardRole::Link | StandardRole::Annot | StandardRole::Lbl
            | StandardRole::Formula | StandardRole::Ruby | StandardRole::Em | StandardRole::Strong
            | StandardRole::Sub => true,
            _ => false,
        }
    }
}

/// No role is both block-level and inline-level.
pub proof fn lemma_block_inline_disjoint(r: StandardRole)
    ensures
        !(role_is_block(r) && role_is_inline(r)),
{
}

/// A role mapping from custom structure types to standard roles, in the
/// order the entries were read; a later entry for a name overrides an
/// earlier one.
pub type RoleMap = Vec<(String, StandardRole)>;

/// The entries of a dictionary whose value is a name.
pub open spec fn name_entries(
    es: Seq<(Seq<char>, crate::objects::object::ObjView)>,
) -> Seq<(Seq<char>, crate::objects::object::ObjView)> {
    es.filter(|e: (Seq<char>, crate::objects::object::ObjView)| e.1 is Name)
}

/// Whether a role map holds, in order, each name-valued entry of a
/// `/RoleMap` dictionary: its key and the role of its name.
pub open spec fn role_map_of(r: Seq<(String, StandardRole)>, es: Seq<(Seq<char>, crate::objects::object::ObjView)>) -> bool {
    let ne = name_entries(es);
    &&& r.len() == ne.len()
    &&& forall|k: int|
        0 <= k < ne.len() ==> (#[trigger] r[k]).0@ == ne[k].0 && role_of_name(ne[k].1->Name_0, r[k].1)
}

/// Reads a `/RoleMap` dictionary: each entry whose value is a name maps
/// its key to the role of that name; other entries are skipped.
pub fn parse_role_map(dict: &crate::objects::Dictionary) -> (r: RoleMap)
    ensures
        role_map_of(r@, dict@),
{
    let es = dict.entries();
    let ghost ev = crate::objects::object::entries_view(es@);
    proof {
        crate::objects::object::lemma_entries_view(es@);
    }
    let mut out: RoleMap = Vec::new();
    let mut i: usize = 0;
    while i < es.len()
        invariant
            i <= es@.len(),
            ev == crate::objects::object::entries_view(es@),
            ev == dict@,
            ev.len() == es@.len(),
            forall|j: int|
                0 <= j < es@.len() ==> #[trigger] ev[j] == (es@[j].0.0@, crate::objects::object::object_view(es@[j].1)),
            role_map_of(out@, ev.take(i as int)),
        decreases es.len() - i,
    {
        proof {
            assert(ev.take(i + 1) =~= ev.take(i as int).push(ev[i as int]));
            ev.take(i as int).lemma_filter_push(
                ev[i as int],
                |e: (Seq<char>, crate::objects::object::ObjView)| e.1 is Name,
            );
        }
        match &es[i].1 {
            crate::objects::Object::Name(n) => {
                let role = StandardRole::from_name(n.as_str());
                let ghost before = out@;
                out.push((es[i].0.0.clone(), role));
                proof {
                    let ne = name_entries(ev.take(i + 1));
                    assert(ne == name_entries(ev.take(i as int)).push(ev[i as int]));
                    assert forall|k: int| 0 <= k < ne.len() implies (#[trigger] out@[k]).0@ == ne[k].0
                        && role_of_name(ne[k].1->Name_0, out@[k].1) by {
                        if k < ne.len() - 1 {
                            assert(out@[k] == before[k]);
                        }
                    }
                }
            },
            _ => {
                proof {
                    assert(name_entries(ev.take(i + 1)) == name_entries(ev.take(i as int)));
                }
            },
        }
        i = i + 1;
    }
    assert(ev.take(es.len() as int) =~= ev);
    out
}

/// A structure element of the structure tree.
#[derive(Debug, PartialEq)]
pub struct StructElem {
    /// The structure type (e.g. "P", "H1", "Table", or custom).
    pub struct_type: String,
    /// The resolved standard role (after applying the role map).
    pub role: StandardRole,
    /// The element's title (`/T`).
    pub title: Option<String>,
    /// The element's language (`/Lang`).
    pub lang: Option<String>,
    /// Alternative text (`/Alt`).
    pub alt_text: Option<String>,
    /// Actual text (`/ActualText`).
    pub actual_text: Option<String>,
    /// Child structure elements.
    pub children: Vec<StructElem>,
}

/// The structure tree of a tagged PDF.
#[derive(Debug, PartialEq)]
pub struct StructTree {
    /// The role mapping from custom types to standard roles.
    pub role_map: RoleMap,
    /// The top-level structure elements.
    pub children: Vec<StructElem>,
    /// The document language from `/StructTreeRoot /Lang`.
    pub lang: Option<String>,
}

/// The elements of a subtree in depth-first order, the root first.
pub open spec fn preorder(e: StructElem) -> Seq<StructElem>
    decreases e, 1int,
{
    seq![e] + preorder_all(e.children@)
}

/// The elements of a list of subtrees in depth-first order.
pub open spec fn preorder_all(es: Seq<StructElem>) -> Seq<StructElem>
    decreases es, 0int,
{
    if es.len() == 0 {
        Seq::empty()
    } else {
        preorder_all(es.drop_last()) + preorder(es.last())
    }
}

/// Whether an element is a figure without alternative text.
pub open spec fn is_figure_without_alt(e: StructElem) -> bool {
    e.role is Figure && e.alt_text is None
}

impl StructTree {
    /// All structure elements in depth-first order.
    pub fn iter_elements(&self) -> (r: Vec<&StructElem>)
        ensures
            r@.map_values(|x: &StructElem| *x) == preorder_all(self.children@),
    {
        let mut result: Vec<&StructElem> = Vec::new();
        collect_all(&self.children, &mut result);
        assert(result@.map_values(|x: &StructElem| *x) =~= Seq::<StructElem>::empty() + preorder_all(
            self.children@,
        ));
        result
    }

    /// All figures that lack alternative text, in depth-first order.
    pub fn figures_without_alt_text(&self) -> (r: Vec<&StructElem>)
        ensures
            r@.map_values(|x: &StructElem| *x) == preorder_all(self.children@).filter(
                |e: StructElem| is_figure_without_alt(e),
            ),
    {
        let all = self.iter_elements();
        let ghost all_view = all@.map_values(|x: &StructElem| *x);
        let mut out: Vec<&StructElem> = Vec::new();
        let mut i: usize = 0;
        while i < all.len()
            invariant
                i <= all.len(),
                all_view == all@.map_values(|x: &StructElem| *x),
                out@.map_values(|x: &StructElem| *x) == all_view.take(i as int).filter(
                    |e: StructElem| is_figure_without_alt(e),
                ),
            decreases all.len() - i,
        {
            let e = all[i];
            proof {
                assert(all_view.take(i + 1) =~= all_view.take(i as int).push(*e));
                all_view.take(i as int).lemma_filter_push(*e, |e: StructElem| is_figure_without_alt(e));
            }
            let keep = match &e.role {
                StandardRole::Figure => e.alt_text.is_none(),
                _ => false,
            };
            let ghost before = out@.map_values(|x: &StructElem| *x);
            if keep {
                out.push(e);
                assert(out@.map_values(|x: &StructElem| *x) =~= before.push(*e));
            }
            i = i + 1;
        }
        assert(all_view.take(all.len() as int) =~= all_view);
        out
    }
}

/// Collects the elements of a list of subtrees, depth-first, onto `result`.
pub(crate) fn collect_all<'a>(elems: &'a Vec<StructElem>, result: &mut Vec<&'a StructElem>)
    ensures
        final(result)@.map_values(|x: &StructElem| *x) == old(result)@.map_values(|x: &StructElem| *x)
            + preorder_all(elems@),
    decreases elems@, 0int,
{
    let mut i: usize = 0;
    let ghost start = result@.map_values(|x: &StructElem| *x);
    while i < elems.len()
        invariant
            i <= elems.len(),
            result@.map_values(|x: &StructElem| *x) == start + preorder_all(elems@.take(i as int)),
        decreases elems.len() - i,
    {
        proof {
            assert(elems@.take(i + 1).drop_last() =~= elems@.take(i as int));
            assert(elems@.take(i + 1).last() == elems@[i as int]);
        }
        collect_elements(&elems[i], result);
        proof {
            assert(start + preorder_all(elems@.take(i as int)) + preorder(elems@[i as int]) =~= start
                + preorder_all(elems@.take(i + 1)));
        }
        i = i + 1;
    }
    assert(elems@.take(elems.len() as int) =~= elems@);
}

/// Collects the elements of a subtree, depth-first, onto `result`.
fn collect_elements<'a>(elem: &'a StructElem, result: &mut Vec<&'a StructElem>)
    ensures
        final(result)@.map_values(|x: &StructElem| *x) == old(result)@.map_values(|x: &StructElem| *x)
            + preorder(*elem),
    decreases *elem, 1int,
{
    let ghost before = result@.map_values(|x: &StructElem| *x);
    result.push(elem);
    assert(result@.map_values(|x: &StructElem| *x) =~= before.push(*elem));
    collect_all(&elem.children, result);
    assert(before.push(*elem) + preorder_all(elem.children@) =~= before + preorder(*elem));
}


/// A structure element as plain values: its type, the name its role is
/// read from (the role map's name for the type, else the type), its text
/// entries and its children.
pub struct ElemView {
    pub struct_type: Seq<char>,
    pub role_name: Seq<char>,
    pub title: Option<Seq<char>>,
    pub lang: Option<Seq<char>>,
    pub alt_text: Option<Seq<char>>,
    pub actual_text: Option<Seq<char>>,
    pub children: Seq<ElemView>,
}

/// A resolver of indirect references as a function on plain values.
pub type ResolverView = spec_fn(crate::objects::object::ObjView) -> Option<crate::objects::object::ObjView>;

/// The plain value of an optional object reference.
pub open spec fn opt_obj_view(r: Option<&crate::objects::Object>) -> Option<crate::objects::object::ObjView> {
    match r {
        Some(x) => Some(x@),
        None => None,
    }
}

/// The plain value of an optional string.
pub open spec fn opt_string_view(s: Option<String>) -> Option<Seq<char>> {
    match s {
        Some(x) => Some(x@),
        None => None,
    }
}

/// Whether a resolver accepts every object and gives results that depend
/// only on the object's value.
pub open spec fn resolver_ok<'d, R: Fn(&crate::objects::Object) -> Option<&'d crate::objects::Object>>(f: R) -> bool {
    &&& forall|x: &crate::objects::Object| #[trigger] call_requires(f, (x,))
    &&& forall|
        x: &crate::objects::Object,
        y: &crate::objects::Object,
        rx: Option<&'d crate::objects::Object>,
        ry: Option<&'d crate::objects::Object>,
    |
        #![trigger call_ensures(f, (x,), rx), call_ensures(f, (y,), ry)]
        x@ == y@ && call_ensures(f, (x,), rx) && call_ensures(f, (y,), ry) ==> opt_obj_view(rx)
            == opt_obj_view(ry)
}

/// Whether some call of the resolver on an object of value `ov` gave a
/// result of value `rv`.
pub open spec fn resolves_to<'d, R: Fn(&crate::objects::Object) -> Option<&'d crate::objects::Object>>(
    f: R,
    ov: crate::objects::object::ObjView,
    rv: Option<crate::objects::object::ObjView>,
) -> bool {
    exists|o: &crate::objects::Object, r: Option<&'d crate::objects::Object>|
        #![trigger call_ensures(f, (o,), r)]
        o@ == ov && call_ensures(f, (o,), r) && opt_obj_view(r) == rv
}

/// What a resolver gives for an object, as plain values.
pub open spec fn resolver_view<'d, R: Fn(&crate::objects::Object) -> Option<&'d crate::objects::Object>>(f: R) -> ResolverView {
    |ov: crate::objects::object::ObjView|
        choose|rv: Option<crate::objects::object::ObjView>| #[trigger] resolves_to(f, ov, rv)
}

/// Whether a resolver accepts every object and gives, for an object of
/// value `ov`, a result of value `rv(ov)`.
pub open spec fn resolver_agrees<'d, R: Fn(&crate::objects::Object) -> Option<&'d crate::objects::Object>>(
    f: R,
    rv: ResolverView,
) -> bool {
    &&& forall|x: &crate::objects::Object| #[trigger] call_requires(f, (x,))
    &&& forall|x: &crate::objects::Object, r: Option<&'d crate::objects::Object>|
        #[trigger] call_ensures(f, (x,), r) ==> opt_obj_view(r) == rv(x@)
}

proof fn lemma_ok_agrees<'d, R: Fn(&crate::objects::Object) -> Option<&'d crate::objects::Object>>(f: R)
    requires
        resolver_ok(f),
    ensures
        resolver_agrees(f, resolver_view(f)),
{
    assert forall|x: &crate::objects::Object, r: Option<&'d crate::objects::Object>|
        #[trigger] call_ensures(f, (x,), r) implies opt_obj_view(r) == resolver_view(f)(x@) by {
        lemma_resolved(f, x, r);
    }
}

proof fn lemma_resolved<'d, R: Fn(&crate::objects::Object) -> Option<&'d crate::objects::Object>>(
    f: R,
    o: &crate::objects::Object,
    r: Option<&'d crate::objects::Object>,
)
    requires
        resolver_ok(f),
        call_ensures(f, (o,), r),
    ensures
        resolver_view(f)(o@) == opt_obj_view(r),
{
    let ov = o@;
    assert(resolves_to(f, ov, opt_obj_view(r)));
    let rv = choose|rv: Option<crate::objects::object::ObjView>| #[trigger] resolves_to(f, ov, rv);
    assert(resolves_to(f, ov, rv));
    let (o2, r2) = choose|o2: &crate::objects::Object, r2: Option<&'d crate::objects::Object>|
        #![trigger call_ensures(f, (o2,), r2)]
        o2@ == ov && call_ensures(f, (o2,), r2) && opt_obj_view(r2) == rv;
    assert(call_ensures(f, (o,), r) && call_ensures(f, (o2,), r2));
}

/// The object an object stands for: what the resolver gives for it, or
/// the object itself where it gives nothing.
pub open spec fn resolved_or(rv: ResolverView, o: crate::objects::object::ObjView) -> crate::objects::object::ObjView {
    match rv(o) {
        Some(x) => x,
        None => o,
    }
}

/// The text of a String entry.
pub open spec fn text_entry(es: Seq<(Seq<char>, crate::objects::object::ObjView)>, key: Seq<char>) -> Option<Seq<char>> {
    match crate::objects::object::lookup(es, key) {
        Some(crate::objects::object::ObjView::String(b, _)) => crate::objects::object::text_string_value(b),
        _ => None,
    }
}

/// The name a structure type's role is read from: the role map's name
/// for the type, else the type itself.
pub open spec fn mapped_role_name(role_es: Seq<(Seq<char>, crate::objects::object::ObjView)>, st: Seq<char>) -> Seq<char> {
    match crate::objects::object::lookup(role_es, st) {
        Some(crate::objects::object::ObjView::Name(m)) => m,
        _ => st,
    }
}

/// The elements of a `/K` entry, to `depth` levels: an array gives the
/// elements of its items, a dictionary the element it is.
pub open spec fn children_spec(
    rv: ResolverView,
    role_es: Seq<(Seq<char>, crate::objects::object::ObjView)>,
    o: crate::objects::object::ObjView,
    depth: nat,
) -> Seq<ElemView>
    decreases depth, 0int, 0int,
{
    if depth == 0 {
        Seq::empty()
    } else {
        let o2 = resolved_or(rv, o);
        match o2 {
            crate::objects::object::ObjView::Array(items) => items_spec(
                rv,
                role_es,
                items,
                items.len() as int,
                (depth - 1) as nat,
            ),
            crate::objects::object::ObjView::Dictionary(_) => match elem_spec(
                rv,
                role_es,
                o2,
                (depth - 1) as nat,
            ) {
                Some(e) => seq![e],
                None => Seq::empty(),
            },
            _ => Seq::empty(),
        }
    }
}

/// The elements of the first `n` items of a `/K` array.
pub open spec fn items_spec(
    rv: ResolverView,
    role_es: Seq<(Seq<char>, crate::objects::object::ObjView)>,
    items: Seq<crate::objects::object::ObjView>,
    n: int,
    depth: nat,
) -> Seq<ElemView>
    decreases depth, 2int, n,
{
    if n <= 0 || n > items.len() {
        Seq::empty()
    } else {
        let prev = items_spec(rv, role_es, items, n - 1, depth);
        match elem_spec(rv, role_es, items[n - 1], depth) {
            Some(e) => prev.push(e),
            None => prev,
        }
    }
}

/// The structure element an object stands for: a dictionary with an `/S`
/// name.
pub open spec fn elem_spec(
    rv: ResolverView,
    role_es: Seq<(Seq<char>, crate::objects::object::ObjView)>,
    o: crate::objects::object::ObjView,
    depth: nat,
) -> Option<ElemView>
    decreases depth, 1int, 0int,
{
    match resolved_or(rv, o) {
        crate::objects::object::ObjView::Dictionary(es) => match crate::objects::object::lookup(es, "S"@) {
            Some(crate::objects::object::ObjView::Name(st)) => Some(
                ElemView {
                    struct_type: st,
                    role_name: mapped_role_name(role_es, st),
                    title: text_entry(es, "T"@),
                    lang: text_entry(es, "Lang"@),
                    alt_text: text_entry(es, "Alt"@),
                    actual_text: text_entry(es, "ActualText"@),
                    children: match crate::objects::object::lookup(es, "K"@) {
                        Some(k) => children_spec(rv, role_es, k, depth),
                        None => Seq::empty(),
                    },
                },
            ),
            _ => None,
        },
        _ => None,
    }
}

/// Whether an element is the one described.
pub open spec fn elem_matches(e: StructElem, v: ElemView) -> bool
    decreases e, 1int,
{
    &&& e.struct_type@ == v.struct_type
    &&& role_of_name(v.role_name, e.role)
    &&& opt_string_view(e.title) == v.title
    &&& opt_string_view(e.lang) == v.lang
    &&& opt_string_view(e.alt_text) == v.alt_text
    &&& opt_string_view(e.actual_text) == v.actual_text
    &&& elems_match(e.children@, v.children)
}

/// Whether elements are the ones described, in order.
pub open spec fn elems_match(es: Seq<StructElem>, vs: Seq<ElemView>) -> bool
    decreases es, 0int,
{
    es.len() == vs.len() && (es.len() == 0 || (elems_match(es.drop_last(), vs.drop_last())
        && elem_matches(es.last(), vs.last())))
}

proof fn lemma_elems_match_push(es: Seq<StructElem>, vs: Seq<ElemView>, e: StructElem, v: ElemView)
    requires
        elems_match(es, vs),
        elem_matches(e, v),
    ensures
        elems_match(es.push(e), vs.push(v)),
{
    assert(es.push(e).drop_last() =~= es);
    assert(vs.push(v).drop_last() =~= vs);
}

/// The `/RoleMap` entries of a structure tree root.
pub open spec fn role_entries(
    rv: ResolverView,
    es: Seq<(Seq<char>, crate::objects::object::ObjView)>,
) -> Seq<(Seq<char>, crate::objects::object::ObjView)> {
    match crate::objects::object::lookup(es, "RoleMap"@) {
        Some(o) => match resolved_or(rv, o) {
            crate::objects::object::ObjView::Dictionary(d) => d,
            _ => Seq::empty(),
        },
        None => Seq::empty(),
    }
}

/// Whether a structure tree is the one read from a `/StructTreeRoot`
/// dictionary: its role map, its language and its elements to 64 levels.
pub open spec fn tree_matches(t: StructTree, rv: ResolverView, es: Seq<(Seq<char>, crate::objects::object::ObjView)>) -> bool {
    &&& role_map_of(t.role_map@, role_entries(rv, es))
    &&& opt_string_view(t.lang) == text_entry(es, "Lang"@)
    &&& elems_match(
        t.children@,
        match crate::objects::object::lookup(es, "K"@) {
            Some(k) => children_spec(rv, role_entries(rv, es), k, MAX_STRUCT_DEPTH as nat),
            None => Seq::empty(),
        },
    )
}

/// The depth to which structure elements are read.
pub const MAX_STRUCT_DEPTH: usize = 64;

fn resolve_or<'a, 'd: 'a, R>(o: &'a crate::objects::Object, resolve: &R, Ghost(rv): Ghost<ResolverView>) -> (r: &'a crate::objects::Object)
    where R: Fn(&crate::objects::Object) -> Option<&'d crate::objects::Object>,
    requires
        resolver_agrees(*resolve, rv),
    ensures
        r@ == resolved_or(rv, o@),
{
    let t = resolve(o);
    match t {
        Some(x) => x,
        None => o,
    }
}

fn text_of(d: &crate::objects::Dictionary, key: &str) -> (r: Option<String>)
    ensures
        opt_string_view(r) == text_entry(d@, key@),
{
    d.get_text(key)
}

impl StructTree {
    /// Reads the structure tree from a `/StructTreeRoot` dictionary: the
    /// `/RoleMap`, the `/Lang` and the elements of `/K`, to 64 levels;
    /// `resolve` gives the object an indirect reference stands for.
    pub fn from_dict<'d, R>(dict: &crate::objects::Dictionary, resolve: &R) -> (r: StructTree)
        where R: Fn(&crate::objects::Object) -> Option<&'d crate::objects::Object>,
        requires
            resolver_ok(*resolve),
        ensures
            tree_matches(r, resolver_view(*resolve), dict@),
    {
        proof {
            lemma_ok_agrees(*resolve);
        }
        Self::from_dict_with(dict, resolve, Ghost(resolver_view(*resolve)))
    }

    /// Reads the structure tree from a `/StructTreeRoot` dictionary with a
    /// resolver whose results are given by `rv`.
    pub(crate) fn from_dict_with<'d, R>(dict: &crate::objects::Dictionary, resolve: &R, Ghost(rv): Ghost<ResolverView>) -> (r: StructTree)
        where R: Fn(&crate::objects::Object) -> Option<&'d crate::objects::Object>,
        requires
            resolver_agrees(*resolve, rv),
        ensures
            tree_matches(r, rv, dict@),
    {
        let empty = crate::objects::Dictionary::new();
        let role_dict: &crate::objects::Dictionary = match dict.get("RoleMap") {
            Some(o) => match resolve_or(o, resolve, Ghost(rv)) {
                crate::objects::Object::Dictionary(d) => d,
                _ => &empty,
            },
            None => &empty,
        };
        let role_map = parse_role_map(role_dict);
        let lang = text_of(dict, "Lang");
        let children = match dict.get("K") {
            Some(k) => Self::parse_children(k, role_dict, resolve, MAX_STRUCT_DEPTH, Ghost(rv)),
            None => Vec::new(),
        };
        StructTree { role_map, children, lang }
    }

    fn parse_children<'d, R>(
        obj: &crate::objects::Object,
        role_dict: &crate::objects::Dictionary,
        resolve: &R,
        depth: usize,
        Ghost(rv): Ghost<ResolverView>,
    ) -> (r: Vec<StructElem>)
        where R: Fn(&crate::objects::Object) -> Option<&'d crate::objects::Object>,
        requires
            resolver_agrees(*resolve, rv),
        ensures
            elems_match(r@, children_spec(rv, role_dict@, obj@, depth as nat)),
        decreases depth, 0int,
    {
        if depth == 0 {
            return Vec::new();
        }
        let o2 = resolve_or(obj, resolve, Ghost(rv));
        match o2 {
            crate::objects::Object::Array(arr) => {
                let ghost items = crate::objects::object::objects_view(arr@);
                proof {
                    crate::objects::object::lemma_objects_view(arr@);
                }
                let mut out: Vec<StructElem> = Vec::new();
                let mut i: usize = 0;
                while i < arr.len()
                    invariant
                        i <= arr@.len(),
                        depth > 0,
                        resolver_agrees(*resolve, rv),
                        items == crate::objects::object::objects_view(arr@),
                        items.len() == arr@.len(),
                        forall|j: int| 0 <= j < arr@.len() ==> #[trigger] items[j] == crate::objects::object::object_view(arr@[j]),
                        elems_match(out@, items_spec(rv, role_dict@, items, i as int, (depth - 1) as nat)),
                    decreases arr.len() - i,
                {
                    let e = Self::parse_struct_elem(&arr[i], role_dict, resolve, depth - 1, Ghost(rv));
                    let ghost prev = items_spec(rv, role_dict@, items, i as int, (depth - 1) as nat);
                    assert(items[i as int] == crate::objects::object::object_view(arr@[i as int]));
                    match e {
                        Some(x) => {
                            let ghost before = out@;
                            out.push(x);
                            proof {
                                let v = elem_spec(rv, role_dict@, items[i as int], (depth - 1) as nat)->Some_0;
                                lemma_elems_match_push(before, prev, x, v);
                                assert(out@ == before.push(x));
                            }
                        },
                        None => {},
                    }
                    i = i + 1;
                }
                out
            },
            crate::objects::Object::Dictionary(_) => {
                match Self::parse_struct_elem(o2, role_dict, resolve, depth - 1, Ghost(rv)) {
                    Some(x) => {
                        let mut out: Vec<StructElem> = Vec::new();
                        out.push(x);
                        proof {
                            let v = elem_spec(rv, role_dict@, o2@, (depth - 1) as nat)->Some_0;
                            lemma_elems_match_push(Seq::empty(), Seq::empty(), x, v);
                            assert(out@ =~= Seq::<StructElem>::empty().push(x));
                            assert(seq![v] =~= Seq::<ElemView>::empty().push(v));
                        }
                        out
                    },
                    None => Vec::new(),
                }
            },
            _ => Vec::new(),
        }
    }

    fn parse_struct_elem<'d, R>(
        obj: &crate::objects::Object,
        role_dict: &crate::objects::Dictionary,
        resolve: &R,
        depth: usize,
        Ghost(rv): Ghost<ResolverView>,
    ) -> (r: Option<StructElem>)
        where R: Fn(&crate::objects::Object) -> Option<&'d crate::objects::Object>,
        requires
            resolver_agrees(*resolve, rv),
        ensures
            match elem_spec(rv, role_dict@, obj@, depth as nat) {
                Some(v) => r matches Some(e) && elem_matches(e, v),
                None => r is None,
            },
        decreases depth, 1int,
    {
        let o2 = resolve_or(obj, resolve, Ghost(rv));
        let dict = match o2 {
            crate::objects::Object::Dictionary(d) => d,
            _ => {
                return None;
            },
        };
        let st: &str = match dict.get("S") {
            Some(crate::objects::Object::Name(n)) => n.as_str(),
            _ => {
                return None;
            },
        };
        let role = match role_dict.get(st) {
            Some(crate::objects::Object::Name(m)) => StandardRole::from_name(m.as_str()),
            _ => StandardRole::from_name(st),
        };
        let children = match dict.get("K") {
            Some(k) => Self::parse_children(k, role_dict, resolve, depth, Ghost(rv)),
            None => Vec::new(),
        };
        let e = StructElem {
            struct_type: st.to_owned(),
            role,
            title: text_of(dict, "T"),
            lang: text_of(dict, "Lang"),
            alt_text: text_of(dict, "Alt"),
            actual_text: text_of(dict, "ActualText"),
            children,
        };
        Some(e)
    }
}

} // verus!
