//! Checking the tags of a tagged PDF against the detected block structure.
use vstd::prelude::*;
use crate::accessibility::structure_tree::{collect_all, preorder_all, StructElem, StructTree};
use crate::content::structure_detection::{BlockRole, TextBlock};
use crate::document::{catalog_id_of, id_index, lemma_id_index, max_num, next_num, Document, ObjectsView};
use crate::error::{append_str, PdfResult};
use crate::objects::{IndirectRef, Object, ObjectId, PdfName, PdfString, StringFormat};
use crate::objects::object::{insert_sorted, lookup, objects_view, lemma_objects_view, ObjView};
use crate::objects::Dictionary;
use crate::unicode::{decimal, push_decimal, str_chars, str_eq, string_from_chars};

verus! {

/// An issue found in the tags of a document.
#[derive(Debug, Clone, PartialEq)]
pub struct TagIssue {
    /// Description of the issue.
    pub description: String,
    /// Suggested fix.
    pub suggestion: String,
    /// Severity: "error", "warning", "info".
    pub severity: String,
}

/// Whether a structure type names a heading: `H` and one more ASCII
/// character (a two-byte type).
pub open spec fn is_heading_tag(t: Seq<char>) -> bool {
    t.len() == 2 && t[0] == 'H' && (t[1] as u32) < 128
}

/// The level of a heading type whose second character is a digit.
pub open spec fn heading_level(t: Seq<char>) -> Option<u8> {
    if is_heading_tag(t) && '0' <= t[1] <= '9' {
        Some(((t[1] as u32) - 48) as u8)
    } else {
        None
    }
}

/// Whether an element is a heading.
pub open spec fn is_heading_elem(e: StructElem) -> bool {
    is_heading_tag(e.struct_type@)
}

/// Whether an element is a `Figure` (by its structure type) without
/// alternative text.
pub open spec fn is_bare_figure(e: StructElem) -> bool {
    e.struct_type@ == "Figure"@ && e.alt_text is None
}

/// The heading levels of a list of elements, in order.
pub open spec fn levels_of(es: Seq<StructElem>) -> Seq<u8>
    decreases es.len(),
{
    if es.len() == 0 {
        Seq::empty()
    } else {
        levels_of(es.drop_last()) + match heading_level(es.last().struct_type@) {
            Some(l) => seq![l],
            None => Seq::empty(),
        }
    }
}

fn heading_level_of(t: &String) -> (r: (bool, Option<u8>))
    ensures
        r.0 == is_heading_tag(t@),
        r.1 == heading_level(t@),
{
    let cs = str_chars(t.as_str());
    if cs.len() == 2 && cs[0] == 'H' && (cs[1] as u32) < 128 {
        let c = cs[1];
        if '0' <= c && c <= '9' {
            (true, Some(((c as u32) - 48) as u8))
        } else {
            (true, None)
        }
    } else {
        (false, None)
    }
}

/// Counts the heading elements of the subtrees, at any depth.
pub fn count_tagged_headings(children: &Vec<StructElem>) -> (r: usize)
    ensures
        r == preorder_all(children@).filter(|e: StructElem| is_heading_elem(e)).len(),
{
    let mut all: Vec<&StructElem> = Vec::new();
    collect_all(children, &mut all);
    let ghost es = all@.map_values(|x: &StructElem| *x);
    assert(es =~= preorder_all(children@));
    let mut count: usize = 0;
    let mut i: usize = 0;
    while i < all.len()
        invariant
            i <= all@.len(),
            es == all@.map_values(|x: &StructElem| *x),
            count == es.take(i as int).filter(|e: StructElem| is_heading_elem(e)).len(),
            count <= i,
        decreases all@.len() - i,
    {
        let e = all[i];
        proof {
            assert(es.take(i + 1) =~= es.take(i as int).push(*e));
            es.take(i as int).lemma_filter_push(*e, |e: StructElem| is_heading_elem(e));
        }
        let (h, _) = heading_level_of(&e.struct_type);
        if h {
            count = count + 1;
        }
        i = i + 1;
    }
    assert(es.take(es.len() as int) =~= es);
    count
}

/// Counts the `Figure` elements without alternative text, at any depth.
pub fn count_figures_without_alt(children: &Vec<StructElem>) -> (r: usize)
    ensures
        r == preorder_all(children@).filter(|e: StructElem| is_bare_figure(e)).len(),
{
    let mut all: Vec<&StructElem> = Vec::new();
    collect_all(children, &mut all);
    let ghost es = all@.map_values(|x: &StructElem| *x);
    assert(es =~= preorder_all(children@));
    let mut count: usize = 0;
    let mut i: usize = 0;
    while i < all.len()
        invariant
            i <= all@.len(),
            es == all@.map_values(|x: &StructElem| *x),
            count == es.take(i as int).filter(|e: StructElem| is_bare_figure(e)).len(),
            count <= i,
        decreases all@.len() - i,
    {
        let e = all[i];
        proof {
            assert(es.take(i + 1) =~= es.take(i as int).push(*e));
            es.take(i as int).lemma_filter_push(*e, |e: StructElem| is_bare_figure(e));
        }
        if str_eq(e.struct_type.as_str(), "Figure") && e.alt_text.is_none() {
            count = count + 1;
        }
        i = i + 1;
    }
    assert(es.take(es.len() as int) =~= es);
    count
}

/// The heading levels of the subtrees in document order.
pub fn collect_heading_levels(children: &Vec<StructElem>) -> (r: Vec<u8>)
    ensures
        r@ == levels_of(preorder_all(children@)),
{
    let mut all: Vec<&StructElem> = Vec::new();
    collect_all(children, &mut all);
    let ghost es = all@.map_values(|x: &StructElem| *x);
    assert(es =~= preorder_all(children@));
    let mut levels: Vec<u8> = Vec::new();
    let mut i: usize = 0;
    while i < all.len()
        invariant
            i <= all@.len(),
            es == all@.map_values(|x: &StructElem| *x),
            levels@ == levels_of(es.take(i as int)),
        decreases all@.len() - i,
    {
        let e = all[i];
        proof {
            assert(es.take(i + 1).drop_last() =~= es.take(i as int));
            assert(es.take(i + 1).last() == *e);
        }
        let (_, l) = heading_level_of(&e.struct_type);
        match l {
            Some(v) => {
                levels.push(v);
            },
            None => {},
        }
        assert(levels@ =~= levels_of(es.take(i + 1)));
        i = i + 1;
    }
    assert(es.take(es.len() as int) =~= es);
    levels
}

/// The three texts of an issue.
pub open spec fn issue_view(i: TagIssue) -> (Seq<char>, Seq<char>, Seq<char>) {
    (i.description@, i.suggestion@, i.severity@)
}

/// The texts of a list of issues.
pub open spec fn issue_views(v: Seq<TagIssue>) -> Seq<(Seq<char>, Seq<char>, Seq<char>)> {
    v.map_values(|i: TagIssue| issue_view(i))
}

/// The level-skip issues of a list of heading levels, from pair `k` on:
/// one for each level more than one above the level before it.
pub open spec fn skip_issues(levels: Seq<u8>, k: int) -> Seq<(Seq<char>, Seq<char>, Seq<char>)>
    decreases levels.len() - k,
{
    if k < 0 || k + 1 >= levels.len() {
        Seq::empty()
    } else {
        let rest = skip_issues(levels, k + 1);
        if levels[k + 1] > levels[k] + 1 {
            seq![(
                "Heading level skip: H"@ + decimal(levels[k] as nat) + " followed by H"@ + decimal(levels[k + 1] as nat),
                "Heading levels should not skip (H1 → H3 without H2)"@,
                "warning"@,
            )] + rest
        } else {
            rest
        }
    }
}

/// The number of detected heading blocks.
pub open spec fn detected_headings(roles: Seq<BlockRole>) -> nat {
    roles.filter(|b: BlockRole| b is Heading).len()
}

/// The issues of a document's tags: without a structure tree, only that;
/// else a missing language, detected headings with none tagged, figures
/// without alternative text, and each skipped heading level.
pub open spec fn tag_issues(tree: Option<StructTree>, roles: Seq<BlockRole>) -> Seq<(Seq<char>, Seq<char>, Seq<char>)> {
    match tree {
        None => seq![(
            "Document has no structure tree (untagged)"@,
            "Run auto_tag_from_blocks to add tags"@,
            "error"@,
        )],
        Some(t) => {
            let all = preorder_all(t.children@);
            let tagged = all.filter(|e: StructElem| is_heading_elem(e)).len();
            let missing = all.filter(|e: StructElem| is_bare_figure(e)).len();
            let detected = detected_headings(roles);
            (if t.lang is None {
                seq![(
                    "No /Lang attribute on structure tree"@,
                    "Set document language (e.g., 'en-US')"@,
                    "error"@,
                )]
            } else {
                Seq::empty()
            }) + (if detected > 0 && tagged == 0 {
                seq![(
                    "Detected "@ + decimal(detected) + " headings but structure tree has none"@,
                    "Add heading tags (H1-H6) to the structure tree"@,
                    "warning"@,
                )]
            } else {
                Seq::empty()
            }) + (if missing > 0 {
                seq![(
                    decimal(missing) + " Figure element(s) missing alt text"@,
                    "Add /Alt attribute to Figure structure elements"@,
                    "error"@,
                )]
            } else {
                Seq::empty()
            }) + skip_issues(levels_of(all), 0)
        },
    }
}

fn text(s: &str) -> (r: String)
    ensures
        r@ == s@,
{
    let mut out: Vec<char> = Vec::new();
    append_str(&mut out, s);
    string_from_chars(out.as_slice())
}

fn make_issue(description: String, suggestion: &str, severity: &str) -> (r: TagIssue)
    ensures
        issue_view(r) == (description@, suggestion@, severity@),
{
    TagIssue { description, suggestion: text(suggestion), severity: text(severity) }
}

fn count_heading_roles(roles: &[BlockRole]) -> (r: usize)
    ensures
        r == detected_headings(roles@),
{
    let mut count: usize = 0;
    let mut i: usize = 0;
    while i < roles.len()
        invariant
            i <= roles@.len(),
            count == roles@.take(i as int).filter(|b: BlockRole| b is Heading).len(),
            count <= i,
        decreases roles@.len() - i,
    {
        proof {
            assert(roles@.take(i + 1) =~= roles@.take(i as int).push(roles@[i as int]));
            roles@.take(i as int).lemma_filter_push(roles@[i as int], |b: BlockRole| b is Heading);
        }
        match &roles[i] {
            BlockRole::Heading(_) => {
                count = count + 1;
            },
            _ => {},
        }
        i = i + 1;
    }
    assert(roles@.take(roles@.len() as int) =~= roles@);
    count
}

/// Checks the tags of a document (`None` where it has no structure
/// tree) against the roles of its detected blocks. The document is not
/// changed: the issues are for the caller to act on.
pub fn check_tag_quality(tree: Option<&StructTree>, block_roles: &[BlockRole]) -> (r: Vec<TagIssue>)
    ensures
        issue_views(r@) == tag_issues(
            match tree {
                Some(t) => Some(*t),
                None => None,
            },
            block_roles@,
        ),
{
    let mut issues: Vec<TagIssue> = Vec::new();
    let t = match tree {
        Some(t) => t,
        None => {
            issues.push(make_issue(text("Document has no structure tree (untagged)"), "Run auto_tag_from_blocks to add tags", "error"));
            assert(issue_views(issues@) =~= tag_issues(None, block_roles@));
            return issues;
        },
    };
    let ghost all = preorder_all(t.children@);
    if t.lang.is_none() {
        issues.push(make_issue(text("No /Lang attribute on structure tree"), "Set document language (e.g., 'en-US')", "error"));
    }
    let ghost part1 = issue_views(issues@);
    let detected = count_heading_roles(block_roles);
    let tagged = count_tagged_headings(&t.children);
    if detected > 0 && tagged == 0 {
        let mut d: Vec<char> = Vec::new();
        append_str(&mut d, "Detected ");
        push_decimal(&mut d, detected as u64);
        append_str(&mut d, " headings but structure tree has none");
        issues.push(make_issue(string_from_chars(d.as_slice()), "Add heading tags (H1-H6) to the structure tree", "warning"));
    }
    let ghost part2 = issue_views(issues@);
    let missing = count_figures_without_alt(&t.children);
    if missing > 0 {
        let mut d: Vec<char> = Vec::new();
        push_decimal(&mut d, missing as u64);
        append_str(&mut d, " Figure element(s) missing alt text");
        issues.push(make_issue(string_from_chars(d.as_slice()), "Add /Alt attribute to Figure structure elements", "error"));
    }
    let ghost part3 = issue_views(issues@);
    let levels = collect_heading_levels(&t.children);
    let mut k: usize = 0;
    while levels.len() > 0 && k < levels.len() - 1
        invariant
            k <= levels@.len(),
            issue_views(issues@) + skip_issues(levels@, k as int) == part3 + skip_issues(levels@, 0),
        decreases levels@.len() - k,
    {
        let a = levels[k];
        let b = levels[k + 1];
        let ghost before = issue_views(issues@);
        if b as u16 > a as u16 + 1 {
            let mut d: Vec<char> = Vec::new();
            append_str(&mut d, "Heading level skip: H");
            push_decimal(&mut d, a as u64);
            append_str(&mut d, " followed by H");
            push_decimal(&mut d, b as u64);
            issues.push(make_issue(string_from_chars(d.as_slice()), "Heading levels should not skip (H1 → H3 without H2)", "warning"));
            proof {
                assert(issue_views(issues@) =~= before.push(issue_view(issues@.last())));
                let rest = skip_issues(levels@, k + 1);
                assert(skip_issues(levels@, k as int) == seq![issue_view(issues@.last())] + rest);
                assert(before.push(issue_view(issues@.last())) + rest =~= before + (seq![issue_view(issues@.last())] + rest));
            }
        }
        k = k + 1;
    }
    proof {
        assert(skip_issues(levels@, k as int) =~= Seq::empty());
        assert(issue_views(issues@) =~= part3 + skip_issues(levels@, 0));
    }
    issues
}


// ---------------------------------------------------------------------------
// Auto-tagging
// ---------------------------------------------------------------------------

/// A text block as plain values: its role and the texts of its runs.
pub open spec fn block_view(b: TextBlock) -> (BlockRole, Seq<Seq<char>>) {
    (b.role, b.run_texts@.map_values(|t: String| t@))
}

/// The structure type a block is tagged with: `H1`..`H6` for headings
/// (the level in decimal), `P` for paragraphs and unknown blocks, `LI`,
/// `Code` and `TD`.
pub open spec fn role_tag(r: BlockRole) -> Seq<char> {
    match r {
        BlockRole::Heading(n) => seq!['H'] + decimal(n as nat),
        BlockRole::Paragraph => "P"@,
        BlockRole::ListItem => "LI"@,
        BlockRole::Code => "Code"@,
        BlockRole::TableCell => "TD"@,
        BlockRole::Unknown => "P"@,
    }
}

/// Texts joined by single spaces.
pub open spec fn join_spaced(ts: Seq<Seq<char>>) -> Seq<char>
    decreases ts.len(),
{
    if ts.len() == 0 {
        Seq::empty()
    } else if ts.len() == 1 {
        ts[0]
    } else {
        join_spaced(ts.drop_last()) + seq![' '] + ts.last()
    }
}

/// A literal string holding the UTF-8 bytes of a text.
pub open spec fn text_literal(t: Seq<char>) -> ObjView {
    ObjView::String(vstd::utf8::encode_utf8(t), StringFormat::Literal)
}

/// The reference to object `n`, generation 0.
pub open spec fn ref_to(n: nat) -> ObjView {
    ObjView::Reference(n as u32, 0)
}

/// A structure element: `/Type /StructElem`, the structure type under
/// `/S`, the marked-content id under `/K`, and the text under
/// `/ActualText`.
pub open spec fn elem_for(role: Seq<char>, text: Seq<char>, mcid: int) -> ObjView {
    ObjView::Dictionary(
        insert_sorted(
            insert_sorted(
                insert_sorted(
                    insert_sorted(Seq::empty(), "Type"@, ObjView::Name("StructElem"@)),
                    "S"@,
                    ObjView::Name(role),
                ),
                "K"@,
                ObjView::Integer(mcid as i64),
            ),
            "ActualText"@,
            text_literal(text),
        ),
    )
}

/// The structure element of the block at `mcid`: its role and the run
/// texts joined by spaces.
pub open spec fn block_elem(b: (BlockRole, Seq<Seq<char>>), mcid: int) -> ObjView {
    elem_for(role_tag(b.0), join_spaced(b.1), mcid)
}

/// The `<Document>` element: the block elements as kids, and the language.
pub open spec fn document_elem(first: nat, k: nat, lang: Seq<char>) -> ObjView {
    ObjView::Dictionary(
        insert_sorted(
            insert_sorted(
                insert_sorted(
                    insert_sorted(Seq::empty(), "Type"@, ObjView::Name("StructElem"@)),
                    "S"@,
                    ObjView::Name("Document"@),
                ),
                "K"@,
                ObjView::Array(Seq::new(k, |i: int| ref_to((first + i) as nat))),
            ),
            "Lang"@,
            text_literal(lang),
        ),
    )
}

/// The parent tree: a number tree pairing each marked-content id with its
/// element.
pub open spec fn parent_tree(first: nat, k: nat) -> ObjView {
    ObjView::Dictionary(
        insert_sorted(
            insert_sorted(Seq::empty(), "Type"@, ObjView::Name("NumberTree"@)),
            "Nums"@,
            ObjView::Array(Seq::new(2 * k, |x: int| num_entry(first, x))),
        ),
    )
}

/// The entry at `x` of the parent tree's `/Nums`: the marked-content id
/// at even places, the reference to its element after it.
pub open spec fn num_entry(first: nat, x: int) -> ObjView {
    if x % 2 == 0 {
        ObjView::Integer((x / 2) as i64)
    } else {
        ref_to((first + x / 2) as nat)
    }
}

/// The structure tree root: the document element, the parent tree and the
/// language.
pub open spec fn struct_tree_root(doc_elem: nat, tree: nat, lang: Seq<char>) -> ObjView {
    ObjView::Dictionary(
        insert_sorted(
            insert_sorted(
                insert_sorted(
                    insert_sorted(Seq::empty(), "Type"@, ObjView::Name("StructTreeRoot"@)),
                    "K"@,
                    ref_to(doc_elem),
                ),
                "ParentTree"@,
                ref_to(tree),
            ),
            "Lang"@,
            text_literal(lang),
        ),
    )
}

/// The objects auto-tagging adds, numbered from `first`: one element per
/// block, the document element, the parent tree and the tree root.
pub open spec fn auto_tag_objects(first: nat, blocks: Seq<(BlockRole, Seq<Seq<char>>)>, lang: Seq<char>) -> ObjectsView {
    let k = blocks.len();
    Seq::new(k, |i: int| (((first + i) as u32, 0u16), block_elem(blocks[i], i))) + seq![
        (((first + k) as u32, 0u16), document_elem(first, k, lang)),
        (((first + k + 1) as u32, 0u16), parent_tree(first, k)),
        (((first + k + 2) as u32, 0u16), struct_tree_root(first + k, first + k + 1, lang)),
    ]
}

/// The objects tagging adds for elements given as (structure type,
/// text) pairs, numbered from `first`.
pub open spec fn tagged_objects(first: nat, items: Seq<(Seq<char>, Seq<char>)>, lang: Seq<char>) -> ObjectsView {
    let k = items.len();
    Seq::new(k, |i: int| (((first + i) as u32, 0u16), elem_for(items[i].0, items[i].1, i))) + seq![
        (((first + k) as u32, 0u16), document_elem(first, k, lang)),
        (((first + k + 1) as u32, 0u16), parent_tree(first, k)),
        (((first + k + 2) as u32, 0u16), struct_tree_root(first + k, first + k + 1, lang)),
    ]
}

/// Role and text pairs from two lists.
pub open spec fn pairs_of(roles: Seq<String>, texts: Seq<String>) -> Seq<(Seq<char>, Seq<char>)> {
    Seq::new(roles.len(), |i: int| (roles[i]@, texts[i]@))
}

/// A catalog once tagged: `/StructTreeRoot` names the root,
/// `/MarkInfo << /Marked true >>`, and `/Lang` where it had none.
pub open spec fn tagged_catalog(c: Seq<(Seq<char>, ObjView)>, root: nat, lang: Seq<char>) -> Seq<(Seq<char>, ObjView)> {
    let c1 = insert_sorted(c, "StructTreeRoot"@, ref_to(root));
    let c2 = insert_sorted(
        c1,
        "MarkInfo"@,
        ObjView::Dictionary(insert_sorted(Seq::empty(), "Marked"@, ObjView::Boolean(true))),
    );
    if lookup(c2, "Lang"@) is None {
        insert_sorted(c2, "Lang"@, text_literal(lang))
    } else {
        c2
    }
}

/// The objects with the catalog at `cid` tagged, when it is a dictionary.
pub open spec fn with_tagged_catalog(es: ObjectsView, cid: ObjectId, root: nat, lang: Seq<char>) -> ObjectsView {
    let p = id_index(es, cid);
    if p >= 0 {
        match es[p].1 {
            ObjView::Dictionary(c) => es.update(p, (cid, ObjView::Dictionary(tagged_catalog(c, root, lang)))),
            _ => es,
        }
    } else {
        es
    }
}

/// The catalog id a document's trailer names, or object 1.
pub open spec fn catalog_or_first(trailer: Seq<(Seq<char>, ObjView)>) -> ObjectId {
    match catalog_id_of(trailer) {
        Some(id) => id,
        None => (1u32, 0u16),
    }
}

/// The structure type of a block role.
fn role_tag_exec(r: &BlockRole) -> (s: String)
    ensures
        s@ == role_tag(*r),
{
    let mut v: Vec<char> = Vec::new();
    match r {
        BlockRole::Heading(n) => {
            v.push('H');
            push_decimal(&mut v, *n as u64);
        },
        BlockRole::Paragraph => append_str(&mut v, "P"),
        BlockRole::ListItem => append_str(&mut v, "LI"),
        BlockRole::Code => append_str(&mut v, "Code"),
        BlockRole::TableCell => append_str(&mut v, "TD"),
        BlockRole::Unknown => append_str(&mut v, "P"),
    }
    proof {
        assert(Seq::<char>::empty() + "P"@ =~= "P"@);
        assert(Seq::<char>::empty() + "LI"@ =~= "LI"@);
        assert(Seq::<char>::empty() + "Code"@ =~= "Code"@);
        assert(Seq::<char>::empty() + "TD"@ =~= "TD"@);
        assert(seq!['H'] + decimal(0nat) =~= seq!['H'] + decimal(0nat));
    }
    let s = string_from_chars(v.as_slice());
    proof {
        match r {
            BlockRole::Heading(n) => {
                assert(seq!['H'] + decimal(*n as u64 as nat) =~= role_tag(*r));
            },
            _ => {},
        }
    }
    s
}

/// The run texts of a block joined by single spaces.
fn joined_text(ts: &Vec<String>) -> (s: String)
    ensures
        s@ == join_spaced(ts@.map_values(|t: String| t@)),
{
    let ghost tv = ts@.map_values(|t: String| t@);
    let mut v: Vec<char> = Vec::new();
    let mut j: usize = 0;
    while j < ts.len()
        invariant
            j <= ts@.len(),
            tv == ts@.map_values(|t: String| t@),
            v@ == join_spaced(tv.take(j as int)),
        decreases ts@.len() - j,
    {
        let ghost before = v@;
        if j > 0 {
            v.push(' ');
        }
        append_str(&mut v, ts[j].as_str());
        proof {
            assert(tv.take(j + 1).drop_last() =~= tv.take(j as int));
            assert(tv.take(j + 1).last() == tv[j as int]);
            if j == 0 {
                assert(Seq::<char>::empty() + tv[0] =~= tv[0]);
                assert(tv.take(1)[0] == tv[0]);
            }
        }
        j = j + 1;
    }
    proof {
        assert(tv.take(ts@.len() as int) =~= tv);
    }
    string_from_chars(v.as_slice())
}

/// A literal string holding the UTF-8 bytes of a text.
fn literal_of(text: &str) -> (o: Object)
    ensures
        o@ == text_literal(text@),
{
    Object::String(PdfString::from_literal(text))
}

/// A reference to object `n`, generation 0.
fn reference_to(n: u32) -> (o: Object)
    ensures
        o@ == ref_to(n as nat),
{
    Object::Reference(IndirectRef::new(n, 0))
}

/// Adds one structure element per (structure type, text) pair, a
/// `<Document>` element holding them, a parent tree and a
/// `/StructTreeRoot`, and tags the catalog at `catalog_id`.
pub(crate) fn tag_elements(doc: &mut Document, roles: &Vec<String>, texts: &Vec<String>, language: &str, catalog_id: ObjectId)
    requires
        old(doc).wf(),
        roles@.len() == texts@.len(),
        roles@.len() > 0,
        next_num(old(doc)@.objects) + roles@.len() + 3 <= u32::MAX,
    ensures
        final(doc).wf(),
        final(doc)@.version == old(doc)@.version,
        final(doc)@.trailer == old(doc)@.trailer,
        final(doc)@.objects == with_tagged_catalog(
            old(doc)@.objects + tagged_objects(next_num(old(doc)@.objects), pairs_of(roles@, texts@), language@),
            catalog_id,
            next_num(old(doc)@.objects) + roles@.len() + 2,
            language@,
        ),
{
    let ghost ev = doc@.objects;
    let ghost first = next_num(ev);
    let ghost items = pairs_of(roles@, texts@);
    let ghost k = roles@.len();
    let mut numbers: Vec<u32> = Vec::new();
    let mut i: usize = 0;
    while i < roles.len()
        invariant
            i <= roles@.len(),
            k == roles@.len(),
            roles@.len() == texts@.len(),
            items == pairs_of(roles@, texts@),
            first == next_num(ev),
            first + k + 3 <= u32::MAX,
            doc.wf(),
            doc@.version == old(doc)@.version,
            doc@.trailer == old(doc)@.trailer,
            ev == old(doc)@.objects,
            max_num(doc@.objects) + 1 == first + i,
            numbers@ == Seq::new(i as nat, |j: int| (first + j) as u32),
            doc@.objects == ev + Seq::new(i as nat, |j: int| (((first + j) as u32, 0u16), elem_for(items[j].0, items[j].1, j))),
        decreases roles@.len() - i,
    {
        let role = &roles[i];
        let text = &texts[i];
        let mut elem = Dictionary::new();
        elem.insert(PdfName::new("Type"), Object::Name(PdfName::new("StructElem")));
        elem.insert(PdfName::new("S"), Object::Name(PdfName::new(role.as_str())));
        elem.insert(PdfName::new("K"), Object::Integer(i as i64));
        elem.insert(PdfName::new("ActualText"), literal_of(text.as_str()));
        let ghost ov = Object::Dictionary(elem)@;
        assert(ov == elem_for(items[i as int].0, items[i as int].1, i as int));
        let id = doc.add_object(Object::Dictionary(elem));
        numbers.push(id.0);
        proof {
            assert(numbers@ =~= Seq::new((i + 1) as nat, |j: int| (first + j) as u32));
            assert(doc@.objects =~= ev + Seq::new((i + 1) as nat, |j: int| (((first + j) as u32, 0u16), elem_for(items[j].0, items[j].1, j))));
        }
        i = i + 1;
    }
    let mut kids: Vec<Object> = Vec::new();
    let mut nums: Vec<Object> = Vec::new();
    let mut j: usize = 0;
    while j < numbers.len()
        invariant
            j <= numbers@.len(),
            numbers@.len() == k,
            numbers@ == Seq::new(k, |x: int| (first + x) as u32),
            first + k + 3 <= u32::MAX,
            kids@.len() == j,
            nums@.len() == 2 * j,
            forall|x: int| 0 <= x < j ==> (#[trigger] kids@[x])@ == ref_to((first + x) as nat),
            forall|x: int| 0 <= x < 2 * j ==> (#[trigger] nums@[x])@ == num_entry(first, x),
        decreases numbers@.len() - j,
    {
        kids.push(reference_to(numbers[j]));
        nums.push(Object::Integer(j as i64));
        nums.push(reference_to(numbers[j]));
        proof {
            assert((2 * j) % 2 == 0 && (2 * j) / 2 == j) by (nonlinear_arith);
            assert((2 * j + 1) % 2 == 1 && (2 * j + 1) / 2 == j) by (nonlinear_arith);
        }
        j = j + 1;
    }
    proof {
        lemma_objects_view(kids@);
        lemma_objects_view(nums@);
        assert(objects_view(kids@) =~= Seq::new(k, |x: int| ref_to((first + x) as nat)));
        assert(objects_view(nums@) =~= Seq::new(2 * k, |x: int| num_entry(first, x)));
    }
    let n0 = numbers[0];
    assert(n0 == first);
    let mut doc_elem = Dictionary::new();
    doc_elem.insert(PdfName::new("Type"), Object::Name(PdfName::new("StructElem")));
    doc_elem.insert(PdfName::new("S"), Object::Name(PdfName::new("Document")));
    doc_elem.insert(PdfName::new("K"), Object::Array(kids));
    doc_elem.insert(PdfName::new("Lang"), literal_of(language));
    let ghost v1 = Object::Dictionary(doc_elem)@;
    assert(v1 == document_elem(first, k, language@));
    let doc_elem_id = doc.add_object(Object::Dictionary(doc_elem));
    let mut tree = Dictionary::new();
    tree.insert(PdfName::new("Type"), Object::Name(PdfName::new("NumberTree")));
    tree.insert(PdfName::new("Nums"), Object::Array(nums));
    let ghost v2 = Object::Dictionary(tree)@;
    assert(v2 == parent_tree(first, k));
    let tree_id = doc.add_object(Object::Dictionary(tree));
    let mut root = Dictionary::new();
    root.insert(PdfName::new("Type"), Object::Name(PdfName::new("StructTreeRoot")));
    root.insert(PdfName::new("K"), reference_to(doc_elem_id.0));
    root.insert(PdfName::new("ParentTree"), reference_to(tree_id.0));
    root.insert(PdfName::new("Lang"), literal_of(language));
    let ghost v3 = Object::Dictionary(root)@;
    assert(v3 == struct_tree_root(first + k, first + k + 1, language@));
    let root_id = doc.add_object(Object::Dictionary(root));
    let ghost added = doc@.objects;
    proof {
        assert(added =~= ev + tagged_objects(first, items, language@));
    }
    let ghost cid = catalog_id;
    let target = doc.get_object_mut(catalog_id);
    match target {
        Some(Object::Dictionary(catalog)) => {
            let ghost c0 = catalog@;
            catalog.insert(PdfName::new("StructTreeRoot"), reference_to(root_id.0));
            let mut mark_info = Dictionary::new();
            mark_info.insert(PdfName::new("Marked"), Object::Boolean(true));
            catalog.insert(PdfName::new("MarkInfo"), Object::Dictionary(mark_info));
            if !catalog.contains_key("Lang") {
                catalog.insert(PdfName::new("Lang"), literal_of(language));
            }
            assert(catalog@ == tagged_catalog(c0, first + k + 2, language@));
        },
        _ => {},
    }
    proof {
        lemma_id_index(added, cid);
        let p = id_index(added, cid);
        if p >= 0 {
            assert(added[p].0 == cid);
            match added[p].1 {
                ObjView::Dictionary(c) => {
                    assert(doc@.objects[p] == (cid, ObjView::Dictionary(tagged_catalog(c, first + k + 2, language@))));
                },
                _ => {
                    assert(doc@.objects[p] == added[p]);
                },
            }
            assert(doc@.objects =~= with_tagged_catalog(added, cid, first + k + 2, language@));
        } else {
            assert(doc@.objects =~= added);
        }
    }
}

/// Builds a tagged structure tree from detected text blocks: one
/// structure element per block (its role, its marked-content id, its text
/// as `/ActualText`), a `<Document>` element holding them, a parent tree,
/// and a `/StructTreeRoot` that the catalog then names, with
/// `/MarkInfo << /Marked true >>` and the language where the catalog has
/// none. No blocks, no change.
///
/// This is the auto-tagging entry point for untagged PDFs.
pub fn auto_tag_from_blocks(doc: &mut Document, blocks: &[TextBlock], language: &str) -> (r: PdfResult<()>)
    requires
        old(doc).wf(),
        next_num(old(doc)@.objects) + blocks@.len() + 3 <= u32::MAX,
    ensures
        r is Ok,
        final(doc).wf(),
        final(doc)@.version == old(doc)@.version,
        final(doc)@.trailer == old(doc)@.trailer,
        blocks@.len() == 0 ==> final(doc)@ == old(doc)@,
        blocks@.len() > 0 ==> final(doc)@.objects == with_tagged_catalog(
            old(doc)@.objects + auto_tag_objects(
                next_num(old(doc)@.objects),
                blocks@.map_values(|b: TextBlock| block_view(b)),
                language@,
            ),
            catalog_or_first(old(doc)@.trailer),
            next_num(old(doc)@.objects) + blocks@.len() + 2,
            language@,
        ),
{
    if blocks.len() == 0 {
        return Ok(());
    }
    let ghost bv = blocks@.map_values(|b: TextBlock| block_view(b));
    let mut roles: Vec<String> = Vec::new();
    let mut texts: Vec<String> = Vec::new();
    let mut i: usize = 0;
    while i < blocks.len()
        invariant
            i <= blocks@.len(),
            bv == blocks@.map_values(|b: TextBlock| block_view(b)),
            roles@.len() == i,
            texts@.len() == i,
            forall|j: int| 0 <= j < i ==> (#[trigger] roles@[j])@ == role_tag(bv[j].0) && texts@[j]@ == join_spaced(bv[j].1),
        decreases blocks@.len() - i,
    {
        roles.push(role_tag_exec(&blocks[i].role));
        texts.push(joined_text(&blocks[i].run_texts));
        i = i + 1;
    }
    let catalog_id = match doc.catalog_object_id() {
        Some(c) => c,
        None => (1u32, 0u16),
    };
    assert(catalog_id == catalog_or_first(old(doc)@.trailer));
    let ghost first = next_num(doc@.objects);
    proof {
        let items = pairs_of(roles@, texts@);
        assert forall|j: int| 0 <= j < blocks@.len() implies #[trigger] block_elem(bv[j], j) == elem_for(items[j].0, items[j].1, j) by {
            assert((roles@[j])@ == role_tag(bv[j].0));
        }
        assert(auto_tag_objects(first, bv, language@) =~= tagged_objects(first, items, language@));
    }
    tag_elements(doc, &roles, &texts, language, catalog_id);
    Ok(())
}

} // verus!
