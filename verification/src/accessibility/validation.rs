//! Accessibility validation of a structure tree against a set of PDF/UA
//! checks.
use vstd::prelude::*;
use crate::accessibility::structure_tree::{
    is_figure_without_alt, preorder_all, StandardRole, StructElem, StructTree,
};
use crate::error::append_str;
use crate::unicode::{decimal, push_decimal, string_from_chars};

verus! {

/// The result of one accessibility check.
#[derive(Debug, Clone, PartialEq, Eq)]
pub struct AccessibilityCheck {
    /// Short identifier for the check.
    pub id: &'static str,
    /// Human-readable description.
    pub description: &'static str,
    /// Whether the check passed.
    pub passed: bool,
    /// Details about failures (empty if passed).
    pub details: Vec<String>,
}

/// An accessibility validation report.
#[derive(Debug, Clone, PartialEq, Eq)]
pub struct AccessibilityReport {
    /// The individual check results.
    pub checks: Vec<AccessibilityCheck>,
}

/// The texts of a list of strings.
pub open spec fn texts(v: Seq<String>) -> Seq<Seq<char>> {
    v.map_values(|s: String| s@)
}

/// Whether a check failed.
pub open spec fn check_failed(c: AccessibilityCheck) -> bool {
    !c.passed
}

/// Whether a check passed.
pub open spec fn check_passed(c: AccessibilityCheck) -> bool {
    c.passed
}

impl AccessibilityReport {
    /// Whether all checks passed.
    pub fn is_compliant(&self) -> (r: bool)
        ensures
            r == (forall|i: int| 0 <= i < self.checks@.len() ==> (#[trigger] self.checks@[i]).passed),
    {
        let mut i: usize = 0;
        while i < self.checks.len()
            invariant
                i <= self.checks@.len(),
                forall|k: int| 0 <= k < i ==> (#[trigger] self.checks@[k]).passed,
            decreases self.checks@.len() - i,
        {
            if !self.checks[i].passed {
                return false;
            }
            i = i + 1;
        }
        true
    }

    /// The failed checks, in order.
    pub fn failures(&self) -> (r: Vec<&AccessibilityCheck>)
        ensures
            r@.map_values(|c: &AccessibilityCheck| *c) == self.checks@.filter(
                |c: AccessibilityCheck| check_failed(c),
            ),
    {
        let mut out: Vec<&AccessibilityCheck> = Vec::new();
        let mut i: usize = 0;
        while i < self.checks.len()
            invariant
                i <= self.checks@.len(),
                out@.map_values(|c: &AccessibilityCheck| *c) == self.checks@.take(i as int).filter(
                    |c: AccessibilityCheck| check_failed(c),
                ),
            decreases self.checks@.len() - i,
        {
            let c = &self.checks[i];
            proof {
                assert(self.checks@.take(i + 1) =~= self.checks@.take(i as int).push(*c));
                self.checks@.take(i as int).lemma_filter_push(*c, |c: AccessibilityCheck| check_failed(c));
            }
            let ghost before = out@.map_values(|c: &AccessibilityCheck| *c);
            if !c.passed {
                out.push(c);
                assert(out@.map_values(|c: &AccessibilityCheck| *c) =~= before.push(*c));
            }
            i = i + 1;
        }
        assert(self.checks@.take(self.checks@.len() as int) =~= self.checks@);
        out
    }

    /// The number of checks.
    pub fn total_checks(&self) -> (r: usize)
        ensures
            r == self.checks@.len(),
    {
        self.checks.len()
    }

    /// The number of passed checks.
    pub fn passed_count(&self) -> (r: usize)
        ensures
            r == self.checks@.filter(|c: AccessibilityCheck| check_passed(c)).len(),
    {
        let mut n: usize = 0;
        let mut i: usize = 0;
        while i < self.checks.len()
            invariant
                i <= self.checks@.len(),
                n == self.checks@.take(i as int).filter(|c: AccessibilityCheck| check_passed(c)).len(),
                n <= i,
            decreases self.checks@.len() - i,
        {
            proof {
                assert(self.checks@.take(i + 1) =~= self.checks@.take(i as int).push(self.checks@[i as int]));
                self.checks@.take(i as int).lemma_filter_push(
                    self.checks@[i as int],
                    |c: AccessibilityCheck| check_passed(c),
                );
            }
            if self.checks[i].passed {
                n = n + 1;
            }
            i = i + 1;
        }
        assert(self.checks@.take(self.checks@.len() as int) =~= self.checks@);
        n
    }
}

/// The passed and the failed checks together make up all checks.
pub proof fn lemma_passed_plus_failed(checks: Seq<AccessibilityCheck>)
    ensures
        checks.filter(|c: AccessibilityCheck| check_passed(c)).len() + checks.filter(
            |c: AccessibilityCheck| check_failed(c),
        ).len() == checks.len(),
    decreases checks.len(),
{
    if checks.len() > 0 {
        let init = checks.drop_last();
        lemma_passed_plus_failed(init);
        assert(checks =~= init.push(checks.last()));
        init.lemma_filter_push(checks.last(), |c: AccessibilityCheck| check_passed(c));
        init.lemma_filter_push(checks.last(), |c: AccessibilityCheck| check_failed(c));
    }
}

/// A report is compliant exactly when it has no failures.
pub proof fn lemma_compliant_iff_no_failures(checks: Seq<AccessibilityCheck>)
    ensures
        (forall|i: int| 0 <= i < checks.len() ==> (#[trigger] checks[i]).passed) <==> checks.filter(
            |c: AccessibilityCheck| check_failed(c),
        ).len() == 0,
    decreases checks.len(),
{
    if checks.len() > 0 {
        let init = checks.drop_last();
        lemma_compliant_iff_no_failures(init);
        assert(checks =~= init.push(checks.last()));
        init.lemma_filter_push(checks.last(), |c: AccessibilityCheck| check_failed(c));
        if forall|i: int| 0 <= i < checks.len() ==> (#[trigger] checks[i]).passed {
            assert forall|i: int| 0 <= i < init.len() implies (#[trigger] init[i]).passed by {
                assert(init[i] == checks[i]);
            }
            assert(checks[checks.len() - 1].passed);
        }
        if checks.filter(|c: AccessibilityCheck| check_failed(c)).len() == 0 {
            assert forall|i: int| 0 <= i < checks.len() implies (#[trigger] checks[i]).passed by {
                if i < init.len() {
                    assert(init[i] == checks[i]);
                }
            }
        }
    }
}

// ---------------------------------------------------------------------------
// The checks
// ---------------------------------------------------------------------------

/// `n` numbered messages: prefix, the number (from 1), suffix.
pub open spec fn numbered(prefix: Seq<char>, suffix: Seq<char>, n: nat) -> Seq<Seq<char>> {
    Seq::new(n, |i: int| prefix + decimal((i + 1) as nat) + suffix)
}

/// The heading levels (above 0) among elements, in order.
pub open spec fn heading_levels(es: Seq<StructElem>) -> Seq<u8>
    decreases es.len(),
{
    if es.len() == 0 {
        Seq::empty()
    } else {
        let prev = heading_levels(es.drop_last());
        match es.last().role {
            StandardRole::H(l) => if l > 0 {
                prev.push(l)
            } else {
                prev
            },
            _ => prev,
        }
    }
}

/// The messages of the heading-order check and the deepest level seen.
pub open spec fn heading_scan(levels: Seq<u8>) -> (Seq<Seq<char>>, u8)
    decreases levels.len(),
{
    if levels.len() == 0 {
        (Seq::empty(), 0)
    } else {
        let (msgs, max) = heading_scan(levels.drop_last());
        let level = levels.last();
        let msgs2 = if level > max + 1 && max > 0 {
            msgs.push(
                "H"@ + decimal(level as nat) + " follows H"@ + decimal(max as nat) + " (skips level "@
                    + decimal((max + 1) as nat) + ")"@,
            )
        } else {
            msgs
        };
        (msgs2, if level > max {
            level
        } else {
            max
        })
    }
}

/// Whether the heading scan stays within 8-bit arithmetic: no heading
/// follows one of level 255.
pub open spec fn headings_fit(levels: Seq<u8>) -> bool {
    forall|i: int| 0 <= i < levels.len() - 1 ==> levels[i] != 255
}

/// Whether an element or one of its descendants has the role TH.
pub open spec fn has_th(e: StructElem) -> bool
    decreases e, 1int,
{
    e.role is TH || has_th_all(e.children@)
}

/// Whether one of a list of subtrees has an element with the role TH.
pub open spec fn has_th_all(es: Seq<StructElem>) -> bool
    decreases es, 0int,
{
    es.len() > 0 && (has_th_all(es.drop_last()) || has_th(es.last()))
}

/// Whether an element is a table.
pub open spec fn is_table(e: StructElem) -> bool {
    e.role is Table
}

/// The messages of the table-header check over the tables, in order.
pub open spec fn table_messages(tables: Seq<StructElem>) -> Seq<Seq<char>>
    decreases tables.len(),
{
    if tables.len() == 0 {
        Seq::empty()
    } else {
        let prev = table_messages(tables.drop_last());
        if has_th(tables.last()) {
            prev
        } else {
            prev.push("Table #"@ + decimal(tables.len()) + " has no TH (header) cells"@)
        }
    }
}

/// The messages of the deprecated-Note check over the elements, in order.
pub open spec fn note_messages(es: Seq<StructElem>) -> Seq<Seq<char>>
    decreases es.len(),
{
    if es.len() == 0 {
        Seq::empty()
    } else {
        let prev = note_messages(es.drop_last());
        if es.last().role is Note {
            prev.push("Element #"@ + decimal(es.len()) + " uses deprecated Note; use FENote for PDF/UA-2"@)
        } else {
            prev
        }
    }
}

/// The identifier, description, outcome and details of the checks of
/// `validate_pdf_ua` on a tree, in order.
pub open spec fn expected_check(tree: StructTree, k: int) -> (Seq<char>, Seq<char>, bool, Seq<Seq<char>>) {
    let all = preorder_all(tree.children@);
    if k == 0 {
        (
            "tagged-pdf"@,
            "Document must be a tagged PDF with structure tree"@,
            tree.children@.len() > 0,
            if tree.children@.len() == 0 {
                seq!["Structure tree has no children"@]
            } else {
                Seq::empty()
            },
        )
    } else if k == 1 {
        (
            "document-language"@,
            "Document must specify a natural language (/Lang)"@,
            tree.lang is Some,
            if tree.lang is None {
                seq!["No /Lang entry on StructTreeRoot"@]
            } else {
                Seq::empty()
            },
        )
    } else if k == 2 {
        let n = all.filter(|e: StructElem| is_figure_without_alt(e)).len();
        (
            "figure-alt-text"@,
            "All Figure elements must have alternative text (/Alt)"@,
            n == 0,
            numbered("Figure #"@, " missing /Alt text"@, n),
        )
    } else if k == 3 {
        let msgs = heading_scan(heading_levels(all)).0;
        (
            "heading-order"@,
            "Headings must be properly nested without skipping levels"@,
            msgs.len() == 0,
            msgs,
        )
    } else if k == 4 {
        let msgs = table_messages(all.filter(|e: StructElem| is_table(e)));
        (
            "table-headers"@,
            "Tables must contain header cells (TH)"@,
            msgs.len() == 0,
            msgs,
        )
    } else {
        let msgs = note_messages(all);
        (
            "pdfua2-fenote"@,
            "PDF/UA-2: Use FENote instead of deprecated Note element"@,
            msgs.len() == 0,
            msgs,
        )
    }
}

/// Whether a check is the one described.
pub open spec fn check_is(c: AccessibilityCheck, d: (Seq<char>, Seq<char>, bool, Seq<Seq<char>>)) -> bool {
    c.id@ == d.0 && c.description@ == d.1 && c.passed == d.2 && texts(c.details@) == d.3
}

fn text_of(parts: &str) -> (r: String)
    ensures
        r@ == parts@,
{
    let mut out: Vec<char> = Vec::new();
    append_str(&mut out, parts);
    string_from_chars(out.as_slice())
}

fn check_tagged_pdf(tree: &StructTree) -> (r: AccessibilityCheck)
    ensures
        check_is(r, expected_check(*tree, 0)),
{
    proof {
        reveal_strlit("Structure tree has no children");
    }
    let empty = tree.children.len() == 0;
    let mut details: Vec<String> = Vec::new();
    if empty {
        details.push(text_of("Structure tree has no children"));
    }
    assert(texts(details@) =~= expected_check(*tree, 0).3);
    AccessibilityCheck {
        id: "tagged-pdf",
        description: "Document must be a tagged PDF with structure tree",
        passed: !empty,
        details,
    }
}

fn check_document_language(tree: &StructTree) -> (r: AccessibilityCheck)
    ensures
        check_is(r, expected_check(*tree, 1)),
{
    let missing = tree.lang.is_none();
    let mut details: Vec<String> = Vec::new();
    if missing {
        details.push(text_of("No /Lang entry on StructTreeRoot"));
    }
    assert(texts(details@) =~= expected_check(*tree, 1).3);
    AccessibilityCheck {
        id: "document-language",
        description: "Document must specify a natural language (/Lang)",
        passed: !missing,
        details,
    }
}

/// A message made of a prefix, a number and a suffix.
fn numbered_message(prefix: &str, n: u64, suffix: &str) -> (r: String)
    ensures
        r@ == prefix@ + decimal(n as nat) + suffix@,
{
    let mut out: Vec<char> = Vec::new();
    append_str(&mut out, prefix);
    push_decimal(&mut out, n);
    append_str(&mut out, suffix);
    string_from_chars(out.as_slice())
}

fn check_figure_alt_text(tree: &StructTree) -> (r: AccessibilityCheck)
    ensures
        check_is(r, expected_check(*tree, 2)),
{
    let figures = tree.figures_without_alt_text();
    let mut details: Vec<String> = Vec::new();
    let mut i: usize = 0;
    while i < figures.len()
        invariant
            i <= figures@.len(),
            texts(details@) == numbered("Figure #"@, " missing /Alt text"@, i as nat),
        decreases figures@.len() - i,
    {
        let m = numbered_message("Figure #", (i + 1) as u64, " missing /Alt text");
        let ghost before = texts(details@);
        details.push(m);
        proof {
            assert(texts(details@) =~= before.push(m@));
            assert(texts(details@) =~= numbered("Figure #"@, " missing /Alt text"@, (i + 1) as nat));
        }
        i = i + 1;
    }
    proof {
        assert(figures@.map_values(|x: &StructElem| *x).len() == figures@.len());
    }
    AccessibilityCheck {
        id: "figure-alt-text",
        description: "All Figure elements must have alternative text (/Alt)",
        passed: details.len() == 0,
        details,
    }
}

fn check_heading_order(tree: &StructTree) -> (r: AccessibilityCheck)
    requires
        headings_fit(heading_levels(preorder_all(tree.children@))),
    ensures
        check_is(r, expected_check(*tree, 3)),
{
    let elements = tree.iter_elements();
    let ghost all = elements@.map_values(|x: &StructElem| *x);
    let mut details: Vec<String> = Vec::new();
    let mut max_level_seen: u8 = 0;
    let mut i: usize = 0;
    while i < elements.len()
        invariant
            i <= elements@.len(),
            all == elements@.map_values(|x: &StructElem| *x),
            all == preorder_all(tree.children@),
            headings_fit(heading_levels(all)),
            heading_scan(heading_levels(all.take(i as int))) == (texts(details@), max_level_seen),
            heading_levels(all.take(i as int)).len() > 0 ==> max_level_seen >= heading_levels(
                all.take(i as int),
            ).last(),
            heading_levels(all.take(i as int)).is_prefix_of(heading_levels(all)),
        decreases elements@.len() - i,
    {
        let e = elements[i];
        proof {
            assert(all.take(i + 1).drop_last() =~= all.take(i as int));
            assert(all.take(i + 1).last() == *e);
            lemma_heading_levels_prefix(all, i + 1);
        }
        let ghost prev_levels = heading_levels(all.take(i as int));
        match &e.role {
            StandardRole::H(level) => {
                let level = *level;
                if level > 0 {
                    proof {
                        let lv = heading_levels(all);
                        let cur = heading_levels(all.take(i + 1));
                        assert(cur == prev_levels.push(level));
                        assert(cur.drop_last() =~= prev_levels);
                        assert(cur.last() == level);
                        if prev_levels.len() > 0 {
                            assert(lv[prev_levels.len() - 1] == prev_levels.last());
                            assert(prev_levels.len() - 1 < lv.len() - 1);
                        }
                        lemma_max_is_some_level(prev_levels);
                    }
                    if max_level_seen > 0 && level > max_level_seen + 1 {
                        let mut out: Vec<char> = Vec::new();
                        append_str(&mut out, "H");
                        push_decimal(&mut out, level as u64);
                        append_str(&mut out, " follows H");
                        push_decimal(&mut out, max_level_seen as u64);
                        append_str(&mut out, " (skips level ");
                        push_decimal(&mut out, (max_level_seen + 1) as u64);
                        append_str(&mut out, ")");
                        let ghost before = texts(details@);
                        details.push(string_from_chars(out.as_slice()));
                        assert(texts(details@) =~= before.push(out@));
                    }
                    if level > max_level_seen {
                        max_level_seen = level;
                    }
                } else {
                    assert(heading_levels(all.take(i + 1)) == prev_levels);
                }
            },
            _ => {
                assert(heading_levels(all.take(i + 1)) == prev_levels);
            },
        }
        i = i + 1;
    }
    assert(all.take(elements@.len() as int) =~= all);
    AccessibilityCheck {
        id: "heading-order",
        description: "Headings must be properly nested without skipping levels",
        passed: details.len() == 0,
        details,
    }
}

/// The heading levels of a prefix are a prefix of the heading levels.
proof fn lemma_heading_levels_prefix(es: Seq<StructElem>, i: int)
    requires
        0 <= i <= es.len(),
    ensures
        heading_levels(es.take(i)).is_prefix_of(heading_levels(es)),
    decreases es.len() - i,
{
    if i < es.len() {
        lemma_heading_levels_prefix(es, i + 1);
        assert(es.take(i + 1).drop_last() =~= es.take(i));
    } else {
        assert(es.take(i) =~= es);
    }
}

/// The deepest level seen is 0 or one of the levels.
proof fn lemma_max_is_some_level(levels: Seq<u8>)
    ensures
        heading_scan(levels).1 == 0 || exists|k: int| 0 <= k < levels.len() && levels[k] == heading_scan(levels).1,
        levels.len() > 0 ==> heading_scan(levels).1 >= levels.last(),
    decreases levels.len(),
{
    if levels.len() > 0 {
        lemma_max_is_some_level(levels.drop_last());
        let m = heading_scan(levels.drop_last()).1;
        if m != 0 && levels.last() <= m {
            let k = choose|k: int| 0 <= k < levels.drop_last().len() && levels.drop_last()[k] == m;
            assert(levels[k] == m);
        }
        if levels.last() > m {
            assert(levels[levels.len() - 1] == heading_scan(levels).1);
        }
    }
}

fn has_descendant_th(elem: &StructElem) -> (r: bool)
    ensures
        r == has_th(*elem),
    decreases *elem, 1int,
{
    match &elem.role {
        StandardRole::TH => true,
        _ => any_has_th(&elem.children),
    }
}

fn any_has_th(elems: &Vec<StructElem>) -> (r: bool)
    ensures
        r == has_th_all(elems@),
    decreases elems@, 0int,
{
    let mut i: usize = 0;
    while i < elems.len()
        invariant
            i <= elems@.len(),
            !has_th_all(elems@.take(i as int)),
        decreases elems@.len() - i,
    {
        proof {
            assert(elems@.take(i + 1).drop_last() =~= elems@.take(i as int));
            assert(elems@.take(i + 1).last() == elems@[i as int]);
        }
        if has_descendant_th(&elems[i]) {
            proof {
                lemma_has_th_all_prefix(elems@, i + 1);
            }
            return true;
        }
        i = i + 1;
    }
    assert(elems@.take(elems@.len() as int) =~= elems@);
    false
}

proof fn lemma_has_th_all_prefix(es: Seq<StructElem>, i: int)
    requires
        0 <= i <= es.len(),
        has_th_all(es.take(i)),
    ensures
        has_th_all(es),
    decreases es.len() - i,
{
    if i < es.len() {
        assert(es.take(i + 1).drop_last() =~= es.take(i));
        lemma_has_th_all_prefix(es, i + 1);
    } else {
        assert(es.take(i) =~= es);
    }
}

fn check_table_headers(tree: &StructTree) -> (r: AccessibilityCheck)
    ensures
        check_is(r, expected_check(*tree, 4)),
{
    let elements = tree.iter_elements();
    let ghost all = elements@.map_values(|x: &StructElem| *x);
    let mut details: Vec<String> = Vec::new();
    let mut count: usize = 0;
    let mut i: usize = 0;
    while i < elements.len()
        invariant
            i <= elements@.len(),
            all == elements@.map_values(|x: &StructElem| *x),
            all == preorder_all(tree.children@),
            count == all.take(i as int).filter(|e: StructElem| is_table(e)).len(),
            count <= i,
            texts(details@) == table_messages(all.take(i as int).filter(|e: StructElem| is_table(e))),
        decreases elements@.len() - i,
    {
        let e = elements[i];
        proof {
            assert(all.take(i + 1) =~= all.take(i as int).push(*e));
            all.take(i as int).lemma_filter_push(*e, |e: StructElem| is_table(e));
        }
        let ghost prev = all.take(i as int).filter(|e: StructElem| is_table(e));
        match &e.role {
            StandardRole::Table => {
                count = count + 1;
                proof {
                    assert(prev.push(*e).drop_last() =~= prev);
                }
                if !has_descendant_th(e) {
                    let m = numbered_message("Table #", count as u64, " has no TH (header) cells");
                    let ghost before = texts(details@);
                    details.push(m);
                    assert(texts(details@) =~= before.push(m@));
                }
            },
            _ => {},
        }
        i = i + 1;
    }
    assert(all.take(elements@.len() as int) =~= all);
    AccessibilityCheck {
        id: "table-headers",
        description: "Tables must contain header cells (TH)",
        passed: details.len() == 0,
        details,
    }
}

fn check_pdfua2_fenote(tree: &StructTree) -> (r: AccessibilityCheck)
    ensures
        check_is(r, expected_check(*tree, 5)),
{
    let elements = tree.iter_elements();
    let ghost all = elements@.map_values(|x: &StructElem| *x);
    let mut details: Vec<String> = Vec::new();
    let mut i: usize = 0;
    while i < elements.len()
        invariant
            i <= elements@.len(),
            all == elements@.map_values(|x: &StructElem| *x),
            all == preorder_all(tree.children@),
            texts(details@) == note_messages(all.take(i as int)),
        decreases elements@.len() - i,
    {
        let e = elements[i];
        proof {
            assert(all.take(i + 1).drop_last() =~= all.take(i as int));
            assert(all.take(i + 1).last() == *e);
        }
        match &e.role {
            StandardRole::Note => {
                let m = numbered_message(
                    "Element #",
                    (i + 1) as u64,
                    " uses deprecated Note; use FENote for PDF/UA-2",
                );
                let ghost before = texts(details@);
                details.push(m);
                assert(texts(details@) =~= before.push(m@));
            },
            _ => {},
        }
        i = i + 1;
    }
    assert(all.take(elements@.len() as int) =~= all);
    AccessibilityCheck {
        id: "pdfua2-fenote",
        description: "PDF/UA-2: Use FENote instead of deprecated Note element",
        passed: details.len() == 0,
        details,
    }
}

/// Validates a structure tree against the accessibility checks: tagged
/// PDF, document language, figure alternative text, heading order, table
/// headers, and the deprecated Note element.
pub fn validate_pdf_ua(tree: &StructTree) -> (r: AccessibilityReport)
    requires
        headings_fit(heading_levels(preorder_all(tree.children@))),
    ensures
        r.checks@.len() == 6,
        forall|k: int| 0 <= k < 6 ==> #[trigger] check_is(r.checks@[k], expected_check(*tree, k)),
{
    let mut checks: Vec<AccessibilityCheck> = Vec::new();
    checks.push(check_tagged_pdf(tree));
    checks.push(check_document_language(tree));
    checks.push(check_figure_alt_text(tree));
    checks.push(check_heading_order(tree));
    checks.push(check_table_headers(tree));
    checks.push(check_pdfua2_fenote(tree));
    AccessibilityReport { checks }
}


// ---------------------------------------------------------------------------
// Laws of the report
// ---------------------------------------------------------------------------

/// The checks of a report come in a fixed order; each passes exactly when
/// it has no details; the tagged-PDF check passes exactly when the tree
/// has elements, the language check exactly when it has a language, and
/// the alternative-text check has one detail per figure without
/// alternative text.
pub proof fn lemma_report_laws(tree: StructTree)
    ensures
        forall|k: int| 0 <= k < 6 ==> #[trigger] expected_check(tree, k).2 == (expected_check(tree, k).3.len() == 0),
        expected_check(tree, 0).0 == "tagged-pdf"@,
        expected_check(tree, 1).0 == "document-language"@,
        expected_check(tree, 2).0 == "figure-alt-text"@,
        expected_check(tree, 3).0 == "heading-order"@,
        expected_check(tree, 4).0 == "table-headers"@,
        expected_check(tree, 5).0 == "pdfua2-fenote"@,
        expected_check(tree, 0).2 == (tree.children@.len() > 0),
        expected_check(tree, 1).2 == (tree.lang is Some),
        expected_check(tree, 2).3.len() == preorder_all(tree.children@).filter(|e: StructElem| is_figure_without_alt(e)).len(),
{
}

/// The deepest of a list of heading levels (0 for none).
pub open spec fn max_level(s: Seq<u8>) -> u8
    decreases s.len(),
{
    if s.len() == 0 {
        0
    } else {
        let m = max_level(s.drop_last());
        if s.last() > m {
            s.last()
        } else {
            m
        }
    }
}

/// The heading scan tracks the deepest level seen.
proof fn lemma_scan_max(levels: Seq<u8>)
    ensures
        heading_scan(levels).1 == max_level(levels),
        levels.len() > 0 && (forall|i: int| 0 <= i < levels.len() ==> #[trigger] levels[i] > 0) ==> max_level(levels) > 0,
    decreases levels.len(),
{
    if levels.len() > 0 {
        lemma_scan_max(levels.drop_last());
        if levels.len() > 1 && (forall|i: int| 0 <= i < levels.len() ==> #[trigger] levels[i] > 0) {
            assert forall|i: int| 0 <= i < levels.drop_last().len() implies #[trigger] levels.drop_last()[i] > 0 by {
                assert(levels.drop_last()[i] == levels[i]);
            }
        }
    }
}

/// Heading order: the heading-order check finds nothing exactly when
/// every heading after the first is at most one level below the deepest
/// heading before it.
pub proof fn lemma_heading_order(levels: Seq<u8>)
    requires
        forall|i: int| 0 <= i < levels.len() ==> #[trigger] levels[i] > 0,
    ensures
        (heading_scan(levels).0.len() == 0) == (forall|i: int|
            1 <= i < levels.len() ==> #[trigger] levels[i] <= max_level(levels.take(i)) + 1),
    decreases levels.len(),
{
    if levels.len() > 0 {
        let t = levels.drop_last();
        assert forall|i: int| 0 <= i < t.len() implies #[trigger] t[i] > 0 by {
            assert(t[i] == levels[i]);
        }
        lemma_heading_order(t);
        lemma_scan_max(t);
        assert(levels.take(levels.len() - 1) =~= t);
        assert forall|i: int| 1 <= i < t.len() implies (#[trigger] levels[i] <= max_level(levels.take(i)) + 1) == (t[i]
            <= max_level(t.take(i)) + 1) by {
            assert(levels.take(i) =~= t.take(i));
            assert(levels[i] == t[i]);
        }
        let (msgs, m) = heading_scan(t);
        if levels.len() > 1 {
            assert(t[0] > 0);
            assert(m > 0);
        }
        if heading_scan(levels).0.len() == 0 {
            assert forall|i: int| 1 <= i < levels.len() implies #[trigger] levels[i] <= max_level(levels.take(i)) + 1 by {
                if i < t.len() {
                    assert(t[i] <= max_level(t.take(i)) + 1);
                }
            }
        } else if msgs.len() == 0 && levels.len() > 1 {
            let i = levels.len() - 1;
            assert(!(levels[i] <= max_level(levels.take(i)) + 1));
        } else if msgs.len() > 0 {
            let i = choose|i: int| 1 <= i < t.len() && !(#[trigger] t[i] <= max_level(t.take(i)) + 1);
            assert(!(levels[i] <= max_level(levels.take(i)) + 1));
        }
    }
}

/// Heading levels gathered from elements are all above 0.
pub proof fn lemma_heading_levels_positive(es: Seq<StructElem>)
    ensures
        forall|i: int| 0 <= i < heading_levels(es).len() ==> #[trigger] heading_levels(es)[i] > 0,
    decreases es.len(),
{
    if es.len() > 0 {
        let prev = heading_levels(es.drop_last());
        lemma_heading_levels_positive(es.drop_last());
        assert forall|i: int| 0 <= i < heading_levels(es).len() implies #[trigger] heading_levels(es)[i] > 0 by {
            if i < prev.len() {
                assert(heading_levels(es)[i] == prev[i]);
            }
        }
    }
}
} // verus!
