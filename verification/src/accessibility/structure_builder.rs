//! Structure from recognised text: grouping words into paragraphs and
//! telling headings from body text by word height.
use vstd::prelude::*;
use vstd::relations::{sorted_by, total_ordering};
use crate::error::{append_str, PdfResult};
use crate::accessibility::auto_tag::{join_spaced, pairs_of, tag_elements, tagged_objects, with_tagged_catalog};
use crate::document::{next_num, Document};
use crate::unicode::{decimal, push_decimal, string_from_chars};

verus! {

/// A recognised word with its box in image pixels.
#[derive(Debug, Clone)]
pub struct OcrWord {
    /// The word's text.
    pub text: String,
    /// Left edge.
    pub x: u32,
    /// Top edge.
    pub y: u32,
    /// Width.
    pub width: u32,
    /// Height.
    pub height: u32,
}

/// The words recognised on a page image.
#[derive(Debug, Clone)]
pub struct OcrResult {
    /// The words, in reading order.
    pub words: Vec<OcrWord>,
    /// Image width in pixels.
    pub image_width: u32,
    /// Image height in pixels.
    pub image_height: u32,
}

/// The bottom edge of a word.
pub open spec fn bottom(w: OcrWord) -> int {
    w.y + w.height
}

/// Whether a paragraph break comes before word `i` (from the second word
/// on): the word's top lies more than `threshold` below the bottom of
/// the word before it.
pub open spec fn breaks_before(words: Seq<OcrWord>, threshold: u32, i: int) -> bool {
    words[i].y - bottom(words[i - 1]) > threshold
}

/// The paragraphs of the first `n` words, as runs of word indices.
pub open spec fn paragraphs_of(words: Seq<OcrWord>, threshold: u32, n: nat) -> Seq<Seq<usize>>
    decreases n,
{
    if n == 0 {
        Seq::empty()
    } else if n == 1 {
        seq![seq![0usize]]
    } else {
        let prev = paragraphs_of(words, threshold, (n - 1) as nat);
        let i = (n - 1) as usize;
        if breaks_before(words, threshold, n - 1) {
            prev.push(seq![i])
        } else {
            prev.update(prev.len() - 1, prev.last().push(i))
        }
    }
}

/// Whether every word's bottom edge fits in 32 bits.
pub open spec fn bottoms_fit(words: Seq<OcrWord>) -> bool {
    forall|i: int| 0 <= i < words.len() ==> bottom(#[trigger] words[i]) <= u32::MAX
}

/// The views of a list of index lists.
pub open spec fn index_views(v: Seq<Vec<usize>>) -> Seq<Seq<usize>> {
    v.map_values(|p: Vec<usize>| p@)
}

proof fn lemma_paragraphs_nonempty(words: Seq<OcrWord>, threshold: u32, n: nat)
    requires
        n >= 1,
    ensures
        paragraphs_of(words, threshold, n).len() >= 1,
    decreases n,
{
    if n > 1 {
        lemma_paragraphs_nonempty(words, threshold, (n - 1) as nat);
    }
}

/// Groups words into paragraphs: a word more than `line_gap_threshold`
/// pixels below the bottom of the word before it starts a new paragraph.
/// Returns the word indices of each paragraph.
pub fn group_words_into_paragraphs(result: &OcrResult, line_gap_threshold: u32) -> (r: Vec<Vec<usize>>)
    requires
        bottoms_fit(result.words@),
    ensures
        index_views(r@) == paragraphs_of(result.words@, line_gap_threshold, result.words@.len()),
{
    let words = &result.words;
    if words.len() == 0 {
        let empty: Vec<Vec<usize>> = Vec::new();
        assert(index_views(empty@) =~= Seq::<Seq<usize>>::empty());
        return empty;
    }
    let ghost ws = words@;
    let mut paragraphs: Vec<Vec<usize>> = Vec::new();
    let mut current: Vec<usize> = Vec::new();
    current.push(0);
    assert(bottom(ws[0]) <= u32::MAX);
    let mut prev_bottom: u32 = words[0].y + words[0].height;
    let mut i: usize = 1;
    assert(index_views(paragraphs@).push(current@) =~= paragraphs_of(ws, line_gap_threshold, 1));
    while i < words.len()
        invariant
            ws == words@,
            bottoms_fit(ws),
            1 <= i <= ws.len(),
            prev_bottom == bottom(ws[i - 1]),
            current@.len() >= 1,
            index_views(paragraphs@).push(current@) == paragraphs_of(ws, line_gap_threshold, i as nat),
        decreases ws.len() - i,
    {
        let word = &words[i];
        let gap: u32 = if word.y >= prev_bottom { word.y - prev_bottom } else { 0 };
        let ghost before = index_views(paragraphs@).push(current@);
        proof {
            lemma_paragraphs_nonempty(ws, line_gap_threshold, i as nat);
        }
        if gap > line_gap_threshold {
            let done = current;
            paragraphs.push(done);
            current = Vec::new();
            current.push(i);
            assert(index_views(paragraphs@).push(current@) =~= before.push(seq![i]));
        } else {
            current.push(i);
            assert(index_views(paragraphs@).push(current@) =~= before.update(
                before.len() - 1,
                before.last().push(i),
            ));
        }
        assert(bottom(ws[i as int]) <= u32::MAX);
        prev_bottom = word.y + word.height;
        i = i + 1;
    }
    paragraphs.push(current);
    paragraphs
}

// ---------------------------------------------------------------------------
// Headings by word height
// ---------------------------------------------------------------------------

/// The order of word heights.
pub open spec fn height_leq() -> spec_fn(u32, u32) -> bool {
    |a: u32, b: u32| a <= b
}

/// The median of a list of heights: the element at half its length once
/// sorted; 0 for no heights.
pub open spec fn median(s: Seq<u32>) -> u32 {
    if s.len() == 0 {
        0
    } else {
        s.sort_by(height_leq())[(s.len() / 2) as int]
    }
}

proof fn lemma_height_order()
    ensures
        total_ordering(height_leq()),
{
}

fn sort_heights(v: &Vec<u32>) -> (r: Vec<u32>)
    ensures
        r@ == v@.sort_by(height_leq()),
{
    broadcast use vstd::seq_lib::group_to_multiset_ensures;
    let mut out: Vec<u32> = Vec::new();
    let mut i: usize = 0;
    while i < v.len()
        invariant
            i <= v@.len(),
            sorted_by(out@, height_leq()),
            out@.to_multiset() == v@.take(i as int).to_multiset(),
        decreases v@.len() - i,
    {
        let x = v[i];
        let mut pos: usize = 0;
        while pos < out.len() && out[pos] <= x
            invariant
                pos <= out@.len(),
                forall|k: int| 0 <= k < pos ==> out@[k] <= x,
            decreases out@.len() - pos,
        {
            pos = pos + 1;
        }
        let ghost old_out = out@;
        out.insert(pos, x);
        proof {
            assert(out@ == old_out.insert(pos as int, x));
            assert forall|a: int, b: int| 0 <= a < b < out@.len() implies #[trigger] (height_leq())(out@[a], out@[b]) by {
                if a < pos && b < pos {
                    assert((height_leq())(old_out[a], old_out[b]));
                } else if a < pos && b == pos {
                } else if a < pos {
                    assert((height_leq())(old_out[a], old_out[b - 1]));
                } else if a == pos {
                    if pos < old_out.len() {
                        assert(old_out[pos as int] > x);
                        assert((height_leq())(old_out[pos as int], old_out[b - 1]) || b - 1 == pos);
                    }
                } else {
                    assert((height_leq())(old_out[a - 1], old_out[b - 1]));
                }
            }
            vstd::seq_lib::to_multiset_insert(old_out, pos as int, x);
            assert(v@.take(i + 1) =~= v@.take(i as int).push(x));
            vstd::seq_lib::to_multiset_build(v@.take(i as int), x);
        }
        i = i + 1;
    }
    proof {
        assert(v@.take(v@.len() as int) =~= v@);
        lemma_height_order();
        v@.lemma_sort_by_ensures(height_leq());
        vstd::seq_lib::lemma_sorted_unique(out@, v@.sort_by(height_leq()), height_leq());
    }
    out
}

fn median_of(v: &Vec<u32>) -> (r: u32)
    ensures
        r == median(v@),
{
    if v.len() == 0 {
        return 0;
    }
    let sorted = sort_heights(v);
    proof {
        lemma_height_order();
        v@.lemma_sort_by_ensures(height_leq());
        assert(v@.to_multiset().len() == v@.len()) by {
            vstd::seq_lib::lemma_multiset_commutative(v@, Seq::empty());
            broadcast use vstd::seq_lib::group_to_multiset_ensures;
        }
        broadcast use vstd::seq_lib::group_to_multiset_ensures;
        assert(sorted@.len() == v@.len());
    }
    sorted[v.len() / 2]
}

/// The heights of the words at the given indices.
pub open spec fn heights_at(words: Seq<OcrWord>, idx: Seq<usize>) -> Seq<u32> {
    idx.map_values(|i: usize| words[i as int].height)
}

/// The number of distinct values in `q` above `m`.
pub open spec fn distinct_above(q: Seq<u32>, m: u32) -> nat
    decreases q.len(),
{
    if q.len() == 0 {
        0
    } else {
        distinct_above(q.drop_last(), m) + if q.last() > m && !q.drop_last().contains(q.last()) {
            1nat
        } else {
            0nat
        }
    }
}

/// Whether a paragraph median marks a heading: above the threshold, in a
/// document whose median height is not 0.
pub open spec fn is_heading_median(m: u32, threshold: u32, doc_median: u32) -> bool {
    m > threshold && doc_median > 0
}

/// The role of a paragraph with median height `m` among paragraph
/// medians `medians`: `H1` for the tallest heading height, `H2` for the
/// next, and so on to `H6`; `P` for body text.
pub open spec fn role_for(m: u32, medians: Seq<u32>, threshold: u32, doc_median: u32) -> Seq<char> {
    if is_heading_median(m, threshold, doc_median) {
        let q = medians.filter(|h: u32| is_heading_median(h, threshold, doc_median));
        let level = distinct_above(q, m) + 1;
        "H"@ + decimal(if level > 6 { 6 } else { level })
    } else {
        "P"@
    }
}

/// The median heights of the paragraphs.
pub open spec fn paragraph_medians(words: Seq<OcrWord>, paragraphs: Seq<Seq<usize>>) -> Seq<u32> {
    paragraphs.map_values(|p: Seq<usize>| median(heights_at(words, p)))
}

/// The median word height of the document.
pub open spec fn document_median(words: Seq<OcrWord>) -> u32 {
    median(words.map_values(|w: OcrWord| w.height))
}

/// Whether every paragraph index names a word.
pub open spec fn indices_valid(words: Seq<OcrWord>, paragraphs: Seq<Seq<usize>>) -> bool {
    forall|p: int, k: int| 0 <= p < paragraphs.len() && 0 <= k < paragraphs[p].len() ==> #[trigger] paragraphs[p][k] < words.len()
}

/// The median word height of the recognised words.
pub fn document_median_height(result: &OcrResult) -> (r: u32)
    ensures
        r == document_median(result.words@),
{
    let mut heights: Vec<u32> = Vec::new();
    let mut i: usize = 0;
    while i < result.words.len()
        invariant
            i <= result.words@.len(),
            heights@ =~= result.words@.take(i as int).map_values(|w: OcrWord| w.height),
        decreases result.words@.len() - i,
    {
        heights.push(result.words[i].height);
        i = i + 1;
    }
    assert(result.words@.take(result.words@.len() as int) =~= result.words@);
    median_of(&heights)
}

fn paragraph_median(words: &Vec<OcrWord>, para: &Vec<usize>) -> (r: u32)
    requires
        forall|k: int| 0 <= k < para@.len() ==> #[trigger] para@[k] < words@.len(),
    ensures
        r == median(heights_at(words@, para@)),
{
    let mut heights: Vec<u32> = Vec::new();
    let mut i: usize = 0;
    while i < para.len()
        invariant
            i <= para@.len(),
            forall|k: int| 0 <= k < para@.len() ==> #[trigger] para@[k] < words@.len(),
            heights@ =~= heights_at(words@, para@.take(i as int)),
        decreases para@.len() - i,
    {
        heights.push(words[para[i]].height);
        i = i + 1;
    }
    assert(para@.take(para@.len() as int) =~= para@);
    median_of(&heights)
}

fn count_distinct_above(q: &Vec<u32>, m: u32) -> (r: usize)
    ensures
        r == distinct_above(q@, m),
{
    let mut count: usize = 0;
    let mut j: usize = 0;
    while j < q.len()
        invariant
            j <= q@.len(),
            count == distinct_above(q@.take(j as int), m),
            count <= j,
        decreases q@.len() - j,
    {
        let h = q[j];
        let mut seen = false;
        let mut k: usize = 0;
        while k < j
            invariant
                k <= j < q@.len(),
                seen == q@.take(k as int).contains(h),
            decreases j - k,
        {
            if q[k] == h {
                seen = true;
            }
            proof {
                assert(q@.take(k + 1) =~= q@.take(k as int).push(q@[k as int]));
                assert(q@.take(k + 1)[k as int] == q@[k as int]);
                if q@.take(k as int).contains(h) {
                    let w = choose|w: int| 0 <= w < k && #[trigger] q@.take(k as int)[w] == h;
                    assert(q@.take(k + 1)[w] == h);
                }
                if q@.take(k + 1).contains(h) && !q@.take(k as int).contains(h) {
                    let w = choose|w: int| 0 <= w < k + 1 && #[trigger] q@.take(k + 1)[w] == h;
                    if w < k {
                        assert(q@.take(k as int)[w] == h);
                    }
                }
            }
            k = k + 1;
        }
        proof {
            assert(q@.take(j + 1).drop_last() =~= q@.take(j as int));
            assert(q@.take(j + 1).last() == h);
        }
        if h > m && !seen {
            count = count + 1;
        }
        j = j + 1;
    }
    assert(q@.take(q@.len() as int) =~= q@);
    count
}

/// Classifies each paragraph as a heading (`H1` to `H6`) or body text
/// (`P`) by its median word height: paragraphs whose median exceeds
/// `heading_threshold` (1.4 times the document median, rounded down,
/// computed by the caller) are headings, in a document whose median is
/// not 0; the tallest heading height is `H1`, the next `H2`, and so on.
pub fn classify_paragraph_roles(
    paragraphs: &Vec<Vec<usize>>,
    result: &OcrResult,
    heading_threshold: u32,
) -> (r: Vec<String>)
    requires
        indices_valid(result.words@, index_views(paragraphs@)),
    ensures
        r@.len() == paragraphs@.len(),
        forall|p: int| 0 <= p < r@.len() ==> #[trigger] r@[p]@ == role_for(
            paragraph_medians(result.words@, index_views(paragraphs@))[p],
            paragraph_medians(result.words@, index_views(paragraphs@)),
            heading_threshold,
            document_median(result.words@),
        ),
{
    let ghost pv = index_views(paragraphs@);
    let ghost meds = paragraph_medians(result.words@, pv);
    let doc_median = document_median_height(result);
    let mut medians: Vec<u32> = Vec::new();
    let mut p: usize = 0;
    while p < paragraphs.len()
        invariant
            p <= paragraphs@.len(),
            pv == index_views(paragraphs@),
            indices_valid(result.words@, pv),
            meds == paragraph_medians(result.words@, pv),
            medians@ =~= meds.take(p as int),
        decreases paragraphs@.len() - p,
    {
        let para = &paragraphs[p];
        proof {
            assert(pv[p as int] == para@);
            assert forall|k: int| 0 <= k < para@.len() implies #[trigger] para@[k] < result.words@.len() by {
                assert(pv[p as int][k] == para@[k]);
            }
        }
        medians.push(paragraph_median(&result.words, para));
        p = p + 1;
    }
    assert(meds.take(meds.len() as int) =~= meds);
    let mut heading_medians: Vec<u32> = Vec::new();
    let mut j: usize = 0;
    while j < medians.len()
        invariant
            j <= medians@.len(),
            medians@ == meds,
            heading_medians@ == meds.take(j as int).filter(|h: u32| is_heading_median(h, heading_threshold, doc_median)),
        decreases medians@.len() - j,
    {
        let h = medians[j];
        proof {
            assert(meds.take(j + 1) =~= meds.take(j as int).push(h));
            meds.take(j as int).lemma_filter_push(h, |h: u32| is_heading_median(h, heading_threshold, doc_median));
        }
        if h > heading_threshold && doc_median > 0 {
            heading_medians.push(h);
        }
        j = j + 1;
    }
    assert(meds.take(meds.len() as int) =~= meds);
    let mut roles: Vec<String> = Vec::new();
    let mut k: usize = 0;
    while k < medians.len()
        invariant
            k <= medians@.len(),
            medians@ == meds,
            meds.len() == paragraphs@.len(),
            doc_median == document_median(result.words@),
            heading_medians@ == meds.filter(|h: u32| is_heading_median(h, heading_threshold, doc_median)),
            roles@.len() == k,
            forall|t: int| 0 <= t < k ==> #[trigger] roles@[t]@ == role_for(meds[t], meds, heading_threshold, doc_median),
        decreases medians@.len() - k,
    {
        let m = medians[k];
        let mut out: Vec<char> = Vec::new();
        if m > heading_threshold && doc_median > 0 {
            let above = count_distinct_above(&heading_medians, m);
            let level: u64 = if above >= 5 { 6 } else { (above + 1) as u64 };
            append_str(&mut out, "H");
            push_decimal(&mut out, level);
        } else {
            append_str(&mut out, "P");
        }
        roles.push(string_from_chars(out.as_slice()));
        k = k + 1;
    }
    roles
}


// ---------------------------------------------------------------------------
// Tagging from recognised text
// ---------------------------------------------------------------------------

/// The paragraphs of the first `n` words number at most `n`, and every
/// index in them is below `n`.
proof fn lemma_paragraph_indices(words: Seq<OcrWord>, threshold: u32, n: nat)
    ensures
        paragraphs_of(words, threshold, n).len() <= n,
        forall|p: int, k: int|
            0 <= p < paragraphs_of(words, threshold, n).len() && 0 <= k < paragraphs_of(words, threshold, n)[p].len()
                ==> #[trigger] paragraphs_of(words, threshold, n)[p][k] < n,
    decreases n,
{
    if n > 1 {
        lemma_paragraph_indices(words, threshold, (n - 1) as nat);
        lemma_paragraphs_nonempty(words, threshold, (n - 1) as nat);
        let prev = paragraphs_of(words, threshold, (n - 1) as nat);
        let cur = paragraphs_of(words, threshold, n);
        assert forall|p: int, k: int| 0 <= p < cur.len() && 0 <= k < cur[p].len() implies #[trigger] cur[p][k] < n by {
            if p < prev.len() && !(p == prev.len() - 1 && k == prev[p].len()) {
                if p == prev.len() - 1 && !breaks_before(words, threshold, n - 1) {
                    assert(cur[p] == prev.last().push((n - 1) as usize));
                    assert(cur[p][k] == prev[p][k]);
                } else {
                    assert(cur[p] == prev[p]);
                }
            }
        }
    }
}

/// The text of a paragraph: its words joined by single spaces.
pub open spec fn para_text(words: Seq<OcrWord>, idx: Seq<usize>) -> Seq<char> {
    join_spaced(idx.map_values(|i: usize| words[i as int].text@))
}

/// The (structure type, text) pair of each paragraph.
pub open spec fn ocr_items(words: Seq<OcrWord>, paras: Seq<Seq<usize>>, heading_threshold: u32) -> Seq<(Seq<char>, Seq<char>)> {
    Seq::new(
        paras.len(),
        |p: int|
            (
                role_for(paragraph_medians(words, paras)[p], paragraph_medians(words, paras), heading_threshold, document_median(words)),
                para_text(words, paras[p]),
            ),
    )
}

/// The words of a paragraph joined by single spaces.
fn paragraph_text(result: &OcrResult, para: &Vec<usize>) -> (s: String)
    requires
        forall|k: int| 0 <= k < para@.len() ==> #[trigger] para@[k] < result.words@.len(),
    ensures
        s@ == para_text(result.words@, para@),
{
    let ghost tv = para@.map_values(|i: usize| result.words@[i as int].text@);
    let mut v: Vec<char> = Vec::new();
    let mut j: usize = 0;
    while j < para.len()
        invariant
            j <= para@.len(),
            forall|k: int| 0 <= k < para@.len() ==> #[trigger] para@[k] < result.words@.len(),
            tv == para@.map_values(|i: usize| result.words@[i as int].text@),
            v@ == join_spaced(tv.take(j as int)),
        decreases para@.len() - j,
    {
        if j > 0 {
            v.push(' ');
        }
        let w = para[j];
        append_str(&mut v, result.words[w].text.as_str());
        proof {
            assert(tv.take(j + 1).drop_last() =~= tv.take(j as int));
            assert(tv.take(j + 1).last() == tv[j as int]);
            if j == 0 {
                assert(Seq::<char>::empty() + tv[0] =~= tv[0]);
                assert(tv.take(1)[0] == tv[0]);
            }
        }
        j = j + 1;
    }
    proof {
        assert(tv.take(para@.len() as int) =~= tv);
    }
    string_from_chars(v.as_slice())
}

/// Adds a tagged structure tree built from recognised text: the words
/// grouped into paragraphs (a gap of more than `paragraph_gap` pixels
/// starts one), each tagged as a heading or body text by word height
/// (`heading_threshold`, see `classify_paragraph_roles`) with its words
/// as `/ActualText`, under a `<Document>` element with the language,
/// with a parent tree and a `/StructTreeRoot` named by the catalog
/// (object 1), which also gets `/MarkInfo << /Marked true >>` and the
/// language where it has none. No words, no change.
pub fn add_tagged_structure_from_ocr(
    doc: &mut Document,
    _page_index: usize,
    result: &OcrResult,
    language: &str,
    paragraph_gap: u32,
    heading_threshold: u32,
) -> (r: PdfResult<()>)
    requires
        old(doc).wf(),
        bottoms_fit(result.words@),
        next_num(old(doc)@.objects) + result.words@.len() + 3 <= u32::MAX,
    ensures
        r is Ok,
        final(doc).wf(),
        final(doc)@.version == old(doc)@.version,
        final(doc)@.trailer == old(doc)@.trailer,
        ({
            let paras = paragraphs_of(result.words@, paragraph_gap, result.words@.len());
            &&& paras.len() == 0 ==> final(doc)@ == old(doc)@
            &&& paras.len() > 0 ==> final(doc)@.objects == with_tagged_catalog(
                old(doc)@.objects + tagged_objects(
                    next_num(old(doc)@.objects),
                    ocr_items(result.words@, paras, heading_threshold),
                    language@,
                ),
                (1u32, 0u16),
                next_num(old(doc)@.objects) + paras.len() + 2,
                language@,
            )
        }),
{
    let paragraphs = group_words_into_paragraphs(result, paragraph_gap);
    let ghost paras = paragraphs_of(result.words@, paragraph_gap, result.words@.len());
    proof {
        lemma_paragraph_indices(result.words@, paragraph_gap, result.words@.len());
        assert(index_views(paragraphs@) == paras);
        assert forall|p: int, k: int| 0 <= p < paras.len() && 0 <= k < paras[p].len() implies #[trigger] paras[p][k] < result.words@.len() by {}
    }
    if paragraphs.len() == 0 {
        return Ok(());
    }
    let roles = classify_paragraph_roles(&paragraphs, result, heading_threshold);
    let mut texts: Vec<String> = Vec::new();
    let mut p: usize = 0;
    while p < paragraphs.len()
        invariant
            p <= paragraphs@.len(),
            paras == index_views(paragraphs@),
            indices_valid(result.words@, paras),
            texts@.len() == p,
            forall|q: int| 0 <= q < p ==> (#[trigger] texts@[q])@ == para_text(result.words@, paras[q]),
        decreases paragraphs@.len() - p,
    {
        assert(paras[p as int] == paragraphs@[p as int]@);
        assert forall|k: int| 0 <= k < paragraphs@[p as int]@.len() implies #[trigger] paragraphs@[p as int]@[k] < result.words@.len() by {
            assert(paras[p as int][k] < result.words@.len());
        }
        texts.push(paragraph_text(result, &paragraphs[p]));
        p = p + 1;
    }
    proof {
        let items = ocr_items(result.words@, paras, heading_threshold);
        assert(pairs_of(roles@, texts@) =~= items);
    }
    tag_elements(doc, &roles, &texts, language, (1u32, 0u16));
    Ok(())
}
} // verus!
