//! Structure detection on text: block and inline roles, list markers,
//! captions, and the normal form used to find repeated headers and footers.
use vstd::prelude::*;
use crate::accessibility::structure_tree::StandardRole;
use crate::seqs::starts_with;
use crate::unicode::{
    ascii_lower, is_white_space, is_white_space_exec, str_chars, string_from_chars, to_ascii_lower,
};
use vstd::string::StringSliceAdditionalSpecFns;

verus! {

/// Semantic role of a detected text block.
#[derive(Debug, Clone, PartialEq)]
pub enum BlockRole {
    /// Heading level 1-6 (H1 is most prominent).
    Heading(u8),
    /// Body paragraph.
    Paragraph,
    /// List item (bulleted or numbered).
    ListItem,
    /// Table cell.
    TableCell,
    /// Monospaced code block.
    Code,
    /// Role not yet classified.
    Unknown,
}

/// The structure role of a block role.
pub open spec fn block_standard_role(b: BlockRole) -> Option<StandardRole> {
    match b {
        BlockRole::Heading(n) => Some(StandardRole::H(n)),
        BlockRole::Paragraph => Some(StandardRole::P),
        BlockRole::ListItem => Some(StandardRole::LI),
        BlockRole::Code => Some(StandardRole::P),
        BlockRole::TableCell => Some(StandardRole::TD),
        BlockRole::Unknown => None,
    }
}

impl BlockRole {
    /// Maps to the tagged structure role; code blocks are paragraphs.
    pub fn to_standard_role(&self) -> (r: Option<StandardRole>)
        ensures
            r == block_standard_role(*self),
    {
        match self {
            BlockRole::Heading(n) => Some(StandardRole::H(*n)),
            BlockRole::Paragraph => Some(StandardRole::P),
            BlockRole::ListItem => Some(StandardRole::LI),
            BlockRole::Code => Some(StandardRole::P),
            BlockRole::TableCell => Some(StandardRole::TD),
            BlockRole::Unknown => None,
        }
    }
}

/// A block of text with its detected role: the texts of its runs, in
/// reading order.
#[derive(Debug, Clone)]
pub struct TextBlock {
    /// The texts of the runs composing the block.
    pub run_texts: Vec<String>,
    /// Detected semantic role.
    pub role: BlockRole,
}

/// Inline emphasis of a text run.
#[derive(Debug, Clone, PartialEq)]
pub enum InlineRole {
    /// Bold text (emphasis).
    Strong,
    /// Italic text (emphasis).
    Emphasis,
    /// Bold and italic.
    StrongEmphasis,
    /// Monospaced / code.
    Code,
    /// Normal text.
    Normal,
}

/// The number of white-space characters at the start of `s`, from `i` on.
pub open spec fn leading_ws(s: Seq<char>, i: int) -> int
    decreases s.len() - i,
{
    if i < 0 || i >= s.len() || !is_white_space(s[i]) {
        i
    } else {
        leading_ws(s, i + 1)
    }
}

/// `s` without its leading white space.
pub open spec fn trim_start(s: Seq<char>) -> Seq<char> {
    s.skip(leading_ws(s, 0))
}

/// Whether a character is a bullet.
pub open spec fn is_bullet(c: char) -> bool {
    c == '\u{2022}' || c == '\u{2023}' || c == '\u{25CF}' || c == '\u{25CB}' || c == '\u{25A0}' || c
        == '\u{25AA}' || c == '\u{2013}' || c == '\u{2014}' || c == '-' || c == '*'
}

/// Whether a character is an ASCII digit.
pub open spec fn is_digit(c: char) -> bool {
    '0' <= c <= '9'
}

/// Whether a character is an ASCII lowercase letter.
pub open spec fn is_lower(c: char) -> bool {
    'a' <= c <= 'z'
}

/// Whether a character is an ASCII letter.
pub open spec fn is_alpha(c: char) -> bool {
    ('a' <= c <= 'z') || ('A' <= c <= 'Z')
}

/// Whether a text is a list number or letter: digits, one letter, or a
/// roman numeral from i to xii (any case).
pub open spec fn is_list_number_or_letter_spec(s: Seq<char>) -> bool {
    let l = s.map_values(|c: char| ascii_lower(c));
    s.len() > 0 && ((forall|k: int| 0 <= k < s.len() ==> is_digit(#[trigger] s[k])) || (s.len() == 1
        && is_alpha(s[0])) || l == "i"@ || l == "ii"@ || l == "iii"@ || l == "iv"@ || l == "v"@ || l
        == "vi"@ || l == "vii"@ || l == "viii"@ || l == "ix"@ || l == "x"@ || l == "xi"@ || l
        == "xii"@)
}

/// The index of the first `)` in `s` from `i` on.
pub open spec fn first_close_from(s: Seq<char>, i: int) -> Option<int>
    decreases s.len() - i,
{
    if i < 0 || i >= s.len() {
        None
    } else if s[i] == ')' {
        Some(i)
    } else {
        first_close_from(s, i + 1)
    }
}

/// The number of leading digits and lowercase letters of `s` from `i` on.
pub open spec fn marker_run(s: Seq<char>, i: int) -> int
    decreases s.len() - i,
{
    if i < 0 || i >= s.len() || !(is_digit(s[i]) || is_lower(s[i])) {
        i
    } else {
        marker_run(s, i + 1)
    }
}

/// The list marker at the start of a line: a bullet; `(X)`; or `X.`,
/// `X)`, `X:` where X is a list number or letter.
pub open spec fn list_marker(text: Seq<char>) -> Option<Seq<char>> {
    let t = trim_start(text);
    if t.len() == 0 {
        None
    } else if is_bullet(t[0]) {
        Some(seq![t[0]])
    } else {
        let paren = if t[0] == '(' {
            match first_close_from(t, 0) {
                Some(c) => if c - 1 <= 4 && is_list_number_or_letter_spec(t.subrange(1, c)) {
                    Some(t.take(c + 1))
                } else {
                    None
                },
                None => None,
            }
        } else {
            None
        };
        if paren is Some {
            paren
        } else {
            let end = marker_run(t, 0);
            if end > 0 && end < t.len() && (t[end] == '.' || t[end] == ')' || t[end] == ':')
                && is_list_number_or_letter_spec(t.take(end)) {
                Some(t.take(end + 1))
            } else {
                None
            }
        }
    }
}

fn lit_eq(a: &[char], lit: &str) -> (r: bool)
    ensures
        r == (a@ == lit@),
{
    let b = str_chars(lit);
    crate::unicode::chars_eq(a, b.as_slice())
}

/// Whether a text is a list number or letter.
pub fn is_list_number_or_letter(s: &[char]) -> (r: bool)
    ensures
        r == is_list_number_or_letter_spec(s@),
{
    if s.len() == 0 {
        return false;
    }
    let mut all_digits = true;
    let mut i: usize = 0;
    while i < s.len()
        invariant
            i <= s.len(),
            all_digits == (forall|k: int| 0 <= k < i ==> is_digit(#[trigger] s@[k])),
        decreases s.len() - i,
    {
        if !('0' <= s[i] && s[i] <= '9') {
            all_digits = false;
        }
        i = i + 1;
    }
    if all_digits {
        return true;
    }
    if s.len() == 1 && (('a' <= s[0] && s[0] <= 'z') || ('A' <= s[0] && s[0] <= 'Z')) {
        return true;
    }
    let mut l: Vec<char> = Vec::new();
    let mut k: usize = 0;
    while k < s.len()
        invariant
            k <= s.len(),
            l@ == s@.take(k as int).map_values(|c: char| ascii_lower(c)),
        decreases s.len() - k,
    {
        l.push(to_ascii_lower(s[k]));
        k = k + 1;
        assert(l@ =~= s@.take(k as int).map_values(|c: char| ascii_lower(c)));
    }
    assert(s@.take(s.len() as int) =~= s@);
    let ls = l.as_slice();
    lit_eq(ls, "i") || lit_eq(ls, "ii") || lit_eq(ls, "iii") || lit_eq(ls, "iv") || lit_eq(ls, "v")
        || lit_eq(ls, "vi") || lit_eq(ls, "vii") || lit_eq(ls, "viii") || lit_eq(ls, "ix")
        || lit_eq(ls, "x") || lit_eq(ls, "xi") || lit_eq(ls, "xii")
}

fn copy_range(s: &[char], from: usize, to: usize) -> (r: Vec<char>)
    requires
        from <= to <= s.len(),
    ensures
        r@ == s@.subrange(from as int, to as int),
{
    let mut v: Vec<char> = Vec::new();
    let mut k = from;
    while k < to
        invariant
            from <= k <= to <= s.len(),
            v@ == s@.subrange(from as int, k as int),
        decreases to - k,
    {
        v.push(s[k]);
        k = k + 1;
        assert(v@ =~= s@.subrange(from as int, k as int));
    }
    v
}

/// Detects whether a line starts with a list marker and returns the marker.
pub fn detect_list_marker(text: &str) -> (r: Option<String>)
    ensures
        match r {
            Some(m) => list_marker(text@) == Some(m@),
            None => list_marker(text@) is None,
        },
{
    let all = str_chars(text);
    let mut w: usize = 0;
    while w < all.len() && is_white_space_exec(all[w])
        invariant
            w <= all@.len(),
            leading_ws(all@, 0) == leading_ws(all@, w as int),
        decreases all@.len() - w,
    {
        w = w + 1;
    }
    let t = copy_range(all.as_slice(), w, all.len());
    proof {
        assert(t@ =~= trim_start(text@));
    }
    if t.len() == 0 {
        return None;
    }
    let first = t[0];
    if first == '\u{2022}' || first == '\u{2023}' || first == '\u{25CF}' || first == '\u{25CB}'
        || first == '\u{25A0}' || first == '\u{25AA}' || first == '\u{2013}' || first == '\u{2014}'
        || first == '-' || first == '*' {
        let v: Vec<char> = vec![first];
        return Some(string_from_chars(v.as_slice()));
    }
    if first == '(' {
        let mut c: usize = 0;
        while c < t.len() && t[c] != ')'
            invariant
                c <= t@.len(),
                first_close_from(t@, 0) == first_close_from(t@, c as int),
            decreases t@.len() - c,
        {
            c = c + 1;
        }
        if c < t.len() {
            let inner = copy_range(t.as_slice(), 1, c);
            if c - 1 <= 4 && is_list_number_or_letter(inner.as_slice()) {
                let m = copy_range(t.as_slice(), 0, c + 1);
                assert(m@ =~= t@.take(c + 1));
                return Some(string_from_chars(m.as_slice()));
            }
        }
    }
    let mut end: usize = 0;
    while end < t.len() && (('0' <= t[end] && t[end] <= '9') || ('a' <= t[end] && t[end] <= 'z'))
        invariant
            end <= t@.len(),
            marker_run(t@, 0) == marker_run(t@, end as int),
        decreases t@.len() - end,
    {
        end = end + 1;
    }
    if end > 0 && end < t.len() && (t[end] == '.' || t[end] == ')' || t[end] == ':') {
        let head = copy_range(t.as_slice(), 0, end);
        assert(head@ =~= t@.take(end as int));
        if is_list_number_or_letter(head.as_slice()) {
            let m = copy_range(t.as_slice(), 0, end + 1);
            assert(m@ =~= t@.take(end + 1));
            return Some(string_from_chars(m.as_slice()));
        }
    }
    None
}

/// The text with every ASCII digit replaced by `#`.
pub open spec fn normalized_for_repeat(s: Seq<char>) -> Seq<char> {
    s.map_values(|c: char| if is_digit(c) {
        '#'
    } else {
        c
    })
}

/// Normalizes text for repeat detection: digits become `#`.
pub fn normalize_for_repeat(text: &str) -> (r: String)
    ensures
        r@ == normalized_for_repeat(text@),
{
    let cs = str_chars(text);
    let mut out: Vec<char> = Vec::new();
    let mut i: usize = 0;
    while i < cs.len()
        invariant
            i <= cs@.len(),
            out@ == normalized_for_repeat(cs@.take(i as int)),
        decreases cs@.len() - i,
    {
        let c = cs[i];
        out.push(if '0' <= c && c <= '9' { '#' } else { c });
        i = i + 1;
        assert(out@ =~= normalized_for_repeat(cs@.take(i as int)));
    }
    assert(cs@.take(cs@.len() as int) =~= cs@);
    string_from_chars(out.as_slice())
}

/// Whether a text looks like a figure caption: it starts (in any ASCII
/// case) with a caption word, or is longer than two bytes and starts with
/// a digit.
pub open spec fn caption_text(text: &str) -> bool {
    let l = text@.map_values(|c: char| ascii_lower(c));
    starts_with(l, "figure"@) || starts_with(l, "fig."@) || starts_with(l, "fig "@) || starts_with(
        l,
        "image"@,
    ) || starts_with(l, "photo"@) || starts_with(l, "table"@) || starts_with(l, "chart"@)
        || starts_with(l, "diagram"@) || starts_with(l, "illustration"@) || ((text.spec_bytes().len() as usize)
        > 2 && text@.len() > 0 && is_digit(text@[0]))
}

fn chars_start_with(s: &[char], lit: &str) -> (r: bool)
    ensures
        r == starts_with(s@, lit@),
{
    let p = str_chars(lit);
    if p.len() > s.len() {
        return false;
    }
    let head = copy_range(s, 0, p.len());
    crate::unicode::chars_eq(head.as_slice(), p.as_slice())
}

/// Whether a text looks like a figure caption.
pub fn is_caption_text(text: &str) -> (r: bool)
    ensures
        r == caption_text(text),
{
    let cs = str_chars(text);
    let mut l: Vec<char> = Vec::new();
    let mut k: usize = 0;
    while k < cs.len()
        invariant
            k <= cs@.len(),
            l@ == cs@.take(k as int).map_values(|c: char| ascii_lower(c)),
        decreases cs@.len() - k,
    {
        l.push(to_ascii_lower(cs[k]));
        k = k + 1;
        assert(l@ =~= cs@.take(k as int).map_values(|c: char| ascii_lower(c)));
    }
    assert(cs@.take(cs@.len() as int) =~= cs@);
    let ls = l.as_slice();
    let blen = text.len();
    assert(l@ == text@.map_values(|c: char| ascii_lower(c)));
    let numbered = blen > 2 && cs.len() > 0 && '0' <= cs[0] && cs[0] <= '9';
    chars_start_with(ls, "figure") || chars_start_with(ls, "fig.") || chars_start_with(ls, "fig ")
        || chars_start_with(ls, "image") || chars_start_with(ls, "photo") || chars_start_with(
        ls,
        "table",
    ) || chars_start_with(ls, "chart") || chars_start_with(ls, "diagram") || chars_start_with(
        ls,
        "illustration",
    ) || numbered
}

/// The inline role of a run from its font style `(bold, italic,
/// monospaced)`, as `font_style_from_name` gives it: monospaced text is
/// code; otherwise bold and italic give strong emphasis, bold alone
/// strong, italic alone emphasis.
pub open spec fn inline_role_of(style: (bool, bool, bool)) -> InlineRole {
    if style.2 {
        InlineRole::Code
    } else if style.0 && style.1 {
        InlineRole::StrongEmphasis
    } else if style.0 {
        InlineRole::Strong
    } else if style.1 {
        InlineRole::Emphasis
    } else {
        InlineRole::Normal
    }
}

/// Classifies a run's inline role from its font style `(bold, italic,
/// monospaced)`.
pub fn classify_inline_role(style: (bool, bool, bool)) -> (r: InlineRole)
    ensures
        r == inline_role_of(style),
{
    if style.2 {
        InlineRole::Code
    } else if style.0 && style.1 {
        InlineRole::StrongEmphasis
    } else if style.0 {
        InlineRole::Strong
    } else if style.1 {
        InlineRole::Emphasis
    } else {
        InlineRole::Normal
    }
}

/// The characters that surround a page number: dash, dot and space.
pub open spec fn is_number_decoration(c: char) -> bool {
    c == '-' || c == '.' || c == ' '
}

/// The first index from `i` on that is not a decoration.
pub open spec fn decoration_prefix_end(s: Seq<char>, i: int) -> int
    decreases s.len() - i,
{
    if i < 0 || i >= s.len() || !is_number_decoration(s[i]) {
        i
    } else {
        decoration_prefix_end(s, i + 1)
    }
}

/// The index after the last character before `j` that is not a
/// decoration.
pub open spec fn decoration_suffix_start(s: Seq<char>, j: int) -> int
    decreases j,
{
    if j <= 0 || j > s.len() || !is_number_decoration(s[j - 1]) {
        j
    } else {
        decoration_suffix_start(s, j - 1)
    }
}

/// `s` without decorations at either end.
pub open spec fn strip_decorations(s: Seq<char>) -> Seq<char> {
    let a = decoration_prefix_end(s, 0);
    let b = decoration_suffix_start(s, s.len() as int);
    if a >= b {
        Seq::empty()
    } else {
        s.subrange(a, b)
    }
}

/// Whether a run's text reads as a page number: trimmed, at most 6 bytes
/// long in UTF-8, and ASCII digits once dashes, dots and spaces are
/// stripped from both ends.
pub open spec fn page_number_text(text: Seq<char>) -> bool {
    let t = crate::unicode::trim(text);
    let d = strip_decorations(t);
    vstd::utf8::encode_utf8(t).len() <= 6 && d.len() > 0 && forall|k: int| 0 <= k < d.len() ==> '0' <= #[trigger] d[k] <= '9'
}

proof fn lemma_decoration_bounds(s: Seq<char>, i: int, j: int)
    requires
        0 <= i <= s.len(),
        0 <= j <= s.len(),
    ensures
        i <= decoration_prefix_end(s, i) <= s.len(),
        0 <= decoration_suffix_start(s, j) <= j,
    decreases s.len() - i + j,
{
    if i < s.len() && is_number_decoration(s[i]) {
        lemma_decoration_bounds(s, i + 1, j);
    }
    if j > 0 && is_number_decoration(s[j - 1]) {
        lemma_decoration_bounds(s, i, j - 1);
    }
}

/// Whether a run's text reads as a page number (the part of the page
/// number check that does not depend on the run's position).
pub fn is_page_number_text(text: &str) -> (r: bool)
    ensures
        r == page_number_text(text@),
{
    let chars = str_chars(text);
    let trimmed = crate::unicode::trim_chars(chars.as_slice());
    let len = trimmed.as_str().as_bytes().len();
    if len > 6 {
        return false;
    }
    let t = str_chars(trimmed.as_str());
    let mut a: usize = 0;
    while a < t.len() && (t[a] == '-' || t[a] == '.' || t[a] == ' ')
        invariant
            a <= t@.len(),
            decoration_prefix_end(t@, 0) == decoration_prefix_end(t@, a as int),
        decreases t@.len() - a,
    {
        a = a + 1;
    }
    assert(decoration_prefix_end(t@, a as int) == a);
    let mut b: usize = t.len();
    while b > 0 && (t[b - 1] == '-' || t[b - 1] == '.' || t[b - 1] == ' ')
        invariant
            b <= t@.len(),
            decoration_suffix_start(t@, t@.len() as int) == decoration_suffix_start(t@, b as int),
        decreases b,
    {
        b = b - 1;
    }
    assert(decoration_suffix_start(t@, b as int) == b);
    if a >= b {
        assert(strip_decorations(t@).len() == 0);
        return false;
    }
    let ghost d = strip_decorations(t@);
    assert(d =~= t@.subrange(a as int, b as int));
    let mut k: usize = a;
    while k < b
        invariant
            a <= k <= b <= t@.len(),
            t@ == crate::unicode::trim(text@),
            d == strip_decorations(t@),
            d =~= t@.subrange(a as int, b as int),
            forall|m: int| 0 <= m < k - a ==> '0' <= #[trigger] d[m] <= '9',
        decreases b - k,
    {
        let c = t[k];
        if !('0' <= c && c <= '9') {
            assert(d[k - a] == c);
            return false;
        }
        k = k + 1;
    }
    true
}

} // verus!
