//! Reading a font's style from its name.
use vstd::prelude::*;
use crate::seqs::contains_seq;
use crate::unicode::{ascii_lower, contains_str, str_chars, to_ascii_lower};

verus! {

/// The index of the first `+` in `s`, searching from `i` on.
pub open spec fn first_plus_from(s: Seq<char>, i: int) -> Option<int>
    decreases s.len() - i,
{
    if i < 0 || i >= s.len() {
        None
    } else if s[i] == '+' {
        Some(i)
    } else {
        first_plus_from(s, i + 1)
    }
}

/// Whether every character of `s` before `p` is an ASCII capital letter.
pub open spec fn all_upper_before(s: Seq<char>, p: int) -> bool {
    forall|k: int| 0 <= k < p ==> 'A' <= #[trigger] s[k] <= 'Z'
}

/// A font name without its subset prefix: up to six capital letters and
/// `+` at the start (e.g. `BCDFGX+Calibri` gives `Calibri`).
pub open spec fn strip_subset_prefix(s: Seq<char>) -> Seq<char> {
    match first_plus_from(s, 0) {
        Some(p) => if p <= 6 && all_upper_before(s, p) {
            s.skip(p + 1)
        } else {
            s
        },
        None => s,
    }
}

/// ASCII lowercase of a text.
pub open spec fn lowered(s: Seq<char>) -> Seq<char> {
    s.map_values(|c: char| ascii_lower(c))
}

/// Whether a lowercased font name marks a bold face.
pub open spec fn names_bold(l: Seq<char>) -> bool {
    contains_seq(l, "bold"@) || contains_seq(l, "-bd"@) || contains_seq(l, "heavy"@) || contains_seq(
        l,
        "black"@,
    ) || contains_seq(l, "demi"@) || contains_seq(l, ",bold"@)
}

/// Whether a lowercased font name marks an italic face.
pub open spec fn names_italic(l: Seq<char>) -> bool {
    contains_seq(l, "italic"@) || contains_seq(l, "oblique"@) || contains_seq(l, "slant"@)
        || contains_seq(l, ",italic"@) || contains_seq(l, "-it"@)
}

/// Whether a lowercased font name marks a monospaced face.
pub open spec fn names_mono(l: Seq<char>) -> bool {
    contains_seq(l, "courier"@) || contains_seq(l, "consolas"@) || contains_seq(l, "mono"@)
        || contains_seq(l, "menlo"@) || contains_seq(l, "code"@) || contains_seq(l, "fixed"@)
        || contains_seq(l, "typewriter"@)
}

/// The style a font name marks: bold, italic, monospaced.
pub open spec fn font_style(name: Seq<char>) -> (bool, bool, bool) {
    let l = lowered(strip_subset_prefix(name));
    (names_bold(l), names_italic(l), names_mono(l))
}

fn find_plus(s: &[char]) -> (r: Option<usize>)
    ensures
        match r {
            Some(p) => first_plus_from(s@, 0) == Some(p as int),
            None => first_plus_from(s@, 0) is None,
        },
{
    let mut i: usize = 0;
    while i < s.len()
        invariant
            i <= s.len(),
            first_plus_from(s@, 0) == first_plus_from(s@, i as int),
        decreases s.len() - i,
    {
        if s[i] == '+' {
            return Some(i);
        }
        i = i + 1;
    }
    None
}

/// Reads a font's style from its name, after removing a subset prefix.
/// Returns `(is_bold, is_italic, is_monospaced)`.
pub fn font_style_from_name(name: &str) -> (r: (bool, bool, bool))
    ensures
        r == font_style(name@),
{
    let cs = str_chars(name);
    let mut start: usize = 0;
    proof {
        lemma_first_plus_facts(cs@, 0);
    }
    match find_plus(cs.as_slice()) {
        Some(p) => {
            if p <= 6 {
                let mut all_upper = true;
                let mut k: usize = 0;
                while k < p
                    invariant
                        k <= p,
                        p < cs@.len(),
                        all_upper == (forall|j: int| 0 <= j < k ==> 'A' <= #[trigger] cs@[j] <= 'Z'),
                    decreases p - k,
                {
                    if !('A' <= cs[k] && cs[k] <= 'Z') {
                        all_upper = false;
                    }
                    k = k + 1;
                }
                if all_upper {
                    start = p + 1;
                }
            }
        },
        None => {},
    }
    let mut lower: Vec<char> = Vec::new();
    let mut i: usize = start;
    proof {
        if start > 0 {
            assert(strip_subset_prefix(name@) == cs@.skip(start as int));
        } else {
            assert(strip_subset_prefix(name@) =~= cs@.skip(0));
        }
    }
    while i < cs.len()
        invariant
            start <= i <= cs@.len(),
            strip_subset_prefix(name@) == cs@.skip(start as int),
            lower@ == lowered(cs@.subrange(start as int, i as int)),
        decreases cs@.len() - i,
    {
        let c = to_ascii_lower(cs[i]);
        lower.push(c);
        i = i + 1;
        assert(lower@ =~= lowered(cs@.subrange(start as int, i as int)));
    }
    assert(cs@.subrange(start as int, cs@.len() as int) =~= cs@.skip(start as int));
    proof {
        reveal_strlit("bold");
    }
    let l = lower.as_slice();
    let bold = contains_str(l, "bold") || contains_str(l, "-bd") || contains_str(l, "heavy")
        || contains_str(l, "black") || contains_str(l, "demi") || contains_str(l, ",bold");
    let italic = contains_str(l, "italic") || contains_str(l, "oblique") || contains_str(l, "slant")
        || contains_str(l, ",italic") || contains_str(l, "-it");
    let monospaced = contains_str(l, "courier") || contains_str(l, "consolas") || contains_str(l, "mono")
        || contains_str(l, "menlo") || contains_str(l, "code") || contains_str(l, "fixed")
        || contains_str(l, "typewriter");
    (bold, italic, monospaced)
}

/// A subset prefix does not change the style read from a name: for up to
/// six capital letters `p` and a rest without `+`, `p+rest` reads as `rest`.
pub proof fn lemma_subset_prefix_ignored(p: Seq<char>, rest: Seq<char>)
    requires
        p.len() <= 6,
        all_upper_before(p, p.len() as int),
        forall|k: int| 0 <= k < rest.len() ==> rest[k] != '+',
    ensures
        font_style(p + seq!['+'] + rest) == font_style(rest),
{
    let s = p + seq!['+'] + rest;
    assert forall|i: int| 0 <= i < p.len() implies #[trigger] s[i] != '+' by {
        assert(s[i] == p[i]);
    }
    lemma_first_plus_from(s, 0, p.len() as int);
    assert(s[p.len() as int] == '+');
    assert(all_upper_before(s, p.len() as int)) by {
        assert forall|k: int| 0 <= k < p.len() implies 'A' <= #[trigger] s[k] <= 'Z' by {
            assert(s[k] == p[k]);
        }
    }
    assert(s.skip(p.len() as int + 1) =~= rest);
    lemma_no_plus(rest, 0);
}

proof fn lemma_first_plus_from(s: Seq<char>, i: int, j: int)
    requires
        0 <= i <= j <= s.len(),
        forall|k: int| i <= k < j ==> #[trigger] s[k] != '+',
    ensures
        first_plus_from(s, i) == first_plus_from(s, j),
    decreases j - i,
{
    if i < j {
        lemma_first_plus_from(s, i + 1, j);
    }
}

proof fn lemma_first_plus_facts(s: Seq<char>, i: int)
    requires
        0 <= i,
    ensures
        first_plus_from(s, i) matches Some(p) ==> i <= p < s.len() && s[p] == '+',
    decreases s.len() - i,
{
    if i < s.len() && s[i] != '+' {
        lemma_first_plus_facts(s, i + 1);
    }
}

proof fn lemma_no_plus(s: Seq<char>, i: int)
    requires
        0 <= i <= s.len(),
        forall|k: int| 0 <= k < s.len() ==> s[k] != '+',
    ensures
        first_plus_from(s, i) is None,
    decreases s.len() - i,
{
    if i < s.len() {
        lemma_no_plus(s, i + 1);
    }
}

} // verus!
