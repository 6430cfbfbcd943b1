//! Verified text utilities: character classification, lowercasing,
//! prefix/suffix/containment tests, trimming, and splitting text into lines.
//!
//! Text is modelled as `Seq<char>`; every executable function's result is
//! pinned to a spec-level definition on views.

use vstd::prelude::*;

verus! {

/// Appends one character to a string.
///
/// Relies on std's `String::push`, which appends the given character to the
/// end of the string.
#[verifier::external_body]
pub fn push_char(s: &mut String, c: char)
    ensures
        final(s)@ == old(s)@.push(c),
{
    s.push(c)
}

/// The whitespace characters recognised by trimming and blank-line
/// tests: the ASCII space, tab, line feed and carriage return, by
/// design; other characters never count as whitespace here.
pub open spec fn is_wsp(c: char) -> bool {
    c == ' ' || c == '\t' || c == '\n' || c == '\r'
}

pub open spec fn all_wsp(s: Seq<char>) -> bool {
    forall|i: int| 0 <= i < s.len() ==> is_wsp(#[trigger] s[i])
}

/// True when the text consists of whitespace only (so it trims to nothing).
pub fn is_blank(s: &str) -> (b: bool)
    ensures
        b == all_wsp(s@),
{
    let n = s.unicode_len();
    let mut i: usize = 0;
    while i < n
        invariant
            n == s@.len(),
            0 <= i <= n,
            forall|j: int| 0 <= j < i ==> is_wsp(#[trigger] s@[j]),
        decreases n - i,
    {
        let c = s.get_char(i);
        if !(c == ' ' || c == '\t' || c == '\n' || c == '\r') {
            return false;
        }
        i += 1;
    }
    true
}

/// Lower-casing of one character, covering the ASCII letters; every other
/// character is left as it is.  Link ids and status values are folded
/// with this by design: the engine normalises the ASCII range only, and
/// characters outside it pass through unchanged.
pub open spec fn lower_char(c: char) -> char {
    match c {
        'A' => 'a', 'B' => 'b', 'C' => 'c', 'D' => 'd', 'E' => 'e',
        'F' => 'f', 'G' => 'g', 'H' => 'h', 'I' => 'i', 'J' => 'j',
        'K' => 'k', 'L' => 'l', 'M' => 'm', 'N' => 'n', 'O' => 'o',
        'P' => 'p', 'Q' => 'q', 'R' => 'r', 'S' => 's', 'T' => 't',
        'U' => 'u', 'V' => 'v', 'W' => 'w', 'X' => 'x', 'Y' => 'y',
        'Z' => 'z',
        _ => c,
    }
}

pub open spec fn lower(s: Seq<char>) -> Seq<char> {
    s.map_values(|c: char| lower_char(c))
}

fn lower_char_exec(c: char) -> (r: char)
    ensures
        r == lower_char(c),
{
    match c {
        'A' => 'a', 'B' => 'b', 'C' => 'c', 'D' => 'd', 'E' => 'e',
        'F' => 'f', 'G' => 'g', 'H' => 'h', 'I' => 'i', 'J' => 'j',
        'K' => 'k', 'L' => 'l', 'M' => 'm', 'N' => 'n', 'O' => 'o',
        'P' => 'p', 'Q' => 'q', 'R' => 'r', 'S' => 's', 'T' => 't',
        'U' => 'u', 'V' => 'v', 'W' => 'w', 'X' => 'x', 'Y' => 'y',
        'Z' => 'z',
        _ => c,
    }
}

/// ASCII lower-casing of a whole string.
pub fn to_lower(s: &str) -> (r: String)
    ensures
        r@ == lower(s@),
{
    let n = s.unicode_len();
    let mut r = String::new();
    let mut i: usize = 0;
    while i < n
        invariant
            n == s@.len(),
            0 <= i <= n,
            r@ == lower(s@.subrange(0, i as int)),
        decreases n - i,
    {
        let c = lower_char_exec(s.get_char(i));
        push_char(&mut r, c);
        proof {
            assert(s@.subrange(0, i + 1 as int) =~= s@.subrange(0, i as int).push(s@[i as int]));
            assert(lower(s@.subrange(0, i as int)).push(lower_char(s@[i as int]))
                =~= lower(s@.subrange(0, i + 1 as int)));
        }
        i += 1;
    }
    proof {
        assert(s@.subrange(0, s@.len() as int) =~= s@);
    }
    r
}

/// Whether the text contains the character.
pub fn contains_char(s: &str, c: char) -> (b: bool)
    ensures
        b == s@.contains(c),
{
    let n = s.unicode_len();
    let mut i: usize = 0;
    while i < n
        invariant
            n == s@.len(),
            0 <= i <= n,
            forall|j: int| 0 <= j < i ==> s@[j] != c,
        decreases n - i,
    {
        if s.get_char(i) == c {
            return true;
        }
        i += 1;
    }
    proof {
        if s@.contains(c) {
            let k = choose|k: int| 0 <= k < s@.len() && s@[k] == c;
        }
    }
    false
}

/// An equal vector of strings, element for element.
pub fn clone_strings(v: &Vec<String>) -> (r: Vec<String>)
    ensures
        r.deep_view() == v.deep_view(),
{
    let mut r: Vec<String> = Vec::new();
    let mut i: usize = 0;
    proof {
        assert(r.deep_view() =~~= v.deep_view().subrange(0, 0));
    }
    while i < v.len()
        invariant
            0 <= i <= v@.len(),
            r.deep_view() == v.deep_view().subrange(0, i as int),
        decreases v@.len() - i,
    {
        proof {
            assert(r.deep_view().len() == r@.len());
            assert(r@.len() == i);
        }
        let cl = v[i].clone();
        r.push(cl);
        proof {
            assert(r.deep_view() =~~= v.deep_view().subrange(0, i + 1 as int));
        }
        i += 1;
    }
    proof {
        assert(v.deep_view().subrange(0, v@.len() as int) =~= v.deep_view());
    }
    r
}

/// Character-for-character string equality.
pub fn str_eq(a: &str, b: &str) -> (r: bool)
    ensures
        r == (a@ == b@),
{
    let na = a.unicode_len();
    let nb = b.unicode_len();
    if na != nb {
        return false;
    }
    let mut i: usize = 0;
    while i < na
        invariant
            na == a@.len(),
            na == b@.len(),
            0 <= i <= na,
            forall|j: int| 0 <= j < i ==> a@[j] == b@[j],
        decreases na - i,
    {
        if a.get_char(i) != b.get_char(i) {
            return false;
        }
        i += 1;
    }
    proof {
        assert(a@ =~= b@);
    }
    true
}

/// Strict lexicographic order on texts, by character code; the order the
/// registry's sections are kept and saved in.
pub open spec fn str_lt(a: Seq<char>, b: Seq<char>) -> bool
    decreases a.len(),
{
    if b.len() == 0 {
        false
    } else if a.len() == 0 {
        true
    } else if (a[0] as int) < (b[0] as int) {
        true
    } else if (a[0] as int) > (b[0] as int) {
        false
    } else {
        str_lt(a.drop_first(), b.drop_first())
    }
}

/// The order is irreflexive and asymmetric.
pub proof fn lemma_str_lt_asym(a: Seq<char>, b: Seq<char>)
    ensures
        str_lt(a, b) ==> !str_lt(b, a),
        !str_lt(a, a),
    decreases a.len(),
{
    if a.len() > 0 && b.len() > 0 && (a[0] as int) == (b[0] as int) {
        lemma_str_lt_asym(a.drop_first(), b.drop_first());
    }
    if a.len() > 0 {
        lemma_str_lt_asym(a.drop_first(), a.drop_first());
    }
}

/// The order is total: incomparable texts are equal.
pub proof fn lemma_str_lt_connex(a: Seq<char>, b: Seq<char>)
    ensures
        !str_lt(a, b) && !str_lt(b, a) ==> a == b,
    decreases a.len(),
{
    if !str_lt(a, b) && !str_lt(b, a) {
        if a.len() == 0 || b.len() == 0 {
            assert(a.len() == 0 && b.len() == 0);
            assert(a =~= b);
        } else {
            assert((a[0] as int) == (b[0] as int));
            assert(a[0] == b[0]) by {
                if a[0] != b[0] {
                    assert((a[0] as int) != (b[0] as int));
                }
            }
            lemma_str_lt_connex(a.drop_first(), b.drop_first());
            assert(a.drop_first() == b.drop_first());
            assert(a =~= b) by {
                assert forall|i: int| 0 <= i < a.len() implies a[i] == b[i] by {
                    if i > 0 {
                        assert(a.drop_first()[i - 1] == b.drop_first()[i - 1]);
                    }
                }
            }
        }
    }
}

/// The order is transitive.
pub proof fn lemma_str_lt_trans(a: Seq<char>, b: Seq<char>, c: Seq<char>)
    ensures
        str_lt(a, b) && str_lt(b, c) ==> str_lt(a, c),
    decreases a.len(),
{
    if str_lt(a, b) && str_lt(b, c) {
        if a.len() == 0 {
            assert(c.len() > 0);
        } else {
            assert(b.len() > 0 && c.len() > 0);
            if (a[0] as int) == (b[0] as int) && (b[0] as int) == (c[0] as int) {
                lemma_str_lt_trans(a.drop_first(), b.drop_first(), c.drop_first());
            }
        }
    }
}

/// Compares two texts in the lexicographic order.
pub fn str_lt_exec(a: &str, b: &str) -> (r: bool)
    ensures
        r == str_lt(a@, b@),
{
    let na = a.unicode_len();
    let nb = b.unicode_len();
    let mut i: usize = 0;
    proof {
        assert(a@.subrange(0, na as int) =~= a@);
        assert(b@.subrange(0, nb as int) =~= b@);
    }
    loop
        invariant
            na == a@.len(),
            nb == b@.len(),
            0 <= i <= na,
            i <= nb,
            str_lt(a@, b@) == str_lt(a@.subrange(i as int, na as int), b@.subrange(
                i as int,
                nb as int,
            )),
        decreases na - i,
    {
        let ghost ar = a@.subrange(i as int, na as int);
        let ghost br = b@.subrange(i as int, nb as int);
        if i >= nb {
            proof {
                assert(br.len() == 0);
            }
            return false;
        }
        if i >= na {
            proof {
                assert(ar.len() == 0 && br.len() > 0);
            }
            return true;
        }
        let ca = a.get_char(i);
        let cb = b.get_char(i);
        proof {
            assert(ar[0] == a@[i as int]);
            assert(br[0] == b@[i as int]);
            assert(ar.drop_first() =~= a@.subrange(i + 1 as int, na as int));
            assert(br.drop_first() =~= b@.subrange(i + 1 as int, nb as int));
        }
        if (ca as u32) < (cb as u32) {
            return true;
        }
        if (ca as u32) > (cb as u32) {
            return false;
        }
        i += 1;
    }
}

/// True when `p` is a prefix of `s`.
pub fn starts_with(s: &str, p: &str) -> (b: bool)
    ensures
        b == (p@.len() <= s@.len() && s@.subrange(0, p@.len() as int) == p@),
{
    let np = p.unicode_len();
    let ns = s.unicode_len();
    if np > ns {
        return false;
    }
    let mut i: usize = 0;
    while i < np
        invariant
            np == p@.len(),
            ns == s@.len(),
            np <= ns,
            0 <= i <= np,
            forall|j: int| 0 <= j < i ==> s@[j] == p@[j],
        decreases np - i,
    {
        if s.get_char(i) != p.get_char(i) {
            assert(s@.subrange(0, np as int)[i as int] != p@[i as int]);
            return false;
        }
        i += 1;
    }
    proof {
        assert(s@.subrange(0, np as int) =~= p@);
    }
    true
}

/// True when `p` is a suffix of `s`.
pub fn ends_with(s: &str, p: &str) -> (b: bool)
    ensures
        b == (p@.len() <= s@.len() && s@.subrange(s@.len() - p@.len(), s@.len() as int) == p@),
{
    let np = p.unicode_len();
    let ns = s.unicode_len();
    if np > ns {
        return false;
    }
    let off = ns - np;
    let mut i: usize = 0;
    while i < np
        invariant
            np == p@.len(),
            ns == s@.len(),
            np <= ns,
            off == ns - np,
            0 <= i <= np,
            forall|j: int| 0 <= j < i ==> s@[off + j] == p@[j],
        decreases np - i,
    {
        if s.get_char(off + i) != p.get_char(i) {
            assert(s@.subrange(off as int, ns as int)[i as int] != p@[i as int]);
            return false;
        }
        i += 1;
    }
    proof {
        assert(s@.subrange(off as int, ns as int) =~= p@);
    }
    true
}

/// `p` occurs in `s` starting at position `i`.
pub open spec fn match_at(s: Seq<char>, p: Seq<char>, i: int) -> bool {
    0 <= i && i + p.len() <= s.len() && s.subrange(i, i + p.len()) == p
}

/// `p` occurs somewhere in `s`.
pub open spec fn contains_seq(s: Seq<char>, p: Seq<char>) -> bool {
    exists|i: int| match_at(s, p, i)
}

/// Substring containment test.
pub fn contains_sub(s: &str, p: &str) -> (b: bool)
    ensures
        b == contains_seq(s@, p@),
{
    let np = p.unicode_len();
    let ns = s.unicode_len();
    if np > ns {
        assert(forall|i: int| !match_at(s@, p@, i));
        return false;
    }
    if np == 0 {
        proof {
            assert(s@.subrange(0, 0) =~= p@);
            assert(match_at(s@, p@, 0));
        }
        return true;
    }
    let mut start: usize = 0;
    while start <= ns - np
        invariant
            np == p@.len(),
            ns == s@.len(),
            1 <= np <= ns,
            0 <= start <= ns - np + 1,
            forall|i: int| 0 <= i < start ==> !match_at(s@, p@, i),
        decreases ns - start,
    {
        let mut i: usize = 0;
        let mut ok = true;
        while i < np
            invariant
                np == p@.len(),
                ns == s@.len(),
                0 <= start <= ns - np,
                0 <= i <= np,
                ok ==> forall|j: int| 0 <= j < i ==> s@[start + j] == p@[j],
                !ok ==> !match_at(s@, p@, start as int),
            decreases np - i,
        {
            if s.get_char(start + i) != p.get_char(i) {
                proof {
                    if match_at(s@, p@, start as int) {
                        assert(s@.subrange(start as int, start + np as int)[i as int] == p@[i as int]);
                    }
                }
                ok = false;
                i = np;
            } else {
                i += 1;
            }
        }
        if ok {
            proof {
                assert(s@.subrange(start as int, start + np as int) =~= p@);
                assert(match_at(s@, p@, start as int));
            }
            return true;
        }
        start += 1;
    }
    proof {
        assert forall|i: int| !match_at(s@, p@, i) by {
            if 0 <= i && i + p@.len() <= s@.len() {
                assert(i < ns - np + 1);
            }
        }
    }
    false
}

/// The position of the first occurrence of `p` in `s`, or `s.len()` when
/// `s` does not contain it.
pub open spec fn find_seq(s: Seq<char>, p: Seq<char>) -> nat
    decreases s.len(),
{
    if p.len() == 0 {
        0
    } else if s.len() < p.len() {
        s.len()
    } else if s.subrange(0, p.len() as int) == p {
        0
    } else {
        (1 + find_seq(s.drop_first(), p)) as nat
    }
}

pub proof fn lemma_find_seq(s: Seq<char>, p: Seq<char>)
    requires
        p.len() > 0,
    ensures
        find_seq(s, p) <= s.len(),
        find_seq(s, p) + p.len() <= s.len() ==> match_at(s, p, find_seq(s, p) as int),
        forall|j: int| 0 <= j < find_seq(s, p) ==> !match_at(s, p, j),
        contains_seq(s, p) <==> find_seq(s, p) + p.len() <= s.len(),
        !contains_seq(s, p) ==> find_seq(s, p) == s.len(),
    decreases s.len(),
{
    if s.len() < p.len() {
        assert forall|j: int| true implies !match_at(s, p, j) by {}
        assert(!contains_seq(s, p)) by {
            if contains_seq(s, p) {
                let j = choose|j: int| match_at(s, p, j);
            }
        }
    } else if s.subrange(0, p.len() as int) == p {
        assert(match_at(s, p, 0));
    } else {
        lemma_find_seq(s.drop_first(), p);
        let r = find_seq(s.drop_first(), p);
        assert(!match_at(s, p, 0)) by {
            if match_at(s, p, 0) {
                assert(s.subrange(0, p.len() as int) == p);
            }
        }
        assert forall|j: int| 0 <= j < find_seq(s, p) implies !match_at(s, p, j) by {
            if j > 0 {
                assert(!match_at(s.drop_first(), p, j - 1));
                if match_at(s, p, j) {
                    assert(s.drop_first().subrange(j - 1, j - 1 + p.len()) =~= s.subrange(
                        j,
                        j + p.len(),
                    ));
                }
            }
        }
        if r + p.len() <= s.drop_first().len() {
            assert(match_at(s.drop_first(), p, r as int));
            assert(s.subrange(r + 1 as int, r + 1 + p.len() as int) =~= s.drop_first().subrange(
                r as int,
                r + p.len() as int,
            ));
            assert(match_at(s, p, r + 1 as int));
        }
        if contains_seq(s, p) {
            let j = choose|j: int| match_at(s, p, j);
            if find_seq(s, p) + p.len() > s.len() {
                assert(j + p.len() <= s.len());
                assert(j >= find_seq(s, p));
                assert(find_seq(s, p) + p.len() <= s.len());
            }
        }
        if !contains_seq(s, p) {
            assert(!contains_seq(s.drop_first(), p)) by {
                if contains_seq(s.drop_first(), p) {
                    let j = choose|j: int| match_at(s.drop_first(), p, j);
                    assert(s.subrange(j + 1, j + 1 + p.len()) =~= s.drop_first().subrange(
                        j,
                        j + p.len(),
                    ));
                    assert(match_at(s, p, j + 1));
                }
            }
        }
    }
}

/// Finds the first occurrence of `p` in `s`, as `find_seq` defines it.
pub fn find_sub(s: &str, p: &str) -> (r: usize)
    requires
        p@.len() > 0,
    ensures
        r == find_seq(s@, p@),
        r <= s@.len(),
{
    proof {
        lemma_find_seq(s@, p@);
    }
    let np = p.unicode_len();
    let ns = s.unicode_len();
    if np > ns {
        return ns;
    }
    let mut start: usize = 0;
    while start <= ns - np
        invariant
            np == p@.len(),
            ns == s@.len(),
            1 <= np <= ns,
            0 <= start <= ns - np + 1,
            forall|i: int| 0 <= i < start ==> !match_at(s@, p@, i),
        ensures
            np == p@.len(),
            ns == s@.len(),
            0 <= start <= ns - np + 1,
            forall|i: int| 0 <= i < start ==> !match_at(s@, p@, i),
            start <= ns - np ==> match_at(s@, p@, start as int),
        decreases ns - start,
    {
        let mut i: usize = 0;
        let mut ok = true;
        while i < np
            invariant
                np == p@.len(),
                ns == s@.len(),
                0 <= start <= ns - np,
                0 <= i <= np,
                ok ==> forall|j: int| 0 <= j < i ==> s@[start + j] == p@[j],
                !ok ==> !match_at(s@, p@, start as int),
            decreases np - i,
        {
            if s.get_char(start + i) != p.get_char(i) {
                proof {
                    if match_at(s@, p@, start as int) {
                        assert(s@.subrange(start as int, start + np as int)[i as int] == p@[i as int]);
                    }
                }
                ok = false;
                i = np;
            } else {
                i += 1;
            }
        }
        if ok {
            proof {
                assert(s@.subrange(start as int, start + np as int) =~= p@);
                assert(match_at(s@, p@, start as int));
            }
            break;
        }
        start += 1;
    }
    proof {
        lemma_find_seq(s@, p@);
        if start <= ns - np {
            assert(start == find_seq(s@, p@)) by {
                if find_seq(s@, p@) < start {
                    assert(!match_at(s@, p@, find_seq(s@, p@) as int));
                    assert(find_seq(s@, p@) + p@.len() <= s@.len());
                    lemma_find_seq(s@, p@);
                }
                if find_seq(s@, p@) > start {
                    assert(!match_at(s@, p@, start as int));
                }
            }
        } else {
            assert(start == ns - np + 1);
            assert(!contains_seq(s@, p@)) by {
                if contains_seq(s@, p@) {
                    let j = choose|j: int| match_at(s@, p@, j);
                    assert(j <= ns - np);
                }
            }
            assert(find_seq(s@, p@) == s@.len());
        }
    }
    if start <= ns - np {
        start
    } else {
        ns
    }
}

/// The number of leading characters of `s` that are whitespace.
pub open spec fn wsp_prefix_len(s: Seq<char>) -> nat
    decreases s.len(),
{
    if s.len() > 0 && is_wsp(s[0]) {
        1 + wsp_prefix_len(s.drop_first())
    } else {
        0
    }
}

/// The number of trailing characters of `s` that are whitespace.
pub open spec fn wsp_suffix_len(s: Seq<char>) -> nat
    decreases s.len(),
{
    if s.len() > 0 && is_wsp(s.last()) {
        1 + wsp_suffix_len(s.drop_last())
    } else {
        0
    }
}

/// The number of leading characters of `s` that are not whitespace.
pub open spec fn nonwsp_prefix_len(s: Seq<char>) -> nat
    decreases s.len(),
{
    if s.len() > 0 && !is_wsp(s[0]) {
        1 + nonwsp_prefix_len(s.drop_first())
    } else {
        0
    }
}

pub proof fn lemma_nonwsp_prefix(s: Seq<char>)
    ensures
        nonwsp_prefix_len(s) <= s.len(),
        forall|j: int| 0 <= j < nonwsp_prefix_len(s) ==> !is_wsp(#[trigger] s[j]),
        nonwsp_prefix_len(s) < s.len() ==> is_wsp(s[nonwsp_prefix_len(s) as int]),
    decreases s.len(),
{
    if s.len() > 0 && !is_wsp(s[0]) {
        lemma_nonwsp_prefix(s.drop_first());
        assert forall|j: int| 0 <= j < nonwsp_prefix_len(s) implies !is_wsp(#[trigger] s[j]) by {
            if j > 0 {
                assert(!is_wsp(s.drop_first()[j - 1]));
            }
        }
        if nonwsp_prefix_len(s) < s.len() {
            assert(s[nonwsp_prefix_len(s) as int] == s.drop_first()[nonwsp_prefix_len(
                s.drop_first(),
            ) as int]);
        }
    }
}

/// Counts the leading whitespace of `s`.
pub fn skip_wsp(s: &str) -> (r: usize)
    ensures
        r == wsp_prefix_len(s@),
{
    proof {
        lemma_wsp_prefix(s@);
    }
    let n = s.unicode_len();
    let mut i: usize = 0;
    while i < n
        invariant
            n == s@.len(),
            0 <= i <= n,
            forall|j: int| 0 <= j < i ==> is_wsp(#[trigger] s@[j]),
            i <= wsp_prefix_len(s@),
        ensures
            n == s@.len(),
            0 <= i <= n,
            forall|j: int| 0 <= j < i ==> is_wsp(#[trigger] s@[j]),
            i <= wsp_prefix_len(s@),
            i < n ==> !is_wsp(s@[i as int]),
        decreases n - i,
    {
        let c = s.get_char(i);
        if !(c == ' ' || c == '\t' || c == '\n' || c == '\r') {
            break;
        }
        proof {
            lemma_wsp_prefix(s@);
            assert(i < wsp_prefix_len(s@)) by {
                if i == wsp_prefix_len(s@) {
                    assert(!is_wsp(s@[i as int]));
                }
            }
        }
        i += 1;
    }
    proof {
        assert(i == wsp_prefix_len(s@)) by {
            if i < wsp_prefix_len(s@) {
                assert(is_wsp(s@[i as int]));
            }
        }
    }
    i
}

/// Counts the leading non-whitespace run of `s`.
pub fn token_len(s: &str) -> (r: usize)
    ensures
        r == nonwsp_prefix_len(s@),
{
    proof {
        lemma_nonwsp_prefix(s@);
    }
    let n = s.unicode_len();
    let mut i: usize = 0;
    while i < n
        invariant
            n == s@.len(),
            0 <= i <= n,
            forall|j: int| 0 <= j < i ==> !is_wsp(#[trigger] s@[j]),
            i <= nonwsp_prefix_len(s@),
        ensures
            n == s@.len(),
            0 <= i <= n,
            forall|j: int| 0 <= j < i ==> !is_wsp(#[trigger] s@[j]),
            i <= nonwsp_prefix_len(s@),
            i < n ==> is_wsp(s@[i as int]),
        decreases n - i,
    {
        let c = s.get_char(i);
        if c == ' ' || c == '\t' || c == '\n' || c == '\r' {
            break;
        }
        proof {
            lemma_nonwsp_prefix(s@);
            assert(i < nonwsp_prefix_len(s@)) by {
                if i == nonwsp_prefix_len(s@) {
                    assert(is_wsp(s@[i as int]));
                }
            }
        }
        i += 1;
    }
    proof {
        assert(i == nonwsp_prefix_len(s@)) by {
            if i < nonwsp_prefix_len(s@) {
                assert(!is_wsp(s@[i as int]));
            }
        }
    }
    i
}

/// Finds the first occurrence of the character, as `find_ch` in the codec
/// defines it: the index of the first hit, or the length when there is
/// none.
pub fn find_char(s: &str, c: char) -> (r: usize)
    ensures
        r <= s@.len(),
        r < s@.len() ==> s@[r as int] == c,
        forall|j: int| 0 <= j < r ==> s@[j] != c,
        r == s@.len() ==> !s@.contains(c),
{
    let n = s.unicode_len();
    let mut i: usize = 0;
    while i < n
        invariant
            n == s@.len(),
            0 <= i <= n,
            forall|j: int| 0 <= j < i ==> s@[j] != c,
        decreases n - i,
    {
        if s.get_char(i) == c {
            return i;
        }
        i += 1;
    }
    proof {
        if s@.contains(c) {
            let k = choose|k: int| 0 <= k < s@.len() && s@[k] == c;
        }
    }
    n
}

/// What `trim` returns: the text with leading and trailing whitespace
/// removed.
pub open spec fn trim_spec(s: Seq<char>) -> Seq<char> {
    if all_wsp(s) {
        Seq::empty()
    } else {
        s.subrange(wsp_prefix_len(s) as int, s.len() - wsp_suffix_len(s))
    }
}

pub proof fn lemma_wsp_prefix(s: Seq<char>)
    ensures
        wsp_prefix_len(s) <= s.len(),
        forall|j: int| 0 <= j < wsp_prefix_len(s) ==> is_wsp(#[trigger] s[j]),
        wsp_prefix_len(s) < s.len() ==> !is_wsp(s[wsp_prefix_len(s) as int]),
    decreases s.len(),
{
    if s.len() > 0 && is_wsp(s[0]) {
        lemma_wsp_prefix(s.drop_first());
        assert forall|j: int| 0 <= j < wsp_prefix_len(s) implies is_wsp(#[trigger] s[j]) by {
            if j > 0 {
                assert(is_wsp(s.drop_first()[j - 1]));
            }
        }
        if wsp_prefix_len(s) < s.len() {
            assert(s[wsp_prefix_len(s) as int] == s.drop_first()[wsp_prefix_len(s.drop_first()) as int]);
        }
    }
}

pub proof fn lemma_wsp_suffix(s: Seq<char>)
    ensures
        wsp_suffix_len(s) <= s.len(),
        forall|j: int| s.len() - wsp_suffix_len(s) <= j < s.len() ==> is_wsp(#[trigger] s[j]),
        wsp_suffix_len(s) < s.len() ==> !is_wsp(s[s.len() - wsp_suffix_len(s) - 1]),
    decreases s.len(),
{
    if s.len() > 0 && is_wsp(s.last()) {
        lemma_wsp_suffix(s.drop_last());
        assert forall|j: int| s.len() - wsp_suffix_len(s) <= j < s.len() implies is_wsp(
            #[trigger] s[j],
        ) by {
            if j < s.len() - 1 {
                assert(is_wsp(s.drop_last()[j]));
            }
        }
    }
}

/// Removes leading and trailing whitespace.
pub fn trim(s: &str) -> (r: &str)
    ensures
        r@ == trim_spec(s@),
{
    proof {
        lemma_wsp_prefix(s@);
        lemma_wsp_suffix(s@);
    }
    let n = s.unicode_len();
    let mut lo: usize = 0;
    while lo < n
        invariant
            n == s@.len(),
            0 <= lo <= n,
            forall|j: int| 0 <= j < lo ==> is_wsp(#[trigger] s@[j]),
            lo <= wsp_prefix_len(s@),
        ensures
            n == s@.len(),
            0 <= lo <= n,
            forall|j: int| 0 <= j < lo ==> is_wsp(#[trigger] s@[j]),
            lo <= wsp_prefix_len(s@),
            lo < n ==> !is_wsp(s@[lo as int]),
        decreases n - lo,
    {
        let c = s.get_char(lo);
        if !(c == ' ' || c == '\t' || c == '\n' || c == '\r') {
            break;
        }
        proof {
            lemma_wsp_prefix(s@);
            assert(lo < wsp_prefix_len(s@)) by {
                if lo == wsp_prefix_len(s@) {
                    assert(!is_wsp(s@[lo as int]));
                }
            }
        }
        lo += 1;
    }
    if lo == n {
        proof {
            assert(all_wsp(s@));
        }
        let r = s.substring_char(0, 0);
        proof {
            assert(r@ =~= trim_spec(s@));
        }
        return r;
    }
    proof {
        assert(!all_wsp(s@)) by {
            assert(!is_wsp(s@[lo as int]));
        }
        assert(lo == wsp_prefix_len(s@)) by {
            if lo < wsp_prefix_len(s@) {
                assert(is_wsp(s@[lo as int]));
            }
        }
    }
    let mut hi: usize = n;
    while hi > lo
        invariant
            n == s@.len(),
            0 <= lo < n,
            lo <= hi <= n,
            !is_wsp(s@[lo as int]),
            forall|j: int| hi <= j < n ==> is_wsp(#[trigger] s@[j]),
            n - hi <= wsp_suffix_len(s@),
        ensures
            n == s@.len(),
            lo <= hi <= n,
            forall|j: int| hi <= j < n ==> is_wsp(#[trigger] s@[j]),
            n - hi <= wsp_suffix_len(s@),
            hi > lo ==> !is_wsp(s@[hi - 1]),
        decreases hi,
    {
        let c = s.get_char(hi - 1);
        if !(c == ' ' || c == '\t' || c == '\n' || c == '\r') {
            break;
        }
        hi -= 1;
        proof {
            lemma_wsp_suffix(s@);
            assert(n - hi <= wsp_suffix_len(s@)) by {
                if n - hi > wsp_suffix_len(s@) {
                    assert(hi == n - wsp_suffix_len(s@) - 1);
                    assert(!is_wsp(s@[hi as int]));
                }
            }
        }
    }
    proof {
        assert(hi > lo) by {
            if hi == lo {
                assert(is_wsp(s@[lo as int]));
            }
        }
        assert(hi == n - wsp_suffix_len(s@)) by {
            if hi > n - wsp_suffix_len(s@) {
                assert(is_wsp(s@[hi - 1]));
            }
        }
    }
    let r = s.substring_char(lo, hi);
    proof {
        assert(r@ =~= trim_spec(s@));
    }
    r
}

/// The lines of a text, split on `'\n'`.  Empty text has one empty line;
/// every `'\n'` ends the line before it.
pub open spec fn split_lines(s: Seq<char>) -> Seq<Seq<char>>
    decreases s.len(),
{
    if s.len() == 0 {
        seq![Seq::empty()]
    } else if s.last() == '\n' {
        split_lines(s.drop_last()).push(Seq::empty())
    } else {
        let r = split_lines(s.drop_last());
        r.update(r.len() - 1, r.last().push(s.last()))
    }
}

pub proof fn lemma_split_lines_len(s: Seq<char>)
    ensures
        split_lines(s).len() >= 1,
    decreases s.len(),
{
    if s.len() > 0 {
        lemma_split_lines_len(s.drop_last());
    }
}

/// Lines joined with `'\n'` between them.
pub open spec fn join_lines(ls: Seq<Seq<char>>) -> Seq<char>
    decreases ls.len(),
{
    if ls.len() == 0 {
        Seq::empty()
    } else if ls.len() == 1 {
        ls[0]
    } else {
        join_lines(ls.drop_last()) + seq!['\n'] + ls.last()
    }
}

/// No line of `ls` contains a newline.
pub open spec fn newline_free_all(ls: Seq<Seq<char>>) -> bool {
    forall|i: int| 0 <= i < ls.len() ==> !(#[trigger] ls[i]).contains('\n')
}

proof fn lemma_split_of_newline_free(s: Seq<char>)
    requires
        !s.contains('\n'),
    ensures
        split_lines(s) =~~= seq![s],
    decreases s.len(),
{
    if s.len() == 0 {
        assert(split_lines(s) =~~= seq![s]);
    } else {
        assert(s[s.len() - 1] != '\n');
        assert(!s.drop_last().contains('\n')) by {
            if s.drop_last().contains('\n') {
                let i = choose|i: int| 0 <= i < s.drop_last().len() && s.drop_last()[i] == '\n';
                assert(s[i] == '\n');
            }
        }
        lemma_split_of_newline_free(s.drop_last());
        assert(split_lines(s) =~~= seq![s.drop_last().push(s.last())]);
        assert(s.drop_last().push(s.last()) =~= s);
    }
}

proof fn lemma_split_append_line(t: Seq<char>, y: Seq<char>)
    requires
        !y.contains('\n'),
    ensures
        split_lines(t + seq!['\n'] + y) =~~= split_lines(t).push(y),
    decreases y.len(),
{
    let whole = t + seq!['\n'] + y;
    if y.len() == 0 {
        assert(whole.last() == '\n');
        assert(whole.drop_last() =~= t);
        assert(split_lines(whole) =~~= split_lines(t).push(Seq::empty()));
        assert(y =~= Seq::<char>::empty());
    } else {
        let y0 = y.drop_last();
        assert(!y0.contains('\n')) by {
            if y0.contains('\n') {
                let i = choose|i: int| 0 <= i < y0.len() && y0[i] == '\n';
                assert(y[i] == '\n');
            }
        }
        assert(whole.last() == y.last());
        assert(y.last() != '\n');
        assert(whole.drop_last() =~= t + seq!['\n'] + y0);
        lemma_split_append_line(t, y0);
        lemma_split_lines_len(t);
        let r = split_lines(t).push(y0);
        assert(split_lines(whole) =~~= r.update(r.len() - 1, r.last().push(y.last())));
        assert(y0.push(y.last()) =~= y);
        assert(r.update(r.len() - 1, y) =~~= split_lines(t).push(y));
    }
}

/// Splitting undoes joining, for any non-empty sequence of newline-free
/// lines.
pub proof fn lemma_split_join(ls: Seq<Seq<char>>)
    requires
        ls.len() >= 1,
        newline_free_all(ls),
    ensures
        split_lines(join_lines(ls)) =~~= ls,
    decreases ls.len(),
{
    if ls.len() == 1 {
        lemma_split_of_newline_free(ls[0]);
        assert(split_lines(join_lines(ls)) =~~= seq![ls[0]]);
        assert(seq![ls[0]] =~~= ls);
    } else {
        let front = ls.drop_last();
        assert(newline_free_all(front)) by {
            assert(forall|i: int| 0 <= i < front.len() ==> front[i] =~= ls[i]);
        }
        lemma_split_join(front);
        assert(!ls.last().contains('\n'));
        lemma_split_append_line(join_lines(front), ls.last());
        assert(join_lines(ls) == join_lines(front) + seq!['\n'] + ls.last());
        assert(split_lines(join_lines(ls)) =~~= front.push(ls.last()));
        assert(front.push(ls.last()) =~~= ls);
    }
}

/// Splits text into its lines.
pub fn split_lines_exec(s: &str) -> (r: Vec<String>)
    ensures
        r.deep_view() == split_lines(s@),
{
    let n = s.unicode_len();
    let mut lines: Vec<String> = Vec::new();
    let mut cur = String::new();
    let mut i: usize = 0;
    while i < n
        invariant
            n == s@.len(),
            0 <= i <= n,
            split_lines(s@.subrange(0, i as int)) =~~= lines.deep_view().push(cur@),
        decreases n - i,
    {
        let c = s.get_char(i);
        proof {
            assert(s@.subrange(0, i + 1 as int).drop_last() =~= s@.subrange(0, i as int));
            assert(s@.subrange(0, i + 1 as int).last() == s@[i as int]);
            lemma_split_lines_len(s@.subrange(0, i as int));
        }
        if c == '\n' {
            lines.push(cur);
            cur = String::new();
            proof {
                assert(split_lines(s@.subrange(0, i + 1 as int)) =~~= lines.deep_view().push(cur@));
            }
        } else {
            push_char(&mut cur, c);
            proof {
                let prev = lines.deep_view().push(cur@.drop_last());
                assert(split_lines(s@.subrange(0, i + 1 as int)) =~~= prev.update(
                    prev.len() - 1,
                    prev.last().push(c),
                ));
                assert(prev.update(prev.len() - 1, prev.last().push(c)) =~~= lines.deep_view().push(
                    cur@,
                ));
            }
        }
        i += 1;
    }
    proof {
        assert(s@.subrange(0, n as int) =~= s@);
    }
    lines.push(cur);
    proof {
        assert(lines.deep_view() =~~= split_lines(s@));
    }
    lines
}

/// Joins lines with `'\n'` between them.
pub fn join_lines_exec(ls: &Vec<String>) -> (r: String)
    ensures
        r@ == join_lines(ls.deep_view()),
{
    let mut r = String::new();
    if ls.len() == 0 {
        return r;
    }
    let mut k: usize = 0;
    while k < ls.len()
        invariant
            1 <= ls.len(),
            0 <= k <= ls.len(),
            k == 0 ==> r@ == Seq::<char>::empty(),
            k >= 1 ==> r@ == join_lines(ls.deep_view().subrange(0, k as int)),
        decreases ls.len() - k,
    {
        if k > 0 {
            push_char(&mut r, '\n');
        }
        let line: &String = &ls[k];
        r.append(line.as_str());
        proof {
            let dv = ls.deep_view();
            assert(dv.subrange(0, k + 1 as int).drop_last() =~= dv.subrange(0, k as int));
            assert(dv.subrange(0, k + 1 as int).last() =~= dv[k as int]);
            if k == 0 {
                assert(join_lines(dv.subrange(0, 1)) =~= dv[0]);
                assert(r@ =~= dv[0]);
            } else {
                assert(join_lines(dv.subrange(0, k + 1 as int)) =~= join_lines(
                    dv.subrange(0, k as int),
                ) + seq!['\n'] + dv[k as int]);
                assert(r@ =~= join_lines(dv.subrange(0, k as int)) + seq!['\n'] + dv[k as int]);
            }
        }
        k += 1;
    }
    proof {
        assert(ls.deep_view().subrange(0, ls.deep_view().len() as int) =~= ls.deep_view());
    }
    r
}

} // verus!
