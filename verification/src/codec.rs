//! The registry backing format: one section per link,
//!
//! ```text
//! [<id>]
//! labels = ["<label>", ...]
//! name = "<displayName>"       (omitted when empty)
//! repo = "<repoRef>"           (omitted when empty)
//! account = "<boundAccount>"   (omitted when empty)
//! ```
//!
//! `save_collaborators` renders a registry to this text, in ascending id
//! order, and `load_collaborators` reads it back; loading re-derives an
//! empty remote reference from the owner identity.  The round-trip law
//! (`lemma_load_save_roundtrip`) proves that loading what was saved
//! restores every well-formed registry, up to that re-derivation.
//!
//! The reader accepts exactly this shape — double-quoted values without
//! escapes, single-line arrays, one section per link — plus blank lines
//! and assignments to unknown keys; any other configuration-language
//! form fails the read with a parse error.

use vstd::prelude::*;
use crate::CollabError;
use crate::link::{auto_repo_spec, quotable, Collaborator, LinkView};
use crate::registry::{
    contains_id, id_sorted, insert_sorted, lemma_sorted_insertions_contains,
    lemma_sorted_insertions_id, sorted_insertions, Registry,
};
use crate::textutil::{join_lines, split_lines};

verus! {

/// A text between double quotes.
pub open spec fn quote(s: Seq<char>) -> Seq<char> {
    seq!['"'] + s + seq!['"']
}

/// The quoted labels, comma-separated: `"a", "b"`.
pub open spec fn quoted_join(ls: Seq<Seq<char>>) -> Seq<char>
    decreases ls.len(),
{
    if ls.len() == 0 {
        Seq::empty()
    } else if ls.len() == 1 {
        quote(ls[0])
    } else {
        quote(ls[0]) + ", "@ + quoted_join(ls.drop_first())
    }
}

/// Appending one more label extends the joined text on the right.
pub proof fn lemma_quoted_join_push(ls: Seq<Seq<char>>, x: Seq<char>)
    ensures
        ls.len() == 0 ==> quoted_join(ls.push(x)) == quote(x),
        ls.len() > 0 ==> quoted_join(ls.push(x)) == quoted_join(ls) + ", "@ + quote(x),
    decreases ls.len(),
{
    if ls.len() == 0 {
        assert(ls.push(x)[0] == x);
        assert(quoted_join(ls.push(x)) == quote(x));
    } else {
        let p = ls.push(x);
        assert(p.len() >= 2);
        assert(p[0] == ls[0]);
        assert(p.drop_first() =~~= ls.drop_first().push(x));
        lemma_quoted_join_push(ls.drop_first(), x);
        if ls.len() == 1 {
            assert(ls.drop_first().len() == 0);
            assert(quoted_join(p) == quote(ls[0]) + ", "@ + quote(x));
        } else {
            assert(quoted_join(p) == quote(ls[0]) + ", "@ + (quoted_join(ls.drop_first()) + ", "@
                + quote(x)));
            assert(quote(ls[0]) + ", "@ + (quoted_join(ls.drop_first()) + ", "@ + quote(x)) =~= (
            quote(ls[0]) + ", "@ + quoted_join(ls.drop_first())) + ", "@ + quote(x));
        }
    }
}

/// The lines one link becomes: header, labels, the non-empty optional
/// fields, and a closing blank line.
pub open spec fn entry_lines(l: LinkView) -> Seq<Seq<char>> {
    seq![seq!['['] + l.id + seq![']']] + seq!["labels = "@ + ("["@ + quoted_join(l.labels) + "]"@)]
        + (if l.name.len() > 0 {
        seq!["name = "@ + quote(l.name)]
    } else {
        Seq::empty()
    }) + (if l.repo.len() > 0 {
        seq!["repo = "@ + quote(l.repo)]
    } else {
        Seq::empty()
    }) + (if l.account.len() > 0 {
        seq!["account = "@ + quote(l.account)]
    } else {
        Seq::empty()
    }) + seq![Seq::<char>::empty()]
}

/// The lines of a whole registry, entry after entry.
pub open spec fn save_lines(regs: Seq<LinkView>) -> Seq<Seq<char>>
    decreases regs.len(),
{
    if regs.len() == 0 {
        Seq::empty()
    } else {
        entry_lines(regs[0]) + save_lines(regs.drop_first())
    }
}

/// Appending one more entry extends the lines on the right.
pub proof fn lemma_save_lines_push(regs: Seq<LinkView>, l: LinkView)
    ensures
        save_lines(regs.push(l)) == save_lines(regs) + entry_lines(l),
    decreases regs.len(),
{
    if regs.len() == 0 {
        let p = regs.push(l);
        assert(p[0] == l);
        assert(p.drop_first() =~~= Seq::<LinkView>::empty());
        assert(save_lines(p.drop_first()) == save_lines(Seq::<LinkView>::empty()));
        assert(save_lines(Seq::<LinkView>::empty()) == Seq::<Seq<char>>::empty());
        assert(save_lines(p) == entry_lines(l) + save_lines(p.drop_first()));
        assert(entry_lines(l) + Seq::<Seq<char>>::empty() =~~= entry_lines(l));
        assert(regs =~~= Seq::<LinkView>::empty());
        assert(save_lines(regs) == Seq::<Seq<char>>::empty());
        assert(save_lines(regs) + entry_lines(l) =~~= entry_lines(l));
    } else {
        let p = regs.push(l);
        assert(p[0] == regs[0]);
        assert(p.drop_first() =~~= regs.drop_first().push(l));
        lemma_save_lines_push(regs.drop_first(), l);
        assert(save_lines(p) == entry_lines(regs[0]) + (save_lines(regs.drop_first())
            + entry_lines(l)));
        assert(entry_lines(regs[0]) + (save_lines(regs.drop_first()) + entry_lines(l)) =~~= (
        entry_lines(regs[0]) + save_lines(regs.drop_first())) + entry_lines(l));
    }
}

/// What `save_collaborators` returns: the registry's lines joined with
/// newlines.
pub open spec fn save_spec(regs: Seq<LinkView>) -> Seq<char> {
    join_lines(save_lines(regs))
}

/// The position of the first occurrence of `c` in `s`, or `s.len()` when
/// `s` does not contain it.
pub open spec fn find_ch(s: Seq<char>, c: char) -> nat
    decreases s.len(),
{
    if s.len() == 0 {
        0
    } else if s[0] == c {
        0
    } else {
        (1 + find_ch(s.drop_first(), c)) as nat
    }
}

pub proof fn lemma_find_ch(s: Seq<char>, c: char)
    ensures
        find_ch(s, c) <= s.len(),
        find_ch(s, c) < s.len() ==> s[find_ch(s, c) as int] == c,
        forall|j: int| 0 <= j < find_ch(s, c) ==> s[j] != c,
        s.contains(c) <==> find_ch(s, c) < s.len(),
    decreases s.len(),
{
    if s.len() > 0 && s[0] != c {
        lemma_find_ch(s.drop_first(), c);
        let r = find_ch(s.drop_first(), c);
        assert forall|j: int| 0 <= j < find_ch(s, c) implies s[j] != c by {
            if j > 0 {
                assert(s.drop_first()[j - 1] != c);
            }
        }
        if s.contains(c) {
            let k = choose|k: int| 0 <= k < s.len() && s[k] == c;
            assert(s.drop_first()[k - 1] == c);
            assert(s.drop_first().contains(c));
        }
        if r < s.drop_first().len() {
            assert(s[r + 1 as int] == s.drop_first()[r as int]);
        }
    }
}

/// In `x + t` with `x` free of `c` and `t` starting with `c`, the first
/// occurrence of `c` is exactly at `x.len()`.
pub proof fn lemma_find_ch_concat(x: Seq<char>, t: Seq<char>, c: char)
    requires
        !x.contains(c),
        t.len() > 0,
        t[0] == c,
    ensures
        find_ch(x + t, c) == x.len(),
    decreases x.len(),
{
    let s = x + t;
    if x.len() == 0 {
        assert(s[0] == c);
    } else {
        assert(s[0] == x[0]);
        assert(x[0] != c);
        assert(s.drop_first() =~= x.drop_first() + t);
        assert(!x.drop_first().contains(c)) by {
            if x.drop_first().contains(c) {
                let k = choose|k: int| 0 <= k < x.drop_first().len() && x.drop_first()[k] == c;
                assert(x[k + 1] == c);
            }
        }
        lemma_find_ch_concat(x.drop_first(), t, c);
    }
}

/// Containment distributes over concatenation.
pub proof fn lemma_concat_contains(a: Seq<char>, b: Seq<char>, c: char)
    ensures
        (a + b).contains(c) <==> (a.contains(c) || b.contains(c)),
{
    if (a + b).contains(c) {
        let k = choose|k: int| 0 <= k < (a + b).len() && (a + b)[k] == c;
        if k < a.len() {
            assert(a[k] == c);
        } else {
            assert(b[k - a.len()] == c);
        }
    }
    if a.contains(c) {
        let k = choose|k: int| 0 <= k < a.len() && a[k] == c;
        assert((a + b)[k] == c);
    }
    if b.contains(c) {
        let k = choose|k: int| 0 <= k < b.len() && b[k] == c;
        assert((a + b)[a.len() + k] == c);
    }
}

/// A quoted value: `"` + quote-free text + `"`.
pub open spec fn parse_quoted(v: Seq<char>) -> Option<Seq<char>> {
    if v.len() >= 2 && v[0] == '"' && v[v.len() - 1] == '"' && !v.subrange(
        1,
        v.len() - 1,
    ).contains('"') {
        Some(v.subrange(1, v.len() - 1))
    } else {
        None
    }
}

/// The elements of a label array's inside: quoted values separated by
/// `", "`, or nothing.
pub open spec fn parse_elems(s: Seq<char>) -> Option<Seq<Seq<char>>>
    decreases s.len(),
{
    if s.len() == 0 {
        Some(Seq::empty())
    } else if s[0] != '"' {
        None
    } else {
        let j = 1 + find_ch(s.drop_first(), '"');
        if j >= s.len() {
            None
        } else {
            let elem = s.subrange(1, j as int);
            if j == s.len() - 1 {
                Some(seq![elem])
            } else if j + 2 < s.len() && s[j + 1 as int] == ',' && s[j + 2 as int] == ' ' {
                match parse_elems(s.subrange(j + 3 as int, s.len() as int)) {
                    Some(rest) => Some(seq![elem] + rest),
                    None => None,
                }
            } else {
                None
            }
        }
    }
}

/// What one line of the backing text means.
pub ghost enum LineClass {
    /// A line of nothing but whitespace; ignored.
    Blank,
    /// `[id]` — opens the section of a new link.
    Header(Seq<char>),
    /// `labels = [...]`
    Labels(Seq<Seq<char>>),
    /// `name = "..."`
    Name(Seq<char>),
    /// `repo = "..."`
    Repo(Seq<char>),
    /// `account = "..."`
    Account(Seq<char>),
    /// A well-shaped assignment to a key this engine does not know;
    /// ignored, as the original readers ignored unknown keys.
    SkipLine,
    /// Anything else: malformed.
    Bad,
}

pub open spec fn classify(line: Seq<char>) -> LineClass {
    if crate::textutil::all_wsp(line) {
        LineClass::Blank
    } else if line[0] == '[' {
        if line.len() >= 3 && line[line.len() - 1] == ']' {
            LineClass::Header(line.subrange(1, line.len() - 1))
        } else {
            LineClass::Bad
        }
    } else if line.len() >= 9 && line.subrange(0, 9) == "labels = "@ {
        let v = line.subrange(9, line.len() as int);
        if v.len() >= 2 && v[0] == '[' && v[v.len() - 1] == ']' {
            match parse_elems(v.subrange(1, v.len() - 1)) {
                Some(ls) => LineClass::Labels(ls),
                None => LineClass::Bad,
            }
        } else {
            LineClass::Bad
        }
    } else if line.len() >= 7 && line.subrange(0, 7) == "name = "@ {
        match parse_quoted(line.subrange(7, line.len() as int)) {
            Some(s) => LineClass::Name(s),
            None => LineClass::Bad,
        }
    } else if line.len() >= 7 && line.subrange(0, 7) == "repo = "@ {
        match parse_quoted(line.subrange(7, line.len() as int)) {
            Some(s) => LineClass::Repo(s),
            None => LineClass::Bad,
        }
    } else if line.len() >= 10 && line.subrange(0, 10) == "account = "@ {
        match parse_quoted(line.subrange(10, line.len() as int)) {
            Some(s) => LineClass::Account(s),
            None => LineClass::Bad,
        }
    } else if crate::textutil::contains_seq(line, " = "@) {
        LineClass::SkipLine
    } else {
        LineClass::Bad
    }
}

/// A link section being read: its id, and the fields seen so far.  The
/// labels are mandatory; the rest default to empty.
#[verifier::ext_equal]
pub ghost struct Partial {
    pub id: Seq<char>,
    pub labels: Option<Seq<Seq<char>>>,
    pub name: Seq<char>,
    pub repo: Seq<char>,
    pub account: Seq<char>,
}

pub open spec fn partial_new(id: Seq<char>) -> Partial {
    Partial { id, labels: None, name: Seq::empty(), repo: Seq::empty(), account: Seq::empty() }
}

/// A finished section read back from a link: all fields seen.
pub open spec fn full_partial(l: LinkView) -> Partial {
    Partial { id: l.id, labels: Some(l.labels), name: l.name, repo: l.repo, account: l.account }
}

/// Closes a section: a section without a labels line is malformed.
pub open spec fn finalize(p: Partial) -> Option<LinkView> {
    match p.labels {
        Some(ls) => Some(
            LinkView { id: p.id, labels: ls, repo: p.repo, name: p.name, account: p.account },
        ),
        None => None,
    }
}

/// Closes the current section, if one is open, onto the accumulator.
pub open spec fn finish(cur: Option<Partial>, acc: Seq<LinkView>) -> Option<Seq<LinkView>> {
    match cur {
        None => Some(acc),
        Some(p) => match finalize(p) {
            Some(l) => Some(acc.push(l)),
            None => None,
        },
    }
}

/// Reads the lines of the backing text, section by section.  A repeated
/// id, a field line outside any section, a section without labels, or a
/// malformed line fails the whole read.
pub open spec fn parse_lines(
    lines: Seq<Seq<char>>,
    cur: Option<Partial>,
    acc: Seq<LinkView>,
) -> Option<Seq<LinkView>>
    decreases lines.len(),
{
    if lines.len() == 0 {
        finish(cur, acc)
    } else {
        let rest = lines.drop_first();
        match classify(lines[0]) {
            LineClass::Blank => parse_lines(rest, cur, acc),
            LineClass::SkipLine => parse_lines(rest, cur, acc),
            LineClass::Header(id) => match finish(cur, acc) {
                Some(acc2) => if contains_id(acc2, id) {
                    None
                } else {
                    parse_lines(rest, Some(partial_new(id)), acc2)
                },
                None => None,
            },
            LineClass::Labels(ls) => match cur {
                Some(p) => parse_lines(rest, Some(Partial { labels: Some(ls), ..p }), acc),
                None => None,
            },
            LineClass::Name(s) => match cur {
                Some(p) => parse_lines(rest, Some(Partial { name: s, ..p }), acc),
                None => None,
            },
            LineClass::Repo(s) => match cur {
                Some(p) => parse_lines(rest, Some(Partial { repo: s, ..p }), acc),
                None => None,
            },
            LineClass::Account(s) => match cur {
                Some(p) => parse_lines(rest, Some(Partial { account: s, ..p }), acc),
                None => None,
            },
            LineClass::Bad => None,
        }
    }
}

/// A link as `load` returns it: an empty remote reference is re-derived
/// from the owner identity when one is available; an explicit value
/// always wins over derivation.
pub open spec fn derive_link(l: LinkView, owner: Seq<char>) -> LinkView {
    if l.repo.len() == 0 && owner.len() > 0 {
        LinkView { repo: auto_repo_spec(owner, l.id), ..l }
    } else {
        l
    }
}

pub open spec fn derive_links(regs: Seq<LinkView>, owner: Seq<char>) -> Seq<LinkView> {
    regs.map_values(|l: LinkView| derive_link(l, owner))
}

/// What `load_collaborators` returns: the parsed sections with remote
/// references re-derived, re-ordered into ascending id order as the
/// registry keeps them; `None` is a parse failure.
pub open spec fn load_spec(text: Seq<char>, owner: Seq<char>) -> Option<Seq<LinkView>> {
    match parse_lines(split_lines(text), None, Seq::empty()) {
        Some(r) => Some(crate::registry::sorted_insertions(derive_links(r, owner))),
        None => None,
    }
}

pub(crate) fn quote_exec(s: &str) -> (r: String)
    ensures
        r@ == quote(s@),
{
    let mut r = String::new();
    crate::textutil::push_char(&mut r, '"');
    r.append(s);
    crate::textutil::push_char(&mut r, '"');
    proof {
        assert(r@ =~= quote(s@));
    }
    r
}

pub(crate) fn quoted_join_exec(ls: &Vec<String>) -> (r: String)
    ensures
        r@ == quoted_join(ls.deep_view()),
{
    let mut r = String::new();
    let mut k: usize = 0;
    proof {
        assert(ls.deep_view().subrange(0, 0) =~~= Seq::<Seq<char>>::empty());
        assert(r@ =~= quoted_join(ls.deep_view().subrange(0, 0)));
    }
    while k < ls.len()
        invariant
            0 <= k <= ls@.len(),
            r@ == quoted_join(ls.deep_view().subrange(0, k as int)),
        decreases ls@.len() - k,
    {
        if k > 0 {
            r.append(", ");
        }
        let q = quote_exec(ls[k].as_str());
        r.append(q.as_str());
        proof {
            let dv = ls.deep_view();
            assert(dv.subrange(0, k + 1 as int) =~~= dv.subrange(0, k as int).push(dv[k as int]));
            lemma_quoted_join_push(dv.subrange(0, k as int), dv[k as int]);
            assert(dv.subrange(0, k as int).len() == k);
            if k == 0 {
                assert(r@ =~= quote(dv[0]));
            } else {
                assert(r@ =~= quoted_join(dv.subrange(0, k as int)) + ", "@ + quote(dv[k as int]));
            }
        }
        k += 1;
    }
    proof {
        assert(ls.deep_view().subrange(0, ls@.len() as int) =~= ls.deep_view());
    }
    r
}

/// Appends one link's lines.
fn entry_lines_exec(c: &Collaborator, lines: &mut Vec<String>)
    ensures
        final(lines).deep_view() == old(lines).deep_view() + entry_lines(c@),
{
    let mut header = String::new();
    crate::textutil::push_char(&mut header, '[');
    header.append(c.github_user.as_str());
    crate::textutil::push_char(&mut header, ']');
    proof {
        assert(header@ =~= seq!['['] + c@.id + seq![']']);
    }
    crate::cmd::push_arg_string(lines, header);

    let mut labels_line = String::from_str("labels = ");
    crate::textutil::push_char(&mut labels_line, '[');
    let join = quoted_join_exec(&c.labels);
    labels_line.append(join.as_str());
    crate::textutil::push_char(&mut labels_line, ']');
    proof {
        reveal_strlit("[");
        reveal_strlit("]");
        assert("["@ =~= seq!['[']);
        assert("]"@ =~= seq![']']);
        assert(labels_line@ =~= "labels = "@ + ("["@ + quoted_join(c@.labels) + "]"@));
    }
    crate::cmd::push_arg_string(lines, labels_line);

    if !c.name.as_str().is_empty() {
        let mut line = String::from_str("name = ");
        let q = quote_exec(c.name.as_str());
        line.append(q.as_str());
        proof {
            assert(line@ =~= "name = "@ + quote(c@.name));
        }
        crate::cmd::push_arg_string(lines, line);
    }
    if !c.repo.as_str().is_empty() {
        let mut line = String::from_str("repo = ");
        let q = quote_exec(c.repo.as_str());
        line.append(q.as_str());
        proof {
            assert(line@ =~= "repo = "@ + quote(c@.repo));
        }
        crate::cmd::push_arg_string(lines, line);
    }
    if !c.account.as_str().is_empty() {
        let mut line = String::from_str("account = ");
        let q = quote_exec(c.account.as_str());
        line.append(q.as_str());
        proof {
            assert(line@ =~= "account = "@ + quote(c@.account));
        }
        crate::cmd::push_arg_string(lines, line);
    }
    crate::cmd::push_arg_string(lines, String::new());
    proof {
        assert(final(lines).deep_view() =~~= old(lines).deep_view() + entry_lines(c@));
    }
}

/// Reading back a rendered label array restores the labels.
proof fn lemma_parse_elems_join(ls: Seq<Seq<char>>)
    requires
        forall|i: int| 0 <= i < ls.len() ==> quotable(#[trigger] ls[i]),
    ensures
        parse_elems(quoted_join(ls)) == Some(ls),
    decreases ls.len(),
{
    reveal_strlit(", ");
    if ls.len() == 0 {
        assert(quoted_join(ls).len() == 0);
        assert(parse_elems(quoted_join(ls)) == Some(Seq::<Seq<char>>::empty()));
        assert(Seq::<Seq<char>>::empty() =~~= ls);
    } else if ls.len() == 1 {
        let x = ls[0];
        let s = quote(x);
        assert(s[0] == '"');
        assert(s.drop_first() =~= x + seq!['"']);
        lemma_find_ch_concat(x, seq!['"'], '"');
        let j = 1 + find_ch(s.drop_first(), '"');
        assert(j == 1 + x.len());
        assert(j == s.len() - 1);
        assert(s.subrange(1, j as int) =~= x);
        assert(parse_elems(s) == Some(seq![x]));
        assert(seq![x] =~~= ls);
    } else {
        let x = ls[0];
        let tail = quoted_join(ls.drop_first());
        let s = quoted_join(ls);
        assert(s == quote(x) + ", "@ + tail);
        assert(tail.len() >= 2) by {
            if ls.drop_first().len() == 1 {
                assert(tail == quote(ls.drop_first()[0]));
            } else {
                assert(tail == quote(ls.drop_first()[0]) + ", "@ + quoted_join(
                    ls.drop_first().drop_first(),
                ));
            }
        }
        assert(s[0] == '"') by {
            assert(quote(x)[0] == '"');
        }
        assert(s.drop_first() =~= x + (seq!['"'] + ", "@ + tail));
        lemma_find_ch_concat(x, seq!['"'] + ", "@ + tail, '"');
        let j = 1 + find_ch(s.drop_first(), '"');
        assert(j == 1 + x.len());
        assert(s.len() == x.len() + 4 + tail.len());
        assert(j < s.len() - 1);
        assert(s.subrange(1, j as int) =~= x);
        assert(s[j + 1 as int] == ',') by {
            assert(s[x.len() + 2 as int] == ", "@[0]);
        }
        assert(s[j + 2 as int] == ' ') by {
            assert(s[x.len() + 3 as int] == ", "@[1]);
        }
        assert(s.subrange(j + 3 as int, s.len() as int) =~= tail);
        assert forall|i: int| 0 <= i < ls.drop_first().len() implies quotable(
            #[trigger] ls.drop_first()[i],
        ) by {
            assert(ls.drop_first()[i] == ls[i + 1]);
        }
        lemma_parse_elems_join(ls.drop_first());
        assert(parse_elems(s) == Some(seq![x] + ls.drop_first()));
        assert(seq![x] + ls.drop_first() =~~= ls);
    }
}

proof fn lemma_classify_header(id: Seq<char>)
    requires
        id.len() > 0,
    ensures
        classify(seq!['['] + id + seq![']']) == LineClass::Header(id),
{
    let line = seq!['['] + id + seq![']'];
    assert(line[0] == '[');
    assert(line.len() == id.len() + 2 >= 3);
    assert(line[line.len() - 1] == ']');
    assert(line.subrange(1, line.len() - 1) =~= id);
}

proof fn lemma_classify_labels(ls: Seq<Seq<char>>)
    requires
        forall|i: int| 0 <= i < ls.len() ==> quotable(#[trigger] ls[i]),
    ensures
        classify("labels = "@ + ("["@ + quoted_join(ls) + "]"@)) == LineClass::Labels(ls),
{
    reveal_strlit("labels = ");
    reveal_strlit("[");
    reveal_strlit("]");
    let value = "["@ + quoted_join(ls) + "]"@;
    let line = "labels = "@ + value;
    assert(line[0] == 'l');
    assert(line.len() >= 9 + 2);
    assert(line.subrange(0, 9) =~= "labels = "@);
    let v = line.subrange(9, line.len() as int);
    assert(v =~= value);
    assert(v[0] == '[');
    assert(v[v.len() - 1] == ']');
    assert(v.subrange(1, v.len() - 1) =~= quoted_join(ls));
    lemma_parse_elems_join(ls);
}

proof fn lemma_parse_quoted_quote(s: Seq<char>)
    requires
        quotable(s),
    ensures
        parse_quoted(quote(s)) == Some(s),
{
    let v = quote(s);
    assert(v[0] == '"');
    assert(v[v.len() - 1] == '"');
    assert(v.subrange(1, v.len() - 1) =~= s);
}

proof fn lemma_classify_name(s: Seq<char>)
    requires
        quotable(s),
    ensures
        classify("name = "@ + quote(s)) == LineClass::Name(s),
{
    reveal_strlit("name = ");
    reveal_strlit("labels = ");
    let line = "name = "@ + quote(s);
    assert(line[0] == 'n');
    assert(line.len() == 9 + s.len());
    assert(line.subrange(0, 9) != "labels = "@) by {
        assert(line.subrange(0, 9)[0] == 'n');
        assert("labels = "@[0] == 'l');
    }
    assert(line.subrange(0, 7) =~= "name = "@);
    assert(line.subrange(7, line.len() as int) =~= quote(s));
    lemma_parse_quoted_quote(s);
}

proof fn lemma_classify_repo(s: Seq<char>)
    requires
        quotable(s),
    ensures
        classify("repo = "@ + quote(s)) == LineClass::Repo(s),
{
    reveal_strlit("repo = ");
    reveal_strlit("name = ");
    reveal_strlit("labels = ");
    let line = "repo = "@ + quote(s);
    assert(line[0] == 'r');
    assert(line.len() == 9 + s.len());
    assert(line.subrange(0, 9) != "labels = "@) by {
        assert(line.subrange(0, 9)[0] == 'r');
        assert("labels = "@[0] == 'l');
    }
    assert(line.subrange(0, 7) != "name = "@) by {
        assert(line.subrange(0, 7)[0] == 'r');
        assert("name = "@[0] == 'n');
    }
    assert(line.subrange(0, 7) =~= "repo = "@);
    assert(line.subrange(7, line.len() as int) =~= quote(s));
    lemma_parse_quoted_quote(s);
}

proof fn lemma_classify_account(s: Seq<char>)
    requires
        quotable(s),
    ensures
        classify("account = "@ + quote(s)) == LineClass::Account(s),
{
    reveal_strlit("account = ");
    reveal_strlit("repo = ");
    reveal_strlit("name = ");
    reveal_strlit("labels = ");
    let line = "account = "@ + quote(s);
    assert(line[0] == 'a');
    assert(line.len() == 12 + s.len());
    assert(line.subrange(0, 9) != "labels = "@) by {
        assert(line.subrange(0, 9)[0] == 'a');
        assert("labels = "@[0] == 'l');
    }
    assert(line.subrange(0, 7) != "name = "@) by {
        assert(line.subrange(0, 7)[0] == 'a');
        assert("name = "@[0] == 'n');
    }
    assert(line.subrange(0, 7) != "repo = "@) by {
        assert(line.subrange(0, 7)[0] == 'a');
        assert("repo = "@[0] == 'r');
    }
    assert(line.subrange(0, 10) =~= "account = "@);
    assert(line.subrange(10, line.len() as int) =~= quote(s));
    lemma_parse_quoted_quote(s);
}

/// Reading the lines of one rendered entry, from any state whose pending
/// section closes cleanly and does not collide with the entry's id,
/// leaves the entry as the open section and the closed sections behind
/// it.
#[verifier::rlimit(100)]
#[verifier::spinoff_prover]
proof fn lemma_parse_entry(
    l: LinkView,
    rest: Seq<Seq<char>>,
    cur: Option<Partial>,
    acc: Seq<LinkView>,
)
    requires
        l.wf(),
        finish(cur, acc) is Some,
        !contains_id(finish(cur, acc).unwrap(), l.id),
    ensures
        parse_lines(entry_lines(l) + rest, cur, acc) == parse_lines(
            rest,
            Some(full_partial(l)),
            finish(cur, acc).unwrap(),
        ),
{
    let acc2 = finish(cur, acc).unwrap();
    let h = seq!['['] + l.id + seq![']'];
    let lab = "labels = "@ + ("["@ + quoted_join(l.labels) + "]"@);
    let nn: Seq<Seq<char>> = if l.name.len() > 0 {
        seq!["name = "@ + quote(l.name)]
    } else {
        Seq::empty()
    };
    let rr: Seq<Seq<char>> = if l.repo.len() > 0 {
        seq!["repo = "@ + quote(l.repo)]
    } else {
        Seq::empty()
    };
    let aa: Seq<Seq<char>> = if l.account.len() > 0 {
        seq!["account = "@ + quote(l.account)]
    } else {
        Seq::empty()
    };
    let t5 = seq![Seq::<char>::empty()] + rest;
    let t4 = aa + t5;
    let t3 = rr + t4;
    let t2 = nn + t3;
    let t1 = seq![lab] + t2;
    let t0 = seq![h] + t1;
    assert(entry_lines(l) + rest =~~= t0);

    let p0 = partial_new(l.id);
    lemma_classify_header(l.id);
    assert(t0[0] == h);
    assert(t0.drop_first() =~~= t1);
    assert(parse_lines(t0, cur, acc) == parse_lines(t1, Some(p0), acc2));

    let p1 = Partial { labels: Some(l.labels), ..p0 };
    lemma_classify_labels(l.labels);
    assert(t1[0] == lab);
    assert(t1.drop_first() =~~= t2);
    assert(parse_lines(t1, Some(p0), acc2) == parse_lines(t2, Some(p1), acc2));

    let p2 = Partial { name: l.name, ..p1 };
    if l.name.len() > 0 {
        lemma_classify_name(l.name);
        assert(t2[0] == "name = "@ + quote(l.name));
        assert(t2.drop_first() =~~= t3);
        assert(parse_lines(t2, Some(p1), acc2) == parse_lines(t3, Some(p2), acc2));
    } else {
        assert(p2 =~= p1);
        assert(t2 =~~= t3);
    }

    let p3 = Partial { repo: l.repo, ..p2 };
    if l.repo.len() > 0 {
        lemma_classify_repo(l.repo);
        assert(t3[0] == "repo = "@ + quote(l.repo));
        assert(t3.drop_first() =~~= t4);
        assert(parse_lines(t3, Some(p2), acc2) == parse_lines(t4, Some(p3), acc2));
    } else {
        assert(p3 =~= p2);
        assert(t3 =~~= t4);
    }

    let p4 = Partial { account: l.account, ..p3 };
    if l.account.len() > 0 {
        lemma_classify_account(l.account);
        assert(t4[0] == "account = "@ + quote(l.account));
        assert(t4.drop_first() =~~= t5);
        assert(parse_lines(t4, Some(p3), acc2) == parse_lines(t5, Some(p4), acc2));
    } else {
        assert(p4 =~= p3);
        assert(t4 =~~= t5);
    }

    assert(classify(Seq::<char>::empty()) == LineClass::Blank);
    assert(t5[0] =~= Seq::<char>::empty());
    assert(classify(t5[0]) == LineClass::Blank);
    assert(t5.drop_first() =~~= rest);
    assert(parse_lines(t5, Some(p4), acc2) == parse_lines(rest, Some(p4), acc2));

    assert(p4 =~= full_partial(l));
}

/// No two entries share an id.
pub open spec fn all_ids_unique(s: Seq<LinkView>) -> bool {
    forall|j: int, k: int| 0 <= j < k < s.len() ==> (#[trigger] s[j]).id != (#[trigger] s[k]).id
}

/// Reading the rendered lines of well-formed entries, from any state
/// whose pending section closes cleanly, yields the closed sections
/// followed by those entries.
proof fn lemma_parse_save(regs: Seq<LinkView>, cur: Option<Partial>, acc: Seq<LinkView>)
    requires
        forall|i: int| 0 <= i < regs.len() ==> (#[trigger] regs[i]).wf(),
        finish(cur, acc) is Some,
        all_ids_unique(finish(cur, acc).unwrap() + regs),
    ensures
        parse_lines(save_lines(regs), cur, acc) == Some(finish(cur, acc).unwrap() + regs),
    decreases regs.len(),
{
    let acc2 = finish(cur, acc).unwrap();
    if regs.len() == 0 {
        assert(parse_lines(save_lines(regs), cur, acc) == finish(cur, acc));
        assert(acc2 + regs =~= acc2);
    } else {
        let l = regs[0];
        let combined = acc2 + regs;
        assert(!contains_id(acc2, l.id)) by {
            if contains_id(acc2, l.id) {
                let k = choose|k: int| 0 <= k < acc2.len() && (#[trigger] acc2[k]).id == l.id;
                assert(combined[k].id == l.id);
                assert(combined[acc2.len() as int].id == l.id);
            }
        }
        lemma_parse_entry(l, save_lines(regs.drop_first()), cur, acc);
        assert(save_lines(regs) == entry_lines(l) + save_lines(regs.drop_first()));
        let cur2 = Some(full_partial(l));
        assert(finalize(full_partial(l)) == Some(l)) by {
            assert(finalize(full_partial(l)).unwrap() =~= l);
        }
        assert(finish(cur2, acc2) == Some(acc2.push(l)));
        assert(all_ids_unique(acc2.push(l) + regs.drop_first())) by {
            assert(acc2.push(l) + regs.drop_first() =~= combined);
        }
        assert forall|i: int| 0 <= i < regs.drop_first().len() implies (
        #[trigger] regs.drop_first()[i]).wf() by {
            assert(regs.drop_first()[i] == regs[i + 1]);
        }
        lemma_parse_save(regs.drop_first(), cur2, acc2);
        assert(acc2.push(l) + regs.drop_first() =~= acc2 + regs);
    }
}

proof fn lemma_quoted_join_nl(ls: Seq<Seq<char>>)
    requires
        forall|i: int| 0 <= i < ls.len() ==> quotable(#[trigger] ls[i]),
    ensures
        !quoted_join(ls).contains('\n'),
    decreases ls.len(),
{
    reveal_strlit(", ");
    if ls.len() == 0 {
        assert(!quoted_join(ls).contains('\n'));
    } else {
        assert(!quote(ls[0]).contains('\n')) by {
            lemma_concat_contains(seq!['"'] + ls[0], seq!['"'], '\n');
            lemma_concat_contains(seq!['"'], ls[0], '\n');
            assert(!seq!['"'].contains('\n')) by {
                if seq!['"'].contains('\n') {
                    let k = choose|k: int| 0 <= k < 1 && seq!['"'][k] == '\n';
                }
            }
        }
        if ls.len() == 1 {
        } else {
            assert forall|i: int| 0 <= i < ls.drop_first().len() implies quotable(
                #[trigger] ls.drop_first()[i],
            ) by {
                assert(ls.drop_first()[i] == ls[i + 1]);
            }
            lemma_quoted_join_nl(ls.drop_first());
            assert(!", "@.contains('\n')) by {
                if ", "@.contains('\n') {
                    let k = choose|k: int| 0 <= k < ", "@.len() && ", "@[k] == '\n';
                }
            }
            lemma_concat_contains(quote(ls[0]) + ", "@, quoted_join(ls.drop_first()), '\n');
            lemma_concat_contains(quote(ls[0]), ", "@, '\n');
        }
    }
}

proof fn lemma_quote_nl(s: Seq<char>)
    requires
        !s.contains('\n'),
    ensures
        !quote(s).contains('\n'),
{
    lemma_concat_contains(seq!['"'] + s, seq!['"'], '\n');
    lemma_concat_contains(seq!['"'], s, '\n');
    assert(!seq!['"'].contains('\n')) by {
        if seq!['"'].contains('\n') {
            let k = choose|k: int| 0 <= k < 1 && seq!['"'][k] == '\n';
        }
    }
}

proof fn lemma_strlit_nl()
    ensures
        !"labels = "@.contains('\n'),
        !"name = "@.contains('\n'),
        !"repo = "@.contains('\n'),
        !"account = "@.contains('\n'),
        !"["@.contains('\n'),
        !"]"@.contains('\n'),
{
    reveal_strlit("labels = ");
    reveal_strlit("name = ");
    reveal_strlit("repo = ");
    reveal_strlit("account = ");
    reveal_strlit("[");
    reveal_strlit("]");
    if "labels = "@.contains('\n') {
        let k = choose|k: int| 0 <= k < "labels = "@.len() && "labels = "@[k] == '\n';
    }
    if "name = "@.contains('\n') {
        let k = choose|k: int| 0 <= k < "name = "@.len() && "name = "@[k] == '\n';
    }
    if "repo = "@.contains('\n') {
        let k = choose|k: int| 0 <= k < "repo = "@.len() && "repo = "@[k] == '\n';
    }
    if "account = "@.contains('\n') {
        let k = choose|k: int| 0 <= k < "account = "@.len() && "account = "@[k] == '\n';
    }
    if "["@.contains('\n') {
        let k = choose|k: int| 0 <= k < "["@.len() && "["@[k] == '\n';
    }
    if "]"@.contains('\n') {
        let k = choose|k: int| 0 <= k < "]"@.len() && "]"@[k] == '\n';
    }
}

proof fn lemma_entry_lines_nl(l: LinkView)
    requires
        l.wf(),
    ensures
        forall|i: int| 0 <= i < entry_lines(l).len() ==> !(#[trigger] entry_lines(l)[i]).contains(
            '\n',
        ),
{
    lemma_strlit_nl();
    let e = entry_lines(l);
    assert(!e[0].contains('\n')) by {
        lemma_concat_contains(seq!['['] + l.id, seq![']'], '\n');
        lemma_concat_contains(seq!['['], l.id, '\n');
        assert(!seq!['['].contains('\n')) by {
            if seq!['['].contains('\n') {
                let k = choose|k: int| 0 <= k < 1 && seq!['['][k] == '\n';
            }
        }
        assert(!seq![']'].contains('\n')) by {
            if seq![']'].contains('\n') {
                let k = choose|k: int| 0 <= k < 1 && seq![']'][k] == '\n';
            }
        }
    }
    assert(!e[1].contains('\n')) by {
        lemma_quoted_join_nl(l.labels);
        lemma_concat_contains("["@ + quoted_join(l.labels), "]"@, '\n');
        lemma_concat_contains("["@, quoted_join(l.labels), '\n');
        lemma_concat_contains("labels = "@, "["@ + quoted_join(l.labels) + "]"@, '\n');
    }
    assert forall|i: int| 0 <= i < e.len() implies !(#[trigger] e[i]).contains('\n') by {
        if i >= 2 && i < e.len() - 1 {
            if l.name.len() > 0 && e[i] == "name = "@ + quote(l.name) {
                lemma_quote_nl(l.name);
                lemma_concat_contains("name = "@, quote(l.name), '\n');
            }
            if l.repo.len() > 0 && e[i] == "repo = "@ + quote(l.repo) {
                lemma_quote_nl(l.repo);
                lemma_concat_contains("repo = "@, quote(l.repo), '\n');
            }
            if l.account.len() > 0 && e[i] == "account = "@ + quote(l.account) {
                lemma_quote_nl(l.account);
                lemma_concat_contains("account = "@, quote(l.account), '\n');
            }
            assert(e[i] == "name = "@ + quote(l.name) || e[i] == "repo = "@ + quote(l.repo) || e[i]
                == "account = "@ + quote(l.account));
        }
        if i == e.len() - 1 {
            assert(e[i] =~= Seq::<char>::empty());
        }
    }
}

proof fn lemma_save_lines_nl(regs: Seq<LinkView>)
    requires
        forall|i: int| 0 <= i < regs.len() ==> (#[trigger] regs[i]).wf(),
    ensures
        crate::textutil::newline_free_all(save_lines(regs)),
    decreases regs.len(),
{
    if regs.len() > 0 {
        lemma_entry_lines_nl(regs[0]);
        assert forall|i: int| 0 <= i < regs.drop_first().len() implies (
        #[trigger] regs.drop_first()[i]).wf() by {
            assert(regs.drop_first()[i] == regs[i + 1]);
        }
        lemma_save_lines_nl(regs.drop_first());
        let e = entry_lines(regs[0]);
        let r = save_lines(regs.drop_first());
        assert forall|i: int| 0 <= i < save_lines(regs).len() implies !(
        #[trigger] save_lines(regs)[i]).contains('\n') by {
            if i < e.len() {
                assert(save_lines(regs)[i] == e[i]);
            } else {
                assert(save_lines(regs)[i] == r[i - e.len()]);
            }
        }
    }
}

/// The round-trip law of the registry store: loading what `save` wrote
/// restores every well-formed registry, entry for entry, modulo the
/// re-derivation of remote references that were empty; with no empty
/// remote reference (or no owner identity) the registry comes back
/// exactly.  The entries are taken in ascending id order, which is the
/// order every registry value holds them in (`Registry::wf`).
pub proof fn lemma_load_save_roundtrip(regs: Seq<LinkView>, owner: Seq<char>)
    requires
        forall|i: int| 0 <= i < regs.len() ==> (#[trigger] regs[i]).wf(),
        all_ids_unique(regs),
        id_sorted(regs),
    ensures
        load_spec(save_spec(regs), owner) == Some(derive_links(regs, owner)),
        (forall|i: int| 0 <= i < regs.len() ==> (#[trigger] regs[i]).repo.len() > 0) || owner.len()
            == 0 ==> load_spec(save_spec(regs), owner) == Some(regs),
{
    lemma_derive_ids(regs, owner);
    assert(id_sorted(derive_links(regs, owner))) by {
        assert forall|j: int, k: int| 0 <= j < k < derive_links(regs, owner).len() implies
            crate::textutil::str_lt(
            (#[trigger] derive_links(regs, owner)[j]).id,
            (#[trigger] derive_links(regs, owner)[k]).id,
        ) by {
            assert(derive_links(regs, owner)[j].id == regs[j].id);
            assert(derive_links(regs, owner)[k].id == regs[k].id);
        }
    }
    lemma_sorted_insertions_id(derive_links(regs, owner));
    if regs.len() == 0 {
        assert(save_lines(regs) == Seq::<Seq<char>>::empty());
        assert(save_spec(regs) == Seq::<char>::empty());
        assert(split_lines(save_spec(regs)) =~~= seq![Seq::<char>::empty()]);
        assert(classify(Seq::<char>::empty()) == LineClass::Blank);
        let lines = seq![Seq::<char>::empty()];
        assert(lines[0] =~= Seq::<char>::empty());
        assert(lines.drop_first() =~~= Seq::<Seq<char>>::empty());
        assert(parse_lines(Seq::<Seq<char>>::empty(), None, Seq::<LinkView>::empty()) == finish(
            None,
            Seq::<LinkView>::empty(),
        ));
        assert(parse_lines(lines, None, Seq::<LinkView>::empty()) == parse_lines(
            lines.drop_first(),
            None,
            Seq::<LinkView>::empty(),
        ));
        assert(parse_lines(lines, None, Seq::<LinkView>::empty()) == Some(
            Seq::<LinkView>::empty(),
        ));
        assert(derive_links(Seq::<LinkView>::empty(), owner) =~~= Seq::<LinkView>::empty());
        assert(derive_links(regs, owner) =~~= Seq::<LinkView>::empty());
    } else {
        lemma_save_lines_nl(regs);
        assert(save_lines(regs).len() >= 1) by {
            assert(save_lines(regs) == entry_lines(regs[0]) + save_lines(regs.drop_first()));
        }
        crate::textutil::lemma_split_join(save_lines(regs));
        assert(split_lines(save_spec(regs)) == save_lines(regs));
        assert(finish(None, Seq::<LinkView>::empty()) == Some(Seq::<LinkView>::empty()));
        assert(all_ids_unique(Seq::<LinkView>::empty() + regs)) by {
            assert(Seq::<LinkView>::empty() + regs =~= regs);
        }
        lemma_parse_save(regs, None, Seq::<LinkView>::empty());
        assert(Seq::<LinkView>::empty() + regs =~= regs);
        assert(parse_lines(split_lines(save_spec(regs)), None, Seq::<LinkView>::empty()) == Some(
            regs,
        ));
    }
    if (forall|i: int| 0 <= i < regs.len() ==> (#[trigger] regs[i]).repo.len() > 0) || owner.len()
        == 0 {
        assert(derive_links(regs, owner) =~~= regs);
    }
}

pub(crate) fn parse_quoted_exec(v: &str) -> (r: Option<String>)
    ensures
        r is Some <==> parse_quoted(v@) is Some,
        r matches Some(s) ==> parse_quoted(v@) == Some(s@),
{
    let n = v.unicode_len();
    if n < 2 {
        return None;
    }
    if v.get_char(0) != '"' || v.get_char(n - 1) != '"' {
        return None;
    }
    let inner = v.substring_char(1, n - 1);
    if crate::textutil::contains_char(inner, '"') {
        return None;
    }
    Some(String::from_str(inner))
}

pub(crate) fn parse_elems_exec(s: &str) -> (r: Option<Vec<String>>)
    ensures
        r is Some <==> parse_elems(s@) is Some,
        r matches Some(v) ==> parse_elems(s@) == Some(v.deep_view()),
    decreases s@.len(),
{
    let n = s.unicode_len();
    if n == 0 {
        let v: Vec<String> = Vec::new();
        proof {
            assert(v.deep_view() =~~= Seq::<Seq<char>>::empty());
        }
        return Some(v);
    }
    if s.get_char(0) != '"' {
        return None;
    }
    let mut i: usize = 1;
    while i < n
        invariant
            n == s@.len(),
            1 <= i <= n,
            forall|j: int| 1 <= j < i ==> s@[j] != '"',
        ensures
            n == s@.len(),
            1 <= i <= n,
            forall|j: int| 1 <= j < i ==> s@[j] != '"',
            i < n ==> s@[i as int] == '"',
        decreases n - i,
    {
        if s.get_char(i) == '"' {
            break;
        }
        i += 1;
    }
    proof {
        lemma_find_ch(s@.drop_first(), '"');
        let f = find_ch(s@.drop_first(), '"');
        assert(i - 1 == f) by {
            if f < i - 1 {
                assert(s@.drop_first()[f as int] == '"');
                assert(s@[f + 1 as int] == '"');
            }
            if f > i - 1 {
                if i < n {
                    assert(s@.drop_first()[i - 1] == '"');
                }
                if i == n {
                    assert(f <= s@.drop_first().len());
                    assert(f <= n - 1);
                }
            }
        }
    }
    if i >= n {
        return None;
    }
    let elem = String::from_str(s.substring_char(1, i));
    if i == n - 1 {
        let mut v: Vec<String> = Vec::new();
        crate::cmd::push_arg_string(&mut v, elem);
        proof {
            assert(v.deep_view() =~~= seq![s@.subrange(1, i as int)]);
        }
        return Some(v);
    }
    if i + 2 < n && s.get_char(i + 1) == ',' && s.get_char(i + 2) == ' ' {
        let rest = s.substring_char(i + 3, n);
        match parse_elems_exec(rest) {
            Some(mut v) => {
                let ghost prior = v.deep_view();
                proof {
                    assert(v.deep_view().len() == v@.len());
                }
                v.insert(0, elem);
                proof {
                    assert(v.deep_view() =~~= seq![s@.subrange(1, i as int)] + prior);
                }
                Some(v)
            },
            None => None,
        }
    } else {
        None
    }
}

/// What one line of the backing text means, as read.
pub enum LineKind {
    Blank,
    Header(String),
    Labels(Vec<String>),
    Name(String),
    Repo(String),
    Account(String),
    SkipLine,
    Bad,
}

pub open spec fn kind_view(k: &LineKind) -> LineClass {
    match k {
        LineKind::Blank => LineClass::Blank,
        LineKind::Header(s) => LineClass::Header(s@),
        LineKind::Labels(v) => LineClass::Labels(v.deep_view()),
        LineKind::Name(s) => LineClass::Name(s@),
        LineKind::Repo(s) => LineClass::Repo(s@),
        LineKind::Account(s) => LineClass::Account(s@),
        LineKind::SkipLine => LineClass::SkipLine,
        LineKind::Bad => LineClass::Bad,
    }
}

/// Reads one line of the backing text.
pub fn classify_exec(line: &str) -> (r: LineKind)
    ensures
        kind_view(&r) == classify(line@),
{
    proof {
        reveal_strlit("labels = ");
        reveal_strlit("name = ");
        reveal_strlit("repo = ");
        reveal_strlit("account = ");
        reveal_strlit(" = ");
    }
    let n = line.unicode_len();
    if crate::textutil::is_blank(line) {
        return LineKind::Blank;
    }
    if line.get_char(0) == '[' {
        if n >= 3 && line.get_char(n - 1) == ']' {
            return LineKind::Header(String::from_str(line.substring_char(1, n - 1)));
        }
        return LineKind::Bad;
    }
    if crate::textutil::starts_with(line, "labels = ") {
        let v = line.substring_char(9, n);
        let vn = v.unicode_len();
        if vn >= 2 && v.get_char(0) == '[' && v.get_char(vn - 1) == ']' {
            let inner = v.substring_char(1, vn - 1);
            return match parse_elems_exec(inner) {
                Some(ls) => LineKind::Labels(ls),
                None => LineKind::Bad,
            };
        }
        return LineKind::Bad;
    }
    if crate::textutil::starts_with(line, "name = ") {
        let v = line.substring_char(7, n);
        return match parse_quoted_exec(v) {
            Some(s) => LineKind::Name(s),
            None => LineKind::Bad,
        };
    }
    if crate::textutil::starts_with(line, "repo = ") {
        let v = line.substring_char(7, n);
        return match parse_quoted_exec(v) {
            Some(s) => LineKind::Repo(s),
            None => LineKind::Bad,
        };
    }
    if crate::textutil::starts_with(line, "account = ") {
        let v = line.substring_char(10, n);
        return match parse_quoted_exec(v) {
            Some(s) => LineKind::Account(s),
            None => LineKind::Bad,
        };
    }
    if crate::textutil::contains_sub(line, " = ") {
        return LineKind::SkipLine;
    }
    LineKind::Bad
}

/// Derivation changes no id and no length.
pub proof fn lemma_derive_ids(regs: Seq<LinkView>, owner: Seq<char>)
    ensures
        derive_links(regs, owner).len() == regs.len(),
        forall|i: int|
            0 <= i < regs.len() ==> (#[trigger] derive_links(regs, owner)[i]).id == regs[i].id,
{
}

/// Derivation keeps exactly the same ids registered.
pub proof fn lemma_derive_contains(regs: Seq<LinkView>, owner: Seq<char>, id: Seq<char>)
    ensures
        contains_id(derive_links(regs, owner), id) <==> contains_id(regs, id),
{
    lemma_derive_ids(regs, owner);
    if contains_id(derive_links(regs, owner), id) {
        let k = choose|k: int|
            0 <= k < derive_links(regs, owner).len() && (#[trigger] derive_links(regs, owner)[k]).id
                == id;
        assert(regs[k].id == id);
    }
    if contains_id(regs, id) {
        let k = choose|k: int| 0 <= k < regs.len() && (#[trigger] regs[k]).id == id;
        assert(derive_links(regs, owner)[k].id == id);
    }
}

/// Derivation distributes over appending an entry.
pub proof fn lemma_derive_push(regs: Seq<LinkView>, l: LinkView, owner: Seq<char>)
    ensures
        derive_links(regs.push(l), owner) == derive_links(regs, owner).push(derive_link(l, owner)),
{
    assert(derive_links(regs.push(l), owner) =~~= derive_links(regs, owner).push(
        derive_link(l, owner),
    ));
}

/// A link section being read back, with the fields seen so far.
pub struct PartialExec {
    pub id: String,
    pub labels: Option<Vec<String>>,
    pub name: String,
    pub repo: String,
    pub account: String,
}

pub open spec fn partial_view(p: &PartialExec) -> Partial {
    Partial {
        id: p.id@,
        labels: match &p.labels {
            Some(v) => Some(v.deep_view()),
            None => None,
        },
        name: p.name@,
        repo: p.repo@,
        account: p.account@,
    }
}

pub open spec fn cur_view(cur: &Option<PartialExec>) -> Option<Partial> {
    match cur {
        None => None,
        Some(p) => Some(partial_view(p)),
    }
}

/// Reads the registry backing text.  A malformed text fails with a parse
/// error; otherwise every section becomes an entry, in file order, with
/// an empty remote reference re-derived from the owner identity.
pub fn load_collaborators(text: &str, owner_gh: &str) -> (r: Result<Registry, CollabError>)
    ensures
        r matches Ok(reg) ==> (load_spec(text@, owner_gh@) == Some(reg@) && reg.wf()),
        r is Err ==> (load_spec(text@, owner_gh@) is None && r == Result::<
            Registry,
            CollabError,
        >::Err(CollabError::Parse)),
{
    let lines = crate::textutil::split_lines_exec(text);
    let ghost ldv = lines.deep_view();
    let ghost target = parse_lines(ldv, None, Seq::<LinkView>::empty());
    let mut reg = Registry::new();
    let mut cur: Option<PartialExec> = None;
    let ghost mut acc: Seq<LinkView> = Seq::empty();
    let n = lines.len();
    let mut k: usize = 0;
    proof {
        assert(ldv.subrange(0, n as int) =~= ldv);
        assert(derive_links(acc, owner_gh@) =~~= Seq::<LinkView>::empty());
        assert(sorted_insertions(derive_links(acc, owner_gh@)) == Seq::<LinkView>::empty());
    }
    while k < n
        invariant
            n == lines@.len(),
            ldv == lines.deep_view(),
            ldv.len() == n,
            ldv == split_lines(text@),
            target == parse_lines(ldv, None, Seq::<LinkView>::empty()),
            0 <= k <= n,
            reg.wf(),
            reg@ == sorted_insertions(derive_links(acc, owner_gh@)),
            (cur matches Some(p) ==> !contains_id(acc, partial_view(&p).id)),
            parse_lines(ldv.subrange(k as int, n as int), cur_view(&cur), acc) == target,
        decreases n - k,
    {
        let line: &String = &lines[k];
        proof {
            assert(ldv[k as int] == lines@[k as int]@);
            assert(ldv.subrange(k as int, n as int)[0] == ldv[k as int]);
            assert(ldv.subrange(k as int, n as int).drop_first() =~= ldv.subrange(
                k + 1 as int,
                n as int,
            ));
        }
        let kind = classify_exec(line.as_str());
        match kind {
            LineKind::Blank => {},
            LineKind::SkipLine => {},
            LineKind::Bad => {
                return Err(CollabError::Parse);
            },
            LineKind::Header(id) => {
                let ghost pre_cur = cur_view(&cur);
                match cur {
                    Some(p) => {
                        let ghost pv = partial_view(&p);
                        match p.labels {
                            None => {
                                return Err(CollabError::Parse);
                            },
                            Some(ls) => {
                                let derived_repo = if p.repo.as_str().is_empty()
                                    && !owner_gh.is_empty() {
                                    crate::link::auto_repo(owner_gh, p.id.as_str())
                                } else {
                                    p.repo
                                };
                                let c = Collaborator {
                                    labels: ls,
                                    repo: derived_repo,
                                    github_user: p.id,
                                    name: p.name,
                                    account: p.account,
                                };
                                proof {
                                    let l = finalize(pv).unwrap();
                                    assert(c@ == derive_link(l, owner_gh@));
                                    lemma_derive_contains(acc, owner_gh@, l.id);
                                    lemma_sorted_insertions_contains(
                                        derive_links(acc, owner_gh@),
                                        l.id,
                                    );
                                    lemma_derive_push(acc, l, owner_gh@);
                                }
                                reg.insert(c);
                                proof {
                                    let l = finalize(pv).unwrap();
                                    let dl = derive_link(l, owner_gh@);
                                    let p = derive_links(acc, owner_gh@).push(dl);
                                    assert(p.drop_last() =~= derive_links(acc, owner_gh@));
                                    assert(p.last() == dl);
                                    assert(sorted_insertions(p) == insert_sorted(
                                        sorted_insertions(derive_links(acc, owner_gh@)),
                                        dl,
                                    ));
                                    acc = acc.push(l);
                                }
                            },
                        }
                    },
                    None => {},
                }
                proof {
                    lemma_derive_contains(acc, owner_gh@, id@);
                    lemma_sorted_insertions_contains(derive_links(acc, owner_gh@), id@);
                }
                if reg.contains(id.as_str()) {
                    return Err(CollabError::Parse);
                }
                cur = Some(
                    PartialExec {
                        id,
                        labels: None,
                        name: String::new(),
                        repo: String::new(),
                        account: String::new(),
                    },
                );
            },
            LineKind::Labels(ls) => {
                cur = match cur {
                    None => {
                        return Err(CollabError::Parse);
                    },
                    Some(mut p) => {
                        p.labels = Some(ls);
                        Some(p)
                    },
                };
            },
            LineKind::Name(s) => {
                cur = match cur {
                    None => {
                        return Err(CollabError::Parse);
                    },
                    Some(mut p) => {
                        p.name = s;
                        Some(p)
                    },
                };
            },
            LineKind::Repo(s) => {
                cur = match cur {
                    None => {
                        return Err(CollabError::Parse);
                    },
                    Some(mut p) => {
                        p.repo = s;
                        Some(p)
                    },
                };
            },
            LineKind::Account(s) => {
                cur = match cur {
                    None => {
                        return Err(CollabError::Parse);
                    },
                    Some(mut p) => {
                        p.account = s;
                        Some(p)
                    },
                };
            },
        }
        k += 1;
    }
    proof {
        assert(ldv.subrange(n as int, n as int) =~= Seq::<Seq<char>>::empty());
    }
    match cur {
        None => {
            proof {
                assert(target == Some(acc));
            }
            Ok(reg)
        },
        Some(p) => {
            let ghost pv = partial_view(&p);
            match p.labels {
                None => Err(CollabError::Parse),
                Some(ls) => {
                    let derived_repo = if p.repo.as_str().is_empty() && !owner_gh.is_empty() {
                        crate::link::auto_repo(owner_gh, p.id.as_str())
                    } else {
                        p.repo
                    };
                    let c = Collaborator {
                        labels: ls,
                        repo: derived_repo,
                        github_user: p.id,
                        name: p.name,
                        account: p.account,
                    };
                    proof {
                        let l = finalize(pv).unwrap();
                        assert(c@ == derive_link(l, owner_gh@));
                        lemma_derive_contains(acc, owner_gh@, l.id);
                        lemma_sorted_insertions_contains(derive_links(acc, owner_gh@), l.id);
                        lemma_derive_push(acc, l, owner_gh@);
                    }
                    reg.insert(c);
                    proof {
                        let l = finalize(pv).unwrap();
                        let dl = derive_link(l, owner_gh@);
                        let p = derive_links(acc, owner_gh@).push(dl);
                        assert(p.drop_last() =~= derive_links(acc, owner_gh@));
                        assert(p.last() == dl);
                        assert(sorted_insertions(p) == insert_sorted(
                            sorted_insertions(derive_links(acc, owner_gh@)),
                            dl,
                        ));
                        acc = acc.push(l);
                        assert(target == Some(acc));
                    }
                    Ok(reg)
                },
            }
        },
    }
}

/// Renders the registry to its backing text, section after section in
/// registry order.
pub fn save_collaborators(reg: &Registry) -> (r: String)
    ensures
        r@ == save_spec(reg@),
{
    let mut lines: Vec<String> = Vec::new();
    let n = reg.len();
    let mut i: usize = 0;
    proof {
        assert(reg@.subrange(0, 0) =~~= Seq::<LinkView>::empty());
        assert(lines.deep_view() =~~= save_lines(reg@.subrange(0, 0)));
    }
    while i < n
        invariant
            n == reg@.len(),
            0 <= i <= n,
            lines.deep_view() == save_lines(reg@.subrange(0, i as int)),
        decreases n - i,
    {
        let c = reg.at(i);
        entry_lines_exec(c, &mut lines);
        proof {
            assert(reg@.subrange(0, i + 1 as int) =~~= reg@.subrange(0, i as int).push(
                reg@[i as int],
            ));
            lemma_save_lines_push(reg@.subrange(0, i as int), reg@[i as int]);
        }
        i += 1;
    }
    proof {
        assert(reg@.subrange(0, n as int) =~= reg@);
    }
    crate::textutil::join_lines_exec(&lines)
}

} // verus!
