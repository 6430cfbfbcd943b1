//! Reading conversation threads and validating draft files: which
//! directories a search covers, who wrote the last message of a thread,
//! when it was last updated, how it is labelled, and whether a draft
//! carries the metadata the send path needs.

use vstd::prelude::*;
use crate::codec::find_ch;
use crate::textutil::{
    all_wsp, find_seq, find_sub, is_blank, lower, nonwsp_prefix_len, skip_wsp, split_lines,
    split_lines_exec, starts_with, str_eq, to_lower, token_len, trim, trim_spec, wsp_prefix_len,
};

verus! {

/// Where an unanswered-thread search looks: everywhere, only the root
/// conversations, or one named mailbox.
pub enum Scope {
    All,
    RootOnly,
    Mailbox(String),
}

impl Scope {
    /// No argument means everywhere; `.` means the root only; any other
    /// name is a mailbox.
    pub fn from_arg(arg: Option<&str>) -> (r: Scope)
        ensures
            arg is None ==> r is All,
            arg matches Some(s) ==> (if s@ == "."@ {
                r is RootOnly
            } else {
                r matches Scope::Mailbox(n) && n@ == s@
            }),
    {
        match arg {
            None => Scope::All,
            Some(s) => {
                if str_eq(s, ".") {
                    Scope::RootOnly
                } else {
                    Scope::Mailbox(String::from_str(s))
                }
            },
        }
    }
}

/// The sender a thread line names: a line `## <sender> \u{2014} ...`
/// yields the text between the marker and the first ` \u{2014}` after at
/// least one character, trimmed.
pub open spec fn sender_of_line(line: Seq<char>) -> Option<Seq<char>> {
    if line.len() >= 4 && line.subrange(0, 3) == "## "@ {
        let t = line.subrange(3, line.len() as int);
        let i = 1 + find_seq(t.drop_first(), " \u{2014}"@);
        if i + 2 <= t.len() {
            Some(trim_spec(t.subrange(0, i as int)))
        } else {
            None
        }
    } else {
        None
    }
}

/// The sender of the last message of a thread: the last line that names
/// one, or nothing.
pub open spec fn last_sender_spec(lines: Seq<Seq<char>>) -> Seq<char>
    decreases lines.len(),
{
    if lines.len() == 0 {
        Seq::empty()
    } else {
        match sender_of_line(lines.last()) {
            Some(s) => s,
            None => last_sender_spec(lines.drop_last()),
        }
    }
}

fn sender_line_exec(line: &str) -> (r: Option<String>)
    ensures
        r is Some <==> sender_of_line(line@) is Some,
        r matches Some(s) ==> sender_of_line(line@) == Some(s@),
{
    proof {
        reveal_strlit("## ");
        reveal_strlit(" \u{2014}");
    }
    let n = line.unicode_len();
    if !(n >= 4 && starts_with(line, "## ")) {
        return None;
    }
    let t = line.substring_char(3, n);
    let tn = t.unicode_len();
    let td = t.substring_char(1, tn);
    let f = find_sub(td, " \u{2014}");
    let i = 1 + f;
    proof {
        assert(td@ =~= t@.drop_first());
    }
    if tn >= 2 && i <= tn - 2 {
        let cap = t.substring_char(0, i);
        proof {
            assert(1 + find_seq(t@.drop_first(), " \u{2014}"@) + 2 <= t@.len());
        }
        Some(String::from_str(trim(cap)))
    } else {
        proof {
            assert(sender_of_line(line@) is None);
        }
        None
    }
}

/// The sender of a thread's last message, scanning the text line by line.
pub fn last_sender(text: &str) -> (r: String)
    ensures
        r@ == last_sender_spec(split_lines(text@)),
{
    let lines = split_lines_exec(text);
    let ghost ldv = lines.deep_view();
    let mut k = lines.len();
    proof {
        assert(ldv.subrange(0, k as int) =~= ldv);
    }
    while k > 0
        invariant
            ldv == lines.deep_view(),
            ldv == split_lines(text@),
            ldv.len() == lines@.len(),
            0 <= k <= lines@.len(),
            last_sender_spec(ldv) == last_sender_spec(ldv.subrange(0, k as int)),
        decreases k,
    {
        k -= 1;
        proof {
            assert(ldv[k as int] == lines@[k as int]@);
            assert(ldv.subrange(0, k + 1 as int).last() == ldv[k as int]);
            assert(ldv.subrange(0, k + 1 as int).drop_last() =~= ldv.subrange(0, k as int));
        }
        let line: &String = &lines[k];
        proof {
            assert(line@ == ldv[k as int]);
        }
        match sender_line_exec(line.as_str()) {
            Some(s) => {
                proof {
                    assert(last_sender_spec(ldv.subrange(0, k + 1 as int)) == s@);
                }
                return s;
            },
            None => {
                proof {
                    assert(last_sender_spec(ldv.subrange(0, k + 1 as int)) == last_sender_spec(
                        ldv.subrange(0, k as int),
                    ));
                }
            },
        }
    }
    proof {
        assert(ldv.subrange(0, 0) =~= Seq::<Seq<char>>::empty());
    }
    String::new()
}

/// The date a thread was last updated: the first token after the first
/// `**Last updated**:` marker, skipping whitespace; empty when the marker
/// is missing or nothing follows it.
pub open spec fn thread_date_spec(text: Seq<char>) -> Seq<char> {
    let p = "**Last updated**:"@;
    let i = find_seq(text, p);
    if i + p.len() <= text.len() {
        let t = text.subrange(i + p.len() as int, text.len() as int);
        let rest = t.subrange(wsp_prefix_len(t) as int, t.len() as int);
        rest.subrange(0, nonwsp_prefix_len(rest) as int)
    } else {
        Seq::empty()
    }
}

pub fn thread_date(text: &str) -> (r: String)
    ensures
        r@ == thread_date_spec(text@),
{
    proof {
        reveal_strlit("**Last updated**:");
        crate::textutil::lemma_wsp_prefix(text@);
    }
    let n = text.unicode_len();
    let i = find_sub(text, "**Last updated**:");
    if n < 17 || i > n - 17 {
        proof {
            assert(thread_date_spec(text@) =~= Seq::<char>::empty());
        }
        return String::new();
    }
    let t = text.substring_char(i + 17, n);
    let j = skip_wsp(t);
    let tn = t.unicode_len();
    proof {
        crate::textutil::lemma_wsp_prefix(t@);
    }
    let rest = t.substring_char(j, tn);
    let tk = token_len(rest);
    proof {
        crate::textutil::lemma_nonwsp_prefix(rest@);
    }
    let tok = rest.substring_char(0, tk);
    proof {
        assert(tok@ =~= thread_date_spec(text@));
    }
    String::from_str(tok)
}

/// The labels of a thread: the rest of the line after the earliest
/// `**Labels**:` or `**Label**:` marker (whitespace skipped, which may
/// cross line ends), trimmed; empty when neither marker is present or
/// nothing is on the line.
pub open spec fn thread_labels_spec(text: Seq<char>) -> Seq<char> {
    let p1 = "**Labels**:"@;
    let p2 = "**Label**:"@;
    let i1 = find_seq(text, p1);
    let i2 = find_seq(text, p2);
    let f1 = i1 + p1.len() <= text.len();
    let f2 = i2 + p2.len() <= text.len();
    if !f1 && !f2 {
        Seq::empty()
    } else {
        let start = if f1 && (!f2 || i1 < i2) {
            i1 + p1.len()
        } else {
            i2 + p2.len()
        };
        let t = text.subrange(start as int, text.len() as int);
        let rest = t.subrange(wsp_prefix_len(t) as int, t.len() as int);
        let cap = rest.subrange(0, find_ch(rest, '\n') as int);
        if cap.len() == 0 {
            Seq::empty()
        } else {
            trim_spec(cap)
        }
    }
}

pub fn thread_labels(text: &str) -> (r: String)
    ensures
        r@ == thread_labels_spec(text@),
{
    proof {
        reveal_strlit("**Labels**:");
        reveal_strlit("**Label**:");
        crate::codec::lemma_find_ch(text@, '\n');
    }
    let n = text.unicode_len();
    let i1 = find_sub(text, "**Labels**:");
    let i2 = find_sub(text, "**Label**:");
    let f1 = n >= 11 && i1 <= n - 11;
    let f2 = n >= 10 && i2 <= n - 10;
    if !f1 && !f2 {
        return String::new();
    }
    let start = if f1 && (!f2 || i1 < i2) {
        i1 + 11
    } else {
        i2 + 10
    };
    let t = text.substring_char(start, n);
    let j = skip_wsp(t);
    let tn = t.unicode_len();
    proof {
        crate::textutil::lemma_wsp_prefix(t@);
    }
    let rest = t.substring_char(j, tn);
    let e = crate::textutil::find_char(rest, '\n');
    proof {
        crate::codec::lemma_find_ch(rest@, '\n');
        assert(e == find_ch(rest@, '\n')) by {
            if e < find_ch(rest@, '\n') {
                assert(rest@[e as int] == '\n');
            }
            if e > find_ch(rest@, '\n') {
                assert(find_ch(rest@, '\n') < rest@.len());
                assert(rest@[find_ch(rest@, '\n') as int] == '\n');
            }
        }
    }
    let cap = rest.substring_char(0, e);
    if cap.is_empty() {
        return String::new();
    }
    String::from_str(trim(cap))
}

/// One metadata line of a draft: `**Key**: value`, the key up to the
/// first `**:`, the value trimmed.
pub open spec fn meta_of_line(line: Seq<char>) -> Option<(Seq<char>, Seq<char>)> {
    if line.len() >= 3 && line.subrange(0, 2) == "**"@ {
        let t = line.subrange(2, line.len() as int);
        let i = 1 + find_seq(t.drop_first(), "**:"@);
        if i + 3 <= t.len() {
            let key = t.subrange(0, i as int);
            let rest = t.subrange(i + 3 as int, t.len() as int);
            if rest.len() >= 1 {
                Some((key, trim_spec(rest)))
            } else {
                None
            }
        } else {
            None
        }
    } else {
        None
    }
}

/// The value of a metadata key: the last line that sets it wins.
pub open spec fn meta_value(lines: Seq<Seq<char>>, key: Seq<char>) -> Option<Seq<char>>
    decreases lines.len(),
{
    if lines.len() == 0 {
        None
    } else {
        match meta_of_line(lines.last()) {
            Some(kv) => if kv.0 == key {
                Some(kv.1)
            } else {
                meta_value(lines.drop_last(), key)
            },
            None => meta_value(lines.drop_last(), key),
        }
    }
}

pub open spec fn is_subject_line(line: Seq<char>) -> bool {
    line.len() >= 2 && line.subrange(0, 2) == "# "@
}

pub open spec fn has_subject(lines: Seq<Seq<char>>) -> bool {
    exists|i: int| 0 <= i < lines.len() && is_subject_line(#[trigger] lines[i])
}

/// The metadata/body separator: a line that trims to `---`.
pub open spec fn is_sep_line(line: Seq<char>) -> bool {
    trim_spec(line) == "---"@
}

pub open spec fn has_sep(lines: Seq<Seq<char>>) -> bool {
    exists|i: int| 0 <= i < lines.len() && is_sep_line(#[trigger] lines[i])
}

pub open spec fn first_sep(lines: Seq<Seq<char>>) -> nat
    decreases lines.len(),
{
    if lines.len() == 0 {
        0
    } else if is_sep_line(lines[0]) {
        0
    } else {
        1 + first_sep(lines.drop_first())
    }
}

pub proof fn lemma_first_sep(lines: Seq<Seq<char>>)
    ensures
        first_sep(lines) <= lines.len(),
        first_sep(lines) < lines.len() ==> is_sep_line(lines[first_sep(lines) as int]),
        forall|j: int| 0 <= j < first_sep(lines) ==> !is_sep_line(#[trigger] lines[j]),
        has_sep(lines) <==> first_sep(lines) < lines.len(),
    decreases lines.len(),
{
    if lines.len() > 0 && !is_sep_line(lines[0]) {
        lemma_first_sep(lines.drop_first());
        assert forall|j: int| 0 <= j < first_sep(lines) implies !is_sep_line(
            #[trigger] lines[j],
        ) by {
            if j > 0 {
                assert(!is_sep_line(lines.drop_first()[j - 1]));
            }
        }
        if has_sep(lines) {
            let k = choose|k: int| 0 <= k < lines.len() && is_sep_line(#[trigger] lines[k]);
            assert(is_sep_line(lines.drop_first()[k - 1]));
            assert(has_sep(lines.drop_first()));
        }
        let r = first_sep(lines.drop_first());
        if r < lines.drop_first().len() {
            assert(lines[r + 1 as int] == lines.drop_first()[r as int]);
            assert(has_sep(lines)) by {
                assert(is_sep_line(lines[r + 1 as int]));
            }
        }
    }
}

/// Every line after the first separator is whitespace only, so the body
/// is empty.
pub open spec fn body_blank(lines: Seq<Seq<char>>) -> bool {
    forall|i: int| first_sep(lines) < i < lines.len() ==> all_wsp(#[trigger] lines[i])
}

pub open spec fn is_valid_status(s: Seq<char>) -> bool {
    s == "draft"@ || s == "review"@ || s == "approved"@ || s == "sent"@
}

/// Every issue `validate_draft` reports, in order: the missing subject,
/// the missing required and recommended fields, an unknown status, the
/// draft-status reminder, the missing separator, and the empty body.
pub open spec fn validate_spec(text: Seq<char>) -> Seq<Seq<char>> {
    let lines = split_lines(text);
    let status = match meta_value(lines, "Status"@) {
        Some(v) => lower(v),
        None => Seq::<char>::empty(),
    };
    (if has_subject(lines) {
        Seq::<Seq<char>>::empty()
    } else {
        seq!["Missing subject: no '# Subject' heading found"@]
    }) + (if meta_value(lines, "To"@) is Some {
        Seq::<Seq<char>>::empty()
    } else {
        seq!["Missing required field: **To**"@]
    }) + (if meta_value(lines, "Status"@) is Some {
        Seq::<Seq<char>>::empty()
    } else {
        seq!["Warning: missing recommended field: **Status**"@]
    }) + (if meta_value(lines, "Author"@) is Some {
        Seq::<Seq<char>>::empty()
    } else {
        seq!["Warning: missing recommended field: **Author**"@]
    }) + (if status.len() > 0 && !is_valid_status(status) {
        seq!["Invalid status '"@ + meta_value(lines, "Status"@).unwrap()
            + "'. Valid: draft, review, approved, sent"@]
    } else {
        Seq::<Seq<char>>::empty()
    }) + (if status == "draft"@ {
        seq!["Warning: Status is 'draft'. Set to 'review' when ready for review"@]
    } else {
        Seq::<Seq<char>>::empty()
    }) + (if has_sep(lines) {
        Seq::<Seq<char>>::empty()
    } else {
        seq!["Missing '---' separator between metadata and body"@]
    }) + (if has_sep(lines) && body_blank(lines) {
        seq!["Warning: empty body after --- separator"@]
    } else {
        Seq::<Seq<char>>::empty()
    })
}

pub open spec fn opt_view(o: Option<String>) -> Option<Seq<char>> {
    match o {
        Some(s) => Some(s@),
        None => None,
    }
}

fn meta_line_exec(line: &str) -> (r: Option<(String, String)>)
    ensures
        r is Some <==> meta_of_line(line@) is Some,
        r matches Some(kv) ==> meta_of_line(line@) == Some((kv.0@, kv.1@)),
{
    proof {
        reveal_strlit("**");
        reveal_strlit("**:");
    }
    let n = line.unicode_len();
    if !(n >= 3 && starts_with(line, "**")) {
        return None;
    }
    let t = line.substring_char(2, n);
    let tn = t.unicode_len();
    let td = t.substring_char(1, tn);
    let f = find_sub(td, "**:");
    let i = 1 + f;
    proof {
        assert(td@ =~= t@.drop_first());
    }
    if !(tn >= 3 && i <= tn - 3) {
        proof {
            assert(1 + find_seq(t@.drop_first(), "**:"@) + 3 > t@.len());
        }
        return None;
    }
    let key = t.substring_char(0, i);
    let rest = t.substring_char(i + 3, tn);
    if rest.is_empty() {
        return None;
    }
    Some((String::from_str(key), String::from_str(trim(rest))))
}

/// The value of one metadata key, the last line that sets it winning.
fn meta_lookup(lines: &Vec<String>, key: &str) -> (r: Option<String>)
    ensures
        opt_view(r) == meta_value(lines.deep_view(), key@),
{
    let ghost ldv = lines.deep_view();
    let mut k = lines.len();
    proof {
        assert(ldv.subrange(0, k as int) =~= ldv);
    }
    while k > 0
        invariant
            ldv == lines.deep_view(),
            ldv.len() == lines@.len(),
            0 <= k <= lines@.len(),
            meta_value(ldv, key@) == meta_value(ldv.subrange(0, k as int), key@),
        decreases k,
    {
        k -= 1;
        proof {
            assert(ldv[k as int] == lines@[k as int]@);
            assert(ldv.subrange(0, k + 1 as int).last() == ldv[k as int]);
            assert(ldv.subrange(0, k + 1 as int).drop_last() =~= ldv.subrange(0, k as int));
        }
        let line: &String = &lines[k];
        proof {
            assert(line@ == ldv[k as int]);
        }
        match meta_line_exec(line.as_str()) {
            Some(kv) => {
                if str_eq(kv.0.as_str(), key) {
                    proof {
                        assert(meta_value(ldv.subrange(0, k + 1 as int), key@) == Some(kv.1@));
                    }
                    return Some(kv.1);
                }
                proof {
                    assert(meta_value(ldv.subrange(0, k + 1 as int), key@) == meta_value(
                        ldv.subrange(0, k as int),
                        key@,
                    ));
                }
            },
            None => {
                proof {
                    assert(meta_value(ldv.subrange(0, k + 1 as int), key@) == meta_value(
                        ldv.subrange(0, k as int),
                        key@,
                    ));
                }
            },
        }
    }
    proof {
        assert(ldv.subrange(0, 0) =~= Seq::<Seq<char>>::empty());
    }
    None
}

/// Whether any line is a subject heading.
fn find_subject(lines: &Vec<String>) -> (b: bool)
    ensures
        b == has_subject(lines.deep_view()),
{
    proof {
        reveal_strlit("# ");
    }
    let ghost ldv = lines.deep_view();
    let n = lines.len();
    let mut k: usize = 0;
    while k < n
        invariant
            ldv == lines.deep_view(),
            n == lines@.len(),
            ldv.len() == n,
            0 <= k <= n,
            forall|j: int| 0 <= j < k ==> !is_subject_line(#[trigger] ldv[j]),
        decreases n - k,
    {
        proof {
            assert(lines@[k as int]@ == ldv[k as int]);
            reveal_strlit("# ");
        }
        if starts_with(lines[k].as_str(), "# ") {
            proof {
                assert(is_subject_line(ldv[k as int]));
            }
            return true;
        }
        k += 1;
    }
    proof {
        if has_subject(ldv) {
            let i = choose|i: int| 0 <= i < ldv.len() && is_subject_line(#[trigger] ldv[i]);
        }
    }
    false
}

/// The position of the first separator line, or the line count when
/// there is none.
fn find_first_sep(lines: &Vec<String>) -> (r: usize)
    ensures
        r == first_sep(lines.deep_view()),
        r < lines@.len() <==> has_sep(lines.deep_view()),
{
    proof {
        lemma_first_sep(lines.deep_view());
    }
    let ghost ldv = lines.deep_view();
    let n = lines.len();
    let mut k: usize = 0;
    while k < n
        invariant
            ldv == lines.deep_view(),
            n == lines@.len(),
            ldv.len() == n,
            0 <= k <= n,
            forall|j: int| 0 <= j < k ==> !is_sep_line(#[trigger] ldv[j]),
        decreases n - k,
    {
        proof {
            assert(lines@[k as int]@ == ldv[k as int]);
        }
        let t = trim(lines[k].as_str());
        if str_eq(t, "---") {
            proof {
                assert(is_sep_line(ldv[k as int]));
                lemma_first_sep(ldv);
                assert(k == first_sep(ldv)) by {
                    if first_sep(ldv) < k {
                        assert(!is_sep_line(ldv[first_sep(ldv) as int]));
                    }
                    if first_sep(ldv) > k {
                        assert(!is_sep_line(ldv[k as int]));
                    }
                }
            }
            return k;
        }
        proof {
            assert(!is_sep_line(ldv[k as int]));
        }
        k += 1;
    }
    proof {
        lemma_first_sep(ldv);
        assert(!has_sep(ldv)) by {
            if has_sep(ldv) {
                let i = choose|i: int| 0 <= i < ldv.len() && is_sep_line(#[trigger] ldv[i]);
            }
        }
        assert(first_sep(ldv) == n) by {
            if first_sep(ldv) < n {
                assert(is_sep_line(ldv[first_sep(ldv) as int]));
                assert(has_sep(ldv));
            }
        }
    }
    n
}

/// Whether every line after the given position is whitespace only.
fn all_blank_after(lines: &Vec<String>, fs: usize) -> (b: bool)
    ensures
        b == (forall|i: int| fs < i < lines.deep_view().len() ==> all_wsp(
            #[trigger] lines.deep_view()[i],
        )),
{
    let ghost ldv = lines.deep_view();
    let n = lines.len();
    let mut k: usize = if fs >= n {
        n
    } else {
        fs + 1
    };
    while k < n
        invariant
            ldv == lines.deep_view(),
            n == lines@.len(),
            ldv.len() == n,
            fs < k <= n || (fs >= n && k == n),
            forall|i: int| fs < i < k ==> all_wsp(#[trigger] ldv[i]),
        decreases n - k,
    {
        proof {
            assert(lines@[k as int]@ == ldv[k as int]);
        }
        if !is_blank(lines[k].as_str()) {
            proof {
                assert(!all_wsp(ldv[k as int]));
            }
            return false;
        }
        k += 1;
    }
    true
}

/// Checks a draft's text and reports its issues, in a fixed order; an
/// empty report means a valid draft.
#[verifier::rlimit(100)]
#[verifier::spinoff_prover]
pub fn validate_draft(text: &str) -> (r: Vec<String>)
    ensures
        r.deep_view() == validate_spec(text@),
{
    proof {
        reveal_strlit("To");
        reveal_strlit("Status");
        reveal_strlit("Author");
        reveal_strlit("draft");
    }
    let lines = split_lines_exec(text);
    let found_subject = find_subject(&lines);
    let to_val = meta_lookup(&lines, "To");
    let st_val = meta_lookup(&lines, "Status");
    let au_val = meta_lookup(&lines, "Author");
    let fs = find_first_sep(&lines);
    let sep_found = fs < lines.len();
    let body_is_blank = all_blank_after(&lines, fs);
    proof {
        assert(lines.deep_view() == split_lines(text@));
    }

    let mut issues: Vec<String> = Vec::new();
    if !found_subject {
        crate::cmd::push_arg(&mut issues, "Missing subject: no '# Subject' heading found");
    }
    if to_val.is_none() {
        crate::cmd::push_arg(&mut issues, "Missing required field: **To**");
    }
    if st_val.is_none() {
        crate::cmd::push_arg(&mut issues, "Warning: missing recommended field: **Status**");
    }
    if au_val.is_none() {
        crate::cmd::push_arg(&mut issues, "Warning: missing recommended field: **Author**");
    }
    let mut status_is_draft = false;
    match &st_val {
        Some(v) => {
            let low = to_lower(v.as_str());
            let valid = str_eq(low.as_str(), "draft") || str_eq(low.as_str(), "review") || str_eq(
                low.as_str(),
                "approved",
            ) || str_eq(low.as_str(), "sent");
            if !low.as_str().is_empty() && !valid {
                let mut msg = String::from_str("Invalid status '");
                msg.append(v.as_str());
                msg.append("'. Valid: draft, review, approved, sent");
                crate::cmd::push_arg_string(&mut issues, msg);
            }
            if str_eq(low.as_str(), "draft") {
                status_is_draft = true;
            }
        },
        None => {},
    }
    if status_is_draft {
        crate::cmd::push_arg(
            &mut issues,
            "Warning: Status is 'draft'. Set to 'review' when ready for review",
        );
    }
    if !sep_found {
        crate::cmd::push_arg(&mut issues, "Missing '---' separator between metadata and body");
    }
    if sep_found && body_is_blank {
        crate::cmd::push_arg(&mut issues, "Warning: empty body after --- separator");
    }
    proof {
        reveal_strlit("draft");
        let lg = split_lines(text@);
        assert(lines.deep_view() == lg);
        assert(found_subject == has_subject(lg));
        assert(opt_view(to_val) == meta_value(lg, "To"@));
        assert(opt_view(st_val) == meta_value(lg, "Status"@));
        assert(opt_view(au_val) == meta_value(lg, "Author"@));
        assert(fs == first_sep(lg));
        assert(sep_found == has_sep(lg));
        assert(sep_found ==> body_is_blank == body_blank(lg));
        let status = match meta_value(lg, "Status"@) {
            Some(v) => lower(v),
            None => Seq::<char>::empty(),
        };
        assert("draft"@.len() == 5);
        assert(status_is_draft == (status == "draft"@));
        assert(issues.deep_view() =~~= validate_spec(text@));
    }
    issues
}

} // verus!
