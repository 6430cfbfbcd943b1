//! Contacts: known correspondents with their addresses, routing labels
//! and account scope, and the codec of the contact file — the renderer
//! and the reader, the latter accepting the same restricted shape as the
//! registry's (double-quoted values, single-line arrays, blank lines,
//! unknown keys skipped).  Reading keeps the sections in file order and
//! rejects a repeated name.

use vstd::prelude::*;
use crate::CollabError;
use crate::codec::{
    parse_elems, parse_elems_exec, parse_quoted, parse_quoted_exec, quote, quoted_join,
    quote_exec, quoted_join_exec,
};
use crate::textutil::{join_lines, push_char, split_lines, split_lines_exec};

verus! {

/// Mathematical model of one contact.
pub ghost struct ContactView {
    pub emails: Seq<Seq<char>>,
    pub labels: Seq<Seq<char>>,
    pub account: Seq<char>,
}

/// One known correspondent.
pub struct Contact {
    pub emails: Vec<String>,
    pub labels: Vec<String>,
    pub account: String,
}

impl View for Contact {
    type V = ContactView;

    open spec fn view(&self) -> ContactView {
        ContactView {
            emails: self.emails.deep_view(),
            labels: self.labels.deep_view(),
            account: self.account@,
        }
    }
}

/// One contact, keyed by name.
pub struct NamedContact {
    pub name: String,
    pub contact: Contact,
}

/// Mathematical model of one named contact.
#[verifier::ext_equal]
pub ghost struct NamedContactView {
    pub name: Seq<char>,
    pub contact: ContactView,
}

impl View for NamedContact {
    type V = NamedContactView;

    open spec fn view(&self) -> NamedContactView {
        NamedContactView { name: self.name@, contact: self.contact@ }
    }
}

impl DeepView for NamedContact {
    type V = NamedContactView;

    open spec fn deep_view(&self) -> NamedContactView {
        self.view()
    }
}

/// The lines one contact becomes: header, then only the non-empty
/// fields, then a closing blank line.
pub open spec fn contact_lines(name: Seq<char>, c: ContactView) -> Seq<Seq<char>> {
    seq![seq!['['] + name + seq![']']] + (if c.emails.len() > 0 {
        seq!["emails = "@ + ("["@ + quoted_join(c.emails) + "]"@)]
    } else {
        Seq::<Seq<char>>::empty()
    }) + (if c.labels.len() > 0 {
        seq!["labels = "@ + ("["@ + quoted_join(c.labels) + "]"@)]
    } else {
        Seq::<Seq<char>>::empty()
    }) + (if c.account.len() > 0 {
        seq!["account = "@ + quote(c.account)]
    } else {
        Seq::<Seq<char>>::empty()
    }) + seq![Seq::<char>::empty()]
}

pub open spec fn contacts_lines(entries: Seq<NamedContact>) -> Seq<Seq<char>>
    decreases entries.len(),
{
    if entries.len() == 0 {
        Seq::empty()
    } else {
        contact_lines(entries[0].name@, entries[0].contact@) + contacts_lines(
            entries.drop_first(),
        )
    }
}

proof fn lemma_contacts_lines_push(entries: Seq<NamedContact>, e: NamedContact)
    ensures
        contacts_lines(entries.push(e)) == contacts_lines(entries) + contact_lines(
            e.name@,
            e.contact@,
        ),
    decreases entries.len(),
{
    if entries.len() == 0 {
        let p = entries.push(e);
        assert(p[0] == e);
        assert(p.drop_first() =~~= Seq::<NamedContact>::empty());
        assert(contacts_lines(p.drop_first()) == contacts_lines(Seq::<NamedContact>::empty()));
        assert(contacts_lines(p) == contact_lines(e.name@, e.contact@) + contacts_lines(
            p.drop_first(),
        ));
        assert(contact_lines(e.name@, e.contact@) + Seq::<Seq<char>>::empty() =~~= contact_lines(
            e.name@,
            e.contact@,
        ));
        assert(contacts_lines(entries) + contact_lines(e.name@, e.contact@) =~~= contact_lines(
            e.name@,
            e.contact@,
        ));
    } else {
        let p = entries.push(e);
        assert(p[0] == entries[0]);
        assert(p.drop_first() =~~= entries.drop_first().push(e));
        lemma_contacts_lines_push(entries.drop_first(), e);
        assert(contacts_lines(p) == contact_lines(entries[0].name@, entries[0].contact@) + (
        contacts_lines(entries.drop_first()) + contact_lines(e.name@, e.contact@)));
        assert(contact_lines(entries[0].name@, entries[0].contact@) + (contacts_lines(
            entries.drop_first(),
        ) + contact_lines(e.name@, e.contact@)) =~~= (contact_lines(
            entries[0].name@,
            entries[0].contact@,
        ) + contacts_lines(entries.drop_first())) + contact_lines(e.name@, e.contact@));
    }
}

/// What `save_contacts` returns: every contact's lines, joined with
/// newlines.
pub open spec fn save_contacts_spec(entries: Seq<NamedContact>) -> Seq<char> {
    join_lines(contacts_lines(entries))
}

/// Appends one contact's lines.
fn contact_lines_exec(e: &NamedContact, lines: &mut Vec<String>)
    ensures
        final(lines).deep_view() == old(lines).deep_view() + contact_lines(e.name@, e.contact@),
{
    let mut header = String::new();
    push_char(&mut header, '[');
    header.append(e.name.as_str());
    push_char(&mut header, ']');
    proof {
        assert(header@ =~= seq!['['] + e.name@ + seq![']']);
    }
    crate::cmd::push_arg_string(lines, header);
    proof {
        reveal_strlit("[");
        reveal_strlit("]");
        assert("["@ =~= seq!['[']);
        assert("]"@ =~= seq![']']);
    }
    if e.contact.emails.len() > 0 {
        let mut line = String::from_str("emails = ");
        push_char(&mut line, '[');
        let join = quoted_join_exec(&e.contact.emails);
        line.append(join.as_str());
        push_char(&mut line, ']');
        proof {
            assert(line@ =~= "emails = "@ + ("["@ + quoted_join(e.contact@.emails) + "]"@));
        }
        crate::cmd::push_arg_string(lines, line);
    }
    if e.contact.labels.len() > 0 {
        let mut line = String::from_str("labels = ");
        push_char(&mut line, '[');
        let join = quoted_join_exec(&e.contact.labels);
        line.append(join.as_str());
        push_char(&mut line, ']');
        proof {
            assert(line@ =~= "labels = "@ + ("["@ + quoted_join(e.contact@.labels) + "]"@));
        }
        crate::cmd::push_arg_string(lines, line);
    }
    if !e.contact.account.as_str().is_empty() {
        let mut line = String::from_str("account = ");
        let q = quote_exec(e.contact.account.as_str());
        line.append(q.as_str());
        proof {
            assert(line@ =~= "account = "@ + quote(e.contact@.account));
        }
        crate::cmd::push_arg_string(lines, line);
    }
    crate::cmd::push_arg_string(lines, String::new());
    proof {
        assert(final(lines).deep_view() =~~= old(lines).deep_view() + contact_lines(
            e.name@,
            e.contact@,
        ));
    }
}

/// What one line of the contact file means.
pub ghost enum ContactLineClass {
    /// A line of nothing but whitespace; ignored.
    Blank,
    /// `[name]` — opens the section of a new contact.
    Header(Seq<char>),
    /// `emails = [...]`
    Emails(Seq<Seq<char>>),
    /// `labels = [...]`
    Labels(Seq<Seq<char>>),
    /// `account = "..."`
    Account(Seq<char>),
    /// A well-shaped assignment to an unknown key; ignored.
    SkipLine,
    /// Anything else: malformed.
    Bad,
}

pub open spec fn classify_contact(line: Seq<char>) -> ContactLineClass {
    if crate::textutil::all_wsp(line) {
        ContactLineClass::Blank
    } else if line[0] == '[' {
        if line.len() >= 3 && line[line.len() - 1] == ']' {
            ContactLineClass::Header(line.subrange(1, line.len() - 1))
        } else {
            ContactLineClass::Bad
        }
    } else if line.len() >= 9 && line.subrange(0, 9) == "emails = "@ {
        let v = line.subrange(9, line.len() as int);
        if v.len() >= 2 && v[0] == '[' && v[v.len() - 1] == ']' {
            match parse_elems(v.subrange(1, v.len() - 1)) {
                Some(ls) => ContactLineClass::Emails(ls),
                None => ContactLineClass::Bad,
            }
        } else {
            ContactLineClass::Bad
        }
    } else if line.len() >= 9 && line.subrange(0, 9) == "labels = "@ {
        let v = line.subrange(9, line.len() as int);
        if v.len() >= 2 && v[0] == '[' && v[v.len() - 1] == ']' {
            match parse_elems(v.subrange(1, v.len() - 1)) {
                Some(ls) => ContactLineClass::Labels(ls),
                None => ContactLineClass::Bad,
            }
        } else {
            ContactLineClass::Bad
        }
    } else if line.len() >= 10 && line.subrange(0, 10) == "account = "@ {
        match parse_quoted(line.subrange(10, line.len() as int)) {
            Some(s) => ContactLineClass::Account(s),
            None => ContactLineClass::Bad,
        }
    } else if crate::textutil::contains_seq(line, " = "@) {
        ContactLineClass::SkipLine
    } else {
        ContactLineClass::Bad
    }
}

/// A contact section being read; every field defaults to empty.
#[verifier::ext_equal]
pub ghost struct PartialContact {
    pub name: Seq<char>,
    pub emails: Seq<Seq<char>>,
    pub labels: Seq<Seq<char>>,
    pub account: Seq<char>,
}

pub open spec fn partial_contact_new(name: Seq<char>) -> PartialContact {
    PartialContact { name, emails: Seq::empty(), labels: Seq::empty(), account: Seq::empty() }
}

pub open spec fn close_contact(p: PartialContact) -> NamedContactView {
    NamedContactView {
        name: p.name,
        contact: ContactView { emails: p.emails, labels: p.labels, account: p.account },
    }
}

/// Some entry of `s` carries the name.
pub open spec fn contains_contact_name(s: Seq<NamedContactView>, name: Seq<char>) -> bool {
    exists|k: int| 0 <= k < s.len() && (#[trigger] s[k]).name == name
}

pub open spec fn finish_contact(
    cur: Option<PartialContact>,
    acc: Seq<NamedContactView>,
) -> Seq<NamedContactView> {
    match cur {
        None => acc,
        Some(p) => acc.push(close_contact(p)),
    }
}

/// Reads the lines of the contact file, section by section.  A repeated
/// name, a field line outside any section, or a malformed line fails the
/// whole read; the sections come back in file order.
pub open spec fn parse_contact_lines(
    lines: Seq<Seq<char>>,
    cur: Option<PartialContact>,
    acc: Seq<NamedContactView>,
) -> Option<Seq<NamedContactView>>
    decreases lines.len(),
{
    if lines.len() == 0 {
        Some(finish_contact(cur, acc))
    } else {
        let rest = lines.drop_first();
        match classify_contact(lines[0]) {
            ContactLineClass::Blank => parse_contact_lines(rest, cur, acc),
            ContactLineClass::SkipLine => parse_contact_lines(rest, cur, acc),
            ContactLineClass::Header(name) => {
                let acc2 = finish_contact(cur, acc);
                if contains_contact_name(acc2, name) {
                    None
                } else {
                    parse_contact_lines(rest, Some(partial_contact_new(name)), acc2)
                }
            },
            ContactLineClass::Emails(ls) => match cur {
                Some(p) => parse_contact_lines(rest, Some(PartialContact { emails: ls, ..p }), acc),
                None => None,
            },
            ContactLineClass::Labels(ls) => match cur {
                Some(p) => parse_contact_lines(rest, Some(PartialContact { labels: ls, ..p }), acc),
                None => None,
            },
            ContactLineClass::Account(s) => match cur {
                Some(p) => parse_contact_lines(
                    rest,
                    Some(PartialContact { account: s, ..p }),
                    acc,
                ),
                None => None,
            },
            ContactLineClass::Bad => None,
        }
    }
}

/// What `load_contacts` returns; `None` is a parse failure.
pub open spec fn load_contacts_spec(text: Seq<char>) -> Option<Seq<NamedContactView>> {
    parse_contact_lines(split_lines(text), None, Seq::empty())
}

/// What one line of the contact file means, as read.
pub enum ContactLineKind {
    Blank,
    Header(String),
    Emails(Vec<String>),
    Labels(Vec<String>),
    Account(String),
    SkipLine,
    Bad,
}

pub open spec fn contact_kind_view(k: &ContactLineKind) -> ContactLineClass {
    match k {
        ContactLineKind::Blank => ContactLineClass::Blank,
        ContactLineKind::Header(s) => ContactLineClass::Header(s@),
        ContactLineKind::Emails(v) => ContactLineClass::Emails(v.deep_view()),
        ContactLineKind::Labels(v) => ContactLineClass::Labels(v.deep_view()),
        ContactLineKind::Account(s) => ContactLineClass::Account(s@),
        ContactLineKind::SkipLine => ContactLineClass::SkipLine,
        ContactLineKind::Bad => ContactLineClass::Bad,
    }
}

fn classify_contact_exec(line: &str) -> (r: ContactLineKind)
    ensures
        contact_kind_view(&r) == classify_contact(line@),
{
    proof {
        reveal_strlit("emails = ");
        reveal_strlit("labels = ");
        reveal_strlit("account = ");
        reveal_strlit(" = ");
    }
    let n = line.unicode_len();
    if crate::textutil::is_blank(line) {
        return ContactLineKind::Blank;
    }
    if line.get_char(0) == '[' {
        if n >= 3 && line.get_char(n - 1) == ']' {
            return ContactLineKind::Header(String::from_str(line.substring_char(1, n - 1)));
        }
        return ContactLineKind::Bad;
    }
    if crate::textutil::starts_with(line, "emails = ") {
        let v = line.substring_char(9, n);
        let vn = v.unicode_len();
        if vn >= 2 && v.get_char(0) == '[' && v.get_char(vn - 1) == ']' {
            let inner = v.substring_char(1, vn - 1);
            return match parse_elems_exec(inner) {
                Some(ls) => ContactLineKind::Emails(ls),
                None => ContactLineKind::Bad,
            };
        }
        return ContactLineKind::Bad;
    }
    if crate::textutil::starts_with(line, "labels = ") {
        let v = line.substring_char(9, n);
        let vn = v.unicode_len();
        if vn >= 2 && v.get_char(0) == '[' && v.get_char(vn - 1) == ']' {
            let inner = v.substring_char(1, vn - 1);
            return match parse_elems_exec(inner) {
                Some(ls) => ContactLineKind::Labels(ls),
                None => ContactLineKind::Bad,
            };
        }
        return ContactLineKind::Bad;
    }
    if crate::textutil::starts_with(line, "account = ") {
        let v = line.substring_char(10, n);
        return match parse_quoted_exec(v) {
            Some(s) => ContactLineKind::Account(s),
            None => ContactLineKind::Bad,
        };
    }
    if crate::textutil::contains_sub(line, " = ") {
        return ContactLineKind::SkipLine;
    }
    ContactLineKind::Bad
}

fn contains_name(entries: &Vec<NamedContact>, name: &str) -> (b: bool)
    ensures
        b == contains_contact_name(entries.deep_view(), name@),
{
    proof {
        assert(entries.deep_view().len() == entries@.len());
    }
    let n = entries.len();
    let mut k: usize = 0;
    while k < n
        invariant
            n == entries@.len(),
            entries.deep_view().len() == n,
            0 <= k <= n,
            forall|j: int| 0 <= j < k ==> (#[trigger] entries.deep_view()[j]).name != name@,
        decreases n - k,
    {
        proof {
            assert(entries.deep_view()[k as int] == entries@[k as int]@);
        }
        if crate::textutil::str_eq(entries[k].name.as_str(), name) {
            assert(entries.deep_view()[k as int].name == name@);
            return true;
        }
        k += 1;
    }
    false
}

/// The partial section being read, with the fields seen so far.
pub struct PartialContactExec {
    pub name: String,
    pub emails: Vec<String>,
    pub labels: Vec<String>,
    pub account: String,
}

pub open spec fn partial_contact_view(p: &PartialContactExec) -> PartialContact {
    PartialContact {
        name: p.name@,
        emails: p.emails.deep_view(),
        labels: p.labels.deep_view(),
        account: p.account@,
    }
}

pub open spec fn cur_contact_view(cur: &Option<PartialContactExec>) -> Option<PartialContact> {
    match cur {
        None => None,
        Some(p) => Some(partial_contact_view(p)),
    }
}

/// Reads the contact backing text.  A malformed text fails with a parse
/// error; otherwise every section becomes an entry, in file order.
pub fn load_contacts(text: &str) -> (r: Result<Vec<NamedContact>, CollabError>)
    ensures
        r matches Ok(entries) ==> load_contacts_spec(text@) == Some(entries.deep_view()),
        r is Err ==> (load_contacts_spec(text@) is None && r == Result::<
            Vec<NamedContact>,
            CollabError,
        >::Err(CollabError::Parse)),
{
    let lines = split_lines_exec(text);
    let ghost ldv = lines.deep_view();
    let ghost target = parse_contact_lines(ldv, None, Seq::<NamedContactView>::empty());
    let mut out: Vec<NamedContact> = Vec::new();
    let mut cur: Option<PartialContactExec> = None;
    let n = lines.len();
    let mut k: usize = 0;
    proof {
        assert(ldv.subrange(0, n as int) =~= ldv);
        assert(out.deep_view() =~~= Seq::<NamedContactView>::empty());
    }
    while k < n
        invariant
            n == lines@.len(),
            ldv == lines.deep_view(),
            ldv.len() == n,
            ldv == split_lines(text@),
            target == parse_contact_lines(ldv, None, Seq::<NamedContactView>::empty()),
            0 <= k <= n,
            parse_contact_lines(ldv.subrange(k as int, n as int), cur_contact_view(&cur),
                out.deep_view()) == target,
        decreases n - k,
    {
        let line: &String = &lines[k];
        proof {
            assert(ldv[k as int] == lines@[k as int]@);
            assert(ldv.subrange(k as int, n as int)[0] == ldv[k as int]);
            assert(ldv.subrange(k as int, n as int).drop_first() =~= ldv.subrange(
                k + 1 as int,
                n as int,
            ));
        }
        let kind = classify_contact_exec(line.as_str());
        match kind {
            ContactLineKind::Blank => {},
            ContactLineKind::SkipLine => {},
            ContactLineKind::Bad => {
                return Err(CollabError::Parse);
            },
            ContactLineKind::Header(name) => {
                match cur {
                    Some(p) => {
                        let ghost pv = partial_contact_view(&p);
                        let entry = NamedContact {
                            name: p.name,
                            contact: Contact {
                                emails: p.emails,
                                labels: p.labels,
                                account: p.account,
                            },
                        };
                        let ghost prev = out.deep_view();
                        proof {
                            assert(entry@ == close_contact(pv));
                            assert(out.deep_view().len() == out@.len());
                        }
                        out.push(entry);
                        proof {
                            assert(out.deep_view() =~~= prev.push(close_contact(pv)));
                        }
                    },
                    None => {},
                }
                if contains_name(&out, name.as_str()) {
                    return Err(CollabError::Parse);
                }
                cur = Some(
                    PartialContactExec {
                        name,
                        emails: Vec::new(),
                        labels: Vec::new(),
                        account: String::new(),
                    },
                );
                proof {
                    match &cur {
                        Some(p) => {
                            assert(p.emails.deep_view() =~~= Seq::<Seq<char>>::empty());
                            assert(p.labels.deep_view() =~~= Seq::<Seq<char>>::empty());
                            assert(partial_contact_view(p) =~= partial_contact_new(p.name@));
                        },
                        None => {},
                    }
                }
            },
            ContactLineKind::Emails(ls) => {
                cur = match cur {
                    None => {
                        return Err(CollabError::Parse);
                    },
                    Some(mut p) => {
                        p.emails = ls;
                        Some(p)
                    },
                };
            },
            ContactLineKind::Labels(ls) => {
                cur = match cur {
                    None => {
                        return Err(CollabError::Parse);
                    },
                    Some(mut p) => {
                        p.labels = ls;
                        Some(p)
                    },
                };
            },
            ContactLineKind::Account(s) => {
                cur = match cur {
                    None => {
                        return Err(CollabError::Parse);
                    },
                    Some(mut p) => {
                        p.account = s;
                        Some(p)
                    },
                };
            },
        }
        k += 1;
    }
    proof {
        assert(ldv.subrange(n as int, n as int) =~= Seq::<Seq<char>>::empty());
    }
    match cur {
        None => {
            proof {
                assert(target == Some(out.deep_view()));
            }
            Ok(out)
        },
        Some(p) => {
            let ghost pv = partial_contact_view(&p);
            let entry = NamedContact {
                name: p.name,
                contact: Contact { emails: p.emails, labels: p.labels, account: p.account },
            };
            let ghost prev = out.deep_view();
            proof {
                assert(entry@ == close_contact(pv));
                assert(out.deep_view().len() == out@.len());
            }
            out.push(entry);
            proof {
                assert(out.deep_view() =~~= prev.push(close_contact(pv)));
                assert(target == Some(out.deep_view()));
            }
            Ok(out)
        },
    }
}

/// Renders the contacts to their backing text, section after section.
pub fn save_contacts(entries: &Vec<NamedContact>) -> (r: String)
    ensures
        r@ == save_contacts_spec(entries@),
{
    let mut lines: Vec<String> = Vec::new();
    let n = entries.len();
    let mut i: usize = 0;
    proof {
        assert(entries@.subrange(0, 0) =~~= Seq::<NamedContact>::empty());
        assert(lines.deep_view() =~~= contacts_lines(entries@.subrange(0, 0)));
    }
    while i < n
        invariant
            n == entries@.len(),
            0 <= i <= n,
            lines.deep_view() == contacts_lines(entries@.subrange(0, i as int)),
        decreases n - i,
    {
        contact_lines_exec(&entries[i], &mut lines);
        proof {
            assert(entries@.subrange(0, i + 1 as int) =~~= entries@.subrange(0, i as int).push(
                entries@[i as int],
            ));
            lemma_contacts_lines_push(entries@.subrange(0, i as int), entries@[i as int]);
        }
        i += 1;
    }
    proof {
        assert(entries@.subrange(0, n as int) =~= entries@);
    }
    crate::textutil::join_lines_exec(&lines)
}

} // verus!
