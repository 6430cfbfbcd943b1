//! Scaffolding a new draft: the rendered markdown skeleton and the
//! numbered file-name candidates used to avoid collisions on disk.

use vstd::prelude::*;
use crate::cmd::push_arg_string;
use crate::textutil::{join_lines, push_char};

verus! {

/// The lines of a fresh draft: subject heading, metadata fields (the
/// optional ones only when given, the author only when known), and the
/// separator before the empty body.
pub open spec fn render_lines(
    subject: Seq<char>,
    to: Seq<char>,
    cc: Option<Seq<char>>,
    account: Option<Seq<char>>,
    from: Option<Seq<char>>,
    in_reply_to: Option<Seq<char>>,
    author: Seq<char>,
) -> Seq<Seq<char>> {
    seq!["# "@ + subject] + seq![Seq::<char>::empty()] + seq!["**To**: "@ + to] + (match cc {
        Some(c) => seq!["**CC**: "@ + c],
        None => Seq::<Seq<char>>::empty(),
    }) + seq!["**Status**: draft"@] + (if author.len() > 0 {
        seq!["**Author**: "@ + author]
    } else {
        Seq::<Seq<char>>::empty()
    }) + (match account {
        Some(a) => seq!["**Account**: "@ + a],
        None => Seq::<Seq<char>>::empty(),
    }) + (match from {
        Some(f) => seq!["**From**: "@ + f],
        None => Seq::<Seq<char>>::empty(),
    }) + (match in_reply_to {
        Some(r) => seq!["**In-Reply-To**: "@ + r],
        None => Seq::<Seq<char>>::empty(),
    }) + seq![Seq::<char>::empty()] + seq!["---"@] + seq![Seq::<char>::empty()]
}

/// What `render` returns: the lines joined by newlines, with one final
/// newline.
pub open spec fn render_spec(
    subject: Seq<char>,
    to: Seq<char>,
    cc: Option<Seq<char>>,
    account: Option<Seq<char>>,
    from: Option<Seq<char>>,
    in_reply_to: Option<Seq<char>>,
    author: Seq<char>,
) -> Seq<char> {
    join_lines(render_lines(subject, to, cc, account, from, in_reply_to, author)) + seq!['\n']
}

pub open spec fn opt_str_view(o: Option<&str>) -> Option<Seq<char>> {
    match o {
        Some(s) => Some(s@),
        None => None,
    }
}

fn field_line(prefix: &str, value: &str) -> (r: String)
    ensures
        r@ == prefix@ + value@,
{
    let mut r = String::from_str(prefix);
    r.append(value);
    r
}

/// Renders the markdown skeleton of a new draft.
pub fn render(
    subject: &str,
    to: &str,
    cc: Option<&str>,
    account: Option<&str>,
    from: Option<&str>,
    in_reply_to: Option<&str>,
    author: &str,
) -> (r: String)
    ensures
        r@ == render_spec(
            subject@,
            to@,
            opt_str_view(cc),
            opt_str_view(account),
            opt_str_view(from),
            opt_str_view(in_reply_to),
            author@,
        ),
{
    let mut lines: Vec<String> = Vec::new();
    push_arg_string(&mut lines, field_line("# ", subject));
    push_arg_string(&mut lines, String::new());
    push_arg_string(&mut lines, field_line("**To**: ", to));
    match cc {
        Some(c) => {
            push_arg_string(&mut lines, field_line("**CC**: ", c));
        },
        None => {},
    }
    push_arg_string(&mut lines, String::from_str("**Status**: draft"));
    if !author.is_empty() {
        push_arg_string(&mut lines, field_line("**Author**: ", author));
    }
    match account {
        Some(a) => {
            push_arg_string(&mut lines, field_line("**Account**: ", a));
        },
        None => {},
    }
    match from {
        Some(f) => {
            push_arg_string(&mut lines, field_line("**From**: ", f));
        },
        None => {},
    }
    match in_reply_to {
        Some(ir) => {
            push_arg_string(&mut lines, field_line("**In-Reply-To**: ", ir));
        },
        None => {},
    }
    push_arg_string(&mut lines, String::new());
    push_arg_string(&mut lines, String::from_str("---"));
    push_arg_string(&mut lines, String::new());
    proof {
        assert(lines.deep_view() =~~= render_lines(
            subject@,
            to@,
            opt_str_view(cc),
            opt_str_view(account),
            opt_str_view(from),
            opt_str_view(in_reply_to),
            author@,
        ));
    }
    let mut r = crate::textutil::join_lines_exec(&lines);
    push_char(&mut r, '\n');
    proof {
        assert(r@ =~= render_spec(
            subject@,
            to@,
            opt_str_view(cc),
            opt_str_view(account),
            opt_str_view(from),
            opt_str_view(in_reply_to),
            author@,
        ));
    }
    r
}

/// The decimal digits of a number, most significant first.
pub open spec fn dec_digit(d: nat) -> char {
    if d == 0 {
        '0'
    } else if d == 1 {
        '1'
    } else if d == 2 {
        '2'
    } else if d == 3 {
        '3'
    } else if d == 4 {
        '4'
    } else if d == 5 {
        '5'
    } else if d == 6 {
        '6'
    } else if d == 7 {
        '7'
    } else if d == 8 {
        '8'
    } else {
        '9'
    }
}

pub open spec fn dec_spec(n: nat) -> Seq<char>
    decreases n,
{
    if n < 10 {
        seq![dec_digit(n)]
    } else {
        dec_spec(n / 10).push(dec_digit(n % 10))
    }
}

fn digit_char(d: u64) -> (c: char)
    requires
        d < 10,
    ensures
        c == dec_digit(d as nat),
{
    if d == 0 {
        '0'
    } else if d == 1 {
        '1'
    } else if d == 2 {
        '2'
    } else if d == 3 {
        '3'
    } else if d == 4 {
        '4'
    } else if d == 5 {
        '5'
    } else if d == 6 {
        '6'
    } else if d == 7 {
        '7'
    } else if d == 8 {
        '8'
    } else {
        '9'
    }
}

/// The decimal rendering of a number.
pub fn utoa(n: u64) -> (r: String)
    ensures
        r@ == dec_spec(n as nat),
    decreases n,
{
    if n < 10 {
        let mut r = String::new();
        push_char(&mut r, digit_char(n));
        proof {
            assert(r@ =~= dec_spec(n as nat));
        }
        r
    } else {
        let mut r = utoa(n / 10);
        push_char(&mut r, digit_char(n % 10));
        r
    }
}

/// The draft file name tried on the n-th attempt: `{date}-{slug}.md`
/// first, `{date}-{slug}-{n}.md` on collisions (n counting from 2); the
/// caller probes the candidates in order until one is free.
pub open spec fn unique_path_spec(date: Seq<char>, slug: Seq<char>, n: nat) -> Seq<char> {
    if n <= 1 {
        date + "-"@ + slug + ".md"@
    } else {
        date + "-"@ + slug + "-"@ + dec_spec(n) + ".md"@
    }
}

pub fn unique_path(date: &str, slug: &str, n: u64) -> (r: String)
    ensures
        r@ == unique_path_spec(date@, slug@, n as nat),
{
    let mut r = String::from_str(date);
    r.append("-");
    r.append(slug);
    if n > 1 {
        r.append("-");
        let num = utoa(n);
        r.append(num.as_str());
    }
    r.append(".md");
    r
}

} // verus!
