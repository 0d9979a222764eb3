//! Remote syslog forwarding, kept as `<facility> <@address>` lines.

use vstd::prelude::*;

use crate::lines::{append_wrapped, contains_text, has_infix, wrapped};
use crate::interface::Strs;
use crate::text::{pieces, replace, replaced, split, trim, trimmed};

verus! {

/// Facility under which new remote servers are added.
pub const DEFAULT_FACILITY: &'static str = "user.*";

/// Lines that stay when the servers are replaced: comments, and lines that
/// name no remote address.
pub open spec fn keeps(l: Seq<char>) -> bool {
    (l.len() > 0 && l[0] == '#') || !has_infix(l, "@"@)
}

/// The lines of `v` that stay, order kept.
pub open spec fn kept_lines(v: Strs) -> Strs
    decreases v.len(),
{
    if v.len() == 0 {
        v
    } else if keeps(v.last()) {
        kept_lines(v.drop_last()).push(v.last())
    } else {
        kept_lines(v.drop_last())
    }
}

/// The new configuration lines: the lines that stay, then one
/// `user.* <address>` line per server.
pub open spec fn set_spec(lines: Strs, addrs: Strs) -> Strs {
    kept_lines(lines) + wrapped(addrs, "user.* "@, ""@)
}

fn keeps_line(l: &String) -> (r: bool)
    ensures
        r == keeps(l@),
{
    let comment = match l.as_str().chars().next() {
        Some(c) => c == '#',
        None => false,
    };
    comment || !crate::lines::contains_text(l.as_str(), "@")
}

/// Whether `s` reads as a socket address (`ip:port`), as std parses it.
pub uninterp spec fn socket_addr_syntax(s: Seq<char>) -> bool;

/// Relies on `FromStr for SocketAddr`, whose verdict depends on the text alone.
#[verifier::external_body]
fn parses_as_socket_addr(s: &str) -> (r: bool)
    ensures
        r == socket_addr_syntax(s@),
{
    s.parse::<core::net::SocketAddr>().is_ok()
}

/// A remote server entry is valid when, without its `@` markers and outer
/// whitespace, it is a socket address.
pub open spec fn remote_ok(a: Seq<char>) -> bool {
    socket_addr_syntax(trimmed(replaced(a, "@"@, ""@)))
}

/// Index of the first entry whose verdict is `false`.
pub open spec fn first_invalid(v: Seq<bool>) -> Option<int> {
    crate::ifconfig::first_rejected(v)
}

/// Rewrites the configuration lines to forward to exactly `addrs`, given the
/// verdict `valid[i]` on each entry `addrs[i]`; the first invalid entry is
/// returned as the error and nothing is rewritten.
pub fn set_checked(lines: &Vec<String>, addrs: &Vec<String>, valid: &Vec<bool>) -> (r: Result<
    Vec<String>,
    String,
>)
    requires
        valid.len() == addrs.len(),
    ensures
        first_invalid(valid@) matches Some(i) ==> r is Err && r->Err_0@ == addrs.deep_view()[i],
        first_invalid(valid@) is None ==> r is Ok && r->Ok_0.deep_view() == set_spec(
            lines.deep_view(),
            addrs.deep_view(),
        ),
{
    match crate::ifconfig::first_false_index(valid) {
        Some(i) => Err(addrs[i].clone()),
        None => Ok(rewrite(lines, addrs)),
    }
}

/// Checks every remote server entry, then rewrites the configuration lines
/// to forward to exactly `addrs`; an invalid entry is returned as the error.
pub fn set(lines: &Vec<String>, addrs: &Vec<String>) -> (r: Result<Vec<String>, String>)
    ensures
        (exists|i: int| 0 <= i < addrs.len() && !remote_ok(#[trigger] addrs.deep_view()[i]))
            <==> r is Err,
        r matches Err(a) ==> !remote_ok(a@) && addrs.deep_view().contains(a@),
        r is Ok ==> r->Ok_0.deep_view() == set_spec(lines.deep_view(), addrs.deep_view()),
{
    let mut valid: Vec<bool> = Vec::new();
    let mut i: usize = 0;
    while i < addrs.len()
        invariant
            i <= addrs.len(),
            valid.len() == i,
            forall|j: int| 0 <= j < i ==> valid@[j] == remote_ok(#[trigger] addrs.deep_view()[j]),
        decreases addrs.len() - i,
    {
        let stripped = replace(addrs[i].as_str(), "@", "");
        let t = trim(stripped.as_str());
        valid.push(parses_as_socket_addr(t.as_str()));
        i = i + 1;
    }
    proof {
        crate::ifconfig::lemma_first_rejected_spec(valid@);
    }
    set_checked(lines, addrs, &valid)
}

pub type Remote = (Seq<char>, Seq<char>, Seq<char>);

/// The remote server that a line names, as (facility, protocol, address):
/// `@@` marks TCP, a single `@` UDP; comments name none.
pub open spec fn remote_of(line: Seq<char>) -> Option<Remote> {
    if line.len() > 0 && line[0] == '#' {
        None
    } else {
        let (sep, proto) = if has_infix(line, "@@"@) {
            ("@@"@, "tcp"@)
        } else {
            ("@"@, "udp"@)
        };
        let parts = pieces(trimmed(line), sep);
        if has_infix(line, "@"@) && parts.len() == 2 && trimmed(parts[1]).len() > 0 {
            Some((trimmed(parts[0]), proto, parts[1]))
        } else {
            None
        }
    }
}

/// The remote servers that the lines name, in order.
pub open spec fn remotes_of(lines: Strs) -> Seq<Remote>
    decreases lines.len(),
{
    if lines.len() == 0 {
        Seq::empty()
    } else {
        match remote_of(lines.last()) {
            Some(x) => remotes_of(lines.drop_last()).push(x),
            None => remotes_of(lines.drop_last()),
        }
    }
}

fn remote_line(line: &String) -> (r: Option<(String, String, String)>)
    ensures
        r.deep_view() == remote_of(line@),
{
    if keeps_comment(line) {
        return None;
    }
    let tcp = contains_text(line.as_str(), "@@");
    let (sep, proto) = if tcp {
        ("@@", "tcp")
    } else {
        ("@", "udp")
    };
    let whole = trim(line.as_str());
    let parts = split(whole.as_str(), sep);
    if contains_text(line.as_str(), "@") && parts.len() == 2 {
        let addr = trim(parts[1].as_str());
        if !addr.as_str().is_empty() {
            return Some((trim(parts[0].as_str()), proto.to_owned(), parts[1].clone()));
        }
    }
    None
}

fn keeps_comment(l: &String) -> (r: bool)
    ensures
        r == (l@.len() > 0 && l@[0] == '#'),
{
    match l.as_str().chars().next() {
        Some(c) => c == '#',
        None => false,
    }
}

/// The remote servers of the configuration lines; `None` when there are none.
pub fn get(lines: &Vec<String>) -> (r: Option<Vec<(String, String, String)>>)
    ensures
        remotes_of(lines.deep_view()).len() == 0 <==> r is None,
        r matches Some(v) ==> v.deep_view() == remotes_of(lines.deep_view()),
{
    let mut out: Vec<(String, String, String)> = Vec::new();
    let mut i: usize = 0;
    assert(lines.deep_view().take(0) =~= Seq::<Seq<char>>::empty());
    while i < lines.len()
        invariant
            i <= lines.len(),
            out.deep_view() == remotes_of(lines.deep_view().take(i as int)),
        decreases lines.len() - i,
    {
        let ghost t = lines.deep_view().take(i as int + 1);
        assert(t.drop_last() =~= lines.deep_view().take(i as int));
        assert(t.last() == lines.deep_view()[i as int]);
        let ghost prev = out.deep_view();
        match remote_line(&lines[i]) {
            Some(x) => {
                out.push(x);
                assert(out.deep_view() =~= prev.push(remote_of(lines.deep_view()[i as int])->0));
            },
            None => {},
        }
        assert(out.deep_view() == remotes_of(t));
        i = i + 1;
    }
    assert(lines.deep_view().take(lines.len() as int) =~= lines.deep_view());
    if out.len() == 0 {
        None
    } else {
        Some(out)
    }
}

/// Rewrites the configuration lines to forward to exactly `addrs`.
fn rewrite(lines: &Vec<String>, addrs: &Vec<String>) -> (r: Vec<String>)
    ensures
        r.deep_view() == set_spec(lines.deep_view(), addrs.deep_view()),
{
    let mut out: Vec<String> = Vec::new();
    let mut i: usize = 0;
    assert(kept_lines(lines.deep_view().take(0)) =~= Seq::<Seq<char>>::empty());
    while i < lines.len()
        invariant
            i <= lines.len(),
            out.deep_view() == kept_lines(lines.deep_view().take(i as int)),
        decreases lines.len() - i,
    {
        let ghost t = lines.deep_view().take(i as int + 1);
        assert(t.drop_last() =~= lines.deep_view().take(i as int));
        assert(t.last() == lines.deep_view()[i as int]);
        if keeps_line(&lines[i]) {
            let x = lines[i].clone();
            let ghost prev = out.deep_view();
            out.push(x);
            assert(out.deep_view() =~= prev.push(lines.deep_view()[i as int]));
        }
        assert(out.deep_view() == kept_lines(t));
        i = i + 1;
    }
    assert(lines.deep_view().take(lines.len() as int) =~= lines.deep_view());
    append_wrapped(&mut out, addrs, "user.* ", "");
    out
}

} // verus!
