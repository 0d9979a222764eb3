//! The version identity file: `OS: <version>` and `Product: <version>` lines.

use vstd::prelude::*;

use crate::ifconfig::{has_prefix, starts_with};
use crate::interface::Strs;
use crate::protocol::SubCommand;
use crate::task::ERR_INVALID_COMMAND;
use crate::text::{trim, trimmed};
use vstd::string::StrSliceExecFns;

verus! {

/// The lowercase form of a text, as `str::to_lowercase` computes it.
pub uninterp spec fn lower_of(s: Seq<char>) -> Seq<char>;

/// Relies on `str::to_lowercase`, whose result depends on the text alone.
#[verifier::external_body]
fn lowercase(s: &str) -> (r: String)
    ensures
        r@ == lower_of(s@),
{
    s.to_lowercase()
}

/// The lowercase prefix that marks the line a version kind owns, and the key
/// written on the new line.
pub open spec fn version_key(kind: SubCommand) -> Option<(Seq<char>, Seq<char>)> {
    match kind {
        SubCommand::SetOsVersion => Some(("os:"@, "OS: "@)),
        SubCommand::SetProductVersion => Some(("product:"@, "Product: "@)),
        _ => None,
    }
}

/// The lines of `v` whose lowercase form in `low` does not begin with `p`.
pub open spec fn unmarked(v: Strs, low: Strs, p: Seq<char>) -> Strs
    recommends
        v.len() == low.len(),
    decreases v.len(),
{
    if v.len() == 0 || low.len() == 0 {
        Seq::empty()
    } else if !has_prefix(low.last(), p) {
        unmarked(v.drop_last(), low.drop_last(), p).push(v.last())
    } else {
        unmarked(v.drop_last(), low.drop_last(), p)
    }
}

/// The identity file's lines with the line of `kind` replaced by one holding
/// `value`, given the lowercase form `lowered[i]` of each line `lines[i]`.
pub fn replace_version_line(
    lines: &Vec<String>,
    lowered: &Vec<String>,
    kind: SubCommand,
    value: &String,
) -> (r: Result<Vec<String>, &'static str>)
    requires
        lowered.len() == lines.len(),
    ensures
        version_key(kind) is None ==> r == Err::<Vec<String>, &'static str>(ERR_INVALID_COMMAND),
        version_key(kind) matches Some(k) ==> r is Ok && r->Ok_0.deep_view() == unmarked(
            lines.deep_view(),
            lowered.deep_view(),
            k.0,
        ).push(k.1 + value@),
{
    let (marker, key) = match kind {
        SubCommand::SetOsVersion => ("os:".to_owned(), "OS: "),
        SubCommand::SetProductVersion => ("product:".to_owned(), "Product: "),
        _ => return Err(ERR_INVALID_COMMAND),
    };
    let mut out: Vec<String> = Vec::new();
    let mut i: usize = 0;
    while i < lines.len()
        invariant
            i <= lines.len(),
            lowered.len() == lines.len(),
            out.deep_view() == unmarked(
                lines.deep_view().take(i as int),
                lowered.deep_view().take(i as int),
                marker@,
            ),
        decreases lines.len() - i,
    {
        let ghost t = lines.deep_view().take(i as int + 1);
        let ghost u = lowered.deep_view().take(i as int + 1);
        assert(t.drop_last() =~= lines.deep_view().take(i as int));
        assert(u.drop_last() =~= lowered.deep_view().take(i as int));
        assert(t.last() == lines.deep_view()[i as int]);
        assert(u.last() == lowered.deep_view()[i as int]);
        if !starts_with(&lowered[i], &marker) {
            let x = lines[i].clone();
            let ghost prev = out.deep_view();
            out.push(x);
            assert(out.deep_view() =~= prev.push(lines.deep_view()[i as int]));
        }
        i = i + 1;
    }
    assert(lines.deep_view().take(lines.len() as int) =~= lines.deep_view());
    assert(lowered.deep_view().take(lines.len() as int) =~= lowered.deep_view());
    let ghost prev = out.deep_view();
    out.push(key.to_owned().concat(value.as_str()));
    assert(out.deep_view() =~= prev.push(key@ + value@));
    Ok(out)
}

/// The lowercase forms of the lines.
pub open spec fn lowered_lines(v: Strs) -> Strs {
    Seq::new(v.len(), |i: int| lower_of(v[i]))
}

/// Replaces the line of `kind` (matched case-insensitively) by one holding
/// `value`; any other verb is an invalid command.
pub fn set_version(lines: &Vec<String>, kind: SubCommand, value: &String) -> (r: Result<
    Vec<String>,
    &'static str,
>)
    ensures
        version_key(kind) is None ==> r == Err::<Vec<String>, &'static str>(ERR_INVALID_COMMAND),
        version_key(kind) matches Some(k) ==> r is Ok && r->Ok_0.deep_view() == unmarked(
            lines.deep_view(),
            lowered_lines(lines.deep_view()),
            k.0,
        ).push(k.1 + value@),
{
    let mut lowered: Vec<String> = Vec::new();
    let mut i: usize = 0;
    while i < lines.len()
        invariant
            i <= lines.len(),
            lowered.deep_view() == lowered_lines(lines.deep_view()).take(i as int),
        decreases lines.len() - i,
    {
        let l = lowercase(lines[i].as_str());
        let ghost prev = lowered.deep_view();
        lowered.push(l);
        assert(lowered.deep_view() =~= prev.push(lower_of(lines.deep_view()[i as int])));
        i = i + 1;
        assert(lowered.deep_view() =~= lowered_lines(lines.deep_view()).take(i as int));
    }
    assert(lowered_lines(lines.deep_view()).take(lines.len() as int) =~= lowered_lines(
        lines.deep_view(),
    ));
    replace_version_line(lines, &lowered, kind, value)
}

/// Version reported when the identity file does not name one.
pub const DEFAULT_VERSION_STRING: &'static str = "AICE security";

/// `s` without its last character (the newline a command prints).
pub open spec fn chomped(s: Seq<char>) -> Seq<char> {
    if s.len() > 0 {
        s.drop_last()
    } else {
        s
    }
}

fn chomp(s: &String) -> (r: String)
    ensures
        r@ == chomped(s@),
{
    let n = s.as_str().unicode_len();
    if n == 0 {
        return s.clone();
    }
    s.as_str().substring_char(0, n - 1).to_owned()
}

/// The uptime text: how long the system has run (`uptime -p`), then the boot
/// time (`uptime -s`) in parentheses, each without its final newline.
pub open spec fn uptime_text(pretty: Option<Seq<char>>, since: Option<Seq<char>>) -> Seq<char> {
    let a = match pretty {
        Some(p) => chomped(p),
        None => Seq::empty(),
    };
    match since {
        Some(b) => a + " (boot: "@ + chomped(b) + ")"@,
        None => a,
    }
}

/// Combines the outputs of `uptime -p` and `uptime -s`; `None` when the
/// result is empty.
pub fn uptime(pretty: &Option<String>, since: &Option<String>) -> (r: Option<String>)
    ensures
        uptime_text(pretty.deep_view(), since.deep_view()).len() == 0 <==> r is None,
        r matches Some(t) ==> t@ == uptime_text(pretty.deep_view(), since.deep_view()),
{
    let mut status = String::new();
    if let Some(p) = pretty {
        status.append(chomp(p).as_str());
    }
    if let Some(b) = since {
        status.append(" (boot: ");
        status.append(chomp(b).as_str());
        status.append(")");
    }
    assert(status@ =~= uptime_text(pretty.deep_view(), since.deep_view()));
    if status.as_str().is_empty() {
        None
    } else {
        Some(status)
    }
}

/// `l` begins with the characters of `p`.
pub open spec fn begins(l: Seq<char>, p: Seq<char>) -> bool {
    p.len() <= l.len() && l.subrange(0, p.len() as int) == p
}

/// Whether `l` begins with the characters of `p`.
pub fn begins_with(l: &String, p: &str) -> (r: bool)
    ensures
        r == begins(l@, p@),
{
    let n = l.as_str().unicode_len();
    let m = p.unicode_len();
    if m > n {
        return false;
    }
    let head = l.as_str().substring_char(0, m).to_owned();
    let q = p.to_owned();
    head == q
}

/// The value of the last line of `lines` that begins with `key` (the text
/// after it, trimmed), or `default` if none does.
pub open spec fn value_of(lines: Strs, key: Seq<char>, default: Seq<char>) -> Seq<char>
    decreases lines.len(),
{
    if lines.len() == 0 {
        default
    } else if begins(lines.last(), key) {
        trimmed(lines.last().subrange(key.len() as int, lines.last().len() as int))
    } else {
        value_of(lines.drop_last(), key, default)
    }
}

/// (OS version, product version) as the identity file's `OS:` and
/// `Product:` lines give them.
pub fn version(lines: &Vec<String>) -> (r: (String, String))
    ensures
        r.0@ == value_of(lines.deep_view(), "OS:"@, DEFAULT_VERSION_STRING@),
        r.1@ == value_of(lines.deep_view(), "Product:"@, DEFAULT_VERSION_STRING@),
{
    let mut os = DEFAULT_VERSION_STRING.to_owned();
    let mut product = DEFAULT_VERSION_STRING.to_owned();
    let mut i: usize = 0;
    assert(lines.deep_view().take(0) =~= Seq::<Seq<char>>::empty());
    while i < lines.len()
        invariant
            i <= lines.len(),
            os@ == value_of(lines.deep_view().take(i as int), "OS:"@, DEFAULT_VERSION_STRING@),
            product@ == value_of(
                lines.deep_view().take(i as int),
                "Product:"@,
                DEFAULT_VERSION_STRING@,
            ),
        decreases lines.len() - i,
    {
        let ghost t = lines.deep_view().take(i as int + 1);
        assert(t.drop_last() =~= lines.deep_view().take(i as int));
        assert(t.last() == lines.deep_view()[i as int]);
        let line = &lines[i];
        let n = line.as_str().unicode_len();
        proof {
            reveal_strlit("OS:");
            reveal_strlit("Product:");
        }
        if begins_with(line, "OS:") {
            os = trim(line.as_str().substring_char(3, n));
        } else if begins_with(line, "Product:") {
            product = trim(line.as_str().substring_char(8, n));
        }
        proof {
            if begins(t.last(), "OS:"@) {
                assert(!begins(t.last(), "Product:"@)) by {
                    assert(t.last()[0] == "OS:"@[0]);
                }
            }
            if begins(t.last(), "Product:"@) {
                assert(!begins(t.last(), "OS:"@)) by {
                    assert(t.last()[0] == "Product:"@[0]);
                }
            }
        }
        i = i + 1;
    }
    assert(lines.deep_view().take(lines.len() as int) =~= lines.deep_view());
    (os, product)
}

} // verus!
