//! The sshd listening port, kept as a `Port <n>` line of its configuration.

use vstd::prelude::*;

use crate::hwinfo::begins;
use crate::interface::Strs;
use crate::text::{trim, trimmed};
use vstd::string::StrSliceExecFns;

verus! {

/// The port text of the first `Port ` line, trimmed.
pub open spec fn port_of(lines: Strs) -> Option<Seq<char>>
    decreases lines.len(),
{
    if lines.len() == 0 {
        None
    } else if begins(lines[0], "Port "@) {
        Some(trimmed(lines[0].subrange(5, lines[0].len() as int)))
    } else {
        port_of(lines.drop_first())
    }
}

/// The configured port text, if a `Port ` line sets one.
pub fn port(lines: &Vec<String>) -> (r: Option<String>)
    ensures
        r.deep_view() == port_of(lines.deep_view()),
{
    let mut i: usize = 0;
    proof {
        reveal_strlit("Port ");
    }
    assert(lines.deep_view().skip(0) =~= lines.deep_view());
    while i < lines.len()
        invariant
            i <= lines.len(),
            "Port "@.len() == 5,
            port_of(lines.deep_view()) == port_of(lines.deep_view().skip(i as int)),
        decreases lines.len() - i,
    {
        let ghost rest = lines.deep_view().skip(i as int);
        assert(rest[0] == lines.deep_view()[i as int]);
        assert(rest.drop_first() =~= lines.deep_view().skip(i as int + 1));
        let line = &lines[i];
        if crate::hwinfo::begins_with(line, "Port ") {
            let n = line.as_str().unicode_len();
            return Some(trim(line.as_str().substring_char(5, n)));
        }
        i = i + 1;
    }
    None
}

/// Lines that stay when the port is replaced: all but `Port ` and `#Port `
/// lines.
pub open spec fn kept_lines(v: Strs) -> Strs
    decreases v.len(),
{
    if v.len() == 0 {
        v
    } else if !begins(v.last(), "Port "@) && !begins(v.last(), "#Port "@) {
        kept_lines(v.drop_last()).push(v.last())
    } else {
        kept_lines(v.drop_last())
    }
}

/// The configuration lines with the port set to `port`.
pub fn set(lines: &Vec<String>, port: &String) -> (r: Vec<String>)
    ensures
        r.deep_view() == kept_lines(lines.deep_view()).push("Port "@ + port@),
{
    let mut out: Vec<String> = Vec::new();
    let mut i: usize = 0;
    assert(lines.deep_view().take(0) =~= Seq::<Seq<char>>::empty());
    while i < lines.len()
        invariant
            i <= lines.len(),
            out.deep_view() == kept_lines(lines.deep_view().take(i as int)),
        decreases lines.len() - i,
    {
        let ghost t = lines.deep_view().take(i as int + 1);
        assert(t.drop_last() =~= lines.deep_view().take(i as int));
        assert(t.last() == lines.deep_view()[i as int]);
        let line = &lines[i];
        if !crate::hwinfo::begins_with(line, "Port ") && !crate::hwinfo::begins_with(line, "#Port ") {
            let x = line.clone();
            let ghost prev = out.deep_view();
            out.push(x);
            assert(out.deep_view() =~= prev.push(lines.deep_view()[i as int]));
        }
        i = i + 1;
    }
    assert(lines.deep_view().take(lines.len() as int) =~= lines.deep_view());
    let ghost prev = out.deep_view();
    out.push("Port ".to_owned().concat(port.as_str()));
    assert(out.deep_view() =~= prev.push("Port "@ + port@));
    out
}

} // verus!
