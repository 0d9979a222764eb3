//! Firewall state and rules as `ufw status` reports them.

use vstd::prelude::*;

use crate::lines::{contains_text, has_infix};
use crate::text::{
    capture, lines, lines_of, pieces, regex_capture, regex_replaced, replace, replace_all,
    replaced, split, trim, trimmed,
};

verus! {

/// An `ALLOW`/`DENY` action with its direction.
pub const ACTION_PATTERN: &'static str = r"(?P<a>ALLOW|DENY)\s(?P<d>IN|OUT)";

/// An interface qualifier, `on <name>`.
pub const DEVICE_PATTERN: &'static str = r"(on\s[a-z0-9]+)";

/// A protocol suffix, `/<proto>`.
pub const PROTOCOL_PATTERN: &'static str = r"(/[a-z]+)";

/// One firewall rule: (action, from, to, protocol, interface).
pub type Rule = (Seq<char>, Seq<char>, Seq<char>, Option<Seq<char>>, Option<Seq<char>>);

/// The rule that one line of the status table describes. `Anywhere` is
/// shortened to `Any`; the protocol suffix and the interface qualifier are
/// taken out of the line, and the action splits what is left into the
/// destination before it and the source after it.
pub open spec fn rule_of(line: Seq<char>) -> Option<Rule> {
    let a0 = replaced(line, "Anywhere"@, "Any"@);
    let p = regex_capture(PROTOCOL_PATTERN@, a0);
    let a1 = match p {
        Some(x) => replaced(a0, x, ""@),
        None => a0,
    };
    let d = regex_capture(DEVICE_PATTERN@, a1);
    let a2 = match d {
        Some(x) => replaced(a1, x, ""@),
        None => a1,
    };
    let proto = match p {
        Some(x) => Some(replaced(x, "/"@, ""@)),
        None => None,
    };
    let dev = match d {
        Some(x) => Some(replaced(x, "on "@, ""@)),
        None => None,
    };
    let parts = pieces(regex_replaced(ACTION_PATTERN@, a2, ",$a $d,"@), ","@);
    if parts.len() >= 3 {
        Some((trimmed(parts[1]), trimmed(parts[2]), trimmed(parts[0]), proto, dev))
    } else {
        None
    }
}

/// The rules of the status table's lines, in order.
pub open spec fn rules_of(ls: Seq<Seq<char>>) -> Seq<Rule>
    decreases ls.len(),
{
    if ls.len() == 0 {
        Seq::empty()
    } else {
        match rule_of(ls.last()) {
            Some(x) => rules_of(ls.drop_last()).push(x),
            None => rules_of(ls.drop_last()),
        }
    }
}

fn rule_line(line: &String) -> (r: Option<(String, String, String, Option<String>, Option<String>)>)
    ensures
        r.deep_view() == rule_of(line@),
{
    let mut after = replace(line.as_str(), "Anywhere", "Any");
    let proto = match capture(PROTOCOL_PATTERN, after.as_str()) {
        Some(p) => {
            after = replace(after.as_str(), p.as_str(), "");
            Some(replace(p.as_str(), "/", ""))
        },
        None => None,
    };
    let dev = match capture(DEVICE_PATTERN, after.as_str()) {
        Some(d) => {
            after = replace(after.as_str(), d.as_str(), "");
            Some(replace(d.as_str(), "on ", ""))
        },
        None => None,
    };
    let marked = replace_all(ACTION_PATTERN, after.as_str(), ",$a $d,");
    let parts = split(marked.as_str(), ",");
    if parts.len() >= 3 {
        Some(
            (
                trim(parts[1].as_str()),
                trim(parts[2].as_str()),
                trim(parts[0].as_str()),
                proto,
                dev,
            ),
        )
    } else {
        None
    }
}

/// The rules in the output of `ufw status`; `None` when the command gave no
/// output or the output lists no rule.
pub fn get(output: &Option<String>) -> (r: Option<
    Vec<(String, String, String, Option<String>, Option<String>)>,
>)
    ensures
        match output {
            Some(o) => match r {
                Some(v) => rules_of(lines_of(o@)).len() > 0 && v.deep_view() == rules_of(
                    lines_of(o@),
                ),
                None => rules_of(lines_of(o@)).len() == 0,
            },
            None => r is None,
        },
{
    let o = match output {
        Some(o) => o,
        None => return None,
    };
    let ls = lines(o.as_str());
    let mut out: Vec<(String, String, String, Option<String>, Option<String>)> = Vec::new();
    let mut i: usize = 0;
    assert(ls.deep_view().take(0) =~= Seq::<Seq<char>>::empty());
    while i < ls.len()
        invariant
            i <= ls.len(),
            out.deep_view() == rules_of(ls.deep_view().take(i as int)),
        decreases ls.len() - i,
    {
        let ghost t = ls.deep_view().take(i as int + 1);
        assert(t.drop_last() =~= ls.deep_view().take(i as int));
        assert(t.last() == ls.deep_view()[i as int]);
        let ghost prev = out.deep_view();
        match rule_line(&ls[i]) {
            Some(x) => {
                out.push(x);
                assert(out.deep_view() =~= prev.push(rule_of(ls.deep_view()[i as int])->0));
            },
            None => {},
        }
        assert(out.deep_view() == rules_of(t));
        i = i + 1;
    }
    assert(ls.deep_view().take(ls.len() as int) =~= ls.deep_view());
    if out.len() == 0 {
        None
    } else {
        Some(out)
    }
}

/// Whether the output of `ufw status` reports the firewall active.
pub fn is_active(output: &Option<String>) -> (r: bool)
    ensures
        r == match output {
            Some(o) => has_infix(o@, "Status: active"@),
            None => false,
        },
{
    match output {
        Some(o) => contains_text(o.as_str(), "Status: active"),
        None => false,
    }
}

} // verus!
