//! NTP server settings, kept as `server <name> iburst` lines.

use vstd::prelude::*;

use crate::lines::{append_wrapped, drop_prefixed, unprefixed, wrapped};
use crate::ifconfig::{has_prefix, starts_with};
use crate::interface::Strs;

verus! {

/// The new configuration lines: every line that is not a `server ` line,
/// then one `server <name> iburst` line per server.
pub open spec fn set_spec(lines: Strs, servers: Strs) -> Strs {
    unprefixed(lines, "server "@) + wrapped(servers, "server "@, " iburst"@)
}

/// Rewrites the configuration lines to name exactly `servers`.
pub fn set(lines: &Vec<String>, servers: &Vec<String>) -> (r: Vec<String>)
    ensures
        r.deep_view() == set_spec(lines.deep_view(), servers.deep_view()),
{
    let prefix = "server ".to_owned();
    let mut out = drop_prefixed(lines, &prefix);
    append_wrapped(&mut out, servers, "server ", " iburst");
    out
}

/// The pattern of a server line; group 1 is the server's name.
pub const SERVER_PATTERN: &'static str = r"server\s+([a-z0-9\.]+)\s+iburst";

/// The server name that the server pattern captures in a line, if any.
pub open spec fn server_capture(line: Seq<char>) -> Option<Seq<char>> {
    crate::text::regex_capture(SERVER_PATTERN@, line)
}

/// The servers named by the `server ` lines, in order.
pub open spec fn servers_of(lines: Strs) -> Strs
    decreases lines.len(),
{
    if lines.len() == 0 {
        Seq::empty()
    } else {
        let rest = servers_of(lines.drop_last());
        let l = lines.last();
        if has_prefix(l, "server "@) && server_capture(l) is Some {
            rest.push(server_capture(l)->0)
        } else {
            rest
        }
    }
}

/// The configured servers; `None` when there are none.
pub fn get(lines: &Vec<String>) -> (r: Option<Vec<String>>)
    ensures
        servers_of(lines.deep_view()).len() == 0 <==> r is None,
        r matches Some(v) ==> v.deep_view() == servers_of(lines.deep_view()),
{
    let prefix = "server ".to_owned();
    let mut out: Vec<String> = Vec::new();
    let mut i: usize = 0;
    assert(lines.deep_view().take(0) =~= Seq::<Seq<char>>::empty());
    while i < lines.len()
        invariant
            i <= lines.len(),
            prefix@ == "server "@,
            out.deep_view() == servers_of(lines.deep_view().take(i as int)),
        decreases lines.len() - i,
    {
        let ghost t = lines.deep_view().take(i as int + 1);
        assert(t.drop_last() =~= lines.deep_view().take(i as int));
        assert(t.last() == lines.deep_view()[i as int]);
        let ghost l = lines.deep_view()[i as int];
        let ghost prev = out.deep_view();
        assert(servers_of(t) == if has_prefix(l, "server "@) && server_capture(l) is Some {
            prev.push(server_capture(l)->0)
        } else {
            prev
        });
        if starts_with(&lines[i], &prefix) {
            let captured = crate::text::capture(SERVER_PATTERN, lines[i].as_str());
            if let Some(server) = captured {
                out.push(server);
                assert(out.deep_view() =~= prev.push(server_capture(l)->0));
            }
        }
        assert(out.deep_view() == servers_of(t));
        i = i + 1;
    }
    assert(lines.deep_view().take(lines.len() as int) =~= lines.deep_view());
    if out.len() == 0 {
        None
    } else {
        Some(out)
    }
}

/// Whether `systemctl is-active` printed `active` (with or without the
/// final newline).
pub fn is_active(output: &Option<String>) -> (r: bool)
    ensures
        r == (output.deep_view() == Some("active"@) || output.deep_view() == Some("active\n"@)),
{
    match output {
        Some(o) => {
            let a = "active".to_owned();
            let b = "active\n".to_owned();
            *o == a || *o == b
        },
        None => false,
    }
}

} // verus!
