//! The product's own systemd services: which ones exist, which ones a status
//! query covers, and which ones stopping all of them stops.

use vstd::prelude::*;

use crate::interface::Strs;

verus! {

/// The services the product installs.
pub open spec fn known_services() -> Strs {
    seq!["zeek"@, "reconverge"@, "review"@, "hog"@, "peek"@, "reproduce"@]
}

/// The services the product installs, in their fixed order.
pub fn services() -> (r: Vec<String>)
    ensures
        r.deep_view() == known_services(),
{
    let mut v: Vec<String> = Vec::new();
    v.push("zeek".to_owned());
    v.push("reconverge".to_owned());
    v.push("review".to_owned());
    v.push("hog".to_owned());
    v.push("peek".to_owned());
    v.push("reproduce".to_owned());
    assert(v.deep_view() =~= known_services());
    v
}

/// The services a status query covers: the one named, or all of them.
pub fn status_targets(svc: &Option<String>) -> (r: Vec<String>)
    ensures
        r.deep_view() == match svc.deep_view() {
            Some(s) => seq![s],
            None => known_services(),
        },
{
    match svc {
        Some(s) => {
            let mut v: Vec<String> = Vec::new();
            v.push(s.clone());
            assert(v.deep_view() =~= seq![s@]);
            v
        },
        None => services(),
    }
}

pub type Answers = Seq<(Seq<char>, Option<Seq<char>>)>;

/// The (service, state) pairs of the services that answered, order kept.
pub open spec fn answered(a: Answers) -> Seq<(Seq<char>, Seq<char>)>
    decreases a.len(),
{
    if a.len() == 0 {
        Seq::empty()
    } else {
        match a.last().1 {
            Some(state) => answered(a.drop_last()).push((a.last().0, state)),
            None => answered(a.drop_last()),
        }
    }
}

/// The status report: each service that answered, with its state.
pub fn status(answers: &Vec<(String, Option<String>)>) -> (r: Vec<(String, String)>)
    ensures
        r.deep_view() == answered(answers.deep_view()),
{
    let mut out: Vec<(String, String)> = Vec::new();
    let mut i: usize = 0;
    assert(answers.deep_view().take(0) =~= Seq::<(Seq<char>, Option<Seq<char>>)>::empty());
    while i < answers.len()
        invariant
            i <= answers.len(),
            out.deep_view() == answered(answers.deep_view().take(i as int)),
        decreases answers.len() - i,
    {
        let ghost t = answers.deep_view().take(i as int + 1);
        assert(t.drop_last() =~= answers.deep_view().take(i as int));
        assert(t.last() == answers.deep_view()[i as int]);
        let (name, state) = &answers[i];
        if let Some(st) = state {
            let ghost prev = out.deep_view();
            out.push((name.clone(), st.clone()));
            assert(out.deep_view() =~= prev.push((name@, st@)));
        }
        i = i + 1;
    }
    assert(answers.deep_view().take(answers.len() as int) =~= answers.deep_view());
    out
}

/// The services that stopping all would stop: those reported `active`, in
/// order.
pub open spec fn active_ones(st: Seq<(Seq<char>, Seq<char>)>) -> Strs
    decreases st.len(),
{
    if st.len() == 0 {
        Seq::empty()
    } else if st.last().1 == "active"@ {
        active_ones(st.drop_last()).push(st.last().0)
    } else {
        active_ones(st.drop_last())
    }
}

/// The services to stop: those reported `active`, in order.
pub fn stop_all(st: &Vec<(String, String)>) -> (r: Vec<String>)
    ensures
        r.deep_view() == active_ones(st.deep_view()),
{
    let active = "active".to_owned();
    let mut out: Vec<String> = Vec::new();
    let mut i: usize = 0;
    assert(st.deep_view().take(0) =~= Seq::<(Seq<char>, Seq<char>)>::empty());
    while i < st.len()
        invariant
            i <= st.len(),
            active@ == "active"@,
            out.deep_view() == active_ones(st.deep_view().take(i as int)),
        decreases st.len() - i,
    {
        let ghost t = st.deep_view().take(i as int + 1);
        assert(t.drop_last() =~= st.deep_view().take(i as int));
        assert(t.last() == st.deep_view()[i as int]);
        let (name, state) = &st[i];
        if *state == active {
            let ghost prev = out.deep_view();
            out.push(name.clone());
            assert(out.deep_view() =~= prev.push(name@));
        }
        i = i + 1;
    }
    assert(st.deep_view().take(st.len() as int) =~= st.deep_view());
    out
}

/// What waiting for a port does after one connection attempt.
#[derive(Debug, Clone, Copy, PartialEq, Eq, Structural)]
pub enum WaitStep {
    /// Stop waiting; the port is up (`true`) or the time ran out (`false`).
    Done(bool),
    /// Sleep a second and try again.
    Retry,
}

/// The decision after one connection attempt, `elapsed` seconds after the
/// first one: an open port ends the wait; otherwise it goes on while less
/// than `timeout` seconds have passed.
pub fn wait_step(connected: bool, elapsed: u64, timeout: u64) -> (r: WaitStep)
    ensures
        connected ==> r == WaitStep::Done(true),
        !connected && elapsed < timeout ==> r == WaitStep::Retry,
        !connected && elapsed >= timeout ==> r == WaitStep::Done(false),
{
    if connected {
        WaitStep::Done(true)
    } else if elapsed < timeout {
        WaitStep::Retry
    } else {
        WaitStep::Done(false)
    }
}

} // verus!
