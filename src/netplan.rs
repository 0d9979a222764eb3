//! The merged network-configuration document and the operations on it.

use vstd::prelude::*;

use crate::interface::{
    copy_opt_str, copy_strs, Nic, NicModel, NicOutput, NicOutputModel, Strs,
};
use crate::order::{
    lemma_name_lt_irreflexive, lemma_name_lt_total, lemma_name_lt_transitive, name_less, name_lt,
};

verus! {

/// Nameserver settings of a bridge.
#[derive(Debug)]
pub struct Address {
    pub search: Option<Vec<String>>,
    pub addresses: Option<Vec<String>>,
}

/// A bridge declaration.
#[derive(Debug)]
pub struct Bridge {
    pub interfaces: Vec<String>,
    pub addresses: Vec<String>,
    pub gateway4: Option<String>,
    pub nameservers: Address,
}

/// The `network` section of a configuration document.
///
/// `ethernets` is kept sorted by name with each name once; `bridges` maps a
/// bridge name to its declaration, one entry per name, in insertion order.
#[derive(Debug)]
pub struct Network {
    pub version: Option<u32>,
    pub renderer: Option<String>,
    pub ethernets: Vec<(String, Nic)>,
    pub bridges: Option<Vec<(String, Bridge)>>,
}

/// A configuration document: one fragment, or all fragments merged.
#[derive(Debug)]
pub struct NetplanYaml {
    pub network: Network,
}

pub type Ethernets = Seq<(Seq<char>, NicModel)>;

pub type Bridges = Seq<(Seq<char>, Bridge)>;

pub struct DocModel {
    pub version: Option<u32>,
    pub renderer: Option<Seq<char>>,
    pub ethernets: Ethernets,
    pub bridges: Option<Bridges>,
}

pub open spec fn ethernets_view(v: Seq<(String, Nic)>) -> Ethernets {
    Seq::new(v.len(), |i: int| (v[i].0@, v[i].1@))
}

pub open spec fn bridges_view(v: Seq<(String, Bridge)>) -> Bridges {
    Seq::new(v.len(), |i: int| (v[i].0@, v[i].1))
}

impl View for NetplanYaml {
    type V = DocModel;

    open spec fn view(&self) -> DocModel {
        DocModel {
            version: self.network.version,
            renderer: self.network.renderer.deep_view(),
            ethernets: ethernets_view(self.network.ethernets@),
            bridges: match self.network.bridges {
                Some(b) => Some(bridges_view(b@)),
                None => None,
            },
        }
    }
}

/// Names strictly increasing, hence each name once.
pub open spec fn sorted(s: Ethernets) -> bool {
    forall|i: int, j: int| 0 <= i < j < s.len() ==> name_lt(s[i].0, s[j].0)
}

/// Number of leading entries whose names come before `name`.
pub open spec fn lower_bound(s: Ethernets, name: Seq<char>) -> int
    decreases s.len(),
{
    if s.len() == 0 {
        0
    } else if name_lt(s[0].0, name) {
        1 + lower_bound(s.drop_first(), name)
    } else {
        0
    }
}

/// Replaces the record of `name`, or inserts it at its place in name order.
pub open spec fn upsert(s: Ethernets, name: Seq<char>, nic: NicModel) -> Ethernets {
    let p = lower_bound(s, name);
    if p < s.len() && s[p].0 == name {
        s.update(p, (name, nic))
    } else {
        s.insert(p, (name, nic))
    }
}

/// Upserts the entries of `new`, in order, into `s`.
pub open spec fn merge_ethernets(s: Ethernets, new: Ethernets) -> Ethernets
    decreases new.len(),
{
    if new.len() == 0 {
        s
    } else {
        let rest = merge_ethernets(s, new.drop_last());
        upsert(rest, new.last().0, new.last().1)
    }
}

/// The record of the first entry named `name`.
pub open spec fn lookup(s: Ethernets, name: Seq<char>) -> Option<NicModel>
    decreases s.len(),
{
    if s.len() == 0 {
        None
    } else if s[0].0 == name {
        Some(s[0].1)
    } else {
        lookup(s.drop_first(), name)
    }
}

/// The record of the last entry named `name`.
pub open spec fn last_lookup(s: Ethernets, name: Seq<char>) -> Option<NicModel>
    decreases s.len(),
{
    if s.len() == 0 {
        None
    } else if s.last().0 == name {
        Some(s.last().1)
    } else {
        last_lookup(s.drop_last(), name)
    }
}

/// Each bridge name once.
pub open spec fn bridge_keys_distinct(s: Bridges) -> bool {
    forall|i: int, j: int| 0 <= i < j < s.len() ==> s[i].0 != s[j].0
}

/// Each nameserver key of a record once.
pub open spec fn nic_keys_distinct(n: NicModel) -> bool {
    match n.nameservers {
        Some(e) => entries_distinct(e),
        None => true,
    }
}

/// Each key of the entries once.
pub open spec fn entries_distinct(e: Seq<(Seq<char>, Strs)>) -> bool {
    forall|i: int, j: int| 0 <= i < j < e.len() ==> e[i].0 != e[j].0
}

/// Every record of the list has each nameserver key once.
pub open spec fn records_ok(s: Ethernets) -> bool {
    forall|i: int| 0 <= i < s.len() ==> nic_keys_distinct(#[trigger] s[i].1)
}

/// A document's invariant: interfaces sorted by name (so each name once),
/// each nameserver key of a record once, and each bridge name once.
pub open spec fn doc_wf(d: DocModel) -> bool {
    sorted(d.ethernets) && records_ok(d.ethernets) && (d.bridges matches Some(b)
        ==> bridge_keys_distinct(b))
}

/// Index of the first bridge named `name`.
pub open spec fn bridge_index(s: Bridges, name: Seq<char>) -> Option<int>
    decreases s.len(),
{
    if s.len() == 0 {
        None
    } else {
        match bridge_index(s.drop_last(), name) {
            Some(i) => Some(i),
            None => if s.last().0 == name {
                Some(s.len() - 1)
            } else {
                None
            },
        }
    }
}

/// Replaces the bridge of the same name, or appends it.
pub open spec fn bridge_upsert(s: Bridges, name: Seq<char>, b: Bridge) -> Bridges {
    match bridge_index(s, name) {
        Some(i) => s.update(i, (name, b)),
        None => s.push((name, b)),
    }
}

pub open spec fn merge_bridges(s: Bridges, new: Bridges) -> Bridges
    decreases new.len(),
{
    if new.len() == 0 {
        s
    } else {
        let rest = merge_bridges(s, new.drop_last());
        bridge_upsert(rest, new.last().0, new.last().1)
    }
}

/// Merging fragment `b` into document `a`: scalars are overwritten where `b`
/// defines them, interfaces are upserted by name in `b`'s order, and `b`'s
/// bridges are upserted by name into `a`'s (an empty map if `a` has none).
pub open spec fn merge_doc(a: DocModel, b: DocModel) -> DocModel {
    DocModel {
        version: if b.version is Some {
            b.version
        } else {
            a.version
        },
        renderer: if b.renderer is Some {
            b.renderer
        } else {
            a.renderer
        },
        ethernets: merge_ethernets(a.ethernets, b.ethernets),
        bridges: match (a.bridges, b.bridges) {
            (Some(x), Some(y)) => Some(merge_bridges(x, y)),
            (None, Some(y)) => Some(merge_bridges(Seq::empty(), y)),
            _ => a.bridges,
        },
    }
}

/// The record with every field absent.
pub open spec fn empty_nic() -> NicModel {
    NicModel { addresses: None, dhcp4: None, gateway4: None, nameservers: None, optional: None }
}

/// Index of the first entry named `name`.
pub open spec fn find(s: Ethernets, name: Seq<char>) -> Option<int>
    decreases s.len(),
{
    if s.len() == 0 {
        None
    } else if s[0].0 == name {
        Some(0)
    } else {
        match find(s.drop_first(), name) {
            Some(i) => Some(i + 1),
            None => None,
        }
    }
}

/// `v` without the values that occur in `del`, order kept.
pub open spec fn without(v: Strs, del: Strs) -> Strs
    decreases v.len(),
{
    if v.len() == 0 {
        v
    } else if del.contains(v.last()) {
        without(v.drop_last(), del)
    } else {
        without(v.drop_last(), del).push(v.last())
    }
}

/// Removes the values of `del` from every nameserver entry.
pub open spec fn entries_without(
    e: Seq<(Seq<char>, Strs)>,
    del: Strs,
) -> Seq<(Seq<char>, Strs)> {
    Seq::new(e.len(), |i: int| (e[i].0, without(e[i].1, del)))
}

/// What deleting the values of `o` does to one record: listed addresses and
/// nameserver values go, and the gateway goes if it is the one given.
pub open spec fn delete_from_nic(n: NicModel, o: NicOutputModel) -> NicModel {
    NicModel {
        addresses: match (n.addresses, o.addresses) {
            (Some(a), Some(d)) => Some(without(a, d)),
            _ => n.addresses,
        },
        gateway4: if o.gateway4 is Some && n.gateway4 == o.gateway4 {
            None
        } else {
            n.gateway4
        },
        nameservers: match (n.nameservers, o.nameservers) {
            (Some(e), Some(d)) => Some(entries_without(e, d)),
            _ => n.nameservers,
        },
        ..n
    }
}

// ---------------------------------------------------------------------------
// Lemmas on the model
// ---------------------------------------------------------------------------

pub proof fn lemma_lower_bound_prefix(s: Ethernets, name: Seq<char>)
    ensures
        0 <= lower_bound(s, name) <= s.len(),
        forall|i: int| 0 <= i < lower_bound(s, name) ==> name_lt(#[trigger] s[i].0, name),
        lower_bound(s, name) < s.len() ==> !name_lt(s[lower_bound(s, name)].0, name),
    decreases s.len(),
{
    if s.len() > 0 {
        lemma_lower_bound_prefix(s.drop_first(), name);
        if name_lt(s[0].0, name) {
            assert forall|i: int| 0 <= i < lower_bound(s, name) implies name_lt(
                #[trigger] s[i].0,
                name,
            ) by {
                if i > 0 {
                    assert(s[i] == s.drop_first()[i - 1]);
                }
            }
        }
    }
}

proof fn lemma_upsert_unfold(s: Ethernets, name: Seq<char>, nic: NicModel)
    requires
        s.len() > 0,
        name_lt(s[0].0, name),
    ensures
        upsert(s, name, nic) == seq![s[0]] + upsert(s.drop_first(), name, nic),
{
    let t = s.drop_first();
    let p = lower_bound(t, name);
    lemma_lower_bound_prefix(t, name);
    assert(s =~= seq![s[0]] + t);
    if p < t.len() && t[p].0 == name {
        assert(s.update(p + 1, (name, nic)) =~= seq![s[0]] + t.update(p, (name, nic)));
    } else {
        assert(s.insert(p + 1, (name, nic)) =~= seq![s[0]] + t.insert(p, (name, nic)));
    }
}

/// After an upsert, `name` has the new record and other names keep theirs.
proof fn lemma_lookup_upsert(s: Ethernets, name: Seq<char>, nic: NicModel, k: Seq<char>)
    ensures
        lookup(upsert(s, name, nic), k) == if k == name {
            Some(nic)
        } else {
            lookup(s, k)
        },
    decreases s.len(),
{
    let u = upsert(s, name, nic);
    if s.len() > 0 && name_lt(s[0].0, name) {
        lemma_upsert_unfold(s, name, nic);
        lemma_lookup_upsert(s.drop_first(), name, nic, k);
        lemma_name_lt_irreflexive(name);
        assert(u.drop_first() =~= upsert(s.drop_first(), name, nic));
    } else if s.len() > 0 && s[0].0 == name {
        assert(u.drop_first() =~= s.drop_first());
    } else {
        assert(u =~= seq![(name, nic)] + s);
        assert(u.drop_first() =~= s);
    }
}

proof fn lemma_sorted_tail(s: Ethernets)
    requires
        sorted(s),
        s.len() > 0,
    ensures
        sorted(s.drop_first()),
{
    assert forall|i: int, j: int| 0 <= i < j < s.drop_first().len() implies name_lt(
        s.drop_first()[i].0,
        s.drop_first()[j].0,
    ) by {
        assert(s.drop_first()[i] == s[i + 1]);
        assert(s.drop_first()[j] == s[j + 1]);
    }
}

proof fn lemma_lower_bound_at(s: Ethernets, i: int)
    requires
        sorted(s),
        0 <= i < s.len(),
    ensures
        lower_bound(s, s[i].0) == i,
    decreases s.len(),
{
    lemma_name_lt_irreflexive(s[i].0);
    if i > 0 {
        lemma_sorted_tail(s);
        assert(s.drop_first()[i - 1] == s[i]);
        lemma_lower_bound_at(s.drop_first(), i - 1);
    }
}

/// An upsert keeps the names sorted.
proof fn lemma_upsert_sorted(s: Ethernets, name: Seq<char>, nic: NicModel)
    requires
        sorted(s),
    ensures
        sorted(upsert(s, name, nic)),
{
    let p = lower_bound(s, name);
    lemma_lower_bound_prefix(s, name);
    let u = upsert(s, name, nic);
    if p < s.len() && s[p].0 == name {
        assert forall|i: int, j: int| 0 <= i < j < u.len() implies name_lt(u[i].0, u[j].0) by {
            assert(u[i].0 == s[i].0);
            assert(u[j].0 == s[j].0);
        }
    } else {
        if p < s.len() {
            lemma_name_lt_total(s[p].0, name);
        }
        assert forall|i: int, j: int| 0 <= i < j < u.len() implies name_lt(u[i].0, u[j].0) by {
            if j < p {
                assert(u[i] == s[i] && u[j] == s[j]);
            } else if j == p {
                assert(u[i] == s[i]);
            } else if i == p {
                assert(u[j] == s[j - 1]);
                if j - 1 > p {
                    lemma_name_lt_transitive(name, s[p].0, s[j - 1].0);
                }
            } else if i < p {
                assert(u[i] == s[i] && u[j] == s[j - 1]);
                if j - 1 >= p {
                    if j - 1 > p {
                        lemma_name_lt_transitive(name, s[p].0, s[j - 1].0);
                    }
                    lemma_name_lt_transitive(s[i].0, name, s[j - 1].0);
                }
            } else {
                assert(u[i] == s[i - 1] && u[j] == s[j - 1]);
            }
        }
    }
}

/// Merging into a sorted interface list keeps it sorted.
pub proof fn lemma_merge_sorted(s: Ethernets, new: Ethernets)
    requires
        sorted(s),
    ensures
        sorted(merge_ethernets(s, new)),
    decreases new.len(),
{
    if new.len() > 0 {
        lemma_merge_sorted(s, new.drop_last());
        lemma_upsert_sorted(merge_ethernets(s, new.drop_last()), new.last().0, new.last().1);
    }
}

proof fn lemma_upsert_present(s: Ethernets, i: int)
    requires
        sorted(s),
        0 <= i < s.len(),
    ensures
        upsert(s, s[i].0, s[i].1) == s,
{
    lemma_lower_bound_at(s, i);
    assert(s.update(i, (s[i].0, s[i].1)) =~= s);
}

proof fn lemma_merge_prefix_of_self(s: Ethernets, k: int)
    requires
        sorted(s),
        0 <= k <= s.len(),
    ensures
        merge_ethernets(s, s.take(k)) == s,
    decreases k,
{
    if k > 0 {
        let t = s.take(k);
        assert(t.drop_last() =~= s.take(k - 1));
        lemma_merge_prefix_of_self(s, k - 1);
        lemma_upsert_present(s, k - 1);
    } else {
        assert(s.take(0).len() == 0);
    }
}

proof fn lemma_without_disjoint(v: Strs, del: Strs)
    requires
        forall|i: int| 0 <= i < v.len() ==> !del.contains(#[trigger] v[i]),
    ensures
        without(v, del) == v,
    decreases v.len(),
{
    if v.len() > 0 {
        lemma_without_disjoint(v.drop_last(), del);
        assert(!del.contains(v[v.len() - 1]));
        assert(v.drop_last().push(v.last()) =~= v);
    }
}

proof fn lemma_bridge_index_is(s: Bridges, name: Seq<char>)
    ensures
        bridge_index(s, name) matches Some(i) ==> 0 <= i < s.len() && s[i].0 == name,
        bridge_index(s, name) is None ==> forall|j: int| 0 <= j < s.len() ==> s[j].0 != name,
    decreases s.len(),
{
    if s.len() > 0 {
        lemma_bridge_index_is(s.drop_last(), name);
        assert forall|j: int| 0 <= j < s.len() - 1 implies s.drop_last()[j] == s[j] by {}
    }
}

/// Upserting bridges keeps each name once.
pub proof fn lemma_merge_bridges_distinct(s: Bridges, new: Bridges)
    requires
        bridge_keys_distinct(s),
    ensures
        bridge_keys_distinct(merge_bridges(s, new)),
    decreases new.len(),
{
    if new.len() > 0 {
        lemma_merge_bridges_distinct(s, new.drop_last());
        let t = merge_bridges(s, new.drop_last());
        let name = new.last().0;
        lemma_bridge_index_is(t, name);
        let u = bridge_upsert(t, name, new.last().1);
        assert forall|i: int, j: int| 0 <= i < j < u.len() implies u[i].0 != u[j].0 by {
            if bridge_index(t, name) is None && j == t.len() {
                assert(u[j].0 == name && u[i] == t[i]);
            } else {
                assert(u[i].0 == t[i].0 && u[j].0 == t[j].0);
            }
        }
    }
}

proof fn lemma_upsert_records_ok(s: Ethernets, name: Seq<char>, nic: NicModel)
    requires
        records_ok(s),
        nic_keys_distinct(nic),
    ensures
        records_ok(upsert(s, name, nic)),
{
    let p = lower_bound(s, name);
    lemma_lower_bound_prefix(s, name);
    let u = upsert(s, name, nic);
    assert forall|i: int| 0 <= i < u.len() implies nic_keys_distinct(#[trigger] u[i].1) by {
        if i == p {
        } else if i < p || (p < s.len() && s[p].0 == name) {
            assert(u[i] == s[i]);
        } else {
            assert(u[i] == s[i - 1]);
        }
    }
}

proof fn lemma_merge_records_ok(s: Ethernets, new: Ethernets)
    requires
        records_ok(s),
        records_ok(new),
    ensures
        records_ok(merge_ethernets(s, new)),
    decreases new.len(),
{
    if new.len() > 0 {
        assert forall|i: int| 0 <= i < new.drop_last().len() implies nic_keys_distinct(
            #[trigger] new.drop_last()[i].1,
        ) by {
            assert(new.drop_last()[i] == new[i]);
        }
        lemma_merge_records_ok(s, new.drop_last());
        assert(nic_keys_distinct(new[new.len() - 1].1));
        lemma_upsert_records_ok(merge_ethernets(s, new.drop_last()), new.last().0, new.last().1);
    }
}

// ---------------------------------------------------------------------------
// Laws
// ---------------------------------------------------------------------------

/// Merging a sorted interface list with itself leaves it unchanged, and so
/// still sorted.
pub proof fn lemma_merge_self_idempotent(s: Ethernets)
    requires
        sorted(s),
    ensures
        merge_ethernets(s, s) == s,
        sorted(merge_ethernets(s, s)),
{
    assert(s.take(s.len() as int) =~= s);
    lemma_merge_prefix_of_self(s, s.len() as int);
}

/// Merging a document with a copy of itself leaves its interface list unchanged.
pub proof fn lemma_merge_doc_self(d: DocModel, e: DocModel)
    requires
        sorted(d.ethernets),
        e.ethernets == d.ethernets,
    ensures
        merge_doc(d, e).ethernets == d.ethernets,
        sorted(merge_doc(d, e).ethernets),
{
    lemma_merge_self_idempotent(d.ethernets);
}

/// After a merge, each name written by the fragment has the last record the
/// fragment wrote for it; every other name keeps its record.
pub proof fn lemma_merge_last_wins(s: Ethernets, new: Ethernets, k: Seq<char>)
    ensures
        lookup(merge_ethernets(s, new), k) == match last_lookup(new, k) {
            Some(n) => Some(n),
            None => lookup(s, k),
        },
    decreases new.len(),
{
    if new.len() > 0 {
        lemma_merge_last_wins(s, new.drop_last(), k);
        lemma_lookup_upsert(merge_ethernets(s, new.drop_last()), new.last().0, new.last().1, k);
    }
}

/// Two fragments merged in order: a name written by both keeps the record of
/// the later one.
pub proof fn lemma_merge_two_fragments_last_wins(
    d: DocModel,
    f1: DocModel,
    f2: DocModel,
    k: Seq<char>,
)
    requires
        last_lookup(f2.ethernets, k) is Some,
    ensures
        lookup(merge_doc(merge_doc(d, f1), f2).ethernets, k) == last_lookup(f2.ethernets, k),
{
    lemma_merge_last_wins(merge_doc(d, f1).ethernets, f2.ethernets, k);
}

/// Deleting addresses that an interface does not have leaves its address list
/// as it was.
pub proof fn lemma_delete_absent_addresses(n: NicModel, o: NicOutputModel)
    requires
        n.addresses is Some,
        o.addresses is Some,
        forall|i: int|
            0 <= i < n.addresses->0.len() ==> !o.addresses->0.contains(
                #[trigger] n.addresses->0[i],
            ),
    ensures
        delete_from_nic(n, o).addresses == n.addresses,
{
    lemma_without_disjoint(n.addresses->0, o.addresses->0);
}

// ---------------------------------------------------------------------------
// Executable operations
// ---------------------------------------------------------------------------

/// Whether `v` holds a string equal to `x`.
pub fn contains_str(v: &Vec<String>, x: &String) -> (r: bool)
    ensures
        r == v.deep_view().contains(x@),
{
    let mut i: usize = 0;
    while i < v.len()
        invariant
            i <= v.len(),
            forall|j: int| 0 <= j < i ==> v.deep_view()[j] != x@,
        decreases v.len() - i,
    {
        if v[i] == *x {
            assert(v.deep_view()[i as int] == x@);
            return true;
        }
        i = i + 1;
    }
    false
}

/// `v` without the values that occur in `del`.
pub fn remove_values(v: &Vec<String>, del: &Vec<String>) -> (r: Vec<String>)
    ensures
        r.deep_view() == without(v.deep_view(), del.deep_view()),
{
    let mut r: Vec<String> = Vec::new();
    let mut i: usize = 0;
    assert(v.deep_view().take(0) =~= Seq::<Seq<char>>::empty());
    assert(r.deep_view() =~= Seq::<Seq<char>>::empty());
    while i < v.len()
        invariant
            i <= v.len(),
            r.deep_view() == without(v.deep_view().take(i as int), del.deep_view()),
        decreases v.len() - i,
    {
        let ghost t = v.deep_view().take(i as int + 1);
        assert(t.drop_last() =~= v.deep_view().take(i as int));
        assert(t.last() == v.deep_view()[i as int]);
        if !contains_str(del, &v[i]) {
            let x = v[i].clone();
            let ghost prev = r.deep_view();
            r.push(x);
            assert(r.deep_view() =~= prev.push(v.deep_view()[i as int]));
        }
        i = i + 1;
    }
    assert(v.deep_view().take(v.len() as int) =~= v.deep_view());
    r
}

impl NetplanYaml {
    /// The document's interface list is sorted by name.
    pub open spec fn wf(&self) -> bool {
        doc_wf(self@)
    }

    /// A document with the given scalars, and no interfaces or bridges.
    pub fn new(version: Option<u32>, renderer: Option<String>) -> (r: Self)
        ensures
            r@.version == version,
            r@.renderer == renderer.deep_view(),
            r@.ethernets == Seq::<(Seq<char>, NicModel)>::empty(),
            r@.bridges is None,
            r.wf(),
    {
        let r = NetplanYaml {
            network: Network { version, renderer, ethernets: Vec::new(), bridges: None },
        };
        assert(r@.ethernets =~= Seq::<(Seq<char>, NicModel)>::empty());
        r
    }

    /// Whether every record has each nameserver key once, as a fragment must
    /// before it is merged.
    pub fn nameserver_keys_distinct(&self) -> (r: bool)
        ensures
            r == records_ok(self@.ethernets),
    {
        let ghost s = self@.ethernets;
        let mut i: usize = 0;
        while i < self.network.ethernets.len()
            invariant
                i <= self.network.ethernets.len(),
                s == self@.ethernets,
                forall|m: int| 0 <= m < i ==> nic_keys_distinct(#[trigger] s[m].1),
            decreases self.network.ethernets.len() - i,
        {
            if !entry_keys_distinct(&self.network.ethernets[i].1.nameservers) {
                assert(!nic_keys_distinct(s[i as int].1));
                assert(!records_ok(s));
                return false;
            }
            i = i + 1;
        }
        true
    }

    /// Position of the first interface whose name does not come before `name`.
    fn position(&self, name: &String) -> (r: usize)
        requires
            self.wf(),
        ensures
            r == lower_bound(self@.ethernets, name@),
            r <= self.network.ethernets.len(),
    {
        let ghost s = self@.ethernets;
        proof {
            lemma_lower_bound_prefix(s, name@);
        }
        let mut i: usize = 0;
        while i < self.network.ethernets.len()
            invariant
                i <= self.network.ethernets.len(),
                s == self@.ethernets,
                i <= lower_bound(s, name@),
                forall|j: int| 0 <= j < lower_bound(s, name@) ==> name_lt(#[trigger] s[j].0, name@),
                lower_bound(s, name@) < s.len() ==> !name_lt(s[lower_bound(s, name@)].0, name@),
                0 <= lower_bound(s, name@) <= s.len(),
            decreases self.network.ethernets.len() - i,
        {
            if !name_less(&self.network.ethernets[i].0, name) {
                assert(!name_lt(s[i as int].0, name@));
                return i;
            }
            assert(name_lt(s[i as int].0, name@));
            i = i + 1;
        }
        i
    }

    /// Replaces the record of `ifname`, or inserts it at its place in name
    /// order.
    pub fn set_interface(&mut self, ifname: &String, new_if: Nic)
        requires
            old(self).wf(),
            nic_keys_distinct(new_if@),
        ensures
            final(self).wf(),
            final(self)@ == (DocModel {
                ethernets: upsert(old(self)@.ethernets, ifname@, new_if@),
                ..old(self)@
            }),
    {
        let ghost s = self@.ethernets;
        let p = self.position(ifname);
        let found = p < self.network.ethernets.len() && self.network.ethernets[p].0 == *ifname;
        if found {
            self.network.ethernets.set(p, (ifname.clone(), new_if));
            assert(ethernets_view(self.network.ethernets@) =~= s.update(p as int, (ifname@, new_if@)));
        } else {
            self.network.ethernets.insert(p, (ifname.clone(), new_if));
            assert(ethernets_view(self.network.ethernets@) =~= s.insert(p as int, (ifname@, new_if@)));
        }
        proof {
            lemma_upsert_sorted(s, ifname@, new_if@);
            lemma_upsert_records_ok(s, ifname@, new_if@);
        }
    }

    /// Resets the record of `ifname` to one with every field absent.
    pub fn init_interface(&mut self, ifname: &String)
        requires
            old(self).wf(),
        ensures
            final(self).wf(),
            final(self)@ == (DocModel {
                ethernets: upsert(old(self)@.ethernets, ifname@, empty_nic()),
                ..old(self)@
            }),
    {
        let new_if = Nic::empty();
        self.set_interface(ifname, new_if);
    }

    /// Merges fragment `newyml` into this document.
    pub fn merge(&mut self, newyml: Self)
        requires
            old(self).wf(),
            records_ok(newyml@.ethernets),
        ensures
            final(self).wf(),
            final(self)@ == merge_doc(old(self)@, newyml@),
    {
        let ghost a = self@;
        let ghost b = newyml@;
        let NetplanYaml { network: Network { version, renderer, ethernets, bridges } } = newyml;
        if version.is_some() {
            self.network.version = version;
        }
        if renderer.is_some() {
            self.network.renderer = renderer;
        }
        let mut rest = ethernets;
        let ghost all = ethernets_view(rest@);
        assert(all =~= b.ethernets);
        let ghost mut k: int = 0;
        assert(all.take(0).len() == 0);
        while rest.len() > 0
            invariant
                self.wf(),
                0 <= k <= all.len(),
                ethernets_view(rest@) == all.skip(k),
                self@.ethernets == merge_ethernets(a.ethernets, all.take(k)),
                self@.version == merge_doc(a, b).version,
                self@.renderer == merge_doc(a, b).renderer,
                self@.bridges == a.bridges,
                all == b.ethernets,
                records_ok(all),
            decreases rest.len(),
        {
            let ghost before = rest@;
            let (name, nic) = rest.remove(0);
            assert(ethernets_view(rest@) =~= all.skip(k + 1)) by {
                assert(ethernets_view(before).drop_first() =~= ethernets_view(rest@));
            }
            assert(all.skip(k)[0] == (name@, nic@));
            assert(all[k] == all.skip(k)[0]);
            assert(nic_keys_distinct(all[k].1));
            self.set_interface(&name, nic);
            proof {
                assert(all.take(k + 1).drop_last() =~= all.take(k));
                k = k + 1;
            }
        }
        assert(all.take(k) =~= all);
        assert(all =~= b.ethernets);
        proof {
            lemma_merge_sorted(a.ethernets, b.ethernets);
        }
        if let Some(new_bridges) = bridges {
            if self.network.bridges.is_none() {
                self.network.bridges = Some(Vec::new());
                assert(bridges_view(self.network.bridges->0@) =~= Seq::<(Seq<char>, Bridge)>::empty());
            }
            let ghost start = bridges_view(self.network.bridges->0@);
            if let Some(self_bridges) = &mut self.network.bridges {
                merge_bridge_list(self_bridges, new_bridges);
            }
            proof {
                lemma_merge_bridges_distinct(start, bridges_view(new_bridges@));
            }
        }
    }

    /// Index of the interface named `ifname`, if any.
    pub fn find_interface(&self, ifname: &String) -> (r: Option<usize>)
        ensures
            r is Some <==> find(self@.ethernets, ifname@) is Some,
            r matches Some(i) ==> find(self@.ethernets, ifname@) == Some(i as int) && i
                < self.network.ethernets.len(),
    {
        let ghost s = self@.ethernets;
        let mut i: usize = 0;
        while i < self.network.ethernets.len()
            invariant
                i <= self.network.ethernets.len(),
                s == self@.ethernets,
                forall|j: int| 0 <= j < i ==> s[j].0 != ifname@,
            decreases self.network.ethernets.len() - i,
        {
            if self.network.ethernets[i].0 == *ifname {
                proof {
                    lemma_find_first(s, ifname@, i as int);
                }
                return Some(i);
            }
            i = i + 1;
        }
        proof {
            lemma_find_none(s, ifname@);
        }
        None
    }

    /// Removes from the record of `ifname` the addresses and nameserver
    /// values listed in `nic_output`, and its gateway if it is the one given.
    pub fn delete(&mut self, ifname: &String, nic_output: &NicOutput) -> (r: Result<(), NetplanError>)
        requires
            old(self).wf(),
        ensures
            final(self).wf(),
            match find(old(self)@.ethernets, ifname@) {
                Some(i) => r is Ok && final(self)@ == (DocModel {
                    ethernets: old(self)@.ethernets.update(
                        i,
                        (ifname@, delete_from_nic(old(self)@.ethernets[i].1, nic_output@)),
                    ),
                    ..old(self)@
                }),
                None => r == Err::<(), NetplanError>(NetplanError::InterfaceNotFound(*ifname))
                    && final(self)@ == old(self)@,
            },
    {
        let ghost s = self@.ethernets;
        match self.find_interface(ifname) {
            None => Err(NetplanError::InterfaceNotFound(ifname.clone())),
            Some(i) => {
                proof {
                    lemma_find_name(s, ifname@);
                }
                let (name, ifs) = self.network.ethernets.remove(i);
                let nic = delete_values(ifs, nic_output);
                self.network.ethernets.insert(i, (name, nic));
                assert(ethernets_view(self.network.ethernets@) =~= s.update(
                    i as int,
                    (ifname@, delete_from_nic(s[i as int].1, nic_output@)),
                ));
                assert forall|a: int, b: int| 0 <= a < b < self@.ethernets.len() implies name_lt(
                    self@.ethernets[a].0,
                    self@.ethernets[b].0,
                ) by {
                    assert(self@.ethernets[a].0 == s[a].0);
                    assert(self@.ethernets[b].0 == s[b].0);
                }
                Ok(())
            },
        }
    }
}

/// Errors of the document operations.
#[derive(Debug)]
pub enum NetplanError {
    /// No interface of that name in the document.
    InterfaceNotFound(String),
    /// No configuration fragment to load.
    ConfigurationNotFound,
}

impl NetplanError {
    /// A description of the error.
    pub fn message(&self) -> (r: String)
        ensures
            r@ == self.message_spec(),
    {
        match self {
            NetplanError::InterfaceNotFound(name) => {
                let s = "Interface ".to_owned();
                let s = s.concat(name.as_str());
                s.concat(" not found")
            },
            NetplanError::ConfigurationNotFound => "Netplan configuration not found!".to_owned(),
        }
    }

    pub open spec fn message_spec(&self) -> Seq<char> {
        match self {
            NetplanError::InterfaceNotFound(name) => "Interface "@ + name@ + " not found"@,
            NetplanError::ConfigurationNotFound => "Netplan configuration not found!"@,
        }
    }
}

pub proof fn lemma_find_first(s: Ethernets, name: Seq<char>, i: int)
    requires
        0 <= i < s.len(),
        s[i].0 == name,
        forall|j: int| 0 <= j < i ==> s[j].0 != name,
    ensures
        find(s, name) == Some(i),
    decreases i,
{
    if i > 0 {
        assert forall|j: int| 0 <= j < i - 1 implies s.drop_first()[j].0 != name by {
            assert(s.drop_first()[j] == s[j + 1]);
        }
        lemma_find_first(s.drop_first(), name, i - 1);
    }
}

proof fn lemma_find_none(s: Ethernets, name: Seq<char>)
    requires
        forall|j: int| 0 <= j < s.len() ==> s[j].0 != name,
    ensures
        find(s, name) is None,
    decreases s.len(),
{
    if s.len() > 0 {
        assert forall|j: int| 0 <= j < s.drop_first().len() implies s.drop_first()[j].0 != name by {
            assert(s.drop_first()[j] == s[j + 1]);
        }
        lemma_find_none(s.drop_first(), name);
    }
}

proof fn lemma_find_name(s: Ethernets, name: Seq<char>)
    ensures
        find(s, name) matches Some(i) ==> 0 <= i < s.len() && s[i].0 == name,
    decreases s.len(),
{
    if s.len() > 0 && s[0].0 != name {
        lemma_find_name(s.drop_first(), name);
        if let Some(i) = find(s.drop_first(), name) {
            assert(s.drop_first()[i] == s[i + 1]);
        }
    }
}

fn entry_keys_distinct(ns: &Option<Vec<(String, Vec<String>)>>) -> (r: bool)
    ensures
        r == match ns.deep_view() {
            Some(e) => entries_distinct(e),
            None => true,
        },
{
    let e = match ns {
        Some(e) => e,
        None => return true,
    };
    let ghost v = e.deep_view();
    assert(ns.deep_view() == Some(v));
    let mut j: usize = 0;
    while j < e.len()
        invariant
            j <= e.len(),
            v == e.deep_view(),
            ns.deep_view() == Some(v),
            forall|a: int, b: int| 0 <= a < b < j ==> v[a].0 != v[b].0,
        decreases e.len() - j,
    {
        let mut i: usize = 0;
        while i < j
            invariant
                i <= j < e.len(),
                v == e.deep_view(),
                ns.deep_view() == Some(v),
                forall|a: int| 0 <= a < i ==> v[a].0 != v[j as int].0,
            decreases j - i,
        {
            if e[i].0 == e[j].0 {
                assert(v[i as int].0 == v[j as int].0);
                assert(!entries_distinct(v));
                return false;
            }
            i = i + 1;
        }
        j = j + 1;
    }
    true
}

/// Applies a deletion request to one record.
fn delete_values(ifs: Nic, o: &NicOutput) -> (r: Nic)
    ensures
        r@ == delete_from_nic(ifs@, o@),
{
    let Nic { addresses, dhcp4, gateway4, nameservers, optional } = ifs;
    let addresses = match (addresses, &o.addresses) {
        (Some(a), Some(d)) => Some(remove_values(&a, d)),
        (a, _) => a,
    };
    let gateway4 = if o.gateway4.is_some() && eq_opt_str(&gateway4, &o.gateway4) {
        None
    } else {
        gateway4
    };
    let nameservers = match (nameservers, &o.nameservers) {
        (Some(e), Some(d)) => {
            let mut out: Vec<(String, Vec<String>)> = Vec::new();
            let mut i: usize = 0;
            while i < e.len()
                invariant
                    i <= e.len(),
                    out.deep_view() == entries_without(e.deep_view(), d.deep_view()).take(i as int),
                decreases e.len() - i,
            {
                let key = e[i].0.clone();
                let vals = remove_values(&e[i].1, d);
                let ghost prev = out.deep_view();
                assert((key, vals).deep_view() == entries_without(e.deep_view(), d.deep_view())[i as int]);
                out.push((key, vals));
                assert(out.deep_view() =~= prev.push(entries_without(e.deep_view(), d.deep_view())[i as int]));
                assert(out.deep_view() =~= entries_without(e.deep_view(), d.deep_view()).take(
                    i as int + 1,
                ));
                i = i + 1;
            }
            assert(entries_without(e.deep_view(), d.deep_view()).take(e.len() as int)
                =~= entries_without(e.deep_view(), d.deep_view()));
            Some(out)
        },
        (n, _) => n,
    };
    Nic { addresses, dhcp4, gateway4, nameservers, optional }
}

/// Whether two optional strings are equal.
pub fn eq_opt_str(a: &Option<String>, b: &Option<String>) -> (r: bool)
    ensures
        r == (a.deep_view() == b.deep_view()),
{
    match (a, b) {
        (Some(x), Some(y)) => *x == *y,
        (None, None) => true,
        _ => false,
    }
}

/// Upserts each bridge of `new` into `list`, in order.
fn merge_bridge_list(list: &mut Vec<(String, Bridge)>, new: Vec<(String, Bridge)>)
    ensures
        bridges_view(final(list)@) == merge_bridges(bridges_view(old(list)@), bridges_view(new@)),
{
    let ghost start = bridges_view(list@);
    let ghost all = bridges_view(new@);
    let mut rest = new;
    let ghost mut k: int = 0;
    while rest.len() > 0
        invariant
            0 <= k <= all.len(),
            bridges_view(rest@) == all.skip(k),
            bridges_view(list@) == merge_bridges(start, all.take(k)),
        decreases rest.len(),
    {
        let ghost before = rest@;
        let (name, bridge) = rest.remove(0);
        assert(bridges_view(rest@) =~= all.skip(k + 1)) by {
            assert(bridges_view(before).drop_first() =~= bridges_view(rest@));
        }
        assert(all.skip(k)[0] == (name@, bridge));
        let ghost cur = bridges_view(list@);
        let mut i: usize = 0;
        while i < list.len() && list[i].0 != name
            invariant
                i <= list.len(),
                cur == bridges_view(list@),
                forall|j: int| 0 <= j < i ==> cur[j].0 != name@,
            decreases list.len() - i,
        {
            i = i + 1;
        }
        proof {
            lemma_bridge_index(cur, name@, i as int);
        }
        let ghost nm = name@;
        let ghost br = bridge;
        if i < list.len() && list[i].0 == name {
            list.set(i, (name, bridge));
            assert(bridges_view(list@) =~= cur.update(i as int, (nm, br)));
        } else {
            list.push((name, bridge));
            assert(bridges_view(list@) =~= cur.push((nm, br)));
        }
        assert(bridges_view(list@) == bridge_upsert(cur, nm, br));
        proof {
            assert(all.take(k + 1).drop_last() =~= all.take(k));
            assert(all.take(k + 1).last() == (nm, br));
            k = k + 1;
        }
        assert(bridges_view(list@) =~= merge_bridges(start, all.take(k)));
    }
    assert(all.take(k) =~= all);
}

proof fn lemma_bridge_index(s: Bridges, name: Seq<char>, i: int)
    requires
        0 <= i <= s.len(),
        forall|j: int| 0 <= j < i ==> s[j].0 != name,
    ensures
        i < s.len() && s[i].0 == name ==> bridge_index(s, name) == Some(i),
        i == s.len() ==> bridge_index(s, name) is None,
    decreases s.len(),
{
    if s.len() > 0 {
        if i < s.len() - 1 {
            lemma_bridge_index(s.drop_last(), name, i);
        } else if i == s.len() - 1 {
            lemma_bridge_index(s.drop_last(), name, i);
        } else {
            lemma_bridge_index(s.drop_last(), name, i - 1);
        }
    }
}

} // verus!
