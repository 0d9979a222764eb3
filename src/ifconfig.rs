//! The configuration engine: loading the merged document from its fragments,
//! validating and applying `Set`, `Init` and `Delete`, answering `Get` and
//! `List`, and planning the atomic write-back.

use vstd::prelude::*;

use crate::interface::{
    nic_of_output, output_of_nic, NicOutput, NicOutputModel, Strs,
};
use crate::netplan::{
    contains_str, records_ok, empty_nic, find, merge_doc, merge_ethernets, remove_values, sorted, upsert,
    without, DocModel, Ethernets, Network, NetplanError, NetplanYaml,
};

verus! {

/// File name of the canonical fragment when the directory holds none.
pub const DEFAULT_NETPLAN_YAML: &'static str = "01-netcfg.yaml";

/// Whether `s` is an IPv4 or IPv6 network in CIDR notation, as ipnet reads it.
pub uninterp spec fn ip_network_syntax(s: Seq<char>) -> bool;

/// Whether `s` is a plain IPv4 or IPv6 address, as std reads it.
pub uninterp spec fn ip_address_syntax(s: Seq<char>) -> bool;

/// Relies on ipnet's `FromStr for IpNet`, whose verdict depends on the text
/// alone: an address, `/`, and a prefix length in range.
#[verifier::external_body]
fn parses_as_ip_network(s: &str) -> (r: bool)
    ensures
        r == ip_network_syntax(s@),
{
    s.parse::<ipnet::IpNet>().is_ok()
}

/// Relies on `FromStr for IpAddr`, whose verdict depends on the text alone.
#[verifier::external_body]
fn parses_as_ip_address(s: &str) -> (r: bool)
    ensures
        r == ip_address_syntax(s@),
{
    s.parse::<core::net::IpAddr>().is_ok()
}

/// Checks that `ipnetwork` is an IPv4 or IPv6 network in CIDR notation.
pub fn validate_ipnetworks(ipnetwork: &str) -> (r: Result<(), String>)
    ensures
        r is Ok <==> ip_network_syntax(ipnetwork@),
        r matches Err(m) ==> m@ == "invalid IP network: "@ + ipnetwork@,
{
    if parses_as_ip_network(ipnetwork) {
        Ok(())
    } else {
        Err("invalid IP network: ".to_owned().concat(ipnetwork))
    }
}

/// Checks that `ipaddr` is a plain IPv4 or IPv6 address.
pub fn validate_ipaddress(ipaddr: &str) -> (r: Result<(), String>)
    ensures
        r is Ok <==> ip_address_syntax(ipaddr@),
        r matches Err(m) ==> m@ == "invalid IP address: "@ + ipaddr@,
{
    if parses_as_ip_address(ipaddr) {
        Ok(())
    } else {
        Err("invalid IP address: ".to_owned().concat(ipaddr))
    }
}

/// The document's state after normalising the first fragment: its interface
/// list sorted and its bridge names made distinct, later entries of a name
/// replacing earlier ones.
pub open spec fn normalized(f: DocModel) -> DocModel {
    DocModel {
        ethernets: merge_ethernets(Seq::empty(), f.ethernets),
        bridges: match f.bridges {
            Some(y) => Some(crate::netplan::merge_bridges(Seq::empty(), y)),
            None => None,
        },
        ..f
    }
}

/// All fragments merged in order.
pub open spec fn load_docs(frags: Seq<DocModel>) -> DocModel
    recommends
        frags.len() > 0,
    decreases frags.len(),
{
    if frags.len() <= 1 {
        normalized(frags[0])
    } else {
        merge_doc(load_docs(frags.drop_last()), frags.last())
    }
}

pub open spec fn docs_view(v: Seq<NetplanYaml>) -> Seq<DocModel> {
    Seq::new(v.len(), |i: int| v[i]@)
}

/// Merges the fragments, in the order given (the lexicographic order of
/// their file names), into one document.
pub fn load_netplan_yaml(fragments: Vec<NetplanYaml>) -> (r: Result<NetplanYaml, NetplanError>)
    requires
        forall|i: int| 0 <= i < fragments.len() ==> records_ok(#[trigger] fragments@[i]@.ethernets),
    ensures
        fragments.len() == 0 <==> r is Err,
        r is Err ==> r == Err::<NetplanYaml, NetplanError>(NetplanError::ConfigurationNotFound),
        r matches Ok(d) ==> d.wf() && d@ == load_docs(docs_view(fragments@)),
{
    if fragments.len() == 0 {
        return Err(NetplanError::ConfigurationNotFound);
    }
    let ghost all = docs_view(fragments@);
    let mut rest = fragments;
    let first = rest.remove(0);
    let ghost f0 = first@;
    assert(all[0] == f0);
    let NetplanYaml { network: Network { version, renderer, ethernets, bridges } } = first;
    let mut doc = NetplanYaml::new(version, renderer);
    let body = NetplanYaml {
        network: Network { version: None, renderer: None, ethernets, bridges },
    };
    doc.merge(body);
    assert(doc@ == normalized(f0));
    assert(all.take(1).len() == 1);
    let ghost mut k: int = 1;
    while rest.len() > 0
        invariant
            1 <= k <= all.len(),
            docs_view(rest@) == all.skip(k),
            doc.wf(),
            doc@ == load_docs(all.take(k)),
            forall|i: int| 0 <= i < all.len() ==> records_ok(#[trigger] all[i].ethernets),
        decreases rest.len(),
    {
        let ghost before = rest@;
        let next = rest.remove(0);
        assert(docs_view(rest@) =~= all.skip(k + 1)) by {
            assert(docs_view(before).drop_first() =~= docs_view(rest@));
        }
        assert(all.skip(k)[0] == next@);
        assert(all[k] == next@);
        doc.merge(next);
        proof {
            assert(all.take(k + 1).drop_last() =~= all.take(k));
            k = k + 1;
        }
    }
    assert(all.take(k) =~= all);
    Ok(doc)
}

/// Why a `Set` request was refused.
#[derive(Debug)]
pub enum SetError {
    InvalidAddress(String),
    InvalidGateway(String),
    GatewayConflict,
    InvalidNameserver(String),
    DhcpStaticConflict,
}

pub enum SetFault {
    InvalidAddress(Seq<char>),
    InvalidGateway(Seq<char>),
    GatewayConflict,
    InvalidNameserver(Seq<char>),
    DhcpStaticConflict,
}

impl View for SetError {
    type V = SetFault;

    open spec fn view(&self) -> SetFault {
        match self {
            SetError::InvalidAddress(a) => SetFault::InvalidAddress(a@),
            SetError::InvalidGateway(a) => SetFault::InvalidGateway(a@),
            SetError::GatewayConflict => SetFault::GatewayConflict,
            SetError::InvalidNameserver(a) => SetFault::InvalidNameserver(a@),
            SetError::DhcpStaticConflict => SetFault::DhcpStaticConflict,
        }
    }
}

impl SetError {
    /// A description of the error.
    pub fn message(&self) -> (r: String)
        ensures
            r@ == match self@ {
                SetFault::InvalidAddress(a) => "invalid interface address: "@ + a,
                SetFault::InvalidGateway(a) => "invalid gateway4 address: "@ + a,
                SetFault::GatewayConflict => "only one interface can have gateway."@,
                SetFault::InvalidNameserver(a) => "invalid nameserver address: "@ + a,
                SetFault::DhcpStaticConflict =>
                    "dhcp4 and static address cannot be set in the same interface"@,
            },
    {
        match self {
            SetError::InvalidAddress(a) => "invalid interface address: ".to_owned().concat(a.as_str()),
            SetError::InvalidGateway(a) => "invalid gateway4 address: ".to_owned().concat(a.as_str()),
            SetError::GatewayConflict => "only one interface can have gateway.".to_owned(),
            SetError::InvalidNameserver(a) => "invalid nameserver address: ".to_owned().concat(
                a.as_str(),
            ),
            SetError::DhcpStaticConflict =>
                "dhcp4 and static address cannot be set in the same interface".to_owned(),
        }
    }
}

/// Index of the first `false` verdict.
pub open spec fn first_rejected(v: Seq<bool>) -> Option<int>
    decreases v.len(),
{
    if v.len() == 0 {
        None
    } else if !v[0] {
        Some(0)
    } else {
        match first_rejected(v.drop_first()) {
            Some(i) => Some(i + 1),
            None => None,
        }
    }
}

/// Some interface other than `ifname` declares a gateway.
pub open spec fn other_has_gateway(s: Ethernets, ifname: Seq<char>) -> bool {
    exists|i: int| 0 <= i < s.len() && s[i].0 != ifname && (#[trigger] s[i].1).gateway4 is Some
}

/// The verdict on a `Set` request, given the syntax verdict on each address,
/// on the gateway and on each nameserver. Checks go in this order: addresses,
/// gateway syntax, the single-gateway rule, nameservers, DHCP against static
/// settings.
pub open spec fn set_verdict(
    s: Ethernets,
    ifname: Seq<char>,
    o: NicOutputModel,
    address_ok: Seq<bool>,
    gateway_ok: bool,
    nameserver_ok: Seq<bool>,
) -> Result<(), SetFault> {
    if o.addresses is Some && first_rejected(address_ok) is Some {
        Err(SetFault::InvalidAddress(o.addresses->0[first_rejected(address_ok)->0]))
    } else if o.gateway4 is Some && !gateway_ok {
        Err(SetFault::InvalidGateway(o.gateway4->0))
    } else if o.gateway4 is Some && other_has_gateway(s, ifname) {
        Err(SetFault::GatewayConflict)
    } else if o.nameservers is Some && first_rejected(nameserver_ok) is Some {
        Err(SetFault::InvalidNameserver(o.nameservers->0[first_rejected(nameserver_ok)->0]))
    } else if o.dhcp4 == Some(true) && (o.addresses is Some || o.nameservers is Some) {
        Err(SetFault::DhcpStaticConflict)
    } else {
        Ok(())
    }
}

/// The verdicts that the syntax checks give on each string.
pub open spec fn network_verdicts(v: Option<Strs>) -> Seq<bool> {
    match v {
        Some(a) => Seq::new(a.len(), |i: int| ip_network_syntax(a[i])),
        None => Seq::empty(),
    }
}

pub open spec fn address_verdicts(v: Option<Strs>) -> Seq<bool> {
    match v {
        Some(a) => Seq::new(a.len(), |i: int| ip_address_syntax(a[i])),
        None => Seq::empty(),
    }
}

pub open spec fn gateway_verdict(g: Option<Seq<char>>) -> bool {
    match g {
        Some(x) => ip_address_syntax(x),
        None => true,
    }
}

pub open spec fn fault_of(r: Result<(), SetError>) -> Result<(), SetFault> {
    match r {
        Ok(()) => Ok(()),
        Err(e) => Err(e@),
    }
}

/// Index of the first `false` in `v`.
pub fn first_false_index(v: &Vec<bool>) -> (r: Option<usize>)
    ensures
        r is Some <==> first_rejected(v@) is Some,
        r matches Some(i) ==> first_rejected(v@) == Some(i as int) && i < v.len(),
{
    first_false(v)
}

/// `first_rejected` finds a `false` exactly when there is one, and it is one.
pub proof fn lemma_first_rejected_spec(v: Seq<bool>)
    ensures
        first_rejected(v) is Some <==> exists|i: int| 0 <= i < v.len() && !v[i],
        first_rejected(v) matches Some(i) ==> 0 <= i < v.len() && !v[i],
    decreases v.len(),
{
    if v.len() > 0 {
        lemma_first_rejected_spec(v.drop_first());
        if first_rejected(v) is None {
            assert forall|i: int| 0 <= i < v.len() implies v[i] by {
                if i > 0 {
                    assert(v[i] == v.drop_first()[i - 1]);
                }
            }
        } else if !v[0] {
        } else {
            let k = first_rejected(v.drop_first())->0;
            assert(v.drop_first()[k] == v[k + 1]);
        }
    }
}

fn first_false(v: &Vec<bool>) -> (r: Option<usize>)
    ensures
        r is Some <==> first_rejected(v@) is Some,
        r matches Some(i) ==> first_rejected(v@) == Some(i as int) && i < v.len(),
{
    let mut i: usize = 0;
    while i < v.len()
        invariant
            i <= v.len(),
            forall|j: int| 0 <= j < i ==> v@[j],
        decreases v.len() - i,
    {
        if !v[i] {
            proof {
                lemma_first_rejected_at(v@, i as int);
            }
            return Some(i);
        }
        i = i + 1;
    }
    proof {
        lemma_first_rejected_none(v@);
    }
    None
}

proof fn lemma_first_rejected_at(v: Seq<bool>, i: int)
    requires
        0 <= i < v.len(),
        !v[i],
        forall|j: int| 0 <= j < i ==> v[j],
    ensures
        first_rejected(v) == Some(i),
    decreases i,
{
    if i > 0 {
        assert forall|j: int| 0 <= j < i - 1 implies v.drop_first()[j] by {
            assert(v.drop_first()[j] == v[j + 1]);
        }
        lemma_first_rejected_at(v.drop_first(), i - 1);
    }
}

proof fn lemma_first_rejected_none(v: Seq<bool>)
    requires
        forall|j: int| 0 <= j < v.len() ==> v[j],
    ensures
        first_rejected(v) is None,
    decreases v.len(),
{
    if v.len() > 0 {
        assert forall|j: int| 0 <= j < v.len() - 1 implies v.drop_first()[j] by {
            assert(v.drop_first()[j] == v[j + 1]);
        }
        lemma_first_rejected_none(v.drop_first());
    }
}

/// Whether an interface other than `ifname` declares a gateway.
pub fn other_interface_has_gateway(doc: &NetplanYaml, ifname: &String) -> (r: bool)
    ensures
        r == other_has_gateway(doc@.ethernets, ifname@),
{
    let ghost s = doc@.ethernets;
    let mut i: usize = 0;
    while i < doc.network.ethernets.len()
        invariant
            i <= doc.network.ethernets.len(),
            s == doc@.ethernets,
            forall|j: int| 0 <= j < i ==> !(s[j].0 != ifname@ && (#[trigger] s[j].1).gateway4 is Some),
        decreases doc.network.ethernets.len() - i,
    {
        let (name, nic) = &doc.network.ethernets[i];
        if *name != *ifname && nic.gateway4.is_some() {
            assert(s[i as int].1.gateway4 is Some);
            return true;
        }
        i = i + 1;
    }
    false
}

/// Decides a `Set` request on `ifname` from the syntax verdicts on its
/// strings: `address_ok[i]` on the i-th address, `gateway_ok` on the gateway,
/// `nameserver_ok[i]` on the i-th nameserver.
pub fn check_set(
    doc: &NetplanYaml,
    ifname: &String,
    nic_output: &NicOutput,
    address_ok: &Vec<bool>,
    gateway_ok: bool,
    nameserver_ok: &Vec<bool>,
) -> (r: Result<(), SetError>)
    requires
        nic_output.addresses matches Some(a) ==> address_ok.len() == a.len(),
        nic_output.nameservers matches Some(n) ==> nameserver_ok.len() == n.len(),
    ensures
        fault_of(r) == set_verdict(
            doc@.ethernets,
            ifname@,
            nic_output@,
            address_ok@,
            gateway_ok,
            nameserver_ok@,
        ),
{
    if let Some(addrs) = &nic_output.addresses {
        if let Some(i) = first_false(address_ok) {
            return Err(SetError::InvalidAddress(addrs[i].clone()));
        }
    }
    if let Some(gw) = &nic_output.gateway4 {
        if !gateway_ok {
            return Err(SetError::InvalidGateway(gw.clone()));
        }
        if other_interface_has_gateway(doc, ifname) {
            return Err(SetError::GatewayConflict);
        }
    }
    if let Some(ns) = &nic_output.nameservers {
        if let Some(i) = first_false(nameserver_ok) {
            return Err(SetError::InvalidNameserver(ns[i].clone()));
        }
    }
    if nic_output.dhcp4 == Some(true) && (nic_output.addresses.is_some()
        || nic_output.nameservers.is_some()) {
        return Err(SetError::DhcpStaticConflict);
    }
    Ok(())
}

fn network_checks(v: &Option<Vec<String>>) -> (r: Vec<bool>)
    ensures
        r@ == network_verdicts(v.deep_view()),
{
    let mut r: Vec<bool> = Vec::new();
    if let Some(a) = v {
        let mut i: usize = 0;
        while i < a.len()
            invariant
                i <= a.len(),
                r@ == network_verdicts(Some(a.deep_view())).take(i as int),
            decreases a.len() - i,
        {
            r.push(validate_ipnetworks(a[i].as_str()).is_ok());
            i = i + 1;
            assert(r@ =~= network_verdicts(Some(a.deep_view())).take(i as int));
        }
        assert(r@ =~= network_verdicts(Some(a.deep_view())));
    } else {
        assert(r@ =~= Seq::<bool>::empty());
    }
    r
}

fn address_checks(v: &Option<Vec<String>>) -> (r: Vec<bool>)
    ensures
        r@ == address_verdicts(v.deep_view()),
{
    let mut r: Vec<bool> = Vec::new();
    if let Some(a) = v {
        let mut i: usize = 0;
        while i < a.len()
            invariant
                i <= a.len(),
                r@ == address_verdicts(Some(a.deep_view())).take(i as int),
            decreases a.len() - i,
        {
            r.push(validate_ipaddress(a[i].as_str()).is_ok());
            i = i + 1;
            assert(r@ =~= address_verdicts(Some(a.deep_view())).take(i as int));
        }
        assert(r@ =~= address_verdicts(Some(a.deep_view())));
    } else {
        assert(r@ =~= Seq::<bool>::empty());
    }
    r
}

/// Validates a `Set` request: every address a CIDR network, the gateway an
/// address that no other interface competes with, every nameserver an
/// address, and DHCP not combined with static settings.
pub fn validate_set(doc: &NetplanYaml, ifname: &String, nic_output: &NicOutput) -> (r: Result<
    (),
    SetError,
>)
    ensures
        fault_of(r) == set_verdict(
            doc@.ethernets,
            ifname@,
            nic_output@,
            network_verdicts(nic_output@.addresses),
            gateway_verdict(nic_output@.gateway4),
            address_verdicts(nic_output@.nameservers),
        ),
{
    let address_ok = network_checks(&nic_output.addresses);
    let gateway_ok = match &nic_output.gateway4 {
        Some(g) => validate_ipaddress(g.as_str()).is_ok(),
        None => true,
    };
    let nameserver_ok = address_checks(&nic_output.nameservers);
    check_set(doc, ifname, nic_output, &address_ok, gateway_ok, &nameserver_ok)
}

/// `Set`: validates the request and, if it passes, replaces the record of
/// `ifname` by the one the projection stands for. A refused request leaves
/// the document as it was.
pub fn set(doc: &mut NetplanYaml, ifname: &String, nic_output: &NicOutput) -> (r: Result<
    (),
    SetError,
>)
    requires
        old(doc).wf(),
    ensures
        final(doc).wf(),
        fault_of(r) == set_verdict(
            old(doc)@.ethernets,
            ifname@,
            nic_output@,
            network_verdicts(nic_output@.addresses),
            gateway_verdict(nic_output@.gateway4),
            address_verdicts(nic_output@.nameservers),
        ),
        r is Ok ==> final(doc)@ == (DocModel {
            ethernets: upsert(old(doc)@.ethernets, ifname@, nic_of_output(nic_output@)),
            ..old(doc)@
        }),
        r is Err ==> final(doc)@ == old(doc)@,
{
    validate_set(doc, ifname, nic_output)?;
    let nic = nic_output.to();
    proof {
        lemma_projected_keys_distinct(nic_output@);
    }
    doc.set_interface(ifname, nic);
    Ok(())
}

/// `Init`: resets the record of `ifname`, which must be among the live
/// interfaces `live`.
pub fn init(doc: &mut NetplanYaml, live: &Vec<String>, ifname: &String) -> (r: Result<(), NetplanError>)
    requires
        old(doc).wf(),
    ensures
        final(doc).wf(),
        r is Ok <==> live.deep_view().contains(ifname@),
        r is Ok ==> final(doc)@ == (DocModel {
            ethernets: upsert(old(doc)@.ethernets, ifname@, empty_nic()),
            ..old(doc)@
        }),
        r is Err ==> final(doc)@ == old(doc)@ && r == Err::<(), NetplanError>(
            NetplanError::InterfaceNotFound(*ifname),
        ),
{
    if contains_str(live, ifname) {
        doc.init_interface(ifname);
        Ok(())
    } else {
        Err(NetplanError::InterfaceNotFound(ifname.clone()))
    }
}

pub type Projection = Seq<(Seq<char>, NicOutputModel)>;

pub open spec fn project_all(s: Ethernets) -> Projection {
    Seq::new(s.len(), |i: int| (s[i].0, output_of_nic(s[i].1)))
}

/// `Get`: the projection of one named interface, or of all of them; `None`
/// when the name is not in the document.
pub open spec fn get_spec(s: Ethernets, ifname: Option<Seq<char>>) -> Option<Projection> {
    match ifname {
        Some(name) => match find(s, name) {
            Some(i) => Some(seq![(name, output_of_nic(s[i].1))]),
            None => None,
        },
        None => Some(project_all(s)),
    }
}

pub open spec fn projection_view(v: Seq<(String, NicOutput)>) -> Projection {
    Seq::new(v.len(), |i: int| (v[i].0@, v[i].1@))
}

/// `Get` on the document.
pub fn get(doc: &NetplanYaml, ifname: &Option<String>) -> (r: Option<Vec<(String, NicOutput)>>)
    ensures
        match r {
            Some(v) => get_spec(doc@.ethernets, ifname.deep_view()) == Some(projection_view(v@)),
            None => get_spec(doc@.ethernets, ifname.deep_view()) is None,
        },
{
    let ghost s = doc@.ethernets;
    match ifname {
        Some(name) => match doc.find_interface(name) {
            Some(i) => {
                let mut out: Vec<(String, NicOutput)> = Vec::new();
                let o = NicOutput::from(&doc.network.ethernets[i].1);
                assert(o@ == output_of_nic(s[i as int].1));
                out.push((name.clone(), o));
                assert(projection_view(out@) =~= seq![(name@, output_of_nic(s[i as int].1))]);
                assert(ifname.deep_view() == Some(name@));
                Some(out)
            },
            None => {
                assert(ifname.deep_view() == Some(name@));
                None
            },
        },
        None => {
            let mut out: Vec<(String, NicOutput)> = Vec::new();
            let mut i: usize = 0;
            while i < doc.network.ethernets.len()
                invariant
                    i <= doc.network.ethernets.len(),
                    s == doc@.ethernets,
                    projection_view(out@) == project_all(s).take(i as int),
                decreases doc.network.ethernets.len() - i,
            {
                let (name, nic) = &doc.network.ethernets[i];
                let o = NicOutput::from(nic);
                let ghost prev = projection_view(out@);
                out.push((name.clone(), o));
                assert(projection_view(out@) =~= prev.push(project_all(s)[i as int]));
                i = i + 1;
                assert(projection_view(out@) =~= project_all(s).take(i as int));
            }
            assert(project_all(s).take(i as int) =~= project_all(s));
            Some(out)
        },
    }
}

/// `Delete` on the document: see [`NetplanYaml::delete`].
pub fn delete(doc: &mut NetplanYaml, ifname: &String, nic_output: &NicOutput) -> (r: Result<
    (),
    NetplanError,
>)
    requires
        old(doc).wf(),
    ensures
        final(doc).wf(),
        (r is Ok) == (find(old(doc)@.ethernets, ifname@) is Some),
        r is Ok ==> final(doc)@ == (DocModel {
            ethernets: old(doc)@.ethernets.update(
                find(old(doc)@.ethernets, ifname@)->0,
                (
                    ifname@,
                    crate::netplan::delete_from_nic(
                        old(doc)@.ethernets[find(old(doc)@.ethernets, ifname@)->0].1,
                        nic_output@,
                    ),
                ),
            ),
            ..old(doc)@
        }),
        r is Err ==> final(doc)@ == old(doc)@,
{
    doc.delete(ifname, nic_output)
}

/// `s` begins with `p`, byte for byte.
pub open spec fn has_prefix(s: Seq<char>, p: Seq<char>) -> bool {
    let a = vstd::utf8::encode_utf8(s);
    let b = vstd::utf8::encode_utf8(p);
    b.len() <= a.len() && a.take(b.len() as int) == b
}

/// Whether `s` begins with `p`.
pub fn starts_with(s: &String, p: &String) -> (r: bool)
    ensures
        r == has_prefix(s@, p@),
{
    let a = s.as_str().as_bytes();
    let b = p.as_str().as_bytes();
    if b.len() > a.len() {
        return false;
    }
    let mut i: usize = 0;
    while i < b.len()
        invariant
            a@ == vstd::utf8::encode_utf8(s@),
            b@ == vstd::utf8::encode_utf8(p@),
            b.len() <= a.len(),
            i <= b.len(),
            forall|j: int| 0 <= j < i ==> a@[j] == b@[j],
        decreases b.len() - i,
    {
        if a[i] != b[i] {
            assert(a@.take(b@.len() as int)[i as int] != b@[i as int]);
            return false;
        }
        i = i + 1;
    }
    assert(a@.take(b@.len() as int) =~= b@);
    true
}

/// The names of `names` that begin with `p`, order kept.
pub open spec fn prefixed(names: Strs, p: Seq<char>) -> Strs
    decreases names.len(),
{
    if names.len() == 0 {
        names
    } else if has_prefix(names.last(), p) {
        prefixed(names.drop_last(), p).push(names.last())
    } else {
        prefixed(names.drop_last(), p)
    }
}

/// The names of `names` that begin with `prefix`, if one is given.
pub open spec fn with_prefix(names: Strs, prefix: Option<Seq<char>>) -> Strs {
    match prefix {
        Some(p) => prefixed(names, p),
        None => names,
    }
}

/// `List`: the live interface names, filtered by an optional prefix.
pub fn get_interface_names(live: &Vec<String>, prefix: &Option<String>) -> (r: Vec<String>)
    ensures
        r.deep_view() == with_prefix(live.deep_view(), prefix.deep_view()),
{
    match prefix {
        None => crate::interface::copy_strs(live),
        Some(p) => {
            let mut r: Vec<String> = Vec::new();
            let mut i: usize = 0;
            assert(prefixed(live.deep_view().take(0), p@) =~= Seq::<Seq<char>>::empty());
            while i < live.len()
                invariant
                    i <= live.len(),
                    r.deep_view() == prefixed(live.deep_view().take(i as int), p@),
                decreases live.len() - i,
            {
                let ghost t = live.deep_view().take(i as int + 1);
                assert(t.drop_last() =~= live.deep_view().take(i as int));
                assert(t.last() == live.deep_view()[i as int]);
                let keep = starts_with(&live[i], p);
                if keep {
                    let x = live[i].clone();
                    let ghost prev = r.deep_view();
                    r.push(x);
                    assert(r.deep_view() =~= prev.push(live.deep_view()[i as int]));
                }
                assert(r.deep_view() == prefixed(t, p@));
                i = i + 1;
            }
            assert(live.deep_view().take(live.len() as int) =~= live.deep_view());
            r
        },
    }
}

/// Where the merged document is written: the first fragment's file name
/// (or the default name if the directory holds none) is kept, and every other
/// fragment is removed.
pub open spec fn canonical_name(files: Strs) -> Seq<char> {
    if files.len() > 0 {
        files[0]
    } else {
        DEFAULT_NETPLAN_YAML@
    }
}

/// The file to write the merged document to, and the files to remove after.
pub fn apply_targets(files: &Vec<String>) -> (r: (String, Vec<String>))
    ensures
        r.0@ == canonical_name(files.deep_view()),
        r.1.deep_view() == without(files.deep_view(), seq![canonical_name(files.deep_view())]),
{
    let canonical = if files.len() > 0 {
        files[0].clone()
    } else {
        DEFAULT_NETPLAN_YAML.to_owned()
    };
    let mut keep: Vec<String> = Vec::new();
    keep.push(canonical.clone());
    assert(keep.deep_view() =~= seq![canonical@]);
    let others = remove_values(files, &keep);
    (canonical, others)
}

/// The record a projection stands for has each nameserver key once.
pub proof fn lemma_projected_keys_distinct(o: NicOutputModel)
    ensures
        crate::netplan::nic_keys_distinct(nic_of_output(o)),
{
    reveal_strlit("addresses");
    reveal_strlit("search");
    let e = seq![
        (crate::interface::NAMESERVER_ADDRESSES@, Seq::<Seq<char>>::empty()),
        (crate::interface::NAMESERVER_SEARCH@, Seq::<Seq<char>>::empty()),
    ];
    assert(e[0].0[0] != e[1].0[0]);
}

/// After `Set` on `ifname`, `Get` on `ifname` returns that one interface with
/// the projection that was set.
pub proof fn lemma_get_after_set(s: Ethernets, ifname: Seq<char>, o: NicOutputModel)
    ensures
        get_spec(upsert(s, ifname, nic_of_output(o)), Some(ifname)) == Some(seq![(ifname, o)]),
{
    let u = upsert(s, ifname, nic_of_output(o));
    let p = crate::netplan::lower_bound(s, ifname);
    crate::netplan::lemma_lower_bound_prefix(s, ifname);
    crate::order::lemma_name_lt_irreflexive(ifname);
    assert(u[p] == (ifname, nic_of_output(o)));
    assert forall|j: int| 0 <= j < p implies u[j].0 != ifname by {
        assert(u[j] == s[j]);
    }
    crate::netplan::lemma_find_first(u, ifname, p);
    crate::interface::lemma_output_round_trip(o);
}

/// The merged interface list is sorted whatever the fragments were.
pub proof fn lemma_load_sorted(frags: Seq<DocModel>)
    requires
        frags.len() > 0,
    ensures
        sorted(load_docs(frags).ethernets),
    decreases frags.len(),
{
    if frags.len() <= 1 {
        crate::netplan::lemma_merge_sorted(Seq::empty(), frags[0].ethernets);
    } else {
        lemma_load_sorted(frags.drop_last());
        crate::netplan::lemma_merge_sorted(
            load_docs(frags.drop_last()).ethernets,
            frags.last().ethernets,
        );
    }
}

} // verus!
