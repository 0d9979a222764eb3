//! One interface's declared configuration, and the simplified projection that
//! callers see.

use vstd::prelude::*;

verus! {

/// Key of the nameserver entry that holds server addresses.
pub const NAMESERVER_ADDRESSES: &'static str = "addresses";

/// Key of the nameserver entry that holds search domains.
pub const NAMESERVER_SEARCH: &'static str = "search";

/// An interface's declared configuration.
///
/// `nameservers` maps keys such as `"addresses"` and `"search"` to lists of
/// values; it is kept as a list of entries with distinct keys.
#[derive(Debug)]
pub struct Nic {
    pub addresses: Option<Vec<String>>,
    pub dhcp4: Option<bool>,
    pub gateway4: Option<String>,
    pub nameservers: Option<Vec<(String, Vec<String>)>>,
    pub optional: Option<bool>,
}

/// The caller-facing projection of a [`Nic`]: nameservers flattened to a plain
/// list, no boot-optional flag.
#[derive(Debug)]
pub struct NicOutput {
    pub addresses: Option<Vec<String>>,
    pub dhcp4: Option<bool>,
    pub gateway4: Option<String>,
    pub nameservers: Option<Vec<String>>,
}

pub type Strs = Seq<Seq<char>>;

pub type NameserverEntries = Seq<(Seq<char>, Seq<Seq<char>>)>;

pub struct NicModel {
    pub addresses: Option<Strs>,
    pub dhcp4: Option<bool>,
    pub gateway4: Option<Seq<char>>,
    pub nameservers: Option<NameserverEntries>,
    pub optional: Option<bool>,
}

pub struct NicOutputModel {
    pub addresses: Option<Strs>,
    pub dhcp4: Option<bool>,
    pub gateway4: Option<Seq<char>>,
    pub nameservers: Option<Strs>,
}

impl View for Nic {
    type V = NicModel;

    open spec fn view(&self) -> NicModel {
        NicModel {
            addresses: self.addresses.deep_view(),
            dhcp4: self.dhcp4,
            gateway4: self.gateway4.deep_view(),
            nameservers: self.nameservers.deep_view(),
            optional: self.optional,
        }
    }
}

impl View for NicOutput {
    type V = NicOutputModel;

    open spec fn view(&self) -> NicOutputModel {
        NicOutputModel {
            addresses: self.addresses.deep_view(),
            dhcp4: self.dhcp4,
            gateway4: self.gateway4.deep_view(),
            nameservers: self.nameservers.deep_view(),
        }
    }
}

/// The `Debug` text of a list of strings: quoted, escaped, comma-separated,
/// in brackets.
pub uninterp spec fn debug_text_list(v: Seq<Seq<char>>) -> Seq<char>;

/// Relies on std's `Debug` for `Vec<String>`.
#[verifier::external_body]
fn debug_list(v: &Vec<String>) -> (r: String)
    ensures
        r@ == debug_text_list(v.deep_view()),
{
    format!("{v:?}")
}

/// One line of the rendering: `\t<label>: <value>`, `-` for an absent value.
pub open spec fn field_line(label: Seq<char>, value: Option<Seq<char>>) -> Seq<char> {
    "\t"@ + label + ": "@ + match value {
        Some(v) => v,
        None => "-"@,
    }
}

fn field_line_text(label: &str, value: Option<String>) -> (r: String)
    ensures
        r@ == field_line(label@, value.deep_view()),
{
    let mut out = "\t".to_owned();
    out.append(label);
    out.append(": ");
    match &value {
        Some(v) => out.append(v.as_str()),
        None => out.append("-"),
    }
    out
}

pub open spec fn bool_text(b: bool) -> Seq<char> {
    if b {
        "true"@
    } else {
        "false"@
    }
}

/// The rendering of a projection: one line per field.
pub open spec fn render_output(o: NicOutputModel) -> Seq<char> {
    render_with(
        match o.addresses {
            Some(v) => Some(debug_text_list(v)),
            None => None,
        },
        o.dhcp4,
        o.gateway4,
        match o.nameservers {
            Some(v) => Some(debug_text_list(v)),
            None => None,
        },
    )
}

/// Index of the first entry with key `key`, if any.
pub open spec fn entry_index(entries: NameserverEntries, key: Seq<char>) -> Option<int>
    decreases entries.len(),
{
    if entries.len() == 0 {
        None
    } else if entries.last().0 == key {
        match entry_index(entries.drop_last(), key) {
            Some(i) => Some(i),
            None => Some(entries.len() - 1),
        }
    } else {
        entry_index(entries.drop_last(), key)
    }
}

/// The values stored under `key`, if the key is present.
pub open spec fn entry_lookup(entries: NameserverEntries, key: Seq<char>) -> Option<Strs> {
    match entry_index(entries, key) {
        Some(i) => Some(entries[i].1),
        None => None,
    }
}

/// The record that a projection stands for: nameserver addresses go under
/// `"addresses"`, with an empty `"search"` list beside them.
pub open spec fn nic_of_output(o: NicOutputModel) -> NicModel {
    NicModel {
        addresses: o.addresses,
        dhcp4: o.dhcp4,
        gateway4: o.gateway4,
        nameservers: match o.nameservers {
            Some(ns) => Some(
                seq![(NAMESERVER_ADDRESSES@, ns), (NAMESERVER_SEARCH@, Seq::<Seq<char>>::empty())],
            ),
            None => None,
        },
        optional: None,
    }
}

/// The projection of a record: the nameserver addresses are the values under
/// `"addresses"`; the boot-optional flag is dropped.
pub open spec fn output_of_nic(n: NicModel) -> NicOutputModel {
    NicOutputModel {
        addresses: n.addresses,
        dhcp4: n.dhcp4,
        gateway4: n.gateway4,
        nameservers: match n.nameservers {
            Some(entries) => entry_lookup(entries, NAMESERVER_ADDRESSES@),
            None => None,
        },
    }
}

/// Copies a list of strings.
pub fn copy_strs(v: &Vec<String>) -> (r: Vec<String>)
    ensures
        r.deep_view() == v.deep_view(),
{
    let mut r: Vec<String> = Vec::new();
    let mut i: usize = 0;
    while i < v.len()
        invariant
            i <= v.len(),
            r.deep_view() == v.deep_view().take(i as int),
        decreases v.len() - i,
    {
        let x = v[i].clone();
        let ghost prev = r.deep_view();
        r.push(x);
        assert(r.deep_view() =~= prev.push(v.deep_view()[i as int]));
        i = i + 1;
        assert(r.deep_view() =~= v.deep_view().take(i as int));
    }
    assert(v.deep_view().take(v.len() as int) =~= v.deep_view());
    r
}

/// Copies an optional list of strings.
pub fn copy_opt_strs(v: &Option<Vec<String>>) -> (r: Option<Vec<String>>)
    ensures
        r.deep_view() == v.deep_view(),
{
    match v {
        Some(x) => Some(copy_strs(x)),
        None => None,
    }
}

/// Copies an optional string.
pub fn copy_opt_str(v: &Option<String>) -> (r: Option<String>)
    ensures
        r.deep_view() == v.deep_view(),
{
    match v {
        Some(x) => Some(x.clone()),
        None => None,
    }
}

/// Looks up the values stored under `key`.
pub fn lookup_entry<'a>(entries: &'a Vec<(String, Vec<String>)>, key: &str) -> (r: Option<
    &'a Vec<String>,
>)
    ensures
        r.deep_view() == entry_lookup(entries.deep_view(), key@),
{
    let k = key.to_owned();
    let mut i: usize = 0;
    while i < entries.len()
        invariant
            i <= entries.len(),
            k@ == key@,
            forall|j: int| 0 <= j < i ==> entries.deep_view()[j].0 != key@,
        decreases entries.len() - i,
    {
        if entries[i].0 == k {
            proof {
                lemma_entry_index_first(entries.deep_view(), key@, i as int);
            }
            return Some(&entries[i].1);
        }
        i = i + 1;
    }
    proof {
        lemma_entry_index_none(entries.deep_view(), key@);
    }
    None
}

proof fn lemma_entry_index_first(entries: NameserverEntries, key: Seq<char>, i: int)
    requires
        0 <= i < entries.len(),
        entries[i].0 == key,
        forall|j: int| 0 <= j < i ==> entries[j].0 != key,
    ensures
        entry_index(entries, key) == Some(i),
    decreases entries.len(),
{
    if i < entries.len() - 1 {
        lemma_entry_index_first(entries.drop_last(), key, i);
    } else {
        lemma_entry_index_none(entries.drop_last(), key);
    }
}

proof fn lemma_entry_index_none(entries: NameserverEntries, key: Seq<char>)
    requires
        forall|j: int| 0 <= j < entries.len() ==> entries[j].0 != key,
    ensures
        entry_index(entries, key) is None,
    decreases entries.len(),
{
    if entries.len() > 0 {
        lemma_entry_index_none(entries.drop_last(), key);
    }
}

impl Nic {
    pub fn new(
        addresses: Option<Vec<String>>,
        dhcp4: Option<bool>,
        gateway4: Option<String>,
        nameservers: Option<Vec<(String, Vec<String>)>>,
        optional: Option<bool>,
    ) -> (r: Self)
        ensures
            r.addresses == addresses,
            r.dhcp4 == dhcp4,
            r.gateway4 == gateway4,
            r.nameservers == nameservers,
            r.optional == optional,
    {
        Nic { addresses, dhcp4, gateway4, nameservers, optional }
    }

    /// A record with every field absent.
    pub fn empty() -> (r: Self)
        ensures
            r@ == (NicModel {
                addresses: None,
                dhcp4: None,
                gateway4: None,
                nameservers: None,
                optional: None,
            }),
    {
        Nic { addresses: None, dhcp4: None, gateway4: None, nameservers: None, optional: None }
    }

    /// The values stored under nameserver key `key`, if the record has
    /// nameservers and the key is present.
    pub fn nameserver(&self, key: &str) -> (r: Option<&Vec<String>>)
        ensures
            r.deep_view() == match self@.nameservers {
                Some(entries) => entry_lookup(entries, key@),
                None => None,
            },
    {
        match &self.nameservers {
            Some(entries) => lookup_entry(entries, key),
            None => None,
        }
    }
}

impl NicOutput {
    pub fn new(
        addresses: Option<Vec<String>>,
        dhcp4: Option<bool>,
        gateway4: Option<String>,
        nameservers: Option<Vec<String>>,
    ) -> (r: Self)
        ensures
            r.addresses == addresses,
            r.dhcp4 == dhcp4,
            r.gateway4 == gateway4,
            r.nameservers == nameservers,
    {
        NicOutput { addresses, dhcp4, gateway4, nameservers }
    }

    /// The record that this projection stands for, with the boot-optional
    /// flag absent.
    pub fn to(&self) -> (r: Nic)
        ensures
            r@ == nic_of_output(self@),
    {
        let nameservers = match &self.nameservers {
            Some(ns) => {
                let mut m: Vec<(String, Vec<String>)> = Vec::new();
                let a = NAMESERVER_ADDRESSES.to_owned();
                let s = NAMESERVER_SEARCH.to_owned();
                let empty: Vec<String> = Vec::new();
                assert(empty.deep_view() =~= Seq::<Seq<char>>::empty());
                m.push((a, copy_strs(ns)));
                m.push((s, empty));
                assert(m.deep_view() =~= seq![
                    (NAMESERVER_ADDRESSES@, ns.deep_view()),
                    (NAMESERVER_SEARCH@, Seq::<Seq<char>>::empty()),
                ]);
                Some(m)
            },
            None => None,
        };
        Nic {
            addresses: copy_opt_strs(&self.addresses),
            dhcp4: self.dhcp4,
            gateway4: copy_opt_str(&self.gateway4),
            nameservers,
            optional: None,
        }
    }

    /// The projection of a record.
    pub fn from(nic: &Nic) -> (r: Self)
        ensures
            r@ == output_of_nic(nic@),
    {
        let nameservers = match &nic.nameservers {
            Some(entries) => match lookup_entry(entries, NAMESERVER_ADDRESSES) {
                Some(v) => Some(copy_strs(v)),
                None => None,
            },
            None => None,
        };
        NicOutput {
            addresses: copy_opt_strs(&nic.addresses),
            dhcp4: nic.dhcp4,
            gateway4: copy_opt_str(&nic.gateway4),
            nameservers,
        }
    }

    /// One line per field: the address and nameserver lists in `Debug`
    /// form, `-` for an absent field.
    pub fn to_string(&self) -> (r: String)
        ensures
            r@ == render_output(self@),
    {
        let addresses = match &self.addresses {
            Some(v) => Some(debug_list(v)),
            None => None,
        };
        let nameservers = match &self.nameservers {
            Some(v) => Some(debug_list(v)),
            None => None,
        };
        render_fields(addresses, self.dhcp4, &self.gateway4, nameservers)
    }
}

/// The rendering of a projection whose address and nameserver lists are
/// already written out as `addresses` and `nameservers`.
pub open spec fn render_with(
    addresses: Option<Seq<char>>,
    dhcp4: Option<bool>,
    gateway4: Option<Seq<char>>,
    nameservers: Option<Seq<char>>,
) -> Seq<char> {
    let dhcp4 = match dhcp4 {
        Some(b) => Some(bool_text(b)),
        None => None,
    };
    field_line("addresses"@, addresses) + "\n"@ + field_line("dhcp4"@, dhcp4) + "\n"@
        + field_line("gateway4"@, gateway4) + "\n"@ + field_line("nameservers"@, nameservers)
}

/// Renders the four fields of a projection, one per line, `-` for an absent
/// one; the lists come already written out.
pub fn render_fields(
    addresses: Option<String>,
    dhcp4: Option<bool>,
    gateway4: &Option<String>,
    nameservers: Option<String>,
) -> (r: String)
    ensures
        r@ == render_with(
            addresses.deep_view(),
            dhcp4,
            gateway4.deep_view(),
            nameservers.deep_view(),
        ),
{
    let dhcp4 = match dhcp4 {
        Some(true) => Some("true".to_owned()),
        Some(false) => Some("false".to_owned()),
        None => None,
    };
    let mut out = field_line_text("addresses", addresses);
    out.append("\n");
    out.append(field_line_text("dhcp4", dhcp4).as_str());
    out.append("\n");
    out.append(field_line_text("gateway4", copy_opt_str(gateway4)).as_str());
    out.append("\n");
    out.append(field_line_text("nameservers", nameservers).as_str());
    out
}

/// Converting a projection to a record and back gives the projection again.
pub proof fn lemma_output_round_trip(o: NicOutputModel)
    ensures
        output_of_nic(nic_of_output(o)) == o,
{
    reveal_strlit("addresses");
    reveal_strlit("search");
    if let Some(ns) = o.nameservers {
        let entries = seq![
            (NAMESERVER_ADDRESSES@, ns),
            (NAMESERVER_SEARCH@, Seq::<Seq<char>>::empty()),
        ];
        assert(entries[1].0 != NAMESERVER_ADDRESSES@) by {
            assert(entries[1].0[0] != NAMESERVER_ADDRESSES@[0]);
        }
        lemma_entry_index_first(entries, NAMESERVER_ADDRESSES@, 0);
    }
}

} // verus!
