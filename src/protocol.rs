//! The command taxonomy and the argument codec.
//!
//! A request names a resource kind and, for most kinds, a verb; its argument
//! travels as bincode bytes, and inside the privileged process as base64
//! text of those bytes.

use vstd::prelude::*;

use crate::interface::{NicOutput, NicOutputModel, Strs};
use crate::ifconfig::{projection_view, Projection};

verus! {

/// The generic operations, shared by the resource kinds.
#[derive(Copy, Clone, Debug, PartialEq, Eq, Structural)]
pub enum SubCommand {
    Add,
    Delete,
    Disable,
    Enable,
    Get,
    Init,
    List,
    Assign,
    SetOsVersion,
    SetProductVersion,
    Status,
    Update,
}

/// The resource kinds; all but the power-state kinds carry a verb.
#[derive(Copy, Clone, Debug, PartialEq, Eq, Structural)]
pub enum Node {
    Hostname(SubCommand),
    Interface(SubCommand),
    Ntp(SubCommand),
    PowerOff,
    Reboot,
    GracefulReboot,
    GracefulPowerOff,
    Service(SubCommand),
    Sshd(SubCommand),
    Syslog(SubCommand),
    Ufw(SubCommand),
    Version(SubCommand),
}

/// A request: the command, and its argument as bincode bytes.
#[derive(Debug)]
pub struct NodeRequest {
    pub kind: Node,
    pub arg: Vec<u8>,
}

/// The argument types that the protocol uses.
#[derive(Debug)]
pub enum Argument {
    /// No argument is read.
    Unit,
    Text(String),
    OptText(Option<String>),
    TextList(Vec<String>),
    NamedNic(String, NicOutput),
}

/// The shape of an argument, which the command determines.
#[derive(Copy, Clone, Debug, PartialEq, Eq, Structural)]
pub enum ArgKind {
    Unit,
    Text,
    OptText,
    TextList,
    NamedNic,
}

pub enum ArgValue {
    Unit,
    Text(Seq<char>),
    OptText(Option<Seq<char>>),
    TextList(Strs),
    NamedNic(Seq<char>, NicOutputModel),
}

impl View for Argument {
    type V = ArgValue;

    open spec fn view(&self) -> ArgValue {
        match self {
            Argument::Unit => ArgValue::Unit,
            Argument::Text(s) => ArgValue::Text(s@),
            Argument::OptText(s) => ArgValue::OptText(s.deep_view()),
            Argument::TextList(v) => ArgValue::TextList(v.deep_view()),
            Argument::NamedNic(n, o) => ArgValue::NamedNic(n@, o@),
        }
    }
}

pub open spec fn kind_of(v: ArgValue) -> ArgKind {
    match v {
        ArgValue::Unit => ArgKind::Unit,
        ArgValue::Text(_) => ArgKind::Text,
        ArgValue::OptText(_) => ArgKind::OptText,
        ArgValue::TextList(_) => ArgKind::TextList,
        ArgValue::NamedNic(_, _) => ArgKind::NamedNic,
    }
}

/// The bincode bytes of a string.
pub uninterp spec fn bincode_text(s: Seq<char>) -> Seq<u8>;

/// The bincode bytes of an optional string.
pub uninterp spec fn bincode_opt_text(s: Option<Seq<char>>) -> Seq<u8>;

/// The bincode bytes of a list of strings.
pub uninterp spec fn bincode_text_list(v: Seq<Seq<char>>) -> Seq<u8>;

/// The bincode bytes of an interface name with a projection.
pub uninterp spec fn bincode_named_nic(name: Seq<char>, o: NicOutputModel) -> Seq<u8>;

/// The bincode bytes of a boolean.
pub uninterp spec fn bincode_flag(b: bool) -> Seq<u8>;

/// The bincode bytes of an optional list of named projections.
pub uninterp spec fn bincode_projection(p: Option<Projection>) -> Seq<u8>;

/// The standard base64 text of some bytes.
pub uninterp spec fn base64_text(b: Seq<u8>) -> Seq<char>;

/// The bytes that standard base64 text stands for, if it is valid.
pub uninterp spec fn base64_read(s: Seq<char>) -> Option<Seq<u8>>;

/// The string that bincode reads from some bytes, if any.
pub uninterp spec fn bincode_read_text(b: Seq<u8>) -> Option<Seq<char>>;

/// The optional string that bincode reads from some bytes, if any.
pub uninterp spec fn bincode_read_opt_text(b: Seq<u8>) -> Option<Option<Seq<char>>>;

/// The list of strings that bincode reads from some bytes, if any.
pub uninterp spec fn bincode_read_text_list(b: Seq<u8>) -> Option<Seq<Seq<char>>>;

/// The interface name and projection that bincode reads from some bytes, if
/// any.
pub uninterp spec fn bincode_read_named_nic(b: Seq<u8>) -> Option<(Seq<char>, NicOutputModel)>;

/// The bytes that an argument is encoded as.
pub open spec fn encoding(v: ArgValue) -> Seq<u8> {
    match v {
        ArgValue::Unit => bincode_opt_text(None),
        ArgValue::Text(s) => bincode_text(s),
        ArgValue::OptText(s) => bincode_opt_text(s),
        ArgValue::TextList(l) => bincode_text_list(l),
        ArgValue::NamedNic(n, o) => bincode_named_nic(n, o),
    }
}

/// The argument of shape `kind` that bincode reads from `b`, if any.
pub open spec fn decoded(kind: ArgKind, b: Seq<u8>) -> Option<ArgValue> {
    match kind {
        ArgKind::Unit => Some(ArgValue::Unit),
        ArgKind::Text => match bincode_read_text(b) {
            Some(s) => Some(ArgValue::Text(s)),
            None => None,
        },
        ArgKind::OptText => match bincode_read_opt_text(b) {
            Some(s) => Some(ArgValue::OptText(s)),
            None => None,
        },
        ArgKind::TextList => match bincode_read_text_list(b) {
            Some(v) => Some(ArgValue::TextList(v)),
            None => None,
        },
        ArgKind::NamedNic => match bincode_read_named_nic(b) {
            Some((n, o)) => Some(ArgValue::NamedNic(n, o)),
            None => None,
        },
    }
}

/// Relies on `bincode::serialize` of a `String`. With the default options
/// (no size limit) and std's `Serialize` impls, serializing the plain types
/// used here cannot fail. A string is laid out as its byte length in eight
/// bytes, then its UTF-8 bytes.
#[verifier::external_body]
pub(crate) fn encode_text(s: &String) -> (r: Option<Vec<u8>>)
    ensures
        r is Some && r->0@ == bincode_text(s@),
        r is Some && r->0@.len() == 8 + vstd::utf8::encode_utf8(s@).len(),
{
    bincode::serialize(s).ok()
}

/// Relies on `bincode::serialize` of an `Option<String>`.
#[verifier::external_body]
fn encode_opt_text(s: &Option<String>) -> (r: Option<Vec<u8>>)
    ensures
        r is Some && r->0@ == bincode_opt_text(s.deep_view()),
{
    bincode::serialize(s).ok()
}

/// Relies on `bincode::serialize` of a `Vec<String>`.
#[verifier::external_body]
pub(crate) fn encode_text_list(v: &Vec<String>) -> (r: Option<Vec<u8>>)
    ensures
        r is Some && r->0@ == bincode_text_list(v.deep_view()),
{
    bincode::serialize(v).ok()
}

/// Relies on `bincode::serialize` of a name and the four fields of a
/// projection, in order (which is how bincode lays out the struct).
#[verifier::external_body]
fn encode_named_nic(name: &String, o: &NicOutput) -> (r: Option<Vec<u8>>)
    ensures
        r is Some && r->0@ == bincode_named_nic(name@, o@),
{
    bincode::serialize(&(name, (&o.addresses, &o.dhcp4, &o.gateway4, &o.nameservers))).ok()
}

/// Relies on `bincode::serialize` of a `bool`.
#[verifier::external_body]
pub(crate) fn encode_flag(b: bool) -> (r: Option<Vec<u8>>)
    ensures
        r is Some && r->0@ == bincode_flag(b),
{
    bincode::serialize(&b).ok()
}

/// Relies on `bincode::serialize` of an optional list of names with the four
/// fields of their projections.
#[verifier::external_body]
pub(crate) fn encode_projection(p: &Option<Vec<(String, NicOutput)>>) -> (r: Option<Vec<u8>>)
    ensures
        r is Some && r->0@ == bincode_projection(
            match p {
                Some(v) => Some(projection_view(v@)),
                None => None,
            },
        ),
{
    let fields: Option<Vec<_>> = p.as_ref().map(|v| {
        v.iter().map(|(n, o)| (n, (&o.addresses, &o.dhcp4, &o.gateway4, &o.nameservers))).collect()
    });
    bincode::serialize(&fields).ok()
}

/// Relies on `bincode::deserialize` of a `String`, which gives back the
/// string that `bincode::serialize` encoded.
#[verifier::external_body]
fn decode_text(b: &[u8]) -> (r: Option<String>)
    ensures
        r.deep_view() == bincode_read_text(b@),
        forall|v: Seq<char>| b@ == bincode_text(v) ==> r is Some && r->0@ == v,
{
    bincode::deserialize::<String>(b).ok()
}

/// Relies on `bincode::deserialize` of an `Option<String>`, which gives back
/// the value that `bincode::serialize` encoded.
#[verifier::external_body]
fn decode_opt_text(b: &[u8]) -> (r: Option<Option<String>>)
    ensures
        r.deep_view() == bincode_read_opt_text(b@),
        forall|v: Option<Seq<char>>| b@ == bincode_opt_text(v) ==> r is Some && r->0.deep_view() == v,
{
    bincode::deserialize::<Option<String>>(b).ok()
}

/// Relies on `bincode::deserialize` of a `Vec<String>`, which gives back the
/// list that `bincode::serialize` encoded.
#[verifier::external_body]
fn decode_text_list(b: &[u8]) -> (r: Option<Vec<String>>)
    ensures
        r.deep_view() == bincode_read_text_list(b@),
        forall|v: Strs| b@ == bincode_text_list(v) ==> r is Some && r->0.deep_view() == v,
{
    bincode::deserialize::<Vec<String>>(b).ok()
}

/// Relies on `bincode::deserialize` of a name and the four fields of a
/// projection, which gives back what `bincode::serialize` encoded.
#[verifier::external_body]
fn decode_named_nic(b: &[u8]) -> (r: Option<(String, NicOutput)>)
    ensures
        r is Some <==> bincode_read_named_nic(b@) is Some,
        r is Some ==> bincode_read_named_nic(b@) == Some((r.unwrap().0@, r.unwrap().1@)),
        forall|n: Seq<char>, o: NicOutputModel|
            b@ == bincode_named_nic(n, o) ==> r is Some && r.unwrap().0@ == n && r.unwrap().1@ == o,
{
    match bincode::deserialize::<(String, (Option<Vec<String>>, Option<bool>, Option<String>, Option<Vec<String>>))>(b) {
        Ok((n, (addresses, dhcp4, gateway4, nameservers))) => Some(
            (n, NicOutput { addresses, dhcp4, gateway4, nameservers }),
        ),
        Err(_) => None,
    }
}

/// Relies on `data_encoding::BASE64.encode`: padded output of four ASCII
/// characters per started group of three bytes; it panics only on inputs
/// longer than `usize::MAX / 512` bytes.
#[verifier::external_body]
pub(crate) fn base64_encode(b: &[u8]) -> (r: String)
    requires
        b@.len() <= usize::MAX / 512,
    ensures
        r@ == base64_text(b@),
        r@.len() == 4 * ((b@.len() + 2) / 3),
        vstd::utf8::is_ascii_chars(r@),
{
    data_encoding::BASE64.encode(b)
}

/// Relies on `data_encoding::BASE64.decode`, which gives back the bytes that
/// `encode` encoded, and panics only on inputs longer than `usize::MAX / 8`
/// bytes.
#[verifier::external_body]
pub(crate) fn base64_decode(s: &str) -> (r: Option<Vec<u8>>)
    requires
        vstd::utf8::encode_utf8(s@).len() <= usize::MAX / 8,
    ensures
        r is Some <==> base64_read(s@) is Some,
        r is Some ==> base64_read(s@) == Some(r->0@),
        forall|b: Seq<u8>| s@ == base64_text(b) ==> r is Some && r->0@ == b,
{
    data_encoding::BASE64.decode(s.as_bytes()).ok()
}

/// Why an argument could not be encoded.
#[derive(Debug, Clone, Copy, PartialEq, Eq, Structural)]
pub enum EncodeError {
    Serialize,
}

impl Argument {
    /// The argument's bincode bytes; `Unit` is encoded as an absent string.
    pub fn encode(&self) -> (r: Result<Vec<u8>, EncodeError>)
        ensures
            r is Ok && r->Ok_0@ == encoding(self@),
    {
        let bytes = match self {
            Argument::Unit => encode_opt_text(&None),
            Argument::Text(s) => encode_text(s),
            Argument::OptText(s) => encode_opt_text(s),
            Argument::TextList(v) => encode_text_list(v),
            Argument::NamedNic(n, o) => encode_named_nic(n, o),
        };
        match bytes {
            Some(b) => Ok(b),
            None => Err(EncodeError::Serialize),
        }
    }

    /// Reads an argument of shape `kind` from its bincode bytes. Decoding the
    /// encoding of a value gives that value back.
    pub fn decode(kind: ArgKind, b: &[u8]) -> (r: Option<Argument>)
        ensures
            r is Some <==> decoded(kind, b@) is Some,
            r is Some ==> decoded(kind, b@) == Some(r->0@),
            r matches Some(a) ==> kind_of(a@) == kind,
            kind == ArgKind::Unit ==> r is Some && r->0@ == ArgValue::Unit,
            forall|v: ArgValue|
                kind_of(v) == kind && b@ == #[trigger] encoding(v) ==> r is Some && r->0@ == v,
    {
        match kind {
            ArgKind::Unit => Some(Argument::Unit),
            ArgKind::Text => match decode_text(b) {
                Some(s) => Some(Argument::Text(s)),
                None => None,
            },
            ArgKind::OptText => match decode_opt_text(b) {
                Some(s) => Some(Argument::OptText(s)),
                None => None,
            },
            ArgKind::TextList => match decode_text_list(b) {
                Some(v) => Some(Argument::TextList(v)),
                None => None,
            },
            ArgKind::NamedNic => match decode_named_nic(b) {
                Some((n, o)) => Some(Argument::NamedNic(n, o)),
                None => None,
            },
        }
    }
}

impl NodeRequest {
    /// A request for command `kind` with argument `cmd`; fails only if the
    /// argument cannot be serialized.
    pub fn new(kind: Node, cmd: &Argument) -> (r: Result<Self, EncodeError>)
        ensures
            r is Ok && r->Ok_0.kind == kind && r->Ok_0.arg@ == encoding(cmd@),
    {
        match cmd.encode() {
            Ok(arg) => Ok(NodeRequest { kind, arg }),
            Err(e) => Err(e),
        }
    }
}

} // verus!
