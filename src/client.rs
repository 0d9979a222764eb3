//! The caller's side: the request each administrative operation sends, and
//! the reading of the privileged process's reply.

use vstd::prelude::*;

use crate::interface::{NicOutput, NicOutputModel};
use crate::protocol::{
    base64_read, base64_text, encoding, ArgValue, Argument, EncodeError, Node, NodeRequest,
    SubCommand,
};

verus! {

/// The reply of the privileged process, as read from its output.
#[derive(Debug)]
pub enum TaskResult {
    /// Base64 text of the bincode reply.
    Success(String),
    /// The failure string.
    Failure(String),
}

pub const ERR_DECODE_RESPONSE: &'static str = "fail to decode response.";

/// The request sent is `kind` with the encoding of `v`.
pub open spec fn sends(r: Result<NodeRequest, EncodeError>, kind: Node, v: ArgValue) -> bool {
    r matches Ok(req) && req.kind == kind && req.arg@ == encoding(v)
}

/// Starts, stops, restarts a service or asks its status.
pub fn service_control(subcmd: SubCommand, service: String) -> (r: Result<NodeRequest, EncodeError>)
    ensures
        sends(r, Node::Service(subcmd), ArgValue::Text(service@)),
{
    NodeRequest::new(Node::Service(subcmd), &Argument::Text(service))
}

/// Sets the OS version.
pub fn set_os_version(ver: String) -> (r: Result<NodeRequest, EncodeError>)
    ensures
        sends(r, Node::Version(SubCommand::SetOsVersion), ArgValue::Text(ver@)),
{
    NodeRequest::new(Node::Version(SubCommand::SetOsVersion), &Argument::Text(ver))
}

/// Sets the product version.
pub fn set_product_version(ver: String) -> (r: Result<NodeRequest, EncodeError>)
    ensures
        sends(r, Node::Version(SubCommand::SetProductVersion), ArgValue::Text(ver@)),
{
    NodeRequest::new(Node::Version(SubCommand::SetProductVersion), &Argument::Text(ver))
}

/// Sets the hostname.
pub fn set_hostname(host: String) -> (r: Result<NodeRequest, EncodeError>)
    ensures
        sends(r, Node::Hostname(SubCommand::Assign), ArgValue::Text(host@)),
{
    NodeRequest::new(Node::Hostname(SubCommand::Assign), &Argument::Text(host))
}

/// Asks for the remote syslog servers.
pub fn syslog_servers() -> (r: Result<NodeRequest, EncodeError>)
    ensures
        sends(r, Node::Syslog(SubCommand::Get), ArgValue::OptText(None)),
{
    NodeRequest::new(Node::Syslog(SubCommand::Get), &Argument::OptText(None))
}

/// Sets the remote syslog servers.
pub fn set_syslog_servers(servers: Vec<String>) -> (r: Result<NodeRequest, EncodeError>)
    ensures
        sends(r, Node::Syslog(SubCommand::Assign), ArgValue::TextList(servers.deep_view())),
{
    NodeRequest::new(Node::Syslog(SubCommand::Assign), &Argument::TextList(servers))
}

/// Resets the remote syslog servers.
pub fn init_syslog_servers() -> (r: Result<NodeRequest, EncodeError>)
    ensures
        sends(r, Node::Syslog(SubCommand::Init), ArgValue::OptText(None)),
{
    NodeRequest::new(Node::Syslog(SubCommand::Init), &Argument::OptText(None))
}

/// Asks for the live interface names, filtered by an optional prefix.
pub fn list_of_interfaces(prefix: Option<String>) -> (r: Result<NodeRequest, EncodeError>)
    ensures
        sends(r, Node::Interface(SubCommand::List), ArgValue::OptText(prefix.deep_view())),
{
    NodeRequest::new(Node::Interface(SubCommand::List), &Argument::OptText(prefix))
}

/// Asks for the settings of one interface, or of all of them.
pub fn interfaces(dev: Option<String>) -> (r: Result<NodeRequest, EncodeError>)
    ensures
        sends(r, Node::Interface(SubCommand::Get), ArgValue::OptText(dev.deep_view())),
{
    NodeRequest::new(Node::Interface(SubCommand::Get), &Argument::OptText(dev))
}

/// Overwrites the settings of an interface.
pub fn set_interface(
    dev: String,
    addresses: Option<Vec<String>>,
    dhcp4: Option<bool>,
    gateway4: Option<String>,
    nameservers: Option<Vec<String>>,
) -> (r: Result<NodeRequest, EncodeError>)
    ensures
        sends(
            r,
            Node::Interface(SubCommand::Assign),
            ArgValue::NamedNic(
                dev@,
                NicOutputModel {
                    addresses: addresses.deep_view(),
                    dhcp4,
                    gateway4: gateway4.deep_view(),
                    nameservers: nameservers.deep_view(),
                },
            ),
        ),
{
    let nic = NicOutput::new(addresses, dhcp4, gateway4, nameservers);
    NodeRequest::new(Node::Interface(SubCommand::Assign), &Argument::NamedNic(dev, nic))
}

/// Resets the settings of an interface.
pub fn init_interface(dev: String) -> (r: Result<NodeRequest, EncodeError>)
    ensures
        sends(r, Node::Interface(SubCommand::Init), ArgValue::Text(dev@)),
{
    NodeRequest::new(Node::Interface(SubCommand::Init), &Argument::Text(dev))
}

/// Removes addresses, the gateway or nameservers from an interface.
pub fn remove_interface(
    dev: String,
    addresses: Option<Vec<String>>,
    dhcp4: Option<bool>,
    gateway4: Option<String>,
    nameservers: Option<Vec<String>>,
) -> (r: Result<NodeRequest, EncodeError>)
    ensures
        sends(
            r,
            Node::Interface(SubCommand::Delete),
            ArgValue::NamedNic(
                dev@,
                NicOutputModel {
                    addresses: addresses.deep_view(),
                    dhcp4,
                    gateway4: gateway4.deep_view(),
                    nameservers: nameservers.deep_view(),
                },
            ),
        ),
{
    let nic = NicOutput::new(addresses, dhcp4, gateway4, nameservers);
    NodeRequest::new(Node::Interface(SubCommand::Delete), &Argument::NamedNic(dev, nic))
}

/// Reboots the system.
pub fn reboot() -> (r: Result<NodeRequest, EncodeError>)
    ensures
        sends(r, Node::Reboot, ArgValue::OptText(None)),
{
    NodeRequest::new(Node::Reboot, &Argument::OptText(None))
}

/// Turns the system off.
pub fn power_off() -> (r: Result<NodeRequest, EncodeError>)
    ensures
        sends(r, Node::PowerOff, ArgValue::OptText(None)),
{
    NodeRequest::new(Node::PowerOff, &Argument::OptText(None))
}

/// Reads a reply: the bincode bytes of a success, or the failure string
/// exactly as the privileged process gave it.
pub fn decode_result(res: &TaskResult) -> (r: Result<Vec<u8>, String>)
    ensures
        res matches TaskResult::Failure(x) ==> r is Err && r->Err_0@ == x@,
        res matches TaskResult::Success(x) ==> (r is Ok <==> (vstd::utf8::encode_utf8(x@).len()
            <= usize::MAX / 8 && base64_read(x@) is Some)),
        res matches TaskResult::Success(x) ==> (r is Ok ==> base64_read(x@) == Some(r->Ok_0@)),
        res matches TaskResult::Success(x) ==> (r is Err ==> r->Err_0@ == ERR_DECODE_RESPONSE@),
        forall|b: Seq<u8>|
            #![trigger base64_text(b)]
            res matches TaskResult::Success(x) && x@ == base64_text(b) && vstd::utf8::encode_utf8(
                x@,
            ).len() <= usize::MAX / 8 ==> r is Ok && r->Ok_0@ == b,
{
    match res {
        TaskResult::Success(x) => {
            let s = x.as_str();
            if s.as_bytes().len() > usize::MAX / 8 {
                return Err(ERR_DECODE_RESPONSE.to_owned());
            }
            match crate::protocol::base64_decode(s) {
                Some(b) => Ok(b),
                None => Err(ERR_DECODE_RESPONSE.to_owned()),
            }
        },
        TaskResult::Failure(x) => Err(x.clone()),
    }
}

} // verus!
