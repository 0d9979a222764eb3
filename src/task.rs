//! The dispatcher inside the privileged process: which handler a command
//! reaches, the argument it is handed, and how a handler's result is framed.

use vstd::prelude::*;

use crate::ifconfig::projection_view;
use crate::interface::NicOutput;
use crate::protocol::{
    base64_read, base64_text, bincode_flag, bincode_projection, bincode_text, bincode_text_list,
    decoded, encoding, kind_of, ArgKind, ArgValue, Argument, Node, NodeRequest, SubCommand,
};

verus! {

/// Reply of a successful command that returns nothing else.
pub const OKAY: &'static str = "Ok";

pub const ERR_INVALID_COMMAND: &'static str = "invalid command";

pub const ERR_FAIL: &'static str = "fail";

pub const ERR_MESSAGE_TOO_LONG: &'static str = "message too long";

pub const ERR_PARSE_FAIL: &'static str = "fail to serialize response message";

/// What the privileged process answers: base64 text of the bincode reply, or
/// a fixed failure string.
pub type ExecResult = Result<String, &'static str>;

/// The handlers that commands reach.
#[derive(Copy, Clone, Debug, PartialEq, Eq, Structural)]
pub enum Handler {
    PowerOff,
    Reboot,
    GracefulReboot,
    GracefulPowerOff,
    SetOsVersion,
    SetProductVersion,
    ServiceDisable,
    ServiceEnable,
    ServiceStatus,
    ServiceUpdate,
    SyslogGet,
    SyslogInit,
    SyslogSet,
    SyslogEnable,
    HostnameGet,
    HostnameSet,
    InterfaceDelete,
    InterfaceGet,
    InterfaceInit,
    InterfaceList,
    InterfaceSet,
    SshdGet,
    SshdSet,
    SshdEnable,
    NtpGet,
    NtpDisable,
    NtpEnable,
    NtpSet,
    NtpStatus,
    UfwGet,
    UfwAdd,
    UfwDelete,
    UfwDisable,
    UfwEnable,
    UfwStatus,
}

/// The verb-applicability table: the handler of each valid command.
pub open spec fn handler_for(kind: Node) -> Option<Handler> {
    match kind {
        Node::PowerOff => Some(Handler::PowerOff),
        Node::Reboot => Some(Handler::Reboot),
        Node::GracefulReboot => Some(Handler::GracefulReboot),
        Node::GracefulPowerOff => Some(Handler::GracefulPowerOff),
        Node::Version(SubCommand::SetOsVersion) => Some(Handler::SetOsVersion),
        Node::Version(SubCommand::SetProductVersion) => Some(Handler::SetProductVersion),
        Node::Service(SubCommand::Disable) => Some(Handler::ServiceDisable),
        Node::Service(SubCommand::Enable) => Some(Handler::ServiceEnable),
        Node::Service(SubCommand::Status) => Some(Handler::ServiceStatus),
        Node::Service(SubCommand::Update) => Some(Handler::ServiceUpdate),
        Node::Syslog(SubCommand::Get) => Some(Handler::SyslogGet),
        Node::Syslog(SubCommand::Init) => Some(Handler::SyslogInit),
        Node::Syslog(SubCommand::Assign) => Some(Handler::SyslogSet),
        Node::Syslog(SubCommand::Enable) => Some(Handler::SyslogEnable),
        Node::Hostname(SubCommand::Get) => Some(Handler::HostnameGet),
        Node::Hostname(SubCommand::Assign) => Some(Handler::HostnameSet),
        Node::Interface(SubCommand::Delete) => Some(Handler::InterfaceDelete),
        Node::Interface(SubCommand::Get) => Some(Handler::InterfaceGet),
        Node::Interface(SubCommand::Init) => Some(Handler::InterfaceInit),
        Node::Interface(SubCommand::List) => Some(Handler::InterfaceList),
        Node::Interface(SubCommand::Assign) => Some(Handler::InterfaceSet),
        Node::Sshd(SubCommand::Get) => Some(Handler::SshdGet),
        Node::Sshd(SubCommand::Assign) => Some(Handler::SshdSet),
        Node::Sshd(SubCommand::Enable) => Some(Handler::SshdEnable),
        Node::Ntp(SubCommand::Get) => Some(Handler::NtpGet),
        Node::Ntp(SubCommand::Disable) => Some(Handler::NtpDisable),
        Node::Ntp(SubCommand::Enable) => Some(Handler::NtpEnable),
        Node::Ntp(SubCommand::Assign) => Some(Handler::NtpSet),
        Node::Ntp(SubCommand::Status) => Some(Handler::NtpStatus),
        Node::Ufw(SubCommand::Get) => Some(Handler::UfwGet),
        Node::Ufw(SubCommand::Add) => Some(Handler::UfwAdd),
        Node::Ufw(SubCommand::Delete) => Some(Handler::UfwDelete),
        Node::Ufw(SubCommand::Disable) => Some(Handler::UfwDisable),
        Node::Ufw(SubCommand::Enable) => Some(Handler::UfwEnable),
        Node::Ufw(SubCommand::Status) => Some(Handler::UfwStatus),
        _ => None,
    }
}

/// The shape of the argument each handler reads.
pub open spec fn arg_kind(h: Handler) -> ArgKind {
    match h {
        Handler::SetOsVersion | Handler::SetProductVersion | Handler::ServiceDisable
        | Handler::ServiceEnable | Handler::ServiceStatus | Handler::ServiceUpdate
        | Handler::HostnameSet | Handler::InterfaceInit | Handler::SshdSet => ArgKind::Text,
        Handler::SyslogSet | Handler::NtpSet | Handler::UfwAdd | Handler::UfwDelete =>
            ArgKind::TextList,
        Handler::InterfaceGet | Handler::InterfaceList => ArgKind::OptText,
        Handler::InterfaceDelete | Handler::InterfaceSet => ArgKind::NamedNic,
        _ => ArgKind::Unit,
    }
}

/// Each handler serves exactly one command: two commands that reach the same
/// handler are the same command.
pub proof fn lemma_handler_of_one_command(a: Node, b: Node)
    requires
        handler_for(a) is Some,
        handler_for(a) == handler_for(b),
    ensures
        a == b,
{
}

/// The handler a command reaches and the argument it is handed, or `None`
/// (`invalid command`): the command has no handler, or its argument text is
/// too long to decode here, is not base64, or its bytes do not read as the
/// handler's argument type. Handlers that read no argument ignore the text.
pub open spec fn executes(kind: Node, arg: Seq<char>) -> Option<(Handler, ArgValue)> {
    match handler_for(kind) {
        None => None,
        Some(h) => if arg_kind(h) == ArgKind::Unit {
            Some((h, ArgValue::Unit))
        } else if vstd::utf8::encode_utf8(arg).len() > usize::MAX / 8 {
            None
        } else {
            match base64_read(arg) {
                None => None,
                Some(b) => match decoded(arg_kind(h), b) {
                    Some(v) => Some((h, v)),
                    None => None,
                },
            }
        },
    }
}

/// Looks up the handler of a command.
pub fn route(kind: Node) -> (r: Option<Handler>)
    ensures
        r == handler_for(kind),
{
    match kind {
        Node::PowerOff => Some(Handler::PowerOff),
        Node::Reboot => Some(Handler::Reboot),
        Node::GracefulReboot => Some(Handler::GracefulReboot),
        Node::GracefulPowerOff => Some(Handler::GracefulPowerOff),
        Node::Version(cmd) => match cmd {
            SubCommand::SetOsVersion => Some(Handler::SetOsVersion),
            SubCommand::SetProductVersion => Some(Handler::SetProductVersion),
            _ => None,
        },
        Node::Service(cmd) => match cmd {
            SubCommand::Disable => Some(Handler::ServiceDisable),
            SubCommand::Enable => Some(Handler::ServiceEnable),
            SubCommand::Status => Some(Handler::ServiceStatus),
            SubCommand::Update => Some(Handler::ServiceUpdate),
            _ => None,
        },
        Node::Syslog(cmd) => match cmd {
            SubCommand::Get => Some(Handler::SyslogGet),
            SubCommand::Init => Some(Handler::SyslogInit),
            SubCommand::Assign => Some(Handler::SyslogSet),
            SubCommand::Enable => Some(Handler::SyslogEnable),
            _ => None,
        },
        Node::Hostname(cmd) => match cmd {
            SubCommand::Get => Some(Handler::HostnameGet),
            SubCommand::Assign => Some(Handler::HostnameSet),
            _ => None,
        },
        Node::Interface(cmd) => match cmd {
            SubCommand::Delete => Some(Handler::InterfaceDelete),
            SubCommand::Get => Some(Handler::InterfaceGet),
            SubCommand::Init => Some(Handler::InterfaceInit),
            SubCommand::List => Some(Handler::InterfaceList),
            SubCommand::Assign => Some(Handler::InterfaceSet),
            _ => None,
        },
        Node::Sshd(cmd) => match cmd {
            SubCommand::Get => Some(Handler::SshdGet),
            SubCommand::Assign => Some(Handler::SshdSet),
            SubCommand::Enable => Some(Handler::SshdEnable),
            _ => None,
        },
        Node::Ntp(cmd) => match cmd {
            SubCommand::Get => Some(Handler::NtpGet),
            SubCommand::Disable => Some(Handler::NtpDisable),
            SubCommand::Enable => Some(Handler::NtpEnable),
            SubCommand::Assign => Some(Handler::NtpSet),
            SubCommand::Status => Some(Handler::NtpStatus),
            _ => None,
        },
        Node::Ufw(cmd) => match cmd {
            SubCommand::Get => Some(Handler::UfwGet),
            SubCommand::Add => Some(Handler::UfwAdd),
            SubCommand::Delete => Some(Handler::UfwDelete),
            SubCommand::Disable => Some(Handler::UfwDisable),
            SubCommand::Enable => Some(Handler::UfwEnable),
            SubCommand::Status => Some(Handler::UfwStatus),
            _ => None,
        },
    }
}

/// The shape of the argument that handler `h` reads.
pub fn argument_kind(h: Handler) -> (r: ArgKind)
    ensures
        r == arg_kind(h),
{
    match h {
        Handler::SetOsVersion | Handler::SetProductVersion | Handler::ServiceDisable
        | Handler::ServiceEnable | Handler::ServiceStatus | Handler::ServiceUpdate
        | Handler::HostnameSet | Handler::InterfaceInit | Handler::SshdSet => ArgKind::Text,
        Handler::SyslogSet | Handler::NtpSet | Handler::UfwAdd | Handler::UfwDelete =>
            ArgKind::TextList,
        Handler::InterfaceGet | Handler::InterfaceList => ArgKind::OptText,
        Handler::InterfaceDelete | Handler::InterfaceSet => ArgKind::NamedNic,
        _ => ArgKind::Unit,
    }
}

/// A command as the privileged process holds it: the argument is base64 text
/// of its bincode bytes.
#[derive(Debug)]
pub enum Task {
    Hostname { cmd: SubCommand, arg: String },
    Interface { cmd: SubCommand, arg: String },
    Ntp { cmd: SubCommand, arg: String },
    PowerOff(String),
    Reboot(String),
    GracefulReboot(String),
    GracefulPowerOff(String),
    Service { cmd: SubCommand, arg: String },
    Sshd { cmd: SubCommand, arg: String },
    Syslog { cmd: SubCommand, arg: String },
    Ufw { cmd: SubCommand, arg: String },
    Version { cmd: SubCommand, arg: String },
}

/// A handler to run, with the argument it is handed.
#[derive(Debug)]
pub struct Action {
    pub handler: Handler,
    pub argument: Argument,
}

impl Task {
    pub open spec fn kind_spec(&self) -> Node {
        match self {
            Task::Hostname { cmd, .. } => Node::Hostname(*cmd),
            Task::Interface { cmd, .. } => Node::Interface(*cmd),
            Task::Ntp { cmd, .. } => Node::Ntp(*cmd),
            Task::PowerOff(_) => Node::PowerOff,
            Task::Reboot(_) => Node::Reboot,
            Task::GracefulReboot(_) => Node::GracefulReboot,
            Task::GracefulPowerOff(_) => Node::GracefulPowerOff,
            Task::Service { cmd, .. } => Node::Service(*cmd),
            Task::Sshd { cmd, .. } => Node::Sshd(*cmd),
            Task::Syslog { cmd, .. } => Node::Syslog(*cmd),
            Task::Ufw { cmd, .. } => Node::Ufw(*cmd),
            Task::Version { cmd, .. } => Node::Version(*cmd),
        }
    }

    pub open spec fn arg_spec(&self) -> Seq<char> {
        match self {
            Task::Hostname { arg, .. } | Task::Interface { arg, .. } | Task::Ntp { arg, .. }
            | Task::Service { arg, .. } | Task::Sshd { arg, .. } | Task::Syslog { arg, .. }
            | Task::Ufw { arg, .. } | Task::Version { arg, .. } => arg@,
            Task::PowerOff(arg) | Task::Reboot(arg) | Task::GracefulReboot(arg)
            | Task::GracefulPowerOff(arg) => arg@,
        }
    }

    /// The command that the task holds.
    pub fn kind(&self) -> (r: Node)
        ensures
            r == self.kind_spec(),
    {
        match self {
            Task::Hostname { cmd, .. } => Node::Hostname(*cmd),
            Task::Interface { cmd, .. } => Node::Interface(*cmd),
            Task::Ntp { cmd, .. } => Node::Ntp(*cmd),
            Task::PowerOff(_) => Node::PowerOff,
            Task::Reboot(_) => Node::Reboot,
            Task::GracefulReboot(_) => Node::GracefulReboot,
            Task::GracefulPowerOff(_) => Node::GracefulPowerOff,
            Task::Service { cmd, .. } => Node::Service(*cmd),
            Task::Sshd { cmd, .. } => Node::Sshd(*cmd),
            Task::Syslog { cmd, .. } => Node::Syslog(*cmd),
            Task::Ufw { cmd, .. } => Node::Ufw(*cmd),
            Task::Version { cmd, .. } => Node::Version(*cmd),
        }
    }

    /// The base64 text of the argument.
    pub fn arg(&self) -> (r: &String)
        ensures
            r@ == self.arg_spec(),
    {
        match self {
            Task::Hostname { arg, .. } | Task::Interface { arg, .. } | Task::Ntp { arg, .. }
            | Task::Service { arg, .. } | Task::Sshd { arg, .. } | Task::Syslog { arg, .. }
            | Task::Ufw { arg, .. } | Task::Version { arg, .. } => arg,
            Task::PowerOff(arg) | Task::Reboot(arg) | Task::GracefulReboot(arg)
            | Task::GracefulPowerOff(arg) => arg,
        }
    }

    /// The task for a request received on the wire; `None` if the argument is
    /// too long to be put in base64 on this platform.
    pub fn from_request(req: &NodeRequest) -> (r: Option<Task>)
        ensures
            r is None <==> req.arg@.len() > usize::MAX / 512,
            r matches Some(t) ==> t.kind_spec() == req.kind && t.arg_spec() == base64_text(
                req.arg@,
            ) && vstd::utf8::encode_utf8(t.arg_spec()).len() <= usize::MAX / 8,
    {
        if req.arg.len() > usize::MAX / 512 {
            return None;
        }
        let arg = crate::protocol::base64_encode(req.arg.as_slice());
        proof {
            vstd::utf8::is_ascii_chars_encode_utf8(arg@);
            let n = req.arg@.len();
            assert(4 * ((n + 2) / 3) <= usize::MAX / 8) by (nonlinear_arith)
                requires
                    n <= usize::MAX / 512,
            ;
        }
        let task = match req.kind {
            Node::Hostname(cmd) => Task::Hostname { cmd, arg },
            Node::Interface(cmd) => Task::Interface { cmd, arg },
            Node::Ntp(cmd) => Task::Ntp { cmd, arg },
            Node::PowerOff => Task::PowerOff(arg),
            Node::Reboot => Task::Reboot(arg),
            Node::GracefulReboot => Task::GracefulReboot(arg),
            Node::GracefulPowerOff => Task::GracefulPowerOff(arg),
            Node::Service(cmd) => Task::Service { cmd, arg },
            Node::Sshd(cmd) => Task::Sshd { cmd, arg },
            Node::Syslog(cmd) => Task::Syslog { cmd, arg },
            Node::Ufw(cmd) => Task::Ufw { cmd, arg },
            Node::Version(cmd) => Task::Version { cmd, arg },
        };
        Some(task)
    }

    /// Decides which handler runs and decodes its argument. An invalid
    /// command, or an argument that does not decode to the handler's type,
    /// gives `invalid command` and no handler.
    pub fn execute(&self) -> (r: Result<Action, &'static str>)
        ensures
            r is Ok <==> executes(self.kind_spec(), self.arg_spec()) is Some,
            r is Err ==> r == Err::<Action, &'static str>(ERR_INVALID_COMMAND),
            r matches Ok(a) ==> executes(self.kind_spec(), self.arg_spec()) == Some(
                (a.handler, a.argument@),
            ),
            forall|v: ArgValue|
                #![trigger encoding(v)]
                handler_for(self.kind_spec()) is Some && kind_of(v) == arg_kind(
                    handler_for(self.kind_spec())->0,
                ) && self.arg_spec() == base64_text(encoding(v))
                    && vstd::utf8::encode_utf8(self.arg_spec()).len() <= usize::MAX / 8 ==> r is Ok
                    && r->Ok_0.argument@ == v,
    {
        let handler = match route(self.kind()) {
            Some(h) => h,
            None => return Err(ERR_INVALID_COMMAND),
        };
        let kind = argument_kind(handler);
        if kind == ArgKind::Unit {
            return Ok(Action { handler, argument: Argument::Unit });
        }
        let arg = self.arg().as_str();
        if arg.as_bytes().len() > usize::MAX / 8 {
            return Err(ERR_INVALID_COMMAND);
        }
        let bytes = match crate::protocol::base64_decode(arg) {
            Some(b) => b,
            None => return Err(ERR_INVALID_COMMAND),
        };
        match Argument::decode(kind, bytes.as_slice()) {
            Some(argument) => Ok(Action { handler, argument }),
            None => Err(ERR_INVALID_COMMAND),
        }
    }
}

/// The reply for a serialized handler result: base64 text, unless the bytes
/// do not fit a 32-bit length (or, on a platform with narrow `usize`, are too
/// long to be put in base64).
pub open spec fn frame(m: Seq<u8>) -> Result<Seq<char>, &'static str> {
    if m.len() > u32::MAX || m.len() > usize::MAX / 512 {
        Err(ERR_MESSAGE_TOO_LONG)
    } else {
        Ok(base64_text(m))
    }
}

pub open spec fn reply_view(r: ExecResult) -> Result<Seq<char>, &'static str> {
    match r {
        Ok(s) => Ok(s@),
        Err(e) => Err(e),
    }
}

/// Whether a reply of `len` bytes fits the protocol's 32-bit length.
pub fn fits_length_field(len: usize) -> (r: bool)
    ensures
        r == (len <= u32::MAX),
{
    len <= u32::MAX as usize
}

/// Frames a serialized handler result; `None` stands for a result that could
/// not be serialized.
pub fn response(message: Option<Vec<u8>>) -> (r: ExecResult)
    ensures
        message is None ==> r == Err::<String, &'static str>(ERR_PARSE_FAIL),
        message matches Some(m) ==> reply_view(r) == frame(m@),
{
    match message {
        None => Err(ERR_PARSE_FAIL),
        Some(m) => {
            if !fits_length_field(m.len()) || m.len() > usize::MAX / 512 {
                Err(ERR_MESSAGE_TOO_LONG)
            } else {
                Ok(crate::protocol::base64_encode(m.as_slice()))
            }
        },
    }
}

/// The reply carrying a string.
pub fn respond_text(s: &String) -> (r: ExecResult)
    ensures
        reply_view(r) == frame(
            bincode_text(s@),
        ),
{
    response(crate::protocol::encode_text(s))
}

/// The reply of a command that returns nothing else: the string `"Ok"`.
pub fn respond_ok() -> (r: ExecResult)
    ensures
        r is Ok && r->Ok_0@ == base64_text(bincode_text(OKAY@)),
{
    let s = OKAY.to_owned();
    let bytes = crate::protocol::encode_text(&s);
    proof {
        reveal_strlit("Ok");
        vstd::utf8::is_ascii_chars_encode_utf8(s@);
        assert(vstd::utf8::is_ascii_chars(s@)) by {
            assert(s@[0] == 'O' && s@[1] == 'k');
        }
    }
    response(bytes)
}

/// The reply carrying a boolean.
pub fn respond_flag(b: bool) -> (r: ExecResult)
    ensures
        reply_view(r) == frame(bincode_flag(b)),
{
    response(crate::protocol::encode_flag(b))
}

/// The reply carrying a list of names.
pub fn respond_names(v: &Vec<String>) -> (r: ExecResult)
    ensures
        reply_view(r) == frame(
            bincode_text_list(v.deep_view()),
        ),
{
    response(crate::protocol::encode_text_list(v))
}

/// The reply carrying interface projections.
pub fn respond_interfaces(p: &Option<Vec<(String, NicOutput)>>) -> (r: ExecResult)
    ensures
        reply_view(r) == frame(
            bincode_projection(
                match p {
                    Some(v) => Some(projection_view(v@)),
                    None => None,
                },
            ),
        ),
{
    response(crate::protocol::encode_projection(p))
}

/// The reply of a handler that failed.
pub fn respond_fail() -> (r: ExecResult)
    ensures
        r == Err::<String, &'static str>(ERR_FAIL),
{
    Err(ERR_FAIL)
}

} // verus!
