//! Decoded client requests and the replies they produce.

use vstd::prelude::*;
use vstd::string::StringExecFns;

verus! {

/// A decoded client request. Anything outside the supported set
/// arrives as `Other`, carrying the command's name.
#[derive(Debug, Clone, PartialEq, Eq)]
pub enum Command {
    Get(String),
    Put(String, Vec<u8>),
    Other(String),
}

/// The result of dispatching a command, later encoded to a wire frame.
#[derive(Debug, Clone, PartialEq, Eq)]
pub enum Reply {
    Okay,
    Bulk(Vec<u8>),
    Null,
    Error(String),
}

/// The key a command operates on; `None` for commands outside the
/// supported set, which touch no shard.
pub fn command_key(cmd: &Command) -> (r: Option<&String>)
    ensures
        (match *cmd {
            Command::Get(ref k) => r matches Some(s) && s@ == k@,
            Command::Put(ref k, _) => r matches Some(s) && s@ == k@,
            Command::Other(_) => r is None,
        }),
{
    match cmd {
        Command::Get(k) => Some(k),
        Command::Put(k, _) => Some(k),
        Command::Other(_) => None,
    }
}

/// The error reply for a command outside the supported set.
pub fn unsupported_reply(name: &String) -> (r: Reply)
    ensures
        (r matches Reply::Error(m) && m@ == "unsupported command: "@ + name@),
{
    let mut m = "unsupported command: ".to_owned();
    m.append(name.as_str());
    Reply::Error(m)
}

/// The error reply for an operation whose shard is out of service,
/// for example because a lock around it was poisoned.
pub fn unavailable_reply() -> (r: Reply)
    ensures
        (r matches Reply::Error(m) && m@ == "store unavailable"@),
{
    Reply::Error("store unavailable".to_owned())
}

} // verus!
