//! The reload channel: one-byte messages from a development helper that ask
//! for templates and metadata to be loaded again.
use vstd::prelude::*;

verus! {

#[derive(Clone, Copy, Debug, PartialEq, Eq)]
pub enum Msg {
    Reload,
    Success,
    Error,
    Exit,
}

pub open spec fn msg_byte(m: Msg) -> u8 {
    match m {
        Msg::Reload => 1,
        Msg::Success => 2,
        Msg::Error => 3,
        Msg::Exit => 4,
    }
}

impl Msg {
    pub fn from_u8(b: u8) -> (r: Option<Msg>)
        ensures
            r is Some <==> 1 <= b <= 4,
            r matches Some(m) ==> msg_byte(m) == b,
    {
        match b {
            1 => Some(Msg::Reload),
            2 => Some(Msg::Success),
            3 => Some(Msg::Error),
            4 => Some(Msg::Exit),
            _ => None,
        }
    }

    pub fn as_u8(&self) -> (r: u8)
        ensures
            r == msg_byte(*self),
    {
        match self {
            Msg::Reload => 1,
            Msg::Success => 2,
            Msg::Error => 3,
            Msg::Exit => 4,
        }
    }
}

/// What to do on a byte received.
#[derive(Clone, Copy, Debug, PartialEq, Eq)]
pub enum ReloadAction {
    /// Load everything again, then answer with `reply`.
    Reload,
    /// Close the channel.
    Exit,
    /// Not a request: report it and keep listening.
    Ignore,
}

pub fn on_message(b: u8) -> (r: ReloadAction)
    ensures
        r == (if b == 1 { ReloadAction::Reload } else if b == 4 { ReloadAction::Exit } else { ReloadAction::Ignore }),
{
    match Msg::from_u8(b) {
        Some(Msg::Reload) => ReloadAction::Reload,
        Some(Msg::Exit) => ReloadAction::Exit,
        _ => ReloadAction::Ignore,
    }
}

/// The answer to a reload: success or error.
pub fn reply(reloaded: bool) -> (r: u8)
    ensures
        r == (if reloaded { 2u8 } else { 3u8 }),
{
    if reloaded {
        Msg::Success.as_u8()
    } else {
        Msg::Error.as_u8()
    }
}

} // verus!
