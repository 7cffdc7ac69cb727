//! Addresses, commands, errors and the small records of an ADS frame.

use vstd::prelude::*;

verus! {

/// The six bytes that name a device in an AMS network.
#[derive(Debug, Clone, Copy, PartialEq, Eq)]
pub struct AmsNetId(pub [u8; 6]);

/// A port of an AMS device.
pub type AmsPort = u16;

/// An AMS device, and a port of it.
pub type AmsAddr = (AmsNetId, AmsPort);

/// How long to wait for the answer to a request.
#[derive(Debug, Clone, Copy, PartialEq, Eq, Structural)]
pub enum AdsTimeout {
    /// Five seconds.
    DefaultTimeout,
    /// This many seconds.
    CustomTimeout(u64),
}

impl Default for AdsTimeout {
    fn default() -> (timeout: AdsTimeout)
        ensures
            timeout == AdsTimeout::DefaultTimeout,
    {
        AdsTimeout::DefaultTimeout
    }
}

impl AdsTimeout {
    /// The timeout in seconds.
    pub open spec fn in_seconds(self) -> u64 {
        match self {
            AdsTimeout::DefaultTimeout => 5,
            AdsTimeout::CustomTimeout(time) => time,
        }
    }

    /// Gives the timeout in seconds.
    pub fn seconds(self) -> (time: u64)
        ensures
            time == self.in_seconds(),
            self matches AdsTimeout::CustomTimeout(given) ==> time == given,
            self is DefaultTimeout ==> time == 5,
    {
        match self {
            AdsTimeout::DefaultTimeout => 5,
            AdsTimeout::CustomTimeout(time) => time,
        }
    }
}

/// An error of an ADS device, of the router or of the connection to it.
#[derive(Debug, Clone, PartialEq, Eq)]
pub struct AdsError {
    /// The code of the error, as in the list of ADS return codes.
    pub n_error: u32,
    /// What the error says.
    pub s_msg: String,
}

/// What an [`AdsError`] stands for.
pub struct AdsErrorView {
    pub n_error: u32,
    pub s_msg: Seq<char>,
}

impl View for AdsError {
    type V = AdsErrorView;

    open spec fn view(&self) -> AdsErrorView {
        AdsErrorView { n_error: self.n_error, s_msg: self.s_msg@ }
    }
}

impl AdsError {
    /// Makes an error of a code and a text.
    pub fn new(n_error: u32, s_msg: &str) -> (error: AdsError)
        ensures
            error@ == (AdsErrorView { n_error, s_msg: s_msg@ }),
            error.n_error == n_error,
            error.s_msg@ == s_msg@,
    {
        AdsError { n_error, s_msg: s_msg.to_owned() }
    }
}

/// The commands that an AMS header can carry.
#[derive(Debug, Clone, Copy, PartialEq, Eq, Structural)]
pub enum AdsCommand {
    Invalid,
    ReadDeviceInfo,
    Read,
    Write,
    ReadState,
    WriteControl,
    AddDeviceNotification,
    DeleteDeviceNotification,
    DeviceNotification,
    ReadWrite,
}

impl Default for AdsCommand {
    fn default() -> (cmd: AdsCommand)
        ensures
            cmd == AdsCommand::Invalid,
    {
        AdsCommand::Invalid
    }
}

/// The command that has the code `code`, if there is one.
pub open spec fn command_of(code: u16) -> Option<AdsCommand> {
    if code == 0 {
        Some(AdsCommand::Invalid)
    } else if code == 1 {
        Some(AdsCommand::ReadDeviceInfo)
    } else if code == 2 {
        Some(AdsCommand::Read)
    } else if code == 3 {
        Some(AdsCommand::Write)
    } else if code == 4 {
        Some(AdsCommand::ReadState)
    } else if code == 5 {
        Some(AdsCommand::WriteControl)
    } else if code == 6 {
        Some(AdsCommand::AddDeviceNotification)
    } else if code == 7 {
        Some(AdsCommand::DeleteDeviceNotification)
    } else if code == 8 {
        Some(AdsCommand::DeviceNotification)
    } else if code == 9 {
        Some(AdsCommand::ReadWrite)
    } else {
        None
    }
}

impl AdsCommand {
    /// The code of the command.
    pub open spec fn as_code(self) -> u16 {
        match self {
            AdsCommand::Invalid => 0,
            AdsCommand::ReadDeviceInfo => 1,
            AdsCommand::Read => 2,
            AdsCommand::Write => 3,
            AdsCommand::ReadState => 4,
            AdsCommand::WriteControl => 5,
            AdsCommand::AddDeviceNotification => 6,
            AdsCommand::DeleteDeviceNotification => 7,
            AdsCommand::DeviceNotification => 8,
            AdsCommand::ReadWrite => 9,
        }
    }

    /// Gives the code of the command.
    pub fn code(self) -> (code: u16)
        ensures
            code == self.as_code(),
    {
        match self {
            AdsCommand::Invalid => 0,
            AdsCommand::ReadDeviceInfo => 1,
            AdsCommand::Read => 2,
            AdsCommand::Write => 3,
            AdsCommand::ReadState => 4,
            AdsCommand::WriteControl => 5,
            AdsCommand::AddDeviceNotification => 6,
            AdsCommand::DeleteDeviceNotification => 7,
            AdsCommand::DeviceNotification => 8,
            AdsCommand::ReadWrite => 9,
        }
    }

    /// Finds the command that has a code.
    pub fn from_code(code: u16) -> (cmd: Result<AdsCommand, AdsError>)
        ensures
            match cmd {
                Ok(c) => command_of(code) == Some(c),
                Err(e) => command_of(code) is None && e@ == (AdsErrorView {
                    n_error: 8,
                    s_msg: "Unknown command ID"@,
                }),
            },
    {
        match code {
            0 => Ok(AdsCommand::Invalid),
            1 => Ok(AdsCommand::ReadDeviceInfo),
            2 => Ok(AdsCommand::Read),
            3 => Ok(AdsCommand::Write),
            4 => Ok(AdsCommand::ReadState),
            5 => Ok(AdsCommand::WriteControl),
            6 => Ok(AdsCommand::AddDeviceNotification),
            7 => Ok(AdsCommand::DeleteDeviceNotification),
            8 => Ok(AdsCommand::DeviceNotification),
            9 => Ok(AdsCommand::ReadWrite),
            _ => Err(AdsError::new(8, "Unknown command ID")),
        }
    }
}

/// Code and command name each other: the code of a command leads back to it, and
/// no other code does.
pub proof fn law_command_codes(cmd: AdsCommand, code: u16)
    ensures
        command_of(cmd.as_code()) == Some(cmd),
        command_of(code) == Some(cmd) ==> code == cmd.as_code(),
{
}

/// A custom timeout is the number of seconds that it was given, whatever it is,
/// and the default timeout is five seconds.
pub proof fn law_timeout_is_what_was_given(time: u64)
    ensures
        AdsTimeout::CustomTimeout(time).in_seconds() == time,
        AdsTimeout::DefaultTimeout.in_seconds() == 5,
{
}

/// The codes of the commands, as the ADS protocol numbers them, and no other code
/// has a command.
pub proof fn law_command_numbers(code: u16)
    ensures
        AdsCommand::Invalid.as_code() == 0,
        AdsCommand::ReadDeviceInfo.as_code() == 1,
        AdsCommand::Read.as_code() == 2,
        AdsCommand::Write.as_code() == 3,
        AdsCommand::ReadState.as_code() == 4,
        AdsCommand::WriteControl.as_code() == 5,
        AdsCommand::AddDeviceNotification.as_code() == 6,
        AdsCommand::DeleteDeviceNotification.as_code() == 7,
        AdsCommand::DeviceNotification.as_code() == 8,
        AdsCommand::ReadWrite.as_code() == 9,
        command_of(code) is Some <==> code <= 9,
        command_of(code) matches Some(cmd) ==> cmd.as_code() == code,
        command_of(code) == Some(AdsCommand::DeviceNotification) <==> code == 8,
{
}

/// Two errors look the same only where their codes and their texts are the same,
/// and what an error looks like is its code and its text.
pub proof fn law_error_is_its_code_and_text(error: AdsError, other: AdsError)
    ensures
        error@.n_error == error.n_error,
        error@.s_msg == error.s_msg@,
        error@ == other@ ==> error.n_error == other.n_error && error.s_msg@ == other.s_msg@,
{
}

} // verus!
