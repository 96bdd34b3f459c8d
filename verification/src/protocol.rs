//! The numbers of the packet protocol: packet types, response and error
//! codes, device types and device commands, each with the byte that stands
//! for it on the wire.

use vstd::prelude::*;

verus! {

/// The most devices that one controller serves.
pub const MAX_DEVICES: usize = 8;

/// The most lines and the most controls of one device.
pub const MAX_IO: usize = 8;

/// The byte that opens every packet.
pub const PACKET_START: u8 = 0x4e;

/// The kind of a packet.
#[derive(Copy, Clone, PartialEq, Eq, Structural, Debug)]
pub enum PacketType {
    /// Asks a device who it is.
    Identify,
    /// Asks a device for its state.
    Status,
    /// Asks a device to run one of its functions.
    ExecFunc,
    /// Asks a device to answer.
    Ping,
    /// Carries unrequested news from a device.
    Update,
    /// Answers an earlier packet.
    Response,
}

impl PacketType {
    /// The byte that stands for `self` on the wire.
    pub open spec fn spec_to_u8(self) -> u8 {
        match self {
            PacketType::Identify => 0x00,
            PacketType::Status => 0x01,
            PacketType::ExecFunc => 0x02,
            PacketType::Ping => 0x03,
            PacketType::Update => 0x04,
            PacketType::Response => 0x05,
        }
    }

    /// The value that `byte` stands for, if any.
    pub open spec fn spec_from_u8(byte: u8) -> Option<Self> {
        if byte == 0x00 {
            Some(PacketType::Identify)
        } else if byte == 0x01 {
            Some(PacketType::Status)
        } else if byte == 0x02 {
            Some(PacketType::ExecFunc)
        } else if byte == 0x03 {
            Some(PacketType::Ping)
        } else if byte == 0x04 {
            Some(PacketType::Update)
        } else if byte == 0x05 {
            Some(PacketType::Response)
        } else {
            None
        }
    }

    /// The byte that stands for `self` on the wire.
    pub fn to_u8(self) -> (byte: u8)
        ensures
            byte == self.spec_to_u8(),
    {
        match self {
            PacketType::Identify => 0x00,
            PacketType::Status => 0x01,
            PacketType::ExecFunc => 0x02,
            PacketType::Ping => 0x03,
            PacketType::Update => 0x04,
            PacketType::Response => 0x05,
        }
    }

    /// The value that `byte` stands for; `None` where it stands for none.
    pub fn from_u8(byte: u8) -> (value: Option<Self>)
        ensures
            value == Self::spec_from_u8(byte),
    {
        match byte {
            0x00 => Some(PacketType::Identify),
            0x01 => Some(PacketType::Status),
            0x02 => Some(PacketType::ExecFunc),
            0x03 => Some(PacketType::Ping),
            0x04 => Some(PacketType::Update),
            0x05 => Some(PacketType::Response),
            _ => None,
        }
    }

    /// A byte stands for a value exactly where it is the byte of that value:
    /// every value is found again from its byte, and no two values share one.
    pub proof fn lemma_byte_round_trip(value: Self, byte: u8)
        ensures
            Self::spec_from_u8(byte) == Some(value) <==> value.spec_to_u8() == byte,
            Self::spec_from_u8(byte) is None <==> byte > 0x05,
    {
    }
}

/// Whether a response reports success.
#[derive(Copy, Clone, PartialEq, Eq, Structural, Debug)]
pub enum ResponseType {
    /// The request was carried out.
    Success,
    /// The request failed; an error code follows.
    Error,
}

impl ResponseType {
    /// The byte that stands for `self` on the wire.
    pub open spec fn spec_to_u8(self) -> u8 {
        match self {
            ResponseType::Success => 0x00,
            ResponseType::Error => 0x01,
        }
    }

    /// The value that `byte` stands for, if any.
    pub open spec fn spec_from_u8(byte: u8) -> Option<Self> {
        if byte == 0x00 {
            Some(ResponseType::Success)
        } else if byte == 0x01 {
            Some(ResponseType::Error)
        } else {
            None
        }
    }

    /// The byte that stands for `self` on the wire.
    pub fn to_u8(self) -> (byte: u8)
        ensures
            byte == self.spec_to_u8(),
    {
        match self {
            ResponseType::Success => 0x00,
            ResponseType::Error => 0x01,
        }
    }

    /// The value that `byte` stands for; `None` where it stands for none.
    pub fn from_u8(byte: u8) -> (value: Option<Self>)
        ensures
            value == Self::spec_from_u8(byte),
    {
        match byte {
            0x00 => Some(ResponseType::Success),
            0x01 => Some(ResponseType::Error),
            _ => None,
        }
    }

    /// A byte stands for a value exactly where it is the byte of that value:
    /// every value is found again from its byte, and no two values share one.
    pub proof fn lemma_byte_round_trip(value: Self, byte: u8)
        ensures
            Self::spec_from_u8(byte) == Some(value) <==> value.spec_to_u8() == byte,
            Self::spec_from_u8(byte) is None <==> byte > 0x01,
    {
    }
}

/// Why a request failed.
#[derive(Copy, Clone, PartialEq, Eq, Structural, Debug)]
pub enum ErrorCode {
    /// Nothing failed.
    Success,
    /// The cause is not known.
    Unknown,
    /// The packet type is none that the device takes.
    InvalidPacketType,
    /// The device has no such command.
    InvalidCommand,
    /// The response could not be understood.
    InvalidResponse,
    /// There is no such device.
    InvalidDevice,
    /// The function was given too few parameters.
    InsufficientFunctionParameters,
}

impl ErrorCode {
    /// The byte that stands for `self` on the wire.
    pub open spec fn spec_to_u8(self) -> u8 {
        match self {
            ErrorCode::Success => 0x00,
            ErrorCode::Unknown => 0x01,
            ErrorCode::InvalidPacketType => 0x02,
            ErrorCode::InvalidCommand => 0x03,
            ErrorCode::InvalidResponse => 0x04,
            ErrorCode::InvalidDevice => 0x05,
            ErrorCode::InsufficientFunctionParameters => 0x06,
        }
    }

    /// The value that `byte` stands for, if any.
    pub open spec fn spec_from_u8(byte: u8) -> Option<Self> {
        if byte == 0x00 {
            Some(ErrorCode::Success)
        } else if byte == 0x01 {
            Some(ErrorCode::Unknown)
        } else if byte == 0x02 {
            Some(ErrorCode::InvalidPacketType)
        } else if byte == 0x03 {
            Some(ErrorCode::InvalidCommand)
        } else if byte == 0x04 {
            Some(ErrorCode::InvalidResponse)
        } else if byte == 0x05 {
            Some(ErrorCode::InvalidDevice)
        } else if byte == 0x06 {
            Some(ErrorCode::InsufficientFunctionParameters)
        } else {
            None
        }
    }

    /// The byte that stands for `self` on the wire.
    pub fn to_u8(self) -> (byte: u8)
        ensures
            byte == self.spec_to_u8(),
    {
        match self {
            ErrorCode::Success => 0x00,
            ErrorCode::Unknown => 0x01,
            ErrorCode::InvalidPacketType => 0x02,
            ErrorCode::InvalidCommand => 0x03,
            ErrorCode::InvalidResponse => 0x04,
            ErrorCode::InvalidDevice => 0x05,
            ErrorCode::InsufficientFunctionParameters => 0x06,
        }
    }

    /// The value that `byte` stands for; `None` where it stands for none.
    pub fn from_u8(byte: u8) -> (value: Option<Self>)
        ensures
            value == Self::spec_from_u8(byte),
    {
        match byte {
            0x00 => Some(ErrorCode::Success),
            0x01 => Some(ErrorCode::Unknown),
            0x02 => Some(ErrorCode::InvalidPacketType),
            0x03 => Some(ErrorCode::InvalidCommand),
            0x04 => Some(ErrorCode::InvalidResponse),
            0x05 => Some(ErrorCode::InvalidDevice),
            0x06 => Some(ErrorCode::InsufficientFunctionParameters),
            _ => None,
        }
    }

    /// A byte stands for a value exactly where it is the byte of that value:
    /// every value is found again from its byte, and no two values share one.
    pub proof fn lemma_byte_round_trip(value: Self, byte: u8)
        ensures
            Self::spec_from_u8(byte) == Some(value) <==> value.spec_to_u8() == byte,
            Self::spec_from_u8(byte) is None <==> byte > 0x06,
    {
    }
}

/// The kind of a device.
#[derive(Copy, Clone, PartialEq, Eq, Structural, Debug)]
pub enum DeviceType {
    /// A Star Platinum (SP) device.
    StarPlatinum,
    /// A Gold Experience (GE) device.
    GoldExperience,
}

impl DeviceType {
    /// The byte that stands for `self` on the wire.
    pub open spec fn spec_to_u8(self) -> u8 {
        match self {
            DeviceType::StarPlatinum => 0x00,
            DeviceType::GoldExperience => 0x01,
        }
    }

    /// The value that `byte` stands for, if any.
    pub open spec fn spec_from_u8(byte: u8) -> Option<Self> {
        if byte == 0x00 {
            Some(DeviceType::StarPlatinum)
        } else if byte == 0x01 {
            Some(DeviceType::GoldExperience)
        } else {
            None
        }
    }

    /// The byte that stands for `self` on the wire.
    pub fn to_u8(self) -> (byte: u8)
        ensures
            byte == self.spec_to_u8(),
    {
        match self {
            DeviceType::StarPlatinum => 0x00,
            DeviceType::GoldExperience => 0x01,
        }
    }

    /// The value that `byte` stands for; `None` where it stands for none.
    pub fn from_u8(byte: u8) -> (value: Option<Self>)
        ensures
            value == Self::spec_from_u8(byte),
    {
        match byte {
            0x00 => Some(DeviceType::StarPlatinum),
            0x01 => Some(DeviceType::GoldExperience),
            _ => None,
        }
    }

    /// A byte stands for a value exactly where it is the byte of that value:
    /// every value is found again from its byte, and no two values share one.
    pub proof fn lemma_byte_round_trip(value: Self, byte: u8)
        ensures
            Self::spec_from_u8(byte) == Some(value) <==> value.spec_to_u8() == byte,
            Self::spec_from_u8(byte) is None <==> byte > 0x01,
    {
    }
}

/// The commands of a Star Platinum (SP) device.
#[derive(Copy, Clone, PartialEq, Eq, Structural, Debug)]
pub enum SPCommands {
    /// Sets the device up.
    Configure,
    /// Sets the controls of the device.
    SetDeviceControls,
    /// Reads the controls of the device.
    GetDeviceControls,
    /// Reads the lines of the device.
    GetDeviceLines,
}

impl SPCommands {
    /// The byte that stands for `self` on the wire.
    pub open spec fn spec_to_u8(self) -> u8 {
        match self {
            SPCommands::Configure => 0x00,
            SPCommands::SetDeviceControls => 0x01,
            SPCommands::GetDeviceControls => 0x02,
            SPCommands::GetDeviceLines => 0x03,
        }
    }

    /// The value that `byte` stands for, if any.
    pub open spec fn spec_from_u8(byte: u8) -> Option<Self> {
        if byte == 0x00 {
            Some(SPCommands::Configure)
        } else if byte == 0x01 {
            Some(SPCommands::SetDeviceControls)
        } else if byte == 0x02 {
            Some(SPCommands::GetDeviceControls)
        } else if byte == 0x03 {
            Some(SPCommands::GetDeviceLines)
        } else {
            None
        }
    }

    /// The byte that stands for `self` on the wire.
    pub fn to_u8(self) -> (byte: u8)
        ensures
            byte == self.spec_to_u8(),
    {
        match self {
            SPCommands::Configure => 0x00,
            SPCommands::SetDeviceControls => 0x01,
            SPCommands::GetDeviceControls => 0x02,
            SPCommands::GetDeviceLines => 0x03,
        }
    }

    /// The value that `byte` stands for; `None` where it stands for none.
    pub fn from_u8(byte: u8) -> (value: Option<Self>)
        ensures
            value == Self::spec_from_u8(byte),
    {
        match byte {
            0x00 => Some(SPCommands::Configure),
            0x01 => Some(SPCommands::SetDeviceControls),
            0x02 => Some(SPCommands::GetDeviceControls),
            0x03 => Some(SPCommands::GetDeviceLines),
            _ => None,
        }
    }

    /// A byte stands for a value exactly where it is the byte of that value:
    /// every value is found again from its byte, and no two values share one.
    pub proof fn lemma_byte_round_trip(value: Self, byte: u8)
        ensures
            Self::spec_from_u8(byte) == Some(value) <==> value.spec_to_u8() == byte,
            Self::spec_from_u8(byte) is None <==> byte > 0x03,
    {
    }
}

/// The commands of a Gold Experience (GE) device.
#[derive(Copy, Clone, PartialEq, Eq, Structural, Debug)]
pub enum GECommands {
    /// Does nothing.
    Empty,
}

impl GECommands {
    /// The byte that stands for `self` on the wire.
    pub open spec fn spec_to_u8(self) -> u8 {
        match self {
            GECommands::Empty => 0x00,
        }
    }

    /// The value that `byte` stands for, if any.
    pub open spec fn spec_from_u8(byte: u8) -> Option<Self> {
        if byte == 0x00 {
            Some(GECommands::Empty)
        } else {
            None
        }
    }

    /// The byte that stands for `self` on the wire.
    pub fn to_u8(self) -> (byte: u8)
        ensures
            byte == self.spec_to_u8(),
    {
        match self {
            GECommands::Empty => 0x00,
        }
    }

    /// The value that `byte` stands for; `None` where it stands for none.
    pub fn from_u8(byte: u8) -> (value: Option<Self>)
        ensures
            value == Self::spec_from_u8(byte),
    {
        match byte {
            0x00 => Some(GECommands::Empty),
            _ => None,
        }
    }

    /// A byte stands for a value exactly where it is the byte of that value:
    /// every value is found again from its byte, and no two values share one.
    pub proof fn lemma_byte_round_trip(value: Self, byte: u8)
        ensures
            Self::spec_from_u8(byte) == Some(value) <==> value.spec_to_u8() == byte,
            Self::spec_from_u8(byte) is None <==> byte > 0x00,
    {
    }
}

/// The kinds of packets that a client and a device exchange in a session,
/// and for a connect what it asks for.
#[derive(Clone, Copy, Debug, PartialEq, Eq, Structural)]
pub enum PacketKind {
    /// Opens a session; with `send_status` the device is to report its state
    /// every `status_time` milliseconds.
    Connect { send_status: bool, status_time: u16 },
    /// Ends the session.
    Disconnect,
    /// Asks the device who it is.
    Identify,
    /// Asks the device for its state.
    Status,
    /// Asks the device to run a command.
    Cmd,
    /// Reports a failure.
    Error,
    /// Answers a connect.
    OnConnect,
    /// Answers a command.
    OnCmd,
    /// Answers an identify.
    OnIdentify,
    /// Carries the state of a device.
    OnStatus,
}

} // verus!
