//! The device simulator: the commands of its console, the controls of the
//! simulated car, and what it answers to the packets of a client.

use crate::protocol::{ErrorCode, PacketKind};
use crate::words::{lower, split_words, to_chars, word_bounds, word_is, word_is_lower};
use vstd::prelude::*;
use vstd::slice::slice_subrange;
use vstd::string::StrSliceExecFns;

verus! {

/// A command of the console as specifications see it: `Command` with the
/// name of the control as a sequence of characters.
pub enum SpecCommand {
    /// Switch the control `name` on or off.
    SetControl { name: Seq<char>, val: bool },
    /// Show the controls.
    Status,
    /// Show the controls as the bytes that go over the wire.
    RawStatus,
    /// Put the car into reverse, or take it out.
    ToggleReverse,
    /// Switch the high beam.
    ToggleHighBeam,
    /// Show the commands.
    Help,
    /// Leave the console.
    Exit,
}

/// The state that `word` asks a control to take: on for `on` and `true`, off
/// for `off` and `false`.
pub open spec fn spec_switch(word: Seq<char>) -> Option<bool> {
    if word == "on"@ || word == "true"@ {
        Some(true)
    } else if word == "off"@ || word == "false"@ {
        Some(false)
    } else {
        None
    }
}

/// `command` where no word follows the keyword, else nothing.
pub open spec fn alone(params: Seq<Seq<char>>, command: SpecCommand) -> Option<SpecCommand> {
    if params.len() == 0 {
        Some(command)
    } else {
        None
    }
}

/// The command that the line `text` writes. The first word names it, in
/// either case. `control` wants the name of a control and its new state, and
/// takes no notice of further words; every other command stands alone.
pub open spec fn spec_parse_command(text: Seq<char>) -> Option<SpecCommand> {
    let words = split_words(text);
    let keyword = lower(words[0]);
    let params = words.skip(1);
    if keyword == "control"@ {
        if params.len() < 2 {
            None
        } else {
            match spec_switch(params[1]) {
                Some(val) => Some(SpecCommand::SetControl { name: params[0], val }),
                None => None,
            }
        }
    } else if keyword == "status"@ {
        alone(params, SpecCommand::Status)
    } else if keyword == "rawstatus"@ {
        alone(params, SpecCommand::RawStatus)
    } else if keyword == "togglereverse"@ {
        alone(params, SpecCommand::ToggleReverse)
    } else if keyword == "togglehighbeam"@ {
        alone(params, SpecCommand::ToggleHighBeam)
    } else if keyword == "help"@ {
        alone(params, SpecCommand::Help)
    } else if keyword == "exit"@ || keyword == "quit"@ || keyword == "q"@ {
        alone(params, SpecCommand::Exit)
    } else {
        None
    }
}

/// A command of the console.
#[derive(Debug, PartialEq, Eq)]
pub enum Command {
    /// Switch the control `name` on or off.
    SetControl { name: String, val: bool },
    /// Show the controls.
    Status,
    /// Show the controls as the bytes that go over the wire.
    RawStatus,
    /// Put the car into reverse, or take it out.
    ToggleReverse,
    /// Switch the high beam.
    ToggleHighBeam,
    /// Show the commands.
    Help,
    /// Leave the console.
    Exit,
}

impl View for Command {
    type V = SpecCommand;

    open spec fn view(&self) -> SpecCommand {
        match self {
            Command::SetControl { name, val } => SpecCommand::SetControl { name: name@, val: *val },
            Command::Status => SpecCommand::Status,
            Command::RawStatus => SpecCommand::RawStatus,
            Command::ToggleReverse => SpecCommand::ToggleReverse,
            Command::ToggleHighBeam => SpecCommand::ToggleHighBeam,
            Command::Help => SpecCommand::Help,
            Command::Exit => SpecCommand::Exit,
        }
    }
}

/// The state that `word` asks a control to take.
fn parse_switch(word: &[char]) -> (val: Option<bool>)
    ensures
        val == spec_switch(word@),
{
    if word_is(word, "on") || word_is(word, "true") {
        Some(true)
    } else if word_is(word, "off") || word_is(word, "false") {
        Some(false)
    } else {
        None
    }
}

/// The command that the line `cmd` writes, `None` where it writes none.
pub fn parse_command(cmd: &str) -> (command: Option<Command>)
    ensures
        match command {
            Some(c) => spec_parse_command(cmd@) == Some(c@),
            None => spec_parse_command(cmd@) is None,
        },
{
    let chars = to_chars(cmd);
    let text = chars.as_slice();
    let bounds = word_bounds(text);
    let ghost words = split_words(cmd@);
    let alone = bounds.len() == 1;
    let keyword = slice_subrange(text, bounds[0].0, bounds[0].1);
    if word_is_lower(keyword, "control") {
        if bounds.len() < 3 {
            return None;
        }
        proof {
            assert(words.skip(1)[0] == words[1]);
            assert(words.skip(1)[1] == words[2]);
        }
        match parse_switch(slice_subrange(text, bounds[2].0, bounds[2].1)) {
            Some(val) => {
                let name = cmd.substring_char(bounds[1].0, bounds[1].1).to_owned();
                Some(Command::SetControl { name, val })
            },
            None => None,
        }
    } else if word_is_lower(keyword, "status") {
        if alone {
            Some(Command::Status)
        } else {
            None
        }
    } else if word_is_lower(keyword, "rawstatus") {
        if alone {
            Some(Command::RawStatus)
        } else {
            None
        }
    } else if word_is_lower(keyword, "togglereverse") {
        if alone {
            Some(Command::ToggleReverse)
        } else {
            None
        }
    } else if word_is_lower(keyword, "togglehighbeam") {
        if alone {
            Some(Command::ToggleHighBeam)
        } else {
            None
        }
    } else if word_is_lower(keyword, "help") {
        if alone {
            Some(Command::Help)
        } else {
            None
        }
    } else if word_is_lower(keyword, "exit") || word_is_lower(keyword, "quit") || word_is_lower(
        keyword,
        "q",
    ) {
        if alone {
            Some(Command::Exit)
        } else {
            None
        }
    } else {
        None
    }
}

/// The controls of the simulated car.
#[derive(Clone, Copy, Debug, PartialEq, Eq, Structural)]
pub struct RSNavState {
    pub led_bar: bool,
    pub led_bar_low_mode: bool,
    pub high_beam: bool,
    pub led_bar_active: bool,
    pub reverse_camera: bool,
    pub reverse_lights: bool,
    pub reverse: bool,
    pub reverse_lights_active: bool,
    pub trunk_lights: bool,
}

/// `state` with the control `name` set to `val`; `None` where no control has
/// that name.
pub open spec fn spec_set_control(state: RSNavState, name: Seq<char>, val: bool) -> Option<
    RSNavState,
> {
    if name == "led_bar"@ {
        Some(RSNavState { led_bar: val, ..state })
    } else if name == "led_bar_low_mode"@ {
        Some(RSNavState { led_bar_low_mode: val, ..state })
    } else if name == "high_beam"@ {
        Some(RSNavState { high_beam: val, ..state })
    } else if name == "led_bar_active"@ {
        Some(RSNavState { led_bar_active: val, ..state })
    } else if name == "reverse_camera"@ {
        Some(RSNavState { reverse_camera: val, ..state })
    } else if name == "reverse_lights"@ {
        Some(RSNavState { reverse_lights: val, ..state })
    } else if name == "reverse"@ {
        Some(RSNavState { reverse: val, ..state })
    } else if name == "reverse_lights_active"@ {
        Some(RSNavState { reverse_lights_active: val, ..state })
    } else if name == "trunk_lights"@ {
        Some(RSNavState { trunk_lights: val, ..state })
    } else {
        None
    }
}

impl RSNavState {
    /// Sets the control `name` to `val`. Where no control has that name,
    /// nothing changes and the result is `None`.
    pub fn set_control(&mut self, name: &str, val: bool) -> (done: Option<()>)
        ensures
            match done {
                Some(_) => spec_set_control(*old(self), name@, val) == Some(*final(self)),
                None => spec_set_control(*old(self), name@, val) is None && *final(self) == *old(
                    self,
                ),
            },
    {
        let chars = to_chars(name);
        let word = chars.as_slice();
        if word_is(word, "led_bar") {
            self.led_bar = val;
        } else if word_is(word, "led_bar_low_mode") {
            self.led_bar_low_mode = val;
        } else if word_is(word, "high_beam") {
            self.high_beam = val;
        } else if word_is(word, "led_bar_active") {
            self.led_bar_active = val;
        } else if word_is(word, "reverse_camera") {
            self.reverse_camera = val;
        } else if word_is(word, "reverse_lights") {
            self.reverse_lights = val;
        } else if word_is(word, "reverse") {
            self.reverse = val;
        } else if word_is(word, "reverse_lights_active") {
            self.reverse_lights_active = val;
        } else if word_is(word, "trunk_lights") {
            self.trunk_lights = val;
        } else {
            return None;
        }
        Some(())
    }
}

/// What came from the client.
#[derive(Clone, Copy, Debug, PartialEq, Eq, Structural)]
pub enum Event {
    /// A packet of this kind.
    Packet(PacketKind),
    /// Nothing that could be read as a packet: the client is gone.
    ReadFailed,
}

/// A packet that the device sends back, under the id of the packet it answers.
#[derive(Clone, Copy, Debug, PartialEq, Eq, Structural)]
pub enum Reply {
    /// The session is open.
    OnConnect,
    /// Who the device is: see `identity`.
    OnIdentify,
    /// The packet was refused.
    Error { code: ErrorCode },
}

/// What the device does on an event.
#[derive(Clone, Copy, Debug, PartialEq, Eq, Structural)]
pub struct Step {
    /// Whether a session is open after the event.
    pub connected: bool,
    /// The packet to send back, if any.
    pub reply: Option<Reply>,
    /// Where status reports start with this event, the milliseconds between
    /// two of them.
    pub status_every: Option<u16>,
    /// Whether the device stops listening to this client.
    pub close: bool,
}

/// What the device does on `event`, with a session open or not.
///
/// A connect opens a session, unless one is open. An identify is answered
/// inside a session; outside it is refused and the client dropped. A
/// disconnect ends the session without an answer. Every other packet is
/// refused. When the client is gone, so is the session.
pub open spec fn spec_step(connected: bool, event: Event) -> Step {
    match event {
        Event::ReadFailed => Step {
            connected: false,
            reply: None,
            status_every: None,
            close: true,
        },
        Event::Packet(PacketKind::Connect { send_status, status_time }) => if connected {
            Step {
                connected,
                reply: Some(Reply::Error { code: ErrorCode::Unknown }),
                status_every: None,
                close: false,
            }
        } else {
            Step {
                connected: true,
                reply: Some(Reply::OnConnect),
                status_every: if send_status {
                    Some(status_time)
                } else {
                    None
                },
                close: false,
            }
        },
        Event::Packet(PacketKind::Disconnect) => Step {
            connected: false,
            reply: None,
            status_every: None,
            close: false,
        },
        Event::Packet(PacketKind::Identify) => if connected {
            Step { connected, reply: Some(Reply::OnIdentify), status_every: None, close: false }
        } else {
            Step {
                connected,
                reply: Some(Reply::Error { code: ErrorCode::InvalidPacketType }),
                status_every: None,
                close: true,
            }
        },
        Event::Packet(_) => Step {
            connected,
            reply: Some(Reply::Error { code: ErrorCode::InvalidPacketType }),
            status_every: None,
            close: false,
        },
    }
}

/// What the device does on `event`, with a session open (`connected`) or not.
pub fn step(connected: bool, event: Event) -> (next: Step)
    ensures
        next == spec_step(connected, event),
{
    let refused = Some(Reply::Error { code: ErrorCode::InvalidPacketType });
    match event {
        Event::ReadFailed => Step {
            connected: false,
            reply: None,
            status_every: None,
            close: true,
        },
        Event::Packet(PacketKind::Connect { send_status, status_time }) => {
            if connected {
                Step {
                    connected,
                    reply: Some(Reply::Error { code: ErrorCode::Unknown }),
                    status_every: None,
                    close: false,
                }
            } else {
                let status_every = if send_status {
                    Some(status_time)
                } else {
                    None
                };
                Step { connected: true, reply: Some(Reply::OnConnect), status_every, close: false }
            }
        },
        Event::Packet(PacketKind::Disconnect) => Step {
            connected: false,
            reply: None,
            status_every: None,
            close: false,
        },
        Event::Packet(PacketKind::Identify) => {
            if connected {
                Step { connected, reply: Some(Reply::OnIdentify), status_every: None, close: false }
            } else {
                Step { connected, reply: refused, status_every: None, close: true }
            }
        },
        Event::Packet(_) => Step { connected, reply: refused, status_every: None, close: false },
    }
}

/// The device answers an identify only inside a session, opens a session
/// only when none is open, and starts status reports only as it opens one.
/// It stops listening exactly when the client is gone or asked who the
/// device is without a session.
pub proof fn lemma_step_session(connected: bool, event: Event)
    ensures
        spec_step(connected, event).reply == Some(Reply::OnIdentify) ==> connected,
        spec_step(connected, event).reply == Some(Reply::OnConnect) ==> !connected && spec_step(
            connected,
            event,
        ).connected,
        spec_step(connected, event).status_every is Some ==> spec_step(connected, event).reply
            == Some(Reply::OnConnect),
        spec_step(connected, event).close <==> event == Event::ReadFailed || (event
            == Event::Packet(PacketKind::Identify) && !connected),
        spec_step(connected, event).close ==> !spec_step(connected, event).connected,
{
}

/// The version of a device.
#[derive(Clone, Copy, Debug, PartialEq, Eq, Structural)]
pub struct Version {
    pub major: u8,
    pub minor: u8,
    pub patch: u8,
}

/// Who a device says it is.
#[derive(Debug, PartialEq, Eq)]
pub struct Identity {
    pub name: String,
    pub version: Version,
    pub num_cmds: u8,
}

/// Who the simulated device says it is: `Testing`, version 0.1.0, with one
/// command.
pub fn identity() -> (id: Identity)
    ensures
        id.name@ == "Testing"@,
        id.version == (Version { major: 0, minor: 1, patch: 0 }),
        id.num_cmds == 1,
{
    Identity {
        name: "Testing".to_owned(),
        version: Version { major: 0, minor: 1, patch: 0 },
        num_cmds: 1,
    }
}

/// The id under which status reports go out.
pub const STATUS_REPORT_ID: u8 = 0xff;

/// The status report that is due: the eight status bytes while a session is
/// open, and `None`, which ends the reports, once it is closed.
pub fn status_report(connected: bool) -> (report: Option<[u8; 8]>)
    ensures
        match report {
            Some(bytes) => connected && bytes@ == seq![1u8, 2, 3, 4, 5, 6, 7, 8],
            None => !connected,
        },
{
    if connected {
        let bytes: [u8; 8] = [1, 2, 3, 4, 5, 6, 7, 8];
        proof {
            assert(bytes@ =~= seq![1u8, 2, 3, 4, 5, 6, 7, 8]);
        }
        Some(bytes)
    } else {
        None
    }
}

} // verus!
