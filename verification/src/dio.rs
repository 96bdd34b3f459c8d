//! The command line of the device client: numbers in three bases, the
//! commands `identify`, `status` and `command`, and what the client sends and
//! expects for each.

use crate::protocol::PacketKind;
use crate::words::{lower, split_words, to_chars, word_bounds, word_is_lower};
use vstd::prelude::*;
use vstd::slice::slice_subrange;

verus! {

/// The value of `c` as a digit: `0` to `9`, then the letters, in either case,
/// from 10 on; `None` where `c` is neither.
pub open spec fn digit_value(c: char) -> Option<nat> {
    if '0' <= c <= '9' {
        Some((c as u8 - '0' as u8) as nat)
    } else if 'a' <= c <= 'z' {
        Some((c as u8 - 'a' as u8 + 10) as nat)
    } else if 'A' <= c <= 'Z' {
        Some((c as u8 - 'A' as u8 + 10) as nat)
    } else {
        None
    }
}

/// The number that `digits` write in base `radix`, the first digit counting
/// most; `None` where one of them is no digit of that base. No digits write
/// zero.
pub open spec fn digits_value(digits: Seq<char>, radix: nat) -> Option<nat>
    decreases digits.len(),
{
    if digits.len() == 0 {
        Some(0)
    } else {
        match (digits_value(digits.drop_last(), radix), digit_value(digits.last())) {
            (Some(high), Some(low)) => if low < radix {
                Some(high * radix + low)
            } else {
                None
            },
            _ => None,
        }
    }
}

/// The byte that `text` writes in base `radix`: an optional `+`, then one
/// digit or more, which write no more than 255.
pub open spec fn spec_parse_radix(text: Seq<char>, radix: nat) -> Option<u8> {
    let digits = if text.len() > 1 && text[0] == '+' {
        text.skip(1)
    } else {
        text
    };
    if digits.len() == 0 {
        None
    } else {
        match digits_value(digits, radix) {
            Some(value) => if value <= u8::MAX {
                Some(value as u8)
            } else {
                None
            },
            None => None,
        }
    }
}

/// The byte that `text` writes: in base 2 behind `0b`, in base 16 behind
/// `0x`, else in base 10.
pub open spec fn spec_parse_u8(text: Seq<char>) -> Option<u8> {
    if text.len() >= 2 && text[0] == '0' && text[1] == 'b' {
        spec_parse_radix(text.skip(2), 2)
    } else if text.len() >= 2 && text[0] == '0' && text[1] == 'x' {
        spec_parse_radix(text.skip(2), 16)
    } else {
        spec_parse_radix(text, 10)
    }
}

/// The bytes that `words` write, one each; `None` where one of them writes
/// none.
pub open spec fn spec_parse_all(words: Seq<Seq<char>>) -> Option<Seq<u8>> {
    if forall|i: int| 0 <= i < words.len() ==> (#[trigger] spec_parse_u8(words[i])) is Some {
        Some(Seq::new(words.len(), |i: int| spec_parse_u8(words[i])->0))
    } else {
        None
    }
}

/// A command of the device client as specifications see it: `Command` with
/// the parameters as a sequence.
pub enum SpecCommand {
    /// Ask the device who it is.
    Identify,
    /// Ask the device for its state.
    Status,
    /// Run the command `cmd` of the device with `params`.
    Command { cmd: u8, params: Seq<u8> },
}

/// The command that the line `text` writes. The first word names it, in
/// either case. `identify` and `status` take no notice of further words;
/// `command` wants the number of the command and takes every further word
/// for a parameter.
pub open spec fn spec_parse_cmd(text: Seq<char>) -> Option<SpecCommand> {
    let words = split_words(text);
    let keyword = lower(words[0]);
    if keyword == "identify"@ {
        Some(SpecCommand::Identify)
    } else if keyword == "status"@ {
        Some(SpecCommand::Status)
    } else if keyword == "command"@ && words.len() >= 2 {
        match (spec_parse_u8(words[1]), spec_parse_all(words.skip(2))) {
            (Some(cmd), Some(params)) => Some(SpecCommand::Command { cmd, params }),
            _ => None,
        }
    } else {
        None
    }
}

/// A prefix of digits writes nothing where the whole writes nothing, and no
/// more than the whole.
pub proof fn lemma_digits_prefix(digits: Seq<char>, radix: nat, k: int)
    requires
        0 <= k <= digits.len(),
        radix >= 1,
    ensures
        digits_value(digits.take(k), radix) is None ==> digits_value(digits, radix) is None,
        digits_value(digits, radix) is Some ==> digits_value(digits.take(k), radix)->0
            <= digits_value(digits, radix)->0,
    decreases digits.len() - k,
{
    if k == digits.len() {
        assert(digits.take(k) =~= digits);
    } else {
        let front = digits.drop_last();
        assert(front.take(k) =~= digits.take(k));
        lemma_digits_prefix(front, radix, k);
        if digits_value(digits, radix) is Some {
            let high = digits_value(front, radix)->0;
            assert(high * radix >= high) by (nonlinear_arith)
                requires
                    radix >= 1,
                    high >= 0,
            ;
        }
    }
}

/// A command of the device client.
#[derive(Debug, PartialEq, Eq)]
pub enum Command {
    /// Ask the device who it is.
    Identify,
    /// Ask the device for its state.
    Status,
    /// Run the command `cmd` of the device with `params`.
    Command { cmd: u8, params: Vec<u8> },
}

impl View for Command {
    type V = SpecCommand;

    open spec fn view(&self) -> SpecCommand {
        match self {
            Command::Identify => SpecCommand::Identify,
            Command::Status => SpecCommand::Status,
            Command::Command { cmd, params } => SpecCommand::Command { cmd: *cmd, params: params@ },
        }
    }
}

/// The value of `c` as a digit of a base up to 36.
fn digit(c: char) -> (value: Option<u8>)
    ensures
        match value {
            Some(v) => digit_value(c) == Some(v as nat),
            None => digit_value(c) is None,
        },
{
    if c >= '0' && c <= '9' {
        Some(c as u8 - '0' as u8)
    } else if c >= 'a' && c <= 'z' {
        Some(c as u8 - 'a' as u8 + 10)
    } else if c >= 'A' && c <= 'Z' {
        Some(c as u8 - 'A' as u8 + 10)
    } else {
        None
    }
}

/// The byte that `text` writes in base `radix`.
fn parse_radix(text: &[char], radix: u8) -> (value: Option<u8>)
    requires
        2 <= radix <= 36,
    ensures
        value == spec_parse_radix(text@, radix as nat),
{
    let len = text.len();
    let start: usize = if len > 1 && text[0] == '+' {
        1
    } else {
        0
    };
    if start == len {
        return None;
    }
    let ghost digits = text@.skip(start as int);
    proof {
        assert(text@.skip(0) =~= text@);
        assert(digits.take(0) =~= Seq::<char>::empty());
    }
    let mut value: u16 = 0;
    let mut i: usize = start;
    while i < len
        invariant
            start <= i <= len == text@.len(),
            2 <= radix <= 36,
            digits.len() > 0,
            digits == if text@.len() > 1 && text@[0] == '+' {
                text@.skip(1)
            } else {
                text@
            },
            digits == text@.skip(start as int),
            digits_value(digits.take(i - start), radix as nat) == Some(value as nat),
            value <= u8::MAX,
        decreases len - i,
    {
        let ghost next = digits.take(i - start + 1);
        proof {
            assert(next.drop_last() =~= digits.take(i - start));
            assert(next.last() == text@[i as int]);
            lemma_digits_prefix(digits, radix as nat, i - start + 1);
        }
        match digit(text[i]) {
            Some(low) => {
                if low >= radix {
                    return None;
                }
                assert(value * radix + low <= 255 * 36 + 35) by (nonlinear_arith)
                    requires
                        value <= 255,
                        radix <= 36,
                        low <= 35,
                ;
                value = value * (radix as u16) + low as u16;
                if value > 255 {
                    return None;
                }
            },
            None => {
                return None;
            },
        }
        i = i + 1;
    }
    proof {
        assert(digits.take(len - start) =~= digits);
    }
    Some(value as u8)
}

/// The byte that the characters `text` write.
fn parse_u8_chars(text: &[char]) -> (value: Option<u8>)
    ensures
        value == spec_parse_u8(text@),
{
    let len = text.len();
    if len >= 2 && text[0] == '0' && text[1] == 'b' {
        parse_radix(slice_subrange(text, 2, len), 2)
    } else if len >= 2 && text[0] == '0' && text[1] == 'x' {
        parse_radix(slice_subrange(text, 2, len), 16)
    } else {
        parse_radix(text, 10)
    }
}

/// The byte that `s` writes: in base 2 behind `0b`, in base 16 behind `0x`,
/// else in base 10. In each base an optional `+` and one digit or more, which
/// write no more than 255; `None` for any other text.
pub fn parse_u8(s: &str) -> (value: Option<u8>)
    ensures
        value == spec_parse_u8(s@),
{
    let chars = to_chars(s);
    parse_u8_chars(chars.as_slice())
}

/// The command that the line `cmd` writes, `None` where it writes none.
pub fn parse_cmd(cmd: &str) -> (command: Option<Command>)
    ensures
        match command {
            Some(c) => spec_parse_cmd(cmd@) == Some(c@),
            None => spec_parse_cmd(cmd@) is None,
        },
{
    let chars = to_chars(cmd);
    let text = chars.as_slice();
    let bounds = word_bounds(text);
    let ghost words = split_words(cmd@);
    let keyword = slice_subrange(text, bounds[0].0, bounds[0].1);
    if word_is_lower(keyword, "identify") {
        Some(Command::Identify)
    } else if word_is_lower(keyword, "status") {
        Some(Command::Status)
    } else if word_is_lower(keyword, "command") {
        if bounds.len() < 2 {
            return None;
        }
        let number = match parse_u8_chars(slice_subrange(text, bounds[1].0, bounds[1].1)) {
            Some(number) => number,
            None => {
                return None;
            },
        };
        let mut params: Vec<u8> = Vec::new();
        let mut w: usize = 2;
        while w < bounds.len()
            invariant
                2 <= w <= bounds@.len() == words.len(),
                text@ == cmd@,
                words == split_words(cmd@),
                lower(words[0]) != "identify"@,
                lower(words[0]) != "status"@,
                lower(words[0]) == "command"@,
                spec_parse_u8(words[1]) == Some(number),
                forall|k: int|
                    #![trigger bounds@[k]]
                    0 <= k < bounds@.len() ==> bounds@[k].0 <= bounds@[k].1 <= text@.len()
                        && words[k] == text@.subrange(bounds@[k].0 as int, bounds@[k].1 as int),
                params@.len() == w - 2,
                forall|k: int|
                    2 <= k < w ==> (#[trigger] spec_parse_u8(words[k])) == Some(params@[k - 2]),
            decreases bounds@.len() - w,
        {
            match parse_u8_chars(slice_subrange(text, bounds[w].0, bounds[w].1)) {
                Some(param) => {
                    params.push(param);
                },
                None => {
                    proof {
                        assert(words.skip(2)[w - 2] == words[w as int]);
                        assert(spec_parse_u8(words.skip(2)[w - 2]) is None);
                    }
                    return None;
                },
            }
            w = w + 1;
        }
        proof {
            let rest = words.skip(2);
            assert forall|i: int| 0 <= i < rest.len() implies (#[trigger] spec_parse_u8(
                rest[i],
            )) is Some by {
                assert(rest[i] == words[i + 2]);
            }
            assert(spec_parse_all(rest)->0 =~= params@) by {
                assert forall|i: int| 0 <= i < rest.len() implies spec_parse_all(rest)->0[i]
                    == params@[i] by {
                    assert(rest[i] == words[i + 2]);
                }
            }
        }
        Some(Command::Command { cmd: number, params })
    } else {
        None
    }
}

/// The id of every packet that the client sends.
pub const REQUEST_ID: u8 = 0;

/// A packet that the client sends.
#[derive(Clone, Copy, Debug, PartialEq, Eq, Structural)]
pub enum Request {
    /// Asks the device who it is.
    Identify,
    /// Asks the device for its state.
    Status,
}

/// The packet that carries out `command`. There is none for
/// `Command::Command`: the client cannot send it.
pub open spec fn spec_request_for(command: SpecCommand) -> Option<Request> {
    match command {
        SpecCommand::Identify => Some(Request::Identify),
        SpecCommand::Status => Some(Request::Status),
        SpecCommand::Command { .. } => None,
    }
}

/// Whether a packet of the kind `answer` answers `request`: an identify is
/// answered by `OnIdentify`, a status by `OnStatus`, and by nothing else.
pub open spec fn spec_answers(request: Request, answer: PacketKind) -> bool {
    match request {
        Request::Identify => answer == PacketKind::OnIdentify,
        Request::Status => answer == PacketKind::OnStatus,
    }
}

/// The packet that carries out `command`, if the client can send one.
pub fn request_for(command: &Command) -> (request: Option<Request>)
    ensures
        request == spec_request_for(command@),
{
    match command {
        Command::Identify => Some(Request::Identify),
        Command::Status => Some(Request::Status),
        Command::Command { .. } => None,
    }
}

/// Whether a packet of the kind `answer` answers `request`.
pub fn answers(request: Request, answer: PacketKind) -> (fits: bool)
    ensures
        fits == spec_answers(request, answer),
{
    match (request, answer) {
        (Request::Identify, PacketKind::OnIdentify) => true,
        (Request::Status, PacketKind::OnStatus) => true,
        _ => false,
    }
}

} // verus!
