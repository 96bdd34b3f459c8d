use tusk::dio::{answers, parse_cmd, parse_u8, request_for, Command, Request, REQUEST_ID};
use tusk::protocol::PacketKind;

fn by_radix(s: &str) -> Option<u8> {
    let bytes = s.as_bytes();
    if bytes.len() >= 2 && &bytes[0..2] == b"0b" {
        u8::from_str_radix(&s[2..], 2).ok()
    } else if bytes.len() >= 2 && &bytes[0..2] == b"0x" {
        u8::from_str_radix(&s[2..], 16).ok()
    } else {
        u8::from_str_radix(s, 10).ok()
    }
}

#[test]
fn parse_u8_decimal() {
    assert_eq!(parse_u8("0"), Some(0));
    assert_eq!(parse_u8("7"), Some(7));
    assert_eq!(parse_u8("42"), Some(42));
    assert_eq!(parse_u8("255"), Some(255));
    assert_eq!(parse_u8("256"), None);
    assert_eq!(parse_u8("1000"), None);
    assert_eq!(parse_u8("00000000000000000000000000255"), Some(255));
    assert_eq!(parse_u8("+5"), Some(5));
    assert_eq!(parse_u8("-5"), None);
    assert_eq!(parse_u8("+"), None);
    assert_eq!(parse_u8("++5"), None);
    assert_eq!(parse_u8(""), None);
    assert_eq!(parse_u8(" 5"), None);
    assert_eq!(parse_u8("5 "), None);
    assert_eq!(parse_u8("1_0"), None);
    assert_eq!(parse_u8("a"), None);
    assert_eq!(parse_u8("٣"), None);
}

#[test]
fn parse_u8_binary() {
    assert_eq!(parse_u8("0b0"), Some(0));
    assert_eq!(parse_u8("0b101"), Some(5));
    assert_eq!(parse_u8("0b11111111"), Some(255));
    assert_eq!(parse_u8("0b100000000"), None);
    assert_eq!(parse_u8("0b2"), None);
    assert_eq!(parse_u8("0b"), None);
    assert_eq!(parse_u8("0b+1"), Some(1));
    assert_eq!(parse_u8("0B1"), None);
}

#[test]
fn parse_u8_hexadecimal() {
    assert_eq!(parse_u8("0x0"), Some(0));
    assert_eq!(parse_u8("0x4e"), Some(0x4e));
    assert_eq!(parse_u8("0x4E"), Some(0x4e));
    assert_eq!(parse_u8("0xff"), Some(255));
    assert_eq!(parse_u8("0xFF"), Some(255));
    assert_eq!(parse_u8("0x100"), None);
    assert_eq!(parse_u8("0xg"), None);
    assert_eq!(parse_u8("0x"), None);
    assert_eq!(parse_u8("0X1"), None);
    assert_eq!(parse_u8("ff"), None);
}

#[test]
fn parse_u8_without_char_boundary_behind_the_prefix() {
    assert_eq!(parse_u8("1é"), None);
    assert_eq!(parse_u8("€"), None);
    assert_eq!(parse_u8("é"), None);
}

#[test]
fn parse_u8_as_from_str_radix() {
    let mut texts: Vec<String> = Vec::new();
    let alphabet = ['0', '1', '2', '9', 'a', 'f', 'F', 'g', 'b', 'x', '+', '-', ' ', '_'];
    for a in alphabet {
        texts.push(format!("{}", a));
        for b in alphabet {
            texts.push(format!("{}{}", a, b));
            for c in alphabet {
                texts.push(format!("{}{}{}", a, b, c));
                texts.push(format!("{}{}{}{}", a, b, c, c));
            }
        }
    }
    for n in 0..=300u32 {
        texts.push(format!("{}", n));
        texts.push(format!("0x{:x}", n));
        texts.push(format!("0x{:X}", n));
        texts.push(format!("0b{:b}", n));
        texts.push(format!("+{:03}", n));
    }
    for text in texts {
        assert_eq!(parse_u8(&text), by_radix(&text), "{:?}", text);
    }
}

#[test]
fn parse_cmd_keywords() {
    assert_eq!(parse_cmd("identify"), Some(Command::Identify));
    assert_eq!(parse_cmd("IDENTIFY"), Some(Command::Identify));
    assert_eq!(parse_cmd("Identify now please"), Some(Command::Identify));
    assert_eq!(parse_cmd("status"), Some(Command::Status));
    assert_eq!(parse_cmd("StAtUs 1 2 3"), Some(Command::Status));
    assert_eq!(parse_cmd(""), None);
    assert_eq!(parse_cmd(" identify"), None);
    assert_eq!(parse_cmd("identif"), None);
    assert_eq!(parse_cmd("identifyy"), None);
    assert_eq!(parse_cmd("ping"), None);
}

#[test]
fn parse_cmd_command() {
    assert_eq!(parse_cmd("command 1"), Some(Command::Command { cmd: 1, params: vec![] }));
    assert_eq!(
        parse_cmd("command 0x02 0b11 4 0xff"),
        Some(Command::Command { cmd: 2, params: vec![3, 4, 255] })
    );
    assert_eq!(
        parse_cmd("COMMAND 255 0"),
        Some(Command::Command { cmd: 255, params: vec![0] })
    );
    assert_eq!(parse_cmd("command"), None);
    assert_eq!(parse_cmd("command "), None);
    assert_eq!(parse_cmd("command x"), None);
    assert_eq!(parse_cmd("command 256"), None);
    assert_eq!(parse_cmd("command 1 2 x"), None);
    assert_eq!(parse_cmd("command 1 256"), None);
    // two spaces enclose an empty word, which is no number
    assert_eq!(parse_cmd("command 1  2"), None);
    assert_eq!(parse_cmd("command 1 "), None);
}

#[test]
fn requests_and_their_answers() {
    assert_eq!(REQUEST_ID, 0);
    assert_eq!(request_for(&Command::Identify), Some(Request::Identify));
    assert_eq!(request_for(&Command::Status), Some(Request::Status));
    assert_eq!(request_for(&Command::Command { cmd: 1, params: vec![2] }), None);

    assert!(answers(Request::Identify, PacketKind::OnIdentify));
    assert!(answers(Request::Status, PacketKind::OnStatus));
    assert!(!answers(Request::Identify, PacketKind::OnStatus));
    assert!(!answers(Request::Status, PacketKind::OnIdentify));
    for other in [
        PacketKind::Connect { send_status: true, status_time: 10 },
        PacketKind::Disconnect,
        PacketKind::Identify,
        PacketKind::Status,
        PacketKind::Cmd,
        PacketKind::Error,
        PacketKind::OnConnect,
        PacketKind::OnCmd,
    ] {
        assert!(!answers(Request::Identify, other));
        assert!(!answers(Request::Status, other));
    }
}
