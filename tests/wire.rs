use msgpack_simple::MsgPack;
use nvhoist::wire::{encode_notification, COMMAND_METHOD, NOTIFICATION_KIND};

fn expected(command: &str) -> Vec<u8> {
    let mut out = vec![0x93, 0x02, 0xac];
    out.extend_from_slice(b"nvim_command");
    out.push(0x91);
    let n = command.len();
    if n < 32 {
        out.push(0xa0 | n as u8);
    } else if n < 0x100 {
        out.push(0xd9);
        out.push(n as u8);
    } else if n < 0x1_0000 {
        out.push(0xda);
        out.push((n >> 8) as u8);
        out.push(n as u8);
    } else {
        out.push(0xdb);
        out.extend_from_slice(&(n as u32).to_be_bytes());
    }
    out.extend_from_slice(command.as_bytes());
    out
}

fn decoded_command(bytes: &[u8]) -> String {
    let value = MsgPack::parse(bytes).expect("parses");
    let items = value.as_array().expect("array");
    assert_eq!(items.len(), 3);
    assert_eq!(items[0].clone().as_int().expect("int"), 2);
    assert_eq!(items[1].clone().as_string().expect("string"), "nvim_command");
    let params = items[2].clone().as_array().expect("params");
    assert_eq!(params.len(), 1);
    params[0].clone().as_string().expect("command")
}

#[test]
fn split_command_bytes_are_exact() {
    let bytes = encode_notification("split /tmp/x.txt").expect("encodes");
    let mut want = vec![0x93, 0x02, 0xac];
    want.extend_from_slice(b"nvim_command");
    want.push(0x91);
    want.push(0xb0);
    want.extend_from_slice(b"split /tmp/x.txt");
    assert_eq!(bytes, want);
}

#[test]
fn constants_of_the_message() {
    assert_eq!(NOTIFICATION_KIND, 2);
    assert_eq!(COMMAND_METHOD, "nvim_command");
}

#[test]
fn empty_command_round_trips() {
    let bytes = encode_notification("").expect("encodes");
    assert_eq!(bytes, expected(""));
    assert_eq!(*bytes.last().unwrap(), 0xa0);
    assert_eq!(decoded_command(&bytes), "");
}

#[test]
fn control_characters_round_trip() {
    let command = "split \u{0}\t\n\u{1b}[0m\u{7f}";
    let bytes = encode_notification(command).expect("encodes");
    assert_eq!(bytes, expected(command));
    assert_eq!(decoded_command(&bytes), command);
}

#[test]
fn non_ascii_command_round_trips() {
    let command = "split /tmp/caf\u{e9}/\u{1f600}.txt";
    let bytes = encode_notification(command).expect("encodes");
    assert_eq!(bytes, expected(command));
    assert_eq!(decoded_command(&bytes), command);
}

#[test]
fn command_of_forty_bytes_takes_one_length_byte() {
    let command = "x".repeat(40);
    let bytes = encode_notification(&command).expect("encodes");
    assert_eq!(bytes[16], 0xd9);
    assert_eq!(bytes[17], 40);
    assert_eq!(bytes, expected(&command));
    assert_eq!(decoded_command(&bytes), command);
}

#[test]
fn command_of_two_hundred_bytes_takes_one_length_byte() {
    let command = "y".repeat(200);
    let bytes = encode_notification(&command).expect("encodes");
    assert_eq!(&bytes[16..18], &[0xd9, 200]);
    assert_eq!(bytes.len(), 18 + 200);
    assert_eq!(bytes, expected(&command));
    assert_eq!(decoded_command(&bytes), command);
}

#[test]
fn command_of_thirty_one_bytes_is_a_fixstr() {
    let command = "z".repeat(31);
    let bytes = encode_notification(&command).expect("encodes");
    assert_eq!(bytes[16], 0xbf);
    assert_eq!(bytes.len(), 17 + 31);
}

#[test]
fn command_of_255_bytes_takes_one_length_byte() {
    let command = "q".repeat(255);
    let bytes = encode_notification(&command).expect("encodes");
    assert_eq!(&bytes[16..18], &[0xd9, 0xff]);
    assert_eq!(bytes, expected(&command));
    assert_eq!(decoded_command(&bytes), command);
}

#[test]
fn command_of_256_bytes_takes_two_length_bytes() {
    let command = "r".repeat(256);
    let bytes = encode_notification(&command).expect("encodes");
    assert_eq!(&bytes[16..19], &[0xda, 0x01, 0x00]);
    assert_eq!(bytes, expected(&command));
    assert_eq!(decoded_command(&bytes), command);
}

#[test]
fn command_of_forty_thousand_bytes_takes_two_length_bytes() {
    let command = "s".repeat(40000);
    let bytes = encode_notification(&command).expect("encodes");
    assert_eq!(&bytes[16..19], &[0xda, 0x9c, 0x40]);
    assert_eq!(bytes, expected(&command));
    assert_eq!(decoded_command(&bytes), command);
}

#[test]
fn command_of_65536_bytes_takes_four_length_bytes() {
    let command = "t".repeat(65536);
    let bytes = encode_notification(&command).expect("encodes");
    assert_eq!(&bytes[16..21], &[0xdb, 0x00, 0x01, 0x00, 0x00]);
    assert_eq!(bytes, expected(&command));
    assert_eq!(decoded_command(&bytes), command);
}
