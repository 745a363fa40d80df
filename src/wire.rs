//! The wire form of a notification: a msgpack array `[kind, method, [command]]`.
//!
//! The integer is encoded by msgpack_simple. String and array headers are
//! written here, each in the narrowest form that holds its length.

use msgpack_simple::MsgPack;
use vstd::prelude::*;
use vstd::slice::slice_to_vec;
use vstd::string::StringSliceAdditionalSpecFns;
use vstd::utf8::{encode_utf8, is_ascii_chars, is_ascii_chars_encode_utf8};

verus! {

/// Message kind that marks a one-way notification.
pub const NOTIFICATION_KIND: i64 = 2;

/// Method that runs an editor command.
pub const COMMAND_METHOD: &'static str = "nvim_command";

/// Largest byte length of a string that the format's length prefix can hold.
pub const MAX_STR_LEN: usize = 0xffff_ffff;

/// The last `k` base-256 digits of `n`, most significant first.
pub open spec fn be_bytes(n: nat, k: nat) -> Seq<u8>
    decreases k,
{
    if k == 0 {
        Seq::empty()
    } else {
        be_bytes(n / 256, (k - 1) as nat).push((n % 256) as u8)
    }
}

/// `v` modulo `2^(8k)`, the two's-complement bit pattern of `v` in `k` bytes.
pub open spec fn twos(v: int, k: nat) -> nat {
    let m = pow256(k);
    (((v % m) + m) % m) as nat
}

pub open spec fn pow256(k: nat) -> int
    decreases k,
{
    if k == 0 {
        1
    } else {
        256 * pow256((k - 1) as nat)
    }
}

/// Bytes of a signed integer, in the narrowest form the encoder picks.
pub open spec fn int_bytes(v: int) -> Seq<u8> {
    if 0 <= v < 128 {
        seq![v as u8]
    } else if -32 < v < 0 {
        seq![(v + 256) as u8]
    } else if -0x80 <= v < 0x80 {
        seq![0xd0u8].add(be_bytes(twos(v, 1), 1))
    } else if -0x8000 <= v < 0x8000 {
        seq![0xd1u8].add(be_bytes(twos(v, 2), 2))
    } else if -0x8000_0000 <= v < 0x8000_0000 {
        seq![0xd2u8].add(be_bytes(twos(v, 4), 4))
    } else {
        seq![0xd3u8].add(be_bytes(twos(v, 8), 8))
    }
}

/// Type tag and length prefix of a string whose UTF-8 form has `len` bytes,
/// in the narrowest of the four forms that holds `len`: the length in the tag
/// byte (under 32), then in one, two or four bytes after the tag.
pub open spec fn str_header(len: nat) -> Seq<u8> {
    if len < 32 {
        seq![(0xa0 + len) as u8]
    } else if len < 0x100 {
        seq![0xd9u8, len as u8]
    } else if len < 0x1_0000 {
        seq![0xdau8].add(be_bytes(len, 2))
    } else {
        seq![0xdbu8].add(be_bytes(len, 4))
    }
}

/// Bytes of a string: its header, then its UTF-8 form.
pub open spec fn str_bytes(s: Seq<char>) -> Seq<u8> {
    str_header(encode_utf8(s).len()).add(encode_utf8(s))
}

/// Type tag and length prefix of an array of `len` elements, in the
/// narrowest of the three forms that holds `len`: the count in the tag byte
/// (under 16), then in two or four bytes after the tag.
pub open spec fn array_header(len: nat) -> Seq<u8> {
    if len < 16 {
        seq![(0x90 + len) as u8]
    } else if len < 0x1_0000 {
        seq![0xdcu8].add(be_bytes(len, 2))
    } else {
        seq![0xddu8].add(be_bytes(len, 4))
    }
}

/// Bytes of the array `[kind, method, [command]]`.
pub open spec fn message_bytes(kind: int, method: Seq<char>, command: Seq<char>) -> Seq<u8> {
    array_header(3).add(int_bytes(kind)).add(str_bytes(method)).add(array_header(1)).add(
        str_bytes(command),
    )
}

/// Bytes of the notification that asks the editor to run `command`.
pub open spec fn notification_bytes(command: Seq<char>) -> Seq<u8> {
    message_bytes(NOTIFICATION_KIND as int, COMMAND_METHOD@, command)
}

/// Whether a string fits the format's length prefix.
pub open spec fn encodable(command: Seq<char>) -> bool {
    encode_utf8(command).len() <= MAX_STR_LEN
}

/// Relies on msgpack_simple's `MsgPack::encode` on an `Int`: the tag and
/// width that its integer branch picks, then the value big-endian.
#[verifier::external_body]
fn encode_int(v: i64) -> (r: Vec<u8>)
    ensures
        r@ == int_bytes(v as int),
{
    MsgPack::Int(v).encode()
}

/// The last two bytes of `n`, most significant first.
fn be16(n: usize) -> (r: [u8; 2])
    ensures
        r@ == be_bytes(n as nat, 2),
{
    reveal_with_fuel(be_bytes, 3);
    [((n / 256) % 256) as u8, (n % 256) as u8]
}

/// The last four bytes of `n`, most significant first.
fn be32(n: usize) -> (r: [u8; 4])
    ensures
        r@ == be_bytes(n as nat, 4),
{
    reveal_with_fuel(be_bytes, 5);
    let r = [
        ((n / 256 / 256 / 256) % 256) as u8,
        ((n / 256 / 256) % 256) as u8,
        ((n / 256) % 256) as u8,
        (n % 256) as u8,
    ];
    assert(r@ =~= be_bytes(n as nat, 4));
    r
}

/// Appends the bytes of `bytes` to `out`.
fn push_all(out: &mut Vec<u8>, bytes: &[u8])
    ensures
        final(out)@ == old(out)@ + bytes@,
{
    let mut tail = slice_to_vec(bytes);
    out.append(&mut tail);
}

/// Appends a string header for a UTF-8 length of `len` bytes.
fn push_str_header(out: &mut Vec<u8>, len: usize)
    requires
        len <= MAX_STR_LEN,
    ensures
        final(out)@ == old(out)@ + str_header(len as nat),
{
    if len < 32 {
        out.push(0xa0u8 + len as u8);
    } else if len < 0x100 {
        out.push(0xd9u8);
        out.push(len as u8);
    } else if len < 0x1_0000 {
        out.push(0xdau8);
        push_all(out, &be16(len));
    } else {
        out.push(0xdbu8);
        push_all(out, &be32(len));
    }
    assert(final(out)@ =~= old(out)@ + str_header(len as nat));
}

/// Appends the encoding of the string `s`.
fn push_str(out: &mut Vec<u8>, s: &str)
    requires
        encodable(s@),
    ensures
        final(out)@ == old(out)@ + str_bytes(s@),
{
    let bytes = s.as_bytes();
    push_str_header(out, bytes.len());
    push_all(out, bytes);
    assert(final(out)@ =~= old(out)@ + str_bytes(s@));
}

/// Appends an array header for `len` elements.
fn push_array_header(out: &mut Vec<u8>, len: usize)
    requires
        len <= MAX_STR_LEN,
    ensures
        final(out)@ == old(out)@ + array_header(len as nat),
{
    if len < 16 {
        out.push(0x90u8 + len as u8);
    } else if len < 0x1_0000 {
        out.push(0xdcu8);
        push_all(out, &be16(len));
    } else {
        out.push(0xddu8);
        push_all(out, &be32(len));
    }
    assert(final(out)@ =~= old(out)@ + array_header(len as nat));
}

/// Encodes the notification that asks the editor to run `command`.
///
/// Fails with `None` only where the command's UTF-8 form is longer than a
/// string length prefix can state.
pub fn encode_notification(command: &str) -> (r: Option<Vec<u8>>)
    ensures
        r.is_some() <==> encodable(command@),
        r matches Some(b) ==> b@ == notification_bytes(command@),
{
    if command.as_bytes().len() > MAX_STR_LEN {
        return None;
    }
    proof {
        reveal_strlit("nvim_command");
        assert(is_ascii_chars(COMMAND_METHOD@));
        is_ascii_chars_encode_utf8(COMMAND_METHOD@);
    }
    let mut out: Vec<u8> = Vec::new();
    push_array_header(&mut out, 3);
    let mut kind = encode_int(NOTIFICATION_KIND);
    out.append(&mut kind);
    push_str(&mut out, COMMAND_METHOD);
    push_array_header(&mut out, 1);
    push_str(&mut out, command);
    assert(out@ =~= notification_bytes(command@));
    Some(out)
}

} // verus!
