//! What a conforming msgpack reader makes of a call message, and the proof
//! that it reads every encoded notification back unchanged.

use crate::wire::{
    array_header, be_bytes, encodable, int_bytes, notification_bytes, pow256, str_bytes,
    str_header, COMMAND_METHOD, NOTIFICATION_KIND,
};
use vstd::prelude::*;
use vstd::utf8::{
    decode_utf8, encode_utf8, encode_utf8_decode_utf8, encode_utf8_valid_utf8, is_ascii_chars,
    is_ascii_chars_encode_utf8, valid_utf8,
};

verus! {

/// The number whose base-256 digits, most significant first, are `b`.
pub open spec fn be_value(b: Seq<u8>) -> nat
    decreases b.len(),
{
    if b.len() == 0 {
        0
    } else {
        be_value(b.drop_last()) * 256 + b.last() as nat
    }
}

/// The bytes of `b` from `start` on.
pub open spec fn tail(b: Seq<u8>, start: nat) -> Seq<u8> {
    b.subrange(start as int, b.len() as int)
}

/// The big-endian number in the `k` bytes after the tag byte.
pub open spec fn field(b: Seq<u8>, k: nat) -> nat {
    be_value(b.subrange(1, 1 + k as int))
}

/// The signed number whose `k`-byte two's-complement pattern is `n`.
pub open spec fn signed(n: nat, k: nat) -> int {
    if n >= pow256(k) / 2 {
        n - pow256(k)
    } else {
        n as int
    }
}

/// An integer at the start of `b`, in any of the format's integer forms, and
/// the number of bytes it takes.
pub open spec fn decode_int(b: Seq<u8>) -> Option<(int, nat)> {
    if b.len() == 0 {
        None
    } else {
        let h = b[0];
        let width: nat = if h == 0xcc || h == 0xd0 {
            1
        } else if h == 0xcd || h == 0xd1 {
            2
        } else if h == 0xce || h == 0xd2 {
            4
        } else {
            8
        };
        if h < 0x80 {
            Some((h as int, 1))
        } else if h >= 0xe0 {
            Some((h - 256, 1))
        } else if (0xcc <= h <= 0xcf || 0xd0 <= h <= 0xd3) && b.len() >= 1 + width {
            let n = field(b, width);
            if h <= 0xcf {
                Some((n as int, 1 + width))
            } else {
                Some((signed(n, width), 1 + width))
            }
        } else {
            None
        }
    }
}

/// The byte length of a string at the start of `b` and the size of its header.
pub open spec fn decode_str_header(b: Seq<u8>) -> Option<(nat, nat)> {
    if b.len() == 0 {
        None
    } else if 0xa0 <= b[0] <= 0xbf {
        Some(((b[0] - 0xa0) as nat, 1))
    } else if b[0] == 0xd9 && b.len() >= 2 {
        Some((b[1] as nat, 2))
    } else if b[0] == 0xda && b.len() >= 3 {
        Some((field(b, 2), 3))
    } else if b[0] == 0xdb && b.len() >= 5 {
        Some((field(b, 4), 5))
    } else {
        None
    }
}

/// A string at the start of `b` and the number of bytes it takes.
pub open spec fn decode_str(b: Seq<u8>) -> Option<(Seq<char>, nat)> {
    match decode_str_header(b) {
        Some((len, h)) => {
            let payload = b.subrange(h as int, (h + len) as int);
            if h + len <= b.len() && valid_utf8(payload) {
                Some((decode_utf8(payload), h + len))
            } else {
                None
            }
        },
        None => None,
    }
}

/// The element count of an array at the start of `b` and the size of its header.
pub open spec fn decode_array_header(b: Seq<u8>) -> Option<(nat, nat)> {
    if b.len() == 0 {
        None
    } else if 0x90 <= b[0] <= 0x9f {
        Some(((b[0] - 0x90) as nat, 1))
    } else if b[0] == 0xdc && b.len() >= 3 {
        Some((field(b, 2), 3))
    } else if b[0] == 0xdd && b.len() >= 5 {
        Some((field(b, 4), 5))
    } else {
        None
    }
}

/// `n` strings, one after another, at the start of `b`, and the bytes they take.
pub open spec fn decode_strs(b: Seq<u8>, n: nat) -> Option<(Seq<Seq<char>>, nat)>
    decreases n,
{
    if n == 0 {
        Some((Seq::empty(), 0))
    } else {
        match decode_str(b) {
            Some((s, k)) => match decode_strs(tail(b, k), (n - 1) as nat) {
                Some((rest, j)) => Some((seq![s] + rest, k + j)),
                None => None,
            },
            None => None,
        }
    }
}

/// The kind, method and string parameters of a call message that takes up
/// all of `b`: an array of three elements, an integer, a string and an array
/// of strings.
pub open spec fn decode_message(b: Seq<u8>) -> Option<(int, Seq<char>, Seq<Seq<char>>)> {
    match decode_array_header(b) {
        Some((n, a)) => {
            let b1 = tail(b, a);
            match decode_int(b1) {
                Some((kind, i)) => {
                    let b2 = tail(b1, i);
                    match decode_str(b2) {
                        Some((method, m)) => {
                            let b3 = tail(b2, m);
                            match decode_array_header(b3) {
                                Some((np, p)) => {
                                    let b4 = tail(b3, p);
                                    match decode_strs(b4, np) {
                                        Some((params, q)) => if n == 3 && q == b4.len() {
                                            Some((kind, method, params))
                                        } else {
                                            None
                                        },
                                        None => None,
                                    }
                                },
                                None => None,
                            }
                        },
                        None => None,
                    }
                },
                None => None,
            }
        },
        None => None,
    }
}

proof fn lemma_be_round_trip(n: nat, k: nat)
    requires
        n < pow256(k),
    ensures
        be_bytes(n, k).len() == k,
        be_value(be_bytes(n, k)) == n,
    decreases k,
{
    if k > 0 {
        let p = pow256((k - 1) as nat);
        assert(n / 256 < p) by (nonlinear_arith)
            requires
                n < 256 * p,
        ;
        lemma_be_round_trip(n / 256, (k - 1) as nat);
        assert(be_bytes(n, k).drop_last() =~= be_bytes(n / 256, (k - 1) as nat));
    }
}

proof fn lemma_decode_str(s: Seq<char>, rest: Seq<u8>)
    requires
        encodable(s),
    ensures
        decode_str(str_bytes(s) + rest) == Some((s, str_bytes(s).len())),
{
    let u = encode_utf8(s);
    let len = u.len();
    let b = str_bytes(s) + rest;
    reveal_with_fuel(pow256, 5);
    if len >= 0x1_0000 {
        lemma_be_round_trip(len, 4);
        assert(b.subrange(1, 5) =~= be_bytes(len, 4));
    } else if len >= 0x100 {
        lemma_be_round_trip(len, 2);
        assert(b.subrange(1, 3) =~= be_bytes(len, 2));
    }
    let h = str_header(len).len();
    assert(b.subrange(h as int, (h + len) as int) =~= u);
    encode_utf8_valid_utf8(s);
    encode_utf8_decode_utf8(s);
}

proof fn lemma_decode_one_str(s: Seq<char>)
    requires
        encodable(s),
    ensures
        decode_strs(str_bytes(s), 1) == Some((seq![s], str_bytes(s).len())),
{
    let b = str_bytes(s);
    reveal_with_fuel(decode_strs, 2);
    lemma_decode_str(s, Seq::empty());
    assert(b + Seq::empty() =~= b);
    assert(seq![s] + Seq::<Seq<char>>::empty() =~= seq![s]);
}

/// Every notification that `encode_notification` produces reads back, under
/// the format's decoding rules, as exactly the notification kind, the command
/// method and the one parameter `command`, with no bytes left over.
pub proof fn lemma_notification_round_trip(command: Seq<char>)
    requires
        encodable(command),
    ensures
        decode_message(notification_bytes(command)) == Some(
            (NOTIFICATION_KIND as int, COMMAND_METHOD@, seq![command]),
        ),
{
    reveal_strlit("nvim_command");
    assert(is_ascii_chars(COMMAND_METHOD@));
    is_ascii_chars_encode_utf8(COMMAND_METHOD@);
    let method = COMMAND_METHOD@;
    let a3 = array_header(3);
    let i2 = int_bytes(NOTIFICATION_KIND as int);
    let sm = str_bytes(method);
    let a1 = array_header(1);
    let sc = str_bytes(command);
    let b = notification_bytes(command);
    assert(b =~= a3 + (i2 + (sm + (a1 + sc))));
    let b1 = tail(b, 1);
    assert(b1 =~= i2 + (sm + (a1 + sc)));
    let b2 = tail(b1, 1);
    assert(b2 =~= sm + (a1 + sc));
    lemma_decode_str(method, a1 + sc);
    let b3 = tail(b2, sm.len());
    assert(b3 =~= a1 + sc);
    let b4 = tail(b3, 1);
    assert(b4 =~= sc);
    lemma_decode_one_str(command);
}

} // verus!
