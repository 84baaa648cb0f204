//! The bus wire format: commands as CBOR, a tagged union under the keys
//! `t` (tag) and `c` (content).
//!
//! A command is a CBOR map. A unit command is `{"t": <name>}`; the one
//! command with a payload is `{"t": "FocusWindow", "c": {"url": <text or
//! null>}}`. Text is encoded in the canonical (shortest-header) form, and
//! the decoder accepts exactly what the encoder emits, so decoding is the
//! inverse of encoding.

use vstd::prelude::*;
use vstd::slice::slice_index_get;
use vstd::utf8::{encode_utf8, decode_utf8, valid_utf8, is_ascii_chars};
use crate::ipc::{IpcCommand, FocusWindowCommand};

verus! {

broadcast use vstd::string::group_string_axioms;

/// The canonical CBOR header for a text string of `len` bytes: the
/// shortest form that can carry the length.
pub open spec fn cbor_text_header(len: int) -> Seq<u8> {
    if len < 24 {
        seq![(0x60 + len) as u8]
    } else if len < 256 {
        seq![0x78u8, (len % 256) as u8]
    } else if len < 65536 {
        seq![0x79u8, ((len / 256) % 256) as u8, (len % 256) as u8]
    } else if len < 0x100000000 {
        seq![
            0x7au8,
            ((len / 0x1000000) % 256) as u8,
            ((len / 0x10000) % 256) as u8,
            ((len / 256) % 256) as u8,
            (len % 256) as u8,
        ]
    } else {
        seq![
            0x7bu8,
            ((len / 0x100000000000000) % 256) as u8,
            ((len / 0x1000000000000) % 256) as u8,
            ((len / 0x10000000000) % 256) as u8,
            ((len / 0x100000000) % 256) as u8,
            ((len / 0x1000000) % 256) as u8,
            ((len / 0x10000) % 256) as u8,
            ((len / 256) % 256) as u8,
            (len % 256) as u8,
        ]
    }
}

/// A CBOR text string: canonical header, then the UTF-8 bytes.
pub open spec fn cbor_text(s: Seq<char>) -> Seq<u8> {
    cbor_text_header(encode_utf8(s).len() as int) + encode_utf8(s)
}

/// The tag naming each command variant.
pub open spec fn tag_of(cmd: IpcCommand) -> Seq<char> {
    match cmd {
        IpcCommand::FocusWindow(_) => "FocusWindow"@,
        IpcCommand::UpdateProfileList => "UpdateProfileList"@,
        IpcCommand::CloseManager => "CloseManager"@,
        IpcCommand::UpdateOptions => "UpdateOptions"@,
        IpcCommand::UpdateAvatars => "UpdateAvatars"@,
        IpcCommand::UpdateProfileOrder => "UpdateProfileOrder"@,
    }
}

/// The content part after the tag: empty for unit commands, the `c` entry
/// for `FocusWindow`.
pub open spec fn tail_of(cmd: IpcCommand) -> Seq<u8> {
    match cmd {
        IpcCommand::FocusWindow(f) => cbor_text("c"@) + seq![0xa1u8] + cbor_text("url"@) + (
        match f.url {
            None => seq![0xf6u8],
            Some(u) => cbor_text(u@),
        }),
        _ => Seq::empty(),
    }
}

/// How many entries the outer map carries.
pub open spec fn map_header_of(cmd: IpcCommand) -> u8 {
    if cmd is FocusWindow {
        0xa2u8
    } else {
        0xa1u8
    }
}

/// The full encoding of a bus command.
pub open spec fn encode_ipc_spec(cmd: IpcCommand) -> Seq<u8> {
    seq![map_header_of(cmd)] + cbor_text("t"@) + cbor_text(tag_of(cmd)) + tail_of(cmd)
}

/// A command fits on the wire when its URL's UTF-8 form does; every other
/// part is a short constant.
pub open spec fn encodable(cmd: IpcCommand) -> bool {
    match cmd {
        IpcCommand::FocusWindow(f) => match f.url {
            Some(u) => encode_utf8(u@).len() < 0x100000000,
            None => true,
        },
        _ => true,
    }
}


/// The key and tag literals of the wire format are short ASCII strings;
/// their UTF-8 forms have the literal's own length.
proof fn lemma_tag_lens()
    ensures
        encode_utf8("t"@).len() == 1,
        encode_utf8("c"@).len() == 1,
        encode_utf8("url"@).len() == 3,
        encode_utf8("FocusWindow"@).len() == 11,
        encode_utf8("UpdateProfileList"@).len() == 17,
        encode_utf8("CloseManager"@).len() == 12,
        encode_utf8("UpdateOptions"@).len() == 13,
        encode_utf8("UpdateAvatars"@).len() == 13,
        encode_utf8("UpdateProfileOrder"@).len() == 18,
{
    broadcast use vstd::utf8::is_ascii_chars_encode_utf8;

    reveal_strlit("t");
    reveal_strlit("c");
    reveal_strlit("url");
    reveal_strlit("FocusWindow");
    reveal_strlit("UpdateProfileList");
    reveal_strlit("CloseManager");
    reveal_strlit("UpdateOptions");
    reveal_strlit("UpdateAvatars");
    reveal_strlit("UpdateProfileOrder");
    assert(is_ascii_chars("t"@));
    assert(is_ascii_chars("c"@));
    assert(is_ascii_chars("url"@));
    assert(is_ascii_chars("FocusWindow"@));
    assert(is_ascii_chars("UpdateProfileList"@));
    assert(is_ascii_chars("CloseManager"@));
    assert(is_ascii_chars("UpdateOptions"@));
    assert(is_ascii_chars("UpdateAvatars"@));
    assert(is_ascii_chars("UpdateProfileOrder"@));
}

fn push_text(out: &mut Vec<u8>, s: &str)
    requires
        encode_utf8(s@).len() < 0x100000000,
    ensures
        final(out)@ == old(out)@ + cbor_text(s@),
{
    let bs = s.as_bytes();
    let n = bs.len();
    if n < 24 {
        out.push(0x60 + n as u8);
    } else if n < 256 {
        out.push(0x78u8);
        out.push(n as u8);
    } else if n < 65536 {
        out.push(0x79u8);
        out.push((n / 256) as u8);
        out.push((n % 256) as u8);
    } else {
        out.push(0x7au8);
        out.push((n / 0x1000000) as u8);
        out.push(((n / 0x10000) % 256) as u8);
        out.push(((n / 256) % 256) as u8);
        out.push((n % 256) as u8);
    }
    proof {
        assert(out@ =~= old(out)@ + cbor_text_header(n as int));
    }
    let ghost mid = out@;
    let mut i: usize = 0;
    while i < n
        invariant
            0 <= i <= n,
            n == bs@.len(),
            bs@ == encode_utf8(s@),
            out@ == mid + bs@.take(i as int),
        decreases n - i,
    {
        out.push(*slice_index_get(bs, i));
        proof {
            assert(out@ =~= mid + bs@.take(i + 1));
        }
        i = i + 1;
    }
    proof {
        assert(bs@.take(n as int) =~= bs@);
        assert(out@ =~= old(out)@ + cbor_text(s@));
    }
}

/// Encodes a bus command for the wire.
pub fn encode_ipc_command(cmd: &IpcCommand) -> (r: Vec<u8>)
    requires
        encodable(*cmd),
    ensures
        r@ == encode_ipc_spec(*cmd),
{
    let mut out: Vec<u8> = Vec::new();
    proof {
        lemma_tag_lens();
    }
    match cmd {
        IpcCommand::FocusWindow(f) => {
            out.push(0xa2u8);
            push_text(&mut out, "t");
            push_text(&mut out, "FocusWindow");
            push_text(&mut out, "c");
            out.push(0xa1u8);
            push_text(&mut out, "url");
            match &f.url {
                None => {
                    out.push(0xf6u8);
                },
                Some(u) => {
                    push_text(&mut out, u.as_str());
                },
            }
        },
        IpcCommand::UpdateProfileList => {
            out.push(0xa1u8);
            push_text(&mut out, "t");
            push_text(&mut out, "UpdateProfileList");
        },
        IpcCommand::CloseManager => {
            out.push(0xa1u8);
            push_text(&mut out, "t");
            push_text(&mut out, "CloseManager");
        },
        IpcCommand::UpdateOptions => {
            out.push(0xa1u8);
            push_text(&mut out, "t");
            push_text(&mut out, "UpdateOptions");
        },
        IpcCommand::UpdateAvatars => {
            out.push(0xa1u8);
            push_text(&mut out, "t");
            push_text(&mut out, "UpdateAvatars");
        },
        IpcCommand::UpdateProfileOrder => {
            out.push(0xa1u8);
            push_text(&mut out, "t");
            push_text(&mut out, "UpdateProfileOrder");
        },
    }
    proof {
        assert(out@ =~= encode_ipc_spec(*cmd));
    }
    out
}

// === DECODING ===

/// Relies on `str::from_utf8`: succeeds exactly on valid UTF-8, yielding
/// the characters that UTF-8 coding assigns to the bytes.
#[verifier::external_body]
fn utf8_to_string(bytes: &[u8]) -> (r: Option<String>)
    ensures
        match r {
            Some(s) => valid_utf8(bytes@) && s@ == decode_utf8(bytes@),
            None => !valid_utf8(bytes@),
        },
{
    match std::str::from_utf8(bytes) {
        Ok(s) => Some(s.to_owned()),
        Err(_) => None,
    }
}

pub open spec fn is_prefix_of(p: Seq<u8>, b: Seq<u8>) -> bool {
    p.len() <= b.len() && b.take(p.len() as int) == p
}

proof fn lemma_sub_prefix(b: Seq<u8>, pos: int, end: int, p: Seq<u8>)
    requires
        0 <= pos <= end <= b.len(),
        b.subrange(pos, end) == p,
    ensures
        is_prefix_of(p, b.skip(pos)),
{
    assert(b.skip(pos).take(p.len() as int) =~= b.subrange(pos, end));
}

proof fn lemma_prefix_sub(b: Seq<u8>, pos: int, p: Seq<u8>)
    requires
        0 <= pos <= b.len(),
        is_prefix_of(p, b.skip(pos)),
    ensures
        pos + p.len() <= b.len(),
        b.subrange(pos, pos + p.len()) == p,
    decreases 0int,
{
    assert(b.subrange(pos, pos + p.len()) =~= b.skip(pos).take(p.len() as int));
}

/// Two texts read at the same position are the same text: the first header
/// byte fixes the header form, the header fixes the byte length, and the
/// bytes fix the characters.
#[verifier::rlimit(60)]
proof fn lemma_cbor_text_at_unique(b: Seq<u8>, s1: Seq<char>, s2: Seq<char>)
    requires
        b.len() < 0x100000000,
        is_prefix_of(cbor_text(s1), b),
        is_prefix_of(cbor_text(s2), b),
    ensures
        s1 == s2,
{
    broadcast use vstd::utf8::encode_utf8_decode_utf8;

    let e1 = encode_utf8(s1);
    let e2 = encode_utf8(s2);
    let h1 = cbor_text_header(e1.len() as int);
    let h2 = cbor_text_header(e2.len() as int);
    assert(e1.len() < 0x100000000 && e2.len() < 0x100000000);
    assert(b[0] == h1[0] && b[0] == h2[0]) by {
        assert(cbor_text(s1)[0] == h1[0] && cbor_text(s2)[0] == h2[0]);
        assert(b.take(cbor_text(s1).len() as int)[0] == b[0]);
        assert(b.take(cbor_text(s2).len() as int)[0] == b[0]);
    }
    assert(h1.len() == h2.len()) by {
        if h1.len() != h2.len() {
            assert(h1[0] != h2[0]);
        }
    }
    assert(forall|k: int|
        0 <= k < cbor_text(s1).len() ==> b[k] == #[trigger] cbor_text(s1)[k]) by {
        assert(forall|k: int|
            0 <= k < cbor_text(s1).len() ==> b.take(cbor_text(s1).len() as int)[k]
                == #[trigger] cbor_text(s1)[k]);
    }
    assert(forall|k: int|
        0 <= k < cbor_text(s2).len() ==> b[k] == #[trigger] cbor_text(s2)[k]) by {
        assert(forall|k: int|
            0 <= k < cbor_text(s2).len() ==> b.take(cbor_text(s2).len() as int)[k]
                == #[trigger] cbor_text(s2)[k]);
    }
    assert forall|k: int| 0 <= k < h1.len() implies #[trigger] h1[k] == b[k] by {
        assert(cbor_text(s1)[k] == h1[k]);
        assert(b[k] == cbor_text(s1)[k]);
    }
    assert forall|k: int| 0 <= k < h2.len() implies #[trigger] h2[k] == b[k] by {
        assert(cbor_text(s2)[k] == h2[k]);
        assert(b[k] == cbor_text(s2)[k]);
    }
    assert(h1 =~= h2);
    lemma_header_pins_len(e1.len() as int, e2.len() as int);
    assert forall|k: int| 0 <= k < e1.len() implies #[trigger] e1[k] == e2[k] by {
        assert(cbor_text(s1)[h1.len() + k] == e1[k]);
        assert(cbor_text(s2)[h2.len() + k] == e2[k]);
        assert(b[h1.len() + k] == cbor_text(s1)[h1.len() + k]);
        assert(b[h2.len() + k] == cbor_text(s2)[h2.len() + k]);
    }
    assert(e1 =~= e2);
    assert(decode_utf8(e1) == s1 && decode_utf8(e2) == s2);
}

/// Equal headers mean equal lengths, for lengths the wire can carry.
proof fn lemma_header_pins_len(l1: int, l2: int)
    requires
        0 <= l1 < 0x100000000,
        0 <= l2 < 0x100000000,
        cbor_text_header(l1) == cbor_text_header(l2),
    ensures
        l1 == l2,
{
    let h1 = cbor_text_header(l1);
    let h2 = cbor_text_header(l2);
    assert(forall|k: int| 0 <= k < h1.len() ==> h1[k] == h2[k]);
    if l1 < 24 {
        assert(h1[0] == (0x60 + l1) as u8 && h2[0] == (0x60 + l2) as u8);
    } else if l1 < 256 {
        assert(l1 % 256 == l1 && l2 % 256 == l2);
    } else if l1 < 65536 {
        lemma_len_from_two_bytes(l1);
        lemma_len_from_two_bytes(l2);
    } else {
        lemma_len_from_four_bytes(l1);
        lemma_len_from_four_bytes(l2);
    }
}

proof fn lemma_len_from_two_bytes(l: int)
    requires
        256 <= l < 65536,
    ensures
        l == (l / 256) % 256 * 256 + l % 256,
{
    assert(l == (l / 256) % 256 * 256 + l % 256) by (nonlinear_arith)
        requires
            256 <= l < 65536,
    ;
}

proof fn lemma_len_from_four_bytes(l: int)
    requires
        65536 <= l < 0x100000000,
    ensures
        l == (l / 0x1000000) % 256 * 0x1000000 + (l / 0x10000) % 256 * 0x10000 + (l / 256) % 256
            * 256 + l % 256,
{
    assert(l == (l / 0x1000000) % 256 * 0x1000000 + (l / 0x10000) % 256 * 0x10000 + (l / 256)
        % 256 * 256 + l % 256) by (nonlinear_arith)
        requires
            65536 <= l < 0x100000000,
    ;
}

/// What being a text at a position implies: the header bytes and the
/// payload bytes are pinned by the string, and the payload is its UTF-8
/// form.
proof fn lemma_text_prefix_shape(rest: Seq<u8>, s: Seq<char>)
    requires
        rest.len() < 0x100000000,
        is_prefix_of(cbor_text(s), rest),
    ensures
        ({
            let e = encode_utf8(s);
            let h = cbor_text_header(e.len() as int);
            &&& e.len() < 0x100000000
            &&& rest.len() >= h.len() + e.len()
            &&& (forall|k: int| 0 <= k < h.len() ==> rest[k] == h[k])
            &&& (forall|k: int| 0 <= k < e.len() ==> rest[h.len() + k] == e[k])
            &&& valid_utf8(e)
            &&& decode_utf8(e) == s
        }),
{
    broadcast use vstd::utf8::encode_utf8_decode_utf8, vstd::utf8::encode_utf8_valid_utf8;

    let e = encode_utf8(s);
    let h = cbor_text_header(e.len() as int);
    assert(cbor_text(s).len() == h.len() + e.len());
    assert(forall|k: int|
        0 <= k < cbor_text(s).len() ==> rest[k] == #[trigger] cbor_text(s)[k]) by {
        assert(forall|k: int|
            0 <= k < cbor_text(s).len() ==> rest.take(cbor_text(s).len() as int)[k]
                == #[trigger] cbor_text(s)[k]);
    }
    assert forall|k: int| 0 <= k < h.len() implies rest[k] == h[k] by {
        assert(cbor_text(s)[k] == h[k]);
    }
    assert forall|k: int| 0 <= k < e.len() implies rest[h.len() + k] == e[k] by {
        assert(cbor_text(s)[h.len() + k] == e[k]);
    }
}

/// The relation between a header form read at `pos` and the length it
/// carries.
pub open spec fn header_branch(b: Seq<u8>, pos: int, hs: int, l: int) -> bool {
    if hs == 1 {
        0x60 <= b[pos] <= 0x77 && l == b[pos] - 0x60
    } else if hs == 2 {
        b[pos] == 0x78 && pos + 1 < b.len() && l == b[pos + 1] && l >= 24
    } else if hs == 3 {
        b[pos] == 0x79 && pos + 2 < b.len() && l == b[pos + 1] * 256 + b[pos + 2] && l >= 256
    } else {
        hs == 5 && b[pos] == 0x7a && pos + 4 < b.len() && l == b[pos + 1] * 0x1000000 + b[pos + 2]
            * 0x10000 + b[pos + 3] * 256 + b[pos + 4] && l >= 65536
    }
}

/// When the first header byte agrees and the header bytes are those in the
/// buffer, the header form and the length agree with what the reader
/// computed.
proof fn lemma_header_cases(b: Seq<u8>, pos: int, le: int, hs: int, l: int)
    requires
        0 <= pos < b.len(),
        le >= 0,
        forall|k: int|
            0 <= k < cbor_text_header(le).len() && pos + k < b.len() ==> b[pos + k]
                == cbor_text_header(le)[k],
        b[pos] == cbor_text_header(le)[0],
        header_branch(b, pos, hs, l),
        le < 0x100000000,
    ensures
        cbor_text_header(le).len() == hs,
        le == l,
{
    let h = cbor_text_header(le);
    if le < 24 {
        assert(h[0] == (0x60 + le) as u8);
    } else if le < 256 {
        assert(h[0] == 0x78u8 && h[1] == (le % 256) as u8);
        assert(le % 256 == le);
    } else if le < 65536 {
        assert(h[0] == 0x79u8 && h[1] == ((le / 256) % 256) as u8 && h[2] == (le % 256) as u8);
        lemma_len_from_two_bytes(le);
    } else {
        assert(h[0] == 0x7au8);
        lemma_len_from_four_bytes(le);
    }
}

/// No text begins at `pos` when the remaining bytes cannot even hold the
/// header and payload the first bytes announce.
proof fn lemma_none_bad_start(b: Seq<u8>, pos: int)
    requires
        0 <= pos <= b.len(),
        b.len() < 0x100000000,
        pos < b.len() ==> ({
            let c = b[pos];
            ||| c < 0x60
            ||| c > 0x7a
            ||| (c == 0x78 && (pos + 1 >= b.len() || b[pos + 1] < 24))
            ||| (c == 0x79 && (pos + 2 >= b.len() || b[pos + 1] * 256 + b[pos + 2] < 256))
            ||| (c == 0x7a && (pos + 4 >= b.len() || b[pos + 1] * 0x1000000 + b[pos + 2] * 0x10000
                + b[pos + 3] * 256 + b[pos + 4] < 65536))
        }),
    ensures
        forall|s: Seq<char>| !is_prefix_of(cbor_text(s), b.skip(pos)),
{
    let rest = b.skip(pos);
    assert forall|s: Seq<char>| !is_prefix_of(cbor_text(s), rest) by {
        if is_prefix_of(cbor_text(s), rest) {
            lemma_text_prefix_shape(rest, s);
            let le = encode_utf8(s).len() as int;
            let h = cbor_text_header(le);
            assert(h.len() >= 1);
            assert(rest.len() >= 1);
            assert(pos < b.len());
            assert(rest[0] == h[0]);
            assert(forall|k: int| 0 <= k < rest.len() ==> #[trigger] rest[k] == b[pos + k]);
            if le < 24 {
                assert(b[pos] == (0x60 + le) as u8);
            } else if le < 256 {
                assert(b[pos] == 0x78u8);
                assert(rest.len() >= 2 + le);
                assert(b[pos + 1] == h[1] && h[1] == (le % 256) as u8);
                assert(le % 256 == le);
            } else if le < 65536 {
                assert(b[pos] == 0x79u8);
                assert(rest.len() >= 3 + le);
                assert(b[pos + 1] == h[1] && b[pos + 2] == h[2]);
                lemma_len_from_two_bytes(le);
            } else if le < 0x100000000 {
                assert(b[pos] == 0x7au8);
                assert(rest.len() >= 5 + le);
                assert(b[pos + 1] == h[1] && b[pos + 2] == h[2] && b[pos + 3] == h[3] && b[pos
                    + 4] == h[4]);
                lemma_len_from_four_bytes(le);
            } else {
                assert(rest.len() >= 9 + le);
            }
        }
    }
}

/// No text begins at `pos` when the announced payload runs past the end of
/// the buffer.
proof fn lemma_none_too_long(b: Seq<u8>, pos: int, hs: int, l: int)
    requires
        0 <= pos < b.len(),
        b.len() < 0x100000000,
        header_branch(b, pos, hs, l),
        pos + hs + l > b.len(),
    ensures
        forall|s: Seq<char>| !is_prefix_of(cbor_text(s), b.skip(pos)),
{
    let rest = b.skip(pos);
    assert forall|s: Seq<char>| !is_prefix_of(cbor_text(s), rest) by {
        if is_prefix_of(cbor_text(s), rest) {
            lemma_text_prefix_shape(rest, s);
            let le = encode_utf8(s).len() as int;
            let h = cbor_text_header(le);
            assert(forall|k: int| 0 <= k < rest.len() ==> #[trigger] rest[k] == b[pos + k]);
            assert(b[pos] == h[0]);
            lemma_header_cases(b, pos, le, hs, l);
            assert(rest.len() >= h.len() + le);
        }
    }
}

/// No text begins at `pos` when the announced payload is not valid UTF-8.
proof fn lemma_none_bad_utf8(b: Seq<u8>, pos: int, hs: int, l: int)
    requires
        0 <= pos < b.len(),
        b.len() < 0x100000000,
        header_branch(b, pos, hs, l),
        pos + hs + l <= b.len(),
        !valid_utf8(b.subrange(pos + hs, pos + hs + l)),
    ensures
        forall|s: Seq<char>| !is_prefix_of(cbor_text(s), b.skip(pos)),
{
    let rest = b.skip(pos);
    assert forall|s: Seq<char>| !is_prefix_of(cbor_text(s), rest) by {
        if is_prefix_of(cbor_text(s), rest) {
            lemma_text_prefix_shape(rest, s);
            let le = encode_utf8(s).len() as int;
            let h = cbor_text_header(le);
            assert(forall|k: int| 0 <= k < rest.len() ==> #[trigger] rest[k] == b[pos + k]);
            assert(b[pos] == h[0]);
            lemma_header_cases(b, pos, le, hs, l);
            assert(encode_utf8(s) =~= b.subrange(pos + hs, pos + hs + l)) by {
                assert(forall|k: int|
                    0 <= k < le ==> #[trigger] encode_utf8(s)[k] == rest[h.len() + k]);
            }
        }
    }
}

/// The header bytes the reader saw are exactly the canonical header for
/// the length it computed.
proof fn lemma_header_bytes_match(b: Seq<u8>, pos: int, hs: int, l: int)
    requires
        0 <= pos < b.len(),
        pos + hs <= b.len(),
        0 <= l < 0x100000000,
        header_branch(b, pos, hs, l),
    ensures
        cbor_text_header(l) =~= b.subrange(pos, pos + hs),
{
    if hs == 1 {
        assert(l < 24);
        assert(cbor_text_header(l) =~= seq![b[pos]]);
    } else if hs == 2 {
        assert(l < 256);
        assert(l % 256 == l);
        assert(cbor_text_header(l) =~= seq![0x78u8, b[pos + 1]]);
    } else if hs == 3 {
        let b1 = b[pos + 1] as int;
        let b2 = b[pos + 2] as int;
        assert(l < 65536);
        assert((l / 256) % 256 == b1 && l % 256 == b2) by (nonlinear_arith)
            requires
                l == b1 * 256 + b2,
                0 <= b1 < 256,
                0 <= b2 < 256,
        ;
        assert(cbor_text_header(l) =~= seq![0x79u8, b[pos + 1], b[pos + 2]]);
    } else {
        let b1 = b[pos + 1] as int;
        let b2 = b[pos + 2] as int;
        let b3 = b[pos + 3] as int;
        let b4 = b[pos + 4] as int;
        assert((l / 0x1000000) % 256 == b1 && (l / 0x10000) % 256 == b2 && (l / 256) % 256 == b3
            && l % 256 == b4) by (nonlinear_arith)
            requires
                l == b1 * 0x1000000 + b2 * 0x10000 + b3 * 256 + b4,
                0 <= b1 < 256,
                0 <= b2 < 256,
                0 <= b3 < 256,
                0 <= b4 < 256,
        ;
        assert(cbor_text_header(l) =~= seq![0x7au8, b[pos + 1], b[pos + 2], b[pos + 3], b[pos
            + 4]]);
    }
}

/// Reads the header of a text at `pos`: the header size and the payload
/// length it announces. Fails exactly when no text can begin here.
fn parse_text_header(bytes: &Vec<u8>, pos: usize) -> (r: Option<(usize, u64)>)
    requires
        pos <= bytes@.len(),
        bytes@.len() < 0x100000000,
    ensures
        match r {
            Some(p) => {
                &&& 0 < p.0 <= 5
                &&& pos + p.0 <= bytes@.len()
                &&& (p.1 as int) < 0x100000000
                &&& header_branch(bytes@, pos as int, p.0 as int, p.1 as int)
            },
            None => forall|s: Seq<char>| !is_prefix_of(cbor_text(s), bytes@.skip(pos as int)),
        },
{
    let n = bytes.len();
    if pos >= n {
        proof {
            assert forall|s: Seq<char>|
                !is_prefix_of(cbor_text(s), bytes@.skip(pos as int)) by {
                if is_prefix_of(cbor_text(s), bytes@.skip(pos as int)) {
                    lemma_text_prefix_shape(bytes@.skip(pos as int), s);
                    assert(cbor_text_header(encode_utf8(s).len() as int).len() >= 1);
                }
            }
        }
        return None;
    }
    let h0 = bytes[pos];
    if 0x60 <= h0 && h0 <= 0x77 {
        return Some((1, (h0 - 0x60) as u64));
    }
    if h0 == 0x78 && n - pos >= 2 {
        let b1 = bytes[pos + 1];
        if b1 >= 24 {
            return Some((2, b1 as u64));
        }
    }
    if h0 == 0x79 && n - pos >= 3 {
        let l = (bytes[pos + 1] as u64) * 256 + (bytes[pos + 2] as u64);
        if l >= 256 {
            return Some((3, l));
        }
    }
    if h0 == 0x7a && n - pos >= 5 {
        let l = (bytes[pos + 1] as u64) * 0x1000000 + (bytes[pos + 2] as u64) * 0x10000 + (
        bytes[pos + 3] as u64) * 256 + (bytes[pos + 4] as u64);
        if l >= 65536 {
            return Some((5, l));
        }
    }
    proof {
        lemma_none_bad_start(bytes@, pos as int);
    }
    None
}

/// Reads one text at `pos`. Succeeds exactly when a canonically encoded
/// text sits there; what it returns is that text and the position after it.
fn parse_text(bytes: &Vec<u8>, pos: usize) -> (r: Option<(String, usize)>)
    requires
        pos <= bytes@.len(),
        bytes@.len() < 0x100000000,
    ensures
        match r {
            Some(p) => {
                &&& pos < p.1 <= bytes@.len()
                &&& bytes@.subrange(pos as int, p.1 as int) == cbor_text(p.0@)
            },
            None => forall|s: Seq<char>| !is_prefix_of(cbor_text(s), bytes@.skip(pos as int)),
        },
{
    broadcast use vstd::utf8::decode_utf8_encode_utf8;

    let n = bytes.len();
    let (hs, len64) = match parse_text_header(bytes, pos) {
        Some(p) => p,
        None => {
            return None;
        },
    };
    if len64 > (n as u64) || (pos as u64) + (hs as u64) + len64 > (n as u64) {
        proof {
            lemma_none_too_long(bytes@, pos as int, hs as int, len64 as int);
        }
        return None;
    }
    let len = len64 as usize;
    let start = pos + hs;
    let end = start + len;
    let payload = vstd::slice::slice_subrange(bytes.as_slice(), start, end);
    match utf8_to_string(payload) {
        Some(text) => {
            proof {
                assert(encode_utf8(text@) == payload@);
                lemma_header_bytes_match(bytes@, pos as int, hs as int, len as int);
                assert(bytes@.subrange(pos as int, start as int) =~= cbor_text_header(
                    encode_utf8(text@).len() as int,
                ));
                assert(bytes@.subrange(pos as int, end as int) =~= bytes@.subrange(
                    pos as int,
                    start as int,
                ) + payload@);
                assert(bytes@.subrange(pos as int, end as int) =~= cbor_text(text@));
            }
            Some((text, end))
        },
        None => {
            proof {
                lemma_none_bad_utf8(bytes@, pos as int, hs as int, len64 as int);
            }
            None
        },
    }
}

/// How an encoded command is laid out: the map header, the `t` key, the
/// tag, then the variant's own content.
proof fn lemma_encode_decompose(bytes: Seq<u8>, cmd: IpcCommand)
    requires
        bytes == encode_ipc_spec(cmd),
    ensures
        bytes.len() >= 1 + cbor_text("t"@).len() + cbor_text(tag_of(cmd)).len(),
        bytes[0] == map_header_of(cmd),
        is_prefix_of(cbor_text("t"@), bytes.skip(1)),
        is_prefix_of(
            cbor_text(tag_of(cmd)),
            bytes.skip(1 + cbor_text("t"@).len() as int),
        ),
        bytes.skip(
            1 + cbor_text("t"@).len() + cbor_text(tag_of(cmd)).len() as int,
        ) == tail_of(cmd),
{
    let ct_t = cbor_text("t"@);
    let ct_tag = cbor_text(tag_of(cmd));
    let tail = tail_of(cmd);
    assert(bytes =~= seq![map_header_of(cmd)] + ct_t + ct_tag + tail);
    assert(bytes.skip(1).take(ct_t.len() as int) =~= ct_t);
    assert(bytes.skip(1 + ct_t.len() as int).take(ct_tag.len() as int) =~= ct_tag);
    assert(bytes.skip(1 + ct_t.len() + ct_tag.len() as int) =~= tail);
}

proof fn lemma_skip_skip(b: Seq<u8>, base: int, off: int)
    requires
        0 <= base,
        0 <= off,
        base + off <= b.len(),
    ensures
        b.skip(base).skip(off) =~= b.skip(base + off),
{
}

/// How the focus command's content is laid out after the tag: the `c` key,
/// an inner map header, the `url` key, then the URL or the null byte.
proof fn lemma_focus_tail_decompose(bytes: Seq<u8>, f: FocusWindowCommand, base: int)
    requires
        0 <= base <= bytes.len(),
        bytes.skip(base) == tail_of(IpcCommand::FocusWindow(f)),
    ensures
        is_prefix_of(cbor_text("c"@), bytes.skip(base)),
        ({
            let e3 = base + cbor_text("c"@).len();
            &&& e3 < bytes.len()
            &&& bytes[e3] == 0xa1u8
            &&& is_prefix_of(cbor_text("url"@), bytes.skip(e3 + 1))
            &&& ({
                let e4 = e3 + 1 + cbor_text("url"@).len();
                &&& e4 <= bytes.len()
                &&& (match f.url {
                    None => e4 < bytes.len() && bytes[e4] == 0xf6u8 && bytes.len() == e4 + 1,
                    Some(u) => bytes.skip(e4) == cbor_text(u@),
                })
            })
        }),
{
    let ct_c = cbor_text("c"@);
    let ct_u = cbor_text("url"@);
    let tail = tail_of(IpcCommand::FocusWindow(f));
    let urlpart: Seq<u8> = match f.url {
        None => seq![0xf6u8],
        Some(u) => cbor_text(u@),
    };
    assert(tail =~= ct_c + seq![0xa1u8] + ct_u + urlpart);
    assert(bytes.len() == base + tail.len());
    let e3 = base + ct_c.len();
    let e4 = e3 + 1 + ct_u.len();
    // the `c` key
    assert(tail.take(ct_c.len() as int) =~= ct_c);
    assert(is_prefix_of(ct_c, bytes.skip(base)));
    // the inner map header
    assert(bytes[e3] == bytes.skip(base)[ct_c.len() as int]);
    assert(tail[ct_c.len() as int] == 0xa1u8);
    // the `url` key
    lemma_skip_skip(bytes, base, ct_c.len() as int + 1);
    assert(tail.skip(ct_c.len() as int + 1) =~= bytes.skip(e3 + 1));
    assert(tail.skip(ct_c.len() as int + 1).take(ct_u.len() as int) =~= ct_u);
    assert(is_prefix_of(ct_u, bytes.skip(e3 + 1)));
    // the URL or the null byte
    lemma_skip_skip(bytes, base, ct_c.len() as int + 1 + ct_u.len() as int);
    assert(tail.skip(ct_c.len() as int + 1 + ct_u.len() as int) =~= bytes.skip(e4));
    match f.url {
        None => {
            assert(tail.skip(ct_c.len() as int + 1 + ct_u.len() as int) =~= seq![0xf6u8]);
            assert(bytes.skip(e4)[0] == bytes[e4]);
        },
        Some(u) => {
            assert(tail.skip(ct_c.len() as int + 1 + ct_u.len() as int) =~= cbor_text(u@));
        },
    }
}

/// Decodes the content of a focus command, after the tag has been read:
/// the `c` entry holding `{"url": <text or null>}`, ending at the buffer's
/// end.
#[verifier::rlimit(100)]
fn decode_focus_rest(bytes: &Vec<u8>, e1: usize, e2: usize) -> (r: Option<IpcCommand>)
    requires
        bytes@.len() < 0x100000000,
        1 <= e1 <= e2 <= bytes@.len(),
        bytes@[0] == 0xa2u8,
        bytes@.subrange(1, e1 as int) == cbor_text("t"@),
        bytes@.subrange(e1 as int, e2 as int) == cbor_text("FocusWindow"@),
    ensures
        match r {
            Some(cmd) => cmd is FocusWindow && bytes@ == encode_ipc_spec(cmd),
            None => forall|f: FocusWindowCommand|
                bytes@ != #[trigger] encode_ipc_spec(IpcCommand::FocusWindow(f)),
        },
{
    let n = bytes.len();
    proof {
        assert forall|f: FocusWindowCommand|
            (bytes@ == #[trigger] encode_ipc_spec(
                IpcCommand::FocusWindow(f),
            )) implies bytes@.skip(e2 as int) == tail_of(IpcCommand::FocusWindow(f)) by {
            lemma_encode_decompose(bytes@, IpcCommand::FocusWindow(f));
            assert(e1 == 1 + cbor_text("t"@).len());
            assert(e2 == e1 + cbor_text("FocusWindow"@).len());
        }
    }
    let (k2, e3) = match parse_text(bytes, e2) {
        Some(p) => p,
        None => {
            proof {
                assert forall|f: FocusWindowCommand|
                    bytes@ != #[trigger] encode_ipc_spec(IpcCommand::FocusWindow(f)) by {
                    if bytes@ == encode_ipc_spec(IpcCommand::FocusWindow(f)) {
                        lemma_focus_tail_decompose(bytes@, f, e2 as int);
                    }
                }
            }
            return None;
        },
    };
    proof {
        lemma_sub_prefix(bytes@, e2 as int, e3 as int, cbor_text(k2@));
    }
    if !crate::strutil::str_eq(k2.as_str(), "c") {
        proof {
            assert forall|f: FocusWindowCommand|
                bytes@ != #[trigger] encode_ipc_spec(IpcCommand::FocusWindow(f)) by {
                if bytes@ == encode_ipc_spec(IpcCommand::FocusWindow(f)) {
                    lemma_focus_tail_decompose(bytes@, f, e2 as int);
                    lemma_cbor_text_at_unique(bytes@.skip(e2 as int), k2@, "c"@);
                }
            }
        }
        return None;
    }
    proof {
        assert(cbor_text(k2@) == cbor_text("c"@));
        assert(e3 == e2 + cbor_text("c"@).len());
    }
    if e3 >= n || bytes[e3] != 0xa1 {
        proof {
            assert forall|f: FocusWindowCommand|
                bytes@ != #[trigger] encode_ipc_spec(IpcCommand::FocusWindow(f)) by {
                if bytes@ == encode_ipc_spec(IpcCommand::FocusWindow(f)) {
                    lemma_focus_tail_decompose(bytes@, f, e2 as int);
                }
            }
        }
        return None;
    }
    let (k3, e4) = match parse_text(bytes, e3 + 1) {
        Some(p) => p,
        None => {
            proof {
                assert forall|f: FocusWindowCommand|
                    bytes@ != #[trigger] encode_ipc_spec(IpcCommand::FocusWindow(f)) by {
                    if bytes@ == encode_ipc_spec(IpcCommand::FocusWindow(f)) {
                        lemma_focus_tail_decompose(bytes@, f, e2 as int);
                    }
                }
            }
            return None;
        },
    };
    proof {
        lemma_sub_prefix(bytes@, e3 + 1, e4 as int, cbor_text(k3@));
    }
    if !crate::strutil::str_eq(k3.as_str(), "url") {
        proof {
            assert forall|f: FocusWindowCommand|
                bytes@ != #[trigger] encode_ipc_spec(IpcCommand::FocusWindow(f)) by {
                if bytes@ == encode_ipc_spec(IpcCommand::FocusWindow(f)) {
                    lemma_focus_tail_decompose(bytes@, f, e2 as int);
                    lemma_cbor_text_at_unique(bytes@.skip(e3 + 1), k3@, "url"@);
                }
            }
        }
        return None;
    }
    proof {
        assert(cbor_text(k3@) == cbor_text("url"@));
        assert(e4 == e3 + 1 + cbor_text("url"@).len());
    }
    if e4 < n && bytes[e4] == 0xf6 {
        if e4 + 1 != n {
            proof {
                assert forall|f: FocusWindowCommand|
                    bytes@ != #[trigger] encode_ipc_spec(IpcCommand::FocusWindow(f)) by {
                    if bytes@ == encode_ipc_spec(IpcCommand::FocusWindow(f)) {
                        lemma_focus_tail_decompose(bytes@, f, e2 as int);
                        match f.url {
                            None => {},
                            Some(u) => {
                                assert(bytes@.skip(e4 as int) == cbor_text(u@));
                                assert(bytes@.skip(e4 as int)[0] == bytes@[e4 as int]);
                                assert(cbor_text(u@)[0] == cbor_text_header(
                                    encode_utf8(u@).len() as int,
                                )[0]);
                            },
                        }
                    }
                }
            }
            return None;
        }
        let cmd = IpcCommand::FocusWindow(FocusWindowCommand { url: None });
        proof {
            assert(bytes@ =~= bytes@.subrange(0, 1) + bytes@.subrange(1, e1 as int)
                + bytes@.subrange(e1 as int, e2 as int) + bytes@.subrange(e2 as int, e3 as int)
                + bytes@.subrange(e3 as int, e3 + 1) + bytes@.subrange(e3 + 1, e4 as int)
                + bytes@.subrange(e4 as int, n as int));
            assert(bytes@.subrange(0, 1) =~= seq![0xa2u8]);
            assert(bytes@.subrange(e3 as int, e3 + 1) =~= seq![0xa1u8]);
            assert(bytes@.subrange(e4 as int, n as int) =~= seq![0xf6u8]);
            assert(encode_ipc_spec(cmd) =~= seq![0xa2u8] + cbor_text("t"@) + cbor_text(
                "FocusWindow"@,
            ) + cbor_text("c"@) + seq![0xa1u8] + cbor_text("url"@) + seq![0xf6u8]);
            assert(bytes@ =~= encode_ipc_spec(cmd));
        }
        return Some(cmd);
    }
    let (u, e5) = match parse_text(bytes, e4) {
        Some(p) => p,
        None => {
            proof {
                assert forall|f: FocusWindowCommand|
                    bytes@ != #[trigger] encode_ipc_spec(IpcCommand::FocusWindow(f)) by {
                    if bytes@ == encode_ipc_spec(IpcCommand::FocusWindow(f)) {
                        lemma_focus_tail_decompose(bytes@, f, e2 as int);
                        match f.url {
                            None => {},
                            Some(uu) => {
                                assert(bytes@.skip(e4 as int).take(
                                    cbor_text(uu@).len() as int,
                                ) =~= cbor_text(uu@));
                                assert(is_prefix_of(cbor_text(uu@), bytes@.skip(e4 as int)));
                            },
                        }
                    }
                }
            }
            return None;
        },
    };
    proof {
        lemma_sub_prefix(bytes@, e4 as int, e5 as int, cbor_text(u@));
    }
    if e5 != n {
        proof {
            assert forall|f: FocusWindowCommand|
                bytes@ != #[trigger] encode_ipc_spec(IpcCommand::FocusWindow(f)) by {
                if bytes@ == encode_ipc_spec(IpcCommand::FocusWindow(f)) {
                    lemma_focus_tail_decompose(bytes@, f, e2 as int);
                    match f.url {
                        None => {},
                        Some(uu) => {
                            assert(bytes@.skip(e4 as int).take(cbor_text(uu@).len() as int)
                                =~= cbor_text(uu@));
                            assert(is_prefix_of(cbor_text(uu@), bytes@.skip(e4 as int)));
                            lemma_cbor_text_at_unique(bytes@.skip(e4 as int), u@, uu@);
                            assert(bytes@.len() == e4 + cbor_text(uu@).len());
                        },
                    }
                }
            }
        }
        return None;
    }
    let cmd = IpcCommand::FocusWindow(FocusWindowCommand { url: Some(u) });
    proof {
        let ghost_u = cmd->FocusWindow_0.url.unwrap();
        assert(bytes@ =~= bytes@.subrange(0, 1) + bytes@.subrange(1, e1 as int)
            + bytes@.subrange(e1 as int, e2 as int) + bytes@.subrange(e2 as int, e3 as int)
            + bytes@.subrange(e3 as int, e3 + 1) + bytes@.subrange(e3 + 1, e4 as int)
            + bytes@.subrange(e4 as int, e5 as int));
        assert(bytes@.subrange(0, 1) =~= seq![0xa2u8]);
        assert(bytes@.subrange(e3 as int, e3 + 1) =~= seq![0xa1u8]);
        assert(encode_ipc_spec(cmd) =~= seq![0xa2u8] + cbor_text("t"@) + cbor_text(
            "FocusWindow"@,
        ) + cbor_text("c"@) + seq![0xa1u8] + cbor_text("url"@) + cbor_text(ghost_u@));
        assert(bytes@ =~= encode_ipc_spec(cmd));
    }
    Some(cmd)
}

/// Decodes a bus command: the exact inverse of `encode_ipc_command`.
/// Succeeds precisely on the bytes some command encodes to, and returns
/// that command.
#[verifier::rlimit(100)]
pub fn decode_ipc_command(bytes: &Vec<u8>) -> (r: Option<IpcCommand>)
    requires
        bytes@.len() < 0x100000000,
    ensures
        match r {
            Some(cmd) => bytes@ == encode_ipc_spec(cmd),
            None => forall|cmd: IpcCommand| bytes@ != encode_ipc_spec(cmd),
        },
{
    let n = bytes.len();
    if n == 0 {
        proof {
            assert forall|cmd: IpcCommand| bytes@ != encode_ipc_spec(cmd) by {
                if bytes@ == encode_ipc_spec(cmd) {
                    lemma_encode_decompose(bytes@, cmd);
                }
            }
        }
        return None;
    }
    let h0 = bytes[0];
    if h0 != 0xa1 && h0 != 0xa2 {
        proof {
            assert forall|cmd: IpcCommand| bytes@ != encode_ipc_spec(cmd) by {
                if bytes@ == encode_ipc_spec(cmd) {
                    lemma_encode_decompose(bytes@, cmd);
                }
            }
        }
        return None;
    }
    let (k1, e1) = match parse_text(bytes, 1) {
        Some(p) => p,
        None => {
            proof {
                assert forall|cmd: IpcCommand| bytes@ != encode_ipc_spec(cmd) by {
                    if bytes@ == encode_ipc_spec(cmd) {
                        lemma_encode_decompose(bytes@, cmd);
                    }
                }
            }
            return None;
        },
    };
    proof {
        lemma_sub_prefix(bytes@, 1, e1 as int, cbor_text(k1@));
    }
    if !crate::strutil::str_eq(k1.as_str(), "t") {
        proof {
            assert forall|cmd: IpcCommand| bytes@ != encode_ipc_spec(cmd) by {
                if bytes@ == encode_ipc_spec(cmd) {
                    lemma_encode_decompose(bytes@, cmd);
                    lemma_cbor_text_at_unique(bytes@.skip(1), k1@, "t"@);
                }
            }
        }
        return None;
    }
    proof {
        assert(cbor_text(k1@) == cbor_text("t"@));
        assert(e1 == 1 + cbor_text("t"@).len());
    }
    let (tag, e2) = match parse_text(bytes, e1) {
        Some(p) => p,
        None => {
            proof {
                assert forall|cmd: IpcCommand| bytes@ != encode_ipc_spec(cmd) by {
                    if bytes@ == encode_ipc_spec(cmd) {
                        lemma_encode_decompose(bytes@, cmd);
                    }
                }
            }
            return None;
        },
    };
    proof {
        lemma_sub_prefix(bytes@, e1 as int, e2 as int, cbor_text(tag@));
    }
    if h0 == 0xa2 {
        if !crate::strutil::str_eq(tag.as_str(), "FocusWindow") {
            proof {
                assert forall|cmd: IpcCommand| bytes@ != encode_ipc_spec(cmd) by {
                    if bytes@ == encode_ipc_spec(cmd) {
                        lemma_encode_decompose(bytes@, cmd);
                        assert(cmd is FocusWindow);
                        lemma_cbor_text_at_unique(bytes@.skip(e1 as int), tag@, tag_of(cmd));
                    }
                }
            }
            return None;
        }
        proof {
            assert(cbor_text(tag@) == cbor_text("FocusWindow"@));
        }
        let r = decode_focus_rest(bytes, e1, e2);
        proof {
            if r is None {
                assert forall|cmd: IpcCommand| bytes@ != encode_ipc_spec(cmd) by {
                    if bytes@ == encode_ipc_spec(cmd) {
                        lemma_encode_decompose(bytes@, cmd);
                        assert(cmd is FocusWindow);
                    }
                }
            }
        }
        return r;
    }
    // h0 == 0xa1: unit commands, the map carries the tag alone
    if e2 != n {
        proof {
            assert forall|cmd: IpcCommand| bytes@ != encode_ipc_spec(cmd) by {
                if bytes@ == encode_ipc_spec(cmd) {
                    lemma_encode_decompose(bytes@, cmd);
                    assert(map_header_of(cmd) == 0xa1u8);
                    assert(!(cmd is FocusWindow));
                    lemma_cbor_text_at_unique(bytes@.skip(e1 as int), tag@, tag_of(cmd));
                    assert(bytes@.skip(e2 as int) =~= Seq::<u8>::empty());
                }
            }
        }
        return None;
    }
    let ghost stitched = seq![0xa1u8] + cbor_text("t"@) + cbor_text(tag@);
    proof {
        assert(bytes@ =~= bytes@.subrange(0, 1) + bytes@.subrange(1, e1 as int)
            + bytes@.subrange(e1 as int, e2 as int));
        assert(bytes@.subrange(0, 1) =~= seq![0xa1u8]);
        assert(bytes@ == stitched);
    }
    if crate::strutil::str_eq(tag.as_str(), "UpdateProfileList") {
        proof {
            assert(encode_ipc_spec(IpcCommand::UpdateProfileList) =~= stitched);
        }
        return Some(IpcCommand::UpdateProfileList);
    }
    if crate::strutil::str_eq(tag.as_str(), "CloseManager") {
        proof {
            assert(encode_ipc_spec(IpcCommand::CloseManager) =~= stitched);
        }
        return Some(IpcCommand::CloseManager);
    }
    if crate::strutil::str_eq(tag.as_str(), "UpdateOptions") {
        proof {
            assert(encode_ipc_spec(IpcCommand::UpdateOptions) =~= stitched);
        }
        return Some(IpcCommand::UpdateOptions);
    }
    if crate::strutil::str_eq(tag.as_str(), "UpdateAvatars") {
        proof {
            assert(encode_ipc_spec(IpcCommand::UpdateAvatars) =~= stitched);
        }
        return Some(IpcCommand::UpdateAvatars);
    }
    if crate::strutil::str_eq(tag.as_str(), "UpdateProfileOrder") {
        proof {
            assert(encode_ipc_spec(IpcCommand::UpdateProfileOrder) =~= stitched);
        }
        return Some(IpcCommand::UpdateProfileOrder);
    }
    proof {
        assert forall|cmd: IpcCommand| bytes@ != encode_ipc_spec(cmd) by {
            if bytes@ == encode_ipc_spec(cmd) {
                lemma_encode_decompose(bytes@, cmd);
                assert(!(cmd is FocusWindow));
                lemma_cbor_text_at_unique(bytes@.skip(e1 as int), tag@, tag_of(cmd));
            }
        }
    }
    None
}

} // verus!
