//! pkt-line framing: a 4-digit lowercase-hex length prefix (covering
//! itself) followed by the payload. Length `0000` is the flush marker.

use vstd::prelude::*;
use vstd::string::StrSliceExecFns;
use vstd::string::StringExecFns;
use crate::buf::{
    bytes_advance, bytes_from_vec, bytes_len, bytes_mut_extend, bytes_to_vec, bytes_view,
    bytes_mut_view,
};
use crate::types::ProtocolError;

verus! {

/// Largest payload a single pkt-line may carry.
pub const MAX_PKT_PAYLOAD: usize = 65516;

/// True of the ASCII code of a lowercase hex digit.
pub open spec fn is_hex_digit(b: u8) -> bool {
    (48 <= b <= 57) || (97 <= b <= 102)
}

/// Numeric value of a lowercase hex digit's ASCII code.
pub open spec fn hex_val(b: u8) -> int {
    if 48 <= b <= 57 {
        b - 48
    } else {
        b - 87
    }
}

/// ASCII code of the lowercase hex digit for `v` (`v < 16`).
pub open spec fn hex_digit_of(v: u8) -> u8 {
    if v < 10 {
        (48 + v) as u8
    } else {
        (87 + v) as u8
    }
}

/// The four lowercase hex digits of `n`, most significant first.
pub open spec fn hex4_of(n: u16) -> Seq<u8> {
    seq![
        hex_digit_of(((n >> 12) & 0xf) as u8),
        hex_digit_of(((n >> 8) & 0xf) as u8),
        hex_digit_of(((n >> 4) & 0xf) as u8),
        hex_digit_of((n & 0xf) as u8),
    ]
}

/// True when `s` is exactly four lowercase hex digits.
pub open spec fn is_hex4(s: Seq<u8>) -> bool {
    s.len() == 4 && is_hex_digit(s[0]) && is_hex_digit(s[1]) && is_hex_digit(s[2]) && is_hex_digit(
        s[3],
    )
}

/// The number a four-digit hex prefix denotes.
pub open spec fn hex4_val(s: Seq<u8>) -> int {
    ((hex_val(s[0]) * 16 + hex_val(s[1])) * 16 + hex_val(s[2])) * 16 + hex_val(s[3])
}

/// The framed form of a payload: hex length prefix, then the payload.
pub open spec fn pkt_line_of(p: Seq<u8>) -> Seq<u8> {
    hex4_of((p.len() + 4) as u16) + p
}

/// The flush marker `0000`.
pub open spec fn flush_marker() -> Seq<u8> {
    seq![48u8, 48u8, 48u8, 48u8]
}

/// What reading one pkt-line from the front of `b` yields: `Ok((consumed,
/// payload))`, where an empty buffer gives `(0, empty)` and a flush marker
/// (or an empty payload) gives `(4, empty)`; `Err(())` when the prefix is
/// not hex, declares less than its own length, or more than is available.
pub open spec fn spec_read_pkt_line(b: Seq<u8>) -> Result<(int, Seq<u8>), ()> {
    if b.len() == 0 {
        Ok((0, Seq::empty()))
    } else if b.len() < 4 {
        Err(())
    } else if !is_hex4(b.take(4)) {
        Err(())
    } else {
        let n = hex4_val(b.take(4));
        if n == 0 {
            Ok((4, Seq::empty()))
        } else if n < 4 || n > b.len() {
            Err(())
        } else {
            Ok((n, b.subrange(4, n)))
        }
    }
}

/// Returns the ASCII code of the lowercase hex digit for `v`.
pub fn hex_digit(v: u8) -> (r: u8)
    requires
        v < 16,
    ensures
        r == hex_digit_of(v),
{
    if v < 10 {
        48 + v
    } else {
        87 + v
    }
}

/// Returns the numeric value of a hex digit's ASCII code, or `None` when
/// the byte is no lowercase hex digit.
pub fn hex_digit_value(b: u8) -> (r: Option<u8>)
    ensures
        match r {
            Some(v) => is_hex_digit(b) && v == hex_val(b) && v < 16,
            None => !is_hex_digit(b),
        },
{
    if 48 <= b && b <= 57 {
        Some(b - 48)
    } else if 97 <= b && b <= 102 {
        Some(b - 87)
    } else {
        None
    }
}

/// Returns the four hex digits of `n`, most significant first.
pub fn hex4_vec(n: u16) -> (r: Vec<u8>)
    ensures
        r@ == hex4_of(n),
{
    proof {
        assert(((n >> 12) & 0xf) < 16 && ((n >> 8) & 0xf) < 16 && ((n >> 4) & 0xf) < 16 && (n
            & 0xf) < 16) by (bit_vector);
    }
    let mut v: Vec<u8> = Vec::new();
    v.push(hex_digit(((n >> 12) & 0xf) as u8));
    v.push(hex_digit(((n >> 8) & 0xf) as u8));
    v.push(hex_digit(((n >> 4) & 0xf) as u8));
    v.push(hex_digit((n & 0xf) as u8));
    proof {
        assert(v@ =~= hex4_of(n));
    }
    v
}

/// Reads one pkt-line from the front of `buf` and consumes it, per
/// `spec_read_pkt_line`; a malformed prefix leaves the buffer unchanged
/// and reports `InvalidRequest`.
pub fn read_pkt_line(buf: &mut bytes::Bytes) -> (r: Result<(usize, bytes::Bytes), ProtocolError>)
    ensures
        match r {
            Ok(cp) => spec_read_pkt_line(bytes_view(*old(buf))) == Ok::<_, ()>(
                (cp.0 as int, bytes_view(cp.1)),
            ) && bytes_view(*final(buf)) == bytes_view(*old(buf)).skip(cp.0 as int),
            Err(e) => spec_read_pkt_line(bytes_view(*old(buf))) == Err::<(int, Seq<u8>), _>(())
                && bytes_view(*final(buf)) == bytes_view(*old(buf)) && e is InvalidRequest,
        },
{
    let len = bytes_len(buf);
    if len == 0 {
        let empty: Vec<u8> = Vec::new();
        return Ok((0, bytes_from_vec(empty)));
    }
    if len < 4 {
        return Err(ProtocolError::InvalidRequest(String::from_str("incomplete pkt-line prefix")));
    }
    let v = bytes_to_vec(buf);
    let d0 = hex_digit_value(v[0]);
    let d1 = hex_digit_value(v[1]);
    let d2 = hex_digit_value(v[2]);
    let d3 = hex_digit_value(v[3]);
    match (d0, d1, d2, d3) {
        (Some(a), Some(b), Some(c), Some(d)) => {
            let n: usize = ((a as usize * 16 + b as usize) * 16 + c as usize) * 16 + d as usize;
            proof {
                assert(bytes_view(*buf).take(4)[0] == v@[0]);
                assert(bytes_view(*buf).take(4)[1] == v@[1]);
                assert(bytes_view(*buf).take(4)[2] == v@[2]);
                assert(bytes_view(*buf).take(4)[3] == v@[3]);
                assert(is_hex4(bytes_view(*buf).take(4)));
                assert(n == hex4_val(bytes_view(*buf).take(4)));
            }
            if n == 0 {
                bytes_advance(buf, 4);
                let empty: Vec<u8> = Vec::new();
                return Ok((4, bytes_from_vec(empty)));
            }
            if n < 4 {
                return Err(ProtocolError::InvalidRequest(String::from_str(
                    "pkt-line length below its own prefix",
                )));
            }
            if n > len {
                return Err(ProtocolError::InvalidRequest(String::from_str(
                    "pkt-line length exceeds available bytes",
                )));
            }
            let payload = vstd::slice::slice_to_vec(
                vstd::slice::slice_subrange(v.as_slice(), 4, n),
            );
            bytes_advance(buf, n);
            Ok((n, bytes_from_vec(payload)))
        },
        _ => {
            proof {
                assert(bytes_view(*buf).take(4)[0] == v@[0]);
                assert(bytes_view(*buf).take(4)[1] == v@[1]);
                assert(bytes_view(*buf).take(4)[2] == v@[2]);
                assert(bytes_view(*buf).take(4)[3] == v@[3]);
                assert(!is_hex4(bytes_view(*buf).take(4)));
            }
            Err(ProtocolError::InvalidRequest(String::from_str("pkt-line prefix is not hex")))
        },
    }
}

/// Appends the pkt-line framing of `payload` to `buf`.
pub fn add_pkt_line(buf: &mut bytes::BytesMut, payload: &Vec<u8>)
    requires
        payload@.len() <= MAX_PKT_PAYLOAD,
    ensures
        bytes_mut_view(*final(buf)) == bytes_mut_view(*old(buf)) + pkt_line_of(payload@),
{
    let n: usize = payload.len() + 4;
    let prefix = hex4_vec(n as u16);
    bytes_mut_extend(buf, &prefix);
    bytes_mut_extend(buf, payload);
    proof {
        assert(n as u16 == (payload@.len() + 4) as u16);
        assert(bytes_mut_view(*buf) =~= bytes_mut_view(*old(buf)) + pkt_line_of(payload@));
    }
}

/// Appends the pkt-line framing of the string's UTF-8 bytes to `buf`.
/// The string must fit a single pkt-line.
pub fn add_pkt_line_string(buf: &mut bytes::BytesMut, s: String)
    requires
        vstd::utf8::encode_utf8(s@).len() <= MAX_PKT_PAYLOAD,
    ensures
        bytes_mut_view(*final(buf)) == bytes_mut_view(*old(buf)) + pkt_line_of(
            vstd::utf8::encode_utf8(s@),
        ),
{
    let b = s.as_str().as_bytes_vec();
    add_pkt_line(buf, &b);
}

/// A hex digit encodes and decodes to itself.
pub proof fn lemma_hex_digit_roundtrip(d: u8)
    requires
        d < 16,
    ensures
        is_hex_digit(hex_digit_of(d)),
        hex_val(hex_digit_of(d)) == d,
{
}

/// Four-digit hex encoding of a 16-bit number parses back to that number.
pub proof fn lemma_hex4_roundtrip(n: u16)
    ensures
        is_hex4(hex4_of(n)),
        hex4_val(hex4_of(n)) == n,
{
    let d0 = ((n >> 12) & 0xf) as u8;
    let d1 = ((n >> 8) & 0xf) as u8;
    let d2 = ((n >> 4) & 0xf) as u8;
    let d3 = (n & 0xf) as u8;
    assert(((n >> 12) & 0xf) < 16 && ((n >> 8) & 0xf) < 16 && ((n >> 4) & 0xf) < 16 && (n & 0xf)
        < 16) by (bit_vector);
    lemma_hex_digit_roundtrip(d0);
    lemma_hex_digit_roundtrip(d1);
    lemma_hex_digit_roundtrip(d2);
    lemma_hex_digit_roundtrip(d3);
    assert((((n >> 12) & 0xf) * 16 + ((n >> 8) & 0xf)) * 16 * 16 + (((n >> 4) & 0xf) * 16 + (n
        & 0xf)) == n) by (bit_vector);
}

/// Law: reading a pkt-line built from payload `p` yields `(p.len() + 4, p)`,
/// whatever follows it in the buffer, for every `p` of at most 65516 bytes.
pub proof fn lemma_pkt_line_round_trip(p: Seq<u8>, rest: Seq<u8>)
    requires
        p.len() <= MAX_PKT_PAYLOAD,
    ensures
        spec_read_pkt_line(pkt_line_of(p) + rest) == Ok::<_, ()>(((p.len() + 4) as int, p)),
{
    let b = pkt_line_of(p) + rest;
    let n = (p.len() + 4) as u16;
    lemma_hex4_roundtrip(n);
    assert(hex4_of(n).len() == 4);
    assert(b.take(4) =~= hex4_of(n));
    assert(hex4_val(b.take(4)) == p.len() + 4);
    assert(b.subrange(4, p.len() + 4 as int) =~= p);
}

/// The payload sequence of a pkt-line stream: reads pkt-lines from the
/// front until the buffer ends, a flush marker comes, or a line carries an
/// empty payload; `None` when a prefix is malformed along the way.
pub open spec fn spec_parse_lines(b: Seq<u8>) -> Option<Seq<Seq<u8>>>
    decreases b.len(),
{
    match spec_read_pkt_line(b) {
        Err(_) => None,
        Ok(np) => if np.0 == 0 || np.1.len() == 0 {
            Some(seq![])
        } else if 4 < np.0 <= b.len() {
            // the bound always holds for a non-empty payload; the guard
            // keeps the recursion visibly well-founded
            match spec_parse_lines(b.skip(np.0)) {
                Some(rest) => Some(seq![np.1] + rest),
                None => None,
            }
        } else {
            None
        },
    }
}

/// A stream that starts with a flush marker parses as no payloads.
pub proof fn lemma_parse_lines_flush(rest: Seq<u8>)
    ensures
        spec_parse_lines(flush_marker() + rest) == Some(Seq::<Seq<u8>>::empty()),
{
    let b = flush_marker() + rest;
    assert(b.take(4) =~= flush_marker());
    assert(spec_parse_lines(b) == Some(Seq::<Seq<u8>>::empty()));
}

/// Parsing a framed non-empty payload in front of a stream prepends that
/// payload to the stream's parse.
#[verifier::rlimit(100)]
pub proof fn lemma_parse_lines_cons(p: Seq<u8>, rest: Seq<u8>)
    requires
        0 < p.len() <= MAX_PKT_PAYLOAD,
    ensures
        spec_parse_lines(pkt_line_of(p) + rest) == match spec_parse_lines(rest) {
            Some(ls) => Some(seq![p] + ls),
            None => None::<Seq<Seq<u8>>>,
        },
{
    let b = pkt_line_of(p) + rest;
    let n = (p.len() + 4) as int;
    lemma_pkt_line_round_trip(p, rest);
    assert(spec_read_pkt_line(b) == Ok::<_, ()>((n, p)));
    assert(b.skip(n) =~= rest);
    assert(b.len() == p.len() + 4 + rest.len());
    assert(4 < n <= b.len());
    match spec_parse_lines(rest) {
        Some(ls) => {
            assert(spec_parse_lines(b) == Some(seq![p] + ls));
        },
        None => {
            assert(spec_parse_lines(b) == None::<Seq<Seq<u8>>>);
        },
    }
}

/// The concatenation of the pkt-line framings of `lines`.
pub open spec fn pkt_cat(lines: Seq<Seq<u8>>) -> Seq<u8>
    decreases lines.len(),
{
    if lines.len() == 0 {
        Seq::empty()
    } else {
        pkt_line_of(lines[0]) + pkt_cat(lines.skip(1))
    }
}

/// True when every line is non-empty and fits one pkt-line.
pub open spec fn ok_lines(lines: Seq<Seq<u8>>) -> bool {
    forall|i: int| 0 <= i < lines.len() ==> 0 < #[trigger] lines[i].len() <= MAX_PKT_PAYLOAD
}

/// Framing one more line appends its framed form.
pub proof fn lemma_pkt_cat_snoc(lines: Seq<Seq<u8>>, l: Seq<u8>)
    ensures
        pkt_cat(lines.push(l)) == pkt_cat(lines) + pkt_line_of(l),
    decreases lines.len(),
{
    if lines.len() == 0 {
        assert(lines.push(l)[0] == l);
        assert(lines.push(l).skip(1) =~= Seq::<Seq<u8>>::empty());
        assert(pkt_cat(lines.push(l)) == pkt_line_of(l) + pkt_cat(Seq::<Seq<u8>>::empty()));
        assert(pkt_line_of(l) + Seq::<u8>::empty() =~= pkt_line_of(l));
        assert(Seq::<u8>::empty() + pkt_line_of(l) =~= pkt_line_of(l));
    } else {
        assert(lines.push(l)[0] == lines[0]);
        assert(lines.push(l).skip(1) =~= lines.skip(1).push(l));
        assert(pkt_cat(lines.push(l)) == pkt_line_of(lines[0]) + pkt_cat(lines.skip(1).push(l)));
        lemma_pkt_cat_snoc(lines.skip(1), l);
        assert(pkt_line_of(lines[0]) + (pkt_cat(lines.skip(1)) + pkt_line_of(l)) =~= (pkt_line_of(
            lines[0],
        ) + pkt_cat(lines.skip(1))) + pkt_line_of(l));
    }
}

/// Parsing a framed line sequence in front of a stream yields those lines
/// followed by the stream's parse.
pub proof fn lemma_parse_pkt_cat(lines: Seq<Seq<u8>>, rest: Seq<u8>)
    requires
        ok_lines(lines),
    ensures
        spec_parse_lines(pkt_cat(lines) + rest) == match spec_parse_lines(rest) {
            Some(ls) => Some(lines + ls),
            None => None::<Seq<Seq<u8>>>,
        },
    decreases lines.len(),
{
    if lines.len() == 0 {
        assert(pkt_cat(lines) + rest =~= rest);
        if let Some(ls) = spec_parse_lines(rest) {
            assert(lines + ls =~= ls);
        }
    } else {
        let tail = lines.skip(1);
        assert(ok_lines(tail));
        lemma_parse_pkt_cat(tail, rest);
        assert(pkt_cat(lines) + rest =~= pkt_line_of(lines[0]) + (pkt_cat(tail) + rest));
        lemma_parse_lines_cons(lines[0], pkt_cat(tail) + rest);
        if let Some(ls) = spec_parse_lines(rest) {
            assert(seq![lines[0]] + (tail + ls) =~= lines + ls);
        }
    }
}

/// Law: a framed line sequence terminated by a flush marker parses back to
/// exactly those lines.
pub proof fn lemma_parse_pkt_lines_closed(lines: Seq<Seq<u8>>)
    requires
        ok_lines(lines),
    ensures
        spec_parse_lines(pkt_cat(lines) + flush_marker()) == Some(lines),
{
    lemma_parse_lines_flush(Seq::empty());
    assert(flush_marker() + Seq::<u8>::empty() =~= flush_marker());
    lemma_parse_pkt_cat(lines, flush_marker());
    assert(lines + Seq::<Seq<u8>>::empty() =~= lines);
}

/// Appends the flush marker `0000` to `buf`.
pub fn add_flush_pkt(buf: &mut bytes::BytesMut)
    ensures
        bytes_mut_view(*final(buf)) == bytes_mut_view(*old(buf)) + flush_marker(),
{
    let mut v: Vec<u8> = Vec::new();
    v.push(48);
    v.push(48);
    v.push(48);
    v.push(48);
    proof {
        assert(v@ =~= flush_marker());
    }
    bytes_mut_extend(buf, &v);
}

} // verus!
