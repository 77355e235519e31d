//! The LSP transport framer: reads `Content-Length`-delimited messages from a
//! byte buffer.
//!
//! Header lines end in `\n`; the case-sensitive `Content-Length:` prefix is
//! recognized and its trimmed remainder parsed as a decimal length (a later
//! header overrides an earlier one); other headers are ignored; the empty
//! `\r\n` line ends the headers, after which exactly that many payload bytes
//! follow verbatim.

use vstd::prelude::*;
use vstd::utf8::{decode_utf8, valid_utf8};

use crate::service_util::{ErrorMessage, MessageReader};

verus! {

/// The bytes of the header prefix `Content-Length:`.
pub open spec fn spec_cl_prefix() -> Seq<u8> {
    seq![67u8, 111u8, 110u8, 116u8, 101u8, 110u8, 116u8, 45u8, 76u8, 101u8, 110u8, 103u8, 116u8,
        104u8, 58u8]
}

/// The position just after the first `\n` at or after `pos`, or the end of
/// the input if no line break follows.
pub open spec fn spec_line_end(input: Seq<u8>, pos: int) -> int
    decreases input.len() - pos,
{
    if pos < 0 || pos >= input.len() {
        input.len() as int
    } else if input[pos] == 10 {
        pos + 1
    } else {
        spec_line_end(input, pos + 1)
    }
}

/// A line always ends past where it starts, and never past the input.
pub proof fn lemma_line_end_bounds(input: Seq<u8>, pos: int)
    requires
        0 <= pos < input.len(),
    ensures
        pos < spec_line_end(input, pos) <= input.len(),
    decreases input.len() - pos,
{
    if input[pos] == 10 {
    } else if pos + 1 < input.len() {
        lemma_line_end_bounds(input, pos + 1);
    } else {
        assert(spec_line_end(input, pos + 1) == input.len());
    }
}

/// ASCII whitespace, as trimming a header value removes it.
pub open spec fn spec_is_ws(b: u8) -> bool {
    b == 32 || b == 9 || b == 10 || b == 13
}

/// `s` without leading whitespace.
pub open spec fn spec_trim_start(s: Seq<u8>) -> Seq<u8>
    decreases s.len(),
{
    if s.len() > 0 && spec_is_ws(s[0]) {
        spec_trim_start(s.drop_first())
    } else {
        s
    }
}

/// `s` without trailing whitespace.
pub open spec fn spec_trim_end(s: Seq<u8>) -> Seq<u8>
    decreases s.len(),
{
    if s.len() > 0 && spec_is_ws(s.last()) {
        spec_trim_end(s.drop_last())
    } else {
        s
    }
}

/// `s` without leading or trailing whitespace.
pub open spec fn spec_trim(s: Seq<u8>) -> Seq<u8> {
    spec_trim_end(spec_trim_start(s))
}

/// Reading an unsigned decimal number from `s` starting at `i` with the
/// digits read so far worth `acc`: the value, or the error detail.
pub open spec fn spec_parse_u32_from(s: Seq<u8>, i: int, acc: int) -> Result<int, Seq<char>>
    decreases s.len() - i,
{
    if i < 0 || i >= s.len() {
        Ok(acc)
    } else if 48 <= s[i] <= 57 {
        if acc * 10 + (s[i] - 48) > 0xffffffff {
            Err("number too large to fit in target type"@)
        } else {
            spec_parse_u32_from(s, i + 1, acc * 10 + (s[i] - 48))
        }
    } else {
        Err("invalid digit found in string"@)
    }
}

/// What parsing `s` as an unsigned decimal number yields: the non-negative
/// value, or the error detail; an optional leading `+` is accepted.
pub open spec fn spec_parse_u32(s: Seq<u8>) -> Result<int, Seq<char>> {
    if s.len() == 0 {
        Err("cannot parse integer from empty string"@)
    } else if s[0] == 43 {
        if s.len() == 1 {
            Err("invalid digit found in string"@)
        } else {
            spec_parse_u32_from(s, 1, 0)
        }
    } else {
        spec_parse_u32_from(s, 0, 0)
    }
}

/// Whether the line starts with `Content-Length:`.
pub open spec fn spec_is_cl_line(line: Seq<u8>) -> bool {
    line.len() >= 15 && line.take(15) == spec_cl_prefix()
}

/// Framing from `pos` with `current_len` the length read so far (0 when none
/// yet): scans header lines to the empty `\r\n` line, then takes as many
/// payload bytes as announced and available. Yields the payload bytes and
/// the position after them, or the error detail.
pub open spec fn spec_frame(input: Seq<u8>, pos: int, current_len: int) -> Result<
    (Seq<u8>, int),
    Seq<char>,
>
    decreases input.len() - pos,
    via spec_frame_decreases
{
    if pos < 0 || pos >= input.len() {
        Err("Unexpected end of input while reading headers."@)
    } else {
        let line_end = spec_line_end(input, pos);
        let line = input.subrange(pos, line_end);
        if spec_is_cl_line(line) {
            match spec_parse_u32(spec_trim(line.skip(15))) {
                Ok(n) => spec_frame(input, line_end, n),
                Err(detail) => Err(detail),
            }
        } else if line == seq![13u8, 10u8] {
            if current_len == 0 {
                Err("Content-Length: not defined or invalid."@)
            } else {
                let avail = if input.len() - line_end < current_len {
                    input.len() - line_end
                } else {
                    current_len
                };
                Ok((input.subrange(line_end, line_end + avail), line_end + avail))
            }
        } else {
            spec_frame(input, line_end, current_len)
        }
    }
}

#[via_fn]
proof fn spec_frame_decreases(input: Seq<u8>, pos: int, current_len: int) {
    if 0 <= pos < input.len() {
        lemma_line_end_bounds(input, pos);
    }
}

/// What framing one message from `pos` yields.
pub open spec fn spec_parse_transport(input: Seq<u8>, pos: int) -> Result<(Seq<u8>, int), Seq<char>> {
    spec_frame(input, pos, 0)
}

// ------------------------------------------------------------------
// The framer
// ------------------------------------------------------------------

/// The first `\n` in sight ends the line: if nothing before `k` is a line
/// break and `k` is one, the line ends just after `k`.
pub proof fn lemma_line_end_at(input: Seq<u8>, pos: int, k: int)
    requires
        0 <= pos <= k < input.len(),
        input[k] == 10,
        forall|j: int| pos <= j < k ==> input[j] != 10,
    ensures
        spec_line_end(input, pos) == k + 1,
    decreases k - pos,
{
    if pos < k {
        lemma_line_end_at(input, pos + 1, k);
    }
}

/// A header line that neither announces a length nor ends the headers is
/// ignored: framing goes on at the next line as if it were not there.
pub proof fn lemma_frame_ignores_other_header(input: Seq<u8>, pos: int, current_len: int)
    requires
        0 <= pos < input.len(),
        !spec_is_cl_line(input.subrange(pos, spec_line_end(input, pos))),
        input.subrange(pos, spec_line_end(input, pos)) != seq![13u8, 10u8],
    ensures
        spec_frame(input, pos, current_len) == spec_frame(
            input,
            spec_line_end(input, pos),
            current_len,
        ),
{
}

/// The framer's happy path: a `Content-Length` header line announcing `n`,
/// the empty line, then at least `n` payload bytes. The framer returns
/// exactly the `n` payload bytes, and the next message begins right after
/// them.
pub proof fn lemma_framer_returns_payload(
    input: Seq<u8>,
    value: Seq<u8>,
    n: int,
    payload: Seq<u8>,
    trailing: Seq<u8>,
)
    requires
        input == spec_cl_prefix() + value + seq![10u8] + seq![13u8, 10u8] + payload + trailing,
        forall|j: int| 0 <= j < value.len() ==> value[j] != 10,
        spec_parse_u32(spec_trim(value.push(10u8))) == Ok::<int, Seq<char>>(n),
        1 <= n,
        payload.len() == n,
    ensures
        spec_parse_transport(input, 0) == Ok::<(Seq<u8>, int), Seq<char>>(
            (payload, 16 + value.len() + 2 + n),
        ),
{
    let l1 = 16 + value.len() as int;
    let l2 = l1 + 2;
    assert forall|j: int| 0 <= j < l1 - 1 implies input[j] != 10 by {
        if j < 15 {
            assert(input[j] == spec_cl_prefix()[j]);
        } else {
            assert(input[j] == value[j - 15]);
        }
    }
    assert(input[l1 - 1] == 10);
    lemma_line_end_at(input, 0, l1 - 1);
    let line1 = input.subrange(0, l1);
    assert(line1.take(15) =~= spec_cl_prefix());
    assert(spec_is_cl_line(line1));
    assert(line1.skip(15) =~= value.push(10u8));
    assert(spec_frame(input, 0, 0) == spec_frame(input, l1, n));
    assert(input[l1] == 13);
    assert(input[l1 + 1] == 10);
    lemma_line_end_at(input, l1, l1 + 1);
    let line2 = input.subrange(l1, l2);
    assert(line2 =~= seq![13u8, 10u8]);
    assert(!spec_is_cl_line(line2));
    assert(input.len() - l2 == n + trailing.len());
    assert(input.subrange(l2, l2 + n) =~= payload);
    assert(spec_frame(input, l1, n) == Ok::<(Seq<u8>, int), Seq<char>>((payload, l2 + n)));
}

/// The position just after the current line's `\n`, or the end of the input.
fn find_line_end(input: &Vec<u8>, pos: usize) -> (r: usize)
    requires
        pos <= input@.len(),
    ensures
        r as int == spec_line_end(input@, pos as int),
        pos <= r <= input@.len(),
{
    let n = input.len();
    let mut i = pos;
    while i < n
        invariant
            pos <= i <= n,
            n == input@.len(),
            spec_line_end(input@, pos as int) == spec_line_end(input@, i as int),
        decreases n - i,
    {
        if input[i] == 10 {
            return i + 1;
        }
        i = i + 1;
    }
    n
}

/// The byte at position `k` of the `Content-Length:` prefix.
fn cl_byte(k: usize) -> (b: u8)
    requires
        k < 15,
    ensures
        b == spec_cl_prefix()[k as int],
{
    let bytes: [u8; 15] = [67, 111, 110, 116, 101, 110, 116, 45, 76, 101, 110, 103, 116, 104, 58];
    bytes[k]
}

/// Whether the line `[p, line_end)` starts with `Content-Length:`.
fn is_cl_prefix(input: &Vec<u8>, p: usize, line_end: usize) -> (r: bool)
    requires
        p <= line_end <= input@.len(),
    ensures
        r == spec_is_cl_line(input@.subrange(p as int, line_end as int)),
{
    let ghost line = input@.subrange(p as int, line_end as int);
    if line_end - p < 15 {
        return false;
    }
    let mut k: usize = 0;
    while k < 15
        invariant
            k <= 15,
            p + 15 <= line_end <= input@.len(),
            line == input@.subrange(p as int, line_end as int),
            forall|j: int| 0 <= j < k ==> line[j] == spec_cl_prefix()[j],
        decreases 15 - k,
    {
        let expected = cl_byte(k);
        if input[p + k] != expected {
            proof {
                assert(line.take(15)[k as int] != spec_cl_prefix()[k as int]);
            }
            return false;
        }
        k = k + 1;
    }
    proof {
        assert(line.take(15) =~= spec_cl_prefix());
    }
    true
}

/// Whether the byte is ASCII whitespace.
fn is_ws_byte(b: u8) -> (r: bool)
    ensures
        r == spec_is_ws(b),
{
    b == 32 || b == 9 || b == 10 || b == 13
}

/// The bounds of `[start, end)` without leading or trailing whitespace.
fn trim_range(input: &Vec<u8>, start: usize, end: usize) -> (r: (usize, usize))
    requires
        start <= end <= input@.len(),
    ensures
        start <= r.0 <= r.1 <= end,
        input@.subrange(r.0 as int, r.1 as int) == spec_trim(
            input@.subrange(start as int, end as int),
        ),
{
    let mut ts = start;
    while ts < end && is_ws_byte(input[ts])
        invariant
            start <= ts <= end <= input@.len(),
            spec_trim_start(input@.subrange(start as int, end as int)) == spec_trim_start(
                input@.subrange(ts as int, end as int),
            ),
        decreases end - ts,
    {
        proof {
            assert(input@.subrange(ts as int, end as int).drop_first() =~= input@.subrange(
                ts + 1 as int,
                end as int,
            ));
        }
        ts = ts + 1;
    }
    proof {
        assert(spec_trim_start(input@.subrange(start as int, end as int)) == input@.subrange(
            ts as int,
            end as int,
        ));
    }
    let mut te = end;
    while te > ts && is_ws_byte(input[te - 1])
        invariant
            ts <= te <= end <= input@.len(),
            spec_trim_end(input@.subrange(ts as int, end as int)) == spec_trim_end(
                input@.subrange(ts as int, te as int),
            ),
        decreases te,
    {
        proof {
            assert(input@.subrange(ts as int, te as int).drop_last() =~= input@.subrange(
                ts as int,
                te - 1 as int,
            ));
        }
        te = te - 1;
    }
    proof {
        assert(spec_trim(input@.subrange(start as int, end as int)) == input@.subrange(
            ts as int,
            te as int,
        ));
    }
    (ts, te)
}

/// Parses `[ts, te)` as an unsigned decimal number, reporting the error
/// detail on failure.
fn parse_u32_range(input: &Vec<u8>, ts: usize, te: usize) -> (r: Result<u32, String>)
    requires
        ts <= te <= input@.len(),
    ensures
        match spec_parse_u32(input@.subrange(ts as int, te as int)) {
            Ok(n) => r matches Ok(v) && v as int == n,
            Err(detail) => r matches Err(s) && s@ == detail,
        },
{
    let ghost digits = input@.subrange(ts as int, te as int);
    if te == ts {
        return Err(String::from_str("cannot parse integer from empty string"));
    }
    let start = if input[ts] == 43 {
        if te - ts == 1 {
            return Err(String::from_str("invalid digit found in string"));
        }
        ts + 1
    } else {
        ts
    };
    let mut acc: u32 = 0;
    let mut j = start;
    while j < te
        invariant
            ts <= start <= j <= te <= input@.len(),
            digits == input@.subrange(ts as int, te as int),
            spec_parse_u32(digits) == spec_parse_u32_from(digits, j - ts, acc as int),
        decreases te - j,
    {
        let b = input[j];
        proof {
            assert(digits[j - ts] == input@[j as int]);
        }
        if b < 48 || b > 57 {
            return Err(String::from_str("invalid digit found in string"));
        }
        let next = acc as u64 * 10 + (b - 48) as u64;
        if next > 0xffffffff {
            return Err(String::from_str("number too large to fit in target type"));
        }
        acc = next as u32;
        j = j + 1;
    }
    Ok(acc)
}

/// Frames one message: scans header lines from `pos`, honouring the last
/// `Content-Length` header, and returns the payload bytes after the empty
/// line together with the position just past them.
pub fn parse_transport_payload(input: &Vec<u8>, pos: usize) -> (r: Result<
    (Vec<u8>, usize),
    ErrorMessage,
>)
    requires
        pos <= input@.len(),
    ensures
        match spec_parse_transport(input@, pos as int) {
            Ok(payload_next) => r matches Ok(p) && p.0@ == payload_next.0 && p.1 as int
                == payload_next.1,
            Err(detail) => r matches Err(em) && em.message@ == detail,
        },
{
    let mut p = pos;
    let mut current_len: u32 = 0;
    loop
        invariant
            pos <= p <= input@.len(),
            spec_parse_transport(input@, pos as int) == spec_frame(
                input@,
                p as int,
                current_len as int,
            ),
        decreases input@.len() - p,
    {
        if p >= input.len() {
            return Err(
                ErrorMessage::create(
                    String::from_str("Unexpected end of input while reading headers."),
                ),
            );
        }
        let line_end = find_line_end(input, p);
        proof {
            lemma_line_end_bounds(input@, p as int);
        }
        let ghost line = input@.subrange(p as int, line_end as int);
        if is_cl_prefix(input, p, line_end) {
            proof {
                assert(line.skip(15) =~= input@.subrange(p + 15 as int, line_end as int));
            }
            let (ts, te) = trim_range(input, p + 15, line_end);
            match parse_u32_range(input, ts, te) {
                Ok(n) => {
                    current_len = n;
                    p = line_end;
                },
                Err(msg) => {
                    return Err(ErrorMessage { message: msg });
                },
            }
        } else if line_end - p == 2 && input[p] == 13 && input[p + 1] == 10 {
            proof {
                assert(line =~= seq![13u8, 10u8]);
            }
            if current_len == 0 {
                return Err(
                    ErrorMessage::create(
                        String::from_str("Content-Length: not defined or invalid."),
                    ),
                );
            }
            let remaining = input.len() - line_end;
            let avail = if remaining < current_len as usize {
                remaining
            } else {
                current_len as usize
            };
            let mut payload: Vec<u8> = Vec::new();
            let mut j: usize = 0;
            proof {
                assert(payload@ =~= input@.subrange(line_end as int, line_end as int));
            }
            while j < avail
                invariant
                    j <= avail,
                    line_end + avail <= input@.len(),
                    input@.len() <= usize::MAX,
                    payload@ == input@.subrange(line_end as int, line_end + j as int),
                decreases avail - j,
            {
                payload.push(input[line_end + j]);
                proof {
                    assert(input@.subrange(line_end as int, line_end + j + 1 as int).drop_last()
                        =~= input@.subrange(line_end as int, line_end + j as int));
                    assert(payload@ =~= input@.subrange(line_end as int, line_end + j + 1 as int));
                }
                j = j + 1;
            }
            return Ok((payload, line_end + avail));
        } else {
            proof {
                if line == seq![13u8, 10u8] {
                    assert(line.len() == 2);
                    assert(line[0] == 13);
                    assert(line[1] == 10);
                    assert(input@[p as int] == 13);
                    assert(input@[p + 1 as int] == 10);
                    assert(false);
                }
            }
            p = line_end;
        }
    }
}

/// A number that was read is a value: non-negative and within 32 bits.
pub proof fn lemma_parse_u32_from_bounds(s: Seq<u8>, i: int, acc: int)
    requires
        0 <= acc <= 0xffffffff,
        spec_parse_u32_from(s, i, acc) is Ok,
    ensures
        0 <= spec_parse_u32_from(s, i, acc)->Ok_0 <= 0xffffffff,
    decreases s.len() - i,
{
    if 0 <= i < s.len() && 48 <= s[i] <= 57 && acc * 10 + (s[i] - 48) <= 0xffffffff {
        lemma_parse_u32_from_bounds(s, i + 1, acc * 10 + (s[i] - 48));
    }
}

/// A framed message always ends past where it starts, and never past the
/// input: each successful read makes progress.
pub proof fn lemma_frame_advances(input: Seq<u8>, pos: int, current_len: int)
    requires
        0 <= pos,
        0 <= current_len,
        spec_frame(input, pos, current_len) is Ok,
    ensures
        pos < spec_frame(input, pos, current_len)->Ok_0.1 <= input.len(),
    decreases input.len() - pos,
{
    if pos < input.len() {
        lemma_line_end_bounds(input, pos);
        let line_end = spec_line_end(input, pos);
        let line = input.subrange(pos, line_end);
        if spec_is_cl_line(line) {
            match spec_parse_u32(spec_trim(line.skip(15))) {
                Ok(n) => {
                    let digits = spec_trim(line.skip(15));
                    if digits.len() > 0 && digits[0] == 43 {
                        lemma_parse_u32_from_bounds(digits, 1, 0);
                    } else {
                        lemma_parse_u32_from_bounds(digits, 0, 0);
                    }
                    lemma_frame_advances(input, line_end, n);
                },
                Err(_) => {},
            }
        } else if line == seq![13u8, 10u8] {
        } else {
            lemma_frame_advances(input, line_end, current_len);
        }
    }
}

/// A transport reader over an in-memory byte buffer: each read frames the
/// next message and moves past it.
pub struct BufferMessageReader {
    pub input: Vec<u8>,
    pub pos: usize,
}

impl BufferMessageReader {
    /// A reader positioned at the start of the buffer.
    pub fn new(input: Vec<u8>) -> (r: BufferMessageReader)
        ensures
            r.input == input,
            r.pos == 0,
    {
        BufferMessageReader { input, pos: 0 }
    }
}

impl MessageReader for BufferMessageReader {
    open spec fn remaining(&self) -> nat {
        if self.pos <= self.input@.len() {
            (self.input@.len() - self.pos) as nat
        } else {
            0nat
        }
    }

    fn read_next(&mut self) -> (r: Result<String, ErrorMessage>)
        ensures
            final(self).input == old(self).input,
            old(self).pos <= old(self).input@.len() ==> match spec_parse_transport(
                old(self).input@,
                old(self).pos as int,
            ) {
                Ok(payload_next) => if valid_utf8(payload_next.0) {
                    &&& r matches Ok(m)
                    &&& m@ == decode_utf8(payload_next.0)
                    &&& final(self).pos as int == payload_next.1
                } else {
                    &&& r matches Err(em)
                    &&& em.message@ == "stream did not contain valid UTF-8"@
                    &&& final(self).pos == old(self).pos
                },
                Err(detail) => r matches Err(em) && em.message@ == detail && final(self).pos == old(
                    self,
                ).pos,
            },
            old(self).pos > old(self).input@.len() ==> r is Err && final(self).pos == old(self).pos,
    {
        if self.pos > self.input.len() {
            return Err(
                ErrorMessage::create(
                    String::from_str("Unexpected end of input while reading headers."),
                ),
            );
        }
        match parse_transport_message(&self.input, self.pos) {
            Ok(message_next) => {
                proof {
                    lemma_frame_advances(self.input@, self.pos as int, 0);
                }
                let (message, next) = message_next;
                self.pos = next;
                Ok(message)
            },
            Err(em) => Err(em),
        }
    }
}

/// Relies on `String::from_utf8`: succeeds exactly on valid UTF-8, decoding
/// the bytes into their characters.
#[verifier::external_body]
fn bytes_to_string(bytes: Vec<u8>) -> (r: Option<String>)
    ensures
        match r {
            Option::Some(s) => valid_utf8(bytes@) && s@ == decode_utf8(bytes@),
            Option::None => !valid_utf8(bytes@),
        },
{
    String::from_utf8(bytes).ok()
}

/// The framed wire form of an outbound message: the `Content-Length` header
/// counting the UTF-8 bytes of the payload, the empty line, the payload.
pub open spec fn spec_framed_text(msg: Seq<char>) -> Seq<char> {
    "Content-Length: "@ + crate::json::spec_u64_digits(
        (vstd::utf8::encode_utf8(msg).len() as usize) as int,
    ) + seq!['\r', '\n', '\r', '\n'] + msg
}

/// UTF-8 encoding distributes over concatenation.
pub proof fn lemma_encode_utf8_concat(a: Seq<char>, b: Seq<char>)
    ensures
        vstd::utf8::encode_utf8(a + b) == vstd::utf8::encode_utf8(a) + vstd::utf8::encode_utf8(b),
    decreases a.len(),
{
    if a.len() == 0 {
        assert(a + b =~= b);
        assert(vstd::utf8::encode_utf8(a) + vstd::utf8::encode_utf8(b) =~= vstd::utf8::encode_utf8(
            b,
        ));
    } else {
        assert((a + b)[0] == a[0]);
        assert((a + b).drop_first() =~= a.drop_first() + b);
        lemma_encode_utf8_concat(a.drop_first(), b);
        assert(vstd::utf8::encode_utf8(a + b) =~= vstd::utf8::encode_utf8(a)
            + vstd::utf8::encode_utf8(b));
    }
}

/// The byte form of the decimal digits of `n`.
pub open spec fn spec_digit_bytes(n: int) -> Seq<u8> {
    Seq::new(
        crate::json::spec_u64_digits(n).len(),
        |i: int| crate::json::spec_u64_digits(n)[i] as u8,
    )
}

/// The decimal digits of `n` are ASCII digit characters, byte for byte.
proof fn lemma_digit_bytes_are_digits(n: int)
    requires
        0 <= n,
    ensures
        spec_digit_bytes(n).len() == crate::json::spec_u64_digits(n).len(),
        spec_digit_bytes(n).len() >= 1,
        forall|i: int|
            0 <= i < spec_digit_bytes(n).len() ==> 48 <= #[trigger] spec_digit_bytes(n)[i] <= 57,
        vstd::utf8::is_ascii_chars(crate::json::spec_u64_digits(n)),
        vstd::utf8::encode_utf8(crate::json::spec_u64_digits(n)) == spec_digit_bytes(n),
    decreases n,
{
    let chars = crate::json::spec_u64_digits(n);
    if n < 10 {
        assert(chars[0] == crate::json::dec_digit(n));
    } else {
        lemma_digit_bytes_are_digits(n / 10);
        assert(chars == crate::json::spec_u64_digits(n / 10).push(
            crate::json::dec_digit(n % 10),
        ));
        assert forall|i: int| 0 <= i < chars.len() implies 48 <= #[trigger] (
        chars[i] as u8) <= 57 && '\0' <= chars[i] <= '\u{7f}' by {
            if i < chars.len() - 1 {
                assert(chars[i] == crate::json::spec_u64_digits(n / 10)[i]);
                assert(48 <= spec_digit_bytes(n / 10)[i] <= 57);
            } else {
                assert(chars[i] == crate::json::dec_digit(n % 10));
            }
        }
    }
    vstd::utf8::is_ascii_chars_encode_utf8(chars);
    assert(vstd::utf8::encode_utf8(chars) =~= spec_digit_bytes(n));
}

/// Reading one more digit multiplies the value by ten and adds it.
proof fn lemma_parse_from_push(s: Seq<u8>, i: int, acc: int, d: u8)
    requires
        0 <= i <= s.len(),
        0 <= acc,
        48 <= d <= 57,
        spec_parse_u32_from(s, i, acc) is Ok,
        spec_parse_u32_from(s, i, acc)->Ok_0 * 10 + (d - 48) <= 0xffffffff,
    ensures
        spec_parse_u32_from(s.push(d), i, acc) == Ok::<int, Seq<char>>(
            spec_parse_u32_from(s, i, acc)->Ok_0 * 10 + (d - 48),
        ),
    decreases s.len() - i,
{
    if i >= s.len() {
        assert(s.push(d)[i] == d);
        assert(spec_parse_u32_from(s.push(d), i + 1, acc * 10 + (d - 48)) == Ok::<int, Seq<char>>(
            acc * 10 + (d - 48),
        ));
    } else {
        assert(s.push(d)[i] == s[i]);
        lemma_parse_from_push(s, i + 1, acc * 10 + (s[i] - 48), d);
    }
}

/// Reading back the decimal digits of `n` yields `n`.
pub proof fn lemma_parse_digit_bytes(n: int)
    requires
        0 <= n <= 0xffffffff,
    ensures
        spec_parse_u32_from(spec_digit_bytes(n), 0, 0) == Ok::<int, Seq<char>>(n),
        spec_parse_u32(spec_digit_bytes(n)) == Ok::<int, Seq<char>>(n),
    decreases n,
{
    lemma_digit_bytes_are_digits(n);
    let db = spec_digit_bytes(n);
    if n < 10 {
        assert(db[0] == crate::json::dec_digit(n) as u8);
        assert(db[0] == 48 + n);
        assert(spec_parse_u32_from(db, 1, n) == Ok::<int, Seq<char>>(n));
        assert(spec_parse_u32_from(db, 0, 0) == Ok::<int, Seq<char>>(n));
    } else {
        lemma_parse_digit_bytes(n / 10);
        lemma_digit_bytes_are_digits(n / 10);
        let prev = spec_digit_bytes(n / 10);
        let d = (48 + n % 10) as u8;
        assert(crate::json::dec_digit(n % 10) as u8 == d);
        assert(db =~= prev.push(d)) by {
            assert(crate::json::spec_u64_digits(n) == crate::json::spec_u64_digits(n / 10).push(
                crate::json::dec_digit(n % 10),
            ));
        }
        lemma_parse_from_push(prev, 0, 0, d);
        assert((n / 10) * 10 + (n % 10) == n);
    }
    assert(db[0] != 43);
}

/// Frames one outbound message for the transport.
pub fn frame_message(msg: &str) -> (r: String)
    ensures
        r@ == spec_framed_text(msg@),
{
    let byte_len = msg.len();
    let mut out: Vec<char> = Vec::new();
    crate::json::push_str_chars("Content-Length: ", &mut out);
    crate::json::push_u64_digits(byte_len as u64, &mut out);
    out.push('\r');
    out.push('\n');
    out.push('\r');
    out.push('\n');
    crate::json::push_str_chars(msg, &mut out);
    let r = crate::json::chars_to_string(&out);
    proof {
        assert(r@ =~= spec_framed_text(msg@));
    }
    r
}

/// Framing undoes itself: running the framer on the framed wire form of a
/// message yields exactly the message's bytes, and consumes the whole frame.
pub proof fn lemma_framed_message_round_trip(msg: Seq<char>)
    requires
        1 <= vstd::utf8::encode_utf8(msg).len() <= 0xffffffff,
    ensures
        spec_parse_transport(vstd::utf8::encode_utf8(spec_framed_text(msg)), 0) == Ok::<
            (Seq<u8>, int),
            Seq<char>,
        >(
            (
                vstd::utf8::encode_utf8(msg),
                vstd::utf8::encode_utf8(spec_framed_text(msg)).len() as int,
            ),
        ),
{
    let n = vstd::utf8::encode_utf8(msg).len() as int;
    let payload = vstd::utf8::encode_utf8(msg);
    let header_chars = "Content-Length: "@;
    let digit_chars = crate::json::spec_u64_digits(n);
    let crlfcrlf = seq!['\r', '\n', '\r', '\n'];
    reveal_strlit("Content-Length: ");
    assert(header_chars.len() == 16);
    assert(vstd::utf8::is_ascii_chars(header_chars));
    vstd::utf8::is_ascii_chars_encode_utf8(header_chars);
    let header_bytes = vstd::utf8::encode_utf8(header_chars);
    assert(header_bytes =~= spec_cl_prefix() + seq![32u8]);
    lemma_digit_bytes_are_digits(n);
    let db = spec_digit_bytes(n);
    assert(vstd::utf8::is_ascii_chars(crlfcrlf));
    vstd::utf8::is_ascii_chars_encode_utf8(crlfcrlf);
    assert(vstd::utf8::encode_utf8(crlfcrlf) =~= seq![13u8, 10u8, 13u8, 10u8]);
    assert(spec_framed_text(msg) == header_chars + digit_chars + crlfcrlf + msg);
    lemma_encode_utf8_concat(header_chars + digit_chars + crlfcrlf, msg);
    lemma_encode_utf8_concat(header_chars + digit_chars, crlfcrlf);
    lemma_encode_utf8_concat(header_chars, digit_chars);
    let bytes = vstd::utf8::encode_utf8(spec_framed_text(msg));
    assert(bytes == header_bytes + db + seq![13u8, 10u8, 13u8, 10u8] + payload);
    let value = seq![32u8] + db + seq![13u8];
    assert(bytes =~= spec_cl_prefix() + value + seq![10u8] + seq![13u8, 10u8] + payload
        + Seq::<u8>::empty());
    assert(forall|j: int| 0 <= j < value.len() ==> value[j] != 10) by {
        assert(forall|i: int| 0 <= i < db.len() ==> 48 <= #[trigger] db[i] <= 57);
    }
    // Trimming the header value (with its line break) leaves the digits.
    let t0 = value.push(10u8);
    assert(t0[0] == 32);
    assert(t0.drop_first() =~= db + seq![13u8, 10u8]);
    let t1 = db + seq![13u8, 10u8];
    assert(48 <= t1[0] <= 57);
    assert(spec_trim_start(t0) == spec_trim_start(t1));
    assert(spec_trim_start(t1) == t1);
    assert(t1.last() == 10);
    assert(t1.drop_last() =~= db + seq![13u8]);
    let t2 = db + seq![13u8];
    assert(t2.last() == 13);
    assert(t2.drop_last() =~= db);
    assert(spec_trim_end(t1) == spec_trim_end(t2));
    assert(spec_trim_end(t2) == spec_trim_end(db));
    assert(48 <= db.last() <= 57);
    assert(spec_trim_end(db) == db);
    assert(spec_trim(t0) == db);
    lemma_parse_digit_bytes(n);
    lemma_framer_returns_payload(bytes, value, n, payload, Seq::<u8>::empty());
    assert(16 + value.len() + 2 + n == bytes.len());
}

/// Frames one message and decodes its payload as UTF-8 text: the message
/// string and the position where the next message begins, or the error.
pub fn parse_transport_message(input: &Vec<u8>, pos: usize) -> (r: Result<
    (String, usize),
    ErrorMessage,
>)
    requires
        pos <= input@.len(),
    ensures
        match spec_parse_transport(input@, pos as int) {
            Ok(payload_next) => if valid_utf8(payload_next.0) {
                r matches Ok(m) && m.0@ == decode_utf8(payload_next.0) && m.1 as int
                    == payload_next.1
            } else {
                r matches Err(em) && em.message@ == "stream did not contain valid UTF-8"@
            },
            Err(detail) => r matches Err(em) && em.message@ == detail,
        },
{
    match parse_transport_payload(input, pos) {
        Err(em) => Err(em),
        Ok((payload, next)) => match bytes_to_string(payload) {
            Some(s) => Ok((s, next)),
            None => Err(
                ErrorMessage::create(String::from_str("stream did not contain valid UTF-8")),
            ),
        },
    }
}

} // verus!
