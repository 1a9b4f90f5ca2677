//! Length-prefixed message framing for the stdio transport.
//!
//! A frame is a block of header lines closed by a blank line, one header
//! carrying the exact decimal byte count of the body that follows.  The
//! reader consumes one frame from the front of a byte buffer; the writer
//! produces the canonical frame for a body.

use vstd::prelude::*;

use crate::textutil::{
    all_digits, ascii_bytes, dec_bytes, digits_value, find_byte_from, first_byte, is_digit,
    lemma_dec_bytes_digits, lemma_dec_bytes_value, lemma_digits_value_take, lemma_first_byte_at,
    match_at, matches_here, str_to_bytes, u64_to_dec_bytes,
};

verus! {

/// The bytes of the length-prefix header key.
pub open spec fn clen_token() -> Seq<u8> {
    ascii_bytes("Content-Length:"@)
}

/// A fatal framing fault of the stdio stream.
#[derive(Clone, Copy, Debug, PartialEq, Eq, Structural)]
pub enum FrameError {
    /// The stream ended after a partial header block or a short body.
    UnexpectedEof,
    /// A length header was present but its value is not a plain decimal
    /// number in range.
    InvalidLength,
    /// The header block carried no length header at all.
    MissingLength,
}

/// Outcome of trying to read one frame from the front of a buffer.
pub enum ReadOutcome {
    /// The buffer holds no complete frame yet and the stream is still open.
    NeedMore,
    /// The stream ended before any byte arrived.
    EndOfStream,
    /// One complete frame: its raw bytes (headers and body) and how many
    /// bytes of the buffer it covered.
    Message(Vec<u8>, usize),
    /// The stream structure is unrecoverable.
    Failed(FrameError),
}

/// Ghost mirror of [`ReadOutcome`]; a message is identified by how many
/// bytes of the input it covers.
pub enum SpecReadOutcome {
    NeedMore,
    EndOfStream,
    Message { consumed: int },
    Failed(FrameError),
}

/// `s` with trailing carriage-return and line-feed bytes removed.
pub open spec fn trim_crlf(s: Seq<u8>) -> Seq<u8>
    decreases s.len(),
{
    if s.len() > 0 && (s.last() == 13 || s.last() == 10) {
        trim_crlf(s.drop_last())
    } else {
        s
    }
}

/// Space or horizontal tab.
pub open spec fn is_ws(b: u8) -> bool {
    b == 32 || b == 9
}

/// `s` with trailing spaces and tabs removed.
pub open spec fn trim_ws_end(s: Seq<u8>) -> Seq<u8>
    decreases s.len(),
{
    if s.len() > 0 && is_ws(s.last()) {
        trim_ws_end(s.drop_last())
    } else {
        s
    }
}

/// `s` with leading spaces and tabs removed.
pub open spec fn trim_ws_start(s: Seq<u8>) -> Seq<u8>
    decreases s.len(),
{
    if s.len() > 0 && is_ws(s.first()) {
        trim_ws_start(s.drop_first())
    } else {
        s
    }
}

/// `s` with spaces and tabs removed at both ends.
pub open spec fn trim_ws(s: Seq<u8>) -> Seq<u8> {
    trim_ws_start(trim_ws_end(s))
}

/// A well-formed length value: at least one digit, digits only, in range.
pub open spec fn valid_length_digits(s: Seq<u8>) -> bool {
    &&& s.len() >= 1
    &&& all_digits(s)
    &&& digits_value(s) <= usize::MAX
}

/// What the reader does with the single header line `input[p..end]`, given
/// the length header seen so far.  Defined together with [`spec_read_at`].
pub open spec fn spec_step_line(
    input: Seq<u8>,
    eof: bool,
    p: int,
    end: int,
    clen: Option<int>,
) -> SpecReadOutcome
    recommends
        0 <= p < end <= input.len(),
    decreases input.len() - p, 0int,
{
    let t = trim_crlf(input.subrange(p, end));
    if t.len() == 0 {
        // Blank line: the header block is over; read the body.
        match clen {
            None => SpecReadOutcome::Failed(FrameError::MissingLength),
            Some(l) => if input.len() - end >= l {
                SpecReadOutcome::Message { consumed: end + l }
            } else if eof {
                SpecReadOutcome::Failed(FrameError::UnexpectedEof)
            } else {
                SpecReadOutcome::NeedMore
            },
        }
    } else if t.len() >= clen_token().len() && t.take(clen_token().len() as int) == clen_token() {
        let rest = trim_ws(t.skip(clen_token().len() as int));
        if valid_length_digits(rest) {
            // Line bounds outside `p < end <= input.len()` cannot arise from
            // the reader; the guard keeps the measure decreasing.
            if end <= p || end > input.len() {
                SpecReadOutcome::Failed(FrameError::UnexpectedEof)
            } else {
                spec_read_at(input, eof, end, Some(digits_value(rest) as int))
            }
        } else {
            SpecReadOutcome::Failed(FrameError::InvalidLength)
        }
    } else {
        // See above: the guard only serves the termination measure.
        if end <= p || end > input.len() {
            SpecReadOutcome::Failed(FrameError::UnexpectedEof)
        } else {
            spec_read_at(input, eof, end, clen)
        }
    }
}

/// The outcome of reading one frame from `input[p..]`, with `clen` the value
/// of the last length header seen so far.  `eof` says whether the stream is
/// known to end right after `input`.
pub open spec fn spec_read_at(input: Seq<u8>, eof: bool, p: int, clen: Option<int>) -> SpecReadOutcome
    recommends
        0 <= p <= input.len(),
    decreases input.len() - p, 1int,
{
    if p >= input.len() {
        if !eof {
            SpecReadOutcome::NeedMore
        } else if p == 0 {
            SpecReadOutcome::EndOfStream
        } else {
            SpecReadOutcome::Failed(FrameError::UnexpectedEof)
        }
    } else {
        match first_byte(input, p, 10) {
            None => if !eof {
                SpecReadOutcome::NeedMore
            } else {
                spec_step_line(input, eof, p, input.len() as int, clen)
            },
            Some(q) => spec_step_line(input, eof, p, q + 1, clen),
        }
    }
}

/// The reader's result on the whole buffer.
pub open spec fn spec_read(input: Seq<u8>, eof: bool) -> SpecReadOutcome {
    spec_read_at(input, eof, 0, None)
}

/// Relation between the executable outcome and the specification.
pub open spec fn read_outcome_ok(input: Seq<u8>, eof: bool, r: ReadOutcome) -> bool {
    match r {
        ReadOutcome::NeedMore => spec_read(input, eof) == SpecReadOutcome::NeedMore,
        ReadOutcome::EndOfStream => spec_read(input, eof) == SpecReadOutcome::EndOfStream,
        ReadOutcome::Message(m, consumed) => {
            &&& spec_read(input, eof) == (SpecReadOutcome::Message { consumed: consumed as int })
            &&& consumed <= input.len()
            &&& m@ == input.take(consumed as int)
        },
        ReadOutcome::Failed(e) => spec_read(input, eof) == SpecReadOutcome::Failed(e),
    }
}

/// The ghost value of an executable length-header slot.
pub open spec fn opt_int(o: Option<usize>) -> Option<int> {
    match o {
        Some(l) => Some(l as int),
        None => None,
    }
}

/// Index after which the trailing carriage returns and line feeds of
/// `input[start..end]` begin.
fn trim_crlf_end(input: &[u8], start: usize, end: usize) -> (t: usize)
    requires
        start <= end <= input@.len(),
    ensures
        start <= t <= end,
        input@.subrange(start as int, t as int) == trim_crlf(
            input@.subrange(start as int, end as int),
        ),
{
    let mut e: usize = end;
    while e > start && (input[e - 1] == 13 || input[e - 1] == 10)
        invariant
            start <= e <= end <= input@.len(),
            trim_crlf(input@.subrange(start as int, end as int)) == trim_crlf(
                input@.subrange(start as int, e as int),
            ),
        decreases e,
    {
        proof {
            assert(input@.subrange(start as int, e as int).drop_last() =~= input@.subrange(
                start as int,
                e - 1,
            ));
        }
        e = e - 1;
    }
    proof {
        let s = input@.subrange(start as int, e as int);
        if s.len() > 0 {
            assert(s.last() == input@[e - 1]);
        }
        assert(trim_crlf(s) == s);
    }
    e
}

/// Index after which the trailing spaces and tabs of `input[start..end]`
/// begin.
fn trim_ws_end_exec(input: &[u8], start: usize, end: usize) -> (t: usize)
    requires
        start <= end <= input@.len(),
    ensures
        start <= t <= end,
        input@.subrange(start as int, t as int) == trim_ws_end(
            input@.subrange(start as int, end as int),
        ),
{
    let mut e: usize = end;
    while e > start && (input[e - 1] == 32 || input[e - 1] == 9)
        invariant
            start <= e <= end <= input@.len(),
            trim_ws_end(input@.subrange(start as int, end as int)) == trim_ws_end(
                input@.subrange(start as int, e as int),
            ),
        decreases e,
    {
        proof {
            assert(input@.subrange(start as int, e as int).drop_last() =~= input@.subrange(
                start as int,
                e - 1,
            ));
        }
        e = e - 1;
    }
    proof {
        let s = input@.subrange(start as int, e as int);
        if s.len() > 0 {
            assert(s.last() == input@[e - 1]);
        }
        assert(trim_ws_end(s) == s);
    }
    e
}

/// Index where the leading spaces and tabs of `input[start..end]` stop.
fn trim_ws_start_exec(input: &[u8], start: usize, end: usize) -> (t: usize)
    requires
        start <= end <= input@.len(),
    ensures
        start <= t <= end,
        input@.subrange(t as int, end as int) == trim_ws_start(
            input@.subrange(start as int, end as int),
        ),
{
    let mut s: usize = start;
    while s < end && (input[s] == 32 || input[s] == 9)
        invariant
            start <= s <= end <= input@.len(),
            trim_ws_start(input@.subrange(start as int, end as int)) == trim_ws_start(
                input@.subrange(s as int, end as int),
            ),
        decreases end - s,
    {
        proof {
            assert(input@.subrange(s as int, end as int).drop_first() =~= input@.subrange(
                s + 1,
                end as int,
            ));
        }
        s = s + 1;
    }
    proof {
        let t = input@.subrange(s as int, end as int);
        if t.len() > 0 {
            assert(t.first() == input@[s as int]);
        }
        assert(trim_ws_start(t) == t);
    }
    s
}

/// Parse `input[ds..de]` as a decimal length; `None` exactly when the digits
/// are missing, malformed, or out of range.
fn parse_length_digits(input: &[u8], ds: usize, de: usize) -> (r: Option<usize>)
    requires
        ds <= de <= input@.len(),
    ensures
        match r {
            Some(v) => {
                &&& valid_length_digits(input@.subrange(ds as int, de as int))
                &&& v == digits_value(input@.subrange(ds as int, de as int))
            },
            None => !valid_length_digits(input@.subrange(ds as int, de as int)),
        },
{
    let ghost s = input@.subrange(ds as int, de as int);
    if ds == de {
        return None;
    }
    let mut acc: usize = 0;
    let mut k: usize = ds;
    while k < de
        invariant
            ds <= k <= de <= input@.len(),
            s == input@.subrange(ds as int, de as int),
            all_digits(s.take(k - ds)),
            acc == digits_value(s.take(k - ds)),
        decreases de - k,
    {
        let b = input[k];
        if b < 48 || b > 57 {
            assert(!is_digit(s[k - ds]));
            return None;
        }
        let d: usize = (b - 48) as usize;
        if acc > (usize::MAX - d) / 10 {
            proof {
                assert(s.take(k + 1 - ds).drop_last() =~= s.take(k - ds));
                assert(s.take(k + 1 - ds).last() == s[k - ds]);
                assert(acc * 10 + d > usize::MAX) by (nonlinear_arith)
                    requires
                        acc > (usize::MAX - d) / 10,
                        d <= 9,
                ;
                assert(digits_value(s.take(k + 1 - ds)) > usize::MAX);
                if all_digits(s) {
                    lemma_digits_value_take(s, k + 1 - ds);
                }
            }
            return None;
        }
        proof {
            assert(acc * 10 + d <= usize::MAX) by (nonlinear_arith)
                requires
                    acc <= (usize::MAX - d) / 10,
                    d <= 9,
            ;
            assert(s.take(k + 1 - ds).drop_last() =~= s.take(k - ds));
            assert(s.take(k + 1 - ds).last() == s[k - ds]);
        }
        acc = acc * 10 + d;
        k = k + 1;
    }
    proof {
        assert(s.take(de - ds) =~= s);
    }
    Some(acc)
}

/// Read one frame from the front of `input`, which holds everything received
/// so far; `eof` says the stream ends right after `input`.
///
/// Mirrors the header-line reader of the stdio transport: header lines up to
/// a blank line, the last length header fixing the body size.  Returns end of
/// stream only when the stream ended before any byte; fails closed on a
/// partial header block, a missing length header, or a malformed length.
pub fn read_lsp_message(input: &[u8], eof: bool) -> (r: ReadOutcome)
    ensures
        read_outcome_ok(input@, eof, r),
{
    let ilen: usize = input.len();
    proof {
        reveal_strlit("Content-Length:");
        assert("Content-Length:"@.len() == 15);
        assert("Content-Length:".is_ascii());
    }
    let token = str_to_bytes("Content-Length:");
    proof {
        assert(token@ =~= clen_token());
    }
    let tlen: usize = token.len();
    let mut p: usize = 0;
    let mut clen: Option<usize> = None;
    loop
        invariant
            ilen == input@.len(),
            tlen == 15,
            token@ == clen_token(),
            token@.len() == 15,
            p <= ilen,
            spec_read(input@, eof) == spec_read_at(input@, eof, p as int, opt_int(clen)),
        decreases ilen - p,
    {
        if p >= ilen {
            if !eof {
                return ReadOutcome::NeedMore;
            } else if p == 0 {
                return ReadOutcome::EndOfStream;
            } else {
                return ReadOutcome::Failed(FrameError::UnexpectedEof);
            }
        }
        let end: usize;
        match find_byte_from(input, p, 10) {
            None => {
                if !eof {
                    return ReadOutcome::NeedMore;
                }
                end = ilen;
            },
            Some(q) => {
                end = q + 1;
            },
        }
        proof {
            assert(spec_read_at(input@, eof, p as int, opt_int(clen)) == spec_step_line(
                input@,
                eof,
                p as int,
                end as int,
                opt_int(clen),
            ));
        }
        let ghost line = input@.subrange(p as int, end as int);
        let t_end = trim_crlf_end(input, p, end);
        let ghost t = trim_crlf(line);
        if t_end == p {
            // Blank line: the header block is over.
            match clen {
                None => {
                    return ReadOutcome::Failed(FrameError::MissingLength);
                },
                Some(l) => {
                    if ilen - end >= l {
                        let consumed: usize = end + l;
                        let m = vstd::slice::slice_subrange(input, 0, consumed);
                        let v = vstd::slice::slice_to_vec(m);
                        proof {
                            assert(input@.subrange(0, consumed as int) =~= input@.take(
                                consumed as int,
                            ));
                        }
                        return ReadOutcome::Message(v, consumed);
                    } else if eof {
                        return ReadOutcome::Failed(FrameError::UnexpectedEof);
                    } else {
                        return ReadOutcome::NeedMore;
                    }
                },
            }
        }
        // Non-blank header line.
        let has_prefix = t_end - p >= tlen && matches_here(input, &token, p);
        proof {
            if t_end - p >= tlen {
                assert(t.take(15) =~= input@.subrange(p as int, p + 15));
                assert(match_at(input@, token@, p as int) <==> input@.subrange(p as int, p + 15)
                    =~= clen_token());
            }
        }
        if has_prefix {
            let de = trim_ws_end_exec(input, p + tlen, t_end);
            let ds = trim_ws_start_exec(input, p + tlen, de);
            proof {
                assert(t.skip(15) =~= input@.subrange(p + 15, t_end as int));
                assert(trim_ws(t.skip(15)) == input@.subrange(ds as int, de as int));
            }
            match parse_length_digits(input, ds, de) {
                None => {
                    return ReadOutcome::Failed(FrameError::InvalidLength);
                },
                Some(v) => {
                    proof {
                        assert(spec_step_line(input@, eof, p as int, end as int, opt_int(clen))
                            == spec_read_at(input@, eof, end as int, Some(v as int)));
                    }
                    clen = Some(v);
                    p = end;
                },
            }
        } else {
            proof {
                assert(spec_step_line(input@, eof, p as int, end as int, opt_int(clen))
                    == spec_read_at(input@, eof, end as int, opt_int(clen)));
            }
            p = end;
        }
    }
}

/// The canonical frame header for a body of `len` bytes.
pub open spec fn spec_frame_header(len: nat) -> Seq<u8> {
    ascii_bytes("Content-Length: "@) + dec_bytes(len) + ascii_bytes("\r\n\r\n"@)
}

/// The canonical frame for `body`: header block, blank line, body.
pub open spec fn spec_frame(body: Seq<u8>) -> Seq<u8> {
    spec_frame_header(body.len()) + body
}

/// Framing a body and reading the resulting bytes back gives exactly one
/// message covering the frame, whatever follows it and whether or not the
/// stream ends there; the frame is the canonical header block followed by
/// the body byte for byte, so the body is recovered exactly.
#[verifier::rlimit(60)]
pub proof fn lemma_frame_round_trip(body: Seq<u8>, extra: Seq<u8>, eof: bool)
    requires
        body.len() <= usize::MAX,
    ensures
        spec_read(spec_frame(body) + extra, eof) == (SpecReadOutcome::Message {
            consumed: spec_frame(body).len() as int,
        }),
        (spec_frame(body) + extra).take(spec_frame(body).len() as int) == spec_frame(body),
        spec_frame(body).skip(spec_frame_header(body.len()).len() as int) == body,
{
    reveal_strlit("Content-Length: ");
    reveal_strlit("Content-Length:");
    reveal_strlit("\r\n\r\n");
    let ghost gl: nat = body.len();
    let l = gl as int;
    let hb = ascii_bytes("Content-Length: "@);
    let d = dec_bytes(body.len());
    let sb = ascii_bytes("\r\n\r\n"@);
    let dlen = d.len() as int;
    lemma_dec_bytes_digits(body.len());
    lemma_dec_bytes_value(body.len());
    let input = spec_frame(body) + extra;
    assert(hb =~= seq![
        67u8, 111u8, 110u8, 116u8, 101u8, 110u8, 116u8, 45u8, 76u8, 101u8, 110u8, 103u8, 116u8,
        104u8, 58u8, 32u8,
    ]);
    assert(clen_token() =~= seq![
        67u8, 111u8, 110u8, 116u8, 101u8, 110u8, 116u8, 45u8, 76u8, 101u8, 110u8, 103u8, 116u8,
        104u8, 58u8,
    ]);
    assert(sb =~= seq![13u8, 10u8, 13u8, 10u8]);
    assert(input.len() == 20 + dlen + l + extra.len());
    // No line feed before the end of the length header line.
    assert forall|j: int| 0 <= j < 17 + dlen implies input[j] != 10 by {
        if j < 16 {
            assert(input[j] == hb[j]);
        } else if j < 16 + dlen {
            assert(input[j] == d[j - 16]);
            assert(is_digit(d[j - 16]));
        } else {
            assert(input[j] == sb[0]);
        }
    }
    assert(input[17 + dlen] == sb[1]);
    lemma_first_byte_at(input, 0, 10, 17 + dlen);
    let end1 = 18 + dlen;
    assert(spec_read(input, eof) == spec_step_line(input, eof, 0, end1, None));
    // The header line trims to the length header itself.
    let line1 = input.subrange(0, end1);
    assert(line1 =~= (hb + d) + seq![13u8, 10u8]);
    let t1 = hb + d;
    assert(line1.last() == 10);
    assert(line1.drop_last() =~= t1 + seq![13u8]);
    assert(trim_crlf(line1) == trim_crlf(t1 + seq![13u8]));
    assert((t1 + seq![13u8]).last() == 13);
    assert((t1 + seq![13u8]).drop_last() =~= t1);
    assert(trim_crlf(t1 + seq![13u8]) == trim_crlf(t1));
    assert(t1.last() == d.last());
    assert(is_digit(d.last()));
    assert(trim_crlf(t1) == t1);
    // The line starts with the length-prefix key; the rest trims to digits.
    assert(t1.len() == 16 + dlen);
    assert(t1.take(15) =~= clen_token());
    let rest = t1.skip(15);
    assert(rest =~= seq![32u8] + d);
    assert(rest.last() == d.last());
    assert(!is_ws(rest.last()));
    assert(trim_ws_end(rest) == rest);
    assert(rest.first() == 32);
    assert(rest.drop_first() =~= d);
    assert(trim_ws_start(rest) == trim_ws_start(d));
    assert(!is_ws(d.first()));
    assert(trim_ws_start(d) == d);
    assert(trim_ws(rest) == d);
    assert(valid_length_digits(d));
    assert(spec_step_line(input, eof, 0, end1, None) == spec_read_at(input, eof, end1, Some(l)));
    // The next line is the blank separator, and the whole body follows.
    let p2 = end1;
    assert(input[p2] == sb[2]);
    assert(input[p2 + 1] == sb[3]);
    lemma_first_byte_at(input, p2, 10, p2 + 1);
    assert(spec_read_at(input, eof, p2, Some(l)) == spec_step_line(
        input,
        eof,
        p2,
        p2 + 2,
        Some(l),
    ));
    let end2 = p2 + 2;
    let line2 = input.subrange(p2, end2);
    assert(line2 =~= seq![13u8, 10u8]);
    assert(line2.last() == 10);
    assert(line2.drop_last() =~= seq![13u8]);
    assert(trim_crlf(line2) == trim_crlf(seq![13u8]));
    assert(seq![13u8].last() == 13);
    assert(seq![13u8].drop_last() =~= Seq::<u8>::empty());
    assert(trim_crlf(seq![13u8]) == trim_crlf(Seq::<u8>::empty()));
    assert(trim_crlf(Seq::<u8>::empty()) == Seq::<u8>::empty());
    assert(trim_crlf(line2).len() == 0);
    assert(input.len() - end2 >= l);
    assert(spec_step_line(input, eof, p2, end2, Some(l)) == (SpecReadOutcome::Message {
        consumed: end2 + l,
    }));
    assert(end2 + l == spec_frame(body).len());
    assert((spec_frame(body) + extra).take(spec_frame(body).len() as int) =~= spec_frame(body));
    assert(spec_frame(body).skip(spec_frame_header(body.len()).len() as int) =~= body);
}

/// Frame `body` for the wire: length header, blank line, then the body
/// byte for byte.
pub fn frame_message(body: &[u8]) -> (r: Vec<u8>)
    ensures
        r@ == spec_frame(body@),
{
    proof {
        reveal_strlit("Content-Length: ");
        assert("Content-Length: ".is_ascii());
        reveal_strlit("\r\n\r\n");
        assert("\r\n\r\n".is_ascii());
    }
    let mut v = str_to_bytes("Content-Length: ");
    let mut d = u64_to_dec_bytes(body.len() as u64);
    v.append(&mut d);
    let mut sep = str_to_bytes("\r\n\r\n");
    v.append(&mut sep);
    let mut b = vstd::slice::slice_to_vec(body);
    v.append(&mut b);
    proof {
        assert(v@ =~= spec_frame(body@));
    }
    v
}

} // verus!
