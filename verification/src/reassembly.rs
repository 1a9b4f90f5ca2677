//! Reassembly of length-prefixed messages from a UDP datagram stream.
//!
//! Datagrams may carry partial frames, whole frames, or several frames at
//! once, so the reassembler keeps an accumulator across reads: it scans the
//! accumulator for the length-prefix header, discards the header block once
//! complete, and extracts exactly the announced number of body bytes,
//! repeating until no further progress is possible.

use vstd::prelude::*;

use crate::frame::{clen_token, is_ws, spec_frame};
use crate::textutil::{
    digits_value, find_subseq_from, first_match, is_digit, lemma_dec_bytes_digits,
    lemma_dec_bytes_value, lemma_first_match_at, lemma_first_match_extend,
    lemma_first_match_found, lemma_run_len_at, lemma_run_len_found, match_at, run_len,
    str_to_bytes,
};

verus! {

use vstd::slice::{slice_subrange, slice_to_vec};

/// The bytes of the header-block terminator.
pub open spec fn sep_token() -> Seq<u8> {
    crate::textutil::ascii_bytes("\r\n\r\n"@)
}

/// Space-or-tab predicate, as a named spec closure.
pub open spec fn ws_pred() -> spec_fn(u8) -> bool {
    |b: u8| is_ws(b)
}

/// Decimal-digit predicate, as a named spec closure.
pub open spec fn digit_pred() -> spec_fn(u8) -> bool {
    |b: u8| is_digit(b)
}

/// The number denoted by a digit string under saturating arithmetic: each
/// step multiplies and adds, clamping at `usize::MAX`.
pub open spec fn sat_digits_value(s: Seq<u8>) -> nat
    decreases s.len(),
{
    if s.len() == 0 {
        0
    } else {
        let p = sat_digits_value(s.drop_last());
        let v = p * 10 + (s.last() - 48) as nat;
        if v > usize::MAX as nat {
            usize::MAX as nat
        } else {
            v
        }
    }
}

/// The saturating value never exceeds `usize::MAX`.
pub proof fn lemma_sat_digits_bound(s: Seq<u8>)
    ensures
        sat_digits_value(s) <= usize::MAX as nat,
    decreases s.len(),
{
    if s.len() > 0 {
        lemma_sat_digits_bound(s.drop_last());
    }
}

/// Where the exact value is in range, saturation changes nothing.
pub proof fn lemma_sat_digits_exact(s: Seq<u8>)
    requires
        digits_value(s) <= usize::MAX as nat,
    ensures
        sat_digits_value(s) == digits_value(s),
    decreases s.len(),
{
    if s.len() > 0 {
        let p = digits_value(s.drop_last());
        assert(p * 10 >= p) by (nonlinear_arith);
        lemma_sat_digits_exact(s.drop_last());
    }
}

/// Scan `buf` for a complete header block: the position of the length-prefix
/// key, the digits after optional spaces and tabs, and the block terminator.
/// Yields the index where the body starts and the announced body length.
pub open spec fn spec_parse_header(buf: Seq<u8>) -> Option<(int, nat)> {
    match first_match(buf, clen_token(), 0) {
        None => None,
        Some(h) => {
            let dstart = h + clen_token().len() + run_len(buf, h + clen_token().len(), ws_pred());
            let dend = dstart + run_len(buf, dstart, digit_pred());
            if dend == dstart {
                None
            } else {
                match first_match(buf, sep_token(), dend) {
                    None => None,
                    Some(r) => Some(
                        (r + sep_token().len(), sat_digits_value(buf.subrange(dstart, dend))),
                    ),
                }
            }
        },
    }
}

/// A successful header scan lies inside the buffer and announces a length in
/// range.
pub proof fn lemma_parse_header_bounds(buf: Seq<u8>)
    ensures
        match spec_parse_header(buf) {
            Some((bs, len)) => 19 <= bs <= buf.len() && len <= usize::MAX as nat,
            None => true,
        },
{
    reveal_strlit("Content-Length:");
    reveal_strlit("\r\n\r\n");
    match first_match(buf, clen_token(), 0) {
        None => {},
        Some(h) => {
            lemma_first_match_found(buf, clen_token(), 0, h);
            let a = h + clen_token().len();
            lemma_run_len_found(buf, a, ws_pred());
            let dstart = a + run_len(buf, a, ws_pred());
            lemma_run_len_found(buf, dstart, digit_pred());
            let dend = dstart + run_len(buf, dstart, digit_pred());
            if dend != dstart {
                match first_match(buf, sep_token(), dend) {
                    None => {},
                    Some(r) => {
                        lemma_first_match_found(buf, sep_token(), dend, r);
                        lemma_sat_digits_bound(buf.subrange(dstart, dend));
                    },
                }
            }
        },
    }
}

/// A successful header scan is not disturbed by bytes that arrive later:
/// the first header key, its digits, and the block terminator all lie
/// inside the bytes already buffered.
pub proof fn lemma_parse_header_extend(buf: Seq<u8>, more: Seq<u8>)
    requires
        spec_parse_header(buf) is Some,
    ensures
        spec_parse_header(buf + more) == spec_parse_header(buf),
{
    reveal_strlit("Content-Length:");
    reveal_strlit("\r\n\r\n");
    let ext = buf + more;
    match first_match(buf, clen_token(), 0) {
        None => {
            assert(false);
        },
        Some(h) => {
            lemma_first_match_found(buf, clen_token(), 0, h);
            lemma_first_match_extend(buf, more, clen_token(), 0, h);
            let a = h + clen_token().len();
            lemma_run_len_found(buf, a, ws_pred());
            let dstart = a + run_len(buf, a, ws_pred());
            lemma_run_len_found(buf, dstart, digit_pred());
            let dend = dstart + run_len(buf, dstart, digit_pred());
            assert(dend > dstart);
            match first_match(buf, sep_token(), dend) {
                None => {
                    assert(false);
                },
                Some(r) => {
                    lemma_first_match_found(buf, sep_token(), dend, r);
                    assert(sep_token().len() == 4);
                    assert(dend <= r && r + 4 <= buf.len());
                    // The digit run stops at a non-digit byte inside `buf`.
                    assert(dend < buf.len());
                    assert(!digit_pred()(buf[dend]));
                    // The whitespace run stops at the first digit.
                    assert(digit_pred()(buf[dstart]));
                    assert(is_digit(buf[dstart]));
                    assert(!ws_pred()(ext[dstart]));
                    // Both runs are unchanged in the extended buffer.
                    assert forall|j: int| a <= j < dstart implies ws_pred()(ext[j]) by {
                        assert(ext[j] == buf[j]);
                        assert(ws_pred()(buf[j]));
                    }
                    lemma_run_len_at(ext, a, dstart, ws_pred());
                    assert forall|j: int| dstart <= j < dend implies digit_pred()(ext[j]) by {
                        assert(ext[j] == buf[j]);
                        assert(digit_pred()(buf[j]));
                    }
                    assert(!digit_pred()(ext[dend]));
                    lemma_run_len_at(ext, dstart, dend, digit_pred());
                    lemma_first_match_extend(buf, more, sep_token(), dend, r);
                    assert(ext.subrange(dstart, dend) =~= buf.subrange(dstart, dend));
                },
            }
        },
    }
}

/// What repeated scanning and extraction leave behind: the extracted bodies
/// in order, the remaining accumulator, and the pending expected length.
pub struct DrainResult {
    pub out: Seq<Seq<u8>>,
    pub acc: Seq<u8>,
    pub expected: Option<nat>,
}

/// Drive the reassembly loop to quiescence on `acc`: scan for a header when
/// no length is expected, extract a body when enough bytes are buffered,
/// and stop when neither is possible.
pub open spec fn spec_drain(acc: Seq<u8>, expected: Option<nat>) -> DrainResult
    decreases
            acc.len(),
            (match expected {
                Some(_) => 1int,
                None => 0int,
            }),
    via spec_drain_dec
{
    match expected {
        None => match spec_parse_header(acc) {
            None => DrainResult { out: Seq::empty(), acc, expected: None },
            Some((bs, len)) => spec_drain(acc.skip(bs), Some(len)),
        },
        Some(l) => if acc.len() < l {
            DrainResult { out: Seq::empty(), acc, expected: Some(l) }
        } else {
            let rest = spec_drain(acc.skip(l as int), None);
            DrainResult {
                out: seq![acc.take(l as int)] + rest.out,
                acc: rest.acc,
                expected: rest.expected,
            }
        },
    }
}

#[via_fn]
proof fn spec_drain_dec(acc: Seq<u8>, expected: Option<nat>) {
    match expected {
        None => {
            lemma_parse_header_bounds(acc);
        },
        Some(l) => {},
    }
}

/// Reassembly does not depend on how the byte stream is cut into reads:
/// draining `acc`, then draining again with `more` appended to what was
/// left, extracts the same messages in the same order as draining
/// `acc + more` in one go, and leaves the same state.
pub proof fn lemma_drain_compose(acc: Seq<u8>, expected: Option<nat>, more: Seq<u8>)
    ensures
        ({
            let r1 = spec_drain(acc, expected);
            let r2 = spec_drain(r1.acc + more, r1.expected);
            let r = spec_drain(acc + more, expected);
            &&& r.out == r1.out + r2.out
            &&& r.acc == r2.acc
            &&& r.expected == r2.expected
        }),
    decreases
            acc.len(),
            (match expected {
                Some(_) => 1int,
                None => 0int,
            }),
{
    match expected {
        None => {
            match spec_parse_header(acc) {
                None => {
                    let r1 = spec_drain(acc, None);
                    let r2 = spec_drain(r1.acc + more, r1.expected);
                    assert(r1.acc == acc && r1.expected is None);
                    assert(Seq::<Seq<u8>>::empty() + r2.out =~= r2.out);
                },
                Some((bs, len)) => {
                    lemma_parse_header_bounds(acc);
                    lemma_parse_header_extend(acc, more);
                    assert((acc + more).skip(bs) =~= acc.skip(bs) + more);
                    lemma_drain_compose(acc.skip(bs), Some(len), more);
                },
            }
        },
        Some(l) => {
            if acc.len() < l {
                let r1 = spec_drain(acc, Some(l));
                let r2 = spec_drain(r1.acc + more, r1.expected);
                assert(r1.acc == acc && r1.expected == Some(l));
                assert(Seq::<Seq<u8>>::empty() + r2.out =~= r2.out);
            } else {
                assert((acc + more).take(l as int) =~= acc.take(l as int));
                assert((acc + more).skip(l as int) =~= acc.skip(l as int) + more);
                lemma_drain_compose(acc.skip(l as int), None, more);
                let d1 = spec_drain(acc.skip(l as int), None);
                let r2 = spec_drain(d1.acc + more, d1.expected);
                assert(seq![acc.take(l as int)] + (d1.out + r2.out) =~= (seq![
                    acc.take(l as int),
                ] + d1.out) + r2.out);
            }
        },
    }
}

/// Draining the canonical frame of a body extracts exactly that body and
/// leaves the reassembler empty.
pub proof fn lemma_reassemble_frame(body: Seq<u8>)
    requires
        body.len() <= usize::MAX,
    ensures
        ({
            let r = spec_drain(spec_frame(body), None);
            &&& r.out == seq![body]
            &&& r.acc == Seq::<u8>::empty()
            &&& r.expected is None
        }),
{
    reveal_strlit("Content-Length: ");
    reveal_strlit("Content-Length:");
    reveal_strlit("\r\n\r\n");
    let f = spec_frame(body);
    let hb = crate::textutil::ascii_bytes("Content-Length: "@);
    let d = crate::textutil::dec_bytes(body.len());
    let sb = crate::textutil::ascii_bytes("\r\n\r\n"@);
    let dlen = d.len() as int;
    let l = body.len() as int;
    lemma_dec_bytes_digits(body.len());
    lemma_dec_bytes_value(body.len());
    assert(hb =~= seq![
        67u8, 111u8, 110u8, 116u8, 101u8, 110u8, 116u8, 45u8, 76u8, 101u8, 110u8, 103u8, 116u8,
        104u8, 58u8, 32u8,
    ]);
    assert(clen_token() =~= seq![
        67u8, 111u8, 110u8, 116u8, 101u8, 110u8, 116u8, 45u8, 76u8, 101u8, 110u8, 103u8, 116u8,
        104u8, 58u8,
    ]);
    assert(sb =~= seq![13u8, 10u8, 13u8, 10u8]);
    assert(sep_token() == sb);
    assert(f.len() == 20 + dlen + l);
    // The header key matches at position 0, which is trivially first.
    assert(f.subrange(0, 15) =~= clen_token());
    assert(match_at(f, clen_token(), 0));
    lemma_first_match_at(f, clen_token(), 0, 0);
    // One space, then the digits, stopped by the carriage return.
    assert(is_ws(f[15]));
    assert(forall|j: int| 16 <= j < 16 + dlen ==> f[j] == d[j - 16]);
    assert(is_digit(f[16]));
    assert(!is_ws(f[16]));
    lemma_run_len_at(f, 15, 16, ws_pred());
    assert forall|j: int| 16 <= j < 16 + dlen implies digit_pred()(f[j]) by {
        assert(f[j] == d[j - 16]);
    }
    assert(f[16 + dlen] == 13);
    assert(!digit_pred()(f[16 + dlen]));
    lemma_run_len_at(f, 16, 16 + dlen, digit_pred());
    // The separator matches right after the digits.
    assert(f.subrange(16 + dlen, 20 + dlen) =~= sep_token());
    assert(match_at(f, sep_token(), 16 + dlen));
    lemma_first_match_at(f, sep_token(), 16 + dlen, 16 + dlen);
    assert(f.subrange(16, 16 + dlen) =~= d);
    lemma_sat_digits_exact(d);
    assert(spec_parse_header(f) == Some((20 + dlen, body.len())));
    // Drain: drop the header, take the body, find nothing further.
    assert(f.skip(20 + dlen) =~= body);
    assert(body.take(l) =~= body);
    assert(body.skip(l) =~= Seq::<u8>::empty());
    assert(first_match(Seq::<u8>::empty(), clen_token(), 0) is None);
    assert(spec_parse_header(Seq::<u8>::empty()) is None);
    assert(spec_drain(Seq::<u8>::empty(), None).out =~= Seq::<Seq<u8>>::empty());
    assert(spec_drain(f, None) == spec_drain(body, Some(body.len())));
    assert(spec_drain(body, Some(body.len())).out == seq![body.take(l)] + spec_drain(
        body.skip(l),
        None,
    ).out);
    assert(spec_drain(f, None).out =~= seq![body]);
}

/// A valid frame split at any byte boundary and fed as two reads yields
/// exactly its one body, and leaves the reassembler empty.
pub proof fn lemma_reassemble_frame_split(body: Seq<u8>, i: int)
    requires
        body.len() <= usize::MAX,
        0 <= i <= spec_frame(body).len(),
    ensures
        ({
            let f = spec_frame(body);
            let r1 = spec_drain(f.take(i), None);
            let r2 = spec_drain(r1.acc + f.skip(i), r1.expected);
            &&& r1.out + r2.out == seq![body]
            &&& r2.acc == Seq::<u8>::empty()
            &&& r2.expected is None
        }),
{
    lemma_reassembly_fragmentation(spec_frame(body), i);
    lemma_reassemble_frame(body);
}

/// Two frames handed over in one read come back as exactly their two
/// bodies, in order.
pub proof fn lemma_reassemble_two_frames(b1: Seq<u8>, b2: Seq<u8>)
    requires
        b1.len() <= usize::MAX,
        b2.len() <= usize::MAX,
    ensures
        ({
            let r = spec_drain(spec_frame(b1) + spec_frame(b2), None);
            &&& r.out == seq![b1, b2]
            &&& r.acc == Seq::<u8>::empty()
            &&& r.expected is None
        }),
{
    lemma_reassemble_frame(b1);
    lemma_reassemble_frame(b2);
    lemma_drain_compose(spec_frame(b1), None, spec_frame(b2));
    assert(Seq::<u8>::empty() + spec_frame(b2) =~= spec_frame(b2));
    assert(seq![b1] + seq![b2] =~= seq![b1, b2]);
}

/// Cutting the input at any byte boundary changes nothing: the messages
/// out of the two reads, concatenated, and the final state are those of a
/// single read of the whole input.
pub proof fn lemma_reassembly_fragmentation(input: Seq<u8>, i: int)
    requires
        0 <= i <= input.len(),
    ensures
        ({
            let r1 = spec_drain(input.take(i), None);
            let r2 = spec_drain(r1.acc + input.skip(i), r1.expected);
            let r = spec_drain(input, None);
            &&& r1.out + r2.out == r.out
            &&& r2.acc == r.acc
            &&& r2.expected == r.expected
        }),
{
    lemma_drain_compose(input.take(i), None, input.skip(i));
    assert(input.take(i) + input.skip(i) =~= input);
}

/// The ghost value of an executable expected-length slot.
pub open spec fn opt_nat(o: Option<usize>) -> Option<nat> {
    match o {
        Some(l) => Some(l as nat),
        None => None,
    }
}

/// Scan `buf` for a complete header block, as [`spec_parse_header`] says.
fn parse_header(buf: &Vec<u8>) -> (r: Option<(usize, usize)>)
    ensures
        match r {
            Some((bs, len)) => {
                &&& spec_parse_header(buf@) == Some((bs as int, len as nat))
                &&& bs <= buf@.len()
            },
            None => spec_parse_header(buf@) is None,
        },
{
    proof {
        reveal_strlit("Content-Length:");
        assert("Content-Length:".is_ascii());
        reveal_strlit("\r\n\r\n");
        assert("\r\n\r\n".is_ascii());
    }
    let token = str_to_bytes("Content-Length:");
    let sep = str_to_bytes("\r\n\r\n");
    proof {
        assert(token@ =~= clen_token());
        assert(sep@ =~= sep_token());
    }
    let blen: usize = buf.len();
    let h = match find_subseq_from(buf.as_slice(), token.as_slice(), 0) {
        None => {
            return None;
        },
        Some(h) => h,
    };
    let a: usize = h + token.len();
    // Skip optional spaces and tabs after the header key.
    let mut i: usize = a;
    while i < blen && (buf[i] == 32 || buf[i] == 9)
        invariant
            blen == buf@.len(),
            a <= i <= blen,
            forall|j: int| a <= j < i ==> is_ws(#[trigger] buf@[j]),
        decreases blen - i,
    {
        i = i + 1;
    }
    let dstart: usize = i;
    proof {
        lemma_run_len_at(buf@, a as int, dstart as int, ws_pred());
    }
    // Collect the digit run, accumulating its value with saturation.
    let mut val: usize = 0;
    let mut k: usize = dstart;
    while k < blen && buf[k] >= 48 && buf[k] <= 57
        invariant
            blen == buf@.len(),
            dstart <= k <= blen,
            forall|j: int| dstart <= j < k ==> is_digit(#[trigger] buf@[j]),
            val == sat_digits_value(buf@.subrange(dstart as int, k as int)),
        decreases blen - k,
    {
        let d: usize = (buf[k] - 48) as usize;
        proof {
            assert(buf@.subrange(dstart as int, k + 1).drop_last() =~= buf@.subrange(
                dstart as int,
                k as int,
            ));
            assert(buf@.subrange(dstart as int, k + 1).last() == buf@[k as int]);
            assert(val > (usize::MAX - d) / 10 <==> val * 10 + d > usize::MAX)
                by (nonlinear_arith)
                requires
                    d <= 9,
            ;
        }
        if val > (usize::MAX - d) / 10 {
            val = usize::MAX;
        } else {
            val = val * 10 + d;
        }
        k = k + 1;
    }
    let dend: usize = k;
    proof {
        lemma_run_len_at(buf@, dstart as int, dend as int, digit_pred());
    }
    if dend == dstart {
        return None;
    }
    match find_subseq_from(buf.as_slice(), sep.as_slice(), dend) {
        None => None,
        Some(r) => Some((r + sep.len(), val)),
    }
}

/// Reassembles length-prefixed messages from a stream of datagram payloads.
pub struct Reassembler {
    /// Bytes received but not yet turned into messages.
    pub acc: Vec<u8>,
    /// Body length announced by the last complete header block, if its body
    /// has not been extracted yet.
    pub expected: Option<usize>,
}

impl Reassembler {
    /// A fresh reassembler with nothing buffered.
    pub fn new() -> (r: Self)
        ensures
            r.acc@ == Seq::<u8>::empty(),
            r.expected is None,
    {
        Reassembler { acc: Vec::new(), expected: None }
    }

    /// Feed the payload of one datagram; the returned messages are exactly
    /// what the reassembly loop extracts from the enlarged accumulator, in
    /// order.
    pub fn push(&mut self, data: &[u8]) -> (out: Vec<Vec<u8>>)
        ensures
            ({
                let r = spec_drain(old(self).acc@ + data@, opt_nat(old(self).expected));
                &&& out.deep_view() == r.out
                &&& final(self).acc@ == r.acc
                &&& opt_nat(final(self).expected) == r.expected
            }),
    {
        let ghost orig_acc = self.acc@ + data@;
        let ghost orig_exp = opt_nat(self.expected);
        let mut d = slice_to_vec(data);
        self.acc.append(&mut d);
        let mut out: Vec<Vec<u8>> = Vec::new();
        proof {
            assert(out.deep_view() =~= Seq::<Seq<u8>>::empty());
            assert(out.deep_view() + spec_drain(self.acc@, opt_nat(self.expected)).out
                =~= spec_drain(orig_acc, orig_exp).out);
        }
        loop
            invariant
                orig_acc == old(self).acc@ + data@,
                orig_exp == opt_nat(old(self).expected),
                spec_drain(orig_acc, orig_exp).out == out.deep_view() + spec_drain(
                    self.acc@,
                    opt_nat(self.expected),
                ).out,
                spec_drain(orig_acc, orig_exp).acc == spec_drain(
                    self.acc@,
                    opt_nat(self.expected),
                ).acc,
                spec_drain(orig_acc, orig_exp).expected == spec_drain(
                    self.acc@,
                    opt_nat(self.expected),
                ).expected,
            decreases
                    self.acc@.len(),
                    (match self.expected {
                        Some(_) => 1int,
                        None => 0int,
                    }),
        {
            match self.expected {
                None => {
                    match parse_header(&self.acc) {
                        None => {
                            proof {
                                assert(spec_drain(self.acc@, opt_nat(self.expected)).out
                                    =~= Seq::<Seq<u8>>::empty());
                                assert(spec_drain(orig_acc, orig_exp).out =~= out.deep_view());
                            }
                            return out;
                        },
                        Some((bs, len)) => {
                            proof {
                                lemma_parse_header_bounds(self.acc@);
                            }
                            let rest = slice_to_vec(
                                slice_subrange(self.acc.as_slice(), bs, self.acc.len()),
                            );
                            proof {
                                assert(rest@ =~= self.acc@.skip(bs as int));
                            }
                            self.acc = rest;
                            self.expected = Some(len);
                        },
                    }
                },
                Some(l) => {
                    if self.acc.len() < l {
                        proof {
                            assert(spec_drain(self.acc@, opt_nat(self.expected)).out
                                =~= Seq::<Seq<u8>>::empty());
                            assert(spec_drain(orig_acc, orig_exp).out =~= out.deep_view());
                        }
                        return out;
                    }
                    let body = slice_to_vec(slice_subrange(self.acc.as_slice(), 0, l));
                    let rest = slice_to_vec(
                        slice_subrange(self.acc.as_slice(), l, self.acc.len()),
                    );
                    let ghost pre_acc = self.acc@;
                    proof {
                        assert(body@ =~= pre_acc.take(l as int));
                        assert(rest@ =~= pre_acc.skip(l as int));
                    }
                    self.acc = rest;
                    self.expected = None;
                    let ghost out_pre = out.deep_view();
                    out.push(body);
                    proof {
                        assert(out.deep_view() =~~= out_pre.push(pre_acc.take(l as int)));
                        assert(spec_drain(pre_acc, Some(l as nat)).out == seq![
                            pre_acc.take(l as int),
                        ] + spec_drain(self.acc@, opt_nat(self.expected)).out);
                        assert(out_pre + spec_drain(pre_acc, Some(l as nat)).out =~= out.deep_view()
                            + spec_drain(self.acc@, opt_nat(self.expected)).out);
                    }
                },
            }
        }
    }
}

} // verus!
