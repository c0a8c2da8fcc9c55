//! Server-sent-event framing of an Anthropic messages stream, and the
//! endpoint URL it is read from.

use crate::text::{chars_of, has_at, skip_ws, skip_ws_back, str_eq, trim_end, trim_start};
use vstd::prelude::*;
use vstd::string::*;
use vstd::utf8::*;

verus! {

#[verifier::external_type_specification]
#[verifier::external_body]
pub struct ExUtf8Error(core::str::Utf8Error);

pub assume_specification<'a>[ core::str::from_utf8 ](v: &'a [u8]) -> (r: Result<
    &'a str,
    core::str::Utf8Error,
>)
    ensures
        r is Ok <==> valid_utf8(v@),
        r matches Ok(s) ==> s@ == decode_utf8(v@),
;

// ---------------------------------------------------------------------------
// Event boundaries

pub open spec fn lf_lf() -> Seq<u8> {
    seq![10u8, 10u8]
}

pub open spec fn crlf_crlf() -> Seq<u8> {
    seq![13u8, 10u8, 13u8, 10u8]
}

/// `pat` occurs in `b` at `i`.
pub open spec fn match_at(b: Seq<u8>, i: int, pat: Seq<u8>) -> bool {
    0 <= i && i + pat.len() <= b.len() && b.subrange(i, i + pat.len()) == pat
}

/// `pat` occurs nowhere in `b` before `i`.
pub open spec fn absent_before(b: Seq<u8>, pat: Seq<u8>, i: int) -> bool {
    forall|j: int| 0 <= j < i ==> !match_at(b, j, pat)
}

/// The first event delimiter of `b`, a blank line ended by `\n\n` or by
/// `\r\n\r\n`: its position and length.
pub open spec fn boundary_spec(b: Seq<u8>, r: Option<(usize, usize)>) -> bool {
    match r {
        None => absent_before(b, lf_lf(), b.len() as int) && absent_before(
            b,
            crlf_crlf(),
            b.len() as int,
        ),
        Some((i, d)) => {
            &&& (d == 2 && match_at(b, i as int, lf_lf())) || (d == 4 && match_at(
                b,
                i as int,
                crlf_crlf(),
            ))
            &&& absent_before(b, lf_lf(), i as int)
            &&& absent_before(b, crlf_crlf(), i as int)
        },
    }
}

fn match_lf_lf(b: &[u8], i: usize) -> (r: bool)
    requires
        i < b@.len(),
    ensures
        r == match_at(b@, i as int, lf_lf()),
{
    if b.len() - i > 1 && b[i] == 10 && b[i + 1] == 10 {
        proof {
            assert(b@.subrange(i as int, i + 2) =~= lf_lf());
        }
        true
    } else {
        proof {
            if match_at(b@, i as int, lf_lf()) {
                assert(b@.subrange(i as int, i + 2)[0] == b@[i as int]);
                assert(b@.subrange(i as int, i + 2)[1] == b@[i + 1]);
            }
        }
        false
    }
}

fn match_crlf_crlf(b: &[u8], i: usize) -> (r: bool)
    requires
        i < b@.len(),
    ensures
        r == match_at(b@, i as int, crlf_crlf()),
{
    if b.len() - i > 3 && b[i] == 13 && b[i + 1] == 10 && b[i + 2] == 13 && b[i + 3] == 10 {
        proof {
            assert(b@.subrange(i as int, i + 4) =~= crlf_crlf());
        }
        true
    } else {
        proof {
            if match_at(b@, i as int, crlf_crlf()) {
                let w = b@.subrange(i as int, i + 4);
                assert(w[0] == b@[i as int]);
                assert(w[1] == b@[i + 1]);
                assert(w[2] == b@[i + 2]);
                assert(w[3] == b@[i + 3]);
            }
        }
        false
    }
}

/// Finds the first event delimiter in `buffer`.
pub fn find_event_boundary(buffer: &[u8]) -> (r: Option<(usize, usize)>)
    ensures
        boundary_spec(buffer@, r),
{
    let n = buffer.len();
    let mut i: usize = 0;
    while i < n
        invariant
            n == buffer@.len(),
            0 <= i <= n,
            absent_before(buffer@, lf_lf(), i as int),
            absent_before(buffer@, crlf_crlf(), i as int),
        decreases n - i,
    {
        if match_lf_lf(buffer, i) {
            return Some((i, 2));
        }
        if match_crlf_crlf(buffer, i) {
            return Some((i, 4));
        }
        i = i + 1;
    }
    None
}

fn copy_range(b: &Vec<u8>, from: usize, to: usize) -> (r: Vec<u8>)
    requires
        from <= to <= b@.len(),
    ensures
        r@ == b@.subrange(from as int, to as int),
{
    let mut out: Vec<u8> = Vec::new();
    let mut k = from;
    while k < to
        invariant
            from <= k <= to <= b@.len(),
            out@ == b@.subrange(from as int, k as int),
        decreases to - k,
    {
        out.push(b[k]);
        proof {
            assert(out@ =~= b@.subrange(from as int, k + 1));
        }
        k = k + 1;
    }
    out
}

/// Takes the first complete event off the front of `buffer`: the bytes before
/// the first delimiter; the delimiter is dropped too. Nothing changes when the
/// buffer holds no complete event.
pub fn take_event(buffer: &mut Vec<u8>) -> (r: Option<Vec<u8>>)
    ensures
        r is None ==> boundary_spec(old(buffer)@, None) && final(buffer)@ == old(buffer)@,
        r matches Some(e) ==> exists|i: usize, d: usize|
            boundary_spec(old(buffer)@, Some((i, d))) && e@ == old(buffer)@.take(i as int)
                && final(buffer)@ == old(buffer)@.skip(i + d),
{
    let found = find_event_boundary(buffer.as_slice());
    match found {
        None => None,
        Some((i, d)) => {
            proof {
                assert(lf_lf().len() == 2 && crlf_crlf().len() == 4);
                assert(i + d <= buffer@.len());
            }
            let len = buffer.len();
            let event = copy_range(buffer, 0, i);
            let rest = copy_range(buffer, i + d, len);
            proof {
                assert(event@ =~= old(buffer)@.take(i as int));
                assert(rest@ =~= old(buffer)@.skip(i + d));
            }
            *buffer = rest;
            Some(event)
        },
    }
}

// ---------------------------------------------------------------------------
// Data lines

/// The index of the first `\n` at or after `i`, or the length of `t`.
pub open spec fn line_end(t: Seq<char>, i: int) -> int
    decreases t.len() - i,
{
    if i >= t.len() {
        t.len() as int
    } else if t[i] == '\n' {
        i
    } else {
        line_end(t, i + 1)
    }
}

/// Where the text of the line starting at `i` ends: before its `\n`, and
/// before a `\r` that precedes that `\n`.
pub open spec fn line_text_end(t: Seq<char>, i: int) -> int {
    let e = line_end(t, i);
    if e < t.len() && e > i && t[e - 1] == '\r' {
        e - 1
    } else {
        e
    }
}

pub open spec fn data_prefix() -> Seq<char> {
    "data:"@
}

/// The payloads of the `data:` lines from `i` on, each without the prefix
/// and its leading whitespace. Comment lines (`:`), blank lines and other
/// fields carry none.
pub open spec fn data_pieces(t: Seq<char>, i: int) -> Seq<Seq<char>>
    decreases t.len() + 1 - i,
{
    if i < 0 || i >= t.len() {
        Seq::empty()
    } else {
        let e = line_end(t, i);
        let ce = line_text_end(t, i);
        if e < i || e > t.len() {
            Seq::empty()
        } else if ce - i >= 5 && t.subrange(i, i + 5) == data_prefix() {
            seq![trim_start(t.subrange(i + 5, ce))] + data_pieces(t, e + 1)
        } else {
            data_pieces(t, e + 1)
        }
    }
}

/// The pieces joined by `\n`.
pub open spec fn join_lines(ps: Seq<Seq<char>>) -> Seq<char>
    decreases ps.len(),
{
    if ps.len() == 0 {
        Seq::empty()
    } else if ps.len() == 1 {
        ps[0]
    } else {
        join_lines(ps.drop_last()) + seq!['\n'] + ps.last()
    }
}

/// `o` is the joined payload of the `data:` lines of `t`, or `None` when it
/// has none.
pub open spec fn data_of(t: Seq<char>, o: Option<String>) -> bool {
    let ps = data_pieces(t, 0);
    if ps.len() == 0 {
        o is None
    } else {
        o matches Some(s) && s@ == join_lines(ps)
    }
}

proof fn lemma_line_end_bounds(t: Seq<char>, i: int)
    requires
        0 <= i <= t.len(),
    ensures
        i <= line_end(t, i) <= t.len(),
        line_end(t, i) < t.len() ==> t[line_end(t, i)] == '\n',
        forall|k: int| i <= k < line_end(t, i) ==> t[k] != '\n',
    decreases t.len() - i,
{
    if i < t.len() && t[i] != '\n' {
        lemma_line_end_bounds(t, i + 1);
    }
}

fn find_line_end(cs: &Vec<char>, i: usize) -> (r: usize)
    requires
        i <= cs@.len(),
    ensures
        r == line_end(cs@, i as int),
{
    let mut k = i;
    while k < cs.len() && cs[k] != '\n'
        invariant
            i <= k <= cs@.len(),
            line_end(cs@, i as int) == line_end(cs@, k as int),
        decreases cs@.len() - k,
    {
        k = k + 1;
    }
    k
}

/// Collects the `data:` payloads of one event; `None` when it has none.
pub fn parse_sse_data(event_bytes: &[u8]) -> (r: Result<Option<String>, String>)
    ensures
        event_bytes@.len() == 0 ==> r == Ok::<Option<String>, String>(None),
        event_bytes@.len() > 0 && !valid_utf8(event_bytes@) ==> r is Err,
        event_bytes@.len() > 0 && valid_utf8(event_bytes@) ==> (r matches Ok(o) && data_of(
            decode_utf8(event_bytes@),
            o,
        )),
{
    if event_bytes.len() == 0 {
        return Ok(None);
    }
    let text = match core::str::from_utf8(event_bytes) {
        Ok(t) => t,
        Err(_) => {
            return Err(String::from_str("Anthropic Messages stream contained invalid UTF-8"));
        },
    };
    let ghost t = text@;
    proof {
        reveal_strlit("data:");
    }
    let cs = chars_of(text);
    let prefix = chars_of("data:");
    let n = cs.len();
    let mut out = String::new();
    let mut found = false;
    let ghost mut acc: Seq<Seq<char>> = Seq::empty();
    let mut i: usize = 0;
    while i < n
        invariant
            n == t.len(),
            cs@ == t,
            text@ == t,
            prefix@ == data_prefix(),
            data_prefix().len() == 5,
            0 <= i <= n,
            acc + data_pieces(t, i as int) == data_pieces(t, 0),
            found == (acc.len() > 0),
            found ==> out@ == join_lines(acc),
        decreases n - i,
    {
        let e = find_line_end(&cs, i);
        proof {
            lemma_line_end_bounds(t, i as int);
        }
        let ce = if e < n && e > i && cs[e - 1] == '\r' {
            e - 1
        } else {
            e
        };
        let ghost rest = data_pieces(t, e + 1);
        if ce - i >= 5 && has_at(&cs, i, &prefix) {
            let s = skip_ws(&cs, i + 5, ce);
            let piece = text.substring_char(s, ce);
            proof {
                assert(piece@ == trim_start(t.subrange(i + 5, ce as int)));
                assert(prefix@.len() == 5);
                assert(t.subrange(i as int, i + 5) == data_prefix());
                assert(e == line_end(t, i as int));
                assert(ce == line_text_end(t, i as int));
                assert(data_pieces(t, i as int) == seq![piece@] + rest);
            }
            if found {
                out.append("\n");
                out.append(piece);
            } else {
                out = String::from_str(piece);
            }
            proof {
                let acc2 = acc.push(piece@);
                assert(acc2.drop_last() =~= acc);
                if acc.len() > 0 {
                    assert(out@ =~= join_lines(acc) + seq!['\n'] + piece@) by {
                        reveal_strlit("\n");
                    }
                }
                assert(acc2 + rest =~= acc + data_pieces(t, i as int));
                acc = acc2;
            }
            found = true;
        } else {
            proof {
                assert(acc + rest == acc + data_pieces(t, i as int));
            }
        }
        proof {
            if e >= n {
                assert(data_pieces(t, e + 1) == Seq::<Seq<char>>::empty());
                assert(data_pieces(t, n as int) == Seq::<Seq<char>>::empty());
            }
        }
        if e >= n {
            i = n;
        } else {
            i = e + 1;
        }
    }
    proof {
        assert(data_pieces(t, n as int) == Seq::<Seq<char>>::empty());
        assert(acc =~= acc + data_pieces(t, n as int));
    }
    if found {
        Ok(Some(out))
    } else {
        Ok(None)
    }
}

/// `s` without leading and trailing whitespace.
pub open spec fn trim(s: Seq<char>) -> Seq<char> {
    trim_end(trim_start(s))
}

/// The JSON payload of an event's data, trimmed; `None` when it is blank or
/// the end-of-stream marker `[DONE]`.
pub fn event_payload(data: &str) -> (r: Option<String>)
    ensures
        trim(data@).len() == 0 || trim(data@) == "[DONE]"@ ==> r is None,
        !(trim(data@).len() == 0 || trim(data@) == "[DONE]"@) ==> (r matches Some(p) && p@ == trim(
            data@,
        )),
{
    let cs = chars_of(data);
    let n = cs.len();
    let s = skip_ws(&cs, 0, n);
    let e = skip_ws_back(&cs, s, n);
    proof {
        assert(cs@.subrange(0, n as int) =~= data@);
    }
    let trimmed = data.substring_char(s, e);
    if e == s || str_eq(trimmed, "[DONE]") {
        None
    } else {
        Some(String::from_str(trimmed))
    }
}

/// `s` without its trailing slashes.
pub open spec fn trim_slashes(s: Seq<char>) -> Seq<char>
    decreases s.len(),
{
    if s.len() > 0 && s.last() == '/' {
        trim_slashes(s.drop_last())
    } else {
        s
    }
}

pub open spec fn ends_with(s: Seq<char>, suffix: Seq<char>) -> bool {
    s.len() >= suffix.len() && s.skip(s.len() - suffix.len()) == suffix
}

/// The messages endpoint of a base URL: the base without trailing slashes,
/// completed with whatever of `/v1/messages` it lacks.
pub open spec fn messages_url(base: Seq<char>) -> Seq<char> {
    let t = trim_slashes(base);
    if ends_with(t, "/v1/messages"@) {
        t
    } else if ends_with(t, "/v1"@) {
        t + "/messages"@
    } else {
        t + "/v1/messages"@
    }
}

fn ends_with_at(cs: &Vec<char>, k: usize, suffix: &str) -> (r: bool)
    requires
        k <= cs@.len(),
    ensures
        r == ends_with(cs@.take(k as int), suffix@),
{
    let pat = chars_of(suffix);
    if pat.len() > k {
        return false;
    }
    let r = has_at(cs, k - pat.len(), &pat);
    proof {
        assert(cs@.take(k as int).skip(k - pat@.len()) =~= cs@.subrange(k - pat@.len(), k as int));
    }
    r
}

/// Builds the Anthropic messages endpoint from a base URL; an error when the
/// base is empty once its trailing slashes are gone.
pub fn build_messages_url(base_url: &str) -> (r: Result<String, String>)
    ensures
        trim_slashes(base_url@).len() == 0 ==> r is Err,
        trim_slashes(base_url@).len() > 0 ==> (r matches Ok(u) && u@ == messages_url(base_url@)),
{
    let cs = chars_of(base_url);
    let mut k = cs.len();
    proof {
        assert(cs@.take(k as int) =~= cs@);
    }
    while k > 0 && cs[k - 1] == '/'
        invariant
            0 <= k <= cs@.len(),
            trim_slashes(base_url@) == trim_slashes(cs@.take(k as int)),
            cs@ == base_url@,
        decreases k,
    {
        proof {
            assert(cs@.take(k - 1) =~= cs@.take(k as int).drop_last());
        }
        k = k - 1;
    }
    if k == 0 {
        return Err(String::from_str("Anthropic Messages base URL is empty"));
    }
    let trimmed = base_url.substring_char(0, k);
    proof {
        assert(trimmed@ =~= cs@.take(k as int));
    }
    let mut url = String::from_str(trimmed);
    if ends_with_at(&cs, k, "/v1/messages") {
    } else if ends_with_at(&cs, k, "/v1") {
        url.append("/messages");
    } else {
        url.append("/v1/messages");
    }
    Ok(url)
}

// ---------------------------------------------------------------------------
// Payloads of a buffered stream

/// The first event delimiter of `b` at or after `i`.
pub open spec fn boundary_from(b: Seq<u8>, i: int) -> Option<(usize, usize)>
    decreases b.len() - i,
{
    if i < 0 || i >= b.len() {
        None
    } else if match_at(b, i, lf_lf()) {
        Some((i as usize, 2usize))
    } else if match_at(b, i, crlf_crlf()) {
        Some((i as usize, 4usize))
    } else {
        boundary_from(b, i + 1)
    }
}

proof fn lemma_boundary_from(b: Seq<u8>, i: int, r: Option<(usize, usize)>)
    requires
        b.len() <= usize::MAX,
        0 <= i <= b.len(),
        absent_before(b, lf_lf(), i),
        absent_before(b, crlf_crlf(), i),
        boundary_spec(b, r),
    ensures
        boundary_from(b, i) == r,
    decreases b.len() - i,
{
    if i == b.len() {
        match r {
            Some((k, d)) => {
                assert(!match_at(b, k as int, lf_lf()));
                assert(!match_at(b, k as int, crlf_crlf()));
            },
            None => {},
        }
    } else if match_at(b, i, lf_lf()) {
        assert(b.subrange(i, i + 2)[0] == b[i]);
        match r {
            Some((k, d)) => {
                assert(!match_at(b, k as int, lf_lf()) || k >= i);
                if d == 4 {
                    assert(b.subrange(k as int, k + 4)[0] == b[k as int]);
                }
            },
            None => {},
        }
    } else if match_at(b, i, crlf_crlf()) {
        assert(b.subrange(i, i + 4)[0] == b[i]);
        match r {
            Some((k, d)) => {
                if d == 2 {
                    assert(b.subrange(k as int, k + 2)[0] == b[k as int]);
                }
            },
            None => {},
        }
    } else {
        lemma_boundary_from(b, i + 1, r);
    }
}

/// What draining `b` up to its next payload gives: `None` for an event that
/// is not UTF-8, `Some(None)` when no complete event with a payload remains,
/// else the trimmed payload; and what stays buffered.
pub open spec fn next_payload_spec(b: Seq<u8>) -> (Option<Option<Seq<char>>>, Seq<u8>)
    decreases b.len(),
{
    match boundary_from(b, 0) {
        None => (Some(None), b),
        Some((i, d)) => {
            let ev = b.take(i as int);
            let rest = b.skip(i + d);
            if i + d > b.len() || d == 0 {
                (Some(None), b)
            } else if ev.len() > 0 && !valid_utf8(ev) {
                (None, rest)
            } else {
                let ps = if ev.len() == 0 {
                    Seq::empty()
                } else {
                    data_pieces(decode_utf8(ev), 0)
                };
                let t = trim(join_lines(ps));
                if ps.len() == 0 || t.len() == 0 || t == "[DONE]"@ {
                    next_payload_spec(rest)
                } else {
                    (Some(Some(t)), rest)
                }
            }
        },
    }
}

/// Drains complete events off the front of `buffer` until one carries a
/// payload, and returns it; `None` when no complete event with a payload is
/// left. Events without data, blank payloads and `[DONE]` are dropped.
pub fn next_payload(buffer: &mut Vec<u8>) -> (r: Result<Option<String>, String>)
    ensures
        final(buffer)@ == next_payload_spec(old(buffer)@).1,
        next_payload_spec(old(buffer)@).0 is None ==> r is Err,
        next_payload_spec(old(buffer)@).0 == Some(None::<Seq<char>>) ==> r matches Ok(None),
        next_payload_spec(old(buffer)@).0 matches Some(Some(t)) ==> (r matches Ok(Some(p)) && p@
            == t),
{
    let ghost target = next_payload_spec(buffer@);
    loop
        invariant
            next_payload_spec(buffer@) == target,
            target == next_payload_spec(old(buffer)@),
        decreases buffer@.len(),
    {
        let ghost b = buffer@;
        let len = buffer.len();
        match take_event(buffer) {
            None => {
                proof {
                    lemma_boundary_from(b, 0, None);
                }
                return Ok(None);
            },
            Some(ev) => {
                proof {
                    let (i, d) = choose|i: usize, d: usize|
                        boundary_spec(b, Some((i, d))) && ev@ == b.take(i as int) && buffer@
                            == b.skip(i + d);
                    lemma_boundary_from(b, 0, Some((i, d)));
                    assert(i + d <= b.len() && d > 0) by {
                        assert(lf_lf().len() == 2 && crlf_crlf().len() == 4);
                    }
                }
                match parse_sse_data(ev.as_slice()) {
                    Err(e) => {
                        return Err(e);
                    },
                    Ok(None) => {},
                    Ok(Some(data)) => {
                        match event_payload(data.as_str()) {
                            Some(p) => {
                                return Ok(Some(p));
                            },
                            None => {},
                        }
                    },
                }
            },
        }
    }
}

} // verus!
