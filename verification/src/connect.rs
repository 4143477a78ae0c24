//! CONNECT request parsing.
//!
//! The proxy reads from the client until it has seen the CRLF-CRLF that ends
//! the request head, or until a 4096-byte ceiling is reached.  Only the
//! request line matters: its tokens are split on ASCII whitespace, the method
//! must be exactly `CONNECT`, and the authority token is split at its last
//! colon into a host and a base-10 port (443 when the colon or a parseable
//! port is absent).  Headers are discarded.

use vstd::prelude::*;

verus! {

use vstd::slice::{slice_subrange, slice_to_vec};
use vstd::string::StringSliceAdditionalSpecFns;

/// The ceiling on how many bytes of request head are examined.
pub const CONNECT_HEAD_CEILING: usize = 4096;

/// ASCII whitespace, as the request-line tokenizer understands it.
pub open spec fn is_ws(b: u8) -> bool {
    b == 32 || (9 <= b && b <= 13)
}

/// Count of leading whitespace bytes.
pub open spec fn ws_len(s: Seq<u8>) -> nat
    decreases s.len(),
{
    if s.len() == 0 {
        0
    } else if is_ws(s[0]) {
        1 + ws_len(s.skip(1))
    } else {
        0
    }
}

/// Count of leading non-whitespace bytes (the length of the token that
/// starts here, if one does).
pub open spec fn token_len(s: Seq<u8>) -> nat
    decreases s.len(),
{
    if s.len() == 0 {
        0
    } else if !is_ws(s[0]) {
        1 + token_len(s.skip(1))
    } else {
        0
    }
}

/// Count of bytes before the first line feed (the whole sequence when there
/// is none).
pub open spec fn line_len(s: Seq<u8>) -> nat
    decreases s.len(),
{
    if s.len() == 0 {
        0
    } else if s[0] == 10 {
        0
    } else {
        1 + line_len(s.skip(1))
    }
}

/// Position of the last colon, if any.
pub open spec fn rfind_colon(s: Seq<u8>) -> Option<int>
    decreases s.len(),
{
    if s.len() == 0 {
        None
    } else if s[s.len() - 1] == 58 {
        Some(s.len() - 1)
    } else {
        rfind_colon(s.take(s.len() - 1))
    }
}

/// All bytes are ASCII digits.
pub open spec fn all_digits(s: Seq<u8>) -> bool {
    s.len() > 0 && forall|i: int| 0 <= i < s.len() ==> 48 <= #[trigger] s[i] <= 57
}

/// Base-10 value of a digit string.
pub open spec fn digits_val(s: Seq<u8>) -> nat
    decreases s.len(),
{
    if s.len() == 0 {
        0
    } else {
        digits_val(s.take(s.len() - 1)) * 10 + (s[s.len() - 1] - 48) as nat
    }
}

/// What `u16` parsing of the port bytes yields: an optional leading `+`,
/// then at least one digit, and a value that fits.
pub open spec fn spec_parse_u16(s: Seq<u8>) -> Option<u16> {
    let digits = if s.len() > 0 && s[0] == 43 {
        s.skip(1)
    } else {
        s
    };
    if all_digits(digits) && digits_val(digits) <= 65535 {
        Some(digits_val(digits) as u16)
    } else {
        None
    }
}

/// Split an authority token at its last colon into host and port; the port
/// defaults to 443 when the colon is absent or the digits do not parse.
pub open spec fn spec_split_authority(target: Seq<u8>) -> (Seq<u8>, u16) {
    match rfind_colon(target) {
        Some(c) => {
            let port = match spec_parse_u16(target.skip(c + 1)) {
                Some(p) => p,
                None => 443,
            };
            (target.take(c), port)
        },
        None => (target, 443),
    }
}

/// The request head holds the CRLF-CRLF terminator starting at `i`.
pub open spec fn crlfcrlf_at(s: Seq<u8>, i: int) -> bool {
    0 <= i && i + 4 <= s.len() && s[i] == 13 && s[i + 1] == 10 && s[i + 2] == 13 && s[i + 3] == 10
}

/// The request head holds the CRLF-CRLF terminator somewhere.
pub open spec fn has_crlfcrlf(s: Seq<u8>) -> bool {
    exists|i: int| crlfcrlf_at(s, i)
}

/// What CONNECT parsing of an accumulated request head yields.
///
/// The first line is tokenized on ASCII whitespace; there must be at least
/// three tokens and the first must be `CONNECT`; the second is the authority.
pub open spec fn spec_parse_connect(s: Seq<u8>) -> Option<(Seq<u8>, u16)> {
    let line = s.take(line_len(s) as int);
    let t0s = ws_len(line) as int;
    let t0l = token_len(line.skip(t0s)) as int;
    let t1s = t0s + t0l + ws_len(line.skip(t0s + t0l)) as int;
    let t1l = token_len(line.skip(t1s)) as int;
    let t2s = t1s + t1l + ws_len(line.skip(t1s + t1l)) as int;
    if t0l == 0 || t1l == 0 || t2s >= line.len() {
        None
    } else if line.subrange(t0s, t0s + t0l) != "CONNECT".spec_bytes() {
        None
    } else {
        Some(spec_split_authority(line.subrange(t1s, t1s + t1l)))
    }
}

/// A scan that saw no whitespace up to `k`, and whitespace or the end at
/// `k`, has found the token length.
proof fn lemma_token_len_is(s: Seq<u8>, k: int)
    requires
        0 <= k <= s.len(),
        forall|j: int| 0 <= j < k ==> !is_ws(#[trigger] s[j]),
        k == s.len() || is_ws(s[k]),
    ensures
        token_len(s) == k,
    decreases k,
{
    if k > 0 {
        lemma_token_len_is(s.skip(1), k - 1);
    }
}

/// The same scan argument for leading whitespace.
proof fn lemma_ws_len_is(s: Seq<u8>, k: int)
    requires
        0 <= k <= s.len(),
        forall|j: int| 0 <= j < k ==> is_ws(#[trigger] s[j]),
        k == s.len() || !is_ws(s[k]),
    ensures
        ws_len(s) == k,
    decreases k,
{
    if k > 0 {
        lemma_ws_len_is(s.skip(1), k - 1);
    }
}

/// The same scan argument for the first line feed.
proof fn lemma_line_len_is(s: Seq<u8>, k: int)
    requires
        0 <= k <= s.len(),
        forall|j: int| 0 <= j < k ==> #[trigger] s[j] != 10,
        k == s.len() || s[k] == 10,
    ensures
        line_len(s) == k,
    decreases k,
{
    if k > 0 {
        lemma_line_len_is(s.skip(1), k - 1);
    }
}

/// A scan from the right that saw no colon above `k` and a colon at `k` has
/// found the last colon.
proof fn lemma_rfind_colon_is(s: Seq<u8>, k: int)
    requires
        0 <= k < s.len(),
        s[k] == 58,
        forall|j: int| k < j < s.len() ==> #[trigger] s[j] != 58,
    ensures
        rfind_colon(s) == Some(k),
    decreases s.len(),
{
    if k < s.len() - 1 {
        lemma_rfind_colon_is(s.take(s.len() - 1), k);
    }
}

/// With no colon anywhere there is no last colon.
proof fn lemma_rfind_colon_none(s: Seq<u8>)
    requires
        forall|j: int| 0 <= j < s.len() ==> #[trigger] s[j] != 58,
    ensures
        rfind_colon(s) is None,
    decreases s.len(),
{
    if s.len() > 0 {
        lemma_rfind_colon_none(s.take(s.len() - 1));
    }
}

/// A digit string is worth at least as much as any of its prefixes.
proof fn lemma_digits_val_mono(s: Seq<u8>, k: int)
    requires
        0 <= k <= s.len(),
    ensures
        digits_val(s) >= digits_val(s.take(k)),
    decreases s.len() - k,
{
    if k < s.len() {
        lemma_digits_val_mono(s, k + 1);
        assert(s.take(k + 1).take(k) =~= s.take(k));
        assert(digits_val(s.take(k + 1)) == digits_val(s.take(k)) * 10 + (s[k] - 48) as nat);
    } else {
        assert(s.take(k) =~= s);
    }
}

/// Whether ASCII whitespace stands at a byte.
fn is_ws_exec(b: u8) -> (r: bool)
    ensures
        r == is_ws(b),
{
    b == 32 || (9 <= b && b <= 13)
}

/// Whether the head already holds the CRLF-CRLF terminator, looking only at
/// the first `CONNECT_HEAD_CEILING` bytes.
pub fn head_complete(buf: &[u8]) -> (r: bool)
    ensures
        r == has_crlfcrlf(clip_head(buf@)),
{
    let n = if buf.len() < CONNECT_HEAD_CEILING {
        buf.len()
    } else {
        CONNECT_HEAD_CEILING
    };
    if n < 4 {
        assert(!has_crlfcrlf(clip_head(buf@)));
        return false;
    }
    let mut i: usize = 0;
    while i + 4 <= n
        invariant
            0 <= i,
            i + 4 <= n + 1,
            n == if buf@.len() < CONNECT_HEAD_CEILING { buf@.len() as int } else { CONNECT_HEAD_CEILING as int },
            n <= buf@.len(),
            forall|j: int| 0 <= j < i ==> !crlfcrlf_at(clip_head(buf@), j),
        decreases n - i,
    {
        if buf[i] == 13 && buf[i + 1] == 10 && buf[i + 2] == 13 && buf[i + 3] == 10 {
            assert(crlfcrlf_at(clip_head(buf@), i as int));
            return true;
        }
        assert(!crlfcrlf_at(clip_head(buf@), i as int));
        i += 1;
    }
    assert forall|j: int| !crlfcrlf_at(clip_head(buf@), j) by {
        if 0 <= j && j + 4 <= clip_head(buf@).len() {
            assert(!crlfcrlf_at(clip_head(buf@), j));
        }
    }
    false
}

/// The first `CONNECT_HEAD_CEILING` bytes of an accumulated head.
pub open spec fn clip_head(s: Seq<u8>) -> Seq<u8> {
    if s.len() <= CONNECT_HEAD_CEILING {
        s
    } else {
        s.take(CONNECT_HEAD_CEILING as int)
    }
}

/// Parse the port digits of an authority token.
fn parse_u16_bytes(s: &[u8]) -> (r: Option<u16>)
    ensures
        r == spec_parse_u16(s@),
{
    let start: usize = if s.len() > 0 && s[0] == 43 {
        1
    } else {
        0
    };
    let ghost digits = if s@.len() > 0 && s@[0] == 43 { s@.skip(1) } else { s@ };
    assert(digits =~= s@.skip(start as int));
    if s.len() == start {
        assert(!all_digits(digits));
        return None;
    }
    let mut acc: u32 = 0;
    let mut i: usize = start;
    while i < s.len()
        invariant
            start <= i <= s@.len(),
            start == if s@.len() > 0 && s@[0] == 43 { 1int } else { 0int },
            s@.len() > start,
            digits == (if s@.len() > 0 && s@[0] == 43 { s@.skip(1) } else { s@ }),
            digits == s@.skip(start as int),
            acc == digits_val(digits.take(i - start)),
            acc <= 65535,
            forall|j: int| 0 <= j < i - start ==> 48 <= #[trigger] digits[j] <= 57,
        decreases s@.len() - i,
    {
        let b = s[i];
        if b < 48 || b > 57 {
            assert(digits[i - start] == b);
            assert(!all_digits(digits));
            return None;
        }
        let v: u32 = acc * 10 + (b - 48) as u32;
        assert(digits.take(i - start + 1).take(i - start) =~= digits.take(i - start));
        assert(digits.take(i - start + 1)[i - start] == digits[i - start]);
        if v > 65535 {
            proof {
                lemma_digits_val_mono(digits, i - start + 1);
            }
            assert(digits_val(digits) > 65535);
            return None;
        }
        acc = v;
        i += 1;
    }
    assert(digits.take(digits.len() as int) =~= digits);
    assert(all_digits(digits));
    Some(acc as u16)
}

/// Split an authority token at its last colon; 443 stands in when no port
/// can be read.
fn split_authority(target: &[u8]) -> (r: (Vec<u8>, u16))
    ensures
        (r.0@, r.1) == spec_split_authority(target@),
{
    let mut i: usize = target.len();
    while i > 0
        invariant
            0 <= i <= target@.len(),
            forall|j: int| i <= j < target@.len() ==> #[trigger] target@[j] != 58,
        decreases i,
    {
        i -= 1;
        if target[i] == 58 {
            proof {
                lemma_rfind_colon_is(target@, i as int);
            }
            let digits = slice_subrange(target, i + 1, target.len());
            assert(digits@ =~= target@.skip(i + 1));
            let port = match parse_u16_bytes(digits) {
                Some(p) => p,
                None => 443,
            };
            let host = slice_to_vec(slice_subrange(target, 0, i));
            assert(host@ =~= target@.take(i as int));
            return (host, port);
        }
    }
    proof {
        lemma_rfind_colon_none(target@);
    }
    (slice_to_vec(target), 443)
}

/// Parse an accumulated CONNECT request head into (host, port).
///
/// Only the request line is read: at least three whitespace-separated
/// tokens, the first exactly `CONNECT`, the second the authority.
pub fn parse_connect_request(buf: &[u8]) -> (r: Option<(Vec<u8>, u16)>)
    ensures
        match r {
            Some(hp) => spec_parse_connect(buf@) == Some((hp.0@, hp.1)),
            None => spec_parse_connect(buf@) is None,
        },
{
    let n = buf.len();
    let mut ll: usize = 0;
    while ll < n && buf[ll] != 10
        invariant
            0 <= ll <= n,
            n == buf@.len(),
            forall|j: int| 0 <= j < ll ==> #[trigger] buf@[j] != 10,
        decreases n - ll,
    {
        ll += 1;
    }
    proof {
        lemma_line_len_is(buf@, ll as int);
    }
    let ghost line = buf@.take(ll as int);
    let t0s = scan_ws(buf, 0, ll);
    let t0e = scan_token(buf, t0s, ll);
    let t1s = scan_ws(buf, t0e, ll);
    let t1e = scan_token(buf, t1s, ll);
    let t2s = scan_ws(buf, t1e, ll);
    proof {
        assert(line.skip(0) =~= line);
        assert(buf@.take(ll as int).skip(t0s as int) =~= buf@.subrange(t0s as int, ll as int));
        assert(buf@.take(ll as int).skip(t0e as int) =~= buf@.subrange(t0e as int, ll as int));
        assert(buf@.take(ll as int).skip(t1s as int) =~= buf@.subrange(t1s as int, ll as int));
        assert(buf@.take(ll as int).skip(t1e as int) =~= buf@.subrange(t1e as int, ll as int));
    }
    if t0e == t0s || t1e == t1s || t2s >= ll {
        return None;
    }
    let method = slice_subrange(buf, t0s, t0e);
    if !crate::policy::bytes_eq(method, "CONNECT".as_bytes()) {
        assert(line.subrange(t0s as int, t0e as int) =~= buf@.subrange(t0s as int, t0e as int));
        return None;
    }
    assert(line.subrange(t0s as int, t0e as int) =~= buf@.subrange(t0s as int, t0e as int));
    let target = slice_subrange(buf, t1s, t1e);
    assert(line.subrange(t1s as int, t1e as int) =~= buf@.subrange(t1s as int, t1e as int));
    let (host, port) = split_authority(target);
    Some((host, port))
}

/// What request-line parsing of the first in-TLS read yields: the method
/// and request-target tokens of the first line, or `("?", "/")` when fewer
/// than two tokens are present.
pub open spec fn spec_parse_request_line(s: Seq<u8>) -> (Seq<u8>, Seq<u8>) {
    let line = s.take(line_len(s) as int);
    let t0s = ws_len(line) as int;
    let t0l = token_len(line.skip(t0s)) as int;
    let t1s = t0s + t0l + ws_len(line.skip(t0s + t0l)) as int;
    let t1l = token_len(line.skip(t1s)) as int;
    if t0l == 0 || t1l == 0 {
        ("?".spec_bytes(), "/".spec_bytes())
    } else {
        (line.subrange(t0s, t0s + t0l), line.subrange(t1s, t1s + t1l))
    }
}

/// Parse the method and request-target out of the first line of a request.
pub fn parse_request_line(buf: &[u8]) -> (r: (Vec<u8>, Vec<u8>))
    ensures
        (r.0@, r.1@) == spec_parse_request_line(buf@),
{
    let n = buf.len();
    let mut ll: usize = 0;
    while ll < n && buf[ll] != 10
        invariant
            0 <= ll <= n,
            n == buf@.len(),
            forall|j: int| 0 <= j < ll ==> #[trigger] buf@[j] != 10,
        decreases n - ll,
    {
        ll += 1;
    }
    proof {
        lemma_line_len_is(buf@, ll as int);
    }
    let ghost line = buf@.take(ll as int);
    let t0s = scan_ws(buf, 0, ll);
    let t0e = scan_token(buf, t0s, ll);
    let t1s = scan_ws(buf, t0e, ll);
    let t1e = scan_token(buf, t1s, ll);
    proof {
        assert(line.skip(0) =~= line);
    }
    if t0e == t0s || t1e == t1s {
        return (crate::text::str_bytes("?"), crate::text::str_bytes("/"));
    }
    let method = slice_to_vec(slice_subrange(buf, t0s, t0e));
    assert(method@ =~= line.subrange(t0s as int, t0e as int));
    let target = slice_to_vec(slice_subrange(buf, t1s, t1e));
    assert(target@ =~= line.subrange(t1s as int, t1e as int));
    (method, target)
}

/// Advance past whitespace within the line.
fn scan_ws(buf: &[u8], from: usize, ll: usize) -> (r: usize)
    requires
        from <= ll <= buf@.len(),
    ensures
        from <= r <= ll,
        r - from == ws_len(buf@.take(ll as int).skip(from as int)),
{
    let mut i: usize = from;
    while i < ll && is_ws_exec(buf[i])
        invariant
            from <= i <= ll <= buf@.len(),
            forall|j: int| from <= j < i ==> is_ws(#[trigger] buf@[j]),
        decreases ll - i,
    {
        i += 1;
    }
    proof {
        let s = buf@.take(ll as int).skip(from as int);
        assert forall|j: int| 0 <= j < i - from implies is_ws(#[trigger] s[j]) by {
            assert(s[j] == buf@[from + j]);
        }
        if i < ll {
            assert(s[i - from] == buf@[i as int]);
        }
        lemma_ws_len_is(s, i - from);
    }
    i
}

/// Advance past a token within the line.
fn scan_token(buf: &[u8], from: usize, ll: usize) -> (r: usize)
    requires
        from <= ll <= buf@.len(),
    ensures
        from <= r <= ll,
        r - from == token_len(buf@.take(ll as int).skip(from as int)),
{
    let mut i: usize = from;
    while i < ll && !is_ws_exec(buf[i])
        invariant
            from <= i <= ll <= buf@.len(),
            forall|j: int| from <= j < i ==> !is_ws(#[trigger] buf@[j]),
        decreases ll - i,
    {
        i += 1;
    }
    proof {
        let s = buf@.take(ll as int).skip(from as int);
        assert forall|j: int| 0 <= j < i - from implies !is_ws(#[trigger] s[j]) by {
            assert(s[j] == buf@[from + j]);
        }
        if i < ll {
            assert(s[i - from] == buf@[i as int]);
        }
        lemma_token_len_is(s, i - from);
    }
    i
}

} // verus!
