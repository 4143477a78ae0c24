//! Traffic events and their JSON line encoding.
//!
//! Every gated connection produces exactly one terminal event (and the host
//! gate may produce one when it blocks).  An event is appended to the traffic
//! log as one JSON object per line with the keys in serialized order:
//! `action`, `host`, `method`, `mode`, `path`, `reason`.

use vstd::prelude::*;

verus! {

use vstd::string::StringSliceAdditionalSpecFns;
use crate::policy::{Mode, Reason};

/// One structured traffic event: what was decided about a request.
#[derive(Debug)]
pub struct TrafficEvent {
    /// True for ALLOW, false for BLOCK.
    pub allowed: bool,
    pub host: Vec<u8>,
    pub path: Vec<u8>,
    pub method: Vec<u8>,
    pub mode: Mode,
    pub reason: Reason,
}

/// JSON escape of one byte: quote, backslash and the named control escapes
/// get a backslash form; other control bytes get `\u00XX`; everything else
/// passes through.
pub open spec fn esc_byte(b: u8) -> Seq<u8> {
    if b == 34 {
        seq![92u8, 34u8]
    } else if b == 92 {
        seq![92u8, 92u8]
    } else if b == 8 {
        seq![92u8, 98u8]
    } else if b == 12 {
        seq![92u8, 102u8]
    } else if b == 10 {
        seq![92u8, 110u8]
    } else if b == 13 {
        seq![92u8, 114u8]
    } else if b == 9 {
        seq![92u8, 116u8]
    } else if b < 32 {
        seq![92u8, 117u8, 48u8, 48u8, hex_digit(b / 16), hex_digit(b % 16)]
    } else {
        seq![b]
    }
}

/// Lower-case hexadecimal digit for a value below 16.
pub open spec fn hex_digit(d: u8) -> u8 {
    if d < 10 {
        (48 + d) as u8
    } else {
        (87 + d) as u8
    }
}

/// JSON escape of a byte string.
pub open spec fn json_escaped(s: Seq<u8>) -> Seq<u8>
    decreases s.len(),
{
    if s.len() == 0 {
        Seq::empty()
    } else {
        esc_byte(s[0]) + json_escaped(s.skip(1))
    }
}

/// Escaping distributes over appending a byte at the end.
proof fn lemma_json_escaped_push(s: Seq<u8>, b: u8)
    ensures
        json_escaped(s.push(b)) == json_escaped(s) + esc_byte(b),
    decreases s.len(),
{
    if s.len() == 0 {
        assert(s.push(b).skip(1) =~= Seq::<u8>::empty());
        assert(s.push(b)[0] == b);
        assert(json_escaped(s.push(b)) == esc_byte(b) + json_escaped(s.push(b).skip(1)));
        assert(json_escaped(s.push(b)) =~= json_escaped(s) + esc_byte(b));
    } else {
        assert(s.push(b).skip(1) =~= s.skip(1).push(b));
        lemma_json_escaped_push(s.skip(1), b);
        assert(json_escaped(s.push(b)) =~= json_escaped(s) + esc_byte(b));
    }
}

/// The action word of an event.
pub open spec fn spec_action_bytes(allowed: bool) -> Seq<u8> {
    if allowed {
        "ALLOW".spec_bytes()
    } else {
        "BLOCK".spec_bytes()
    }
}

/// The mode word as it is configured and logged.
pub open spec fn spec_mode_bytes(m: Mode) -> Seq<u8> {
    match m {
        Mode::Monitor => "monitor".spec_bytes(),
        Mode::Enforce => "enforce".spec_bytes(),
    }
}

/// The reason phrase of a decision.
pub open spec fn spec_reason_bytes(r: Reason) -> Seq<u8> {
    match r {
        Reason::MonitorMode => "Monitor Mode".spec_bytes(),
        Reason::HostAllowed => "Host Allowed".spec_bytes(),
        Reason::HostMatch => "Host Match".spec_bytes(),
        Reason::PathMatch => "Path Match".spec_bytes(),
        Reason::HostNotAllowed => "Host Not Allowed".spec_bytes(),
        Reason::PathNotAllowed => "Path Not Allowed".spec_bytes(),
    }
}

/// The JSON line written for an event (without the trailing newline), keys
/// in serialized order.
pub open spec fn spec_traffic_line(ev: TrafficEvent) -> Seq<u8> {
    "{\"action\":\"".spec_bytes() + json_escaped(spec_action_bytes(ev.allowed))
        + "\",\"host\":\"".spec_bytes() + json_escaped(ev.host@) + "\",\"method\":\"".spec_bytes()
        + json_escaped(ev.method@) + "\",\"mode\":\"".spec_bytes() + json_escaped(
        spec_mode_bytes(ev.mode),
    ) + "\",\"path\":\"".spec_bytes() + json_escaped(ev.path@) + "\",\"reason\":\"".spec_bytes()
        + json_escaped(ev.reason_bytes()) + "\"}".spec_bytes()
}

impl TrafficEvent {
    /// The reason phrase, as a spec convenience.
    pub open spec fn reason_bytes(self) -> Seq<u8> {
        spec_reason_bytes(self.reason)
    }
}

/// Append the JSON escape of `s` to `out`.
fn escape_into(out: &mut Vec<u8>, s: &[u8])
    ensures
        final(out)@ == old(out)@ + json_escaped(s@),
{
    let ghost base = out@;
    let mut i: usize = 0;
    while i < s.len()
        invariant
            0 <= i <= s@.len(),
            out@ == base + json_escaped(s@.take(i as int)),
        decreases s@.len() - i,
    {
        let b = s[i];
        proof {
            lemma_json_escaped_push(s@.take(i as int), b);
            assert(s@.take(i as int).push(b) =~= s@.take(i as int + 1));
        }
        if b == 34 {
            out.push(92);
            out.push(34);
        } else if b == 92 {
            out.push(92);
            out.push(92);
        } else if b == 8 {
            out.push(92);
            out.push(98);
        } else if b == 12 {
            out.push(92);
            out.push(102);
        } else if b == 10 {
            out.push(92);
            out.push(110);
        } else if b == 13 {
            out.push(92);
            out.push(114);
        } else if b == 9 {
            out.push(92);
            out.push(116);
        } else if b < 32 {
            out.push(92);
            out.push(117);
            out.push(48);
            out.push(48);
            out.push(hex_digit_exec(b / 16));
            out.push(hex_digit_exec(b % 16));
        } else {
            out.push(b);
        }
        assert(out@ =~= base + json_escaped(s@.take(i as int + 1)));
        i += 1;
    }
    assert(s@.take(s@.len() as int) =~= s@);
}

/// Lower-case hexadecimal digit for a value below 16.
fn hex_digit_exec(d: u8) -> (r: u8)
    requires
        d < 16,
    ensures
        r == hex_digit(d),
{
    if d < 10 {
        48 + d
    } else {
        87 + d
    }
}

/// Append a string literal's bytes to `out`.
fn push_str_bytes(out: &mut Vec<u8>, s: &str)
    ensures
        final(out)@ == old(out)@ + s.spec_bytes(),
{
    let bytes = s.as_bytes();
    let mut i: usize = 0;
    while i < bytes.len()
        invariant
            0 <= i <= bytes@.len(),
            bytes@ == s.spec_bytes(),
            out@ == old(out)@ + bytes@.take(i as int),
        decreases bytes@.len() - i,
    {
        out.push(bytes[i]);
        assert(out@ =~= old(out)@ + bytes@.take(i as int + 1));
        i += 1;
    }
    assert(bytes@.take(bytes@.len() as int) =~= bytes@);
}

/// The action word of an event, as bytes.
pub fn action_bytes(allowed: bool) -> (r: Vec<u8>)
    ensures
        r@ == spec_action_bytes(allowed),
{
    let mut out: Vec<u8> = Vec::new();
    if allowed {
        push_str_bytes(&mut out, "ALLOW");
    } else {
        push_str_bytes(&mut out, "BLOCK");
    }
    assert(out@ =~= spec_action_bytes(allowed));
    out
}

/// The mode word, as bytes.
pub fn mode_bytes(m: Mode) -> (r: Vec<u8>)
    ensures
        r@ == spec_mode_bytes(m),
{
    let mut out: Vec<u8> = Vec::new();
    match m {
        Mode::Monitor => push_str_bytes(&mut out, "monitor"),
        Mode::Enforce => push_str_bytes(&mut out, "enforce"),
    }
    assert(out@ =~= spec_mode_bytes(m));
    out
}

/// The reason phrase, as bytes.
pub fn reason_bytes(r: Reason) -> (out: Vec<u8>)
    ensures
        out@ == spec_reason_bytes(r),
{
    let mut out: Vec<u8> = Vec::new();
    match r {
        Reason::MonitorMode => push_str_bytes(&mut out, "Monitor Mode"),
        Reason::HostAllowed => push_str_bytes(&mut out, "Host Allowed"),
        Reason::HostMatch => push_str_bytes(&mut out, "Host Match"),
        Reason::PathMatch => push_str_bytes(&mut out, "Path Match"),
        Reason::HostNotAllowed => push_str_bytes(&mut out, "Host Not Allowed"),
        Reason::PathNotAllowed => push_str_bytes(&mut out, "Path Not Allowed"),
    }
    assert(out@ =~= spec_reason_bytes(r));
    out
}

/// Encode an event as its JSON log line (no trailing newline).
pub fn format_traffic_line(ev: &TrafficEvent) -> (r: Vec<u8>)
    ensures
        r@ == spec_traffic_line(*ev),
{
    let mut out: Vec<u8> = Vec::new();
    push_str_bytes(&mut out, "{\"action\":\"");
    let action = action_bytes(ev.allowed);
    escape_into(&mut out, action.as_slice());
    push_str_bytes(&mut out, "\",\"host\":\"");
    escape_into(&mut out, ev.host.as_slice());
    push_str_bytes(&mut out, "\",\"method\":\"");
    escape_into(&mut out, ev.method.as_slice());
    push_str_bytes(&mut out, "\",\"mode\":\"");
    let mode = mode_bytes(ev.mode);
    escape_into(&mut out, mode.as_slice());
    push_str_bytes(&mut out, "\",\"path\":\"");
    escape_into(&mut out, ev.path.as_slice());
    push_str_bytes(&mut out, "\",\"reason\":\"");
    let reason = reason_bytes(ev.reason);
    escape_into(&mut out, reason.as_slice());
    push_str_bytes(&mut out, "\"}");
    assert(out@ =~= spec_traffic_line(*ev));
    out
}

} // verus!
