//! Policy evaluation: decide whether a (host) or a (host, path) pair is
//! allowed under a rule snapshot.
//!
//! A rule names a host and a list of path prefixes.  A candidate host matches
//! a rule by equality or by ending with `"." + rule.host` (one or more
//! subdomain labels).  An empty prefix list means every path under that host
//! is allowed.  Rules are scanned in order; the first matching host wins.

use vstd::prelude::*;

verus! {

/// Operating mode of the proxy: observe only, or enforce the rules.
#[derive(Clone, Copy, PartialEq, Eq, Structural, Debug)]
pub enum Mode {
    Monitor,
    Enforce,
}

/// The mode assumed when no configuration names one.
pub fn default_mode() -> (m: Mode)
    ensures
        m == Mode::Monitor,
{
    Mode::Monitor
}

/// One allow-list entry: a host and the path prefixes allowed under it.
/// Hosts and paths are kept as the raw bytes the client sent.
pub struct HostRule {
    pub host: Vec<u8>,
    pub allowed_paths: Vec<Vec<u8>>,
}

/// An immutable view of the configured policy, frozen for the lifetime of a
/// connection.
pub struct PolicySnapshot {
    pub mode: Mode,
    pub rules: Vec<HostRule>,
}

impl Default for PolicySnapshot {
    /// The snapshot assumed when no configuration is present: Monitor mode
    /// and no rules.
    fn default() -> (s: PolicySnapshot)
        ensures
            s.mode == Mode::Monitor,
            s.rules@.len() == 0,
    {
        PolicySnapshot { mode: Mode::Monitor, rules: Vec::new() }
    }
}

/// Why a decision came out the way it did.
#[derive(Clone, Copy, PartialEq, Eq, Structural, Debug)]
pub enum Reason {
    MonitorMode,
    HostAllowed,
    HostMatch,
    PathMatch,
    HostNotAllowed,
    PathNotAllowed,
}

/// The outcome of a policy check.
#[derive(Clone, Copy, PartialEq, Eq, Structural, Debug)]
pub struct Decision {
    pub allowed: bool,
    pub reason: Reason,
}

/// `suffix` stands at the end of `s`.
pub open spec fn ends_with_bytes(s: Seq<u8>, suffix: Seq<u8>) -> bool {
    s.len() >= suffix.len() && s.skip(s.len() - suffix.len()) == suffix
}

/// `prefix` stands at the start of `s`.
pub open spec fn starts_with_bytes(s: Seq<u8>, prefix: Seq<u8>) -> bool {
    s.len() >= prefix.len() && s.take(prefix.len() as int) == prefix
}

/// A candidate host matches a rule host by equality, or as a subdomain:
/// the candidate ends with `"." + rule_host`.
pub open spec fn spec_host_matches(host: Seq<u8>, rule_host: Seq<u8>) -> bool {
    host == rule_host || ends_with_bytes(host, seq![46u8].add(rule_host))
}

/// Index of the first rule whose host matches, if any.
pub open spec fn spec_rule_index(rules: Seq<HostRule>, host: Seq<u8>) -> Option<int>
    decreases rules.len(),
{
    if rules.len() == 0 {
        None
    } else if spec_host_matches(host, rules[0].host@) {
        Some(0)
    } else {
        match spec_rule_index(rules.skip(1), host) {
            Some(i) => Some(i + 1),
            None => None,
        }
    }
}

/// Some prefix in `paths` starts `path`.
pub open spec fn spec_any_prefix(paths: Seq<Vec<u8>>, path: Seq<u8>) -> bool {
    exists|i: int| 0 <= i < paths.len() && starts_with_bytes(path, #[trigger] paths[i]@)
}

/// What `check_host_allowed` returns.
pub open spec fn spec_check_host(snap: &PolicySnapshot, host: Seq<u8>) -> Decision {
    if snap.mode != Mode::Enforce {
        Decision { allowed: true, reason: Reason::MonitorMode }
    } else {
        match spec_rule_index(snap.rules@, host) {
            Some(_) => Decision { allowed: true, reason: Reason::HostAllowed },
            None => Decision { allowed: false, reason: Reason::HostNotAllowed },
        }
    }
}

/// What `check_request` returns.
pub open spec fn spec_check_request(snap: &PolicySnapshot, host: Seq<u8>, path: Seq<u8>) -> Decision {
    if snap.mode != Mode::Enforce {
        Decision { allowed: true, reason: Reason::MonitorMode }
    } else {
        match spec_rule_index(snap.rules@, host) {
            Some(i) => {
                let rule = snap.rules@[i];
                if rule.allowed_paths@.len() == 0 {
                    Decision { allowed: true, reason: Reason::HostMatch }
                } else if spec_any_prefix(rule.allowed_paths@, path) {
                    Decision { allowed: true, reason: Reason::PathMatch }
                } else {
                    Decision { allowed: false, reason: Reason::PathNotAllowed }
                }
            },
            None => Decision { allowed: false, reason: Reason::HostNotAllowed },
        }
    }
}

/// Two byte vectors hold the same bytes.
pub fn bytes_eq(a: &[u8], b: &[u8]) -> (r: bool)
    ensures
        r == (a@ == b@),
{
    if a.len() != b.len() {
        assert(a@.len() != b@.len());
        return false;
    }
    let mut i: usize = 0;
    while i < a.len()
        invariant
            0 <= i <= a.len(),
            a.len() == b.len(),
            forall|j: int| 0 <= j < i ==> a@[j] == b@[j],
        decreases a.len() - i,
    {
        if a[i] != b[i] {
            return false;
        }
        i += 1;
    }
    assert(a@ =~= b@);
    true
}

/// `suffix` stands at the end of `s`.
pub fn bytes_ends_with(s: &[u8], suffix: &[u8]) -> (r: bool)
    ensures
        r == ends_with_bytes(s@, suffix@),
{
    if suffix.len() > s.len() {
        return false;
    }
    let start: usize = s.len() - suffix.len();
    let mut i: usize = 0;
    while i < suffix.len()
        invariant
            0 <= i <= suffix.len(),
            suffix.len() <= s.len(),
            start == s.len() - suffix.len(),
            forall|j: int| 0 <= j < i ==> s@[start + j] == suffix@[j],
        decreases suffix.len() - i,
    {
        if s[start + i] != suffix[i] {
            assert(s@.skip(s@.len() - suffix@.len())[i as int] != suffix@[i as int]);
            return false;
        }
        i += 1;
    }
    assert(s@.skip(s@.len() - suffix@.len()) =~= suffix@);
    true
}

/// `prefix` stands at the start of `s`.
pub fn bytes_starts_with(s: &[u8], prefix: &[u8]) -> (r: bool)
    ensures
        r == starts_with_bytes(s@, prefix@),
{
    if prefix.len() > s.len() {
        return false;
    }
    let mut i: usize = 0;
    while i < prefix.len()
        invariant
            0 <= i <= prefix.len(),
            prefix.len() <= s.len(),
            forall|j: int| 0 <= j < i ==> s@[j] == prefix@[j],
        decreases prefix.len() - i,
    {
        if s[i] != prefix[i] {
            assert(s@.take(prefix@.len() as int)[i as int] != prefix@[i as int]);
            return false;
        }
        i += 1;
    }
    assert(s@.take(prefix@.len() as int) =~= prefix@);
    true
}

/// The candidate host matches the rule host (equality or subdomain suffix).
pub fn host_matches(host: &[u8], rule_host: &[u8]) -> (r: bool)
    ensures
        r == spec_host_matches(host@, rule_host@),
{
    if bytes_eq(host, rule_host) {
        return true;
    }
    let mut dotted: Vec<u8> = Vec::new();
    dotted.push(46u8);
    let mut i: usize = 0;
    while i < rule_host.len()
        invariant
            0 <= i <= rule_host.len(),
            dotted@ == seq![46u8].add(rule_host@.take(i as int)),
        decreases rule_host.len() - i,
    {
        dotted.push(rule_host[i]);
        assert(dotted@ =~= seq![46u8].add(rule_host@.take(i as int + 1)));
        i += 1;
    }
    assert(rule_host@.take(rule_host@.len() as int) =~= rule_host@);
    bytes_ends_with(host, dotted.as_slice())
}

/// Index of the first rule whose host matches the candidate host.
fn find_rule_index(rules: &Vec<HostRule>, host: &[u8]) -> (r: Option<usize>)
    ensures
        match r {
            Some(i) => i < rules.len() && spec_rule_index(rules@, host@) == Some(i as int),
            None => spec_rule_index(rules@, host@) is None,
        },
{
    let mut i: usize = 0;
    while i < rules.len()
        invariant
            0 <= i <= rules.len(),
            forall|j: int| 0 <= j < i ==> !spec_host_matches(host@, rules@[j].host@),
        decreases rules.len() - i,
    {
        if host_matches(host, rules[i].host.as_slice()) {
            proof {
                lemma_rule_index_first(rules@, host@, i as int);
            }
            return Some(i);
        }
        i += 1;
    }
    proof {
        lemma_rule_index_none(rules@, host@);
    }
    None
}

/// If no rule before `i` matches and rule `i` does, the first match is `i`.
proof fn lemma_rule_index_first(rules: Seq<HostRule>, host: Seq<u8>, i: int)
    requires
        0 <= i < rules.len(),
        spec_host_matches(host, rules[i].host@),
        forall|j: int| 0 <= j < i ==> !spec_host_matches(host, rules[j].host@),
    ensures
        spec_rule_index(rules, host) == Some(i),
    decreases i,
{
    if i == 0 {
    } else {
        assert(rules.skip(1)[i - 1] == rules[i]);
        assert(forall|j: int| 0 <= j < i - 1 ==> rules.skip(1)[j] == rules[j + 1]);
        lemma_rule_index_first(rules.skip(1), host, i - 1);
    }
}

/// If no rule at all matches, there is no first match.
proof fn lemma_rule_index_none(rules: Seq<HostRule>, host: Seq<u8>)
    requires
        forall|j: int| 0 <= j < rules.len() ==> !spec_host_matches(host, rules[j].host@),
    ensures
        spec_rule_index(rules, host) is None,
    decreases rules.len(),
{
    if rules.len() > 0 {
        assert(forall|j: int| 0 <= j < rules.len() - 1 ==> rules.skip(1)[j] == rules[j + 1]);
        lemma_rule_index_none(rules.skip(1), host);
    }
}

/// Decide whether a host may be connected to at all (the CONNECT-level gate,
/// which ignores path rules).
pub fn check_host_allowed(snap: &PolicySnapshot, host: &[u8]) -> (d: Decision)
    ensures
        d == spec_check_host(snap, host@),
{
    if !matches!(snap.mode, Mode::Enforce) {
        return Decision { allowed: true, reason: Reason::MonitorMode };
    }
    match find_rule_index(&snap.rules, host) {
        Some(_) => Decision { allowed: true, reason: Reason::HostAllowed },
        None => Decision { allowed: false, reason: Reason::HostNotAllowed },
    }
}

/// Decide whether a (host, path) request is allowed.  Prefixes are compared
/// byte for byte, with no normalization.
pub fn check_request(snap: &PolicySnapshot, host: &[u8], path: &[u8]) -> (d: Decision)
    ensures
        d == spec_check_request(snap, host@, path@),
{
    if !matches!(snap.mode, Mode::Enforce) {
        return Decision { allowed: true, reason: Reason::MonitorMode };
    }
    match find_rule_index(&snap.rules, host) {
        Some(i) => {
            if snap.rules[i].allowed_paths.len() == 0 {
                return Decision { allowed: true, reason: Reason::HostMatch };
            }
            let mut k: usize = 0;
            while k < snap.rules[i].allowed_paths.len()
                invariant
                    0 <= i < snap.rules.len(),
                    0 <= k <= snap.rules@[i as int].allowed_paths.len(),
                    snap.mode == Mode::Enforce,
                    snap.rules@[i as int].allowed_paths.len() > 0,
                    spec_rule_index(snap.rules@, host@) == Some(i as int),
                    forall|j: int|
                        0 <= j < k ==> !starts_with_bytes(
                            path@,
                            snap.rules@[i as int].allowed_paths@[j]@,
                        ),
                decreases snap.rules@[i as int].allowed_paths.len() - k,
            {
                if bytes_starts_with(path, snap.rules[i].allowed_paths[k].as_slice()) {
                    assert(spec_any_prefix(snap.rules@[i as int].allowed_paths@, path@));
                    return Decision { allowed: true, reason: Reason::PathMatch };
                }
                k += 1;
            }
            assert(!spec_any_prefix(snap.rules@[i as int].allowed_paths@, path@));
            Decision { allowed: false, reason: Reason::PathNotAllowed }
        },
        None => Decision { allowed: false, reason: Reason::HostNotAllowed },
    }
}

/// A request that passes the path gate would also have passed the host gate:
/// whenever `check_request` allows, `check_host_allowed` allows.
pub proof fn lemma_request_allowed_implies_host_allowed(
    snap: &PolicySnapshot,
    host: Seq<u8>,
    path: Seq<u8>,
)
    ensures
        spec_check_request(snap, host, path).allowed ==> spec_check_host(snap, host).allowed,
{
}

/// In Monitor mode every host and every request is allowed.
pub proof fn lemma_monitor_allows_everything(snap: &PolicySnapshot, host: Seq<u8>, path: Seq<u8>)
    requires
        snap.mode == Mode::Monitor,
    ensures
        spec_check_host(snap, host).allowed,
        spec_check_request(snap, host, path).allowed,
{
}

/// Policy evaluation is a pure function of the snapshot and its inputs: two
/// checks of equal inputs against equal snapshots agree.
pub proof fn lemma_policy_pure(
    a: &PolicySnapshot,
    b: &PolicySnapshot,
    host: Seq<u8>,
    path: Seq<u8>,
)
    requires
        a.mode == b.mode,
        a.rules@ == b.rules@,
    ensures
        spec_check_host(a, host) == spec_check_host(b, host),
        spec_check_request(a, host, path) == spec_check_request(b, host, path),
{
}

} // verus!
