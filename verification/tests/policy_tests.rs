use secure_proxy::policy::{
    check_host_allowed, check_request, default_mode, HostRule, Mode, PolicySnapshot, Reason,
};

fn rule(host: &str, paths: &[&str]) -> HostRule {
    HostRule {
        host: host.as_bytes().to_vec(),
        allowed_paths: paths.iter().map(|p| p.as_bytes().to_vec()).collect(),
    }
}

fn snapshot(mode: Mode, rules: Vec<HostRule>) -> PolicySnapshot {
    PolicySnapshot { mode, rules }
}

#[test]
fn default_mode_is_monitor() {
    assert_eq!(default_mode(), Mode::Monitor);
}

#[test]
fn monitor_mode_allows_every_host_and_request() {
    let snap = snapshot(Mode::Monitor, vec![]);
    let d = check_host_allowed(&snap, b"anything.example");
    assert!(d.allowed);
    assert_eq!(d.reason, Reason::MonitorMode);
    let d = check_request(&snap, b"anything.example", b"/any/path");
    assert!(d.allowed);
    assert_eq!(d.reason, Reason::MonitorMode);
}

#[test]
fn enforce_denies_unlisted_host() {
    let snap = snapshot(Mode::Enforce, vec![rule("allowed.test", &[])]);
    let d = check_host_allowed(&snap, b"blocked.test");
    assert!(!d.allowed);
    assert_eq!(d.reason, Reason::HostNotAllowed);
    let d = check_request(&snap, b"blocked.test", b"/");
    assert!(!d.allowed);
    assert_eq!(d.reason, Reason::HostNotAllowed);
}

#[test]
fn enforce_allows_listed_host() {
    let snap = snapshot(Mode::Enforce, vec![rule("allowed.test", &[])]);
    let d = check_host_allowed(&snap, b"allowed.test");
    assert!(d.allowed);
    assert_eq!(d.reason, Reason::HostAllowed);
}

#[test]
fn empty_path_list_allows_any_path() {
    let snap = snapshot(Mode::Enforce, vec![rule("api.test", &[])]);
    let d = check_request(&snap, b"api.test", b"/literally/anything?x=1");
    assert!(d.allowed);
    assert_eq!(d.reason, Reason::HostMatch);
}

#[test]
fn path_prefix_allows_and_denies() {
    let snap = snapshot(Mode::Enforce, vec![rule("api.test", &["/v1/"])]);
    let d = check_request(&snap, b"api.test", b"/v1/users");
    assert!(d.allowed);
    assert_eq!(d.reason, Reason::PathMatch);
    let d = check_request(&snap, b"api.test", b"/v2/admin");
    assert!(!d.allowed);
    assert_eq!(d.reason, Reason::PathNotAllowed);
}

#[test]
fn path_matching_is_literal_bytes() {
    let snap = snapshot(Mode::Enforce, vec![rule("api.test", &["/v1/"])]);
    // No normalization: case and encoding differences do not match.
    assert!(!check_request(&snap, b"api.test", b"/V1/users").allowed);
    assert!(!check_request(&snap, b"api.test", b"/%76%31/users").allowed);
}

#[test]
fn suffix_rule_matches_subdomains_only() {
    let snap = snapshot(Mode::Enforce, vec![rule("example.com", &[])]);
    assert!(check_host_allowed(&snap, b"example.com").allowed);
    assert!(check_host_allowed(&snap, b"api.example.com").allowed);
    assert!(check_host_allowed(&snap, b"a.b.example.com").allowed);
    assert!(!check_host_allowed(&snap, b"badexample.com").allowed);
    assert!(!check_host_allowed(&snap, b"example.com.evil.com").allowed);
}

#[test]
fn first_matching_rule_wins() {
    let snap = snapshot(
        Mode::Enforce,
        vec![rule("example.com", &["/a/"]), rule("api.example.com", &[])],
    );
    // api.example.com matches the first rule by suffix, so its path rules
    // apply, not the laxer second rule.
    let d = check_request(&snap, b"api.example.com", b"/b/");
    assert!(!d.allowed);
    assert_eq!(d.reason, Reason::PathNotAllowed);
    assert!(check_request(&snap, b"api.example.com", b"/a/x").allowed);
}

#[test]
fn request_allowed_implies_host_allowed() {
    let snaps = vec![
        snapshot(Mode::Monitor, vec![]),
        snapshot(Mode::Enforce, vec![]),
        snapshot(Mode::Enforce, vec![rule("a.test", &["/x/"]), rule("b.test", &[])]),
    ];
    let hosts: &[&[u8]] = &[b"a.test", b"b.test", b"c.a.test", b"nope.test"];
    let paths: &[&[u8]] = &[b"/x/1", b"/y", b"/"];
    for snap in &snaps {
        for host in hosts {
            for path in paths {
                if check_request(snap, host, path).allowed {
                    assert!(check_host_allowed(snap, host).allowed);
                }
            }
        }
    }
}

#[test]
fn default_snapshot_is_monitor_with_no_rules() {
    let snap = PolicySnapshot::default();
    assert_eq!(snap.mode, Mode::Monitor);
    assert!(snap.rules.is_empty());
}
