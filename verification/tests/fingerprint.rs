use veil::transport::fingerprint::{
    FingerprintProfile, TlsFingerprint, TlsFingerprintCursor, TlsFingerprintMode,
    TlsFingerprintPolicy, CHROME_CURVES, CHROME_SIGALGS, RANDOM_ATTEMPTS,
};

#[test]
fn fingerprint_parse_roundtrip_and_aliases() {
    for fp in TlsFingerprint::ALL_CONCRETE {
        assert_eq!(TlsFingerprint::parse(fp.as_str()), Some(fp));
    }
    assert_eq!(
        TlsFingerprint::parse("RANDOM"),
        Some(TlsFingerprint::Randomized)
    );
    assert_eq!(TlsFingerprint::parse("ff"), Some(TlsFingerprint::Firefox));
    assert_eq!(
        TlsFingerprint::parse("ios-safari"),
        Some(TlsFingerprint::IosSafari)
    );
    assert_eq!(TlsFingerprint::parse("nope"), None);
}

#[test]
fn every_alias_is_known_and_space_does_not_count() {
    assert_eq!(TlsFingerprint::parse(" Chrome\t"), Some(TlsFingerprint::Chrome));
    assert_eq!(TlsFingerprint::parse("ios_safari"), Some(TlsFingerprint::IosSafari));
    assert_eq!(TlsFingerprint::parse("android_chrome"), Some(TlsFingerprint::AndroidChrome));
    assert_eq!(TlsFingerprint::parse("android-chrome"), Some(TlsFingerprint::AndroidChrome));
    assert_eq!(TlsFingerprint::parse("randomized"), Some(TlsFingerprint::Randomized));
    assert_eq!(TlsFingerprint::parse("rand"), Some(TlsFingerprint::Randomized));
    assert_eq!(TlsFingerprint::parse(""), None);
    assert_eq!(TlsFingerprint::parse("ch rome"), None);
}

#[test]
fn concrete_profiles_have_nonempty_specs_and_x25519_first() {
    for fp in TlsFingerprint::ALL_CONCRETE {
        let p = FingerprintProfile::resolve(fp);
        assert!(!p.tls12_ciphers.is_empty(), "{fp:?} ciphers empty");
        assert!(!p.sigalgs.is_empty(), "{fp:?} sigalgs empty");
        assert!(
            p.curves.starts_with("X25519"),
            "{fp:?} curves must lead with X25519: {}",
            p.curves
        );
    }
}

#[test]
fn chrome_and_android_share_native_wire_shape_but_distinct_labels() {
    let c = FingerprintProfile::resolve(TlsFingerprint::Chrome);
    let a = FingerprintProfile::resolve(TlsFingerprint::AndroidChrome);
    assert_eq!(c.tls12_ciphers, a.tls12_ciphers);
    assert_eq!(c.curves, a.curves);
    assert_eq!(c.sigalgs, a.sigalgs);
    assert_eq!(
        (c.grease, c.permute_extensions),
        (a.grease, a.permute_extensions)
    );
    assert_ne!(c.label, a.label);
}

#[test]
fn distinct_browser_families_have_distinct_fingerprints() {
    let chrome = FingerprintProfile::resolve(TlsFingerprint::Chrome);
    let firefox = FingerprintProfile::resolve(TlsFingerprint::Firefox);
    let safari = FingerprintProfile::resolve(TlsFingerprint::Safari);
    assert_ne!(chrome, firefox);
    assert_ne!(chrome, safari);
    assert_ne!(firefox, safari);
}

#[test]
fn chrome_is_told_exactly() {
    let p = FingerprintProfile::resolve(TlsFingerprint::Chrome);
    assert_eq!(p.label, "chrome");
    assert_eq!(p.curves, "X25519:P-256:P-384");
    assert_eq!(
        p.tls12_ciphers,
        "ECDHE-ECDSA-AES128-GCM-SHA256:ECDHE-RSA-AES128-GCM-SHA256:\
ECDHE-ECDSA-CHACHA20-POLY1305:ECDHE-RSA-CHACHA20-POLY1305:\
ECDHE-ECDSA-AES256-GCM-SHA384:ECDHE-RSA-AES256-GCM-SHA384:\
AES128-GCM-SHA256:AES256-GCM-SHA384:AES128-SHA:AES256-SHA"
    );
    assert!(p.grease && p.permute_extensions);
    assert_eq!(CHROME_CURVES, p.curves);
}

#[test]
fn randomized_is_valid_and_varies() {
    let a = FingerprintProfile::randomized();
    assert!(a.curves.starts_with("X25519"));
    assert!(a.grease && a.permute_extensions);
    assert!(!a.tls12_ciphers.is_empty());
    let lead = a.tls12_ciphers.split(':').next().unwrap();
    assert!(
        lead.contains("GCM") || lead.contains("CHACHA20"),
        "lead cipher should be AEAD, got {lead}"
    );
    let draws: Vec<String> = (0..8)
        .map(|_| FingerprintProfile::randomized().tls12_ciphers)
        .collect();
    assert!(
        draws.iter().any(|d| d != &draws[0]),
        "randomized profiles should vary across draws"
    );
}

#[test]
fn what_is_drawn_decides_the_made_up_look() {
    let order = vec![6, 7, 2, 3, 4, 5, 0, 1, 8, 9];
    let p = FingerprintProfile::from_draw(&order, 7, &vec![2, 0, 1]);
    assert_eq!(p.label, "random");
    assert_eq!(
        p.tls12_ciphers,
        "ECDHE-ECDSA-CHACHA20-POLY1305:ECDHE-RSA-AES256-SHA:ECDHE-ECDSA-AES256-SHA:\
ECDHE-RSA-CHACHA20-POLY1305"
    );
    assert_eq!(p.curves, "X25519:P-521:P-256:P-384");
    assert_eq!(p.sigalgs, CHROME_SIGALGS);
    let all = FingerprintProfile::from_draw(&order, 6, &vec![0, 1, 2]);
    assert_eq!(all.tls12_ciphers.split(':').count(), 10);
    let lead = vec![9, 8, 7, 6, 5, 4, 3, 2, 1, 0];
    let q = FingerprintProfile::from_draw(&lead, 0, &vec![0, 1, 2]);
    assert_eq!(
        q.tls12_ciphers,
        "AES256-GCM-SHA384:AES128-GCM-SHA256:ECDHE-RSA-AES256-SHA:ECDHE-ECDSA-AES256-SHA"
    );
}

#[test]
fn pinned_attempt_order_is_single() {
    let mut cursor = TlsFingerprintCursor::new();
    let pol = TlsFingerprintPolicy::pinned(TlsFingerprint::Firefox);
    assert_eq!(pol.attempt_order(&cursor), vec![(0, TlsFingerprint::Firefox)]);
    pol.record_success(&mut cursor, 0);
    assert_eq!(*pol.mode(), TlsFingerprintMode::Pinned(TlsFingerprint::Firefox));
}

#[test]
fn random_mode_yields_multiple_random_attempts() {
    let cursor = TlsFingerprintCursor::new();
    let pol = TlsFingerprintPolicy::random();
    let order = pol.attempt_order(&cursor);
    assert_eq!(order.len(), RANDOM_ATTEMPTS);
    assert!(
        order
            .iter()
            .all(|(_, fp)| *fp == TlsFingerprint::Randomized)
    );
}

#[test]
fn rotate_covers_all_profiles_once_from_head() {
    let cursor = TlsFingerprintCursor::new();
    let pol = TlsFingerprintPolicy::rotate(
        vec![
            TlsFingerprint::Chrome,
            TlsFingerprint::Firefox,
            TlsFingerprint::Safari,
        ],
        false,
    );
    let order = pol.attempt_order(&cursor);
    assert_eq!(
        order,
        vec![
            (0, TlsFingerprint::Chrome),
            (1, TlsFingerprint::Firefox),
            (2, TlsFingerprint::Safari),
        ]
    );
}

#[test]
fn sticky_rotate_starts_at_last_known_good_and_wraps() {
    let mut cursor = TlsFingerprintCursor::new();
    let pol = TlsFingerprintPolicy::rotate(
        vec![
            TlsFingerprint::Chrome,
            TlsFingerprint::Firefox,
            TlsFingerprint::Safari,
        ],
        true,
    );
    pol.record_success(&mut cursor, 2);
    let order = pol.attempt_order(&cursor);
    assert_eq!(
        order,
        vec![
            (2, TlsFingerprint::Safari),
            (0, TlsFingerprint::Chrome),
            (1, TlsFingerprint::Firefox),
        ],
        "sticky sequence must start at last_ok and wrap"
    );
}

#[test]
fn non_sticky_rotate_ignores_recorded_success() {
    let mut cursor = TlsFingerprintCursor::new();
    let pol = TlsFingerprintPolicy::rotate(
        vec![TlsFingerprint::Chrome, TlsFingerprint::Firefox],
        false,
    );
    pol.record_success(&mut cursor, 1);
    assert_eq!(
        pol.attempt_order(&cursor)[0].0,
        0,
        "non-sticky always starts at head"
    );
}

#[test]
fn empty_rotate_list_falls_back_to_chrome() {
    let cursor = TlsFingerprintCursor::new();
    let pol = TlsFingerprintPolicy::rotate(vec![], true);
    assert_eq!(pol.attempt_order(&cursor), vec![(0, TlsFingerprint::Chrome)]);
}

#[test]
fn default_policy_is_sticky_desktop_rotation() {
    let cursor = TlsFingerprintCursor::new();
    let pol = TlsFingerprintPolicy::default();
    assert!(pol.is_sticky());
    let fps: Vec<TlsFingerprint> = pol.attempt_order(&cursor).into_iter().map(|(_, f)| f).collect();
    assert_eq!(
        fps,
        vec![
            TlsFingerprint::Chrome,
            TlsFingerprint::Firefox,
            TlsFingerprint::Safari
        ]
    );
}

#[test]
fn a_success_is_seen_by_every_clone() {
    let mut cursor = TlsFingerprintCursor::default();
    let pol = TlsFingerprintPolicy::default();
    let other = pol.clone();
    pol.record_success(&mut cursor, 1);
    assert_eq!(other.attempt_order(&cursor)[0], (1, TlsFingerprint::Firefox));
    assert_eq!(other.mode(), pol.mode());
    assert!(other.is_sticky());
}
