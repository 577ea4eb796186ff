use safa_api::process::env::EnvVars;

#[test]
fn set_get_remove_round_trip() {
    let mut e = EnvVars::new();
    assert_eq!(e.len(), 0);
    assert!(e.get(b"PATH").is_none());
    e.set(b"PATH", b"sys:/bin");
    assert_eq!(e.get(b"PATH").map(|v| v.as_slice()), Some(&b"sys:/bin"[..]));
    e.set(b"PATH", b"sys:/sbin");
    assert_eq!(e.get(b"PATH").map(|v| v.as_slice()), Some(&b"sys:/sbin"[..]));
    assert_eq!(e.len(), 1, "setting an existing key must not duplicate it");
    e.set(b"HOME", b"sys:/home");
    assert_eq!(e.len(), 2);
    e.remove(b"PATH");
    assert!(e.get(b"PATH").is_none());
    assert_eq!(e.get(b"HOME").map(|v| v.as_slice()), Some(&b"sys:/home"[..]));
    e.remove(b"MISSING");
    assert_eq!(e.len(), 1);
    e.clear();
    assert_eq!(e.len(), 0);
    assert!(e.get(b"HOME").is_none());
}

#[test]
fn push_appends_a_fresh_key() {
    let mut e = EnvVars::new();
    e.push(b"A", b"1");
    e.push(b"B", b"2");
    assert_eq!(e.get(b"A").map(|v| v.as_slice()), Some(&b"1"[..]));
    assert_eq!(e.get(b"B").map(|v| v.as_slice()), Some(&b"2"[..]));
    assert_eq!(e.len(), 2);
}
