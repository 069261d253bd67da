use benefice::limits::{mib_to_bytes, Limits};

fn limits() -> Limits {
    Limits {
        size_limit_default: 10,
        size_limit_starred: 50,
        timeout_default: 300,
        timeout_starred: 900,
    }
}

#[test]
fn decide_default_tier() {
    assert_eq!(limits().decide(false), (300, 10));
}

#[test]
fn decide_starred_tier() {
    assert_eq!(limits().decide(true), (900, 50));
}

#[test]
fn mib_to_bytes_exact() {
    assert_eq!(mib_to_bytes(0), 0);
    assert_eq!(mib_to_bytes(10), 10 * 1024 * 1024);
}

#[test]
fn mib_to_bytes_saturates() {
    assert_eq!(mib_to_bytes(usize::MAX), usize::MAX);
}
