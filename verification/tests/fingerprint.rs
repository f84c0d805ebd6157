use sha2::Digest;
use watchrun::digest::digest_eq;
use watchrun::digest::fingerprint_bytes;
use watchrun::errors::WatcherError;
use watchrun::registry::fingerprint_file;

#[test]
fn fingerprint_matches_reference_digest() {
    let expected: [u8; 32] = sha2::Sha256::digest(b"hello").into();
    let got = fingerprint_bytes(b"hello");
    assert_eq!(got, expected);
}

#[test]
fn fingerprint_differs_for_different_bytes() {
    let a = fingerprint_bytes(b"hello");
    let b = fingerprint_bytes(b"hello!");
    assert_ne!(a, b);
}

#[test]
fn fingerprint_stable_for_same_bytes() {
    let a = fingerprint_bytes(b"same content");
    let b = fingerprint_bytes(b"same content");
    assert_eq!(a, b);
}

#[test]
fn digest_eq_agrees_with_equality() {
    let a = fingerprint_bytes(b"one");
    let b = fingerprint_bytes(b"one");
    let c = fingerprint_bytes(b"two");
    assert!(digest_eq(&a, &b));
    assert!(!digest_eq(&a, &c));
}

#[test]
fn fingerprint_file_carries_path_and_digest() {
    let expected: [u8; 32] = sha2::Sha256::digest(b"content").into();
    match fingerprint_file("/tmp/a.txt".to_string(), Ok(b"content".to_vec())) {
        Ok(file) => {
            assert_eq!(file.path, "/tmp/a.txt");
            assert_eq!(file.fingerprint, expected);
        }
        Err(_) => panic!("fingerprinting readable content must succeed"),
    }
}

#[test]
fn unreadable_file_reports_read_error_naming_path() {
    let r = fingerprint_file(
        "/tmp/missing.txt".to_string(),
        Err("No such file or directory".to_string()),
    );
    match r {
        Err(WatcherError::Read { path, cause }) => {
            assert_eq!(path, "/tmp/missing.txt");
            assert_eq!(cause, "No such file or directory");
        }
        _ => panic!("a failed read must become a read error naming the path"),
    }
}
