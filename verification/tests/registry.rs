use watchrun::errors::WatcherError;
use watchrun::paths::dedup_paths;
use watchrun::registry::Registry;
use watchrun::registry::WatchedFile;
use watchrun::registry::fingerprint_file;

fn file_for(path: &str, content: &[u8]) -> WatchedFile {
    fingerprint_file(path.to_string(), Ok(content.to_vec()))
        .expect("fingerprinting provided bytes succeeds")
}

#[test]
fn register_and_resolve_round_trip() {
    let mut reg = Registry::new();
    assert_eq!(reg.len(), 0);
    reg.register(1, file_for("a", b"aa"));
    assert_eq!(reg.len(), 1);
    match reg.resolve(1) {
        Ok(file) => assert_eq!(file.path, "a"),
        Err(_) => panic!("a registered handle must resolve"),
    }
    assert_eq!(reg.len(), 0);
}

#[test]
fn unknown_handle_is_a_consistency_error() {
    let mut reg = Registry::new();
    reg.register(1, file_for("a", b"aa"));
    match reg.resolve(42) {
        Err(WatcherError::Consistency { handle }) => assert_eq!(handle, 42),
        _ => panic!("an unknown handle must be reported as a consistency violation"),
    }
    assert_eq!(reg.len(), 1);
}

#[test]
fn startup_tracks_each_distinct_path_once() {
    let input: Vec<String> = vec!["a".to_string(), "a".to_string(), "b".to_string()];
    let paths = dedup_paths(&input);
    assert_eq!(paths, vec!["a".to_string(), "b".to_string()]);

    let mut reg = Registry::new();
    let mut handle: i32 = 1;
    for p in &paths {
        reg.register(handle, file_for(p, p.as_bytes()));
        handle += 1;
    }
    assert_eq!(reg.len(), 2);
}

#[test]
fn unchanged_content_is_not_reported() {
    // A watched file fires a notification, but re-reading yields the same
    // bytes: the watch is re-armed, nothing reaches the command runner.
    let mut reg = Registry::new();
    reg.register(1, file_for("/tmp/a.txt", b"hello"));

    let mut changed: Vec<String> = Vec::new();
    let previous = reg.resolve(1).expect("handle 1 is registered");
    let fresh = file_for("/tmp/a.txt", b"hello");
    reg.reinstate(&previous.fingerprint, fresh, 2, &mut changed);

    assert!(changed.is_empty());
    assert_eq!(reg.len(), 1);
    let still = reg.resolve(2).expect("the path stays under observation");
    assert_eq!(still.path, "/tmp/a.txt");
}

#[test]
fn changed_content_is_reported_exactly_once() {
    // Appending a byte changes the fingerprint: exactly one entry reaches the
    // changed list, and the path stays under observation.
    let mut reg = Registry::new();
    reg.register(1, file_for("/tmp/a.txt", b"hello"));

    let mut changed: Vec<String> = Vec::new();
    let previous = reg.resolve(1).expect("handle 1 is registered");
    let fresh = file_for("/tmp/a.txt", b"hello!");
    reg.reinstate(&previous.fingerprint, fresh, 2, &mut changed);

    assert_eq!(changed, vec!["/tmp/a.txt".to_string()]);
    assert_eq!(reg.len(), 1);

    // A later notification with again-unchanged content adds nothing.
    let previous = reg.resolve(2).expect("handle 2 is registered");
    let fresh = file_for("/tmp/a.txt", b"hello!");
    reg.reinstate(&previous.fingerprint, fresh, 3, &mut changed);
    assert_eq!(changed, vec!["/tmp/a.txt".to_string()]);
}

#[test]
fn batch_keeps_arrival_order() {
    // Two notifications drained in order x, y both carry real changes: the
    // changed list hands the runner x first, then y.
    let mut reg = Registry::new();
    reg.register(1, file_for("x", b"x1"));
    reg.register(2, file_for("y", b"y1"));

    let mut changed: Vec<String> = Vec::new();

    let prev_x = reg.resolve(1).expect("handle 1 is registered");
    let fresh_x = file_for("x", b"x2");
    reg.reinstate(&prev_x.fingerprint, fresh_x, 3, &mut changed);

    let prev_y = reg.resolve(2).expect("handle 2 is registered");
    let fresh_y = file_for("y", b"y2");
    reg.reinstate(&prev_y.fingerprint, fresh_y, 4, &mut changed);

    assert_eq!(changed, vec!["x".to_string(), "y".to_string()]);
    assert_eq!(reg.len(), 2);
}

#[test]
fn cycles_keep_one_watch_per_path() {
    // Over several completed wake-up cycles the registry keeps exactly one
    // armed watch per input path.
    let mut reg = Registry::new();
    reg.register(1, file_for("a", b"1"));
    reg.register(2, file_for("b", b"2"));

    let mut next_handle: i32 = 3;
    let mut fired = vec![1, 2];
    for round in 0..3u8 {
        let mut changed: Vec<String> = Vec::new();
        let mut rearmed = Vec::new();
        for h in fired {
            let previous = reg.resolve(h).expect("every fired handle is registered");
            let fresh = file_for(&previous.path, &[round]);
            reg.reinstate(&previous.fingerprint, fresh, next_handle, &mut changed);
            rearmed.push(next_handle);
            next_handle += 1;
        }
        fired = rearmed;
        assert_eq!(reg.len(), 2);
    }
    let a = reg.resolve(fired[0]).expect("path a stays under observation");
    let b = reg.resolve(fired[1]).expect("path b stays under observation");
    let mut observed = vec![a.path, b.path];
    observed.sort();
    assert_eq!(observed, vec!["a".to_string(), "b".to_string()]);
}
