use ipc2::server::next_worker_id;
use ipc2::server::socket_path_at;
use ipc2::server::tmp_socket_path;
use ipc2::util::now;

#[test]
fn socket_path_at_formats_id_and_time() {
    assert_eq!(socket_path_at(7, 1_700_000_000_123), "/tmp/ipc2-7-1700000000123");
    assert_eq!(socket_path_at(0, 0), "/tmp/ipc2-0-0");
    assert_eq!(socket_path_at(10, 9), "/tmp/ipc2-10-9");
    assert_eq!(socket_path_at(u32::MAX, u128::MAX), format!("/tmp/ipc2-{}-{}", u32::MAX, u128::MAX));
}

#[test]
fn socket_paths_differ_by_id_and_time() {
    assert_ne!(socket_path_at(1, 23), socket_path_at(12, 3));
    assert_ne!(socket_path_at(1, 2), socket_path_at(1, 3));
    assert_ne!(socket_path_at(11, 1), socket_path_at(1, 11));
}

#[test]
fn tmp_socket_path_uses_the_clock() {
    let path = match tmp_socket_path(3) {
        Some(p) => p,
        None => panic!("the clock must read after the epoch"),
    };
    let rest = match path.strip_prefix("/tmp/ipc2-3-") {
        Some(r) => r,
        None => panic!("wrong prefix: {}", path),
    };
    assert!(!rest.is_empty());
    assert!(rest.chars().all(|c| c.is_ascii_digit()));
    let millis: u128 = rest.parse().unwrap();
    assert!(millis > 1_600_000_000_000);
}

#[test]
fn now_reads_milliseconds_since_epoch() {
    let t = match now() {
        Some(t) => t,
        None => panic!("the clock must read after the epoch"),
    };
    assert!(t > 1_600_000_000_000);
}

#[test]
fn next_worker_id_counts_and_wraps() {
    let mut counter = 0u32;
    assert_eq!(next_worker_id(&mut counter), 0);
    assert_eq!(next_worker_id(&mut counter), 1);
    assert_eq!(counter, 2);
    let mut top = u32::MAX;
    assert_eq!(next_worker_id(&mut top), u32::MAX);
    assert_eq!(top, 0);
}
