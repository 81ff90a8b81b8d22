use std::path::PathBuf;

use ipc2::manager::WorkerMessageError;
use ipc2::workerset::settle_job;
use ipc2::workerset::settle_unforwarded;
use ipc2::workerset::Recovery;
use ipc2::workerset::ResponseWait;
use ipc2::workerset::TimeoutAction;
use ipc2::workerset::WorkerPool;
use ipc2::workerset::WorkerSetBuilder;
use ipc2::workerset::WorkerSetJobError;

type Builder = WorkerSetBuilder<(), u32, String>;

#[test]
fn default_builder_has_no_path_and_a_worker_per_core() {
    let settings = Builder::default().into_settings();
    assert!(settings.path.is_none());
    assert!(settings.worker_count >= 1);
}

#[test]
fn builder_sets_count_and_path() {
    let settings = Builder::default()
        .worker_count(4)
        .worker_path(PathBuf::from("./target/debug/worker_test"))
        .into_settings();
    assert_eq!(settings.worker_count, 4);
    assert_eq!(settings.path, Some(PathBuf::from("./target/debug/worker_test")));
}

#[test]
fn builder_takes_any_path_like_value() {
    let settings = Builder::default().worker_count(4).worker_path("./target/debug/worker_test").into_settings();
    assert_eq!(settings.path, Some(PathBuf::from("./target/debug/worker_test")));
    assert_eq!(settings.worker_count, 4);
}

#[test]
fn builder_path_then_count_keeps_both() {
    let settings = Builder::default().worker_path(PathBuf::from("/bin/w")).worker_count(2).into_settings();
    assert_eq!(settings.worker_count, 2);
    assert_eq!(settings.path, Some(PathBuf::from("/bin/w")));
}

#[test]
fn for_cpus_gives_one_worker_per_core() {
    let s = Builder::for_cpus(8).into_settings();
    assert_eq!(s.worker_count, 8);
    assert!(s.path.is_none());
    assert_eq!(Builder::for_cpus(u32::MAX as usize).into_settings().worker_count, u32::MAX);
    assert_eq!(Builder::for_cpus(u32::MAX as usize + 1).into_settings().worker_count, u32::MAX);
}

#[test]
fn pool_is_last_in_first_out() {
    let mut pool = WorkerPool::new(vec![1, 2]);
    pool.add_worker(3);
    assert_eq!(pool.len(), 3);
    assert_eq!(pool.pop_worker(), Some(3));
    assert_eq!(pool.pop_worker(), Some(2));
    assert_eq!(pool.pop_worker(), Some(1));
    assert_eq!(pool.pop_worker(), None);
}

#[test]
fn checkout_of_empty_pool_is_no_worker() {
    let mut pool: WorkerPool<u8> = WorkerPool::new(Vec::new());
    assert!(matches!(pool.checkout(), Err(WorkerSetJobError::NoWorker)));
    pool.add_worker(5);
    assert!(matches!(pool.checkout(), Ok(5)));
    assert_eq!(pool.len(), 0);
}

#[test]
fn replace_workers_swaps_the_pool() {
    let mut pool = WorkerPool::new(vec![1, 2]);
    let old = pool.replace_workers(vec![7, 8, 9]);
    assert_eq!(old, vec![1, 2]);
    assert_eq!(pool.len(), 3);
    assert_eq!(pool.pop_worker(), Some(9));
}

#[test]
fn answered_job_puts_worker_back() {
    let (result, recovery) = settle_job(ResponseWait::Answered(11u32), None);
    assert!(matches!(result, Ok(11)));
    assert!(matches!(recovery, Recovery::PutBack));
}

#[test]
fn dropped_job_is_offline_and_respawns() {
    let (result, recovery) = settle_job(ResponseWait::<u32>::Dropped, Some(TimeoutAction::Error));
    assert!(matches!(result, Err(WorkerSetJobError::WorkerMessageError(WorkerMessageError::Offline))));
    assert!(matches!(recovery, Recovery::Respawn));
}

#[test]
fn timeout_with_restart_respawns() {
    let (result, recovery) = settle_job(ResponseWait::<u32>::TimedOut, Some(TimeoutAction::Restart));
    assert!(matches!(result, Err(WorkerSetJobError::Timeout)));
    assert!(matches!(recovery, Recovery::Respawn));
}

#[test]
fn timeout_with_error_puts_worker_back() {
    let (result, recovery) = settle_job(ResponseWait::<u32>::TimedOut, Some(TimeoutAction::Error));
    assert!(matches!(result, Err(WorkerSetJobError::Timeout)));
    assert!(matches!(recovery, Recovery::PutBack));
}

#[test]
fn job_keeps_pool_whole() {
    let mut pool = WorkerPool::new(vec![10, 20, 30]);
    let used = match pool.checkout() {
        Ok(w) => w,
        Err(_) => panic!("a worker is free"),
    };
    assert_eq!(used, 30);
    let (_, recovery) = settle_job(ResponseWait::Answered(()), None);
    match recovery {
        Recovery::PutBack => pool.add_worker(used),
        Recovery::Respawn => pool.add_worker(99),
        Recovery::Discard => {}
    }
    assert_eq!(pool.replace_workers(Vec::new()), vec![10, 20, 30]);
}

#[test]
fn errors_convert_into_job_errors() {
    let e: WorkerSetJobError = WorkerMessageError::Offline.into();
    assert!(matches!(e, WorkerSetJobError::WorkerMessageError(WorkerMessageError::Offline)));
    let io = std::io::Error::new(std::io::ErrorKind::Other, "spawn failed");
    let e: WorkerSetJobError = io.into();
    assert!(matches!(e, WorkerSetJobError::Io(_)));
}

#[test]
fn unforwarded_job_is_offline_and_discards_worker() {
    let (result, recovery) = settle_unforwarded::<u32>(WorkerMessageError::Offline);
    assert!(matches!(result, Err(WorkerSetJobError::WorkerMessageError(WorkerMessageError::Offline))));
    assert!(matches!(recovery, Recovery::Discard));
}

#[test]
fn build_settings_needs_a_path() {
    let none = Builder::default().worker_count(3);
    assert!(!none.has_worker_path());
    let some = none.worker_path("/bin/worker");
    assert!(some.has_worker_path());
    let (path, count) = some.build_settings();
    assert_eq!(path, PathBuf::from("/bin/worker"));
    assert_eq!(count, 3);
}

#[test]
fn in_flight_workers_are_apart() {
    let mut pool = WorkerPool::new(vec![1, 2, 3, 4]);
    let a = pool.checkout().ok().unwrap();
    let b = pool.checkout().ok().unwrap();
    assert_ne!(a, b);
    pool.add_worker(a);
    let rest = pool.replace_workers(Vec::new());
    assert!(!rest.contains(&b));
    assert_eq!(rest, vec![1, 2, 4]);
}

#[test]
fn interleaved_sends_never_share_a_worker() {
    let mut pool = WorkerPool::new(vec![1, 2, 3]);
    let a = pool.checkout().ok().unwrap();
    let b = pool.checkout().ok().unwrap();
    let (_, recovery) = settle_job(ResponseWait::Answered(()), None);
    assert!(matches!(recovery, Recovery::PutBack));
    pool.add_worker(a);
    let c = pool.checkout().ok().unwrap();
    assert_eq!(c, a);
    assert_ne!(c, b);
    let (_, recovery) = settle_job(ResponseWait::<()>::Dropped, None);
    assert!(matches!(recovery, Recovery::Respawn));
    pool.add_worker(7);
    let d = pool.checkout().ok().unwrap();
    assert_eq!(d, 7);
    assert_ne!(d, c);
    assert_eq!(pool.replace_workers(Vec::new()), vec![1]);
}
