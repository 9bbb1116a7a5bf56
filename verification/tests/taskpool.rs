use std::sync::atomic::{AtomicBool, AtomicUsize, Ordering};
use std::sync::Arc;
use std::time::Duration;

use hackshell::error::{HackshellError, JoinFailure};
use hackshell::host::JoinOutcome;
use hackshell::taskpool::{settle_outcome, TaskPool};

fn runtime() -> tokio::runtime::Runtime {
    tokio::runtime::Builder::new_multi_thread().enable_time().build().unwrap()
}

fn nap(rt: &tokio::runtime::Runtime, ms: u64) {
    rt.block_on(async { tokio::time::sleep(Duration::from_millis(ms)).await });
}

fn busy_ms(ms: u64) {
    let t = std::time::Instant::now();
    while (t.elapsed().as_millis() as u64) < ms {}
}

#[test]
fn test_spawn_and_execute_task() {
    let rt = runtime();
    let _g = rt.enter();
    let mut pool: TaskPool<i32> = TaskPool::default();
    let executed = Arc::new(AtomicBool::new(false));
    let executed_clone = executed.clone();

    let r = pool.spawn("test_task", move |run| {
        while run.should_run() {
            executed_clone.store(true, Ordering::Relaxed);
            break;
        }
        None
    });
    assert!(r.is_ok());

    nap(&rt, 50);
    assert!(executed.load(Ordering::Relaxed));
}

#[test]
fn test_task_metadata() {
    let rt = runtime();
    let _g = rt.enter();
    let mut pool: TaskPool<i32> = TaskPool::default();
    let task_name = "metadata_test";

    pool.spawn(task_name, |run| {
        while run.should_run() {
            busy_ms(10);
        }
        None
    })
    .unwrap();

    let tasks = pool.get_all();
    assert_eq!(tasks.len(), 1);

    let task = &tasks[0];
    assert_eq!(task.name, task_name);
    assert!(task.started <= chrono::Utc::now().timestamp_millis());

    pool.remove(task_name).unwrap();
}

#[test]
fn test_remove_task() {
    let rt = runtime();
    let _g = rt.enter();
    let mut pool: TaskPool<i32> = TaskPool::default();
    let still_running = Arc::new(AtomicBool::new(true));
    let still_running_clone = still_running.clone();

    pool.spawn("removable_task", move |run| {
        while run.should_run() {
            busy_ms(10);
        }
        still_running_clone.store(false, Ordering::Relaxed);
        None
    })
    .unwrap();

    nap(&rt, 50);
    assert!(still_running.load(Ordering::Relaxed));

    // Remove the task
    assert!(pool.remove("removable_task").is_ok());

    // Give time for the task to stop
    nap(&rt, 100);
    assert!(!still_running.load(Ordering::Relaxed));

    // Task should no longer be in the pool
    let tasks = pool.get_all();
    assert_eq!(tasks.len(), 0);
}

#[test]
fn test_remove_nonexistent_task() {
    let mut pool: TaskPool<i32> = TaskPool::default();
    assert!(pool.remove("nonexistent").is_err());
}

#[test]
fn test_join_for_task() {
    let rt = runtime();
    let _g = rt.enter();
    let mut pool: TaskPool<i32> = TaskPool::default();
    let completed = Arc::new(AtomicBool::new(false));
    let completed_clone = completed.clone();

    pool.spawn("join_task", move |_run| {
        busy_ms(100);
        completed_clone.store(true, Ordering::Relaxed);
        None
    })
    .unwrap();

    // Wait should block until task completes
    assert!(pool.join("join_task").is_ok());
    assert!(completed.load(Ordering::Relaxed));

    // Task should be automatically removed after completion
    let tasks = pool.get_all();
    assert_eq!(tasks.len(), 0);
}

#[test]
fn test_join_for_nonexistent_task() {
    // Joining a name that is not registered fails immediately with the
    // explicit error, without blocking.
    let mut pool: TaskPool<i32> = TaskPool::default();
    assert!(matches!(pool.join("nonexistent"), Err(HackshellError::TaskNotFound)));
}

#[test]
fn test_spawn_with_same_name_kills_previous() {
    let rt = runtime();
    let _g = rt.enter();
    let mut pool: TaskPool<i32> = TaskPool::default();
    let first_task_running = Arc::new(AtomicBool::new(true));
    let first_task_running_clone = first_task_running.clone();
    let second_task_started = Arc::new(AtomicBool::new(false));
    let second_task_started_clone = second_task_started.clone();

    // Spawn first task
    pool.spawn("duplicate_name", move |run| {
        while run.should_run() {
            busy_ms(10);
        }
        first_task_running_clone.store(false, Ordering::Relaxed);
        None
    })
    .unwrap();

    nap(&rt, 50);
    assert!(first_task_running.load(Ordering::Relaxed));

    // Spawn second task with same name
    pool.spawn("duplicate_name", move |_run| {
        second_task_started_clone.store(true, Ordering::Relaxed);
        busy_ms(50);
        None
    })
    .unwrap();

    nap(&rt, 100);

    // First task should be killed
    assert!(!first_task_running.load(Ordering::Relaxed));
    // Second task should have started
    assert!(second_task_started.load(Ordering::Relaxed));
}

#[test]
fn test_multiple_tasks() {
    let rt = runtime();
    let _g = rt.enter();
    let mut pool: TaskPool<i32> = TaskPool::default();
    let counter = Arc::new(AtomicUsize::new(0));

    for i in 0..5 {
        let counter_clone = counter.clone();
        pool.spawn(&format!("task_{}", i), move |_run| {
            counter_clone.fetch_add(1, Ordering::Relaxed);
            busy_ms(50);
            None
        })
        .unwrap();
    }

    nap(&rt, 200);

    // All tasks should have incremented the counter
    assert_eq!(counter.load(Ordering::Relaxed), 5);

    // All tasks should've ended
    let tasks = pool.get_all();
    assert_eq!(tasks.len(), 0);
}

#[test]
fn test_auto_removal_on_completion() {
    let rt = runtime();
    let _g = rt.enter();
    let mut pool: TaskPool<i32> = TaskPool::default();

    pool.spawn("auto_remove", |_run| {
        // Task completes immediately
        None
    })
    .unwrap();

    nap(&rt, 100);

    // Task should be automatically removed after completion
    let tasks = pool.get_all();
    assert_eq!(tasks.len(), 0);
}

#[test]
fn test_spawn_async_task() {
    let rt = runtime();
    let _g = rt.enter();
    let mut pool: TaskPool<i32> = TaskPool::default();
    let executed = Arc::new(AtomicBool::new(false));
    let executed_clone = executed.clone();

    pool.spawn_async("async_task", async move {
        tokio::time::sleep(Duration::from_millis(50)).await;
        executed_clone.store(true, Ordering::Relaxed);
        None
    })
    .unwrap();

    nap(&rt, 100);
    assert!(executed.load(Ordering::Relaxed));
}

#[test]
fn test_async_task_metadata() {
    let rt = runtime();
    let _g = rt.enter();
    let mut pool: TaskPool<i32> = TaskPool::default();

    pool.spawn_async("async_metadata_test", async {
        tokio::time::sleep(Duration::from_millis(100)).await;
        None
    })
    .unwrap();

    let tasks = pool.get_all();
    assert_eq!(tasks.len(), 1);
    assert_eq!(tasks[0].name, "async_metadata_test");

    pool.remove("async_metadata_test").unwrap();
}

#[test]
fn test_kill_async_task() {
    let rt = runtime();
    let _g = rt.enter();
    let mut pool: TaskPool<i32> = TaskPool::default();
    let still_running = Arc::new(AtomicBool::new(true));
    let still_running_clone = still_running.clone();

    pool.spawn_async("killable_async", async move {
        tokio::time::sleep(Duration::from_secs(10)).await;
        still_running_clone.store(false, Ordering::Relaxed);
        None
    })
    .unwrap();

    nap(&rt, 50);
    assert!(still_running.load(Ordering::Relaxed));

    // Kill the task
    assert!(pool.remove("killable_async").is_ok());

    nap(&rt, 100);
    // Variable should still be "running" (true) because task was aborted, not completed
    assert!(still_running.load(Ordering::Relaxed));
}

#[test]
fn test_join_async_task() {
    let rt = runtime();
    let _g = rt.enter();
    let mut pool: TaskPool<i32> = TaskPool::default();
    let completed = Arc::new(AtomicBool::new(false));
    let completed_clone = completed.clone();

    pool.spawn_async("join_async", async move {
        tokio::time::sleep(Duration::from_millis(100)).await;
        completed_clone.store(true, Ordering::Relaxed);
        None
    })
    .unwrap();

    assert!(pool.join_async("join_async").is_ok());
    assert!(completed.load(Ordering::Relaxed));
}

#[test]
fn test_async_auto_removal() {
    let rt = runtime();
    let _g = rt.enter();
    let mut pool: TaskPool<i32> = TaskPool::default();

    pool.spawn_async("async_auto_remove", async {
        tokio::time::sleep(Duration::from_millis(50)).await;
        None
    })
    .unwrap();

    nap(&rt, 100);

    // Task should be automatically removed after completion
    let tasks = pool.get_all();
    assert_eq!(tasks.len(), 0);
}

#[test]
fn test_mixed_sync_and_async_tasks() {
    let rt = runtime();
    let _g = rt.enter();
    let mut pool: TaskPool<i32> = TaskPool::default();
    let sync_counter = Arc::new(AtomicUsize::new(0));
    let async_counter = Arc::new(AtomicUsize::new(0));

    let sync_counter_clone = sync_counter.clone();
    pool.spawn("sync_task", move |_run| {
        sync_counter_clone.fetch_add(1, Ordering::Relaxed);
        None
    })
    .unwrap();

    let async_counter_clone = async_counter.clone();
    pool.spawn_async("async_task", async move {
        async_counter_clone.fetch_add(1, Ordering::Relaxed);
        None
    })
    .unwrap();

    assert!(pool.join("sync_task").is_ok());
    assert!(pool.join_async("async_task").is_ok());

    assert_eq!(sync_counter.load(Ordering::Relaxed), 1);
    assert_eq!(async_counter.load(Ordering::Relaxed), 1);

    // Both tasks should have auto-removed
    assert_eq!(pool.get_all().len(), 0);
}

#[test]
fn scenario_blocking_remove_is_immediate() {
    // Spawn a blocking task that sleeps in short slices; the listing shows
    // it at once, and after a remove the listing is empty at once, even
    // though the worker thread may still be sleeping.
    let rt = runtime();
    let _g = rt.enter();
    let mut pool: TaskPool<i32> = TaskPool::default();

    pool.spawn("t1", |_run| {
        for _ in 0..5 {
            busy_ms(10);
        }
        None
    })
    .unwrap();

    let tasks = pool.get_all();
    assert_eq!(tasks.len(), 1);
    assert_eq!(tasks[0].name, "t1");

    assert!(pool.remove("t1").is_ok());
    assert_eq!(pool.get_all().len(), 0);
}

#[test]
fn scenario_async_join_returns_value() {
    // A scheduled task's output comes back through join_async exactly
    // once, and the task has removed itself from the next listing.
    let rt = runtime();
    let _g = rt.enter();
    let mut pool: TaskPool<i32> = TaskPool::default();

    pool.spawn_async("t2", async {
        tokio::time::sleep(Duration::from_millis(100)).await;
        Some(42)
    })
    .unwrap();

    let r = pool.join_async("t2");
    assert!(matches!(r, Ok(Some(42))));
    assert_eq!(pool.get_all().len(), 0);
}

#[test]
fn scenario_panicked_task_reports_panic() {
    // A body that panics is reported as such by join, with its payload.
    let rt = runtime();
    let _g = rt.enter();
    let mut pool: TaskPool<i32> = TaskPool::default();

    pool.spawn("t3", |_run| panic!("boom")).unwrap();

    match pool.join("t3") {
        Err(HackshellError::JoinFailure(JoinFailure::TaskPanicked(Some(msg)))) => {
            assert_eq!(msg, "boom");
        },
        other => panic!("expected a panic report, got {:?}", other),
    }
    // The failed task was unregistered by the join.
    assert_eq!(pool.get_all().len(), 0);
}

#[test]
fn scenario_second_join_already_joining() {
    // The completion cell is take-once: after a successful join, a second
    // join on the same entry reports it as already joined.
    let rt = runtime();
    let _g = rt.enter();
    let mut pool: TaskPool<i32> = TaskPool::default();

    pool.spawn_async("t5", async { Some(7) }).unwrap();

    let first = pool.join_async("t5");
    assert!(matches!(first, Ok(Some(7))));

    let second = pool.join_async("t5");
    assert!(matches!(second, Err(HackshellError::JoinFailure(JoinFailure::AlreadyJoining))));

    let third = pool.join("t5");
    assert!(matches!(third, Err(HackshellError::JoinFailure(JoinFailure::AlreadyJoining))));

    // The consumed entry is gone at the next snapshot.
    assert_eq!(pool.get_all().len(), 0);
    assert!(matches!(pool.join("t5"), Err(HackshellError::TaskNotFound)));
}

#[test]
fn settle_outcome_maps_each_report() {
    // The executor's report decides the join's result exactly: the output
    // passes through, a panic payload is kept, an abort is reported as
    // such.
    assert!(matches!(settle_outcome::<i32>(JoinOutcome::Done(Some(42))), Ok(Some(42))));
    assert!(matches!(settle_outcome::<i32>(JoinOutcome::Done(None)), Ok(None)));
    match settle_outcome::<i32>(JoinOutcome::Panicked(Some("boom".to_string()))) {
        Err(HackshellError::JoinFailure(JoinFailure::TaskPanicked(Some(m)))) => {
            assert_eq!(m, "boom");
        },
        other => panic!("unexpected: {:?}", other),
    }
    assert!(matches!(
        settle_outcome::<i32>(JoinOutcome::Panicked(None)),
        Err(HackshellError::JoinFailure(JoinFailure::TaskPanicked(None)))
    ));
    assert!(matches!(
        settle_outcome::<i32>(JoinOutcome::Cancelled),
        Err(HackshellError::JoinFailure(JoinFailure::Cancelled))
    ));
}

#[test]
fn scenario_respawn_new_id() {
    // Respawning under an occupied name leaves exactly one entry, with a
    // fresh id.
    let rt = runtime();
    let _g = rt.enter();
    let mut pool: TaskPool<i32> = TaskPool::default();

    pool.spawn("dup", |run| {
        while run.should_run() {
            busy_ms(10);
        }
        None
    })
    .unwrap();
    let first = pool.get_all();
    assert_eq!(first.len(), 1);
    let first_id = first[0].id;

    pool.spawn("dup", |run| {
        while run.should_run() {
            busy_ms(10);
        }
        None
    })
    .unwrap();
    let second = pool.get_all();
    assert_eq!(second.len(), 1);
    assert_eq!(second[0].name, "dup");
    assert!(second[0].id > first_id);

    pool.remove("dup").unwrap();
}

#[test]
fn scenario_removed_async_side_effect_never_observed() {
    // Removing a scheduled task returns promptly and aborts it: the side
    // effect its body would have produced after a long sleep never shows.
    let rt = runtime();
    let _g = rt.enter();
    let mut pool: TaskPool<i32> = TaskPool::default();
    let side_effect = Arc::new(AtomicBool::new(false));
    let side_effect_clone = side_effect.clone();

    pool.spawn_async("t4", async move {
        tokio::time::sleep(Duration::from_secs(10)).await;
        side_effect_clone.store(true, Ordering::Relaxed);
        None
    })
    .unwrap();

    assert!(pool.remove("t4").is_ok());
    assert_eq!(pool.get_all().len(), 0);

    nap(&rt, 200);
    assert!(!side_effect.load(Ordering::Relaxed));
}

#[test]
fn scenario_list_length_tracks_spawns_and_removes() {
    // The snapshot's length equals tasks spawned minus tasks removed, as
    // observed at a single point.
    let rt = runtime();
    let _g = rt.enter();
    let mut pool: TaskPool<i32> = TaskPool::default();

    for name in ["a", "b", "c"] {
        pool.spawn(name, |run| {
            while run.should_run() {
                busy_ms(10);
            }
            None
        })
        .unwrap();
    }
    assert_eq!(pool.get_all().len(), 3);

    pool.remove("b").unwrap();
    assert_eq!(pool.get_all().len(), 2);

    pool.spawn("b", |run| {
        while run.should_run() {
            busy_ms(10);
        }
        None
    })
    .unwrap();
    assert_eq!(pool.get_all().len(), 3);

    for name in ["a", "b", "c"] {
        pool.remove(name).unwrap();
    }
    assert_eq!(pool.get_all().len(), 0);
}

#[test]
fn join_async_on_blocking_task_is_refused() {
    // A blocking task's completion cell is not offered on the cooperative
    // path.
    let rt = runtime();
    let _g = rt.enter();
    let mut pool: TaskPool<i32> = TaskPool::default();

    pool.spawn("b1", |run| {
        while run.should_run() {
            busy_ms(10);
        }
        None
    })
    .unwrap();

    let r = pool.join_async("b1");
    assert!(matches!(r, Err(HackshellError::JoinFailure(JoinFailure::CannotJoinAsync))));

    pool.remove("b1").unwrap();
}

#[test]
fn spawn_without_runtime_is_refused() {
    // With no reachable executor the pool cannot run a task and says so.
    let mut pool: TaskPool<i32> = TaskPool::default();
    let r = pool.spawn("nope", |_run| None);
    assert!(matches!(
        r,
        Err(HackshellError::JoinFailure(JoinFailure::SchedulerUnavailable))
    ));
    assert_eq!(pool.get_all().len(), 0);
}
