use std::collections::HashSet;
use std::sync::{Arc, Mutex};

use globchat::state::{ConnectedClients, Snowflakes};
use tokio::runtime::Builder;

#[test]
fn ids_from_many_tasks_behind_one_lock_are_all_different() {
    let runtime = Builder::new_multi_thread().worker_threads(4).build().unwrap();
    let shared = Arc::new(Mutex::new(Snowflakes::new(1, 1)));
    let mut workers = Vec::new();
    for _ in 0..4 {
        let source = Arc::clone(&shared);
        workers.push(runtime.spawn_blocking(move || {
            let mut mine = Vec::new();
            for _ in 0..2000 {
                let mut guard = source.lock().unwrap();
                assert!(guard.has_room());
                mine.push(guard.generate());
            }
            mine
        }));
    }
    let mut all = HashSet::new();
    for worker in workers {
        let mine = runtime.block_on(worker).unwrap();
        for pair in mine.windows(2) {
            assert!(pair[0] < pair[1]);
        }
        for id in mine {
            assert!(all.insert(id));
        }
    }
    assert_eq!(all.len(), 8000);
}

#[test]
fn presence_from_many_tasks_behind_one_lock_leaves_no_entry() {
    let runtime = Builder::new_multi_thread().worker_threads(4).build().unwrap();
    let shared = Arc::new(Mutex::new(ConnectedClients::new()));
    let mut workers = Vec::new();
    for id in 0..4 {
        let registry = Arc::clone(&shared);
        workers.push(runtime.spawn_blocking(move || {
            for _ in 0..200 {
                registry.lock().unwrap().insert(id);
                registry.lock().unwrap().insert(id);
                registry.lock().unwrap().pop(id);
            }
        }));
    }
    for worker in workers {
        runtime.block_on(worker).unwrap();
    }
    let registry = shared.lock().unwrap();
    assert_eq!(registry.len(), 0);
}
