use safa_api::sync::cell::LazyCell;
use safa_api::sync::locks::{Mutex, M_AVAILABLE, M_LOCKED, M_WAITED_ON};

#[test]
fn mutex_guards_a_counter() {
    // N logical workers each add K times under the lock; the counter
    // ends exactly at N * K.
    let n = 7u64;
    let k = 11u64;
    let mut m = Mutex::new(0u64);
    for _worker in 0..n {
        for _round in 0..k {
            let g = m.lock();
            *m.get_mut() += 1;
            let wake = m.unlock(g);
            assert!(!wake);
        }
    }
    assert_eq!(*m.get(), n * k);
}

#[test]
fn mutex_fast_path_never_wakes() {
    // An uncontended lock/unlock cycle must not invoke the wake
    // primitive: unlock reports whether a wake call is needed.
    let mut m = Mutex::new(());
    for _ in 0..10 {
        let g = m.lock();
        let wake = m.unlock(g);
        assert!(!wake, "uncontended release must not wake");
    }
}

#[test]
fn mutex_try_lock_fails_while_held() {
    let mut m = Mutex::new(5u32);
    let g = m.lock();
    assert!(m.try_lock().is_none());
    let _ = m.unlock(g);
    let g2 = m.try_lock().unwrap();
    let _ = m.unlock(g2);
}

#[test]
fn mutex_state_constants() {
    assert_eq!(M_AVAILABLE, 0);
    assert_eq!(M_LOCKED, 1);
    assert_eq!(M_WAITED_ON, 2);
}

#[test]
fn lazy_cell_returns_the_initializer_result() {
    let mut c = LazyCell::new(|| 42u32);
    assert_eq!(*c.get(), 42);
    assert_eq!(*c.get(), 42);
}

#[test]
fn lazy_cell_runs_the_initializer_once() {
    let count = std::cell::Cell::new(0u32);
    let mut c = LazyCell::new(|| {
        count.set(count.get() + 1);
        7u64
    });
    let first = *c.get();
    let second = *c.get();
    let third = *c.get();
    assert_eq!(first, 7);
    assert_eq!(second, 7);
    assert_eq!(third, 7);
    assert_eq!(count.get(), 1, "the initializer must run exactly once");
}
