use std::cell::RefCell;

use hidpi::context::ThreadContext;

#[test]
fn set_then_get_then_restore() {
    let mut t = ThreadContext::new(-1);
    let prior = t.set_thread_context(-4);
    assert_eq!(prior, -1);
    assert_eq!(t.get_thread_context(), -4);
    t.set_thread_context(-2);
    t.set_thread_context(prior);
    assert_eq!(t.get_thread_context(), -1);
}

#[test]
fn override_restores_after_failed_work() {
    let applied = RefCell::new(Vec::new());
    let mut t = ThreadContext::new(-3);
    let r: Result<u32, String> = t.with_thread_context(
        -2,
        |c| applied.borrow_mut().push(c),
        |c| {
            assert_eq!(c, -2);
            Err("work failed".to_string())
        },
    );
    assert!(r.is_err());
    assert_eq!(t.get_thread_context(), -3);
    assert_eq!(*applied.borrow(), vec![-2, -3]);
}

#[test]
fn override_restores_after_successful_work() {
    let applied = RefCell::new(Vec::new());
    let mut t = ThreadContext::new(-1);
    let r: Result<isize, ()> = t.with_thread_context(-4, |c| applied.borrow_mut().push(c), |c| Ok(c * 10));
    assert_eq!(r, Ok(-40));
    assert_eq!(t.get_thread_context(), -1);
    assert_eq!(*applied.borrow(), vec![-4, -1]);
}
