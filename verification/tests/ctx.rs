use ichor::stdlib::ctx::{call, method, timeout_at, CtxInner};
use ichor::value::{Interp, Value};
use std::sync::atomic::{AtomicBool, Ordering};
use std::sync::Arc;

fn interp() -> Interp {
    Interp::new(Vec::new(), Arc::new(AtomicBool::new(false)))
}

#[test]
fn background_is_never_done() {
    let i = interp();
    let bg = call(&i, "background", vec![]).map_err(|f| f.msg).unwrap();
    let Value::Ctx(c) = &bg else { panic!() };
    assert!(c.err().is_none());
}

#[test]
fn zero_timeout_is_immediately_done() {
    let i = interp();
    let bg = call(&i, "background", vec![]).unwrap_or_else(|_| panic!());
    let t = call(&i, "timeout", vec![bg, Value::Int(0)]).map_err(|f| f.msg).unwrap();
    let Value::Ctx(c) = &t else { panic!() };
    let e = c.err().expect("expired ctx must report an error");
    assert!(e.msg.contains("deadline"));
}

#[test]
fn child_timeout_cannot_extend_parent() {
    let i = interp();
    let bg = call(&i, "background", vec![]).unwrap_or_else(|_| panic!());
    let short = call(&i, "timeout", vec![bg, Value::Int(0)]).unwrap_or_else(|_| panic!());
    let long = call(&i, "timeout", vec![short, Value::Int(100_000_000_000)]).unwrap_or_else(|_| panic!());
    let Value::Ctx(c) = &long else { panic!() };
    assert!(c.err().is_some(), "child deadline must clamp to parent");
}

#[test]
fn err_at_reports_deadline_and_interrupt() {
    let bg = CtxInner::background();
    assert!(bg.err_at(5, true).is_none());
    let t = timeout_at(&bg, 10, 100).unwrap();
    assert_eq!(t.deadline, Some(110));
    assert!(t.err_at(109, false).is_none());
    assert_eq!(t.err_at(110, false).unwrap().msg, "deadline exceeded");
    let flagged = CtxInner { deadline: Some(110), interrupted: Some(Arc::new(AtomicBool::new(true))), origin: bg.origin };
    assert_eq!(flagged.err_at(0, true).unwrap().msg, "interrupted");
    assert_eq!(flagged.err_at(200, true).unwrap().msg, "interrupted");
    assert_eq!(flagged.err_at(200, false).unwrap().msg, "deadline exceeded");
}

#[test]
fn timeout_clamps_negative_and_keeps_earlier_parent_deadline() {
    let bg = CtxInner::background();
    let neg = timeout_at(&bg, -5, 40).unwrap();
    assert_eq!(neg.deadline, Some(40));
    let parent = timeout_at(&bg, 10, 0).unwrap();
    let child = timeout_at(&parent, 1000, 5).unwrap();
    assert_eq!(child.deadline, Some(10));
    let sooner = timeout_at(&parent, 1, 5).unwrap();
    assert_eq!(sooner.deadline, Some(6));
}

#[test]
fn timeout_overflow_is_refused() {
    let bg = CtxInner::background();
    assert!(timeout_at(&bg, i64::MAX, u128::MAX - 1).is_none());
    assert!(timeout_at(&bg, 1, u128::MAX - 1).is_some());
}

#[test]
fn remaining_counts_down_to_zero() {
    let bg = CtxInner::background();
    assert_eq!(bg.remaining_at(7), None);
    assert_eq!(bg.remaining(), None);
    let t = timeout_at(&bg, 50, 10).unwrap();
    assert_eq!(t.remaining_at(20), Some(40));
    assert_eq!(t.remaining_at(60), Some(0));
    assert_eq!(t.remaining_at(100), Some(0));
    let far = timeout_at(&bg, 3_600_000_000_000, 0).unwrap();
    assert!(far.remaining().unwrap() > 0);
}

#[test]
fn interrupt_ctx_reports_interrupted_once_flag_is_set() {
    let flag = Arc::new(AtomicBool::new(false));
    let i = Interp::new(Vec::new(), flag.clone());
    let bg = call(&i, "background", vec![]).unwrap_or_else(|_| panic!());
    let ic = call(&i, "interrupt", vec![bg]).unwrap_or_else(|_| panic!());
    let Value::Ctx(c) = &ic else { panic!() };
    assert!(c.deadline.is_none());
    assert!(c.err().is_none());
    let done = method(&i, c, "done").unwrap_or_else(|_| panic!());
    assert!(matches!(done, Value::Bool(false)));
    flag.store(true, Ordering::SeqCst);
    let done = method(&i, c, "done").unwrap_or_else(|_| panic!());
    assert!(matches!(done, Value::Bool(true)));
    let e = method(&i, c, "err").unwrap_or_else(|_| panic!());
    match e {
        Value::ErrV(e) => assert_eq!(e.msg, "interrupted"),
        _ => panic!(),
    }
}

#[test]
fn err_method_of_live_ctx_is_none() {
    let i = interp();
    let bg = call(&i, "background", vec![]).unwrap_or_else(|_| panic!());
    let Value::Ctx(c) = &bg else { panic!() };
    assert!(matches!(method(&i, c, "err").unwrap_or_else(|_| panic!()), Value::NoneV));
    assert!(matches!(method(&i, c, "done").unwrap_or_else(|_| panic!()), Value::Bool(false)));
}

#[test]
fn bad_ctx_calls_fault() {
    let i = interp();
    let f = call(&i, "nope", vec![]).err().unwrap();
    assert_eq!(f.msg, "ctx.nope: bad arguments");
    let f = call(&i, "background", vec![Value::Int(1)]).err().unwrap();
    assert_eq!(f.msg, "ctx.background: bad arguments");
    let f = call(&i, "timeout", vec![Value::Int(1), Value::Int(1)]).err().unwrap();
    assert_eq!(f.msg, "ctx: bad arguments");
    let f = call(&i, "interrupt", vec![Value::Bool(true)]).err().unwrap();
    assert_eq!(f.msg, "ctx: bad arguments");
    let bg = CtxInner::background();
    let f = method(&i, &bg, "cancel").err().unwrap();
    assert_eq!(f.msg, "Ctx has no method cancel");
}

#[test]
fn background_clock_starts_at_first_timeout() {
    let i = interp();
    let bg = call(&i, "background", vec![]).unwrap_or_else(|_| panic!());
    let Value::Ctx(b) = &bg else { panic!() };
    assert!(b.origin.is_none());
    assert_eq!(b.now_nanos(), 0);
    let t = call(&i, "timeout", vec![bg, Value::Int(-3)]).unwrap_or_else(|_| panic!());
    let Value::Ctx(c) = &t else { panic!() };
    assert!(c.origin.is_some());
    assert_eq!(c.deadline, Some(0));
}

#[test]
fn done_stays_done_as_time_passes() {
    let bg = CtxInner::background();
    let t = timeout_at(&bg, 10, 0).unwrap();
    assert!(t.err_at(10, false).is_some());
    assert!(t.err_at(11, false).is_some());
    assert!(t.err_at(u128::MAX, false).is_some());
    let i = interp();
    let started = call(&i, "timeout", vec![call(&i, "background", vec![]).unwrap_or_else(|_| panic!()), Value::Int(1_000_000_000_000)]).unwrap_or_else(|_| panic!());
    let nested = call(&i, "timeout", vec![started, Value::Int(i64::MAX)]);
    assert!(matches!(nested, Ok(Value::Ctx(_))));
}
