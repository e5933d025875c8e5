//! Cancellation contexts (`ctx` module): a context may carry a deadline
//! and an interrupt flag; it is done once the flag is set or the deadline
//! has passed. Derived contexts never outlive the one they derive from.
use crate::clock::{instant_now, max_duration_nanos, nanos_since};
use crate::text::str_eq;
use crate::value::{is_fault, ErrVal, Fault, Interp, Value};
use std::sync::atomic::{AtomicBool, Ordering};
use std::sync::Arc;
use std::time::Instant;
use vstd::prelude::*;
use vstd::string::*;

verus! {

pub struct CtxInner {
    /// Nanoseconds after the clock origin at which the context expires.
    pub deadline: Option<u128>,
    /// Set when the program is interrupted.
    pub interrupted: Option<Arc<AtomicBool>>,
    /// The instant from which the deadline is measured; contexts derived
    /// from one another share it. `None` until a deadline is first set: a
    /// context without an origin reads its clock as zero.
    pub origin: Option<Instant>,
}

/// The message of an error value, if there is one.
pub open spec fn msg_of(e: Option<ErrVal>) -> Option<Seq<char>> {
    match e {
        Some(v) => Some(v.msg@),
        None => None,
    }
}

/// The deadline of a context derived with a timeout of `d` nanoseconds at
/// time `now` from one whose deadline is `parent`: a negative timeout
/// counts as zero, and the parent's deadline is never extended.
pub open spec fn timeout_deadline(parent: Option<u128>, d: i64, now: int) -> int {
    let new = now + (if d < 0 { 0 } else { d as int });
    match parent {
        None => new,
        Some(p) => if p < new { p as int } else { new },
    }
}

/// Deriving with timeout `d` at time `now` overflows the clock.
pub open spec fn timeout_overflows(d: i64, now: int) -> bool {
    now + (if d < 0 { 0 } else { d as int }) > u128::MAX
}

impl CtxInner {
    /// What the context reports at time `now` (nanoseconds after its clock
    /// origin) when its interrupt flag reads `flag_set`: the interrupt takes
    /// precedence over the deadline.
    pub open spec fn status(&self, now: int, flag_set: bool) -> Option<Seq<char>> {
        if self.interrupted is Some && flag_set {
            Some("interrupted"@)
        } else if self.deadline matches Some(d) && now >= d {
            Some("deadline exceeded"@)
        } else {
            None
        }
    }

    /// A context with no deadline and no interrupt flag (its clock has not
    /// started).
    pub fn background() -> (c: CtxInner)
        ensures
            c.deadline is None,
            c.interrupted is None,
            c.origin is None,
    {
        CtxInner { deadline: None, interrupted: None, origin: None }
    }

    /// The error the context reports at time `now` when its interrupt flag
    /// reads `flag_set`.
    pub fn err_at(&self, now: u128, flag_set: bool) -> (e: Option<ErrVal>)
        ensures
            msg_of(e) == self.status(now as int, flag_set),
    {
        if self.interrupted.is_some() && flag_set {
            return Some(ErrVal { msg: "interrupted".to_owned() });
        }
        match self.deadline {
            Some(d) => {
                if now >= d {
                    Some(ErrVal { msg: "deadline exceeded".to_owned() })
                } else {
                    None
                }
            },
            None => None,
        }
    }

    /// Nanoseconds elapsed since the context's clock origin (zero when the
    /// clock has not started).
    pub fn now_nanos(&self) -> (n: u128)
        ensures
            self.origin is None ==> n == 0,
            n <= max_duration_nanos(),
    {
        match &self.origin {
            Some(o) => nanos_since(o),
            None => 0,
        }
    }

    /// Whether the interrupt flag is set (`false` when there is none).
    fn flag_set(&self) -> (set: bool)
        ensures
            self.interrupted is None ==> !set,
    {
        match &self.interrupted {
            Some(f) => f.load(Ordering::SeqCst),
            None => false,
        }
    }

    /// The error the context reports now: `interrupted` once its interrupt
    /// flag is set, else `deadline exceeded` once its deadline has passed,
    /// else none.
    pub fn err(&self) -> (e: Option<ErrVal>)
        ensures
            exists|now: int, flag_set: bool|
                possible_reading(*self, now) && msg_of(e) == self.status(now, flag_set),
            self.deadline is None && self.interrupted is None ==> e is None,
    {
        let flag = self.flag_set();
        // the clock is only read when there is a deadline to compare with
        let now = if self.deadline.is_some() {
            self.now_nanos()
        } else {
            0
        };
        let e = self.err_at(now, flag);
        assert(msg_of(e) == self.status(now as int, flag));
        if self.deadline.is_none() {
            assert(msg_of(e) == self.status(0, flag));
        }
        e
    }

    /// Nanoseconds left before the deadline at time `now`, if there is a
    /// deadline (zero once it has passed).
    pub fn remaining_at(&self, now: u128) -> (r: Option<u128>)
        ensures
            r == remaining_spec(self.deadline, now as int),
    {
        match self.deadline {
            Some(d) => Some(if d > now { d - now } else { 0 }),
            None => None,
        }
    }

    /// Remaining time budget in nanoseconds, if a deadline is set.
    pub fn remaining(&self) -> (r: Option<u128>)
        ensures
            exists|now: int| possible_reading(*self, now) && r == remaining_spec(self.deadline, now),
            r is Some <==> self.deadline is Some,
            self.deadline matches Some(d) ==> r.unwrap() <= d,
    {
        // the clock is only read when there is a deadline
        let now = if self.deadline.is_some() {
            self.now_nanos()
        } else {
            0
        };
        let r = self.remaining_at(now);
        assert(possible_reading(*self, now as int) && r == remaining_spec(self.deadline, now as int));
        r
    }
}

/// The time left at `now` before `deadline`, if there is one.
pub open spec fn remaining_spec(deadline: Option<u128>, now: int) -> Option<u128> {
    match deadline {
        Some(d) => Some(if d > now { (d - now) as u128 } else { 0 }),
        None => None,
    }
}

fn share_flag(f: &Option<Arc<AtomicBool>>) -> (r: Option<Arc<AtomicBool>>)
    ensures
        r == *f,
{
    match f {
        Some(a) => Some(a.clone()),
        None => None,
    }
}

/// The context derived from `parent` with a timeout of `d` nanoseconds
/// at time `now`: it keeps the parent's interrupt flag and clock origin,
/// and expires at `now + max(d, 0)` or at the parent's deadline, whichever
/// comes first. `None` when that instant does not fit the clock.
pub fn timeout_at(parent: &CtxInner, d: i64, now: u128) -> (r: Option<CtxInner>)
    ensures
        r is None <==> timeout_overflows(d, now as int),
        r matches Some(c) ==> {
            &&& c.deadline == Some(timeout_deadline(parent.deadline, d, now as int) as u128)
            &&& c.interrupted == parent.interrupted
            &&& c.origin == parent.origin
        },
{
    let dur: u128 = if d < 0 {
        0
    } else {
        d as u128
    };
    match now.checked_add(dur) {
        None => None,
        Some(new) => {
            let deadline = match parent.deadline {
                None => new,
                Some(p) => if p < new {
                    p
                } else {
                    new
                },
            };
            Some(
                CtxInner {
                    deadline: Some(deadline),
                    interrupted: share_flag(&parent.interrupted),
                    origin: parent.origin,
                },
            )
        },
    }
}

/// The context derived from `parent` that is also done once the program is
/// interrupted: it keeps the parent's deadline and clock origin and
/// carries the interpreter's interrupt flag.
pub fn interrupt_of(interp: &Interp, parent: &CtxInner) -> (c: CtxInner)
    ensures
        c.deadline == parent.deadline,
        c.interrupted == Some(interp.sigint),
        c.origin == parent.origin,
{
    CtxInner { deadline: parent.deadline, interrupted: Some(interp.sigint_flag()), origin: parent.origin }
}

/// The outcome of deriving a timeout context from `c` at time `now`: the
/// derived context keeps `c`'s interrupt flag and clock origin (starting
/// the clock when `c`'s has not started).
pub open spec fn timeout_outcome(c: CtxInner, d: i64, now: int, res: Result<Value, Fault>) -> bool {
    if timeout_overflows(d, now) {
        is_fault(res, "ctx.timeout: duration out of range"@)
    } else {
        (res matches Ok(Value::Ctx(n)) && n.deadline == Some(timeout_deadline(c.deadline, d, now) as u128)
            && n.interrupted == c.interrupted && n.origin is Some && (c.origin is Some ==> n.origin
            == c.origin))
    }
}

/// A clock reading a context can be read at: the nanoseconds of a
/// `Duration`, and zero when the context's clock has not started.
pub open spec fn possible_reading(c: CtxInner, now: int) -> bool {
    0 <= now <= max_duration_nanos() && (c.origin is None ==> now == 0)
}

fn parent(interp: &Interp, v: &Value) -> (r: Result<Arc<CtxInner>, Fault>)
    ensures
        v matches Value::Ctx(c) ==> r == Ok::<Arc<CtxInner>, Fault>(*c),
        !(v is Ctx) ==> (r matches Err(f) && f.msg@ == "ctx: bad arguments"@),
{
    match v {
        Value::Ctx(c) => Ok(c.clone()),
        _ => Err(interp.fault("ctx: bad arguments".to_owned())),
    }
}

fn timeout(interp: &Interp, p: &Value, d: i64) -> (res: Result<Value, Fault>)
    ensures
        !(p is Ctx) ==> is_fault(res, "ctx: bad arguments"@),
        p matches Value::Ctx(c) ==> exists|now: int|
            possible_reading(**c, now) && timeout_outcome(**c, d, now, res),
        p is Ctx ==> res matches Ok(Value::Ctx(_)),
{
    let c = parent(interp, p)?;
    // a context whose clock has not started starts it now
    let (origin, now): (Instant, u128) = match c.origin {
        Some(o) => (o, nanos_since(&o)),
        None => (instant_now(), 0),
    };
    let started = CtxInner {
        deadline: c.deadline,
        interrupted: share_flag(&c.interrupted),
        origin: Some(origin),
    };
    let res = match timeout_at(&started, d, now) {
        Some(n) => Ok(Value::Ctx(Arc::new(n))),
        None => Err(interp.fault("ctx.timeout: duration out of range".to_owned())),
    };
    assert(!timeout_overflows(d, now as int));
    assert(possible_reading(*c, now as int) && timeout_outcome(*c, d, now as int, res));
    res
}

/// The fault for a call of the `ctx` module that names no function or
/// passes it the wrong arguments.
pub open spec fn bad_call_msg(name: Seq<char>) -> Seq<char> {
    "ctx."@ + name + ": bad arguments"@
}

/// Calls the function `name` of the `ctx` module:
/// `background()`, `timeout(parent, nanos)`, `interrupt(parent)`.
pub fn call(interp: &Interp, name: &str, args: Vec<Value>) -> (res: Result<Value, Fault>)
    ensures
        name@ == "background"@ && args.len() == 0 ==> (res matches Ok(Value::Ctx(c))
            && c.deadline is None && c.interrupted is None && c.origin is None),
        name@ == "timeout"@ && args.len() == 2 ==> (args@[1] matches Value::Int(d) ==> {
            &&& !(args@[0] is Ctx) ==> is_fault(res, "ctx: bad arguments"@)
            &&& args@[0] matches Value::Ctx(p) ==> exists|now: int|
                possible_reading(*p, now) && timeout_outcome(*p, d, now, res)
            &&& args@[0] is Ctx ==> res matches Ok(Value::Ctx(_))
        }),
        name@ == "interrupt"@ && args.len() == 1 ==> {
            &&& !(args@[0] is Ctx) ==> is_fault(res, "ctx: bad arguments"@)
            &&& args@[0] matches Value::Ctx(p) ==> (res matches Ok(Value::Ctx(c)) && c.deadline
                == p.deadline && c.interrupted == Some(interp.sigint) && c.origin
                == p.origin)
        },
        !(name@ == "background"@ && args.len() == 0) && !(name@ == "timeout"@ && args.len() == 2
            && args@[1] is Int) && !(name@ == "interrupt"@ && args.len() == 1) ==> is_fault(
            res,
            bad_call_msg(name@),
        ),
{
    if str_eq(name, "background") && args.len() == 0 {
        return Ok(Value::Ctx(Arc::new(CtxInner::background())));
    }
    if str_eq(name, "timeout") && args.len() == 2 {
        if let Value::Int(d) = &args[1] {
            return timeout(interp, &args[0], *d);
        }
    }
    if str_eq(name, "interrupt") && args.len() == 1 {
        let p = parent(interp, &args[0])?;
        return Ok(Value::Ctx(Arc::new(interrupt_of(interp, &p))));
    }
    let mut msg = "ctx.".to_owned();
    msg.append(name);
    msg.append(": bad arguments");
    Err(interp.fault(msg))
}

/// `res` is the outcome of the method `err` for a context whose status
/// is `status`.
pub open spec fn err_outcome(res: Result<Value, Fault>, status: Option<Seq<char>>) -> bool {
    match status {
        Some(m) => res matches Ok(Value::ErrV(e)) && e.msg@ == m,
        None => res matches Ok(Value::NoneV),
    }
}

/// Calls the method `name` of a context: `done()` reports whether it is
/// done, `err()` the error it reports (or none).
pub fn method(interp: &Interp, c: &CtxInner, name: &str) -> (res: Result<Value, Fault>)
    ensures
        name@ == "done"@ ==> exists|now: int, flag_set: bool|
            possible_reading(*c, now) && res == Ok::<Value, Fault>(Value::Bool(c.status(now, flag_set) is Some)),
        name@ == "err"@ ==> exists|now: int, flag_set: bool|
            possible_reading(*c, now) && err_outcome(res, c.status(now, flag_set)),
        name@ != "done"@ && name@ != "err"@ ==> is_fault(res, "Ctx has no method "@ + name@),
{
    proof {
        reveal_strlit("done");
        reveal_strlit("err");
        assert("done"@.len() != "err"@.len());
    }
    if str_eq(name, "done") {
        let e = c.err();
        return Ok(Value::Bool(e.is_some()));
    }
    if str_eq(name, "err") {
        let e = c.err();
        return Ok(
            match e {
                Some(e) => Value::ErrV(e),
                None => Value::NoneV,
            },
        );
    }
    let mut msg = "Ctx has no method ".to_owned();
    msg.append(name);
    Err(interp.fault(msg))
}

/// A derived context never expires after the context it derives from.
pub proof fn lemma_timeout_within_parent(parent: u128, d: i64, now: int)
    ensures
        timeout_deadline(Some(parent), d, now) <= parent,
{
}

/// A negative timeout counts as a zero timeout.
pub proof fn lemma_negative_timeout_is_zero(parent: Option<u128>, d: i64, now: int)
    requires
        d < 0,
    ensures
        timeout_deadline(parent, d, now) == timeout_deadline(parent, 0, now),
{
}

/// A context derived with a zero timeout at time `now` is done at every
/// later time, whatever its interrupt flag reads.
pub proof fn lemma_zero_timeout_is_done(c: CtxInner, parent: Option<u128>, now: int, later: int, flag_set: bool)
    requires
        c.deadline == Some(timeout_deadline(parent, 0, now) as u128),
        0 <= now <= later,
        now <= u128::MAX,
    ensures
        c.status(later, flag_set) is Some,
{
}

/// Once the interrupt flag of a context that carries one is set, the
/// context reports `interrupted`, whatever its deadline.
pub proof fn lemma_interrupt_wins(c: CtxInner, now: int)
    requires
        c.interrupted is Some,
    ensures
        c.status(now, true) == Some("interrupted"@),
{
}

/// A context with neither a deadline nor an interrupt flag is never done.
pub proof fn lemma_background_never_done(c: CtxInner, now: int, flag_set: bool)
    requires
        c.deadline is None,
        c.interrupted is None,
    ensures
        c.status(now, flag_set) is None,
{
}

/// Without an interrupt, a context with a deadline is done exactly when no
/// time remains.
pub proof fn lemma_done_iff_no_time_left(c: CtxInner, now: int)
    requires
        c.deadline is Some,
        c.interrupted is None,
        0 <= now,
    ensures
        c.status(now, false) is Some <==> remaining_spec(c.deadline, now) == Some(0u128),
{
}

/// Deriving a timeout from a context never fails: no clock reading plus
/// any timeout comes near the top of `u128`.
pub proof fn lemma_timeout_succeeds(c: CtxInner, d: i64, now: int)
    requires
        possible_reading(c, now),
    ensures
        !timeout_overflows(d, now),
{
}

/// A context that is done stays done: at any later reading, and with its
/// interrupt flag still set if it was set, it still reports an error; once
/// it reports `interrupted`, it keeps reporting `interrupted`.
pub proof fn lemma_done_stays_done(c: CtxInner, now: int, later: int, flag: bool, later_flag: bool)
    requires
        now <= later,
        flag ==> later_flag,
    ensures
        c.status(now, flag) is Some ==> c.status(later, later_flag) is Some,
        c.status(now, flag) == Some("interrupted"@) ==> c.status(later, later_flag) == Some(
            "interrupted"@,
        ),
{
}

/// At the same reading, `done` and `err` agree: `done` is true exactly when
/// `err` gives an error value, and false exactly when it gives none.
pub proof fn lemma_done_agrees_with_err(
    c: CtxInner,
    now: int,
    flag: bool,
    done: Result<Value, Fault>,
    err: Result<Value, Fault>,
)
    requires
        done == Ok::<Value, Fault>(Value::Bool(c.status(now, flag) is Some)),
        err_outcome(err, c.status(now, flag)),
    ensures
        done == Ok::<Value, Fault>(Value::Bool(true)) <==> err matches Ok(Value::ErrV(_)),
        done == Ok::<Value, Fault>(Value::Bool(false)) <==> err matches Ok(Value::NoneV),
{
}

} // verus!
