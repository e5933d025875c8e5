//! The process's own surroundings (`os` module): working directory,
//! environment, arguments, standard input. Absence is an option or an
//! error value, never a sentinel.
//!
//! Reading the surroundings is the host's work: `call` says what is
//! wanted (or answers at once, for the arguments), the host performs the
//! request, and the `*_value` functions turn its reply into the value the
//! program sees.
use crate::text::{
    is_line_without_terminator, lemma_trim_line_end_removes_terminator, str_eq, trim_line_end,
    trim_newlines,
};
use crate::value::{is_err, is_fallible_str, is_str, ErrVal, Fault, Interp, Value};
use vstd::prelude::*;
use vstd::string::*;

verus! {

/// What the host must read for a call of the `os` module.
pub enum OsRequest {
    /// The current working directory.
    Workdir,
    /// The environment variable of this name.
    Env(String),
    /// One line of standard input.
    Readline,
}

/// The outcome of dispatching a call of the `os` module.
pub enum OsStep {
    /// The value of the call, with no reading needed.
    Done(Value),
    /// The host must perform this request and hand back its reply.
    Perform(OsRequest),
}

/// The host's reply to `OsRequest::Workdir`.
pub enum WorkdirReply {
    Path(String),
    /// Reading the directory failed with this message.
    Failed(String),
    /// The path is not valid Unicode.
    NotUnicode,
}

/// The host's reply to `OsRequest::Readline`.
pub enum LineReply {
    /// A line as read, with its line terminator.
    Line(String),
    /// Standard input is at its end.
    Eof,
    /// Reading failed with this message.
    Failed(String),
}

/// An error value with message `msg`.
pub fn err(msg: String) -> (v: Value)
    ensures
        is_err(v, msg@),
{
    Value::ErrV(ErrVal { msg })
}

/// The view of a string result.
pub open spec fn result_view(r: Result<String, String>) -> Result<Seq<char>, Seq<char>> {
    match r {
        Ok(s) => Ok(s@),
        Err(m) => Err(m@),
    }
}

/// The pair `(text, none)` for success, `("", error)` for failure.
pub fn fallible_str(v: Result<String, String>) -> (r: Value)
    ensures
        is_fallible_str(r, result_view(v)),
{
    match v {
        Ok(s) => Value::Tuple(vec![Value::Str(s), Value::NoneV]),
        Err(m) => Value::Tuple(vec![Value::Str(String::new()), err(m)]),
    }
}

/// The fault for a call of the `os` module that names no function or
/// passes it the wrong arguments.
pub open spec fn bad_call_msg(name: Seq<char>) -> Seq<char> {
    "os."@ + name + ": bad arguments"@
}

/// `v` is the list of the program's arguments.
pub open spec fn is_arg_list(v: Value, args: Seq<String>) -> bool {
    v matches Value::List(items) && items@.len() == args.len() && forall|i: int|
        0 <= i < items@.len() ==> is_str(#[trigger] items@[i], args[i]@)
}

fn arg_list(prog_args: &Vec<String>) -> (v: Value)
    ensures
        is_arg_list(v, prog_args@),
{
    let mut items: Vec<Value> = Vec::new();
    let mut i: usize = 0;
    while i < prog_args.len()
        invariant
            0 <= i <= prog_args@.len(),
            items@.len() == i,
            forall|j: int| 0 <= j < i ==> is_str(#[trigger] items@[j], prog_args@[j]@),
        decreases prog_args@.len() - i,
    {
        items.push(Value::Str(prog_args[i].clone()));
        i = i + 1;
    }
    Value::list(items)
}

/// Dispatches a call of the function `name` of the `os` module:
/// `workdir()`, `env(name)`, `args()`, `readline()`.
pub fn call(interp: &Interp, name: &str, args: Vec<Value>) -> (res: Result<OsStep, Fault>)
    ensures
        name@ == "workdir"@ && args.len() == 0 ==> res matches Ok(OsStep::Perform(OsRequest::Workdir)),
        name@ == "env"@ && args.len() == 1 ==> (args@[0] matches Value::Str(n) ==> (
        res matches Ok(OsStep::Perform(OsRequest::Env(m))) && m@ == n@)),
        name@ == "args"@ && args.len() == 0 ==> (res matches Ok(OsStep::Done(v)) && is_arg_list(
            v,
            interp.prog_args@,
        )),
        name@ == "readline"@ && args.len() == 0 ==> res matches Ok(OsStep::Perform(OsRequest::Readline)),
        !(name@ == "workdir"@ && args.len() == 0) && !(name@ == "env"@ && args.len() == 1
            && args@[0] is Str) && !(name@ == "args"@ && args.len() == 0) && !(name@ == "readline"@
            && args.len() == 0) ==> (res matches Err(f) && f.msg@ == bad_call_msg(name@)),
{
    proof {
        reveal_strlit("workdir");
        reveal_strlit("args");
        reveal_strlit("readline");
        reveal_strlit("env");
        assert("workdir"@.len() != "args"@.len() && "workdir"@.len() != "readline"@.len()
            && "args"@.len() != "readline"@.len());
    }
    if args.len() == 0 {
        if str_eq(name, "workdir") {
            return Ok(OsStep::Perform(OsRequest::Workdir));
        }
        if str_eq(name, "args") {
            return Ok(OsStep::Done(arg_list(&interp.prog_args)));
        }
        if str_eq(name, "readline") {
            return Ok(OsStep::Perform(OsRequest::Readline));
        }
    }
    if args.len() == 1 && str_eq(name, "env") {
        if let Value::Str(n) = &args[0] {
            return Ok(OsStep::Perform(OsRequest::Env(n.clone())));
        }
    }
    let mut msg = "os.".to_owned();
    msg.append(name);
    msg.append(": bad arguments");
    Err(interp.fault(msg))
}

/// The value of `workdir()`: the path, or an error naming what failed.
pub fn workdir_value(r: WorkdirReply) -> (v: Value)
    ensures
        r matches WorkdirReply::Path(p) ==> is_fallible_str(v, Ok(p@)),
        r matches WorkdirReply::Failed(e) ==> is_fallible_str(v, Err("workdir: "@ + e@)),
        r is NotUnicode ==> is_fallible_str(v, Err("workdir: path is not valid unicode"@)),
{
    match r {
        WorkdirReply::Path(p) => fallible_str(Ok(p)),
        WorkdirReply::Failed(e) => {
            let mut m = "workdir: ".to_owned();
            m.append(e.as_str());
            fallible_str(Err(m))
        },
        WorkdirReply::NotUnicode => fallible_str(Err("workdir: path is not valid unicode".to_owned())),
    }
}

/// The value of `env(name)`: the variable's text, or none when it is unset
/// (or set to something that is not Unicode).
pub fn env_value(r: Option<String>) -> (v: Value)
    ensures
        r matches Some(s) ==> is_str(v, s@),
        r is None ==> v is NoneV,
{
    match r {
        Some(s) => Value::Str(s),
        None => Value::NoneV,
    }
}

/// The value of `readline()`: the line without its line terminator; at
/// the end of input the error `eof`.
pub fn readline_value(r: LineReply) -> (v: Value)
    ensures
        r matches LineReply::Line(l) ==> is_fallible_str(v, Ok(trim_line_end(l@)))
            && is_line_without_terminator(l@, trim_line_end(l@)),
        r is Eof ==> is_fallible_str(v, Err("eof"@)),
        r matches LineReply::Failed(e) ==> is_fallible_str(v, Err("stdin: "@ + e@)),
{
    match r {
        LineReply::Line(l) => {
            proof {
                lemma_trim_line_end_removes_terminator(l@);
            }
            fallible_str(Ok(trim_newlines(l.as_str())))
        },
        LineReply::Eof => fallible_str(Err("eof".to_owned())),
        LineReply::Failed(e) => {
            let mut m = "stdin: ".to_owned();
            m.append(e.as_str());
            fallible_str(Err(m))
        },
    }
}

} // verus!
