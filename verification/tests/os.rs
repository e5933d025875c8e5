use ichor::stdlib::os::{call, env_value, err, fallible_str, readline_value, workdir_value, LineReply, OsRequest, OsStep, WorkdirReply};
use ichor::value::{Interp, Value};
use std::sync::atomic::AtomicBool;
use std::sync::Arc;

fn interp(args: Vec<&str>) -> Interp {
    Interp::new(args.into_iter().map(|a| a.to_string()).collect(), Arc::new(AtomicBool::new(false)))
}

fn pair(v: &Value) -> (&str, Option<&str>) {
    let Value::Tuple(items) = v else { panic!() };
    assert_eq!(items.len(), 2);
    let Value::Str(s) = &items[0] else { panic!() };
    match &items[1] {
        Value::NoneV => (s.as_str(), None),
        Value::ErrV(e) => (s.as_str(), Some(e.msg.as_str())),
        _ => panic!(),
    }
}

#[test]
fn fallible_str_is_text_or_empty_with_error() {
    assert_eq!(pair(&fallible_str(Ok("x".to_string()))), ("x", None));
    assert_eq!(pair(&fallible_str(Err("bad".to_string()))), ("", Some("bad")));
    assert!(matches!(err("m".to_string()), Value::ErrV(e) if e.msg == "m"));
}

#[test]
fn args_are_answered_directly() {
    let i = interp(vec!["a", "bé"]);
    let step = call(&i, "args", vec![]).unwrap_or_else(|_| panic!());
    let OsStep::Done(Value::List(items)) = step else { panic!() };
    assert_eq!(items.len(), 2);
    assert!(matches!(&items[1], Value::Str(s) if s == "bé"));
}

#[test]
fn reading_calls_become_requests() {
    let i = interp(vec![]);
    assert!(matches!(call(&i, "workdir", vec![]), Ok(OsStep::Perform(OsRequest::Workdir))));
    assert!(matches!(call(&i, "readline", vec![]), Ok(OsStep::Perform(OsRequest::Readline))));
    match call(&i, "env", vec![Value::Str("HOME".to_string())]) {
        Ok(OsStep::Perform(OsRequest::Env(n))) => assert_eq!(n, "HOME"),
        _ => panic!(),
    }
}

#[test]
fn bad_os_calls_fault() {
    let i = interp(vec![]);
    assert_eq!(call(&i, "env", vec![]).err().unwrap().msg, "os.env: bad arguments");
    assert_eq!(call(&i, "env", vec![Value::Int(1)]).err().unwrap().msg, "os.env: bad arguments");
    assert_eq!(call(&i, "args", vec![Value::Int(1)]).err().unwrap().msg, "os.args: bad arguments");
    assert_eq!(call(&i, "exit", vec![]).err().unwrap().msg, "os.exit: bad arguments");
}

#[test]
fn workdir_replies() {
    assert_eq!(pair(&workdir_value(WorkdirReply::Path("/tmp".to_string()))), ("/tmp", None));
    assert_eq!(pair(&workdir_value(WorkdirReply::Failed("gone".to_string()))), ("", Some("workdir: gone")));
    assert_eq!(pair(&workdir_value(WorkdirReply::NotUnicode)), ("", Some("workdir: path is not valid unicode")));
}

#[test]
fn env_replies() {
    assert!(matches!(env_value(Some("v".to_string())), Value::Str(s) if s == "v"));
    assert!(matches!(env_value(None), Value::NoneV));
}

#[test]
fn readline_trims_line_terminators() {
    assert_eq!(pair(&readline_value(LineReply::Line("hello\r\n".to_string()))), ("hello", None));
    assert_eq!(pair(&readline_value(LineReply::Line("a\nb\n\n".to_string()))), ("a\nb", None));
    assert_eq!(pair(&readline_value(LineReply::Line("ünï".to_string()))), ("ünï", None));
    assert_eq!(pair(&readline_value(LineReply::Line("\n".to_string()))), ("", None));
    assert_eq!(pair(&readline_value(LineReply::Eof)), ("", Some("eof")));
    assert_eq!(pair(&readline_value(LineReply::Failed("broken pipe".to_string()))), ("", Some("stdin: broken pipe")));
}
