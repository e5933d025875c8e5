use ichor::stdlib::regex::{call, match_fields, method, struct_exprs, struct_types, Kind, Re};
use ichor::types::{Type, TypeExpr};
use ichor::value::{Interp, Value};
use std::sync::atomic::AtomicBool;
use std::sync::Arc;

fn interp() -> Interp {
    Interp::new(Vec::new(), Arc::new(AtomicBool::new(false)))
}

fn compile(i: &Interp, p: &str) -> (Arc<Re>, Value) {
    let v = call(i, "compile", vec![Value::Str(p.to_string())]).unwrap_or_else(|_| panic!());
    let Value::Tuple(mut items) = v else { panic!() };
    assert_eq!(items.len(), 2);
    let e = items.pop().unwrap();
    let Value::Re(r) = items.pop().unwrap() else { panic!() };
    (r, e)
}

fn s(x: &str) -> Value {
    Value::Str(x.to_string())
}

fn as_str(v: &Value) -> &str {
    match v {
        Value::Str(t) => t.as_str(),
        _ => panic!(),
    }
}

fn as_int(v: &Value) -> i64 {
    match v {
        Value::Int(n) => *n,
        _ => panic!(),
    }
}

#[test]
fn compile_ok_has_no_error() {
    let i = interp();
    let (r, e) = compile(&i, r"\d+");
    assert!(matches!(e, Value::NoneV));
    assert_eq!(r.as_str(), r"\d+");
}

#[test]
fn compile_error_yields_empty_matcher_and_error() {
    let i = interp();
    let (r, e) = compile(&i, "foo(bar");
    let Value::ErrV(e) = e else { panic!() };
    assert!(e.msg.starts_with("regex.compile: "));
    assert!(e.msg.len() > "regex.compile: ".len());
    assert_eq!(r.as_str(), "$^");
    let m = method(&i, &r, "matches", vec![s("abc")]).unwrap_or_else(|_| panic!());
    assert!(matches!(m, Value::Bool(false)));
    let m = method(&i, &r, "matches", vec![s("")]).unwrap_or_else(|_| panic!());
    assert!(matches!(m, Value::Bool(true)));
}

#[test]
fn matches_reports_presence() {
    let i = interp();
    let (r, _) = compile(&i, r"b+");
    assert!(matches!(method(&i, &r, "matches", vec![s("abbc")]).unwrap_or_else(|_| panic!()), Value::Bool(true)));
    assert!(matches!(method(&i, &r, "matches", vec![s("xyz")]).unwrap_or_else(|_| panic!()), Value::Bool(false)));
}

#[test]
fn find_uses_character_offsets() {
    let i = interp();
    let (r, _) = compile(&i, r"\p{Greek}+");
    let m = method(&i, &r, "find", vec![s("Greek: αβγδ")]).unwrap_or_else(|_| panic!());
    assert_eq!(as_str(m.field("text").unwrap()), "αβγδ");
    assert_eq!(as_int(m.field("start").unwrap()), 7);
    assert_eq!(as_int(m.field("end").unwrap()), 11);
    let Value::List(groups) = m.field("groups").unwrap() else { panic!() };
    assert!(groups.is_empty());
    let Value::Struct { name, fields } = &m else { panic!() };
    assert_eq!(name, "Match");
    assert_eq!(fields.len(), 4);
}

#[test]
fn find_groups_default_to_empty() {
    let i = interp();
    let (r, _) = compile(&i, r"[a-z]+(?:([0-9]+)|([A-Z]+))");
    let m = method(&i, &r, "find", vec![s("é abc123")]).unwrap_or_else(|_| panic!());
    assert_eq!(as_str(m.field("text").unwrap()), "abc123");
    assert_eq!(as_int(m.field("start").unwrap()), 2);
    assert_eq!(as_int(m.field("end").unwrap()), 8);
    let Value::List(groups) = m.field("groups").unwrap() else { panic!() };
    assert_eq!(groups.len(), 2);
    assert_eq!(as_str(&groups[0]), "123");
    assert_eq!(as_str(&groups[1]), "");
}

#[test]
fn find_without_match_is_none() {
    let i = interp();
    let (r, _) = compile(&i, r"\d");
    assert!(matches!(method(&i, &r, "find", vec![s("abc")]).unwrap_or_else(|_| panic!()), Value::NoneV));
}

#[test]
fn find_all_lists_every_match() {
    let i = interp();
    let (r, _) = compile(&i, r"(\d)(\d)?");
    let v = method(&i, &r, "find_all", vec![s("ü1 23 4")]).unwrap_or_else(|_| panic!());
    let Value::List(ms) = v else { panic!() };
    assert_eq!(ms.len(), 3);
    assert_eq!(as_str(ms[0].field("text").unwrap()), "1");
    assert_eq!(as_int(ms[0].field("start").unwrap()), 1);
    assert_eq!(as_str(ms[1].field("text").unwrap()), "23");
    assert_eq!(as_int(ms[1].field("start").unwrap()), 3);
    assert_eq!(as_int(ms[1].field("end").unwrap()), 5);
    let Value::List(g) = ms[2].field("groups").unwrap() else { panic!() };
    assert_eq!(as_str(&g[0]), "4");
    assert_eq!(as_str(&g[1]), "");
    let v = method(&i, &r, "find_all", vec![s("none here")]).unwrap_or_else(|_| panic!());
    let Value::List(ms) = v else { panic!() };
    assert!(ms.is_empty());
}

#[test]
fn replace_expands_groups() {
    let i = interp();
    let (r, _) = compile(&i, r"(\w+)=(\w+)");
    let v = method(&i, &r, "replace", vec![s("a=1, b=2"), s("$2:$1")]).unwrap_or_else(|_| panic!());
    assert_eq!(as_str(&v), "1:a, 2:b");
    let v = method(&i, &r, "replace", vec![s("nothing"), s("x")]).unwrap_or_else(|_| panic!());
    assert_eq!(as_str(&v), "nothing");
}

#[test]
fn bad_regex_calls_fault() {
    let i = interp();
    let f = call(&i, "compile", vec![Value::Int(3)]).err().unwrap();
    assert_eq!(f.msg, "regex.compile: bad arguments");
    let f = call(&i, "escape", vec![s("x")]).err().unwrap();
    assert_eq!(f.msg, "regex.escape: bad arguments");
    let (r, _) = compile(&i, "a");
    let f = method(&i, &r, "find", vec![Value::Int(1)]).err().unwrap();
    assert_eq!(f.msg, "Re has no method find with those arguments");
    let f = method(&i, &r, "replace", vec![s("a")]).err().unwrap();
    assert_eq!(f.msg, "Re has no method replace with those arguments");
    let f = method(&i, &r, "split", vec![s("a")]).err().unwrap();
    assert_eq!(f.msg, "Re has no method split with those arguments");
}

#[test]
fn match_struct_is_declared() {
    let f = match_fields();
    let names: Vec<&str> = f.iter().map(|(n, _)| *n).collect();
    assert_eq!(names, vec!["text", "start", "end", "groups"]);
    assert!(matches!(f[3].1, Kind::ListStr));
    let t = struct_types();
    assert_eq!(t.len(), 2);
    assert_eq!(t[0].0, "Re");
    assert!(t[0].1.is_empty());
    assert_eq!(t[1].0, "Match");
    assert_eq!(t[1].1[0].0, "text");
    assert!(matches!(t[1].1[0].1, Type::Str));
    assert!(matches!(t[1].1[1].1, Type::Int));
    assert!(matches!(t[1].1[2].1, Type::Int));
    match &t[1].1[3].1 {
        Type::List(inner) => assert!(matches!(**inner, Type::Str)),
        _ => panic!(),
    }
    let e = struct_exprs();
    assert_eq!(e.len(), 1);
    assert_eq!(e[0].0, "Match");
    assert_eq!(e[0].1.len(), 4);
    match &e[0].1[1].1 {
        TypeExpr::Named(n) => assert_eq!(n, "int"),
        _ => panic!(),
    }
    match &e[0].1[3].1 {
        TypeExpr::List(inner) => match &**inner {
            TypeExpr::Named(n) => assert_eq!(n, "str"),
            _ => panic!(),
        },
        _ => panic!(),
    }
}

#[test]
fn re_new_compiles_or_reports() {
    let r = Re::new("a+b").ok().unwrap();
    assert_eq!(r.as_str(), "a+b");
    assert!(Re::new("(").is_err());
    assert!(Re::new("$^").is_ok());
}

#[test]
fn find_is_the_first_of_find_all() {
    let i = interp();
    let (r, _) = compile(&i, r"[a-z](\d)");
    let first = method(&i, &r, "find", vec![s("-- x1 y2")]).unwrap_or_else(|_| panic!());
    let Value::List(all) = method(&i, &r, "find_all", vec![s("-- x1 y2")]).unwrap_or_else(|_| panic!()) else { panic!() };
    assert_eq!(all.len(), 2);
    assert_eq!(as_str(first.field("text").unwrap()), as_str(all[0].field("text").unwrap()));
    assert_eq!(as_int(first.field("start").unwrap()), as_int(all[0].field("start").unwrap()));
    assert_eq!(as_int(first.field("start").unwrap()), 3);
    assert!(as_int(all[0].field("end").unwrap()) <= as_int(all[1].field("start").unwrap()));
}
