//! Runtime values of the language, as the standard library modules build
//! and read them, and the interpreter state those modules consult.
use crate::stdlib::ctx::CtxInner;
use crate::stdlib::regex::Re;
use std::sync::atomic::AtomicBool;
use std::sync::Arc;
use vstd::prelude::*;

verus! {

/// An error value: the `error` the language hands to a program.
pub struct ErrVal {
    pub msg: String,
}

/// A runtime fault: a program misused a builtin (wrong name or arguments).
pub struct Fault {
    pub msg: String,
}

pub enum Value {
    NoneV,
    Bool(bool),
    Int(i64),
    Str(String),
    /// An error value (`error?` slots hold this or `NoneV`).
    ErrV(ErrVal),
    Tuple(Vec<Value>),
    List(Vec<Value>),
    Ctx(Arc<CtxInner>),
    Re(Arc<Re>),
    Struct { name: String, fields: FieldMap },
}

/// The fields of a struct value, in the order they were first inserted,
/// each name at most once (held in an `indexmap::IndexMap`).
#[verifier::external_body]
pub struct FieldMap {
    inner: indexmap::IndexMap<String, Value>,
}

/// What a field map holds: its (name, value) entries in order.
pub uninterp spec fn field_entries(m: FieldMap) -> Seq<(Seq<char>, Value)>;

/// The index of the entry named `key`, if there is one.
pub open spec fn has_field(entries: Seq<(Seq<char>, Value)>, key: Seq<char>) -> bool {
    exists|i: int| 0 <= i < entries.len() && #[trigger] entries[i].0 == key
}

impl FieldMap {
    /// An empty map (`IndexMap::new`).
    #[verifier::external_body]
    pub fn new() -> (m: FieldMap)
        ensures
            field_entries(m) == Seq::<(Seq<char>, Value)>::empty(),
    {
        FieldMap { inner: indexmap::IndexMap::new() }
    }

    /// `IndexMap::insert`: an existing entry with an equal key keeps its
    /// place and takes the new value; otherwise the entry goes last.
    #[verifier::external_body]
    pub fn insert(&mut self, key: String, value: Value)
        ensures
            has_field(field_entries(*old(self)), key@) ==> {
                let i = choose|i: int|
                    0 <= i < field_entries(*old(self)).len() && #[trigger] field_entries(
                        *old(self),
                    )[i].0 == key@;
                field_entries(*final(self)) == field_entries(*old(self)).update(i, (key@, value))
            },
            !has_field(field_entries(*old(self)), key@) ==> field_entries(*final(self))
                == field_entries(*old(self)).push((key@, value)),
    {
        self.inner.insert(key, value);
    }

    /// `IndexMap::get`: the value stored under `key`; a map holds a key at
    /// most once.
    #[verifier::external_body]
    pub fn get(&self, key: &str) -> (res: Option<&Value>)
        ensures
            res is Some <==> has_field(field_entries(*self), key@),
            res matches Some(v) ==> forall|i: int|
                0 <= i < field_entries(*self).len() && #[trigger] field_entries(*self)[i].0
                    == key@ ==> field_entries(*self)[i].1 == *v,
    {
        self.inner.get(key)
    }

    /// `IndexMap::len`: the number of entries.
    #[verifier::external_body]
    pub fn len(&self) -> (n: usize)
        ensures
            n == field_entries(*self).len(),
    {
        self.inner.len()
    }
}

/// `r` is a fault with message `m`.
pub open spec fn is_fault(r: Result<Value, Fault>, m: Seq<char>) -> bool {
    r matches Err(f) && f.msg@ == m
}

/// `v` is the string value with characters `s`.
pub open spec fn is_str(v: Value, s: Seq<char>) -> bool {
    v matches Value::Str(t) && t@ == s
}

/// `v` is the error value with message `m`.
pub open spec fn is_err(v: Value, m: Seq<char>) -> bool {
    v matches Value::ErrV(e) && e.msg@ == m
}

/// `v` is a string/error pair: `(text, none)` on success, `("", error)`
/// on failure.
pub open spec fn is_fallible_str(v: Value, r: Result<Seq<char>, Seq<char>>) -> bool {
    v matches Value::Tuple(items) && items@.len() == 2 && match r {
        Ok(s) => is_str(items@[0], s) && items@[1] is NoneV,
        Err(m) => is_str(items@[0], Seq::empty()) && is_err(items@[1], m),
    }
}

impl Value {
    /// A list value holding `items`.
    pub fn list(items: Vec<Value>) -> (v: Value)
        ensures
            v == Value::List(items),
    {
        Value::List(items)
    }

    /// The field `name` of a struct value, if `self` is a struct that has it.
    pub fn field(&self, name: &str) -> (res: Option<&Value>)
        ensures
            !(self is Struct) ==> res is None,
            self matches Value::Struct { fields, .. } ==> (res is Some <==> has_field(
                field_entries(*fields),
                name@,
            )),
            res matches Some(v) ==> (self matches Value::Struct { fields, .. } && forall|i: int|
                0 <= i < field_entries(*fields).len() && #[trigger] field_entries(*fields)[i].0
                    == name@ ==> field_entries(*fields)[i].1 == *v),
    {
        match self {
            Value::Struct { fields, .. } => fields.get(name),
            _ => None,
        }
    }
}

/// The interpreter state that builtins consult: the program's arguments,
/// and the flag that the interrupt signal (SIGINT) sets.
pub struct Interp {
    pub prog_args: Vec<String>,
    /// Set by the interrupt signal.
    pub sigint: Arc<AtomicBool>,
}

impl Interp {
    /// An interpreter for a program run with `prog_args`, whose interrupt
    /// signal sets `sigint`.
    pub fn new(prog_args: Vec<String>, sigint: Arc<AtomicBool>) -> (i: Interp)
        ensures
            i.prog_args == prog_args,
            i.sigint == sigint,
    {
        Interp { prog_args, sigint }
    }

    /// A handle on the flag that the interrupt signal sets.
    pub fn sigint_flag(&self) -> (f: Arc<AtomicBool>)
        ensures
            f == self.sigint,
    {
        self.sigint.clone()
    }

    /// A fault carrying `msg`.
    pub fn fault(&self, msg: String) -> (f: Fault)
        ensures
            f.msg@ == msg@,
    {
        Fault { msg }
    }
}

} // verus!
