//! Pattern matching (`regex` module), in the flavor of the `regex` crate
//! (the RE2 family): linear time, no backreferences or lookaround. A match
//! is data (a `Match` struct), absence is an option, and offsets are
//! character indices, so that they compose with slicing.
use crate::text::{char_index, char_offset, is_boundary, lemma_slice_between_boundaries, slice_between, str_eq};
use crate::types::{is_named, Type, TypeExpr};
use crate::value::{field_entries, has_field, is_err, is_fault, is_str, Fault, FieldMap, Interp, Value};
use crate::stdlib::re::{all_captures, build_regex, first_captures, is_match, replace_all};
pub use crate::stdlib::re::Re;
use std::sync::Arc;
use vstd::prelude::*;
use vstd::string::*;
use vstd::utf8::*;

verus! {

impl Re {
    /// Compiles `pattern`; on failure, the error's message. The regex it
    /// gives is known by exactly `pattern`: a `Re` can only be made by
    /// compiling the pattern it is known by.
    pub fn new(pattern: &str) -> (res: Result<Re, String>)
        ensures
            res is Ok <==> regex_build(pattern@) is Ok,
            res matches Ok(r) ==> r@ == pattern@,
            res matches Err(m) ==> (regex_build(pattern@) matches Err(e) && e == m@),
            pattern@ == "$^"@ ==> res is Ok,
    {
        build_regex(pattern)
    }
}

/// What compiling `pattern` with `regex::Regex::new` gives: `Ok` when the
/// pattern is accepted, else the error's message.
pub uninterp spec fn regex_build(pattern: Seq<char>) -> Result<(), Seq<char>>;

/// The capture group spans (UTF-8 byte offsets, group 0 first) of the
/// leftmost-first match of `pattern` in `haystack` (`Regex::captures`).
pub uninterp spec fn regex_first_captures(pattern: Seq<char>, haystack: Seq<char>) -> Option<
    Seq<Option<(usize, usize)>>,
>;

/// The capture group spans of each successive non-overlapping match of
/// `pattern` in `haystack` (`Regex::captures_iter`).
pub uninterp spec fn regex_all_captures(pattern: Seq<char>, haystack: Seq<char>) -> Seq<
    Seq<Option<(usize, usize)>>,
>;

/// `haystack` with every non-overlapping match of `pattern` replaced by
/// `replacement`, in which `$name` and `${name}` stand for groups
/// (`Regex::replace_all`).
pub uninterp spec fn regex_replace_all(
    pattern: Seq<char>,
    haystack: Seq<char>,
    replacement: Seq<char>,
) -> Seq<char>;

/// A span of `haystack` as the regex crate reports one: the start is not
/// after the end, and both fall on character boundaries.
pub open spec fn span_valid(haystack: Seq<char>, span: (usize, usize)) -> bool {
    &&& span.0 <= span.1
    &&& is_boundary(haystack, span.0 as int)
    &&& is_boundary(haystack, span.1 as int)
}

/// The group spans of one match: there is at least one group, the whole
/// match (group 0) always participates, and every span is valid.
pub open spec fn spans_valid(haystack: Seq<char>, groups: Seq<Option<(usize, usize)>>) -> bool {
    &&& groups.len() >= 1
    &&& groups[0] is Some
    &&& forall|i: int|
        0 <= i < groups.len() && #[trigger] groups[i] is Some ==> span_valid(haystack, groups[i]->0)
}

/// The kind of a field of the `Match` struct.
pub enum Kind {
    Str,
    Int,
    ListStr,
}

/// The fields of the `Match` struct, in order.
pub open spec fn match_fields_spec() -> Seq<(Seq<char>, Kind)> {
    seq![("text"@, Kind::Str), ("start"@, Kind::Int), ("end"@, Kind::Int), ("groups"@, Kind::ListStr)]
}

/// The fields of the `Match` struct, in order.
pub fn match_fields() -> (f: Vec<(&'static str, Kind)>)
    ensures
        f@.len() == match_fields_spec().len(),
        forall|i: int|
            0 <= i < f@.len() ==> (#[trigger] f@[i]).0@ == match_fields_spec()[i].0 && f@[i].1
                == match_fields_spec()[i].1,
{
    let f = vec![("text", Kind::Str), ("start", Kind::Int), ("end", Kind::Int), ("groups", Kind::ListStr)];
    assert(f@.len() == 4);
    f
}

/// The checked type of a field of this kind.
pub open spec fn kind_type(k: Kind) -> Type {
    match k {
        Kind::Str => Type::Str,
        Kind::Int => Type::Int,
        Kind::ListStr => Type::List(Box::new(Type::Str)),
    }
}

/// `t` is the type expression for a field of this kind.
pub open spec fn is_kind_expr(t: TypeExpr, k: Kind) -> bool {
    match k {
        Kind::Str => is_named(t, "str"@),
        Kind::Int => is_named(t, "int"@),
        Kind::ListStr => t matches TypeExpr::List(inner) && is_named(*inner, "str"@),
    }
}

/// The struct types this module declares: `Re`, with no fields (it is
/// opaque), and `Match`.
pub fn struct_types() -> (res: Vec<(String, Vec<(String, Type)>)>)
    ensures
        res@.len() == 2,
        res@[0].0@ == "Re"@,
        res@[0].1@.len() == 0,
        res@[1].0@ == "Match"@,
        res@[1].1@.len() == match_fields_spec().len(),
        forall|i: int|
            0 <= i < res@[1].1@.len() ==> (#[trigger] res@[1].1@[i]).0@ == match_fields_spec()[i].0
                && res@[1].1@[i].1 == kind_type(match_fields_spec()[i].1),
{
    let fields = match_fields();
    let mut typed: Vec<(String, Type)> = Vec::new();
    let mut i: usize = 0;
    while i < fields.len()
        invariant
            0 <= i <= fields@.len(),
            fields@.len() == match_fields_spec().len(),
            forall|j: int|
                0 <= j < fields@.len() ==> (#[trigger] fields@[j]).0@ == match_fields_spec()[j].0
                    && fields@[j].1 == match_fields_spec()[j].1,
            typed@.len() == i,
            forall|j: int|
                0 <= j < i ==> (#[trigger] typed@[j]).0@ == match_fields_spec()[j].0 && typed@[j].1
                    == kind_type(match_fields_spec()[j].1),
        decreases fields@.len() - i,
    {
        let (name, kind) = &fields[i];
        let t = match kind {
            Kind::Str => Type::Str,
            Kind::Int => Type::Int,
            Kind::ListStr => Type::List(Box::new(Type::Str)),
        };
        typed.push(((*name).to_owned(), t));
        i = i + 1;
    }
    let mut res: Vec<(String, Vec<(String, Type)>)> = Vec::new();
    res.push(("Re".to_owned(), Vec::new()));
    res.push(("Match".to_owned(), typed));
    res
}

/// The struct declarations this module contributes to programs: `Match`,
/// with its fields written as type expressions.
pub fn struct_exprs() -> (res: Vec<(String, Vec<(String, TypeExpr)>)>)
    ensures
        res@.len() == 1,
        res@[0].0@ == "Match"@,
        res@[0].1@.len() == match_fields_spec().len(),
        forall|i: int|
            0 <= i < res@[0].1@.len() ==> (#[trigger] res@[0].1@[i]).0@ == match_fields_spec()[i].0
                && is_kind_expr(res@[0].1@[i].1, match_fields_spec()[i].1),
{
    let fields = match_fields();
    let mut typed: Vec<(String, TypeExpr)> = Vec::new();
    let mut i: usize = 0;
    while i < fields.len()
        invariant
            0 <= i <= fields@.len(),
            fields@.len() == match_fields_spec().len(),
            forall|j: int|
                0 <= j < fields@.len() ==> (#[trigger] fields@[j]).0@ == match_fields_spec()[j].0
                    && fields@[j].1 == match_fields_spec()[j].1,
            typed@.len() == i,
            forall|j: int|
                0 <= j < i ==> (#[trigger] typed@[j]).0@ == match_fields_spec()[j].0
                    && is_kind_expr(typed@[j].1, match_fields_spec()[j].1),
        decreases fields@.len() - i,
    {
        let (name, kind) = &fields[i];
        let t = match kind {
            Kind::Str => TypeExpr::Named("str".to_owned()),
            Kind::Int => TypeExpr::Named("int".to_owned()),
            Kind::ListStr => TypeExpr::List(Box::new(TypeExpr::Named("str".to_owned()))),
        };
        typed.push(((*name).to_owned(), t));
        i = i + 1;
    }
    let mut res: Vec<(String, Vec<(String, TypeExpr)>)> = Vec::new();
    res.push(("Match".to_owned(), typed));
    res
}

/// The text of a group of a match in `haystack`: the characters its span
/// covers, or the empty string when the group did not participate.
pub open spec fn group_text(haystack: Seq<char>, g: Option<(usize, usize)>) -> Seq<char> {
    match g {
        Some(span) => haystack.subrange(
            char_offset(haystack, span.0 as int),
            char_offset(haystack, span.1 as int),
        ),
        None => Seq::empty(),
    }
}

/// `v` is the `Match` struct for the match with group spans `groups` in
/// `haystack`: fields `text` (the whole match), `start` and `end` (its
/// character offsets), and `groups` (the text of groups 1 and up), in that
/// order.
pub open spec fn is_match_value(v: Value, haystack: Seq<char>, groups: Seq<Option<(usize, usize)>>) -> bool {
    v matches Value::Struct { name, fields } && name@ == "Match"@ && match_entries(
        field_entries(fields),
        haystack,
        groups,
    )
}

pub open spec fn match_entries(
    e: Seq<(Seq<char>, Value)>,
    haystack: Seq<char>,
    groups: Seq<Option<(usize, usize)>>,
) -> bool {
    let whole = groups[0]->0;
    &&& e.len() == 4
    &&& e[0].0 == "text"@
    &&& is_str(e[0].1, group_text(haystack, groups[0]))
    &&& e[1].0 == "start"@
    &&& e[1].1 == Value::Int(char_offset(haystack, whole.0 as int) as i64)
    &&& e[2].0 == "end"@
    &&& e[2].1 == Value::Int(char_offset(haystack, whole.1 as int) as i64)
    &&& e[3].0 == "groups"@
    &&& group_list(e[3].1, haystack, groups)
}

pub open spec fn group_list(v: Value, haystack: Seq<char>, groups: Seq<Option<(usize, usize)>>) -> bool {
    v matches Value::List(items) && items@.len() + 1 == groups.len() && forall|i: int|
        0 <= i < items@.len() ==> is_str(#[trigger] items@[i], group_text(haystack, groups[i + 1]))
}

/// The string values of groups 1 and up of a match.
fn group_values(s: &str, groups: &Vec<Option<(usize, usize)>>) -> (res: Vec<Value>)
    requires
        spans_valid(s@, groups@),
        s.spec_bytes().len() <= i64::MAX,
    ensures
        res@.len() + 1 == groups@.len(),
        forall|i: int| 0 <= i < res@.len() ==> is_str(#[trigger] res@[i], group_text(s@, groups@[i + 1])),
{
    let mut out: Vec<Value> = Vec::new();
    let mut i: usize = 1;
    while i < groups.len()
        invariant
            spans_valid(s@, groups@),
            s.spec_bytes().len() <= i64::MAX,
            1 <= i <= groups@.len(),
            out@.len() + 1 == i,
            forall|j: int| 0 <= j < out@.len() ==> is_str(#[trigger] out@[j], group_text(s@, groups@[j + 1])),
        decreases groups@.len() - i,
    {
        let text = match groups[i] {
            Some((a, b)) => {
                assert(groups@[i as int] is Some);
                slice_between(s, a, b)
            },
            None => String::new(),
        };
        out.push(Value::Str(text));
        i = i + 1;
    }
    out
}

/// The `Match` struct for the match with group spans `groups` in `s`.
pub fn match_value(s: &str, groups: &Vec<Option<(usize, usize)>>) -> (v: Value)
    requires
        spans_valid(s@, groups@),
        s.spec_bytes().len() <= i64::MAX,
    ensures
        is_match_value(v, s@, groups@),
{
    assert(groups@[0] is Some);
    let (a, b) = match groups[0] {
        Some(span) => span,
        None => (0, 0),
    };
    let text = slice_between(s, a, b);
    let start = char_index(s, a);
    let end = char_index(s, b);
    let items = group_values(s, groups);
    proof {
        reveal_strlit("text");
        reveal_strlit("start");
        reveal_strlit("end");
        reveal_strlit("groups");
    }
    let mut fields = FieldMap::new();
    fields.insert("text".to_owned(), Value::Str(text));
    assert(!has_field(field_entries(fields), "start"@)) by {
        assert(field_entries(fields)[0].0.len() != "start"@.len());
    }
    fields.insert("start".to_owned(), Value::Int(start));
    assert(!has_field(field_entries(fields), "end"@)) by {
        assert(field_entries(fields)[0].0.len() != "end"@.len());
        assert(field_entries(fields)[1].0[0] != "end"@[0]);
    }
    fields.insert("end".to_owned(), Value::Int(end));
    assert(!has_field(field_entries(fields), "groups"@)) by {
        assert(field_entries(fields)[0].0.len() != "groups"@.len());
        assert(field_entries(fields)[1].0.len() != "groups"@.len());
        assert(field_entries(fields)[2].0.len() != "groups"@.len());
    }
    fields.insert("groups".to_owned(), Value::list(items));
    Value::Struct { name: "Match".to_owned(), fields }
}

/// The `Match` structs for the successive matches with group spans `all`.
pub fn match_values(s: &str, all: &Vec<Vec<Option<(usize, usize)>>>) -> (res: Vec<Value>)
    requires
        forall|i: int| 0 <= i < all@.len() ==> spans_valid(s@, (#[trigger] all@[i])@),
        s.spec_bytes().len() <= i64::MAX,
    ensures
        res@.len() == all@.len(),
        forall|i: int| 0 <= i < res@.len() ==> is_match_value(#[trigger] res@[i], s@, all@[i]@),
{
    let mut out: Vec<Value> = Vec::new();
    let mut i: usize = 0;
    while i < all.len()
        invariant
            forall|j: int| 0 <= j < all@.len() ==> spans_valid(s@, (#[trigger] all@[j])@),
            s.spec_bytes().len() <= i64::MAX,
            0 <= i <= all@.len(),
            out@.len() == i,
            forall|j: int| 0 <= j < out@.len() ==> is_match_value(#[trigger] out@[j], s@, all@[j]@),
        decreases all@.len() - i,
    {
        let v = match_value(s, &all[i]);
        out.push(v);
        i = i + 1;
    }
    out
}

/// The byte offset at which the whole match (group 0) starts.
pub open spec fn whole_start(groups: Seq<Option<(usize, usize)>>) -> int {
    match groups[0] {
        Some(span) => span.0 as int,
        None => 0,
    }
}

/// The byte offset at which the whole match (group 0) ends.
pub open spec fn whole_end(groups: Seq<Option<(usize, usize)>>) -> int {
    match groups[0] {
        Some(span) => span.1 as int,
        None => 0,
    }
}

/// Successive matches in `haystack` come in order and do not overlap: in
/// character offsets, each one ends no later than the next one starts.
pub open spec fn matches_in_order(haystack: Seq<char>, all: Seq<Seq<Option<(usize, usize)>>>) -> bool {
    forall|i: int, j: int|
        0 <= i < j < all.len() ==> char_offset(haystack, whole_end(#[trigger] all[i])) <= char_offset(
            haystack,
            whole_start(#[trigger] all[j]),
        )
}

/// Character offsets keep the order of the byte offsets they come from.
proof fn lemma_in_order(haystack: Seq<char>, all: Seq<Seq<Option<(usize, usize)>>>)
    requires
        forall|i: int| 0 <= i < all.len() ==> spans_valid(haystack, #[trigger] all[i]),
        forall|i: int, j: int|
            0 <= i < j < all.len() ==> whole_end(#[trigger] all[i]) <= whole_start(#[trigger] all[j]),
    ensures
        matches_in_order(haystack, all),
{
    assert forall|i: int, j: int| 0 <= i < j < all.len() implies char_offset(
        haystack,
        whole_end(#[trigger] all[i]),
    ) <= char_offset(haystack, whole_start(#[trigger] all[j])) by {
        assert(spans_valid(haystack, all[i]));
        assert(spans_valid(haystack, all[j]));
        assert(all[i][0] is Some);
        assert(all[j][0] is Some);
        lemma_slice_between_boundaries(haystack, whole_end(all[i]), whole_start(all[j]));
    }
}

/// The fault for a call of the `regex` module that names no function or
/// passes it the wrong arguments.
pub open spec fn bad_call_msg(name: Seq<char>) -> Seq<char> {
    "regex."@ + name + ": bad arguments"@
}

/// `v` is the regex value compiled from `pattern`.
pub open spec fn is_re(v: Value, pattern: Seq<char>) -> bool {
    v matches Value::Re(r) && r@ == pattern
}

/// `v` is the result of `compile(pattern)`: the regex and no error when
/// the pattern compiles; else a regex that only matches the empty string
/// together with the compile error.
pub open spec fn is_compile_result(v: Value, pattern: Seq<char>) -> bool {
    v matches Value::Tuple(items) && items@.len() == 2 && match regex_build(pattern) {
        Ok(_) => is_re(items@[0], pattern) && items@[1] is NoneV,
        Err(m) => is_re(items@[0], "$^"@) && is_err(items@[1], "regex.compile: "@ + m),
    }
}

/// Calls the function `name` of the `regex` module: `compile(pattern)`.
pub fn call(interp: &Interp, name: &str, args: Vec<Value>) -> (res: Result<Value, Fault>)
    ensures
        name@ == "compile"@ && args.len() == 1 ==> (args@[0] matches Value::Str(p) ==> (
        res matches Ok(v) && is_compile_result(v, p@))),
        !(name@ == "compile"@ && args.len() == 1 && args@[0] is Str) ==> is_fault(
            res,
            bad_call_msg(name@),
        ),
{
    if str_eq(name, "compile") && args.len() == 1 {
        if let Value::Str(p) = &args[0] {
            let v = match Re::new(p.as_str()) {
                Ok(re) => Value::Tuple(vec![Value::Re(Arc::new(re)), Value::NoneV]),
                Err(m) => {
                    // `$^` only matches the empty string; it always compiles
                    let re = match Re::new("$^") {
                        Ok(re) => re,
                        Err(_) => {
                            assert(false);
                            return Err(interp.fault(m));
                        },
                    };
                    let mut msg = "regex.compile: ".to_owned();
                    msg.append(m.as_str());
                    Value::Tuple(vec![Value::Re(Arc::new(re)), Value::ErrV(crate::value::ErrVal { msg })])
                },
            };
            return Ok(v);
        }
    }
    let mut msg = "regex.".to_owned();
    msg.append(name);
    msg.append(": bad arguments");
    Err(interp.fault(msg))
}

/// A string argument whose UTF-8 encoding fits the language's integers
/// (every Rust string does: its length is at most `isize::MAX`).
pub open spec fn str_fits(v: Value) -> bool {
    v matches Value::Str(s) ==> encode_utf8(s@).len() <= i64::MAX
}

/// The fault for a method call on a regex that names no method or passes
/// it the wrong arguments.
pub open spec fn bad_method_msg(name: Seq<char>) -> Seq<char> {
    "Re has no method "@ + name + " with those arguments"@
}

/// Calls the method `name` of a regex: `matches(s)`, `find(s)`,
/// `find_all(s)`, `replace(s, replacement)`.
pub fn method(interp: &Interp, re: &Re, name: &str, args: Vec<Value>) -> (res: Result<Value, Fault>)
    requires
        forall|i: int| 0 <= i < args.len() ==> str_fits(#[trigger] args@[i]),
    ensures
        name@ == "matches"@ && args.len() == 1 ==> (args@[0] matches Value::Str(s) ==> res == Ok::<
            Value,
            Fault,
        >(Value::Bool(regex_first_captures(re@, s@) is Some))),
        name@ == "find"@ && args.len() == 1 ==> (args@[0] matches Value::Str(s) ==> (
        res matches Ok(v) && match regex_first_captures(re@, s@) {
            Some(g) => spans_valid(s@, g) && is_match_value(v, s@, g),
            None => v is NoneV,
        })),
        name@ == "find_all"@ && args.len() == 1 ==> (args@[0] matches Value::Str(s) ==> (
        res matches Ok(Value::List(items)) && items@.len() == regex_all_captures(re@, s@).len()
            && (forall|i: int|
            0 <= i < items@.len() ==> spans_valid(s@, regex_all_captures(re@, s@)[i])
                && is_match_value(#[trigger] items@[i], s@, regex_all_captures(re@, s@)[i]))
            && matches_in_order(s@, regex_all_captures(re@, s@))
            && (items@.len() == 0 <==> regex_first_captures(re@, s@) is None)
            && (items@.len() > 0 ==> regex_first_captures(re@, s@) == Some(
            regex_all_captures(re@, s@)[0],
        )))),
        name@ == "replace"@ && args.len() == 2 ==> (args@[0] matches Value::Str(s) ==> (
        args@[1] matches Value::Str(r) ==> (res matches Ok(v) && is_str(
            v,
            regex_replace_all(re@, s@, r@),
        )))),
        !(name@ == "matches"@ && args.len() == 1 && args@[0] is Str) && !(name@ == "find"@
            && args.len() == 1 && args@[0] is Str) && !(name@ == "find_all"@ && args.len() == 1
            && args@[0] is Str) && !(name@ == "replace"@ && args.len() == 2 && args@[0] is Str
            && args@[1] is Str) ==> is_fault(res, bad_method_msg(name@)),
{
    proof {
        reveal_strlit("matches");
        reveal_strlit("find");
        reveal_strlit("find_all");
        reveal_strlit("replace");
        assert("matches"@.len() != "find"@.len());
        assert("matches"@.len() != "find_all"@.len());
        assert("find"@.len() != "find_all"@.len());
    }
    if args.len() == 1 {
        assert(str_fits(args@[0]));
        if let Value::Str(s) = &args[0] {
            if str_eq(name, "matches") {
                return Ok(Value::Bool(is_match(re, s.as_str())));
            }
            if str_eq(name, "find") {
                return Ok(
                    match first_captures(re, s.as_str()) {
                        Some(g) => match_value(s.as_str(), &g),
                        None => Value::NoneV,
                    },
                );
            }
            if str_eq(name, "find_all") {
                let all = all_captures(re, s.as_str());
                proof {
                    assert(all@.map_values(|g: Vec<Option<(usize, usize)>>| g@) =~= regex_all_captures(re@, s@));
                    lemma_in_order(s@, all@.map_values(|g: Vec<Option<(usize, usize)>>| g@));
                }
                return Ok(Value::list(match_values(s.as_str(), &all)));
            }
        }
    }
    if args.len() == 2 && str_eq(name, "replace") {
        if let Value::Str(s) = &args[0] {
            if let Value::Str(r) = &args[1] {
                return Ok(Value::Str(replace_all(re, s.as_str(), r.as_str())));
            }
        }
    }
    let mut msg = "Re has no method ".to_owned();
    msg.append(name);
    msg.append(" with those arguments");
    Err(interp.fault(msg))
}

/// The text of a match is the haystack's characters between the match's
/// `start` and `end`, and it encodes exactly the bytes the regex matched:
/// offsets compose with slicing.
pub proof fn lemma_match_text_is_slice(v: Value, haystack: Seq<char>, groups: Seq<Option<(usize, usize)>>)
    requires
        is_match_value(v, haystack, groups),
        spans_valid(haystack, groups),
        encode_utf8(haystack).len() <= i64::MAX,
    ensures
        ({
            let e = field_entries(v->fields);
            let whole = groups[0]->0;
            &&& e[1].1 matches Value::Int(start)
            &&& e[2].1 matches Value::Int(end)
            &&& 0 <= start <= end <= haystack.len()
            &&& is_str(e[0].1, haystack.subrange(start as int, end as int))
            &&& encode_utf8(haystack.subrange(start as int, end as int)) == encode_utf8(
                haystack,
            ).subrange(whole.0 as int, whole.1 as int)
        }),
{
    let whole = groups[0]->0;
    assert(span_valid(haystack, whole));
    crate::text::lemma_prefix_at_boundary(haystack, whole.0 as int);
    crate::text::lemma_prefix_at_boundary(haystack, whole.1 as int);
    lemma_slice_between_boundaries(haystack, whole.0 as int, whole.1 as int);
    crate::text::lemma_encoding_at_least_chars(haystack);
}

/// `v` has the type a field of kind `k` is declared with.
pub open spec fn has_kind(v: Value, k: Kind) -> bool {
    match k {
        Kind::Str => v is Str,
        Kind::Int => v is Int,
        Kind::ListStr => v matches Value::List(items) && forall|i: int|
            0 <= i < items@.len() ==> (#[trigger] items@[i]) is Str,
    }
}

/// Every `Match` value has exactly the fields `struct_types` and
/// `struct_exprs` declare for `Match`, in the declared order, each holding
/// a value of its declared type.
pub proof fn lemma_match_fields_declared(v: Value, haystack: Seq<char>, groups: Seq<Option<(usize, usize)>>)
    requires
        is_match_value(v, haystack, groups),
    ensures
        v matches Value::Struct { name, fields } && name@ == "Match"@ && field_entries(fields).len()
            == match_fields_spec().len() && forall|i: int|
            0 <= i < match_fields_spec().len() ==> (#[trigger] field_entries(fields)[i]).0
                == match_fields_spec()[i].0 && has_kind(
                field_entries(fields)[i].1,
                match_fields_spec()[i].1,
            ),
{
    let e = field_entries(v->fields);
    assert(has_kind(e[3].1, Kind::ListStr));
    assert forall|i: int| 0 <= i < match_fields_spec().len() implies (#[trigger] e[i]).0
        == match_fields_spec()[i].0 && has_kind(e[i].1, match_fields_spec()[i].1) by {
        if i == 0 {
        } else if i == 1 {
        } else if i == 2 {
        } else {
        }
    }
}

/// `a` and `b` are string values with the same characters.
pub open spec fn same_str(a: Value, b: Value) -> bool {
    a matches Value::Str(x) && b matches Value::Str(y) && x@ == y@
}

/// Two `Match` values for the same spans in the same haystack agree: same
/// text, same offsets, same group texts. So `find` gives the same `Match`
/// as the first item of `find_all`.
pub proof fn lemma_same_spans_same_match(
    a: Value,
    b: Value,
    haystack: Seq<char>,
    groups: Seq<Option<(usize, usize)>>,
)
    requires
        is_match_value(a, haystack, groups),
        is_match_value(b, haystack, groups),
    ensures
        ({
            let ea = field_entries(a->fields);
            let eb = field_entries(b->fields);
            &&& ea.len() == eb.len()
            &&& forall|k: int| 0 <= k < ea.len() ==> (#[trigger] ea[k]).0 == eb[k].0
            &&& same_str(ea[0].1, eb[0].1)
            &&& ea[1].1 == eb[1].1
            &&& ea[2].1 == eb[2].1
            &&& ea[3].1 matches Value::List(xs) && eb[3].1 matches Value::List(ys) && xs@.len()
                == ys@.len() && forall|k: int|
                0 <= k < xs@.len() ==> same_str(#[trigger] xs@[k], ys@[k])
        }),
{
    let ea = field_entries(a->fields);
    let eb = field_entries(b->fields);
    assert forall|k: int| 0 <= k < ea.len() implies (#[trigger] ea[k]).0 == eb[k].0 by {
        if k == 0 {
        } else if k == 1 {
        } else if k == 2 {
        } else {
        }
    }
    if let Value::List(xs) = ea[3].1 {
        if let Value::List(ys) = eb[3].1 {
            assert forall|k: int| 0 <= k < xs@.len() implies same_str(#[trigger] xs@[k], ys@[k]) by {
                assert(is_str(xs@[k], group_text(haystack, groups[k + 1])));
                assert(is_str(ys@[k], group_text(haystack, groups[k + 1])));
            }
        }
    }
}

/// A regex matches as its pattern does: two regexes known by the same
/// pattern report the same first match, the same successive matches and the
/// same replacements in every haystack. Since a `Re` is only ever made by
/// compiling the pattern it is known by, no regex known by `p` can search
/// with the compilation of another pattern.
pub proof fn lemma_pattern_determines_matching(a: Re, b: Re, haystack: Seq<char>, replacement: Seq<char>)
    requires
        a@ == b@,
    ensures
        regex_first_captures(a@, haystack) == regex_first_captures(b@, haystack),
        regex_all_captures(a@, haystack) == regex_all_captures(b@, haystack),
        regex_replace_all(a@, haystack, replacement) == regex_replace_all(b@, haystack, replacement),
{
}

} // verus!
