//! Diagnostics: a message anchored at a source position.
use crate::text::{decimal, push_decimal};
use vstd::prelude::*;
use vstd::string::*;

verus! {

pub struct Diag {
    pub msg: String,
    pub line: u32,
    pub col: u32,
    /// Source file name, stamped by the loader; `None` in the repl.
    pub file: Option<String>,
}

/// How a diagnostic reads: `file:line:col: msg`, without the `file:`
/// part when there is no file.
pub open spec fn rendered(d: Diag) -> Seq<char> {
    let prefix = match d.file {
        Some(f) => f@ + ":"@,
        None => Seq::empty(),
    };
    prefix + decimal(d.line as nat) + ":"@ + decimal(d.col as nat) + ": "@ + d.msg@
}

impl Diag {
    /// The diagnostic as one line of text.
    pub fn to_string(&self) -> (s: String)
        ensures
            s@ == rendered(*self),
    {
        let mut out = String::new();
        match &self.file {
            Some(f) => {
                out.append(f.as_str());
                out.append(":");
            },
            None => {},
        }
        push_decimal(&mut out, self.line);
        out.append(":");
        push_decimal(&mut out, self.col);
        out.append(": ");
        out.append(self.msg.as_str());
        out
    }
}

} // verus!
