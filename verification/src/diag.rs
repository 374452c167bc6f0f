//! Diagnostics and parse outcomes.
//!
//! Every production returns a [`Parsed`] value: `Ok` with the parsed
//! node, a soft `Fail` that leaves the cursor where it was so the caller
//! can try the next alternative, or a hard `Abort` carrying a
//! [`Diag`], which stops the whole translation.
//!
//! Each exec production is specified against a spec-level mirror that
//! returns a [`POut`]: the spec parser is a function of the token
//! sequence and start position alone, so parsing the same input twice
//! yields structurally identical results.  The predicate [`obeys`] ties
//! an exec outcome and final cursor position to the spec outcome.

use vstd::prelude::*;

verus! {

/// A diagnostic: a source span (the index of the offending token) and a
/// human-readable message.
#[derive(Debug)]
pub struct Diag {
    pub at: usize,
    pub msg: String,
}

/// The model of a [`Diag`].
pub struct DiagV {
    pub at: int,
    pub msg: Seq<char>,
}

impl DeepView for Diag {
    type V = DiagV;

    open spec fn deep_view(&self) -> DiagV {
        DiagV { at: self.at as int, msg: self.msg@ }
    }
}

impl Diag {
    /// A diagnostic at the given token index.
    pub fn new(at: usize, msg: &str) -> (r: Diag)
        ensures
            r.deep_view() == (DiagV { at: at as int, msg: msg@ }),
    {
        Diag { at, msg: msg.to_owned() }
    }
}

/// The outcome of one exec production.
#[derive(Debug)]
pub enum Parsed<T> {
    /// The production matched; the cursor stands after it.
    Found(T),
    /// The production did not match; the cursor is untouched.
    Fail,
    /// The grammar had committed and the input is malformed: the whole
    /// translation stops with this diagnostic.
    Abort(Diag),
}

/// The outcome of one spec-level production: on success it carries the
/// parsed model and the position just after the consumed tokens.
pub enum POut<V> {
    Found { v: V, next: int },
    Fail,
    Abort { at: int, msg: Seq<char> },
}

/// The exec outcome `r`, together with the cursor having moved from
/// `p0` to `p1`, agrees with the spec outcome `s`.
///
/// In particular a soft failure never advances the cursor.
pub open spec fn obeys<T: DeepView>(s: POut<T::V>, r: Parsed<T>, p0: int, p1: int) -> bool {
    match s {
        POut::Found { v, next } => r matches Parsed::Found(x) && x.deep_view() == v && p1 == next,
        POut::Fail => r is Fail && p1 == p0,
        POut::Abort { at, msg } => r matches Parsed::Abort(d) && d.at as int == at && d.msg@
            == msg,
    }
}

/// The exec expansion result `r` agrees with the spec expansion
/// result `s`.
pub open spec fn res_obeys(s: Result<Seq<char>, DiagV>, r: Result<String, Diag>) -> bool {
    match s {
        Ok(v) => r matches Ok(x) && x@ == v,
        Err(d) => r matches Err(x) && x.deep_view() == d,
    }
}

} // verus!
