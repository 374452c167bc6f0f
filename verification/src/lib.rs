//! A compile-time translator for a CSS-selector-flavoured templating
//! language: a stream of tokens describing a tree of UI elements and
//! components is parsed into an abstract syntax tree and lowered into a
//! builder-call expression of the host language.
//!
//! Parsing is a pure function over an explicit cursor: every production
//! either succeeds and advances the cursor, fails softly and leaves the
//! cursor untouched, or aborts the whole translation with a diagnostic.
//! The expander walks the tree, decides between a single-root expansion
//! and a fragment expansion, and checks directive legality per node kind.

pub mod attribute;
pub mod children;
pub mod cursor;
pub mod diag;
pub mod element;
pub mod expand;
pub mod ident;
pub mod laws;
pub mod selector;
pub mod seq_util;
pub mod token;
pub mod value;

use vstd::prelude::*;

use crate::children::{spec_children, Child, ChildV};
use crate::cursor::Cursor;
use crate::diag::{Diag, DiagV, POut, Parsed};
use crate::expand::{expand_top, top_chars};
use crate::token::{Token, TokenV};

verus! {

/// The result of one translation: the emitted expression text, and —
/// when the translation aborted — the diagnostic.  On an abort the
/// emitted text is the stand-in inert expression `()`, so that
/// downstream consumers do not additionally report a missing output.
#[derive(Debug)]
pub struct Expansion {
    pub code: String,
    pub diag: Option<Diag>,
}

/// What the whole translation emits for a token sequence: the output
/// text together with the diagnostic, if any.
pub open spec fn mview_chars(t: Seq<TokenV>) -> (Seq<char>, Option<DiagV>) {
    match spec_children(t, 0, t.len() as int, Seq::empty()) {
        POut::Found { v: cs, next } => if next != t.len() {
            ("()"@, Some(DiagV { at: next, msg: "invalid child"@ }))
        } else {
            match top_chars(cs) {
                Ok(s) => (s, None),
                Err(d) => ("()"@, Some(d)),
            }
        },
        POut::Fail => ("()"@, Some(DiagV { at: 0, msg: "invalid child"@ })),
        POut::Abort { at, msg } => ("()"@, Some(DiagV { at, msg })),
    }
}

/// The exec diagnostic agrees with the spec diagnostic.
pub open spec fn diag_obeys(s: Option<DiagV>, r: Option<Diag>) -> bool {
    match s {
        Some(v) => r matches Some(x) && x.deep_view() == v,
        None => r is None,
    }
}

/// The whole pipeline: parses the tokens as a children sequence and
/// expands it.  Exactly one top-level child expands alone; zero or
/// several build a fragment, after top-level slots are rejected.  On
/// any hard abort the output is the stand-in `()` plus the diagnostic.
pub fn mview_impl(toks: Vec<Token>) -> (r: Expansion)
    ensures
        r.code@ == mview_chars(toks.deep_view()).0,
        diag_obeys(mview_chars(toks.deep_view()).1, r.diag),
{
    let limit = toks.len();
    let mut cursor = Cursor::new(toks);
    let empty: Vec<Child> = Vec::new();
    proof {
        assert(empty.deep_view() =~= Seq::<ChildV>::empty());
    }
    match cursor.parse_children_vec(limit, empty) {
        Parsed::Found(cs) => {
            if !cursor.at_end() {
                Expansion {
                    code: "()".to_owned(),
                    diag: Some(Diag::new(cursor.pos, "invalid child")),
                }
            } else {
                match expand_top(&cs) {
                    Ok(code) => Expansion { code, diag: None },
                    Err(d) => Expansion { code: "()".to_owned(), diag: Some(d) },
                }
            }
        },
        Parsed::Fail => {
            proof {
                assert(false);
            }
            Expansion { code: "()".to_owned(), diag: None }
        },
        Parsed::Abort(d) => Expansion { code: "()".to_owned(), diag: Some(d) },
    }
}

} // verus!
