//! The value model: what may stand on the right of `key=`, or alone as
//! a child.
//!
//! A value is a literal, an opaque braced block (`{expr}`), or the
//! bracket sugar (`[expr]`) that lowers to a zero-parameter closure
//! around the expression.  Block and bracket payloads are captured
//! verbatim and never re-parsed as template syntax.

use vstd::prelude::*;

use crate::cursor::{spec_group, Cursor};
use crate::diag::{obeys, POut, Parsed};
use crate::token::{Delim, Token, TokenV};

verus! {

/// A literal value.
#[derive(Debug)]
pub enum Lit {
    /// A string literal; the content between the quotes.
    Str(String),
    /// An integer literal, kept as its raw digit text.
    Int(String),
    /// A boolean literal.
    Bool(bool),
}

/// The model of a [`Lit`].
pub enum LitV {
    Str(Seq<char>),
    Int(Seq<char>),
    Bool(bool),
}

impl DeepView for Lit {
    type V = LitV;

    open spec fn deep_view(&self) -> LitV {
        match self {
            Lit::Str(s) => LitV::Str(s@),
            Lit::Int(s) => LitV::Int(s@),
            Lit::Bool(b) => LitV::Bool(*b),
        }
    }
}

/// A value expression.
#[derive(Debug)]
pub enum Value {
    /// A literal, emitted verbatim.
    Lit(Lit),
    /// An opaque host-language expression in braces, emitted verbatim.
    Block(Vec<Token>),
    /// Bracket sugar: lowers to a zero-parameter closure whose body is
    /// the captured expression.
    BracketClosure(Vec<Token>),
}

/// The model of a [`Value`].
pub enum ValueV {
    Lit(LitV),
    Block(Seq<TokenV>),
    BracketClosure(Seq<TokenV>),
}

impl DeepView for Value {
    type V = ValueV;

    open spec fn deep_view(&self) -> ValueV {
        match self {
            Value::Lit(l) => ValueV::Lit(l.deep_view()),
            Value::Block(ts) => ValueV::Block(ts.deep_view()),
            Value::BracketClosure(ts) => ValueV::BracketClosure(ts.deep_view()),
        }
    }
}

impl ValueV {
    /// Whether this value is a literal other than a string: such a
    /// value may not stand in child position.
    pub open spec fn is_non_string_lit(self) -> bool {
        match self {
            ValueV::Lit(LitV::Str(_)) => false,
            ValueV::Lit(_) => true,
            _ => false,
        }
    }
}

/// One literal token as a value.
pub open spec fn spec_lit(t: Seq<TokenV>, p: int) -> POut<LitV> {
    if 0 <= p < t.len() {
        match t[p] {
            TokenV::LitStr { text } => POut::Found { v: LitV::Str(text), next: p + 1 },
            TokenV::LitInt { digits } => POut::Found { v: LitV::Int(digits), next: p + 1 },
            TokenV::Ident { name, .. } => if name == "true"@ {
                POut::Found { v: LitV::Bool(true), next: p + 1 }
            } else if name == "false"@ {
                POut::Found { v: LitV::Bool(false), next: p + 1 }
            } else {
                POut::Fail
            },
            _ => POut::Fail,
        }
    } else {
        POut::Fail
    }
}

/// A value position: bracket sugar first, then a block, then a literal.
pub open spec fn spec_value(t: Seq<TokenV>, p: int) -> POut<ValueV> {
    match spec_group(t, Delim::Bracket, p) {
        POut::Found { v, next } => POut::Found { v: ValueV::BracketClosure(v), next },
        _ => match spec_group(t, Delim::Brace, p) {
            POut::Found { v, next } => POut::Found { v: ValueV::Block(v), next },
            _ => match spec_lit(t, p) {
                POut::Found { v, next } => POut::Found { v: ValueV::Lit(v), next },
                _ => POut::Fail,
            },
        },
    }
}

impl Cursor {
    /// One value.  On failure the cursor is untouched.
    pub fn parse_value(&mut self) -> (r: Parsed<Value>)
        requires
            old(self).wf(),
        ensures
            final(self).wf(),
            final(self).toks == old(self).toks,
            obeys::<Value>(
                spec_value(old(self).tv(), old(self).pos as int),
                r,
                old(self).pos as int,
                final(self).pos as int,
            ),
            r is Found ==> final(self).pos > old(self).pos,
    {
        match self.capture_group(Delim::Bracket) {
            Parsed::Found(ts) => {
                return Parsed::Found(Value::BracketClosure(ts));
            },
            Parsed::Abort(d) => {
                proof {
                    assert(false);
                }
                return Parsed::Abort(d);
            },
            Parsed::Fail => {},
        }
        match self.capture_group(Delim::Brace) {
            Parsed::Found(ts) => {
                return Parsed::Found(Value::Block(ts));
            },
            Parsed::Abort(d) => {
                proof {
                    assert(false);
                }
                return Parsed::Abort(d);
            },
            Parsed::Fail => {},
        }
        let mut lit: Option<Lit> = None;
        if self.pos < self.toks.len() {
            match &self.toks[self.pos] {
                Token::LitStr { text } => {
                    lit = Some(Lit::Str(text.clone()));
                },
                Token::LitInt { digits } => {
                    lit = Some(Lit::Int(digits.clone()));
                },
                Token::Ident { name, .. } => {
                    if *name == "true".to_owned() {
                        lit = Some(Lit::Bool(true));
                    } else if *name == "false".to_owned() {
                        lit = Some(Lit::Bool(false));
                    }
                },
                _ => {},
            }
        }
        match lit {
            Some(l) => {
                self.pos = self.pos + 1;
                Parsed::Found(Value::Lit(l))
            },
            None => Parsed::Fail,
        }
    }
}

} // verus!
