//! Lexical primitives: the token alphabet the parser consumes and the
//! verbatim rendering of captured token runs.
//!
//! The input of the whole pipeline is a flat sequence of [`Token`]s, the
//! pre-tokenized form of the template source.  Opaque host-language
//! expressions (the payload of a block or bracket value) are captured as
//! token runs and re-emitted verbatim by [`render_tokens`]: tokens are
//! printed with a single space between them, which the host language
//! treats the same as the original spacing.

use vstd::prelude::*;

verus! {

/// The three bracket shapes that delimit token groups.
#[derive(Clone, Copy, PartialEq, Eq, Structural, Debug)]
pub enum Delim {
    Brace,
    Bracket,
    Paren,
}

/// One pre-tokenized unit of template source.
///
/// `spaced` on identifiers and punctuation records whether whitespace
/// stood immediately before the token; the grammar needs it to tell a
/// kebab-cased identifier run (`data-index`, no spaces) from separate
/// tokens, and to demand the space in `nav #main`.
#[derive(Debug)]
pub enum Token {
    /// An identifier or keyword segment.
    Ident { name: String, spaced: bool },
    /// A string literal; `text` is the content between the quotes.
    LitStr { text: String },
    /// An integer literal, kept as its raw digit text.
    LitInt { digits: String },
    /// A single punctuation character.
    Punct { ch: char, spaced: bool },
    /// The two-character punctuation `..`.
    DotDot,
    /// An opening delimiter.
    Open { delim: Delim },
    /// A closing delimiter.
    Close { delim: Delim },
}

/// The mathematical model of a [`Token`]: text is a sequence of chars.
pub enum TokenV {
    Ident { name: Seq<char>, spaced: bool },
    LitStr { text: Seq<char> },
    LitInt { digits: Seq<char> },
    Punct { ch: char, spaced: bool },
    DotDot,
    Open { delim: Delim },
    Close { delim: Delim },
}

impl DeepView for Token {
    type V = TokenV;

    open spec fn deep_view(&self) -> TokenV {
        match self {
            Token::Ident { name, spaced } => TokenV::Ident { name: name@, spaced: *spaced },
            Token::LitStr { text } => TokenV::LitStr { text: text@ },
            Token::LitInt { digits } => TokenV::LitInt { digits: digits@ },
            Token::Punct { ch, spaced } => TokenV::Punct { ch: *ch, spaced: *spaced },
            Token::DotDot => TokenV::DotDot,
            Token::Open { delim } => TokenV::Open { delim: *delim },
            Token::Close { delim } => TokenV::Close { delim: *delim },
        }
    }
}

impl Token {
    /// A structural copy of the token.
    pub fn dup(&self) -> (r: Token)
        ensures
            r.deep_view() == self.deep_view(),
    {
        match self {
            Token::Ident { name, spaced } => Token::Ident { name: name.clone(), spaced: *spaced },
            Token::LitStr { text } => Token::LitStr { text: text.clone() },
            Token::LitInt { digits } => Token::LitInt { digits: digits.clone() },
            Token::Punct { ch, spaced } => Token::Punct { ch: *ch, spaced: *spaced },
            Token::DotDot => Token::DotDot,
            Token::Open { delim } => Token::Open { delim: *delim },
            Token::Close { delim } => Token::Close { delim: *delim },
        }
    }
}

/// Relies on `String::push`: appends exactly the given character.
#[verifier::external_body]
pub fn push_char(s: &mut String, c: char)
    ensures
        final(s)@ == old(s)@ + seq![c],
{
    s.push(c)
}

/// Whether the token at `i` is the punctuation `c`.
pub open spec fn tok_is_punct(t: Seq<TokenV>, i: int, c: char) -> bool {
    0 <= i < t.len() && match t[i] {
        TokenV::Punct { ch, .. } => ch == c,
        _ => false,
    }
}

/// The identifier text at `i`, if the token there is an identifier.
pub open spec fn tok_ident_name(t: Seq<TokenV>, i: int) -> Option<Seq<char>> {
    if 0 <= i < t.len() {
        match t[i] {
            TokenV::Ident { name, .. } => Some(name),
            _ => None,
        }
    } else {
        None
    }
}

/// Whether the token at `i` opens a group of delimiter `d`.
pub open spec fn tok_is_open(t: Seq<TokenV>, i: int, d: Delim) -> bool {
    0 <= i < t.len() && t[i] == (TokenV::Open { delim: d })
}

/// Whether the token at `i` is `..`.
pub open spec fn tok_is_dotdot(t: Seq<TokenV>, i: int) -> bool {
    0 <= i < t.len() && t[i] == TokenV::DotDot
}

/// The text of an opening delimiter.
pub open spec fn open_chars(d: Delim) -> Seq<char> {
    match d {
        Delim::Brace => "{"@,
        Delim::Bracket => "["@,
        Delim::Paren => "("@,
    }
}

/// The text of a closing delimiter.
pub open spec fn close_chars(d: Delim) -> Seq<char> {
    match d {
        Delim::Brace => "}"@,
        Delim::Bracket => "]"@,
        Delim::Paren => ")"@,
    }
}

/// The verbatim text of one token.  String literals regain their quotes;
/// recorded spacing is not part of the text.
pub open spec fn tok_chars(t: TokenV) -> Seq<char> {
    match t {
        TokenV::Ident { name, .. } => name,
        TokenV::LitStr { text } => "\""@ + text + "\""@,
        TokenV::LitInt { digits } => digits,
        TokenV::Punct { ch, .. } => seq![ch],
        TokenV::DotDot => ".."@,
        TokenV::Open { delim } => open_chars(delim),
        TokenV::Close { delim } => close_chars(delim),
    }
}

/// The verbatim text of a token run: tokens joined by single spaces.
pub open spec fn render_toks(ts: Seq<TokenV>) -> Seq<char>
    decreases ts.len(),
{
    if ts.len() == 0 {
        Seq::empty()
    } else if ts.len() == 1 {
        tok_chars(ts[0])
    } else {
        tok_chars(ts[0]) + " "@ + render_toks(ts.drop_first())
    }
}

/// Exec rendering of one token, equal to its model text.
pub fn token_text(t: &Token) -> (r: String)
    ensures
        r@ == tok_chars(t.deep_view()),
{
    match t {
        Token::Ident { name, .. } => name.clone(),
        Token::LitStr { text } => {
            let mut s = "\"".to_owned();
            s.append(text.as_str());
            s.append("\"");
            s
        },
        Token::LitInt { digits } => digits.clone(),
        Token::Punct { ch, .. } => {
            let mut s = String::new();
            push_char(&mut s, *ch);
            proof {
                assert(s@ =~= seq![*ch]);
            }
            s
        },
        Token::DotDot => "..".to_owned(),
        Token::Open { delim } => match delim {
            Delim::Brace => "{".to_owned(),
            Delim::Bracket => "[".to_owned(),
            Delim::Paren => "(".to_owned(),
        },
        Token::Close { delim } => match delim {
            Delim::Brace => "}".to_owned(),
            Delim::Bracket => "]".to_owned(),
            Delim::Paren => ")".to_owned(),
        },
    }
}

/// Exec rendering of the token run `ts[i..]`.
fn render_from(ts: &Vec<Token>, i: usize) -> (r: String)
    requires
        i <= ts.len(),
    ensures
        r@ == render_toks(ts.deep_view().skip(i as int)),
    decreases ts.len() - i,
{
    if i == ts.len() {
        proof {
            assert(ts.deep_view().skip(i as int) =~= Seq::<TokenV>::empty());
        }
        String::new()
    } else if i + 1 == ts.len() {
        proof {
            assert(ts.deep_view().skip(i as int) =~= seq![ts.deep_view()[i as int]]);
        }
        token_text(&ts[i])
    } else {
        let mut s = token_text(&ts[i]);
        s.append(" ");
        let rest = render_from(ts, i + 1);
        s.append(rest.as_str());
        proof {
            let suffix = ts.deep_view().skip(i as int);
            assert(suffix[0] == ts.deep_view()[i as int]);
            assert(suffix.drop_first() =~= ts.deep_view().skip(i + 1));
            assert(s@ =~= render_toks(suffix));
        }
        s
    }
}

/// The verbatim text of a captured token run.
pub fn render_tokens(ts: &Vec<Token>) -> (r: String)
    ensures
        r@ == render_toks(ts.deep_view()),
{
    let r = render_from(ts, 0);
    proof {
        assert(ts.deep_view().skip(0) =~= ts.deep_view());
    }
    r
}

} // verus!
