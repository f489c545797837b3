//! The token tree a declaration arrives as, and its rendering as text.
use vstd::prelude::*;
use vstd::string::*;

verus! {

/// The delimiter of a token group.
#[derive(Debug, Clone, Copy, PartialEq, Eq, Structural)]
pub enum Delim {
    Paren,
    Bracket,
    Brace,
}

/// The kind of a literal token.
#[derive(Debug, Clone, Copy, PartialEq, Eq, Structural)]
pub enum LitKind {
    Int,
    Str,
    Other,
}

/// One token tree: a leaf, or a delimited group of token trees.
#[derive(Debug, PartialEq, Eq)]
pub enum Token {
    Ident(String),
    /// A literal; a string literal holds its contents without quotes.
    Literal(LitKind, String),
    Group(Delim, Vec<Token>),
    FatArrow,
    Colon,
    Eq,
    Comma,
    Punct(String),
}

pub open spec fn open_text(d: Delim) -> Seq<char> {
    match d {
        Delim::Paren => "("@,
        Delim::Bracket => "["@,
        Delim::Brace => "{"@,
    }
}

pub open spec fn close_text(d: Delim) -> Seq<char> {
    match d {
        Delim::Paren => ")"@,
        Delim::Bracket => "]"@,
        Delim::Brace => "}"@,
    }
}

/// The text of one token tree.
pub open spec fn token_text(t: Token) -> Seq<char>
    decreases t,
{
    match t {
        Token::Ident(s) => s@,
        Token::Literal(_, s) => s@,
        Token::Group(d, v) => open_text(d) + tokens_text(v@) + close_text(d),
        Token::FatArrow => "=>"@,
        Token::Colon => ":"@,
        Token::Eq => "="@,
        Token::Comma => ","@,
        Token::Punct(s) => s@,
    }
}

/// The text of a token sequence, one space between neighbouring tokens.
pub open spec fn tokens_text(ts: Seq<Token>) -> Seq<char>
    decreases ts,
{
    if ts.len() == 0 {
        Seq::empty()
    } else if ts.len() == 1 {
        token_text(ts[0])
    } else {
        tokens_text(ts.drop_last()) + " "@ + token_text(ts.last())
    }
}

impl Delim {
    fn open(&self) -> (r: &'static str)
        ensures
            r@ == open_text(*self),
    {
        match self {
            Delim::Paren => "(",
            Delim::Bracket => "[",
            Delim::Brace => "{",
        }
    }

    fn close(&self) -> (r: &'static str)
        ensures
            r@ == close_text(*self),
    {
        match self {
            Delim::Paren => ")",
            Delim::Bracket => "]",
            Delim::Brace => "}",
        }
    }
}

/// Appends the text of `t` to `out`.
fn push_token_text(out: &mut String, t: &Token)
    ensures
        final(out)@ == old(out)@ + token_text(*t),
    decreases t,
{
    match t {
        Token::Ident(s) => out.append(s.as_str()),
        Token::Literal(_, s) => out.append(s.as_str()),
        Token::Group(d, v) => {
            out.append(d.open());
            assert(v@.subrange(0, v@.len() as int) == v@);
            let inner = render_tokens(v, 0, v.len());
            out.append(inner.as_str());
            out.append(d.close());
        },
        Token::FatArrow => out.append("=>"),
        Token::Colon => out.append(":"),
        Token::Eq => out.append("="),
        Token::Comma => out.append(","),
        Token::Punct(s) => out.append(s.as_str()),
    }
}

/// The text of the tokens `ts[from..to]`.
pub fn render_tokens(ts: &Vec<Token>, from: usize, to: usize) -> (r: String)
    requires
        from <= to <= ts@.len(),
    ensures
        r@ == tokens_text(ts@.subrange(from as int, to as int)),
    decreases ts@,
{
    let mut r = String::new();
    let mut i: usize = from;
    while i < to
        invariant
            from <= i <= to <= ts@.len(),
            r@ == tokens_text(ts@.subrange(from as int, i as int)),
        decreases to - i,
    {
        let ghost next = ts@.subrange(from as int, i + 1);
        assert(next.drop_last() == ts@.subrange(from as int, i as int));
        assert(next.last() == ts@[i as int]);
        if i > from {
            r.append(" ");
        } else {
            assert(r@ + token_text(ts@[i as int]) == token_text(ts@[i as int]));
        }
        push_token_text(&mut r, &ts[i]);
        i = i + 1;
    }
    r
}

} // verus!
