//! The token trees that a template is made of, and their canonical text.
use vstd::prelude::*;
use vstd::string::*;

verus! {

/// Whether a punctuation character is glued to the punctuation that follows it.
#[derive(Clone, Copy, Debug, PartialEq, Eq, Structural)]
pub enum Spacing {
    Alone,
    Joint,
}

/// The bracket pair around a group; `Invisible` groups have none.
#[derive(Clone, Copy, Debug, PartialEq, Eq, Structural)]
pub enum Delimiter {
    Parenthesis,
    Brace,
    Bracket,
    Invisible,
}

/// One lexical token of a template, with groups holding their children.
#[derive(Debug)]
pub enum Token {
    /// A literal, as its source text (`1u8`, `"a\n"`, `'c'`).
    Literal(String),
    /// An identifier, raw ones with their `r#` prefix.
    Ident(String),
    /// A single punctuation character.
    Punct(char, Spacing),
    /// A delimited group of tokens.
    Group(Delimiter, Vec<Token>),
}

pub open spec fn open_text(d: Delimiter) -> Seq<char> {
    match d {
        Delimiter::Parenthesis => seq!['(', ' '],
        Delimiter::Brace => seq!['{', ' '],
        Delimiter::Bracket => seq!['[', ' '],
        Delimiter::Invisible => seq![],
    }
}

pub open spec fn close_text(d: Delimiter) -> Seq<char> {
    match d {
        Delimiter::Parenthesis => seq![')', ' '],
        Delimiter::Brace => seq!['}', ' '],
        Delimiter::Bracket => seq![']', ' '],
        Delimiter::Invisible => seq![],
    }
}

/// A joint character is written with nothing after it, so that the next
/// punctuation character follows it directly.
pub open spec fn punct_text(c: char, sp: Spacing) -> Seq<char> {
    match sp {
        Spacing::Alone => seq![c, ' '],
        Spacing::Joint => seq![c],
    }
}

/// The canonical text of a token: its own text, then a space unless it is a
/// joint punctuation character; a group writes its brackets around its children.
pub open spec fn token_text(t: Token) -> Seq<char>
    decreases t,
{
    match t {
        Token::Literal(s) => s@.push(' '),
        Token::Ident(s) => s@.push(' '),
        Token::Punct(c, sp) => punct_text(c, sp),
        Token::Group(d, ch) => open_text(d) + tokens_text(ch@) + close_text(d),
    }
}

/// The canonical text of a token sequence: the texts of its tokens in order.
pub open spec fn tokens_text(ts: Seq<Token>) -> Seq<char>
    decreases ts,
{
    if ts.len() == 0 {
        seq![]
    } else {
        tokens_text(ts.subrange(0, ts.len() - 1)) + token_text(ts[ts.len() - 1])
    }
}

/// Relies on String::push: the character is added at the end.
#[verifier::external_body]
pub(crate) fn push_char(out: &mut String, c: char)
    ensures
        final(out)@ == old(out)@.push(c),
{
    out.push(c);
}

pub(crate) fn push_open(out: &mut String, d: Delimiter)
    ensures
        final(out)@ == old(out)@ + open_text(d),
{
    match d {
        Delimiter::Parenthesis => { push_char(out, '('); push_char(out, ' '); },
        Delimiter::Brace => { push_char(out, '{'); push_char(out, ' '); },
        Delimiter::Bracket => { push_char(out, '['); push_char(out, ' '); },
        Delimiter::Invisible => {},
    }
    assert(final(out)@ =~= old(out)@ + open_text(d));
}

pub(crate) fn push_close(out: &mut String, d: Delimiter)
    ensures
        final(out)@ == old(out)@ + close_text(d),
{
    match d {
        Delimiter::Parenthesis => { push_char(out, ')'); push_char(out, ' '); },
        Delimiter::Brace => { push_char(out, '}'); push_char(out, ' '); },
        Delimiter::Bracket => { push_char(out, ']'); push_char(out, ' '); },
        Delimiter::Invisible => {},
    }
    assert(final(out)@ =~= old(out)@ + close_text(d));
}

pub(crate) fn push_punct(out: &mut String, c: char, sp: Spacing)
    ensures
        final(out)@ == old(out)@ + punct_text(c, sp),
{
    push_char(out, c);
    match sp {
        Spacing::Alone => push_char(out, ' '),
        Spacing::Joint => {},
    }
    assert(final(out)@ =~= old(out)@ + punct_text(c, sp));
}

/// Appends a word (a literal's or an identifier's text) and the space after it.
pub(crate) fn push_word(out: &mut String, s: &String)
    ensures
        final(out)@ == old(out)@ + s@.push(' '),
{
    out.append(s.as_str());
    push_char(out, ' ');
    assert(final(out)@ =~= old(out)@ + s@.push(' '));
}

fn write_token(out: &mut String, t: &Token)
    ensures
        final(out)@ == old(out)@ + token_text(*t),
    decreases t,
{
    match t {
        Token::Literal(s) => push_word(out, s),
        Token::Ident(s) => push_word(out, s),
        Token::Punct(c, sp) => push_punct(out, *c, *sp),
        Token::Group(d, ch) => {
            push_open(out, *d);
            write_tokens(out, ch);
            push_close(out, *d);
            assert(final(out)@ =~= old(out)@ + token_text(*t));
        },
    }
}

fn write_tokens(out: &mut String, ts: &Vec<Token>)
    ensures
        final(out)@ == old(out)@ + tokens_text(ts@),
    decreases ts,
{
    let ghost start = out@;
    let mut i: usize = 0;
    while i < ts.len()
        invariant
            0 <= i <= ts.len(),
            out@ == start + tokens_text(ts@.subrange(0, i as int)),
        decreases ts.len() - i,
    {
        assert(decreases_to!(ts => ts[i as int]));
        write_token(out, &ts[i]);
        assert(ts@.subrange(0, i + 1).subrange(0, i as int) =~= ts@.subrange(0, i as int));
        assert(out@ =~= start + tokens_text(ts@.subrange(0, i + 1)));
        i = i + 1;
    }
    assert(ts@.subrange(0, ts.len() as int) =~= ts@);
}

/// Writes a token sequence as its canonical text.
pub fn render(ts: &Vec<Token>) -> (r: String)
    ensures
        r@ == tokens_text(ts@),
{
    let mut out = String::new();
    write_tokens(&mut out, ts);
    assert(out@ =~= tokens_text(ts@));
    out
}

} // verus!
