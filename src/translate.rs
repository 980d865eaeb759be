//! The core walk: one construction call for each token of a template.
use vstd::prelude::*;
use vstd::string::*;
use crate::token::{Delimiter, Spacing, Token, tokens_text, token_text, punct_text, open_text, close_text};
use crate::token::{push_word, push_punct, push_open, push_close};

verus! {

/// One call of the runtime construction API, appending to the output buffer.
#[derive(Debug)]
pub enum Call {
    /// Lex the text and append the tokens it holds.
    Parse(String),
    /// Append one identifier.
    Ident(String),
    /// Append one punctuation character.
    Punct(Spacing, char),
    /// Append one group, whose children the inner calls append.
    Group(Delimiter, Vec<Call>),
}

/// The escape that marks a raw identifier.
pub open spec fn raw_prefix() -> Seq<char> {
    seq!['r', '#']
}

pub open spec fn is_raw(s: Seq<char>) -> bool {
    s.len() >= 2 && s.subrange(0, 2) == raw_prefix()
}

/// The call that stands for a token: `Parse` for a literal and for a raw
/// identifier, `Ident` for another identifier, `Punct` with the same spacing,
/// and `Group` with the same delimiter and the calls of the children in order.
pub open spec fn translates(t: Token, c: Call) -> bool
    decreases t,
{
    match t {
        Token::Literal(s) => c is Parse && c->Parse_0@ == s@,
        Token::Ident(s) => if is_raw(s@) {
            c is Parse && c->Parse_0@ == s@
        } else {
            c is Ident && c->Ident_0@ == s@
        },
        Token::Punct(ch, sp) => c == Call::Punct(sp, ch),
        Token::Group(d, ch) => c is Group && c->Group_0 == d && translates_all(ch@, c->Group_1@),
    }
}

/// Calls stand for tokens one for one, in the same order.
pub open spec fn translates_all(ts: Seq<Token>, cs: Seq<Call>) -> bool
    decreases ts,
{
    ts.len() == cs.len() && (ts.len() == 0 || (translates_all(
        ts.subrange(0, ts.len() - 1),
        cs.subrange(0, cs.len() - 1),
    ) && translates(ts[ts.len() - 1], cs[cs.len() - 1])))
}

/// The canonical text of what a call appends. The runtime's `parse` is handed
/// the text of one token, and appends a token whose text is that text.
pub open spec fn call_text(c: Call) -> Seq<char>
    decreases c,
{
    match c {
        Call::Parse(s) => s@.push(' '),
        Call::Ident(s) => s@.push(' '),
        Call::Punct(sp, ch) => punct_text(ch, sp),
        Call::Group(d, cs) => open_text(d) + calls_text(cs@) + close_text(d),
    }
}

/// The canonical text of what a sequence of calls appends, in order.
pub open spec fn calls_text(cs: Seq<Call>) -> Seq<char>
    decreases cs,
{
    if cs.len() == 0 {
        seq![]
    } else {
        calls_text(cs.subrange(0, cs.len() - 1)) + call_text(cs[cs.len() - 1])
    }
}

/// Relies on str::starts_with: whether the pattern is a prefix of the text.
#[verifier::external_body]
fn starts_with(s: &str, p: &str) -> (r: bool)
    ensures
        r == (p@.len() <= s@.len() && s@.subrange(0, p@.len() as int) == p@),
{
    s.starts_with(p)
}

/// Whether an identifier's text is raw, `r#` followed by its name.
pub fn is_raw_ident(s: &String) -> (r: bool)
    ensures
        r == is_raw(s@),
{
    let p = String::from_str("r#");
    proof {
        reveal_strlit("r#");
        assert(p@ =~= raw_prefix());
    }
    starts_with(s.as_str(), p.as_str())
}

/// The call that appends one token.
pub fn translate_token(t: &Token) -> (c: Call)
    ensures
        translates(*t, c),
    decreases t,
{
    match t {
        Token::Literal(s) => Call::Parse(s.clone()),
        Token::Ident(s) => {
            if is_raw_ident(s) {
                Call::Parse(s.clone())
            } else {
                Call::Ident(s.clone())
            }
        },
        Token::Punct(ch, sp) => Call::Punct(*sp, *ch),
        Token::Group(d, ch) => {
            let cs = translate_from(ch, 0);
            assert(ch@.subrange(0, ch.len() as int) =~= ch@);
            Call::Group(*d, cs)
        },
    }
}

/// The calls that append the tokens of `ts` from index `start` on: one per
/// token, in order, each group's children translated inside its own call.
pub fn translate_from(ts: &Vec<Token>, start: usize) -> (cs: Vec<Call>)
    requires
        start <= ts.len(),
    ensures
        translates_all(ts@.subrange(start as int, ts.len() as int), cs@),
    decreases ts,
{
    let mut cs: Vec<Call> = Vec::new();
    let mut i: usize = start;
    assert(ts@.subrange(start as int, start as int).len() == 0);
    while i < ts.len()
        invariant
            start <= i <= ts.len(),
            translates_all(ts@.subrange(start as int, i as int), cs@),
        decreases ts.len() - i,
    {
        assert(decreases_to!(ts => ts[i as int]));
        let c = translate_token(&ts[i]);
        let ghost prev = cs@;
        cs.push(c);
        let ghost done = ts@.subrange(start as int, i + 1);
        assert(done.subrange(0, done.len() - 1) =~= ts@.subrange(start as int, i as int));
        assert(done[done.len() - 1] == ts@[i as int]);
        assert(cs@.subrange(0, cs@.len() - 1) =~= prev);
        i = i + 1;
    }
    cs
}

/// The calls that append a token sequence: one per token, in order.
pub fn translate(ts: &Vec<Token>) -> (cs: Vec<Call>)
    ensures
        translates_all(ts@, cs@),
{
    let cs = translate_from(ts, 0);
    assert(ts@.subrange(0, ts.len() as int) =~= ts@);
    cs
}

fn write_call(out: &mut String, c: &Call)
    ensures
        final(out)@ == old(out)@ + call_text(*c),
    decreases c,
{
    match c {
        Call::Parse(s) => push_word(out, s),
        Call::Ident(s) => push_word(out, s),
        Call::Punct(sp, ch) => push_punct(out, *ch, *sp),
        Call::Group(d, cs) => {
            push_open(out, *d);
            write_calls(out, cs);
            push_close(out, *d);
            assert(final(out)@ =~= old(out)@ + call_text(*c));
        },
    }
}

fn write_calls(out: &mut String, cs: &Vec<Call>)
    ensures
        final(out)@ == old(out)@ + calls_text(cs@),
    decreases cs,
{
    let ghost start = out@;
    let mut i: usize = 0;
    while i < cs.len()
        invariant
            0 <= i <= cs.len(),
            out@ == start + calls_text(cs@.subrange(0, i as int)),
        decreases cs.len() - i,
    {
        assert(decreases_to!(cs => cs[i as int]));
        write_call(out, &cs[i]);
        assert(cs@.subrange(0, i + 1).subrange(0, i as int) =~= cs@.subrange(0, i as int));
        assert(out@ =~= start + calls_text(cs@.subrange(0, i + 1)));
        i = i + 1;
    }
    assert(cs@.subrange(0, cs.len() as int) =~= cs@);
}

/// Writes the canonical text of the tokens that a sequence of calls appends.
pub fn render_calls(cs: &Vec<Call>) -> (r: String)
    ensures
        r@ == calls_text(cs@),
{
    let mut out = String::new();
    write_calls(&mut out, cs);
    assert(out@ =~= calls_text(cs@));
    out
}

/// Running the call of a token appends a token with the same canonical text.
pub proof fn lemma_token_round_trip(t: Token, c: Call)
    requires
        translates(t, c),
    ensures
        call_text(c) == token_text(t),
    decreases t,
{
    match t {
        Token::Group(d, ch) => {
            lemma_round_trip(ch@, c->Group_1@);
        },
        _ => {},
    }
}

/// Running the calls of a token sequence appends tokens whose canonical text
/// is that of the sequence: same tokens, same order, same spacing, at every
/// depth of nesting.
pub proof fn lemma_round_trip(ts: Seq<Token>, cs: Seq<Call>)
    requires
        translates_all(ts, cs),
    ensures
        calls_text(cs) == tokens_text(ts),
    decreases ts,
{
    if ts.len() > 0 {
        lemma_round_trip(ts.subrange(0, ts.len() - 1), cs.subrange(0, cs.len() - 1));
        lemma_token_round_trip(ts[ts.len() - 1], cs[cs.len() - 1]);
    }
}

/// The n-th call stands for the n-th token; inside a group, the n-th call
/// among the group's calls stands for the group's n-th child.
pub proof fn lemma_order_preserved(ts: Seq<Token>, cs: Seq<Call>)
    requires
        translates_all(ts, cs),
    ensures
        cs.len() == ts.len(),
        forall|i: int| 0 <= i < ts.len() ==> translates(#[trigger] ts[i], cs[i]),
    decreases ts.len(),
{
    if ts.len() > 0 {
        let n = ts.len() - 1;
        lemma_order_preserved(ts.subrange(0, n), cs.subrange(0, n));
        assert forall|i: int| 0 <= i < ts.len() implies translates(#[trigger] ts[i], cs[i]) by {
            if i < n {
                assert(ts.subrange(0, n)[i] == ts[i]);
                assert(cs.subrange(0, n)[i] == cs[i]);
            }
        }
    }
}

/// A punctuation token is appended by a `Punct` call with its own character
/// and its own spacing.
pub proof fn lemma_spacing_kept(ts: Seq<Token>, cs: Seq<Call>, i: int)
    requires
        translates_all(ts, cs),
        0 <= i < ts.len(),
        ts[i] is Punct,
    ensures
        cs[i] == Call::Punct(ts[i]->Punct_1, ts[i]->Punct_0),
{
    lemma_order_preserved(ts, cs);
}

/// A raw identifier is appended by a `Parse` call with its whole text, never
/// by an `Ident` call.
pub proof fn lemma_raw_ident_parsed(ts: Seq<Token>, cs: Seq<Call>, i: int)
    requires
        translates_all(ts, cs),
        0 <= i < ts.len(),
        ts[i] is Ident,
        is_raw(ts[i]->Ident_0@),
    ensures
        cs[i] is Parse,
        cs[i]->Parse_0@ == ts[i]->Ident_0@,
        !(cs[i] is Ident),
{
    lemma_order_preserved(ts, cs);
}

/// An empty template has no calls, and its calls append nothing.
pub proof fn lemma_empty_appends_nothing(cs: Seq<Call>)
    requires
        translates_all(Seq::<Token>::empty(), cs),
    ensures
        cs.len() == 0,
        calls_text(cs).len() == 0,
{
}

} // verus!
