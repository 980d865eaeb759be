//! The code of the generated function, as the token trees a compiler reads.
use vstd::prelude::*;
use vstd::string::*;
use crate::token::{Delimiter, Spacing, Token};
use crate::translate::{Call, translates, translates_all, translate_from, lemma_order_preserved};

verus! {

/// A token of generated code.
#[derive(Debug)]
pub enum Emitted {
    Ident(String),
    Punct(char, Spacing),
    /// A string literal whose value is the given text.
    StrLit(String),
    /// A character literal.
    CharLit(char),
    Group(Delimiter, Vec<Emitted>),
}

/// Why no function could be generated.
#[derive(Clone, Copy, Debug, PartialEq, Eq, Structural)]
pub enum QuoteError {
    /// The template does not start with the name of the function.
    ExpectedName,
}

pub open spec fn is_ident(e: Emitted, s: Seq<char>) -> bool {
    e is Ident && e->Ident_0@ == s
}

pub open spec fn is_group(e: Emitted, d: Delimiter) -> bool {
    e is Group && e->Group_0 == d
}

pub open spec fn spacing_name(sp: Spacing) -> Seq<char> {
    match sp {
        Spacing::Alone => "Alone"@,
        Spacing::Joint => "Joint"@,
    }
}

pub open spec fn delimiter_name(d: Delimiter) -> Seq<char> {
    match d {
        Delimiter::Parenthesis => "Parenthesis"@,
        Delimiter::Brace => "Brace"@,
        Delimiter::Bracket => "Bracket"@,
        Delimiter::Invisible => "None"@,
    }
}

/// `::quote::quote_proc_macro_rt!( .. )`: an invocation of the runtime's
/// construction macro.
pub open spec fn is_helper(e: Seq<Emitted>) -> bool {
    &&& e.len() == 8
    &&& e[0] == Emitted::Punct(':', Spacing::Joint)
    &&& e[1] == Emitted::Punct(':', Spacing::Alone)
    &&& is_ident(e[2], "quote"@)
    &&& e[3] == Emitted::Punct(':', Spacing::Joint)
    &&& e[4] == Emitted::Punct(':', Spacing::Alone)
    &&& is_ident(e[5], "quote_proc_macro_rt"@)
    &&& e[6] == Emitted::Punct('!', Spacing::Alone)
    &&& is_group(e[7], Delimiter::Parenthesis)
}

/// The arguments of an invocation that `is_helper` holds of.
pub open spec fn helper_args(e: Seq<Emitted>) -> Seq<Emitted> {
    e[7]->Group_1@
}

/// The arguments start with the constructor's tag and the two variables.
pub open spec fn has_head(a: Seq<Emitted>, tag: Seq<char>) -> bool {
    a.len() >= 3 && is_ident(a[0], tag) && is_ident(a[1], "tokens"@) && is_ident(a[2], "span"@)
}

/// The statement `e` is the one that performs call `c`: an invocation of the
/// runtime macro followed by `;`.
pub open spec fn stmt_for(c: Call, e: Seq<Emitted>) -> bool
    decreases c,
{
    &&& e.len() == 9
    &&& is_helper(e.subrange(0, 8))
    &&& e[8] == Emitted::Punct(';', Spacing::Alone)
    &&& {
        let a = helper_args(e.subrange(0, 8));
        match c {
            Call::Parse(s) => a.len() == 4 && has_head(a, "parse"@) && a[3] is StrLit
                && a[3]->StrLit_0@ == s@,
            Call::Ident(s) => a.len() == 4 && has_head(a, "Ident"@) && a[3] is StrLit
                && a[3]->StrLit_0@ == s@,
            Call::Punct(sp, ch) => a.len() == 5 && has_head(a, "Punct"@) && is_ident(
                a[3],
                spacing_name(sp),
            ) && a[4] == Emitted::CharLit(ch),
            Call::Group(d, cs) => a.len() >= 4 && has_head(a, "Group"@) && is_ident(
                a[3],
                delimiter_name(d),
            ) && stmts_for(cs@, a.subrange(4, a.len() as int)),
        }
    }
}

/// The statements `e` perform the calls `cs` in order, nine tokens each.
pub open spec fn stmts_for(cs: Seq<Call>, e: Seq<Emitted>) -> bool
    decreases cs,
{
    e.len() == 9 * cs.len() && (cs.len() == 0 || (stmts_for(
        cs.subrange(0, cs.len() - 1),
        e.subrange(0, e.len() - 9),
    ) && stmt_for(cs[cs.len() - 1], e.subrange(e.len() - 9, e.len() as int))))
}

/// `e` is the body that rebuilds the tokens `ts`: the statements of the calls
/// that stand for them.
pub open spec fn body_for(ts: Seq<Token>, e: Seq<Emitted>) -> bool {
    exists|cs: Seq<Call>| translates_all(ts, cs) && stmts_for(cs, e)
}

/// `e` is a path to the runtime type `name`, in an invisible group.
pub open spec fn is_runtime_type(e: Emitted, name: Seq<char>) -> bool {
    &&& is_group(e, Delimiter::Invisible)
    &&& is_helper(e->Group_1@)
    &&& helper_args(e->Group_1@).len() == 1
    &&& is_ident(helper_args(e->Group_1@)[0], name)
}

/// `tokens: <TokenStream>, span: <Span>`
pub open spec fn is_signature(e: Seq<Emitted>) -> bool {
    &&& e.len() == 7
    &&& is_ident(e[0], "tokens"@)
    &&& e[1] == Emitted::Punct(':', Spacing::Alone)
    &&& is_runtime_type(e[2], "TokenStream"@)
    &&& e[3] == Emitted::Punct(',', Spacing::Alone)
    &&& is_ident(e[4], "span"@)
    &&& e[5] == Emitted::Punct(':', Spacing::Alone)
    &&& is_runtime_type(e[6], "Span"@)
}

pub fn tt_ident(s: &str) -> (e: Emitted)
    ensures
        is_ident(e, s@),
{
    Emitted::Ident(String::from_str(s))
}

pub fn tt_punct(c: char) -> (e: Emitted)
    ensures
        e == Emitted::Punct(c, Spacing::Alone),
{
    Emitted::Punct(c, Spacing::Alone)
}

pub fn tt_group(d: Delimiter, tts: Vec<Emitted>) -> (e: Emitted)
    ensures
        is_group(e, d),
        e->Group_1@ == tts@,
{
    Emitted::Group(d, tts)
}

/// `::quote::quote_proc_macro_rt!(args)`
pub fn helper(args: Vec<Emitted>) -> (r: Vec<Emitted>)
    ensures
        is_helper(r@),
        helper_args(r@) == args@,
{
    let mut r: Vec<Emitted> = Vec::new();
    r.push(Emitted::Punct(':', Spacing::Joint));
    r.push(Emitted::Punct(':', Spacing::Alone));
    r.push(tt_ident("quote"));
    r.push(Emitted::Punct(':', Spacing::Joint));
    r.push(Emitted::Punct(':', Spacing::Alone));
    r.push(tt_ident("quote_proc_macro_rt"));
    r.push(tt_punct('!'));
    r.push(tt_group(Delimiter::Parenthesis, args));
    r
}

/// `::quote::quote_proc_macro_rt!(args);`
pub fn helper_stmt(args: Vec<Emitted>) -> (r: Vec<Emitted>)
    ensures
        r@.len() == 9,
        is_helper(r@.subrange(0, 8)),
        helper_args(r@.subrange(0, 8)) == args@,
        r@[8] == Emitted::Punct(';', Spacing::Alone),
{
    let mut r = helper(args);
    let ghost h = r@;
    r.push(tt_punct(';'));
    assert(r@.subrange(0, 8) =~= h);
    r
}

/// The constructor's tag followed by the two variables.
fn call_head(tag: &str) -> (a: Vec<Emitted>)
    ensures
        a@.len() == 3,
        has_head(a@, tag@),
{
    let mut a: Vec<Emitted> = Vec::new();
    a.push(tt_ident(tag));
    a.push(tt_ident("tokens"));
    a.push(tt_ident("span"));
    a
}

fn spacing_ident(sp: Spacing) -> (e: Emitted)
    ensures
        is_ident(e, spacing_name(sp)),
{
    match sp {
        Spacing::Alone => tt_ident("Alone"),
        Spacing::Joint => tt_ident("Joint"),
    }
}

fn delimiter_ident(d: Delimiter) -> (e: Emitted)
    ensures
        is_ident(e, delimiter_name(d)),
{
    match d {
        Delimiter::Parenthesis => tt_ident("Parenthesis"),
        Delimiter::Brace => tt_ident("Brace"),
        Delimiter::Bracket => tt_ident("Bracket"),
        Delimiter::Invisible => tt_ident("None"),
    }
}

/// The statement that performs one call.
pub fn emit_call(c: &Call) -> (r: Vec<Emitted>)
    ensures
        stmt_for(*c, r@),
    decreases c,
{
    match c {
        Call::Parse(s) => {
            let mut a = call_head("parse");
            a.push(Emitted::StrLit(s.clone()));
            helper_stmt(a)
        },
        Call::Ident(s) => {
            let mut a = call_head("Ident");
            a.push(Emitted::StrLit(s.clone()));
            helper_stmt(a)
        },
        Call::Punct(sp, ch) => {
            let mut a = call_head("Punct");
            a.push(spacing_ident(*sp));
            a.push(Emitted::CharLit(*ch));
            helper_stmt(a)
        },
        Call::Group(d, cs) => {
            let mut a = call_head("Group");
            a.push(delimiter_ident(*d));
            let mut body = emit_calls(cs);
            let ghost b = body@;
            a.append(&mut body);
            assert(a@.subrange(4, a@.len() as int) =~= b);
            helper_stmt(a)
        },
    }
}

/// The statements that perform a sequence of calls, in order.
pub fn emit_calls(cs: &Vec<Call>) -> (r: Vec<Emitted>)
    ensures
        stmts_for(cs@, r@),
    decreases cs,
{
    let mut r: Vec<Emitted> = Vec::new();
    let mut i: usize = 0;
    while i < cs.len()
        invariant
            0 <= i <= cs.len(),
            stmts_for(cs@.subrange(0, i as int), r@),
        decreases cs.len() - i,
    {
        assert(decreases_to!(cs => cs[i as int]));
        let mut s = emit_call(&cs[i]);
        let ghost prev = r@;
        let ghost st = s@;
        r.append(&mut s);
        let ghost done = cs@.subrange(0, i + 1);
        assert(done.subrange(0, done.len() - 1) =~= cs@.subrange(0, i as int));
        assert(r@.subrange(0, r@.len() - 9) =~= prev);
        assert(r@.subrange(r@.len() - 9, r@.len() as int) =~= st);
        i = i + 1;
    }
    assert(cs@.subrange(0, cs.len() as int) =~= cs@);
    r
}

/// The body that rebuilds the tokens of `ts` from index `start` on.
pub fn quote_stream(ts: &Vec<Token>, start: usize) -> (r: Vec<Emitted>)
    requires
        start <= ts.len(),
    ensures
        body_for(ts@.subrange(start as int, ts.len() as int), r@),
{
    let cs = translate_from(ts, start);
    let r = emit_calls(&cs);
    assert(translates_all(ts@.subrange(start as int, ts.len() as int), cs@) && stmts_for(cs@, r@));
    r
}

/// `name` followed by the path to the runtime type `name`, in an invisible group.
fn runtime_type(name: &str) -> (e: Emitted)
    ensures
        is_runtime_type(e, name@),
{
    let mut a: Vec<Emitted> = Vec::new();
    a.push(tt_ident(name));
    tt_group(Delimiter::Invisible, helper(a))
}

/// The generated function for a template `name tokens..`:
/// `pub fn name(tokens: <TokenStream>, span: <Span>) { .. }`, whose body
/// rebuilds the tokens after the name. It fails exactly when the template
/// does not start with an identifier.
pub fn quote_one_token_func(item: &Vec<Token>) -> (r: Result<Vec<Emitted>, QuoteError>)
    ensures
        r is Err <==> (item@.len() == 0 || !(item@[0] is Ident)),
        r is Err ==> r == Err::<Vec<Emitted>, QuoteError>(QuoteError::ExpectedName),
        r is Ok ==> {
            let out = r->Ok_0@;
            &&& out.len() == 5
            &&& is_ident(out[0], "pub"@)
            &&& is_ident(out[1], "fn"@)
            &&& is_ident(out[2], item@[0]->Ident_0@)
            &&& is_group(out[3], Delimiter::Parenthesis)
            &&& is_signature(out[3]->Group_1@)
            &&& is_group(out[4], Delimiter::Brace)
            &&& body_for(item@.subrange(1, item@.len() as int), out[4]->Group_1@)
        },
{
    if item.len() == 0 {
        return Err(QuoteError::ExpectedName);
    }
    match &item[0] {
        Token::Ident(name) => {
            let mut sig: Vec<Emitted> = Vec::new();
            sig.push(tt_ident("tokens"));
            sig.push(tt_punct(':'));
            sig.push(runtime_type("TokenStream"));
            sig.push(tt_punct(','));
            sig.push(tt_ident("span"));
            sig.push(tt_punct(':'));
            sig.push(runtime_type("Span"));
            let body = quote_stream(item, 1);
            let mut out: Vec<Emitted> = Vec::new();
            out.push(tt_ident("pub"));
            out.push(tt_ident("fn"));
            out.push(Emitted::Ident(name.clone()));
            out.push(tt_group(Delimiter::Parenthesis, sig));
            out.push(tt_group(Delimiter::Brace, body));
            Ok(out)
        },
        _ => Err(QuoteError::ExpectedName),
    }
}

/// The body generated for an empty template holds no statement, so running
/// it appends nothing.
pub proof fn lemma_empty_template_body(e: Seq<Emitted>)
    requires
        body_for(Seq::<Token>::empty(), e),
    ensures
        e.len() == 0,
{
    let cs = choose|cs: Seq<Call>| translates_all(Seq::<Token>::empty(), cs) && stmts_for(cs, e);
}

/// The emitted statements come in call order: the n-th group of nine tokens
/// is the statement of the n-th call.
pub proof fn lemma_statement_order(cs: Seq<Call>, e: Seq<Emitted>)
    requires
        stmts_for(cs, e),
    ensures
        e.len() == 9 * cs.len(),
        forall|i: int|
            0 <= i < cs.len() ==> stmt_for(#[trigger] cs[i], e.subrange(9 * i, 9 * i + 9)),
    decreases cs.len(),
{
    if cs.len() > 0 {
        let n = cs.len() - 1;
        let front = e.subrange(0, e.len() - 9);
        lemma_statement_order(cs.subrange(0, n), front);
        assert forall|i: int|
            0 <= i < cs.len() implies stmt_for(#[trigger] cs[i], e.subrange(9 * i, 9 * i + 9)) by {
            if i < n {
                assert(cs.subrange(0, n)[i] == cs[i]);
                assert(9 * i + 9 <= front.len()) by (nonlinear_arith)
                    requires
                        i < n,
                        front.len() == 9 * n,
                ;
                assert(front.subrange(9 * i, 9 * i + 9) =~= e.subrange(9 * i, 9 * i + 9));
            } else {
                assert(9 * i == e.len() - 9);
            }
        }
    }
}

/// The body for a token sequence holds one statement per token, in order:
/// the n-th statement performs the call that stands for the n-th token.
pub proof fn lemma_body_order(ts: Seq<Token>, e: Seq<Emitted>)
    requires
        body_for(ts, e),
    ensures
        e.len() == 9 * ts.len(),
        exists|cs: Seq<Call>|
            cs.len() == ts.len() && forall|i: int|
                0 <= i < ts.len() ==> translates(#[trigger] ts[i], cs[i]) && stmt_for(
                    cs[i],
                    e.subrange(9 * i, 9 * i + 9),
                ),
{
    let cs = choose|cs: Seq<Call>| translates_all(ts, cs) && stmts_for(cs, e);
    lemma_order_preserved(ts, cs);
    lemma_statement_order(cs, e);
    assert forall|i: int| 0 <= i < ts.len() implies translates(#[trigger] ts[i], cs[i]) && stmt_for(
        cs[i],
        e.subrange(9 * i, 9 * i + 9),
    ) by {
        assert(translates(ts[i], cs[i]));
        assert(stmt_for(cs[i], e.subrange(9 * i, 9 * i + 9)));
    }
}

} // verus!
