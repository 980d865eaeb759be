use quote_macros::emit::{quote_stream, Emitted, QuoteError};
use quote_macros::quote_one_token_func;
use quote_macros::token::{render, Delimiter, Spacing, Token};
use quote_macros::translate::{is_raw_ident, render_calls, translate, Call};

fn id(s: &str) -> Token {
    Token::Ident(s.to_string())
}

fn show(es: &[Emitted]) -> String {
    let mut out = String::new();
    for e in es {
        match e {
            Emitted::Ident(s) => out.push_str(&format!("{} ", s)),
            Emitted::Punct(c, Spacing::Joint) => out.push(*c),
            Emitted::Punct(c, Spacing::Alone) => out.push_str(&format!("{} ", c)),
            Emitted::StrLit(s) => out.push_str(&format!("{:?} ", s)),
            Emitted::CharLit(c) => out.push_str(&format!("{:?} ", c)),
            Emitted::Group(d, inner) => {
                let (open, close) = match d {
                    Delimiter::Parenthesis => ("( ", ") "),
                    Delimiter::Brace => ("{ ", "} "),
                    Delimiter::Bracket => ("[ ", "] "),
                    Delimiter::Invisible => ("", ""),
                };
                out.push_str(open);
                out.push_str(&show(inner));
                out.push_str(close);
            }
        }
    }
    out
}

fn body_of(out: &[Emitted]) -> &[Emitted] {
    match &out[4] {
        Emitted::Group(Delimiter::Brace, body) => body,
        _ => panic!("no body"),
    }
}

const RT: &str = ":: quote :: quote_proc_macro_rt ! ";

#[test]
fn empty_parenthesized_group() {
    let item = vec![id("myFn"), Token::Group(Delimiter::Parenthesis, vec![])];
    let out = quote_one_token_func(&item).unwrap();
    let expected = format!(
        "pub fn myFn ( tokens : {rt}( TokenStream ) , span : {rt}( Span ) ) {{ {rt}( Group tokens span Parenthesis ) ; }} ",
        rt = RT
    );
    assert_eq!(expected, show(&out));
}

#[test]
fn alone_and_joint_plus() {
    let apart = vec![id("a"), Token::Punct('+', Spacing::Alone), Token::Punct('+', Spacing::Alone), id("b")];
    let glued = vec![id("a"), Token::Punct('+', Spacing::Joint), Token::Punct('+', Spacing::Alone), id("b")];
    let ca = translate(&apart);
    let cg = translate(&glued);
    assert!(matches!(ca[1], Call::Punct(Spacing::Alone, '+')));
    assert!(matches!(ca[2], Call::Punct(Spacing::Alone, '+')));
    assert!(matches!(cg[1], Call::Punct(Spacing::Joint, '+')));
    assert!(matches!(cg[2], Call::Punct(Spacing::Alone, '+')));
    assert_eq!("a + + b ", render_calls(&ca));
    assert_eq!("a ++ b ", render_calls(&cg));
    let body = quote_stream(&glued, 0);
    let expected = format!(
        "{rt}( Ident tokens span \"a\" ) ; {rt}( Punct tokens span Joint '+' ) ; {rt}( Punct tokens span Alone '+' ) ; {rt}( Ident tokens span \"b\" ) ; ",
        rt = RT
    );
    assert_eq!(expected, show(&body));
}

#[test]
fn raw_identifier_is_parsed() {
    let item = vec![id("myFn"), id("r#type")];
    let out = quote_one_token_func(&item).unwrap();
    let expected = format!("{rt}( parse tokens span \"r#type\" ) ; ", rt = RT);
    assert_eq!(expected, show(body_of(&out)));
}

#[test]
fn plain_identifier_and_literal() {
    let ts = vec![id("type_"), Token::Literal("\"a\\n\"".to_string()), id("r"), id("rr#x")];
    let body = quote_stream(&ts, 0);
    let expected = format!(
        "{rt}( Ident tokens span \"type_\" ) ; {rt}( parse tokens span \"\\\"a\\\\n\\\"\" ) ; {rt}( Ident tokens span \"r\" ) ; {rt}( Ident tokens span \"rr#x\" ) ; ",
        rt = RT
    );
    assert_eq!(expected, show(&body));
}

#[test]
fn raw_prefix_detection() {
    assert!(is_raw_ident(&"r#match".to_string()));
    assert!(!is_raw_ident(&"r".to_string()));
    assert!(!is_raw_ident(&"raw".to_string()));
    assert!(!is_raw_ident(&"".to_string()));
}

#[test]
fn name_missing_fails() {
    let item = vec![Token::Punct('+', Spacing::Alone), id("x")];
    assert!(matches!(quote_one_token_func(&item), Err(QuoteError::ExpectedName)));
    let item = vec![Token::Literal("1".to_string())];
    assert!(matches!(quote_one_token_func(&item), Err(QuoteError::ExpectedName)));
    let item = vec![Token::Group(Delimiter::Brace, vec![id("f")])];
    assert!(matches!(quote_one_token_func(&item), Err(QuoteError::ExpectedName)));
    assert!(matches!(quote_one_token_func(&vec![]), Err(QuoteError::ExpectedName)));
}

#[test]
fn empty_template() {
    let out = quote_one_token_func(&vec![id("nothing")]).unwrap();
    assert_eq!(5, out.len());
    assert!(body_of(&out).is_empty());
    assert!(translate(&vec![]).is_empty());
    assert_eq!("", render_calls(&translate(&vec![])));
}

#[test]
fn nested_groups_round_trip() {
    let inner = Token::Group(
        Delimiter::Invisible,
        vec![id("x"), Token::Punct('-', Spacing::Joint), Token::Punct('>', Spacing::Alone), Token::Literal("3u8".to_string())],
    );
    let ts = vec![
        Token::Group(Delimiter::Bracket, vec![Token::Group(Delimiter::Brace, vec![inner, id("r#fn")])]),
        Token::Punct(';', Spacing::Alone),
    ];
    assert_eq!("[ { x -> 3u8 r#fn } ] ; ", render(&ts));
    assert_eq!(render(&ts), render_calls(&translate(&ts)));
    let body = quote_stream(&ts, 0);
    let expected = format!(
        "{rt}( Group tokens span Bracket {rt}( Group tokens span Brace {rt}( Group tokens span None {rt}( Ident tokens span \"x\" ) ; {rt}( Punct tokens span Joint '-' ) ; {rt}( Punct tokens span Alone '>' ) ; {rt}( parse tokens span \"3u8\" ) ; ) ; {rt}( parse tokens span \"r#fn\" ) ; ) ; ) ; {rt}( Punct tokens span Alone ';' ) ; ",
        rt = RT
    );
    assert_eq!(expected, show(&body));
}

#[test]
fn stream_from_offset() {
    let ts = vec![id("a"), id("b"), id("c")];
    let body = quote_stream(&ts, 2);
    assert_eq!(format!("{rt}( Ident tokens span \"c\" ) ; ", rt = RT), show(&body));
    assert!(quote_stream(&ts, 3).is_empty());
}
