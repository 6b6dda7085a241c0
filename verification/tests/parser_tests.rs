use metagrammar::token::Token;
use metagrammar::tree::ParseError;
use metagrammar::tree::ParseTree;

fn id(s: &str) -> Token {
    Token::Ident(s.to_string())
}

fn lit(s: &str) -> Token {
    Token::StrLit(s.to_string())
}

fn nt(s: &str) -> ParseTree {
    ParseTree::NonTerminal(s.to_string())
}

fn term(s: &str) -> ParseTree {
    ParseTree::Terminal(s.to_string())
}

fn plain_seq(items: Vec<ParseTree>) -> ParseTree {
    ParseTree::Sequence(items, None)
}

fn def(name: &str, body: ParseTree) -> ParseTree {
    ParseTree::ParserDefinition(name.to_string(), None, Box::new(body))
}

fn grammar(defs: Vec<ParseTree>) -> ParseTree {
    ParseTree::DefinitionList(defs)
}

#[test]
fn single_terminal_rule() {
    // name = "lit"
    let toks = vec![id("name"), Token::Equals, lit("lit")];
    let expected = grammar(vec![def("name", plain_seq(vec![term("lit")]))]);
    assert_eq!(ParseTree::parse(&toks), Ok(expected));
}

#[test]
fn prefix_wraps_outermost_postfix_innermost() {
    // a = !b*
    let toks = vec![id("a"), Token::Equals, Token::Bang, id("b"), Token::Star];
    let body = plain_seq(vec![ParseTree::Not(Box::new(ParseTree::Many0(Box::new(nt("b")))))]);
    assert_eq!(ParseTree::parse(&toks), Ok(grammar(vec![def("a", body)])));
    // a = &b?
    let toks = vec![id("a"), Token::Equals, Token::Amp, id("b"), Token::Question];
    let body = plain_seq(vec![ParseTree::Peek(Box::new(ParseTree::Optional(Box::new(nt("b")))))]);
    assert_eq!(ParseTree::parse(&toks), Ok(grammar(vec![def("a", body)])));
}

#[test]
fn many1_postfix() {
    // a = b+
    let toks = vec![id("a"), Token::Equals, id("b"), Token::Plus];
    let body = plain_seq(vec![ParseTree::Many1(Box::new(nt("b")))]);
    assert_eq!(ParseTree::parse(&toks), Ok(grammar(vec![def("a", body)])));
}

#[test]
fn capture_postfix_applies_to_whole_capture() {
    // r = <x: a>*
    let toks = vec![
        id("r"),
        Token::Equals,
        Token::Lt,
        id("x"),
        Token::Colon,
        id("a"),
        Token::Gt,
        Token::Star,
    ];
    let capture = ParseTree::Capture(Box::new(nt("a")), Some("x".to_string()));
    let body = plain_seq(vec![ParseTree::Many0(Box::new(capture))]);
    assert_eq!(ParseTree::parse(&toks), Ok(grammar(vec![def("r", body)])));
}

#[test]
fn anonymous_capture_with_prefix_and_postfix() {
    // r = &<x>*  parses as Peek(Many0(Capture(x, None)))
    let toks = vec![
        id("r"),
        Token::Equals,
        Token::Amp,
        Token::Lt,
        id("x"),
        Token::Gt,
        Token::Star,
    ];
    let capture = ParseTree::Capture(Box::new(nt("x")), None);
    let body = plain_seq(vec![ParseTree::Peek(Box::new(ParseTree::Many0(Box::new(capture))))]);
    assert_eq!(ParseTree::parse(&toks), Ok(grammar(vec![def("r", body)])));
}

#[test]
fn nested_captures() {
    // r = <x: <y>>
    let toks = vec![
        id("r"),
        Token::Equals,
        Token::Lt,
        id("x"),
        Token::Colon,
        Token::Lt,
        id("y"),
        Token::Gt,
        Token::Gt,
    ];
    let inner = ParseTree::Capture(Box::new(nt("y")), None);
    let outer = ParseTree::Capture(Box::new(inner), Some("x".to_string()));
    assert_eq!(
        ParseTree::parse(&toks),
        Ok(grammar(vec![def("r", plain_seq(vec![outer]))]))
    );
}

#[test]
fn one_sequence_is_never_a_choice() {
    // r = a b  -- a two-element sequence, no Choice wrapper
    let toks = vec![id("r"), Token::Equals, id("a"), id("b")];
    let body = plain_seq(vec![nt("a"), nt("b")]);
    assert_eq!(ParseTree::parse(&toks), Ok(grammar(vec![def("r", body)])));
}

#[test]
fn several_sequences_build_a_choice_in_source_order() {
    // r = a | b | "c"
    let toks = vec![
        id("r"),
        Token::Equals,
        id("a"),
        Token::Pipe,
        id("b"),
        Token::Pipe,
        lit("c"),
    ];
    let body = ParseTree::Choice(vec![
        plain_seq(vec![nt("a")]),
        plain_seq(vec![nt("b")]),
        plain_seq(vec![term("c")]),
    ]);
    assert_eq!(ParseTree::parse(&toks), Ok(grammar(vec![def("r", body)])));
}

#[test]
fn action_without_elements_is_an_empty_sequence_error() {
    // name = => { }
    let toks = vec![
        id("name"),
        Token::Equals,
        Token::FatArrow,
        Token::CodeFrag("{ }".to_string()),
    ];
    assert_eq!(ParseTree::parse(&toks), Err(ParseError::EmptySequence(2)));
}

#[test]
fn disambiguation_consumes_element_of_current_rule() {
    // a = b c
    // b = "x"
    let toks = vec![
        id("a"),
        Token::Equals,
        id("b"),
        id("c"),
        id("b"),
        Token::Equals,
        lit("x"),
    ];
    let expected = grammar(vec![
        def("a", plain_seq(vec![nt("b"), nt("c")])),
        def("b", plain_seq(vec![term("x")])),
    ]);
    assert_eq!(ParseTree::parse(&toks), Ok(expected));
}

#[test]
fn disambiguation_stops_before_next_rule() {
    // a = b
    // b = "x"
    let toks = vec![id("a"), Token::Equals, id("b"), id("b"), Token::Equals, lit("x")];
    let expected = grammar(vec![
        def("a", plain_seq(vec![nt("b")])),
        def("b", plain_seq(vec![term("x")])),
    ]);
    assert_eq!(ParseTree::parse(&toks), Ok(expected));
}

#[test]
fn disambiguation_sees_typed_headers() {
    // a = b
    // b: u32 = "x"
    let toks = vec![
        id("a"),
        Token::Equals,
        id("b"),
        id("b"),
        Token::Colon,
        Token::TypeFrag("u32".to_string()),
        Token::Equals,
        lit("x"),
    ];
    let second = ParseTree::ParserDefinition(
        "b".to_string(),
        Some("u32".to_string()),
        Box::new(plain_seq(vec![term("x")])),
    );
    let expected = grammar(vec![def("a", plain_seq(vec![nt("b")])), second]);
    assert_eq!(ParseTree::parse(&toks), Ok(expected));
}

#[test]
fn grouping_is_transparent() {
    // r = "p" (a | b) "q"
    let toks = vec![
        id("r"),
        Token::Equals,
        lit("p"),
        Token::LParen,
        id("a"),
        Token::Pipe,
        id("b"),
        Token::RParen,
        lit("q"),
    ];
    let choice = ParseTree::Choice(vec![plain_seq(vec![nt("a")]), plain_seq(vec![nt("b")])]);
    let body = plain_seq(vec![term("p"), choice, term("q")]);
    assert_eq!(ParseTree::parse(&toks), Ok(grammar(vec![def("r", body)])));
}

#[test]
fn reparsing_yields_identical_trees() {
    let toks = vec![
        id("a"),
        Token::Equals,
        id("b"),
        Token::Pipe,
        lit("x"),
        id("b"),
        Token::Equals,
        Token::Lt,
        id("c"),
        Token::Gt,
    ];
    let first = ParseTree::parse(&toks);
    let second = ParseTree::parse(&toks);
    assert_eq!(first, second);
}

#[test]
fn typed_rule_keeps_its_type_fragment() {
    // r: Vec<u32> = "x"
    let toks = vec![
        id("r"),
        Token::Colon,
        Token::TypeFrag("Vec < u32 >".to_string()),
        Token::Equals,
        lit("x"),
    ];
    let expected = grammar(vec![ParseTree::ParserDefinition(
        "r".to_string(),
        Some("Vec < u32 >".to_string()),
        Box::new(plain_seq(vec![term("x")])),
    )]);
    assert_eq!(ParseTree::parse(&toks), Ok(expected));
}

#[test]
fn action_code_is_attached_to_its_sequence() {
    // r = "x" => { one } | "y"
    let toks = vec![
        id("r"),
        Token::Equals,
        lit("x"),
        Token::FatArrow,
        Token::CodeFrag("{ one }".to_string()),
        Token::Pipe,
        lit("y"),
    ];
    let body = ParseTree::Choice(vec![
        ParseTree::Sequence(vec![term("x")], Some("{ one }".to_string())),
        plain_seq(vec![term("y")]),
    ]);
    assert_eq!(ParseTree::parse(&toks), Ok(grammar(vec![def("r", body)])));
}

#[test]
fn external_call_element() {
    // r = ::digits
    let toks = vec![id("r"), Token::Equals, Token::PathSep, id("digits")];
    let body = plain_seq(vec![ParseTree::Call("digits".to_string())]);
    assert_eq!(ParseTree::parse(&toks), Ok(grammar(vec![def("r", body)])));
}

#[test]
fn definitions_keep_source_order() {
    let toks = vec![
        id("one"),
        Token::Equals,
        lit("1"),
        id("two"),
        Token::Equals,
        lit("2"),
        id("three"),
        Token::Equals,
        lit("3"),
    ];
    let expected = grammar(vec![
        def("one", plain_seq(vec![term("1")])),
        def("two", plain_seq(vec![term("2")])),
        def("three", plain_seq(vec![term("3")])),
    ]);
    assert_eq!(ParseTree::parse(&toks), Ok(expected));
}

#[test]
fn empty_input_misses_a_definition_name() {
    let toks: Vec<Token> = vec![];
    assert_eq!(ParseTree::parse(&toks), Err(ParseError::ExpectedDefinitionName(0)));
}

#[test]
fn empty_parentheses_are_an_empty_sequence() {
    // r = ( )
    let toks = vec![id("r"), Token::Equals, Token::LParen, Token::RParen];
    assert_eq!(ParseTree::parse(&toks), Err(ParseError::EmptySequence(3)));
}

#[test]
fn empty_body_is_an_empty_sequence() {
    // r =
    let toks = vec![id("r"), Token::Equals];
    assert_eq!(ParseTree::parse(&toks), Err(ParseError::EmptySequence(2)));
}

#[test]
fn unterminated_capture_is_reported() {
    // r = <a
    let toks = vec![id("r"), Token::Equals, Token::Lt, id("a")];
    assert_eq!(ParseTree::parse(&toks), Err(ParseError::UnterminatedCapture(4)));
}

#[test]
fn colon_without_type_fragment_is_rejected() {
    // r : = "x"
    let toks = vec![id("r"), Token::Colon, Token::Equals, lit("x")];
    assert_eq!(ParseTree::parse(&toks), Err(ParseError::ExpectedType(2)));
}

#[test]
fn missing_equals_is_rejected() {
    // r "x"
    let toks = vec![id("r"), lit("x")];
    assert_eq!(ParseTree::parse(&toks), Err(ParseError::ExpectedEquals(1)));
}

#[test]
fn unclosed_group_is_an_unexpected_token() {
    // r = (a
    let toks = vec![id("r"), Token::Equals, Token::LParen, id("a")];
    assert_eq!(ParseTree::parse(&toks), Err(ParseError::UnexpectedToken(4)));
}

#[test]
fn path_separator_needs_an_identifier() {
    // r = ::
    let toks = vec![id("r"), Token::Equals, Token::PathSep];
    assert_eq!(ParseTree::parse(&toks), Err(ParseError::UnexpectedToken(3)));
}

#[test]
fn trailing_token_fails_the_next_definition() {
    // r = "x" )
    let toks = vec![id("r"), Token::Equals, lit("x"), Token::RParen];
    assert_eq!(ParseTree::parse(&toks), Err(ParseError::ExpectedDefinitionName(3)));
}

#[test]
fn arrow_without_code_fragment_is_rejected() {
    // r = "x" => >
    let toks = vec![id("r"), Token::Equals, lit("x"), Token::FatArrow, Token::Gt];
    assert_eq!(ParseTree::parse(&toks), Err(ParseError::UnexpectedToken(4)));
}

#[test]
fn prefix_without_atom_is_rejected() {
    // r = "x" &
    let toks = vec![id("r"), Token::Equals, lit("x"), Token::Amp];
    assert_eq!(ParseTree::parse(&toks), Err(ParseError::UnexpectedToken(4)));
}

#[test]
fn group_with_leftover_content_is_rejected() {
    // r = (a > )  -- the stray `>` ends the inner expression but is not the
    // closing parenthesis
    let toks = vec![
        id("r"),
        Token::Equals,
        Token::LParen,
        id("a"),
        Token::Gt,
        Token::RParen,
    ];
    assert_eq!(ParseTree::parse(&toks), Err(ParseError::UnexpectedToken(4)));
}

#[test]
fn postfix_inside_group_is_consumed() {
    // r = (a ?)
    let toks = vec![
        id("r"),
        Token::Equals,
        Token::LParen,
        id("a"),
        Token::Question,
        Token::RParen,
    ];
    // A one-sequence group is that sequence's own node, nested as an element.
    let body = plain_seq(vec![plain_seq(vec![ParseTree::Optional(Box::new(nt("a")))])]);
    assert_eq!(ParseTree::parse(&toks), Ok(grammar(vec![def("r", body)])));
}
