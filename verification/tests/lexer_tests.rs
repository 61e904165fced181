use graphviz_parser::lexer::{tokenize, PeekableLexer};
use graphviz_parser::token::Token;

#[test]
fn lexer_test_lex_basic_dotfile() {
    let test_str = "strict graph {
                        a -- b
                        b -- a [color=blue]
                        }
        ";
    let mut lexer_sut = PeekableLexer::from(test_str);
    assert_eq!(lexer_sut.next(), Some(Token::Strict));
    assert_eq!(lexer_sut.next(), Some(Token::Graph));
    assert_eq!(lexer_sut.next(), Some(Token::OpenParen));
    assert_eq!(lexer_sut.next(), Some(Token::NewLine));
    assert_eq!(lexer_sut.next(), Some(Token::ID(String::from("a"))));
    assert_eq!(lexer_sut.next(), Some(Token::UndirectedEdge));
    assert_eq!(lexer_sut.next(), Some(Token::ID(String::from("b"))));
    assert_eq!(lexer_sut.next(), Some(Token::NewLine));
    assert_eq!(lexer_sut.next(), Some(Token::ID(String::from("b"))));
    assert_eq!(lexer_sut.next(), Some(Token::UndirectedEdge));
    assert_eq!(lexer_sut.next(), Some(Token::ID(String::from("a"))));

    assert_eq!(lexer_sut.next(), Some(Token::OpenBracket));
    assert_eq!(lexer_sut.next(), Some(Token::ID(String::from("color"))));
    assert_eq!(lexer_sut.next(), Some(Token::Equals));
    assert_eq!(lexer_sut.next(), Some(Token::ID(String::from("blue"))));
    assert_eq!(lexer_sut.next(), Some(Token::CloseBracket));
    assert_eq!(lexer_sut.next(), Some(Token::NewLine));
}

#[test]
fn token_test_for_id_regex() {
    let test_str = "\"___ooogabooga:asdf\"";
    let mut lxt = PeekableLexer::from(test_str);
    // The quoted identifier carries its text with the quotes stripped; the
    // exact matched slice keeps them.
    assert_eq!(Some(Token::ID(String::from("___ooogabooga:asdf"))), lxt.next());
    assert_eq!(lxt.slice(), test_str);
}

#[test]
fn lexer_peek_index_1_test() {
    let solution = vec!["big", "kahuna", "electric", "boogaloo"];
    let test_text: String = solution
        .iter()
        .map(|x| String::from(*x) + " ")
        .collect::<Vec<String>>()
        .iter()
        .map(|x| x.chars())
        .flatten()
        .collect();

    let mut lexer_to_test = PeekableLexer::from(&test_text);
    for _val in solution {
        let v1 = lexer_to_test.peek().unwrap().clone();
        let v2 = lexer_to_test.next().clone().unwrap();
        assert_eq!(v1, v2);
    }
}

#[test]
fn lexer_no_semicolon_test() {
    let test_string = "
            hi
            there
        ";
    let mut lexer = PeekableLexer::from(test_string);
    println!("{}", test_string);
    assert_eq!(lexer.next(), Some(Token::NewLine));
    assert_eq!(lexer.next(), Some(Token::ID(String::from("hi"))));
    assert_eq!(lexer.next(), Some(Token::NewLine));

    assert_eq!(lexer.next(), Some(Token::ID(String::from("there"))));
    assert_eq!(lexer.next(), Some(Token::NewLine));
}

#[test]
fn lexer_comments() {
    let test_string = "
            hi // hello
            /* a */ there /***/
            /*//*/a/*/* /*/b
            c/*
            d
          */e";
    let mut lexer = PeekableLexer::from(test_string);
    println!("{}", test_string);
    assert_eq!(lexer.next(), Some(Token::NewLine));
    assert_eq!(lexer.next(), Some(Token::ID(String::from("hi"))));
    assert_eq!(lexer.next(), Some(Token::NewLine));

    assert_eq!(lexer.next(), Some(Token::ID(String::from("there"))));
    assert_eq!(lexer.next(), Some(Token::NewLine));

    assert_eq!(lexer.next(), Some(Token::ID(String::from("a"))));
    assert_eq!(lexer.next(), Some(Token::ID(String::from("b"))));
    assert_eq!(lexer.next(), Some(Token::NewLine));
    assert_eq!(lexer.next(), Some(Token::ID(String::from("c"))));
    assert_eq!(lexer.next(), Some(Token::ID(String::from("e"))));
    assert_eq!(lexer.next(), None);
}

#[test]
fn lexer_slice_indexing_1_test() {
    let solution = vec!["big ", "kahuna ", "electric ", "boogaloo "];
    let test_text: String = solution.iter().map(|x| x.chars()).flatten().collect();
    let mut lexer_to_test = PeekableLexer::from(&test_text);

    for sol in solution {
        let _v = lexer_to_test.next();
        let _j = lexer_to_test.peek();
        assert_eq!(lexer_to_test.slice(), sol.trim());
    }
}

#[test]
fn lexer_slice_indexing_2_test() {
    let solution = vec!["big ", "kahuna ", "electric ", "boogaloo "];
    let test_text: String = solution.iter().map(|x| x.chars()).flatten().collect();
    let mut lexer_to_test = PeekableLexer::from(&test_text);

    for sol in solution {
        let _v = lexer_to_test.next();
        assert_eq!(lexer_to_test.slice(), sol.trim());
    }
}

#[test]
fn lexer_identifier_forms_round_trip() {
    // Bare, numeral and quoted identifiers: one token each, the matched
    // slice is the lexeme, quotes are stripped only from the quoted form.
    for (input, value) in [
        ("plain_word9", "plain_word9"),
        ("-12.5", "-12.5"),
        (".5", ".5"),
        ("7.", "7."),
        ("\"a b:c\"", "a b:c"),
        ("\"\"", ""),
        ("\"\\\"\"", "\\\""),
    ] {
        let toks = tokenize(input);
        assert_eq!(toks, vec![Token::ID(String::from(value))]);
        let mut lx = PeekableLexer::from(input);
        lx.next();
        assert_eq!(lx.slice(), input);
        // Re-tokenizing the slice reproduces the same token.
        assert_eq!(tokenize(&lx.slice()), toks);
    }
}

#[test]
fn lexer_slice_before_first_next() {
    let lexer = PeekableLexer::from("word");
    assert_eq!(lexer.slice(), "");
}

#[test]
fn lexer_keywords_and_operators() {
    assert_eq!(
        tokenize("strict graph digraph subgraph node edge -> -- { } [ ] = , ; : \n"),
        vec![
            Token::Strict,
            Token::Graph,
            Token::Digraph,
            Token::Subgraph,
            Token::Node,
            Token::Edge,
            Token::DirectedEdge,
            Token::UndirectedEdge,
            Token::OpenParen,
            Token::CloseParen,
            Token::OpenBracket,
            Token::CloseBracket,
            Token::Equals,
            Token::Comma,
            Token::SemiColon,
            Token::Colon,
            Token::NewLine,
        ]
    );
    // A keyword followed by more word characters is an identifier.
    assert_eq!(tokenize("graphs"), vec![Token::ID(String::from("graphs"))]);
    // A lone quote and an unrecognized character are explicit tokens.
    assert_eq!(tokenize("\""), vec![Token::Quotation]);
    assert_eq!(tokenize("("), vec![Token::Error]);
}
