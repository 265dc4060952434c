use lolcompiler::{CompileError, Compiler, Expected, MarkdownSyntaxAnalyzer, SyntaxError};

fn compile(src: &str) -> Result<String, CompileError> {
    let mut c = MarkdownSyntaxAnalyzer::new();
    c.compile(src)
}

fn syntax_error(src: &str) -> SyntaxError {
    match compile(src) {
        Err(CompileError::Syntax(e)) => e,
        other => panic!("expected a syntax error, got {:?}", other),
    }
}

#[test]
fn head_and_title_example() {
    let html = compile("#HAI #MAEK HEAD #GIMMEH TITLE Hello #MKAY #OIC #KTHXBYE").unwrap();
    let head = html.find("<head>").unwrap();
    let title = html.find("<title>Hello </title>").unwrap();
    let close = html.find("</head>").unwrap();
    assert!(head < title && title < close);
    assert!(html.starts_with("<html>"));
    assert!(html.ends_with("</html>\n"));
    assert_eq!(html, "<html>\n<head>\n<title>Hello </title>\n</head>\n\n</html>\n");
}

#[test]
fn valid_program_is_wrapped() {
    let src = "#HAI\n#MAEK HEAD #GIMMEH TITLE My page #MKAY #OIC\n\
               #MAEK PARAGRAF Some #GIMMEH BOLD strong words #MKAY and #GIMMEH ITALICS slanted #MKAY text #OIC\n\
               #KTHXBYE\n";
    let html = compile(src).unwrap();
    assert_eq!(
        html,
        "<html>\n<head>\n<title>My page </title>\n</head>\n<p>Some <b>strong words </b>\nand \
         <i>slanted </i>\ntext </p>\n\n</html>\n"
    );
}

#[test]
fn variable_definition_then_use() {
    let src = "#HAI #MAEK HEAD #GIMMEH TITLE T #MKAY #OIC \
               #MAEK PARAGRAF #I HAZ X #IT IZ 5 #MKAY #LEMME SEE X #MKAY #OIC #KTHXBYE";
    let html = compile(src).unwrap();
    assert_eq!(html, "<html>\n<head>\n<title>T </title>\n</head>\n<p>5</p>\n\n</html>\n");
}

#[test]
fn undefined_variable_is_semantic_error() {
    let src = "#HAI #MAEK HEAD #GIMMEH TITLE T #MKAY #OIC \
               #MAEK PARAGRAF #LEMME SEE Y #MKAY #OIC #KTHXBYE";
    match compile(src) {
        Err(CompileError::Semantic(e)) => assert_eq!(e.name, "Y"),
        other => panic!("expected a semantic error, got {:?}", other),
    }
}

#[test]
fn shadowing_uses_most_recent_definition() {
    let src = "#HAI #MAEK HEAD #GIMMEH TITLE T #MKAY #OIC \
               #I HAZ x #IT IZ one #MKAY #LEMME SEE X #MKAY \
               #I HAZ X #IT IZ two #MKAY #LEMME SEE x #MKAY #KTHXBYE";
    let html = compile(src).unwrap();
    assert_eq!(html, "<html>\n<head>\n<title>T </title>\n</head>\nonetwo\n</html>\n");
}

#[test]
fn use_before_definition_fails() {
    let src = "#HAI #MAEK HEAD #GIMMEH TITLE T #MKAY #OIC \
               #LEMME SEE X #MKAY #I HAZ X #IT IZ 1 #MKAY #KTHXBYE";
    assert!(matches!(compile(src), Err(CompileError::Semantic(_))));
}

#[test]
fn keyword_case_is_ignored() {
    let html = compile("#hai #Maek head #gimmeh Title Hi #mkay #oic #KthxBye").unwrap();
    assert_eq!(html, "<html>\n<head>\n<title>Hi </title>\n</head>\n\n</html>\n");
}

#[test]
fn missing_file_start_is_syntax_error() {
    let e = syntax_error("#MAEK HEAD #GIMMEH TITLE Hello #MKAY #OIC #KTHXBYE");
    assert_eq!(e, SyntaxError { position: 0, expected: Expected::FileStart });
}

#[test]
fn empty_source_is_syntax_error() {
    let e = syntax_error("");
    assert_eq!(e, SyntaxError { position: 0, expected: Expected::FileStart });
}

#[test]
fn unclosed_head_fails_grammar() {
    let e = syntax_error("#HAI #MAEK HEAD #GIMMEH TITLE Hello #MKAY");
    assert_eq!(e, SyntaxError { position: 7, expected: Expected::BlockClose });
}

#[test]
fn missing_file_end_is_syntax_error() {
    let e = syntax_error("#HAI #MAEK HEAD #GIMMEH TITLE Hello #MKAY #OIC");
    assert_eq!(e, SyntaxError { position: 8, expected: Expected::FileEnd });
}

#[test]
fn trailing_tokens_are_syntax_error() {
    let e = syntax_error("#HAI #MAEK HEAD #GIMMEH TITLE Hello #MKAY #OIC #KTHXBYE more");
    assert_eq!(e, SyntaxError { position: 9, expected: Expected::EndOfInput });
}

#[test]
fn unknown_keyword_is_lexical_error() {
    match compile("#HAI #MAEK HEAD #FOO #OIC #KTHXBYE") {
        Err(CompileError::Lexical(e)) => assert_eq!(e.lexeme, "#FOO"),
        other => panic!("expected a lexical error, got {:?}", other),
    }
}

#[test]
fn marker_inside_literal_is_lexical_error() {
    match compile("#HAI a#b #KTHXBYE") {
        Err(CompileError::Lexical(e)) => assert_eq!(e.lexeme, "a#b"),
        other => panic!("expected a lexical error, got {:?}", other),
    }
}

#[test]
fn first_bad_lexeme_is_reported() {
    match compile("#HAI #BAD1 #BAD2") {
        Err(CompileError::Lexical(e)) => assert_eq!(e.lexeme, "#BAD1"),
        other => panic!("expected a lexical error, got {:?}", other),
    }
}

#[test]
fn comment_list_and_media() {
    let src = "#HAI #OBTW a note #TLDR #MAEK HEAD #GIMMEH TITLE T #MKAY #OIC \
               #MAEK LIST #GIMMEH ITEM #GIMMEH BOLD one #MKAY #MKAY #GIMMEH ITEM #MKAY #OIC \
               #GIMMEH SOUNDZ song.mp3 #MKAY #GIMMEH VIDZ clip.mp4 #MKAY #GIMMEH NEWLINE #KTHXBYE";
    let html = compile(src).unwrap();
    assert_eq!(
        html,
        "<html>\n<!-- a note -->\n<head>\n<title>T </title>\n</head>\n<ul><li><b>one </b>\n</li>\n\
         <li></li>\n</ul>\n<audio controls><source src=\"song.mp3\"></audio><iframe src=\"clip.mp4\"/><br>\n\
         \n</html>\n"
    );
}

#[test]
fn unknown_inline_kind_is_syntax_error() {
    let e = syntax_error("#HAI #MAEK HEAD #GIMMEH TITLE T #MKAY #OIC #GIMMEH HEAD #KTHXBYE");
    assert_eq!(e, SyntaxError { position: 9, expected: Expected::InlineKind });
}

#[test]
fn unknown_block_kind_is_syntax_error() {
    let e = syntax_error("#HAI #MAEK HEAD #GIMMEH TITLE T #MKAY #OIC #MAEK HEAD #OIC #KTHXBYE");
    assert_eq!(e, SyntaxError { position: 9, expected: Expected::BlockKind });
}

#[test]
fn empty_bold_is_syntax_error() {
    let e = syntax_error("#HAI #MAEK HEAD #GIMMEH TITLE T #MKAY #OIC #GIMMEH BOLD #MKAY #KTHXBYE");
    assert_eq!(e, SyntaxError { position: 10, expected: Expected::Text });
}

#[test]
fn broken_variable_definition_is_syntax_error() {
    let e = syntax_error("#HAI #MAEK HEAD #GIMMEH TITLE T #MKAY #OIC #I HAZ X #IT 5 #MKAY #KTHXBYE");
    assert_eq!(e, SyntaxError { position: 12, expected: Expected::Iz });
}

#[test]
fn unterminated_comment_is_syntax_error() {
    let e = syntax_error("#HAI #OBTW never closed");
    assert_eq!(e, SyntaxError { position: 4, expected: Expected::CommentClose });
}
