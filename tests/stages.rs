use lolcompiler::{
    Compiler, Expected, LexicalAnalyzer, SyntaxError, MarkdownLexicalAnalyzer, MarkdownSyntaxAnalyzer, SemanticAnalyzer,
    SyntaxAnalyzer,
};

fn strings(words: &[&str]) -> Vec<String> {
    words.iter().map(|w| w.to_string()).collect()
}

#[test]
fn tokenize_splits_at_whitespace() {
    let mut lx = MarkdownLexicalAnalyzer::new("  #HAI\tsome\n\ntext  #KTHXBYE");
    assert!(lx.tokenize().is_ok());
    assert_eq!(lx.tokens, strings(&["#HAI", "some", "text", "#KTHXBYE"]));
}

#[test]
fn tokenize_empty_source() {
    let mut lx = MarkdownLexicalAnalyzer::new("");
    assert!(lx.tokenize().is_ok());
    assert!(lx.tokens.is_empty());
}

#[test]
fn tokenize_accepts_phrase_starts() {
    let mut lx = MarkdownLexicalAnalyzer::new("#I HAZ x #it IZ 1 #MKAY #LEMME SEE x #MKAY");
    assert!(lx.tokenize().is_ok());
    assert_eq!(lx.tokens.len(), 11);
}

#[test]
fn file_start_in_any_case_lexes() {
    for s in ["#HAI", "#hai", "#Hai"] {
        let mut lx = MarkdownLexicalAnalyzer::new(s);
        assert!(lx.tokenize().is_ok());
        assert_eq!(lx.tokens, strings(&[s]));
        let p = MarkdownSyntaxAnalyzer::new();
        assert!(p.is_hai(s));
        assert!(lx.lookup(s));
    }
}

#[test]
fn lookup_knows_vocabulary() {
    let lx = MarkdownLexicalAnalyzer::new("");
    assert!(lx.lookup("#OBTW"));
    assert!(lx.lookup("#mkay"));
    assert!(lx.lookup("HEAD"));
    assert!(lx.lookup("##bold"));
    assert!(!lx.lookup("#TITLE"));
    assert!(!lx.lookup("#I"));
    assert!(!lx.lookup("hello"));
}

#[test]
fn get_char_reads_in_order() {
    let mut lx = MarkdownLexicalAnalyzer::new("ab");
    assert_eq!(lx.get_char(), Some('a'));
    assert_eq!(lx.get_char(), Some('b'));
    assert_eq!(lx.get_char(), None);
}

#[test]
fn recognizers_ignore_case() {
    let p = MarkdownSyntaxAnalyzer::new();
    assert!(p.is_bai("#kthxbye"));
    assert!(p.is_obtw("#Obtw"));
    assert!(p.is_tldr("#TLDR"));
    assert!(p.is_maek("#maek"));
    assert!(p.is_oic("#OiC"));
    assert!(p.is_gimmeh("#GIMMEH"));
    assert!(p.is_mkay("#mkay"));
    assert!(p.is_head("head"));
    assert!(p.is_paragraf("Paragraf"));
    assert!(p.is_bold("BOLD"));
    assert!(p.is_italics("italics"));
    assert!(p.is_list("List"));
    assert!(p.is_item("ITEM"));
    assert!(p.is_soundz("soundz"));
    assert!(p.is_vidz("VIDZ"));
    assert!(p.is_ihaz("#i"));
    assert!(p.is_lemmesee("#lemme"));
    assert!(!p.is_hai("#HAIR"));
    assert!(!p.is_bold("BOLDER"));
}

#[test]
fn parser_accepts_paragraph_with_definition() {
    let mut p = MarkdownSyntaxAnalyzer::from_tokens(strings(&[
        "#MAEK", "PARAGRAF", "#I", "HAZ", "v", "#IT", "IZ", "w", "#MKAY", "text", "#OIC",
    ]));
    assert!(p.parse_paragraph().is_ok());
}

#[test]
fn parser_list_items() {
    let mut p = MarkdownSyntaxAnalyzer::from_tokens(strings(&[
        "#MAEK", "LIST", "#GIMMEH", "ITEM", "#GIMMEH", "ITALICS", "x", "#MKAY", "#MKAY", "#OIC",
    ]));
    assert!(p.parse_list().is_ok());
}

#[test]
fn generator_closes_unclosed_head() {
    let mut sem = SemanticAnalyzer::new(strings(&["#HAI", "#MAEK", "HEAD", "#GIMMEH", "TITLE", "Hello", "#MKAY"]));
    let html = sem.convert_html().unwrap();
    assert_eq!(html, "<html>\n<head>\n<title>Hello </title>\n</head>\n\n</html>\n");
}

#[test]
fn generator_closes_unclosed_paragraph_then_head() {
    let mut sem = SemanticAnalyzer::new(strings(&["#MAEK", "HEAD", "#MAEK", "PARAGRAF", "x"]));
    let html = sem.convert_html().unwrap();
    assert_eq!(html, "<head>\n<p>x </p>\n</head>\n\n</html>\n");
}

#[test]
fn generator_block_close_does_not_close_inline() {
    let mut sem = SemanticAnalyzer::new(strings(&["#MAEK", "PARAGRAF", "#GIMMEH", "BOLD", "b", "#OIC", "#MKAY", "#OIC"]));
    let html = sem.convert_html().unwrap();
    assert_eq!(html, "<p><b>b </b>\n</p>\n\n</html>\n");
}

#[test]
fn generator_shadowing_between_definitions() {
    let mut sem = SemanticAnalyzer::new(strings(&[
        "#I", "HAZ", "n", "#IT", "IZ", "v1", "#MKAY", "#LEMME", "SEE", "n", "#MKAY", "#I", "HAZ",
        "n", "#IT", "IZ", "v2", "#MKAY", "#LEMME", "SEE", "n", "#MKAY",
    ]));
    let html = sem.convert_html().unwrap();
    assert_eq!(html, "v1v2\n</html>\n");
    assert_eq!(sem.variable_names, strings(&["n", "n"]));
    assert_eq!(sem.variable_values, strings(&["v1", "v2"]));
}

#[test]
fn cursor_moves_and_tokens_can_be_replaced() {
    let mut p = MarkdownSyntaxAnalyzer::from_tokens(strings(&["#HAI", "x", "#KTHXBYE"]));
    assert_eq!(p.current_token(), "#HAI");
    assert_eq!(p.next_token(), "x");
    p.set_current_token("y".to_string());
    assert_eq!(p.current_token(), "y");
    assert_eq!(p.tokens, strings(&["#HAI", "y", "#KTHXBYE"]));
    assert_eq!(p.next_token(), "#KTHXBYE");
    assert_eq!(p.next_token(), "");
    assert_eq!(p.next_token(), "");
}

#[test]
fn parse_reports_missing_head() {
    let mut p = MarkdownSyntaxAnalyzer::from_tokens(strings(&["#HAI", "#KTHXBYE"]));
    assert_eq!(p.parse(), Err(SyntaxError { position: 1, expected: Expected::BlockOpen }));
}

#[test]
fn parse_accepts_minimal_program() {
    let mut p = MarkdownSyntaxAnalyzer::from_tokens(strings(&[
        "#HAI", "#MAEK", "HEAD", "#GIMMEH", "TITLE", "#MKAY", "#OIC", "#KTHXBYE",
    ]));
    assert_eq!(p.parse(), Ok(()));
}

#[test]
fn body_running_out_of_tokens_is_syntax_error() {
    let mut p = MarkdownSyntaxAnalyzer::from_tokens(Vec::new());
    assert_eq!(p.parse_body(), Err(SyntaxError { position: 0, expected: Expected::FileEnd }));
    let mut q = MarkdownSyntaxAnalyzer::from_tokens(strings(&["text", "more"]));
    assert_eq!(q.parse_body(), Err(SyntaxError { position: 2, expected: Expected::FileEnd }));
}

#[test]
fn paragraph_running_out_of_tokens_is_syntax_error() {
    let mut p = MarkdownSyntaxAnalyzer::from_tokens(strings(&["#MAEK", "PARAGRAF", "words"]));
    assert_eq!(p.parse_paragraph(), Err(SyntaxError { position: 3, expected: Expected::BlockClose }));
}

#[test]
fn body_stops_at_file_end() {
    let mut p = MarkdownSyntaxAnalyzer::from_tokens(strings(&["text", "#KTHXBYE"]));
    assert_eq!(p.parse_body(), Ok(()));
    assert_eq!(p.current_token(), "#KTHXBYE");
}

#[test]
fn generator_keeps_bindings_read() {
    let mut sem = SemanticAnalyzer::new(strings(&["#I", "HAZ", "a", "#IT", "IZ", "1", "#MKAY", "x"]));
    sem.variable_names = strings(&["old"]);
    sem.variable_values = strings(&["0"]);
    let html = sem.convert_html().unwrap();
    assert_eq!(html, "x \n</html>\n");
    assert_eq!(sem.variable_names, strings(&["old", "a"]));
    assert_eq!(sem.variable_values, strings(&["0", "1"]));
}
