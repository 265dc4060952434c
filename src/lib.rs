//! A compiler from a small keyword-annotated markup language to HTML.
//!
//! The pipeline has three stages: [`lexer`] splits the source into tokens and
//! checks every `#` word against the keyword vocabulary, [`parser`] checks the
//! token sequence against the grammar by recursive descent, and [`semantic`]
//! walks the same tokens again and emits HTML, resolving variable uses.
//! [`compiler`] runs the three in order.

pub mod text;
pub mod vocab;
pub mod lexer;
pub mod grammar;
pub mod parser;
pub mod semantic;
pub mod compiler;
pub mod laws;

pub use compiler::{CompileError, Compiler};
pub use grammar::{Expected, SyntaxError};
pub use lexer::{LexError, LexicalAnalyzer, MarkdownLexicalAnalyzer};
pub use parser::{MarkdownSyntaxAnalyzer, SyntaxAnalyzer};
pub use semantic::{Construct, SemanticAnalyzer, SemanticError};

