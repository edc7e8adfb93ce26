pub mod tokenizer;
pub mod css_ast;
pub mod virt;
pub mod scope;
pub mod evaluator;
pub mod css_parser;
pub mod css_grammar;
pub mod markup;
pub mod parser;
pub mod grammar;
pub mod statement;
pub mod render;
