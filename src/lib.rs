//! A tokenizer for a Smalltalk-family source language, with its token grammar
//! stated as spec functions and the scanner proved against them.

pub mod grammar;
pub mod laws;
pub mod lexer;
