//! Parsing and analysis of SNMP MIB modules written in SMIv1 and SMIv2.

pub mod ast;
pub mod lexer;
pub mod mib;
pub mod num;
pub mod parser;
pub mod scan;
pub mod searchpath;
pub mod source;
pub mod text;
pub mod types;
