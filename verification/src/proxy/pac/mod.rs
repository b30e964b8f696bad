//! PAC (proxy auto-config) support: fetching a `FindProxyForURL()` script
//! over plain HTTP, tokenizing and parsing the JavaScript subset that real
//! PAC scripts use, and the pure helpers behind the standard PAC functions.

pub mod ast;
pub mod builtins;
pub mod http;
pub mod lexer;
pub mod parser;
