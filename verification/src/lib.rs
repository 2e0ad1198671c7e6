//! The analysis layer of a Roc language server: what is known of each open
//! document, and how the requests of an editor are answered from it.
//!
//! The compiler front end stays outside. What it makes of a program (types,
//! declarations, tables of lines) is carried through as type parameters; what is to
//! be looked up there is handed out as a query, and the reply is handed back.

pub mod analyzed;
pub mod builder;
pub mod document;
pub mod laws;
pub mod lsp;
pub mod paths;
pub mod prefix;
