//! A parser and static dependency analyzer for the scripting language that
//! document-assembly templates attach to their computation and dialog
//! components.
//!
//! The grammar is stated as specification functions over `Seq<char>` (module
//! `grammar`, on the tokens of module `lexical`); the executable parser
//! (module `hd_script_parser`) is proved to return exactly what the grammar
//! says.  The analyzer (module `dependency_parser`) walks a parsed script and
//! returns the set of external names it references, proved equal to the
//! specification-level dependency set of the tree.
pub mod ast;
pub mod dependency_parser;
pub mod grammar;
pub mod hd_script_parser;
pub mod lexical;
pub mod xml_parser;
