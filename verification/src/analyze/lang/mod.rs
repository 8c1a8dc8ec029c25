//! One extractor for each language.

pub mod c;
pub mod cpp;
pub mod csharp;
pub mod dart;
pub mod go;
pub mod java;
pub mod javascript;
pub mod php;
pub mod python;
pub mod ruby;
pub mod rust;
pub mod swift;

pub use c::CParser;
pub use cpp::CppParser;
pub use csharp::CSharpParser;
pub use dart::DartParser;
pub use go::GoParser;
pub use java::JavaParser;
pub use javascript::JavaScriptParser;
pub use php::PhpParser;
pub use python::PythonParser;
pub use ruby::RubyParser;
pub use rust::RustParser;
pub use swift::SwiftParser;

use crate::types::file::Language;
use crate::types::symbol::{symbol_views, Symbol, SymbolView};
use crate::analyze::engine::is_ordered;
use vstd::prelude::*;

verus! {

/// The contents of a sequence of strings.
pub open spec fn strings_view(s: Seq<String>) -> Seq<Seq<char>> {
    s.map_values(|x: String| x@)
}

/// An extractor of symbols and imports for one language.
pub trait LanguageParser {
    /// The symbols that the extractor finds in a text.
    spec fn symbols(&self, text: Seq<char>) -> Seq<SymbolView>;

    /// The imports that the extractor finds in a text.
    spec fn imports(&self, text: Seq<char>) -> Seq<Seq<char>>;

    /// The symbols of `content`, ordered by the line on which they begin and
    /// without repeated declarations.
    fn parse_symbols(&self, content: &str) -> (res: Vec<Symbol>)
        ensures
            symbol_views(res@) == self.symbols(content@),
            is_ordered(symbol_views(res@)),
    ;

    /// The identifiers that `content` imports.
    fn parse_imports(&self, content: &str) -> (res: Vec<String>)
        ensures
            strings_view(res@) == self.imports(content@),
    ;
}

/// The symbols that the extractor for `language` finds in a text; none for
/// an unknown language.
pub open spec fn language_symbols(language: Language, text: Seq<char>) -> Seq<SymbolView> {
    match language {
        Language::Rust => RustParser.symbols(text),
        Language::Python => PythonParser.symbols(text),
        Language::JavaScript | Language::TypeScript => JavaScriptParser.symbols(text),
        Language::Go => GoParser.symbols(text),
        Language::Php => PhpParser.symbols(text),
        Language::Java => JavaParser.symbols(text),
        Language::CSharp => CSharpParser.symbols(text),
        Language::C => CParser.symbols(text),
        Language::Cpp => CppParser.symbols(text),
        Language::Ruby => RubyParser.symbols(text),
        Language::Dart => DartParser.symbols(text),
        Language::Swift => SwiftParser.symbols(text),
        Language::Unknown => Seq::empty(),
    }
}

/// The imports that the extractor for `language` finds in a text; none for
/// an unknown language.
pub open spec fn language_imports(language: Language, text: Seq<char>) -> Seq<Seq<char>> {
    match language {
        Language::Rust => RustParser.imports(text),
        Language::Python => PythonParser.imports(text),
        Language::JavaScript | Language::TypeScript => JavaScriptParser.imports(text),
        Language::Go => GoParser.imports(text),
        Language::Php => PhpParser.imports(text),
        Language::Java => JavaParser.imports(text),
        Language::CSharp => CSharpParser.imports(text),
        Language::C => CParser.imports(text),
        Language::Cpp => CppParser.imports(text),
        Language::Ruby => RubyParser.imports(text),
        Language::Dart => DartParser.imports(text),
        Language::Swift => SwiftParser.imports(text),
        Language::Unknown => Seq::empty(),
    }
}

/// No extractor names an import twice.
pub proof fn lemma_language_imports_no_repeats(language: Language, text: Seq<char>)
    ensures
        crate::analyze::graph::no_repeats(language_imports(language, text)),
{
    crate::analyze::imports::lemma_imports_no_repeats(text);
}

/// The extractor for a language: one for each language but the unknown one,
/// and it finds what that language's rules find.
pub fn get_parser(language: Language) -> (res: Option<Box<dyn LanguageParser>>)
    ensures
        res.is_none() == (language == Language::Unknown),
        match res {
            Some(p) => forall|t: Seq<char>|
                #![trigger p.symbols(t)]
                #![trigger p.imports(t)]
                p.symbols(t) == language_symbols(language, t) && p.imports(t) == language_imports(
                    language,
                    t,
                ),
            None => true,
        },
{
    match language {
        Language::Rust => Some(Box::new(RustParser)),
        Language::Python => Some(Box::new(PythonParser)),
        Language::JavaScript | Language::TypeScript => Some(Box::new(JavaScriptParser)),
        Language::Go => Some(Box::new(GoParser)),
        Language::Php => Some(Box::new(PhpParser)),
        Language::Java => Some(Box::new(JavaParser)),
        Language::CSharp => Some(Box::new(CSharpParser)),
        Language::C => Some(Box::new(CParser)),
        Language::Cpp => Some(Box::new(CppParser)),
        Language::Ruby => Some(Box::new(RubyParser)),
        Language::Dart => Some(Box::new(DartParser)),
        Language::Swift => Some(Box::new(SwiftParser)),
        Language::Unknown => None,
    }
}

} // verus!
