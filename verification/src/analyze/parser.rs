//! Symbols and imports of one scanned file.

use crate::analyze::engine::is_ordered;
use crate::analyze::lang::{get_parser, language_imports, language_symbols, strings_view};
use crate::types::file::FileEntry;
use crate::types::symbol::{symbol_views, Symbol, SymbolView};
use vstd::prelude::*;

verus! {

/// The symbols of a file with the text `content`: what the extractor for the
/// file's language finds, and none for a language without extractor.
pub fn extract_symbols(file: &FileEntry, content: &str) -> (res: Vec<Symbol>)
    ensures
        symbol_views(res@) == language_symbols(file.language, content@),
        is_ordered(symbol_views(res@)),
{
    match get_parser(file.language) {
        Some(parser) => parser.parse_symbols(content),
        None => {
            let v: Vec<Symbol> = Vec::new();
            assert(symbol_views(v@) =~= Seq::<SymbolView>::empty());
            v
        },
    }
}

/// The identifiers that a file with the text `content` imports: what the
/// extractor for the file's language finds, and none for a language without
/// extractor.
pub fn extract_imports(file: &FileEntry, content: &str) -> (res: Vec<String>)
    ensures
        strings_view(res@) == language_imports(file.language, content@),
{
    match get_parser(file.language) {
        Some(parser) => parser.parse_imports(content),
        None => {
            let v: Vec<String> = Vec::new();
            assert(strings_view(v@) =~= Seq::<Seq<char>>::empty());
            v
        },
    }
}

} // verus!
