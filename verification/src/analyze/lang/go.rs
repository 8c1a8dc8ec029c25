//! Go: functions, structs, interfaces and constants; imports.

use crate::analyze::engine::{parse_with, parsed};
use crate::analyze::imports::{imports_of_go, go_imports};
use crate::analyze::lang::LanguageParser;
use crate::analyze::rules::{
    EndRule, KindRule, NameRule, Rule, SignatureRule, SkipRule, VisibilityRule,
};
use crate::types::symbol::{Symbol, SymbolKind, SymbolView};
use vstd::prelude::*;

verus! {

/// `func name(` or `func (recv) name(`.
pub const FUNC_PATTERN: &'static str = r"(?m)^func\s+(?:\([^)]+\)\s+)?(\w+)\s*\(";

/// `type Name struct`.
pub const STRUCT_PATTERN: &'static str = r"(?m)^type\s+(\w+)\s+struct\b";

/// `type Name interface`.
pub const INTERFACE_PATTERN: &'static str = r"(?m)^type\s+(\w+)\s+interface\b";

/// `const Name =`.
pub const CONST_PATTERN: &'static str = r"(?m)^const\s+(\w+)\s*=";

/// The extractor for Go.
pub struct GoParser;

/// The rules by which Go is read, in the order in which they are applied.
pub open spec fn go_rules() -> Seq<Rule> {
    seq![
        Rule::of(
            FUNC_PATTERN,
            KindRule::Fixed(SymbolKind::Function),
            NameRule::Group(1),
            VisibilityRule::Uppercase,
            EndRule::Brace { back: 0 },
            SignatureRule::Line,
            SkipRule::Nothing,
        ),
        Rule::of(
            STRUCT_PATTERN,
            KindRule::Fixed(SymbolKind::Struct),
            NameRule::Group(1),
            VisibilityRule::Uppercase,
            EndRule::Brace { back: 0 },
            SignatureRule::Absent,
            SkipRule::Nothing,
        ),
        Rule::of(
            INTERFACE_PATTERN,
            KindRule::Fixed(SymbolKind::Interface),
            NameRule::Group(1),
            VisibilityRule::Uppercase,
            EndRule::Brace { back: 0 },
            SignatureRule::Absent,
            SkipRule::Nothing,
        ),
        Rule::of(
            CONST_PATTERN,
            KindRule::Fixed(SymbolKind::Const),
            NameRule::Group(1),
            VisibilityRule::Uppercase,
            EndRule::OneLine,
            SignatureRule::Absent,
            SkipRule::Nothing,
        ),
    ]
}

/// The rules by which Go is read.
pub fn rules() -> (res: Vec<Rule>)
    ensures
        res@ == go_rules(),
{
    let mut v: Vec<Rule> = Vec::new();
    v.push(
        Rule::new(
            FUNC_PATTERN,
            KindRule::Fixed(SymbolKind::Function),
            NameRule::Group(1),
            VisibilityRule::Uppercase,
            EndRule::Brace { back: 0 },
            SignatureRule::Line,
            SkipRule::Nothing,
        ),
    );
    v.push(
        Rule::new(
            STRUCT_PATTERN,
            KindRule::Fixed(SymbolKind::Struct),
            NameRule::Group(1),
            VisibilityRule::Uppercase,
            EndRule::Brace { back: 0 },
            SignatureRule::Absent,
            SkipRule::Nothing,
        ),
    );
    v.push(
        Rule::new(
            INTERFACE_PATTERN,
            KindRule::Fixed(SymbolKind::Interface),
            NameRule::Group(1),
            VisibilityRule::Uppercase,
            EndRule::Brace { back: 0 },
            SignatureRule::Absent,
            SkipRule::Nothing,
        ),
    );
    v.push(
        Rule::new(
            CONST_PATTERN,
            KindRule::Fixed(SymbolKind::Const),
            NameRule::Group(1),
            VisibilityRule::Uppercase,
            EndRule::OneLine,
            SignatureRule::Absent,
            SkipRule::Nothing,
        ),
    );
    assert(v@ =~= go_rules());
    v
}

impl LanguageParser for GoParser {
    open spec fn symbols(&self, text: Seq<char>) -> Seq<SymbolView> {
        parsed(go_rules(), text)
    }

    open spec fn imports(&self, text: Seq<char>) -> Seq<Seq<char>> {
        go_imports(text)
    }

    fn parse_symbols(&self, content: &str) -> (res: Vec<Symbol>) {
        parse_with(&rules(), content)
    }

    fn parse_imports(&self, content: &str) -> (res: Vec<String>) {
        imports_of_go(content)
    }
}

} // verus!
