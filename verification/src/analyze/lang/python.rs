//! Python: functions and classes, their extent told by indentation; imports.

use crate::analyze::engine::{parse_with, parsed};
use crate::analyze::imports::{imports_of_python, python_imports};
use crate::analyze::lang::LanguageParser;
use crate::analyze::rules::{
    EndRule, KindRule, NameRule, Rule, SignatureRule, SkipRule, VisibilityRule,
};
use crate::types::symbol::{Symbol, SymbolKind, SymbolView};
use vstd::prelude::*;

verus! {

/// `def name(` with its indentation.
pub const DEF_PATTERN: &'static str = r"(?m)^([ \t]*)(async\s+)?def\s+(\w+)\s*\(";

/// `class Name` with its indentation.
pub const CLASS_PATTERN: &'static str = r"(?m)^([ \t]*)class\s+(\w+)";

/// The extractor for Python.
pub struct PythonParser;

/// The rules by which Python is read, in the order in which they are applied.
pub open spec fn python_rules() -> Seq<Rule> {
    seq![
        Rule::of(
            DEF_PATTERN,
            KindRule::Fixed(SymbolKind::Function),
            NameRule::Group(3),
            VisibilityRule::SingleUnderscore,
            EndRule::Indent { group: 1 },
            SignatureRule::Line,
            SkipRule::Nothing,
        ),
        Rule::of(
            CLASS_PATTERN,
            KindRule::Fixed(SymbolKind::Class),
            NameRule::Group(2),
            VisibilityRule::Underscore,
            EndRule::Indent { group: 1 },
            SignatureRule::Line,
            SkipRule::Nothing,
        ),
    ]
}

/// The rules by which Python is read.
pub fn rules() -> (res: Vec<Rule>)
    ensures
        res@ == python_rules(),
{
    let mut v: Vec<Rule> = Vec::new();
    v.push(
        Rule::new(
            DEF_PATTERN,
            KindRule::Fixed(SymbolKind::Function),
            NameRule::Group(3),
            VisibilityRule::SingleUnderscore,
            EndRule::Indent { group: 1 },
            SignatureRule::Line,
            SkipRule::Nothing,
        ),
    );
    v.push(
        Rule::new(
            CLASS_PATTERN,
            KindRule::Fixed(SymbolKind::Class),
            NameRule::Group(2),
            VisibilityRule::Underscore,
            EndRule::Indent { group: 1 },
            SignatureRule::Line,
            SkipRule::Nothing,
        ),
    );
    assert(v@ =~= python_rules());
    v
}

impl LanguageParser for PythonParser {
    open spec fn symbols(&self, text: Seq<char>) -> Seq<SymbolView> {
        parsed(python_rules(), text)
    }

    open spec fn imports(&self, text: Seq<char>) -> Seq<Seq<char>> {
        python_imports(text)
    }

    fn parse_symbols(&self, content: &str) -> (res: Vec<Symbol>) {
        parse_with(&rules(), content)
    }

    fn parse_imports(&self, content: &str) -> (res: Vec<String>) {
        imports_of_python(content)
    }
}

} // verus!
