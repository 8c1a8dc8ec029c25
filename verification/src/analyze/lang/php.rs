//! PHP: classes, interfaces, traits, functions and constants.

use crate::analyze::engine::{parse_with, parsed};
use crate::analyze::lang::{strings_view, LanguageParser};
use crate::analyze::rules::{
    EndRule, KindRule, NameRule, Rule, SignatureRule, SkipRule, VisibilityRule,
};
use crate::text::ascii::PAREN_OPEN;
use crate::types::symbol::{Symbol, SymbolKind, SymbolView, Visibility};
use vstd::prelude::*;

verus! {

/// `class Name`, perhaps `abstract` or `final`.
pub const CLASS_PATTERN: &'static str = r"(?m)^\s*(abstract\s+)?(final\s+)?class\s+(\w+)";

/// `interface Name`.
pub const INTERFACE_PATTERN: &'static str = r"(?m)^\s*interface\s+(\w+)";

/// `trait Name`.
pub const TRAIT_PATTERN: &'static str = r"(?m)^\s*trait\s+(\w+)";

/// `function name(` after its modifiers.
pub const FUNCTION_PATTERN: &'static str =
    r"(?m)^\s*(public|private|protected|static|\s)*\s*function\s+(\w+)\s*\(";

/// `const NAME =`.
pub const CONST_PATTERN: &'static str = r"(?m)^\s*(public|private|protected)?\s*const\s+(\w+)\s*=";

/// The extractor for PHP.
pub struct PhpParser;

/// The rules by which PHP is read, in the order in which they are applied.
pub open spec fn php_rules() -> Seq<Rule> {
    seq![
        Rule::of(
            CLASS_PATTERN,
            KindRule::Fixed(SymbolKind::Class),
            NameRule::Group(3),
            VisibilityRule::Fixed(Visibility::Public),
            EndRule::Brace { back: 0 },
            SignatureRule::KeywordOrMatch { group: 1, keyword: "abstract class " },
            SkipRule::Nothing,
        ),
        Rule::of(
            INTERFACE_PATTERN,
            KindRule::Fixed(SymbolKind::Interface),
            NameRule::Group(1),
            VisibilityRule::Fixed(Visibility::Public),
            EndRule::Brace { back: 0 },
            SignatureRule::Keyword("interface "),
            SkipRule::Nothing,
        ),
        Rule::of(
            TRAIT_PATTERN,
            KindRule::Fixed(SymbolKind::Trait),
            NameRule::Group(1),
            VisibilityRule::Fixed(Visibility::Public),
            EndRule::Brace { back: 0 },
            SignatureRule::Keyword("trait "),
            SkipRule::Nothing,
        ),
        Rule::of(
            FUNCTION_PATTERN,
            KindRule::Fixed(SymbolKind::Function),
            NameRule::Group(2),
            VisibilityRule::Words { group: 1, exact: false, otherwise: Visibility::Public },
            EndRule::Brace { back: 0 },
            SignatureRule::MatchWith { strip: PAREN_OPEN, suffix: "(...)" },
            SkipRule::Nothing,
        ),
        Rule::of(
            CONST_PATTERN,
            KindRule::Fixed(SymbolKind::Const),
            NameRule::Group(2),
            VisibilityRule::Words { group: 1, exact: true, otherwise: Visibility::Public },
            EndRule::OneLine,
            SignatureRule::Absent,
            SkipRule::Nothing,
        ),
    ]
}

/// The rules by which PHP is read.
pub fn rules() -> (res: Vec<Rule>)
    ensures
        res@ == php_rules(),
{
    let mut v: Vec<Rule> = Vec::new();
    v.push(
        Rule::new(
            CLASS_PATTERN,
            KindRule::Fixed(SymbolKind::Class),
            NameRule::Group(3),
            VisibilityRule::Fixed(Visibility::Public),
            EndRule::Brace { back: 0 },
            SignatureRule::KeywordOrMatch { group: 1, keyword: "abstract class " },
            SkipRule::Nothing,
        ),
    );
    v.push(
        Rule::new(
            INTERFACE_PATTERN,
            KindRule::Fixed(SymbolKind::Interface),
            NameRule::Group(1),
            VisibilityRule::Fixed(Visibility::Public),
            EndRule::Brace { back: 0 },
            SignatureRule::Keyword("interface "),
            SkipRule::Nothing,
        ),
    );
    v.push(
        Rule::new(
            TRAIT_PATTERN,
            KindRule::Fixed(SymbolKind::Trait),
            NameRule::Group(1),
            VisibilityRule::Fixed(Visibility::Public),
            EndRule::Brace { back: 0 },
            SignatureRule::Keyword("trait "),
            SkipRule::Nothing,
        ),
    );
    v.push(
        Rule::new(
            FUNCTION_PATTERN,
            KindRule::Fixed(SymbolKind::Function),
            NameRule::Group(2),
            VisibilityRule::Words { group: 1, exact: false, otherwise: Visibility::Public },
            EndRule::Brace { back: 0 },
            SignatureRule::MatchWith { strip: PAREN_OPEN, suffix: "(...)" },
            SkipRule::Nothing,
        ),
    );
    v.push(
        Rule::new(
            CONST_PATTERN,
            KindRule::Fixed(SymbolKind::Const),
            NameRule::Group(2),
            VisibilityRule::Words { group: 1, exact: true, otherwise: Visibility::Public },
            EndRule::OneLine,
            SignatureRule::Absent,
            SkipRule::Nothing,
        ),
    );
    assert(v@ =~= php_rules());
    v
}

impl LanguageParser for PhpParser {
    open spec fn symbols(&self, text: Seq<char>) -> Seq<SymbolView> {
        parsed(php_rules(), text)
    }

    open spec fn imports(&self, text: Seq<char>) -> Seq<Seq<char>> {
        Seq::empty()
    }

    fn parse_symbols(&self, content: &str) -> (res: Vec<Symbol>) {
        parse_with(&rules(), content)
    }

    fn parse_imports(&self, content: &str) -> (res: Vec<String>) {
        let v: Vec<String> = Vec::new();
        assert(strings_view(v@) =~= Seq::<Seq<char>>::empty());
        v
    }
}

} // verus!
