//! Java: classes, records, interfaces, enums, methods and constants.

use crate::analyze::engine::{parse_with, parsed};
use crate::analyze::lang::{strings_view, LanguageParser};
use crate::analyze::rules::{
    EndRule, KindRule, NameRule, Rule, SignatureRule, SkipRule, VisibilityRule,
};
use crate::text::ascii::BRACE_OPEN;
use crate::types::symbol::{Symbol, SymbolKind, SymbolView, Visibility};
use vstd::prelude::*;

verus! {

/// `class Name` or `record Name` after its modifiers.
pub const CLASS_PATTERN: &'static str =
    r"(?m)^[ \t]*((?:public|protected|private)\s+)?(?:(?:abstract|final|static|sealed)\s+)*(?:class|record)\s+(\w+)";

/// `interface Name`.
pub const INTERFACE_PATTERN: &'static str =
    r"(?m)^[ \t]*((?:public|protected|private)\s+)?(?:(?:abstract|static|sealed)\s+)*interface\s+(\w+)";

/// `enum Name`.
pub const ENUM_PATTERN: &'static str =
    r"(?m)^[ \t]*((?:public|protected|private)\s+)?(?:static\s+)?enum\s+(\w+)";

/// A method with its body.
pub const METHOD_PATTERN: &'static str =
    r"(?m)^[ \t]+((?:public|protected|private)\s+)?(?:(?:static|final|abstract|synchronized|native|default)\s+)*(?:<[^>]+>\s+)?[\w<>\[\],.?]+\s+(\w+)\s*\([^)]*\)\s*(?:throws\s+[\w.,\s]+?)?\s*\{";

/// `static final Type NAME =`.
pub const CONST_PATTERN: &'static str =
    r"(?m)^[ \t]*((?:public|protected|private)\s+)?(?:static\s+final|final\s+static)\s+[\w<>\[\],.?]+\s+(\w+)\s*=";

/// The extractor for Java.
pub struct JavaParser;

/// The rules by which Java is read, in the order in which they are applied.
pub open spec fn java_rules() -> Seq<Rule> {
    seq![
        Rule::of(
            CLASS_PATTERN,
            KindRule::Fixed(SymbolKind::Class),
            NameRule::Group(2),
            VisibilityRule::Words { group: 1, exact: false, otherwise: Visibility::Internal },
            EndRule::Brace { back: 0 },
            SignatureRule::Line,
            SkipRule::Nothing,
        ),
        Rule::of(
            INTERFACE_PATTERN,
            KindRule::Fixed(SymbolKind::Interface),
            NameRule::Group(2),
            VisibilityRule::Words { group: 1, exact: false, otherwise: Visibility::Internal },
            EndRule::Brace { back: 0 },
            SignatureRule::Line,
            SkipRule::Nothing,
        ),
        Rule::of(
            ENUM_PATTERN,
            KindRule::Fixed(SymbolKind::Enum),
            NameRule::Group(2),
            VisibilityRule::Words { group: 1, exact: false, otherwise: Visibility::Internal },
            EndRule::Brace { back: 0 },
            SignatureRule::Line,
            SkipRule::Nothing,
        ),
        Rule::of(
            METHOD_PATTERN,
            KindRule::Fixed(SymbolKind::Method),
            NameRule::Group(2),
            VisibilityRule::Words { group: 1, exact: false, otherwise: Visibility::Internal },
            EndRule::Brace { back: 1 },
            SignatureRule::MatchWithout { strip: BRACE_OPEN },
            SkipRule::Keywords { catch: true, extra: None },
        ),
        Rule::of(
            CONST_PATTERN,
            KindRule::Fixed(SymbolKind::Const),
            NameRule::Group(2),
            VisibilityRule::Words { group: 1, exact: false, otherwise: Visibility::Internal },
            EndRule::OneLine,
            SignatureRule::Absent,
            SkipRule::Nothing,
        ),
    ]
}

/// The rules by which Java is read.
pub fn rules() -> (res: Vec<Rule>)
    ensures
        res@ == java_rules(),
{
    let mut v: Vec<Rule> = Vec::new();
    v.push(
        Rule::new(
            CLASS_PATTERN,
            KindRule::Fixed(SymbolKind::Class),
            NameRule::Group(2),
            VisibilityRule::Words { group: 1, exact: false, otherwise: Visibility::Internal },
            EndRule::Brace { back: 0 },
            SignatureRule::Line,
            SkipRule::Nothing,
        ),
    );
    v.push(
        Rule::new(
            INTERFACE_PATTERN,
            KindRule::Fixed(SymbolKind::Interface),
            NameRule::Group(2),
            VisibilityRule::Words { group: 1, exact: false, otherwise: Visibility::Internal },
            EndRule::Brace { back: 0 },
            SignatureRule::Line,
            SkipRule::Nothing,
        ),
    );
    v.push(
        Rule::new(
            ENUM_PATTERN,
            KindRule::Fixed(SymbolKind::Enum),
            NameRule::Group(2),
            VisibilityRule::Words { group: 1, exact: false, otherwise: Visibility::Internal },
            EndRule::Brace { back: 0 },
            SignatureRule::Line,
            SkipRule::Nothing,
        ),
    );
    v.push(
        Rule::new(
            METHOD_PATTERN,
            KindRule::Fixed(SymbolKind::Method),
            NameRule::Group(2),
            VisibilityRule::Words { group: 1, exact: false, otherwise: Visibility::Internal },
            EndRule::Brace { back: 1 },
            SignatureRule::MatchWithout { strip: BRACE_OPEN },
            SkipRule::Keywords { catch: true, extra: None },
        ),
    );
    v.push(
        Rule::new(
            CONST_PATTERN,
            KindRule::Fixed(SymbolKind::Const),
            NameRule::Group(2),
            VisibilityRule::Words { group: 1, exact: false, otherwise: Visibility::Internal },
            EndRule::OneLine,
            SignatureRule::Absent,
            SkipRule::Nothing,
        ),
    );
    assert(v@ =~= java_rules());
    v
}

impl LanguageParser for JavaParser {
    open spec fn symbols(&self, text: Seq<char>) -> Seq<SymbolView> {
        parsed(java_rules(), text)
    }

    open spec fn imports(&self, text: Seq<char>) -> Seq<Seq<char>> {
        Seq::empty()
    }

    fn parse_symbols(&self, content: &str) -> (res: Vec<Symbol>) {
        parse_with(&rules(), content)
    }

    fn parse_imports(&self, content: &str) -> (res: Vec<String>) {
        let v: Vec<String> = Vec::new();
        assert(strings_view(v@) =~= Seq::<Seq<char>>::empty());
        v
    }
}

} // verus!
