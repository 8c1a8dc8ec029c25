//! Swift: functions, classes, structs, enums, protocols and extensions.

use crate::analyze::engine::{parse_with, parsed};
use crate::analyze::lang::{strings_view, LanguageParser};
use crate::analyze::rules::{
    EndRule, KindRule, NameRule, Rule, SignatureRule, SkipRule, VisibilityRule,
};
use crate::types::symbol::{Symbol, SymbolKind, SymbolView, Visibility};
use vstd::prelude::*;

verus! {

/// `func name` after its modifiers.
pub const FUNC_PATTERN: &'static str =
    r"(?m)^[ \t]*((?:public|private|fileprivate|internal|open)\s+)?(?:(?:final|static|class|override|mutating|nonmutating)\s+)*func\s+(\w+)";

/// `class Name`; `class func` is no class.
pub const CLASS_PATTERN: &'static str =
    r"(?m)^[ \t]*((?:public|private|fileprivate|internal|open)\s+)?(?:final\s+)?class\s+(\w+)";

/// `struct Name`.
pub const STRUCT_PATTERN: &'static str =
    r"(?m)^[ \t]*((?:public|private|fileprivate|internal|open)\s+)?struct\s+(\w+)";

/// `enum Name`.
pub const ENUM_PATTERN: &'static str =
    r"(?m)^[ \t]*((?:public|private|fileprivate|internal|open)\s+)?(?:indirect\s+)?enum\s+(\w+)";

/// `protocol Name`.
pub const PROTOCOL_PATTERN: &'static str =
    r"(?m)^[ \t]*((?:public|private|fileprivate|internal|open)\s+)?protocol\s+(\w+)";

/// `extension Name`.
pub const EXTENSION_PATTERN: &'static str =
    r"(?m)^[ \t]*((?:public|private|fileprivate|internal|open)\s+)?extension\s+(\w+)";

/// The extractor for Swift.
pub struct SwiftParser;

/// The rules by which Swift is read, in the order in which they are applied.
pub open spec fn swift_rules() -> Seq<Rule> {
    seq![
        Rule::of(
            FUNC_PATTERN,
            KindRule::Fixed(SymbolKind::Function),
            NameRule::Group(2),
            VisibilityRule::Words { group: 1, exact: false, otherwise: Visibility::Internal },
            EndRule::Brace { back: 0 },
            SignatureRule::Line,
            SkipRule::Nothing,
        ),
        Rule::of(
            CLASS_PATTERN,
            KindRule::Fixed(SymbolKind::Class),
            NameRule::Group(2),
            VisibilityRule::Words { group: 1, exact: false, otherwise: Visibility::Internal },
            EndRule::Brace { back: 0 },
            SignatureRule::Line,
            SkipRule::Keywords { catch: false, extra: Some("func") },
        ),
        Rule::of(
            STRUCT_PATTERN,
            KindRule::Fixed(SymbolKind::Struct),
            NameRule::Group(2),
            VisibilityRule::Words { group: 1, exact: false, otherwise: Visibility::Internal },
            EndRule::Brace { back: 0 },
            SignatureRule::Line,
            SkipRule::Nothing,
        ),
        Rule::of(
            ENUM_PATTERN,
            KindRule::Fixed(SymbolKind::Enum),
            NameRule::Group(2),
            VisibilityRule::Words { group: 1, exact: false, otherwise: Visibility::Internal },
            EndRule::Brace { back: 0 },
            SignatureRule::Line,
            SkipRule::Nothing,
        ),
        Rule::of(
            PROTOCOL_PATTERN,
            KindRule::Fixed(SymbolKind::Interface),
            NameRule::Group(2),
            VisibilityRule::Words { group: 1, exact: false, otherwise: Visibility::Internal },
            EndRule::Brace { back: 0 },
            SignatureRule::Line,
            SkipRule::Nothing,
        ),
        Rule::of(
            EXTENSION_PATTERN,
            KindRule::Fixed(SymbolKind::Module),
            NameRule::Group(2),
            VisibilityRule::Words { group: 1, exact: false, otherwise: Visibility::Internal },
            EndRule::Brace { back: 0 },
            SignatureRule::Keyword("extension "),
            SkipRule::Nothing,
        ),
    ]
}

/// The rules by which Swift is read.
pub fn rules() -> (res: Vec<Rule>)
    ensures
        res@ == swift_rules(),
{
    let mut v: Vec<Rule> = Vec::new();
    v.push(
        Rule::new(
            FUNC_PATTERN,
            KindRule::Fixed(SymbolKind::Function),
            NameRule::Group(2),
            VisibilityRule::Words { group: 1, exact: false, otherwise: Visibility::Internal },
            EndRule::Brace { back: 0 },
            SignatureRule::Line,
            SkipRule::Nothing,
        ),
    );
    v.push(
        Rule::new(
            CLASS_PATTERN,
            KindRule::Fixed(SymbolKind::Class),
            NameRule::Group(2),
            VisibilityRule::Words { group: 1, exact: false, otherwise: Visibility::Internal },
            EndRule::Brace { back: 0 },
            SignatureRule::Line,
            SkipRule::Keywords { catch: false, extra: Some("func") },
        ),
    );
    v.push(
        Rule::new(
            STRUCT_PATTERN,
            KindRule::Fixed(SymbolKind::Struct),
            NameRule::Group(2),
            VisibilityRule::Words { group: 1, exact: false, otherwise: Visibility::Internal },
            EndRule::Brace { back: 0 },
            SignatureRule::Line,
            SkipRule::Nothing,
        ),
    );
    v.push(
        Rule::new(
            ENUM_PATTERN,
            KindRule::Fixed(SymbolKind::Enum),
            NameRule::Group(2),
            VisibilityRule::Words { group: 1, exact: false, otherwise: Visibility::Internal },
            EndRule::Brace { back: 0 },
            SignatureRule::Line,
            SkipRule::Nothing,
        ),
    );
    v.push(
        Rule::new(
            PROTOCOL_PATTERN,
            KindRule::Fixed(SymbolKind::Interface),
            NameRule::Group(2),
            VisibilityRule::Words { group: 1, exact: false, otherwise: Visibility::Internal },
            EndRule::Brace { back: 0 },
            SignatureRule::Line,
            SkipRule::Nothing,
        ),
    );
    v.push(
        Rule::new(
            EXTENSION_PATTERN,
            KindRule::Fixed(SymbolKind::Module),
            NameRule::Group(2),
            VisibilityRule::Words { group: 1, exact: false, otherwise: Visibility::Internal },
            EndRule::Brace { back: 0 },
            SignatureRule::Keyword("extension "),
            SkipRule::Nothing,
        ),
    );
    assert(v@ =~= swift_rules());
    v
}

impl LanguageParser for SwiftParser {
    open spec fn symbols(&self, text: Seq<char>) -> Seq<SymbolView> {
        parsed(swift_rules(), text)
    }

    open spec fn imports(&self, text: Seq<char>) -> Seq<Seq<char>> {
        Seq::empty()
    }

    fn parse_symbols(&self, content: &str) -> (res: Vec<Symbol>) {
        parse_with(&rules(), content)
    }

    fn parse_imports(&self, content: &str) -> (res: Vec<String>) {
        let v: Vec<String> = Vec::new();
        assert(strings_view(v@) =~= Seq::<Seq<char>>::empty());
        v
    }
}

} // verus!
