//! Rust: functions, structs, enums, traits, constants and type aliases.

use crate::analyze::engine::{parse_with, parsed};
use crate::analyze::lang::{strings_view, LanguageParser};
use crate::analyze::rules::{
    EndRule, KindRule, NameRule, Rule, SignatureRule, SkipRule, VisibilityRule,
};
use crate::types::symbol::{Symbol, SymbolKind, SymbolView, Visibility};
use vstd::prelude::*;

verus! {

/// `fn name`, perhaps `pub` and `async`.
pub const FN_PATTERN: &'static str = r"(?m)^[ \t]*(pub(?:\([^)]+\))?\s+)?(?:async\s+)?fn\s+(\w+)";

/// `struct Name`.
pub const STRUCT_PATTERN: &'static str = r"(?m)^[ \t]*(pub(?:\([^)]+\))?\s+)?struct\s+(\w+)";

/// `enum Name`.
pub const ENUM_PATTERN: &'static str = r"(?m)^[ \t]*(pub(?:\([^)]+\))?\s+)?enum\s+(\w+)";

/// `trait Name`.
pub const TRAIT_PATTERN: &'static str = r"(?m)^[ \t]*(pub(?:\([^)]+\))?\s+)?trait\s+(\w+)";

/// `const NAME:`.
pub const CONST_PATTERN: &'static str = r"(?m)^[ \t]*(pub(?:\([^)]+\))?\s+)?const\s+(\w+)\s*:";

/// `type Name`.
pub const TYPE_ALIAS_PATTERN: &'static str = r"(?m)^[ \t]*(pub(?:\([^)]+\))?\s+)?type\s+(\w+)";

/// The extractor for Rust.
pub struct RustParser;

/// The rules by which Rust is read, in the order in which they are applied.
pub open spec fn rust_rules() -> Seq<Rule> {
    seq![
        Rule::of(
            FN_PATTERN,
            KindRule::Fixed(SymbolKind::Function),
            NameRule::Group(2),
            VisibilityRule::ByGroup {
                group: 1,
                present: Visibility::Public,
                absent: Visibility::Private,
            },
            EndRule::Brace { back: 0 },
            SignatureRule::Line,
            SkipRule::Nothing,
        ),
        Rule::of(
            STRUCT_PATTERN,
            KindRule::Fixed(SymbolKind::Struct),
            NameRule::Group(2),
            VisibilityRule::ByGroup {
                group: 1,
                present: Visibility::Public,
                absent: Visibility::Private,
            },
            EndRule::Brace { back: 0 },
            SignatureRule::Absent,
            SkipRule::Nothing,
        ),
        Rule::of(
            ENUM_PATTERN,
            KindRule::Fixed(SymbolKind::Enum),
            NameRule::Group(2),
            VisibilityRule::ByGroup {
                group: 1,
                present: Visibility::Public,
                absent: Visibility::Private,
            },
            EndRule::Brace { back: 0 },
            SignatureRule::Absent,
            SkipRule::Nothing,
        ),
        Rule::of(
            TRAIT_PATTERN,
            KindRule::Fixed(SymbolKind::Trait),
            NameRule::Group(2),
            VisibilityRule::ByGroup {
                group: 1,
                present: Visibility::Public,
                absent: Visibility::Private,
            },
            EndRule::Brace { back: 0 },
            SignatureRule::Absent,
            SkipRule::Nothing,
        ),
        Rule::of(
            CONST_PATTERN,
            KindRule::Fixed(SymbolKind::Const),
            NameRule::Group(2),
            VisibilityRule::ByGroup {
                group: 1,
                present: Visibility::Public,
                absent: Visibility::Private,
            },
            EndRule::OneLine,
            SignatureRule::Absent,
            SkipRule::Nothing,
        ),
        Rule::of(
            TYPE_ALIAS_PATTERN,
            KindRule::Fixed(SymbolKind::Type),
            NameRule::Group(2),
            VisibilityRule::ByGroup {
                group: 1,
                present: Visibility::Public,
                absent: Visibility::Private,
            },
            EndRule::OneLine,
            SignatureRule::Absent,
            SkipRule::Nothing,
        ),
    ]
}

/// The rules by which Rust is read.
pub fn rules() -> (res: Vec<Rule>)
    ensures
        res@ == rust_rules(),
{
    let mut v: Vec<Rule> = Vec::new();
    v.push(
        Rule::new(
            FN_PATTERN,
            KindRule::Fixed(SymbolKind::Function),
            NameRule::Group(2),
            VisibilityRule::ByGroup {
                group: 1,
                present: Visibility::Public,
                absent: Visibility::Private,
            },
            EndRule::Brace { back: 0 },
            SignatureRule::Line,
            SkipRule::Nothing,
        ),
    );
    v.push(
        Rule::new(
            STRUCT_PATTERN,
            KindRule::Fixed(SymbolKind::Struct),
            NameRule::Group(2),
            VisibilityRule::ByGroup {
                group: 1,
                present: Visibility::Public,
                absent: Visibility::Private,
            },
            EndRule::Brace { back: 0 },
            SignatureRule::Absent,
            SkipRule::Nothing,
        ),
    );
    v.push(
        Rule::new(
            ENUM_PATTERN,
            KindRule::Fixed(SymbolKind::Enum),
            NameRule::Group(2),
            VisibilityRule::ByGroup {
                group: 1,
                present: Visibility::Public,
                absent: Visibility::Private,
            },
            EndRule::Brace { back: 0 },
            SignatureRule::Absent,
            SkipRule::Nothing,
        ),
    );
    v.push(
        Rule::new(
            TRAIT_PATTERN,
            KindRule::Fixed(SymbolKind::Trait),
            NameRule::Group(2),
            VisibilityRule::ByGroup {
                group: 1,
                present: Visibility::Public,
                absent: Visibility::Private,
            },
            EndRule::Brace { back: 0 },
            SignatureRule::Absent,
            SkipRule::Nothing,
        ),
    );
    v.push(
        Rule::new(
            CONST_PATTERN,
            KindRule::Fixed(SymbolKind::Const),
            NameRule::Group(2),
            VisibilityRule::ByGroup {
                group: 1,
                present: Visibility::Public,
                absent: Visibility::Private,
            },
            EndRule::OneLine,
            SignatureRule::Absent,
            SkipRule::Nothing,
        ),
    );
    v.push(
        Rule::new(
            TYPE_ALIAS_PATTERN,
            KindRule::Fixed(SymbolKind::Type),
            NameRule::Group(2),
            VisibilityRule::ByGroup {
                group: 1,
                present: Visibility::Public,
                absent: Visibility::Private,
            },
            EndRule::OneLine,
            SignatureRule::Absent,
            SkipRule::Nothing,
        ),
    );
    assert(v@ =~= rust_rules());
    v
}

impl LanguageParser for RustParser {
    open spec fn symbols(&self, text: Seq<char>) -> Seq<SymbolView> {
        parsed(rust_rules(), text)
    }

    open spec fn imports(&self, text: Seq<char>) -> Seq<Seq<char>> {
        Seq::empty()
    }

    fn parse_symbols(&self, content: &str) -> (res: Vec<Symbol>) {
        parse_with(&rules(), content)
    }

    fn parse_imports(&self, content: &str) -> (res: Vec<String>) {
        let v: Vec<String> = Vec::new();
        assert(strings_view(v@) =~= Seq::<Seq<char>>::empty());
        v
    }
}

} // verus!
