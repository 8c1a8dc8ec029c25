//! C: function definitions and declarations, structs, enums and typedefs.

use crate::analyze::engine::{parse_with, parsed};
use crate::analyze::lang::{strings_view, LanguageParser};
use crate::analyze::rules::{
    EndRule, KindRule, NameRule, Rule, SignatureRule, SkipRule, VisibilityRule,
};
use crate::text::ascii::{BRACE_OPEN, SEMICOLON};
use crate::types::symbol::{Symbol, SymbolKind, SymbolView, Visibility};
use vstd::prelude::*;

verus! {

/// A function with its body; `static` makes it private.
pub const FUNCTION_PATTERN: &'static str =
    r"(?m)^(static\s+)?(inline\s+)?(const\s+)?(\w+(?:\s*\*)*)\s+(\w+)\s*\([^)]*\)\s*\{";

/// A function declared without a body.
pub const FUNCTION_DECL_PATTERN: &'static str =
    r"(?m)^(extern\s+)?(static\s+)?(\w+(?:\s*\*)*)\s+(\w+)\s*\([^)]*\)\s*;";

/// `struct name {`, the name may be missing.
pub const STRUCT_PATTERN: &'static str = r"(?m)^(typedef\s+)?struct\s+(\w+)?\s*\{";

/// `enum name {`, the name may be missing.
pub const ENUM_PATTERN: &'static str = r"(?m)^(typedef\s+)?enum\s+(\w+)?\s*\{";

/// `typedef ... name;`.
pub const TYPEDEF_PATTERN: &'static str = r"(?m)^typedef\s+.+?\s+(\w+)\s*;";

/// The extractor for C.
pub struct CParser;

/// The rules by which C is read, in the order in which they are applied.
pub open spec fn c_rules() -> Seq<Rule> {
    seq![
        Rule::of(
            FUNCTION_PATTERN,
            KindRule::Fixed(SymbolKind::Function),
            NameRule::Group(5),
            VisibilityRule::ByGroup {
                group: 1,
                present: Visibility::Private,
                absent: Visibility::Public,
            },
            EndRule::Brace { back: 1 },
            SignatureRule::MatchWithout { strip: BRACE_OPEN },
            SkipRule::Keywords { catch: false, extra: None },
        ),
        Rule::of(
            FUNCTION_DECL_PATTERN,
            KindRule::Fixed(SymbolKind::Function),
            NameRule::Group(4),
            VisibilityRule::ByGroup {
                group: 2,
                present: Visibility::Private,
                absent: Visibility::Public,
            },
            EndRule::OneLine,
            SignatureRule::MatchWithout { strip: SEMICOLON },
            SkipRule::Nothing,
        ),
        Rule::of(
            STRUCT_PATTERN,
            KindRule::Fixed(SymbolKind::Struct),
            NameRule::GroupOr(2, "anonymous"),
            VisibilityRule::Fixed(Visibility::Public),
            EndRule::Brace { back: 1 },
            SignatureRule::Keyword("struct "),
            SkipRule::Nothing,
        ),
        Rule::of(
            ENUM_PATTERN,
            KindRule::Fixed(SymbolKind::Enum),
            NameRule::GroupOr(2, "anonymous"),
            VisibilityRule::Fixed(Visibility::Public),
            EndRule::Brace { back: 1 },
            SignatureRule::Keyword("enum "),
            SkipRule::Nothing,
        ),
        Rule::of(
            TYPEDEF_PATTERN,
            KindRule::Fixed(SymbolKind::Type),
            NameRule::Group(1),
            VisibilityRule::Fixed(Visibility::Public),
            EndRule::OneLine,
            SignatureRule::Absent,
            SkipRule::Nothing,
        ),
    ]
}

/// The rules by which C is read.
pub fn rules() -> (res: Vec<Rule>)
    ensures
        res@ == c_rules(),
{
    let mut v: Vec<Rule> = Vec::new();
    v.push(
        Rule::new(
            FUNCTION_PATTERN,
            KindRule::Fixed(SymbolKind::Function),
            NameRule::Group(5),
            VisibilityRule::ByGroup {
                group: 1,
                present: Visibility::Private,
                absent: Visibility::Public,
            },
            EndRule::Brace { back: 1 },
            SignatureRule::MatchWithout { strip: BRACE_OPEN },
            SkipRule::Keywords { catch: false, extra: None },
        ),
    );
    v.push(
        Rule::new(
            FUNCTION_DECL_PATTERN,
            KindRule::Fixed(SymbolKind::Function),
            NameRule::Group(4),
            VisibilityRule::ByGroup {
                group: 2,
                present: Visibility::Private,
                absent: Visibility::Public,
            },
            EndRule::OneLine,
            SignatureRule::MatchWithout { strip: SEMICOLON },
            SkipRule::Nothing,
        ),
    );
    v.push(
        Rule::new(
            STRUCT_PATTERN,
            KindRule::Fixed(SymbolKind::Struct),
            NameRule::GroupOr(2, "anonymous"),
            VisibilityRule::Fixed(Visibility::Public),
            EndRule::Brace { back: 1 },
            SignatureRule::Keyword("struct "),
            SkipRule::Nothing,
        ),
    );
    v.push(
        Rule::new(
            ENUM_PATTERN,
            KindRule::Fixed(SymbolKind::Enum),
            NameRule::GroupOr(2, "anonymous"),
            VisibilityRule::Fixed(Visibility::Public),
            EndRule::Brace { back: 1 },
            SignatureRule::Keyword("enum "),
            SkipRule::Nothing,
        ),
    );
    v.push(
        Rule::new(
            TYPEDEF_PATTERN,
            KindRule::Fixed(SymbolKind::Type),
            NameRule::Group(1),
            VisibilityRule::Fixed(Visibility::Public),
            EndRule::OneLine,
            SignatureRule::Absent,
            SkipRule::Nothing,
        ),
    );
    assert(v@ =~= c_rules());
    v
}

impl LanguageParser for CParser {
    open spec fn symbols(&self, text: Seq<char>) -> Seq<SymbolView> {
        parsed(c_rules(), text)
    }

    open spec fn imports(&self, text: Seq<char>) -> Seq<Seq<char>> {
        Seq::empty()
    }

    fn parse_symbols(&self, content: &str) -> (res: Vec<Symbol>) {
        parse_with(&rules(), content)
    }

    fn parse_imports(&self, content: &str) -> (res: Vec<String>) {
        let v: Vec<String> = Vec::new();
        assert(strings_view(v@) =~= Seq::<Seq<char>>::empty());
        v
    }
}

} // verus!
