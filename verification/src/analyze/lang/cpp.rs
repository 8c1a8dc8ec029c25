//! C++: classes, structs, namespaces, enums, functions and method declarations.

use crate::analyze::engine::{parse_with, parsed};
use crate::analyze::lang::{strings_view, LanguageParser};
use crate::analyze::rules::{
    EndRule, KindRule, NameRule, Rule, SignatureRule, SkipRule, VisibilityRule,
};
use crate::text::ascii::{BRACE_OPEN, SEMICOLON};
use crate::types::symbol::{Symbol, SymbolKind, SymbolView, Visibility};
use vstd::prelude::*;

verus! {

/// `class Name : Base {` or `struct Name {`.
pub const CLASS_PATTERN: &'static str =
    r"(?m)^(?:template\s*<[^>]*>\s*)?(class|struct)\s+(\w+)(?:\s*:\s*[^{]+)?\s*\{";

/// `namespace name {`.
pub const NAMESPACE_PATTERN: &'static str = r"(?m)^namespace\s+(\w+)\s*\{";

/// `enum Name {` or `enum class Name {`.
pub const ENUM_PATTERN: &'static str = r"(?m)^enum(?:\s+class)?\s+(\w+)\s*\{";

/// A function or `Class::method` with its body.
pub const FUNCTION_PATTERN: &'static str =
    r"(?m)^(virtual\s+|static\s+|inline\s+|constexpr\s+|explicit\s+)*(\w+(?:\s*[*&])?(?:\s*<[^>]+>)?)\s+(\w+(?:::\w+)?)\s*\([^)]*\)(?:\s*(?:const|override|noexcept|final))*\s*\{";

/// A method declared without a body.
pub const METHOD_DECL_PATTERN: &'static str =
    r"(?m)^\s*(virtual\s+|static\s+|inline\s+|constexpr\s+|explicit\s+)*(\w+(?:\s*[*&])?(?:\s*<[^>]+>)?)\s+(\w+)\s*\([^)]*\)(?:\s*(?:const|override|noexcept|final))*\s*;";

/// The extractor for C++.
pub struct CppParser;

/// The rules by which C++ is read, in the order in which they are applied.
pub open spec fn cpp_rules() -> Seq<Rule> {
    seq![
        Rule::of(
            CLASS_PATTERN,
            KindRule::GroupIs {
                group: 1,
                text: "struct",
                then: SymbolKind::Struct,
                otherwise: SymbolKind::Class,
            },
            NameRule::Group(2),
            VisibilityRule::Fixed(Visibility::Public),
            EndRule::Brace { back: 1 },
            SignatureRule::GroupAndName { group: 1, default: "class" },
            SkipRule::Nothing,
        ),
        Rule::of(
            NAMESPACE_PATTERN,
            KindRule::Fixed(SymbolKind::Module),
            NameRule::Group(1),
            VisibilityRule::Fixed(Visibility::Public),
            EndRule::Brace { back: 1 },
            SignatureRule::Keyword("namespace "),
            SkipRule::Nothing,
        ),
        Rule::of(
            ENUM_PATTERN,
            KindRule::Fixed(SymbolKind::Enum),
            NameRule::Group(1),
            VisibilityRule::Fixed(Visibility::Public),
            EndRule::Brace { back: 1 },
            SignatureRule::Keyword("enum "),
            SkipRule::Nothing,
        ),
        Rule::of(
            FUNCTION_PATTERN,
            KindRule::NameContains {
                needle: "::",
                then: SymbolKind::Method,
                otherwise: SymbolKind::Function,
            },
            NameRule::Group(3),
            VisibilityRule::GroupContains {
                group: 1,
                needle: "static",
                then: Visibility::Private,
                otherwise: Visibility::Public,
            },
            EndRule::Brace { back: 1 },
            SignatureRule::MatchWithout { strip: BRACE_OPEN },
            SkipRule::Keywords { catch: true, extra: None },
        ),
        Rule::of(
            METHOD_DECL_PATTERN,
            KindRule::Fixed(SymbolKind::Method),
            NameRule::Group(3),
            VisibilityRule::GroupContains {
                group: 1,
                needle: "virtual",
                then: Visibility::Public,
                otherwise: Visibility::Internal,
            },
            EndRule::OneLine,
            SignatureRule::MatchWithout { strip: SEMICOLON },
            SkipRule::Keywords { catch: true, extra: Some("return") },
        ),
    ]
}

/// The rules by which C++ is read.
pub fn rules() -> (res: Vec<Rule>)
    ensures
        res@ == cpp_rules(),
{
    let mut v: Vec<Rule> = Vec::new();
    v.push(
        Rule::new(
            CLASS_PATTERN,
            KindRule::GroupIs {
                group: 1,
                text: "struct",
                then: SymbolKind::Struct,
                otherwise: SymbolKind::Class,
            },
            NameRule::Group(2),
            VisibilityRule::Fixed(Visibility::Public),
            EndRule::Brace { back: 1 },
            SignatureRule::GroupAndName { group: 1, default: "class" },
            SkipRule::Nothing,
        ),
    );
    v.push(
        Rule::new(
            NAMESPACE_PATTERN,
            KindRule::Fixed(SymbolKind::Module),
            NameRule::Group(1),
            VisibilityRule::Fixed(Visibility::Public),
            EndRule::Brace { back: 1 },
            SignatureRule::Keyword("namespace "),
            SkipRule::Nothing,
        ),
    );
    v.push(
        Rule::new(
            ENUM_PATTERN,
            KindRule::Fixed(SymbolKind::Enum),
            NameRule::Group(1),
            VisibilityRule::Fixed(Visibility::Public),
            EndRule::Brace { back: 1 },
            SignatureRule::Keyword("enum "),
            SkipRule::Nothing,
        ),
    );
    v.push(
        Rule::new(
            FUNCTION_PATTERN,
            KindRule::NameContains {
                needle: "::",
                then: SymbolKind::Method,
                otherwise: SymbolKind::Function,
            },
            NameRule::Group(3),
            VisibilityRule::GroupContains {
                group: 1,
                needle: "static",
                then: Visibility::Private,
                otherwise: Visibility::Public,
            },
            EndRule::Brace { back: 1 },
            SignatureRule::MatchWithout { strip: BRACE_OPEN },
            SkipRule::Keywords { catch: true, extra: None },
        ),
    );
    v.push(
        Rule::new(
            METHOD_DECL_PATTERN,
            KindRule::Fixed(SymbolKind::Method),
            NameRule::Group(3),
            VisibilityRule::GroupContains {
                group: 1,
                needle: "virtual",
                then: Visibility::Public,
                otherwise: Visibility::Internal,
            },
            EndRule::OneLine,
            SignatureRule::MatchWithout { strip: SEMICOLON },
            SkipRule::Keywords { catch: true, extra: Some("return") },
        ),
    );
    assert(v@ =~= cpp_rules());
    v
}

impl LanguageParser for CppParser {
    open spec fn symbols(&self, text: Seq<char>) -> Seq<SymbolView> {
        parsed(cpp_rules(), text)
    }

    open spec fn imports(&self, text: Seq<char>) -> Seq<Seq<char>> {
        Seq::empty()
    }

    fn parse_symbols(&self, content: &str) -> (res: Vec<Symbol>) {
        parse_with(&rules(), content)
    }

    fn parse_imports(&self, content: &str) -> (res: Vec<String>) {
        let v: Vec<String> = Vec::new();
        assert(strings_view(v@) =~= Seq::<Seq<char>>::empty());
        v
    }
}

} // verus!
