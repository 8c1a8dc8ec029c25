//! C#: namespaces, classes, records, structs, interfaces, enums and methods.

use crate::analyze::engine::{parse_with, parsed};
use crate::analyze::lang::{strings_view, LanguageParser};
use crate::analyze::rules::{
    EndRule, KindRule, NameRule, Rule, SignatureRule, SkipRule, VisibilityRule,
};
use crate::text::ascii::BRACE_OPEN;
use crate::types::symbol::{Symbol, SymbolKind, SymbolView, Visibility};
use vstd::prelude::*;

verus! {

/// `namespace Name`.
pub const NAMESPACE_PATTERN: &'static str = r"(?m)^[ \t]*namespace\s+([\w.]+)";

/// `class Name` or `record Name` after its modifiers.
pub const CLASS_PATTERN: &'static str =
    r"(?m)^[ \t]*((?:public|protected|private|internal)\s+)?(?:(?:abstract|sealed|static|partial|readonly)\s+)*(?:class|record)\s+(\w+)";

/// `struct Name`.
pub const STRUCT_PATTERN: &'static str =
    r"(?m)^[ \t]*((?:public|protected|private|internal)\s+)?(?:(?:abstract|sealed|static|partial|readonly)\s+)*struct\s+(\w+)";

/// `interface Name`.
pub const INTERFACE_PATTERN: &'static str =
    r"(?m)^[ \t]*((?:public|protected|private|internal)\s+)?(?:(?:abstract|sealed|static|partial|readonly)\s+)*interface\s+(\w+)";

/// `enum Name`.
pub const ENUM_PATTERN: &'static str =
    r"(?m)^[ \t]*((?:public|protected|private|internal)\s+)?enum\s+(\w+)";

/// A method with its body.
pub const METHOD_PATTERN: &'static str =
    r"(?m)^[ \t]+((?:public|protected|private|internal)\s+)?(?:(?:static|virtual|override|abstract|async|sealed|extern|partial)\s+)*[\w<>\[\],.?]+\s+(\w+)\s*\([^)]*\)\s*\{";

/// The extractor for C#.
pub struct CSharpParser;

/// The rules by which C# is read, in the order in which they are applied.
pub open spec fn csharp_rules() -> Seq<Rule> {
    seq![
        Rule::of(
            NAMESPACE_PATTERN,
            KindRule::Fixed(SymbolKind::Module),
            NameRule::Group(1),
            VisibilityRule::Fixed(Visibility::Public),
            EndRule::Brace { back: 0 },
            SignatureRule::Keyword("namespace "),
            SkipRule::Nothing,
        ),
        Rule::of(
            CLASS_PATTERN,
            KindRule::Fixed(SymbolKind::Class),
            NameRule::Group(2),
            VisibilityRule::Words { group: 1, exact: false, otherwise: Visibility::Internal },
            EndRule::Brace { back: 0 },
            SignatureRule::Line,
            SkipRule::Nothing,
        ),
        Rule::of(
            STRUCT_PATTERN,
            KindRule::Fixed(SymbolKind::Struct),
            NameRule::Group(2),
            VisibilityRule::Words { group: 1, exact: false, otherwise: Visibility::Internal },
            EndRule::Brace { back: 0 },
            SignatureRule::Line,
            SkipRule::Nothing,
        ),
        Rule::of(
            INTERFACE_PATTERN,
            KindRule::Fixed(SymbolKind::Interface),
            NameRule::Group(2),
            VisibilityRule::Words { group: 1, exact: false, otherwise: Visibility::Internal },
            EndRule::Brace { back: 0 },
            SignatureRule::Line,
            SkipRule::Nothing,
        ),
        Rule::of(
            ENUM_PATTERN,
            KindRule::Fixed(SymbolKind::Enum),
            NameRule::Group(2),
            VisibilityRule::Words { group: 1, exact: false, otherwise: Visibility::Internal },
            EndRule::Brace { back: 0 },
            SignatureRule::Line,
            SkipRule::Nothing,
        ),
        Rule::of(
            METHOD_PATTERN,
            KindRule::Fixed(SymbolKind::Method),
            NameRule::Group(2),
            VisibilityRule::Words { group: 1, exact: false, otherwise: Visibility::Private },
            EndRule::Brace { back: 1 },
            SignatureRule::MatchWithout { strip: BRACE_OPEN },
            SkipRule::Keywords { catch: true, extra: None },
        ),
    ]
}

/// The rules by which C# is read.
pub fn rules() -> (res: Vec<Rule>)
    ensures
        res@ == csharp_rules(),
{
    let mut v: Vec<Rule> = Vec::new();
    v.push(
        Rule::new(
            NAMESPACE_PATTERN,
            KindRule::Fixed(SymbolKind::Module),
            NameRule::Group(1),
            VisibilityRule::Fixed(Visibility::Public),
            EndRule::Brace { back: 0 },
            SignatureRule::Keyword("namespace "),
            SkipRule::Nothing,
        ),
    );
    v.push(
        Rule::new(
            CLASS_PATTERN,
            KindRule::Fixed(SymbolKind::Class),
            NameRule::Group(2),
            VisibilityRule::Words { group: 1, exact: false, otherwise: Visibility::Internal },
            EndRule::Brace { back: 0 },
            SignatureRule::Line,
            SkipRule::Nothing,
        ),
    );
    v.push(
        Rule::new(
            STRUCT_PATTERN,
            KindRule::Fixed(SymbolKind::Struct),
            NameRule::Group(2),
            VisibilityRule::Words { group: 1, exact: false, otherwise: Visibility::Internal },
            EndRule::Brace { back: 0 },
            SignatureRule::Line,
            SkipRule::Nothing,
        ),
    );
    v.push(
        Rule::new(
            INTERFACE_PATTERN,
            KindRule::Fixed(SymbolKind::Interface),
            NameRule::Group(2),
            VisibilityRule::Words { group: 1, exact: false, otherwise: Visibility::Internal },
            EndRule::Brace { back: 0 },
            SignatureRule::Line,
            SkipRule::Nothing,
        ),
    );
    v.push(
        Rule::new(
            ENUM_PATTERN,
            KindRule::Fixed(SymbolKind::Enum),
            NameRule::Group(2),
            VisibilityRule::Words { group: 1, exact: false, otherwise: Visibility::Internal },
            EndRule::Brace { back: 0 },
            SignatureRule::Line,
            SkipRule::Nothing,
        ),
    );
    v.push(
        Rule::new(
            METHOD_PATTERN,
            KindRule::Fixed(SymbolKind::Method),
            NameRule::Group(2),
            VisibilityRule::Words { group: 1, exact: false, otherwise: Visibility::Private },
            EndRule::Brace { back: 1 },
            SignatureRule::MatchWithout { strip: BRACE_OPEN },
            SkipRule::Keywords { catch: true, extra: None },
        ),
    );
    assert(v@ =~= csharp_rules());
    v
}

impl LanguageParser for CSharpParser {
    open spec fn symbols(&self, text: Seq<char>) -> Seq<SymbolView> {
        parsed(csharp_rules(), text)
    }

    open spec fn imports(&self, text: Seq<char>) -> Seq<Seq<char>> {
        Seq::empty()
    }

    fn parse_symbols(&self, content: &str) -> (res: Vec<Symbol>) {
        parse_with(&rules(), content)
    }

    fn parse_imports(&self, content: &str) -> (res: Vec<String>) {
        let v: Vec<String> = Vec::new();
        assert(strings_view(v@) =~= Seq::<Seq<char>>::empty());
        v
    }
}

} // verus!
