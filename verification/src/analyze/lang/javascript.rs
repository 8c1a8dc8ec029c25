//! JavaScript and TypeScript: functions, classes, arrow functions, interfaces and type aliases.

use crate::analyze::engine::{parse_with, parsed};
use crate::analyze::lang::{strings_view, LanguageParser};
use crate::analyze::rules::{
    EndRule, KindRule, NameRule, Rule, SignatureRule, SkipRule, VisibilityRule,
};
use crate::types::symbol::{Symbol, SymbolKind, SymbolView, Visibility};
use vstd::prelude::*;

verus! {

/// `function name`.
pub const FUNCTION_PATTERN: &'static str = r"(?m)^[ \t]*(export\s+)?(async\s+)?function\s+(\w+)";

/// `class Name`.
pub const CLASS_PATTERN: &'static str = r"(?m)^[ \t]*(export\s+)?(default\s+)?class\s+(\w+)";

/// `const name = (params) =>`.
pub const ARROW_CONST_PATTERN: &'static str =
    r"(?m)^[ \t]*(export\s+)?(const|let|var)\s+(\w+)\s*=\s*(async\s*)?\([^)]*\)\s*=>";

/// `const name = param =>`.
pub const SIMPLE_ARROW_PATTERN: &'static str =
    r"(?m)^[ \t]*(export\s+)?(const|let|var)\s+(\w+)\s*=\s*(async\s*)?\w+\s*=>";

/// `interface Name`.
pub const INTERFACE_PATTERN: &'static str = r"(?m)^[ \t]*(export\s+)?interface\s+(\w+)";

/// `type Name =`.
pub const TYPE_PATTERN: &'static str = r"(?m)^[ \t]*(export\s+)?type\s+(\w+)\s*=";

/// The extractor for JavaScript and TypeScript.
pub struct JavaScriptParser;

/// The rules by which JavaScript and TypeScript is read, in the order in which they are applied.
pub open spec fn javascript_rules() -> Seq<Rule> {
    seq![
        Rule::of(
            FUNCTION_PATTERN,
            KindRule::Fixed(SymbolKind::Function),
            NameRule::Group(3),
            VisibilityRule::ByGroup {
                group: 1,
                present: Visibility::Public,
                absent: Visibility::Private,
            },
            EndRule::Brace { back: 0 },
            SignatureRule::Line,
            SkipRule::Nothing,
        ),
        Rule::of(
            CLASS_PATTERN,
            KindRule::Fixed(SymbolKind::Class),
            NameRule::Group(3),
            VisibilityRule::ByGroup {
                group: 1,
                present: Visibility::Public,
                absent: Visibility::Private,
            },
            EndRule::Brace { back: 0 },
            SignatureRule::Absent,
            SkipRule::Nothing,
        ),
        Rule::of(
            ARROW_CONST_PATTERN,
            KindRule::Fixed(SymbolKind::Function),
            NameRule::Group(3),
            VisibilityRule::ByGroup {
                group: 1,
                present: Visibility::Public,
                absent: Visibility::Private,
            },
            EndRule::Brace { back: 0 },
            SignatureRule::Line,
            SkipRule::Nothing,
        ),
        Rule::of(
            SIMPLE_ARROW_PATTERN,
            KindRule::Fixed(SymbolKind::Function),
            NameRule::Group(3),
            VisibilityRule::ByGroup {
                group: 1,
                present: Visibility::Public,
                absent: Visibility::Private,
            },
            EndRule::OneLine,
            SignatureRule::Absent,
            SkipRule::Nothing,
        ),
        Rule::of(
            INTERFACE_PATTERN,
            KindRule::Fixed(SymbolKind::Interface),
            NameRule::Group(2),
            VisibilityRule::ByGroup {
                group: 1,
                present: Visibility::Public,
                absent: Visibility::Private,
            },
            EndRule::Brace { back: 0 },
            SignatureRule::Absent,
            SkipRule::Nothing,
        ),
        Rule::of(
            TYPE_PATTERN,
            KindRule::Fixed(SymbolKind::Type),
            NameRule::Group(2),
            VisibilityRule::ByGroup {
                group: 1,
                present: Visibility::Public,
                absent: Visibility::Private,
            },
            EndRule::OneLine,
            SignatureRule::Absent,
            SkipRule::Nothing,
        ),
    ]
}

/// The rules by which JavaScript and TypeScript is read.
pub fn rules() -> (res: Vec<Rule>)
    ensures
        res@ == javascript_rules(),
{
    let mut v: Vec<Rule> = Vec::new();
    v.push(
        Rule::new(
            FUNCTION_PATTERN,
            KindRule::Fixed(SymbolKind::Function),
            NameRule::Group(3),
            VisibilityRule::ByGroup {
                group: 1,
                present: Visibility::Public,
                absent: Visibility::Private,
            },
            EndRule::Brace { back: 0 },
            SignatureRule::Line,
            SkipRule::Nothing,
        ),
    );
    v.push(
        Rule::new(
            CLASS_PATTERN,
            KindRule::Fixed(SymbolKind::Class),
            NameRule::Group(3),
            VisibilityRule::ByGroup {
                group: 1,
                present: Visibility::Public,
                absent: Visibility::Private,
            },
            EndRule::Brace { back: 0 },
            SignatureRule::Absent,
            SkipRule::Nothing,
        ),
    );
    v.push(
        Rule::new(
            ARROW_CONST_PATTERN,
            KindRule::Fixed(SymbolKind::Function),
            NameRule::Group(3),
            VisibilityRule::ByGroup {
                group: 1,
                present: Visibility::Public,
                absent: Visibility::Private,
            },
            EndRule::Brace { back: 0 },
            SignatureRule::Line,
            SkipRule::Nothing,
        ),
    );
    v.push(
        Rule::new(
            SIMPLE_ARROW_PATTERN,
            KindRule::Fixed(SymbolKind::Function),
            NameRule::Group(3),
            VisibilityRule::ByGroup {
                group: 1,
                present: Visibility::Public,
                absent: Visibility::Private,
            },
            EndRule::OneLine,
            SignatureRule::Absent,
            SkipRule::Nothing,
        ),
    );
    v.push(
        Rule::new(
            INTERFACE_PATTERN,
            KindRule::Fixed(SymbolKind::Interface),
            NameRule::Group(2),
            VisibilityRule::ByGroup {
                group: 1,
                present: Visibility::Public,
                absent: Visibility::Private,
            },
            EndRule::Brace { back: 0 },
            SignatureRule::Absent,
            SkipRule::Nothing,
        ),
    );
    v.push(
        Rule::new(
            TYPE_PATTERN,
            KindRule::Fixed(SymbolKind::Type),
            NameRule::Group(2),
            VisibilityRule::ByGroup {
                group: 1,
                present: Visibility::Public,
                absent: Visibility::Private,
            },
            EndRule::OneLine,
            SignatureRule::Absent,
            SkipRule::Nothing,
        ),
    );
    assert(v@ =~= javascript_rules());
    v
}

impl LanguageParser for JavaScriptParser {
    open spec fn symbols(&self, text: Seq<char>) -> Seq<SymbolView> {
        parsed(javascript_rules(), text)
    }

    open spec fn imports(&self, text: Seq<char>) -> Seq<Seq<char>> {
        Seq::empty()
    }

    fn parse_symbols(&self, content: &str) -> (res: Vec<Symbol>) {
        parse_with(&rules(), content)
    }

    fn parse_imports(&self, content: &str) -> (res: Vec<String>) {
        let v: Vec<String> = Vec::new();
        assert(strings_view(v@) =~= Seq::<Seq<char>>::empty());
        v
    }
}

} // verus!
