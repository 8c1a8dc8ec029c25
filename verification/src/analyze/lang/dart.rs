//! Dart: classes, mixins, extensions, enums, functions, getters and setters.

use crate::analyze::engine::{parse_with, parsed};
use crate::analyze::lang::{strings_view, LanguageParser};
use crate::analyze::rules::{
    EndRule, KindRule, NameRule, Rule, SignatureRule, SkipRule, VisibilityRule,
};
use crate::text::ascii::BRACE_OPEN;
use crate::types::symbol::{Symbol, SymbolKind, SymbolView, Visibility};
use vstd::prelude::*;

verus! {

/// `class Name {` or `abstract class Name {`.
pub const CLASS_PATTERN: &'static str =
    r"(?m)^(abstract\s+)?class\s+(\w+)(?:\s+extends\s+\w+)?(?:\s+(?:with|implements)\s+[^{]+)?\s*\{";

/// `mixin Name on Base {`.
pub const MIXIN_PATTERN: &'static str = r"(?m)^mixin\s+(\w+)(?:\s+on\s+\w+)?\s*\{";

/// `extension Name on Type {`.
pub const EXTENSION_PATTERN: &'static str = r"(?m)^extension\s+(\w+)\s+on\s+\w+[^{]*\{";

/// `enum Name {`.
pub const ENUM_PATTERN: &'static str = r"(?m)^enum\s+(\w+)\s*\{";

/// `Type name(params) {`; `static` makes it a function.
pub const FUNCTION_PATTERN: &'static str =
    r"(?m)^(static\s+)?(\w+(?:<[^>]+>)?)\s+(\w+)\s*\([^)]*\)(?:\s*async)?\s*\{";

/// `get name {`.
pub const GETTER_PATTERN: &'static str = r"(?m)^\s*(?:\w+\s+)?get\s+(\w+)\s*\{";

/// `set name(value) {`.
pub const SETTER_PATTERN: &'static str = r"(?m)^\s*set\s+(\w+)\s*\([^)]*\)\s*\{";

/// The extractor for Dart.
pub struct DartParser;

/// The rules by which Dart is read, in the order in which they are applied.
pub open spec fn dart_rules() -> Seq<Rule> {
    seq![
        Rule::of(
            CLASS_PATTERN,
            KindRule::Fixed(SymbolKind::Class),
            NameRule::Group(2),
            VisibilityRule::Underscore,
            EndRule::Brace { back: 1 },
            SignatureRule::ByGroup { group: 1, present: "abstract class ", absent: "class " },
            SkipRule::Nothing,
        ),
        Rule::of(
            MIXIN_PATTERN,
            KindRule::Fixed(SymbolKind::Trait),
            NameRule::Group(1),
            VisibilityRule::Underscore,
            EndRule::Brace { back: 1 },
            SignatureRule::Keyword("mixin "),
            SkipRule::Nothing,
        ),
        Rule::of(
            EXTENSION_PATTERN,
            KindRule::Fixed(SymbolKind::Module),
            NameRule::Group(1),
            VisibilityRule::Fixed(Visibility::Public),
            EndRule::Brace { back: 1 },
            SignatureRule::Keyword("extension "),
            SkipRule::Nothing,
        ),
        Rule::of(
            ENUM_PATTERN,
            KindRule::Fixed(SymbolKind::Enum),
            NameRule::Group(1),
            VisibilityRule::Underscore,
            EndRule::Brace { back: 1 },
            SignatureRule::Keyword("enum "),
            SkipRule::Nothing,
        ),
        Rule::of(
            FUNCTION_PATTERN,
            KindRule::ByGroup {
                group: 1,
                present: SymbolKind::Function,
                absent: SymbolKind::Method,
            },
            NameRule::Group(3),
            VisibilityRule::Underscore,
            EndRule::Brace { back: 1 },
            SignatureRule::MatchWithout { strip: BRACE_OPEN },
            SkipRule::Keywords { catch: true, extra: Some("try") },
        ),
        Rule::of(
            GETTER_PATTERN,
            KindRule::Fixed(SymbolKind::Method),
            NameRule::Prefixed("get ", 1),
            VisibilityRule::Underscore,
            EndRule::Brace { back: 1 },
            SignatureRule::Absent,
            SkipRule::Nothing,
        ),
        Rule::of(
            SETTER_PATTERN,
            KindRule::Fixed(SymbolKind::Method),
            NameRule::Prefixed("set ", 1),
            VisibilityRule::Underscore,
            EndRule::Brace { back: 1 },
            SignatureRule::Absent,
            SkipRule::Nothing,
        ),
    ]
}

/// The rules by which Dart is read.
pub fn rules() -> (res: Vec<Rule>)
    ensures
        res@ == dart_rules(),
{
    let mut v: Vec<Rule> = Vec::new();
    v.push(
        Rule::new(
            CLASS_PATTERN,
            KindRule::Fixed(SymbolKind::Class),
            NameRule::Group(2),
            VisibilityRule::Underscore,
            EndRule::Brace { back: 1 },
            SignatureRule::ByGroup { group: 1, present: "abstract class ", absent: "class " },
            SkipRule::Nothing,
        ),
    );
    v.push(
        Rule::new(
            MIXIN_PATTERN,
            KindRule::Fixed(SymbolKind::Trait),
            NameRule::Group(1),
            VisibilityRule::Underscore,
            EndRule::Brace { back: 1 },
            SignatureRule::Keyword("mixin "),
            SkipRule::Nothing,
        ),
    );
    v.push(
        Rule::new(
            EXTENSION_PATTERN,
            KindRule::Fixed(SymbolKind::Module),
            NameRule::Group(1),
            VisibilityRule::Fixed(Visibility::Public),
            EndRule::Brace { back: 1 },
            SignatureRule::Keyword("extension "),
            SkipRule::Nothing,
        ),
    );
    v.push(
        Rule::new(
            ENUM_PATTERN,
            KindRule::Fixed(SymbolKind::Enum),
            NameRule::Group(1),
            VisibilityRule::Underscore,
            EndRule::Brace { back: 1 },
            SignatureRule::Keyword("enum "),
            SkipRule::Nothing,
        ),
    );
    v.push(
        Rule::new(
            FUNCTION_PATTERN,
            KindRule::ByGroup {
                group: 1,
                present: SymbolKind::Function,
                absent: SymbolKind::Method,
            },
            NameRule::Group(3),
            VisibilityRule::Underscore,
            EndRule::Brace { back: 1 },
            SignatureRule::MatchWithout { strip: BRACE_OPEN },
            SkipRule::Keywords { catch: true, extra: Some("try") },
        ),
    );
    v.push(
        Rule::new(
            GETTER_PATTERN,
            KindRule::Fixed(SymbolKind::Method),
            NameRule::Prefixed("get ", 1),
            VisibilityRule::Underscore,
            EndRule::Brace { back: 1 },
            SignatureRule::Absent,
            SkipRule::Nothing,
        ),
    );
    v.push(
        Rule::new(
            SETTER_PATTERN,
            KindRule::Fixed(SymbolKind::Method),
            NameRule::Prefixed("set ", 1),
            VisibilityRule::Underscore,
            EndRule::Brace { back: 1 },
            SignatureRule::Absent,
            SkipRule::Nothing,
        ),
    );
    assert(v@ =~= dart_rules());
    v
}

impl LanguageParser for DartParser {
    open spec fn symbols(&self, text: Seq<char>) -> Seq<SymbolView> {
        parsed(dart_rules(), text)
    }

    open spec fn imports(&self, text: Seq<char>) -> Seq<Seq<char>> {
        Seq::empty()
    }

    fn parse_symbols(&self, content: &str) -> (res: Vec<Symbol>) {
        parse_with(&rules(), content)
    }

    fn parse_imports(&self, content: &str) -> (res: Vec<String>) {
        let v: Vec<String> = Vec::new();
        assert(strings_view(v@) =~= Seq::<Seq<char>>::empty());
        v
    }
}

} // verus!
