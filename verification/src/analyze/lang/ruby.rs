//! Ruby: classes, modules, methods and attributes.

use crate::analyze::engine::{parse_with, parsed};
use crate::analyze::lang::{strings_view, LanguageParser};
use crate::analyze::rules::{
    EndRule, KindRule, NameRule, Rule, SignatureRule, SkipRule, VisibilityRule,
};
use crate::types::symbol::{Symbol, SymbolKind, SymbolView, Visibility};
use vstd::prelude::*;

verus! {

/// `class Name < Parent`.
pub const CLASS_PATTERN: &'static str = r"(?m)^class\s+([A-Z]\w*)(?:\s*<\s*\w+)?";

/// `module Name`.
pub const MODULE_PATTERN: &'static str = r"(?m)^module\s+([A-Z]\w*)";

/// `def self.name`.
pub const CLASS_METHOD_PATTERN: &'static str = r"(?m)^\s*def\s+self\.(\w+[?!=]?)(?:\s*\(|$|\s)";

/// `def name`.
pub const METHOD_PATTERN: &'static str = r"(?m)^\s*def\s+(\w+[?!=]?)(?:\s*\(|$|\s)";

/// `attr_reader :a, :b`.
pub const ATTR_PATTERN: &'static str = r"(?m)^\s*attr_(reader|writer|accessor)\s+(.+)";

/// The extractor for Ruby.
pub struct RubyParser;

/// The rules by which Ruby is read, in the order in which they are applied.
pub open spec fn ruby_rules() -> Seq<Rule> {
    seq![
        Rule::of(
            CLASS_PATTERN,
            KindRule::Fixed(SymbolKind::Class),
            NameRule::Group(1),
            VisibilityRule::Fixed(Visibility::Public),
            EndRule::End,
            SignatureRule::Keyword("class "),
            SkipRule::Nothing,
        ),
        Rule::of(
            MODULE_PATTERN,
            KindRule::Fixed(SymbolKind::Module),
            NameRule::Group(1),
            VisibilityRule::Fixed(Visibility::Public),
            EndRule::End,
            SignatureRule::Keyword("module "),
            SkipRule::Nothing,
        ),
        Rule::of(
            CLASS_METHOD_PATTERN,
            KindRule::Fixed(SymbolKind::Function),
            NameRule::Prefixed("self.", 1),
            VisibilityRule::Scope,
            EndRule::End,
            SignatureRule::Keyword("def "),
            SkipRule::Nothing,
        ),
        Rule::of(
            METHOD_PATTERN,
            KindRule::Fixed(SymbolKind::Method),
            NameRule::Group(1),
            VisibilityRule::Scope,
            EndRule::End,
            SignatureRule::Keyword("def "),
            SkipRule::Containing("self."),
        ),
        Rule::of(
            ATTR_PATTERN,
            KindRule::Fixed(SymbolKind::Const),
            NameRule::List(2),
            VisibilityRule::Fixed(Visibility::Public),
            EndRule::OneLine,
            SignatureRule::Absent,
            SkipRule::Nothing,
        ),
    ]
}

/// The rules by which Ruby is read.
pub fn rules() -> (res: Vec<Rule>)
    ensures
        res@ == ruby_rules(),
{
    let mut v: Vec<Rule> = Vec::new();
    v.push(
        Rule::new(
            CLASS_PATTERN,
            KindRule::Fixed(SymbolKind::Class),
            NameRule::Group(1),
            VisibilityRule::Fixed(Visibility::Public),
            EndRule::End,
            SignatureRule::Keyword("class "),
            SkipRule::Nothing,
        ),
    );
    v.push(
        Rule::new(
            MODULE_PATTERN,
            KindRule::Fixed(SymbolKind::Module),
            NameRule::Group(1),
            VisibilityRule::Fixed(Visibility::Public),
            EndRule::End,
            SignatureRule::Keyword("module "),
            SkipRule::Nothing,
        ),
    );
    v.push(
        Rule::new(
            CLASS_METHOD_PATTERN,
            KindRule::Fixed(SymbolKind::Function),
            NameRule::Prefixed("self.", 1),
            VisibilityRule::Scope,
            EndRule::End,
            SignatureRule::Keyword("def "),
            SkipRule::Nothing,
        ),
    );
    v.push(
        Rule::new(
            METHOD_PATTERN,
            KindRule::Fixed(SymbolKind::Method),
            NameRule::Group(1),
            VisibilityRule::Scope,
            EndRule::End,
            SignatureRule::Keyword("def "),
            SkipRule::Containing("self."),
        ),
    );
    v.push(
        Rule::new(
            ATTR_PATTERN,
            KindRule::Fixed(SymbolKind::Const),
            NameRule::List(2),
            VisibilityRule::Fixed(Visibility::Public),
            EndRule::OneLine,
            SignatureRule::Absent,
            SkipRule::Nothing,
        ),
    );
    assert(v@ =~= ruby_rules());
    v
}

impl LanguageParser for RubyParser {
    open spec fn symbols(&self, text: Seq<char>) -> Seq<SymbolView> {
        parsed(ruby_rules(), text)
    }

    open spec fn imports(&self, text: Seq<char>) -> Seq<Seq<char>> {
        Seq::empty()
    }

    fn parse_symbols(&self, content: &str) -> (res: Vec<Symbol>) {
        parse_with(&rules(), content)
    }

    fn parse_imports(&self, content: &str) -> (res: Vec<String>) {
        let v: Vec<String> = Vec::new();
        assert(strings_view(v@) =~= Seq::<Seq<char>>::empty());
        v
    }
}

} // verus!
