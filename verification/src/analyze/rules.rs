//! Declaration rules: how one match of a pattern becomes a symbol.
//!
//! A language is described by a list of rules. Each rule names a pattern and
//! says, for a match of it, which group holds the name, how kind and
//! visibility are told, where the declaration ends and what its signature
//! is.

use crate::analyze::pattern::{Capture, CaptureView};
use crate::analyze::scan::{
    block_end, brace_end, brace_end_in, find_indent_end, find_ruby_end, get_visibility_at_line,
    indent_end, visibility_at_line,
};
use crate::text::bytes::{
    check_span, contains_bytes, has_prefix, is_span, range_contains, range_is, range_starts_with,
    span_text, text_between,
};
use crate::text::lines::{line_number, line_number_at, ranges_within};
use crate::text::trim::{
    drop_byte, drop_space, skip_byte, trim, trim_end, trim_end_byte, trim_range, trim_start_byte,
};
use crate::types::file::lit;
use crate::types::symbol::{LineRange, Symbol, SymbolKind, SymbolView, Visibility};
use crate::text::ascii::{COLON, COMMA};
use crate::text::chars::{char_is_uppercase, is_uppercase};
use vstd::prelude::*;
use vstd::string::*;

verus! {

/// How the kind of a symbol is told.
pub enum KindRule {
    /// Always the same kind.
    Fixed(SymbolKind),
    /// One kind where the group took part in the match, another where not.
    ByGroup { group: usize, present: SymbolKind, absent: SymbolKind },
    /// One kind where the group matched exactly `text`, another where not.
    GroupIs { group: usize, text: &'static str, then: SymbolKind, otherwise: SymbolKind },
    /// One kind where the name holds `needle`, another where not.
    NameContains { needle: &'static str, then: SymbolKind, otherwise: SymbolKind },
}

/// Where the name of a symbol comes from.
pub enum NameRule {
    /// The text of a group; empty where the group took no part.
    Group(usize),
    /// The text of a group, or a fixed name where the group took no part.
    GroupOr(usize, &'static str),
    /// A fixed prefix before the text of a group.
    Prefixed(&'static str, usize),
    /// One name for each item of the group's text, a list separated by
    /// commas; an item is taken without white space and leading colons.
    List(usize),
}

/// How the visibility of a symbol is told.
pub enum VisibilityRule {
    /// Always the same.
    Fixed(Visibility),
    /// One visibility where the group took part, another where not.
    ByGroup { group: usize, present: Visibility, absent: Visibility },
    /// One visibility where the group's text holds `needle`, another where
    /// not.
    GroupContains { group: usize, needle: &'static str, then: Visibility, otherwise: Visibility },
    /// Private, protected or public where the group's text holds that word
    /// (where `exact`, is that word), tried in this order; `otherwise` where
    /// it holds none of them.
    Words { group: usize, exact: bool, otherwise: Visibility },
    /// Private where the name begins with an underscore.
    Underscore,
    /// Private where the name begins with one underscore but not with two.
    SingleUnderscore,
    /// Public where the name begins with an upper-case letter.
    Uppercase,
    /// By the nearest visibility keyword on a line above.
    Scope,
}

/// How the last line of a declaration is found.
pub enum EndRule {
    /// The declaration is its first line.
    OneLine,
    /// The line of the brace that closes the block opened at or after the
    /// end of the match, taken back by `back` bytes.
    Brace { back: usize },
    /// The last line indented by more than the length of the group's text.
    Indent { group: usize },
    /// The line whose `end` closes the block.
    End,
}

/// What the signature of a symbol is.
pub enum SignatureRule {
    /// No signature.
    Absent,
    /// The line on which the match begins, without white space at its ends.
    Line,
    /// The match, trimmed, without the bytes `strip` at its end, trimmed
    /// again.
    MatchWithout { strip: u8 },
    /// The match, trimmed, without the bytes `strip` at its end, followed by
    /// `suffix`.
    MatchWith { strip: u8, suffix: &'static str },
    /// A fixed keyword before the name.
    Keyword(&'static str),
    /// The group's text, or `default` where the group took no part, a space
    /// and the name.
    GroupAndName { group: usize, default: &'static str },
    /// One keyword before the name where the group took part, another where
    /// not.
    ByGroup { group: usize, present: &'static str, absent: &'static str },
    /// A keyword before the name where the group took part; the trimmed
    /// match where not.
    KeywordOrMatch { group: usize, keyword: &'static str },
}

/// Which matches are no declarations and are dropped.
pub enum SkipRule {
    /// None is dropped.
    Nothing,
    /// A match whose name is `if`, `for`, `while` or `switch`; with `catch`,
    /// also one named `catch`; with `extra`, also one named so.
    Keywords { catch: bool, extra: Option<&'static str> },
    /// A match that holds the text.
    Containing(&'static str),
}

/// One pattern and what its matches mean.
pub struct Rule {
    pub pattern: &'static str,
    pub kind: KindRule,
    pub name: NameRule,
    pub visibility: VisibilityRule,
    pub end: EndRule,
    pub signature: SignatureRule,
    pub skip: SkipRule,
}

impl Rule {
    /// The rule with these parts.
    pub open spec fn of(
        pattern: &'static str,
        kind: KindRule,
        name: NameRule,
        visibility: VisibilityRule,
        end: EndRule,
        signature: SignatureRule,
        skip: SkipRule,
    ) -> Rule {
        Rule { pattern, kind, name, visibility, end, signature, skip }
    }

    /// The rule with these parts.
    pub fn new(
        pattern: &'static str,
        kind: KindRule,
        name: NameRule,
        visibility: VisibilityRule,
        end: EndRule,
        signature: SignatureRule,
        skip: SkipRule,
    ) -> (res: Rule)
        ensures
            res == Rule::of(pattern, kind, name, visibility, end, signature, skip),
    {
        Rule { pattern, kind, name, visibility, end, signature, skip }
    }
}

/// The range that group `g` matched, if it took part in the match and the
/// range is a span of the text.
pub open spec fn group_span(bytes: Seq<u8>, cap: CaptureView, g: int) -> Option<(usize, usize)> {
    if 0 <= g < cap.len() {
        match cap[g] {
            Some(sp) => if is_span(bytes, sp.0 as int, sp.1 as int) {
                Some(sp)
            } else {
                None
            },
            None => None,
        }
    } else {
        None
    }
}

/// The range that group `g` matched; an empty range where it took no part.
pub open spec fn group_range(bytes: Seq<u8>, cap: CaptureView, g: int) -> (usize, usize) {
    match group_span(bytes, cap, g) {
        Some(sp) => sp,
        None => (0usize, 0usize),
    }
}

/// The bytes in a range of the text.
pub open spec fn range_bytes(bytes: Seq<u8>, r: (usize, usize)) -> Seq<u8> {
    bytes.subrange(r.0 as int, r.1 as int)
}

/// The text in a range of the text.
pub open spec fn range_text(bytes: Seq<u8>, r: (usize, usize)) -> Seq<char> {
    span_text(bytes, r.0 as int, r.1 as int)
}

/// The group of the match that holds the name.
pub open spec fn name_group(rule: NameRule) -> int {
    match rule {
        NameRule::Group(g) => g as int,
        NameRule::GroupOr(g, _) => g as int,
        NameRule::Prefixed(_, g) => g as int,
        NameRule::List(g) => g as int,
    }
}

/// The items of a list separated by commas in the range `lo..hi`, each
/// without white space around it and without colons before it; items that are
/// empty then are left out.
pub open spec fn list_items(bytes: Seq<u8>, lo: int, hi: int) -> Seq<(usize, usize)>
    decreases hi - lo,
{
    if lo < 0 || lo > hi || hi > bytes.len() {
        Seq::empty()
    } else {
        let comma = crate::text::bytes::first_byte(bytes, COMMA, lo, hi);
        let item = list_item(bytes, lo, comma);
        let head = if item.0 == item.1 {
            Seq::empty()
        } else {
            seq![item]
        };
        if comma < hi && comma >= lo {
            head + list_items(bytes, comma + 1, hi)
        } else {
            head
        }
    }
}

/// One item of a list: the range `lo..hi` without white space at its ends,
/// then without colons at its start, then without white space again.
pub open spec fn list_item(bytes: Seq<u8>, lo: int, hi: int) -> (usize, usize) {
    let t = trim(bytes, lo, hi);
    let a = trim_start_byte(bytes, COLON, t.0, t.1);
    let u = trim(bytes, a, t.1);
    (u.0 as usize, u.1 as usize)
}

/// The ranges of the names that one match declares.
pub open spec fn name_ranges(
    rule: NameRule,
    bytes: Seq<u8>,
    cap: CaptureView,
) -> Seq<(usize, usize)> {
    let r = group_range(bytes, cap, name_group(rule));
    match rule {
        NameRule::List(_) => list_items(bytes, r.0 as int, r.1 as int),
        _ => seq![r],
    }
}

/// The name of the symbol declared in the range `r`.
pub open spec fn name_of(
    rule: NameRule,
    bytes: Seq<u8>,
    cap: CaptureView,
    r: (usize, usize),
) -> Seq<char> {
    match rule {
        NameRule::Group(_) => range_text(bytes, r),
        NameRule::GroupOr(g, alt) => if group_span(bytes, cap, g as int).is_some() {
            range_text(bytes, r)
        } else {
            alt@
        },
        NameRule::Prefixed(p, _) => p@ + range_text(bytes, r),
        NameRule::List(_) => range_text(bytes, r),
    }
}

/// Whether a name is a control-flow keyword that a permissive pattern takes
/// for the name of a function.
pub open spec fn is_control_flow_name(
    name: Seq<u8>,
    catch: bool,
    extra: Option<&'static str>,
) -> bool {
    ||| name == lit("if")
    ||| name == lit("for")
    ||| name == lit("while")
    ||| name == lit("switch")
    ||| (catch && name == lit("catch"))
    ||| match extra {
        Some(word) => name == lit(word),
        None => false,
    }
}

/// Whether a match is dropped.
pub open spec fn is_skipped(
    rule: Rule,
    bytes: Seq<u8>,
    cap: CaptureView,
    m: (usize, usize),
) -> bool {
    match rule.skip {
        SkipRule::Nothing => false,
        SkipRule::Keywords { catch, extra } => is_control_flow_name(
            range_bytes(bytes, group_range(bytes, cap, name_group(rule.name))),
            catch,
            extra,
        ),
        SkipRule::Containing(needle) => contains_bytes(range_bytes(bytes, m), lit(needle)),
    }
}

/// The kind of the symbol declared in the range `r`.
pub open spec fn kind_of(
    rule: KindRule,
    bytes: Seq<u8>,
    cap: CaptureView,
    r: (usize, usize),
) -> SymbolKind {
    match rule {
        KindRule::Fixed(k) => k,
        KindRule::ByGroup { group, present, absent } => if group_span(bytes, cap, group as int).is_some() {
            present
        } else {
            absent
        },
        KindRule::GroupIs { group, text, then, otherwise } => if range_bytes(
            bytes,
            group_range(bytes, cap, group as int),
        ) == lit(text) {
            then
        } else {
            otherwise
        },
        KindRule::NameContains { needle, then, otherwise } => if contains_bytes(
            range_bytes(bytes, r),
            lit(needle),
        ) {
            then
        } else {
            otherwise
        },
    }
}

/// Whether a text begins with an upper-case letter.
pub open spec fn begins_uppercase(text: Seq<char>) -> bool {
    text.len() > 0 && char_is_uppercase(text[0])
}

/// What the words `private`, `protected` and `public` in a text say.
pub open spec fn worded(text: Seq<u8>, exact: bool, otherwise: Visibility) -> Visibility {
    if exact {
        if text == lit("private") {
            Visibility::Private
        } else if text == lit("protected") {
            Visibility::Protected
        } else if text == lit("public") {
            Visibility::Public
        } else {
            otherwise
        }
    } else {
        if contains_bytes(text, lit("private")) {
            Visibility::Private
        } else if contains_bytes(text, lit("protected")) {
            Visibility::Protected
        } else if contains_bytes(text, lit("public")) {
            Visibility::Public
        } else {
            otherwise
        }
    }
}

/// The visibility of the symbol declared in the range `r` on line `line`.
pub open spec fn visibility_of(
    rule: VisibilityRule,
    bytes: Seq<u8>,
    lines: Seq<(usize, usize)>,
    cap: CaptureView,
    r: (usize, usize),
    line: usize,
) -> Visibility {
    match rule {
        VisibilityRule::Fixed(v) => v,
        VisibilityRule::ByGroup { group, present, absent } => if group_span(
            bytes,
            cap,
            group as int,
        ).is_some() {
            present
        } else {
            absent
        },
        VisibilityRule::GroupContains { group, needle, then, otherwise } => if contains_bytes(
            range_bytes(bytes, group_range(bytes, cap, group as int)),
            lit(needle),
        ) {
            then
        } else {
            otherwise
        },
        VisibilityRule::Words { group, exact, otherwise } => worded(
            range_bytes(bytes, group_range(bytes, cap, group as int)),
            exact,
            otherwise,
        ),
        VisibilityRule::Underscore => if has_prefix(range_bytes(bytes, r), lit("_")) {
            Visibility::Private
        } else {
            Visibility::Public
        },
        VisibilityRule::SingleUnderscore => if has_prefix(range_bytes(bytes, r), lit("_"))
            && !has_prefix(range_bytes(bytes, r), lit("__")) {
            Visibility::Private
        } else {
            Visibility::Public
        },
        VisibilityRule::Uppercase => if begins_uppercase(range_text(bytes, r)) {
            Visibility::Public
        } else {
            Visibility::Private
        },
        VisibilityRule::Scope => visibility_at_line(bytes, lines, line as int),
    }
}

/// The line number of an offset as a `usize`.
pub open spec fn line_of(bytes: Seq<u8>, offset: int) -> usize {
    if line_number(bytes, offset) <= usize::MAX {
        line_number(bytes, offset) as usize
    } else {
        usize::MAX
    }
}

/// The last line of a declaration whose match is `m` and begins on `line`.
pub open spec fn end_of(
    rule: EndRule,
    bytes: Seq<u8>,
    lines: Seq<(usize, usize)>,
    cap: CaptureView,
    m: (usize, usize),
    line: usize,
) -> usize {
    match rule {
        EndRule::OneLine => line,
        EndRule::Brace { back } => {
            let from = if m.1 >= back {
                m.1 - back
            } else {
                0
            };
            match brace_end(bytes, from) {
                Some(e) => line_of(bytes, e),
                None => line,
            }
        },
        EndRule::Indent { group } => {
            let g = group_range(bytes, cap, group as int);
            indent_end(bytes, lines, line as int, g.1 - g.0) as usize
        },
        EndRule::End => block_end(bytes, lines, line as int) as usize,
    }
}

/// A match without white space at its ends and without the bytes `strip`
/// at its end.
pub open spec fn stripped(bytes: Seq<u8>, m: (usize, usize), strip: u8) -> (int, int) {
    let t = trim(bytes, m.0 as int, m.1 as int);
    (t.0, trim_end_byte(bytes, strip, t.0, t.1))
}

/// The signature of the symbol `name` whose match is `m` and begins on
/// `line`.
pub open spec fn signature_of(
    rule: SignatureRule,
    bytes: Seq<u8>,
    lines: Seq<(usize, usize)>,
    cap: CaptureView,
    m: (usize, usize),
    line: usize,
    name: Seq<char>,
) -> Option<Seq<char>> {
    match rule {
        SignatureRule::Absent => None,
        SignatureRule::Line => if 1 <= line <= lines.len() {
            let t = trim(bytes, lines[line - 1].0 as int, lines[line - 1].1 as int);
            Some(span_text(bytes, t.0, t.1))
        } else {
            None
        },
        SignatureRule::MatchWithout { strip } => {
            let s = stripped(bytes, m, strip);
            Some(span_text(bytes, s.0, trim_end(bytes, s.0, s.1)))
        },
        SignatureRule::MatchWith { strip, suffix } => {
            let s = stripped(bytes, m, strip);
            Some(span_text(bytes, s.0, s.1) + suffix@)
        },
        SignatureRule::Keyword(k) => Some(k@ + name),
        SignatureRule::GroupAndName { group, default } => {
            let head = match group_span(bytes, cap, group as int) {
                Some(g) => range_text(bytes, g),
                None => default@,
            };
            Some(head + " "@ + name)
        },
        SignatureRule::ByGroup { group, present, absent } => if group_span(
            bytes,
            cap,
            group as int,
        ).is_some() {
            Some(present@ + name)
        } else {
            Some(absent@ + name)
        },
        SignatureRule::KeywordOrMatch { group, keyword } => if group_span(
            bytes,
            cap,
            group as int,
        ).is_some() {
            Some(keyword@ + name)
        } else {
            let t = trim(bytes, m.0 as int, m.1 as int);
            Some(span_text(bytes, t.0, t.1))
        },
    }
}

/// The symbol that a match `m` of `rule` declares in the range `r`.
pub open spec fn symbol_of(
    rule: Rule,
    bytes: Seq<u8>,
    lines: Seq<(usize, usize)>,
    cap: CaptureView,
    m: (usize, usize),
    r: (usize, usize),
) -> SymbolView {
    let line = line_of(bytes, m.0 as int);
    let name = name_of(rule.name, bytes, cap, r);
    SymbolView {
        kind: kind_of(rule.kind, bytes, cap, r),
        name,
        signature: signature_of(rule.signature, bytes, lines, cap, m, line, name),
        line_range: LineRange { start: line, end: end_of(rule.end, bytes, lines, cap, m, line) },
        visibility: visibility_of(rule.visibility, bytes, lines, cap, r, line),
        doc_comment: None,
    }
}

/// The symbols that one match of `rule` declares: none where the match is
/// no span of the text or is dropped, else one for each name.
pub open spec fn rule_symbols(
    rule: Rule,
    bytes: Seq<u8>,
    lines: Seq<(usize, usize)>,
    cap: CaptureView,
) -> Seq<SymbolView> {
    match group_span(bytes, cap, 0) {
        None => Seq::empty(),
        Some(m) => if is_skipped(rule, bytes, cap, m) {
            Seq::empty()
        } else {
            name_ranges(rule.name, bytes, cap).map_values(
                |r: (usize, usize)| symbol_of(rule, bytes, lines, cap, m, r),
            )
        },
    }
}

/// `a` followed by `b`.
pub fn join2(a: &str, b: &str) -> (res: String)
    ensures
        res@ == a@ + b@,
{
    let mut s = a.to_owned();
    s.append(b);
    s
}

/// The range that group `g` of a match took, if it is a span of `content`.
pub fn group_of(content: &str, cap: &Capture, g: usize) -> (res: Option<(usize, usize)>)
    ensures
        res == group_span(content.spec_bytes(), cap@, g as int),
        match res {
            Some(sp) => sp.0 <= sp.1 <= content.spec_bytes().len(),
            None => true,
        },
{
    if g < cap.len() {
        match cap[g] {
            Some(sp) => if check_span(content, sp.0, sp.1) {
                Some(sp)
            } else {
                None
            },
            None => None,
        }
    } else {
        None
    }
}

/// The range that group `g` of a match took; empty where it took none.
pub fn range_of(content: &str, cap: &Capture, g: usize) -> (res: (usize, usize))
    ensures
        res == group_range(content.spec_bytes(), cap@, g as int),
        res.0 <= res.1 <= content.spec_bytes().len(),
{
    match group_of(content, cap, g) {
        Some(sp) => sp,
        None => (0, 0),
    }
}

fn name_group_of(rule: &NameRule) -> (res: usize)
    ensures
        res == name_group(*rule),
{
    match rule {
        NameRule::Group(g) => *g,
        NameRule::GroupOr(g, _) => *g,
        NameRule::Prefixed(_, g) => *g,
        NameRule::List(g) => *g,
    }
}

/// The items of the comma-separated list in the range `lo..hi`.
pub fn split_list(bytes: &[u8], lo: usize, hi: usize) -> (res: Vec<(usize, usize)>)
    requires
        lo <= hi <= bytes@.len(),
    ensures
        res@ == list_items(bytes@, lo as int, hi as int),
        forall|i: int| 0 <= i < res@.len() ==> (#[trigger] res@[i]).0 <= res@[i].1 <= bytes@.len(),
{
    let mut out: Vec<(usize, usize)> = Vec::new();
    let mut pos: usize = lo;
    loop
        invariant
            lo <= pos <= hi <= bytes@.len(),
            list_items(bytes@, lo as int, hi as int) == out@ + list_items(
                bytes@,
                pos as int,
                hi as int,
            ),
            forall|i: int|
                0 <= i < out@.len() ==> (#[trigger] out@[i]).0 <= out@[i].1 <= bytes@.len(),
        decreases hi - pos,
    {
        let comma = crate::text::bytes::find_byte(bytes, COMMA, pos, hi);
        let (a, b) = trim_range(bytes, pos, comma);
        let a2 = skip_byte(bytes, COLON, a, b);
        let (a3, b3) = trim_range(bytes, a2, b);
        let ghost before = out@;
        if a3 != b3 {
            out.push((a3, b3));
        }
        proof {
            let item = list_item(bytes@, pos as int, comma as int);
            assert(item == (a3, b3));
            let head = if item.0 == item.1 {
                Seq::<(usize, usize)>::empty()
            } else {
                seq![item]
            };
            assert(out@ =~= before + head);
            if comma < hi {
                assert(list_items(bytes@, pos as int, hi as int) == head + list_items(
                    bytes@,
                    comma + 1,
                    hi as int,
                ));
                assert(out@ + list_items(bytes@, comma + 1, hi as int) =~= before + (head
                    + list_items(bytes@, comma + 1, hi as int)));
            } else {
                assert(list_items(bytes@, pos as int, hi as int) == head);
            }
        }
        if comma >= hi {
            return out;
        }
        pos = comma + 1;
    }
}

/// The ranges of the names that a match declares.
pub fn name_ranges_of(rule: &NameRule, content: &str, cap: &Capture) -> (res: Vec<(usize, usize)>)
    ensures
        res@ == name_ranges(*rule, content.spec_bytes(), cap@),
        forall|i: int|
            0 <= i < res@.len() ==> (#[trigger] res@[i]).0 <= res@[i].1
                <= content.spec_bytes().len(),
{
    let r = range_of(content, cap, name_group_of(rule));
    match rule {
        NameRule::List(_) => split_list(content.as_bytes(), r.0, r.1),
        _ => {
            let mut v: Vec<(usize, usize)> = Vec::new();
            v.push(r);
            assert(v@ =~= seq![r]);
            v
        },
    }
}

/// The name of the symbol declared in the range `r`.
pub fn name_for(rule: &NameRule, content: &str, cap: &Capture, r: (usize, usize)) -> (res: String)
    ensures
        res@ == name_of(*rule, content.spec_bytes(), cap@, r),
{
    match rule {
        NameRule::Group(_) => text_between(content, r.0, r.1),
        NameRule::GroupOr(g, alt) => if group_of(content, cap, *g).is_some() {
            text_between(content, r.0, r.1)
        } else {
            (*alt).to_owned()
        },
        NameRule::Prefixed(p, _) => {
            let t = text_between(content, r.0, r.1);
            join2(p, t.as_str())
        },
        NameRule::List(_) => text_between(content, r.0, r.1),
    }
}

/// Whether the name in the range `r` is a control-flow keyword.
pub fn is_control_flow_keyword(
    bytes: &[u8],
    r: (usize, usize),
    catch: bool,
    extra: Option<&'static str>,
) -> (res: bool)
    requires
        r.0 <= r.1 <= bytes@.len(),
    ensures
        res == is_control_flow_name(range_bytes(bytes@, r), catch, extra),
{
    range_is(bytes, r.0, r.1, "if".as_bytes()) || range_is(bytes, r.0, r.1, "for".as_bytes())
        || range_is(bytes, r.0, r.1, "while".as_bytes()) || range_is(
        bytes,
        r.0,
        r.1,
        "switch".as_bytes(),
    ) || (catch && range_is(bytes, r.0, r.1, "catch".as_bytes())) || match extra {
        Some(word) => range_is(bytes, r.0, r.1, word.as_bytes()),
        None => false,
    }
}

/// Whether a match is dropped.
pub fn skipped(rule: &Rule, content: &str, cap: &Capture, m: (usize, usize)) -> (res: bool)
    requires
        m.0 <= m.1 <= content.spec_bytes().len(),
    ensures
        res == is_skipped(*rule, content.spec_bytes(), cap@, m),
{
    let bytes = content.as_bytes();
    match rule.skip {
        SkipRule::Nothing => false,
        SkipRule::Keywords { catch, extra } => {
            let r = range_of(content, cap, name_group_of(&rule.name));
            is_control_flow_keyword(bytes, r, catch, extra)
        },
        SkipRule::Containing(needle) => range_contains(bytes, m.0, m.1, needle.as_bytes()),
    }
}

/// The kind of the symbol declared in the range `r`.
pub fn kind_for(
    rule: &KindRule,
    content: &str,
    cap: &Capture,
    r: (usize, usize),
) -> (res: SymbolKind)
    requires
        r.0 <= r.1 <= content.spec_bytes().len(),
    ensures
        res == kind_of(*rule, content.spec_bytes(), cap@, r),
{
    let bytes = content.as_bytes();
    match rule {
        KindRule::Fixed(k) => *k,
        KindRule::ByGroup { group, present, absent } => if group_of(content, cap, *group).is_some() {
            *present
        } else {
            *absent
        },
        KindRule::GroupIs { group, text, then, otherwise } => {
            let g = range_of(content, cap, *group);
            if range_is(bytes, g.0, g.1, text.as_bytes()) {
                *then
            } else {
                *otherwise
            }
        },
        KindRule::NameContains { needle, then, otherwise } => if range_contains(
            bytes,
            r.0,
            r.1,
            needle.as_bytes(),
        ) {
            *then
        } else {
            *otherwise
        },
    }
}

fn worded_of(
    bytes: &[u8],
    g: (usize, usize),
    exact: bool,
    otherwise: Visibility,
) -> (res: Visibility)
    requires
        g.0 <= g.1 <= bytes@.len(),
    ensures
        res == worded(range_bytes(bytes@, g), exact, otherwise),
{
    if exact {
        if range_is(bytes, g.0, g.1, "private".as_bytes()) {
            Visibility::Private
        } else if range_is(bytes, g.0, g.1, "protected".as_bytes()) {
            Visibility::Protected
        } else if range_is(bytes, g.0, g.1, "public".as_bytes()) {
            Visibility::Public
        } else {
            otherwise
        }
    } else {
        if range_contains(bytes, g.0, g.1, "private".as_bytes()) {
            Visibility::Private
        } else if range_contains(bytes, g.0, g.1, "protected".as_bytes()) {
            Visibility::Protected
        } else if range_contains(bytes, g.0, g.1, "public".as_bytes()) {
            Visibility::Public
        } else {
            otherwise
        }
    }
}

/// The visibility of the symbol declared in the range `r` on line `line`.
pub fn visibility_for(
    rule: &VisibilityRule,
    content: &str,
    lines: &Vec<(usize, usize)>,
    cap: &Capture,
    r: (usize, usize),
    line: usize,
) -> (res: Visibility)
    requires
        r.0 <= r.1 <= content.spec_bytes().len(),
        ranges_within(lines@, content.spec_bytes().len() as int),
    ensures
        res == visibility_of(*rule, content.spec_bytes(), lines@, cap@, r, line),
{
    let bytes = content.as_bytes();
    match rule {
        VisibilityRule::Fixed(v) => *v,
        VisibilityRule::ByGroup { group, present, absent } => if group_of(
            content,
            cap,
            *group,
        ).is_some() {
            *present
        } else {
            *absent
        },
        VisibilityRule::GroupContains { group, needle, then, otherwise } => {
            let g = range_of(content, cap, *group);
            if range_contains(bytes, g.0, g.1, needle.as_bytes()) {
                *then
            } else {
                *otherwise
            }
        },
        VisibilityRule::Words { group, exact, otherwise } => {
            let g = range_of(content, cap, *group);
            worded_of(bytes, g, *exact, *otherwise)
        },
        VisibilityRule::Underscore => if range_starts_with(bytes, r.0, r.1, "_".as_bytes()) {
            Visibility::Private
        } else {
            Visibility::Public
        },
        VisibilityRule::SingleUnderscore => if range_starts_with(bytes, r.0, r.1, "_".as_bytes())
            && !range_starts_with(bytes, r.0, r.1, "__".as_bytes()) {
            Visibility::Private
        } else {
            Visibility::Public
        },
        VisibilityRule::Uppercase => {
            let t = text_between(content, r.0, r.1);
            let s = t.as_str();
            if !s.is_empty() && is_uppercase(s.get_char(0)) {
                Visibility::Public
            } else {
                Visibility::Private
            }
        },
        VisibilityRule::Scope => get_visibility_at_line(bytes, lines, line),
    }
}

/// The last line of a declaration whose match is `m` and begins on `line`.
pub fn end_for(
    rule: &EndRule,
    content: &str,
    lines: &Vec<(usize, usize)>,
    cap: &Capture,
    m: (usize, usize),
    line: usize,
) -> (res: usize)
    requires
        line >= 1,
        ranges_within(lines@, content.spec_bytes().len() as int),
    ensures
        res == end_of(*rule, content.spec_bytes(), lines@, cap@, m, line),
{
    let bytes = content.as_bytes();
    match rule {
        EndRule::OneLine => line,
        EndRule::Brace { back } => {
            let from = if m.1 >= *back {
                m.1 - *back
            } else {
                0
            };
            match brace_end_in(bytes, from) {
                Some(e) => line_number_at(bytes, e),
                None => line,
            }
        },
        EndRule::Indent { group } => {
            let g = range_of(content, cap, *group);
            find_indent_end(bytes, lines, line, g.1 - g.0)
        },
        EndRule::End => find_ruby_end(bytes, lines, line),
    }
}

/// The signature of the symbol `name` whose match is `m` and begins on
/// `line`.
pub fn signature_for(
    rule: &SignatureRule,
    content: &str,
    lines: &Vec<(usize, usize)>,
    cap: &Capture,
    m: (usize, usize),
    line: usize,
    name: &str,
) -> (res: Option<String>)
    requires
        m.0 <= m.1 <= content.spec_bytes().len(),
        ranges_within(lines@, content.spec_bytes().len() as int),
    ensures
        crate::types::symbol::opt_view(res) == signature_of(
            *rule,
            content.spec_bytes(),
            lines@,
            cap@,
            m,
            line,
            name@,
        ),
{
    let bytes = content.as_bytes();
    match rule {
        SignatureRule::Absent => None,
        SignatureRule::Line => if 1 <= line && line <= lines.len() {
            let (lo, hi) = lines[line - 1];
            let (a, b) = trim_range(bytes, lo, hi);
            Some(text_between(content, a, b))
        } else {
            None
        },
        SignatureRule::MatchWithout { strip } => {
            let (a, b) = trim_range(bytes, m.0, m.1);
            let b2 = drop_byte(bytes, *strip, a, b);
            let b3 = drop_space(bytes, a, b2);
            Some(text_between(content, a, b3))
        },
        SignatureRule::MatchWith { strip, suffix } => {
            let (a, b) = trim_range(bytes, m.0, m.1);
            let b2 = drop_byte(bytes, *strip, a, b);
            let t = text_between(content, a, b2);
            Some(join2(t.as_str(), suffix))
        },
        SignatureRule::Keyword(k) => Some(join2(k, name)),
        SignatureRule::GroupAndName { group, default } => {
            let head = match group_of(content, cap, *group) {
                Some(g) => text_between(content, g.0, g.1),
                None => (*default).to_owned(),
            };
            let mut s = head;
            s.append(" ");
            s.append(name);
            Some(s)
        },
        SignatureRule::ByGroup { group, present, absent } => if group_of(
            content,
            cap,
            *group,
        ).is_some() {
            Some(join2(present, name))
        } else {
            Some(join2(absent, name))
        },
        SignatureRule::KeywordOrMatch { group, keyword } => if group_of(
            content,
            cap,
            *group,
        ).is_some() {
            Some(join2(keyword, name))
        } else {
            let (a, b) = trim_range(bytes, m.0, m.1);
            Some(text_between(content, a, b))
        },
    }
}

/// The symbol that a match `m` of `rule` declares in the range `r`.
pub fn symbol_for(
    rule: &Rule,
    content: &str,
    lines: &Vec<(usize, usize)>,
    cap: &Capture,
    m: (usize, usize),
    r: (usize, usize),
) -> (res: Symbol)
    requires
        m.0 <= m.1 <= content.spec_bytes().len(),
        r.0 <= r.1 <= content.spec_bytes().len(),
        ranges_within(lines@, content.spec_bytes().len() as int),
    ensures
        res@ == symbol_of(*rule, content.spec_bytes(), lines@, cap@, m, r),
{
    let line = line_number_at(content.as_bytes(), m.0);
    let name = name_for(&rule.name, content, cap, r);
    let kind = kind_for(&rule.kind, content, cap, r);
    let signature = signature_for(&rule.signature, content, lines, cap, m, line, name.as_str());
    let end = end_for(&rule.end, content, lines, cap, m, line);
    let visibility = visibility_for(&rule.visibility, content, lines, cap, r, line);
    Symbol {
        kind,
        name,
        signature,
        line_range: LineRange { start: line, end },
        visibility,
        doc_comment: None,
    }
}

/// Adds to `out` the symbols that one match of `rule` declares.
pub fn push_symbols(
    rule: &Rule,
    content: &str,
    lines: &Vec<(usize, usize)>,
    cap: &Capture,
    out: &mut Vec<Symbol>,
)
    requires
        ranges_within(lines@, content.spec_bytes().len() as int),
    ensures
        crate::types::symbol::symbol_views(final(out)@) == crate::types::symbol::symbol_views(
            old(out)@,
        ) + rule_symbols(*rule, content.spec_bytes(), lines@, cap@),
{
    let ghost bytes = content.spec_bytes();
    let ghost before = crate::types::symbol::symbol_views(out@);
    let m = match group_of(content, cap, 0) {
        Some(m) => m,
        None => {
            assert(before + Seq::<SymbolView>::empty() =~= before);
            return ;
        },
    };
    if skipped(rule, content, cap, m) {
        assert(before + Seq::<SymbolView>::empty() =~= before);
        return ;
    }
    let ranges = name_ranges_of(&rule.name, content, cap);
    let ghost f = |r: (usize, usize)| symbol_of(*rule, bytes, lines@, cap@, m, r);
    let mut i: usize = 0;
    assert(ranges@.take(0).map_values(f) =~= Seq::<SymbolView>::empty());
    assert(before + Seq::<SymbolView>::empty() =~= before);
    while i < ranges.len()
        invariant
            i <= ranges@.len(),
            bytes == content.spec_bytes(),
            m.0 <= m.1 <= bytes.len(),
            ranges_within(lines@, bytes.len() as int),
            forall|k: int|
                0 <= k < ranges@.len() ==> (#[trigger] ranges@[k]).0 <= ranges@[k].1 <= bytes.len(),
            f == |r: (usize, usize)| symbol_of(*rule, bytes, lines@, cap@, m, r),
            crate::types::symbol::symbol_views(out@) == before + ranges@.take(i as int).map_values(
                f,
            ),
        decreases ranges@.len() - i,
    {
        let r = ranges[i];
        let sym = symbol_for(rule, content, lines, cap, m, r);
        let ghost prev = out@;
        out.push(sym);
        proof {
            assert(ranges@.take(i + 1) =~= ranges@.take(i as int).push(r));
            assert(ranges@.take(i + 1).map_values(f) =~= ranges@.take(i as int).map_values(f).push(
                f(r),
            ));
            assert(crate::types::symbol::symbol_views(out@) =~= crate::types::symbol::symbol_views(
                prev,
            ).push(sym@));
        }
        i += 1;
    }
    proof {
        assert(ranges@.take(ranges@.len() as int) =~= ranges@);
    }
}

} // verus!
