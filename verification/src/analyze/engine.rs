//! From the matches of a language's rules to its ordered symbols.

use crate::analyze::order::{
    dedup, dedup_by, lemma_dedup, lemma_dedup_map, lemma_sort_map, lemma_sort_sorts, rank_fn,
    same_fn, stable_sort, stable_sort_by, Keyed, Ranked,
};
use crate::analyze::pattern::{captures_view, find_matches, matches_in, Capture, CaptureView};
use crate::analyze::rules::{push_symbols, rule_symbols, Rule};
use crate::text::bytes::str_eq;
use crate::text::lines::{lines_of, split_lines};
use crate::types::symbol::{symbol_views, Symbol, SymbolView};
use vstd::prelude::*;
use vstd::string::StringSliceAdditionalSpecFns;

verus! {

impl Ranked for Symbol {
    open spec fn rank(&self) -> int {
        self.line_range.start as int
    }

    fn rank_of(&self) -> (r: usize) {
        self.line_range.start
    }
}

impl Keyed for Symbol {
    open spec fn same_key(&self, other: &Self) -> bool {
        self.name@ == other.name@ && self.line_range.start == other.line_range.start
    }

    fn has_same_key(&self, other: &Self) -> (r: bool) {
        self.line_range.start == other.line_range.start && str_eq(
            self.name.as_str(),
            other.name.as_str(),
        )
    }
}

/// The line on which a symbol begins.
pub open spec fn start_line() -> spec_fn(SymbolView) -> int {
    |s: SymbolView| s.line_range.start as int
}

/// Whether two symbols have the same name and begin on the same line.
pub open spec fn same_declaration() -> spec_fn(SymbolView, SymbolView) -> bool {
    |a: SymbolView, b: SymbolView| a.name == b.name && a.line_range.start == b.line_range.start
}

/// The content of a symbol, as a function.
pub open spec fn content_of() -> spec_fn(Symbol) -> SymbolView {
    |x: Symbol| x@
}

/// Symbols in the order in which a parser hands them out: by the line on
/// which they begin, and no two with the same name on the same line.
pub open spec fn is_ordered(s: Seq<SymbolView>) -> bool {
    &&& forall|i: int, j: int|
        0 <= i <= j < s.len() ==> s[i].line_range.start <= s[j].line_range.start
    &&& forall|i: int, j: int|
        0 <= i < j < s.len() ==> !(s[i].name == s[j].name && s[i].line_range.start
            == s[j].line_range.start)
}

/// The symbols in the order of the lines on which they begin, those of one
/// line in the order they had, and of several with one name on one line only
/// the first.
pub open spec fn finalize(s: Seq<SymbolView>) -> Seq<SymbolView> {
    dedup_by(stable_sort_by(s, start_line()), same_declaration())
}

/// What `finalize` hands out is ordered, and each symbol of it is one of
/// those it was given.
pub proof fn lemma_finalize_ordered(s: Seq<SymbolView>)
    ensures
        is_ordered(finalize(s)),
        forall|i: int| 0 <= i < finalize(s).len() ==> s.contains(#[trigger] finalize(s)[i]),
        finalize(s).len() <= s.len(),
{
    let sorted = stable_sort_by(s, start_line());
    lemma_sort_sorts(s, start_line());
    lemma_dedup(sorted, same_declaration(), start_line());
    let r = finalize(s);
    assert forall|i: int, j: int| 0 <= i <= j < r.len() implies r[i].line_range.start
        <= r[j].line_range.start by {
        assert(start_line()(r[i]) <= start_line()(r[j]));
    }
    assert forall|i: int, j: int| 0 <= i < j < r.len() implies !(r[i].name == r[j].name
        && r[i].line_range.start == r[j].line_range.start) by {
        assert(!same_declaration()(r[i], r[j]));
    }
    assert forall|i: int| 0 <= i < r.len() implies s.contains(#[trigger] r[i]) by {
        assert(sorted.contains(r[i]));
        broadcast use vstd::seq_lib::group_to_multiset_ensures;

        assert(sorted.to_multiset().count(r[i]) > 0);
        assert(s.to_multiset().count(r[i]) > 0);
    }
}

/// The symbols in order, without repeated declarations.
pub fn finalize_symbols(v: Vec<Symbol>) -> (res: Vec<Symbol>)
    ensures
        symbol_views(res@) == finalize(symbol_views(v@)),
        is_ordered(symbol_views(res@)),
{
    let ghost input = v@;
    let sorted = stable_sort(v);
    let ghost mid = sorted@;
    let out = dedup(sorted);
    proof {
        assert forall|x: Symbol| #[trigger] rank_fn::<Symbol>()(x) == start_line()(content_of()(x)) by {}
        lemma_sort_map(input, content_of(), rank_fn::<Symbol>(), start_line());
        assert forall|x: Symbol, y: Symbol| #[trigger]
            same_fn::<Symbol>()(x, y) == same_declaration()(content_of()(x), content_of()(y)) by {}
        lemma_dedup_map(mid, content_of(), same_fn::<Symbol>(), same_declaration());
        assert(symbol_views(input) =~= input.map_values(content_of()));
        assert(symbol_views(mid) =~= mid.map_values(content_of()));
        assert(symbol_views(out@) =~= out@.map_values(content_of()));
        lemma_finalize_ordered(symbol_views(input));
    }
    out
}

/// The symbols that the matches `caps` of one rule declare, in the order of
/// the matches.
pub open spec fn matches_symbols(
    rule: Rule,
    bytes: Seq<u8>,
    lines: Seq<(usize, usize)>,
    caps: Seq<CaptureView>,
) -> Seq<SymbolView>
    decreases caps.len(),
{
    if caps.len() == 0 {
        Seq::empty()
    } else {
        matches_symbols(rule, bytes, lines, caps.drop_last()) + rule_symbols(
            rule,
            bytes,
            lines,
            caps.last(),
        )
    }
}

/// The matches of the rule with index `i`; none where `matches` has no entry
/// for it.
pub open spec fn matches_at(matches: Seq<Seq<CaptureView>>, i: int) -> Seq<CaptureView> {
    if 0 <= i < matches.len() {
        matches[i]
    } else {
        Seq::empty()
    }
}

/// The symbols that the matches of all rules declare, rule by rule.
pub open spec fn all_symbols(
    rules: Seq<Rule>,
    bytes: Seq<u8>,
    lines: Seq<(usize, usize)>,
    matches: Seq<Seq<CaptureView>>,
) -> Seq<SymbolView>
    decreases rules.len(),
{
    if rules.len() == 0 {
        Seq::empty()
    } else {
        all_symbols(rules.drop_last(), bytes, lines, matches) + matches_symbols(
            rules.last(),
            bytes,
            lines,
            matches_at(matches, rules.len() - 1),
        )
    }
}

/// The symbols of a text, given for each rule the matches of its pattern.
pub open spec fn symbols_of(
    rules: Seq<Rule>,
    bytes: Seq<u8>,
    matches: Seq<Seq<CaptureView>>,
) -> Seq<SymbolView> {
    finalize(all_symbols(rules, bytes, lines_of(bytes), matches))
}

/// The matches held by a vector of match lists.
pub open spec fn matches_view(m: Seq<Vec<Capture>>) -> Seq<Seq<CaptureView>> {
    m.map_values(|v: Vec<Capture>| captures_view(v@))
}

/// The symbols of `content`, where `matches` holds for each rule the matches
/// of its pattern in `content`.
pub fn symbols_from_matches(
    rules: &Vec<Rule>,
    content: &str,
    matches: &Vec<Vec<Capture>>,
) -> (res: Vec<Symbol>)
    ensures
        symbol_views(res@) == symbols_of(rules@, content.spec_bytes(), matches_view(matches@)),
        is_ordered(symbol_views(res@)),
{
    let bytes = content.as_bytes();
    let lines = split_lines(bytes);
    let ghost mv = matches_view(matches@);
    let mut out: Vec<Symbol> = Vec::new();
    let mut i: usize = 0;
    proof {
        assert(rules@.take(0) =~= Seq::<Rule>::empty());
        assert(symbol_views(out@) =~= Seq::<SymbolView>::empty());
    }
    while i < rules.len()
        invariant
            i <= rules@.len(),
            bytes@ == content.spec_bytes(),
            lines@ == lines_of(bytes@),
            crate::text::lines::ranges_within(lines@, bytes@.len() as int),
            mv == matches_view(matches@),
            symbol_views(out@) == all_symbols(rules@.take(i as int), bytes@, lines@, mv),
        decreases rules@.len() - i,
    {
        let ghost done = symbol_views(out@);
        let ghost caps_view = matches_at(mv, i as int);
        if i < matches.len() {
            let caps = &matches[i];
            let mut j: usize = 0;
            proof {
                assert(caps_view == captures_view(caps@));
                assert(caps_view.take(0) =~= Seq::<CaptureView>::empty());
                assert(done + Seq::<SymbolView>::empty() =~= done);
            }
            while j < caps.len()
                invariant
                    j <= caps@.len(),
                    i < rules@.len(),
                    bytes@ == content.spec_bytes(),
                    crate::text::lines::ranges_within(lines@, bytes@.len() as int),
                    caps_view == captures_view(caps@),
                    symbol_views(out@) == done + matches_symbols(
                        rules@[i as int],
                        bytes@,
                        lines@,
                        caps_view.take(j as int),
                    ),
                decreases caps@.len() - j,
            {
                push_symbols(&rules[i], content, &lines, &caps[j], &mut out);
                proof {
                    let t = caps_view.take(j + 1);
                    assert(t.drop_last() =~= caps_view.take(j as int));
                    assert(t.last() == caps@[j as int]@);
                    let a = matches_symbols(
                        rules@[i as int],
                        bytes@,
                        lines@,
                        caps_view.take(j as int),
                    );
                    let b = rule_symbols(rules@[i as int], bytes@, lines@, caps@[j as int]@);
                    assert((done + a) + b =~= done + (a + b));
                }
                j += 1;
            }
            proof {
                assert(caps_view.take(caps@.len() as int) =~= caps_view);
            }
        } else {
            proof {
                assert(done + Seq::<SymbolView>::empty() =~= done);
            }
        }
        proof {
            let t = rules@.take(i + 1);
            assert(t.drop_last() =~= rules@.take(i as int));
            assert(t.last() == rules@[i as int]);
        }
        i += 1;
    }
    proof {
        assert(rules@.take(rules@.len() as int) =~= rules@);
    }
    finalize_symbols(out)
}

/// For each rule, the matches of its pattern in `text`.
pub open spec fn rule_matches(rules: Seq<Rule>, text: Seq<char>) -> Seq<Seq<CaptureView>> {
    Seq::new(rules.len(), |i: int| matches_in(rules[i].pattern@, text))
}

/// The symbols that `rules` find in a text.
pub open spec fn parsed(rules: Seq<Rule>, text: Seq<char>) -> Seq<SymbolView> {
    symbols_of(rules, vstd::utf8::encode_utf8(text), rule_matches(rules, text))
}

/// The symbols that `rules` find in `content`: each rule's pattern is
/// matched against the text, each match becomes the symbols the rule says,
/// and the whole is put in order.
pub fn parse_with(rules: &Vec<Rule>, content: &str) -> (res: Vec<Symbol>)
    ensures
        symbol_views(res@) == parsed(rules@, content@),
        is_ordered(symbol_views(res@)),
{
    let mut matches: Vec<Vec<Capture>> = Vec::new();
    let mut i: usize = 0;
    while i < rules.len()
        invariant
            i <= rules@.len(),
            matches@.len() == i,
            forall|k: int|
                0 <= k < i ==> captures_view((#[trigger] matches@[k])@) == matches_in(
                    rules@[k].pattern@,
                    content@,
                ),
        decreases rules@.len() - i,
    {
        let m = find_matches(rules[i].pattern, content);
        matches.push(m);
        i += 1;
    }
    proof {
        assert(matches_view(matches@) =~= rule_matches(rules@, content@));
    }
    symbols_from_matches(rules, content, &matches)
}

} // verus!
