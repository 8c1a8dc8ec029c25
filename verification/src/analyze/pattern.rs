//! Matching the declaration patterns against a text.

use vstd::prelude::*;

verus! {

/// One match of a pattern: for each group of the pattern, the whole match
/// first, the byte range that the group matched, if it took part.
pub type Capture = Vec<Option<(usize, usize)>>;

/// The groups of one match.
pub type CaptureView = Seq<Option<(usize, usize)>>;

/// The matches held by a vector of captures.
pub open spec fn captures_view(v: Seq<Capture>) -> Seq<CaptureView> {
    v.map_values(|c: Capture| c@)
}

/// The successive matches of a pattern in a text, in the order in which they
/// begin, none overlapping another; `None` for a pattern that the regular
/// expression engine does not accept.
pub uninterp spec fn regex_captures(
    pattern: Seq<char>,
    text: Seq<char>,
) -> Option<Seq<CaptureView>>;

/// Compiles `pattern` with `regex::Regex::new` and collects what
/// `Regex::captures_iter` yields on `text`: for each match the byte offsets
/// (`Match::start`, `Match::end`) of each of its groups. The contract only
/// gives that result its name; nothing is claimed of the offsets.
#[verifier::external_body]
pub(crate) fn captures_of(pattern: &str, text: &str) -> (res: Option<Vec<Capture>>)
    ensures
        match res {
            Some(v) => regex_captures(pattern@, text@) == Some(captures_view(v@)),
            None => regex_captures(pattern@, text@).is_none(),
        },
{
    let re = regex::Regex::new(pattern).ok()?;
    Some(
        re.captures_iter(text).map(
            |c| (0..c.len()).map(|i| c.get(i).map(|m| (m.start(), m.end()))).collect(),
        ).collect(),
    )
}

/// The matches of `pattern` in `text`; none for a pattern that does not
/// compile.
pub open spec fn matches_in(pattern: Seq<char>, text: Seq<char>) -> Seq<CaptureView> {
    match regex_captures(pattern, text) {
        Some(m) => m,
        None => Seq::empty(),
    }
}

/// The matches of `pattern` in `text`.
pub fn find_matches(pattern: &str, text: &str) -> (res: Vec<Capture>)
    ensures
        captures_view(res@) == matches_in(pattern@, text@),
{
    match captures_of(pattern, text) {
        Some(v) => v,
        None => {
            let v: Vec<Capture> = Vec::new();
            assert(captures_view(v@) =~= Seq::<CaptureView>::empty());
            v
        },
    }
}

} // verus!
