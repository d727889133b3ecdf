//! Module-name matcher used by `process_find_by_module`.
//!
//! Matching is intentionally lenient and case-insensitive so that callers
//! can pass either a bare DLL name (`ntdll.dll`) or any substring of the
//! full module path.

use vstd::prelude::*;

use crate::text::{
    chars_of, contains, contains_exec, has_suffix, is_suffix, lemma_suffix_contains,
    lower_text, string_of, to_lowercase, trim, trim_chars, chars_eq, is_ascii_text, ascii_lower,
};

verus! {

/// Normalised representation of a single user-supplied pattern.
#[derive(Debug, Clone)]
pub struct ModulePattern {
    /// The original (trimmed) text — preserved for echoing back to the
    /// caller in match results.
    pub original: String,
    /// Lower-cased form used for matching.
    pub needle: String,
}

/// A pattern as (original, needle) text.
pub type PatternView = (Seq<char>, Seq<char>);

/// The text of a pattern.
pub open spec fn pattern_view(p: ModulePattern) -> PatternView {
    (p.original@, p.needle@)
}

/// The pattern parsed from `raw`, if it is not blank.
pub open spec fn parse_spec(raw: Seq<char>) -> Option<PatternView> {
    if trim(raw).len() == 0 {
        None
    } else {
        Some((trim(raw), lower_text(trim(raw))))
    }
}

/// Patterns parsed from each raw text, blank ones dropped, order kept.
pub open spec fn parse_all(raw: Seq<Seq<char>>) -> Seq<PatternView>
    decreases raw.len(),
{
    if raw.len() == 0 {
        Seq::empty()
    } else {
        match parse_spec(raw.last()) {
            Some(p) => parse_all(raw.drop_last()).push(p),
            None => parse_all(raw.drop_last()),
        }
    }
}

/// Name match: equal to the needle or containing it.
pub open spec fn name_matches(needle: Seq<char>, name_lc: Seq<char>) -> bool {
    name_lc == needle || contains(name_lc, needle)
}

/// Path match: ending with the needle or containing it.
pub open spec fn path_matches(needle: Seq<char>, path_lc: Seq<char>) -> bool {
    is_suffix(needle, path_lc) || contains(path_lc, needle)
}

/// Pattern `p` matches a module by lower-cased name or path.
pub open spec fn pattern_hits(p: PatternView, name_lc: Seq<char>, path_lc: Seq<char>) -> bool {
    name_matches(p.1, name_lc) || path_matches(p.1, path_lc)
}

/// Index of the first pattern from `i` on that matches.
pub open spec fn first_hit_from(ps: Seq<PatternView>, name_lc: Seq<char>, path_lc: Seq<char>, i: int) -> Option<int>
    decreases ps.len() - i,
{
    if i < 0 || i >= ps.len() {
        None
    } else if pattern_hits(ps[i], name_lc, path_lc) {
        Some(i)
    } else {
        first_hit_from(ps, name_lc, path_lc, i + 1)
    }
}

/// Index of the first pattern that matches.
pub open spec fn first_hit(ps: Seq<PatternView>, name_lc: Seq<char>, path_lc: Seq<char>) -> Option<int> {
    first_hit_from(ps, name_lc, path_lc, 0)
}

impl ModulePattern {
    /// Parse a single pattern. Returns `None` for empty/whitespace input.
    pub fn parse(raw: &str) -> (r: Option<ModulePattern>)
        ensures
            match parse_spec(raw@) {
                Some(v) => r matches Some(p) && pattern_view(p) == v,
                None => r is None,
            },
    {
        let c = chars_of(raw);
        let t = trim_chars(c.as_slice());
        if t.len() == 0 {
            return None;
        }
        let original = string_of(t.as_slice());
        let needle = to_lowercase(original.as_str());
        Some(ModulePattern { original, needle })
    }

    /// True when `module_name_lc` (already lower-cased) matches this
    /// pattern.
    pub fn matches_name(&self, module_name_lc: &str) -> (r: bool)
        ensures
            r == name_matches(self.needle@, module_name_lc@),
    {
        let name = chars_of(module_name_lc);
        let needle = chars_of(self.needle.as_str());
        chars_eq(name.as_slice(), needle.as_slice()) || contains_exec(name.as_slice(), needle.as_slice())
    }

    /// True when the full module path (lower-cased) matches this pattern.
    pub fn matches_path(&self, module_path_lc: &str) -> (r: bool)
        ensures
            r == path_matches(self.needle@, module_path_lc@),
    {
        let path = chars_of(module_path_lc);
        let needle = chars_of(self.needle.as_str());
        has_suffix(path.as_slice(), needle.as_slice()) || contains_exec(path.as_slice(), needle.as_slice())
    }
}

/// Collection of patterns prepared for the per-module hot loop.
#[derive(Debug, Clone, Default)]
pub struct ModuleMatcher {
    patterns: Vec<ModulePattern>,
}

/// The text views of a list of string slices.
pub open spec fn strs_view(raw: Seq<&str>) -> Seq<Seq<char>> {
    raw.map_values(|s: &str| s@)
}

impl View for ModuleMatcher {
    type V = Seq<PatternView>;

    closed spec fn view(&self) -> Seq<PatternView> {
        self.patterns@.map_values(|p: ModulePattern| pattern_view(p))
    }
}

impl ModuleMatcher {
    /// Parse every raw pattern, dropping blank ones.
    pub fn from_raw(raw: &[&str]) -> (m: ModuleMatcher)
        ensures
            m@ == parse_all(strs_view(raw@)),
    {
        let mut patterns: Vec<ModulePattern> = Vec::new();
        let n = raw.len();
        for i in 0..n
            invariant
                n == raw@.len(),
                patterns@.map_values(|p: ModulePattern| pattern_view(p)) == parse_all(
                    strs_view(raw@.take(i as int)),
                ),
        {
            assert(strs_view(raw@.take(i + 1)).drop_last() == strs_view(raw@.take(i as int)));
            assert(strs_view(raw@.take(i + 1)).last() == raw@[i as int]@);
            let ghost before = patterns@;
            if let Some(p) = ModulePattern::parse(raw[i]) {
                patterns.push(p);
                assert(patterns@.map_values(|p: ModulePattern| pattern_view(p)) =~= before.map_values(
                    |p: ModulePattern| pattern_view(p),
                ).push(pattern_view(p)));
            }
        }
        assert(raw@.take(n as int) == raw@);
        ModuleMatcher { patterns }
    }

    pub fn is_empty(&self) -> (r: bool)
        ensures
            r == (self@.len() == 0),
    {
        self.patterns.len() == 0
    }

    /// Return the first pattern that matches the supplied module name/path
    /// (both expected to already be lower-cased by the caller).
    pub fn first_match(&self, module_name_lc: &str, module_path_lc: &str) -> (r: Option<&ModulePattern>)
        ensures
            match first_hit(self@, module_name_lc@, module_path_lc@) {
                Some(i) => r matches Some(p) && pattern_view(*p) == self@[i],
                None => r is None,
            },
    {
        let n = self.patterns.len();
        let mut i: usize = 0;
        while i < n
            invariant
                n == self.patterns@.len() == self@.len(),
                i <= n,
                first_hit(self@, module_name_lc@, module_path_lc@) == first_hit_from(
                    self@,
                    module_name_lc@,
                    module_path_lc@,
                    i as int,
                ),
            decreases n - i,
        {
            let p = &self.patterns[i];
            assert(self@[i as int] == pattern_view(*p));
            if p.matches_name(module_name_lc) || p.matches_path(module_path_lc) {
                return Some(p);
            }
            i = i + 1;
        }
        None
    }
}

/// A path matches exactly when it contains the needle: the suffix test is
/// subsumed by the containment test.
pub proof fn law_path_match_is_containment(needle: Seq<char>, path_lc: Seq<char>)
    ensures
        path_matches(needle, path_lc) == contains(path_lc, needle),
{
    if is_suffix(needle, path_lc) {
        lemma_suffix_contains(needle, path_lc);
    }
}

/// An empty matcher matches nothing.
pub proof fn law_empty_matcher_matches_nothing(name_lc: Seq<char>, path_lc: Seq<char>)
    ensures
        first_hit(Seq::<PatternView>::empty(), name_lc, path_lc) is None,
{
}


/// For ASCII text, matching ignores letter case: two patterns that differ
/// only in the case of their letters match the same modules, and a module
/// name or path matches alike whatever the case of its letters.
pub proof fn law_ascii_matching_ignores_case(
    raw1: Seq<char>,
    raw2: Seq<char>,
    name1: Seq<char>,
    name2: Seq<char>,
    path1: Seq<char>,
    path2: Seq<char>,
)
    requires
        is_ascii_text(trim(raw1)),
        is_ascii_text(trim(raw2)),
        ascii_lower(trim(raw1)) == ascii_lower(trim(raw2)),
        is_ascii_text(name1),
        is_ascii_text(name2),
        ascii_lower(name1) == ascii_lower(name2),
        is_ascii_text(path1),
        is_ascii_text(path2),
        ascii_lower(path1) == ascii_lower(path2),
        parse_spec(raw1) is Some,
    ensures
        parse_spec(raw2) is Some,
        pattern_hits(parse_spec(raw1)->0, lower_text(name1), lower_text(path1)) == pattern_hits(
            parse_spec(raw2)->0,
            lower_text(name2),
            lower_text(path2),
        ),
{
    assert(ascii_lower(trim(raw1)).len() == trim(raw1).len());
    assert(ascii_lower(trim(raw2)).len() == trim(raw2).len());
}


/// The pattern reported for a module is the first one that matches: it
/// matches, no earlier pattern does, and none is reported when no pattern
/// matches.
pub proof fn law_first_hit_is_first_match(ps: Seq<PatternView>, name_lc: Seq<char>, path_lc: Seq<char>)
    ensures
        first_hit(ps, name_lc, path_lc) matches Some(i) ==> 0 <= i < ps.len() && pattern_hits(
            ps[i],
            name_lc,
            path_lc,
        ) && forall|j: int| 0 <= j < i ==> !#[trigger] pattern_hits(ps[j], name_lc, path_lc),
        first_hit(ps, name_lc, path_lc) is None ==> forall|j: int|
            0 <= j < ps.len() ==> !#[trigger] pattern_hits(ps[j], name_lc, path_lc),
{
    lemma_first_hit_from(ps, name_lc, path_lc, 0);
}

proof fn lemma_first_hit_from(ps: Seq<PatternView>, name_lc: Seq<char>, path_lc: Seq<char>, k: int)
    requires
        0 <= k,
    ensures
        first_hit_from(ps, name_lc, path_lc, k) matches Some(i) ==> k <= i < ps.len() && pattern_hits(
            ps[i],
            name_lc,
            path_lc,
        ) && forall|j: int| k <= j < i ==> !#[trigger] pattern_hits(ps[j], name_lc, path_lc),
        first_hit_from(ps, name_lc, path_lc, k) is None ==> forall|j: int|
            k <= j < ps.len() ==> !#[trigger] pattern_hits(ps[j], name_lc, path_lc),
    decreases ps.len() - k,
{
    if k < ps.len() && !pattern_hits(ps[k], name_lc, path_lc) {
        lemma_first_hit_from(ps, name_lc, path_lc, k + 1);
    }
}

/// Every non-blank raw pattern becomes a pattern, in order, as its trimmed
/// text and that text lower-cased; blank ones are dropped.
pub proof fn law_parsed_patterns_are_the_non_blank_ones(raw: Seq<Seq<char>>)
    ensures
        ({
            let f = raw.filter(|r: Seq<char>| trim(r).len() > 0);
            &&& parse_all(raw).len() == f.len()
            &&& forall|i: int| 0 <= i < f.len() ==> #[trigger] parse_all(raw)[i] == (
                trim(f[i]),
                lower_text(trim(f[i])),
            )
        }),
    decreases raw.len(),
{
    reveal(Seq::filter);
    if raw.len() > 0 {
        law_parsed_patterns_are_the_non_blank_ones(raw.drop_last());
        let f = raw.filter(|r: Seq<char>| trim(r).len() > 0);
        let f0 = raw.drop_last().filter(|r: Seq<char>| trim(r).len() > 0);
        assert forall|i: int| 0 <= i < f.len() implies #[trigger] parse_all(raw)[i] == (
            trim(f[i]),
            lower_text(trim(f[i])),
        ) by {
            if i < f0.len() {
                assert(f[i] == f0[i]);
                assert(parse_all(raw)[i] == parse_all(raw.drop_last())[i]);
            }
        }
    }
}

} // verus!
