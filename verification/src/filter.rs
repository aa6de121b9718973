//! Operator-supplied ignore rules, evaluated as regular expressions.
//!
//! A filter is built once from a list of pattern strings and consulted per
//! discovered member or room alias. A candidate that matches any pattern is
//! skipped entirely by the orchestration: it contributes no node and no
//! edge, as if it had never been observed. Anchoring is written into the
//! patterns themselves (`^...$`).

use vstd::prelude::*;

verus! {

/// Whether the regular expression `pattern` matches somewhere in `text`.
/// The matching itself is done by the regex crate; its result depends on
/// the pattern and the text alone.
pub uninterp spec fn regex_match(pattern: Seq<char>, text: Seq<u8>) -> bool;

/// Whether `pattern` is a valid regular expression, that is, whether the
/// regex crate accepts it. A function of the pattern alone.
pub uninterp spec fn regex_valid(pattern: Seq<char>) -> bool;

/// A declaration of the regex crate's compiled byte-oriented pattern type.
#[verifier::external_type_specification]
#[verifier::external_body]
pub struct ExRegex(regex::bytes::Regex);

/// One compiled ignore rule. `re` is always the compilation of `pattern`:
/// the only constructor is `compile_pattern`, which builds both together.
struct CompiledPattern {
    pattern: String,
    re: regex::bytes::Regex,
}

/// Relies on `regex::bytes::Regex::new`: it accepts exactly the valid
/// patterns, and the returned value is the compilation of `pattern`.
#[verifier::external_body]
fn compile_pattern(pattern: &String) -> (r: Option<CompiledPattern>)
    ensures
        r is Some <==> regex_valid(pattern@),
        r is Some ==> r->0.pattern@ == pattern@,
{
    match regex::bytes::Regex::new(pattern) {
        Ok(re) => Some(CompiledPattern { pattern: pattern.clone(), re }),
        Err(_) => None,
    }
}

/// Relies on `regex::bytes::Regex::is_match`: whether the compiled pattern
/// matches anywhere in `text`.
#[verifier::external_body]
fn compiled_is_match(p: &CompiledPattern, text: &Vec<u8>) -> (r: bool)
    ensures
        r == regex_match(p.pattern@, text@),
{
    p.re.is_match(text.as_slice())
}

/// A set of ignore rules. Its view is the list of pattern strings.
pub struct PatternFilter {
    rules: Vec<CompiledPattern>,
}

impl View for PatternFilter {
    type V = Seq<Seq<char>>;

    closed spec fn view(&self) -> Seq<Seq<char>> {
        self.rules@.map_values(|p: CompiledPattern| p.pattern@)
    }
}

/// Whether `text` matches at least one of the patterns.
pub open spec fn spec_filter_matches(patterns: Seq<Seq<char>>, text: Seq<u8>) -> bool {
    exists|i: int| 0 <= i < patterns.len() && regex_match(patterns[i], text)
}

impl PatternFilter {
    /// Compiles a pattern set. Succeeds exactly when every pattern is a
    /// valid regular expression; the filter then holds exactly the given
    /// patterns, in order.
    pub fn new(patterns: &Vec<String>) -> (r: Option<PatternFilter>)
        ensures
            match r {
                Some(f) => f@ =~= patterns@.map_values(|s: String| s@) && forall|i: int|
                    0 <= i < patterns@.len() ==> regex_valid(#[trigger] patterns@[i]@),
                None => exists|i: int| 0 <= i < patterns@.len() && !regex_valid(
                    #[trigger] patterns@[i]@,
                ),
            },
    {
        let mut rules: Vec<CompiledPattern> = Vec::new();
        let n = patterns.len();
        let mut i: usize = 0;
        while i < n
            invariant
                n == patterns@.len(),
                0 <= i <= n,
                rules@.len() == i,
                forall|j: int| 0 <= j < i ==> rules@[j].pattern@ == #[trigger] patterns@[j]@,
                forall|j: int| 0 <= j < i ==> regex_valid(#[trigger] patterns@[j]@),
            decreases n - i,
        {
            match compile_pattern(&patterns[i]) {
                Some(rule) => rules.push(rule),
                None => {
                    return None;
                },
            }
            i = i + 1;
        }
        let f = PatternFilter { rules };
        proof {
            assert(f@ =~= patterns@.map_values(|s: String| s@));
        }
        Some(f)
    }

    /// The number of patterns in the filter.
    pub fn len(&self) -> (n: usize)
        ensures
            n == self@.len(),
    {
        self.rules.len()
    }

    /// Whether `text` matches at least one of the filter's patterns.
    pub fn matches(&self, text: &Vec<u8>) -> (r: bool)
        ensures
            r == spec_filter_matches(self@, text@),
    {
        let n = self.rules.len();
        let mut i: usize = 0;
        while i < n
            invariant
                n == self.rules@.len(),
                0 <= i <= n,
                forall|j: int| 0 <= j < i ==> !regex_match(self@[j], text@),
            decreases n - i,
        {
            if compiled_is_match(&self.rules[i], text) {
                assert(regex_match(self@[i as int], text@));
                return true;
            }
            i = i + 1;
        }
        false
    }
}

} // verus!
