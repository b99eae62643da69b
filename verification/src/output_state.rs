//! Output states in the answer to `READ`: the words `CV` (constant voltage),
//! `CC` (constant current) and `OFF`, picked out of the state field by a
//! case-insensitive regular expression.

use vstd::prelude::*;
use crate::text::views;

verus! {

broadcast use vstd::string::group_string_axioms;

pub open spec fn is_c(ch: char) -> bool {
    ch == 'c' || ch == 'C'
}

pub open spec fn is_v(ch: char) -> bool {
    ch == 'v' || ch == 'V'
}

pub open spec fn is_o(ch: char) -> bool {
    ch == 'o' || ch == 'O'
}

pub open spec fn is_f(ch: char) -> bool {
    ch == 'f' || ch == 'F'
}

/// The successive non-overlapping matches, from left to right, of the
/// pattern `(?i:CV|CC|OFF)` in `s`: wherever `CV`, `CC` or `OFF` starts, in
/// any letter case, that word is taken and the search goes on after it.
pub open spec fn state_words(s: Seq<char>) -> Seq<Seq<char>>
    decreases s.len(),
{
    if s.len() == 0 {
        Seq::<Seq<char>>::empty()
    } else if s.len() >= 2 && is_c(s[0]) && (is_v(s[1]) || is_c(s[1])) {
        seq![s.take(2)] + state_words(s.skip(2))
    } else if s.len() >= 3 && is_o(s[0]) && is_f(s[1]) && is_f(s[2]) {
        seq![s.take(3)] + state_words(s.skip(3))
    } else {
        state_words(s.skip(1))
    }
}

/// The pattern that picks the output states out of the state field.
pub open spec fn state_pattern() -> Seq<char> {
    seq!['(', '?', 'i', ':', 'C', 'V', '|', 'C', 'C', '|', 'O', 'F', 'F', ')']
}

/// What the `regex` crate finds for `pattern` in `text`: the text of each
/// successive match, as `Regex::captures_iter` yields them.
pub uninterp spec fn regex_matches(pattern: Seq<char>, text: Seq<char>) -> Seq<Seq<char>>;

/// Compiles `pattern` with `regex::Regex::new` and collects the whole match
/// (capture group 0) of every item of `Regex::captures_iter` over `text`;
/// `None` when the pattern does not compile.
///
/// Trusted: that the matches are `regex_matches(pattern, text)`, and that for
/// the state pattern compilation succeeds and the matches are `state_words`.
/// The latter rests on the crate's leftmost-first, non-overlapping search and
/// on its simple case folding, under which `c`, `v`, `o` and `f` match only
/// themselves in either ASCII case.
#[verifier::external_body]
fn find_all_matches(pattern: &str, text: &str) -> (r: Option<Vec<String>>)
    ensures
        r is Some ==> views(r.unwrap()@) == regex_matches(pattern@, text@),
        pattern@ == state_pattern() ==> r is Some && views(r.unwrap()@) == state_words(text@),
{
    match regex::Regex::new(pattern) {
        Ok(re) => Some(re.captures_iter(text).map(|cap| cap[0].to_string()).collect()),
        Err(_) => None,
    }
}

/// The output-state words found in the state field of an answer to `READ`.
pub fn output_state_words(state_field: &str) -> (r: Vec<String>)
    ensures
        views(r@) == state_words(state_field@),
{
    let pattern: &str = "(?i:CV|CC|OFF)";
    proof {
        reveal_strlit("(?i:CV|CC|OFF)");
        assert(pattern@ =~= state_pattern());
    }
    match find_all_matches(pattern, state_field) {
        Some(m) => m,
        None => Vec::new(),
    }
}

/// A state word that the driver accepts: exactly `CV`, `CC` or `OFF`.
pub open spec fn is_known_state(w: Seq<char>) -> bool {
    w == seq!['C', 'V'] || w == seq!['C', 'C'] || w == seq!['O', 'F', 'F']
}

/// Whether the output is on in state `w`: in regulation (`CV` or `CC`).
pub open spec fn state_enabled(w: Seq<char>) -> bool {
    w == seq!['C', 'V'] || w == seq!['C', 'C']
}

/// Reads a state word: `Some(true)` for `CV` and `CC`, `Some(false)` for
/// `OFF`, `None` for anything else, such as `cv` or `Off`.
pub fn output_enabled(w: &String) -> (r: Option<bool>)
    ensures
        r is Some <==> is_known_state(w@),
        r matches Some(b) ==> b == state_enabled(w@),
{
    proof {
        reveal_strlit("CV");
        reveal_strlit("CC");
        reveal_strlit("OFF");
    }
    let cv: String = String::from_str("CV");
    let cc: String = String::from_str("CC");
    let off: String = String::from_str("OFF");
    assert(cv@ =~= seq!['C', 'V']);
    assert(cc@ =~= seq!['C', 'C']);
    assert(off@ =~= seq!['O', 'F', 'F']);
    if *w == cv || *w == cc {
        Some(true)
    } else if *w == off {
        Some(false)
    } else {
        None
    }
}

} // verus!
