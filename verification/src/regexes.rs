use vstd::prelude::*;

verus! {

// The pattern engine is the regex crate.  Its behaviour is deterministic in
// the pattern and the text, so the results of the calls the parser makes are
// given names here, and each call goes through one small wrapper whose
// contract speaks over those names.

/// Whether the regex engine accepts a pattern.
pub uninterp spec fn regex_ok(pattern: Seq<char>) -> bool;

/// The capture groups of the leftmost match of a pattern in a text: one slot
/// per capture group of the pattern, slot 0 the whole match, `None` in a slot
/// whose group did not participate.  The outer `None` when the pattern is
/// invalid or does not match.
pub uninterp spec fn captures_of(pattern: Seq<char>, text: Seq<char>) -> Option<
    Seq<Option<Seq<char>>>,
>;

/// Whether a pattern matches anywhere in a text; false when the pattern is
/// invalid.
pub uninterp spec fn match_of(pattern: Seq<char>, text: Seq<char>) -> bool;

/// The character-sequence view of a captured-groups vector.
pub open spec fn caps_view(r: Option<Vec<Option<String>>>) -> Option<Seq<Option<Seq<char>>>> {
    match r {
        Option::None => Option::None,
        Option::Some(v) => Option::Some(
            v@.map_values(
                |o: Option<String>|
                    match o {
                        Option::None => Option::<Seq<char>>::None,
                        Option::Some(s) => Option::Some(s@),
                    },
            ),
        ),
    }
}

/// Relies on regex::Regex::new: whether the pattern is a valid regular
/// expression.
#[verifier::external_body]
pub fn regex_is_valid(pattern: &str) -> (r: bool)
    ensures
        r == regex_ok(pattern@),
{
    regex::Regex::new(pattern).is_ok()
}

/// Relies on regex::Regex::new, regex::Regex::captures and
/// regex::Captures::get: the capture groups of the leftmost match of the
/// pattern in the text.  Matching is a function of the pattern and the text
/// alone; group 0 always participates in a match.
#[verifier::external_body]
pub fn regex_captures(pattern: &str, text: &str) -> (r: Option<Vec<Option<String>>>)
    ensures
        caps_view(r) == captures_of(pattern@, text@),
        match r {
            Option::Some(v) => v@.len() >= 1 && v@[0] is Some,
            Option::None => true,
        },
{
    let re = match regex::Regex::new(pattern) {
        Ok(re) => re,
        Err(_) => return None,
    };
    let caps = re.captures(text)?;
    let mut v = Vec::new();
    let mut i: usize = 0;
    while i < caps.len() {
        v.push(caps.get(i).map(|m| m.as_str().to_string()));
        i += 1;
    }
    Some(v)
}

/// Relies on regex::Regex::new and regex::Regex::is_match: whether the
/// pattern is valid and matches anywhere in the text; a function of the
/// pattern and the text alone.
#[verifier::external_body]
pub fn regex_is_match(pattern: &str, text: &str) -> (r: bool)
    ensures
        r == match_of(pattern@, text@),
        !regex_ok(pattern@) ==> !r,
{
    match regex::Regex::new(pattern) {
        Ok(re) => re.is_match(text),
        Err(_) => false,
    }
}

} // verus!
