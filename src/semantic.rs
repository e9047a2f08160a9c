//! The textual round trip of abstract spending policies through miniscript's
//! own parser and formatter, up to letter case.
use vstd::prelude::*;
use crate::roundtrip::{lossy_text, text_of};

verus! {

/// What miniscript prints for the semantic policy it parses from some text
/// (keys kept as strings), or `None` where it does not parse.
pub uninterp spec fn policy_reprinted(s: Seq<char>) -> Option<Seq<char>>;

/// The text that `str::to_lowercase` makes of some text.
pub uninterp spec fn lower_of(s: Seq<char>) -> Seq<char>;

/// Relies on miniscript's `FromStr` for `policy::Semantic<String>` and its
/// `Display`: the printed text depends on the input text alone.
#[verifier::external_body]
fn parse_and_print_policy(s: &String) -> (r: Option<String>)
    ensures
        match r {
            Some(o) => policy_reprinted(s@) == Some(o@),
            None => policy_reprinted(s@) is None,
        },
{
    match <miniscript::policy::Semantic<String> as core::str::FromStr>::from_str(s) {
        Ok(p) => Some(p.to_string()),
        Err(_) => None,
    }
}

/// Relies on `str::to_lowercase`: the result depends on the characters alone,
/// and the empty text stays empty.
#[verifier::external_body]
fn lowercase(s: &String) -> (r: String)
    ensures
        r@ == lower_of(s@),
        s@.len() == 0 ==> r@.len() == 0,
{
    s.to_lowercase()
}

/// Whether a printed policy matches its input up to letter case, given the
/// lower-case forms of both: text that did not parse has nothing to hold.
pub fn policy_round_trip_holds(input_lower: &String, output_lower: &Option<String>) -> (r: bool)
    ensures
        r == match output_lower {
            Some(o) => o@ == input_lower@,
            None => true,
        },
{
    match output_lower {
        Some(o) => *o == *input_lower,
        None => true,
    }
}

/// Reads `data` as text, parses it as a semantic policy and prints it again;
/// returns whether the printed text equals the text read up to letter case,
/// or the text does not parse.
pub fn do_test(data: &[u8]) -> (r: bool)
    ensures
        r == match policy_reprinted(lossy_text(data@)) {
            Some(o) => lower_of(o) == lower_of(lossy_text(data@)),
            None => true,
        },
{
    let s = text_of(data);
    let out = parse_and_print_policy(&s);
    let lowered = match &out {
        Some(o) => Some(lowercase(o)),
        None => None,
    };
    policy_round_trip_holds(&lowercase(&s), &lowered)
}

} // verus!
