//! The textual round trip of fragments through miniscript's own parser and
//! formatter: printing a parsed fragment gives back its text.
use vstd::prelude::*;

verus! {

/// The text that `String::from_utf8_lossy` makes of some bytes.
pub uninterp spec fn lossy_text(b: Seq<u8>) -> Seq<char>;

/// What miniscript prints for the fragment it parses from some text (segwit
/// v0 context, keys kept as strings), or `None` where it does not parse.
pub uninterp spec fn reprinted(s: Seq<char>) -> Option<Seq<char>>;

/// Relies on `String::from_utf8_lossy`: its text depends on the bytes alone.
#[verifier::external_body]
pub(crate) fn text_of(data: &[u8]) -> (r: String)
    ensures
        r@ == lossy_text(data@),
{
    String::from_utf8_lossy(data).into_owned()
}

/// Relies on miniscript's `FromStr` for `Miniscript<String, Segwitv0>` and
/// its `Display`: the printed text depends on the input text alone.
#[verifier::external_body]
fn parse_and_print(s: &String) -> (r: Option<String>)
    ensures
        match r {
            Some(o) => reprinted(s@) == Some(o@),
            None => reprinted(s@) is None,
        },
{
    match <miniscript::Miniscript<String, miniscript::Segwitv0> as core::str::FromStr>::from_str(s) {
        Ok(m) => Some(m.to_string()),
        Err(_) => None,
    }
}

/// Whether the round trip holds for `input`, given what was printed for it:
/// text that did not parse has nothing to hold.
pub fn round_trip_holds(input: &String, output: &Option<String>) -> (r: bool)
    ensures
        r == match output {
            Some(o) => o@ == input@,
            None => true,
        },
{
    match output {
        Some(o) => *o == *input,
        None => true,
    }
}

/// Reads `data` as text, parses it as a fragment and prints it again;
/// returns whether the printed text is the text read, or the text does not
/// parse.
pub fn do_test(data: &[u8]) -> (r: bool)
    ensures
        r == match reprinted(lossy_text(data@)) {
            Some(o) => o == lossy_text(data@),
            None => true,
        },
{
    let s = text_of(data);
    let out = parse_and_print(&s);
    round_trip_holds(&s, &out)
}

} // verus!
