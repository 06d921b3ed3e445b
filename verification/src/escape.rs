use vstd::prelude::*;

verus! {

/// The minimal HTML entity encoding of one character: the five characters
/// that can break markup become entities, every other character stands as it
/// is.
pub open spec fn encoded_char(c: char) -> Seq<char> {
    if c == '"' {
        seq!['&', 'q', 'u', 'o', 't', ';']
    } else if c == '&' {
        seq!['&', 'a', 'm', 'p', ';']
    } else if c == '\'' {
        seq!['&', '#', 'x', '2', '7', ';']
    } else if c == '<' {
        seq!['&', 'l', 't', ';']
    } else if c == '>' {
        seq!['&', 'g', 't', ';']
    } else {
        seq![c]
    }
}

/// The minimal HTML entity encoding of a text, character by character.
pub open spec fn encoded_text(s: Seq<char>) -> Seq<char>
    decreases s.len(),
{
    if s.len() == 0 {
        Seq::empty()
    } else {
        encoded_text(s.drop_last()) + encoded_char(s.last())
    }
}

/// Relies on `htmlescape::encode_minimal`: each character is replaced by its
/// entity from the minimal set (`"`, `&`, `'`, `<`, `>`) and all others are
/// kept.
#[verifier::external_body]
pub fn encode_minimal_text(s: &str) -> (r: String)
    ensures
        r@ == encoded_text(s@),
{
    htmlescape::encode_minimal(s)
}

} // verus!
