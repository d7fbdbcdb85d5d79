use vstd::prelude::*;

verus! {

/// The case-folded form of a name, as `str::to_lowercase` computes it.
pub uninterp spec fn lower_of(s: Seq<char>) -> Seq<char>;

/// Relies on `str::to_lowercase`: the result depends on the characters alone,
/// and the empty string stays empty.
#[verifier::external_body]
fn lowercase(s: &str) -> (r: String)
    ensures
        r@ == lower_of(s@),
        s@.len() == 0 ==> r@.len() == 0,
{
    s.to_lowercase()
}

/// A text field of the source tables counts as present when it is not empty.
pub open spec fn present(s: Seq<char>) -> bool {
    s.len() > 0
}

/// An optional text value, read through the view of its string.
pub open spec fn text_view(o: Option<String>) -> Option<Seq<char>> {
    match o {
        Some(s) => Some(s@),
        None => None,
    }
}

/// The optional value of a source field: absent when the field is empty.
pub open spec fn optional_text(s: Seq<char>) -> Option<Seq<char>> {
    if present(s) {
        Some(s)
    } else {
        None
    }
}

/// The lowercase form of a name fragment, used for blacklist matching.
pub fn lowercase_fragment(s: &String) -> (r: String)
    ensures
        r@ == lower_of(s@),
{
    lowercase(s.as_str())
}

pub fn is_present(s: &String) -> (r: bool)
    ensures
        r == present(s@),
{
    !s.as_str().is_empty()
}

/// The field as an optional value: `None` for an empty field.
pub fn optional_field(s: &String) -> (r: Option<String>)
    ensures
        text_view(r) == optional_text(s@),
{
    if is_present(s) {
        Some(s.clone())
    } else {
        None
    }
}

/// Exact comparison of a field against a fixed name.
pub fn text_equals(s: &String, name: &str) -> (r: bool)
    ensures
        r == (s@ == name@),
{
    let owned = name.to_owned();
    *s == owned
}

} // verus!
