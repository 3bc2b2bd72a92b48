//! Why a registry operation was refused, and how that is told to a caller.

use vstd::prelude::*;

verus! {

/// Why a registry operation left the document as it was.
#[derive(Debug)]
pub enum RegistryError {
    /// The URL is empty once trimmed.
    EmptyUrl,
    /// The path is empty once trimmed.
    EmptyPath,
    /// A record with this path is already present.
    DuplicatePath(String),
    /// No record has this id.
    UnknownId(u64),
    /// No record has this path.
    UnknownPath(String),
}

/// A `RegistryError` as plain values.
pub ghost enum RegistryErrorView {
    EmptyUrl,
    EmptyPath,
    DuplicatePath(Seq<char>),
    UnknownId(u64),
    UnknownPath(Seq<char>),
}

impl View for RegistryError {
    type V = RegistryErrorView;

    open spec fn view(&self) -> RegistryErrorView {
        match self {
            RegistryError::EmptyUrl => RegistryErrorView::EmptyUrl,
            RegistryError::EmptyPath => RegistryErrorView::EmptyPath,
            RegistryError::DuplicatePath(path) => RegistryErrorView::DuplicatePath(path@),
            RegistryError::UnknownId(id) => RegistryErrorView::UnknownId(*id),
            RegistryError::UnknownPath(path) => RegistryErrorView::UnknownPath(path@),
        }
    }
}

/// The character for a single decimal digit.
pub open spec fn digit(d: nat) -> char
    recommends
        d < 10,
{
    ((d + 48) as u8) as char
}

/// `n` written in decimal, without sign or leading zeros.
pub open spec fn decimal(n: nat) -> Seq<char>
    decreases n,
{
    if n < 10 {
        seq![digit(n)]
    } else {
        decimal(n / 10).push(digit(n % 10))
    }
}

impl RegistryErrorView {
    /// The sentence that tells a caller of this error.
    pub open spec fn message(self) -> Seq<char> {
        match self {
            RegistryErrorView::EmptyUrl => "URL cannot be empty"@,
            RegistryErrorView::EmptyPath => "Path cannot be empty"@,
            RegistryErrorView::DuplicatePath(path) => "A modpack with path '"@ + path
                + "' already exists"@,
            RegistryErrorView::UnknownId(id) => "Modpack with ID "@ + decimal(id as nat)
                + " not found"@,
            RegistryErrorView::UnknownPath(path) => "Modpack with path '"@ + path
                + "' not found"@,
        }
    }
}

/// The standard library's `to_string` on a `u64`: the number in decimal,
/// without sign or leading zeros.
#[verifier::external_body]
fn decimal_string(n: u64) -> (text: String)
    ensures
        text@ == decimal(n as nat),
{
    n.to_string()
}

/// `before`, `middle` and `after` in one string.
fn enclose(before: &str, middle: &str, after: &str) -> (text: String)
    ensures
        text@ == before@ + middle@ + after@,
{
    let mut text = before.to_owned();
    text.append(middle);
    text.append(after);
    text
}

impl RegistryError {
    /// The sentence that tells a caller of this error.
    pub fn message(&self) -> (text: String)
        ensures
            text@ == self@.message(),
    {
        match self {
            RegistryError::EmptyUrl => "URL cannot be empty".to_owned(),
            RegistryError::EmptyPath => "Path cannot be empty".to_owned(),
            RegistryError::DuplicatePath(path) => enclose(
                "A modpack with path '",
                path.as_str(),
                "' already exists",
            ),
            RegistryError::UnknownId(id) => enclose(
                "Modpack with ID ",
                decimal_string(*id).as_str(),
                " not found",
            ),
            RegistryError::UnknownPath(path) => enclose(
                "Modpack with path '",
                path.as_str(),
                "' not found",
            ),
        }
    }
}

} // verus!
