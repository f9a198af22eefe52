//! The MIME type carried by a successful reply's status line.

use vstd::prelude::*;

verus! {

/// A parsed MIME type: `type "/" subtype *(";" key "=" value)`.
///
/// Only the `charset` and `lang` parameters survive parsing; the protocol
/// leaves all other parameters undefined and clients must ignore them.
#[derive(Debug, Clone, PartialEq, Eq)]
pub struct MimeType {
    pub typ: String,
    pub sub: String,
    pub parameters: Option<Vec<(String, String)>>,
}

/// The mathematical value of a [`MimeType`].
pub struct MimeTypeModel {
    pub typ: Seq<char>,
    pub sub: Seq<char>,
    pub parameters: Option<Seq<(Seq<char>, Seq<char>)>>,
}

impl View for MimeType {
    type V = MimeTypeModel;

    open spec fn view(&self) -> MimeTypeModel {
        MimeTypeModel {
            typ: self.typ@,
            sub: self.sub@,
            parameters: match self.parameters {
                Some(ps) => Some(ps@.map_values(|p: (String, String)| (p.0@, p.1@))),
                None => None,
            },
        }
    }
}

impl Default for MimeType {
    /// `text/gemini` with no parameters: the type assumed for a document
    /// loaded from local storage, where no status line supplies one.
    fn default() -> (r: Self)
        ensures
            r@.typ == "text"@,
            r@.sub == "gemini"@,
            r@.parameters is None,
    {
        MimeType { typ: "text".to_owned(), sub: "gemini".to_owned(), parameters: None }
    }
}

} // verus!
