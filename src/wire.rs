use vstd::prelude::*;
use crate::scan::Media;
use crate::signing::{SigningService, signed_by};

verus! {

/// A lower-case hexadecimal digit.
pub open spec fn hex_digit(d: int) -> char {
    seq!['0', '1', '2', '3', '4', '5', '6', '7', '8', '9', 'a', 'b', 'c', 'd', 'e', 'f'][d]
}

/// How one character stands inside a JSON string: quote and backslash are
/// escaped, control characters get their short escape or `\u00xx`, every
/// other character stands as it is.
pub open spec fn json_escape(c: char) -> Seq<char> {
    if c == '"' {
        seq!['\\', '"']
    } else if c == '\\' {
        seq!['\\', '\\']
    } else if c == '\x08' {
        seq!['\\', 'b']
    } else if c == '\t' {
        seq!['\\', 't']
    } else if c == '\n' {
        seq!['\\', 'n']
    } else if c == '\x0c' {
        seq!['\\', 'f']
    } else if c == '\r' {
        seq!['\\', 'r']
    } else if (c as u32) < 0x20 {
        seq!['\\', 'u', '0', '0', hex_digit((c as u32) as int / 16), hex_digit((c as u32) as int % 16)]
    } else {
        seq![c]
    }
}

/// The escaped characters of a string, in order.
pub open spec fn json_escaped(s: Seq<char>) -> Seq<char>
    decreases s.len(),
{
    if s.len() == 0 {
        seq![]
    } else {
        json_escaped(s.drop_last()) + json_escape(s.last())
    }
}

/// The JSON text that serde_json writes for a string.
pub open spec fn json_string_of(s: Seq<char>) -> Seq<char> {
    seq!['"'] + json_escaped(s) + seq!['"']
}

/// Relies on `serde_json::to_string`, which cannot fail on a `str`, and on
/// the escape table of its string formatter.
#[verifier::external_body]
fn json_string(s: &str) -> (r: String)
    ensures
        r@ == json_string_of(s@),
{
    match serde_json::to_string(s) {
        Ok(j) => j,
        Err(_) => String::new(),
    }
}

/// A medium as it leaves the indexer: its path with a token that grants
/// access to exactly that path.
pub struct SignedMedia {
    pub path: String,
    pub signature: String,
}

/// The JSON object `{"path": .., "signature": ..}` for a signed medium.
pub open spec fn signed_media_json(path: Seq<char>, signature: Seq<char>) -> Seq<char> {
    "{\"path\":"@ + json_string_of(path) + ",\"signature\":"@ + json_string_of(signature) + "}"@
}

impl SignedMedia {
    /// The medium's path with a fresh token for it; `None` where signing fails.
    pub fn sign(service: &SigningService, media: &Media) -> (r: Option<SignedMedia>)
        ensures
            r matches Some(s) ==> s.path@ == media.path@ && signed_by(
                service@,
                media.path@,
                s.signature@,
            ),
    {
        match service.sign_string(media.path.as_str()) {
            Some(signature) => Some(SignedMedia { path: media.path.clone(), signature }),
            None => None,
        }
    }

    /// Whether the token grants access to the path.
    pub fn is_authorized(&self, service: &SigningService) -> (r: bool)
        ensures
            r == signed_by(service@, self.path@, self.signature@),
    {
        service.verify_string(self.path.as_str(), self.signature.as_str())
    }

    /// The event payload handed to consumers, as a JSON object.
    pub fn to_json(&self) -> (r: String)
        ensures
            r@ == signed_media_json(self.path@, self.signature@),
    {
        let mut r = "{\"path\":".to_owned();
        let p = json_string(self.path.as_str());
        r.append(p.as_str());
        r.append(",\"signature\":");
        let s = json_string(self.signature.as_str());
        r.append(s.as_str());
        r.append("}");
        r
    }
}

} // verus!
