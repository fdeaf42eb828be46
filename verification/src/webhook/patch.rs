//! JSON patches.

use crate::text::opt_view;
use vstd::prelude::*;
use vstd::utf8::encode_utf8;

verus! {

// ---------------------------------------------------------------------------
// Base64
// ---------------------------------------------------------------------------

/// The character that stands for a number below 64.
pub open spec fn base64_char(n: int) -> char {
    "ABCDEFGHIJKLMNOPQRSTUVWXYZabcdefghijklmnopqrstuvwxyz0123456789+/"@[n]
}

/// Bytes as base64 text: each three bytes are four characters of six bits each, and the
/// last characters are made up to four with `=`.
pub open spec fn base64_of(bytes: Seq<u8>) -> Seq<char>
    decreases bytes.len(),
{
    let a = bytes[0] as int;
    let b = if bytes.len() > 1 {
        bytes[1] as int
    } else {
        0
    };
    let c = if bytes.len() > 2 {
        bytes[2] as int
    } else {
        0
    };
    if bytes.len() == 0 {
        seq![]
    } else {
        seq![
            base64_char(a / 4),
            base64_char((a % 4) * 16 + b / 16),
            if bytes.len() > 1 {
                base64_char((b % 16) * 4 + c / 64)
            } else {
                '='
            },
            if bytes.len() > 2 {
                base64_char(c % 64)
            } else {
                '='
            },
        ] + if bytes.len() > 3 {
            base64_of(bytes.skip(3))
        } else {
            seq![]
        }
    }
}

/// Encodes bytes with `base64::Engine::encode` of the engine
/// `base64::engine::general_purpose::STANDARD`. It is claimed that this engine uses the
/// standard alphabet and pads with `=`.
#[verifier::external_body]
fn encode_base64(bytes: &[u8]) -> (r: String)
    ensures
        r@ == base64_of(bytes@),
{
    base64::Engine::encode(&base64::engine::general_purpose::STANDARD, bytes)
}

// ---------------------------------------------------------------------------
// Patches
// ---------------------------------------------------------------------------

/// What `json_patch::diff` makes of two JSON texts: the number of operations and the
/// patch as JSON text. There is none where one of the texts cannot be read.
pub uninterp spec fn json_patch_between(original: Seq<char>, modified: Seq<char>) -> Option<
    (nat, Seq<char>),
>;

/// What a difference stands for.
pub open spec fn difference_view(d: Option<(usize, String)>) -> Option<(nat, Seq<char>)> {
    match d {
        Some((n, text)) => Some((n as nat, text@)),
        None => None,
    }
}

/// The patch from one JSON text to another: reads both with `serde_json::from_str`,
/// compares them with `json_patch::diff` and writes the patch with
/// `serde_json::to_string`. It is claimed that the result depends on the two texts
/// alone, and that equal texts need no operation.
#[verifier::external_body]
fn json_difference(original: &str, modified: &str) -> (r: Option<(usize, String)>)
    ensures
        difference_view(r) == json_patch_between(original@, modified@),
        original@ == modified@ && r is Some ==> (r->0).0 == 0,
{
    let left: serde_json::Value = serde_json::from_str(original).ok()?;
    let right: serde_json::Value = serde_json::from_str(modified).ok()?;
    let patch = json_patch::diff(&left, &right);
    let text = serde_json::to_string(&patch).ok()?;
    Some((patch.0.len(), text))
}

/// The patch that is answered with, given the difference: none where there is no
/// operation, else the patch in base64.
pub open spec fn encoded_patch(difference: Option<(nat, Seq<char>)>) -> Option<Seq<char>> {
    match difference {
        Some((n, text)) => if n == 0 {
            None
        } else {
            Some(base64_of(encode_utf8(text)))
        },
        None => None,
    }
}

/// The patch from one JSON text to another that is answered with.
pub open spec fn patch_for(original: Seq<char>, modified: Seq<char>) -> Option<Seq<char>> {
    encoded_patch(json_patch_between(original, modified))
}

/// The patch that is answered with, given the difference.
pub fn encode_patch(difference: Option<(usize, String)>) -> (r: Option<String>)
    ensures
        opt_view(r) == encoded_patch(difference_view(difference)),
{
    match difference {
        Some((n, text)) => {
            if n == 0 {
                None
            } else {
                Some(encode_base64(text.as_str().as_bytes()))
            }
        },
        None => None,
    }
}

/// Generate JSON patch from original to modified object
pub fn generate_patch(original: &str, modified: &str) -> (r: Option<String>)
    ensures
        opt_view(r) == patch_for(original@, modified@),
        original@ == modified@ ==> r is None,
{
    encode_patch(json_difference(original, modified))
}

} // verus!
