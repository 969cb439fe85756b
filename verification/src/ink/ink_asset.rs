//! The text of a story as an asset, and the loader that makes one from the
//! bytes of a file.

use crate::error::NarrativeError;
use vstd::prelude::*;
use vstd::utf8::decode_utf8;
use vstd::utf8::valid_utf8;

verus! {

#[verifier::external_type_specification]
#[verifier::external_body]
pub struct ExFromUtf8Error(std::string::FromUtf8Error);

/// The text of a story script.
#[derive(Debug, Clone, PartialEq, Eq)]
pub struct InkAsset {
    pub story: String,
}

#[derive(Debug, Clone, Copy, Default)]
pub struct InkAssetLoader;

/// `String::from_utf8` on a copy of the bytes: the text that the bytes
/// encode, and an error exactly where they are not UTF-8.
#[verifier::external_body]
fn text_of_bytes(bytes: &[u8]) -> (r: Result<String, std::string::FromUtf8Error>)
    ensures
        r is Ok <==> valid_utf8(bytes@),
        r matches Ok(text) ==> text@ == decode_utf8(bytes@),
{
    String::from_utf8(bytes.to_vec())
}

impl InkAssetLoader {
    /// Reads the bytes of a script file as its text.
    pub fn load(&self, bytes: &[u8]) -> (r: Result<InkAsset, NarrativeError>)
        ensures
            valid_utf8(bytes@) ==> r is Ok && r->Ok_0.story@ == decode_utf8(bytes@),
            !valid_utf8(bytes@) ==> r == Err::<InkAsset, NarrativeError>(NarrativeError::Load),
    {
        match text_of_bytes(bytes) {
            Ok(story) => Ok(InkAsset { story }),
            Err(_) => Err(NarrativeError::Load),
        }
    }

    /// The file name extensions of the scripts that this loader reads.
    pub fn extensions(&self) -> (r: &[&str])
        ensures
            r@.len() == 1,
            r@[0]@ == "ink"@,
    {
        &["ink"]
    }
}

} // verus!
