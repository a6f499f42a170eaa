//! TrueType fonts, classic sfnt and legacy Apple forms.
use vstd::prelude::*;
use crate::signatures::common::{validate_sfnt, Confidence, SignatureError, SignatureResult};
use crate::structures::ttf::{extents_fit, has_required_tables, is_font_size, valid_directory};

verus! {

/// Human readable description.
pub const DESCRIPTION: &'static str = "TrueType font";

/// The magic bytes that start a TrueType font: version 1.0 of the sfnt
/// container, or the `true` of the legacy Apple form.
pub fn ttf_magic() -> (r: Vec<Vec<u8>>)
    ensures
        r@.len() == 2,
        r@[0]@ == seq![0x00u8, 0x01u8, 0x00u8, 0x00u8],
        r@[1]@ == seq![0x74u8, 0x72u8, 0x75u8, 0x65u8],
{
    let mut r: Vec<Vec<u8>> = Vec::new();
    r.push(vec![0x00, 0x01, 0x00, 0x00]);
    r.push(vec![0x74, 0x72, 0x75, 0x65]);
    r
}

/// Validates a TrueType font that starts at `offset` in `file_data`.
pub fn ttf_parser(file_data: &[u8], offset: usize) -> (r: Result<SignatureResult, SignatureError>)
    requires
        offset <= file_data@.len(),
    ensures
        ({
            let d = file_data@.subrange(offset as int, file_data@.len() as int);
            &&& r is Ok <==> valid_directory(d) && extents_fit(d)
            &&& !has_required_tables(d) ==> r is Err
            &&& r matches Ok(res) ==> {
                &&& res.offset == offset
                &&& res.description@ == DESCRIPTION@
                &&& res.confidence == Confidence::High
                &&& is_font_size(d, res.size as int)
            }
        }),
{
    validate_sfnt(file_data, offset, DESCRIPTION)
}

} // verus!
