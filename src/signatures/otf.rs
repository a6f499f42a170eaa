//! OpenType fonts with CFF outlines.
use vstd::prelude::*;
use crate::signatures::common::{validate_sfnt, Confidence, SignatureError, SignatureResult};
use crate::structures::ttf::{extents_fit, has_required_tables, is_font_size, valid_directory};

verus! {

/// Human readable description.
pub const DESCRIPTION: &'static str = "OpenType font";

/// The magic bytes that start an OpenType font: `OTTO`.
pub fn otf_magic() -> (r: Vec<Vec<u8>>)
    ensures
        r@.len() == 1,
        r@[0]@ == seq![0x4fu8, 0x54u8, 0x54u8, 0x4fu8],
{
    let mut r: Vec<Vec<u8>> = Vec::new();
    r.push(vec![0x4f, 0x54, 0x54, 0x4f]);
    r
}

/// Validates an OpenType font that starts at `offset` in `file_data`.
pub fn otf_parser(file_data: &[u8], offset: usize) -> (r: Result<SignatureResult, SignatureError>)
    requires
        offset <= file_data@.len(),
    ensures
        ({
            let d = file_data@.subrange(offset as int, file_data@.len() as int);
            &&& r is Ok <==> valid_directory(d) && extents_fit(d)
            &&& !has_required_tables(d) ==> r is Err
            &&& r matches Ok(res) ==> {
                &&& res.offset == offset
                &&& res.description@ == DESCRIPTION@
                &&& res.confidence == Confidence::High
                &&& is_font_size(d, res.size as int)
            }
        }),
{
    validate_sfnt(file_data, offset, DESCRIPTION)
}

} // verus!
