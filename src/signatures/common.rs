//! What a signature adapter reports, and the validation that TrueType and
//! OpenType share.
use vstd::prelude::*;
use vstd::slice::slice_subrange;
use crate::structures::ttf::{
    calculate_ttf_file_size, entry_extent, entry_from, extent, extents_fit, has_required_tables,
    is_font_size, lists_tag, head_tag, num_tables, parse_ttf_header, valid_directory,
};

verus! {

/// How sure an adapter is of a match, from weakest to strongest.
#[derive(Debug, Clone, Copy, PartialEq, Eq, Structural, PartialOrd, Ord)]
pub enum Confidence {
    Low,
    Medium,
    High,
}

/// A validated match.
#[derive(Debug, Clone)]
pub struct SignatureResult {
    /// Where the artifact starts in the scanned buffer.
    pub offset: usize,
    /// What the artifact is, for people to read.
    pub description: String,
    pub confidence: Confidence,
    /// Length of the artifact in bytes.
    pub size: usize,
}

/// The candidate is not what the adapter looks for.
#[derive(Debug, Clone, Copy, PartialEq, Eq, Structural)]
pub struct SignatureError;

/// Validates the sfnt container that starts at `offset` in `file_data`: its
/// table directory must parse and yield a size, and the result then carries
/// that size with `High` confidence.
pub fn validate_sfnt(file_data: &[u8], offset: usize, description: &str) -> (r: Result<
    SignatureResult,
    SignatureError,
>)
    requires
        offset <= file_data@.len(),
    ensures
        ({
            let d = file_data@.subrange(offset as int, file_data@.len() as int);
            &&& r is Ok <==> valid_directory(d) && extents_fit(d)
            &&& !has_required_tables(d) ==> r is Err
            &&& r matches Ok(res) ==> {
                &&& res.offset == offset
                &&& res.description@ == description@
                &&& res.confidence == Confidence::High
                &&& is_font_size(d, res.size as int)
            }
        }),
{
    let data = slice_subrange(file_data, offset, file_data.len());
    let ghost d = data@;
    let header = match parse_ttf_header(data) {
        Ok(header) => header,
        Err(_) => return Err(SignatureError),
    };
    let ghost tables = header.tables@;
    assert forall|i: int| 0 <= i < tables.len() implies extent(#[trigger] tables[i])
        == entry_extent(d, i) by {
        assert(entry_from(tables[i], d, i));
    }
    match calculate_ttf_file_size(&header) {
        Some(size) => {
            proof {
                let k = choose|k: int| 0 <= k < tables.len() && extent(#[trigger] tables[k]) == size;
                assert(entry_extent(d, k) == size);
                assert forall|i: int| 0 <= i < num_tables(d) implies #[trigger] entry_extent(d, i)
                    <= size by {
                    assert(extent(tables[i]) <= size);
                }
            }
            let text = description.to_owned();
            Ok(SignatureResult {
                offset,
                description: text,
                confidence: Confidence::High,
                size,
            })
        },
        None => {
            proof {
                assert(lists_tag(d, head_tag()));
                if tables.len() > 0 {
                    let k = choose|k: int|
                        0 <= k < tables.len() && extent(#[trigger] tables[k]) > usize::MAX;
                    assert(entry_extent(d, k) > usize::MAX);
                }
            }
            Err(SignatureError)
        },
    }
}

} // verus!
