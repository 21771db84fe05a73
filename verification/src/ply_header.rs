//! Reading a PLY header with `ply_rs`, and deciding from it which layout the
//! file has and which axis is up.

use vstd::prelude::*;
use crate::header_scan::{header_numbers_fit, header_numbers_fit_bytes};
use crate::ply::{
    decide_ply_format, ply_format_of, up_axis, up_axis_of, PlyElementInfo, PlyFormat,
    PlyHeaderError, PlyHeaderInfo, UpAxis,
};

verus! {

/// An element of a header as plain values: name, record count, property
/// names in order.
pub type ElementView = (Seq<char>, usize, Seq<Seq<char>>);

/// A header as plain values: its elements in order, and its comments.
pub type HeaderView = (Seq<ElementView>, Seq<Seq<char>>);

/// The plain values of an element.
pub open spec fn element_view(e: PlyElementInfo) -> ElementView {
    (e.name@, e.count, e.properties@.map_values(|p: String| p@))
}

/// The plain values of a header.
pub open spec fn header_view(h: PlyHeaderInfo) -> HeaderView {
    (h.elements@.map_values(|e: PlyElementInfo| element_view(e)), h.comments@.map_values(
        |c: String| c@,
    ))
}

/// The header `ply_rs` reads from the start of these bytes, if it reads one.
pub uninterp spec fn ply_header_of(bytes: Seq<u8>) -> Option<HeaderView>;

/// Calls `ply_rs::parser::Parser::read_header` on the bytes, and takes the
/// elements (in header order, with their property names in order) and the
/// comments of the header it returns; `None` when it returns an error. The
/// header grammar reads element counts and format versions as `u64` and
/// panics on larger numbers, so such headers are ruled out.
#[verifier::external_body]
fn read_header(bytes: &[u8]) -> (r: Option<PlyHeaderInfo>)
    requires
        header_numbers_fit(bytes@),
    ensures
        r matches Some(h) ==> ply_header_of(bytes@) == Some(header_view(h)),
        r is None ==> ply_header_of(bytes@) is None,
{
    let mut reader = std::io::Cursor::new(bytes);
    let parser = ply_rs::parser::Parser::<ply_rs::ply::DefaultElement>::new();
    let header = parser.read_header(&mut reader).ok()?;
    let elements = header.elements.values().map(|e| PlyElementInfo {
        name: e.name.clone(),
        count: e.count,
        properties: e.properties.values().map(|p| p.name.clone()).collect(),
    });
    Some(PlyHeaderInfo { elements: elements.collect(), comments: header.comments.clone() })
}

/// What the start of a PLY file says about reading it.
pub struct PlyLayout {
    /// The header.
    pub header: PlyHeaderInfo,
    /// The layout of the vertices.
    pub format: PlyFormat,
    /// The axis the comments name as up, if any.
    pub up_axis: Option<UpAxis>,
}

/// Why a PLY file cannot be read.
#[derive(Debug, Clone, Copy, PartialEq, Eq, Structural)]
pub enum PlyReadError {
    /// No valid header at the start of the file (also when it holds an
    /// element count or format version too large for a `u64`).
    InvalidHeader,
    /// The header describes no layout the import understands.
    Format(PlyHeaderError),
}

/// Reads the header at the start of `bytes` and decides the file's layout
/// and up axis: the header's numbers must fit a `u64`, the header must
/// parse, and it must describe a known layout.
pub fn read_ply_layout(bytes: &[u8]) -> (r: Result<PlyLayout, PlyReadError>)
    ensures
        !header_numbers_fit(bytes@) ==> r matches Err(PlyReadError::InvalidHeader),
        header_numbers_fit(bytes@) ==> match (r, ply_header_of(bytes@)) {
            (Ok(l), Some(hv)) => {
                &&& hv == header_view(l.header)
                &&& ply_format_of(l.header) == Ok::<PlyFormat, PlyHeaderError>(l.format)
                &&& l.up_axis == up_axis_of(l.header.comments@.map_values(|c: String| c@))
            },
            (Err(PlyReadError::InvalidHeader), None) => true,
            (Err(PlyReadError::Format(e)), Some(hv)) => exists|h: PlyHeaderInfo|
                header_view(h) == hv && ply_format_of(h) == Err::<PlyFormat, PlyHeaderError>(e),
            _ => false,
        },
{
    if !header_numbers_fit_bytes(bytes) {
        return Err(PlyReadError::InvalidHeader);
    }
    let header = match read_header(bytes) {
        Some(h) => h,
        None => return Err(PlyReadError::InvalidHeader),
    };
    let axis = up_axis(&header.comments);
    match decide_ply_format(&header) {
        Ok(format) => Ok(PlyLayout { header, format, up_axis: axis }),
        Err(e) => Err(PlyReadError::Format(e)),
    }
}

} // verus!
