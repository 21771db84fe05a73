use brush::ply::{PlyFormat, PlyHeaderError, UpAxis};
use brush::header_scan::header_numbers_fit_bytes;
use brush::ply_header::{read_ply_layout, PlyReadError};

#[test]
fn plain_ply_header() {
    let bytes = b"ply\nformat binary_little_endian 1.0\ncomment Vertical Axis: z\nelement vertex 2\nproperty float x\nproperty float y\nproperty float z\nend_header\n\x00\x00";
    let layout = read_ply_layout(bytes).ok().expect("header");
    assert_eq!(layout.format, PlyFormat::Ply);
    assert_eq!(layout.up_axis, Some(UpAxis::Z));
    assert_eq!(layout.header.elements.len(), 1);
    assert_eq!(layout.header.elements[0].name, "vertex");
    assert_eq!(layout.header.elements[0].count, 2);
    assert_eq!(layout.header.elements[0].properties, vec!["x", "y", "z"]);
}

#[test]
fn chunked_ply_header() {
    let bytes = b"ply\nformat binary_little_endian 1.0\nelement chunk 1\nproperty float min_x\nelement vertex 256\nproperty uint packed_position\nend_header\n";
    let layout = read_ply_layout(bytes).ok().expect("header");
    assert_eq!(layout.format, PlyFormat::SuperSplatCompressed);
    assert_eq!(layout.up_axis, None);
    assert_eq!(layout.header.elements[1].properties, vec!["packed_position"]);
}

#[test]
fn delta_ply_header() {
    let bytes = b"ply\nformat binary_little_endian 1.0\nelement vertex 1\nproperty float x\nelement delta_vertex_ 1\nproperty float x\nend_header\n";
    assert_eq!(read_ply_layout(bytes).ok().map(|l| l.format), Some(PlyFormat::Brush4DCompressed));
}

#[test]
fn unknown_and_invalid_headers() {
    let bytes = b"ply\nformat ascii 1.0\nelement face 1\nproperty list uchar int vertex_indices\nend_header\n";
    assert!(matches!(read_ply_layout(bytes), Err(PlyReadError::Format(PlyHeaderError::UnknownFormat))));
    assert!(matches!(read_ply_layout(b"PK\x03\x04"), Err(PlyReadError::InvalidHeader)));
    assert!(matches!(read_ply_layout(b"ply\nelement vertex 1\nend_header\n"), Err(PlyReadError::InvalidHeader)));
}

#[test]
fn oversized_header_numbers_are_refused() {
    let bytes = b"ply\nformat ascii 1.0\nelement vertex 99999999999999999999\nend_header\n";
    assert!(matches!(read_ply_layout(bytes), Err(PlyReadError::InvalidHeader)));
    let bytes = b"ply\nformat binary_little_endian 1.99999999999999999999\nelement vertex 1\nend_header\n";
    assert!(matches!(read_ply_layout(bytes), Err(PlyReadError::InvalidHeader)));
    let bytes = b"ply\nformat binary_big_endian 18446744073709551616.0\nend_header\n";
    assert!(matches!(read_ply_layout(bytes), Err(PlyReadError::InvalidHeader)));
}

#[test]
fn header_number_scan() {
    use_scan();
}

fn use_scan() {
    let ok = b"ply\nformat ascii 1.0\nelement vertex 18446744073709551615\nend_header\n";
    assert!(header_numbers_fit_bytes(ok));
    let big = b"ply\nformat ascii 1.0\nelement vertex 18446744073709551616\nend_header\n";
    assert!(!header_numbers_fit_bytes(big));
    let after_end = b"ply\nformat ascii 1.0\nend_header\nelement vertex 99999999999999999999\n";
    assert!(header_numbers_fit_bytes(after_end));
    let no_name = b"ply\nelement 99999999999999999999\n";
    assert!(header_numbers_fit_bytes(no_name));
    let tabs = b"ply\nelement\tv-1\t99999999999999999999\n";
    assert!(!header_numbers_fit_bytes(tabs));
}
