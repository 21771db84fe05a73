//! Where training data comes from: parsing a source argument, recognising
//! downloaded or picked data by its first bytes, and completing URLs.

use vstd::prelude::*;
use crate::paths::{extension, extension_of};
use crate::text::{
    chars_of, has_prefix, lowercase, same_chars, starts_with, string_from_chars, to_lowercase,
};

verus! {

/// A source to load data from.
#[derive(Debug, Clone)]
pub enum DataSource {
    /// Ask the user to pick a file.
    PickFile,
    /// Ask the user to pick a directory.
    PickDirectory,
    /// Download from a URL.
    Url(String),
    /// Read a local path.
    Path(String),
}

/// Parses a source argument (compared after lower-casing): `pick-file`,
/// `pick-directory` or `dir`, an `http://` or `https://` URL, or a path.
/// `path_accessible` is whether asking the file system whether the
/// lower-cased argument exists succeeded (it succeeds for a missing path too);
/// when it did not, the argument is refused with a message naming it.
pub fn parse_source(s: &str, path_accessible: bool) -> (r: Result<DataSource, String>)
    ensures
        ({
            let l = lowercase(s@);
            match r {
                Ok(DataSource::PickFile) => l == "pick-file"@,
                Ok(DataSource::PickDirectory) => l == "pick-directory"@ || l == "dir"@,
                Ok(DataSource::Url(u)) => u@ == l && l != "pick-file"@ && l != "pick-directory"@
                    && l != "dir"@ && (has_prefix(l, "http://"@) || has_prefix(l, "https://"@)),
                Ok(DataSource::Path(p)) => p@ == l && path_accessible && l != "pick-file"@
                    && l != "pick-directory"@ && l != "dir"@ && !has_prefix(l, "http://"@)
                    && !has_prefix(l, "https://"@),
                Err(m) => m@ == "Invalid data source. Can't find "@ + l && !path_accessible
                    && l != "pick-file"@ && l != "pick-directory"@ && l != "dir"@
                    && !has_prefix(l, "http://"@) && !has_prefix(l, "https://"@),
            }
        }),
{
    let lower = to_lowercase(s);
    let l = chars_of(lower.as_str());
    if same_chars(&l, &chars_of("pick-file")) {
        Ok(DataSource::PickFile)
    } else if same_chars(&l, &chars_of("pick-directory")) || same_chars(&l, &chars_of("dir")) {
        Ok(DataSource::PickDirectory)
    } else if starts_with(&l, &chars_of("http://")) || starts_with(&l, &chars_of("https://")) {
        Ok(DataSource::Url(string_from_chars(&l)))
    } else if path_accessible {
        Ok(DataSource::Path(string_from_chars(&l)))
    } else {
        let mut m = chars_of("Invalid data source. Can't find ");
        let ghost head = m@;
        let mut i: usize = 0;
        while i < l.len()
            invariant
                i <= l.len(),
                m@ == head + l@.take(i as int),
            decreases l.len() - i,
        {
            m.push(l[i]);
            i = i + 1;
            assert(m@ =~= head + l@.take(i as int));
        }
        assert(l@.take(l@.len() as int) =~= l@);
        Err(string_from_chars(&m))
    }
}

/// What the first bytes of some data say it is.
#[derive(Debug, Clone)]
pub enum PeekKind {
    /// Starts with `ply`: a single PLY file.
    Ply,
    /// Starts with `PK`: a zip archive.
    Zip,
    /// Starts with `<!DOCTYPE html>`: a web page rather than data.
    Html,
    /// Starts with `BRUSH_PATH`: a local path follows (these bytes).
    BrushPath(Vec<u8>),
    /// Anything else.
    Unknown,
}

/// `p` is a prefix of `s`.
pub open spec fn has_byte_prefix(s: Seq<u8>, p: Seq<u8>) -> bool {
    p.len() <= s.len() && s.take(p.len() as int) == p
}

/// `ply`
pub open spec fn ply_magic() -> Seq<u8> {
    seq![0x70u8, 0x6cu8, 0x79u8]
}

/// `PK`
pub open spec fn zip_magic() -> Seq<u8> {
    seq![0x50u8, 0x4bu8]
}

/// `<!DOCTYPE html>`
pub open spec fn html_magic() -> Seq<u8> {
    seq![0x3cu8, 0x21u8, 0x44u8, 0x4fu8, 0x43u8, 0x54u8, 0x59u8, 0x50u8, 0x45u8, 0x20u8, 0x68u8,
        0x74u8, 0x6du8, 0x6cu8, 0x3eu8]
}

/// `BRUSH_PATH`
pub open spec fn brush_path_magic() -> Seq<u8> {
    seq![0x42u8, 0x52u8, 0x55u8, 0x53u8, 0x48u8, 0x5fu8, 0x50u8, 0x41u8, 0x54u8, 0x48u8]
}

fn bytes_start_with(s: &[u8], p: &[u8]) -> (r: bool)
    ensures
        r == has_byte_prefix(s@, p@),
{
    if p.len() > s.len() {
        return false;
    }
    let mut i: usize = 0;
    while i < p.len()
        invariant
            p@.len() <= s@.len(),
            i <= p@.len(),
            forall|j: int| 0 <= j < i ==> s@[j] == p@[j],
        decreases p.len() - i,
    {
        if s[i] != p[i] {
            assert(s@.take(p@.len() as int)[i as int] != p@[i as int]);
            return false;
        }
        i = i + 1;
    }
    assert(s@.take(p@.len() as int) =~= p@);
    true
}

/// Recognises data by its first bytes: `ply`, `PK` (zip), `<!DOCTYPE html>`,
/// or `BRUSH_PATH` followed by a path, in that order of precedence.
pub fn classify_peek(peek: &[u8]) -> (r: PeekKind)
    ensures
        (r is Ply) == has_byte_prefix(peek@, ply_magic()),
        (r is Zip) == (!has_byte_prefix(peek@, ply_magic()) && has_byte_prefix(peek@, zip_magic())),
        (r is Html) == (!has_byte_prefix(peek@, ply_magic()) && !has_byte_prefix(peek@, zip_magic())
            && has_byte_prefix(peek@, html_magic())),
        (r is BrushPath) == (!has_byte_prefix(peek@, ply_magic()) && !has_byte_prefix(peek@, zip_magic())
            && !has_byte_prefix(peek@, html_magic()) && has_byte_prefix(peek@, brush_path_magic())),
        r matches PeekKind::BrushPath(rest) ==> rest@ == peek@.skip(brush_path_magic().len() as int),
{
    let ply: [u8; 3] = [0x70, 0x6c, 0x79];
    let zip: [u8; 2] = [0x50, 0x4b];
    let html: [u8; 15] = [0x3c, 0x21, 0x44, 0x4f, 0x43, 0x54, 0x59, 0x50, 0x45, 0x20, 0x68, 0x74,
        0x6d, 0x6c, 0x3e];
    let brush: [u8; 10] = [0x42, 0x52, 0x55, 0x53, 0x48, 0x5f, 0x50, 0x41, 0x54, 0x48];
    assert(ply@ =~= ply_magic());
    assert(zip@ =~= zip_magic());
    assert(html@ =~= html_magic());
    assert(brush@ =~= brush_path_magic());
    if bytes_start_with(peek, &ply) {
        PeekKind::Ply
    } else if bytes_start_with(peek, &zip) {
        PeekKind::Zip
    } else if bytes_start_with(peek, &html) {
        PeekKind::Html
    } else if bytes_start_with(peek, &brush) {
        let mut rest: Vec<u8> = Vec::new();
        let mut i: usize = 10;
        while i < peek.len()
            invariant
                10 <= i <= peek@.len(),
                rest@ == peek@.subrange(10, i as int),
            decreases peek.len() - i,
        {
            rest.push(peek[i]);
            i = i + 1;
            assert(rest@ =~= peek@.subrange(10, i as int));
        }
        assert(rest@ =~= peek@.skip(10));
        PeekKind::BrushPath(rest)
    } else {
        PeekKind::Unknown
    }
}


/// `https://` put in front of a URL unless it has a scheme already.
pub open spec fn with_scheme(url: Seq<char>) -> Seq<char> {
    if has_prefix(url, "http://"@) || has_prefix(url, "https://"@) {
        url
    } else {
        "https://"@ + url
    }
}

/// Completing a URL is idempotent: a completed URL has a scheme, and
/// completing it again changes nothing.
pub proof fn lemma_scheme_idempotent(url: Seq<char>)
    ensures
        has_prefix(with_scheme(url), "https://"@) || has_prefix(with_scheme(url), "http://"@),
        with_scheme(with_scheme(url)) == with_scheme(url),
{
    if !(has_prefix(url, "http://"@) || has_prefix(url, "https://"@)) {
        let u = "https://"@ + url;
        assert(u.take("https://"@.len() as int) =~= "https://"@);
    }
}

/// A URL with a scheme: `https://` is put in front unless it starts with
/// `http://` or `https://` already.
pub fn with_https_scheme(url: &str) -> (r: String)
    ensures
        r@ == with_scheme(url@),
{
    let u = chars_of(url);
    if starts_with(&u, &chars_of("http://")) || starts_with(&u, &chars_of("https://")) {
        return string_from_chars(&u);
    }
    let mut m = chars_of("https://");
    let ghost head = m@;
    let mut i: usize = 0;
    while i < u.len()
        invariant
            i <= u.len(),
            m@ == head + u@.take(i as int),
        decreases u.len() - i,
    {
        m.push(u[i]);
        i = i + 1;
        assert(m@ =~= head + u@.take(i as int));
    }
    assert(u@.take(u@.len() as int) =~= u@);
    string_from_chars(&m)
}

/// `p` names a `.ply` file.
pub open spec fn is_ply_path(p: Seq<char>) -> bool {
    extension_of(p) == Some("ply"@)
}

/// Whether every path names a `.ply` file (then the data is only viewed,
/// otherwise it is trained on).
pub fn all_ply(paths: &Vec<String>) -> (r: bool)
    ensures
        r == (forall|i: int| 0 <= i < paths@.len() ==> is_ply_path(#[trigger] paths@[i]@)),
{
    let ply = chars_of("ply");
    let mut i: usize = 0;
    while i < paths.len()
        invariant
            i <= paths@.len(),
            ply@ == "ply"@,
            forall|j: int| 0 <= j < i ==> is_ply_path(#[trigger] paths@[j]@),
        decreases paths.len() - i,
    {
        let ok = match extension(paths[i].as_str()) {
            Some(e) => same_chars(&chars_of(e.as_str()), &ply),
            None => false,
        };
        if !ok {
            assert(!is_ply_path(paths@[i as int]@));
            return false;
        }
        i = i + 1;
    }
    true
}

/// The frame number and frame count shown while viewing the `index`-th of
/// `path_count` PLY files: a single file reports its own animation frames,
/// several files count themselves as frames.
pub fn view_frame(index: usize, path_count: usize, current_frame: u32, frame_count: u32) -> (r: (usize, usize))
    ensures
        r == (if path_count == 1 {
            (current_frame as usize, frame_count as usize)
        } else {
            (index, path_count)
        }),
{
    if path_count == 1 {
        (current_frame as usize, frame_count as usize)
    } else {
        (index, path_count)
    }
}

} // verus!
