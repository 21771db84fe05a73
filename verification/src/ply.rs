//! Decisions taken while importing a PLY splat file: which layout the header
//! describes, which up axis its comments name, where each vertex property
//! goes, and which elements are read.
//!
//! The header and the values themselves are read by the caller; this module
//! works on the names and counts the header declares.

use vstd::prelude::*;
use crate::size_format::{dec_chars, digit_char};
use crate::text::{
    all_digits, chars_of, digits_value, has_prefix, is_digit, lowercase, parse_unsigned,
    parse_unsigned_chars, same_chars, unsigned_digits,
    slice_chars, starts_with, to_lowercase,
};

verus! {

/// One element declared in a PLY header.
pub struct PlyElementInfo {
    /// The element's name.
    pub name: String,
    /// How many records of it follow.
    pub count: usize,
    /// The names of its properties, in order.
    pub properties: Vec<String>,
}

/// The parts of a PLY header that the import looks at.
pub struct PlyHeaderInfo {
    /// Declared elements, in order.
    pub elements: Vec<PlyElementInfo>,
    /// Header comments, in order.
    pub comments: Vec<String>,
}

/// The PLY layouts the import understands.
#[derive(Debug, Clone, Copy, PartialEq, Eq, Structural)]
pub enum PlyFormat {
    /// A plain list of vertices.
    Ply,
    /// A base frame followed by quantized per-frame deltas.
    Brush4DCompressed,
    /// Chunked, quantized vertices (the SuperSplat layout).
    SuperSplatCompressed,
}

/// Why a PLY header cannot be imported.
#[derive(Debug, Clone, Copy, PartialEq, Eq, Structural)]
pub enum PlyHeaderError {
    /// No element named `vertex`: the layout is unknown.
    UnknownFormat,
    /// The header declares no element at all.
    NoElements,
    /// The first element of a plain PLY is not `vertex`.
    FirstNotVertex,
    /// Fewer elements than a compressed PLY needs.
    NotEnoughElements,
    /// The first element of a compressed PLY is not `chunk`.
    FirstNotChunk,
    /// The second element of a compressed PLY is not `vertex`.
    SecondNotVertex,
    /// The third element of a compressed PLY is not `sh`.
    ThirdNotSh,
}

/// The axis that a `vertical axis:` comment names as up.
#[derive(Debug, Clone, Copy, PartialEq, Eq, Structural)]
pub enum UpAxis {
    /// `x`: the positive X axis.
    X,
    /// `y`: the negative Y axis.
    NegY,
    /// `z`: the positive Z axis.
    Z,
}

/// Some element of the header has this name.
pub open spec fn has_element(h: PlyHeaderInfo, name: Seq<char>) -> bool {
    exists|i: int| 0 <= i < h.elements@.len() && (#[trigger] h.elements@[i]).name@ == name
}

/// The layout a header describes.
pub open spec fn ply_format_of(h: PlyHeaderInfo) -> Result<PlyFormat, PlyHeaderError> {
    let has_vertex = has_element(h, "vertex"@);
    if has_vertex && h.elements@.len() > 0 && h.elements@[0].name@ == "chunk"@ {
        Ok(PlyFormat::SuperSplatCompressed)
    } else if has_vertex && has_element(h, "delta_vertex_"@) {
        Ok(PlyFormat::Brush4DCompressed)
    } else if has_vertex {
        Ok(PlyFormat::Ply)
    } else {
        Err(PlyHeaderError::UnknownFormat)
    }
}

/// The up axis one comment names, if any.
pub open spec fn comment_axis(c: Seq<char>) -> Option<UpAxis> {
    let l = lowercase(c);
    let p = "vertical axis: "@;
    if has_prefix(l, p) {
        let rest = l.skip(p.len() as int);
        if rest == "x"@ {
            Some(UpAxis::X)
        } else if rest == "y"@ {
            Some(UpAxis::NegY)
        } else if rest == "z"@ {
            Some(UpAxis::Z)
        } else {
            None
        }
    } else {
        None
    }
}

/// The up axis named by the last comment that names one.
pub open spec fn up_axis_of(comments: Seq<Seq<char>>) -> Option<UpAxis>
    decreases comments.len(),
{
    if comments.len() == 0 {
        None
    } else {
        match comment_axis(comments.last()) {
            Some(a) => Some(a),
            None => up_axis_of(comments.drop_last()),
        }
    }
}

fn has_element_named(h: &PlyHeaderInfo, name: &Vec<char>) -> (r: bool)
    ensures
        r == has_element(*h, name@),
{
    let mut i: usize = 0;
    while i < h.elements.len()
        invariant
            i <= h.elements@.len(),
            forall|j: int| 0 <= j < i ==> (#[trigger] h.elements@[j]).name@ != name@,
        decreases h.elements.len() - i,
    {
        let n = chars_of(h.elements[i].name.as_str());
        if same_chars(&n, name) {
            return true;
        }
        i = i + 1;
    }
    false
}

fn element_named(h: &PlyHeaderInfo, i: usize, name: &Vec<char>) -> (r: bool)
    requires
        i < h.elements@.len(),
    ensures
        r == (h.elements@[i as int].name@ == name@),
{
    let n = chars_of(h.elements[i].name.as_str());
    same_chars(&n, name)
}

/// Decides which layout a PLY header describes: chunked when the first
/// element is `chunk`, delta-compressed when some element is named
/// `delta_vertex_`, plain otherwise; a header without a `vertex` element is
/// refused.
pub fn decide_ply_format(h: &PlyHeaderInfo) -> (r: Result<PlyFormat, PlyHeaderError>)
    ensures
        r == ply_format_of(*h),
{
    let has_vertex = has_element_named(h, &chars_of("vertex"));
    if has_vertex && h.elements.len() > 0 && element_named(h, 0, &chars_of("chunk")) {
        Ok(PlyFormat::SuperSplatCompressed)
    } else if has_vertex && has_element_named(h, &chars_of("delta_vertex_")) {
        Ok(PlyFormat::Brush4DCompressed)
    } else if has_vertex {
        Ok(PlyFormat::Ply)
    } else {
        Err(PlyHeaderError::UnknownFormat)
    }
}

fn axis_of_comment(c: &str) -> (r: Option<UpAxis>)
    ensures
        r == comment_axis(c@),
{
    let l = chars_of(to_lowercase(c).as_str());
    let p = chars_of("vertical axis: ");
    if !starts_with(&l, &p) {
        return None;
    }
    let rest = slice_chars(&l, p.len(), l.len());
    assert(rest@ =~= l@.skip(p@.len() as int));
    if same_chars(&rest, &chars_of("x")) {
        Some(UpAxis::X)
    } else if same_chars(&rest, &chars_of("y")) {
        Some(UpAxis::NegY)
    } else if same_chars(&rest, &chars_of("z")) {
        Some(UpAxis::Z)
    } else {
        None
    }
}

/// The up axis named by the last `vertical axis: x|y|z` comment (compared
/// after lower-casing), if any.
pub fn up_axis(comments: &Vec<String>) -> (r: Option<UpAxis>)
    ensures
        r == up_axis_of(comments@.map_values(|c: String| c@)),
{
    let ghost cs = comments@.map_values(|c: String| c@);
    let mut i: usize = comments.len();
    assert(cs.take(cs.len() as int) =~= cs);
    while i > 0
        invariant
            i <= comments@.len(),
            cs == comments@.map_values(|c: String| c@),
            up_axis_of(cs) == up_axis_of(cs.take(i as int)),
        decreases i,
    {
        let ghost t = cs.take(i as int);
        assert(t.last() == comments@[i - 1]@);
        assert(t.drop_last() =~= cs.take(i - 1));
        let a = axis_of_comment(comments[i - 1].as_str());
        if a.is_some() {
            return a;
        }
        i = i - 1;
    }
    assert(cs.take(0) =~= Seq::<Seq<char>>::empty());
    None
}


/// The packed (quantized) vertex properties.
#[derive(Debug, Clone, Copy, PartialEq, Eq, Structural)]
pub enum PackedField {
    /// `packed_position`: 11-10-11 bit normalized position.
    Position,
    /// `packed_rotation`: 2-bit largest index and three 10-bit components.
    Rotation,
    /// `packed_scale`: 11-10-11 bit normalized log scale.
    Scale,
    /// `packed_color`: 8-8-8-8 bit color and opacity.
    Color,
}

/// Where a vertex property of a given name goes.
#[derive(Debug, Clone, Copy, PartialEq, Eq, Structural)]
pub enum PropertyKey {
    /// One of the packed properties.
    Packed(PackedField),
    /// `x`, `y`, `z`: a mean component.
    Mean(u8),
    /// `scale_0..2`: a log-scale component.
    LogScale(u8),
    /// `opacity`.
    Opacity,
    /// `rot_0..3`: rotation, `rot_0` being the scalar part.
    Rot(u8),
    /// `f_dc_0..2`: a base spherical-harmonics coefficient.
    ShDc(u8),
    /// `red`, `green`, `blue`: a color channel, converted to a base coefficient.
    Color(u8),
    /// `f_rest_<n>`: a higher spherical-harmonics coefficient, with its index
    /// when the suffix parses.
    ShRest(Option<u64>),
    /// Anything else.
    Other,
}

/// Where the property named `k` goes; `f_rest_` indices parse up to
/// `index_max`.
pub open spec fn property_key_of(k: Seq<char>, index_max: nat) -> PropertyKey {
    if k == "packed_position"@ {
        PropertyKey::Packed(PackedField::Position)
    } else if k == "packed_rotation"@ {
        PropertyKey::Packed(PackedField::Rotation)
    } else if k == "packed_scale"@ {
        PropertyKey::Packed(PackedField::Scale)
    } else if k == "packed_color"@ {
        PropertyKey::Packed(PackedField::Color)
    } else if k == "x"@ {
        PropertyKey::Mean(0)
    } else if k == "y"@ {
        PropertyKey::Mean(1)
    } else if k == "z"@ {
        PropertyKey::Mean(2)
    } else if k == "scale_0"@ {
        PropertyKey::LogScale(0)
    } else if k == "scale_1"@ {
        PropertyKey::LogScale(1)
    } else if k == "scale_2"@ {
        PropertyKey::LogScale(2)
    } else if k == "opacity"@ {
        PropertyKey::Opacity
    } else if k == "rot_0"@ {
        PropertyKey::Rot(0)
    } else if k == "rot_1"@ {
        PropertyKey::Rot(1)
    } else if k == "rot_2"@ {
        PropertyKey::Rot(2)
    } else if k == "rot_3"@ {
        PropertyKey::Rot(3)
    } else if k == "f_dc_0"@ {
        PropertyKey::ShDc(0)
    } else if k == "f_dc_1"@ {
        PropertyKey::ShDc(1)
    } else if k == "f_dc_2"@ {
        PropertyKey::ShDc(2)
    } else if k == "red"@ {
        PropertyKey::Color(0)
    } else if k == "green"@ {
        PropertyKey::Color(1)
    } else if k == "blue"@ {
        PropertyKey::Color(2)
    } else if has_prefix(k, "f_rest_"@) {
        PropertyKey::ShRest(
            match parse_unsigned(k.skip("f_rest_"@.len() as int), index_max) {
                Some(v) => Some(v as u64),
                None => None,
            },
        )
    } else {
        PropertyKey::Other
    }
}

/// The property a vertex reader reads back for `k`: the plain float fields
/// only (no packed fields, no color channels), with `f_rest_` indices up to
/// `usize::MAX`.
pub open spec fn readable_key_of(k: Seq<char>) -> Option<PropertyKey> {
    match property_key_of(k, usize::MAX as nat) {
        PropertyKey::Packed(_) | PropertyKey::Color(_) | PropertyKey::Other => None,
        PropertyKey::ShRest(None) => None,
        key => Some(key),
    }
}

fn key_is(k: &Vec<char>, lit: &str) -> (r: bool)
    ensures
        r == (k@ == lit@),
{
    same_chars(k, &chars_of(lit))
}

/// Where a vertex property named `key` is stored when it is written; the
/// index of an `f_rest_` property is read as a decimal `u32`.
pub fn property_key(key: &str) -> (r: PropertyKey)
    ensures
        r == property_key_of(key@, u32::MAX as nat),
{
    classify_key(key, u32::MAX as u64)
}

/// Which field a vertex reader returns for `key`, if any; the index of an
/// `f_rest_` property is read as a decimal `usize`.
pub fn readable_key(key: &str) -> (r: Option<PropertyKey>)
    ensures
        r == readable_key_of(key@),
{
    match classify_key(key, usize::MAX as u64) {
        PropertyKey::Packed(_) | PropertyKey::Color(_) | PropertyKey::Other => None,
        PropertyKey::ShRest(None) => None,
        k => Some(k),
    }
}

fn classify_key(key: &str, index_max: u64) -> (r: PropertyKey)
    ensures
        r == property_key_of(key@, index_max as nat),
{
    let k = chars_of(key);
    if key_is(&k, "packed_position") {
        PropertyKey::Packed(PackedField::Position)
    } else if key_is(&k, "packed_rotation") {
        PropertyKey::Packed(PackedField::Rotation)
    } else if key_is(&k, "packed_scale") {
        PropertyKey::Packed(PackedField::Scale)
    } else if key_is(&k, "packed_color") {
        PropertyKey::Packed(PackedField::Color)
    } else if key_is(&k, "x") {
        PropertyKey::Mean(0)
    } else if key_is(&k, "y") {
        PropertyKey::Mean(1)
    } else if key_is(&k, "z") {
        PropertyKey::Mean(2)
    } else if key_is(&k, "scale_0") {
        PropertyKey::LogScale(0)
    } else if key_is(&k, "scale_1") {
        PropertyKey::LogScale(1)
    } else if key_is(&k, "scale_2") {
        PropertyKey::LogScale(2)
    } else if key_is(&k, "opacity") {
        PropertyKey::Opacity
    } else if key_is(&k, "rot_0") {
        PropertyKey::Rot(0)
    } else if key_is(&k, "rot_1") {
        PropertyKey::Rot(1)
    } else if key_is(&k, "rot_2") {
        PropertyKey::Rot(2)
    } else if key_is(&k, "rot_3") {
        PropertyKey::Rot(3)
    } else if key_is(&k, "f_dc_0") {
        PropertyKey::ShDc(0)
    } else if key_is(&k, "f_dc_1") {
        PropertyKey::ShDc(1)
    } else if key_is(&k, "f_dc_2") {
        PropertyKey::ShDc(2)
    } else if key_is(&k, "red") {
        PropertyKey::Color(0)
    } else if key_is(&k, "green") {
        PropertyKey::Color(1)
    } else if key_is(&k, "blue") {
        PropertyKey::Color(2)
    } else {
        let pre = chars_of("f_rest_");
        if starts_with(&k, &pre) {
            let rest = slice_chars(&k, pre.len(), k.len());
            assert(rest@ =~= k@.skip(pre@.len() as int));
            let idx = parse_unsigned_chars(&rest, index_max);
            PropertyKey::ShRest(idx)
        } else {
            PropertyKey::Other
        }
    }
}

/// The decimal digit for an index below 10.
pub open spec fn index_char(k: nat) -> char {
    (k + 48) as char
}

/// Indexed vertex properties go to the component of their index: `rot_k`
/// (k below 4) to rotation component `k` (`rot_0` the scalar part, then x,
/// y, z), `scale_k` to log-scale component `k`, `f_dc_k` to base
/// coefficient `k` (k below 3), the `k`-th of `x`, `y`, `z` to mean
/// component `k`, and the `k`-th of `red`, `green`, `blue` to color channel
/// `k`, whatever the limit on `f_rest_` indices.
pub proof fn lemma_indexed_properties_keep_their_index(k: nat, index_max: nat)
    ensures
        k < 4 ==> property_key_of("rot_"@ + seq![index_char(k)], index_max) == PropertyKey::Rot(
            k as u8,
        ),
        k < 3 ==> property_key_of("scale_"@ + seq![index_char(k)], index_max)
            == PropertyKey::LogScale(k as u8),
        k < 3 ==> property_key_of("f_dc_"@ + seq![index_char(k)], index_max) == PropertyKey::ShDc(
            k as u8,
        ),
        k < 3 ==> property_key_of(seq![seq!['x', 'y', 'z'][k as int]], index_max)
            == PropertyKey::Mean(k as u8),
        k < 3 ==> property_key_of(seq!["red"@, "green"@, "blue"@][k as int], index_max)
            == PropertyKey::Color(k as u8),
{
    reveal_strlit("packed_position");
    reveal_strlit("packed_rotation");
    reveal_strlit("packed_scale");
    reveal_strlit("packed_color");
    reveal_strlit("x");
    reveal_strlit("y");
    reveal_strlit("z");
    reveal_strlit("scale_");
    reveal_strlit("scale_0");
    reveal_strlit("scale_1");
    reveal_strlit("scale_2");
    reveal_strlit("opacity");
    reveal_strlit("rot_");
    reveal_strlit("rot_0");
    reveal_strlit("rot_1");
    reveal_strlit("rot_2");
    reveal_strlit("rot_3");
    reveal_strlit("f_dc_");
    reveal_strlit("f_dc_0");
    reveal_strlit("f_dc_1");
    reveal_strlit("f_dc_2");
    reveal_strlit("red");
    reveal_strlit("green");
    reveal_strlit("blue");
    assert("rot_0"@[4] == '0' && "rot_1"@[4] == '1' && "rot_2"@[4] == '2' && "rot_3"@[4] == '3');
    assert("scale_0"@[6] == '0' && "scale_1"@[6] == '1' && "scale_2"@[6] == '2');
    assert("f_dc_0"@[5] == '0' && "f_dc_1"@[5] == '1' && "f_dc_2"@[5] == '2');
    assert("opacity"@[0] == 'o');
    assert("x"@[0] == 'x' && "y"@[0] == 'y' && "z"@[0] == 'z');
    assert("red"@[0] == 'r' && "green"@[0] == 'g' && "blue"@[0] == 'b');
    if k == 0 {
        assert("rot_"@ + seq![index_char(k)] =~= "rot_0"@);
        assert("scale_"@ + seq![index_char(k)] =~= "scale_0"@);
        assert("f_dc_"@ + seq![index_char(k)] =~= "f_dc_0"@);
        assert(seq![seq!['x', 'y', 'z'][k as int]] =~= "x"@);
    } else if k == 1 {
        assert("rot_"@ + seq![index_char(k)] =~= "rot_1"@);
        assert("scale_"@ + seq![index_char(k)] =~= "scale_1"@);
        assert("f_dc_"@ + seq![index_char(k)] =~= "f_dc_1"@);
        assert(seq![seq!['x', 'y', 'z'][k as int]] =~= "y"@);
    } else if k == 2 {
        assert("rot_"@ + seq![index_char(k)] =~= "rot_2"@);
        assert("scale_"@ + seq![index_char(k)] =~= "scale_2"@);
        assert("f_dc_"@ + seq![index_char(k)] =~= "f_dc_2"@);
        assert(seq![seq!['x', 'y', 'z'][k as int]] =~= "z"@);
    } else if k == 3 {
        assert("rot_"@ + seq![index_char(k)] =~= "rot_3"@);
    }
}

/// The decimal text of `n` is digits that read back as `n`.
proof fn lemma_dec_chars_read_back(n: nat)
    ensures
        dec_chars(n).len() > 0,
        all_digits(dec_chars(n)),
        digits_value(dec_chars(n)) == n,
    decreases n,
{
    assert((n % 10) % 10 == n % 10);
    assert(digit_char(n % 10) as int == (n % 10) + 48);
    if n >= 10 {
        lemma_dec_chars_read_back(n / 10);
        let d = dec_chars(n);
        assert(d.drop_last() =~= dec_chars(n / 10));
        assert(d.last() == digit_char(n % 10));
        assert((n / 10) * 10 + n % 10 == n);
        assert(digits_value(d.drop_last()) == n / 10);
        assert(((d.last() as int) - 48) as nat == n % 10);
        assert(digits_value(d) == digits_value(d.drop_last()) * 10 + ((d.last() as int) - 48) as nat);
    } else {
        assert(digit_char(n) as int == n + 48);
        assert(dec_chars(n).drop_last() =~= Seq::<char>::empty());
        assert(dec_chars(n).last() == digit_char(n));
        assert(digits_value(dec_chars(n)) == digits_value(dec_chars(n).drop_last()) * 10 + ((
        dec_chars(n).last() as int) - 48) as nat);
    }
}

/// A higher coefficient named `f_rest_` and the decimal text of `n` goes to
/// coefficient `n`, when `n` is within the index limit.
pub proof fn lemma_rest_property_keeps_its_index(n: nat, index_max: nat)
    requires
        n <= index_max,
        index_max <= u64::MAX,
    ensures
        property_key_of("f_rest_"@ + dec_chars(n), index_max) == PropertyKey::ShRest(
            Some(n as u64),
        ),
{
    reveal_strlit("packed_position");
    reveal_strlit("packed_rotation");
    reveal_strlit("packed_scale");
    reveal_strlit("packed_color");
    reveal_strlit("x");
    reveal_strlit("y");
    reveal_strlit("z");
    reveal_strlit("scale_0");
    reveal_strlit("scale_1");
    reveal_strlit("scale_2");
    reveal_strlit("opacity");
    reveal_strlit("rot_0");
    reveal_strlit("rot_1");
    reveal_strlit("rot_2");
    reveal_strlit("rot_3");
    reveal_strlit("f_dc_0");
    reveal_strlit("f_dc_1");
    reveal_strlit("f_dc_2");
    reveal_strlit("red");
    reveal_strlit("green");
    reveal_strlit("blue");
    reveal_strlit("f_rest_");
    lemma_dec_chars_read_back(n);
    let d = dec_chars(n);
    let k = "f_rest_"@ + d;
    assert(k[0] == 'f' && k[2] == 'r' && k.len() >= 8);
    assert("packed_position"@[0] == 'p' && "packed_rotation"@[0] == 'p');
    assert("packed_scale"@[0] == 'p' && "packed_color"@[0] == 'p');
    assert("f_dc_0"@[2] == 'd' && "f_dc_1"@[2] == 'd' && "f_dc_2"@[2] == 'd');
    assert("scale_0"@[0] == 's' && "scale_1"@[0] == 's' && "scale_2"@[0] == 's');
    assert("opacity"@[0] == 'o');
    assert(k.take(7) =~= "f_rest_"@);
    assert(k.skip(7) =~= d);
    assert(is_digit(d[0]));
    assert(unsigned_digits(d) == d);
}

/// Parsing with a larger limit accepts everything a smaller limit accepts,
/// with the same value.
pub proof fn lemma_parse_unsigned_wider(s: Seq<char>, m1: nat, m2: nat)
    requires
        m1 <= m2,
        parse_unsigned(s, m1) is Some,
    ensures
        parse_unsigned(s, m2) == parse_unsigned(s, m1),
{
}

/// A vertex reader reads back each float field exactly where a vertex writer
/// stored it: for every property name that a write stores in a plain float
/// field, the read looks up that same field.
pub proof fn lemma_read_finds_written_field(k: Seq<char>)
    requires
        match property_key_of(k, u32::MAX as nat) {
            PropertyKey::Packed(_) | PropertyKey::Color(_) | PropertyKey::Other => false,
            PropertyKey::ShRest(idx) => idx is Some,
            _ => true,
        },
    ensures
        readable_key_of(k) == Some(property_key_of(k, u32::MAX as nat)),
{
    if has_prefix(k, "f_rest_"@) {
        let s = k.skip("f_rest_"@.len() as int);
        if parse_unsigned(s, u32::MAX as nat) is Some {
            lemma_parse_unsigned_wider(s, u32::MAX as nat, usize::MAX as nat);
        }
    }
}


/// The coefficients appended for one splat: the three base coefficients, then
/// the higher ones reordered from channel-major (`[channel][coeff]`) to
/// coefficient-major (`[coeff][channel]`). Trailing values that do not fill a
/// whole channel triple are left out.
pub open spec fn interleaved<T>(dc: (T, T, T), rest: Seq<T>) -> Seq<T> {
    let c = rest.len() / 3;
    seq![dc.0, dc.1, dc.2] + Seq::new(3 * c, |k: int| rest[(k % 3) * c + k / 3])
}

/// Appends one splat's spherical-harmonics coefficients in coefficient-major
/// order.
pub fn interleave_coeffs<T: Copy>(dc: (T, T, T), rest: &Vec<T>, out: &mut Vec<T>)
    ensures
        final(out)@ == old(out)@ + interleaved(dc, rest@),
{
    let n = rest.len();
    let c = n / 3;
    let ghost start = old(out)@;
    out.push(dc.0);
    out.push(dc.1);
    out.push(dc.2);
    let ghost head = start + seq![dc.0, dc.1, dc.2];
    assert(out@ =~= head);
    let ghost want = Seq::new(3 * c as nat, |k: int| rest@[(k % 3) * c + k / 3]);
    let mut i: usize = 0;
    while i < c
        invariant
            n == rest@.len(),
            c == rest@.len() / 3,
            i <= c,
            want == Seq::new(3 * c as nat, |k: int| rest@[(k % 3) * c + k / 3]),
            out@ == head + want.take(3 * i),
        decreases c - i,
    {
        let mut j: usize = 0;
        while j < 3
            invariant
                n == rest@.len(),
                c == rest@.len() / 3,
                i < c,
                j <= 3,
                want == Seq::new(3 * c as nat, |k: int| rest@[(k % 3) * c + k / 3]),
                out@ == head + want.take(3 * i + j),
            decreases 3 - j,
        {
            assert(j * c + i < 3 * c) by (nonlinear_arith)
                requires
                    j < 3,
                    i < c,
            ;
            assert(3 * c <= rest@.len()) by (nonlinear_arith)
                requires
                    c == rest@.len() / 3,
            ;
            let ghost k: int = 3 * i + j;
            assert(k % 3 == j && k / 3 == i) by (nonlinear_arith)
                requires
                    k == 3 * i + j,
                    j < 3,
            ;
            assert(k < 3 * c) by (nonlinear_arith)
                requires
                    k == 3 * i + j,
                    j < 3,
                    i < c,
            ;
            assert(j * c + i < rest@.len());
            assert(j * c <= j * c + i);
            let jc: usize = j * c;
            let at: usize = jc + i;
            out.push(rest[at]);
            assert(want[k] == rest@[j * c + i]);
            assert(want.take(k + 1) =~= want.take(k).push(want[k]));
            j = j + 1;
        }
        i = i + 1;
    }
    assert(want.take(3 * c) =~= want);
}

/// The coefficient list after storing `value` at `idx`: when `idx` is not
/// below the length read as a `u32`, the list is first resized to `idx + 1`,
/// new slots holding `fill`.
pub open spec fn stored_rest<T>(old: Seq<T>, idx: nat, value: T, fill: T) -> Seq<T> {
    let n: nat = if idx >= (old.len() as u32) as nat { idx + 1 } else { old.len() };
    Seq::new(n, |j: int| if j == idx { value } else if j < old.len() { old[j] } else { fill })
}

/// Stores a higher spherical-harmonics coefficient at `idx`, growing the list
/// with `fill` as needed.
pub fn store_rest<T: Copy>(v: &mut Vec<T>, idx: u32, value: T, fill: T)
    requires
        (idx as nat) < usize::MAX,
    ensures
        final(v)@ == stored_rest(old(v)@, idx as nat, value, fill),
{
    let ghost start = v@;
    if idx >= v.len() as u32 {
        let n = idx as usize + 1;
        if n <= v.len() {
            v.truncate(n);
        } else {
            while v.len() < n
                invariant
                    n > start.len(),
                    start.len() <= v@.len() <= n,
                    forall|j: int| 0 <= j < start.len() ==> v@[j] == start[j],
                    forall|j: int| start.len() <= j < v@.len() ==> v@[j] == fill,
                decreases n - v.len(),
            {
                v.push(fill);
            }
        }
        assert(v@.len() == n);
    }
    assert(idx < v@.len());
    v.set(idx as usize, value);
    assert(v@ =~= stored_rest(start, idx as nat, value, fill));
}

/// The higher coefficient stored at `idx`, if there is one.
pub fn rest_at<T: Copy>(v: &Vec<T>, idx: u64) -> (r: Option<T>)
    ensures
        r == (if idx < v@.len() { Some(v@[idx as int]) } else { None::<T> }),
{
    if idx < v.len() as u64 {
        Some(v[idx as usize])
    } else {
        None
    }
}

/// How often (in vertices) partial splats are sent while loading:
/// `count / 20`, rounded up.
pub fn update_every(count: usize) -> (r: usize)
    ensures
        r == (count + 19) / 20,
{
    count / 20 + if count % 20 == 0 { 0 } else { 1 }
}

/// Whether vertex `i` is kept when only every `subsample`-th vertex is.
pub fn keep_vertex(i: usize, subsample: Option<u32>) -> (r: bool)
    requires
        subsample != Some(0u32),
    ensures
        r == match subsample {
            Some(s) => (i as nat) % (s as nat) == 0,
            None => true,
        },
{
    match subsample {
        Some(s) => i % (s as usize) == 0,
        None => true,
    }
}

/// Whether loading a plain or chunked PLY sends the splats read so far after
/// vertex `i` (out of `count`): when at least `every` vertices have passed
/// since the last update, or at the last vertex.
pub fn emit_after_vertex(i: usize, last_update: usize, every: usize, count: usize) -> (r: bool)
    requires
        last_update <= i < count,
    ensures
        r == (i - last_update >= every || i == count - 1),
{
    i - last_update >= every || i == count - 1
}

/// Whether loading the base frame of a delta-compressed PLY sends the splats
/// read so far before vertex `i`.
pub fn emit_before_delta_vertex(i: usize, every: usize) -> (r: bool)
    requires
        every > 0,
    ensures
        r == ((i as nat) % (every as nat) == (every - 1) as nat),
{
    i % every == every - 1
}

/// Which quantization chunk vertex `i` belongs to (256 vertices a chunk), if
/// there are enough chunks.
pub fn chunk_of_vertex(i: usize, chunk_count: usize) -> (r: Option<usize>)
    ensures
        r == (if i / 256 < chunk_count { Some((i / 256) as usize) } else { None::<usize> }),
{
    if i / 256 < chunk_count {
        Some(i / 256)
    } else {
        None
    }
}

/// The role of an element in a delta-compressed PLY.
#[derive(Debug, Clone, Copy, PartialEq, Eq, Structural)]
pub enum DeltaElement {
    /// `vertex`: the base frame.
    Base,
    /// `meta_delta_min_*`: lower quantization bounds of the next frame.
    MetaMin,
    /// `meta_delta_max_*`: upper quantization bounds of the next frame.
    MetaMax,
    /// `delta_vertex_*`: a frame of deltas.
    Delta,
    /// Anything else, skipped.
    Other,
}

/// The role of an element named `name` in a delta-compressed PLY.
pub open spec fn delta_element_of(name: Seq<char>) -> DeltaElement {
    if name == "vertex"@ {
        DeltaElement::Base
    } else if has_prefix(name, "meta_delta_min_"@) {
        DeltaElement::MetaMin
    } else if has_prefix(name, "meta_delta_max_"@) {
        DeltaElement::MetaMax
    } else if has_prefix(name, "delta_vertex_"@) {
        DeltaElement::Delta
    } else {
        DeltaElement::Other
    }
}

/// The role of the element named `name` in a delta-compressed PLY.
pub fn delta_element(name: &str) -> (r: DeltaElement)
    ensures
        r == delta_element_of(name@),
{
    let n = chars_of(name);
    if same_chars(&n, &chars_of("vertex")) {
        DeltaElement::Base
    } else if starts_with(&n, &chars_of("meta_delta_min_")) {
        DeltaElement::MetaMin
    } else if starts_with(&n, &chars_of("meta_delta_max_")) {
        DeltaElement::MetaMax
    } else if starts_with(&n, &chars_of("delta_vertex_")) {
        DeltaElement::Delta
    } else {
        DeltaElement::Other
    }
}

/// How many elements of `es` are frames of deltas.
pub open spec fn delta_frames_in(es: Seq<PlyElementInfo>) -> nat
    decreases es.len(),
{
    if es.len() == 0 {
        0
    } else {
        delta_frames_in(es.drop_last()) + if has_prefix(es.last().name@, "delta_vertex_"@) { 1nat } else { 0nat }
    }
}

/// The number of delta frames a header declares, as a `u32` (wrapping).
pub fn delta_frame_count(h: &PlyHeaderInfo) -> (r: u32)
    ensures
        r == delta_frames_in(h.elements@) as u32,
{
    let pre = chars_of("delta_vertex_");
    let mut n: usize = 0;
    let mut i: usize = 0;
    while i < h.elements.len()
        invariant
            i <= h.elements@.len(),
            pre@ == "delta_vertex_"@,
            n == delta_frames_in(h.elements@.take(i as int)),
            n <= i,
        decreases h.elements.len() - i,
    {
        assert(h.elements@.take(i + 1).drop_last() =~= h.elements@.take(i as int));
        if starts_with(&chars_of(h.elements[i].name.as_str()), &pre) {
            n = n + 1;
        }
        i = i + 1;
    }
    assert(h.elements@.take(i as int) =~= h.elements@);
    n as u32
}

/// Which optional per-vertex values a plain PLY vertex element carries.
#[derive(Debug, Clone, Copy, PartialEq, Eq, Structural)]
pub struct VertexChannels {
    /// `scale_0` is present.
    pub scales: bool,
    /// `rot_0` is present.
    pub rotations: bool,
    /// `f_dc_0` or `red` is present.
    pub sh_coeffs: bool,
    /// `opacity` is present.
    pub opacity: bool,
}

/// The element declares a property named `n`.
pub open spec fn has_property(e: PlyElementInfo, n: Seq<char>) -> bool {
    exists|i: int| 0 <= i < e.properties@.len() && (#[trigger] e.properties@[i])@ == n
}

fn has_property_named(e: &PlyElementInfo, n: &str) -> (r: bool)
    ensures
        r == has_property(*e, n@),
{
    let want = chars_of(n);
    let mut i: usize = 0;
    while i < e.properties.len()
        invariant
            i <= e.properties@.len(),
            want@ == n@,
            forall|j: int| 0 <= j < i ==> (#[trigger] e.properties@[j])@ != n@,
        decreases e.properties.len() - i,
    {
        if same_chars(&chars_of(e.properties[i].as_str()), &want) {
            return true;
        }
        i = i + 1;
    }
    false
}

/// Which optional values the vertex element `e` carries.
pub fn vertex_channels(e: &PlyElementInfo) -> (r: VertexChannels)
    ensures
        r.scales == has_property(*e, "scale_0"@),
        r.rotations == has_property(*e, "rot_0"@),
        r.sh_coeffs == (has_property(*e, "f_dc_0"@) || has_property(*e, "red"@)),
        r.opacity == has_property(*e, "opacity"@),
{
    VertexChannels {
        scales: has_property_named(e, "scale_0"),
        rotations: has_property_named(e, "rot_0"),
        sh_coeffs: has_property_named(e, "f_dc_0") || has_property_named(e, "red"),
        opacity: has_property_named(e, "opacity"),
    }
}

/// Checks that a plain PLY starts with its `vertex` element.
pub fn check_plain_layout(h: &PlyHeaderInfo) -> (r: Result<(), PlyHeaderError>)
    ensures
        r == (if h.elements@.len() == 0 {
            Err(PlyHeaderError::NoElements)
        } else if h.elements@[0].name@ != "vertex"@ {
            Err(PlyHeaderError::FirstNotVertex)
        } else {
            Ok(())
        }),
{
    if h.elements.len() == 0 {
        Err(PlyHeaderError::NoElements)
    } else if !element_named(h, 0, &chars_of("vertex")) {
        Err(PlyHeaderError::FirstNotVertex)
    } else {
        Ok(())
    }
}

/// Checks the element order of a chunked PLY: `chunk`, then `vertex`, then
/// optionally `sh`. The third element is only looked at once the vertices
/// have been read, so its check stands apart.
pub fn check_chunked_layout(h: &PlyHeaderInfo) -> (r: Result<(), PlyHeaderError>)
    ensures
        r == (if h.elements@.len() == 0 {
            Err(PlyHeaderError::NotEnoughElements)
        } else if h.elements@[0].name@ != "chunk"@ {
            Err(PlyHeaderError::FirstNotChunk)
        } else if h.elements@.len() < 2 {
            Err(PlyHeaderError::NotEnoughElements)
        } else if h.elements@[1].name@ != "vertex"@ {
            Err(PlyHeaderError::SecondNotVertex)
        } else {
            Ok(())
        }),
{
    if h.elements.len() == 0 {
        Err(PlyHeaderError::NotEnoughElements)
    } else if !element_named(h, 0, &chars_of("chunk")) {
        Err(PlyHeaderError::FirstNotChunk)
    } else if h.elements.len() < 2 {
        Err(PlyHeaderError::NotEnoughElements)
    } else if !element_named(h, 1, &chars_of("vertex")) {
        Err(PlyHeaderError::SecondNotVertex)
    } else {
        Ok(())
    }
}

/// Checks the optional third element of a chunked PLY: absent, or `sh`.
/// Returns whether spherical-harmonics values follow.
pub fn check_chunked_sh(h: &PlyHeaderInfo) -> (r: Result<bool, PlyHeaderError>)
    ensures
        r == (if h.elements@.len() < 3 {
            Ok(false)
        } else if h.elements@[2].name@ != "sh"@ {
            Err(PlyHeaderError::ThirdNotSh)
        } else {
            Ok(true)
        }),
{
    if h.elements.len() < 3 {
        Ok(false)
    } else if !element_named(h, 2, &chars_of("sh")) {
        Err(PlyHeaderError::ThirdNotSh)
    } else {
        Ok(true)
    }
}

/// Whether the loader's yield check looks at the clock on this tick: after
/// counting it, every thousandth tick.
pub fn yield_check_due(tick: &mut usize) -> (r: bool)
    requires
        *old(tick) < usize::MAX,
    ensures
        *final(tick) == *old(tick) + 1,
        r == (*final(tick) % 1000 == 0),
{
    *tick = *tick + 1;
    *tick % 1000 == 0
}

} // verus!
