//! A scan of the header lines of a PLY file for whole numbers too large for
//! a `u64`: the header grammar reads element counts and format versions as
//! `u64` and cannot take larger ones.
//!
//! The lines looked at are those the header reader reads: from the start of
//! the bytes, line by line (lines end at `\n`), up to the first line that
//! starts with `end_header`.

use vstd::prelude::*;
use crate::text::chars_of;

verus! {

/// The kinds of byte runs the header grammar reads.
#[derive(Debug, Clone, Copy, PartialEq, Eq, Structural)]
pub enum ByteClass {
    /// Spaces and tabs.
    Blank,
    /// ASCII digits.
    Digit,
    /// Letters, digits, `_` and `-` (the rest of a name).
    NameRest,
}

/// An ASCII digit.
pub open spec fn is_digit_byte(b: u8) -> bool {
    48 <= b <= 57
}

/// A letter or `_`: what a name starts with.
pub open spec fn is_name_start(b: u8) -> bool {
    (65 <= b <= 90) || (97 <= b <= 122) || b == 95
}

/// Whether `b` belongs to the class `c`.
pub open spec fn in_class(c: ByteClass, b: u8) -> bool {
    match c {
        ByteClass::Blank => b == 32 || b == 9,
        ByteClass::Digit => is_digit_byte(b),
        ByteClass::NameRest => is_name_start(b) || is_digit_byte(b) || b == 45,
    }
}

/// Where the run of class `c` that starts at `i` ends, looking no further
/// than `end`.
pub open spec fn run_end(s: Seq<u8>, i: int, end: int, c: ByteClass) -> int
    decreases end - i,
{
    if 0 <= i < end && in_class(c, s[i]) {
        run_end(s, i + 1, end, c)
    } else {
        i
    }
}

/// The text `t` (ASCII) stands at `i`, before `end`.
pub open spec fn text_at(s: Seq<u8>, i: int, end: int, t: Seq<char>) -> bool {
    &&& 0 <= i
    &&& i + t.len() <= end
    &&& forall|k: int| 0 <= k < t.len() ==> s[i + k] as u32 == #[trigger] t[k] as u32
}

/// The value of the digits from `i` up to `j`.
pub open spec fn digits_value(s: Seq<u8>, i: int, j: int) -> nat
    decreases j - i,
{
    if j <= i {
        0
    } else {
        digits_value(s, i, j - 1) * 10 + (s[j - 1] - 48) as nat
    }
}

/// A whole number is read at `i` (at least one digit) and it does not fit
/// a `u64`.
pub open spec fn number_overflows(s: Seq<u8>, i: int, end: int) -> bool {
    let e = run_end(s, i, end, ByteClass::Digit);
    e > i && digits_value(s, i, e) > u64::MAX
}

/// The line from `p` to `end` is an element line whose count does not fit:
/// `element`, blanks, a name, blanks, and a number too large.
pub open spec fn element_count_overflows(s: Seq<u8>, p: int, end: int) -> bool {
    let a = p + 7;
    let b = run_end(s, a, end, ByteClass::Blank);
    let c = run_end(s, b + 1, end, ByteClass::NameRest);
    let d = run_end(s, c, end, ByteClass::Blank);
    &&& text_at(s, p, end, "element"@)
    &&& b > a
    &&& b < end
    &&& is_name_start(s[b])
    &&& d > c
    &&& number_overflows(s, d, end)
}

/// A version read at `d` has a part that does not fit: the major number,
/// or, after a `.`, the minor one.
pub open spec fn version_overflows(s: Seq<u8>, d: int, end: int) -> bool {
    let e = run_end(s, d, end, ByteClass::Digit);
    &&& e > d
    &&& (digits_value(s, d, e) > u64::MAX || (e < end && s[e] == 46 && number_overflows(
        s,
        e + 1,
        end,
    )))
}

/// The encoding `enc` stands at `b`, followed by blanks and a version with
/// a part that does not fit.
pub open spec fn encoding_version_overflows(s: Seq<u8>, b: int, end: int, enc: Seq<char>) -> bool {
    let c = b + enc.len();
    let d = run_end(s, c, end, ByteClass::Blank);
    &&& text_at(s, b, end, enc)
    &&& d > c
    &&& version_overflows(s, d, end)
}

/// The line from `p` to `end` is a format line whose version does not fit.
pub open spec fn format_version_overflows(s: Seq<u8>, p: int, end: int) -> bool {
    let a = p + 6;
    let b = run_end(s, a, end, ByteClass::Blank);
    &&& text_at(s, p, end, "format"@)
    &&& b > a
    &&& (encoding_version_overflows(s, b, end, "ascii"@) || encoding_version_overflows(
        s,
        b,
        end,
        "binary_big_endian"@,
    ) || encoding_version_overflows(s, b, end, "binary_little_endian"@))
}

/// Where the line that starts at `p` ends: its `\n`, or the end of the
/// bytes.
pub open spec fn line_end(s: Seq<u8>, p: int) -> int
    decreases s.len() - p,
{
    if p < 0 || p >= s.len() || s[p] == 10 {
        if p < 0 {
            s.len() as int
        } else {
            p
        }
    } else {
        line_end(s, p + 1)
    }
}

/// A line ends at or after its start, and within the bytes.
pub proof fn lemma_line_end_bounds(s: Seq<u8>, p: int)
    requires
        0 <= p,
    ensures
        p <= line_end(s, p),
        p < s.len() ==> line_end(s, p) <= s.len(),
    decreases s.len() - p,
{
    if p < s.len() && s[p] != 10 {
        lemma_line_end_bounds(s, p + 1);
    }
}

/// Every header line from `p` on holds numbers that fit.
pub open spec fn header_fits_from(s: Seq<u8>, p: int) -> bool
    decreases s.len() - p,
{
    if p < 0 || p >= s.len() {
        true
    } else {
        let e = line_end(s, p);
        proof {
            lemma_line_end_bounds(s, p);
        }
        &&& !element_count_overflows(s, p, e)
        &&& !format_version_overflows(s, p, e)
        &&& (text_at(s, p, e, "end_header"@) || e >= s.len() || header_fits_from(s, e + 1))
    }
}

/// Every whole number that the header reader reads from these bytes fits a
/// `u64`.
pub open spec fn header_numbers_fit(s: Seq<u8>) -> bool {
    header_fits_from(s, 0)
}

fn in_class_exec(c: ByteClass, b: u8) -> (r: bool)
    ensures
        r == in_class(c, b),
{
    match c {
        ByteClass::Blank => b == 32 || b == 9,
        ByteClass::Digit => 48 <= b && b <= 57,
        ByteClass::NameRest => (65 <= b && b <= 90) || (97 <= b && b <= 122) || b == 95 || (48
            <= b && b <= 57) || b == 45,
    }
}

proof fn lemma_run_end(s: Seq<u8>, i: int, end: int, c: ByteClass)
    requires
        0 <= i <= end <= s.len(),
    ensures
        i <= run_end(s, i, end, c) <= end,
        forall|k: int| i <= k < run_end(s, i, end, c) ==> in_class(c, #[trigger] s[k]),
    decreases end - i,
{
    if i < end && in_class(c, s[i]) {
        lemma_run_end(s, i + 1, end, c);
    }
}

/// Where the run of class `c` starting at `i` ends.
fn scan_run(s: &[u8], i: usize, end: usize, c: ByteClass) -> (r: usize)
    requires
        i <= end <= s@.len(),
    ensures
        r == run_end(s@, i as int, end as int, c),
        i <= r <= end,
        forall|k: int| i <= k < r ==> in_class(c, #[trigger] s@[k]),
{
    proof {
        lemma_run_end(s@, i as int, end as int, c);
    }
    let mut j = i;
    while j < end && in_class_exec(c, s[j])
        invariant
            i <= j <= end <= s@.len(),
            run_end(s@, i as int, end as int, c) == run_end(s@, j as int, end as int, c),
        decreases end - j,
    {
        j = j + 1;
    }
    j
}

/// Whether the ASCII text `t` stands at `i`, before `end`.
fn text_at_exec(s: &[u8], i: usize, end: usize, t: &str) -> (r: bool)
    requires
        end <= s@.len(),
    ensures
        r == text_at(s@, i as int, end as int, t@),
{
    let tc = chars_of(t);
    if tc.len() > end || i > end - tc.len() {
        return false;
    }
    let mut k: usize = 0;
    while k < tc.len()
        invariant
            tc@ == t@,
            i + tc@.len() <= end <= s@.len(),
            k <= tc@.len(),
            forall|m: int| 0 <= m < k ==> s@[i + m] as u32 == #[trigger] t@[m] as u32,
        decreases tc.len() - k,
    {
        if (s[i + k] as u32) != (tc[k] as u32) {
            return false;
        }
        k = k + 1;
    }
    true
}

/// Whether the number read at `i` (if any) does not fit a `u64`.
fn number_overflows_exec(s: &[u8], i: usize, end: usize) -> (r: bool)
    requires
        i <= end <= s@.len(),
    ensures
        r == number_overflows(s@, i as int, end as int),
{
    let e = scan_run(s, i, end, ByteClass::Digit);
    if e == i {
        return false;
    }
    let mut acc: u64 = 0;
    let mut over = false;
    let mut j = i;
    while j < e
        invariant
            i <= j <= e <= end <= s@.len(),
            forall|k: int| i <= k < e ==> in_class(ByteClass::Digit, #[trigger] s@[k]),
            !over ==> acc == digits_value(s@, i as int, j as int),
            over ==> digits_value(s@, i as int, j as int) > u64::MAX,
        decreases e - j,
    {
        assert(in_class(ByteClass::Digit, s@[j as int]));
        let d = (s[j] - 48) as u64;
        if !over {
            match acc.checked_mul(10) {
                Some(m) => match m.checked_add(d) {
                    Some(v) => {
                        acc = v;
                    },
                    None => {
                        over = true;
                    },
                },
                None => {
                    over = true;
                },
            }
        }
        j = j + 1;
    }
    over
}

fn element_count_overflows_exec(s: &[u8], p: usize, end: usize) -> (r: bool)
    requires
        p <= end <= s@.len(),
    ensures
        r == element_count_overflows(s@, p as int, end as int),
{
    if !text_at_exec(s, p, end, "element") {
        return false;
    }
    proof {
        reveal_strlit("element");
    }
    let a = p + 7;
    let b = scan_run(s, a, end, ByteClass::Blank);
    if b == a || b >= end {
        return false;
    }
    let first = s[b];
    if !((65 <= first && first <= 90) || (97 <= first && first <= 122) || first == 95) {
        return false;
    }
    let c = scan_run(s, b + 1, end, ByteClass::NameRest);
    let d = scan_run(s, c, end, ByteClass::Blank);
    if d == c {
        return false;
    }
    number_overflows_exec(s, d, end)
}

fn encoding_version_overflows_exec(s: &[u8], b: usize, end: usize, enc: &str) -> (r: bool)
    requires
        b <= end <= s@.len(),
    ensures
        r == encoding_version_overflows(s@, b as int, end as int, enc@),
{
    if !text_at_exec(s, b, end, enc) {
        return false;
    }
    let c = b + chars_of(enc).len();
    let dd = scan_run(s, c, end, ByteClass::Blank);
    if dd == c {
        return false;
    }
    let e = scan_run(s, dd, end, ByteClass::Digit);
    if e == dd {
        return false;
    }
    if number_overflows_exec(s, dd, end) {
        return true;
    }
    e < end && s[e] == 46 && number_overflows_exec(s, e + 1, end)
}

fn format_version_overflows_exec(s: &[u8], p: usize, end: usize) -> (r: bool)
    requires
        p <= end <= s@.len(),
    ensures
        r == format_version_overflows(s@, p as int, end as int),
{
    if !text_at_exec(s, p, end, "format") {
        return false;
    }
    proof {
        reveal_strlit("format");
    }
    let a = p + 6;
    let b = scan_run(s, a, end, ByteClass::Blank);
    if b == a {
        return false;
    }
    encoding_version_overflows_exec(s, b, end, "ascii") || encoding_version_overflows_exec(
        s,
        b,
        end,
        "binary_big_endian",
    ) || encoding_version_overflows_exec(s, b, end, "binary_little_endian")
}

fn line_end_exec(s: &[u8], p: usize) -> (e: usize)
    requires
        p < s@.len(),
    ensures
        e == line_end(s@, p as int),
        p <= e <= s@.len(),
{
    proof {
        lemma_line_end_bounds(s@, p as int);
    }
    let mut j = p;
    while j < s.len() && s[j] != 10
        invariant
            p <= j <= s@.len(),
            line_end(s@, p as int) == line_end(s@, j as int),
        decreases s.len() - j,
    {
        j = j + 1;
    }
    j
}

/// Whether every whole number that the header reader reads from these bytes
/// fits a `u64`.
pub fn header_numbers_fit_bytes(s: &[u8]) -> (r: bool)
    ensures
        r == header_numbers_fit(s@),
{
    let mut p: usize = 0;
    while p < s.len()
        invariant
            p <= s@.len(),
            header_numbers_fit(s@) == header_fits_from(s@, p as int),
        decreases s.len() - p,
    {
        let e = line_end_exec(s, p);
        if element_count_overflows_exec(s, p, e) || format_version_overflows_exec(s, p, e) {
            return false;
        }
        if e >= s.len() || text_at_exec(s, p, e, "end_header") {
            return true;
        }
        p = e + 1;
    }
    true
}

} // verus!
