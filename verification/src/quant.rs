//! Bit layouts of the packed vertex properties of compressed PLY files.
//!
//! Each function returns the integer fields of a packed `u32`; turning a
//! field into a float in `[0, 1]` divides it by `unorm_max` of its width.

use vstd::prelude::*;

verus! {

/// The largest value of an unsigned field `bits` wide: `2^bits - 1`.
pub fn unorm_max(bits: u32) -> (m: u32)
    requires
        bits <= 30,
    ensures
        m as nat == vstd::arithmetic::power2::pow2(bits as nat) - 1,
{
    proof {
        vstd::arithmetic::power2::lemma_pow2_strictly_increases(bits as nat, 31);
        vstd::arithmetic::power2::lemma_pow2_pos(bits as nat);
        assert(vstd::arithmetic::power2::pow2(31) == 0x8000_0000) by {
            vstd::arithmetic::power2::lemma2_to64();
        }
        vstd::bits::lemma_u32_shl_is_mul(1, bits);
    }
    (1u32 << bits) - 1
}

/// The 11-10-11 bit fields of `v`, most significant first.
pub open spec fn fields_11_10_11(v: u32) -> (u32, u32, u32) {
    (v / 0x20_0000, (v / 0x800) % 0x400, v % 0x800)
}

/// The 8-8-8-8 bit fields of `v`, most significant first.
pub open spec fn fields_8_8_8_8(v: u32) -> (u32, u32, u32, u32) {
    (v / 0x100_0000, (v / 0x1_0000) % 0x100, (v / 0x100) % 0x100, v % 0x100)
}

/// A packed rotation: which quaternion component is largest (0 = w, 1 = x,
/// 2 = y, 3 = z) and the three remaining 10-bit components in order.
#[derive(Debug, Clone, Copy, PartialEq, Eq, Structural)]
pub struct PackedQuat {
    /// Index of the component left out of the packing.
    pub largest: usize,
    /// First stored component.
    pub a: u32,
    /// Second stored component.
    pub b: u32,
    /// Third stored component.
    pub c: u32,
}

/// The 2-10-10-10 bit fields of a packed rotation.
pub open spec fn quat_fields(v: u32) -> PackedQuat {
    PackedQuat {
        largest: (v / 0x4000_0000) as usize,
        a: (v / 0x10_0000) % 0x400,
        b: (v / 0x400) % 0x400,
        c: v % 0x400,
    }
}

/// Splits a packed position or scale into its 11, 10 and 11 bit fields.
pub fn unpack_11_10_11(value: u32) -> (r: (u32, u32, u32))
    ensures
        r == fields_11_10_11(value),
{
    let first = (value >> 21) & 0x7FF;
    let second = (value >> 11) & 0x3FF;
    let third = value & 0x7FF;
    assert(first == value / 0x20_0000) by (bit_vector)
        requires
            first == (value >> 21) & 0x7FF,
    ;
    assert(second == (value / 0x800) % 0x400) by (bit_vector)
        requires
            second == (value >> 11) & 0x3FF,
    ;
    assert(third == value % 0x800) by (bit_vector)
        requires
            third == value & 0x7FF,
    ;
    (first, second, third)
}

/// Splits a packed color into its four 8 bit fields.
pub fn unpack_8_8_8_8(value: u32) -> (r: (u32, u32, u32, u32))
    ensures
        r == fields_8_8_8_8(value),
{
    let x = (value >> 24) & 0xFF;
    let y = (value >> 16) & 0xFF;
    let z = (value >> 8) & 0xFF;
    let w = value & 0xFF;
    assert(x == value / 0x100_0000) by (bit_vector)
        requires
            x == (value >> 24) & 0xFF,
    ;
    assert(y == (value / 0x1_0000) % 0x100) by (bit_vector)
        requires
            y == (value >> 16) & 0xFF,
    ;
    assert(z == (value / 0x100) % 0x100) by (bit_vector)
        requires
            z == (value >> 8) & 0xFF,
    ;
    assert(w == value % 0x100) by (bit_vector)
        requires
            w == value & 0xFF,
    ;
    (x, y, z, w)
}

/// Splits a packed rotation into the index of its largest component and the
/// three stored components.
pub fn unpack_quat(value: u32) -> (r: PackedQuat)
    ensures
        r == quat_fields(value),
        r.largest < 4,
{
    let largest = (value >> 30) & 0x3;
    let a = (value >> 20) & 0x3FF;
    let b = (value >> 10) & 0x3FF;
    let c = value & 0x3FF;
    assert(largest == value / 0x4000_0000 && largest < 4) by (bit_vector)
        requires
            largest == (value >> 30) & 0x3,
    ;
    assert(a == (value / 0x10_0000) % 0x400) by (bit_vector)
        requires
            a == (value >> 20) & 0x3FF,
    ;
    assert(b == (value / 0x400) % 0x400) by (bit_vector)
        requires
            b == (value >> 10) & 0x3FF,
    ;
    assert(c == value % 0x400) by (bit_vector)
        requires
            c == value & 0x3FF,
    ;
    PackedQuat { largest: largest as usize, a, b, c }
}

/// The component slots (0 = w, 1 = x, 2 = y, 3 = z) that the three stored
/// components fill: every slot but `largest`, in increasing order.
pub open spec fn slots_without(largest: nat) -> (nat, nat, nat) {
    if largest == 0 {
        (1, 2, 3)
    } else if largest == 1 {
        (0, 2, 3)
    } else if largest == 2 {
        (0, 1, 3)
    } else {
        (0, 1, 2)
    }
}

/// Where the stored components of a packed rotation go: the slots other
/// than the largest one, in increasing order.
pub fn quat_slots(largest: usize) -> (r: [usize; 3])
    requires
        largest < 4,
    ensures
        (r[0] as nat, r[1] as nat, r[2] as nat) == slots_without(largest as nat),
{
    let mut slots: [usize; 3] = [0, 0, 0];
    let mut ind: usize = 0;
    let mut i: usize = 0;
    while i < 4
        invariant
            largest < 4,
            i <= 4,
            ind as int == (if i > largest { i - 1 } else { i as int }),
            ind <= 3,
            forall|k: int| 0 <= k < ind ==> {
                let s = slots_without(largest as nat);
                (#[trigger] slots[k]) as nat == (if k == 0 { s.0 } else if k == 1 { s.1 } else { s.2 })
            },
        decreases 4 - i,
    {
        if i != largest {
            slots[ind] = i;
            ind = ind + 1;
        }
        i = i + 1;
    }
    slots
}

/// Packing three fields into the 11-10-11 layout and unpacking them gives
/// them back.
pub proof fn lemma_11_10_11_roundtrip(x: u32, y: u32, z: u32)
    requires
        x < 0x800,
        y < 0x400,
        z < 0x800,
    ensures
        fields_11_10_11((x * 0x20_0000 + y * 0x800 + z) as u32) == (x, y, z),
{
    let v = (x * 0x20_0000 + y * 0x800 + z) as u32;
    assert(v == x * 0x20_0000 + y * 0x800 + z);
    assert(v / 0x20_0000 == x && (v / 0x800) % 0x400 == y && v % 0x800 == z) by (nonlinear_arith)
        requires
            v == x * 0x20_0000 + y * 0x800 + z,
            x < 0x800,
            y < 0x400,
            z < 0x800,
    ;
}

/// Packing four bytes into the 8-8-8-8 layout (first byte most
/// significant) and unpacking them gives them back.
pub proof fn lemma_8_8_8_8_roundtrip(x: u32, y: u32, z: u32, w: u32)
    requires
        x < 0x100,
        y < 0x100,
        z < 0x100,
        w < 0x100,
    ensures
        fields_8_8_8_8((x * 0x100_0000 + y * 0x1_0000 + z * 0x100 + w) as u32) == (x, y, z, w),
{
    let v = (x * 0x100_0000 + y * 0x1_0000 + z * 0x100 + w) as u32;
    assert(v == x * 0x100_0000 + y * 0x1_0000 + z * 0x100 + w);
    assert(v / 0x100_0000 == x && (v / 0x1_0000) % 0x100 == y && (v / 0x100) % 0x100 == z && v
        % 0x100 == w) by (nonlinear_arith)
        requires
            v == x * 0x100_0000 + y * 0x1_0000 + z * 0x100 + w,
            x < 0x100,
            y < 0x100,
            z < 0x100,
            w < 0x100,
    ;
}

/// Packing the largest component's index (2 bits) and three 10-bit
/// components, first one most significant, and unpacking them gives them
/// back.
pub proof fn lemma_quat_roundtrip(largest: u32, a: u32, b: u32, c: u32)
    requires
        largest < 4,
        a < 0x400,
        b < 0x400,
        c < 0x400,
    ensures
        quat_fields((largest * 0x4000_0000 + a * 0x10_0000 + b * 0x400 + c) as u32) == (PackedQuat {
            largest: largest as usize,
            a,
            b,
            c,
        }),
{
    let v = (largest * 0x4000_0000 + a * 0x10_0000 + b * 0x400 + c) as u32;
    assert(v == largest * 0x4000_0000 + a * 0x10_0000 + b * 0x400 + c);
    assert(v / 0x4000_0000 == largest && (v / 0x10_0000) % 0x400 == a && (v / 0x400) % 0x400 == b
        && v % 0x400 == c) by (nonlinear_arith)
        requires
            v == largest * 0x4000_0000 + a * 0x10_0000 + b * 0x400 + c,
            largest < 4,
            a < 0x400,
            b < 0x400,
            c < 0x400,
    ;
}

/// The slots of a packed rotation's stored components are distinct, and
/// together with the largest component they cover all four.
pub proof fn lemma_slots_cover(largest: nat)
    requires
        largest < 4,
    ensures
        ({
            let s = slots_without(largest);
            &&& s.0 < s.1 < s.2 < 4
            &&& s.0 != largest && s.1 != largest && s.2 != largest
        }),
{
}

} // verus!
