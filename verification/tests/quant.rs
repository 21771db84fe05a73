use brush::quant::{quat_slots, unorm_max, unpack_11_10_11, unpack_8_8_8_8, unpack_quat, PackedQuat};

#[test]
fn unorm_limits() {
    assert_eq!(unorm_max(8), 255);
    assert_eq!(unorm_max(10), 1023);
    assert_eq!(unorm_max(11), 2047);
    assert_eq!(unorm_max(0), 0);
}

#[test]
fn unpack_11_10_11_fields() {
    let v: u32 = (1234 << 21) | (567 << 11) | 1890;
    assert_eq!(unpack_11_10_11(v), (1234, 567, 1890));
    assert_eq!(unpack_11_10_11(u32::MAX), (2047, 1023, 2047));
}

#[test]
fn unpack_8_8_8_8_fields() {
    assert_eq!(unpack_8_8_8_8(0x12_34_56_78), (0x12, 0x34, 0x56, 0x78));
}

#[test]
fn unpack_quat_fields() {
    let v: u32 = (2 << 30) | (700 << 20) | (300 << 10) | 5;
    assert_eq!(unpack_quat(v), PackedQuat { largest: 2, a: 700, b: 300, c: 5 });
}

#[test]
fn quat_slots_skip_largest() {
    assert_eq!(quat_slots(0), [1, 2, 3]);
    assert_eq!(quat_slots(1), [0, 2, 3]);
    assert_eq!(quat_slots(2), [0, 1, 3]);
    assert_eq!(quat_slots(3), [0, 1, 2]);
}
