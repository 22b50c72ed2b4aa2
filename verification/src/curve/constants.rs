use vstd::prelude::*;

verus! {

/// The number of limbs of a coordinate and of a scalar of E448.
pub const E448_LIMBS: usize = 14;

/// The prime of E448, the lowest limb first.
pub const E448_P: [u32; 14] = [
    0xffffffff, 0xffffffff, 0xffffffff, 0xffffffff, 0xffffffff, 0xffffffff,
    0xffffffff, 0xfffffffe, 0xffffffff, 0xffffffff, 0xffffffff, 0xffffffff,
    0xffffffff, 0xffffffff,
];

/// What the prime of E448 lacks to two to the 448.
pub const E448_P_GAP: [u32; 14] = [
    0x00000001, 0x00000000, 0x00000000, 0x00000000, 0x00000000, 0x00000000,
    0x00000000, 0x00000001, 0x00000000, 0x00000000, 0x00000000, 0x00000000,
    0x00000000, 0x00000000,
];

/// The order of the generator of E448.
pub const E448_R: [u32; 14] = [
    0xab5844f3, 0x2378c292, 0x8dc58f55, 0x216cc272, 0xaed63690, 0xc44edb49,
    0x7cca23e9, 0xffffffff, 0xffffffff, 0xffffffff, 0xffffffff, 0xffffffff,
    0xffffffff, 0x3fffffff,
];

/// What the order of E448 lacks to two to the 446.
pub const E448_R_GAP: [u32; 14] = [
    0x54a7bb0d, 0xdc873d6d, 0x723a70aa, 0xde933d8d, 0x5129c96f, 0x3bb124b6,
    0x8335dc16, 0x00000000, 0x00000000, 0x00000000, 0x00000000, 0x00000000,
    0x00000000, 0x00000000,
];

/// The constant `d` of E448, as a residue of its prime.
pub const E448_D: [u32; 14] = [
    0xffff6756, 0xffffffff, 0xffffffff, 0xffffffff, 0xffffffff, 0xffffffff,
    0xffffffff, 0xfffffffe, 0xffffffff, 0xffffffff, 0xffffffff, 0xffffffff,
    0xffffffff, 0xffffffff,
];

/// The second coordinate of the generator of E448.
pub const E448_GY: [u32; 14] = [
    0x0bccfc32, 0x1c600e3b, 0xe3dd0c2d, 0x01228094, 0xb6bf7008, 0x9aabff93,
    0x3b428d98, 0xf84d8465, 0x0ed0fff7, 0x0eb046f4, 0xebb9f854, 0xf2bb263c,
    0x65e6d0b5, 0xc66f6f05,
];

/// The first coordinate of the generator of E448.
pub const E448_GX: u32 = 8;

/// The number of bits by which the prime of E448 falls short of its limbs.
pub const E448_P_SHIFT: usize = 0;

/// The number of bits by which the order of E448 falls short of its limbs.
pub const E448_R_SHIFT: usize = 2;

/// The number of limbs of a coordinate and of a scalar of E521.
pub const E521_LIMBS: usize = 17;

/// The prime of E521, the lowest limb first.
pub const E521_P: [u32; 17] = [
    0xffffffff, 0xffffffff, 0xffffffff, 0xffffffff, 0xffffffff, 0xffffffff,
    0xffffffff, 0xffffffff, 0xffffffff, 0xffffffff, 0xffffffff, 0xffffffff,
    0xffffffff, 0xffffffff, 0xffffffff, 0xffffffff, 0x000001ff,
];

/// What the prime of E521 lacks to two to the 521.
pub const E521_P_GAP: [u32; 17] = [
    0x00000001, 0x00000000, 0x00000000, 0x00000000, 0x00000000, 0x00000000,
    0x00000000, 0x00000000, 0x00000000, 0x00000000, 0x00000000, 0x00000000,
    0x00000000, 0x00000000, 0x00000000, 0x00000000, 0x00000000,
];

/// The order of the generator of E521.
pub const E521_R: [u32; 17] = [
    0xf5180d6b, 0x40ea2435, 0x9a8f1f45, 0xfbd8c456, 0x7ec53f04, 0x36b8af5e,
    0x46fc85f7, 0x15b6c647, 0xfffffffd, 0xffffffff, 0xffffffff, 0xffffffff,
    0xffffffff, 0xffffffff, 0xffffffff, 0xffffffff, 0x0000007f,
];

/// What the order of E521 lacks to two to the 519.
pub const E521_R_GAP: [u32; 17] = [
    0x0ae7f295, 0xbf15dbca, 0x6570e0ba, 0x04273ba9, 0x813ac0fb, 0xc94750a1,
    0xb9037a08, 0xea4939b8, 0x00000002, 0x00000000, 0x00000000, 0x00000000,
    0x00000000, 0x00000000, 0x00000000, 0x00000000, 0x00000000,
];

/// The constant `d` of E521, as a residue of its prime.
pub const E521_D: [u32; 17] = [
    0xfffa4331, 0xffffffff, 0xffffffff, 0xffffffff, 0xffffffff, 0xffffffff,
    0xffffffff, 0xffffffff, 0xffffffff, 0xffffffff, 0xffffffff, 0xffffffff,
    0xffffffff, 0xffffffff, 0xffffffff, 0xffffffff, 0x000001ff,
];

/// The second coordinate of the generator of E521.
pub const E521_GY: [u32; 17] = [
    0x0093b10c, 0xbcdfb41d, 0xf93e22f8, 0x64b0de40, 0xb1cfd4e0, 0xfa955cbf,
    0x81557d7b, 0x5616ebb4, 0xf5920a14, 0x050b3c80, 0x5904d1e4, 0xf3be4329,
    0x4013b3eb, 0x15c806d2, 0x9b741bdb, 0xd4b4952f, 0x0000011d,
];

/// The first coordinate of the generator of E521.
pub const E521_GX: u32 = 4;

/// The number of bits by which the prime of E521 falls short of its limbs.
pub const E521_P_SHIFT: usize = 23;

/// The number of bits by which the order of E521 falls short of its limbs.
pub const E521_R_SHIFT: usize = 25;

} // verus!
