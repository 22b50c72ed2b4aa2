use capycrypt::curve::affine::AffinePoint;
use capycrypt::curve::extended_edwards::ExtendedPoint;
use capycrypt::curve::field::field_element::FieldElement;
use capycrypt::curve::params::{Curve, EdCurves};
use capycrypt::curve::scalar::Scalar;

fn e521_hex(s: &str) -> Vec<u8> {
    (0..s.len() / 2).map(|i| u8::from_str_radix(&s[2 * i..2 * i + 2], 16).unwrap()).collect()
}

fn e521_curve() -> Curve {
    Curve::new(EdCurves::E521)
}

fn e521_fe(s: &str, c: &Curve) -> FieldElement {
    FieldElement::from_be_bytes(&e521_hex(s), &c.field)
}

fn e521_point(x: &str, y: &str, c: &Curve) -> ExtendedPoint {
    AffinePoint { x: e521_fe(x, c), y: e521_fe(y, c) }.to_extended(c)
}

#[test]
fn e521_parameters() {
    let c = e521_curve();
    assert_eq!(c.limbs(), 17);
    assert_eq!(c.field.p.len(), 17);
    assert_eq!(c.order.p.len(), 17);
    assert_eq!(FieldElement { limbs: c.field.p.clone() }.to_be_bytes(), e521_hex(E521_P));
    assert_eq!(Scalar { limbs: c.order.p.clone() }.to_be_bytes(), e521_hex(E521_R));
    let g = AffinePoint::generator(&c);
    assert!(g.x.equals(&FieldElement::from_u32(4, c.limbs())));
    assert_eq!(g.y.to_be_bytes(), e521_hex(E521_GY));
}

#[test]
fn e521_field_arithmetic() {
    let c = e521_curve();
    let m = &c.field;
    let a = e521_fe(E521_A, &c);
    let b = e521_fe(E521_B, &c);
    assert_eq!(a.add(&b, m).to_be_bytes(), e521_hex(E521_SUM));
    assert_eq!(a.sub(&b, m).to_be_bytes(), e521_hex(E521_A_LESS_B));
    assert_eq!(b.sub(&a, m).to_be_bytes(), e521_hex(E521_B_LESS_A));
    assert_eq!(a.mul(&b, m).to_be_bytes(), e521_hex(E521_PRODUCT));
    assert_eq!(a.neg(m).to_be_bytes(), e521_hex(E521_MINUS_A));
    assert_eq!(a.invert(m).to_be_bytes(), e521_hex(E521_A_INVERSE));
    assert!(a.mul(&a.invert(m), m).equals(&FieldElement::one(c.limbs())));
    assert!(a.add(&a.neg(m), m).is_zero());
    assert!(!a.equals(&b));
    assert!(a.clone().equals(&a));
}

#[test]
fn e521_field_wraps_at_the_prime() {
    let c = e521_curve();
    let m = &c.field;
    let one = FieldElement::one(c.limbs());
    let zero = FieldElement::zero(c.limbs());
    // p - 1, then one more
    let top = zero.sub(&one, m);
    assert!(top.add(&one, m).is_zero());
    assert!(top.mul(&top, m).equals(&one));
    assert!(zero.neg(m).is_zero());
    // the bytes of the prime itself name zero
    assert!(e521_fe(E521_P, &c).is_zero());
    assert_eq!(
        FieldElement::from_be_bytes(&(1u8..=200).collect::<Vec<u8>>(), m).to_be_bytes(),
        e521_hex(E521_BIG_MOD_P)
    );
}

#[test]
fn e521_scalar_arithmetic() {
    let c = e521_curve();
    let s1 = Scalar::from_be_bytes(&(50u8..120).collect::<Vec<u8>>(), &c);
    let s2 = Scalar::from_be_bytes(&(3u8..90).collect::<Vec<u8>>(), &c);
    assert_eq!(s1.to_be_bytes(), e521_hex(E521_S1));
    assert_eq!(s2.to_be_bytes(), e521_hex(E521_S2));
    assert_eq!(s1.add(&s2, &c).to_be_bytes(), e521_hex(E521_S1_PLUS_S2));
    assert_eq!(s1.sub(&s2, &c).to_be_bytes(), e521_hex(E521_S1_LESS_S2));
    assert_eq!(s1.mul(&s2, &c).to_be_bytes(), e521_hex(E521_S1_TIMES_S2));
    assert_eq!(
        Scalar::from_be_bytes(&(1u8..=200).collect::<Vec<u8>>(), &c).to_be_bytes(),
        e521_hex(E521_BIG_MOD_R)
    );
    assert!(Scalar::from_be_bytes(&e521_hex(E521_R), &c).equals(&Scalar::from_u64(0, &c)));
    assert!(Scalar::from_u64(0x0123_4567_89ab_cdef, &c)
        .equals(&Scalar::from_be_bytes(&[0x01, 0x23, 0x45, 0x67, 0x89, 0xab, 0xcd, 0xef], &c)));
    assert!(Scalar::from_be_bytes(&[], &c).equals(&Scalar::from_u64(0, &c)));
    assert!(s1.copy().equals(&s1));
}

#[test]
fn e521_identity_and_conversions() {
    let c = e521_curve();
    let id = AffinePoint::identity(&c);
    assert!(id.x.is_zero());
    assert!(id.y.equals(&FieldElement::one(c.limbs())));
    let ext = id.to_extended(&c);
    assert!(ext.X.is_zero() && ext.T.is_zero());
    assert!(ext.Y.equals(&FieldElement::one(c.limbs())));
    assert!(ext.Z.equals(&FieldElement::one(c.limbs())));
    assert!(ext.equals(&ExtendedPoint::id_point(&c), &c));

    let g = AffinePoint::generator(&c);
    let e = g.to_extended(&c);
    assert!(e.X.equals(&g.x) && e.Y.equals(&g.y));
    assert!(e.Z.equals(&FieldElement::one(c.limbs())));
    assert!(e.T.equals(&g.x.mul(&g.y, &c.field)));
    let back = e.to_affine(&c);
    assert!(back.x.equals(&g.x) && back.y.equals(&g.y));
}

#[test]
fn e521_known_multiples() {
    let c = e521_curve();
    let g = ExtendedPoint::generator(&c);
    let two = g.double(&c).to_affine(&c);
    assert_eq!(two.x.to_be_bytes(), e521_hex(E521_2G_X));
    assert_eq!(two.y.to_be_bytes(), e521_hex(E521_2G_Y));
    let three = g.scalar_mul(&Scalar::from_u64(3, &c), &c).to_affine(&c);
    assert_eq!(three.x.to_be_bytes(), e521_hex(E521_3G_X));
    assert_eq!(three.y.to_be_bytes(), e521_hex(E521_3G_Y));
    assert!(e521_point(E521_2G_X, E521_2G_Y, &c).add(&g, &c).equals(
        &e521_point(E521_3G_X, E521_3G_Y, &c),
        &c
    ));
}

#[test]
fn e521_group_laws_on_samples() {
    let c = e521_curve();
    let g = ExtendedPoint::generator(&c);
    let id = ExtendedPoint::id_point(&c);
    let p = g.scalar_mul(&Scalar::from_u64(7, &c), &c);
    let q = g.scalar_mul(&Scalar::from_u64(1_000_003, &c), &c);
    let r = g.scalar_mul(&Scalar::from_u64(0xffff_ffff_ffff_fff1, &c), &c);
    // the neutral element, on either side
    assert!(p.add(&id, &c).equals(&p, &c));
    assert!(id.add(&p, &c).equals(&p, &c));
    assert!(id.double(&c).equals(&id, &c));
    assert!(id.negate(&c).equals(&id, &c));
    // commutativity and associativity
    assert!(p.add(&q, &c).equals(&q.add(&p, &c), &c));
    assert!(p.add(&q, &c).add(&r, &c).equals(&p.add(&q.add(&r, &c), &c), &c));
    // inverses
    assert!(q.add(&q.negate(&c), &c).equals(&id, &c));
    assert!(q.negate(&c).negate(&c).equals(&q, &c));
    assert!(!q.negate(&c).equals(&q, &c));
    // doubling is adding to itself
    assert!(r.double(&c).equals(&r.add(&r, &c), &c));
    // the same point under two sets of coordinates
    let scaled = id.add(&q.double(&c), &c);
    assert!(scaled.equals(&q.double(&c), &c));
    assert!(!p.equals(&q, &c));
    assert!(p.copy().equals(&p, &c));
}

#[test]
fn e521_zero_one_two_four_times_g() {
    let c = e521_curve();
    let g = ExtendedPoint::generator(&c);
    let id = ExtendedPoint::id_point(&c);
    let times = |k: u64| g.scalar_mul(&Scalar::from_u64(k, &c), &c);
    assert!(times(0).equals(&id, &c));
    assert!(times(1).equals(&g, &c));
    assert!(times(2).equals(&g.add(&g, &c), &c));
    assert!(times(4).equals(&times(2).scalar_mul(&Scalar::from_u64(2, &c), &c), &c));
    assert!(!times(4).equals(&id, &c));
    assert!(times(5).equals(&times(4).add(&g, &c), &c));
    assert!(times(6).equals(&times(5).add(&g, &c), &c));
    // the neutral element times anything
    assert!(id.scalar_mul(&Scalar::from_u64(123_456_789, &c), &c).equals(&id, &c));
}

#[test]
fn e521_order_and_reduction() {
    let c = e521_curve();
    let g = ExtendedPoint::generator(&c);
    let id = ExtendedPoint::id_point(&c);
    let r_bytes = e521_hex(E521_R);
    // r G is the neutral element
    assert!(g.scalar_mul(&Scalar::from_be_bytes(&r_bytes, &c), &c).equals(&id, &c));
    // (r - 1) G is -G
    let r_less_one = Scalar::from_u64(0, &c).sub(&Scalar::from_u64(1, &c), &c);
    assert!(g.scalar_mul(&r_less_one, &c).equals(&g.negate(&c), &c));
    // a number far above r and its remainder
    let big: Vec<u8> = (1u8..=200).collect();
    let k = Scalar::from_be_bytes(&big, &c);
    let k_mod_r = Scalar::from_be_bytes(&e521_hex(E521_BIG_MOD_R), &c);
    assert!(k.equals(&k_mod_r));
    assert!(g.scalar_mul(&k, &c).equals(&g.scalar_mul(&k_mod_r, &c), &c));
}

#[test]
fn e521_multiples_by_numbers_that_are_not_reduced() {
    let c = e521_curve();
    let g = ExtendedPoint::generator(&c);
    let id = ExtendedPoint::id_point(&c);
    // the order itself, limb for limb
    let r = Scalar::from_limbs(c.order.p.clone());
    assert!(g.scalar_mul(&r, &c).equals(&id, &c));
    // the order plus five
    let mut limbs = c.order.p.clone();
    limbs[0] += 5;
    let r_plus_five = Scalar::from_limbs(limbs);
    assert!(g.scalar_mul(&r_plus_five, &c).equals(&g.scalar_mul(&Scalar::from_u64(5, &c), &c), &c));
    // twice the order, in one limb more
    let mut doubled: Vec<u32> = Vec::new();
    let mut carry = 0u32;
    for limb in c.order.p.iter() {
        doubled.push((limb << 1) | carry);
        carry = limb >> 31;
    }
    doubled.push(carry);
    assert!(g.scalar_mul(&Scalar::from_limbs(doubled), &c).equals(&id, &c));
    // 200 bytes, far above the order, against their remainder
    let big: Vec<u8> = (1u8..=200).collect();
    let mut big_limbs: Vec<u32> = Vec::new();
    for chunk in big.rchunks(4) {
        big_limbs.push(chunk.iter().fold(0u32, |acc, b| (acc << 8) | *b as u32));
    }
    let unreduced = Scalar::from_limbs(big_limbs);
    let reduced = Scalar::from_be_bytes(&big, &c);
    assert_eq!(reduced.to_be_bytes(), e521_hex(E521_BIG_MOD_R));
    assert!(g.scalar_mul(&unreduced, &c).equals(&g.scalar_mul(&reduced, &c), &c));
    // no limbs at all spell zero
    assert!(g.scalar_mul(&Scalar::from_limbs(vec![]), &c).equals(&id, &c));
}

#[test]
fn e521_linearity_on_samples() {
    let c = e521_curve();
    let g = ExtendedPoint::generator(&c);
    let k = Scalar::from_be_bytes(&(50u8..120).collect::<Vec<u8>>(), &c);
    let t = Scalar::from_be_bytes(&(3u8..90).collect::<Vec<u8>>(), &c);
    let one = Scalar::from_u64(1, &c);
    let kg = g.scalar_mul(&k, &c);
    let tg = g.scalar_mul(&t, &c);
    assert!(g.scalar_mul(&k.add(&one, &c), &c).equals(&kg.add(&g, &c), &c));
    assert!(g.scalar_mul(&k.add(&t, &c), &c).equals(&kg.add(&tg, &c), &c));
    let ktg = tg.scalar_mul(&k, &c);
    let tkg = kg.scalar_mul(&t, &c);
    assert!(ktg.equals(&tkg, &c));
    assert!(g.scalar_mul(&k.mul(&t, &c), &c).equals(&ktg, &c));
}

const E521_2G_X: &str =
    "0000006eeb7b013f129ea438e3c20718d31970649e584406b3d8cb65fdb712ce93fab60fc5be0c62987d287174a21e555fbe43ac0084480a3efc77be676a69618d42b608";

const E521_2G_Y: &str =
    "000001cd24f86e41d6100036972e63e25fe9a62369926575d001f18a26f2788fce6aeb2d9af77e39aa610f9c2db5590905a11914925baefcfd84edfdff2bc2e6d39a7079";

const E521_3G_X: &str =
    "0000009ed8337a1b1fb140588ca6a7512e1607b3262b4419325e6c8bbfa66a0ef961e6d53463ea68abb72e2fc8db75744080b8f5276910dfc1893d313ec36eb8e5e7c326";

const E521_3G_Y: &str =
    "000001a16ffec329165b9f4e22e9834b702332d2264fe2ff1b5781fb1b373febf4ae37885bf3b471272db5ab8384e6572bc917424920dd6bdb1054a5c01caf25ca5237e1";

const E521_GY: &str =
    "0000011dd4b4952f9b741bdb15c806d24013b3ebf3be43295904d1e4050b3c80f5920a145616ebb481557d7bfa955cbfb1cfd4e064b0de40f93e22f8bcdfb41d0093b10c";

const E521_P: &str =
    "000001ffffffffffffffffffffffffffffffffffffffffffffffffffffffffffffffffffffffffffffffffffffffffffffffffffffffffffffffffffffffffffffffffff";

const E521_R: &str =
    "0000007ffffffffffffffffffffffffffffffffffffffffffffffffffffffffffffffffd15b6c64746fc85f736b8af5e7ec53f04fbd8c4569a8f1f4540ea2435f5180d6b";

const E521_A: &str =
    "000000000000000000000000024385903b12395a107b340eb61715ee81afd458f66e7cb6948067803047e483a7221f8d18f128e146da38cd2d181c665abc83eb6cde7c10";

const E521_B: &str =
    "000000b7b510251120d80e86067e0a5f317cf38647ce1407860ac63ed4d44d479b2f040d464735c68932013ca2fa2d9161152d1da5dc6a574354eeaa62d2949182176feb";

const E521_SUM: &str =
    "000000b7b510251120d80e8608c18fef6c8f2ce0584948163c21dc2d568421a0919d80c3dac79d46b979e5c04a1c4d1e7a0655feecb6a324706d0b10bd8f187ceef5ebfb";

const E521_A_LESS_B: &str =
    "000001484aefdaeedf27f179fbc57b31099545d3c8ad2007300c4fafacdb87115b3f78a94e3931b9a715e3470427f1fbb7dbfbc3a0fdce75e9c32dbbf7e9ef59eac70c24";

const E521_B_LESS_A: &str =
    "000000b7b510251120d80e86043a84cef66aba2c3752dff8cff3b050532478eea4c08756b1c6ce4658ea1cb8fbd80e044824043c5f02318a163cd244081610a61538f3db";

const E521_PRODUCT: &str =
    "0000008e3a3097c17df21b5f4735517b0bd1435ce6027f3bb129eaf47f51ac480db92a64d07c7f825ddbd6686ae491a62f3dc749ea7601816d9812a9f10e9daa4689fcdb";

const E521_A_INVERSE: &str =
    "00000010f7ae7223fa0b808ae6c173cbf5bc7ece9da67e44199170ae189873fc637115652e889f9cdfe38789728b5c1c963c0dd4aa86e752a53322808a0fcf8d1c27cd6b";

const E521_MINUS_A: &str =
    "000001fffffffffffffffffffdbc7a6fc4edc6a5ef84cbf149e8ea117e502ba7099183496b7f987fcfb81b7c58dde072e70ed71eb925c732d2e7e399a5437c14932183ef";

const E521_BIG_MOD_R: &str =
    "0000003eff996ab8cf8d214845b2c1671c416d41f9c7b99f612c8ef395111b01d9ec010c33dcd789a9bf22292ad96abe4e63a7723bc7d31c7ef3c2388a6e44e69c42ef54";

const E521_BIG_MOD_P: &str =
    "000001edaf7132f4b67839fbbd7f4102c4864809cb8d4f10d2945617d99b5d1ee0a26425e7a96b2ceeb07233f5b7793afcbe804203c587490acc8e5011d39557391afcdd";

const E521_S1: &str =
    "0000003738393a3b3c3d3e3f404142434445464748494a4b4c4d4e4f505153780379737bd342685c8dfc2b9b67e790d8460b5fe6c2feb23b4da3c1b727b36f4a03497f53";

const E521_S2: &str =
    "000000191a1b1c1d1e1f2021222335ba4d154af3cd7569f302d936144e22d5b56ff380c88e9f2dc098c03799699f585cf496fab190b0eee0ecebe42209a2cb1f33079a49";

const E521_S1_PLUS_S2: &str =
    "00000050525456585a5c5e60626477fd915a913b15beb43e4f2684639e74292d736cf44461e1961d26bc6334d186e9353aa25a9853afa11c3a8fa5d931563a693651199c";

const E521_S1_LESS_S2: &str =
    "0000001e1e1e1e1e1e1e1e1e1e1e0c88f72ffb537ad3e0584974183b022e7dc29385f2b344a33a9bf53bf401fe48387b51746535324dc35a60b7dd951e10a42ad041e50a";

const E521_S1_TIMES_S2: &str =
    "0000001f8df176b0c1eceec474fa7a87abccca7cd01937b66a715fdbab3403c084a41bf594dfdbb31ba5d072942aa95631c5eab2effb6efedf366246c726002528df80df";
