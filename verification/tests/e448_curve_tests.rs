use capycrypt::curve::affine::AffinePoint;
use capycrypt::curve::extended_edwards::ExtendedPoint;
use capycrypt::curve::field::field_element::FieldElement;
use capycrypt::curve::params::{Curve, EdCurves};
use capycrypt::curve::scalar::Scalar;

fn e448_hex(s: &str) -> Vec<u8> {
    (0..s.len() / 2).map(|i| u8::from_str_radix(&s[2 * i..2 * i + 2], 16).unwrap()).collect()
}

fn e448_curve() -> Curve {
    Curve::new(EdCurves::E448)
}

fn e448_fe(s: &str, c: &Curve) -> FieldElement {
    FieldElement::from_be_bytes(&e448_hex(s), &c.field)
}

fn e448_point(x: &str, y: &str, c: &Curve) -> ExtendedPoint {
    AffinePoint { x: e448_fe(x, c), y: e448_fe(y, c) }.to_extended(c)
}

#[test]
fn e448_parameters() {
    let c = e448_curve();
    assert_eq!(c.limbs(), 14);
    assert_eq!(c.field.p.len(), 14);
    assert_eq!(c.order.p.len(), 14);
    assert_eq!(FieldElement { limbs: c.field.p.clone() }.to_be_bytes(), e448_hex(E448_P));
    assert_eq!(Scalar { limbs: c.order.p.clone() }.to_be_bytes(), e448_hex(E448_R));
    let g = AffinePoint::generator(&c);
    assert!(g.x.equals(&FieldElement::from_u32(8, c.limbs())));
    assert_eq!(g.y.to_be_bytes(), e448_hex(E448_GY));
}

#[test]
fn e448_field_arithmetic() {
    let c = e448_curve();
    let m = &c.field;
    let a = e448_fe(E448_A, &c);
    let b = e448_fe(E448_B, &c);
    assert_eq!(a.add(&b, m).to_be_bytes(), e448_hex(E448_SUM));
    assert_eq!(a.sub(&b, m).to_be_bytes(), e448_hex(E448_A_LESS_B));
    assert_eq!(b.sub(&a, m).to_be_bytes(), e448_hex(E448_B_LESS_A));
    assert_eq!(a.mul(&b, m).to_be_bytes(), e448_hex(E448_PRODUCT));
    assert_eq!(a.neg(m).to_be_bytes(), e448_hex(E448_MINUS_A));
    assert_eq!(a.invert(m).to_be_bytes(), e448_hex(E448_A_INVERSE));
    assert!(a.mul(&a.invert(m), m).equals(&FieldElement::one(c.limbs())));
    assert!(a.add(&a.neg(m), m).is_zero());
    assert!(!a.equals(&b));
    assert!(a.clone().equals(&a));
}

#[test]
fn e448_field_wraps_at_the_prime() {
    let c = e448_curve();
    let m = &c.field;
    let one = FieldElement::one(c.limbs());
    let zero = FieldElement::zero(c.limbs());
    // p - 1, then one more
    let top = zero.sub(&one, m);
    assert!(top.add(&one, m).is_zero());
    assert!(top.mul(&top, m).equals(&one));
    assert!(zero.neg(m).is_zero());
    // the bytes of the prime itself name zero
    assert!(e448_fe(E448_P, &c).is_zero());
    assert_eq!(
        FieldElement::from_be_bytes(&(1u8..=200).collect::<Vec<u8>>(), m).to_be_bytes(),
        e448_hex(E448_BIG_MOD_P)
    );
}

#[test]
fn e448_scalar_arithmetic() {
    let c = e448_curve();
    let s1 = Scalar::from_be_bytes(&(50u8..120).collect::<Vec<u8>>(), &c);
    let s2 = Scalar::from_be_bytes(&(3u8..90).collect::<Vec<u8>>(), &c);
    assert_eq!(s1.to_be_bytes(), e448_hex(E448_S1));
    assert_eq!(s2.to_be_bytes(), e448_hex(E448_S2));
    assert_eq!(s1.add(&s2, &c).to_be_bytes(), e448_hex(E448_S1_PLUS_S2));
    assert_eq!(s1.sub(&s2, &c).to_be_bytes(), e448_hex(E448_S1_LESS_S2));
    assert_eq!(s1.mul(&s2, &c).to_be_bytes(), e448_hex(E448_S1_TIMES_S2));
    assert_eq!(
        Scalar::from_be_bytes(&(1u8..=200).collect::<Vec<u8>>(), &c).to_be_bytes(),
        e448_hex(E448_BIG_MOD_R)
    );
    assert!(Scalar::from_be_bytes(&e448_hex(E448_R), &c).equals(&Scalar::from_u64(0, &c)));
    assert!(Scalar::from_u64(0x0123_4567_89ab_cdef, &c)
        .equals(&Scalar::from_be_bytes(&[0x01, 0x23, 0x45, 0x67, 0x89, 0xab, 0xcd, 0xef], &c)));
    assert!(Scalar::from_be_bytes(&[], &c).equals(&Scalar::from_u64(0, &c)));
    assert!(s1.copy().equals(&s1));
}

#[test]
fn e448_identity_and_conversions() {
    let c = e448_curve();
    let id = AffinePoint::identity(&c);
    assert!(id.x.is_zero());
    assert!(id.y.equals(&FieldElement::one(c.limbs())));
    let ext = id.to_extended(&c);
    assert!(ext.X.is_zero() && ext.T.is_zero());
    assert!(ext.Y.equals(&FieldElement::one(c.limbs())));
    assert!(ext.Z.equals(&FieldElement::one(c.limbs())));
    assert!(ext.equals(&ExtendedPoint::id_point(&c), &c));

    let g = AffinePoint::generator(&c);
    let e = g.to_extended(&c);
    assert!(e.X.equals(&g.x) && e.Y.equals(&g.y));
    assert!(e.Z.equals(&FieldElement::one(c.limbs())));
    assert!(e.T.equals(&g.x.mul(&g.y, &c.field)));
    let back = e.to_affine(&c);
    assert!(back.x.equals(&g.x) && back.y.equals(&g.y));
}

#[test]
fn e448_known_multiples() {
    let c = e448_curve();
    let g = ExtendedPoint::generator(&c);
    let two = g.double(&c).to_affine(&c);
    assert_eq!(two.x.to_be_bytes(), e448_hex(E448_2G_X));
    assert_eq!(two.y.to_be_bytes(), e448_hex(E448_2G_Y));
    let three = g.scalar_mul(&Scalar::from_u64(3, &c), &c).to_affine(&c);
    assert_eq!(three.x.to_be_bytes(), e448_hex(E448_3G_X));
    assert_eq!(three.y.to_be_bytes(), e448_hex(E448_3G_Y));
    assert!(e448_point(E448_2G_X, E448_2G_Y, &c).add(&g, &c).equals(
        &e448_point(E448_3G_X, E448_3G_Y, &c),
        &c
    ));
}

#[test]
fn e448_group_laws_on_samples() {
    let c = e448_curve();
    let g = ExtendedPoint::generator(&c);
    let id = ExtendedPoint::id_point(&c);
    let p = g.scalar_mul(&Scalar::from_u64(7, &c), &c);
    let q = g.scalar_mul(&Scalar::from_u64(1_000_003, &c), &c);
    let r = g.scalar_mul(&Scalar::from_u64(0xffff_ffff_ffff_fff1, &c), &c);
    // the neutral element, on either side
    assert!(p.add(&id, &c).equals(&p, &c));
    assert!(id.add(&p, &c).equals(&p, &c));
    assert!(id.double(&c).equals(&id, &c));
    assert!(id.negate(&c).equals(&id, &c));
    // commutativity and associativity
    assert!(p.add(&q, &c).equals(&q.add(&p, &c), &c));
    assert!(p.add(&q, &c).add(&r, &c).equals(&p.add(&q.add(&r, &c), &c), &c));
    // inverses
    assert!(q.add(&q.negate(&c), &c).equals(&id, &c));
    assert!(q.negate(&c).negate(&c).equals(&q, &c));
    assert!(!q.negate(&c).equals(&q, &c));
    // doubling is adding to itself
    assert!(r.double(&c).equals(&r.add(&r, &c), &c));
    // the same point under two sets of coordinates
    let scaled = id.add(&q.double(&c), &c);
    assert!(scaled.equals(&q.double(&c), &c));
    assert!(!p.equals(&q, &c));
    assert!(p.copy().equals(&p, &c));
}

#[test]
fn e448_zero_one_two_four_times_g() {
    let c = e448_curve();
    let g = ExtendedPoint::generator(&c);
    let id = ExtendedPoint::id_point(&c);
    let times = |k: u64| g.scalar_mul(&Scalar::from_u64(k, &c), &c);
    assert!(times(0).equals(&id, &c));
    assert!(times(1).equals(&g, &c));
    assert!(times(2).equals(&g.add(&g, &c), &c));
    assert!(times(4).equals(&times(2).scalar_mul(&Scalar::from_u64(2, &c), &c), &c));
    assert!(!times(4).equals(&id, &c));
    assert!(times(5).equals(&times(4).add(&g, &c), &c));
    assert!(times(6).equals(&times(5).add(&g, &c), &c));
    // the neutral element times anything
    assert!(id.scalar_mul(&Scalar::from_u64(123_456_789, &c), &c).equals(&id, &c));
}

#[test]
fn e448_order_and_reduction() {
    let c = e448_curve();
    let g = ExtendedPoint::generator(&c);
    let id = ExtendedPoint::id_point(&c);
    let r_bytes = e448_hex(E448_R);
    // r G is the neutral element
    assert!(g.scalar_mul(&Scalar::from_be_bytes(&r_bytes, &c), &c).equals(&id, &c));
    // (r - 1) G is -G
    let r_less_one = Scalar::from_u64(0, &c).sub(&Scalar::from_u64(1, &c), &c);
    assert!(g.scalar_mul(&r_less_one, &c).equals(&g.negate(&c), &c));
    // a number far above r and its remainder
    let big: Vec<u8> = (1u8..=200).collect();
    let k = Scalar::from_be_bytes(&big, &c);
    let k_mod_r = Scalar::from_be_bytes(&e448_hex(E448_BIG_MOD_R), &c);
    assert!(k.equals(&k_mod_r));
    assert!(g.scalar_mul(&k, &c).equals(&g.scalar_mul(&k_mod_r, &c), &c));
}

#[test]
fn e448_multiples_by_numbers_that_are_not_reduced() {
    let c = e448_curve();
    let g = ExtendedPoint::generator(&c);
    let id = ExtendedPoint::id_point(&c);
    // the order itself, limb for limb
    let r = Scalar::from_limbs(c.order.p.clone());
    assert!(g.scalar_mul(&r, &c).equals(&id, &c));
    // the order plus five
    let mut limbs = c.order.p.clone();
    limbs[0] += 5;
    let r_plus_five = Scalar::from_limbs(limbs);
    assert!(g.scalar_mul(&r_plus_five, &c).equals(&g.scalar_mul(&Scalar::from_u64(5, &c), &c), &c));
    // twice the order, in one limb more
    let mut doubled: Vec<u32> = Vec::new();
    let mut carry = 0u32;
    for limb in c.order.p.iter() {
        doubled.push((limb << 1) | carry);
        carry = limb >> 31;
    }
    doubled.push(carry);
    assert!(g.scalar_mul(&Scalar::from_limbs(doubled), &c).equals(&id, &c));
    // 200 bytes, far above the order, against their remainder
    let big: Vec<u8> = (1u8..=200).collect();
    let mut big_limbs: Vec<u32> = Vec::new();
    for chunk in big.rchunks(4) {
        big_limbs.push(chunk.iter().fold(0u32, |acc, b| (acc << 8) | *b as u32));
    }
    let unreduced = Scalar::from_limbs(big_limbs);
    let reduced = Scalar::from_be_bytes(&big, &c);
    assert_eq!(reduced.to_be_bytes(), e448_hex(E448_BIG_MOD_R));
    assert!(g.scalar_mul(&unreduced, &c).equals(&g.scalar_mul(&reduced, &c), &c));
    // no limbs at all spell zero
    assert!(g.scalar_mul(&Scalar::from_limbs(vec![]), &c).equals(&id, &c));
}

#[test]
fn e448_linearity_on_samples() {
    let c = e448_curve();
    let g = ExtendedPoint::generator(&c);
    let k = Scalar::from_be_bytes(&(50u8..120).collect::<Vec<u8>>(), &c);
    let t = Scalar::from_be_bytes(&(3u8..90).collect::<Vec<u8>>(), &c);
    let one = Scalar::from_u64(1, &c);
    let kg = g.scalar_mul(&k, &c);
    let tg = g.scalar_mul(&t, &c);
    assert!(g.scalar_mul(&k.add(&one, &c), &c).equals(&kg.add(&g, &c), &c));
    assert!(g.scalar_mul(&k.add(&t, &c), &c).equals(&kg.add(&tg, &c), &c));
    let ktg = tg.scalar_mul(&k, &c);
    let tkg = kg.scalar_mul(&t, &c);
    assert!(ktg.equals(&tkg, &c));
    assert!(g.scalar_mul(&k.mul(&t, &c), &c).equals(&ktg, &c));
}

const E448_2G_X: &str =
    "0ecba514e483aaf0619c177b56c35f3984c8f0bba1667200e0ecca2d727dcec89db89afb8ce3b83a86d594d9b59aa0696279d2a3d65dc4eb";

const E448_2G_Y: &str =
    "e1f6e7016fab56e57cf876c65e7f38e42b1584b9889734d7f20b431d9f9f7eb51732d5740dac1127ffebc91c348e455ef0101363b64053f0";

const E448_3G_X: &str =
    "2d72551a917f5edc26c2cbf69e4c31ccb787e06ceabc2731515b29d95ab85d41e18307dfdc6f09bc36cff577557c70e8239f6bee29f52709";

const E448_3G_Y: &str =
    "a947c2fc5f8ff108247883cfb3e1bfc9b70a77cab6b4baa21d7bbf809db14ad6121628160d169ff2fc2ecdae070b0982a2866e4f761808c7";

const E448_GY: &str =
    "c66f6f0565e6d0b5f2bb263cebb9f8540eb046f40ed0fff7f84d84653b428d989aabff93b6bf700801228094e3dd0c2d1c600e3b0bccfc32";

const E448_P: &str =
    "fffffffffffffffffffffffffffffffffffffffffffffffffffffffeffffffffffffffffffffffffffffffffffffffffffffffffffffffff";

const E448_R: &str =
    "3fffffffffffffffffffffffffffffffffffffffffffffffffffffff7cca23e9c44edb49aed63690216cc2728dc58f552378c292ab5844f3";

const E448_A: &str =
    "024385903b12395a107b340eb61715ee81afd458f66e7cb6948067803047e483a7221f8d18f128e146da38cd2d181c665abc83eb6cde7c10";

const E448_B: &str =
    "c38c891dffcf6ecc85583bad82c7f434e3d06cd93391824b0c5470b4cae714c34eb458a95282a67f8e23b39ea95c116bfc6fda0c4f49eb20";

const E448_SUM: &str =
    "c5d00eae3ae1a82695d36fbc38df0a236580413229ffff01a0d4d834fb2ef946f5d678366b73cf60d4fdec6bd6742dd2572c5df7bc286730";

const E448_A_LESS_B: &str =
    "3eb6fc723b42ca8d8b22f861334f21b99ddf677fc2dcfa6b882bf6ca6560cfc0586dc6e3c66e8261b8b6852e83bc0afa5e4ca9df1d9490ef";

const E448_B_LESS_A: &str =
    "c149038dc4bd357274dd079eccb0de46622098803d23059477d409349a9f303fa792391c39917d9e47497ad17c43f505a1b35620e26b6f10";

const E448_PRODUCT: &str =
    "8533791dd96baed6f6065126c8dff90327d11152fbebac22c292abe8309fd0ca9010dd2655eb89bae7ff5c675a7453729f7ce552074f7b65";

const E448_A_INVERSE: &str =
    "ca56a9a9cb2f728c47a9a623d24176db7ce7c73cae3dbad14aa44d0d41dd56710d9d4c2ab8e50fcf37d275a12e4bbdc180505da384da410a";

const E448_MINUS_A: &str =
    "fdbc7a6fc4edc6a5ef84cbf149e8ea117e502ba7099183496b7f987ecfb81b7c58dde072e70ed71eb925c732d2e7e399a5437c14932183ef";

const E448_BIG_MOD_R: &str =
    "3120009d71c089378663a643ad5e02400b9cc30098acaa207c70b20a459a472816c67d768d3347d85c41cc78df31b9f91322e454f75220fd";

const E448_BIG_MOD_P: &str =
    "3f53677b8fa3b7cbdff4081c3044586c8094a8bcd0e4f90d2e4f709173808d9aa7b4c1cedbe8f603101d2a3744515e6b7885929fb4c9def3";

const E448_S1: &str =
    "004142434445464748494a4b4c4db53a5e36ed404456bcf5afcb1296b9b34e5df6578e052849b03e39be05617772dd2774e538b913d1ea50";

const E448_S2: &str =
    "1d7ffcea068927315e7e8e90dbdbcae574808c0a2f89708f34aa4b8c87dc91c29599fa9cae852da53285a76f8fe309d5eb4e613ee5fc7add";

const E448_S1_PLUS_S2: &str =
    "1dc13f2d4ace6d78a6c7d8dc2829801fd2b7794a73e02d84e4755e23418fe0208bf188a1d6cedde36c43acd10755e6fd603399f7f9ce652d";

const E448_S1_LESS_S2: &str =
    "22c145593dbc1f15e9cabbba7071ea54e9b6613614cd4c667b20c709aea0e085250c6eb2289ab92928a52064755562a6ad0f9a0cd92db466";

const E448_S1_TIMES_S2: &str =
    "03d21e0562cd4214db718623dc08b05b6cb56c86f5a3f38564b95ea9ece619a5e5b29b8aaf1e09ef6f89bf50ee191af8429336b3b7649ae2";
