//! Tests of the twisted Edwards curve: generator membership, the
//! affine/projective conversions, scalar multiplication against known
//! values, and the byte round trip.

use dpc::ed_on_bn254::EdwardsAffine;
use dpc::ed_on_bn254::Fr;

#[test]
fn test_generator() {
    let generator = EdwardsAffine::prime_subgroup_generator();
    assert!(generator.is_on_curve());
    assert!(generator.is_in_correct_subgroup_assuming_on_curve());
}

#[test]
fn test_conversion() {
    let g = EdwardsAffine::prime_subgroup_generator();
    let sa = Fr::from_str("7263657152433247784259767716013343225712647967289259276871730219887657502431").unwrap();
    let sb = Fr::from_str("1327634973951362273942394539486121486184627789272392578421370031971253836798").unwrap();
    let a: EdwardsAffine = g.mul(&sa).into_affine();
    let b: EdwardsAffine = g.mul(&sb).into_affine();
    let a_b = a.add(&b).double().double();
    let a_b2 = a.into_projective().add(&b.into_projective()).double().double();
    assert_eq!(a_b, a_b2.into_affine());
    assert_eq!(a_b.into_projective(), a_b2);
}

#[test]
fn test_scalar_multiplication() {
    println!("Started getting field elements");
    let f1 = Fr::from_str(
        "4691331900926794624732159288782398864809513177368446695323460897088210774597",
    )
    .unwrap();
    let f2 = Fr::from_str(
        "1305028103380024953477151132159456965337646722479526711736847301646466538045",
    )
    .unwrap();

    println!("Finished getting field elements");
    let g = EdwardsAffine::from_str(
        "(5299619240641551281634865583518297030282874472190772894086521144482721001553, 16950150798460657717958625567821834550301663161624707787222815936182638968203)",
    )
    .unwrap();
    let f1f2g = EdwardsAffine::from_str(
        "(4801447892755635304907919953550459075619191823587157449340656925102682829025, 19987327827845206670850937090314462639017692512983955920885166014935289314257)",
    )
    .unwrap();

    println!("Finished getting group elements");

    assert!(!g.is_zero());
    assert!(!f1f2g.is_zero());

    let f1g = g.mul(&f1).into_affine();
    assert_eq!(g.mul(&f1.mul(&f2)).into_affine(), f1f2g);
    assert_eq!(f1g.mul(&f2).into_affine(), f1f2g);
}

#[test]
fn test_bytes() {
    let g_from_repr = EdwardsAffine::from_str(
        "(5299619240641551281634865583518297030282874472190772894086521144482721001553, 16950150798460657717958625567821834550301663161624707787222815936182638968203)",
    )
    .unwrap();

    let g_bytes = g_from_repr.to_bytes();
    let g = EdwardsAffine::read(&g_bytes).unwrap();
    assert_eq!(g_from_repr, g);
}

#[test]
fn test_scalar_field_arithmetic() {
    let two = Fr::from_str("2").unwrap();
    let three = Fr::from_str("3").unwrap();
    let six = Fr::from_str("6").unwrap();
    assert_eq!(two.mul(&three), six);
    assert!(Fr::from_str("").is_none());
    assert!(Fr::from_str("12a3").is_none());
}

#[test]
fn test_point_parsing_rejects_malformed_pairs() {
    assert!(EdwardsAffine::from_str("5, 6").is_none());
    assert!(EdwardsAffine::from_str("(5 6)").is_none());
    assert!(EdwardsAffine::from_str("(5,6)").is_none());
    assert!(EdwardsAffine::from_str("(, 6)").is_none());
    assert!(EdwardsAffine::from_str("(5, )").is_none());
    assert!(EdwardsAffine::from_str("(5, 6)").is_some());
}
