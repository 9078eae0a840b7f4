use purplecoin_vm::bigint::BigSigned;
use purplecoin_vm::bigint::BigUnsigned;
use purplecoin_vm::model::Arith;
use purplecoin_vm::model::Kind;
use purplecoin_vm::model::Relation;
use purplecoin_vm::term::VmTerm;

#[test]
fn add_one_stops_at_the_largest_number_of_a_fixed_width() {
    let mut t = VmTerm::Unsigned8(255);
    assert_eq!(t.add_one(), None);
    assert_eq!(t, VmTerm::Unsigned8(255));
    let mut t = VmTerm::Unsigned8(254);
    assert_eq!(t.add_one(), Some(()));
    assert_eq!(t, VmTerm::Unsigned8(255));
    let mut t = VmTerm::Unsigned16(u16::MAX);
    assert_eq!(t.add_one(), None);
    let mut t = VmTerm::Unsigned32(u32::MAX);
    assert_eq!(t.add_one(), None);
    let mut t = VmTerm::Unsigned64(u64::MAX);
    assert_eq!(t.add_one(), None);
    let mut t = VmTerm::Unsigned128(u128::MAX);
    assert_eq!(t.add_one(), None);
    assert_eq!(t, VmTerm::Unsigned128(u128::MAX));
    let mut t = VmTerm::Signed8(i8::MAX);
    assert_eq!(t.add_one(), None);
    let mut t = VmTerm::Signed16(-1);
    assert_eq!(t.add_one(), Some(()));
    assert_eq!(t, VmTerm::Signed16(0));
    let mut t = VmTerm::Signed32(i32::MAX);
    assert_eq!(t.add_one(), None);
    let mut t = VmTerm::Signed64(i64::MAX);
    assert_eq!(t.add_one(), None);
    let mut t = VmTerm::Signed128(i128::MAX);
    assert_eq!(t.add_one(), None);
    assert_eq!(t, VmTerm::Signed128(i128::MAX));
}

#[test]
fn add_one_always_works_on_a_big_integer() {
    let mut t = VmTerm::UnsignedBig(BigUnsigned::from_u128(u128::MAX));
    assert_eq!(t.add_one(), Some(()));
    let mut expected = vec![0u8; 16];
    expected.push(1);
    assert_eq!(t, VmTerm::UnsignedBig(BigUnsigned::from_le_bytes(&expected)));

    let mut t = VmTerm::UnsignedBig(BigUnsigned::from_le_bytes(&[0xff; 1000]));
    assert_eq!(t.add_one(), Some(()));
    let mut expected = vec![0u8; 1000];
    expected.push(1);
    assert_eq!(t, VmTerm::UnsignedBig(BigUnsigned::from_le_bytes(&expected)));

    let mut t = VmTerm::UnsignedBig(BigUnsigned::zero());
    assert_eq!(t.add_one(), Some(()));
    assert_eq!(t, VmTerm::UnsignedBig(BigUnsigned::from_u128(1)));

    let mut t = VmTerm::SignedBig(BigSigned::from_i128(-1));
    assert_eq!(t.add_one(), Some(()));
    assert_eq!(t, VmTerm::SignedBig(BigSigned::zero()));
    assert_eq!(t.add_one(), Some(()));
    assert_eq!(t, VmTerm::SignedBig(BigSigned::from_i128(1)));
    let mut t = VmTerm::SignedBig(BigSigned::from_i128(-256));
    assert_eq!(t.add_one(), Some(()));
    assert_eq!(t, VmTerm::SignedBig(BigSigned::from_i128(-255)));
    let mut t = VmTerm::SignedBig(BigSigned::from_i128(i128::MAX));
    assert_eq!(t.add_one(), Some(()));
    assert_eq!(
        t,
        VmTerm::SignedBig(BigSigned::from_sign_magnitude(
            false,
            BigUnsigned::from_u128(1u128 << 127)
        ))
    );
}

#[test]
fn sub_one_stops_at_the_smallest_number_of_a_fixed_width() {
    let mut t = VmTerm::Unsigned8(0);
    assert_eq!(t.sub_one(), None);
    assert_eq!(t, VmTerm::Unsigned8(0));
    let mut t = VmTerm::Unsigned64(1);
    assert_eq!(t.sub_one(), Some(()));
    assert_eq!(t, VmTerm::Unsigned64(0));
    let mut t = VmTerm::Unsigned128(0);
    assert_eq!(t.sub_one(), None);
    let mut t = VmTerm::Signed8(i8::MIN);
    assert_eq!(t.sub_one(), None);
    assert_eq!(t, VmTerm::Signed8(i8::MIN));
    let mut t = VmTerm::Signed128(i128::MIN);
    assert_eq!(t.sub_one(), None);
    let mut t = VmTerm::Signed32(0);
    assert_eq!(t.sub_one(), Some(()));
    assert_eq!(t, VmTerm::Signed32(-1));
}

#[test]
fn sub_one_on_big_integers() {
    let mut t = VmTerm::UnsignedBig(BigUnsigned::from_u128(1 << 64));
    assert_eq!(t.sub_one(), Some(()));
    assert_eq!(t, VmTerm::UnsignedBig(BigUnsigned::from_u128(u64::MAX as u128)));
    let mut t = VmTerm::UnsignedBig(BigUnsigned::from_u128(1));
    assert_eq!(t.sub_one(), Some(()));
    assert_eq!(t, VmTerm::UnsignedBig(BigUnsigned::zero()));
    let mut t = VmTerm::SignedBig(BigSigned::zero());
    assert_eq!(t.sub_one(), Some(()));
    assert_eq!(t, VmTerm::SignedBig(BigSigned::from_i128(-1)));
    let mut t = VmTerm::SignedBig(BigSigned::from_i128(i128::MIN));
    assert_eq!(t.sub_one(), Some(()));
    assert_eq!(t.sub_one(), Some(()));
    assert_eq!(t.add_one(), Some(()));
    assert_eq!(t.add_one(), Some(()));
    assert_eq!(t, VmTerm::SignedBig(BigSigned::from_i128(i128::MIN)));
}

#[test]
fn hashes_and_arrays_have_no_successor() {
    let mut t = VmTerm::Hash160([1; 20]);
    assert_eq!(t.add_one(), None);
    assert_eq!(t.sub_one(), None);
    assert_eq!(t, VmTerm::Hash160([1; 20]));
    let mut t = VmTerm::Unsigned8Array(vec![1]);
    assert_eq!(t.add_one(), None);
    assert_eq!(t.sub_one(), None);
    assert_eq!(t, VmTerm::Unsigned8Array(vec![1]));
    let mut t = VmTerm::SignedBigArray(vec![BigSigned::from_i128(1)]);
    assert_eq!(t.add_one(), None);
    assert_eq!(t, VmTerm::SignedBigArray(vec![BigSigned::from_i128(1)]));
}

#[test]
fn equals_1_is_false_for_hashes_arrays_and_other_numbers() {
    assert!(!VmTerm::Hash160([1; 20]).equals_1());
    assert!(!VmTerm::Hash256([1; 32]).equals_1());
    assert!(!VmTerm::Hash512([1; 64]).equals_1());
    assert!(!VmTerm::Unsigned8Array(vec![1]).equals_1());
    assert!(!VmTerm::Signed64Array(vec![1]).equals_1());
    assert!(!VmTerm::UnsignedBigArray(vec![BigUnsigned::from_u128(1)]).equals_1());
    assert!(!VmTerm::Unsigned8(0).equals_1());
    assert!(!VmTerm::Signed8(-1).equals_1());
    assert!(!VmTerm::SignedBig(BigSigned::from_i128(-1)).equals_1());
    assert!(!VmTerm::UnsignedBig(BigUnsigned::zero()).equals_1());
    assert!(!VmTerm::UnsignedBig(BigUnsigned::from_u128(257)).equals_1());
    assert!(VmTerm::UnsignedBig(BigUnsigned::from_le_bytes(&[1, 0, 0])).equals_1());
}

#[test]
fn virtual_sizes() {
    assert_eq!(VmTerm::Hash160([0; 20]).size(), 20);
    assert_eq!(VmTerm::Hash256([0; 32]).size(), 32);
    assert_eq!(VmTerm::Hash512([0; 64]).size(), 64);
    assert_eq!(VmTerm::Unsigned8(1).size(), 1);
    assert_eq!(VmTerm::Signed8(1).size(), 1);
    assert_eq!(VmTerm::Unsigned16(1).size(), 2);
    assert_eq!(VmTerm::Signed16(1).size(), 2);
    assert_eq!(VmTerm::Unsigned32(1).size(), 4);
    assert_eq!(VmTerm::Signed32(1).size(), 4);
    assert_eq!(VmTerm::Unsigned64(1).size(), 8);
    assert_eq!(VmTerm::Signed64(1).size(), 8);
    assert_eq!(VmTerm::Unsigned128(1).size(), 16);
    assert_eq!(VmTerm::Signed128(1).size(), 16);

    assert_eq!(VmTerm::UnsignedBig(BigUnsigned::zero()).size(), 24);
    assert_eq!(VmTerm::UnsignedBig(BigUnsigned::from_u128(1)).size(), 25);
    assert_eq!(VmTerm::UnsignedBig(BigUnsigned::from_u128(255)).size(), 25);
    assert_eq!(VmTerm::UnsignedBig(BigUnsigned::from_u128(256)).size(), 26);
    assert_eq!(VmTerm::UnsignedBig(BigUnsigned::from_u128(u128::MAX)).size(), 40);
    assert_eq!(VmTerm::SignedBig(BigSigned::zero()).size(), 32);
    assert_eq!(VmTerm::SignedBig(BigSigned::from_i128(-1)).size(), 33);
    assert_eq!(VmTerm::SignedBig(BigSigned::from_i128(0x1_0000)).size(), 35);

    assert_eq!(VmTerm::Hash160Array(vec![]).size(), 24);
    assert_eq!(VmTerm::Hash160Array(vec![[0; 20]; 3]).size(), 24 + 60);
    assert_eq!(VmTerm::Hash256Array(vec![[0; 32]; 3]).size(), 24 + 96);
    assert_eq!(VmTerm::Hash512Array(vec![[0; 64]; 3]).size(), 24 + 192);
    assert_eq!(VmTerm::Unsigned8Array(vec![0; 5]).size(), 29);
    assert_eq!(VmTerm::Signed8Array(vec![0; 5]).size(), 29);
    assert_eq!(VmTerm::Unsigned16Array(vec![0; 5]).size(), 34);
    assert_eq!(VmTerm::Signed16Array(vec![0; 5]).size(), 34);
    assert_eq!(VmTerm::Unsigned32Array(vec![0; 5]).size(), 44);
    assert_eq!(VmTerm::Signed32Array(vec![0; 5]).size(), 44);
    assert_eq!(VmTerm::Unsigned64Array(vec![0; 5]).size(), 64);
    assert_eq!(VmTerm::Signed64Array(vec![0; 5]).size(), 64);
    assert_eq!(VmTerm::Unsigned128Array(vec![0; 5]).size(), 104);
    assert_eq!(VmTerm::Signed128Array(vec![0; 5]).size(), 104);
    assert_eq!(
        VmTerm::UnsignedBigArray(vec![BigUnsigned::zero(), BigUnsigned::from_u128(256)]).size(),
        24 + 24 + 26
    );
    assert_eq!(
        VmTerm::SignedBigArray(vec![BigSigned::zero(), BigSigned::from_i128(-256)]).size(),
        24 + 32 + 34
    );
    assert_eq!(VmTerm::SignedBigArray(vec![]).capped_size(), 24);
    assert_eq!(VmTerm::Unsigned128Array(vec![0; 5]).capped_size(), 104);
}

#[test]
fn big_unsigned_numbers() {
    let n = BigUnsigned::from_le_bytes(&[1, 2, 0, 0]);
    assert_eq!(n, BigUnsigned::from_u128(0x0201));
    assert_eq!(n.to_le_bytes(), vec![1, 2]);
    assert_eq!(n.byte_len(), 2);
    assert_eq!(n.to_u128(), Some(0x0201));
    assert_eq!(BigUnsigned::zero().to_le_bytes(), Vec::<u8>::new());
    assert_eq!(BigUnsigned::from_le_bytes(&[0, 0]), BigUnsigned::zero());
    assert!(BigUnsigned::zero().is_zero());
    assert!(!n.is_zero());
    assert!(BigUnsigned::from_u128(1).is_one());
    assert_eq!(BigUnsigned::from_le_bytes(&[0xff; 17]).to_u128(), None);
    assert_eq!(BigUnsigned::from_u128(u128::MAX).to_u128(), Some(u128::MAX));
    assert!(n.equals(&BigUnsigned::from_u128(513)));
    assert!(!n.equals(&BigUnsigned::from_u128(514)));
    assert!(n.less_than(&BigUnsigned::from_u128(514)));
    assert!(!n.less_than(&BigUnsigned::from_u128(513)));
    assert!(!n.less_than(&BigUnsigned::from_u128(255)));
    assert!(BigUnsigned::from_u128(0x01ff).less_than(&n));
    assert!(n.less_than(&BigUnsigned::from_u128(0x1_0000)));
}

#[test]
fn big_arithmetic_is_that_of_ibig() {
    let a = BigUnsigned::from_le_bytes(&[0xff; 40]);
    let b = BigUnsigned::from_le_bytes(&[0x35; 23]);
    let ia = ibig::UBig::from_le_bytes(&[0xff; 40]);
    let ib = ibig::UBig::from_le_bytes(&[0x35; 23]);
    assert!(a.fits_arithmetic());
    assert_eq!(a.plus(&b).to_le_bytes(), (&ia + &ib).to_le_bytes());
    assert_eq!(a.minus(&b).to_le_bytes(), (&ia - &ib).to_le_bytes());
    assert_eq!(a.times(&b).to_le_bytes(), (&ia * &ib).to_le_bytes());
    assert_eq!(a.quotient(&b).to_le_bytes(), (&ia / &ib).to_le_bytes());
    assert_eq!(b.quotient(&a), BigUnsigned::zero());
    assert_eq!(
        BigUnsigned::from_u128(7).plus(&BigUnsigned::from_u128(8)),
        BigUnsigned::from_u128(15)
    );
    assert_eq!(
        BigUnsigned::from_u128(u128::MAX).plus(&BigUnsigned::from_u128(1)).to_le_bytes(),
        [vec![0u8; 16], vec![1]].concat()
    );
    assert_eq!(
        BigUnsigned::from_u128(1000).minus(&BigUnsigned::from_u128(1)),
        BigUnsigned::from_u128(999)
    );
    assert_eq!(
        BigUnsigned::from_u128(1000).times(&BigUnsigned::from_u128(1000)),
        BigUnsigned::from_u128(1_000_000)
    );
    assert_eq!(
        BigUnsigned::from_u128(1000).quotient(&BigUnsigned::from_u128(7)),
        BigUnsigned::from_u128(142)
    );
    assert!(!BigUnsigned::from_le_bytes(&vec![1u8; 0x10_0001]).fits_arithmetic());
}

#[test]
fn big_signed_numbers() {
    let minus_seven = BigSigned::from_i128(-7);
    let two = BigSigned::from_i128(2);
    assert_eq!(minus_seven.plus(&two), BigSigned::from_i128(-5));
    assert_eq!(two.plus(&minus_seven), BigSigned::from_i128(-5));
    assert_eq!(minus_seven.minus(&two), BigSigned::from_i128(-9));
    assert_eq!(two.minus(&minus_seven), BigSigned::from_i128(9));
    assert_eq!(minus_seven.times(&two), BigSigned::from_i128(-14));
    assert_eq!(minus_seven.times(&minus_seven), BigSigned::from_i128(49));
    assert_eq!(minus_seven.quotient(&two), BigSigned::from_i128(-3));
    assert_eq!(two.quotient(&minus_seven), BigSigned::zero());
    assert_eq!(minus_seven.quotient(&BigSigned::from_i128(-2)), BigSigned::from_i128(3));
    assert_eq!(minus_seven.negated(), BigSigned::from_i128(7));
    assert_eq!(BigSigned::zero().negated(), BigSigned::zero());
    assert_eq!(minus_seven.plus(&BigSigned::from_i128(7)), BigSigned::zero());
    assert!(!minus_seven.plus(&BigSigned::from_i128(7)).is_negative());
    assert!(minus_seven.less_than(&two));
    assert!(!two.less_than(&minus_seven));
    assert!(minus_seven.less_than(&BigSigned::from_i128(-6)));
    assert!(!minus_seven.less_than(&BigSigned::from_i128(-7)));
    assert!(minus_seven.equals(&BigSigned::from_i128(-7)));
    assert!(!minus_seven.equals(&BigSigned::from_i128(7)));
    assert_eq!(*minus_seven.magnitude(), BigUnsigned::from_u128(7));
    assert_eq!(
        BigSigned::from_sign_magnitude(true, BigUnsigned::zero()),
        BigSigned::zero()
    );
    assert_eq!(
        BigSigned::from_sign_magnitude(true, BigUnsigned::from_u128(3)),
        BigSigned::from_i128(-3)
    );
    assert_eq!(
        BigSigned::from_i128(i128::MIN).magnitude().to_le_bytes(),
        [vec![0u8; 15], vec![0x80]].concat()
    );
    let a = ibig::IBig::from(-123456789012345678901234567890i128);
    let b = ibig::IBig::from(987654321i128);
    let product = BigSigned::from_i128(-123456789012345678901234567890i128)
        .times(&BigSigned::from_i128(987654321));
    assert!(product.is_negative());
    assert_eq!(
        ibig::UBig::from_le_bytes(&product.magnitude().to_le_bytes()),
        ibig::UBig::try_from(-(a * b)).unwrap()
    );
}

#[test]
fn calculations_on_terms() {
    let a = VmTerm::Unsigned8(200);
    let b = VmTerm::Unsigned8(100);
    assert_eq!(a.combine(Arith::Add, &b), None);
    assert_eq!(a.combine(Arith::Sub, &b), Some(VmTerm::Unsigned8(100)));
    assert_eq!(b.combine(Arith::Sub, &a), None);
    assert_eq!(a.combine(Arith::Mul, &b), None);
    assert_eq!(a.combine(Arith::Div, &b), Some(VmTerm::Unsigned8(2)));
    assert_eq!(a.combine(Arith::Div, &VmTerm::Unsigned8(0)), None);
    assert_eq!(a.combine(Arith::Min, &b), Some(VmTerm::Unsigned8(100)));
    assert_eq!(a.combine(Arith::Max, &b), Some(VmTerm::Unsigned8(200)));
    assert_eq!(a.combine(Arith::Add, &VmTerm::Unsigned16(1)), None);
    assert_eq!(VmTerm::Hash256([0; 32]).combine(Arith::Add, &VmTerm::Unsigned8(1)), None);
    assert_eq!(
        VmTerm::Unsigned8Array(vec![1]).combine(Arith::Add, &VmTerm::Unsigned8Array(vec![1])),
        None
    );
    assert_eq!(
        VmTerm::Signed8(-7).combine(Arith::Div, &VmTerm::Signed8(2)),
        Some(VmTerm::Signed8(-3))
    );
    assert_eq!(VmTerm::Signed8(i8::MIN).combine(Arith::Div, &VmTerm::Signed8(-1)), None);
    assert_eq!(
        VmTerm::Signed64(-7).combine(Arith::Mul, &VmTerm::Signed64(-6)),
        Some(VmTerm::Signed64(42))
    );
    assert_eq!(
        VmTerm::Signed128(i128::MAX).combine(Arith::Add, &VmTerm::Signed128(1)),
        None
    );
    let big = VmTerm::UnsignedBig(BigUnsigned::from_u128(u128::MAX));
    assert_eq!(
        big.combine(Arith::Add, &VmTerm::UnsignedBig(BigUnsigned::from_u128(1))),
        Some(VmTerm::UnsignedBig(BigUnsigned::from_le_bytes(&[vec![0u8; 16], vec![1]].concat())))
    );
    assert_eq!(
        VmTerm::UnsignedBig(BigUnsigned::from_u128(1)).combine(Arith::Sub, &big),
        None
    );
    assert_eq!(
        big.combine(Arith::Div, &VmTerm::UnsignedBig(BigUnsigned::zero())),
        None
    );
    assert_eq!(
        VmTerm::SignedBig(BigSigned::from_i128(1))
            .combine(Arith::Sub, &VmTerm::SignedBig(BigSigned::from_i128(3))),
        Some(VmTerm::SignedBig(BigSigned::from_i128(-2)))
    );
    let too_long = VmTerm::UnsignedBig(BigUnsigned::from_le_bytes(&vec![1u8; 0x10_0001]));
    assert_eq!(too_long.combine(Arith::Add, &big), None);
    assert_eq!(too_long.combine(Arith::Min, &big), Some(big.clone()));
}

#[test]
fn comparisons_of_terms() {
    let a = VmTerm::Signed16(-5);
    let b = VmTerm::Signed16(5);
    assert_eq!(a.relate(Relation::Eq, &b), Some(false));
    assert_eq!(a.relate(Relation::Neq, &b), Some(true));
    assert_eq!(a.relate(Relation::Lt, &b), Some(true));
    assert_eq!(a.relate(Relation::Gt, &b), Some(false));
    assert_eq!(a.relate(Relation::Leq, &b), Some(true));
    assert_eq!(a.relate(Relation::Geq, &b), Some(false));
    assert_eq!(a.relate(Relation::Leq, &a), Some(true));
    assert_eq!(a.relate(Relation::Geq, &a), Some(true));
    assert_eq!(a.relate(Relation::Lt, &a), Some(false));
    assert_eq!(a.relate(Relation::Eq, &VmTerm::Signed32(-5)), None);
    assert_eq!(a.relate(Relation::Lt, &VmTerm::Signed32(-5)), None);
    assert_eq!(a.same(&a.clone()), Some(true));
    assert_eq!(
        VmTerm::Hash160([1; 20]).relate(Relation::Eq, &VmTerm::Hash160([1; 20])),
        Some(true)
    );
    assert_eq!(
        VmTerm::Hash160([1; 20]).relate(Relation::Neq, &VmTerm::Hash160([2; 20])),
        Some(true)
    );
    assert_eq!(VmTerm::Hash160([1; 20]).relate(Relation::Lt, &VmTerm::Hash160([2; 20])), None);
    assert_eq!(
        VmTerm::Unsigned16Array(vec![1, 2]).same(&VmTerm::Unsigned16Array(vec![1, 2])),
        Some(true)
    );
    assert_eq!(
        VmTerm::Unsigned16Array(vec![1, 2]).same(&VmTerm::Unsigned16Array(vec![1, 3])),
        Some(false)
    );
    assert_eq!(
        VmTerm::Unsigned16Array(vec![1, 2]).same(&VmTerm::Unsigned16Array(vec![1])),
        Some(false)
    );
    assert_eq!(VmTerm::Unsigned16Array(vec![1]).same(&VmTerm::Unsigned16(1)), None);
    assert_eq!(VmTerm::Unsigned16Array(vec![1]).below(&VmTerm::Unsigned16Array(vec![2])), None);
    assert_eq!(
        VmTerm::SignedBigArray(vec![BigSigned::from_i128(-1)])
            .same(&VmTerm::SignedBigArray(vec![BigSigned::from_i128(-1)])),
        Some(true)
    );
    assert_eq!(
        VmTerm::UnsignedBig(BigUnsigned::from_u128(1 << 70))
            .below(&VmTerm::UnsignedBig(BigUnsigned::from_u128(1 << 71))),
        Some(true)
    );
    assert_eq!(VmTerm::Hash512Array(vec![[1; 64]]).kind(), Kind::Hash512);
    assert!(VmTerm::Hash512Array(vec![[1; 64]]).is_array());
    assert_eq!(VmTerm::SignedBig(BigSigned::zero()).kind(), Kind::SignedBig);
    assert!(!VmTerm::SignedBig(BigSigned::zero()).is_array());
}
