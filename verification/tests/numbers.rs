use albatross_core::bignum::{big_add, big_from_u64, big_to_u64};
use albatross_core::fixed::{FixedUnsigned, Scale10};
use albatross_core::rpc::{
    BlockchainState, MempoolInfo, RPCData, Slots, TxFee, ValidityStartHeight,
};
use albatross_core::sigproof::{
    make_type_and_flags_byte, parse_type_and_flags_byte, SignatureProofAlgorithm,
    SignatureProofFlags,
};
use albatross_core::types::{Digest, ValidatorId, Validators, ValidatorSlotBand};

type Fixed = FixedUnsigned<Scale10>;

#[test]
fn big_integers_compute() {
    let a = big_from_u64(1);
    let b = big_from_u64(2);
    let sum = big_add(&a, &b);
    assert_eq!(big_to_u64(&sum), Some(3));
}

#[test]
fn fixed_point_arithmetic_is_exact() {
    let two = Fixed::from_u64(2);
    let three = Fixed::from_u64(3);
    let six = Fixed::from_u64(6);
    assert!(two.add(&three) == Fixed::from_u64(5));
    assert!(three.sub(&two) == Fixed::from_u64(1));
    assert!(two.mul(&three) == six);
    assert!(six.div(&three) == two);
    assert!(two.lt(&three));
    assert!(!three.lt(&two));
    assert_eq!(two.scale(), 10);
}

#[test]
fn fixed_point_division_rounds_half_up() {
    let one = Fixed::from_u64(1);
    let three = Fixed::from_u64(3);
    let third = one.div(&three);
    // one third at ten decimal places: 0.3333333333
    assert_eq!(big_to_u64(&third.get_int_value()), Some(3_333_333_333));
    // multiplying back rounds the missing third away: 0.9999999999
    let almost_one = third.mul(&three);
    assert_eq!(big_to_u64(&almost_one.get_int_value()), Some(9_999_999_999));
    // a half rounds up
    let half = one.div(&Fixed::from_u64(2));
    assert_eq!(big_to_u64(&half.get_int_value()), Some(5_000_000_000));
    let two_thirds = Fixed::from_u64(2).div(&three);
    assert_eq!(big_to_u64(&two_thirds.get_int_value()), Some(6_666_666_667));
}

#[test]
fn fixed_point_bytes_round_trip() {
    let value = Fixed::from_u64(77);
    let be = value.to_bytes_be();
    let le = value.to_bytes_le();
    assert!(Fixed::from_bytes_be(&be) == value);
    assert!(Fixed::from_bytes_le(&le) == value);
    let mut reversed = be.clone();
    reversed.reverse();
    assert_eq!(reversed, le);
    // the digits really move: 0x0100 big-endian is two hundred fifty six
    let x = Fixed::from_bytes_be(&[1, 0]);
    assert_eq!(big_to_u64(&x.get_int_value()), Some(256));
    let y = Fixed::from_bytes_le(&[1, 0]);
    assert_eq!(big_to_u64(&y.get_int_value()), Some(1));
}

#[test]
fn fixed_point_integer_part() {
    let seven = Fixed::from_u64(7);
    assert_eq!(big_to_u64(&seven.int_part()), Some(7));
    let one = Fixed::from_u64(1);
    let third = one.div(&Fixed::from_u64(3));
    assert_eq!(big_to_u64(&third.int_part()), Some(0));
    // 0.5 rounds up to one
    let half = one.div(&Fixed::from_u64(2));
    assert_eq!(big_to_u64(&half.int_part()), Some(1));
}

#[test]
fn type_and_flags_byte_round_trips() {
    let byte = make_type_and_flags_byte(SignatureProofAlgorithm::ES256, true);
    assert_eq!(byte, 0x11);
    let (algorithm, flags) = parse_type_and_flags_byte(byte).unwrap();
    assert_eq!(algorithm, SignatureProofAlgorithm::ES256);
    assert_eq!(flags.bits, 1);
    assert!(flags.contains_webauthn_fields());
    let byte = make_type_and_flags_byte(SignatureProofAlgorithm::Ed25519, false);
    assert_eq!(byte, 0x00);
    let (algorithm, flags) = parse_type_and_flags_byte(byte).unwrap();
    assert_eq!(algorithm, SignatureProofAlgorithm::Ed25519);
    assert!(!flags.contains_webauthn_fields());
    assert!(parse_type_and_flags_byte(0x02).is_err());
    assert_eq!(SignatureProofFlags::default().bits, 0);
}

#[test]
fn validity_start_height_resolves() {
    assert_eq!(ValidityStartHeight::Absolute(7).block_number(100), 7);
    assert_eq!(ValidityStartHeight::Relative(7).block_number(100), 107);
    assert_eq!(ValidityStartHeight::default().block_number(100), 100);
}

#[test]
fn mempool_statistics_tally_fee_bands() {
    let txs = vec![
        TxFee { fee: 0, size: 1 },
        TxFee { fee: 5, size: 2 },
        TxFee { fee: 5, size: 2 },
        TxFee { fee: 100000, size: 1 },
    ];
    let info = MempoolInfo::from_txs(&txs);
    assert_eq!(info.total, 4);
    assert_eq!(info._0, Some(1));
    assert_eq!(info._2, Some(2));
    assert_eq!(info._10000, Some(1));
    assert_eq!(info._1, None);
    assert_eq!(info._5000, None);
    let mut buckets = info.buckets.clone();
    buckets.sort();
    assert_eq!(buckets, vec![0, 2, 10000]);
}

#[test]
fn slot_table_lists_each_band() {
    let validators = Validators {
        bands: vec![
            ValidatorSlotBand { address: ValidatorId { value: 1 }, voting_key: 11, start: 0, end: 300 },
            ValidatorSlotBand { address: ValidatorId { value: 2 }, voting_key: 22, start: 300, end: 512 },
        ],
    };
    let table = Slots::from_slots(&validators);
    assert_eq!(table.len(), 2);
    assert_eq!(table[0].first_slot_number, 0);
    assert_eq!(table[0].num_slots, 300);
    assert_eq!(table[1].first_slot_number, 300);
    assert_eq!(table[1].num_slots, 212);
    assert_eq!(table[1].validator, ValidatorId { value: 2 });
}

#[test]
fn rpc_wrappers_keep_their_payload() {
    let state = BlockchainState::new(5, Digest { value: 9 });
    let wrapped = RPCData::new(42u32, state);
    assert_eq!(wrapped.data, 42);
    assert_eq!(wrapped.metadata.block_number, 5);
    assert_eq!(wrapped.metadata.block_hash, Digest { value: 9 });
}
