use bootloader_core::address::Relocatable;
use bootloader_core::felt::{digit_bytes, Felt, PRIME_TOP_DIGIT};
use cairo_vm::types::relocatable::Relocatable as VmRelocatable;
use num_traits::ToPrimitive;

#[test]
fn from_u64_keeps_the_value() {
    let f = Felt::from_u64(0x70616e6963);
    assert_eq!(f.digits(), (0x70616e6963, 0, 0, 0));
    assert_eq!(f.to_u64(), Some(0x70616e6963));
    assert_eq!(Felt::from_u64(u64::MAX).to_u64(), Some(u64::MAX));
    assert_eq!(Felt::from_u64(0).to_u64(), Some(0));
}

#[test]
fn from_usize_keeps_the_value() {
    assert_eq!(Felt::from_usize(42).to_usize(), Some(42));
    assert_eq!(Felt::from_usize(usize::MAX).to_usize(), Some(usize::MAX));
}

#[test]
fn large_elements_do_not_fit_u64() {
    let f = Felt::from_digits(5, 1, 0, 0).unwrap();
    assert_eq!(f.to_u64(), None);
    assert_eq!(f.to_usize(), None);
    let g = Felt::from_digits(5, 0, 0, 1).unwrap();
    assert_eq!(g.to_u64(), None);
}

#[test]
fn from_digits_refuses_the_prime_and_beyond() {
    // The prime itself: 2^251 + 17 * 2^192 + 1.
    assert_eq!(Felt::from_digits(1, 0, 0, PRIME_TOP_DIGIT), None);
    assert_eq!(Felt::from_digits(2, 0, 0, PRIME_TOP_DIGIT), None);
    assert_eq!(Felt::from_digits(0, 1, 0, PRIME_TOP_DIGIT), None);
    assert_eq!(Felt::from_digits(0, 0, 0, PRIME_TOP_DIGIT + 1), None);
    assert_eq!(Felt::from_digits(0, 0, 0, u64::MAX), None);
    // The prime less one is the largest element.
    let largest = Felt::from_digits(0, 0, 0, PRIME_TOP_DIGIT).unwrap();
    assert_eq!(largest.digits(), (0, 0, 0, PRIME_TOP_DIGIT));
    let below = Felt::from_digits(u64::MAX, u64::MAX, u64::MAX, PRIME_TOP_DIGIT - 1).unwrap();
    assert_eq!(below.digits(), (u64::MAX, u64::MAX, u64::MAX, PRIME_TOP_DIGIT - 1));
}

#[test]
fn equal_digits_make_equal_elements() {
    assert_eq!(Felt::from_u64(7), Felt::from_digits(7, 0, 0, 0).unwrap());
    assert_ne!(Felt::from_u64(7), Felt::from_u64(8));
}

#[test]
fn digit_bytes_are_big_endian() {
    assert_eq!(
        digit_bytes(0x0102030405060708),
        [0x01, 0x02, 0x03, 0x04, 0x05, 0x06, 0x07, 0x08]
    );
    assert_eq!(digit_bytes(0), [0u8; 8]);
    assert_eq!(digit_bytes(u64::MAX), [0xffu8; 8]);
}

#[test]
fn to_bytes_be_puts_the_top_digit_first() {
    let f = Felt::from_digits(0x1122334455667788, 0x99, 0xaabb, 0x0700000000000001).unwrap();
    let bytes = f.to_bytes_be();
    assert_eq!(&bytes[0..8], &[0x07, 0, 0, 0, 0, 0, 0, 0x01]);
    assert_eq!(&bytes[8..16], &[0, 0, 0, 0, 0, 0, 0xaa, 0xbb]);
    assert_eq!(&bytes[16..24], &[0, 0, 0, 0, 0, 0, 0, 0x99]);
    assert_eq!(&bytes[24..32], &[0x11, 0x22, 0x33, 0x44, 0x55, 0x66, 0x77, 0x88]);
}

#[test]
fn to_bytes_be_agrees_with_the_machine() {
    let f = Felt::from_digits(0x1122334455667788, 0x99, 0xaabb, 0x0700000000000001).unwrap();
    let theirs = cairo_vm::Felt252::from_bytes_be(&f.to_bytes_be());
    assert_eq!(theirs.to_le_digits(), [0x1122334455667788, 0x99, 0xaabb, 0x0700000000000001]);
    assert_eq!(theirs.to_bytes_be(), f.to_bytes_be());
}

#[test]
fn addresses_move_within_their_segment() {
    let a = Relocatable { segment_index: 3, offset: 10 };
    assert_eq!(a.add_usize(5), Some(Relocatable { segment_index: 3, offset: 15 }));
    assert_eq!(a.sub_usize(10), Some(Relocatable { segment_index: 3, offset: 0 }));
    assert_eq!(a.sub_usize(11), None);
    assert_eq!(a.add_usize(usize::MAX), None);
    assert_eq!(
        a.add_usize(usize::MAX - 10),
        Some(Relocatable { segment_index: 3, offset: usize::MAX })
    );
    assert_eq!(a.add_usize(0), Some(a));
}

#[test]
fn conversions_agree_with_the_field_elements_of_the_machine() {
    let samples = [
        (0u64, 0u64, 0u64, 0u64),
        (1, 0, 0, 0),
        (u64::MAX, 0, 0, 0),
        (0, 1, 0, 0),
        (5, 0, 1, 0),
        (7, 0, 0, 1),
        (u64::MAX, u64::MAX, u64::MAX, PRIME_TOP_DIGIT - 1),
        (0, 0, 0, PRIME_TOP_DIGIT),
    ];
    for (d0, d1, d2, d3) in samples {
        let ours = Felt::from_digits(d0, d1, d2, d3).unwrap();
        let theirs = cairo_vm::Felt252::from_bytes_be(&ours.to_bytes_be());
        assert_eq!(theirs.to_le_digits(), [d0, d1, d2, d3]);
        assert_eq!(ours.to_u64(), theirs.to_u64());
        assert_eq!(ours.to_usize(), theirs.to_usize());
    }
}

#[test]
fn address_arithmetic_agrees_with_the_machine() {
    let samples = [
        (0isize, 0usize, 0usize),
        (1, 5, 3),
        (-2, 7, 7),
        (3, 7, 8),
        (0, usize::MAX, 1),
        (4, usize::MAX - 1, 1),
    ];
    for (segment_index, offset, n) in samples {
        let ours = Relocatable { segment_index, offset };
        let theirs = VmRelocatable::from((segment_index, offset));
        let sum = (theirs + n).ok().map(|r| (r.segment_index, r.offset));
        assert_eq!(ours.add_usize(n).map(|r| (r.segment_index, r.offset)), sum);
        let difference = (theirs - n).ok().map(|r| (r.segment_index, r.offset));
        assert_eq!(ours.sub_usize(n).map(|r| (r.segment_index, r.offset)), difference);
    }
}

#[test]
fn keys_tell_addresses_apart() {
    let a = Relocatable { segment_index: 1, offset: 5 };
    assert_eq!(a.key(), (1i128 << 64) + 5);
    assert_eq!(Relocatable { segment_index: 0, offset: 0 }.key(), 0);
    assert_eq!(Relocatable { segment_index: -1, offset: 0 }.key(), -(1i128 << 64));
    assert_eq!(Relocatable { segment_index: -1, offset: usize::MAX }.key(), -1);
    assert_eq!(Relocatable { segment_index: isize::MIN, offset: 0 }.key(), i128::MIN);
    assert_eq!(Relocatable { segment_index: isize::MAX, offset: usize::MAX }.key(), i128::MAX);
    assert_ne!(
        Relocatable { segment_index: 0, offset: 1 }.key(),
        Relocatable { segment_index: 1, offset: 0 }.key()
    );
}
