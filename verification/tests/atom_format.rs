use lv2_marshal::atom::{
    encode_record, parse_record, read_float_record, read_int_record, read_vector_record,
    slice_range, split_record, SpaceHead, UnidentifiedAtom,
};
use lv2_marshal::urid::Urid;

#[test]
fn record_layout_is_type_size_payload() {
    let bytes = encode_record(7, &[1, 2, 3]);
    assert_eq!(bytes, vec![7, 0, 0, 0, 3, 0, 0, 0, 1, 2, 3]);
}

#[test]
fn record_round_trip_recovers_size_and_payload() {
    let payload = vec![9u8, 8, 7, 6, 5];
    let bytes = encode_record(1234, &payload);
    let (ty, parsed) = parse_record(&bytes).unwrap();
    assert_eq!(ty, 1234);
    assert_eq!(parsed, payload);
}

#[test]
fn record_with_inconsistent_size_fails_to_parse() {
    // Declared size 10, but only 2 payload bytes follow.
    let bytes = vec![1, 0, 0, 0, 10, 0, 0, 0, 1, 2];
    assert!(parse_record(&bytes).is_none());
    assert!(split_record(&bytes).is_none());
}

#[test]
fn truncated_header_fails_to_parse() {
    let bytes = vec![1, 0, 0];
    assert!(parse_record(&bytes).is_none());
    assert!(split_record(&bytes).is_none());
}

#[test]
fn split_record_returns_leading_record_and_rest_offset() {
    let mut bytes = encode_record(5, &[1, 2]);
    bytes.extend_from_slice(&[0xAA, 0xBB]);
    let (ty, payload, rest_at) = split_record(&bytes).unwrap();
    assert_eq!(ty, 5);
    assert_eq!(payload, vec![1, 2]);
    assert_eq!(rest_at, 10);
    assert_eq!(&bytes[rest_at..], &[0xAA, 0xBB]);
}

#[test]
fn out_of_range_slicing_is_a_decode_failure() {
    let bytes = vec![1u8, 2, 3, 4];
    assert_eq!(slice_range(&bytes, 1, 3), Some(vec![2, 3]));
    assert_eq!(slice_range(&bytes, 2, 5), None);
    assert_eq!(slice_range(&bytes, 3, 2), None);
}

#[test]
fn head_backpatches_size_on_end() {
    let mut head = SpaceHead::new();
    head.begin_record(42);
    head.append_bytes(&[1, 2, 3, 4, 5]);
    head.end_record();
    assert_eq!(head.data().as_slice(), &[42, 0, 0, 0, 5, 0, 0, 0, 1, 2, 3, 4, 5]);
}

#[test]
fn int_atom_round_trip() {
    let mut head = SpaceHead::new();
    head.write_int_record(9, -12345);
    assert_eq!(read_int_record(head.data().as_slice(), 9), Some(-12345));
    // A read under the wrong expected type is a decode failure.
    assert_eq!(read_int_record(head.data().as_slice(), 8), None);
}

#[test]
fn float_atom_round_trip_is_bit_exact() {
    let bits = 23.42f32.to_bits();
    let mut head = SpaceHead::new();
    head.write_float_record(3, bits);
    let read = read_float_record(head.data().as_slice(), 3).unwrap();
    assert_eq!(f32::from_bits(read), 23.42f32);
}

#[test]
fn vector_atom_round_trip() {
    let elems: Vec<u32> = (0..32).collect();
    let mut head = SpaceHead::new();
    head.begin_vector_record(11, 4);
    head.append_vector_elems(&elems);
    head.end_record();
    let read = read_vector_record(head.data().as_slice(), 11, 4).unwrap();
    assert_eq!(read, elems);
    // The wrong element type is a decode failure.
    assert!(read_vector_record(head.data().as_slice(), 11, 5).is_none());
}

#[test]
fn unidentified_atom_validates_type_before_reading() {
    let mut head = SpaceHead::new();
    head.write_int_record(9, 42);
    let atom = UnidentifiedAtom::new(head.data().clone());
    let int_ty = Urid::new(9).unwrap();
    let other_ty = Urid::new(10).unwrap();
    assert_eq!(atom.read_int(int_ty), Some(42));
    assert_eq!(atom.read_int(other_ty), None);
}
