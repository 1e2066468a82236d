use yaw_dbproxy::common::get_paging_state_from_result;
use yaw_dbproxy::paging::{b64_decode, b64_encode};

#[test]
fn empty_token_encodes_to_the_empty_string() {
    assert_eq!(b64_encode(&vec![]), "");
}

#[test]
fn the_empty_string_decodes_to_the_empty_token() {
    assert_eq!(b64_decode(""), Vec::<u8>::new());
}

#[test]
fn known_encodings() {
    assert_eq!(b64_encode(&vec![1, 2, 3]), "AQID");
    assert_eq!(b64_encode(&vec![255]), "/w");
    assert_eq!(b64_encode(&vec![77, 97]), "TWE");
    assert_eq!(b64_encode(&vec![77, 97, 110, 77]), "TWFuTQ");
}

#[test]
fn known_decodings() {
    assert_eq!(b64_decode("AQID"), vec![1, 2, 3]);
    assert_eq!(b64_decode("/w"), vec![255]);
    assert_eq!(b64_decode("TWE"), vec![77, 97]);
    assert_eq!(b64_decode("AA"), vec![0]);
}

#[test]
fn round_trip_on_opaque_tokens() {
    for bytes in [
        vec![0],
        vec![9, 9],
        vec![0, 1, 2, 3, 4, 5, 6, 7, 8, 250],
        (0u8..=255).collect::<Vec<u8>>(),
    ] {
        assert_eq!(b64_decode(&b64_encode(&bytes)), bytes);
    }
}

#[test]
fn anything_not_canonical_reads_as_no_continuation() {
    // A stray character.
    assert_eq!(b64_decode("A!CD"), Vec::<u8>::new());
    // A length one more than a multiple of four.
    assert_eq!(b64_decode("A"), Vec::<u8>::new());
    assert_eq!(b64_decode("AQIDA"), Vec::<u8>::new());
    // Nonzero trailing bits.
    assert_eq!(b64_decode("AB"), Vec::<u8>::new());
    // Padding is not part of the unpadded form.
    assert_eq!(b64_decode("TQ=="), Vec::<u8>::new());
}

#[test]
fn paging_state_of_a_result() {
    assert_eq!(get_paging_state_from_result(&Some(vec![1, 2, 3])), "AQID");
    assert_eq!(get_paging_state_from_result(&None), "");
}
