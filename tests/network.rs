use proof_of_work::network::{hex_lower, sign_proof_json};

#[test]
fn hex_is_lower_case_two_digits_per_byte() {
    assert_eq!(hex_lower(&[0x00, 0x0f, 0xab, 0xff]), "000fabff");
    assert_eq!(hex_lower(&[]), "");
}

#[test]
fn signature_is_sha256_of_json_then_key() {
    assert_eq!(
        sign_proof_json("ab", "c"),
        "ba7816bf8f01cfea414140de5dae2223b00361a396177a9cb410ff61f20015ad"
    );
    assert_eq!(
        sign_proof_json("", ""),
        "e3b0c44298fc1c149afbf4c8996fb92427ae41e4649b934ca495991b7852b855"
    );
    assert_ne!(sign_proof_json("ab", "c"), sign_proof_json("ab", "d"));
}
