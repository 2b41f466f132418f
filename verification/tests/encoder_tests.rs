use bip39::{Language, Mnemonic};
use gpuseed::encoder::evaluate;
use gpuseed::entropy::BLOCK_BYTES;

fn reference_phrase(entropy: &[u8; 16]) -> String {
    Mnemonic::from_entropy_in(Language::English, entropy).unwrap().to_string()
}

#[test]
fn block_is_128_bits() {
    assert_eq!(BLOCK_BYTES * 8, 128);
}

#[test]
fn zero_block_renders_the_known_phrase() {
    let found = evaluate(&[0u8; 16], 200).unwrap();
    assert_eq!(
        found.phrase(),
        "abandon abandon abandon abandon abandon abandon abandon abandon abandon abandon abandon about"
    );
    assert_eq!(found.weight(), 82);
}

#[test]
fn known_vectors_render_as_the_standard_says() {
    let found = evaluate(&[0x7f; 16], 200).unwrap();
    assert_eq!(
        found.phrase(),
        "legal winner thank year wave sausage worth useful legal winner thank yellow"
    );
    assert_eq!(found.weight(), 64);

    let found = evaluate(&[0x80; 16], 200).unwrap();
    assert_eq!(
        found.phrase(),
        "letter advice cage absurd amount doctor acoustic avoid letter advice cage above"
    );
    assert_eq!(found.weight(), 68);

    let found = evaluate(&[0xff; 16], 200).unwrap();
    assert_eq!(found.phrase(), "zoo zoo zoo zoo zoo zoo zoo zoo zoo zoo zoo wrong");
    assert_eq!(found.weight(), 38);
}

#[test]
fn threshold_is_exclusive() {
    assert!(evaluate(&[0xff; 16], 39).is_some());
    assert!(evaluate(&[0xff; 16], 38).is_none());
    assert!(evaluate(&[0u8; 16], 82).is_none());
    assert!(evaluate(&[0u8; 16], 83).is_some());
    assert!(evaluate(&[0u8; 16], 0).is_none());
}

#[test]
fn rendering_is_a_function_of_the_block() {
    let mut block = [0u8; 16];
    let mut round = 0u8;
    while round < 32 {
        for (i, byte) in block.iter_mut().enumerate() {
            *byte = round.wrapping_mul(37).wrapping_add((i as u8).wrapping_mul(11));
        }
        let first = evaluate(&block, usize::MAX).unwrap();
        let second = evaluate(&block, usize::MAX).unwrap();
        assert_eq!(first.phrase(), second.phrase());
        assert_eq!(first.phrase(), &reference_phrase(&block));
        assert_eq!(first.weight(), reference_phrase(&block).replace(' ', "").len());
        assert_eq!(first.phrase().split(' ').count(), 12);
        round += 1;
    }
}
