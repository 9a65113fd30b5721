use runway::hash::generate_asset_hash;

#[test]
fn hash_of_nothing() {
    assert_eq!(
        generate_asset_hash(&[]),
        "af1349b9f5f9a1a6a0404dea36dcc9499bcb25c9adc112b7cc9a93cae41f3262"
    );
}

#[test]
fn hash_of_three_letters() {
    assert_eq!(
        generate_asset_hash(b"abc"),
        "6437b3ac38465133ffb63b75273a8db548c558465d79db03fd359c6cd5bd9d85"
    );
}

#[test]
fn hash_agrees_with_the_hash_crate() {
    let content: Vec<u8> = (0u32..5000).map(|i| (i % 251) as u8).collect();
    assert_eq!(
        generate_asset_hash(&content),
        blake3::hash(&content).to_hex().to_string()
    );
}

#[test]
fn changed_contents_change_the_hash() {
    assert_ne!(generate_asset_hash(b"one"), generate_asset_hash(b"two"));
    assert_eq!(generate_asset_hash(b"one"), generate_asset_hash(b"one"));
    assert_eq!(generate_asset_hash(b"one").len(), 64);
}
