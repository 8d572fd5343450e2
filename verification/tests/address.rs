use wall_of_wish::address::{derive_address, find_address, MAX_SEED_LEN, PROGRAM_ID, SEED_TAG};
use wall_of_wish::error::ErrorCode;
use wall_of_wish::keys::{Address, Identity};

#[test]
fn derive_gives_the_expected_address() {
    // The first bump byte tried, 255, gives a curve point here; 254 is used.
    let owner = Identity::new([1u8; 32]);
    let expected = Address::new([
        171, 193, 193, 162, 250, 167, 150, 93, 16, 172, 51, 75, 187, 159, 173, 195, 159, 144, 82,
        127, 233, 60, 66, 74, 14, 100, 72, 22, 137, 17, 125, 121,
    ]);
    assert_eq!(derive_address(&SEED_TAG, &owner, b"hello"), Ok(expected));
}

#[test]
fn derive_gives_the_expected_address_for_another_owner() {
    let owner = Identity::new([2u8; 32]);
    let expected = Address::new([
        152, 38, 141, 245, 229, 55, 19, 149, 243, 191, 173, 192, 105, 106, 186, 35, 100, 46, 55,
        171, 198, 80, 187, 90, 196, 6, 222, 204, 133, 239, 186, 156,
    ]);
    assert_eq!(derive_address(&SEED_TAG, &owner, b"hello"), Ok(expected));
}

#[test]
fn derive_accepts_empty_content() {
    let owner = Identity::new([7u8; 32]);
    let expected = Address::new([
        96, 235, 39, 43, 208, 1, 80, 235, 124, 161, 68, 46, 239, 47, 98, 111, 252, 171, 59, 70, 2,
        210, 10, 169, 75, 238, 11, 211, 188, 143, 219, 24,
    ]);
    assert_eq!(derive_address(&SEED_TAG, &owner, b""), Ok(expected));
}

#[test]
fn derive_accepts_content_as_long_as_a_seed() {
    let owner = Identity::new([1u8; 32]);
    let content = vec![b'a'; MAX_SEED_LEN];
    let expected = Address::new([
        222, 174, 246, 91, 38, 197, 175, 156, 148, 173, 166, 221, 144, 72, 139, 141, 253, 10, 184,
        197, 252, 8, 8, 211, 112, 162, 152, 124, 212, 71, 138, 207,
    ]);
    assert_eq!(derive_address(&SEED_TAG, &owner, &content), Ok(expected));
}

#[test]
fn derive_rejects_content_longer_than_a_seed() {
    let owner = Identity::new([1u8; 32]);
    let content = vec![b'a'; MAX_SEED_LEN + 1];
    assert_eq!(
        derive_address(&SEED_TAG, &owner, &content),
        Err(ErrorCode::AddressDerivationError)
    );
}

#[test]
fn derive_rejects_a_tag_longer_than_a_seed() {
    let owner = Identity::new([1u8; 32]);
    let tag = vec![b't'; MAX_SEED_LEN + 1];
    assert_eq!(
        derive_address(&tag, &owner, b"hello"),
        Err(ErrorCode::AddressDerivationError)
    );
}

#[test]
fn derive_twice_gives_the_same_address() {
    let owner = Identity::new([9u8; 32]);
    let first = derive_address(&SEED_TAG, &owner, b"a wish");
    let second = derive_address(&SEED_TAG, &owner, b"a wish");
    assert!(first.is_ok());
    assert_eq!(first, second);
}

#[test]
fn derive_tells_owners_apart() {
    let first = derive_address(&SEED_TAG, &Identity::new([1u8; 32]), b"x").unwrap();
    let second = derive_address(&SEED_TAG, &Identity::new([2u8; 32]), b"x").unwrap();
    assert_ne!(first, second);
}

#[test]
fn derive_tells_contents_apart() {
    let owner = Identity::new([1u8; 32]);
    let first = derive_address(&SEED_TAG, &owner, b"x").unwrap();
    let second = derive_address(&SEED_TAG, &owner, b"hello").unwrap();
    assert_ne!(first, second);
}

#[test]
fn derive_tells_tags_apart() {
    let owner = Identity::new([1u8; 32]);
    let first = derive_address(&SEED_TAG, &owner, b"x").unwrap();
    let second = derive_address(b"vow", &owner, b"x").unwrap();
    assert_ne!(first, second);
}

#[test]
fn derived_address_is_neither_owner_nor_program_id() {
    let owner = Identity::new([1u8; 32]);
    let address = derive_address(&SEED_TAG, &owner, b"x").unwrap();
    assert_ne!(address.bytes, owner.bytes);
    assert_ne!(address.bytes, PROGRAM_ID);
}

#[test]
fn the_tag_spells_wish() {
    assert_eq!(&SEED_TAG, b"wish");
}

#[test]
fn keys_compare_by_their_bytes() {
    let mut bytes = [5u8; 32];
    let a = Identity::new(bytes);
    assert_eq!(a, Identity::new([5u8; 32]));
    bytes[31] = 6;
    assert_ne!(a, Identity::new(bytes));
    assert_eq!(Address::new(bytes), Address::new(bytes));
    assert_ne!(Address::new(bytes), Address::new([5u8; 32]));
    assert!(wall_of_wish::keys::keys_equal(&[0u8; 32], &[0u8; 32]));
    assert!(!wall_of_wish::keys::keys_equal(&[0u8; 32], &bytes));
}

#[test]
fn find_gives_the_address_with_its_bump() {
    let expected = Address::new([
        171, 193, 193, 162, 250, 167, 150, 93, 16, 172, 51, 75, 187, 159, 173, 195, 159, 144, 82,
        127, 233, 60, 66, 74, 14, 100, 72, 22, 137, 17, 125, 121,
    ]);
    assert_eq!(
        find_address(&SEED_TAG, &Identity::new([1u8; 32]), b"hello"),
        Ok((expected, 254))
    );
    let found = find_address(&SEED_TAG, &Identity::new([2u8; 32]), b"hello").unwrap();
    assert_eq!(found.1, 255);
    assert_eq!(
        Ok(found.0),
        derive_address(&SEED_TAG, &Identity::new([2u8; 32]), b"hello")
    );
    assert_eq!(
        find_address(&SEED_TAG, &Identity::new([2u8; 32]), &[0u8; 33]),
        Err(ErrorCode::AddressDerivationError)
    );
}
