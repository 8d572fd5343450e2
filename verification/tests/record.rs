use wall_of_wish::keys::Identity;
use wall_of_wish::record::{space, AWish, DISCRIMINATOR, HEADER_LEN};

fn stored_hello() -> Vec<u8> {
    let mut bytes = vec![217, 196, 247, 217, 127, 81, 81, 202];
    bytes.extend_from_slice(&[3u8; 32]);
    bytes.extend_from_slice(&[5, 0, 0, 0]);
    bytes.extend_from_slice(b"hello");
    bytes
}

#[test]
fn space_counts_header_and_title_bytes() {
    assert_eq!(space(""), 44);
    assert_eq!(space("hello"), 49);
    assert_eq!(space("héllo"), 50);
    assert_eq!(HEADER_LEN, 8 + 32 + 4);
}

#[test]
fn a_wish_is_stored_in_layout_order() {
    let wish = AWish { user: Identity::new([3u8; 32]), title: String::from("hello") };
    assert_eq!(wish.try_serialize(), Some(stored_hello()));
}

#[test]
fn a_stored_wish_fills_its_space_exactly() {
    for title in ["", "x", "hello", "héllo wörld", "願い"] {
        let wish = AWish { user: Identity::new([8u8; 32]), title: String::from(title) };
        assert_eq!(wish.try_serialize().unwrap().len(), space(title));
    }
}

#[test]
fn the_length_prefix_is_little_endian() {
    let title = "a".repeat(258);
    let wish = AWish { user: Identity::new([0u8; 32]), title };
    let bytes = wish.try_serialize().unwrap();
    assert_eq!(&bytes[40..44], &[2, 1, 0, 0]);
    assert_eq!(&bytes[..8], &DISCRIMINATOR);
}

#[test]
fn a_stored_wish_reads_back() {
    let read = AWish::try_deserialize(&stored_hello()).unwrap();
    assert_eq!(read.user, Identity::new([3u8; 32]));
    assert_eq!(read.title, "hello");
}

#[test]
fn a_wish_with_a_title_beyond_ascii_reads_back() {
    let wish = AWish { user: Identity::new([4u8; 32]), title: String::from("願い: peace ✌") };
    let bytes = wish.try_serialize().unwrap();
    let read = AWish::try_deserialize(&bytes).unwrap();
    assert_eq!(read.user, wish.user);
    assert_eq!(read.title, wish.title);
    assert_eq!(read.try_serialize(), Some(bytes));
}

#[test]
fn bytes_shorter_than_the_header_store_no_wish() {
    assert!(AWish::try_deserialize(&[]).is_none());
    assert!(AWish::try_deserialize(&stored_hello()[..43]).is_none());
}

#[test]
fn bytes_with_another_discriminator_store_no_wish() {
    let mut bytes = stored_hello();
    bytes[7] ^= 1;
    assert!(AWish::try_deserialize(&bytes).is_none());
    assert!(AWish::try_deserialize(&vec![0u8; 49]).is_none());
}

#[test]
fn bytes_with_a_wrong_length_prefix_store_no_wish() {
    let mut short = stored_hello();
    short[40] = 4;
    assert!(AWish::try_deserialize(&short).is_none());
    let mut long = stored_hello();
    long[40] = 6;
    assert!(AWish::try_deserialize(&long).is_none());
    let mut trailing = stored_hello();
    trailing.push(b'!');
    assert!(AWish::try_deserialize(&trailing).is_none());
}

#[test]
fn a_title_that_is_not_utf8_stores_no_wish() {
    let mut bytes = stored_hello();
    bytes[44] = 0xff;
    assert!(AWish::try_deserialize(&bytes).is_none());
}

#[test]
fn an_empty_title_reads_back() {
    let wish = AWish { user: Identity::new([1u8; 32]), title: String::new() };
    let bytes = wish.try_serialize().unwrap();
    assert_eq!(bytes.len(), 44);
    let read = AWish::try_deserialize(&bytes).unwrap();
    assert_eq!(read.title, "");
    assert_eq!(read.user, wish.user);
}
