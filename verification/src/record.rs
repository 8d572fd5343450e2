//! The record and the bytes it is stored as.
//!
//! A stored record is, in this order: an eight byte discriminator, the
//! owner's identity, the byte length of the title as a little-endian `u32`,
//! and the title's bytes in UTF-8.

use vstd::prelude::*;
use vstd::bytes::{
    lemma_auto_spec_u32_to_from_le_bytes, spec_u32_from_le_bytes, spec_u32_to_le_bytes,
    u32_from_le_bytes, u32_to_le_bytes,
};
use vstd::slice::{slice_subrange, slice_to_vec};
use vstd::utf8::{
    decode_utf8, decode_utf8_encode_utf8, encode_utf8, encode_utf8_decode_utf8,
    encode_utf8_valid_utf8, valid_utf8,
};
use crate::keys::{Identity, KEY_LEN};

verus! {

/// The first eight bytes of every stored record: the start of the SHA-256
/// digest of `account:AWish`.
pub const DISCRIMINATOR: [u8; 8] = [217, 196, 247, 217, 127, 81, 81, 202];

/// Bytes that a stored record takes before its title: discriminator,
/// identity and length prefix.
pub const HEADER_LEN: usize = 44;

/// A wish: who made it and what it says.
#[derive(Debug, PartialEq, Eq)]
pub struct AWish {
    pub user: Identity,
    pub title: String,
}

/// What a wish holds, as mathematical values.
pub struct WishView {
    pub user: Seq<u8>,
    pub title: Seq<char>,
}

impl View for AWish {
    type V = WishView;

    open spec fn view(&self) -> WishView {
        WishView { user: self.user@, title: self.title@ }
    }
}

/// The number of bytes that a stored record with this title takes.
pub open spec fn space_spec(title: Seq<char>) -> nat {
    HEADER_LEN as nat + encode_utf8(title).len()
}

/// Whether a wish can be stored: its identity has the width of a key and the
/// length of its title fits the length prefix.
pub open spec fn storable(wish: WishView) -> bool {
    wish.user.len() == KEY_LEN && encode_utf8(wish.title).len() <= u32::MAX
}

/// The bytes that a wish is stored as.
pub open spec fn encode_spec(wish: WishView) -> Seq<u8> {
    DISCRIMINATOR@ + wish.user + spec_u32_to_le_bytes(encode_utf8(wish.title).len() as u32)
        + encode_utf8(wish.title)
}

/// The wish that `bytes` store, if they store one.
pub open spec fn decode_spec(bytes: Seq<u8>) -> Option<WishView> {
    if bytes.len() >= HEADER_LEN && bytes.subrange(0, 8) == DISCRIMINATOR@
        && spec_u32_from_le_bytes(bytes.subrange(40, 44)) as int == bytes.len() - HEADER_LEN
        && valid_utf8(bytes.skip(44)) {
        Some(WishView { user: bytes.subrange(8, 40), title: decode_utf8(bytes.skip(44)) })
    } else {
        None
    }
}

/// A stored wish takes exactly the space computed for its title.
pub proof fn lemma_encoded_len(wish: WishView)
    requires
        wish.user.len() == KEY_LEN,
    ensures
        encode_spec(wish).len() == space_spec(wish.title),
{
    lemma_auto_spec_u32_to_from_le_bytes();
}

/// Reading back what was stored gives the wish that was stored.
pub proof fn lemma_decode_encode(wish: WishView)
    requires
        storable(wish),
    ensures
        decode_spec(encode_spec(wish)) == Some(wish),
{
    lemma_auto_spec_u32_to_from_le_bytes();
    let title = encode_utf8(wish.title);
    let prefix = spec_u32_to_le_bytes(title.len() as u32);
    let bytes = encode_spec(wish);
    assert(bytes.subrange(0, 8) =~= DISCRIMINATOR@);
    assert(bytes.subrange(8, 40) =~= wish.user);
    assert(bytes.subrange(40, 44) =~= prefix);
    assert(bytes.skip(44) =~= title);
    encode_utf8_valid_utf8(wish.title);
    encode_utf8_decode_utf8(wish.title);
}

/// Bytes that store a wish are exactly the bytes that this wish is stored as:
/// no two byte strings store the same wish.
pub proof fn lemma_encode_decode(bytes: Seq<u8>)
    requires
        decode_spec(bytes) is Some,
    ensures
        storable(decode_spec(bytes).unwrap()),
        encode_spec(decode_spec(bytes).unwrap()) == bytes,
{
    lemma_auto_spec_u32_to_from_le_bytes();
    let wish = decode_spec(bytes).unwrap();
    decode_utf8_encode_utf8(bytes.skip(44));
    assert(encode_utf8(wish.title) == bytes.skip(44));
    let prefix = bytes.subrange(40, 44);
    assert(spec_u32_to_le_bytes(spec_u32_from_le_bytes(prefix)) == prefix);
    assert(encode_spec(wish) =~= bytes);
}

/// Calls `String::from_utf8` of std. Trusted: it succeeds exactly on valid
/// UTF-8, and the string it gives has the bytes it was given.
#[verifier::external_body]
fn string_from_utf8(bytes: Vec<u8>) -> (res: Option<String>)
    ensures
        res is Some <==> valid_utf8(bytes@),
        res matches Some(s) ==> encode_utf8(s@) == bytes@,
{
    match String::from_utf8(bytes) {
        Ok(s) => Some(s),
        Err(_) => None,
    }
}

/// The space to allocate for a record with this title.
pub fn space(title: &str) -> (n: usize)
    requires
        space_spec(title@) <= usize::MAX,
    ensures
        n == space_spec(title@),
{
    HEADER_LEN + title.as_bytes().len()
}

impl AWish {
    /// The bytes to store this wish as; `None` where the title is too long
    /// for the length prefix.
    pub fn try_serialize(&self) -> (res: Option<Vec<u8>>)
        ensures
            match res {
                Some(bytes) => storable(self@) && bytes@ == encode_spec(self@),
                None => !storable(self@),
            },
    {
        let title = self.title.as_str().as_bytes();
        if title.len() > u32::MAX as usize {
            return None;
        }
        let mut out: Vec<u8> = Vec::new();
        out.extend_from_slice(DISCRIMINATOR.as_slice());
        out.extend_from_slice(self.user.bytes.as_slice());
        let prefix = u32_to_le_bytes(title.len() as u32);
        out.extend_from_slice(prefix.as_slice());
        out.extend_from_slice(title);
        assert(out@ =~= encode_spec(self@));
        Some(out)
    }

    /// Reads a wish from the bytes it was stored as; `None` where the bytes
    /// store no wish.
    pub fn try_deserialize(bytes: &[u8]) -> (res: Option<AWish>)
        ensures
            match decode_spec(bytes@) {
                Some(wish) => res matches Some(read) && read@ == wish,
                None => res is None,
            },
    {
        if bytes.len() < HEADER_LEN {
            return None;
        }
        let mut i: usize = 0;
        while i < 8
            invariant
                i <= 8,
                bytes@.len() >= HEADER_LEN,
                forall|j: int| 0 <= j < i ==> bytes@[j] == DISCRIMINATOR@[j],
            decreases 8 - i,
        {
            if bytes[i] != DISCRIMINATOR[i] {
                assert(bytes@.subrange(0, 8)[i as int] != DISCRIMINATOR@[i as int]);
                return None;
            }
            i += 1;
        }
        assert(bytes@.subrange(0, 8) =~= DISCRIMINATOR@);
        let mut user = [0u8; 32];
        let mut k: usize = 0;
        while k < 32
            invariant
                k <= 32,
                bytes@.len() >= HEADER_LEN,
                forall|j: int| 0 <= j < k ==> user@[j] == bytes@[8 + j],
            decreases 32 - k,
        {
            user[k] = bytes[8 + k];
            k += 1;
        }
        assert(user@ =~= bytes@.subrange(8, 40));
        let len = u32_from_le_bytes(slice_subrange(bytes, 40, 44));
        if len as usize != bytes.len() - HEADER_LEN {
            return None;
        }
        let rest = slice_to_vec(slice_subrange(bytes, 44, bytes.len()));
        assert(rest@ =~= bytes@.skip(44));
        match string_from_utf8(rest) {
            Some(title) => {
                proof {
                    encode_utf8_decode_utf8(title@);
                }
                Some(AWish { user: Identity::new(user), title })
            },
            None => None,
        }
    }
}

} // verus!
