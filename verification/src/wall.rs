//! The two requests: putting a wish on the wall and taking it off again.
//!
//! A wish lives at the address derived from its creator and its title. A
//! submission allocates storage there, paid by the creator, and stamps it
//! with creator and title. A deletion looks at the address derived from the
//! caller and the title, and closes the record there only if the caller is
//! the creator stamped on it. A request that is turned down changes nothing.

use vstd::prelude::*;
use vstd::pervasive::unreached;
use vstd::utf8::encode_utf8;
use crate::address::{derive_address, derive_spec, find_address, find_spec, SEED_TAG};
use crate::error::ErrorCode;
use crate::keys::{Address, Identity};
use crate::ledger::{Ledger, LedgerView, MAX_RECORD_SPACE};
use crate::record::{decode_spec, encode_spec, lemma_encoded_len, space, space_spec, AWish, WishView};

verus! {

/// The address of the wish that `user` holds under `title`, or `None` where
/// none can be derived.
pub open spec fn wish_address(user: Seq<u8>, title: Seq<char>) -> Option<Seq<u8>> {
    derive_spec(SEED_TAG@, user, encode_utf8(title))
}

/// The bump byte that the address of the wish was found with.
pub open spec fn wish_bump(user: Seq<u8>, title: Seq<char>) -> Option<u8> {
    match find_spec(SEED_TAG@, user, encode_utf8(title)) {
        Some(found) => Some(found.1),
        None => None,
    }
}

/// The wish that is live at `address`: a slot is allocated there and its
/// data store a wish.
pub open spec fn live_wish(store: LedgerView, address: Seq<u8>) -> Option<WishView> {
    if store.occupied(address) {
        decode_spec(store.slots[address].data)
    } else {
        None
    }
}

/// How a request to store the wish `title` of `user` at `address` ends.
pub open spec fn submit_at_outcome(
    store: LedgerView,
    address: Seq<u8>,
    user: Seq<u8>,
    title: Seq<char>,
) -> Result<(), ErrorCode> {
    store.allocate_outcome(address, space_spec(title), user)
}

/// The store after a request to store the wish `title` of `user` at
/// `address`.
pub open spec fn submit_at_state(
    store: LedgerView,
    address: Seq<u8>,
    user: Seq<u8>,
    title: Seq<char>,
) -> LedgerView {
    if submit_at_outcome(store, address, user, title) is Ok {
        store.allocate(address, space_spec(title), user).write(
            address,
            encode_spec(WishView { user, title }),
        )
    } else {
        store
    }
}

/// How the submission of `title` by `user` ends.
pub open spec fn submit_outcome(store: LedgerView, user: Seq<u8>, title: Seq<char>) -> Result<
    (),
    ErrorCode,
> {
    match wish_address(user, title) {
        None => Err(ErrorCode::AddressDerivationError),
        Some(address) => submit_at_outcome(store, address, user, title),
    }
}

/// The store after `user` has submitted `title`.
pub open spec fn submit_state(store: LedgerView, user: Seq<u8>, title: Seq<char>) -> LedgerView {
    match wish_address(user, title) {
        None => store,
        Some(address) => submit_at_state(store, address, user, title),
    }
}

/// Whether `caller` may delete what was found at a wish's address: nothing
/// found is `RecordNotFound`, a wish of another creator is
/// `UnauthorizedDeletion`.
pub open spec fn deletion_verdict(found: Option<WishView>, caller: Seq<u8>) -> Result<
    (),
    ErrorCode,
> {
    match found {
        None => Err(ErrorCode::RecordNotFound),
        Some(wish) => if wish.user == caller {
            Ok(())
        } else {
            Err(ErrorCode::UnauthorizedDeletion)
        },
    }
}

/// How a request of `caller` to delete the wish at `address` ends.
pub open spec fn delete_at_outcome(store: LedgerView, address: Seq<u8>, caller: Seq<u8>) -> Result<
    (),
    ErrorCode,
> {
    deletion_verdict(live_wish(store, address), caller)
}

/// The store after a request of `caller` to delete the wish at `address`.
pub open spec fn delete_at_state(store: LedgerView, address: Seq<u8>, caller: Seq<u8>) -> LedgerView {
    if delete_at_outcome(store, address, caller) is Ok {
        store.close(address, caller)
    } else {
        store
    }
}

/// How the deletion of `title` by `caller` ends.
pub open spec fn delete_outcome(store: LedgerView, caller: Seq<u8>, title: Seq<char>) -> Result<
    (),
    ErrorCode,
> {
    match wish_address(caller, title) {
        None => Err(ErrorCode::AddressDerivationError),
        Some(address) => delete_at_outcome(store, address, caller),
    }
}

/// The store after `caller` has asked to delete `title`.
pub open spec fn delete_state(store: LedgerView, caller: Seq<u8>, title: Seq<char>) -> LedgerView {
    match wish_address(caller, title) {
        None => store,
        Some(address) => delete_at_state(store, address, caller),
    }
}

/// What a submission touches: the address of the new wish with its bump
/// byte, who pays for it, and the space to allocate.
#[derive(Clone, Copy, Debug, PartialEq, Eq)]
pub struct SubmitWish {
    pub wish: Address,
    pub bump: u8,
    pub user: Identity,
    pub space: usize,
}

impl SubmitWish {
    /// Works out what the submission of `title` by `user` touches. Fails with
    /// `AddressDerivationError` exactly where the wish has no address.
    pub fn new(user: &Identity, title: &str) -> (res: Result<SubmitWish, ErrorCode>)
        ensures
            match wish_address(user@, title@) {
                Some(address) => res matches Ok(accounts) && accounts.wish@ == address
                    && Some(accounts.bump) == wish_bump(user@, title@) && accounts.user@ == user@
                    && accounts.space == space_spec(title@),
                None => res == Err::<SubmitWish, ErrorCode>(ErrorCode::AddressDerivationError),
            },
    {
        match find_address(SEED_TAG.as_slice(), user, title.as_bytes()) {
            Ok(found) => Ok(
                SubmitWish { wish: found.0, bump: found.1, user: *user, space: space(title) },
            ),
            Err(e) => Err(e),
        }
    }
}

/// What a deletion touches: the address to look at, and who asks and is
/// refunded.
#[derive(Clone, Copy, Debug, PartialEq, Eq)]
pub struct DeleteWish {
    pub wish: Address,
    pub user: Identity,
}

impl DeleteWish {
    /// Works out what the deletion of `title` by `user` touches. Fails with
    /// `AddressDerivationError` exactly where the wish has no address.
    pub fn new(user: &Identity, title: &str) -> (res: Result<DeleteWish, ErrorCode>)
        ensures
            match wish_address(user@, title@) {
                Some(address) => res matches Ok(accounts) && accounts.wish@ == address
                    && accounts.user@ == user@,
                None => res == Err::<DeleteWish, ErrorCode>(ErrorCode::AddressDerivationError),
            },
    {
        match derive_address(SEED_TAG.as_slice(), user, title.as_bytes()) {
            Ok(wish) => Ok(DeleteWish { wish, user: *user }),
            Err(e) => Err(e),
        }
    }
}

/// Decides whether `caller` may delete what was found at a wish's address.
pub fn authorize_deletion(found: &Option<AWish>, caller: &Identity) -> (res: Result<(), ErrorCode>)
    ensures
        res == deletion_verdict(
            match found {
                Some(wish) => Some(wish@),
                None => None,
            },
            caller@,
        ),
{
    match found {
        None => Err(ErrorCode::RecordNotFound),
        Some(wish) => if wish.user == *caller {
            Ok(())
        } else {
            Err(ErrorCode::UnauthorizedDeletion)
        },
    }
}

/// Stores the wish `title` of `user` at `address`: allocates a slot of
/// exactly the space of the stored wish, paid by `user`, and writes the wish
/// into it.
///
/// Fails with `DuplicateAddress` where the address is occupied and with
/// `InsufficientFunds` where `user` cannot pay the rent; the store is then as
/// it was. The stored wish must fit the largest slot.
pub fn submit_wish_at(ledger: &mut Ledger, address: &Address, user: &Identity, title: String) -> (res:
    Result<(), ErrorCode>)
    requires
        old(ledger).wf(),
        space_spec(title@) <= MAX_RECORD_SPACE,
    ensures
        final(ledger).wf(),
        res == submit_at_outcome(old(ledger)@, address@, user@, title@),
        final(ledger)@ == submit_at_state(old(ledger)@, address@, user@, title@),
{
    let size = space(title.as_str());
    let wish = AWish { user: *user, title };
    proof {
        lemma_encoded_len(wish@);
    }
    let bytes = match wish.try_serialize() {
        Some(bytes) => bytes,
        None => unreached(),
    };
    match ledger.allocate(address, size, user) {
        Ok(()) => {},
        Err(e) => {
            return Err(e);
        },
    }
    let written = ledger.write(address, bytes);
    assert(written);
    Ok(())
}

/// Deletes the wish at `address` for `caller`: closes the slot and gives
/// all that it held to `caller`.
///
/// Fails with `RecordNotFound` where no wish is live at the address and with
/// `UnauthorizedDeletion` where the wish there names another creator; the
/// store is then as it was.
pub fn delete_wish_at(ledger: &mut Ledger, address: &Address, caller: &Identity) -> (res: Result<
    (),
    ErrorCode,
>)
    requires
        old(ledger).wf(),
    ensures
        final(ledger).wf(),
        res == delete_at_outcome(old(ledger)@, address@, caller@),
        final(ledger)@ == delete_at_state(old(ledger)@, address@, caller@),
{
    let found = match ledger.data_at(address) {
        Some(data) => AWish::try_deserialize(data.as_slice()),
        None => None,
    };
    match authorize_deletion(&found, caller) {
        Ok(()) => {},
        Err(e) => {
            return Err(e);
        },
    }
    let closed = ledger.close(address, caller);
    assert(closed);
    Ok(())
}

/// Puts the wish `title` of `user` on the wall.
///
/// On success a record with this creator and title is live at the wish's
/// address and `user` has paid its rent. Fails with `AddressDerivationError`
/// where the wish has no address, with `DuplicateAddress` where the address
/// is occupied, and with `InsufficientFunds` where `user` cannot pay the
/// rent; the store is then as it was.
pub fn submit_wish(ledger: &mut Ledger, user: &Identity, title: String) -> (res: Result<
    (),
    ErrorCode,
>)
    requires
        old(ledger).wf(),
    ensures
        final(ledger).wf(),
        res == submit_outcome(old(ledger)@, user@, title@),
        final(ledger)@ == submit_state(old(ledger)@, user@, title@),
{
    match SubmitWish::new(user, title.as_str()) {
        Ok(accounts) => submit_wish_at(ledger, &accounts.wish, &accounts.user, title),
        Err(e) => Err(e),
    }
}

/// Takes the wish `title` of `user` off the wall.
///
/// On success the record at the wish's address is gone and `user` holds all
/// that the record held. Fails with `AddressDerivationError` where the wish
/// has no address, with `RecordNotFound` where no wish is live there, and
/// with `UnauthorizedDeletion` where the wish there names another creator;
/// the store is then as it was.
pub fn delete_wish(ledger: &mut Ledger, user: &Identity, title: String) -> (res: Result<
    (),
    ErrorCode,
>)
    requires
        old(ledger).wf(),
    ensures
        final(ledger).wf(),
        res == delete_outcome(old(ledger)@, user@, title@),
        final(ledger)@ == delete_state(old(ledger)@, user@, title@),
{
    match DeleteWish::new(user, title.as_str()) {
        Ok(accounts) => delete_wish_at(ledger, &accounts.wish, &accounts.user),
        Err(e) => Err(e),
    }
}

} // verus!
