//! What holds of the wall whatever is asked of it.

use vstd::prelude::*;
use vstd::utf8::{encode_utf8, encode_utf8_decode_utf8};
use crate::address::{derive_spec, derives, program_address, seed_list, PROGRAM_ID, SEED_TAG};
use crate::error::ErrorCode;
use crate::keys::{Address, KEY_LEN};
use crate::ledger::{rent_spec, LedgerView};
use crate::record::{lemma_decode_encode, lemma_encoded_len, space_spec, WishView};
use crate::wall::{
    delete_at_outcome, delete_at_state, delete_outcome, delete_state, live_wish,
    submit_at_outcome, submit_at_state, submit_outcome, submit_state, wish_address,
};

verus! {

/// Whatever deriving gives for an owner and a content, it gives every time:
/// two results for the same seeds are the same result.
pub proof fn lemma_derivation_is_deterministic(
    tag: Seq<u8>,
    owner: Seq<u8>,
    content: Seq<u8>,
    first: Result<Address, ErrorCode>,
    second: Result<Address, ErrorCode>,
)
    requires
        derives(tag, owner, content, first),
        derives(tag, owner, content, second),
    ensures
        first == second,
{
    if derive_spec(tag, owner, content) is Some {
        assert(first.unwrap().bytes =~= second.unwrap().bytes);
    }
}

/// The seed list tells owners apart, and contents.
pub proof fn lemma_seeds_are_injective(
    tag: Seq<u8>,
    owner1: Seq<u8>,
    content1: Seq<u8>,
    owner2: Seq<u8>,
    content2: Seq<u8>,
)
    requires
        seed_list(tag, owner1, content1) == seed_list(tag, owner2, content2),
    ensures
        owner1 == owner2,
        content1 == content2,
{
    assert(seed_list(tag, owner1, content1)[1] == owner1);
    assert(seed_list(tag, owner2, content2)[1] == owner2);
    assert(seed_list(tag, owner1, content1)[2] == content1);
    assert(seed_list(tag, owner2, content2)[2] == content2);
}

/// Titles that differ have bytes that differ.
pub proof fn lemma_titles_are_told_apart(title1: Seq<char>, title2: Seq<char>)
    requires
        encode_utf8(title1) == encode_utf8(title2),
    ensures
        title1 == title2,
{
    encode_utf8_decode_utf8(title1);
    encode_utf8_decode_utf8(title2);
}

/// Whether the derivation gives two different seed lists the same address.
pub open spec fn collide(seeds1: Seq<Seq<u8>>, seeds2: Seq<Seq<u8>>) -> bool {
    &&& seeds1 != seeds2
    &&& program_address(seeds1, PROGRAM_ID@) matches Some(first)
    &&& program_address(seeds2, PROGRAM_ID@) matches Some(second)
    &&& first.0 == second.0
}

/// Two records that differ in owner or in content, and that both have an
/// address, have different addresses, unless the derivation itself gives
/// their two seed lists the same address.
pub proof fn lemma_namespacing(
    tag: Seq<u8>,
    owner1: Seq<u8>,
    content1: Seq<u8>,
    owner2: Seq<u8>,
    content2: Seq<u8>,
)
    requires
        owner1 != owner2 || content1 != content2,
        derive_spec(tag, owner1, content1) is Some,
        derive_spec(tag, owner2, content2) is Some,
        !collide(seed_list(tag, owner1, content1), seed_list(tag, owner2, content2)),
    ensures
        derive_spec(tag, owner1, content1) != derive_spec(tag, owner2, content2),
{
    if seed_list(tag, owner1, content1) == seed_list(tag, owner2, content2) {
        lemma_seeds_are_injective(tag, owner1, content1, owner2, content2);
    }
}

/// Two wishes that differ in creator or in title, and that both have an
/// address, live at different addresses, unless the derivation itself gives
/// their two seed lists the same address.
pub proof fn lemma_wishes_are_kept_apart(
    user1: Seq<u8>,
    title1: Seq<char>,
    user2: Seq<u8>,
    title2: Seq<char>,
)
    requires
        user1 != user2 || title1 != title2,
        wish_address(user1, title1) is Some,
        wish_address(user2, title2) is Some,
        !collide(
            seed_list(SEED_TAG@, user1, encode_utf8(title1)),
            seed_list(SEED_TAG@, user2, encode_utf8(title2)),
        ),
    ensures
        wish_address(user1, title1) != wish_address(user2, title2),
{
    if encode_utf8(title1) == encode_utf8(title2) {
        lemma_titles_are_told_apart(title1, title2);
    }
    lemma_namespacing(SEED_TAG@, user1, encode_utf8(title1), user2, encode_utf8(title2));
}

/// A submission that succeeds leaves the wish live at its address, with its
/// creator and its title, in a slot of exactly the size of the stored wish.
pub proof fn lemma_submitted_wish_is_live(store: LedgerView, user: Seq<u8>, title: Seq<char>)
    requires
        user.len() == KEY_LEN,
        submit_outcome(store, user, title) is Ok,
    ensures
        live_wish(submit_state(store, user, title), wish_address(user, title).unwrap()) == Some(
            WishView { user, title },
        ),
        submit_state(store, user, title).slots[wish_address(user, title).unwrap()].data.len()
            == space_spec(title),
{
    let wish = WishView { user, title };
    lemma_encoded_len(wish);
    lemma_decode_encode(wish);
}

/// After a submission that succeeds, the creator's deletion succeeds and
/// leaves the address vacant and the whole store as it was before the
/// submission, so that the same submission succeeds again.
pub proof fn lemma_submit_delete_round_trip(store: LedgerView, user: Seq<u8>, title: Seq<char>)
    requires
        user.len() == KEY_LEN,
        submit_outcome(store, user, title) is Ok,
    ensures
        delete_outcome(submit_state(store, user, title), user, title) is Ok,
        !delete_state(submit_state(store, user, title), user, title).occupied(
            wish_address(user, title).unwrap(),
        ),
        delete_state(submit_state(store, user, title), user, title) == store,
        submit_outcome(delete_state(submit_state(store, user, title), user, title), user, title)
            is Ok,
{
    lemma_submitted_wish_is_live(store, user, title);
    let deleted = delete_state(submit_state(store, user, title), user, title);
    assert(store.balance(user) >= rent_spec(space_spec(title)) > 0);
    assert(deleted.slots =~= store.slots);
    assert(deleted.balances =~= store.balances);
}

/// After a submission that succeeds, the same submission fails with
/// `DuplicateAddress` and changes nothing: the first wish stays as it was.
pub proof fn lemma_duplicate_is_rejected(store: LedgerView, user: Seq<u8>, title: Seq<char>)
    requires
        user.len() == KEY_LEN,
        submit_outcome(store, user, title) is Ok,
    ensures
        submit_outcome(submit_state(store, user, title), user, title) == Err::<(), ErrorCode>(
            ErrorCode::DuplicateAddress,
        ),
        submit_state(submit_state(store, user, title), user, title) == submit_state(
            store,
            user,
            title,
        ),
        live_wish(submit_state(store, user, title), wish_address(user, title).unwrap()) == Some(
            WishView { user, title },
        ),
{
    lemma_submitted_wish_is_live(store, user, title);
}

/// A deletion that is asked for a live wish by anyone but its creator fails
/// with `UnauthorizedDeletion` and changes nothing.
pub proof fn lemma_only_the_creator_deletes(store: LedgerView, caller: Seq<u8>, title: Seq<char>)
    requires
        wish_address(caller, title) matches Some(address) && live_wish(store, address) matches Some(
            wish,
        ) && wish.user != caller,
    ensures
        delete_outcome(store, caller, title) == Err::<(), ErrorCode>(
            ErrorCode::UnauthorizedDeletion,
        ),
        delete_state(store, caller, title) == store,
{
}

/// Once the wish of `owner` is stored at an address, a request of any other
/// identity to delete the wish at that address fails with
/// `UnauthorizedDeletion` and changes nothing: the wish stays live with its
/// creator and its title.
pub proof fn lemma_another_identity_is_refused(
    store: LedgerView,
    address: Seq<u8>,
    owner: Seq<u8>,
    title: Seq<char>,
    intruder: Seq<u8>,
)
    requires
        owner.len() == KEY_LEN,
        encode_utf8(title).len() <= u32::MAX,
        intruder != owner,
        submit_at_outcome(store, address, owner, title) is Ok,
    ensures
        delete_at_outcome(submit_at_state(store, address, owner, title), address, intruder)
            == Err::<(), ErrorCode>(ErrorCode::UnauthorizedDeletion),
        delete_at_state(submit_at_state(store, address, owner, title), address, intruder)
            == submit_at_state(store, address, owner, title),
        live_wish(submit_at_state(store, address, owner, title), address) == Some(
            WishView { user: owner, title },
        ),
{
    let wish = WishView { user: owner, title };
    lemma_encoded_len(wish);
    lemma_decode_encode(wish);
}

/// Once `owner` has submitted a wish, no deletion asked by another identity,
/// whatever title it names, removes or alters that wish; and where such a
/// deletion reaches the wish's address it fails with `UnauthorizedDeletion`
/// and changes nothing.
pub proof fn lemma_authorization_boundary(
    store: LedgerView,
    owner: Seq<u8>,
    title: Seq<char>,
    intruder: Seq<u8>,
    named: Seq<char>,
)
    requires
        owner.len() == KEY_LEN,
        intruder != owner,
        submit_outcome(store, owner, title) is Ok,
    ensures
        live_wish(
            delete_state(submit_state(store, owner, title), intruder, named),
            wish_address(owner, title).unwrap(),
        ) == Some(WishView { user: owner, title }),
        wish_address(intruder, named) == wish_address(owner, title) ==> delete_outcome(
            submit_state(store, owner, title),
            intruder,
            named,
        ) == Err::<(), ErrorCode>(ErrorCode::UnauthorizedDeletion) && delete_state(
            submit_state(store, owner, title),
            intruder,
            named,
        ) == submit_state(store, owner, title),
{
    lemma_submitted_wish_is_live(store, owner, title);
}

/// A live wish stays as it is until its creator deletes it: no submission
/// alters it, and a deletion either leaves it as it is or was asked by its
/// creator for its very address, and then the address is vacant.
pub proof fn lemma_a_wish_is_only_removed_by_its_creator(
    store: LedgerView,
    address: Seq<u8>,
    wish: WishView,
    caller: Seq<u8>,
    title: Seq<char>,
)
    requires
        live_wish(store, address) == Some(wish),
    ensures
        live_wish(submit_state(store, caller, title), address) == Some(wish),
        live_wish(delete_state(store, caller, title), address) == Some(wish) || (wish.user
            == caller && wish_address(caller, title) == Some(address) && !delete_state(
            store,
            caller,
            title,
        ).occupied(address)),
{
}

/// A deletion that finds no live wish at its address fails with
/// `RecordNotFound` and changes nothing.
pub proof fn lemma_missing_record(store: LedgerView, caller: Seq<u8>, title: Seq<char>)
    requires
        wish_address(caller, title) matches Some(address) && live_wish(store, address) is None,
    ensures
        delete_outcome(store, caller, title) == Err::<(), ErrorCode>(ErrorCode::RecordNotFound),
        delete_state(store, caller, title) == store,
{
}

/// A request that fails changes nothing.
pub proof fn lemma_failure_changes_nothing(store: LedgerView, user: Seq<u8>, title: Seq<char>)
    ensures
        submit_outcome(store, user, title) is Err ==> submit_state(store, user, title) == store,
        delete_outcome(store, user, title) is Err ==> delete_state(store, user, title) == store,
{
}

/// A submission that succeeds takes from the creator exactly the rent of the
/// stored wish, puts exactly that into the new slot, and leaves every other
/// identity's funds and the supply as they were.
pub proof fn lemma_submission_costs_the_rent(
    store: LedgerView,
    user: Seq<u8>,
    title: Seq<char>,
    other: Seq<u8>,
)
    requires
        submit_outcome(store, user, title) is Ok,
    ensures
        submit_state(store, user, title).balance(user) + rent_spec(space_spec(title))
            == store.balance(user),
        submit_state(store, user, title).slots[wish_address(user, title).unwrap()].lamports
            == rent_spec(space_spec(title)),
        other != user ==> submit_state(store, user, title).balance(other) == store.balance(other),
        submit_state(store, user, title).supply == store.supply,
{
}

/// In a store whose slots hold their rent, a deletion that succeeds gives
/// the caller exactly the rent of the stored wish, and leaves every other
/// identity's funds and the supply as they were.
pub proof fn lemma_deletion_refunds_the_rent(
    store: LedgerView,
    caller: Seq<u8>,
    title: Seq<char>,
    other: Seq<u8>,
)
    requires
        store.rent_exact(),
        delete_outcome(store, caller, title) is Ok,
    ensures
        delete_state(store, caller, title).balance(caller) == store.balance(caller) + rent_spec(
            store.slots[wish_address(caller, title).unwrap()].data.len(),
        ),
        other != caller ==> delete_state(store, caller, title).balance(other) == store.balance(
            other,
        ),
        delete_state(store, caller, title).supply == store.supply,
{
}

/// A submission and the creator's deletion after it leave the creator with
/// exactly the funds held before.
pub proof fn lemma_cycle_costs_nothing(store: LedgerView, user: Seq<u8>, title: Seq<char>)
    requires
        user.len() == KEY_LEN,
        submit_outcome(store, user, title) is Ok,
    ensures
        delete_state(submit_state(store, user, title), user, title).balance(user) == store.balance(
            user,
        ),
{
    lemma_submit_delete_round_trip(store, user, title);
}

/// Submission and deletion keep the slots at their rent.
pub proof fn lemma_rent_stays_exact(store: LedgerView, user: Seq<u8>, title: Seq<char>)
    requires
        store.rent_exact(),
        user.len() == KEY_LEN,
    ensures
        submit_state(store, user, title).rent_exact(),
        delete_state(store, user, title).rent_exact(),
{
    if submit_outcome(store, user, title) is Ok {
        lemma_encoded_len(WishView { user, title });
    }
}

} // verus!
