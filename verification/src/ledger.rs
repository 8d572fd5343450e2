//! The record store: storage slots found by address, and the funds of the
//! identities that pay for them.
//!
//! A slot is paid for when it is allocated and the payment stays with the
//! slot until the slot is closed; then all of it goes to the identity named
//! for the refund. Lamports are never made or lost by allocating, writing or
//! closing: only `credit` brings new ones in.

use vstd::prelude::*;
use vstd::pervasive::unreached;
use anchor_lang::prelude::Rent;
use crate::error::ErrorCode;
use crate::keys::{Address, Identity};
use crate::table::{
    as_map, distinct_keys, find, has_key, lemma_map_at, lemma_map_push, lemma_map_remove,
    lemma_map_update, lemma_sum_bound, lemma_sum_push, lemma_sum_remove, lemma_sum_update,
    position, sum_lamports, Entry, EntryView,
};

verus! {

/// Bytes that every slot is charged for besides its data.
pub const ACCOUNT_STORAGE_OVERHEAD: u64 = 128;

/// The price of keeping one byte stored, in lamports.
pub const LAMPORTS_PER_BYTE: u64 = 6960;

/// The largest slot that can be allocated, in bytes.
pub const MAX_RECORD_SPACE: usize = 10_485_760;

/// What a slot of `size` bytes costs to allocate.
pub open spec fn rent_spec(size: nat) -> nat {
    (ACCOUNT_STORAGE_OVERHEAD as nat + size) * LAMPORTS_PER_BYTE as nat
}

/// The data of a freshly allocated slot: `size` zero bytes.
pub open spec fn zeroed(size: nat) -> Seq<u8> {
    Seq::new(size, |i: int| 0u8)
}

/// How a request to allocate ends, given whether the address is occupied,
/// what the funder holds and what the slot costs: an occupied address is
/// refused first, then a funder who cannot pay.
pub open spec fn allocation_verdict_spec(occupied: bool, funds: nat, rent: nat) -> Result<
    (),
    ErrorCode,
> {
    if occupied {
        Err(ErrorCode::DuplicateAddress)
    } else if funds < rent {
        Err(ErrorCode::InsufficientFunds)
    } else {
        Ok(())
    }
}

/// The store as mathematical values: the slots by address, the funds by
/// identity, and the lamports in existence.
pub struct LedgerView {
    pub slots: Map<Seq<u8>, EntryView>,
    pub balances: Map<Seq<u8>, nat>,
    pub supply: nat,
}

impl LedgerView {
    /// The store with no slot and no funds.
    pub open spec fn empty() -> LedgerView {
        LedgerView { slots: Map::empty(), balances: Map::empty(), supply: 0 }
    }

    /// The funds of `who`; an identity that was never credited has none.
    pub open spec fn balance(self, who: Seq<u8>) -> nat {
        if self.balances.dom().contains(who) {
            self.balances[who]
        } else {
            0
        }
    }

    /// Every slot holds exactly the rent of its size.
    pub open spec fn rent_exact(self) -> bool {
        forall|address: Seq<u8>|
            self.slots.dom().contains(address) ==> (#[trigger] self.slots[address]).lamports
                == rent_spec(self.slots[address].data.len())
    }

    /// Whether a slot is allocated at `address`.
    pub open spec fn occupied(self, address: Seq<u8>) -> bool {
        self.slots.dom().contains(address)
    }

    /// The store after `lamports` new lamports were given to `who`.
    pub open spec fn credit(self, who: Seq<u8>, lamports: nat) -> LedgerView {
        LedgerView {
            slots: self.slots,
            balances: self.balances.insert(who, self.balance(who) + lamports),
            supply: self.supply + lamports,
        }
    }

    /// How a request to allocate `size` bytes at `address`, paid by `funder`,
    /// ends.
    pub open spec fn allocate_outcome(self, address: Seq<u8>, size: nat, funder: Seq<u8>) -> Result<
        (),
        ErrorCode,
    > {
        allocation_verdict_spec(self.occupied(address), self.balance(funder), rent_spec(size))
    }

    /// The store after a successful allocation: the funder has paid the
    /// rent, and the new slot holds it together with `size` zero bytes.
    pub open spec fn allocate(self, address: Seq<u8>, size: nat, funder: Seq<u8>) -> LedgerView {
        LedgerView {
            slots: self.slots.insert(
                address,
                EntryView { lamports: rent_spec(size), data: zeroed(size) },
            ),
            balances: self.balances.insert(
                funder,
                (self.balance(funder) - rent_spec(size)) as nat,
            ),
            supply: self.supply,
        }
    }

    /// Whether `data` can be written at `address`: a slot is there and `data`
    /// fills it exactly.
    pub open spec fn writable(self, address: Seq<u8>, data: Seq<u8>) -> bool {
        self.occupied(address) && data.len() == self.slots[address].data.len()
    }

    /// The store after `data` was written into the slot at `address`.
    pub open spec fn write(self, address: Seq<u8>, data: Seq<u8>) -> LedgerView {
        LedgerView {
            slots: self.slots.insert(
                address,
                EntryView { lamports: self.slots[address].lamports, data },
            ),
            balances: self.balances,
            supply: self.supply,
        }
    }

    /// The store after the slot at `address` was closed: the slot is gone and
    /// all that it held is with `refund_to`.
    pub open spec fn close(self, address: Seq<u8>, refund_to: Seq<u8>) -> LedgerView {
        LedgerView {
            slots: self.slots.remove(address),
            balances: self.balances.insert(
                refund_to,
                self.balance(refund_to) + self.slots[address].lamports,
            ),
            supply: self.supply,
        }
    }
}

/// The funds that a table of wallets records, by identity.
pub open spec fn balances_of(wallets: Seq<Entry>) -> Map<Seq<u8>, nat> {
    as_map(wallets).map_values(|wallet: EntryView| wallet.lamports)
}

/// Calls `Rent::minimum_balance` of `anchor_lang` on the default rent, which
/// charges 3480 lamports per byte and year for two years. Trusted: for sizes
/// up to `MAX_RECORD_SPACE` that is the stored bytes and the overhead, times
/// `LAMPORTS_PER_BYTE`. The bound keeps the product far below the point
/// where the function's arithmetic overflows or rounds.
#[verifier::external_body]
fn minimum_balance(size: usize) -> (lamports: u64)
    requires
        size <= MAX_RECORD_SPACE,
    ensures
        lamports == rent_spec(size as nat),
{
    Rent::default().minimum_balance(size)
}

/// Decides how a request to allocate ends, given whether the address is
/// occupied, what the funder holds and what the slot costs.
pub fn allocation_verdict(occupied: bool, funds: u64, rent: u64) -> (res: Result<(), ErrorCode>)
    ensures
        res == allocation_verdict_spec(occupied, funds as nat, rent as nat),
{
    if occupied {
        Err(ErrorCode::DuplicateAddress)
    } else if funds < rent {
        Err(ErrorCode::InsufficientFunds)
    } else {
        Ok(())
    }
}

/// Adds `lamports` to the wallet of `who`, opening one where `who` has none.
fn deposit(wallets: &mut Vec<Entry>, who: &[u8; 32], lamports: u64)
    requires
        distinct_keys(old(wallets)@),
        sum_lamports(old(wallets)@) + lamports <= u64::MAX,
    ensures
        distinct_keys(final(wallets)@),
        sum_lamports(final(wallets)@) == sum_lamports(old(wallets)@) + lamports,
        balances_of(final(wallets)@) == balances_of(old(wallets)@).insert(
            who@,
            if has_key(old(wallets)@, who@) {
                balances_of(old(wallets)@)[who@] + lamports as nat
            } else {
                lamports as nat
            },
        ),
{
    let ghost before = wallets@;
    match find(wallets, who) {
        Some(i) => {
            proof {
                lemma_sum_bound(before, i as int);
                lemma_map_at(before, i as int);
            }
            let held = wallets[i].lamports;
            wallets[i].lamports = held + lamports;
            proof {
                assert(wallets@ =~= before.update(i as int, wallets@[i as int]));
                lemma_sum_update(before, i as int, wallets@[i as int]);
                lemma_map_update(before, i as int, wallets@[i as int]);
                assert(balances_of(wallets@) =~= balances_of(before).insert(
                    who@,
                    (held + lamports) as nat,
                ));
            }
        },
        None => {
            let wallet = Entry { key: *who, lamports, data: Vec::new() };
            wallets.push(wallet);
            proof {
                lemma_sum_push(before, wallet);
                lemma_map_push(before, wallet);
                assert(balances_of(wallets@) =~= balances_of(before).insert(who@, lamports as nat));
            }
        },
    }
}

/// The record store.
pub struct Ledger {
    slots: Vec<Entry>,
    wallets: Vec<Entry>,
    supply: u64,
}

impl View for Ledger {
    type V = LedgerView;

    closed spec fn view(&self) -> LedgerView {
        LedgerView {
            slots: as_map(self.slots@),
            balances: balances_of(self.wallets@),
            supply: self.supply as nat,
        }
    }
}

impl Ledger {
    /// No address and no identity occurs twice, every slot holds the rent of
    /// its size, and the supply is what the slots and the wallets hold
    /// together.
    pub closed spec fn wf(&self) -> bool {
        &&& distinct_keys(self.slots@)
        &&& distinct_keys(self.wallets@)
        &&& self.supply == sum_lamports(self.slots@) + sum_lamports(self.wallets@)
        &&& forall|i: int|
            0 <= i < self.slots@.len() ==> (#[trigger] self.slots@[i]).lamports == rent_spec(
                self.slots@[i].data@.len(),
            )
    }

    /// In a well-formed store every slot holds exactly the rent of its size.
    pub proof fn lemma_rent_exact(&self)
        requires
            self.wf(),
        ensures
            self@.rent_exact(),
    {
        assert forall|address: Seq<u8>| self@.slots.dom().contains(address) implies (
        #[trigger] self@.slots[address]).lamports == rent_spec(
            self@.slots[address].data.len(),
        ) by {
            let i = position(self.slots@, address);
            lemma_map_at(self.slots@, i);
        }
    }

    /// A store with no slot and no funds.
    pub fn new() -> (ledger: Ledger)
        ensures
            ledger.wf(),
            ledger@ == LedgerView::empty(),
    {
        let ledger = Ledger { slots: Vec::new(), wallets: Vec::new(), supply: 0 };
        proof {
            assert(ledger@.slots =~= Map::empty());
            assert(ledger@.balances =~= Map::empty());
        }
        ledger
    }

    /// The lamports in existence.
    pub fn supply(&self) -> (lamports: u64)
        requires
            self.wf(),
        ensures
            lamports == self@.supply,
    {
        self.supply
    }

    /// The funds of `who`.
    pub fn balance(&self, who: &Identity) -> (lamports: u64)
        requires
            self.wf(),
        ensures
            lamports == self@.balance(who@),
    {
        match find(&self.wallets, &who.bytes) {
            Some(i) => {
                proof {
                    lemma_map_at(self.wallets@, i as int);
                }
                self.wallets[i].lamports
            },
            None => 0,
        }
    }

    /// Gives `lamports` new lamports to `who`. Refused, with the store left
    /// as it was, exactly where the supply would no longer fit in a `u64`.
    pub fn credit(&mut self, who: &Identity, lamports: u64) -> (done: bool)
        requires
            old(self).wf(),
        ensures
            final(self).wf(),
            done == (old(self)@.supply + lamports <= u64::MAX),
            final(self)@ == if done {
                old(self)@.credit(who@, lamports as nat)
            } else {
                old(self)@
            },
    {
        if lamports > u64::MAX - self.supply {
            return false;
        }
        deposit(&mut self.wallets, &who.bytes, lamports);
        self.supply = self.supply + lamports;
        true
    }

    /// The data of the slot at `address`, if one is allocated there.
    pub fn data_at(&self, address: &Address) -> (data: Option<&Vec<u8>>)
        requires
            self.wf(),
        ensures
            match data {
                Some(bytes) => self@.occupied(address@) && bytes@ == self@.slots[address@].data,
                None => !self@.occupied(address@),
            },
    {
        match find(&self.slots, &address.bytes) {
            Some(i) => {
                proof {
                    lemma_map_at(self.slots@, i as int);
                }
                Some(&self.slots[i].data)
            },
            None => None,
        }
    }

    /// The lamports that the slot at `address` holds, if one is allocated
    /// there.
    pub fn lamports_at(&self, address: &Address) -> (lamports: Option<u64>)
        requires
            self.wf(),
        ensures
            match lamports {
                Some(held) => self@.occupied(address@) && held == self@.slots[address@].lamports,
                None => !self@.occupied(address@),
            },
    {
        match find(&self.slots, &address.bytes) {
            Some(i) => {
                proof {
                    lemma_map_at(self.slots@, i as int);
                }
                Some(self.slots[i].lamports)
            },
            None => None,
        }
    }

    /// Allocates a slot of `size` zero bytes at `address` and has `funder`
    /// pay its rent. Refused, with the store left as it was, where the
    /// address is occupied or the funder cannot pay.
    pub fn allocate(&mut self, address: &Address, size: usize, funder: &Identity) -> (res: Result<
        (),
        ErrorCode,
    >)
        requires
            old(self).wf(),
            size <= MAX_RECORD_SPACE,
        ensures
            final(self).wf(),
            res == old(self)@.allocate_outcome(address@, size as nat, funder@),
            final(self)@ == if res is Ok {
                old(self)@.allocate(address@, size as nat, funder@)
            } else {
                old(self)@
            },
    {
        let occupied = find(&self.slots, &address.bytes).is_some();
        let rent = minimum_balance(size);
        let ghost slots = self.slots@;
        let ghost wallets = self.wallets@;
        let wallet = find(&self.wallets, &funder.bytes);
        let held = match wallet {
            Some(i) => {
                proof {
                    lemma_map_at(wallets, i as int);
                }
                self.wallets[i].lamports
            },
            None => 0,
        };
        match allocation_verdict(occupied, held, rent) {
            Ok(()) => {},
            Err(e) => {
                return Err(e);
            },
        }
        match wallet {
            Some(i) => {
                self.wallets[i].lamports = held - rent;
                let slot = Entry { key: address.bytes, lamports: rent, data: vec![0u8; size] };
                self.slots.push(slot);
                proof {
                    assert(self.wallets@ =~= wallets.update(i as int, self.wallets@[i as int]));
                    lemma_sum_update(wallets, i as int, self.wallets@[i as int]);
                    lemma_map_update(wallets, i as int, self.wallets@[i as int]);
                    lemma_sum_push(slots, slot);
                    lemma_map_push(slots, slot);
                    assert(slot.data@ =~= zeroed(size as nat));
                    assert(balances_of(self.wallets@) =~= balances_of(wallets).insert(
                        funder@,
                        (held - rent) as nat,
                    ));
                }
                Ok(())
            },
            None => unreached(),
        }
    }

    /// Writes `data` into the slot at `address`. Refused, with the store left
    /// as it was, where no slot is there or `data` does not fill it exactly.
    pub fn write(&mut self, address: &Address, data: Vec<u8>) -> (done: bool)
        requires
            old(self).wf(),
        ensures
            final(self).wf(),
            done == old(self)@.writable(address@, data@),
            final(self)@ == if done {
                old(self)@.write(address@, data@)
            } else {
                old(self)@
            },
    {
        let ghost slots = self.slots@;
        match find(&self.slots, &address.bytes) {
            Some(i) => {
                proof {
                    lemma_map_at(slots, i as int);
                }
                if data.len() != self.slots[i].data.len() {
                    return false;
                }
                self.slots[i].data = data;
                proof {
                    assert(self.slots@ =~= slots.update(i as int, self.slots@[i as int]));
                    lemma_sum_update(slots, i as int, self.slots@[i as int]);
                    lemma_map_update(slots, i as int, self.slots@[i as int]);
                }
                true
            },
            None => false,
        }
    }

    /// Closes the slot at `address` and gives all that it held to
    /// `refund_to`. Refused, with the store left as it was, where no slot is
    /// there.
    pub fn close(&mut self, address: &Address, refund_to: &Identity) -> (done: bool)
        requires
            old(self).wf(),
        ensures
            final(self).wf(),
            done == old(self)@.occupied(address@),
            final(self)@ == if done {
                old(self)@.close(address@, refund_to@)
            } else {
                old(self)@
            },
    {
        let ghost slots = self.slots@;
        let ghost wallets = self.wallets@;
        match find(&self.slots, &address.bytes) {
            Some(i) => {
                proof {
                    lemma_map_at(slots, i as int);
                    lemma_sum_bound(slots, i as int);
                    lemma_sum_remove(slots, i as int);
                    lemma_map_remove(slots, i as int);
                }
                let slot = self.slots.remove(i);
                deposit(&mut self.wallets, &refund_to.bytes, slot.lamports);
                true
            },
            None => false,
        }
    }
}

} // verus!
