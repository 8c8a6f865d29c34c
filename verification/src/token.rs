//! The token ledger: accounts that hold balances of a mint for an owner, and
//! the transfer between them. What goes out of one account goes into another,
//! so the supply of every mint stays what it was.

use crate::address::Address;
use crate::derive::{authorizes, verify_signer, SignerSeeds};
use crate::error::ErrorCode;
use vstd::prelude::*;

verus! {

/// An account that holds `amount` units of `mint` for `owner`.
#[derive(Clone, Copy, Debug, PartialEq, Eq)]
pub struct TokenAccount {
    pub address: Address,
    pub mint: Address,
    pub owner: Address,
    pub amount: u64,
}

/// Whether some account of `accounts` has the address `address`.
pub open spec fn has_account(accounts: Seq<TokenAccount>, address: Address) -> bool {
    exists|i: int| 0 <= i < accounts.len() && (#[trigger] accounts[i]).address == address
}

/// The place in `accounts` of the account at `address`, where there is one.
pub open spec fn index_of(accounts: Seq<TokenAccount>, address: Address) -> int {
    choose|i: int| 0 <= i < accounts.len() && (#[trigger] accounts[i]).address == address
}

/// The account at `address`, if there is one.
pub open spec fn account_at(accounts: Seq<TokenAccount>, address: Address) -> Option<TokenAccount> {
    if has_account(accounts, address) {
        Some(accounts[index_of(accounts, address)])
    } else {
        None
    }
}

/// The balance at `address`; an account that does not exist holds nothing.
pub open spec fn balance_of(accounts: Seq<TokenAccount>, address: Address) -> int {
    match account_at(accounts, address) {
        Some(a) => a.amount as int,
        None => 0,
    }
}

/// What `account` adds to the supply of `mint`.
pub open spec fn share(account: TokenAccount, mint: Address) -> int {
    if account.mint == mint {
        account.amount as int
    } else {
        0
    }
}

/// The supply of `mint`: the sum of the balances of its accounts.
pub open spec fn supply(accounts: Seq<TokenAccount>, mint: Address) -> int
    decreases accounts.len(),
{
    if accounts.len() == 0 {
        0
    } else {
        supply(accounts.drop_last(), mint) + share(accounts.last(), mint)
    }
}

/// No two accounts share an address.
pub open spec fn distinct_addresses(accounts: Seq<TokenAccount>) -> bool {
    forall|i: int, j: int|
        0 <= i < j < accounts.len() ==> (#[trigger] accounts[i]).address != (
        #[trigger] accounts[j]).address
}

/// The accounts form a ledger: no two share an address, and the supply of
/// every mint fits in a balance.
pub open spec fn well_formed(accounts: Seq<TokenAccount>) -> bool {
    &&& distinct_addresses(accounts)
    &&& forall|mint: Address| #[trigger] supply(accounts, mint) <= u64::MAX
}

/// `account` with its balance set to `amount`.
pub open spec fn with_amount(account: TokenAccount, amount: int) -> TokenAccount {
    TokenAccount { amount: amount as u64, ..account }
}

/// An account without a balance, bound to `mint` and `owner`.
pub open spec fn empty_account(address: Address, mint: Address, owner: Address) -> TokenAccount {
    TokenAccount { address, mint, owner, amount: 0 }
}

/// What becomes of the accounts when the account at `address` is asked for
/// and, if it is missing, created without a balance.
pub open spec fn ensure_effect(
    accounts: Seq<TokenAccount>,
    address: Address,
    mint: Address,
    owner: Address,
) -> Seq<TokenAccount> {
    if has_account(accounts, address) {
        accounts
    } else {
        accounts.push(empty_account(address, mint, owner))
    }
}

/// The checks on the paying side of a transfer, in the order in which they
/// are made.
pub open spec fn debit_check(
    accounts: Seq<TokenAccount>,
    from: Address,
    authority: Address,
    amount: u64,
    seeds: Seq<Seq<u8>>,
    program_id: Address,
) -> Result<(), ErrorCode> {
    match account_at(accounts, from) {
        None => Err(ErrorCode::AccountMismatch),
        Some(source) => if source.owner != authority {
            Err(ErrorCode::AccountMismatch)
        } else if !authorizes(seeds, program_id, authority) {
            Err(ErrorCode::DerivationMismatch)
        } else if source.amount < amount {
            Err(ErrorCode::InsufficientFunds)
        } else {
            Ok(())
        },
    }
}

/// The checks of a transfer: those on the paying side, then that the
/// receiving account exists and holds the same mint.
pub open spec fn transfer_check(
    accounts: Seq<TokenAccount>,
    from: Address,
    to: Address,
    authority: Address,
    amount: u64,
    seeds: Seq<Seq<u8>>,
    program_id: Address,
) -> Result<(), ErrorCode> {
    match debit_check(accounts, from, authority, amount, seeds, program_id) {
        Err(e) => Err(e),
        Ok(()) => match account_at(accounts, to) {
            None => Err(ErrorCode::AccountMismatch),
            Some(target) => if target.mint != account_at(accounts, from)->0.mint {
                Err(ErrorCode::AccountMismatch)
            } else {
                Ok(())
            },
        },
    }
}

/// The accounts after `amount` has moved from the account at `from` to the
/// one at `to`. A transfer from an account to itself moves nothing.
pub open spec fn transfer_effect(
    accounts: Seq<TokenAccount>,
    from: Address,
    to: Address,
    amount: u64,
) -> Seq<TokenAccount> {
    if from == to {
        accounts
    } else {
        let i = index_of(accounts, from);
        let j = index_of(accounts, to);
        accounts.update(i, with_amount(accounts[i], accounts[i].amount - amount)).update(
            j,
            with_amount(accounts[j], accounts[j].amount + amount),
        )
    }
}

/// The checks of minting, in the order in which they are made.
pub open spec fn mint_check(accounts: Seq<TokenAccount>, to: Address, amount: u64) -> Result<
    (),
    ErrorCode,
> {
    match account_at(accounts, to) {
        None => Err(ErrorCode::AccountMismatch),
        Some(target) => if supply(accounts, target.mint) + amount > u64::MAX {
            Err(ErrorCode::SupplyOverflow)
        } else {
            Ok(())
        },
    }
}

/// The accounts after `amount` new units have gone to the account at `to`.
pub open spec fn mint_effect(accounts: Seq<TokenAccount>, to: Address, amount: u64) -> Seq<
    TokenAccount,
> {
    let j = index_of(accounts, to);
    accounts.update(j, with_amount(accounts[j], accounts[j].amount + amount))
}

/// What asking for the account at `address`, bound to `mint` and `owner`,
/// answers: whether it had to be created, or that another binding holds the
/// address.
pub open spec fn ensure_check(
    accounts: Seq<TokenAccount>,
    address: Address,
    mint: Address,
    owner: Address,
) -> Result<bool, ErrorCode> {
    match account_at(accounts, address) {
        None => Ok(true),
        Some(a) => if a.mint == mint && a.owner == owner {
            Ok(false)
        } else {
            Err(ErrorCode::AccountMismatch)
        },
    }
}

/// Where addresses are distinct, the account found at a place is the account
/// at its address.
pub proof fn lemma_account_at_index(accounts: Seq<TokenAccount>, k: int)
    requires
        distinct_addresses(accounts),
        0 <= k < accounts.len(),
    ensures
        has_account(accounts, accounts[k].address),
        index_of(accounts, accounts[k].address) == k,
        account_at(accounts, accounts[k].address) == Some(accounts[k]),
{
    let address = accounts[k].address;
    let i = index_of(accounts, address);
    assert(0 <= i < accounts.len() && accounts[i].address == address);
    if i < k {
        assert(accounts[i].address != accounts[k].address);
    } else if k < i {
        assert(accounts[k].address != accounts[i].address);
    }
}

/// An account that exists is found at its place, and has the address asked for.
pub proof fn lemma_index_of(accounts: Seq<TokenAccount>, address: Address)
    requires
        has_account(accounts, address),
    ensures
        0 <= index_of(accounts, address) < accounts.len(),
        accounts[index_of(accounts, address)].address == address,
{
}

/// A new account at a fresh address is found at that address, and leaves
/// every other account where it was.
pub proof fn lemma_account_at_push(
    accounts: Seq<TokenAccount>,
    account: TokenAccount,
    address: Address,
)
    requires
        distinct_addresses(accounts),
        !has_account(accounts, account.address),
    ensures
        distinct_addresses(accounts.push(account)),
        account_at(accounts.push(account), address) == (if address == account.address {
            Some(account)
        } else {
            account_at(accounts, address)
        }),
        has_account(accounts, address) ==> index_of(accounts.push(account), address) == index_of(
            accounts,
            address,
        ),
        index_of(accounts.push(account), account.address) == accounts.len(),
{
    let longer = accounts.push(account);
    assert forall|i: int, j: int| 0 <= i < j < longer.len() implies (#[trigger] longer[i]).address
        != (#[trigger] longer[j]).address by {
        if j == accounts.len() {
            assert(accounts[i].address != account.address);
        } else {
            assert(accounts[i].address != accounts[j].address);
        }
    }
    lemma_account_at_index(longer, accounts.len() as int);
    if has_account(accounts, address) {
        let k = index_of(accounts, address);
        assert(longer[k] == accounts[k]);
        lemma_account_at_index(longer, k);
    } else if address != account.address {
        if has_account(longer, address) {
            let k = index_of(longer, address);
            assert(accounts[k].address == address);
        }
    }
}

/// Replacing an account by one with the same address leaves every account
/// at its place: the replaced one is found changed, all others as they were.
pub proof fn lemma_account_at_update(
    accounts: Seq<TokenAccount>,
    k: int,
    account: TokenAccount,
    address: Address,
)
    requires
        distinct_addresses(accounts),
        0 <= k < accounts.len(),
        account.address == accounts[k].address,
    ensures
        distinct_addresses(accounts.update(k, account)),
        has_account(accounts.update(k, account), address) == has_account(accounts, address),
        has_account(accounts, address) ==> index_of(accounts.update(k, account), address)
            == index_of(accounts, address),
        account_at(accounts.update(k, account), address) == (if address == account.address {
            Some(account)
        } else {
            account_at(accounts, address)
        }),
{
    let updated = accounts.update(k, account);
    assert forall|i: int, j: int| 0 <= i < j < updated.len() implies (#[trigger] updated[i]).address
        != (#[trigger] updated[j]).address by {
        assert(updated[i].address == accounts[i].address);
        assert(updated[j].address == accounts[j].address);
    }
    lemma_account_at_index(accounts, k);
    if has_account(accounts, address) {
        let i = index_of(accounts, address);
        assert(updated[i].address == address);
        lemma_account_at_index(updated, i);
        lemma_account_at_index(accounts, i);
    } else if has_account(updated, address) {
        let i = index_of(updated, address);
        assert(accounts[i].address == address);
    }
}

/// A transfer between two different accounts of one mint, within the paying
/// account's balance: the amount leaves the one and reaches the other, every
/// other account stays as it was, and so does the supply of every mint.
pub proof fn lemma_transfer_effect(
    accounts: Seq<TokenAccount>,
    from: Address,
    to: Address,
    amount: u64,
)
    requires
        well_formed(accounts),
        from != to,
        account_at(accounts, from) matches Some(source) && account_at(accounts, to) matches Some(
            target,
        ) && source.mint == target.mint && amount <= source.amount,
    ensures
        well_formed(transfer_effect(accounts, from, to, amount)),
        transfer_effect(accounts, from, to, amount).len() == accounts.len(),
        account_at(accounts, to)->0.amount + amount <= u64::MAX,
        account_at(transfer_effect(accounts, from, to, amount), from) == Some(
            with_amount(account_at(accounts, from)->0, account_at(accounts, from)->0.amount - amount),
        ),
        account_at(transfer_effect(accounts, from, to, amount), to) == Some(
            with_amount(account_at(accounts, to)->0, account_at(accounts, to)->0.amount + amount),
        ),
        forall|other: Address|
            other != from && other != to ==> #[trigger] account_at(
                transfer_effect(accounts, from, to, amount),
                other,
            ) == account_at(accounts, other),
        forall|mint: Address|
            #[trigger] supply(transfer_effect(accounts, from, to, amount), mint) == supply(
                accounts,
                mint,
            ),
{
    lemma_index_of(accounts, from);
    lemma_index_of(accounts, to);
    let i = index_of(accounts, from);
    let j = index_of(accounts, to);
    let debited = with_amount(accounts[i], accounts[i].amount - amount);
    let credited = with_amount(accounts[j], accounts[j].amount + amount);
    let middle = accounts.update(i, debited);
    let after = middle.update(j, credited);
    assert(after == transfer_effect(accounts, from, to, amount));
    lemma_supply_covers_two(accounts, i, j, accounts[i].mint);
    assert forall|mint: Address| #[trigger] supply(after, mint) == supply(accounts, mint) by {
        lemma_supply_update(accounts, i, debited, mint);
        lemma_supply_update(middle, j, credited, mint);
    }
    lemma_account_at_update(accounts, i, debited, from);
    lemma_account_at_update(accounts, i, debited, to);
    lemma_account_at_update(middle, j, credited, from);
    lemma_account_at_update(middle, j, credited, to);
    assert forall|other: Address| other != from && other != to implies #[trigger] account_at(
        after,
        other,
    ) == account_at(accounts, other) by {
        lemma_account_at_update(accounts, i, debited, other);
        lemma_account_at_update(middle, j, credited, other);
    }
}

/// A new account adds its share to the supply.
pub proof fn lemma_supply_push(accounts: Seq<TokenAccount>, account: TokenAccount, mint: Address)
    ensures
        supply(accounts.push(account), mint) == supply(accounts, mint) + share(account, mint),
{
    assert(accounts.push(account).drop_last() =~= accounts);
}

/// Replacing an account changes the supply by the difference of the shares.
pub proof fn lemma_supply_update(
    accounts: Seq<TokenAccount>,
    k: int,
    account: TokenAccount,
    mint: Address,
)
    requires
        0 <= k < accounts.len(),
    ensures
        supply(accounts.update(k, account), mint) == supply(accounts, mint) - share(
            accounts[k],
            mint,
        ) + share(account, mint),
    decreases accounts.len(),
{
    let updated = accounts.update(k, account);
    if k == accounts.len() - 1 {
        assert(updated.drop_last() =~= accounts.drop_last());
    } else {
        lemma_supply_update(accounts.drop_last(), k, account, mint);
        assert(updated.drop_last() =~= accounts.drop_last().update(k, account));
    }
}

/// The supply is never negative, and no smaller than the supply of a prefix.
pub proof fn lemma_supply_prefix(accounts: Seq<TokenAccount>, n: int, mint: Address)
    requires
        0 <= n <= accounts.len(),
    ensures
        0 <= supply(accounts.subrange(0, n), mint) <= supply(accounts, mint),
    decreases accounts.len() - n,
{
    if n == accounts.len() {
        assert(accounts.subrange(0, n) =~= accounts);
        lemma_supply_nonnegative(accounts, mint);
    } else {
        lemma_supply_prefix(accounts, n + 1, mint);
        let longer = accounts.subrange(0, n + 1);
        assert(longer.drop_last() =~= accounts.subrange(0, n));
        lemma_supply_nonnegative(accounts.subrange(0, n), mint);
    }
}

/// The supply is never negative.
pub proof fn lemma_supply_nonnegative(accounts: Seq<TokenAccount>, mint: Address)
    ensures
        0 <= supply(accounts, mint),
    decreases accounts.len(),
{
    if accounts.len() > 0 {
        lemma_supply_nonnegative(accounts.drop_last(), mint);
    }
}

/// Two different accounts of one mint hold, together, no more than its supply.
pub proof fn lemma_supply_covers_two(accounts: Seq<TokenAccount>, i: int, j: int, mint: Address)
    requires
        0 <= i < accounts.len(),
        0 <= j < accounts.len(),
        i != j,
    ensures
        share(accounts[i], mint) + share(accounts[j], mint) <= supply(accounts, mint),
{
    let without_i = accounts.update(i, with_amount(accounts[i], 0));
    lemma_supply_update(accounts, i, with_amount(accounts[i], 0), mint);
    let without_both = without_i.update(j, with_amount(accounts[j], 0));
    lemma_supply_update(without_i, j, with_amount(accounts[j], 0), mint);
    lemma_supply_nonnegative(without_both, mint);
}

/// An account holds no more than the supply of its mint.
pub proof fn lemma_supply_covers(accounts: Seq<TokenAccount>, i: int, mint: Address)
    requires
        0 <= i < accounts.len(),
    ensures
        share(accounts[i], mint) <= supply(accounts, mint),
{
    let without_i = accounts.update(i, with_amount(accounts[i], 0));
    lemma_supply_update(accounts, i, with_amount(accounts[i], 0), mint);
    lemma_supply_nonnegative(without_i, mint);
}

/// The token accounts of a ledger.
pub struct TokenLedger {
    accounts: Vec<TokenAccount>,
}

impl View for TokenLedger {
    type V = Seq<TokenAccount>;

    closed spec fn view(&self) -> Seq<TokenAccount> {
        self.accounts@
    }
}

impl TokenLedger {
    /// The invariant of the ledger.
    pub open spec fn wf(&self) -> bool {
        well_formed(self@)
    }

    /// A ledger without accounts.
    pub fn new() -> (t: TokenLedger)
        ensures
            t@ == Seq::<TokenAccount>::empty(),
            t.wf(),
    {
        let t = TokenLedger { accounts: Vec::new() };
        assert forall|mint: Address| #[trigger] supply(t@, mint) <= u64::MAX by {}
        t
    }

    /// The number of accounts.
    pub fn len(&self) -> (n: usize)
        ensures
            n == self@.len(),
    {
        self.accounts.len()
    }

    fn position(&self, address: &Address) -> (r: Option<usize>)
        requires
            self.wf(),
        ensures
            match r {
                Some(k) => k < self@.len() && self@[k as int].address == *address && index_of(
                    self@,
                    *address,
                ) == k,
                None => true,
            },
            r is Some <==> has_account(self@, *address),
    {
        let mut i: usize = 0;
        while i < self.accounts.len()
            invariant
                self.wf(),
                i <= self.accounts.len(),
                forall|j: int| 0 <= j < i ==> (#[trigger] self.accounts@[j]).address != *address,
            decreases self.accounts.len() - i,
        {
            if self.accounts[i].address == *address {
                proof {
                    lemma_account_at_index(self@, i as int);
                }
                return Some(i);
            }
            i = i + 1;
        }
        None
    }

    /// The account at `address`, if there is one.
    pub fn account(&self, address: &Address) -> (r: Option<TokenAccount>)
        requires
            self.wf(),
        ensures
            r == account_at(self@, *address),
    {
        match self.position(address) {
            Some(k) => Some(self.accounts[k]),
            None => None,
        }
    }

    /// The balance at `address`; an account that does not exist holds nothing.
    pub fn balance(&self, address: &Address) -> (r: u64)
        requires
            self.wf(),
        ensures
            r == balance_of(self@, *address),
    {
        match self.position(address) {
            Some(k) => self.accounts[k].amount,
            None => 0,
        }
    }

    /// The supply of `mint`.
    pub fn total_supply(&self, mint: &Address) -> (r: u64)
        requires
            self.wf(),
        ensures
            r == supply(self@, *mint),
    {
        let mut total: u64 = 0;
        let mut i: usize = 0;
        assert(self@.subrange(0, 0) =~= Seq::<TokenAccount>::empty());
        while i < self.accounts.len()
            invariant
                i <= self.accounts.len(),
                total == supply(self@.subrange(0, i as int), *mint),
                supply(self@, *mint) <= u64::MAX,
            decreases self.accounts.len() - i,
        {
            proof {
                lemma_supply_prefix(self@, i + 1, *mint);
                assert(self@.subrange(0, i + 1).drop_last() =~= self@.subrange(0, i as int));
            }
            if self.accounts[i].mint == *mint {
                total = total + self.accounts[i].amount;
            }
            i = i + 1;
        }
        assert(self@.subrange(0, i as int) =~= self@);
        total
    }

    /// Looks up the account at `address`; creates it without a balance,
    /// bound to `mint` and `owner`, if there is none. Answers whether it was
    /// created. An account bound otherwise is left alone and reported.
    pub fn ensure_account(&mut self, address: &Address, mint: &Address, owner: &Address) -> (r:
        Result<bool, ErrorCode>)
        requires
            old(self).wf(),
        ensures
            final(self).wf(),
            r == ensure_check(old(self)@, *address, *mint, *owner),
            final(self)@ == (if r is Ok {
                ensure_effect(old(self)@, *address, *mint, *owner)
            } else {
                old(self)@
            }),
    {
        match self.position(address) {
            Some(k) => {
                let found = self.accounts[k];
                if found.mint == *mint && found.owner == *owner {
                    Ok(false)
                } else {
                    Err(ErrorCode::AccountMismatch)
                }
            },
            None => {
                let created = TokenAccount {
                    address: *address,
                    mint: *mint,
                    owner: *owner,
                    amount: 0,
                };
                let ghost before = self@;
                self.accounts.push(created);
                proof {
                    assert forall|m: Address| #[trigger] supply(self@, m) <= u64::MAX by {
                        lemma_supply_push(before, created, m);
                    }
                }
                Ok(true)
            },
        }
    }

    /// Creates `amount` new units in the account at `to`.
    pub fn mint_to(&mut self, to: &Address, amount: u64) -> (r: Result<(), ErrorCode>)
        requires
            old(self).wf(),
        ensures
            final(self).wf(),
            r == mint_check(old(self)@, *to, amount),
            final(self)@ == (if r is Ok {
                mint_effect(old(self)@, *to, amount)
            } else {
                old(self)@
            }),
    {
        match self.position(to) {
            None => Err(ErrorCode::AccountMismatch),
            Some(k) => {
                let target = self.accounts[k];
                let total = self.total_supply(&target.mint);
                if amount > u64::MAX - total {
                    return Err(ErrorCode::SupplyOverflow);
                }
                let ghost before = self@;
                proof {
                    lemma_supply_covers(before, k as int, target.mint);
                }
                let credited = TokenAccount { amount: target.amount + amount, ..target };
                self.accounts.set(k, credited);
                proof {
                    assert forall|m: Address| #[trigger] supply(self@, m) <= u64::MAX by {
                        lemma_supply_update(before, k as int, credited, m);
                    }
                }
                Ok(())
            },
        }
    }

    /// Makes the checks on the paying side of a transfer and changes nothing.
    pub fn authorize_debit(
        &self,
        from: &Address,
        authority: &Address,
        amount: u64,
        seeds: &SignerSeeds,
        program_id: &Address,
    ) -> (r: Result<(), ErrorCode>)
        requires
            self.wf(),
        ensures
            r == debit_check(self@, *from, *authority, amount, seeds@, *program_id),
    {
        match self.position(from) {
            None => Err(ErrorCode::AccountMismatch),
            Some(k) => {
                let source = self.accounts[k];
                if source.owner != *authority {
                    Err(ErrorCode::AccountMismatch)
                } else if !verify_signer(seeds, program_id, authority) {
                    Err(ErrorCode::DerivationMismatch)
                } else if source.amount < amount {
                    Err(ErrorCode::InsufficientFunds)
                } else {
                    Ok(())
                }
            },
        }
    }

    /// Moves `amount` from the account at `from` to the one at `to`, in the
    /// name of `authority`, for which the program `program_id` presents
    /// `seeds` in place of a signature.
    pub fn transfer(
        &mut self,
        from: &Address,
        to: &Address,
        authority: &Address,
        amount: u64,
        seeds: &SignerSeeds,
        program_id: &Address,
    ) -> (r: Result<(), ErrorCode>)
        requires
            old(self).wf(),
        ensures
            final(self).wf(),
            r == transfer_check(old(self)@, *from, *to, *authority, amount, seeds@, *program_id),
            final(self)@ == (if r is Ok {
                transfer_effect(old(self)@, *from, *to, amount)
            } else {
                old(self)@
            }),
    {
        match self.authorize_debit(from, authority, amount, seeds, program_id) {
            Err(e) => {
                return Err(e);
            },
            Ok(()) => {},
        }
        let i = match self.position(from) {
            Some(i) => i,
            None => {
                return Err(ErrorCode::AccountMismatch);
            },
        };
        let j = match self.position(to) {
            Some(j) => j,
            None => {
                return Err(ErrorCode::AccountMismatch);
            },
        };
        let source = self.accounts[i];
        let target = self.accounts[j];
        if target.mint != source.mint {
            return Err(ErrorCode::AccountMismatch);
        }
        if i == j {
            return Ok(());
        }
        proof {
            lemma_transfer_effect(self@, *from, *to, amount);
        }
        let debited = TokenAccount { amount: source.amount - amount, ..source };
        let credited = TokenAccount { amount: target.amount + amount, ..target };
        self.accounts.set(i, debited);
        self.accounts.set(j, credited);
        Ok(())
    }
}

} // verus!
