//! The stake ledger: one account per staking address.

use vstd::prelude::*;
use crate::address::Address;

verus! {

/// The staked balance of one address.
#[derive(Clone, Copy, Debug)]
pub struct StakeAccount {
    pub address: Address,
    pub amount: i128,
}

/// Some account in `accounts` belongs to `who`.
pub open spec fn has_account(accounts: Seq<StakeAccount>, who: Address) -> bool {
    exists|i: int| 0 <= i < accounts.len() && (#[trigger] accounts[i]).address == who
}

/// Position of an account of `who` in `accounts`, where there is one.
pub open spec fn account_index(accounts: Seq<StakeAccount>, who: Address) -> int {
    choose|i: int| 0 <= i < accounts.len() && (#[trigger] accounts[i]).address == who
}

/// The staked balance of `who`: the amount in its account, or zero if it has
/// none.
pub open spec fn balance_of(accounts: Seq<StakeAccount>, who: Address) -> int {
    if has_account(accounts, who) {
        accounts[account_index(accounts, who)].amount as int
    } else {
        0
    }
}

/// No address has two accounts.
pub open spec fn unique_addresses(accounts: Seq<StakeAccount>) -> bool {
    forall|i: int, j: int|
        0 <= i < accounts.len() && 0 <= j < accounts.len() && i != j ==> (
        #[trigger] accounts[i]).address != (#[trigger] accounts[j]).address
}

/// No account holds a negative amount.
pub open spec fn amounts_non_negative(accounts: Seq<StakeAccount>) -> bool {
    forall|i: int| 0 <= i < accounts.len() ==> (#[trigger] accounts[i]).amount >= 0
}

/// The sum of all account amounts.
pub open spec fn sum_amounts(accounts: Seq<StakeAccount>) -> int
    decreases accounts.len(),
{
    if accounts.len() == 0 {
        0
    } else {
        sum_amounts(accounts.drop_last()) + accounts.last().amount
    }
}

/// The ledger in which the balance of `who` is `amount` and every other
/// balance is as in `accounts`. An address without an account gets one at the
/// end.
pub open spec fn with_balance(accounts: Seq<StakeAccount>, who: Address, amount: i128) -> Seq<
    StakeAccount,
> {
    if has_account(accounts, who) {
        accounts.update(account_index(accounts, who), StakeAccount { address: who, amount })
    } else {
        accounts.push(StakeAccount { address: who, amount })
    }
}

/// The ledger after `delta` is added to the balance of `who`.
pub open spec fn credited(accounts: Seq<StakeAccount>, who: Address, delta: int) -> Seq<
    StakeAccount,
> {
    with_balance(accounts, who, (balance_of(accounts, who) + delta) as i128)
}

/// In a ledger with unique addresses, the account found at `i` is the account
/// of its address.
pub proof fn lemma_account_index(accounts: Seq<StakeAccount>, i: int)
    requires
        unique_addresses(accounts),
        0 <= i < accounts.len(),
    ensures
        has_account(accounts, accounts[i].address),
        account_index(accounts, accounts[i].address) == i,
        balance_of(accounts, accounts[i].address) == accounts[i].amount,
{
}

/// Replacing one amount changes the sum by the difference.
pub proof fn lemma_sum_update(accounts: Seq<StakeAccount>, i: int, account: StakeAccount)
    requires
        0 <= i < accounts.len(),
    ensures
        sum_amounts(accounts.update(i, account)) == sum_amounts(accounts) - accounts[i].amount
            + account.amount,
    decreases accounts.len(),
{
    let updated = accounts.update(i, account);
    if i == accounts.len() - 1 {
        assert(updated.drop_last() =~= accounts.drop_last());
    } else {
        assert(updated.drop_last() =~= accounts.drop_last().update(i, account));
        lemma_sum_update(accounts.drop_last(), i, account);
    }
}

/// Appending an account adds its amount to the sum.
pub proof fn lemma_sum_push(accounts: Seq<StakeAccount>, account: StakeAccount)
    ensures
        sum_amounts(accounts.push(account)) == sum_amounts(accounts) + account.amount,
{
    assert(accounts.push(account).drop_last() =~= accounts);
}

/// Where no amount is negative, no amount exceeds the sum, and the sum is not
/// negative.
pub proof fn lemma_amount_at_most_sum(accounts: Seq<StakeAccount>, i: int)
    requires
        amounts_non_negative(accounts),
        0 <= i < accounts.len(),
    ensures
        0 <= accounts[i].amount <= sum_amounts(accounts),
    decreases accounts.len(),
{
    lemma_sum_non_negative(accounts.drop_last());
    if i < accounts.len() - 1 {
        lemma_amount_at_most_sum(accounts.drop_last(), i);
    }
}

/// Where no amount is negative, the sum is not negative.
pub proof fn lemma_sum_non_negative(accounts: Seq<StakeAccount>)
    requires
        amounts_non_negative(accounts),
    ensures
        0 <= sum_amounts(accounts),
    decreases accounts.len(),
{
    if accounts.len() > 0 {
        lemma_sum_non_negative(accounts.drop_last());
    }
}

/// Where no amount is negative, no balance is negative and no balance
/// exceeds the sum.
pub proof fn lemma_balance_at_most_sum(accounts: Seq<StakeAccount>, who: Address)
    requires
        amounts_non_negative(accounts),
    ensures
        0 <= balance_of(accounts, who) <= sum_amounts(accounts),
{
    lemma_sum_non_negative(accounts);
    if has_account(accounts, who) {
        lemma_amount_at_most_sum(accounts, account_index(accounts, who));
    }
}

/// Setting one balance keeps the ledger in order, gives that address the new
/// balance, leaves every other balance alone and moves the sum by the
/// difference.
pub proof fn lemma_with_balance(accounts: Seq<StakeAccount>, who: Address, amount: i128)
    requires
        unique_addresses(accounts),
        amounts_non_negative(accounts),
        amount >= 0,
    ensures
        unique_addresses(with_balance(accounts, who, amount)),
        amounts_non_negative(with_balance(accounts, who, amount)),
        balance_of(with_balance(accounts, who, amount), who) == amount,
        forall|other: Address|
            other != who ==> #[trigger] balance_of(with_balance(accounts, who, amount), other)
                == balance_of(accounts, other),
        sum_amounts(with_balance(accounts, who, amount)) == sum_amounts(accounts) - balance_of(
            accounts,
            who,
        ) + amount,
{
    let after = with_balance(accounts, who, amount);
    let entry = StakeAccount { address: who, amount };
    if has_account(accounts, who) {
        let k = account_index(accounts, who);
        lemma_sum_update(accounts, k, entry);
        assert(after[k].address == who);
        assert forall|i: int, j: int|
            0 <= i < after.len() && 0 <= j < after.len() && i != j implies (
        #[trigger] after[i]).address != (#[trigger] after[j]).address by {
            assert(after[i].address == accounts[i].address);
            assert(after[j].address == accounts[j].address);
        }
        lemma_account_index(after, k);
        assert forall|other: Address| other != who implies #[trigger] balance_of(after, other)
            == balance_of(accounts, other) by {
            if has_account(accounts, other) {
                let m = account_index(accounts, other);
                assert(after[m] == accounts[m]);
                lemma_account_index(after, m);
            } else {
                if has_account(after, other) {
                    let m = account_index(after, other);
                    assert(accounts[m].address == other);
                }
            }
        }
    } else {
        let k = accounts.len() as int;
        lemma_sum_push(accounts, entry);
        assert(after[k].address == who);
        assert forall|i: int, j: int|
            0 <= i < after.len() && 0 <= j < after.len() && i != j implies (
        #[trigger] after[i]).address != (#[trigger] after[j]).address by {
            if i < k {
                assert(after[i] == accounts[i]);
            }
            if j < k {
                assert(after[j] == accounts[j]);
            }
        }
        lemma_account_index(after, k);
        assert forall|other: Address| other != who implies #[trigger] balance_of(after, other)
            == balance_of(accounts, other) by {
            if has_account(accounts, other) {
                let m = account_index(accounts, other);
                assert(after[m] == accounts[m]);
                lemma_account_index(after, m);
            } else {
                if has_account(after, other) {
                    let m = account_index(after, other);
                    assert(accounts[m].address == other);
                }
            }
        }
    }
}

/// Finds the account of `who`.
pub fn find_account(accounts: &Vec<StakeAccount>, who: &Address) -> (r: Option<usize>)
    ensures
        r is Some <==> has_account(accounts@, *who),
        r matches Some(i) ==> i < accounts@.len() && accounts@[i as int].address == *who,
{
    let mut i: usize = 0;
    while i < accounts.len()
        invariant
            i <= accounts@.len(),
            forall|j: int| 0 <= j < i ==> (#[trigger] accounts@[j]).address != *who,
        decreases accounts@.len() - i,
    {
        if accounts[i].address == *who {
            return Some(i);
        }
        i = i + 1;
    }
    None
}

/// Reads the balance of `who`.
pub fn read_balance(accounts: &Vec<StakeAccount>, who: &Address) -> (amount: i128)
    requires
        unique_addresses(accounts@),
    ensures
        amount == balance_of(accounts@, *who),
{
    match find_account(accounts, who) {
        Some(i) => {
            proof {
                lemma_account_index(accounts@, i as int);
            }
            accounts[i].amount
        },
        None => 0,
    }
}

/// Sets the balance of `who`, opening an account if it has none.
pub fn write_balance(accounts: &mut Vec<StakeAccount>, who: &Address, amount: i128)
    requires
        unique_addresses(old(accounts)@),
    ensures
        final(accounts)@ == with_balance(old(accounts)@, *who, amount),
{
    match find_account(accounts, who) {
        Some(i) => {
            proof {
                lemma_account_index(accounts@, i as int);
            }
            accounts[i] = StakeAccount { address: *who, amount };
        },
        None => {
            accounts.push(StakeAccount { address: *who, amount });
        },
    }
}

/// The sum of the first accounts never exceeds the sum of all, where no
/// amount is negative.
pub proof fn lemma_sum_prefix(accounts: Seq<StakeAccount>, n: int)
    requires
        amounts_non_negative(accounts),
        0 <= n <= accounts.len(),
    ensures
        0 <= sum_amounts(accounts.take(n)) <= sum_amounts(accounts),
    decreases accounts.len(),
{
    if n == accounts.len() {
        assert(accounts.take(n) =~= accounts);
        lemma_sum_non_negative(accounts);
    } else {
        assert(accounts.drop_last().take(n) =~= accounts.take(n));
        lemma_sum_prefix(accounts.drop_last(), n);
    }
}

/// Whether no address has two accounts and no account is negative.
pub fn ledger_in_order(accounts: &Vec<StakeAccount>) -> (r: bool)
    ensures
        r == (unique_addresses(accounts@) && amounts_non_negative(accounts@)),
{
    let n = accounts.len();
    let mut i: usize = 0;
    while i < n
        invariant
            n == accounts@.len(),
            i <= n,
            forall|a: int| 0 <= a < i ==> (#[trigger] accounts@[a]).amount >= 0,
            forall|a: int, b: int|
                0 <= a < i && 0 <= b < a ==> (#[trigger] accounts@[a]).address != (
                #[trigger] accounts@[b]).address,
        decreases n - i,
    {
        if accounts[i].amount < 0 {
            return false;
        }
        let mut j: usize = 0;
        while j < i
            invariant
                n == accounts@.len(),
                i < n,
                j <= i,
                forall|b: int|
                    0 <= b < j ==> accounts@[i as int].address != (
                    #[trigger] accounts@[b]).address,
            decreases i - j,
        {
            if accounts[j].address == accounts[i].address {
                return false;
            }
            j = j + 1;
        }
        i = i + 1;
    }
    assert forall|a: int, b: int|
        0 <= a < accounts@.len() && 0 <= b < accounts@.len() && a != b implies (
    #[trigger] accounts@[a]).address != (#[trigger] accounts@[b]).address by {
        if b < a {
        } else {
            assert(accounts@[b].address != accounts@[a].address);
        }
    }
    true
}

/// The sum of all amounts, or `None` where it cannot be represented.
pub fn checked_sum(accounts: &Vec<StakeAccount>) -> (r: Option<i128>)
    requires
        amounts_non_negative(accounts@),
    ensures
        r matches Some(sum) ==> sum == sum_amounts(accounts@),
        r is None ==> sum_amounts(accounts@) > i128::MAX,
{
    let n = accounts.len();
    let mut sum: i128 = 0;
    let mut i: usize = 0;
    while i < n
        invariant
            n == accounts@.len(),
            i <= n,
            amounts_non_negative(accounts@),
            sum == sum_amounts(accounts@.take(i as int)),
            sum >= 0,
        decreases n - i,
    {
        proof {
            assert(accounts@.take(i + 1).drop_last() =~= accounts@.take(i as int));
            lemma_sum_prefix(accounts@, i + 1);
        }
        if accounts[i].amount > i128::MAX - sum {
            return None;
        }
        sum = sum + accounts[i].amount;
        i = i + 1;
    }
    assert(accounts@.take(n as int) =~= accounts@);
    Some(sum)
}

} // verus!
