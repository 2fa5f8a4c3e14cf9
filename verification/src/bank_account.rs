use vstd::prelude::*;

verus! {

/// The balance after a deposit of `amount`: only positive amounts count.
pub open spec fn balance_after_deposit(balance: int, amount: int) -> int {
    if amount > 0 {
        balance + amount
    } else {
        balance
    }
}

/// Whether a withdrawal of `amount` is allowed from `balance`.
pub open spec fn withdrawal_allowed(balance: int, amount: int) -> bool {
    amount > 0 && balance >= amount
}

/// The balance after a withdrawal attempt of `amount`.
pub open spec fn balance_after_withdrawal(balance: int, amount: int) -> int {
    if withdrawal_allowed(balance, amount) {
        balance - amount
    } else {
        balance
    }
}

/// A bank account whose balance can only change through its methods and
/// never becomes negative.
pub struct Account {
    owner: String,
    balance: i32,
}

impl Account {
    #[verifier::type_invariant]
    spec fn balance_is_nonnegative(self) -> bool {
        self.balance >= 0
    }

    /// The name of the account's owner.
    pub closed spec fn owner_name(self) -> Seq<char> {
        self.owner@
    }

    /// The current balance.
    pub closed spec fn funds(self) -> int {
        self.balance as int
    }

    /// Opens an account for `owner` with a zero balance.
    pub fn new(owner: String) -> (acc: Self)
        ensures
            acc.owner_name() == owner@,
            acc.funds() == 0,
    {
        Self { owner, balance: 0 }
    }

    /// Adds `amount` to the balance when it is positive; any other amount is
    /// ignored.
    pub fn deposit(&mut self, amount: i32)
        requires
            amount > 0 ==> old(self).funds() + amount <= i32::MAX,
        ensures
            final(self).funds() == balance_after_deposit(old(self).funds(), amount as int),
            final(self).owner_name() == old(self).owner_name(),
            final(self).funds() >= 0,
    {
        proof {
            use_type_invariant(&*self);
        }
        if amount > 0 {
            self.balance = self.balance + amount;
        }
        proof {
            use_type_invariant(&*self);
        }
    }

    /// The current balance, which is never negative.
    pub fn balance(&self) -> (b: i32)
        ensures
            b == self.funds(),
            b >= 0,
    {
        proof {
            use_type_invariant(self);
        }
        self.balance
    }

    /// The name of the account's owner.
    pub fn owner(&self) -> (name: &str)
        ensures
            name@ == self.owner_name(),
    {
        self.owner.as_str()
    }

    fn can_withdraw(&self, amount: i32) -> (ok: bool)
        ensures
            ok == withdrawal_allowed(self.funds(), amount as int),
    {
        amount > 0 && self.balance >= amount
    }

    /// Takes `amount` from the balance when it is positive and covered by
    /// the balance, and reports whether it did; otherwise nothing changes.
    pub fn withdraw(&mut self, amount: i32) -> (ok: bool)
        ensures
            ok == withdrawal_allowed(old(self).funds(), amount as int),
            final(self).funds() == balance_after_withdrawal(old(self).funds(), amount as int),
            final(self).owner_name() == old(self).owner_name(),
            final(self).funds() >= 0,
    {
        proof {
            use_type_invariant(&*self);
        }
        if self.can_withdraw(amount) {
            self.balance = self.balance - amount;
            proof {
                use_type_invariant(&*self);
            }
            true
        } else {
            false
        }
    }
}

/// A deposit of a positive amount adds exactly that amount; any other
/// deposit leaves the balance as it was. A withdrawal is allowed exactly when
/// the amount is positive and covered, and then takes exactly that amount.
pub proof fn law_deposit_and_withdrawal_amounts(balance: int, amount: int)
    ensures
        amount > 0 ==> balance_after_deposit(balance, amount) == balance + amount,
        amount <= 0 ==> balance_after_deposit(balance, amount) == balance,
        withdrawal_allowed(balance, amount) <==> 0 < amount <= balance,
        0 < amount <= balance ==> balance_after_withdrawal(balance, amount) == balance - amount,
        !(0 < amount <= balance) ==> balance_after_withdrawal(balance, amount) == balance,
{
}

/// No sequence of deposits and withdrawal attempts makes a non-negative
/// balance negative.
pub proof fn law_balance_stays_nonnegative(balance: int, amount: int)
    requires
        balance >= 0,
    ensures
        balance_after_deposit(balance, amount) >= 0,
        balance_after_withdrawal(balance, amount) >= 0,
{
}

/// Withdrawing what was just deposited succeeds and restores the balance.
pub proof fn law_deposit_then_withdraw_restores(balance: int, amount: int)
    requires
        balance >= 0,
        amount > 0,
    ensures
        withdrawal_allowed(balance_after_deposit(balance, amount), amount),
        balance_after_withdrawal(balance_after_deposit(balance, amount), amount) == balance,
{
}

/// A refused withdrawal leaves the balance as it was, and a withdrawal is
/// refused exactly when the amount is not positive or exceeds the balance.
pub proof fn law_refused_withdrawal_changes_nothing(balance: int, amount: int)
    ensures
        !withdrawal_allowed(balance, amount) <==> (amount <= 0 || amount > balance),
        !withdrawal_allowed(balance, amount) ==> balance_after_withdrawal(balance, amount)
            == balance,
{
}

/// One call made on an account.
pub enum AccountOp {
    /// A deposit of the amount.
    Deposit(i32),
    /// A withdrawal attempt of the amount.
    Withdraw(i32),
}

/// The owner, the balance, the sum of the accepted deposits and the sum of
/// the accepted withdrawals after the calls `ops` made in order on an
/// account of `owner` holding `balance`.
pub open spec fn run_account_ops(owner: Seq<char>, balance: int, ops: Seq<AccountOp>) -> (
    Seq<char>,
    int,
    int,
    int,
)
    decreases ops.len(),
{
    if ops.len() == 0 {
        (owner, balance, 0, 0)
    } else {
        let (o, b, deposited, withdrawn) = run_account_ops(owner, balance, ops.drop_last());
        match ops.last() {
            AccountOp::Deposit(a) => (
                o,
                balance_after_deposit(b, a as int),
                deposited + if a > 0 {
                    a as int
                } else {
                    0
                },
                withdrawn,
            ),
            AccountOp::Withdraw(a) => (
                o,
                balance_after_withdrawal(b, a as int),
                deposited,
                withdrawn + if withdrawal_allowed(b, a as int) {
                    a as int
                } else {
                    0
                },
            ),
        }
    }
}

/// Over any sequence of deposits and withdrawal attempts on a new account,
/// the owner stays the one it was opened for, and the balance is the sum of
/// the accepted deposits minus the sum of the accepted withdrawals, never
/// negative.
pub proof fn law_balance_is_accepted_deposits_minus_withdrawals(
    owner: Seq<char>,
    ops: Seq<AccountOp>,
)
    ensures
        run_account_ops(owner, 0, ops).0 == owner,
        run_account_ops(owner, 0, ops).1 == run_account_ops(owner, 0, ops).2 - run_account_ops(
            owner,
            0,
            ops,
        ).3,
        run_account_ops(owner, 0, ops).1 >= 0,
    decreases ops.len(),
{
    if ops.len() > 0 {
        law_balance_is_accepted_deposits_minus_withdrawals(owner, ops.drop_last());
    }
}

} // verus!
