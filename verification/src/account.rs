//! Accounts: balances, locked balances, job lists and reputation.

use vstd::prelude::*;
use crate::state::{Dwork, DworkView, carried_out};
use crate::table::{KeySet, Record, Table, pairs_at, views, with_member, without};
use crate::types::{AccountId, Balance, CallContext, CallContextView, Error, TaskId, Timestamp};

verus! {

/// Money that is set aside for a worker until `release_at` has passed.
#[derive(Clone, Copy, Debug, PartialEq, Eq, Structural)]
pub struct LockedBalance {
    pub amount: Balance,
    pub release_at: Timestamp,
}

impl View for LockedBalance {
    type V = LockedBalance;

    open spec fn view(&self) -> LockedBalance {
        *self
    }
}

impl Record for LockedBalance {
    fn duplicate(&self) -> (c: Self) {
        *self
    }
}

/// One party of the marketplace.
#[derive(Clone, Debug, PartialEq, Eq)]
pub struct Account {
    pub account_id: AccountId,
    pub bio: String,
    /// Money that the party may withdraw.
    pub balance: Balance,
    pub total_spent: Balance,
    pub total_earn: Balance,
    /// The locked balance for each task on which the party was approved.
    pub locked_balance: Table<TaskId, LockedBalance>,
    pub current_jobs: KeySet<TaskId>,
    pub completed_jobs: KeySet<TaskId>,
    pub pos_point: u32,
    pub neg_point: u32,
}

/// The mathematical content of an `Account`.
pub ghost struct AccountView {
    pub account_id: Seq<char>,
    pub bio: Seq<char>,
    pub balance: Balance,
    pub total_spent: Balance,
    pub total_earn: Balance,
    pub locked_balance: Map<Seq<char>, LockedBalance>,
    /// The order in which the locked balances are listed.
    pub locked_order: Seq<Seq<char>>,
    pub current_jobs: Seq<Seq<char>>,
    pub completed_jobs: Seq<Seq<char>>,
    pub pos_point: u32,
    pub neg_point: u32,
}

impl View for Account {
    type V = AccountView;

    open spec fn view(&self) -> AccountView {
        AccountView {
            account_id: self.account_id@,
            bio: self.bio@,
            balance: self.balance,
            total_spent: self.total_spent,
            total_earn: self.total_earn,
            locked_balance: self.locked_balance@,
            locked_order: self.locked_balance.keys(),
            current_jobs: self.current_jobs@,
            completed_jobs: self.completed_jobs@,
            pos_point: self.pos_point,
            neg_point: self.neg_point,
        }
    }
}

/// An account as it is shown to clients.
#[derive(Clone, Debug, PartialEq, Eq)]
pub struct WrappedAccount {
    pub account_id: String,
    pub bio: String,
    pub locked_balance: Vec<(TaskId, LockedBalance)>,
    pub balance: Balance,
    pub total_spent: Balance,
    pub total_earn: Balance,
    pub current_jobs: Vec<TaskId>,
    pub completed_jobs: Vec<TaskId>,
    pub pos_point: u32,
    pub neg_point: u32,
}

/// The mathematical content of a `WrappedAccount`.
pub ghost struct WrappedAccountView {
    pub account_id: Seq<char>,
    pub bio: Seq<char>,
    pub locked_balance: Seq<(Seq<char>, LockedBalance)>,
    pub balance: Balance,
    pub total_spent: Balance,
    pub total_earn: Balance,
    pub current_jobs: Seq<Seq<char>>,
    pub completed_jobs: Seq<Seq<char>>,
    pub pos_point: u32,
    pub neg_point: u32,
}

impl View for WrappedAccount {
    type V = WrappedAccountView;

    open spec fn view(&self) -> WrappedAccountView {
        WrappedAccountView {
            account_id: self.account_id@,
            bio: self.bio@,
            locked_balance: views(self.locked_balance@),
            balance: self.balance,
            total_spent: self.total_spent,
            total_earn: self.total_earn,
            current_jobs: views(self.current_jobs@),
            completed_jobs: views(self.completed_jobs@),
            pos_point: self.pos_point,
            neg_point: self.neg_point,
        }
    }
}

impl AccountView {
    /// The account as it is shown to clients.
    pub open spec fn wrapped(self) -> WrappedAccountView {
        WrappedAccountView {
            account_id: self.account_id,
            bio: self.bio,
            locked_balance: pairs_at(self.locked_order, self.locked_balance),
            balance: self.balance,
            total_spent: self.total_spent,
            total_earn: self.total_earn,
            current_jobs: self.current_jobs,
            completed_jobs: self.completed_jobs,
            pos_point: self.pos_point,
            neg_point: self.neg_point,
        }
    }

    /// The account of a party that has just arrived.
    pub open spec fn fresh(account_id: Seq<char>) -> AccountView {
        AccountView {
            account_id,
            bio: "A member of dWork"@,
            balance: 0,
            total_spent: 0,
            total_earn: 0,
            locked_balance: Map::empty(),
            locked_order: Seq::empty(),
            current_jobs: Seq::empty(),
            completed_jobs: Seq::empty(),
            pos_point: 0,
            neg_point: 0,
        }
    }

    /// The positive points can grow by `point`.
    pub open spec fn pos_fits(self, point: u32) -> bool {
        self.pos_point + point <= u32::MAX
    }

    /// The negative points can grow by `point`.
    pub open spec fn neg_fits(self, point: u32) -> bool {
        self.neg_point + point <= u32::MAX
    }

    /// `point` is added to the positive points.
    pub open spec fn add_pos_point(self, point: u32) -> AccountView {
        AccountView { pos_point: (self.pos_point + point) as u32, ..self }
    }

    /// `point` is added to the negative points.
    pub open spec fn add_neg_point(self, point: u32) -> AccountView {
        AccountView { neg_point: (self.neg_point + point) as u32, ..self }
    }

    /// `amount` is set aside for `task_id` until `release_at`.
    pub open spec fn lock(self, task_id: Seq<char>, amount: Balance, release_at: Timestamp) -> AccountView {
        AccountView {
            locked_balance: self.locked_balance.insert(task_id, LockedBalance { amount, release_at }),
            locked_order: with_member(self.locked_order, task_id),
            ..self
        }
    }

    /// The locked balance for `task_id` is dropped.
    pub open spec fn unlock(self, task_id: Seq<char>) -> AccountView {
        AccountView {
            locked_balance: self.locked_balance.remove(task_id),
            locked_order: without(self.locked_order, task_id),
            ..self
        }
    }

    /// The free balance can grow by `amount`.
    pub open spec fn credit_fits(self, amount: Balance) -> bool {
        self.balance + amount <= u128::MAX
    }

    /// `amount` is added to the free balance.
    pub open spec fn credit(self, amount: Balance) -> AccountView {
        AccountView { balance: (self.balance + amount) as Balance, ..self }
    }

    /// `amount` is taken from the free balance.
    pub open spec fn debit(self, amount: Balance) -> AccountView {
        AccountView { balance: (self.balance - amount) as Balance, ..self }
    }

    /// `amount` is added to what the party has earned.
    pub open spec fn earn(self, amount: Balance) -> AccountView {
        AccountView { total_earn: (self.total_earn + amount) as Balance, ..self }
    }

    /// `amount` is added to what the party has spent.
    pub open spec fn spend(self, amount: Balance) -> AccountView {
        AccountView { total_spent: (self.total_spent + amount) as Balance, ..self }
    }

    /// `task_id` is among the current jobs.
    pub open spec fn join(self, task_id: Seq<char>) -> AccountView {
        AccountView { current_jobs: with_member(self.current_jobs, task_id), ..self }
    }

    /// `task_id` moves from the current jobs to the completed ones.
    pub open spec fn finish(self, task_id: Seq<char>) -> AccountView {
        AccountView {
            current_jobs: without(self.current_jobs, task_id),
            completed_jobs: with_member(self.completed_jobs, task_id),
            ..self
        }
    }
}

impl Account {
    /// The account of a party that has just arrived.
    pub fn new(account_id: AccountId) -> (a: Account)
        ensures
            a@ == AccountView::fresh(account_id@),
    {
        Account {
            account_id,
            bio: String::from_str("A member of dWork"),
            balance: 0,
            total_spent: 0,
            total_earn: 0,
            locked_balance: Table::new(),
            current_jobs: KeySet::new(),
            completed_jobs: KeySet::new(),
            pos_point: 0,
            neg_point: 0,
        }
    }

    /// Adds `point` to the positive points.
    pub fn add_pos_point(&mut self, point: u32)
        requires
            old(self)@.pos_fits(point),
        ensures
            final(self)@ == old(self)@.add_pos_point(point),
    {
        self.pos_point += point
    }

    /// Adds `point` to the negative points.
    pub fn add_neg_point(&mut self, point: u32)
        requires
            old(self)@.neg_fits(point),
        ensures
            final(self)@ == old(self)@.add_neg_point(point),
    {
        self.neg_point += point
    }

    /// Sets `amount` aside for `task_id` until `release_at`.
    pub fn lock(&mut self, task_id: TaskId, amount: Balance, release_at: Timestamp)
        ensures
            final(self)@ == old(self)@.lock(task_id@, amount, release_at),
    {
        self.locked_balance.insert(task_id, LockedBalance { amount, release_at });
    }

    /// Drops the locked balance for `task_id`.
    pub fn unlock(&mut self, task_id: &TaskId)
        ensures
            final(self)@ == old(self)@.unlock(task_id@),
    {
        self.locked_balance.remove(task_id);
    }

    /// Adds `amount` to the free balance.
    pub fn credit(&mut self, amount: Balance)
        requires
            old(self)@.credit_fits(amount),
        ensures
            final(self)@ == old(self)@.credit(amount),
    {
        self.balance += amount;
    }

    /// Takes `amount` from the free balance.
    pub fn debit(&mut self, amount: Balance)
        requires
            amount <= old(self).balance,
        ensures
            final(self)@ == old(self)@.debit(amount),
    {
        self.balance -= amount;
    }

    /// Adds `amount` to what the party has earned.
    pub fn earn(&mut self, amount: Balance)
        requires
            old(self).total_earn + amount <= u128::MAX,
        ensures
            final(self)@ == old(self)@.earn(amount),
    {
        self.total_earn += amount;
    }

    /// Adds `amount` to what the party has spent.
    pub fn spend(&mut self, amount: Balance)
        requires
            old(self).total_spent + amount <= u128::MAX,
        ensures
            final(self)@ == old(self)@.spend(amount),
    {
        self.total_spent += amount;
    }

    /// Records `task_id` among the current jobs.
    pub fn join(&mut self, task_id: TaskId)
        ensures
            final(self)@ == old(self)@.join(task_id@),
    {
        self.current_jobs.insert(task_id);
    }

    /// Moves `task_id` from the current jobs to the completed ones.
    pub fn finish(&mut self, task_id: &TaskId)
        ensures
            final(self)@ == old(self)@.finish(task_id@),
    {
        self.current_jobs.remove(task_id);
        self.completed_jobs.insert(task_id.duplicate());
    }
}

impl WrappedAccount {
    /// The account as it is shown to clients.
    pub fn from_account(account: &Account) -> (w: WrappedAccount)
        ensures
            w@ == account@.wrapped(),
    {
        WrappedAccount {
            account_id: account.account_id.clone(),
            bio: account.bio.clone(),
            locked_balance: account.locked_balance.to_vec(),
            balance: account.balance,
            total_spent: account.total_spent,
            total_earn: account.total_earn,
            current_jobs: account.current_jobs.to_vec(),
            completed_jobs: account.completed_jobs.to_vec(),
            pos_point: account.pos_point,
            neg_point: account.neg_point,
        }
    }
}

impl DworkView {
    /// The rule of `register`. The caller attaches the registration bond and
    /// has no account yet. A fresh account is then recorded for the caller.
    pub open spec fn register(self, ctx: CallContextView) -> Result<DworkView, Error> {
        let id = ctx.predecessor_account_id;
        if ctx.attached_deposit != self.app_config.register_bond {
            Err(Error::Validation)
        } else if self.accounts.contains_key(id) {
            Err(Error::StateConflict)
        } else {
            Ok(DworkView { accounts: self.accounts.insert(id, AccountView::fresh(id)), ..self })
        }
    }

    /// The rule of `update_bio`: the caller has an account, whose description
    /// becomes `bio`.
    pub open spec fn update_bio(self, ctx: CallContextView, bio: Seq<char>) -> Result<DworkView, Error> {
        let id = ctx.predecessor_account_id;
        if !self.accounts.contains_key(id) {
            Err(Error::NotFound)
        } else {
            Ok(
                DworkView {
                    accounts: self.accounts.insert(id, AccountView { bio, ..self.accounts[id] }),
                    ..self
                },
            )
        }
    }

    /// The rule of `add_pos_point`: the account exists and its positive points
    /// can grow by `point`.
    pub open spec fn add_pos_point(self, account_id: Seq<char>, point: u32) -> Result<DworkView, Error> {
        if !self.accounts.contains_key(account_id) {
            Err(Error::NotFound)
        } else if !self.accounts[account_id].pos_fits(point) {
            Err(Error::Validation)
        } else {
            Ok(
                DworkView {
                    accounts: self.accounts.insert(
                        account_id,
                        self.accounts[account_id].add_pos_point(point),
                    ),
                    ..self
                },
            )
        }
    }

    /// The rule of `add_neg_point`: the account exists and its negative points
    /// can grow by `point`.
    pub open spec fn add_neg_point(self, account_id: Seq<char>, point: u32) -> Result<DworkView, Error> {
        if !self.accounts.contains_key(account_id) {
            Err(Error::NotFound)
        } else if !self.accounts[account_id].neg_fits(point) {
            Err(Error::Validation)
        } else {
            Ok(
                DworkView {
                    accounts: self.accounts.insert(
                        account_id,
                        self.accounts[account_id].add_neg_point(point),
                    ),
                    ..self
                },
            )
        }
    }
}

impl Dwork {
    /// The account `account_id` as it is shown to clients.
    pub fn user_info(&self, account_id: AccountId) -> (r: Result<WrappedAccount, Error>)
        ensures
            match r {
                Ok(w) => self@.accounts.contains_key(account_id@) && w@
                    == self@.accounts[account_id@].wrapped(),
                Err(e) => e == Error::NotFound && !self@.accounts.contains_key(account_id@),
            },
    {
        match self.accounts.get(&account_id) {
            Some(account) => Ok(WrappedAccount::from_account(account)),
            None => Err(Error::NotFound),
        }
    }

    /// Opens an account for the caller.
    pub fn register(&mut self, ctx: &CallContext) -> (r: Result<(), Error>)
        ensures
            carried_out(old(self)@.register(ctx@), old(self)@, final(self)@, r),
    {
        if ctx.attached_deposit != self.app_config.register_bond {
            return Err(Error::Validation);
        }
        if self.accounts.contains_key(&ctx.predecessor_account_id) {
            return Err(Error::StateConflict);
        }
        self.accounts.insert(
            ctx.predecessor_account_id.clone(),
            Account::new(ctx.predecessor_account_id.clone()),
        );
        Ok(())
    }

    /// Sets the description that the caller gives of themselves.
    pub fn update_bio(&mut self, ctx: &CallContext, bio: String) -> (r: Result<(), Error>)
        ensures
            carried_out(old(self)@.update_bio(ctx@, bio@), old(self)@, final(self)@, r),
    {
        let i = match self.accounts.index_of(&ctx.predecessor_account_id) {
            Some(i) => i,
            None => return Err(Error::NotFound),
        };
        let ghost before = self.accounts;
        self.accounts.entries[i].value.bio = bio;
        proof {
            Table::lemma_changed_at(before, self.accounts, i as int);
        }
        Ok(())
    }

    /// Adds `point` to the positive points of `account_id`.
    pub fn add_pos_point(&mut self, account_id: AccountId, point: u32) -> (r: Result<(), Error>)
        ensures
            carried_out(old(self)@.add_pos_point(account_id@, point), old(self)@, final(self)@, r),
    {
        let i = match self.accounts.index_of(&account_id) {
            Some(i) => i,
            None => return Err(Error::NotFound),
        };
        if self.accounts.entries[i].value.pos_point > u32::MAX - point {
            return Err(Error::Validation);
        }
        let ghost before = self.accounts;
        self.accounts.entries[i].value.add_pos_point(point);
        proof {
            Table::lemma_changed_at(before, self.accounts, i as int);
        }
        Ok(())
    }

    /// Adds `point` to the negative points of `account_id`.
    pub fn add_neg_point(&mut self, account_id: AccountId, point: u32) -> (r: Result<(), Error>)
        ensures
            carried_out(old(self)@.add_neg_point(account_id@, point), old(self)@, final(self)@, r),
    {
        let i = match self.accounts.index_of(&account_id) {
            Some(i) => i,
            None => return Err(Error::NotFound),
        };
        if self.accounts.entries[i].value.neg_point > u32::MAX - point {
            return Err(Error::Validation);
        }
        let ghost before = self.accounts;
        self.accounts.entries[i].value.add_neg_point(point);
        proof {
            Table::lemma_changed_at(before, self.accounts, i as int);
        }
        Ok(())
    }
}

} // verus!
