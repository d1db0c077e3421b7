//! The three persistent entities and their insert payloads.

use vstd::prelude::*;
use crate::amount::Amount;
use crate::inputting_status::{Direction, InputtingStatus};

verus! {

/// A registered user: a surrogate id, the unique external account reference,
/// the last-seen display handle, and the dialog state (pending inputting
/// status plus the transient selections it reads).
pub struct User {
    pub id: i32,
    pub telegram_id: i64,
    pub telegram_username: String,
    pub status: InputtingStatus,
    /// The user id of the counterparty picked in the current dialog, if any.
    pub selected_contact_id: Option<i32>,
    /// The transfer direction picked in the current dialog, if any.
    pub selected_transaction_duration: Option<Direction>,
}

impl User {
    pub fn clone_user(&self) -> (r: User)
        ensures
            r == *self,
    {
        User {
            id: self.id,
            telegram_id: self.telegram_id,
            telegram_username: self.telegram_username.clone(),
            status: self.status,
            selected_contact_id: self.selected_contact_id,
            selected_transaction_duration: self.selected_transaction_duration,
        }
    }
}

/// Insert payload for a new user row.
pub struct NewUser {
    pub telegram_id: i64,
    pub telegram_username: String,
}

/// A directed, owner-scoped link to another user, with an optional
/// owner-chosen display name. Unique per `(user_id, contact_id)` pair.
/// Contacts are never deleted: a removal feature would mark rows inactive
/// rather than drop them, so ledger entries always keep valid references.
pub struct Contact {
    pub id: i32,
    pub user_id: i32,
    pub contact_id: i32,
    pub name: Option<String>,
}

impl Contact {
    pub fn clone_contact(&self) -> (r: Contact)
        ensures
            r == *self,
    {
        Contact {
            id: self.id,
            user_id: self.user_id,
            contact_id: self.contact_id,
            name: match &self.name {
                Some(n) => Some(n.clone()),
                None => None,
            },
        }
    }
}

/// Insert payload for a new contact row; the name starts unset.
pub struct NewContact {
    pub user_id: i32,
    pub contact_id: i32,
}

/// One immutable ledger entry: the sender gave the receiver `amount`.
pub struct Transaction {
    pub id: i32,
    pub from_user_id: i32,
    pub to_user_id: i32,
    pub amount: Amount,
}

impl Transaction {
    /// Equal content: the amount is compared by value.
    pub open spec fn eqv(self, other: Transaction) -> bool {
        &&& self.id == other.id
        &&& self.from_user_id == other.from_user_id
        &&& self.to_user_id == other.to_user_id
        &&& self.amount@ == other.amount@
    }

    pub fn clone_transaction(&self) -> (r: Transaction)
        ensures
            r.eqv(*self),
            r.amount.wf() <==> self.amount.wf(),
    {
        Transaction {
            id: self.id,
            from_user_id: self.from_user_id,
            to_user_id: self.to_user_id,
            amount: self.amount.clone_amount(),
        }
    }
}

/// Insert payload for a new ledger entry.
pub struct NewTransaction {
    pub from_user_id: i32,
    pub to_user_id: i32,
    pub amount: Amount,
}

} // verus!
