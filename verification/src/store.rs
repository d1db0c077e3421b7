//! The in-memory store: identity registry, contact directory and ledger,
//! with the uniqueness and referential-integrity invariants the dialog
//! machine depends on.

use vstd::prelude::*;
use crate::amount::{
    add_val, amount_of_text, lt_val, sub_val, valid_amount_text, Amount, AmountV,
};
use crate::inputting_status::{Direction, InputtingStatus};
use crate::models::{Contact, NewContact, NewTransaction, NewUser, Transaction, User};

verus! {

/// The recoverable failures of the store and dialog operations.
#[derive(Clone, Copy, Debug, PartialEq, Eq, Structural)]
pub enum StoreError {
    /// A lookup found no matching row.
    NotFound,
    /// An amount text is not a well-formed positive decimal.
    ParseError,
    /// A dialog step expected a prior selection that is absent.
    InconsistentSelection,
}

/// Index of the first element satisfying `p`, if any.
pub open spec fn find_first<A>(s: Seq<A>, p: spec_fn(A) -> bool) -> Option<int>
    decreases s.len(),
{
    if s.len() == 0 {
        None
    } else if p(s[0]) {
        Some(0)
    } else {
        match find_first(s.skip(1), p) {
            Some(i) => Some(i + 1),
            None => None,
        }
    }
}

pub proof fn lemma_find_first<A>(s: Seq<A>, p: spec_fn(A) -> bool)
    ensures
        match find_first(s, p) {
            Some(i) => 0 <= i < s.len() && p(s[i]) && (forall|j: int| 0 <= j < i ==> !p(s[j])),
            None => forall|j: int| 0 <= j < s.len() ==> !p(s[j]),
        },
    decreases s.len(),
{
    if s.len() > 0 && !p(s[0]) {
        lemma_find_first(s.skip(1), p);
        assert(forall|j: int| 1 <= j < s.len() ==> s[j] == s.skip(1)[j - 1]);
    }
}

/// If the first match is at `i`, `find_first` says so.
pub proof fn lemma_find_first_at<A>(s: Seq<A>, p: spec_fn(A) -> bool, i: int)
    requires
        0 <= i < s.len(),
        p(s[i]),
        forall|j: int| 0 <= j < i ==> !p(s[j]),
    ensures
        find_first(s, p) == Some(i),
{
    lemma_find_first(s, p);
    match find_first(s, p) {
        Some(k) => {
            if k < i {
                assert(!p(s[k]));
            }
            if i < k {
                assert(!p(s[i]));
            }
        },
        None => {
            assert(!p(s[i]));
        },
    }
}

/// If nothing matches, `find_first` says so.
pub proof fn lemma_find_first_none<A>(s: Seq<A>, p: spec_fn(A) -> bool)
    requires
        forall|j: int| 0 <= j < s.len() ==> !p(s[j]),
    ensures
        find_first(s, p) == None::<int>,
{
    lemma_find_first(s, p);
    match find_first(s, p) {
        Some(k) => {
            assert(!p(s[k]));
        },
        None => {},
    }
}

/// The predicate "this user row holds external reference `tid`".
pub open spec fn tid_pred(tid: i64) -> spec_fn(User) -> bool {
    |u: User| u.telegram_id == tid
}

/// The predicate "this user row's display handle reads `handle`".
pub open spec fn handle_pred(handle: Seq<char>) -> spec_fn(User) -> bool {
    |u: User| u.telegram_username@ == handle
}

/// The predicate "this contact row links `owner` to `target`".
pub open spec fn pair_pred(owner: i32, target: i32) -> spec_fn(Contact) -> bool {
    |c: Contact| c.user_id == owner && c.contact_id == target
}

/// The predicate "this contact row of `owner` has its name set to `name`".
pub open spec fn cname_pred(owner: i32, name: Seq<char>) -> spec_fn(Contact) -> bool {
    |c: Contact|
        c.user_id == owner && (match c.name {
            Some(n) => n@ == name,
            None => false,
        })
}

/// Index of the user row holding an external account reference.
pub open spec fn user_by_tid(users: Seq<User>, tid: i64) -> Option<int> {
    find_first(users, tid_pred(tid))
}

/// Index of the first user row with a display handle.
pub open spec fn user_by_handle(users: Seq<User>, handle: Seq<char>) -> Option<int> {
    find_first(users, handle_pred(handle))
}

/// Index of the contact row of `owner` for `target`.
pub open spec fn contact_by_pair(contacts: Seq<Contact>, owner: i32, target: i32) -> Option<int> {
    find_first(contacts, pair_pred(owner, target))
}

/// Index of the first contact row of `owner` whose set name reads `name`.
pub open spec fn contact_by_name(contacts: Seq<Contact>, owner: i32, name: Seq<char>) -> Option<
    int,
> {
    find_first(contacts, cname_pred(owner, name))
}

/// The in-memory store behind the conversational ledger: user rows, contact
/// rows and the append-only ledger of transfers.
pub struct Store {
    pub users: Vec<User>,
    pub contacts: Vec<Contact>,
    pub transactions: Vec<Transaction>,
}

/// Registry + directory + ledger invariant: every row's surrogate id is its
/// index, external references are unique, contact pairs are unique, all
/// cross-references point at existing users, and every recorded amount is a
/// well-formed positive decimal.
pub open spec fn store_inv(s: &Store) -> bool {
    &&& s.users@.len() <= 0x7fff_ffff
    &&& s.contacts@.len() <= 0x7fff_ffff
    &&& s.transactions@.len() <= 0x7fff_ffff
    &&& (forall|i: int|
        0 <= i < s.users@.len() ==> (#[trigger] s.users@[i]).id == i)
    &&& (forall|i: int, j: int|
        0 <= i < j < s.users@.len() ==> (#[trigger] s.users@[i]).telegram_id != (
        #[trigger] s.users@[j]).telegram_id)
    &&& (forall|i: int|
        0 <= i < s.users@.len() ==> (match (#[trigger] s.users@[i]).selected_contact_id {
            Some(c) => 0 <= c < s.users@.len(),
            None => true,
        }))
    &&& (forall|i: int|
        0 <= i < s.contacts@.len() ==> (#[trigger] s.contacts@[i]).id == i)
    &&& (forall|i: int|
        0 <= i < s.contacts@.len() ==> 0 <= (#[trigger] s.contacts@[i]).user_id
            < s.users@.len() && 0 <= s.contacts@[i].contact_id < s.users@.len())
    &&& (forall|i: int, j: int|
        0 <= i < j < s.contacts@.len() ==> !((#[trigger] s.contacts@[i]).user_id == (
        #[trigger] s.contacts@[j]).user_id && s.contacts@[i].contact_id
            == s.contacts@[j].contact_id))
    &&& (forall|i: int|
        0 <= i < s.transactions@.len() ==> (#[trigger] s.transactions@[i]).id == i)
    &&& (forall|i: int|
        0 <= i < s.transactions@.len() ==> 0 <= (#[trigger] s.transactions@[i]).from_user_id
            < s.users@.len() && 0 <= s.transactions@[i].to_user_id < s.users@.len())
    &&& (forall|i: int|
        0 <= i < s.transactions@.len() ==> (#[trigger] s.transactions@[i]).amount.wf())
}

/// The registry state after an upsert keyed by `tid`: an existing row keeps
/// its identity and gets the new handle; otherwise a fresh resting row is
/// appended. Returns the new row sequence and the row's index.
pub open spec fn upsert_users(users: Seq<User>, tid: i64, handle: String) -> (Seq<User>, int) {
    match user_by_tid(users, tid) {
        Some(i) => (
            users.update(
                i,
                User {
                    id: users[i].id,
                    telegram_id: users[i].telegram_id,
                    telegram_username: handle,
                    status: users[i].status,
                    selected_contact_id: users[i].selected_contact_id,
                    selected_transaction_duration: users[i].selected_transaction_duration,
                },
            ),
            i,
        ),
        None => (
            users.push(
                User {
                    id: users.len() as i32,
                    telegram_id: tid,
                    telegram_username: handle,
                    status: InputtingStatus::Idle,
                    selected_contact_id: None,
                    selected_transaction_duration: None,
                },
            ),
            users.len() as int,
        ),
    }
}

impl Store {
    /// An empty store.
    pub fn new() -> (r: Store)
        ensures
            store_inv(&r),
            r.users@.len() == 0,
            r.contacts@.len() == 0,
            r.transactions@.len() == 0,
    {
        Store { users: Vec::new(), contacts: Vec::new(), transactions: Vec::new() }
    }

    fn find_user_index_by_tid(&self, tid: i64) -> (r: Option<usize>)
        ensures
            match r {
                Some(i) => user_by_tid(self.users@, tid) == Some(i as int) && i
                    < self.users@.len() && self.users@[i as int].telegram_id == tid,
                None => user_by_tid(self.users@, tid) == None::<int>,
            },
    {
        let n = self.users.len();
        let mut i: usize = 0;
        while i < n
            invariant
                i <= n,
                n == self.users@.len(),
                forall|j: int| 0 <= j < i ==> (#[trigger] self.users@[j]).telegram_id != tid,
            decreases n - i,
        {
            if self.users[i].telegram_id == tid {
                proof {
                    assert(tid_pred(tid)(self.users@[i as int]));
                    assert(forall|j: int|
                        0 <= j < i ==> !tid_pred(tid)(#[trigger] self.users@[j]));
                    lemma_find_first_at(self.users@, tid_pred(tid), i as int);
                }
                return Some(i);
            }
            i += 1;
        }
        proof {
            assert(forall|j: int|
                0 <= j < self.users@.len() ==> !tid_pred(tid)(#[trigger] self.users@[j]));
            lemma_find_first_none(self.users@, tid_pred(tid));
        }
        None
    }

    /// Inserts a user row for an unseen external reference; for a seen one,
    /// updates the handle to the supplied value. The identity never forks:
    /// the row keyed by `telegram_id` is unique before and after.
    pub fn find_or_create_user(&mut self, telegram_id: i64, telegram_username: &str) -> (r: User)
        requires
            store_inv(old(self)),
            old(self).users@.len() < 0x7fff_ffff,
        ensures
            store_inv(final(self)),
            final(self).contacts@ == old(self).contacts@,
            final(self).transactions@ == old(self).transactions@,
            old(self).transactions@.is_prefix_of(final(self).transactions@),
            final(self).users@ == upsert_users(
                old(self).users@,
                telegram_id,
                r.telegram_username,
            ).0,
            r == final(self).users@[upsert_users(
                old(self).users@,
                telegram_id,
                r.telegram_username,
            ).1],
            r.telegram_username@ == telegram_username@,
            r.telegram_id == telegram_id,
            user_by_tid(final(self).users@, telegram_id) == Some(
                upsert_users(old(self).users@, telegram_id, r.telegram_username).1,
            ),
    {
        let nu = NewUser {
            telegram_id,
            telegram_username: String::from_str(telegram_username),
        };
        match self.find_user_index_by_tid(telegram_id) {
            Some(i) => {
                let row = User {
                    id: self.users[i].id,
                    telegram_id: self.users[i].telegram_id,
                    telegram_username: nu.telegram_username,
                    status: self.users[i].status,
                    selected_contact_id: self.users[i].selected_contact_id,
                    selected_transaction_duration: self.users[i].selected_transaction_duration,
                };
                let r = row.clone_user();
                self.users.set(i, row);
                proof {
                    lemma_find_first(old(self).users@, tid_pred(telegram_id));
                    lemma_find_first_at(self.users@, tid_pred(telegram_id), i as int);
                }
                r
            },
            None => {
                proof {
                    lemma_find_first(old(self).users@, tid_pred(telegram_id));
                }
                let id = self.users.len() as i32;
                let row = User {
                    id,
                    telegram_id: nu.telegram_id,
                    telegram_username: nu.telegram_username,
                    status: InputtingStatus::Idle,
                    selected_contact_id: None,
                    selected_transaction_duration: None,
                };
                let r = row.clone_user();
                self.users.push(row);
                proof {
                    lemma_find_first_at(
                        self.users@,
                        tid_pred(telegram_id),
                        old(self).users@.len() as int,
                    );
                }
                r
            },
        }
    }

    /// Looks up a user row by its external account reference. `Ok` exactly
    /// when a row with that reference exists.
    pub fn get_user_by_telegram_id(&self, telegram_id: i64) -> (r: Result<User, StoreError>)
        requires
            store_inv(self),
        ensures
            match r {
                Ok(u) => user_by_tid(self.users@, telegram_id) == Some(u.id as int) && 0 <= u.id
                    < self.users@.len() && u == self.users@[u.id as int] && u.telegram_id
                    == telegram_id,
                Err(e) => e == StoreError::NotFound && user_by_tid(self.users@, telegram_id)
                    == None::<int>,
            },
    {
        proof {
            lemma_find_first(self.users@, tid_pred(telegram_id));
        }
        match self.find_user_index_by_tid(telegram_id) {
            Some(i) => Ok(self.users[i].clone_user()),
            None => Err(StoreError::NotFound),
        }
    }

    fn find_user_index_by_handle(&self, handle: &str) -> (r: Option<usize>)
        ensures
            match r {
                Some(i) => user_by_handle(self.users@, handle@) == Some(i as int) && i
                    < self.users@.len() && self.users@[i as int].telegram_username@ == handle@,
                None => user_by_handle(self.users@, handle@) == None::<int>,
            },
    {
        let n = self.users.len();
        let mut i: usize = 0;
        while i < n
            invariant
                i <= n,
                n == self.users@.len(),
                forall|j: int|
                    0 <= j < i ==> (#[trigger] self.users@[j]).telegram_username@ != handle@,
            decreases n - i,
        {
            if str_eq(self.users[i].telegram_username.as_str(), handle) {
                proof {
                    assert(handle_pred(handle@)(self.users@[i as int]));
                    assert(forall|j: int|
                        0 <= j < i ==> !handle_pred(handle@)(#[trigger] self.users@[j]));
                    lemma_find_first_at(self.users@, handle_pred(handle@), i as int);
                }
                return Some(i);
            }
            i += 1;
        }
        proof {
            assert(forall|j: int|
                0 <= j < self.users@.len() ==> !handle_pred(handle@)(#[trigger] self.users@[j]));
            lemma_find_first_none(self.users@, handle_pred(handle@));
        }
        None
    }

    /// Resolves a display handle to the first user row carrying it. `Ok`
    /// exactly when some row carries the handle.
    pub fn get_user_by_username(&self, tg_username: &str) -> (r: Result<User, StoreError>)
        requires
            store_inv(self),
        ensures
            match r {
                Ok(u) => user_by_handle(self.users@, tg_username@) == Some(u.id as int) && 0 <= u.id
                    < self.users@.len() && u == self.users@[u.id as int] && u.telegram_username@
                    == tg_username@,
                Err(e) => e == StoreError::NotFound && user_by_handle(self.users@, tg_username@)
                    == None::<int>,
            },
    {
        proof {
            lemma_find_first(self.users@, handle_pred(tg_username@));
        }
        match self.find_user_index_by_handle(tg_username) {
            Some(i) => Ok(self.users[i].clone_user()),
            None => Err(StoreError::NotFound),
        }
    }

    /// Replaces one user row, keeping every other row. The helper behind the
    /// per-user field updates.
    fn update_user_row(&mut self, idx: usize, row: User) -> (r: User)
        requires
            store_inv(old(self)),
            idx < old(self).users@.len(),
            row.id == old(self).users@[idx as int].id,
            row.telegram_id == old(self).users@[idx as int].telegram_id,
            match row.selected_contact_id {
                Some(c) => 0 <= c < old(self).users@.len(),
                None => true,
            },
        ensures
            store_inv(final(self)),
            final(self).contacts@ == old(self).contacts@,
            final(self).transactions@ == old(self).transactions@,
            old(self).transactions@.is_prefix_of(final(self).transactions@),
            final(self).users@ == old(self).users@.update(idx as int, row),
            r == row,
    {
        let r = row.clone_user();
        self.users.set(idx, row);
        r
    }

    /// Sets the pending inputting status of the user with id `user_id`.
    /// `Ok` exactly when the id names an existing row.
    pub fn set_user_status(&mut self, user_id: i32, new_status: InputtingStatus) -> (r: Result<
        User,
        StoreError,
    >)
        requires
            store_inv(old(self)),
        ensures
            store_inv(final(self)),
            final(self).contacts@ == old(self).contacts@,
            final(self).transactions@ == old(self).transactions@,
            old(self).transactions@.is_prefix_of(final(self).transactions@),
            match r {
                Ok(u) => 0 <= user_id < old(self).users@.len() && u == (User {
                    status: new_status,
                    ..old(self).users@[user_id as int]
                }) && final(self).users@ == old(self).users@.update(user_id as int, u),
                Err(e) => e == StoreError::NotFound && !(0 <= user_id
                    < old(self).users@.len()) && final(self).users@ == old(self).users@,
            },
    {
        if user_id < 0 || user_id as usize >= self.users.len() {
            return Err(StoreError::NotFound);
        }
        let idx = user_id as usize;
        let old_row = self.users[idx].clone_user();
        let row = User { status: new_status, ..old_row };
        Ok(self.update_user_row(idx, row))
    }

    /// Remembers which counterparty the user picked in the current dialog.
    /// `Ok` exactly when both ids name existing rows: a selection never
    /// points at an absent identity.
    pub fn set_selected_contact(&mut self, user_id: i32, contact_id: i32) -> (r: Result<
        User,
        StoreError,
    >)
        requires
            store_inv(old(self)),
        ensures
            store_inv(final(self)),
            final(self).contacts@ == old(self).contacts@,
            final(self).transactions@ == old(self).transactions@,
            old(self).transactions@.is_prefix_of(final(self).transactions@),
            match r {
                Ok(u) => 0 <= user_id < old(self).users@.len() && 0 <= contact_id < old(
                    self,
                ).users@.len() && u == (User {
                    selected_contact_id: Some(contact_id),
                    ..old(self).users@[user_id as int]
                }) && final(self).users@ == old(self).users@.update(user_id as int, u),
                Err(e) => e == StoreError::NotFound && !(0 <= user_id < old(self).users@.len() && 0
                    <= contact_id < old(self).users@.len()) && final(self).users@ == old(
                    self,
                ).users@,
            },
    {
        if user_id < 0 || user_id as usize >= self.users.len() || contact_id < 0
            || contact_id as usize >= self.users.len() {
            return Err(StoreError::NotFound);
        }
        let idx = user_id as usize;
        let old_row = self.users[idx].clone_user();
        let row = User { selected_contact_id: Some(contact_id), ..old_row };
        Ok(self.update_user_row(idx, row))
    }

    /// Remembers which transfer direction the user picked. `Ok` exactly when
    /// the id names an existing row.
    pub fn set_selected_transaction_duration(&mut self, user_id: i32, direction: Direction) -> (r:
        Result<User, StoreError>)
        requires
            store_inv(old(self)),
        ensures
            store_inv(final(self)),
            final(self).contacts@ == old(self).contacts@,
            final(self).transactions@ == old(self).transactions@,
            old(self).transactions@.is_prefix_of(final(self).transactions@),
            match r {
                Ok(u) => 0 <= user_id < old(self).users@.len() && u == (User {
                    selected_transaction_duration: Some(direction),
                    ..old(self).users@[user_id as int]
                }) && final(self).users@ == old(self).users@.update(user_id as int, u),
                Err(e) => e == StoreError::NotFound && !(0 <= user_id
                    < old(self).users@.len()) && final(self).users@ == old(self).users@,
            },
    {
        if user_id < 0 || user_id as usize >= self.users.len() {
            return Err(StoreError::NotFound);
        }
        let idx = user_id as usize;
        let old_row = self.users[idx].clone_user();
        let row = User { selected_transaction_duration: Some(direction), ..old_row };
        Ok(self.update_user_row(idx, row))
    }

    /// Forgets both transient selections once a transfer has consumed them,
    /// so a later, unrelated dialog cannot reuse them stale.
    pub fn clear_transaction_selection(&mut self, user_id: i32) -> (r: Result<User, StoreError>)
        requires
            store_inv(old(self)),
        ensures
            store_inv(final(self)),
            final(self).contacts@ == old(self).contacts@,
            final(self).transactions@ == old(self).transactions@,
            old(self).transactions@.is_prefix_of(final(self).transactions@),
            match r {
                Ok(u) => 0 <= user_id < old(self).users@.len() && u == (User {
                    selected_contact_id: None,
                    selected_transaction_duration: None,
                    ..old(self).users@[user_id as int]
                }) && final(self).users@ == old(self).users@.update(user_id as int, u),
                Err(e) => e == StoreError::NotFound && !(0 <= user_id
                    < old(self).users@.len()) && final(self).users@ == old(self).users@,
            },
    {
        if user_id < 0 || user_id as usize >= self.users.len() {
            return Err(StoreError::NotFound);
        }
        let idx = user_id as usize;
        let old_row = self.users[idx].clone_user();
        let row = User {
            selected_contact_id: None,
            selected_transaction_duration: None,
            ..old_row
        };
        Ok(self.update_user_row(idx, row))
    }

    /// Reads the user row a selection points at. `Ok` exactly when the user
    /// exists and has a selection; under the invariant the selection always
    /// names an existing row.
    pub fn get_selected_contact(&self, user_id: i32) -> (r: Result<User, StoreError>)
        requires
            store_inv(self),
        ensures
            match r {
                Ok(u) => 0 <= user_id < self.users@.len() && self.users@[user_id as int].selected_contact_id
                    == Some(u.id) && 0 <= u.id < self.users@.len() && u == self.users@[u.id as int],
                Err(e) => if !(0 <= user_id < self.users@.len()) {
                    e == StoreError::NotFound
                } else {
                    e == StoreError::InconsistentSelection && (
                    self.users@[user_id as int].selected_contact_id matches None)
                },
            },
    {
        if user_id < 0 || user_id as usize >= self.users.len() {
            return Err(StoreError::NotFound);
        }
        let idx = user_id as usize;
        match self.users[idx].selected_contact_id {
            Some(cid) => Ok(self.users[cid as usize].clone_user()),
            None => Err(StoreError::InconsistentSelection),
        }
    }
}

/// The directory state after a find-or-create for `(owner, target)`: an
/// existing row is returned as is, otherwise a nameless row is appended.
/// Returns the new row sequence and the row's index.
pub open spec fn foc_contacts(contacts: Seq<Contact>, owner: i32, target: i32) -> (
    Seq<Contact>,
    int,
) {
    match contact_by_pair(contacts, owner, target) {
        Some(i) => (contacts, i),
        None => (
            contacts.push(
                Contact {
                    id: contacts.len() as i32,
                    user_id: owner,
                    contact_id: target,
                    name: None,
                },
            ),
            contacts.len() as int,
        ),
    }
}

/// The display name of a contact row: the owner-chosen name when set, else
/// the target user's current handle. The handle is never copied into the
/// row; it is read from the target so later handle changes show through.
pub open spec fn contact_display(c: Contact, users: Seq<User>) -> Seq<char> {
    match c.name {
        Some(n) => n@,
        None => if 0 <= c.contact_id < users.len() {
            users[c.contact_id as int].telegram_username@
        } else {
            "<unknown>"@
        },
    }
}

/// The contact rows of `owner` among the first `n`, in insertion order.
pub open spec fn contacts_for(contacts: Seq<Contact>, owner: i32, n: int) -> Seq<Contact>
    decreases n,
{
    if n <= 0 {
        Seq::empty()
    } else if contacts[n - 1].user_id == owner {
        contacts_for(contacts, owner, n - 1).push(contacts[n - 1])
    } else {
        contacts_for(contacts, owner, n - 1)
    }
}

/// The display names of `owner`'s contacts among the first `n` rows, in
/// insertion order, with the handle fallback applied.
pub open spec fn names_for(contacts: Seq<Contact>, users: Seq<User>, owner: i32, n: int) -> Seq<
    Seq<char>,
>
    decreases n,
{
    if n <= 0 {
        Seq::empty()
    } else if contacts[n - 1].user_id == owner {
        names_for(contacts, users, owner, n - 1).push(contact_display(contacts[n - 1], users))
    } else {
        names_for(contacts, users, owner, n - 1)
    }
}

impl Store {
    fn find_contact_index_by_pair(&self, owner: i32, target: i32) -> (r: Option<usize>)
        ensures
            match r {
                Some(i) => contact_by_pair(self.contacts@, owner, target) == Some(i as int) && i
                    < self.contacts@.len() && self.contacts@[i as int].user_id == owner
                    && self.contacts@[i as int].contact_id == target,
                None => contact_by_pair(self.contacts@, owner, target) == None::<int>,
            },
    {
        let n = self.contacts.len();
        let mut i: usize = 0;
        while i < n
            invariant
                i <= n,
                n == self.contacts@.len(),
                forall|j: int|
                    0 <= j < i ==> !((#[trigger] self.contacts@[j]).user_id == owner
                        && self.contacts@[j].contact_id == target),
            decreases n - i,
        {
            if self.contacts[i].user_id == owner && self.contacts[i].contact_id == target {
                proof {
                    assert(pair_pred(owner, target)(self.contacts@[i as int]));
                    assert(forall|j: int|
                        0 <= j < i ==> !pair_pred(owner, target)(#[trigger] self.contacts@[j]));
                    lemma_find_first_at(self.contacts@, pair_pred(owner, target), i as int);
                }
                return Some(i);
            }
            i += 1;
        }
        proof {
            assert(forall|j: int|
                0 <= j < self.contacts@.len() ==> !pair_pred(owner, target)(
                    #[trigger] self.contacts@[j],
                ));
            lemma_find_first_none(self.contacts@, pair_pred(owner, target));
        }
        None
    }

    /// Returns the `(owner, target)` contact row, creating a nameless one if
    /// none exists. A duplicate creation attempt is not an error: it resolves
    /// to the existing row. `Ok` exactly when both ids name existing users.
    pub fn find_or_create_contact(&mut self, user_id: i32, contact_id: i32) -> (r: Result<
        Contact,
        StoreError,
    >)
        requires
            store_inv(old(self)),
            old(self).contacts@.len() < 0x7fff_ffff,
        ensures
            store_inv(final(self)),
            final(self).users@ == old(self).users@,
            final(self).transactions@ == old(self).transactions@,
            old(self).transactions@.is_prefix_of(final(self).transactions@),
            match r {
                Ok(c) => 0 <= user_id < old(self).users@.len() && 0 <= contact_id < old(
                    self,
                ).users@.len() && final(self).contacts@ == foc_contacts(
                    old(self).contacts@,
                    user_id,
                    contact_id,
                ).0 && c == final(self).contacts@[foc_contacts(
                    old(self).contacts@,
                    user_id,
                    contact_id,
                ).1] && c.user_id == user_id && c.contact_id == contact_id,
                Err(e) => e == StoreError::NotFound && !(0 <= user_id < old(self).users@.len() && 0
                    <= contact_id < old(self).users@.len()) && final(self).contacts@ == old(
                    self,
                ).contacts@,
            },
    {
        if user_id < 0 || user_id as usize >= self.users.len() || contact_id < 0
            || contact_id as usize >= self.users.len() {
            return Err(StoreError::NotFound);
        }
        let nc = NewContact { user_id, contact_id };
        match self.find_contact_index_by_pair(user_id, contact_id) {
            Some(i) => Ok(self.contacts[i].clone_contact()),
            None => {
                proof {
                    lemma_find_first(self.contacts@, pair_pred(user_id, contact_id));
                    assert(forall|j: int|
                        0 <= j < self.contacts@.len() ==> !((#[trigger] self.contacts@[j]).user_id
                            == user_id && self.contacts@[j].contact_id == contact_id));
                }
                let row = Contact {
                    id: self.contacts.len() as i32,
                    user_id: nc.user_id,
                    contact_id: nc.contact_id,
                    name: None,
                };
                let r = row.clone_contact();
                self.contacts.push(row);
                Ok(r)
            },
        }
    }

    /// Renames the `(owner, target)` contact row. `Ok` exactly when the row
    /// exists; nothing else changes.
    pub fn edit_contact(&mut self, user_id: i32, contact_id: i32, contact_new_name: &str) -> (r:
        Result<Contact, StoreError>)
        requires
            store_inv(old(self)),
        ensures
            store_inv(final(self)),
            final(self).users@ == old(self).users@,
            final(self).transactions@ == old(self).transactions@,
            old(self).transactions@.is_prefix_of(final(self).transactions@),
            match r {
                Ok(c) => contact_by_pair(old(self).contacts@, user_id, contact_id) == Some(
                    c.id as int,
                ) && 0 <= c.id < old(self).contacts@.len() && c == (Contact {
                    name: c.name,
                    ..old(self).contacts@[c.id as int]
                }) && (c.name matches Some(n) && n@ == contact_new_name@) && final(self).contacts@
                    == old(self).contacts@.update(c.id as int, c),
                Err(e) => e == StoreError::NotFound && contact_by_pair(
                    old(self).contacts@,
                    user_id,
                    contact_id,
                ) == None::<int> && final(self).contacts@ == old(self).contacts@,
            },
    {
        match self.find_contact_index_by_pair(user_id, contact_id) {
            Some(i) => {
                let row = Contact {
                    id: self.contacts[i].id,
                    user_id: self.contacts[i].user_id,
                    contact_id: self.contacts[i].contact_id,
                    name: Some(String::from_str(contact_new_name)),
                };
                let r = row.clone_contact();
                self.contacts.set(i, row);
                Ok(r)
            },
            None => Err(StoreError::NotFound),
        }
    }

    /// All contact rows of `owner`, in insertion order.
    pub fn find_all_contacts_for_user(&self, user_id: i32) -> (r: Vec<Contact>)
        ensures
            r@ == contacts_for(self.contacts@, user_id, self.contacts@.len() as int),
    {
        let n = self.contacts.len();
        let mut r: Vec<Contact> = Vec::new();
        let mut i: usize = 0;
        while i < n
            invariant
                i <= n,
                n == self.contacts@.len(),
                r@ == contacts_for(self.contacts@, user_id, i as int),
            decreases n - i,
        {
            if self.contacts[i].user_id == user_id {
                r.push(self.contacts[i].clone_contact());
            }
            i += 1;
        }
        r
    }

    /// The display names of `owner`'s contacts, in insertion order, each
    /// falling back to the target user's handle when the row has no name.
    pub fn get_contacts_names(&self, user_id: i32) -> (r: Vec<String>)
        requires
            store_inv(self),
        ensures
            r@.len() == names_for(
                self.contacts@,
                self.users@,
                user_id,
                self.contacts@.len() as int,
            ).len(),
            forall|i: int|
                0 <= i < r@.len() ==> (#[trigger] r@[i])@ == names_for(
                    self.contacts@,
                    self.users@,
                    user_id,
                    self.contacts@.len() as int,
                )[i],
    {
        let n = self.contacts.len();
        let mut r: Vec<String> = Vec::new();
        let mut i: usize = 0;
        while i < n
            invariant
                i <= n,
                n == self.contacts@.len(),
                store_inv(self),
                r@.len() == names_for(self.contacts@, self.users@, user_id, i as int).len(),
                forall|k: int|
                    0 <= k < r@.len() ==> (#[trigger] r@[k])@ == names_for(
                        self.contacts@,
                        self.users@,
                        user_id,
                        i as int,
                    )[k],
            decreases n - i,
        {
            if self.contacts[i].user_id == user_id {
                let nm = match &self.contacts[i].name {
                    Some(s) => s.clone(),
                    None => {
                        let t = self.contacts[i].contact_id;
                        self.users[t as usize].telegram_username.clone()
                    },
                };
                r.push(nm);
            }
            i += 1;
        }
        r
    }

    /// Resolves a display name picked in the interface back to the named
    /// contact's user row; the match is exact. `Ok` exactly when `owner` has
    /// a contact row whose set name reads `contact_name`.
    pub fn find_user_by_contact_name(&self, user_id: i32, contact_name: &str) -> (r: Result<
        User,
        StoreError,
    >)
        requires
            store_inv(self),
        ensures
            match r {
                Ok(u) => (contact_by_name(self.contacts@, user_id, contact_name@) matches Some(ci)
                    && 0 <= ci < self.contacts@.len() && u == self.users@[self.contacts@[ci].contact_id as int]
                    && u.id == self.contacts@[ci].contact_id),
                Err(e) => e == StoreError::NotFound && contact_by_name(
                    self.contacts@,
                    user_id,
                    contact_name@,
                ) == None::<int>,
            },
    {
        let n = self.contacts.len();
        let mut i: usize = 0;
        while i < n
            invariant
                i <= n,
                n == self.contacts@.len(),
                store_inv(self),
                forall|j: int|
                    0 <= j < i ==> !cname_pred(user_id, contact_name@)(
                        #[trigger] self.contacts@[j],
                    ),
            decreases n - i,
        {
            if self.contacts[i].user_id == user_id {
                let named = match &self.contacts[i].name {
                    Some(s) => str_eq(s.as_str(), contact_name),
                    None => false,
                };
                if named {
                    proof {
                        assert(cname_pred(user_id, contact_name@)(self.contacts@[i as int]));
                        lemma_find_first_at(
                            self.contacts@,
                            cname_pred(user_id, contact_name@),
                            i as int,
                        );
                    }
                    let t = self.contacts[i].contact_id;
                    return Ok(self.users[t as usize].clone_user());
                }
            }
            proof {
                assert(!cname_pred(user_id, contact_name@)(self.contacts@[i as int]));
            }
            i += 1;
        }
        proof {
            lemma_find_first_none(self.contacts@, cname_pred(user_id, contact_name@));
        }
        Err(StoreError::NotFound)
    }
}

/// An executable summary carries exactly the abstract one: keys by view,
/// totals by value, every total well formed.
pub open spec fn summary_matches(v: Seq<(String, Amount)>, s: Seq<(Seq<char>, AmountV)>) -> bool {
    v.len() == s.len() && (forall|i: int|
        0 <= i < v.len() ==> (#[trigger] v[i]).0@ == s[i].0 && v[i].1@ == s[i].1 && v[i].1.wf())
}

/// An executable name list carries exactly the abstract one.
pub open spec fn names_match(v: Seq<String>, s: Seq<Seq<char>>) -> bool {
    v.len() == s.len() && (forall|i: int| 0 <= i < v.len() ==> (#[trigger] v[i])@ == s[i])
}

/// Folds one outbound transfer into a running summary: the first entry with
/// the same key absorbs the amount; a new key is appended at the end, so the
/// summary keeps first-appearance order.
pub open spec fn bump(acc: Seq<(Seq<char>, AmountV)>, k: Seq<char>, v: AmountV) -> Seq<
    (Seq<char>, AmountV),
>
    decreases acc.len(),
{
    if acc.len() == 0 {
        seq![(k, v)]
    } else if acc[0].0 == k {
        seq![(k, add_val(acc[0].1, v))] + acc.skip(1)
    } else {
        seq![acc[0]] + bump(acc.skip(1), k, v)
    }
}

/// The display name under which a transfer to `other` shows up in `owner`'s
/// summary: the contact row's display name when `owner` lists `other`, else
/// the literal unknown-counterparty label.
pub open spec fn summary_key(
    contacts: Seq<Contact>,
    users: Seq<User>,
    owner: i32,
    other: i32,
) -> Seq<char> {
    match contact_by_pair(contacts, owner, other) {
        Some(ci) => contact_display(contacts[ci], users),
        None => "<unknown>"@,
    }
}

/// The outbound summary of `owner` over the first `n` ledger entries:
/// transfers sent by `owner`, grouped by the receiver's display name, each
/// group's amounts summed exactly.
pub open spec fn summary_for(
    txs: Seq<Transaction>,
    contacts: Seq<Contact>,
    users: Seq<User>,
    owner: i32,
    n: int,
) -> Seq<(Seq<char>, AmountV)>
    decreases n,
{
    if n <= 0 {
        Seq::empty()
    } else {
        let prev = summary_for(txs, contacts, users, owner, n - 1);
        if txs[n - 1].from_user_id == owner {
            bump(prev, summary_key(contacts, users, owner, txs[n - 1].to_user_id), txs[n - 1].amount@)
        } else {
            prev
        }
    }
}

/// When the key already occurs first at `j`, `bump` only adds to that entry.
proof fn lemma_bump_update(acc: Seq<(Seq<char>, AmountV)>, k: Seq<char>, v: AmountV, j: int)
    requires
        0 <= j < acc.len(),
        acc[j].0 == k,
        forall|i: int| 0 <= i < j ==> (#[trigger] acc[i]).0 != k,
    ensures
        bump(acc, k, v) == acc.update(j, (k, add_val(acc[j].1, v))),
    decreases acc.len(),
{
    if j == 0 {
        assert(bump(acc, k, v) =~= acc.update(0, (k, add_val(acc[0].1, v))));
    } else {
        assert(forall|i: int| 0 <= i < j - 1 ==> (#[trigger] acc.skip(1)[i]).0 == acc[i + 1].0);
        lemma_bump_update(acc.skip(1), k, v, j - 1);
        assert(bump(acc, k, v) =~= acc.update(j, (k, add_val(acc[j].1, v))));
    }
}

/// When the key is new, `bump` appends it.
proof fn lemma_bump_push(acc: Seq<(Seq<char>, AmountV)>, k: Seq<char>, v: AmountV)
    requires
        forall|i: int| 0 <= i < acc.len() ==> (#[trigger] acc[i]).0 != k,
    ensures
        bump(acc, k, v) == acc.push((k, v)),
    decreases acc.len(),
{
    if acc.len() == 0 {
        assert(bump(acc, k, v) =~= acc.push((k, v)));
    } else {
        assert(forall|i: int|
            0 <= i < acc.skip(1).len() ==> (#[trigger] acc.skip(1)[i]).0 == acc[i + 1].0);
        lemma_bump_push(acc.skip(1), k, v);
        assert(bump(acc, k, v) =~= acc.push((k, v)));
    }
}

impl Store {
    /// Parses `amount_str` as an exact positive decimal and appends one
    /// immutable ledger entry. `Ok` exactly when both ids name existing users
    /// and the text is a well-formed positive decimal; on any error no entry
    /// is created. Recorded entries are never touched: the old ledger is a
    /// prefix of the new one in every case.
    pub fn create_transaction(&mut self, from_user_id: i32, to_user_id: i32, amount_str: &str) -> (
        r: Result<Transaction, StoreError>)
        requires
            store_inv(old(self)),
            old(self).transactions@.len() < 0x7fff_ffff,
        ensures
            store_inv(final(self)),
            final(self).users@ == old(self).users@,
            final(self).contacts@ == old(self).contacts@,
            old(self).transactions@.is_prefix_of(final(self).transactions@),
            match r {
                Ok(tx) => 0 <= from_user_id < old(self).users@.len() && 0 <= to_user_id < old(
                    self,
                ).users@.len() && valid_amount_text(amount_str@) && tx.id
                    == old(self).transactions@.len() && tx.from_user_id == from_user_id
                    && tx.to_user_id == to_user_id && tx.amount@ == amount_of_text(amount_str@)
                    && tx.amount.wf() && final(self).transactions@.len() == old(
                    self,
                ).transactions@.len() + 1 && tx.eqv(final(self).transactions@.last()),
                Err(e) => final(self).transactions@ == old(self).transactions@ && (if !(0
                    <= from_user_id < old(self).users@.len() && 0 <= to_user_id < old(
                    self,
                ).users@.len()) {
                    e == StoreError::NotFound
                } else {
                    e == StoreError::ParseError && !valid_amount_text(amount_str@)
                }),
            },
    {
        if from_user_id < 0 || from_user_id as usize >= self.users.len() || to_user_id < 0
            || to_user_id as usize >= self.users.len() {
            return Err(StoreError::NotFound);
        }
        match Amount::parse(amount_str) {
            None => Err(StoreError::ParseError),
            Some(amount) => {
                proof {
                    amount.lemma_wf_facts();
                }
                let nt = NewTransaction { from_user_id, to_user_id, amount };
                let row = Transaction {
                    id: self.transactions.len() as i32,
                    from_user_id: nt.from_user_id,
                    to_user_id: nt.to_user_id,
                    amount: nt.amount,
                };
                let r = row.clone_transaction();
                self.transactions.push(row);
                proof {
                    assert(old(self).transactions@.is_prefix_of(self.transactions@));
                }
                Ok(r)
            },
        }
    }

    fn display_name_for(&self, owner: i32, other: i32) -> (r: String)
        requires
            store_inv(self),
        ensures
            r@ == summary_key(self.contacts@, self.users@, owner, other),
    {
        match self.find_contact_index_by_pair(owner, other) {
            Some(ci) => {
                match &self.contacts[ci].name {
                    Some(s) => s.clone(),
                    None => {
                        let t = self.contacts[ci].contact_id;
                        self.users[t as usize].telegram_username.clone()
                    },
                }
            },
            None => String::from_str("<unknown>"),
        }
    }

    /// The outbound summary of `owner`: for every counterparty `owner` sent
    /// to, the receiver's display name with the exact sum of those transfers,
    /// in first-transfer order. Counterparties without outbound transfers are
    /// absent; a receiver `owner` never listed shows under the literal
    /// unknown label. Only the one direction is summed: the summary presents
    /// "gave" totals, not a signed net.
    pub fn get_debit(&self, user_id: i32) -> (r: Vec<(String, Amount)>)
        requires
            store_inv(self),
        ensures
            ({
                let s = summary_for(
                    self.transactions@,
                    self.contacts@,
                    self.users@,
                    user_id,
                    self.transactions@.len() as int,
                );
                r@.len() == s.len() && (forall|i: int|
                    0 <= i < r@.len() ==> (#[trigger] r@[i]).0@ == s[i].0 && r@[i].1@ == s[i].1
                        && r@[i].1.wf())
            }),
    {
        let n = self.transactions.len();
        let mut r: Vec<(String, Amount)> = Vec::new();
        let mut i: usize = 0;
        while i < n
            invariant
                i <= n,
                n == self.transactions@.len(),
                store_inv(self),
                ({
                    let s = summary_for(
                        self.transactions@,
                        self.contacts@,
                        self.users@,
                        user_id,
                        i as int,
                    );
                    r@.len() == s.len() && (forall|k: int|
                        0 <= k < r@.len() ==> (#[trigger] r@[k]).0@ == s[k].0 && r@[k].1@ == s[k].1
                            && r@[k].1.wf())
                }),
                forall|k1: int, k2: int|
                    0 <= k1 < k2 < r@.len() ==> (#[trigger] r@[k1]).0@ != (#[trigger] r@[k2]).0@,
            decreases n - i,
        {
            if self.transactions[i].from_user_id == user_id {
                let key = self.display_name_for(user_id, self.transactions[i].to_user_id);
                let ghost s = summary_for(
                    self.transactions@,
                    self.contacts@,
                    self.users@,
                    user_id,
                    i as int,
                );
                match find_key_index(&r, key.as_str()) {
                    Some(j) => {
                        proof {
                            assert forall|k: int| 0 <= k < j implies (#[trigger] s[k]).0
                                != key@ by {
                                assert(r@[k].0@ != key@);
                            }
                        }
                        let summed = r[j].1.add(&self.transactions[i].amount);
                        let old_key = r[j].0.clone();
                        r.set(j, (old_key, summed));
                        proof {
                            lemma_bump_update(
                                s,
                                key@,
                                self.transactions@[i as int].amount@,
                                j as int,
                            );
                        }
                    },
                    None => {
                        proof {
                            assert forall|k: int| 0 <= k < s.len() implies (#[trigger] s[k]).0
                                != key@ by {
                                assert(r@[k].0@ != key@);
                            }
                            lemma_bump_push(s, key@, self.transactions@[i as int].amount@);
                        }
                        r.push((key, self.transactions[i].amount.clone_amount()));
                    },
                }
            }
            i += 1;
        }
        r
    }
}

/// The signed net standing between an owner and one counterparty. The
/// convention: what the owner gave minus what the owner took, so a positive
/// net means the owner is owed.
pub enum Balance {
    /// The counterparty owes the owner this much.
    OwedToOwner(Amount),
    /// The owner owes the counterparty this much.
    OwedByOwner(Amount),
    /// The two are even.
    Settled,
}

/// The exact sum of the transfers from `from` to `to` among the first `n`
/// ledger entries; `None` when there are none.
pub open spec fn pair_total(txs: Seq<Transaction>, from: i32, to: i32, n: int) -> Option<AmountV>
    decreases n,
{
    if n <= 0 {
        None
    } else {
        let prev = pair_total(txs, from, to, n - 1);
        if txs[n - 1].from_user_id == from && txs[n - 1].to_user_id == to {
            match prev {
                None => Some(txs[n - 1].amount@),
                Some(v) => Some(add_val(v, txs[n - 1].amount@)),
            }
        } else {
            prev
        }
    }
}

impl Store {
    /// The derived net balance between `user_id` and `contact_id`: the exact
    /// sum of transfers sent minus the exact sum of transfers received,
    /// reported with its sign.
    pub fn net_balance(&self, user_id: i32, contact_id: i32) -> (r: Balance)
        requires
            store_inv(self),
        ensures
            ({
                let gave = pair_total(
                    self.transactions@,
                    user_id,
                    contact_id,
                    self.transactions@.len() as int,
                );
                let took = pair_total(
                    self.transactions@,
                    contact_id,
                    user_id,
                    self.transactions@.len() as int,
                );
                match r {
                    Balance::Settled => match (gave, took) {
                        (None, None) => true,
                        (Some(g), Some(t)) => g == t,
                        _ => false,
                    },
                    Balance::OwedToOwner(m) => m.wf() && (match (gave, took) {
                        (Some(g), None) => m@ == g,
                        (Some(g), Some(t)) => lt_val(t, g) && m@ == sub_val(g, t),
                        _ => false,
                    }),
                    Balance::OwedByOwner(m) => m.wf() && (match (gave, took) {
                        (None, Some(t)) => m@ == t,
                        (Some(g), Some(t)) => lt_val(g, t) && m@ == sub_val(t, g),
                        _ => false,
                    }),
                }
            }),
    {
        let n = self.transactions.len();
        let mut gave: Option<Amount> = None;
        let mut took: Option<Amount> = None;
        let mut i: usize = 0;
        while i < n
            invariant
                i <= n,
                n == self.transactions@.len(),
                store_inv(self),
                match gave {
                    Some(m) => m.wf() && pair_total(
                        self.transactions@,
                        user_id,
                        contact_id,
                        i as int,
                    ) == Some(m@),
                    None => pair_total(self.transactions@, user_id, contact_id, i as int)
                        == None::<AmountV>,
                },
                match took {
                    Some(m) => m.wf() && pair_total(
                        self.transactions@,
                        contact_id,
                        user_id,
                        i as int,
                    ) == Some(m@),
                    None => pair_total(self.transactions@, contact_id, user_id, i as int)
                        == None::<AmountV>,
                },
            decreases n - i,
        {
            if self.transactions[i].from_user_id == user_id && self.transactions[i].to_user_id
                == contact_id {
                gave = match gave {
                    None => Some(self.transactions[i].amount.clone_amount()),
                    Some(m) => Some(m.add(&self.transactions[i].amount)),
                };
            }
            if self.transactions[i].from_user_id == contact_id && self.transactions[i].to_user_id
                == user_id {
                took = match took {
                    None => Some(self.transactions[i].amount.clone_amount()),
                    Some(m) => Some(m.add(&self.transactions[i].amount)),
                };
            }
            i += 1;
        }
        match (gave, took) {
            (None, None) => Balance::Settled,
            (Some(g), None) => Balance::OwedToOwner(g),
            (None, Some(t)) => Balance::OwedByOwner(t),
            (Some(g), Some(t)) => {
                proof {
                    g.lemma_wf_facts();
                    t.lemma_wf_facts();
                }
                if g.eq_value(&t) {
                    Balance::Settled
                } else if t.lt_value(&g) {
                    Balance::OwedToOwner(g.sub(&t))
                } else {
                    proof {
                        lemma_lt_val_total(g@, t@);
                    }
                    Balance::OwedByOwner(t.sub(&g))
                }
            },
        }
    }
}

/// Two distinct normalized abstract values are ordered one way or the other:
/// were both comparisons false, the aligned mantissas would be equal, and
/// normalization makes such values identical.
proof fn lemma_lt_val_total(a: AmountV, b: AmountV)
    requires
        a != b,
        crate::amount::norm(a.mant, a.scale) == a,
        crate::amount::norm(b.mant, b.scale) == b,
    ensures
        lt_val(a, b) || lt_val(b, a),
{
    if !lt_val(a, b) && !lt_val(b, a) {
        if a.scale == b.scale {
            vstd::arithmetic::mul::lemma_mul_basics(a.mant as int);
            vstd::arithmetic::mul::lemma_mul_basics(b.mant as int);
            assert(crate::amount::pow10(0nat) == 1);
            assert(a.mant == b.mant);
        } else if a.scale > b.scale {
            lemma_equal_scaled_means_equal(a, b);
        } else {
            lemma_equal_scaled_means_equal(b, a);
        }
    }
}

/// Normalizing a zero mantissa rests at scale zero.
proof fn lemma_norm_zero(s: nat)
    ensures
        crate::amount::norm(0, s) == (AmountV { mant: 0, scale: 0 }),
    decreases s,
{
    if s > 0 {
        lemma_norm_zero((s - 1) as nat);
    }
}

/// Normalization never raises the scale.
proof fn lemma_norm_scale(m: nat, s: nat)
    ensures
        crate::amount::norm(m, s).scale <= s,
    decreases s,
{
    if s > 0 && m % 10 == 0 {
        lemma_norm_scale(m / 10, (s - 1) as nat);
    }
}

/// Two normalized values whose mantissas agree after rescaling are the same
/// value: a rescaled mantissa ends in a zero digit, which normalization
/// allows only at scale zero, and that forces both values to be zero.
proof fn lemma_equal_scaled_means_equal(a: AmountV, b: AmountV)
    requires
        a.scale > b.scale,
        a.mant == crate::amount::scaled(b, a.scale),
        crate::amount::norm(a.mant, a.scale) == a,
        crate::amount::norm(b.mant, b.scale) == b,
    ensures
        a == b,
{
    let d = (a.scale - b.scale) as nat;
    assert(crate::amount::pow10(d) == 10 * crate::amount::pow10((d - 1) as nat));
    let p = crate::amount::pow10((d - 1) as nat) as int;
    assert(b.mant * (10 * p) == (b.mant * p) * 10) by {
        vstd::arithmetic::mul::lemma_mul_is_associative(b.mant as int, 10, p);
        vstd::arithmetic::mul::lemma_mul_is_commutative(b.mant as int, 10 * p);
        vstd::arithmetic::mul::lemma_mul_is_commutative(b.mant as int * p, 10);
        vstd::arithmetic::mul::lemma_mul_is_associative(10, b.mant as int, p);
        vstd::arithmetic::mul::lemma_mul_is_commutative(10, b.mant as int);
    }
    assert(((b.mant * p) * 10) % 10 == 0) by {
        vstd::arithmetic::div_mod::lemma_mod_multiples_basic(b.mant as int * p, 10);
    }
    assert(a.mant % 10 == 0);
    if b.mant == 0 {
        lemma_norm_zero(b.scale);
        assert(b == (AmountV { mant: 0, scale: 0 }));
        assert(a.mant == 0) by {
            vstd::arithmetic::mul::lemma_mul_basics(crate::amount::pow10(d) as int);
        }
        lemma_norm_zero(a.scale);
        assert(a == (AmountV { mant: 0, scale: 0 }));
    } else {
        assert(a.scale > 0);
        assert(crate::amount::norm(a.mant, a.scale) == crate::amount::norm(
            a.mant / 10,
            (a.scale - 1) as nat,
        ));
        lemma_norm_scale(a.mant / 10, (a.scale - 1) as nat);
        assert(crate::amount::norm(a.mant, a.scale).scale < a.scale);
    }
}

/// Index of the first summary entry under `key`, if any.
fn find_key_index(r: &Vec<(String, Amount)>, key: &str) -> (o: Option<usize>)
    ensures
        match o {
            Some(j) => j < r@.len() && r@[j as int].0@ == key@ && (forall|k: int|
                0 <= k < j ==> (#[trigger] r@[k]).0@ != key@),
            None => forall|k: int| 0 <= k < r@.len() ==> (#[trigger] r@[k]).0@ != key@,
        },
{
    let m = r.len();
    let mut j: usize = 0;
    while j < m
        invariant
            j <= m,
            m == r@.len(),
            forall|k: int| 0 <= k < j ==> (#[trigger] r@[k]).0@ != key@,
        decreases m - j,
    {
        if str_eq(r[j].0.as_str(), key) {
            return Some(j);
        }
        j += 1;
    }
    None
}

/// Character-wise string comparison, exact on the views.
pub fn str_eq(a: &str, b: &str) -> (r: bool)
    ensures
        r == (a@ == b@),
{
    let na = a.unicode_len();
    let nb = b.unicode_len();
    if na != nb {
        return false;
    }
    let mut i: usize = 0;
    while i < na
        invariant
            i <= na,
            na == a@.len(),
            na == b@.len(),
            forall|j: int| 0 <= j < i ==> a@[j] == b@[j],
        decreases na - i,
    {
        if a.get_char(i) != b.get_char(i) {
            return false;
        }
        i += 1;
    }
    proof {
        assert(a@ =~= b@);
    }
    true
}

} // verus!
