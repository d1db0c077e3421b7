//! The cross-operation laws of the registry and the directory.
//!
//! Single operations carry their own contracts; these lemmas state what holds
//! across two calls. Operations on the store are atomic and per-user events
//! are serialized, so two racing calls land in some order: the laws cover
//! both orders at once by speaking of sequential composition.

use vstd::prelude::*;
use crate::models::{Contact, User};
use crate::store::{
    contact_by_pair, foc_contacts, lemma_find_first, lemma_find_first_at, pair_pred, tid_pred,
    upsert_users, user_by_tid,
};

verus! {

/// Registration is idempotent and the identity never forks: a second upsert
/// for the same external reference lands on the same row index, adds no row,
/// and with the same handle leaves the registry exactly as the first call
/// did. So two upserts for one reference — in whatever order they are
/// serialized — yield one row and one id.
pub proof fn lemma_upsert_idempotent(users: Seq<User>, tid: i64, h1: String, h2: String)
    requires
        forall|i: int, j: int|
            0 <= i < j < users.len() ==> (#[trigger] users[i]).telegram_id != (
            #[trigger] users[j]).telegram_id,
    ensures
        ({
            let first = upsert_users(users, tid, h1);
            let second = upsert_users(first.0, tid, h2);
            &&& second.1 == first.1
            &&& second.0.len() == first.0.len()
            &&& (h1 == h2 ==> second.0 == first.0)
        }),
{
    let first = upsert_users(users, tid, h1);
    lemma_find_first(users, tid_pred(tid));
    match user_by_tid(users, tid) {
        Some(i) => {
            assert(tid_pred(tid)(first.0[i]));
            assert(forall|j: int| 0 <= j < i ==> !tid_pred(tid)(#[trigger] first.0[j]));
            lemma_find_first_at(first.0, tid_pred(tid), i);
            let second = upsert_users(first.0, tid, h2);
            if h1 == h2 {
                assert(second.0 =~= first.0);
            }
        },
        None => {
            let i = users.len() as int;
            assert(tid_pred(tid)(first.0[i]));
            assert(forall|j: int| 0 <= j < i ==> !tid_pred(tid)(#[trigger] first.0[j]));
            lemma_find_first_at(first.0, tid_pred(tid), i);
            let second = upsert_users(first.0, tid, h2);
            if h1 == h2 {
                assert(second.0 =~= first.0);
            }
        },
    }
}

/// Duplicate contact creation converges: a second find-or-create for the same
/// `(owner, target)` pair returns the same row index and changes nothing, so
/// two racing calls — in whatever order they are serialized — resolve to
/// exactly one row, and every caller observes its one id.
pub proof fn lemma_find_or_create_contact_converges(
    contacts: Seq<Contact>,
    owner: i32,
    target: i32,
)
    ensures
        ({
            let first = foc_contacts(contacts, owner, target);
            let second = foc_contacts(first.0, owner, target);
            &&& second.1 == first.1
            &&& second.0 == first.0
            &&& first.0.len() <= contacts.len() + 1
        }),
{
    let first = foc_contacts(contacts, owner, target);
    lemma_find_first(contacts, pair_pred(owner, target));
    match contact_by_pair(contacts, owner, target) {
        Some(i) => {},
        None => {
            let i = contacts.len() as int;
            assert(pair_pred(owner, target)(first.0[i]));
            assert(forall|j: int| 0 <= j < i ==> !pair_pred(owner, target)(#[trigger] first.0[j]));
            lemma_find_first_at(first.0, pair_pred(owner, target), i);
        },
    }
}

/// Under the directory invariant the `(owner, target)` row is unique: any two
/// indices holding the pair coincide.
pub proof fn lemma_contact_pair_unique(contacts: Seq<Contact>, i: int, j: int)
    requires
        forall|a: int, b: int|
            0 <= a < b < contacts.len() ==> !((#[trigger] contacts[a]).user_id == (
            #[trigger] contacts[b]).user_id && contacts[a].contact_id == contacts[b].contact_id),
        0 <= i < contacts.len(),
        0 <= j < contacts.len(),
        contacts[i].user_id == contacts[j].user_id,
        contacts[i].contact_id == contacts[j].contact_id,
    ensures
        i == j,
{
}

} // verus!
