use debt_ledger::amount::Amount;
use debt_ledger::store::{Balance, Store, StoreError};

fn amt(s: &str) -> Amount {
    Amount::parse(s).expect("text should parse")
}

#[test]
fn upsert_is_idempotent() {
    let mut s = Store::new();
    let a = s.find_or_create_user(100, "alice");
    let b = s.find_or_create_user(100, "alice");
    assert_eq!(a.id, b.id);
    assert_eq!(s.users.len(), 1);
}

#[test]
fn upsert_updates_the_handle_without_forking() {
    let mut s = Store::new();
    let a = s.find_or_create_user(100, "alice");
    let b = s.find_or_create_user(100, "alice_renamed");
    assert_eq!(a.id, b.id);
    assert_eq!(s.users.len(), 1);
    assert_eq!(b.telegram_username, "alice_renamed");
    let found = s.get_user_by_telegram_id(100).unwrap();
    assert_eq!(found.telegram_username, "alice_renamed");
}

#[test]
fn lookup_by_handle_and_by_reference() {
    let mut s = Store::new();
    s.find_or_create_user(100, "alice");
    s.find_or_create_user(200, "bob");
    assert_eq!(s.get_user_by_username("bob").unwrap().telegram_id, 200);
    assert!(matches!(
        s.get_user_by_username("carol"),
        Err(StoreError::NotFound)
    ));
    assert!(matches!(
        s.get_user_by_telegram_id(300),
        Err(StoreError::NotFound)
    ));
}

#[test]
fn duplicate_contact_creation_converges() {
    let mut s = Store::new();
    let a = s.find_or_create_user(100, "alice");
    let b = s.find_or_create_user(200, "bob");
    let c1 = s.find_or_create_contact(a.id, b.id).unwrap();
    let c2 = s.find_or_create_contact(a.id, b.id).unwrap();
    assert_eq!(c1.id, c2.id);
    assert_eq!(s.contacts.len(), 1);
}

#[test]
fn contacts_are_directional() {
    let mut s = Store::new();
    let a = s.find_or_create_user(100, "alice");
    let b = s.find_or_create_user(200, "bob");
    s.find_or_create_contact(a.id, b.id).unwrap();
    assert_eq!(s.find_all_contacts_for_user(a.id).len(), 1);
    assert_eq!(s.find_all_contacts_for_user(b.id).len(), 0);
}

#[test]
fn recording_parses_the_amount_exactly() {
    let mut s = Store::new();
    let a = s.find_or_create_user(100, "alice");
    let b = s.find_or_create_user(200, "bob");
    let tx = s.create_transaction(a.id, b.id, "12.50").unwrap();
    assert_eq!(tx.from_user_id, a.id);
    assert_eq!(tx.to_user_id, b.id);
    assert!(tx.amount.eq_value(&amt("12.50")));
    assert_eq!(s.transactions.len(), 1);
}

#[test]
fn recording_rejects_bad_amounts_without_a_row() {
    let mut s = Store::new();
    let a = s.find_or_create_user(100, "alice");
    let b = s.find_or_create_user(200, "bob");
    assert!(matches!(
        s.create_transaction(a.id, b.id, "abc"),
        Err(StoreError::ParseError)
    ));
    assert!(matches!(
        s.create_transaction(a.id, b.id, "-5"),
        Err(StoreError::ParseError)
    ));
    assert!(matches!(
        s.create_transaction(a.id, b.id, "0"),
        Err(StoreError::ParseError)
    ));
    assert_eq!(s.transactions.len(), 0);
    assert!(matches!(
        s.create_transaction(a.id, 99, "5"),
        Err(StoreError::NotFound)
    ));
    assert_eq!(s.transactions.len(), 0);
}

#[test]
fn recorded_transfers_never_change() {
    let mut s = Store::new();
    let a = s.find_or_create_user(100, "alice");
    let b = s.find_or_create_user(200, "bob");
    s.find_or_create_contact(a.id, b.id).unwrap();
    s.create_transaction(a.id, b.id, "30").unwrap();
    let from0 = s.transactions[0].from_user_id;
    let to0 = s.transactions[0].to_user_id;
    let amount0 = s.transactions[0].amount.clone_amount();
    s.create_transaction(b.id, a.id, "10").unwrap();
    s.edit_contact(a.id, b.id, "Bobby").unwrap();
    s.find_or_create_user(100, "alice_again");
    s.set_user_status(a.id, debt_ledger::inputting_status::InputtingStatus::Idle)
        .unwrap();
    assert_eq!(s.transactions[0].from_user_id, from0);
    assert_eq!(s.transactions[0].to_user_id, to0);
    assert!(s.transactions[0].amount.eq_value(&amount0));
    assert_eq!(s.transactions.len(), 2);
}

#[test]
fn summary_groups_and_sums_outbound_transfers() {
    let mut s = Store::new();
    let a = s.find_or_create_user(100, "alice");
    let b = s.find_or_create_user(200, "bob");
    s.find_or_create_contact(a.id, b.id).unwrap();
    s.edit_contact(a.id, b.id, "B").unwrap();
    s.create_transaction(a.id, b.id, "30").unwrap();
    s.create_transaction(a.id, b.id, "12").unwrap();
    let summary = s.get_debit(a.id);
    assert_eq!(summary.len(), 1);
    assert_eq!(summary[0].0, "B");
    assert!(summary[0].1.eq_value(&amt("42")));
}

#[test]
fn summary_counts_one_direction_only() {
    let mut s = Store::new();
    let a = s.find_or_create_user(100, "alice");
    let b = s.find_or_create_user(200, "bob");
    s.find_or_create_contact(a.id, b.id).unwrap();
    s.edit_contact(a.id, b.id, "B").unwrap();
    s.create_transaction(a.id, b.id, "30").unwrap();
    s.create_transaction(a.id, b.id, "12").unwrap();
    s.create_transaction(b.id, a.id, "10").unwrap();
    let summary = s.get_debit(a.id);
    assert_eq!(summary.len(), 1);
    assert!(summary[0].1.eq_value(&amt("42")));
    let back = s.get_debit(b.id);
    assert_eq!(back.len(), 1);
    assert!(back[0].1.eq_value(&amt("10")));
}

#[test]
fn the_net_balance_is_signed() {
    let mut s = Store::new();
    let a = s.find_or_create_user(100, "alice");
    let b = s.find_or_create_user(200, "bob");
    s.create_transaction(a.id, b.id, "30").unwrap();
    s.create_transaction(a.id, b.id, "12").unwrap();
    s.create_transaction(b.id, a.id, "10").unwrap();
    match s.net_balance(a.id, b.id) {
        Balance::OwedToOwner(m) => assert!(m.eq_value(&amt("32"))),
        _ => panic!("expected a positive net for the sender"),
    }
    match s.net_balance(b.id, a.id) {
        Balance::OwedByOwner(m) => assert!(m.eq_value(&amt("32"))),
        _ => panic!("expected a negative net for the receiver"),
    }
}

#[test]
fn an_even_pair_is_settled() {
    let mut s = Store::new();
    let a = s.find_or_create_user(100, "alice");
    let b = s.find_or_create_user(200, "bob");
    assert!(matches!(s.net_balance(a.id, b.id), Balance::Settled));
    s.create_transaction(a.id, b.id, "7.25").unwrap();
    s.create_transaction(b.id, a.id, "7.25").unwrap();
    assert!(matches!(s.net_balance(a.id, b.id), Balance::Settled));
    s.create_transaction(b.id, a.id, "0.75").unwrap();
    match s.net_balance(a.id, b.id) {
        Balance::OwedByOwner(m) => assert!(m.eq_value(&amt("0.75"))),
        _ => panic!("expected the owner to owe"),
    }
}

#[test]
fn summary_uses_the_unknown_label_for_unlisted_receivers() {
    let mut s = Store::new();
    let a = s.find_or_create_user(100, "alice");
    let b = s.find_or_create_user(200, "bob");
    s.create_transaction(a.id, b.id, "7").unwrap();
    let summary = s.get_debit(a.id);
    assert_eq!(summary.len(), 1);
    assert_eq!(summary[0].0, "<unknown>");
}

#[test]
fn nameless_contacts_fall_back_to_the_handle() {
    let mut s = Store::new();
    let a = s.find_or_create_user(100, "alice");
    let b = s.find_or_create_user(200, "bob");
    s.find_or_create_contact(a.id, b.id).unwrap();
    let names = s.get_contacts_names(a.id);
    assert_eq!(names, vec!["bob".to_string()]);
    let rows = s.find_all_contacts_for_user(a.id);
    assert_eq!(rows.len(), 1);
    assert!(rows[0].name.is_none());
}

#[test]
fn fallback_follows_later_handle_changes() {
    let mut s = Store::new();
    let a = s.find_or_create_user(100, "alice");
    let b = s.find_or_create_user(200, "bob");
    s.find_or_create_contact(a.id, b.id).unwrap();
    s.find_or_create_user(200, "bob_the_second");
    let names = s.get_contacts_names(a.id);
    assert_eq!(names, vec!["bob_the_second".to_string()]);
}

#[test]
fn renaming_a_contact_sets_its_display_name() {
    let mut s = Store::new();
    let a = s.find_or_create_user(100, "alice");
    let b = s.find_or_create_user(200, "bob");
    s.find_or_create_contact(a.id, b.id).unwrap();
    let c = s.edit_contact(a.id, b.id, "Bobby").unwrap();
    assert_eq!(c.name.as_deref(), Some("Bobby"));
    assert_eq!(s.get_contacts_names(a.id), vec!["Bobby".to_string()]);
    let resolved = s.find_user_by_contact_name(a.id, "Bobby").unwrap();
    assert_eq!(resolved.id, b.id);
    assert!(matches!(
        s.find_user_by_contact_name(a.id, "bobby"),
        Err(StoreError::NotFound)
    ));
}

#[test]
fn renaming_a_missing_contact_fails() {
    let mut s = Store::new();
    let a = s.find_or_create_user(100, "alice");
    let b = s.find_or_create_user(200, "bob");
    assert!(matches!(
        s.edit_contact(a.id, b.id, "Bobby"),
        Err(StoreError::NotFound)
    ));
}

#[test]
fn selection_requires_existing_rows() {
    let mut s = Store::new();
    let a = s.find_or_create_user(100, "alice");
    assert!(matches!(
        s.set_selected_contact(a.id, 42),
        Err(StoreError::NotFound)
    ));
    assert!(matches!(
        s.get_selected_contact(a.id),
        Err(StoreError::InconsistentSelection)
    ));
    assert!(matches!(
        s.get_selected_contact(77),
        Err(StoreError::NotFound)
    ));
}
