use debt_ledger::amount::Amount;
use debt_ledger::dialog::{
    contact_buttons, encode_menu_command, encode_pick_contact, parse_callback_token, Button,
    CallbackToken, Command, MenuCommand, Msg,
};
use debt_ledger::inputting_status::{Direction, InputtingStatus};
use debt_ledger::store::Store;

fn amt(s: &str) -> Amount {
    Amount::parse(s).expect("text should parse")
}

fn status_of(s: &Store, tid: i64) -> InputtingStatus {
    s.get_user_by_telegram_id(tid).unwrap().status
}

/// Two registered users; the owner has the second as a contact named "Bobby".
fn setup() -> (Store, i32, i32) {
    let mut s = Store::new();
    let a = s.find_or_create_user(100, "alice");
    let b = s.find_or_create_user(200, "bob");
    s.find_or_create_contact(a.id, b.id).unwrap();
    s.edit_contact(a.id, b.id, "Bobby").unwrap();
    (s, a.id, b.id)
}

#[test]
fn idle_text_only_hints_at_the_menu() {
    let (mut s, _, _) = setup();
    let r = s.handle_message(100, "hello");
    assert!(matches!(r.message, Msg::MenuHint));
    assert_eq!(status_of(&s, 100), InputtingStatus::Idle);
}

#[test]
fn text_from_a_stranger_is_recoverable() {
    let mut s = Store::new();
    let r = s.handle_message(999, "hello");
    assert!(matches!(r.message, Msg::UnknownUser));
}

#[test]
fn adding_a_contact_walks_handle_then_name() {
    let (mut s, a, b) = setup();
    let r = s.handle_callback(200, "add_new_contact");
    assert!(matches!(r.message, Msg::AskContactHandle));
    assert_eq!(
        status_of(&s, 200),
        InputtingStatus::NewContactTelegramUsername
    );

    let r = s.handle_message(200, "@alice");
    assert!(matches!(r.message, Msg::AskContactName));
    assert_eq!(status_of(&s, 200), InputtingStatus::NewContactInternalName);
    assert_eq!(s.contacts.len(), 2);
    assert_eq!(s.contacts[1].user_id, b);
    assert_eq!(s.contacts[1].contact_id, a);

    let r = s.handle_message(200, "Allie");
    assert!(matches!(r.message, Msg::Saved));
    assert_eq!(status_of(&s, 200), InputtingStatus::Idle);
    assert_eq!(s.get_contacts_names(b), vec!["Allie".to_string()]);
}

#[test]
fn an_unknown_handle_keeps_the_dialog_in_place() {
    let (mut s, _, _) = setup();
    s.handle_callback(100, "add_new_contact");
    let r = s.handle_message(100, "nobody_here");
    assert!(matches!(r.message, Msg::ContactNotFound));
    assert_eq!(
        status_of(&s, 100),
        InputtingStatus::NewContactTelegramUsername
    );
    assert_eq!(s.contacts.len(), 1);
}

#[test]
fn direction_took_makes_the_contact_the_sender() {
    let (mut s, a, b) = setup();
    let r = s.handle_callback(100, "select_contact");
    assert!(matches!(r.message, Msg::ChooseContact));
    assert_eq!(
        status_of(&s, 100),
        InputtingStatus::SelectContactForTransaction
    );

    let r = s.handle_callback(100, "selected_contact_Bobby");
    assert!(matches!(r.message, Msg::ChooseDirection));
    assert_eq!(
        status_of(&s, 100),
        InputtingStatus::SelectDirectionForTransaction
    );

    let r = s.handle_callback(100, "transaction_direction_took");
    assert!(matches!(r.message, Msg::AskAmount));
    assert_eq!(status_of(&s, 100), InputtingStatus::TransactionAmount);

    let r = s.handle_message(100, "20");
    assert!(matches!(r.message, Msg::AmountSaved));
    assert_eq!(s.transactions.len(), 1);
    assert_eq!(s.transactions[0].from_user_id, b);
    assert_eq!(s.transactions[0].to_user_id, a);
    assert!(s.transactions[0].amount.eq_value(&amt("20")));
    assert_eq!(status_of(&s, 100), InputtingStatus::Idle);

    let u = s.get_user_by_telegram_id(100).unwrap();
    assert!(u.selected_contact_id.is_none());
    assert!(u.selected_transaction_duration.is_none());
}

#[test]
fn direction_gave_makes_the_owner_the_sender() {
    let (mut s, a, b) = setup();
    s.handle_callback(100, "select_contact");
    s.handle_callback(100, "selected_contact_Bobby");
    s.handle_callback(100, "transaction_direction_gave");
    let u = s.get_user_by_telegram_id(100).unwrap();
    assert_eq!(u.selected_transaction_duration, Some(Direction::Gave));
    s.handle_message(100, "12.50");
    assert_eq!(s.transactions[0].from_user_id, a);
    assert_eq!(s.transactions[0].to_user_id, b);
    assert!(s.transactions[0].amount.eq_value(&amt("12.50")));
}

#[test]
fn a_direction_pick_out_of_turn_changes_nothing() {
    let (mut s, _, _) = setup();
    let r = s.handle_callback(100, "transaction_direction_gave");
    assert!(matches!(r.message, Msg::Unhandled(_)));
    assert_eq!(status_of(&s, 100), InputtingStatus::Idle);
    let u = s.get_user_by_telegram_id(100).unwrap();
    assert!(u.selected_transaction_duration.is_none());
}

#[test]
fn a_malformed_amount_reprompts_in_place() {
    let (mut s, _, _) = setup();
    s.handle_callback(100, "select_contact");
    s.handle_callback(100, "selected_contact_Bobby");
    s.handle_callback(100, "transaction_direction_gave");
    let r = s.handle_message(100, "abc");
    assert!(matches!(r.message, Msg::AmountParseError));
    assert_eq!(status_of(&s, 100), InputtingStatus::TransactionAmount);
    assert_eq!(s.transactions.len(), 0);
    let u = s.get_user_by_telegram_id(100).unwrap();
    assert!(u.selected_contact_id.is_some());
    let r = s.handle_message(100, "20");
    assert!(matches!(r.message, Msg::AmountSaved));
    assert_eq!(s.transactions.len(), 1);
}

#[test]
fn an_amount_without_a_selection_resets_to_rest() {
    let (mut s, a, _) = setup();
    s.set_user_status(a, InputtingStatus::TransactionAmount).unwrap();
    let r = s.handle_message(100, "20");
    assert!(matches!(r.message, Msg::MissingSelection));
    assert_eq!(status_of(&s, 100), InputtingStatus::Idle);
    assert_eq!(s.transactions.len(), 0);
}

#[test]
fn a_name_without_a_selection_resets_to_rest() {
    let (mut s, a, _) = setup();
    s.set_user_status(a, InputtingStatus::NewContactInternalName)
        .unwrap();
    let r = s.handle_message(100, "Bobby");
    assert!(matches!(r.message, Msg::MissingSelection));
    assert_eq!(status_of(&s, 100), InputtingStatus::Idle);
}

#[test]
fn the_delete_flow_is_a_named_extension_point() {
    let (mut s, a, _) = setup();
    let r = s.handle_callback(100, "delete_contact");
    assert!(matches!(r.message, Msg::NotImplemented));
    assert_eq!(status_of(&s, 100), InputtingStatus::Idle);
    s.set_user_status(a, InputtingStatus::DeleteContact).unwrap();
    let r = s.handle_message(100, "Bobby");
    assert!(matches!(r.message, Msg::NotImplemented));
    assert_eq!(status_of(&s, 100), InputtingStatus::DeleteContact);
    assert_eq!(s.contacts.len(), 1);
}

#[test]
fn free_text_while_a_pick_is_awaited_reprompts() {
    let (mut s, _, _) = setup();
    s.handle_callback(100, "select_contact");
    let r = s.handle_message(100, "Bobby");
    assert!(matches!(r.message, Msg::ChooseContact));
    assert_eq!(
        status_of(&s, 100),
        InputtingStatus::SelectContactForTransaction
    );
    s.handle_callback(100, "selected_contact_Bobby");
    let r = s.handle_message(100, "some text");
    assert!(matches!(r.message, Msg::ChooseDirection));
    assert_eq!(
        status_of(&s, 100),
        InputtingStatus::SelectDirectionForTransaction
    );
}

#[test]
fn renaming_through_the_edit_flow() {
    let (mut s, a, b) = setup();
    let r = s.handle_callback(100, "edit_contact");
    assert!(matches!(r.message, Msg::ChooseContact));
    assert_eq!(status_of(&s, 100), InputtingStatus::EditContactInternalName);
    let r = s.handle_callback(100, "selected_contact_Bobby");
    assert!(matches!(r.message, Msg::AskContactName));
    assert_eq!(status_of(&s, 100), InputtingStatus::EditContactInternalName);
    let r = s.handle_message(100, "Robert");
    assert!(matches!(r.message, Msg::Saved));
    assert_eq!(status_of(&s, 100), InputtingStatus::Idle);
    assert_eq!(s.get_contacts_names(a), vec!["Robert".to_string()]);
    assert_eq!(s.find_user_by_contact_name(a, "Robert").unwrap().id, b);
}

#[test]
fn picking_an_unknown_contact_name_is_recoverable() {
    let (mut s, _, _) = setup();
    s.handle_callback(100, "select_contact");
    let r = s.handle_callback(100, "selected_contact_Nobody");
    assert!(matches!(r.message, Msg::ContactNotFound));
    assert_eq!(
        status_of(&s, 100),
        InputtingStatus::SelectContactForTransaction
    );
}

#[test]
fn the_menu_command_cancels_a_pending_step() {
    let (mut s, _, _) = setup();
    s.handle_callback(100, "add_new_contact");
    assert_eq!(
        status_of(&s, 100),
        InputtingStatus::NewContactTelegramUsername
    );
    let r = s.handle_command(100, "alice", Command::Menu);
    assert!(matches!(r.message, Msg::ChooseAction));
    assert_eq!(status_of(&s, 100), InputtingStatus::Idle);
}

#[test]
fn start_registers_the_sender_at_rest() {
    let mut s = Store::new();
    let r = s.handle_command(300, "carol", Command::Start);
    assert!(matches!(r.message, Msg::ChooseAction));
    assert_eq!(s.users.len(), 1);
    assert_eq!(status_of(&s, 300), InputtingStatus::Idle);
    assert_eq!(r.buttons.len(), 2);
}

#[test]
fn the_contacts_command_lists_display_names() {
    let (mut s, _, _) = setup();
    let r = s.handle_command(100, "alice", Command::Contacts);
    match r.message {
        Msg::ContactList(names) => assert_eq!(names, vec!["Bobby".to_string()]),
        _ => panic!("expected the contact list"),
    }
}

#[test]
fn the_debts_command_summarizes_outbound_totals() {
    let (mut s, a, b) = setup();
    s.create_transaction(a, b, "30").unwrap();
    s.create_transaction(a, b, "12").unwrap();
    let r = s.handle_command(100, "alice", Command::Debts);
    match r.message {
        Msg::Summary(rows) => {
            assert_eq!(rows.len(), 1);
            assert_eq!(rows[0].0, "Bobby");
            assert!(rows[0].1.eq_value(&amt("42")));
        },
        _ => panic!("expected the summary"),
    }
}

#[test]
fn the_debts_command_registers_a_fresh_sender() {
    let mut s = Store::new();
    let r = s.handle_command(400, "dave", Command::Debts);
    assert_eq!(s.users.len(), 1);
    match r.message {
        Msg::Summary(rows) => assert!(rows.is_empty()),
        _ => panic!("expected an empty summary"),
    }
}

#[test]
fn at_signs_are_stripped_anywhere_in_the_handle() {
    let (mut s, _, b) = setup();
    s.handle_callback(200, "add_new_contact");
    let r = s.handle_message(200, "@al@ice");
    assert!(matches!(r.message, Msg::AskContactName));
    assert_eq!(s.contacts.len(), 2);
    assert_eq!(s.contacts[1].user_id, b);
}

#[test]
fn unrecognized_tokens_are_echoed() {
    let (mut s, _, _) = setup();
    let r = s.handle_callback(100, "mystery_token");
    match r.message {
        Msg::Unhandled(d) => assert_eq!(d, "mystery_token"),
        _ => panic!("expected the echo"),
    }
    assert_eq!(status_of(&s, 100), InputtingStatus::Idle);
}

#[test]
fn callbacks_from_strangers_are_recoverable() {
    let mut s = Store::new();
    let r = s.handle_callback(999, "debts");
    assert!(matches!(r.message, Msg::UnknownUser));
}

#[test]
fn tokens_round_trip_through_their_encoding() {
    let all = [
        MenuCommand::SelectContact,
        MenuCommand::Debts,
        MenuCommand::AddNewContact,
        MenuCommand::EditContact,
        MenuCommand::DeleteContact,
        MenuCommand::TransactionDirectionGave,
        MenuCommand::TransactionDirectionTook,
        MenuCommand::TransactionSettledAccounts,
        MenuCommand::TransactionHistory,
    ];
    for mc in all {
        match parse_callback_token(&encode_menu_command(mc)) {
            CallbackToken::Menu(back) => assert_eq!(back, mc),
            _ => panic!("expected the same menu action back"),
        }
    }
    match parse_callback_token(&encode_pick_contact("Bobby")) {
        CallbackToken::SelectedContact(nm) => assert_eq!(nm, "Bobby"),
        _ => panic!("expected the pick back"),
    }
    assert!(matches!(
        parse_callback_token("nonsense"),
        CallbackToken::Unrecognized
    ));
}

#[test]
fn contact_buttons_group_three_per_row() {
    let names: Vec<String> = (1..=7).map(|i| format!("c{}", i)).collect();
    let rows = contact_buttons(&names);
    assert_eq!(rows.len(), 3);
    assert_eq!(rows[0].len(), 3);
    assert_eq!(rows[1].len(), 3);
    assert_eq!(rows[2].len(), 1);
    match &rows[2][0] {
        Button::PickContact(nm) => assert_eq!(nm, "c7"),
        _ => panic!("expected a pick button"),
    }
}
