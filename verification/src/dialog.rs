//! The dialog state machine and its inbound/outbound vocabulary.
//!
//! Inbound events arrive already classified by the transport: a slash
//! command, free text, or a button-callback token. The token string is
//! decoded once, at this boundary, into a closed variant type with an
//! explicit unrecognized case. Outbound replies are intents: what to say,
//! which labeled buttons to offer, and whether to edit the previous message
//! in place; the transport renders them.

use vstd::prelude::*;
use crate::amount::{amount_of_text, valid_amount_text, Amount};
use crate::inputting_status::{Direction, InputtingStatus};
use crate::models::{Contact, User};
use crate::store::{
    contact_by_name, contact_by_pair, foc_contacts, lemma_find_first, names_for, names_match,
    str_eq, store_inv, summary_for, summary_matches, tid_pred, user_by_handle, user_by_tid, Store,
};

verus! {

/// The actions offered from the menu and its follow-up keyboards.
#[derive(Clone, Copy, Debug, PartialEq, Eq, Structural)]
pub enum MenuCommand {
    SelectContact,
    Debts,
    AddNewContact,
    EditContact,
    DeleteContact,
    TransactionDirectionGave,
    TransactionDirectionTook,
    TransactionSettledAccounts,
    TransactionHistory,
}

/// The slash commands the transport recognizes.
#[derive(Clone, Copy, Debug, PartialEq, Eq, Structural)]
pub enum Command {
    Start,
    Debts,
    Contacts,
    Menu,
}

/// One labeled choice button: either a fixed menu action, or a pick of the
/// contact whose display name doubles as the label.
pub enum Button {
    Menu(MenuCommand),
    PickContact(String),
}

/// What a reply says. Variants carrying data hold the exact values for the
/// transport to render.
pub enum Msg {
    /// No action is pending; the user should open the menu.
    MenuHint,
    /// The menu itself: pick an action.
    ChooseAction,
    /// Send the new contact's account handle.
    AskContactHandle,
    /// No user carries that handle, or no contact carries that name.
    ContactNotFound,
    /// Send a display name for the selected contact.
    AskContactName,
    /// The rename was recorded.
    Saved,
    /// Send the transfer amount.
    AskAmount,
    /// The transfer was recorded.
    AmountSaved,
    /// The amount text is not a valid positive decimal; try again.
    AmountParseError,
    /// A step expected an earlier selection that is missing; start over.
    MissingSelection,
    /// The sender is not registered yet.
    UnknownUser,
    /// Pick a contact.
    ChooseContact,
    /// Pick a transfer direction.
    ChooseDirection,
    /// A named feature with no behaviour yet.
    NotImplemented,
    /// An unrecognized callback token, echoed back.
    Unhandled(String),
    /// The outbound totals per contact display name.
    Summary(Vec<(String, Amount)>),
    /// The contact display names, in insertion order.
    ContactList(Vec<String>),
}

/// A response intent: text content, optional button rows, and whether to
/// edit the previously rendered message instead of sending a new one.
pub struct Reply {
    pub message: Msg,
    pub buttons: Vec<Vec<Button>>,
    pub edit_in_place: bool,
}

/// A decoded callback token.
pub enum CallbackToken {
    Menu(MenuCommand),
    /// A contact pick, carrying the picked display name.
    SelectedContact(String),
    Unrecognized,
}

/// The wire text of each menu action token.
pub open spec fn menu_token_text(mc: MenuCommand) -> Seq<char> {
    match mc {
        MenuCommand::SelectContact => "select_contact"@,
        MenuCommand::Debts => "debts"@,
        MenuCommand::AddNewContact => "add_new_contact"@,
        MenuCommand::EditContact => "edit_contact"@,
        MenuCommand::DeleteContact => "delete_contact"@,
        MenuCommand::TransactionDirectionGave => "transaction_direction_gave"@,
        MenuCommand::TransactionDirectionTook => "transaction_direction_took"@,
        MenuCommand::TransactionSettledAccounts => "transaction_settled_accounts"@,
        MenuCommand::TransactionHistory => "transaction_history"@,
    }
}

/// The wire prefix of a contact-pick token; the picked name follows it.
pub open spec fn select_prefix() -> Seq<char> {
    "selected_contact_"@
}

/// A token text that denotes a contact pick.
pub open spec fn is_pick_token(s: Seq<char>) -> bool {
    s.len() >= select_prefix().len() && s.subrange(0, select_prefix().len() as int)
        == select_prefix()
}

/// A decoded token at the specification level.
pub ghost enum TokenV {
    M(MenuCommand),
    Pick(Seq<char>),
    Other,
}

/// The decode of a token text: the menu actions are tried in a fixed order,
/// then the contact-pick prefix, and the rest is explicit noise.
pub open spec fn token_of(s: Seq<char>) -> TokenV {
    if s == menu_token_text(MenuCommand::SelectContact) {
        TokenV::M(MenuCommand::SelectContact)
    } else if s == menu_token_text(MenuCommand::Debts) {
        TokenV::M(MenuCommand::Debts)
    } else if s == menu_token_text(MenuCommand::AddNewContact) {
        TokenV::M(MenuCommand::AddNewContact)
    } else if s == menu_token_text(MenuCommand::EditContact) {
        TokenV::M(MenuCommand::EditContact)
    } else if s == menu_token_text(MenuCommand::DeleteContact) {
        TokenV::M(MenuCommand::DeleteContact)
    } else if s == menu_token_text(MenuCommand::TransactionDirectionGave) {
        TokenV::M(MenuCommand::TransactionDirectionGave)
    } else if s == menu_token_text(MenuCommand::TransactionDirectionTook) {
        TokenV::M(MenuCommand::TransactionDirectionTook)
    } else if s == menu_token_text(MenuCommand::TransactionSettledAccounts) {
        TokenV::M(MenuCommand::TransactionSettledAccounts)
    } else if s == menu_token_text(MenuCommand::TransactionHistory) {
        TokenV::M(MenuCommand::TransactionHistory)
    } else if is_pick_token(s) {
        TokenV::Pick(s.subrange(select_prefix().len() as int, s.len() as int))
    } else {
        TokenV::Other
    }
}

/// The decoded meaning of a token text.
pub open spec fn token_matches(t: CallbackToken, s: Seq<char>) -> bool {
    match t {
        CallbackToken::Menu(mc) => s == menu_token_text(mc),
        CallbackToken::SelectedContact(nm) => is_pick_token(s) && nm@ == s.subrange(
            select_prefix().len() as int,
            s.len() as int,
        ),
        CallbackToken::Unrecognized => (forall|mc: MenuCommand| s != menu_token_text(mc))
            && !is_pick_token(s),
    }
}

/// Decodes a callback token text; every menu action is matched exactly, a
/// pick token is split off its prefix, and anything else is the explicit
/// unrecognized variant.
pub fn parse_callback_token(data: &str) -> (t: CallbackToken)
    ensures
        token_matches(t, data@),
        match t {
            CallbackToken::Menu(mc) => token_of(data@) == TokenV::M(mc),
            CallbackToken::SelectedContact(nm) => token_of(data@) matches TokenV::Pick(x) && nm@
                == x,
            CallbackToken::Unrecognized => token_of(data@) == TokenV::Other,
        },
{
    if str_eq(data, "select_contact") {
        return CallbackToken::Menu(MenuCommand::SelectContact);
    }
    if str_eq(data, "debts") {
        return CallbackToken::Menu(MenuCommand::Debts);
    }
    if str_eq(data, "add_new_contact") {
        return CallbackToken::Menu(MenuCommand::AddNewContact);
    }
    if str_eq(data, "edit_contact") {
        return CallbackToken::Menu(MenuCommand::EditContact);
    }
    if str_eq(data, "delete_contact") {
        return CallbackToken::Menu(MenuCommand::DeleteContact);
    }
    if str_eq(data, "transaction_direction_gave") {
        return CallbackToken::Menu(MenuCommand::TransactionDirectionGave);
    }
    if str_eq(data, "transaction_direction_took") {
        return CallbackToken::Menu(MenuCommand::TransactionDirectionTook);
    }
    if str_eq(data, "transaction_settled_accounts") {
        return CallbackToken::Menu(MenuCommand::TransactionSettledAccounts);
    }
    if str_eq(data, "transaction_history") {
        return CallbackToken::Menu(MenuCommand::TransactionHistory);
    }
    let prefix = "selected_contact_";
    let plen = prefix.unicode_len();
    let dlen = data.unicode_len();
    if dlen >= plen {
        let head = data.substring_char(0, plen);
        if str_eq(head, prefix) {
            let rest = data.substring_char(plen, dlen);
            let nm = String::from_str(rest);
            proof {
                assert(data@.subrange(plen as int, dlen as int) == nm@);
            }
            return CallbackToken::SelectedContact(nm);
        }
    }
    proof {
        assert forall|mc: MenuCommand| data@ != menu_token_text(mc) by {
            match mc {
                MenuCommand::SelectContact => {},
                MenuCommand::Debts => {},
                MenuCommand::AddNewContact => {},
                MenuCommand::EditContact => {},
                MenuCommand::DeleteContact => {},
                MenuCommand::TransactionDirectionGave => {},
                MenuCommand::TransactionDirectionTook => {},
                MenuCommand::TransactionSettledAccounts => {},
                MenuCommand::TransactionHistory => {},
            }
        }
    }
    CallbackToken::Unrecognized
}

/// Encodes a menu action for a button's callback token.
pub fn encode_menu_command(mc: MenuCommand) -> (r: String)
    ensures
        r@ == menu_token_text(mc),
{
    match mc {
        MenuCommand::SelectContact => String::from_str("select_contact"),
        MenuCommand::Debts => String::from_str("debts"),
        MenuCommand::AddNewContact => String::from_str("add_new_contact"),
        MenuCommand::EditContact => String::from_str("edit_contact"),
        MenuCommand::DeleteContact => String::from_str("delete_contact"),
        MenuCommand::TransactionDirectionGave => String::from_str("transaction_direction_gave"),
        MenuCommand::TransactionDirectionTook => String::from_str("transaction_direction_took"),
        MenuCommand::TransactionSettledAccounts => String::from_str(
            "transaction_settled_accounts",
        ),
        MenuCommand::TransactionHistory => String::from_str("transaction_history"),
    }
}

/// Encodes a contact pick for a button's callback token.
pub fn encode_pick_contact(name: &str) -> (r: String)
    ensures
        r@ == select_prefix() + name@,
        is_pick_token(r@),
        r@.subrange(select_prefix().len() as int, r@.len() as int) == name@,
{
    let mut r = String::from_str("selected_contact_");
    r.append(name);
    proof {
        assert(r@.subrange(0, select_prefix().len() as int) =~= select_prefix());
        assert(r@.subrange(select_prefix().len() as int, r@.len() as int) =~= name@);
    }
    r
}

/// A decoded pick round-trips: parsing what `encode_pick_contact` produced
/// yields the same name back.
pub proof fn lemma_pick_token_round_trip(t: CallbackToken, name: String, s: Seq<char>)
    requires
        s == select_prefix() + name@,
        token_matches(t, s),
    ensures
        t matches CallbackToken::SelectedContact(nm) && nm@ == name@,
{
    assert(s.subrange(0, select_prefix().len() as int) =~= select_prefix());
    assert(s.subrange(select_prefix().len() as int, s.len() as int) =~= name@);
    match t {
        CallbackToken::Menu(mc) => {
            reveal_strlit("selected_contact_");
            reveal_strlit("select_contact");
            reveal_strlit("debts");
            reveal_strlit("add_new_contact");
            reveal_strlit("edit_contact");
            reveal_strlit("delete_contact");
            reveal_strlit("transaction_direction_gave");
            reveal_strlit("transaction_direction_took");
            reveal_strlit("transaction_settled_accounts");
            reveal_strlit("transaction_history");
            match mc {
                MenuCommand::SelectContact => {
                    assert(s[9] == select_prefix()[9]);
                },
                MenuCommand::Debts => {
                    assert(s.len() >= 17);
                },
                MenuCommand::AddNewContact => {
                    assert(s[0] == select_prefix()[0]);
                },
                MenuCommand::EditContact => {
                    assert(s[0] == select_prefix()[0]);
                },
                MenuCommand::DeleteContact => {
                    assert(s[0] == select_prefix()[0]);
                },
                MenuCommand::TransactionDirectionGave => {
                    assert(s[0] == select_prefix()[0]);
                },
                MenuCommand::TransactionDirectionTook => {
                    assert(s[0] == select_prefix()[0]);
                },
                MenuCommand::TransactionSettledAccounts => {
                    assert(s[0] == select_prefix()[0]);
                },
                MenuCommand::TransactionHistory => {
                    assert(s[0] == select_prefix()[0]);
                },
            }
        },
        CallbackToken::SelectedContact(_) => {},
        CallbackToken::Unrecognized => {},
    }
}

/// The main menu: two button rows, exactly these five actions.
pub open spec fn is_menu_keyboard(rows: Seq<Vec<Button>>) -> bool {
    &&& rows.len() == 2
    &&& rows[0]@.len() == 2
    &&& rows[1]@.len() == 3
    &&& rows[0]@[0] matches Button::Menu(MenuCommand::SelectContact)
    &&& rows[0]@[1] matches Button::Menu(MenuCommand::Debts)
    &&& rows[1]@[0] matches Button::Menu(MenuCommand::AddNewContact)
    &&& rows[1]@[1] matches Button::Menu(MenuCommand::EditContact)
    &&& rows[1]@[2] matches Button::Menu(MenuCommand::DeleteContact)
}

/// The direction choice: give or take, plus the two named extension points.
pub open spec fn is_direction_keyboard(rows: Seq<Vec<Button>>) -> bool {
    &&& rows.len() == 2
    &&& rows[0]@.len() == 2
    &&& rows[1]@.len() == 2
    &&& rows[0]@[0] matches Button::Menu(MenuCommand::TransactionDirectionGave)
    &&& rows[0]@[1] matches Button::Menu(MenuCommand::TransactionDirectionTook)
    &&& rows[1]@[0] matches Button::Menu(MenuCommand::TransactionHistory)
    &&& rows[1]@[1] matches Button::Menu(MenuCommand::TransactionSettledAccounts)
}

/// Contact-pick rows: the given names in order, three buttons per row, the
/// last row holding the remainder.
pub open spec fn pick_rows_ok(rows: Seq<Vec<Button>>, names: Seq<Seq<char>>) -> bool {
    &&& (forall|i: int| 0 <= i < rows.len() ==> 1 <= (#[trigger] rows[i])@.len() <= 3)
    &&& (forall|i: int| 0 <= i < rows.len() - 1 ==> (#[trigger] rows[i])@.len() == 3)
    &&& (rows.len() == 0 ==> names.len() == 0)
    &&& (rows.len() > 0 ==> names.len() == 3 * (rows.len() - 1) + rows[rows.len() - 1]@.len())
    &&& (forall|i: int, j: int|
        0 <= i < rows.len() && 0 <= j < (#[trigger] rows[i])@.len() ==> ((#[trigger] rows[i]@[j])
            matches Button::PickContact(nm) && nm@ == names[3 * i + j]))
}

/// Builds the main menu keyboard.
pub fn menu_keyboard() -> (rows: Vec<Vec<Button>>)
    ensures
        is_menu_keyboard(rows@),
{
    let mut first: Vec<Button> = Vec::new();
    first.push(Button::Menu(MenuCommand::SelectContact));
    first.push(Button::Menu(MenuCommand::Debts));
    let mut second: Vec<Button> = Vec::new();
    second.push(Button::Menu(MenuCommand::AddNewContact));
    second.push(Button::Menu(MenuCommand::EditContact));
    second.push(Button::Menu(MenuCommand::DeleteContact));
    let mut rows: Vec<Vec<Button>> = Vec::new();
    rows.push(first);
    rows.push(second);
    rows
}

/// Builds the direction-choice keyboard.
pub fn direction_keyboard() -> (rows: Vec<Vec<Button>>)
    ensures
        is_direction_keyboard(rows@),
{
    let mut first: Vec<Button> = Vec::new();
    first.push(Button::Menu(MenuCommand::TransactionDirectionGave));
    first.push(Button::Menu(MenuCommand::TransactionDirectionTook));
    let mut second: Vec<Button> = Vec::new();
    second.push(Button::Menu(MenuCommand::TransactionHistory));
    second.push(Button::Menu(MenuCommand::TransactionSettledAccounts));
    let mut rows: Vec<Vec<Button>> = Vec::new();
    rows.push(first);
    rows.push(second);
    rows
}

/// Groups contact names into pick-button rows of three.
pub fn contact_buttons(names: &Vec<String>) -> (rows: Vec<Vec<Button>>)
    ensures
        pick_rows_ok(rows@, names@.map_values(|s: String| s@)),
{
    let n = names.len();
    let mut rows: Vec<Vec<Button>> = Vec::new();
    let mut line: Vec<Button> = Vec::new();
    let mut i: usize = 0;
    while i < n
        invariant
            i <= n,
            n == names@.len(),
            line@.len() < 3,
            i == 3 * rows@.len() + line@.len(),
            forall|k: int| 0 <= k < rows@.len() ==> (#[trigger] rows@[k])@.len() == 3,
            forall|k: int, j: int|
                0 <= k < rows@.len() && 0 <= j < (#[trigger] rows@[k])@.len() ==> ((
                #[trigger] rows@[k]@[j]) matches Button::PickContact(nm) && nm@ == names@[3 * k
                    + j]@),
            forall|j: int|
                0 <= j < line@.len() ==> ((#[trigger] line@[j]) matches Button::PickContact(nm)
                    && nm@ == names@[3 * rows@.len() + j]@),
        decreases n - i,
    {
        line.push(Button::PickContact(names[i].clone()));
        if line.len() == 3 {
            rows.push(line);
            line = Vec::new();
        }
        i += 1;
    }
    if line.len() > 0 {
        rows.push(line);
    }
    rows
}

/// Nothing in the store changed.
pub open spec fn same_store(a: Store, b: Store) -> bool {
    &&& b.users@ == a.users@
    &&& b.contacts@ == a.contacts@
    &&& b.transactions@ == a.transactions@
}

/// Exactly one user row may have changed; contacts and ledger untouched.
pub open spec fn only_user_changed(a: Store, b: Store, i: int) -> bool {
    &&& b.users@.len() == a.users@.len()
    &&& (forall|j: int| 0 <= j < a.users@.len() && j != i ==> a.users@[j] == (#[trigger] b.users@[j]))
    &&& b.contacts@ == a.contacts@
    &&& b.transactions@ == a.transactions@
}

/// The row's identity fields are untouched.
pub open spec fn same_user_core(a: User, b: User) -> bool {
    &&& b.id == a.id
    &&& b.telegram_id == a.telegram_id
    &&& b.telegram_username == a.telegram_username
}

/// The contact row's identity fields are untouched.
pub open spec fn same_contact_core(a: Contact, b: Contact) -> bool {
    &&& b.id == a.id
    &&& b.user_id == a.user_id
    &&& b.contact_id == a.contact_id
}

/// A reply with no buttons that does not edit in place.
pub open spec fn is_plain(r: Reply) -> bool {
    r.buttons@.len() == 0 && !r.edit_in_place
}

/// A button-less reply that edits the previous message in place.
pub open spec fn is_plain_edit(r: Reply) -> bool {
    r.buttons@.len() == 0 && r.edit_in_place
}

fn reply_plain(m: Msg) -> (r: Reply)
    ensures
        r.message == m,
        is_plain(r),
{
    Reply { message: m, buttons: Vec::new(), edit_in_place: false }
}

fn reply_edit(m: Msg) -> (r: Reply)
    ensures
        r.message == m,
        is_plain_edit(r),
{
    Reply { message: m, buttons: Vec::new(), edit_in_place: true }
}

fn reply_with(m: Msg, rows: Vec<Vec<Button>>, edit: bool) -> (r: Reply)
    ensures
        r.message == m,
        r.buttons@ == rows@,
        r.edit_in_place == edit,
{
    Reply { message: m, buttons: rows, edit_in_place: edit }
}

impl Store {
    /// Handles a contact pick arriving as a button callback: remembers the
    /// picked counterparty and advances the dialog according to the pending
    /// status. An unknown sender, an unknown name, or a status that expects
    /// no pick changes nothing.
    pub fn handle_callback_for_selected_user(&mut self, telegram_id: i64, contact_name: &str) -> (
        r: Reply)
        requires
            store_inv(old(self)),
        ensures
            store_inv(final(self)),
            final(self).contacts@ == old(self).contacts@,
            final(self).transactions@ == old(self).transactions@,
            old(self).transactions@.is_prefix_of(final(self).transactions@),
            ({
                let st = *old(self);
                let fi = *final(self);
                match user_by_tid(st.users@, telegram_id) {
                    None => same_store(st, fi) && (r.message matches Msg::UnknownUser) && is_plain_edit(r),
                    Some(i) => {
                        let u = st.users@[i];
                        match contact_by_name(st.contacts@, u.id, contact_name@) {
                            None => same_store(st, fi) && (r.message matches Msg::ContactNotFound)
                                && is_plain_edit(r),
                            Some(ci) => {
                                let t = st.contacts@[ci].contact_id;
                                if u.status == InputtingStatus::EditContactInternalName {
                                    &&& only_user_changed(st, fi, i)
                                    &&& same_user_core(u, fi.users@[i])
                                    &&& fi.users@[i].status == u.status
                                    &&& fi.users@[i].selected_contact_id == Some(t)
                                    &&& fi.users@[i].selected_transaction_duration
                                        == u.selected_transaction_duration
                                    &&& (r.message matches Msg::AskContactName)
                                    &&& is_plain_edit(r)
                                } else if u.status == InputtingStatus::SelectContactForTransaction {
                                    &&& only_user_changed(st, fi, i)
                                    &&& same_user_core(u, fi.users@[i])
                                    &&& fi.users@[i].status
                                        == InputtingStatus::SelectDirectionForTransaction
                                    &&& fi.users@[i].selected_contact_id == Some(t)
                                    &&& fi.users@[i].selected_transaction_duration
                                        == u.selected_transaction_duration
                                    &&& (r.message matches Msg::ChooseDirection)
                                    &&& is_direction_keyboard(r.buttons@)
                                    &&& r.edit_in_place
                                } else {
                                    &&& same_store(st, fi)
                                    &&& (r.message matches Msg::Unhandled(d) && d@
                                        == contact_name@)
                                    &&& r.edit_in_place
                                }
                            },
                        }
                    },
                }
            }),
    {
        let user = match self.get_user_by_telegram_id(telegram_id) {
            Ok(u) => u,
            Err(_) => {
                return reply_edit(Msg::UnknownUser);
            },
        };
        let target = match self.find_user_by_contact_name(user.id, contact_name) {
            Ok(t) => t,
            Err(_) => {
                return reply_edit(Msg::ContactNotFound);
            },
        };
        match user.status {
            InputtingStatus::EditContactInternalName => {
                match self.set_selected_contact(user.id, target.id) {
                    Ok(_) => reply_edit(Msg::AskContactName),
                    Err(_) => unreached(),
                }
            },
            InputtingStatus::SelectContactForTransaction => {
                match self.set_selected_contact(user.id, target.id) {
                    Ok(_) => {},
                    Err(_) => {
                        return unreached();
                    },
                }
                match self.set_user_status(user.id, InputtingStatus::SelectDirectionForTransaction)
                    {
                    Ok(_) => {},
                    Err(_) => {
                        return unreached();
                    },
                }
                proof {
                    assert(final(self).users@ =~= old(self).users@.update(
                        user.id as int,
                        final(self).users@[user.id as int],
                    ));
                }
                reply_with(Msg::ChooseDirection, direction_keyboard(), true)
            },
            _ => reply_edit(Msg::Unhandled(String::from_str(contact_name))),
        }
    }
}

impl Store {
    /// Interprets one free-text message according to the sender's pending
    /// inputting status — the state machine's text transitions.
    ///
    /// From `Idle` text is a no-op with a menu hint. Awaiting a handle, a
    /// resolvable handle creates (or finds) the contact, selects it and
    /// advances to awaiting its name; an unknown handle reports and stays
    /// put. Awaiting a name (new or edit), the text renames the selected
    /// contact and rests. Awaiting an amount, a well-formed positive decimal
    /// is recorded in the direction picked earlier — the owner sends under
    /// `Gave`, the contact sends under `Took` — the consumed selections are
    /// cleared and the dialog rests; a malformed amount reports and stays
    /// put. A missing selection anywhere resets to rest: it never crashes
    /// and never leaves a dangling selection behind.
    pub fn handle_message(&mut self, telegram_id: i64, msg_text: &str) -> (r: Reply)
        requires
            store_inv(old(self)),
            old(self).contacts@.len() < 0x7fff_ffff,
            old(self).transactions@.len() < 0x7fff_ffff,
        ensures
            store_inv(final(self)),
            old(self).transactions@.is_prefix_of(final(self).transactions@),
            ({
                let st = *old(self);
                let fi = *final(self);
                match user_by_tid(st.users@, telegram_id) {
                    None => same_store(st, fi) && (r.message matches Msg::UnknownUser) && is_plain(
                        r,
                    ),
                    Some(i) => {
                        let u = st.users@[i];
                        match u.status {
                            InputtingStatus::Idle => same_store(st, fi) && (r.message
                                matches Msg::MenuHint) && is_plain(r),
                            InputtingStatus::NewContactTelegramUsername => {
                                let h = strip_at_pre(msg_text@, msg_text@.len() as int);
                                match user_by_handle(st.users@, h) {
                                    None => same_store(st, fi) && (r.message
                                        matches Msg::ContactNotFound) && is_plain(r),
                                    Some(t) => {
                                        &&& fi.transactions@ == st.transactions@
                                        &&& fi.contacts@ == foc_contacts(
                                            st.contacts@,
                                            u.id,
                                            st.users@[t].id,
                                        ).0
                                        &&& fi.users@.len() == st.users@.len()
                                        &&& (forall|j: int|
                                            0 <= j < st.users@.len() && j != i ==> st.users@[j] == (
                                            #[trigger] fi.users@[j]))
                                        &&& same_user_core(u, fi.users@[i])
                                        &&& fi.users@[i].status
                                            == InputtingStatus::NewContactInternalName
                                        &&& fi.users@[i].selected_contact_id == Some(
                                            st.users@[t].id,
                                        )
                                        &&& fi.users@[i].selected_transaction_duration
                                            == u.selected_transaction_duration
                                        &&& (r.message matches Msg::AskContactName)
                                        &&& is_plain(r)
                                    },
                                }
                            },
                            InputtingStatus::NewContactInternalName
                                | InputtingStatus::EditContactInternalName => {
                                match u.selected_contact_id {
                                    None => {
                                        &&& only_user_changed(st, fi, i)
                                        &&& same_user_core(u, fi.users@[i])
                                        &&& fi.users@[i].status == InputtingStatus::Idle
                                        &&& (r.message matches Msg::MissingSelection)
                                        &&& is_plain(r)
                                    },
                                    Some(c) => {
                                        match contact_by_pair(st.contacts@, u.id, c) {
                                            Some(ci) => {
                                                &&& fi.transactions@ == st.transactions@
                                                &&& fi.contacts@.len() == st.contacts@.len()
                                                &&& (forall|j: int|
                                                    0 <= j < st.contacts@.len() && j != ci
                                                        ==> st.contacts@[j] == (
                                                    #[trigger] fi.contacts@[j]))
                                                &&& same_contact_core(
                                                    st.contacts@[ci],
                                                    fi.contacts@[ci],
                                                )
                                                &&& (fi.contacts@[ci].name matches Some(nm) && nm@
                                                    == msg_text@)
                                                &&& fi.users@.len() == st.users@.len()
                                                &&& (forall|j: int|
                                                    0 <= j < st.users@.len() && j != i
                                                        ==> st.users@[j] == (
                                                    #[trigger] fi.users@[j]))
                                                &&& same_user_core(u, fi.users@[i])
                                                &&& fi.users@[i].status == InputtingStatus::Idle
                                                &&& fi.users@[i].selected_contact_id
                                                    == u.selected_contact_id
                                                &&& fi.users@[i].selected_transaction_duration
                                                    == u.selected_transaction_duration
                                                &&& (r.message matches Msg::Saved)
                                                &&& is_menu_keyboard(r.buttons@)
                                                &&& !r.edit_in_place
                                            },
                                            None => {
                                                &&& only_user_changed(st, fi, i)
                                                &&& same_user_core(u, fi.users@[i])
                                                &&& fi.users@[i].status == InputtingStatus::Idle
                                                &&& (r.message matches Msg::ContactNotFound)
                                                &&& is_plain(r)
                                            },
                                        }
                                    },
                                }
                            },
                            InputtingStatus::DeleteContact => same_store(st, fi) && (r.message
                                matches Msg::NotImplemented) && is_plain(r),
                            InputtingStatus::SelectContactForTransaction => same_store(st, fi) && (
                            r.message matches Msg::ChooseContact) && is_plain(r),
                            InputtingStatus::SelectDirectionForTransaction => same_store(st, fi)
                                && (r.message matches Msg::ChooseDirection) && is_plain(r),
                            InputtingStatus::TransactionAmount => {
                                match (u.selected_contact_id, u.selected_transaction_duration) {
                                    (Some(c), Some(d)) => {
                                        if valid_amount_text(msg_text@) {
                                            let from = if d == Direction::Gave {
                                                u.id
                                            } else {
                                                c
                                            };
                                            let to = if d == Direction::Gave {
                                                c
                                            } else {
                                                u.id
                                            };
                                            &&& fi.contacts@ == st.contacts@
                                            &&& fi.transactions@.len() == st.transactions@.len()
                                                + 1
                                            &&& fi.transactions@.last().from_user_id == from
                                            &&& fi.transactions@.last().to_user_id == to
                                            &&& fi.transactions@.last().amount@ == amount_of_text(
                                                msg_text@,
                                            )
                                            &&& fi.users@.len() == st.users@.len()
                                            &&& (forall|j: int|
                                                0 <= j < st.users@.len() && j != i
                                                    ==> st.users@[j] == (#[trigger] fi.users@[j]))
                                            &&& same_user_core(u, fi.users@[i])
                                            &&& fi.users@[i].status == InputtingStatus::Idle
                                            &&& fi.users@[i].selected_contact_id == None::<i32>
                                            &&& fi.users@[i].selected_transaction_duration
                                                == None::<Direction>
                                            &&& (r.message matches Msg::AmountSaved)
                                            &&& is_menu_keyboard(r.buttons@)
                                            &&& !r.edit_in_place
                                        } else {
                                            &&& same_store(st, fi)
                                            &&& (r.message matches Msg::AmountParseError)
                                            &&& is_plain(r)
                                        }
                                    },
                                    _ => {
                                        &&& only_user_changed(st, fi, i)
                                        &&& same_user_core(u, fi.users@[i])
                                        &&& fi.users@[i].status == InputtingStatus::Idle
                                        &&& fi.users@[i].selected_contact_id == None::<i32>
                                        &&& fi.users@[i].selected_transaction_duration == None::<
                                            Direction,
                                        >
                                        &&& (r.message matches Msg::MissingSelection)
                                        &&& is_plain(r)
                                    },
                                }
                            },
                        }
                    },
                }
            }),
    {
        let user = match self.get_user_by_telegram_id(telegram_id) {
            Ok(u) => u,
            Err(_) => {
                return reply_plain(Msg::UnknownUser);
            },
        };
        match user.status {
            InputtingStatus::Idle => reply_plain(Msg::MenuHint),
            InputtingStatus::NewContactTelegramUsername => {
                let username = strip_at(msg_text);
                match self.get_user_by_username(username.as_str()) {
                    Ok(contact_user) => {
                        match self.find_or_create_contact(user.id, contact_user.id) {
                            Ok(_) => {},
                            Err(_) => {
                                return unreached();
                            },
                        }
                        match self.set_selected_contact(user.id, contact_user.id) {
                            Ok(_) => {},
                            Err(_) => {
                                return unreached();
                            },
                        }
                        match self.set_user_status(
                            user.id,
                            InputtingStatus::NewContactInternalName,
                        ) {
                            Ok(_) => {},
                            Err(_) => {
                                return unreached();
                            },
                        }
                        reply_plain(Msg::AskContactName)
                    },
                    Err(_) => reply_plain(Msg::ContactNotFound),
                }
            },
            InputtingStatus::NewContactInternalName | InputtingStatus::EditContactInternalName => {
                match self.get_selected_contact(user.id) {
                    Ok(contact_user) => {
                        match self.edit_contact(user.id, contact_user.id, msg_text) {
                            Ok(_) => {
                                match self.set_user_status(user.id, InputtingStatus::Idle) {
                                    Ok(_) => {},
                                    Err(_) => {
                                        return unreached();
                                    },
                                }
                                reply_with(Msg::Saved, menu_keyboard(), false)
                            },
                            Err(_) => {
                                match self.set_user_status(user.id, InputtingStatus::Idle) {
                                    Ok(_) => {},
                                    Err(_) => {
                                        return unreached();
                                    },
                                }
                                reply_plain(Msg::ContactNotFound)
                            },
                        }
                    },
                    Err(_) => {
                        match self.set_user_status(user.id, InputtingStatus::Idle) {
                            Ok(_) => {},
                            Err(_) => {
                                return unreached();
                            },
                        }
                        reply_plain(Msg::MissingSelection)
                    },
                }
            },
            InputtingStatus::DeleteContact => reply_plain(Msg::NotImplemented),
            InputtingStatus::SelectContactForTransaction => reply_plain(Msg::ChooseContact),
            InputtingStatus::SelectDirectionForTransaction => reply_plain(Msg::ChooseDirection),
            InputtingStatus::TransactionAmount => {
                match self.get_selected_contact(user.id) {
                    Err(_) => {
                        match self.clear_transaction_selection(user.id) {
                            Ok(_) => {},
                            Err(_) => {
                                return unreached();
                            },
                        }
                        match self.set_user_status(user.id, InputtingStatus::Idle) {
                            Ok(_) => {},
                            Err(_) => {
                                return unreached();
                            },
                        }
                        reply_plain(Msg::MissingSelection)
                    },
                    Ok(contact_user) => {
                        match user.selected_transaction_duration {
                            None => {
                                match self.clear_transaction_selection(user.id) {
                                    Ok(_) => {},
                                    Err(_) => {
                                        return unreached();
                                    },
                                }
                                match self.set_user_status(user.id, InputtingStatus::Idle) {
                                    Ok(_) => {},
                                    Err(_) => {
                                        return unreached();
                                    },
                                }
                                reply_plain(Msg::MissingSelection)
                            },
                            Some(d) => {
                                let from_id = match d {
                                    Direction::Gave => user.id,
                                    Direction::Took => contact_user.id,
                                };
                                let to_id = match d {
                                    Direction::Gave => contact_user.id,
                                    Direction::Took => user.id,
                                };
                                match self.create_transaction(from_id, to_id, msg_text) {
                                    Ok(_) => {
                                        match self.clear_transaction_selection(user.id) {
                                            Ok(_) => {},
                                            Err(_) => {
                                                return unreached();
                                            },
                                        }
                                        match self.set_user_status(user.id, InputtingStatus::Idle)
                                            {
                                            Ok(_) => {},
                                            Err(_) => {
                                                return unreached();
                                            },
                                        }
                                        reply_with(Msg::AmountSaved, menu_keyboard(), false)
                                    },
                                    Err(_) => reply_plain(Msg::AmountParseError),
                                }
                            },
                        }
                    },
                }
            },
        }
    }
}

/// The registry and dialog state after a command that upserts the sender and
/// rests: an existing row keeps its identity and selections but takes the
/// fresh handle and the resting status; an unseen sender gets a fresh
/// resting row.
pub open spec fn upserted_resting(st: Store, fi: Store, tid: i64, handle: Seq<char>) -> bool {
    match user_by_tid(st.users@, tid) {
        Some(i) => {
            &&& fi.users@.len() == st.users@.len()
            &&& (forall|j: int|
                0 <= j < st.users@.len() && j != i ==> st.users@[j] == (#[trigger] fi.users@[j]))
            &&& fi.users@[i].id == st.users@[i].id
            &&& fi.users@[i].telegram_id == st.users@[i].telegram_id
            &&& fi.users@[i].telegram_username@ == handle
            &&& fi.users@[i].status == InputtingStatus::Idle
            &&& fi.users@[i].selected_contact_id == st.users@[i].selected_contact_id
            &&& fi.users@[i].selected_transaction_duration == st.users@[i].selected_transaction_duration
        },
        None => {
            &&& fi.users@.len() == st.users@.len() + 1
            &&& (forall|j: int|
                0 <= j < st.users@.len() ==> st.users@[j] == (#[trigger] fi.users@[j]))
            &&& fi.users@.last().id == st.users@.len()
            &&& fi.users@.last().telegram_id == tid
            &&& fi.users@.last().telegram_username@ == handle
            &&& fi.users@.last().status == InputtingStatus::Idle
            &&& fi.users@.last().selected_contact_id == None::<i32>
            &&& fi.users@.last().selected_transaction_duration == None::<Direction>
        },
    }
}

impl Store {
    /// Handles one slash command. `Start` and `Debts` register or refresh
    /// the sender first; every command that shows the menu also rests the
    /// dialog, which is how a pending step is cancelled.
    pub fn handle_command(&mut self, telegram_id: i64, username: &str, cmd: Command) -> (r: Reply)
        requires
            store_inv(old(self)),
            (cmd == Command::Start || cmd == Command::Debts) ==> old(self).users@.len()
                < 0x7fff_ffff,
        ensures
            store_inv(final(self)),
            final(self).contacts@ == old(self).contacts@,
            final(self).transactions@ == old(self).transactions@,
            old(self).transactions@.is_prefix_of(final(self).transactions@),
            ({
                let st = *old(self);
                let fi = *final(self);
                match cmd {
                    Command::Start => upserted_resting(st, fi, telegram_id, username@) && (
                    r.message matches Msg::ChooseAction) && is_menu_keyboard(r.buttons@)
                        && !r.edit_in_place,
                    Command::Menu => match user_by_tid(st.users@, telegram_id) {
                        None => same_store(st, fi) && (r.message matches Msg::UnknownUser)
                            && is_plain(r),
                        Some(i) => {
                            &&& only_user_changed(st, fi, i)
                            &&& same_user_core(st.users@[i], fi.users@[i])
                            &&& fi.users@[i].status == InputtingStatus::Idle
                            &&& fi.users@[i].selected_contact_id
                                == st.users@[i].selected_contact_id
                            &&& fi.users@[i].selected_transaction_duration
                                == st.users@[i].selected_transaction_duration
                            &&& (r.message matches Msg::ChooseAction)
                            &&& is_menu_keyboard(r.buttons@)
                            &&& !r.edit_in_place
                        },
                    },
                    Command::Debts => {
                        let owner = match user_by_tid(st.users@, telegram_id) {
                            Some(i) => st.users@[i].id,
                            None => st.users@.len() as i32,
                        };
                        &&& upserted_resting(st, fi, telegram_id, username@)
                        &&& (r.message matches Msg::Summary(v) && summary_matches(
                            v@,
                            summary_for(
                                fi.transactions@,
                                fi.contacts@,
                                fi.users@,
                                owner,
                                fi.transactions@.len() as int,
                            ),
                        ))
                        &&& is_menu_keyboard(r.buttons@)
                        &&& !r.edit_in_place
                    },
                    Command::Contacts => match user_by_tid(st.users@, telegram_id) {
                        None => same_store(st, fi) && (r.message matches Msg::UnknownUser)
                            && is_plain(r),
                        Some(i) => same_store(st, fi) && (r.message matches Msg::ContactList(v)
                            && names_match(
                            v@,
                            names_for(
                                st.contacts@,
                                st.users@,
                                st.users@[i].id,
                                st.contacts@.len() as int,
                            ),
                        )) && is_plain(r),
                    },
                }
            }),
    {
        match cmd {
            Command::Start => {
                proof {
                    lemma_find_first(old(self).users@, tid_pred(telegram_id));
                }
                let u = self.find_or_create_user(telegram_id, username);
                match self.set_user_status(u.id, InputtingStatus::Idle) {
                    Ok(_) => {},
                    Err(_) => {
                        return unreached();
                    },
                }
                reply_with(Msg::ChooseAction, menu_keyboard(), false)
            },
            Command::Menu => {
                let u = match self.get_user_by_telegram_id(telegram_id) {
                    Ok(u) => u,
                    Err(_) => {
                        return reply_plain(Msg::UnknownUser);
                    },
                };
                match self.set_user_status(u.id, InputtingStatus::Idle) {
                    Ok(_) => {},
                    Err(_) => {
                        return unreached();
                    },
                }
                reply_with(Msg::ChooseAction, menu_keyboard(), false)
            },
            Command::Debts => {
                proof {
                    lemma_find_first(old(self).users@, tid_pred(telegram_id));
                }
                let u = self.find_or_create_user(telegram_id, username);
                match self.set_user_status(u.id, InputtingStatus::Idle) {
                    Ok(_) => {},
                    Err(_) => {
                        return unreached();
                    },
                }
                let summary = self.get_debit(u.id);
                reply_with(Msg::Summary(summary), menu_keyboard(), false)
            },
            Command::Contacts => {
                let u = match self.get_user_by_telegram_id(telegram_id) {
                    Ok(u) => u,
                    Err(_) => {
                        return reply_plain(Msg::UnknownUser);
                    },
                };
                let names = self.get_contacts_names(u.id);
                reply_plain(Msg::ContactList(names))
            },
        }
    }

    /// Handles one button callback. The token is decoded once; menu actions
    /// arm the matching dialog status, a direction pick is honoured only in
    /// the status that awaits it, a contact pick is delegated, and an
    /// unrecognized token is echoed back untouched.
    pub fn handle_callback(&mut self, telegram_id: i64, data: &str) -> (r: Reply)
        requires
            store_inv(old(self)),
        ensures
            store_inv(final(self)),
            final(self).contacts@ == old(self).contacts@,
            final(self).transactions@ == old(self).transactions@,
            old(self).transactions@.is_prefix_of(final(self).transactions@),
            ({
                let st = *old(self);
                let fi = *final(self);
                let s = data@;
                match user_by_tid(st.users@, telegram_id) {
                    None => same_store(st, fi) && (r.message matches Msg::UnknownUser)
                        && is_plain_edit(r),
                    Some(i) => {
                        let u = st.users@[i];
                        match token_of(s) {
                            TokenV::M(mc) => match mc {
                                MenuCommand::AddNewContact => {
                                    &&& only_user_changed(st, fi, i)
                                    &&& same_user_core(u, fi.users@[i])
                                    &&& fi.users@[i].status
                                        == InputtingStatus::NewContactTelegramUsername
                                    &&& fi.users@[i].selected_contact_id == u.selected_contact_id
                                    &&& fi.users@[i].selected_transaction_duration
                                        == u.selected_transaction_duration
                                    &&& (r.message matches Msg::AskContactHandle)
                                    &&& is_plain_edit(r)
                                },
                                MenuCommand::SelectContact => {
                                    &&& only_user_changed(st, fi, i)
                                    &&& same_user_core(u, fi.users@[i])
                                    &&& fi.users@[i].status
                                        == InputtingStatus::SelectContactForTransaction
                                    &&& fi.users@[i].selected_contact_id == u.selected_contact_id
                                    &&& fi.users@[i].selected_transaction_duration
                                        == u.selected_transaction_duration
                                    &&& (r.message matches Msg::ChooseContact)
                                    &&& pick_rows_ok(
                                        r.buttons@,
                                        names_for(
                                            st.contacts@,
                                            st.users@,
                                            u.id,
                                            st.contacts@.len() as int,
                                        ),
                                    )
                                    &&& r.edit_in_place
                                },
                                MenuCommand::EditContact => {
                                    &&& only_user_changed(st, fi, i)
                                    &&& same_user_core(u, fi.users@[i])
                                    &&& fi.users@[i].status
                                        == InputtingStatus::EditContactInternalName
                                    &&& fi.users@[i].selected_contact_id == u.selected_contact_id
                                    &&& fi.users@[i].selected_transaction_duration
                                        == u.selected_transaction_duration
                                    &&& (r.message matches Msg::ChooseContact)
                                    &&& pick_rows_ok(
                                        r.buttons@,
                                        names_for(
                                            st.contacts@,
                                            st.users@,
                                            u.id,
                                            st.contacts@.len() as int,
                                        ),
                                    )
                                    &&& r.edit_in_place
                                },
                                MenuCommand::DeleteContact => same_store(st, fi) && (r.message
                                    matches Msg::NotImplemented) && is_plain(r),
                                MenuCommand::TransactionDirectionGave => {
                                    if u.status == InputtingStatus::SelectDirectionForTransaction {
                                        &&& only_user_changed(st, fi, i)
                                        &&& same_user_core(u, fi.users@[i])
                                        &&& fi.users@[i].status == InputtingStatus::TransactionAmount
                                        &&& fi.users@[i].selected_contact_id
                                            == u.selected_contact_id
                                        &&& fi.users@[i].selected_transaction_duration == Some(
                                            Direction::Gave,
                                        )
                                        &&& (r.message matches Msg::AskAmount)
                                        &&& is_plain_edit(r)
                                    } else {
                                        &&& same_store(st, fi)
                                        &&& (r.message matches Msg::Unhandled(d) && d@ == s)
                                        &&& r.edit_in_place
                                    }
                                },
                                MenuCommand::TransactionDirectionTook => {
                                    if u.status == InputtingStatus::SelectDirectionForTransaction {
                                        &&& only_user_changed(st, fi, i)
                                        &&& same_user_core(u, fi.users@[i])
                                        &&& fi.users@[i].status == InputtingStatus::TransactionAmount
                                        &&& fi.users@[i].selected_contact_id
                                            == u.selected_contact_id
                                        &&& fi.users@[i].selected_transaction_duration == Some(
                                            Direction::Took,
                                        )
                                        &&& (r.message matches Msg::AskAmount)
                                        &&& is_plain_edit(r)
                                    } else {
                                        &&& same_store(st, fi)
                                        &&& (r.message matches Msg::Unhandled(d) && d@ == s)
                                        &&& r.edit_in_place
                                    }
                                },
                                MenuCommand::Debts => {
                                    &&& same_store(st, fi)
                                    &&& (r.message matches Msg::Summary(v) && summary_matches(
                                        v@,
                                        summary_for(
                                            st.transactions@,
                                            st.contacts@,
                                            st.users@,
                                            u.id,
                                            st.transactions@.len() as int,
                                        ),
                                    ))
                                    &&& r.buttons@.len() == 0
                                    &&& r.edit_in_place
                                },
                                MenuCommand::TransactionSettledAccounts => same_store(st, fi) && (
                                r.message matches Msg::NotImplemented) && is_plain_edit(r),
                                MenuCommand::TransactionHistory => same_store(st, fi) && (r.message
                                    matches Msg::NotImplemented) && is_plain_edit(r),
                            },
                            TokenV::Pick(nm) => {
                                match contact_by_name(st.contacts@, u.id, nm) {
                                    None => same_store(st, fi) && (r.message
                                        matches Msg::ContactNotFound) && is_plain_edit(r),
                                    Some(ci) => {
                                        let t = st.contacts@[ci].contact_id;
                                        if u.status == InputtingStatus::EditContactInternalName {
                                            &&& only_user_changed(st, fi, i)
                                            &&& same_user_core(u, fi.users@[i])
                                            &&& fi.users@[i].status == u.status
                                            &&& fi.users@[i].selected_contact_id == Some(t)
                                            &&& fi.users@[i].selected_transaction_duration
                                                == u.selected_transaction_duration
                                            &&& (r.message matches Msg::AskContactName)
                                            &&& is_plain_edit(r)
                                        } else if u.status
                                            == InputtingStatus::SelectContactForTransaction {
                                            &&& only_user_changed(st, fi, i)
                                            &&& same_user_core(u, fi.users@[i])
                                            &&& fi.users@[i].status
                                                == InputtingStatus::SelectDirectionForTransaction
                                            &&& fi.users@[i].selected_contact_id == Some(t)
                                            &&& fi.users@[i].selected_transaction_duration
                                                == u.selected_transaction_duration
                                            &&& (r.message matches Msg::ChooseDirection)
                                            &&& is_direction_keyboard(r.buttons@)
                                            &&& r.edit_in_place
                                        } else {
                                            &&& same_store(st, fi)
                                            &&& (r.message matches Msg::Unhandled(d) && d@ == nm)
                                            &&& r.edit_in_place
                                        }
                                    },
                                }
                            },
                            TokenV::Other => same_store(st, fi) && (r.message
                                matches Msg::Unhandled(d) && d@ == s) && r.edit_in_place,
                        }
                    },
                }
            }),
    {
        let user = match self.get_user_by_telegram_id(telegram_id) {
            Ok(u) => u,
            Err(_) => {
                return reply_edit(Msg::UnknownUser);
            },
        };
        match parse_callback_token(data) {
            CallbackToken::Menu(mc) => match mc {
                MenuCommand::AddNewContact => {
                    match self.set_user_status(user.id, InputtingStatus::NewContactTelegramUsername)
                        {
                        Ok(_) => {},
                        Err(_) => {
                            return unreached();
                        },
                    }
                    reply_edit(Msg::AskContactHandle)
                },
                MenuCommand::SelectContact => {
                    let names = self.get_contacts_names(user.id);
                    let rows = contact_buttons(&names);
                    match self.set_user_status(
                        user.id,
                        InputtingStatus::SelectContactForTransaction,
                    ) {
                        Ok(_) => {},
                        Err(_) => {
                            return unreached();
                        },
                    }
                    proof {
                        assert(names@.map_values(|x: String| x@) =~= names_for(
                            old(self).contacts@,
                            old(self).users@,
                            user.id,
                            old(self).contacts@.len() as int,
                        ));
                    }
                    reply_with(Msg::ChooseContact, rows, true)
                },
                MenuCommand::EditContact => {
                    let names = self.get_contacts_names(user.id);
                    let rows = contact_buttons(&names);
                    match self.set_user_status(user.id, InputtingStatus::EditContactInternalName) {
                        Ok(_) => {},
                        Err(_) => {
                            return unreached();
                        },
                    }
                    proof {
                        assert(names@.map_values(|x: String| x@) =~= names_for(
                            old(self).contacts@,
                            old(self).users@,
                            user.id,
                            old(self).contacts@.len() as int,
                        ));
                    }
                    reply_with(Msg::ChooseContact, rows, true)
                },
                MenuCommand::DeleteContact => reply_plain(Msg::NotImplemented),
                MenuCommand::TransactionDirectionGave => {
                    self.arm_amount_entry(user.id, user.status, Direction::Gave, data)
                },
                MenuCommand::TransactionDirectionTook => {
                    self.arm_amount_entry(user.id, user.status, Direction::Took, data)
                },
                MenuCommand::Debts => {
                    let summary = self.get_debit(user.id);
                    reply_edit(Msg::Summary(summary))
                },
                MenuCommand::TransactionSettledAccounts => reply_edit(Msg::NotImplemented),
                MenuCommand::TransactionHistory => reply_edit(Msg::NotImplemented),
            },
            CallbackToken::SelectedContact(nm) => {
                self.handle_callback_for_selected_user(telegram_id, nm.as_str())
            },
            CallbackToken::Unrecognized => reply_edit(Msg::Unhandled(String::from_str(data))),
        }
    }

    /// Records the picked direction and advances to awaiting the amount, but
    /// only from the status that awaits a direction; anywhere else the pick
    /// is reported as unhandled and nothing changes.
    fn arm_amount_entry(
        &mut self,
        user_id: i32,
        status: InputtingStatus,
        direction: Direction,
        data: &str,
    ) -> (r: Reply)
        requires
            store_inv(old(self)),
            0 <= user_id < old(self).users@.len(),
            old(self).users@[user_id as int].status == status,
        ensures
            store_inv(final(self)),
            final(self).contacts@ == old(self).contacts@,
            final(self).transactions@ == old(self).transactions@,
            old(self).transactions@.is_prefix_of(final(self).transactions@),
            ({
                let st = *old(self);
                let fi = *final(self);
                let u = st.users@[user_id as int];
                if status == InputtingStatus::SelectDirectionForTransaction {
                    &&& only_user_changed(st, fi, user_id as int)
                    &&& same_user_core(u, fi.users@[user_id as int])
                    &&& fi.users@[user_id as int].status == InputtingStatus::TransactionAmount
                    &&& fi.users@[user_id as int].selected_contact_id == u.selected_contact_id
                    &&& fi.users@[user_id as int].selected_transaction_duration == Some(direction)
                    &&& (r.message matches Msg::AskAmount)
                    &&& is_plain_edit(r)
                } else {
                    &&& same_store(st, fi)
                    &&& (r.message matches Msg::Unhandled(d) && d@ == data@)
                    &&& r.edit_in_place
                }
            }),
    {
        match status {
            InputtingStatus::SelectDirectionForTransaction => {
                match self.set_selected_transaction_duration(user_id, direction) {
                    Ok(_) => {},
                    Err(_) => {
                        return unreached();
                    },
                }
                match self.set_user_status(user_id, InputtingStatus::TransactionAmount) {
                    Ok(_) => {},
                    Err(_) => {
                        return unreached();
                    },
                }
                reply_edit(Msg::AskAmount)
            },
            _ => reply_edit(Msg::Unhandled(String::from_str(data))),
        }
    }
}

/// The handle text with every at-sign removed, so a contact may be given
/// with or without the customary prefix.
pub open spec fn strip_at_pre(s: Seq<char>, n: int) -> Seq<char>
    decreases n,
{
    if n <= 0 {
        Seq::empty()
    } else if s[n - 1] == '@' {
        strip_at_pre(s, n - 1)
    } else {
        strip_at_pre(s, n - 1).push(s[n - 1])
    }
}

/// Removes every at-sign from a handle text.
pub fn strip_at(s: &str) -> (r: String)
    ensures
        r@ == strip_at_pre(s@, s@.len() as int),
{
    let n = s.unicode_len();
    let mut r = String::new();
    let mut i: usize = 0;
    while i < n
        invariant
            i <= n,
            n == s@.len(),
            r@ == strip_at_pre(s@, i as int),
        decreases n - i,
    {
        let c = s.get_char(i);
        if (c as u32) != 64 {
            let piece = s.substring_char(i, i + 1);
            r.append(piece);
            proof {
                assert(s@.subrange(i as int, i as int + 1) =~= seq![s@[i as int]]);
                assert(r@ =~= strip_at_pre(s@, i as int + 1));
            }
        } else {
            proof {
                assert(c == '@');
            }
        }
        i += 1;
    }
    r
}

} // verus!
