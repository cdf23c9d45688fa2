//! The update router: for each inbound update, what the bot sends and how the
//! stores change.

use crate::chats::{
    chats_of, is_member, lists, records_view, with_member, ChatInfo, ChatInfoView, Chats,
};
use crate::entities::{
    keyboard_view, opt_chars, opt_str_chars, CallbackData, CallbackQuery, ChatType,
    InlineKeyboardButton, InlineKeyboardButtonView, InlineKeyboardMarkup, Message,
    SendAnimationPayload, SendAnimationPayloadView, SendMessagePayload, SendMessagePayloadView,
    SendPhotoPayload, SendPhotoPayloadView, UpdateMessage, User,
};
use crate::headers::{ApiSecretToken, StatusCode};
use crate::state::{AppState, RelayTargets};
use vstd::prelude::*;
use vstd::string::{StrSliceExecFns, StringExecFns};

verus! {

/// The prefix of a text that makes it the join command.
pub const SEND_COMMAND: &'static str = "/send";

/// The text of the main menu.
pub const MAIN_MESSAGE_TEXT: &'static str = "Кто выпустил псину? Кто? Кто? Кто?";

/// The label of the main menu's only button.
pub const MAIN_MESSAGE_BUTTON: &'static str = "Отправить сообщение";

/// The text above the grid of chats to choose from.
pub const SELECT_CHAT_TEXT: &'static str = "Выбери чат";

/// The prompt that follows the choice of a chat.
pub const WRITE_MESSAGE_TEXT: &'static str = "Напиши текст сообщения";

/// What stands in place of the handle of a user who has none.
pub const ANONYMOUS: &'static str = "anonymous";

/// The confirmation of a join, after the user's handle.
pub const JOINED_TEXT: &'static str = " теперь может отправлять анонимные сообщения в этот чат";

/// The answer to a join that was made before, after the user's handle.
pub const ALREADY_JOINED_TEXT: &'static str =
    " уже может отправлять анонимные сообщения в этот чат";

/// One thing for the caller to do after the router has decided: persist the
/// membership store, or make one call to the platform.
#[derive(Debug, Clone, PartialEq, Eq)]
pub enum Action<'a> {
    SaveChats,
    SendMessage(SendMessagePayload),
    SendPhoto(SendPhotoPayload<'a>),
    SendAnimation(SendAnimationPayload<'a>),
    AnswerCallbackQuery { callback_query_id: &'a str, text: Option<&'a str> },
}

/// An action as a plain value.
pub enum ActionView {
    SaveChats,
    SendMessage(SendMessagePayloadView),
    SendPhoto(SendPhotoPayloadView),
    SendAnimation(SendAnimationPayloadView),
    AnswerCallbackQuery { callback_query_id: Seq<char>, text: Option<Seq<char>> },
}

impl<'a> View for Action<'a> {
    type V = ActionView;

    open spec fn view(&self) -> ActionView {
        match *self {
            Action::SaveChats => ActionView::SaveChats,
            Action::SendMessage(payload) => ActionView::SendMessage(payload@),
            Action::SendPhoto(payload) => ActionView::SendPhoto(payload@),
            Action::SendAnimation(payload) => ActionView::SendAnimation(payload@),
            Action::AnswerCallbackQuery { callback_query_id, text } => {
                ActionView::AnswerCallbackQuery {
                    callback_query_id: callback_query_id@,
                    text: opt_str_chars(text),
                }
            },
        }
    }
}

/// The views of a list of actions, in order.
pub open spec fn actions_view(actions: Seq<Action>) -> Seq<ActionView> {
    actions.map_values(|a: Action| a@)
}

/// A plain text message to `chat_id`.
pub open spec fn text_message(chat_id: i64, text: Seq<char>) -> SendMessagePayloadView {
    SendMessagePayloadView { chat_id, text, reply_markup: None }
}

/// The main menu for `chat_id`: the fixed prompt over one button that asks
/// for the choice of a chat.
pub open spec fn main_message(chat_id: i64) -> SendMessagePayloadView {
    SendMessagePayloadView {
        chat_id,
        text: MAIN_MESSAGE_TEXT@,
        reply_markup: Some(
            seq![
                seq![
                    InlineKeyboardButtonView {
                        text: MAIN_MESSAGE_BUTTON@,
                        callback_data: CallbackData::ActionSend,
                    },
                ],
            ],
        ),
    }
}

/// Makes a plain text message for `chat_id`.
pub fn make_bot_text_message(chat_id: i64, text: &str) -> (payload: SendMessagePayload)
    ensures
        payload@ == text_message(chat_id, text@),
{
    SendMessagePayload { chat_id, text: String::from_str(text), reply_markup: None }
}

/// Makes the main menu for `chat_id`.
pub fn make_bot_main_message(chat_id: i64) -> (payload: SendMessagePayload)
    ensures
        payload@ == main_message(chat_id),
{
    let button = InlineKeyboardButton {
        text: String::from_str(MAIN_MESSAGE_BUTTON),
        callback_data: CallbackData::ActionSend,
    };
    let mut row: Vec<InlineKeyboardButton> = Vec::new();
    row.push(button);
    let mut rows: Vec<Vec<InlineKeyboardButton>> = Vec::new();
    rows.push(row);
    let payload = SendMessagePayload {
        chat_id,
        text: String::from_str(MAIN_MESSAGE_TEXT),
        reply_markup: Some(InlineKeyboardMarkup { inline_keyboard: rows }),
    };
    assert(payload@.reply_markup->0 =~~= main_message(chat_id).reply_markup->0);
    payload
}

/// An optional string as an optional slice.
fn as_deref<'a>(s: &'a Option<String>) -> (r: Option<&'a str>)
    ensures
        opt_str_chars(r) == opt_chars(*s),
{
    match s {
        Some(s) => Some(s.as_str()),
        None => None,
    }
}

/// The text of `message`, sent on to `target` as it is.
pub open spec fn relay_text(message: &Message, target: i64) -> Seq<ActionView> {
    match message.text {
        Some(text) => seq![ActionView::SendMessage(text_message(target, text@))],
        None => seq![],
    }
}

/// The first photo size of `message`, sent on to `target` under the
/// message's caption.
pub open spec fn relay_photo(message: &Message, target: i64) -> Seq<ActionView> {
    match message.photo {
        Some(sizes) if sizes@.len() > 0 => seq![
            ActionView::SendPhoto(
                SendPhotoPayloadView {
                    chat_id: target,
                    photo: sizes@[0].file_id@,
                    caption: opt_chars(message.caption),
                },
            ),
        ],
        _ => seq![],
    }
}

/// The animation of `message`, sent on to `target` with its duration and
/// size, under the message's caption.
pub open spec fn relay_animation(message: &Message, target: i64) -> Seq<ActionView> {
    match message.animation {
        Some(animation) => seq![
            ActionView::SendAnimation(
                SendAnimationPayloadView {
                    chat_id: target,
                    animation: animation.file_id@,
                    duration: Some(animation.duration),
                    width: Some(animation.width),
                    height: Some(animation.height),
                    caption: opt_chars(message.caption),
                },
            ),
        ],
        None => seq![],
    }
}

/// What relaying `message` to `target` sends: the text, the photo and the
/// animation, each where the message has one, in this order.
pub open spec fn relay_actions(message: &Message, target: i64) -> Seq<ActionView> {
    relay_text(message, target) + relay_photo(message, target) + relay_animation(message, target)
}

/// Relays `message` to the chat `target_chat_id` without naming its sender.
/// Text, photo and animation are sent on independently of each other.
pub fn resend_message_anonimously<'a>(message: &'a Message, target_chat_id: i64) -> (actions: Vec<
    Action<'a>,
>)
    ensures
        actions_view(actions@) == relay_actions(message, target_chat_id),
{
    let mut actions: Vec<Action<'a>> = Vec::new();
    if let Some(text) = &message.text {
        let payload = make_bot_text_message(target_chat_id, text.as_str());
        actions.push(Action::SendMessage(payload));
    }
    assert(actions_view(actions@) =~= relay_text(message, target_chat_id));
    if let Some(photo_sizes) = &message.photo {
        if photo_sizes.len() > 0 {
            let file_id = photo_sizes[0].file_id.as_str();
            actions.push(
                Action::SendPhoto(
                    SendPhotoPayload {
                        chat_id: target_chat_id,
                        photo: file_id,
                        caption: as_deref(&message.caption),
                    },
                ),
            );
        }
    }
    assert(actions_view(actions@) =~= relay_text(message, target_chat_id) + relay_photo(
        message,
        target_chat_id,
    ));
    if let Some(animation) = &message.animation {
        actions.push(
            Action::SendAnimation(
                SendAnimationPayload {
                    chat_id: target_chat_id,
                    animation: animation.file_id.as_str(),
                    duration: Some(animation.duration),
                    width: Some(animation.width),
                    height: Some(animation.height),
                    caption: as_deref(&message.caption),
                },
            ),
        );
    }
    assert(actions_view(actions@) =~= relay_actions(message, target_chat_id));
    actions
}

/// The text begins with the join command.
pub open spec fn is_send_command(text: Seq<char>) -> bool {
    SEND_COMMAND@.is_prefix_of(text)
}

fn starts_with_send_command(text: &str) -> (b: bool)
    ensures
        b == is_send_command(text@),
{
    proof {
        reveal_strlit("/send");
    }
    if text.unicode_len() < 5 {
        return false;
    }
    let b = text.get_char(0) == '/' && text.get_char(1) == 's' && text.get_char(2) == 'e'
        && text.get_char(3) == 'n' && text.get_char(4) == 'd';
    proof {
        let head = text@.subrange(0, 5);
        if b {
            assert(head =~= SEND_COMMAND@);
        } else if is_send_command(text@) {
            assert(head[0] == '/' && head[1] == 's' && head[2] == 'e' && head[3] == 'n' && head[4]
                == 'd');
        }
    }
    b
}

/// How a user is named in the answer to a join: `@` and the handle, or the
/// placeholder where the user has no handle.
pub open spec fn tagged_username(user: &User) -> Seq<char> {
    match user.username {
        Some(username) => "@"@ + username@,
        None => ANONYMOUS@,
    }
}

/// The answer to a join by `user`: that they can relay into the chat from
/// now on, or that they already could.
pub open spec fn join_text(user: &User, added: bool) -> Seq<char> {
    tagged_username(user) + if added {
        JOINED_TEXT@
    } else {
        ALREADY_JOINED_TEXT@
    }
}

/// The join command of `message` is a join: its sender is a user, not a bot,
/// and its chat is not private.
pub open spec fn joins(message: &Message) -> bool {
    &&& message.from matches Some(user)
    &&& !user.is_bot
    &&& !(message.chat.chat_type is Private)
}

/// The membership store after the join command `message`.
pub open spec fn send_command_chats(
    chats: Map<i64, ChatInfoView>,
    message: &Message,
) -> Map<i64, ChatInfoView> {
    if joins(message) {
        with_member(
            chats,
            message.from->0.id,
            message.chat.id,
            opt_chars(message.chat.title),
        )
    } else {
        chats
    }
}

/// What the join command `message` sends, `chats` being the membership
/// store before it. A bot or a message without sender gets nothing. In a
/// private chat the sender gets the main menu. In any other chat the sender
/// joins: a new membership is persisted and confirmed, an old one is only
/// answered.
pub open spec fn send_command_actions(chats: Map<i64, ChatInfoView>, message: &Message) -> Seq<
    ActionView,
> {
    match message.from {
        Some(user) if !user.is_bot => {
            if message.chat.chat_type is Private {
                seq![ActionView::SendMessage(main_message(message.chat.id))]
            } else {
                let added = !is_member(chats, user.id, message.chat.id);
                let answer = ActionView::SendMessage(
                    text_message(message.chat.id, join_text(&user, added)),
                );
                if added {
                    seq![ActionView::SaveChats, answer]
                } else {
                    seq![answer]
                }
            }
        },
        _ => seq![],
    }
}

/// Handles the join command.
pub fn handle_send_command<'a>(chats: &mut Chats, message: &'a Message) -> (actions: Vec<
    Action<'a>,
>)
    requires
        old(chats).wf(),
    ensures
        final(chats).wf(),
        final(chats)@ == send_command_chats(old(chats)@, message),
        actions_view(actions@) == send_command_actions(old(chats)@, message),
{
    let mut actions: Vec<Action<'a>> = Vec::new();
    let user = match &message.from {
        Some(user) => {
            if user.is_bot {
                return actions;
            }
            user
        },
        None => {
            return actions;
        },
    };
    match message.chat.chat_type {
        ChatType::Private => {
            let payload = make_bot_main_message(message.chat.id);
            actions.push(Action::SendMessage(payload));
        },
        _ => {
            let added = chats.add_user_chat(user.id, &message.chat);
            if added {
                actions.push(Action::SaveChats);
            }
            let mut response_message_text = match &user.username {
                Some(username) => {
                    let mut tagged = String::from_str("@");
                    tagged.append(username.as_str());
                    tagged
                },
                None => String::from_str(ANONYMOUS),
            };
            if added {
                response_message_text.append(JOINED_TEXT);
            } else {
                response_message_text.append(ALREADY_JOINED_TEXT);
            }
            let payload = make_bot_text_message(message.chat.id, response_message_text.as_str());
            actions.push(Action::SendMessage(payload));
        },
    }
    assert(actions_view(actions@) =~= send_command_actions(old(chats)@, message));
    actions
}

/// What a private message or any other message without the join command
/// sends, `targets` being the relay-target registry. Outside a private chat,
/// or without a sender, nothing. A sender with a target has the message
/// relayed there; a sender without one gets the main menu.
pub open spec fn text_message_actions(targets: Map<i64, i64>, message: &Message) -> Seq<
    ActionView,
> {
    if !(message.chat.chat_type is Private) {
        seq![]
    } else {
        match message.from {
            Some(user) => {
                if targets.contains_key(user.id) {
                    relay_actions(message, targets[user.id])
                } else {
                    seq![ActionView::SendMessage(main_message(message.chat.id))]
                }
            },
            None => seq![],
        }
    }
}

/// Handles a message that is not the join command.
pub fn handle_text_message<'a>(user_chats: &RelayTargets, message: &'a Message) -> (actions: Vec<
    Action<'a>,
>)
    ensures
        actions_view(actions@) == text_message_actions(user_chats@, message),
{
    match message.chat.chat_type {
        ChatType::Private => {},
        _ => {
            return Vec::new();
        },
    }
    let user = match &message.from {
        Some(user) => user,
        None => {
            return Vec::new();
        },
    };
    match user_chats.get(user.id) {
        Some(chat_id) => resend_message_anonimously(message, chat_id),
        None => {
            let mut actions: Vec<Action<'a>> = Vec::new();
            let payload = make_bot_main_message(message.chat.id);
            actions.push(Action::SendMessage(payload));
            assert(actions_view(actions@) =~= text_message_actions(user_chats@, message));
            actions
        },
    }
}

/// The row of the button grid that stands for `chat`: one button that
/// carries the chat's id under the chat's title. A chat without a title, or
/// with an empty one, has no row.
pub open spec fn chat_button_row(chat: ChatInfoView) -> Option<Seq<InlineKeyboardButtonView>> {
    match chat.title {
        Some(title) if title.len() > 0 => Some(
            seq![
                InlineKeyboardButtonView {
                    text: title,
                    callback_data: CallbackData::SendTo(chat.id),
                },
            ],
        ),
        _ => None,
    }
}

/// The button grid for a listing of chats, in the listing's order.
pub open spec fn chat_buttons(listing: Seq<ChatInfoView>) -> Seq<Seq<InlineKeyboardButtonView>> {
    listing.filter_map(|chat: ChatInfoView| chat_button_row(chat))
}

/// What a click on the main menu's button sends, `listing` being the chats
/// of the user who clicked. With no chat to choose from, or without the
/// message that the button hung on, nothing. Else the grid of chats goes to
/// the chat of that message, and the click is acknowledged without text.
pub open spec fn chat_select_actions(listing: Seq<ChatInfoView>, query: &CallbackQuery) -> Seq<
    ActionView,
> {
    if listing.len() == 0 {
        seq![]
    } else {
        match query.message {
            Some(orig_message) => seq![
                ActionView::SendMessage(
                    SendMessagePayloadView {
                        chat_id: orig_message.chat.id,
                        text: SELECT_CHAT_TEXT@,
                        reply_markup: Some(chat_buttons(listing)),
                    },
                ),
                ActionView::AnswerCallbackQuery { callback_query_id: query.id@, text: None },
            ],
            None => seq![],
        }
    }
}

/// Answers a click on the main menu's button, `chats` being the chats of the
/// user who clicked.
pub fn make_chat_select_message<'a>(chats: &Vec<ChatInfo>, query: &'a CallbackQuery) -> (actions:
    Vec<Action<'a>>)
    ensures
        actions_view(actions@) == chat_select_actions(records_view(chats@), query),
{
    let mut actions: Vec<Action<'a>> = Vec::new();
    if chats.len() == 0 {
        return actions;
    }
    let orig_message = match &query.message {
        Some(orig_message) => orig_message,
        None => {
            return actions;
        },
    };
    let ghost listing = records_view(chats@);
    let ghost row = |chat: ChatInfoView| chat_button_row(chat);
    let mut buttons: Vec<Vec<InlineKeyboardButton>> = Vec::new();
    let mut i: usize = 0;
    while i < chats.len()
        invariant
            i <= chats.len(),
            listing == records_view(chats@),
            row == |chat: ChatInfoView| chat_button_row(chat),
            keyboard_view(buttons@) == listing.take(i as int).filter_map(row),
        decreases chats.len() - i,
    {
        let chat = &chats[i];
        proof {
            listing.lemma_filter_map_take_succ(row, i as int);
            assert(listing[i as int] == chat@);
        }
        match &chat.title {
            Some(title) => {
                if !title.as_str().is_empty() {
                    let mut buttons_row: Vec<InlineKeyboardButton> = Vec::new();
                    buttons_row.push(
                        InlineKeyboardButton {
                            text: title.clone(),
                            callback_data: CallbackData::SendTo(chat.id),
                        },
                    );
                    buttons.push(buttons_row);
                    assert(keyboard_view(buttons@) =~~= listing.take(i as int).filter_map(row)
                        + seq![chat_button_row(chat@)->0]);
                }
            },
            None => {},
        }
        i = i + 1;
    }
    assert(listing.take(i as int) == listing);
    let payload = SendMessagePayload {
        chat_id: orig_message.chat.id,
        text: String::from_str(SELECT_CHAT_TEXT),
        reply_markup: Some(InlineKeyboardMarkup { inline_keyboard: buttons }),
    };
    actions.push(Action::SendMessage(payload));
    actions.push(Action::AnswerCallbackQuery { callback_query_id: query.id.as_str(), text: None });
    assert(actions_view(actions@) =~= chat_select_actions(listing, query));
    actions
}

/// Handles a click on the main menu's button: offers the chats that the
/// user has joined, in the order in which the store hands them out.
pub fn handle_chat_select_button_clicked<'a>(chats: &Chats, query: &'a CallbackQuery) -> (actions:
    Vec<Action<'a>>)
    requires
        chats.wf(),
    ensures
        exists|listing: Seq<ChatInfoView>|
            lists(chats@, chats_of(chats@, query.from.id), listing) && actions_view(actions@)
                == chat_select_actions(listing, query),
{
    let user_chats = chats.get_user_chats(query.from.id);
    make_chat_select_message(&user_chats, query)
}

/// What the choice of a chat sends: the click is acknowledged without text,
/// and the chat of the message that the button hung on, where the platform
/// still has that message, gets the prompt to write.
pub open spec fn chat_button_actions(query: &CallbackQuery) -> Seq<ActionView> {
    let answer = ActionView::AnswerCallbackQuery { callback_query_id: query.id@, text: None };
    match query.message {
        Some(orig_message) => seq![
            answer,
            ActionView::SendMessage(text_message(orig_message.chat.id, WRITE_MESSAGE_TEXT@)),
        ],
        None => seq![answer],
    }
}

/// Handles the choice of the chat `target_chat`: it becomes the relay target
/// of the user who clicked, in place of an earlier one.
pub fn handle_chat_button_clicked<'a>(
    user_chats: &mut RelayTargets,
    query: &'a CallbackQuery,
    target_chat: i64,
) -> (actions: Vec<Action<'a>>)
    ensures
        final(user_chats)@ == old(user_chats)@.insert(query.from.id, target_chat),
        actions_view(actions@) == chat_button_actions(query),
{
    user_chats.set(query.from.id, target_chat);
    let mut actions: Vec<Action<'a>> = Vec::new();
    actions.push(Action::AnswerCallbackQuery { callback_query_id: query.id.as_str(), text: None });
    if let Some(orig_message) = &query.message {
        let payload = make_bot_text_message(orig_message.chat.id, WRITE_MESSAGE_TEXT);
        actions.push(Action::SendMessage(payload));
    }
    assert(actions_view(actions@) =~= chat_button_actions(query));
    actions
}

/// The relay-target registry after the click `query`: a user, not a bot,
/// who chose a chat has it as their target.
pub open spec fn button_click_targets(targets: Map<i64, i64>, query: &CallbackQuery) -> Map<
    i64,
    i64,
> {
    match query.data {
        Some(CallbackData::SendTo(target_chat)) if !query.from.is_bot => targets.insert(
            query.from.id,
            target_chat,
        ),
        _ => targets,
    }
}

/// What the click `query` sends, `listing` being the chats of the user who
/// clicked. The click of a bot, and one that carries no data, gets nothing.
pub open spec fn button_click_actions(listing: Seq<ChatInfoView>, query: &CallbackQuery) -> Seq<
    ActionView,
> {
    if query.from.is_bot {
        seq![]
    } else {
        match query.data {
            Some(CallbackData::ActionSend) => chat_select_actions(listing, query),
            Some(CallbackData::SendTo(_)) => chat_button_actions(query),
            None => seq![],
        }
    }
}

/// The click `query` asks for the choice of a chat: it comes from a user, not
/// a bot, and carries the main menu's data.
pub open spec fn selects(query: &CallbackQuery) -> bool {
    !query.from.is_bot && query.data == Some(CallbackData::ActionSend)
}

/// Where the click `query` asks for the choice of a chat, `listing` lists the
/// chats of the user who clicked.
pub open spec fn offers(
    chats: Map<i64, ChatInfoView>,
    query: &CallbackQuery,
    listing: Seq<ChatInfoView>,
) -> bool {
    selects(query) ==> lists(chats, chats_of(chats, query.from.id), listing)
}

/// Handles a click on an inline button.
pub fn handle_button_click<'a>(state: &mut AppState, query: &'a CallbackQuery) -> (actions: Vec<
    Action<'a>,
>)
    requires
        old(state).wf(),
    ensures
        final(state).wf(),
        final(state).config == old(state).config,
        final(state).chats == old(state).chats,
        final(state).user_chats@ == button_click_targets(old(state).user_chats@, query),
        exists|listing: Seq<ChatInfoView>|
            offers(old(state).chats@, query, listing) && actions_view(actions@)
                == button_click_actions(listing, query),
{
    let ghost none = Seq::<ChatInfoView>::empty();
    if query.from.is_bot {
        let actions: Vec<Action<'a>> = Vec::new();
        assert(offers(state.chats@, query, none) && actions_view(actions@) =~= button_click_actions(
            none,
            query,
        ));
        return actions;
    }
    match query.data {
        Some(CallbackData::ActionSend) => {
            let actions = handle_chat_select_button_clicked(&state.chats, query);
            proof {
                let listing = choose|listing: Seq<ChatInfoView>|
                    lists(state.chats@, chats_of(state.chats@, query.from.id), listing)
                        && actions_view(actions@) == chat_select_actions(listing, query);
                assert(offers(state.chats@, query, listing) && actions_view(actions@)
                    == button_click_actions(listing, query));
            }
            actions
        },
        Some(CallbackData::SendTo(target_chat_id)) => {
            let actions = handle_chat_button_clicked(&mut state.user_chats, query, target_chat_id);
            assert(offers(state.chats@, query, none) && actions_view(actions@)
                == button_click_actions(none, query));
            actions
        },
        None => {
            let actions: Vec<Action<'a>> = Vec::new();
            assert(offers(state.chats@, query, none) && actions_view(actions@)
                =~= button_click_actions(none, query));
            actions
        },
    }
}

/// The message carries the join command.
pub open spec fn has_send_command(message: &Message) -> bool {
    message.text matches Some(text) && is_send_command(text@)
}

/// The membership store after `message`.
pub open spec fn message_chats(chats: Map<i64, ChatInfoView>, message: &Message) -> Map<
    i64,
    ChatInfoView,
> {
    if has_send_command(message) {
        send_command_chats(chats, message)
    } else {
        chats
    }
}

/// What `message` sends: the join command is handled as such, any other
/// message as something to relay.
pub open spec fn message_actions(
    chats: Map<i64, ChatInfoView>,
    targets: Map<i64, i64>,
    message: &Message,
) -> Seq<ActionView> {
    if has_send_command(message) {
        send_command_actions(chats, message)
    } else {
        text_message_actions(targets, message)
    }
}

/// Handles a message.
pub fn handle_message<'a>(state: &mut AppState, message: &'a Message) -> (actions: Vec<Action<'a>>)
    requires
        old(state).wf(),
    ensures
        final(state).wf(),
        final(state).config == old(state).config,
        final(state).user_chats == old(state).user_chats,
        final(state).chats@ == message_chats(old(state).chats@, message),
        actions_view(actions@) == message_actions(
            old(state).chats@,
            old(state).user_chats@,
            message,
        ),
{
    let is_send_cmd = match &message.text {
        Some(text) => starts_with_send_command(text.as_str()),
        None => false,
    };
    if is_send_cmd {
        handle_send_command(&mut state.chats, message)
    } else {
        handle_text_message(&state.user_chats, message)
    }
}

/// What an update is about. The platform fills at most one of the two
/// fields of the envelope; where it fills both, the message counts.
#[derive(Debug, PartialEq, Eq)]
pub enum Update<'a> {
    Message(&'a Message),
    CallbackQuery(&'a CallbackQuery),
    Unrecognized,
}

/// What `request` is about; `None` stands for a payload that could not be
/// decoded.
pub open spec fn classified(request: Option<&UpdateMessage>) -> Update {
    match request {
        Some(request) => match (request.message, request.callback_query) {
            (Some(message), _) => Update::Message(&message),
            (None, Some(query)) => Update::CallbackQuery(&query),
            (None, None) => Update::Unrecognized,
        },
        None => Update::Unrecognized,
    }
}

/// Says what `request` is about.
pub fn classify<'a>(request: Option<&'a UpdateMessage>) -> (update: Update<'a>)
    ensures
        update == classified(request),
{
    match request {
        Some(request) => match &request.message {
            Some(message) => Update::Message(message),
            None => match &request.callback_query {
                Some(query) => Update::CallbackQuery(query),
                None => Update::Unrecognized,
            },
        },
        None => Update::Unrecognized,
    }
}

/// The membership store after `request`.
pub open spec fn request_chats(
    chats: Map<i64, ChatInfoView>,
    request: Option<&UpdateMessage>,
) -> Map<i64, ChatInfoView> {
    match classified(request) {
        Update::Message(message) => message_chats(chats, message),
        _ => chats,
    }
}

/// The relay-target registry after `request`.
pub open spec fn request_targets(targets: Map<i64, i64>, request: Option<&UpdateMessage>) -> Map<
    i64,
    i64,
> {
    match classified(request) {
        Update::CallbackQuery(query) => button_click_targets(targets, query),
        _ => targets,
    }
}

/// What `request` sends, `listing` being the chats of the user who clicked
/// where the request is a click. An update that is neither a message nor a
/// click sends nothing.
pub open spec fn request_actions(
    chats: Map<i64, ChatInfoView>,
    targets: Map<i64, i64>,
    listing: Seq<ChatInfoView>,
    request: Option<&UpdateMessage>,
) -> Seq<ActionView> {
    match classified(request) {
        Update::Message(message) => message_actions(chats, targets, message),
        Update::CallbackQuery(query) => button_click_actions(listing, query),
        Update::Unrecognized => seq![],
    }
}

/// Where `request` is a click that asks for the choice of a chat, `listing`
/// lists the chats of the user who clicked.
pub open spec fn request_offers(
    chats: Map<i64, ChatInfoView>,
    request: Option<&UpdateMessage>,
    listing: Seq<ChatInfoView>,
) -> bool {
    classified(request) matches Update::CallbackQuery(query) ==> offers(chats, query, listing)
}

/// Handles one update; `None` stands for a payload that could not be
/// decoded, which changes nothing and sends nothing.
pub fn handle_request<'a>(state: &mut AppState, request: Option<&'a UpdateMessage>) -> (actions:
    Vec<Action<'a>>)
    requires
        old(state).wf(),
    ensures
        final(state).wf(),
        final(state).config == old(state).config,
        final(state).chats@ == request_chats(old(state).chats@, request),
        final(state).user_chats@ == request_targets(old(state).user_chats@, request),
        exists|listing: Seq<ChatInfoView>|
            request_offers(old(state).chats@, request, listing) && actions_view(actions@)
                == request_actions(
                old(state).chats@,
                old(state).user_chats@,
                listing,
                request,
            ),
{
    let ghost none = Seq::<ChatInfoView>::empty();
    match classify(request) {
        Update::Message(message) => {
            let actions = handle_message(state, message);
            assert(request_offers(old(state).chats@, request, none) && actions_view(actions@)
                == request_actions(old(state).chats@, old(state).user_chats@, none, request));
            actions
        },
        Update::CallbackQuery(query) => {
            let actions = handle_button_click(state, query);
            proof {
                let listing = choose|listing: Seq<ChatInfoView>|
                    offers(old(state).chats@, query, listing) && actions_view(actions@)
                        == button_click_actions(listing, query);
                assert(request_offers(old(state).chats@, request, listing) && actions_view(
                    actions@,
                ) == request_actions(old(state).chats@, old(state).user_chats@, listing, request));
            }
            actions
        },
        Update::Unrecognized => {
            let actions: Vec<Action<'a>> = Vec::new();
            assert(request_offers(old(state).chats@, request, none) && actions_view(actions@)
                =~= request_actions(old(state).chats@, old(state).user_chats@, none, request));
            actions
        },
    }
}

/// The one handler that an update goes to, with what the handler works on.
/// A caller that guards the two stores separately learns from it which store
/// to lock, and how.
#[derive(Debug, PartialEq, Eq)]
pub enum Route<'a> {
    /// To [`handle_send_command`], which may change the membership store.
    SendCommand(&'a Message),
    /// To [`handle_text_message`], which reads the relay-target registry.
    TextMessage(&'a Message),
    /// To [`handle_chat_select_button_clicked`], which reads the membership
    /// store.
    ChatSelectButton(&'a CallbackQuery),
    /// To [`handle_chat_button_clicked`], with the chat chosen; it changes
    /// the relay-target registry.
    ChatButton(&'a CallbackQuery, i64),
    /// To no handler: nothing changes and nothing is sent.
    Ignored,
}

/// The handler that `request` goes to.
pub open spec fn routed(request: Option<&UpdateMessage>) -> Route {
    match classified(request) {
        Update::Message(message) => {
            if has_send_command(message) {
                Route::SendCommand(message)
            } else {
                Route::TextMessage(message)
            }
        },
        Update::CallbackQuery(query) => {
            if query.from.is_bot {
                Route::Ignored
            } else {
                match query.data {
                    Some(CallbackData::ActionSend) => Route::ChatSelectButton(query),
                    Some(CallbackData::SendTo(target_chat)) => Route::ChatButton(
                        query,
                        target_chat,
                    ),
                    None => Route::Ignored,
                }
            }
        },
        Update::Unrecognized => Route::Ignored,
    }
}

/// Says which handler `request` goes to.
pub fn route<'a>(request: Option<&'a UpdateMessage>) -> (r: Route<'a>)
    ensures
        r == routed(request),
{
    match classify(request) {
        Update::Message(message) => {
            let is_send_cmd = match &message.text {
                Some(text) => starts_with_send_command(text.as_str()),
                None => false,
            };
            if is_send_cmd {
                Route::SendCommand(message)
            } else {
                Route::TextMessage(message)
            }
        },
        Update::CallbackQuery(query) => {
            if query.from.is_bot {
                Route::Ignored
            } else {
                match query.data {
                    Some(CallbackData::ActionSend) => Route::ChatSelectButton(query),
                    Some(CallbackData::SendTo(target_chat)) => Route::ChatButton(
                        query,
                        target_chat,
                    ),
                    None => Route::Ignored,
                }
            }
        },
        Update::Unrecognized => Route::Ignored,
    }
}

/// Handling a request is running the one handler that the request goes to:
/// what is sent and how the stores change are what that handler sends and
/// changes.
pub proof fn lemma_request_is_routed(
    chats: Map<i64, ChatInfoView>,
    targets: Map<i64, i64>,
    listing: Seq<ChatInfoView>,
    request: Option<&UpdateMessage>,
)
    ensures
        match routed(request) {
            Route::SendCommand(message) => {
                &&& request_actions(chats, targets, listing, request) == send_command_actions(
                    chats,
                    message,
                )
                &&& request_chats(chats, request) == send_command_chats(chats, message)
                &&& request_targets(targets, request) == targets
            },
            Route::TextMessage(message) => {
                &&& request_actions(chats, targets, listing, request) == text_message_actions(
                    targets,
                    message,
                )
                &&& request_chats(chats, request) == chats
                &&& request_targets(targets, request) == targets
            },
            Route::ChatSelectButton(query) => {
                &&& request_actions(chats, targets, listing, request) == chat_select_actions(
                    listing,
                    query,
                )
                &&& request_offers(chats, request, listing) == lists(
                    chats,
                    chats_of(chats, query.from.id),
                    listing,
                )
                &&& request_chats(chats, request) == chats
                &&& request_targets(targets, request) == targets
            },
            Route::ChatButton(query, target_chat) => {
                &&& request_actions(chats, targets, listing, request) == chat_button_actions(query)
                &&& request_chats(chats, request) == chats
                &&& request_targets(targets, request) == targets.insert(
                    query.from.id,
                    target_chat,
                )
            },
            Route::Ignored => {
                &&& request_actions(chats, targets, listing, request) == Seq::<ActionView>::empty()
                &&& request_chats(chats, request) == chats
                &&& request_targets(targets, request) == targets
            },
        },
{
}

/// The request may pass: no secret is configured, or the request presents
/// the configured one.
pub open spec fn authorized(expected: Option<String>, presented: Option<&ApiSecretToken>) -> bool {
    expected matches Some(expected_token) ==> (presented matches Some(token) && token@
        == expected_token@)
}

/// Checks the token of a request against the configured secret.
pub fn check_api_token(expected: &Option<String>, presented: Option<&ApiSecretToken>) -> (ok: bool)
    ensures
        ok == authorized(*expected, presented),
{
    match expected {
        Some(expected_token) => match presented {
            Some(token) => *expected_token == token.0,
            None => false,
        },
        None => true,
    }
}

/// The answer to one request: its status, and what is left for the caller
/// to do.
#[derive(Debug, PartialEq, Eq)]
pub struct Response<'a> {
    pub status: StatusCode,
    pub actions: Vec<Action<'a>>,
}

/// Handles one request to the update endpoint. `api_token` is the token that
/// the request presents; `request` is its body, `None` where the body could
/// not be decoded.
///
/// A request that fails the token check is a bad request: nothing changes
/// and nothing is sent. Any other request is accepted, whatever its body
/// holds, and is handled as an update.
pub fn update<'a>(
    state: &mut AppState,
    api_token: Option<&ApiSecretToken>,
    request: Option<&'a UpdateMessage>,
) -> (response: Response<'a>)
    requires
        old(state).wf(),
    ensures
        final(state).wf(),
        final(state).config == old(state).config,
        !authorized(old(state).config.api_token, api_token) ==> {
            &&& response.status == StatusCode::BadRequest
            &&& response.actions@.len() == 0
            &&& *final(state) == *old(state)
        },
        authorized(old(state).config.api_token, api_token) ==> {
            &&& response.status == StatusCode::Success
            &&& final(state).chats@ == request_chats(old(state).chats@, request)
            &&& final(state).user_chats@ == request_targets(old(state).user_chats@, request)
            &&& exists|listing: Seq<ChatInfoView>|
                request_offers(old(state).chats@, request, listing) && actions_view(
                    response.actions@,
                ) == request_actions(
                    old(state).chats@,
                    old(state).user_chats@,
                    listing,
                    request,
                )
        },
{
    if !check_api_token(&state.config.api_token, api_token) {
        return Response { status: StatusCode::BadRequest, actions: Vec::new() };
    }
    let actions = handle_request(state, request);
    Response { status: StatusCode::Success, actions }
}

} // verus!
