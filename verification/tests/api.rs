use anon_bot::api::{
    classify, handle_button_click, handle_chat_button_clicked, handle_chat_select_button_clicked,
    handle_message, handle_request, handle_send_command, handle_text_message, check_api_token,
    make_bot_main_message, make_bot_text_message, make_chat_select_message,
    resend_message_anonimously, route, update, Action, Response, Route, Update, ALREADY_JOINED_TEXT, ANONYMOUS,
    JOINED_TEXT, MAIN_MESSAGE_BUTTON, MAIN_MESSAGE_TEXT, SELECT_CHAT_TEXT, SEND_COMMAND,
    WRITE_MESSAGE_TEXT,
};
use anon_bot::chats::{ChatInfo, Chats};
use anon_bot::config::AuthConfig;
use anon_bot::entities::{
    Animation, CallbackData, CallbackQuery, Chat, ChatType, InlineKeyboardButton,
    InlineKeyboardMarkup, Message, PhotoSize, SendAnimationPayload, SendMessagePayload,
    SendPhotoPayload, UpdateMessage, User,
};
use anon_bot::headers::{ApiSecretToken, StatusCode};
use anon_bot::state::{AppState, RelayTargets};
use std::collections::HashSet;

fn user(id: i64, username: Option<&str>) -> User {
    User { id, is_bot: false, username: username.map(str::to_string) }
}

fn bot(id: i64) -> User {
    User { id, is_bot: true, username: Some("some_bot".to_string()) }
}

fn chat(id: i64, chat_type: ChatType, title: Option<&str>) -> Chat {
    Chat { id, chat_type, title: title.map(str::to_string) }
}

fn message(from: Option<User>, chat: Chat, text: Option<&str>) -> Message {
    Message {
        message_id: 1,
        from,
        chat,
        text: text.map(str::to_string),
        date: 0,
        photo: None,
        animation: None,
        caption: None,
        callback_query: None,
    }
}

fn query(from: User, origin: Option<Message>, data: Option<CallbackData>) -> CallbackQuery {
    CallbackQuery { id: "query-1".to_string(), from, message: origin.map(Box::new), data }
}

fn record(id: i64, title: Option<&str>, members: &[i64]) -> ChatInfo {
    ChatInfo {
        id,
        title: title.map(str::to_string),
        members: members.iter().copied().collect::<HashSet<i64>>(),
    }
}

fn state(api_token: Option<&str>) -> AppState {
    AppState::new(
        AuthConfig { bot_token: "bot".to_string(), api_token: api_token.map(str::to_string) },
        Chats::open(vec![]),
        RelayTargets::new(),
    )
}

fn main_menu(chat_id: i64) -> SendMessagePayload {
    SendMessagePayload {
        chat_id,
        text: "Кто выпустил псину? Кто? Кто? Кто?".to_string(),
        reply_markup: Some(InlineKeyboardMarkup {
            inline_keyboard: vec![vec![InlineKeyboardButton {
                text: "Отправить сообщение".to_string(),
                callback_data: CallbackData::ActionSend,
            }]],
        }),
    }
}

fn text_to(chat_id: i64, text: &str) -> SendMessagePayload {
    SendMessagePayload { chat_id, text: text.to_string(), reply_markup: None }
}

fn envelope(message: Option<Message>, callback_query: Option<CallbackQuery>) -> UpdateMessage {
    UpdateMessage { update_id: 9, message, callback_query }
}

#[test]
fn texts_are_the_fixed_ones() {
    assert_eq!(SEND_COMMAND, "/send");
    assert_eq!(MAIN_MESSAGE_TEXT, "Кто выпустил псину? Кто? Кто? Кто?");
    assert_eq!(MAIN_MESSAGE_BUTTON, "Отправить сообщение");
    assert_eq!(SELECT_CHAT_TEXT, "Выбери чат");
    assert_eq!(WRITE_MESSAGE_TEXT, "Напиши текст сообщения");
    assert_eq!(ANONYMOUS, "anonymous");
    assert_eq!(JOINED_TEXT, " теперь может отправлять анонимные сообщения в этот чат");
    assert_eq!(ALREADY_JOINED_TEXT, " уже может отправлять анонимные сообщения в этот чат");
}

#[test]
fn text_message_has_no_buttons() {
    assert_eq!(make_bot_text_message(5, "hello"), text_to(5, "hello"));
}

#[test]
fn main_message_has_one_button() {
    let payload = make_bot_main_message(77);
    assert_eq!(payload, main_menu(77));
    let rows = payload.reply_markup.unwrap().inline_keyboard;
    assert_eq!(rows.len(), 1);
    assert_eq!(rows[0].len(), 1);
}

#[test]
fn private_text_without_target_gets_the_main_menu() {
    let mut state = state(None);
    let request = envelope(
        Some(message(Some(user(1, Some("alice"))), chat(1, ChatType::Private, None), Some("hi"))),
        None,
    );
    let response = update(&mut state, None, Some(&request));
    assert_eq!(
        response,
        Response { status: StatusCode::Success, actions: vec![Action::SendMessage(main_menu(1))] }
    );
    assert_eq!(state.user_chats.get(1), None);
    assert!(state.chats.save().is_empty());
}

#[test]
fn group_join_of_a_new_user_is_saved_and_confirmed() {
    let mut state = state(None);
    let request = envelope(
        Some(message(
            Some(user(1, Some("alice"))),
            chat(-100, ChatType::Group, Some("Friends")),
            Some("/send"),
        )),
        None,
    );
    let response = update(&mut state, None, Some(&request));
    assert_eq!(response.status, StatusCode::Success);
    assert_eq!(
        response.actions,
        vec![
            Action::SaveChats,
            Action::SendMessage(text_to(
                -100,
                "@alice теперь может отправлять анонимные сообщения в этот чат"
            )),
        ]
    );
    assert_eq!(state.chats.save(), vec![record(-100, Some("Friends"), &[1])]);
    assert_eq!(state.chats.get_user_chats(1).len(), 1);
}

#[test]
fn second_join_is_only_answered() {
    let mut state = state(None);
    let join = message(
        Some(user(1, Some("alice"))),
        chat(-100, ChatType::Supergroup, Some("Friends")),
        Some("/send@anon_bot"),
    );
    assert_eq!(handle_message(&mut state, &join).len(), 2);
    let actions = handle_message(&mut state, &join);
    assert_eq!(
        actions,
        vec![Action::SendMessage(text_to(
            -100,
            "@alice уже может отправлять анонимные сообщения в этот чат"
        ))]
    );
    assert_eq!(state.chats.get_chat(-100).unwrap().members.len(), 1);
}

#[test]
fn user_without_handle_is_called_anonymous() {
    let mut chats = Chats::open(vec![]);
    let join = message(Some(user(2, None)), chat(-5, ChatType::Channel, None), Some("/send"));
    let actions = handle_send_command(&mut chats, &join);
    assert_eq!(
        actions,
        vec![
            Action::SaveChats,
            Action::SendMessage(text_to(
                -5,
                "anonymous теперь может отправлять анонимные сообщения в этот чат"
            )),
        ]
    );
    let again = handle_send_command(&mut chats, &join);
    assert_eq!(
        again,
        vec![Action::SendMessage(text_to(
            -5,
            "anonymous уже может отправлять анонимные сообщения в этот чат"
        ))]
    );
}

#[test]
fn join_command_in_private_chat_gets_the_main_menu() {
    let mut chats = Chats::open(vec![]);
    let command =
        message(Some(user(1, Some("alice"))), chat(1, ChatType::Private, None), Some("/send"));
    assert_eq!(handle_send_command(&mut chats, &command), vec![Action::SendMessage(main_menu(1))]);
    assert!(chats.save().is_empty());
}

#[test]
fn join_command_of_a_bot_or_of_nobody_is_ignored() {
    let mut chats = Chats::open(vec![]);
    let from_bot = message(Some(bot(3)), chat(-1, ChatType::Group, Some("g")), Some("/send"));
    assert!(handle_send_command(&mut chats, &from_bot).is_empty());
    let from_nobody = message(None, chat(-1, ChatType::Group, Some("g")), Some("/send"));
    assert!(handle_send_command(&mut chats, &from_nobody).is_empty());
    assert!(chats.save().is_empty());
}

#[test]
fn text_that_only_holds_the_command_later_is_no_command() {
    let mut state = state(None);
    let text =
        message(Some(user(1, None)), chat(-1, ChatType::Group, Some("g")), Some("please /send"));
    assert!(handle_message(&mut state, &text).is_empty());
    assert!(state.chats.save().is_empty());
    let short = message(Some(user(1, None)), chat(-1, ChatType::Group, Some("g")), Some("/sen"));
    assert!(handle_message(&mut state, &short).is_empty());
}

#[test]
fn text_outside_a_private_chat_is_ignored() {
    let mut targets = RelayTargets::new();
    targets.set(1, -100);
    let text = message(Some(user(1, None)), chat(-1, ChatType::Group, Some("g")), Some("hello"));
    assert!(handle_text_message(&targets, &text).is_empty());
}

#[test]
fn private_text_without_sender_is_ignored() {
    let targets = RelayTargets::new();
    let text = message(None, chat(1, ChatType::Private, None), Some("hello"));
    assert!(handle_text_message(&targets, &text).is_empty());
}

#[test]
fn private_text_with_target_is_relayed() {
    let mut targets = RelayTargets::new();
    targets.set(1, -100);
    let text = message(Some(user(1, None)), chat(1, ChatType::Private, None), Some("hello"));
    assert_eq!(
        handle_text_message(&targets, &text),
        vec![Action::SendMessage(text_to(-100, "hello"))]
    );
}

#[test]
fn relay_sends_text_photo_and_animation_independently() {
    let mut full = message(Some(user(1, None)), chat(1, ChatType::Private, None), Some("look"));
    full.photo = Some(vec![
        PhotoSize {
            file_id: "small".to_string(),
            file_unique_id: "u1".to_string(),
            width: 10,
            height: 20,
            file_size: Some(100),
        },
        PhotoSize {
            file_id: "large".to_string(),
            file_unique_id: "u2".to_string(),
            width: 100,
            height: 200,
            file_size: None,
        },
    ]);
    full.animation = Some(Animation {
        file_id: "anim".to_string(),
        file_unique_id: "u3".to_string(),
        width: 320,
        height: 240,
        duration: 7,
    });
    full.caption = Some("caption".to_string());
    assert_eq!(
        resend_message_anonimously(&full, -100),
        vec![
            Action::SendMessage(text_to(-100, "look")),
            Action::SendPhoto(SendPhotoPayload {
                chat_id: -100,
                photo: "small",
                caption: Some("caption"),
            }),
            Action::SendAnimation(SendAnimationPayload {
                chat_id: -100,
                animation: "anim",
                duration: Some(7),
                width: Some(320),
                height: Some(240),
                caption: Some("caption"),
            }),
        ]
    );
}

#[test]
fn relay_of_an_empty_message_sends_nothing() {
    let mut empty = message(Some(user(1, None)), chat(1, ChatType::Private, None), None);
    assert!(resend_message_anonimously(&empty, -100).is_empty());
    empty.photo = Some(vec![]);
    assert!(resend_message_anonimously(&empty, -100).is_empty());
}

#[test]
fn relay_of_a_photo_alone_has_no_caption() {
    let mut photo = message(Some(user(1, None)), chat(1, ChatType::Private, None), None);
    photo.photo = Some(vec![PhotoSize {
        file_id: "p".to_string(),
        file_unique_id: "u".to_string(),
        width: 1,
        height: 1,
        file_size: None,
    }]);
    assert_eq!(
        resend_message_anonimously(&photo, 5),
        vec![Action::SendPhoto(SendPhotoPayload { chat_id: 5, photo: "p", caption: None })]
    );
}

#[test]
fn select_click_of_a_user_without_chats_sends_nothing() {
    let mut state = state(None);
    let origin = message(Some(bot(99)), chat(1, ChatType::Private, None), Some("menu"));
    let request = envelope(
        None,
        Some(query(user(1, None), Some(origin), Some(CallbackData::ActionSend))),
    );
    let response = update(&mut state, None, Some(&request));
    assert_eq!(response, Response { status: StatusCode::Success, actions: vec![] });
    assert_eq!(state.user_chats.get(1), None);
}

#[test]
fn select_click_offers_the_titled_chats() {
    let chats = Chats::open(vec![
        record(-1, Some("One"), &[1]),
        record(-2, None, &[1]),
        record(-3, Some(""), &[1]),
        record(-4, Some("Four"), &[2]),
    ]);
    let origin = message(Some(bot(99)), chat(1, ChatType::Private, None), Some("menu"));
    let click = query(user(1, None), Some(origin), Some(CallbackData::ActionSend));
    let actions = handle_chat_select_button_clicked(&chats, &click);
    assert_eq!(
        actions,
        vec![
            Action::SendMessage(SendMessagePayload {
                chat_id: 1,
                text: "Выбери чат".to_string(),
                reply_markup: Some(InlineKeyboardMarkup {
                    inline_keyboard: vec![vec![InlineKeyboardButton {
                        text: "One".to_string(),
                        callback_data: CallbackData::SendTo(-1),
                    }]],
                }),
            }),
            Action::AnswerCallbackQuery { callback_query_id: "query-1", text: None },
        ]
    );
}

#[test]
fn select_message_lists_the_chats_in_the_given_order() {
    let listing = vec![record(3, Some("c"), &[1]), record(1, Some("a"), &[1]), record(2, None, &[1])];
    let origin = message(None, chat(50, ChatType::Private, None), None);
    let click = query(user(1, None), Some(origin), Some(CallbackData::ActionSend));
    let actions = make_chat_select_message(&listing, &click);
    assert_eq!(actions.len(), 2);
    match &actions[0] {
        Action::SendMessage(payload) => {
            assert_eq!(payload.chat_id, 50);
            let rows = &payload.reply_markup.as_ref().unwrap().inline_keyboard;
            assert_eq!(
                rows,
                &vec![
                    vec![InlineKeyboardButton {
                        text: "c".to_string(),
                        callback_data: CallbackData::SendTo(3)
                    }],
                    vec![InlineKeyboardButton {
                        text: "a".to_string(),
                        callback_data: CallbackData::SendTo(1)
                    }],
                ]
            );
        }
        other => panic!("unexpected action {other:?}"),
    }
}

#[test]
fn select_message_without_origin_or_chats_is_empty() {
    let listing = vec![record(3, Some("c"), &[1])];
    let no_origin = query(user(1, None), None, Some(CallbackData::ActionSend));
    assert!(make_chat_select_message(&listing, &no_origin).is_empty());
    let origin = message(None, chat(50, ChatType::Private, None), None);
    let click = query(user(1, None), Some(origin), Some(CallbackData::ActionSend));
    assert!(make_chat_select_message(&vec![], &click).is_empty());
}

#[test]
fn chat_click_sets_the_target_and_asks_for_the_text() {
    let mut state = state(None);
    let origin = message(Some(bot(99)), chat(1, ChatType::Private, None), Some("grid"));
    let request = envelope(
        None,
        Some(query(user(1, None), Some(origin), Some(CallbackData::SendTo(-100)))),
    );
    let response = update(&mut state, None, Some(&request));
    assert_eq!(response.status, StatusCode::Success);
    assert_eq!(
        response.actions,
        vec![
            Action::AnswerCallbackQuery { callback_query_id: "query-1", text: None },
            Action::SendMessage(text_to(1, "Напиши текст сообщения")),
        ]
    );
    assert_eq!(state.user_chats.get(1), Some(-100));
}

#[test]
fn chat_click_without_origin_is_only_acknowledged() {
    let mut targets = RelayTargets::new();
    targets.set(1, 5);
    let click = query(user(1, None), None, Some(CallbackData::SendTo(6)));
    assert_eq!(
        handle_chat_button_clicked(&mut targets, &click, 6),
        vec![Action::AnswerCallbackQuery { callback_query_id: "query-1", text: None }]
    );
    assert_eq!(targets.get(1), Some(6));
}

#[test]
fn click_of_a_bot_or_without_data_is_ignored() {
    let mut state = state(None);
    let from_bot = query(bot(3), None, Some(CallbackData::SendTo(6)));
    assert!(handle_button_click(&mut state, &from_bot).is_empty());
    assert_eq!(state.user_chats.get(3), None);
    let no_data = query(user(1, None), None, None);
    assert!(handle_button_click(&mut state, &no_data).is_empty());
    assert_eq!(state.user_chats.get(1), None);
}

#[test]
fn envelope_is_classified_in_all_four_combinations() {
    let m = message(Some(user(1, None)), chat(1, ChatType::Private, None), Some("hi"));
    let q = query(user(2, None), None, Some(CallbackData::SendTo(6)));
    let both = envelope(Some(message(None, chat(1, ChatType::Private, None), None)), None);
    assert!(matches!(classify(Some(&both)), Update::Message(_)));
    let only_message = envelope(Some(m), None);
    assert_eq!(
        classify(Some(&only_message)),
        Update::Message(only_message.message.as_ref().unwrap())
    );
    let only_query = envelope(None, Some(q));
    assert_eq!(
        classify(Some(&only_query)),
        Update::CallbackQuery(only_query.callback_query.as_ref().unwrap())
    );
    let neither = envelope(None, None);
    assert_eq!(classify(Some(&neither)), Update::Unrecognized);
    assert_eq!(classify(None), Update::Unrecognized);
}

#[test]
fn message_takes_priority_over_click() {
    let mut state = state(None);
    let m = message(Some(user(1, None)), chat(1, ChatType::Private, None), Some("hi"));
    let q = query(user(1, None), None, Some(CallbackData::SendTo(6)));
    let both = envelope(Some(m), Some(q));
    assert!(matches!(classify(Some(&both)), Update::Message(_)));
    assert_eq!(handle_request(&mut state, Some(&both)), vec![Action::SendMessage(main_menu(1))]);
    assert_eq!(state.user_chats.get(1), None);
}

#[test]
fn empty_envelope_is_a_no_op() {
    let mut state = state(None);
    let neither = envelope(None, None);
    assert!(handle_request(&mut state, Some(&neither)).is_empty());
}

#[test]
fn malformed_body_is_accepted_and_changes_nothing() {
    let mut state = state(None);
    state.user_chats.set(1, 2);
    let response = update(&mut state, None, None);
    assert_eq!(response, Response { status: StatusCode::Success, actions: vec![] });
    assert_eq!(response.status.as_u16(), 200);
    assert_eq!(state.user_chats.get(1), Some(2));
    assert_eq!(state.user_chats.save().len(), 1);
    assert!(state.chats.save().is_empty());
}

#[test]
fn wrong_or_missing_token_is_a_bad_request() {
    let mut state = state(Some("secret"));
    let request = envelope(
        Some(message(
            Some(user(1, Some("alice"))),
            chat(-100, ChatType::Group, Some("Friends")),
            Some("/send"),
        )),
        None,
    );
    let wrong = ApiSecretToken("guess".to_string());
    let response = update(&mut state, Some(&wrong), Some(&request));
    assert_eq!(response, Response { status: StatusCode::BadRequest, actions: vec![] });
    assert_eq!(response.status.as_u16(), 400);
    let response = update(&mut state, None, Some(&request));
    assert_eq!(response, Response { status: StatusCode::BadRequest, actions: vec![] });
    assert!(state.chats.save().is_empty());
}

#[test]
fn right_token_is_accepted() {
    let mut state = state(Some("secret"));
    let request = envelope(
        Some(message(
            Some(user(1, Some("alice"))),
            chat(-100, ChatType::Group, Some("Friends")),
            Some("/send"),
        )),
        None,
    );
    let right = ApiSecretToken("secret".to_string());
    let response = update(&mut state, Some(&right), Some(&request));
    assert_eq!(response.status, StatusCode::Success);
    assert_eq!(response.actions.len(), 2);
    assert_eq!(state.chats.save().len(), 1);
}

#[test]
fn token_is_not_checked_where_none_is_configured() {
    assert!(check_api_token(&None, None));
    assert!(check_api_token(&None, Some(&ApiSecretToken("any".to_string()))));
    let expected = Some("secret".to_string());
    assert!(check_api_token(&expected, Some(&ApiSecretToken("secret".to_string()))));
    assert!(!check_api_token(&expected, Some(&ApiSecretToken("Secret".to_string()))));
    assert!(!check_api_token(&expected, Some(&ApiSecretToken("".to_string()))));
    assert!(!check_api_token(&expected, None));
}

#[test]
fn joined_user_can_choose_the_chat_and_relay() {
    let mut state = state(None);
    let join = envelope(
        Some(message(
            Some(user(1, Some("alice"))),
            chat(-100, ChatType::Group, Some("Friends")),
            Some("/send"),
        )),
        None,
    );
    assert_eq!(update(&mut state, None, Some(&join)).actions.len(), 2);
    let menu = message(Some(bot(99)), chat(1, ChatType::Private, None), Some("menu"));
    let select = envelope(
        None,
        Some(query(user(1, Some("alice")), Some(menu), Some(CallbackData::ActionSend))),
    );
    let offered = update(&mut state, None, Some(&select));
    assert_eq!(
        offered.actions,
        vec![
            Action::SendMessage(SendMessagePayload {
                chat_id: 1,
                text: "Выбери чат".to_string(),
                reply_markup: Some(InlineKeyboardMarkup {
                    inline_keyboard: vec![vec![InlineKeyboardButton {
                        text: "Friends".to_string(),
                        callback_data: CallbackData::SendTo(-100),
                    }]],
                }),
            }),
            Action::AnswerCallbackQuery { callback_query_id: "query-1", text: None },
        ]
    );
    let choose = envelope(
        None,
        Some(query(user(1, Some("alice")), None, Some(CallbackData::SendTo(-100)))),
    );
    assert_eq!(update(&mut state, None, Some(&choose)).actions.len(), 1);
    let letter = envelope(
        Some(message(
            Some(user(1, Some("alice"))),
            chat(1, ChatType::Private, None),
            Some("secret words"),
        )),
        None,
    );
    assert_eq!(
        update(&mut state, None, Some(&letter)).actions,
        vec![Action::SendMessage(text_to(-100, "secret words"))]
    );
}

#[test]
fn each_update_goes_to_one_handler() {
    let join = envelope(
        Some(message(Some(user(1, None)), chat(-1, ChatType::Group, None), Some("/send now"))),
        None,
    );
    assert_eq!(route(Some(&join)), Route::SendCommand(join.message.as_ref().unwrap()));
    let text = envelope(
        Some(message(Some(user(1, None)), chat(1, ChatType::Private, None), Some("send"))),
        None,
    );
    assert_eq!(route(Some(&text)), Route::TextMessage(text.message.as_ref().unwrap()));
    let media = envelope(Some(message(None, chat(1, ChatType::Private, None), None)), None);
    assert_eq!(route(Some(&media)), Route::TextMessage(media.message.as_ref().unwrap()));
    let select = envelope(None, Some(query(user(1, None), None, Some(CallbackData::ActionSend))));
    assert_eq!(
        route(Some(&select)),
        Route::ChatSelectButton(select.callback_query.as_ref().unwrap())
    );
    let choose = envelope(None, Some(query(user(1, None), None, Some(CallbackData::SendTo(8)))));
    assert_eq!(
        route(Some(&choose)),
        Route::ChatButton(choose.callback_query.as_ref().unwrap(), 8)
    );
    let from_bot = envelope(None, Some(query(bot(2), None, Some(CallbackData::SendTo(8)))));
    assert_eq!(route(Some(&from_bot)), Route::Ignored);
    let no_data = envelope(None, Some(query(user(1, None), None, None)));
    assert_eq!(route(Some(&no_data)), Route::Ignored);
    assert_eq!(route(Some(&envelope(None, None))), Route::Ignored);
    assert_eq!(route(None), Route::Ignored);
}
