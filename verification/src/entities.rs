//! Plain data carried by an update of the messaging platform, and the payloads
//! that the bot sends back.

use vstd::prelude::*;

verus! {

pub type ChatId = i64;

/// The envelope of one inbound update. The platform fills at most one of
/// `message` and `callback_query`.
#[derive(Debug, PartialEq, Eq)]
pub struct UpdateMessage {
    pub update_id: i64,
    pub message: Option<Message>,
    pub callback_query: Option<CallbackQuery>,
}

/// A message of a chat.
#[derive(Debug, PartialEq, Eq)]
pub struct Message {
    pub message_id: i32,
    pub from: Option<User>,
    pub chat: Chat,
    pub text: Option<String>,
    pub date: i32,
    pub photo: Option<Vec<PhotoSize>>,
    pub animation: Option<Animation>,
    pub caption: Option<String>,
    pub callback_query: Option<CallbackQuery>,
}

/// Who sent a message or clicked a button.
#[derive(Debug, Clone, PartialEq, Eq)]
pub struct User {
    pub id: i64,
    pub is_bot: bool,
    pub username: Option<String>,
}

/// The chat that a message belongs to.
#[derive(Debug, Clone, PartialEq, Eq)]
pub struct Chat {
    pub id: ChatId,
    pub chat_type: ChatType,
    pub title: Option<String>,
}

/// The kind of a chat.
#[derive(Debug, Clone, Copy, PartialEq, Eq, Structural)]
pub enum ChatType {
    Private,
    Group,
    Supergroup,
    Channel,
}

/// One size of a photo.
#[derive(Debug, Clone, PartialEq, Eq)]
pub struct PhotoSize {
    pub file_id: String,
    pub file_unique_id: String,
    pub width: i64,
    pub height: i64,
    pub file_size: Option<i64>,
}

/// An animation attached to a message.
#[derive(Debug, Clone, PartialEq, Eq)]
pub struct Animation {
    pub file_id: String,
    pub file_unique_id: String,
    pub width: i64,
    pub height: i64,
    pub duration: i64,
}

/// A click on an inline button. `message` is the message that the button
/// hangs on, where the platform still has it.
#[derive(Debug, PartialEq, Eq)]
pub struct CallbackQuery {
    pub id: String,
    pub from: User,
    pub message: Option<Box<Message>>,
    pub data: Option<CallbackData>,
}

/// What a button carries: the request to choose a chat, or the chat chosen.
#[derive(Debug, Clone, Copy, PartialEq, Eq, Structural)]
pub enum CallbackData {
    ActionSend,
    SendTo(i64),
}

/// An inline button: its label and what it carries.
#[derive(Debug, Clone, PartialEq, Eq)]
pub struct InlineKeyboardButton {
    pub text: String,
    pub callback_data: CallbackData,
}

/// A grid of inline buttons, row by row.
#[derive(Debug, Clone, PartialEq, Eq)]
pub struct InlineKeyboardMarkup {
    pub inline_keyboard: Vec<Vec<InlineKeyboardButton>>,
}

/// A text message to send, with an optional grid of inline buttons.
#[derive(Debug, Clone, PartialEq, Eq)]
pub struct SendMessagePayload {
    pub chat_id: i64,
    pub text: String,
    pub reply_markup: Option<InlineKeyboardMarkup>,
}

/// A photo to send, by the reference of its file.
#[derive(Debug, Clone, Copy, PartialEq, Eq)]
pub struct SendPhotoPayload<'a> {
    pub chat_id: i64,
    pub photo: &'a str,
    pub caption: Option<&'a str>,
}

/// An animation to send, by the reference of its file, with its duration
/// and size.
#[derive(Debug, Clone, Copy, PartialEq, Eq)]
pub struct SendAnimationPayload<'a> {
    pub chat_id: i64,
    pub animation: &'a str,
    pub duration: Option<i64>,
    pub width: Option<i64>,
    pub height: Option<i64>,
    pub caption: Option<&'a str>,
}

/// A button as a plain value.
pub struct InlineKeyboardButtonView {
    pub text: Seq<char>,
    pub callback_data: CallbackData,
}

/// A text message to send as a plain value; the button grid by its rows.
pub struct SendMessagePayloadView {
    pub chat_id: i64,
    pub text: Seq<char>,
    pub reply_markup: Option<Seq<Seq<InlineKeyboardButtonView>>>,
}

/// A photo to send as a plain value.
pub struct SendPhotoPayloadView {
    pub chat_id: i64,
    pub photo: Seq<char>,
    pub caption: Option<Seq<char>>,
}

/// An animation to send as a plain value.
pub struct SendAnimationPayloadView {
    pub chat_id: i64,
    pub animation: Seq<char>,
    pub duration: Option<i64>,
    pub width: Option<i64>,
    pub height: Option<i64>,
    pub caption: Option<Seq<char>>,
}

/// The characters of an optional string.
pub open spec fn opt_chars(s: Option<String>) -> Option<Seq<char>> {
    match s {
        Some(s) => Some(s@),
        None => None,
    }
}

/// The characters of an optional string slice.
pub open spec fn opt_str_chars(s: Option<&str>) -> Option<Seq<char>> {
    match s {
        Some(s) => Some(s@),
        None => None,
    }
}

impl View for InlineKeyboardButton {
    type V = InlineKeyboardButtonView;

    open spec fn view(&self) -> InlineKeyboardButtonView {
        InlineKeyboardButtonView { text: self.text@, callback_data: self.callback_data }
    }
}

/// The rows of a button grid, each button by its view.
pub open spec fn keyboard_view(rows: Seq<Vec<InlineKeyboardButton>>) -> Seq<
    Seq<InlineKeyboardButtonView>,
> {
    rows.map_values(
        |row: Vec<InlineKeyboardButton>| row@.map_values(|b: InlineKeyboardButton| b@),
    )
}

impl View for InlineKeyboardMarkup {
    type V = Seq<Seq<InlineKeyboardButtonView>>;

    open spec fn view(&self) -> Seq<Seq<InlineKeyboardButtonView>> {
        keyboard_view(self.inline_keyboard@)
    }
}

impl View for SendMessagePayload {
    type V = SendMessagePayloadView;

    open spec fn view(&self) -> SendMessagePayloadView {
        SendMessagePayloadView {
            chat_id: self.chat_id,
            text: self.text@,
            reply_markup: match self.reply_markup {
                Some(markup) => Some(markup@),
                None => None,
            },
        }
    }
}

impl<'a> View for SendPhotoPayload<'a> {
    type V = SendPhotoPayloadView;

    open spec fn view(&self) -> SendPhotoPayloadView {
        SendPhotoPayloadView {
            chat_id: self.chat_id,
            photo: self.photo@,
            caption: opt_str_chars(self.caption),
        }
    }
}

impl<'a> View for SendAnimationPayload<'a> {
    type V = SendAnimationPayloadView;

    open spec fn view(&self) -> SendAnimationPayloadView {
        SendAnimationPayloadView {
            chat_id: self.chat_id,
            animation: self.animation@,
            duration: self.duration,
            width: self.width,
            height: self.height,
            caption: opt_str_chars(self.caption),
        }
    }
}

} // verus!
