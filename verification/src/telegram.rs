//! Telegram Bot API models and the handling of its replies.
use vstd::prelude::*;
use crate::api::{ApiRequest, QueryParam};
use crate::errors::{error_spec, CommonError, CommonErrorView, ErrorKind};
use crate::text::{copy_string, push_decimal, push_str, decimal, str_equals};
use std::sync::Arc;

verus! {

/// <https://core.telegram.org/bots/api/#update>
#[derive(Debug)]
pub struct Update {
    pub update_id: i32,
    pub message: Option<Message>,
    pub callback_query: Option<CallbackQuery>,
}

/// <https://core.telegram.org/bots/api/#message>
#[derive(Debug)]
pub struct Message {
    pub message_id: i64,
    pub from: Option<User>,
    pub chat: Chat,
    pub text: Option<String>,
}

/// <https://core.telegram.org/bots/api/#callbackquery>
#[derive(Debug)]
pub struct CallbackQuery {
    pub id: String,
    pub message: Option<Message>,
    pub data: Option<String>,
}

/// <https://core.telegram.org/bots/api/#user>
#[derive(Debug)]
pub struct User {
    pub id: i64,
    pub is_bot: bool,
    pub first_name: String,
}

/// <https://core.telegram.org/bots/api/#chat>
#[derive(Debug)]
pub struct Chat {
    pub id: i64,
    pub chat_type: ChatType,
    pub title: Option<String>,
}

/// Kind of a chat; unknown kinds and a missing kind read as `Unknown`.
#[derive(Clone, Copy, PartialEq, Eq, Structural, Debug)]
pub enum ChatType {
    Private,
    Group,
    SuperGroup,
    Channel,
    Unknown,
}

impl Default for ChatType {
    fn default() -> (r: ChatType)
        ensures
            r == ChatType::Unknown,
    {
        ChatType::Unknown
    }
}

/// <https://core.telegram.org/bots/api/#inlinekeyboardmarkup>
#[derive(Debug, Clone)]
pub struct InlineKeyboardMarkup {
    pub inline_keyboard: Vec<Vec<InlineKeyboardButton>>,
}

/// <https://core.telegram.org/bots/api/#inlinekeyboardbutton>
#[derive(Debug, Clone)]
pub struct InlineKeyboardButton {
    pub text: String,
    pub callback_data: String,
}

/// <https://core.telegram.org/bots/api/#replykeyboardmarkup>
#[derive(Debug, Clone)]
pub struct ReplyKeyboardMarkup {
    pub keyboard: Vec<Vec<KeyboardButton>>,
    pub one_time_keyboard: bool,
}

/// <https://core.telegram.org/bots/api/#keyboardbutton>
#[derive(Debug, Clone)]
pub struct KeyboardButton {
    pub text: String,
}

/// <https://core.telegram.org/bots/api/#replykeyboardremove>
#[derive(Debug, Clone)]
pub struct ReplyKeyboardRemove {
    pub remove_keyboard: bool,
}

/// Any of the keyboards a reply can carry.
#[derive(Debug, Clone)]
pub enum CommonKeyboardMarkup {
    Inline(InlineKeyboardMarkup),
    Reply(ReplyKeyboardMarkup),
    Remove(ReplyKeyboardRemove),
}

/// The envelope of every Telegram Bot API reply.
#[derive(Debug)]
pub struct BaseResponse {
    pub ok: bool,
    pub description: Option<String>,
}

/// Message of the error for a rejected request without a description.
pub open spec fn no_description_message() -> Seq<char> {
    "Error description was not provided"@
}

/// What a Telegram reply (or the failure to get one) means for the request: accepted,
/// rejected with the API's description, or the transport error.
pub open spec fn telegram_outcome_spec(r: Result<(bool, Option<Seq<char>>), CommonErrorView>) -> Result<(), CommonErrorView> {
    match r {
        Err(e) => Err(e),
        Ok((true, _)) => Ok(()),
        Ok((false, Some(d))) => Err(error_spec(ErrorKind::Internal, d)),
        Ok((false, None)) => Err(error_spec(ErrorKind::Internal, no_description_message())),
    }
}

pub open spec fn response_view(r: Result<BaseResponse, CommonError>) -> Result<(bool, Option<Seq<char>>), CommonErrorView> {
    match r {
        Err(e) => Err(e@),
        Ok(b) => Ok((b.ok, match b.description { Some(d) => Some(d@), None => None })),
    }
}

pub open spec fn unit_result_view(r: Result<(), CommonError>) -> Result<(), CommonErrorView> {
    match r {
        Err(e) => Err(e@),
        Ok(()) => Ok(()),
    }
}

/// Interprets a Telegram reply: a reply that is not `ok` is an internal error carrying the
/// API's description.
pub fn with_telegram_error(response: Result<BaseResponse, CommonError>) -> (r: Result<(), CommonError>)
    ensures
        unit_result_view(r) == telegram_outcome_spec(response_view(response)),
{
    match response {
        Err(e) => Err(e),
        Ok(b) => {
            if b.ok {
                Ok(())
            } else {
                match b.description {
                    Some(d) => Err(CommonError::internal(d.as_str())),
                    None => Err(CommonError::internal("Error description was not provided")),
                }
            }
        },
    }
}

/// The Telegram Bot API of one bot.
pub struct TelegramApi {
    pub base_url: String,
}

impl TelegramApi {
    /// The API of the bot with the given access token.
    pub fn new(access_token: &str) -> (r: TelegramApi)
        ensures
            r.base_url@ == "https://api.telegram.org/bot"@ + access_token@,
    {
        let mut base_url = String::new();
        push_str(&mut base_url, "https://api.telegram.org/bot");
        push_str(&mut base_url, access_token);
        TelegramApi { base_url }
    }

    fn endpoint(&self, path: &str) -> (r: String)
        ensures
            r@ == self.base_url@ + path@,
    {
        let mut url = copy_string(self.base_url.as_str());
        push_str(&mut url, path);
        url
    }

    /// `GET /setWebhook?url=...`
    pub fn set_webhook(&self, url: &str) -> (r: ApiRequest)
        ensures
            r.url@ == self.base_url@ + "/setWebhook"@,
            r.query@.len() == 1,
            r.query@[0].key@ == "url"@ && r.query@[0].value@ == url@,
    {
        let mut query: Vec<QueryParam> = Vec::new();
        query.push(QueryParam::new("url", url));
        ApiRequest { url: self.endpoint("/setWebhook"), query }
    }

    /// `GET /sendMessage?chat_id=...&text=...[&reply_markup=...]`
    pub fn send_message(&self, chat_id: i64, text: &str, keyboard: Option<&str>) -> (r: ApiRequest)
        ensures
            r.url@ == self.base_url@ + "/sendMessage"@,
            r.query@.len() == (if keyboard is Some { 3int } else { 2int }),
            r.query@[0].key@ == "chat_id"@ && r.query@[0].value@ == decimal(chat_id as int),
            r.query@[1].key@ == "text"@ && r.query@[1].value@ == text@,
            keyboard matches Some(k) ==> r.query@[2].key@ == "reply_markup"@ && r.query@[2].value@ == k@,
    {
        let mut query: Vec<QueryParam> = Vec::new();
        let mut id = String::new();
        push_decimal(&mut id, chat_id);
        query.push(QueryParam::new("chat_id", id.as_str()));
        query.push(QueryParam::new("text", text));
        if let Some(k) = keyboard {
            query.push(QueryParam::new("reply_markup", k));
        }
        ApiRequest { url: self.endpoint("/sendMessage"), query }
    }

    /// `GET /deleteMessage?chat_id=...&message_id=...`
    pub fn delete_message(&self, chat_id: i64, message_id: i64) -> (r: ApiRequest)
        ensures
            r.url@ == self.base_url@ + "/deleteMessage"@,
            r.query@.len() == 2,
            r.query@[0].key@ == "chat_id"@ && r.query@[0].value@ == decimal(chat_id as int),
            r.query@[1].key@ == "message_id"@ && r.query@[1].value@ == decimal(message_id as int),
    {
        let mut query: Vec<QueryParam> = Vec::new();
        let mut id = String::new();
        push_decimal(&mut id, chat_id);
        let mut mid = String::new();
        push_decimal(&mut mid, message_id);
        query.push(QueryParam::new("chat_id", id.as_str()));
        query.push(QueryParam::new("message_id", mid.as_str()));
        ApiRequest { url: self.endpoint("/deleteMessage"), query }
    }
}

/// Sets the bot's webhook; must run before the server starts.
pub struct SetWebhookUseCase(pub Arc<TelegramApi>);

impl SetWebhookUseCase {
    pub fn new(telegram_api: Arc<TelegramApi>) -> (r: Self)
        ensures
            r.0 == telegram_api,
    {
        SetWebhookUseCase(telegram_api)
    }
}

/// Sends a reply message to a Telegram chat.
pub struct ReplyToTelegramUseCase(pub Arc<TelegramApi>);

impl ReplyToTelegramUseCase {
    pub fn new(telegram_api: Arc<TelegramApi>) -> (r: Self)
        ensures
            r.0 == telegram_api,
    {
        ReplyToTelegramUseCase(telegram_api)
    }
}

/// Deletes a message in a Telegram chat.
pub struct DeleteMessageUseCase(pub Arc<TelegramApi>);

impl DeleteMessageUseCase {
    pub fn new(telegram_api: Arc<TelegramApi>) -> (r: Self)
        ensures
            r.0 == telegram_api,
    {
        DeleteMessageUseCase(telegram_api)
    }
}

/// What the bot does with an update.
#[derive(Debug)]
pub enum UpdatePlan {
    /// The webhook was called with another secret: refuse the update.
    Refuse,
    /// Answer the chat `chat_id`: to the message `text`, or, where it has none, that such
    /// messages are not understood.
    Answer { chat_id: i64, text: Option<String> },
    /// Acknowledge the update and do nothing.
    Ignore,
}

/// How the bot handles `update` that came to the webhook for `secret` when it expects
/// `expected`: another secret is refused; an update with a message is answered in its chat;
/// any other update is ignored.
pub fn plan_update(update: Update, secret: &str, expected: &str) -> (r: UpdatePlan)
    ensures
        secret@ != expected@ ==> r is Refuse,
        secret@ == expected@ ==> match update.message {
            None => r is Ignore,
            Some(message) => r matches UpdatePlan::Answer { chat_id, text }
                && chat_id == message.chat.id && text == message.text,
        },
{
    if !str_equals(secret, expected) {
        return UpdatePlan::Refuse;
    }
    match update.message {
        None => UpdatePlan::Ignore,
        Some(message) => UpdatePlan::Answer { chat_id: message.chat.id, text: message.text },
    }
}

} // verus!
