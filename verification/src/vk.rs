//! VK callback API models and the handling of its replies.
use vstd::prelude::*;
use crate::api::{ApiRequest, QueryParam};
use crate::errors::{error_spec, CommonError, CommonErrorView, ErrorKind};
use crate::text::{chars_of, decimal, push_decimal, str_equals};

verus! {

/// Version of the VK API the bot speaks.
pub const VK_API_VERSION: &'static str = "5.130";

/// Base URL of the VK API.
pub const VK_BASE_URL: &'static str = "https://api.vk.com";

/// <https://dev.vk.com/api/callback/getting-started>
#[derive(Debug)]
pub struct VkCallbackRequest {
    pub callback_type: VkCallbackType,
    pub group_id: i64,
    pub secret: Option<String>,
    pub object: Option<NewMessageObject>,
}

/// Kind of a callback; unknown kinds and a missing kind read as `Unknown`.
#[derive(Clone, Copy, PartialEq, Eq, Structural, Debug)]
pub enum VkCallbackType {
    Confirmation,
    MessageNew,
    Unknown,
}

impl Default for VkCallbackType {
    fn default() -> (r: VkCallbackType)
        ensures
            r == VkCallbackType::Unknown,
    {
        VkCallbackType::Unknown
    }
}

/// Payload of a `message_new` callback.
#[derive(Debug)]
pub struct NewMessageObject {
    pub message: Message,
    pub client_info: ClientInfo,
}

/// A message sent to the community.
#[derive(Debug)]
pub struct Message {
    pub id: i64,
    pub date: u64,
    pub peer_id: i64,
    pub from_id: i64,
    pub text: Option<String>,
    pub payload: Option<String>,
}

/// Where a message comes from.
#[derive(Clone, Copy, PartialEq, Eq, Structural, Debug)]
pub enum MessagePeerType {
    GroupChat,
    Community,
    User,
}

/// Peers above two billion are group chats, negative peers are communities, the rest users.
pub open spec fn peer_type_spec(peer_id: i64) -> MessagePeerType {
    if peer_id > 2000000000 {
        MessagePeerType::GroupChat
    } else if peer_id < 0 {
        MessagePeerType::Community
    } else {
        MessagePeerType::User
    }
}

impl Message {
    /// Where the message comes from, by its peer id.
    pub fn peer_type(&self) -> (r: MessagePeerType)
        ensures
            r == peer_type_spec(self.peer_id),
    {
        if self.peer_id > 2000000000 {
            MessagePeerType::GroupChat
        } else if self.peer_id < 0 {
            MessagePeerType::Community
        } else {
            MessagePeerType::User
        }
    }
}

/// What the user's client supports.
#[derive(Debug)]
pub struct ClientInfo {
    pub button_actions: Vec<ButtonActionType>,
    pub keyboard: bool,
    pub inline_keyboard: bool,
    pub carousel: bool,
}

/// Kind of a keyboard button; unknown kinds read as `Unknown`.
#[derive(Clone, Copy, PartialEq, Eq, Structural, Debug)]
pub enum ButtonActionType {
    Text,
    VkPay,
    OpenApp,
    Location,
    OpenLink,
    OpenPhoto,
    Callback,
    IntentSubscribe,
    IntentUnsubscribe,
    Unknown,
}

impl Default for ButtonActionType {
    fn default() -> (r: ButtonActionType)
        ensures
            r == ButtonActionType::Unknown,
    {
        ButtonActionType::Unknown
    }
}

/// A bot keyboard.
#[derive(Debug, Clone)]
pub struct Keyboard {
    pub buttons: Vec<Vec<KeyboardButton>>,
    pub inline: bool,
    pub one_time: bool,
}

/// A button of a bot keyboard.
#[derive(Debug, Clone)]
pub struct KeyboardButton {
    pub action: KeyboardButtonAction,
    pub color: Option<String>,
}

/// What pressing a button does.
#[derive(Debug, Clone)]
pub struct KeyboardButtonAction {
    pub action_type: ButtonActionType,
    pub label: String,
    pub payload: Option<String>,
}

/// Error part of a VK API reply.
#[derive(Debug)]
pub struct BaseResponseError {
    pub error_msg: String,
}

/// The envelope of every VK API reply.
#[derive(Debug)]
pub struct BaseResponse {
    pub error: Option<BaseResponseError>,
}

/// What a VK reply (or the failure to get one) means for the request: accepted, rejected
/// with the API's message, or the transport error.
pub open spec fn vk_outcome_spec(r: Result<Option<Seq<char>>, CommonErrorView>) -> Result<(), CommonErrorView> {
    match r {
        Err(e) => Err(e),
        Ok(None) => Ok(()),
        Ok(Some(m)) => Err(error_spec(ErrorKind::Internal, m)),
    }
}

pub open spec fn vk_response_view(r: Result<BaseResponse, CommonError>) -> Result<Option<Seq<char>>, CommonErrorView> {
    match r {
        Err(e) => Err(e@),
        Ok(b) => Ok(match b.error { Some(e) => Some(e.error_msg@), None => None }),
    }
}

/// Interprets a VK reply: a reply with an error is an internal error carrying its message.
pub fn with_vk_error(response: Result<BaseResponse, CommonError>) -> (r: Result<(), CommonError>)
    ensures
        crate::telegram::unit_result_view(r) == vk_outcome_spec(vk_response_view(response)),
{
    match response {
        Err(e) => Err(e),
        Ok(b) => match b.error {
            Some(e) => Err(CommonError::internal(e.error_msg.as_str())),
            None => Ok(()),
        },
    }
}

/// `GET https://api.vk.com/method/messages.send` with the message, its random id and the
/// optional keyboard (serialized).
pub fn send_message_request(
    access_token: &str,
    random_id: u32,
    text: &str,
    peer_id: i64,
    keyboard: Option<&str>,
) -> (r: ApiRequest)
    ensures
        r.url@ == VK_BASE_URL@ + "/method/messages.send"@,
        r.query@.len() == (if keyboard is Some { 6int } else { 5int }),
        r.query@[0].key@ == "api_version"@ && r.query@[0].value@ == VK_API_VERSION@,
        r.query@[1].key@ == "access_token"@ && r.query@[1].value@ == access_token@,
        r.query@[2].key@ == "random_id"@ && r.query@[2].value@ == decimal(random_id as int),
        r.query@[3].key@ == "text"@ && r.query@[3].value@ == text@,
        r.query@[4].key@ == "peer_id"@ && r.query@[4].value@ == decimal(peer_id as int),
        keyboard matches Some(k) ==> r.query@[5].key@ == "keyboard"@ && r.query@[5].value@ == k@,
{
    let mut url = String::new();
    crate::text::push_str(&mut url, VK_BASE_URL);
    crate::text::push_str(&mut url, "/method/messages.send");
    let mut query: Vec<QueryParam> = Vec::new();
    query.push(QueryParam::new("api_version", VK_API_VERSION));
    query.push(QueryParam::new("access_token", access_token));
    let mut rid = String::new();
    push_decimal(&mut rid, random_id as i64);
    query.push(QueryParam::new("random_id", rid.as_str()));
    query.push(QueryParam::new("text", text));
    let mut pid = String::new();
    push_decimal(&mut pid, peer_id);
    query.push(QueryParam::new("peer_id", pid.as_str()));
    if let Some(k) = keyboard {
        query.push(QueryParam::new("keyboard", k));
    }
    ApiRequest { url, query }
}

/// Draws the random id of an outgoing message with `rand::random::<u32>()`. Nothing is
/// claimed of the number drawn.
#[verifier::external_body]
fn random_message_id() -> u32 {
    rand::random::<u32>()
}

/// Sends reply messages to VK.
#[derive(Debug, Clone, Copy, Default)]
pub struct ReplyToVkUseCase;

impl ReplyToVkUseCase {
    /// The request that sends `text` (with the serialized keyboard, if any) to `peer_id`,
    /// under a freshly drawn random id.
    pub fn reply_request(&self, access_token: &str, text: &str, peer_id: i64, keyboard: Option<&str>) -> (r: ApiRequest)
        ensures
            r.url@ == VK_BASE_URL@ + "/method/messages.send"@,
            r.query@.len() == (if keyboard is Some { 6int } else { 5int }),
            r.query@[0].key@ == "api_version"@ && r.query@[0].value@ == VK_API_VERSION@,
            r.query@[1].key@ == "access_token"@ && r.query@[1].value@ == access_token@,
            r.query@[2].key@ == "random_id"@ && exists|id: u32| r.query@[2].value@ == decimal(id as int),
            r.query@[3].key@ == "text"@ && r.query@[3].value@ == text@,
            r.query@[4].key@ == "peer_id"@ && r.query@[4].value@ == decimal(peer_id as int),
            keyboard matches Some(k) ==> r.query@[5].key@ == "keyboard"@ && r.query@[5].value@ == k@,
    {
        let id = random_message_id();
        send_message_request(access_token, id, text, peer_id, keyboard)
    }
}

/// What the bot does with a callback.
#[derive(Debug)]
pub enum CallbackPlan {
    /// The callback does not carry the expected secret: refuse it.
    Refuse,
    /// Answer the server with the confirmation code.
    Confirm,
    /// Answer the user `peer_id`: to the message `text`, or, where it has none, that such
    /// messages are not understood.
    Answer { peer_id: i64, text: Option<String> },
    /// Acknowledge the callback and do nothing.
    Ignore,
}

/// The callback carries the secret the bot expects, or the bot expects none.
pub open spec fn secret_accepted(given: Option<String>, expected: Option<String>) -> bool {
    match expected {
        None => true,
        Some(e) => given matches Some(g) && g@ == e@,
    }
}

/// How the bot handles `request` when it expects the secret `expected`: a callback without
/// it is refused; a confirmation is confirmed; a new message from a user (not from a chat
/// or a community) is answered, to its text if it has a non-empty one; the rest is ignored.
pub fn plan_callback(request: VkCallbackRequest, expected: &Option<String>) -> (r: CallbackPlan)
    ensures
        !secret_accepted(request.secret, *expected) ==> r is Refuse,
        secret_accepted(request.secret, *expected) ==> match request.callback_type {
            VkCallbackType::Confirmation => r is Confirm,
            VkCallbackType::Unknown => r is Ignore,
            VkCallbackType::MessageNew => match request.object {
                None => r is Ignore,
                Some(object) => if peer_type_spec(object.message.peer_id) != MessagePeerType::User {
                    r is Ignore
                } else {
                    r matches CallbackPlan::Answer { peer_id, text } && peer_id == object.message.peer_id
                        && match object.message.text {
                            Some(t) if t@.len() > 0 => text == Some(t),
                            _ => text is None,
                        }
                },
            },
        },
{
    let accepted = match expected {
        None => true,
        Some(e) => match &request.secret {
            Some(g) => str_equals(g.as_str(), e.as_str()),
            None => false,
        },
    };
    if !accepted {
        return CallbackPlan::Refuse;
    }
    match request.callback_type {
        VkCallbackType::Confirmation => CallbackPlan::Confirm,
        VkCallbackType::Unknown => CallbackPlan::Ignore,
        VkCallbackType::MessageNew => match request.object {
            None => CallbackPlan::Ignore,
            Some(object) => {
                let message = object.message;
                if message.peer_type() != MessagePeerType::User {
                    CallbackPlan::Ignore
                } else {
                    let peer_id = message.peer_id;
                    let text = match message.text {
                        Some(t) => if chars_of(t.as_str()).len() > 0 { Some(t) } else { None },
                        None => None,
                    };
                    CallbackPlan::Answer { peer_id, text }
                }
            },
        },
    }
}

} // verus!
