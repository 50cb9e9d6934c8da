//! The chat-webhook request body and the three shapes its responses take.
//!
//! A notification message is one embed with a title, an author block, a
//! deep-link description and a list of fields. The remote endpoint answers
//! every create or update with one of three JSON shapes, decoded here into an
//! explicit sum type rather than a bundle of optional fields.

use vstd::prelude::*;

verus! {

/// One titled field of a notification embed.
#[derive(Debug, Clone, PartialEq)]
pub struct WebhookField {
    pub name: String,
    pub value: String,
    pub inline: bool,
}

/// The mathematical value of a [`WebhookField`].
#[verifier::ext_equal]
pub struct FieldView {
    pub name: Seq<char>,
    pub value: Seq<char>,
    pub inline: bool,
}

impl View for WebhookField {
    type V = FieldView;

    open spec fn view(&self) -> FieldView {
        FieldView { name: self.name@, value: self.value@, inline: self.inline }
    }
}

impl DeepView for WebhookField {
    type V = FieldView;

    open spec fn deep_view(&self) -> FieldView {
        self.view()
    }
}

/// The author block of a notification embed: the host's display name, avatar
/// and profile link.
#[derive(Debug, Clone, PartialEq)]
pub struct WebhookAuthor {
    pub name: String,
    pub icon_url: String,
    pub url: String,
}

/// The mathematical value of a [`WebhookAuthor`].
#[verifier::ext_equal]
pub struct AuthorView {
    pub name: Seq<char>,
    pub icon_url: Seq<char>,
    pub url: Seq<char>,
}

impl View for WebhookAuthor {
    type V = AuthorView;

    open spec fn view(&self) -> AuthorView {
        AuthorView { name: self.name@, icon_url: self.icon_url@, url: self.url@ }
    }
}

impl DeepView for WebhookAuthor {
    type V = AuthorView;

    open spec fn deep_view(&self) -> AuthorView {
        self.view()
    }
}

/// One embed of a notification message.
#[derive(Debug, Clone, PartialEq)]
pub struct WebhookEmbed {
    pub title: String,
    pub author: WebhookAuthor,
    pub description: String,
    pub fields: Vec<WebhookField>,
}

/// The mathematical value of a [`WebhookEmbed`].
#[verifier::ext_equal]
pub struct EmbedView {
    pub title: Seq<char>,
    pub author: AuthorView,
    pub description: Seq<char>,
    pub fields: Seq<FieldView>,
}

impl View for WebhookEmbed {
    type V = EmbedView;

    open spec fn view(&self) -> EmbedView {
        EmbedView {
            title: self.title@,
            author: self.author@,
            description: self.description@,
            fields: self.fields.deep_view(),
        }
    }
}

impl DeepView for WebhookEmbed {
    type V = EmbedView;

    open spec fn deep_view(&self) -> EmbedView {
        self.view()
    }
}

/// The whole webhook request body.
#[derive(Debug, Clone, PartialEq)]
pub struct WebhookBody {
    pub avatar_url: Option<String>,
    pub embeds: Vec<WebhookEmbed>,
}

/// The mathematical value of a [`WebhookBody`].
#[verifier::ext_equal]
pub struct BodyView {
    pub avatar_url: Option<Seq<char>>,
    pub embeds: Seq<EmbedView>,
}

impl View for WebhookBody {
    type V = BodyView;

    open spec fn view(&self) -> BodyView {
        BodyView { avatar_url: self.avatar_url.deep_view(), embeds: self.embeds.deep_view() }
    }
}

impl DeepView for WebhookBody {
    type V = BodyView;

    open spec fn deep_view(&self) -> BodyView {
        self.view()
    }
}

/// The endpoint that creates a message, asking for delivery confirmation so
/// the response carries the message id.
pub open spec fn create_url_text(webhook: Seq<char>) -> Seq<char> {
    webhook + "?wait=true"@
}

/// The endpoint that updates the message `message_id`, asking for delivery
/// confirmation.
pub open spec fn update_url_text(webhook: Seq<char>, message_id: Seq<char>) -> Seq<char> {
    webhook + "/messages/"@ + message_id + "?wait=true"@
}

/// The endpoint that removes the message `message_id`.
pub open spec fn delete_url_text(webhook: Seq<char>, message_id: Seq<char>) -> Seq<char> {
    webhook + "/messages/"@ + message_id
}

/// Builds the create endpoint for a webhook.
pub fn create_url(webhook: &str) -> (r: String)
    ensures
        r@ == create_url_text(webhook@),
{
    let mut s = String::from_str(webhook);
    s.append("?wait=true");
    s
}

/// Builds the update endpoint for a message of a webhook.
pub fn update_url(webhook: &str, message_id: &str) -> (r: String)
    ensures
        r@ == update_url_text(webhook@, message_id@),
{
    let mut s = String::from_str(webhook);
    s.append("/messages/");
    s.append(message_id);
    s.append("?wait=true");
    proof {
        assert(s@ =~= update_url_text(webhook@, message_id@));
    }
    s
}

/// Builds the delete endpoint for a message of a webhook.
pub fn delete_url(webhook: &str, message_id: &str) -> (r: String)
    ensures
        r@ == delete_url_text(webhook@, message_id@),
{
    let mut s = String::from_str(webhook);
    s.append("/messages/");
    s.append(message_id);
    proof {
        assert(s@ =~= delete_url_text(webhook@, message_id@));
    }
    s
}

/// A webhook response, distinguished by which fields the JSON body carries:
/// a message id alone means success, a retry delay means the call was rate
/// limited, and a numeric code means the endpoint rejected the call.
#[derive(Debug, Clone, PartialEq)]
pub enum WebhookResponse {
    /// The message was created or updated; `id` is its message id.
    Success { id: String },
    /// The call was rejected for rate limiting and may be retried after the
    /// given delay.
    Ratelimit { global: bool, message: String, retry_after_millis: u64 },
    /// The endpoint rejected the call with an error code.
    Error { message: String, code: i64 },
}

} // verus!
