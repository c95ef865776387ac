//! Acting as another user (or as a character) through Discord webhooks.
use vstd::prelude::*;
use crate::error::BotError;
use poise::serenity_prelude::{ChannelId, ExecuteWebhook, Http};

verus! {

/// What to send through a webhook.
pub enum WebhookMessage {
    /// Plain text.
    Text(String),
    /// A fully built webhook message.
    Builder(ExecuteWebhook),
}

/// Why acting as another user failed.
#[derive(Debug)]
pub enum FakeUserError {
    /// The stored webhook no longer exists.
    InvalidWebhook { webhook_url: String },
}

/// Someone the bot speaks as, through a webhook in one channel.
pub struct FakeUser<'a> {
    webhook_url: Option<String>,
    avatar_url: String,
    name: String,
    temporary: bool,
    http: &'a Http,
    channel: ChannelId,
}

impl<'a> FakeUser<'a> {
    /// The stored webhook URL (without the temporary rule).
    pub closed spec fn spec_webhook_url(&self) -> Option<String> {
        self.webhook_url
    }

    /// Whether the webhook is freed after one message.
    pub closed spec fn spec_temporary(&self) -> bool {
        self.temporary
    }

    /// The name shown on messages.
    pub closed spec fn spec_name(&self) -> Seq<char> {
        self.name@
    }

    /// The avatar shown on messages.
    pub closed spec fn spec_avatar_url(&self) -> Seq<char> {
        self.avatar_url@
    }

    /// The channel the webhook posts to.
    pub closed spec fn spec_channel(&self) -> ChannelId {
        self.channel
    }

    /// The client used to reach Discord.
    pub closed spec fn spec_http(&self) -> &'a Http {
        self.http
    }

    /// The name a user is shown under in a server: the nickname there, else
    /// the display name.
    pub fn get_user_name(nick: Option<String>, display_name: &str) -> (r: String)
        ensures
            match nick {
                Some(n) => r == n,
                None => r@ == display_name@,
            },
    {
        match nick {
            Some(n) => n,
            None => display_name.to_string(),
        }
    }

    /// A user's avatar: the custom one if they have one, else Discord's
    /// default avatar.
    pub fn get_user_avatar_url(avatar_url: Option<String>, default_avatar_url: String) -> (r: String)
        ensures
            match avatar_url {
                Some(u) => r == u,
                None => r == default_avatar_url,
            },
    {
        match avatar_url {
            Some(url) => url,
            None => default_avatar_url,
        }
    }

    /// Returns `None` if using a temporary hook, as they get automatically
    /// freed after usage.
    pub fn get_webhook_url(&self) -> (r: Option<String>)
        ensures
            self.spec_temporary() ==> r.is_none(),
            !self.spec_temporary() ==> r == self.spec_webhook_url(),
    {
        match self.temporary {
            true => None,
            false => match &self.webhook_url {
                Some(url) => Some(url.clone()),
                None => None,
            },
        }
    }

    /// The webhook a message is sent through, temporary or not; fails when
    /// the user has no webhook.
    pub fn send_target(&self) -> (r: Result<String, BotError>)
        ensures
            match self.spec_webhook_url() {
                Some(url) => r == Ok::<String, BotError>(url),
                None => r matches Err(BotError::String(s)) && s@ == "Failed to get webhook URL"@,
            },
    {
        match &self.webhook_url {
            Some(url) => Ok(url.clone()),
            None => Err(BotError::String("Failed to get webhook URL".to_string())),
        }
    }

    /// Whether the webhook must be deleted once the message went out.
    pub fn deletes_hook_after_send(&self) -> (r: bool)
        ensures
            r == self.spec_temporary(),
    {
        self.temporary
    }

    /// The client used to reach Discord.
    pub fn http(&self) -> (r: &'a Http)
        ensures
            r == self.spec_http(),
    {
        self.http
    }

    /// The channel the webhook posts to.
    pub fn channel(&self) -> (r: ChannelId)
        ensures
            r == self.spec_channel(),
    {
        self.channel
    }

    /// The name shown on messages.
    pub fn name(&self) -> (r: &String)
        ensures
            r@ == self.spec_name(),
    {
        &self.name
    }

    /// The avatar shown on messages.
    pub fn avatar_url(&self) -> (r: &String)
        ensures
            r@ == self.spec_avatar_url(),
    {
        &self.avatar_url
    }
}

/// Makes [`FakeUser`]s for one channel.
pub struct FakeUserMaker<'a> {
    http: &'a Http,
    channel: ChannelId,
}

impl<'a> FakeUserMaker<'a> {
    /// The client used to reach Discord.
    pub closed spec fn spec_http(&self) -> &'a Http {
        self.http
    }

    /// The channel the users will speak in.
    pub closed spec fn spec_channel(&self) -> ChannelId {
        self.channel
    }

    /// A maker for the channel the command came from.
    pub fn new(http: &'a Http, channel: ChannelId) -> (r: Self)
        ensures
            r.spec_http() == http,
            r.spec_channel() == channel,
    {
        FakeUserMaker { http, channel }
    }

    /// The client used to reach Discord.
    pub fn http(&self) -> (r: &'a Http)
        ensures
            r == self.spec_http(),
    {
        self.http
    }

    /// The channel the users will speak in.
    pub fn channel(&self) -> (r: ChannelId)
        ensures
            r == self.spec_channel(),
    {
        self.channel
    }

    /// A user speaking through a webhook that was just created, at
    /// `webhook_url`.
    pub fn new_hook(self, name: &str, avatar_url: &str, temporary: bool, webhook_url: String) -> (r:
        FakeUser<'a>)
        ensures
            r.spec_temporary() == temporary,
            r.spec_name() == name@,
            r.spec_avatar_url() == avatar_url@,
            r.spec_webhook_url() == Some(webhook_url),
            r.spec_http() == self.spec_http(),
            r.spec_channel() == self.spec_channel(),
    {
        FakeUser {
            temporary,
            name: name.to_string(),
            avatar_url: avatar_url.to_string(),
            webhook_url: Some(webhook_url),
            http: self.http,
            channel: self.channel,
        }
    }

    /// A user speaking through a stored webhook. `webhook_exists` is whether
    /// Discord still knows the webhook; if it does not, this returns
    /// [`FakeUserError::InvalidWebhook`].
    pub fn existing(
        self,
        webhook_url: &str,
        backup_name: &str,
        backup_avatar_url: &str,
        webhook_exists: bool,
    ) -> (r: Result<FakeUser<'a>, BotError>)
        ensures
            webhook_exists <==> r is Ok,
            match r {
                Ok(u) => {
                    &&& !u.spec_temporary()
                    &&& u.spec_name() == backup_name@
                    &&& u.spec_avatar_url() == backup_avatar_url@
                    &&& u.spec_webhook_url() matches Some(w) && w@ == webhook_url@
                    &&& u.spec_http() == self.spec_http()
                    &&& u.spec_channel() == self.spec_channel()
                },
                Err(e) => e matches BotError::FakeUser(FakeUserError::InvalidWebhook { webhook_url: w })
                    && w@ == webhook_url@,
            },
    {
        if !webhook_exists {
            return Err(
                BotError::FakeUser(
                    FakeUserError::InvalidWebhook { webhook_url: webhook_url.to_string() },
                ),
            );
        }
        Ok(
            FakeUser {
                temporary: false,
                name: backup_name.to_string(),
                webhook_url: Some(webhook_url.to_string()),
                avatar_url: backup_avatar_url.to_string(),
                http: self.http,
                channel: self.channel,
            },
        )
    }

    /// A user of the server, shown under `name` with `avatar_url`, through
    /// the temporary webhook at `webhook_url` that was just created for them
    /// and is deleted after one message.
    pub fn user(self, name: String, avatar_url: String, webhook_url: String) -> (r: FakeUser<'a>)
        ensures
            r.spec_temporary(),
            r.spec_webhook_url() == Some(webhook_url),
            r.spec_name() == name@,
            r.spec_avatar_url() == avatar_url@,
            r.spec_http() == self.spec_http(),
            r.spec_channel() == self.spec_channel(),
    {
        FakeUser {
            webhook_url: Some(webhook_url),
            temporary: true,
            name,
            avatar_url,
            http: self.http,
            channel: self.channel,
        }
    }
}

} // verus!
