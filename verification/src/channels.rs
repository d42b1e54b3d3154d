//! Notification channels (ntfy, webhook, desktop, FCM) and which of them the
//! configuration turns on.
use vstd::prelude::*;
use vstd::string::StrSliceExecFns;
use hmac::{Hmac, Mac};
use sha2::Sha256;
use crate::model::{string_of, opt_view, clone_opt_string};
use crate::notify::{NotificationPayload, format_notification, prefixed_title};
use crate::config::{NotificationsConfig, resolve_secret, has_prefix_env};
use crate::text::{push_str, trim_end_matches_char, trim_end_char, hex_lower};

verus! {

/// Why a channel could not deliver.
#[derive(Debug)]
pub enum NotifyError {
    Failed(String),
}

impl NotifyError {
    pub fn message(&self) -> (r: String)
        ensures
            match self {
                NotifyError::Failed(s) => r@ == "notification failed: "@ + s@,
            },
    {
        match self {
            NotifyError::Failed(s) => {
                let mut r = string_of("notification failed: ");
                push_str(&mut r, s.as_str());
                r
            },
        }
    }
}

// ---------------------------------------------------------------------------
// ntfy
// ---------------------------------------------------------------------------
/// Posts to a topic on an ntfy server.
pub struct NtfyChannel {
    pub server: String,
    pub topic: String,
}

/// The HTTP POST a channel makes.
pub struct NtfyRequest {
    pub url: String,
    pub title: String,
    pub tags: String,
    pub body: String,
}

impl NtfyChannel {
    pub fn new(server: String, topic: String) -> (c: NtfyChannel)
        ensures
            c.server@ == server@,
            c.topic@ == topic@,
    {
        NtfyChannel { server, topic }
    }

    pub fn name(&self) -> (r: String)
        ensures
            r@ == "ntfy"@,
    {
        string_of("ntfy")
    }

    /// The request for a notification: posted to `server/topic` (the server
    /// without trailing slashes), with the formatted title in the `Title` header,
    /// the tags `network,wifi`, and the body as the request body.
    pub fn request(&self, payload: &NotificationPayload) -> (r: NtfyRequest)
        ensures
            r.url@ == trim_end_char(self.server@, '/') + "/"@ + self.topic@,
            r.title@ == prefixed_title(payload.agent_name@, payload.title@),
            r.tags@ == "network,wifi"@,
            r.body@ == payload.body@,
    {
        let (title, body) = format_notification(payload);
        let mut url = trim_end_matches_char(self.server.as_str(), '/');
        push_str(&mut url, "/");
        push_str(&mut url, self.topic.as_str());
        NtfyRequest { url, title, tags: string_of("network,wifi"), body }
    }
}

// ---------------------------------------------------------------------------
// Webhook
// ---------------------------------------------------------------------------
/// What HMAC-SHA256 gives for a key and a message.
pub uninterp spec fn hmac_sha256(key: Seq<u8>, msg: Seq<u8>) -> Seq<u8>;

/// HMAC-SHA256 of `msg` under `key` (`hmac::Hmac::<sha2::Sha256>`): named by
/// `hmac_sha256`, 32 bytes long. `new_from_slice` accepts keys of any length.
#[verifier::external_body]
fn hmac_sha256_bytes(key: &[u8], msg: &[u8]) -> (r: Vec<u8>)
    ensures
        r@ == hmac_sha256(key@, msg@),
        r@.len() == 32,
{
    match Hmac::<Sha256>::new_from_slice(key) {
        Ok(mut mac) => {
            mac.update(msg);
            mac.finalize().into_bytes().to_vec()
        },
        Err(_) => Vec::new(),
    }
}

/// Two lower-case hex digits per byte, in order.
pub open spec fn hex_text(b: Seq<u8>) -> Seq<char>
    decreases b.len(),
{
    if b.len() == 0 {
        Seq::empty()
    } else {
        hex_text(b.drop_last()) + seq![hex_lower(b.last() as int / 16), hex_lower(b.last() as int % 16)]
    }
}

/// `hex::encode`: each byte as two lower-case hex digits.
#[verifier::external_body]
fn hex_encode(b: &[u8]) -> (r: String)
    ensures
        r@ == hex_text(b@),
{
    hex::encode(b)
}

/// Posts the notification as JSON to a URL, signed when a secret is set.
pub struct WebhookChannel {
    pub url: String,
    pub secret: Option<String>,
}

impl WebhookChannel {
    pub fn new(url: String, secret: Option<String>) -> (c: WebhookChannel)
        ensures
            c.url@ == url@,
            opt_view(c.secret) == opt_view(secret),
    {
        WebhookChannel { url, secret }
    }

    pub fn name(&self) -> (r: String)
        ensures
            r@ == "webhook"@,
    {
        string_of("webhook")
    }

    /// The `X-Signature-SHA256` header for a request body: the hex HMAC-SHA256 of
    /// the body's UTF-8 bytes under the secret's, when a secret is set.
    pub fn signature(&self, body: &str) -> (r: Option<String>)
        ensures
            match self.secret {
                Some(s) => r matches Some(x) && x@ == hex_text(
                    hmac_sha256(vstd::utf8::encode_utf8(s@), vstd::utf8::encode_utf8(body@)),
                ),
                None => r is None,
            },
    {
        match &self.secret {
            Some(s) => {
                let key = s.as_str().as_bytes_vec();
                let msg = body.as_bytes_vec();
                let mac = hmac_sha256_bytes(key.as_slice(), msg.as_slice());
                Some(hex_encode(mac.as_slice()))
            },
            None => None,
        }
    }
}

// ---------------------------------------------------------------------------
// Desktop and FCM
// ---------------------------------------------------------------------------
/// Shows a desktop notification.
pub struct DesktopChannel;

impl DesktopChannel {
    pub fn name(&self) -> (r: String)
        ensures
            r@ == "desktop"@,
    {
        string_of("desktop")
    }

    /// The summary and body shown: the formatted title and the body.
    pub fn content(&self, payload: &NotificationPayload) -> (r: (String, String))
        ensures
            r.0@ == prefixed_title(payload.agent_name@, payload.title@),
            r.1@ == payload.body@,
    {
        format_notification(payload)
    }
}

/// Push notifications through Firebase; not available yet.
pub struct FcmChannel {
    pub project_id: Option<String>,
    pub credentials_path: Option<String>,
}

pub open spec fn fcm_unavailable_text() -> Seq<char> {
    "FCM not yet implemented — use ntfy or webhook for Android notifications"@
}

impl FcmChannel {
    pub fn new(project_id: Option<String>, credentials_path: Option<String>) -> (c: FcmChannel)
        ensures
            opt_view(c.project_id) == opt_view(project_id),
            opt_view(c.credentials_path) == opt_view(credentials_path),
    {
        FcmChannel { project_id, credentials_path }
    }

    pub fn name(&self) -> (r: String)
        ensures
            r@ == "fcm"@,
    {
        string_of("fcm")
    }

    /// Every send fails, pointing to ntfy and webhooks instead.
    pub fn send(&self, payload: &NotificationPayload) -> (r: Result<(), NotifyError>)
        ensures
            r matches Err(NotifyError::Failed(m)) && m@ == fcm_unavailable_text(),
    {
        Err(NotifyError::Failed(string_of("FCM not yet implemented — use ntfy or webhook for Android notifications")))
    }
}

// ---------------------------------------------------------------------------
// Dispatcher
// ---------------------------------------------------------------------------
/// A configured channel.
pub enum Channel {
    Ntfy(NtfyChannel),
    Webhook(WebhookChannel),
    Desktop(DesktopChannel),
    Fcm(FcmChannel),
}

/// Which kind of channel a configured channel is.
#[derive(Clone, Copy, Debug, PartialEq, Eq, Structural)]
pub enum ChannelKind {
    Ntfy,
    Webhook,
    Desktop,
    Fcm,
}

pub open spec fn channel_kind(c: Channel) -> ChannelKind {
    match c {
        Channel::Ntfy(_) => ChannelKind::Ntfy,
        Channel::Webhook(_) => ChannelKind::Webhook,
        Channel::Desktop(_) => ChannelKind::Desktop,
        Channel::Fcm(_) => ChannelKind::Fcm,
    }
}

/// The channels a configuration turns on, in order: ntfy when enabled, the
/// webhook when enabled with a non-empty URL, desktop when enabled, FCM when
/// enabled.
pub open spec fn enabled_kinds(c: NotificationsConfig) -> Seq<ChannelKind> {
    (if c.ntfy.enabled { seq![ChannelKind::Ntfy] } else { Seq::empty() })
        + (if c.webhook.enabled && c.webhook.url@.len() > 0 { seq![ChannelKind::Webhook] } else { Seq::empty() })
        + (if c.desktop.enabled { seq![ChannelKind::Desktop] } else { Seq::empty() })
        + (if c.fcm.enabled { seq![ChannelKind::Fcm] } else { Seq::empty() })
}

/// Hands a notification to every configured channel.
pub struct NotificationDispatcher {
    pub channels: Vec<Channel>,
}

impl NotificationDispatcher {
    /// The channels of a configuration. `webhook_secret_env` is the value of the
    /// environment variable the webhook secret names (`env:NAME`), if any.
    pub fn from_config(config: &NotificationsConfig, webhook_secret_env: Option<String>) -> (d: NotificationDispatcher)
        ensures
            d.channels@.map_values(|c: Channel| channel_kind(c)) == enabled_kinds(*config),
            forall|i: int| 0 <= i < d.channels@.len() ==> match #[trigger] d.channels@[i] {
                Channel::Ntfy(n) => n.server@ == config.ntfy.server@ && n.topic@ == config.ntfy.topic@,
                Channel::Webhook(w) => w.url@ == config.webhook.url@ && opt_view(w.secret) == match opt_view(config.webhook.secret) {
                    None => None,
                    Some(v) => if has_prefix_env(v) {
                        opt_view(webhook_secret_env)
                    } else {
                        Some(v)
                    },
                },
                Channel::Desktop(_) => true,
                Channel::Fcm(f) => opt_view(f.project_id) == opt_view(config.fcm.project_id) && opt_view(
                    f.credentials_path,
                ) == opt_view(config.fcm.credentials_path),
            },
    {
        let mut channels: Vec<Channel> = Vec::new();
        let ghost cfg = *config;
        let ghost env = webhook_secret_env;
        if config.ntfy.enabled {
            channels.push(Channel::Ntfy(NtfyChannel::new(config.ntfy.server.clone(), config.ntfy.topic.clone())));
        }
        let ghost after_ntfy = channels@;
        if config.webhook.enabled && config.webhook.url.as_str().unicode_len() > 0 {
            let secret = resolve_secret(&config.webhook.secret, webhook_secret_env);
            channels.push(Channel::Webhook(WebhookChannel::new(config.webhook.url.clone(), secret)));
        }
        let ghost after_webhook = channels@;
        if config.desktop.enabled {
            channels.push(Channel::Desktop(DesktopChannel));
        }
        let ghost after_desktop = channels@;
        if config.fcm.enabled {
            channels.push(
                Channel::Fcm(
                    FcmChannel::new(
                        clone_opt_string(&config.fcm.project_id),
                        clone_opt_string(&config.fcm.credentials_path),
                    ),
                ),
            );
        }
        proof {
            assert(channels@.map_values(|c: Channel| channel_kind(c)) =~= enabled_kinds(cfg));
        }
        NotificationDispatcher { channels }
    }
}

} // verus!
