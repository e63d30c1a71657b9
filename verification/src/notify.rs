//! Notifications: action buttons and the URLs behind them.

use crate::text::{
    eq_ignore_case, from_chars, is_text, is_text_ignore_case, push_all, push_str, slice, to_chars,
    trim, trimmed,
    opt_str,
    opt_text,
};
use crate::url::{encode_query_value, percent_encoded};
use vstd::prelude::*;
use vstd::utf8::encode_utf8;

verus! {

/// One header of an action's request.
#[derive(Debug, Clone, PartialEq, Eq)]
pub struct Header {
    pub name: String,
    pub value: String,
}

/// ntfy.sh action button configuration.
#[derive(Debug, Clone, PartialEq, Eq)]
pub struct NtfyAction {
    /// "view", "http", "broadcast"
    pub action: String,
    /// Button text
    pub label: String,
    /// URL for http/view actions
    pub url: Option<String>,
    /// HTTP method (GET, POST, etc.)
    pub method: Option<String>,
    /// Custom headers
    pub headers: Option<Vec<Header>>,
    /// Request body for POST
    pub body: Option<String>,
}

/// An action button as the contracts speak of it.
pub struct ActionView {
    pub action: Seq<char>,
    pub label: Seq<char>,
    pub url: Option<Seq<char>>,
    pub method: Option<Seq<char>>,
    pub headers: Option<Seq<(Seq<char>, Seq<char>)>>,
    pub body: Option<Seq<char>>,
}

pub open spec fn header_views(v: Seq<Header>) -> Seq<(Seq<char>, Seq<char>)> {
    Seq::new(v.len(), |i: int| (v[i].name@, v[i].value@))
}

impl View for NtfyAction {
    type V = ActionView;

    open spec fn view(&self) -> ActionView {
        ActionView {
            action: self.action@,
            label: self.label@,
            url: opt_text(self.url),
            method: opt_text(self.method),
            headers: match self.headers {
                Some(h) => Some(header_views(h@)),
                None => None,
            },
            body: opt_text(self.body),
        }
    }
}

pub open spec fn action_views(v: Seq<NtfyAction>) -> Seq<ActionView> {
    Seq::new(v.len(), |i: int| v[i]@)
}

/// A button that opens a URL.
pub open spec fn view_action(label: Seq<char>, url: Seq<char>) -> ActionView {
    ActionView {
        action: "view"@,
        label: label,
        url: Some(url),
        method: None,
        headers: None,
        body: None,
    }
}

/// A button that sends an HTTP POST.
pub open spec fn post_action(label: Seq<char>, url: Seq<char>) -> ActionView {
    ActionView {
        action: "http"@,
        label: label,
        url: Some(url),
        method: Some("POST"@),
        headers: None,
        body: None,
    }
}

impl NtfyAction {
    /// Create a simple view URL action button.
    pub fn view(label: &str, url: &str) -> (r: Self)
        ensures
            r@ == view_action(label@, url@),
    {
        NtfyAction {
            action: "view".to_string(),
            label: label.to_string(),
            url: Some(url.to_string()),
            method: None,
            headers: None,
            body: None,
        }
    }

    /// Create an HTTP POST action button.
    pub fn http_post(label: &str, url: &str) -> (r: Self)
        ensures
            r@ == post_action(label@, url@),
    {
        NtfyAction {
            action: "http".to_string(),
            label: label.to_string(),
            url: Some(url.to_string()),
            method: Some("POST".to_string()),
            headers: None,
            body: None,
        }
    }

    /// Add custom headers to the action.
    pub fn with_headers(self, headers: Vec<Header>) -> (r: Self)
        ensures
            r@ == (ActionView { headers: Some(header_views(headers@)), ..self@ }),
    {
        let mut a = self;
        a.headers = Some(headers);
        a
    }

    /// Add body to the action.
    pub fn with_body(self, body: &str) -> (r: Self)
        ensures
            r@ == (ActionView { body: Some(body@), ..self@ }),
    {
        let mut a = self;
        a.body = Some(body.to_string());
        a
    }
}

/// Where action buttons point: the webhook server's base URL and the secret
/// that authorizes a request.
#[derive(Debug, Clone)]
pub struct WebhookLink {
    pub base_url: String,
    pub secret: String,
}

/// The URL of a webhook action: the base URL, the route, and the server name
/// and the token as percent-encoded query values.
pub open spec fn action_url(
    base: Seq<char>,
    route: Seq<char>,
    server: Seq<char>,
    token: Seq<char>,
) -> Seq<char> {
    base + route + "?server="@ + percent_encoded(encode_utf8(server)) + "&token="@
        + percent_encoded(encode_utf8(token))
}

pub fn build_action_url(link: &WebhookLink, route: &str, server_name: &str) -> (r: String)
    ensures
        r@ == action_url(link.base_url@, route@, server_name@, link.secret@),
{
    let mut out = to_chars(link.base_url.as_str());
    push_str(&mut out, route);
    push_str(&mut out, "?server=");
    let s = encode_query_value(server_name);
    push_str(&mut out, s.as_str());
    push_str(&mut out, "&token=");
    let t = encode_query_value(link.secret.as_str());
    push_str(&mut out, t.as_str());
    from_chars(&out)
}

/// The largest number of action buttons that a notification carries.
pub const MAX_ACTIONS: usize = 3;

// ---------------------------------------------------------------------------
// Gotify
// ---------------------------------------------------------------------------

/// The priority of a Gotify message.
pub const GOTIFY_DEFAULT_PRIORITY: u8 = 5;

/// The priority of an ntfy message.
pub const NTFY_DEFAULT_PRIORITY: u8 = 4;

/// Where Gotify messages go where no URL is configured.
pub const DEFAULT_GOTIFY_URL: &'static str = "http://localhost:8080/message";

/// Where ntfy messages go where no URL is configured.
pub const DEFAULT_NTFY_URL: &'static str = "https://ntfy.sh";

/// Where a Gotify key came from.
#[derive(Debug, Clone, Copy, PartialEq, Eq, Structural)]
pub enum KeySource {
    /// The service's own setting.
    Variable,
    /// The key file.
    File,
}

/// What became of the key file.
pub enum KeyFile {
    /// None is configured.
    NotConfigured,
    /// It was read; this is what it holds.
    Read(String),
    /// It could not be read.
    Unreadable,
}

/// Whether a setting is switched on: it is `1`, or `true` in any case.
pub open spec fn is_enabled(value: Option<Seq<char>>) -> bool {
    value is Some && (value->0 == "1"@ || eq_ignore_case(value->0, "true"@))
}

pub fn flag_enabled(value: Option<&str>) -> (r: bool)
    ensures
        r == is_enabled(opt_str(value)),
{
    match value {
        Some(v) => {
            let t = to_chars(v);
            is_text(&t, "1") || is_text_ignore_case(&t, "true")
        },
        None => false,
    }
}

/// The key to send with, and where it came from. The service's own setting
/// decides where it is there, blank or not; the key file is asked only where
/// it is not. A blank key is no key.
pub open spec fn gotify_key_spec(variable: Option<Seq<char>>, file: KeyFile) -> Option<
    (Seq<char>, KeySource),
> {
    match variable {
        Some(v) => if trimmed(v).len() > 0 {
            Some((trimmed(v), KeySource::Variable))
        } else {
            None
        },
        None => match file {
            KeyFile::Read(text) => if trimmed(text@).len() > 0 {
                Some((trimmed(text@), KeySource::File))
            } else {
                None
            },
            _ => None,
        },
    }
}

pub fn resolve_gotify_key(variable: Option<&str>, file: &KeyFile) -> (r: Option<
    (String, KeySource),
>)
    ensures
        match r {
            Some((key, source)) => gotify_key_spec(opt_str(variable), *file) == Some(
                (key@, source),
            ),
            None => gotify_key_spec(opt_str(variable), *file) is None,
        },
{
    match variable {
        Some(v) => {
            let t = trim(&to_chars(v));
            if t.len() > 0 {
                Some((from_chars(&t), KeySource::Variable))
            } else {
                None
            }
        },
        None => match file {
            KeyFile::Read(text) => {
                let t = trim(&to_chars(text.as_str()));
                if t.len() > 0 {
                    Some((from_chars(&t), KeySource::File))
                } else {
                    None
                }
            },
            _ => None,
        },
    }
}

/// A key as a debug line shows it: its first and last three characters
/// around `***`, or `***` alone where it has six characters or fewer.
pub open spec fn masked(key: Seq<char>) -> Seq<char> {
    if key.len() > 6 {
        key.subrange(0, 3) + "***"@ + key.subrange(key.len() - 3, key.len() as int)
    } else {
        "***"@
    }
}

pub fn mask_key(key: &str) -> (r: String)
    ensures
        r@ == masked(key@),
{
    let k = to_chars(key);
    if k.len() > 6 {
        let mut out = slice(&k, 0, 3);
        push_str(&mut out, "***");
        push_all(&mut out, &slice(&k, k.len() - 3, k.len()));
        from_chars(&out)
    } else {
        "***".to_string()
    }
}

/// A message for Gotify.
#[derive(Debug, Clone, PartialEq, Eq)]
pub struct GotifyMessage {
    pub url: String,
    pub key: String,
    pub title: String,
    pub message: String,
    pub priority: u8,
}

/// Lays out a Gotify message.
pub fn gotify_message(url: Option<&str>, key: &str, title: &str, body: &str) -> (r: GotifyMessage)
    ensures
        r.url@ == (match url {
            Some(u) => u@,
            None => DEFAULT_GOTIFY_URL@,
        }),
        r.key@ == key@,
        r.title@ == title@,
        r.message@ == body@,
        r.priority == GOTIFY_DEFAULT_PRIORITY,
{
    GotifyMessage {
        url: match url {
            Some(u) => u.to_string(),
            None => DEFAULT_GOTIFY_URL.to_string(),
        },
        key: key.to_string(),
        title: title.to_string(),
        message: body.to_string(),
        priority: GOTIFY_DEFAULT_PRIORITY,
    }
}

// ---------------------------------------------------------------------------
// ntfy
// ---------------------------------------------------------------------------

/// `s` without its trailing slashes.
pub open spec fn without_trailing_slashes(s: Seq<char>) -> Seq<char>
    decreases s.len(),
{
    if s.len() > 0 && s.last() == '/' {
        without_trailing_slashes(s.drop_last())
    } else {
        s
    }
}

fn strip_trailing_slashes(v: &Vec<char>) -> (r: Vec<char>)
    ensures
        r@ == without_trailing_slashes(v@),
{
    let mut n: usize = v.len();
    assert(v@.subrange(0, n as int) =~= v@);
    while n > 0 && v[n - 1] == '/'
        invariant
            n <= v.len(),
            without_trailing_slashes(v@) == without_trailing_slashes(v@.subrange(0, n as int)),
        decreases n,
    {
        assert(v@.subrange(0, n as int).drop_last() =~= v@.subrange(0, n - 1));
        n -= 1;
    }
    slice(v, 0, n)
}

/// A message for ntfy.
#[derive(Debug, Clone, PartialEq, Eq)]
pub struct NtfyMessage {
    /// Where the message is posted: the server's URL without trailing
    /// slashes.
    pub endpoint: String,
    pub topic: String,
    pub title: String,
    pub message: String,
    pub priority: u8,
    pub markdown: bool,
    /// The action buttons; none where there are none to show.
    pub actions: Vec<NtfyAction>,
    /// The value of the `Authorization` header, where a token is
    /// configured.
    pub authorization: Option<String>,
}

/// Lays out an ntfy message, or none where no topic is configured for the
/// service.
pub fn ntfy_message(
    url: Option<&str>,
    topic: Option<&str>,
    auth_token: Option<&str>,
    title: &str,
    body: &str,
    actions: Option<Vec<NtfyAction>>,
) -> (r: Option<NtfyMessage>)
    ensures
        r is Some <==> (topic is Some && trimmed(topic->0@).len() > 0),
        r matches Some(m) ==> m.endpoint@ == without_trailing_slashes(
            match url {
                Some(u) => u@,
                None => DEFAULT_NTFY_URL@,
            },
        ) && m.topic@ == trimmed(topic->0@) && m.title@ == title@ && m.message@ == body@
            && m.priority == NTFY_DEFAULT_PRIORITY && m.markdown && m.actions@ == (match actions {
            Some(a) => a@,
            None => Seq::<NtfyAction>::empty(),
        }) && opt_text(m.authorization) == (match auth_token {
            Some(t) => Some("Bearer "@ + t@),
            None => None,
        }),
{
    let topic_text = match topic {
        Some(t) => trim(&to_chars(t)),
        None => {
            return None;
        },
    };
    if topic_text.len() == 0 {
        return None;
    }
    let base = match url {
        Some(u) => to_chars(u),
        None => to_chars(DEFAULT_NTFY_URL),
    };
    let authorization = match auth_token {
        Some(t) => {
            let mut a = to_chars("Bearer ");
            push_str(&mut a, t);
            Some(from_chars(&a))
        },
        None => None,
    };
    Some(
        NtfyMessage {
            endpoint: from_chars(&strip_trailing_slashes(&base)),
            topic: from_chars(&topic_text),
            title: title.to_string(),
            message: body.to_string(),
            priority: NTFY_DEFAULT_PRIORITY,
            markdown: true,
            actions: match actions {
                Some(a) => a,
                None => Vec::new(),
            },
            authorization,
        },
    )
}

} // verus!
