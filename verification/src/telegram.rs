//! The delivery side: building one channel message from a normalized post,
//! and reading the channel's reply.
//!
//! The HTTP exchange itself is not here; callers serialize the prepared media
//! list, perform the request, decode the reply into [`TelegramReply`], and
//! hand it back to [`interpret_reply`].

use vstd::prelude::*;
use vstd::string::StringExecFns;

use crate::config::Snowflake;
use crate::numeral::push_char;
use crate::sources::source::{ForeignMedia, ForeignPost};

verus! {

/// The expansion of one character under minimal HTML escaping.
pub open spec fn escape_char(c: char) -> Seq<char> {
    if c == '&' {
        seq!['&', 'a', 'm', 'p', ';']
    } else if c == '>' {
        seq!['&', 'g', 't', ';']
    } else if c == '<' {
        seq!['&', 'l', 't', ';']
    } else {
        seq![c]
    }
}

/// Minimal HTML escaping of a whole string: `&`, `<` and `>` become entities,
/// everything else stays.
pub open spec fn spec_escaped(s: Seq<char>) -> Seq<char>
    decreases s.len(),
{
    if s.len() == 0 {
        Seq::empty()
    } else {
        spec_escaped(s.drop_last()) + escape_char(s.last())
    }
}

/// A string shown inside channel-message HTML, so `&`, `<` and `>` must be
/// escaped when rendering it.
pub struct ProtectedString<'a>(pub &'a str);

impl<'a> ProtectedString<'a> {
    /// The string with minimal HTML escaping applied.
    pub fn escaped(&self) -> (r: String)
        ensures
            r@ == spec_escaped(self.0@),
    {
        let n = self.0.unicode_len();
        let mut out = String::new();
        let mut i: usize = 0;
        while i < n
            invariant
                i <= n,
                n == self.0@.len(),
                out@ == spec_escaped(self.0@.take(i as int)),
            decreases n - i,
        {
            let c = self.0.get_char(i);
            proof {
                assert(self.0@.take(i + 1).drop_last() =~= self.0@.take(i as int));
                assert(self.0@.take(i + 1).last() == c);
            }
            match c {
                '&' => out.append("&amp;"),
                '>' => out.append("&gt;"),
                '<' => out.append("&lt;"),
                _ => push_char(&mut out, c),
            }
            proof {
                reveal_strlit("&amp;");
                reveal_strlit("&gt;");
                reveal_strlit("&lt;");
                assert("&amp;"@ =~= seq!['&', 'a', 'm', 'p', ';']);
                assert("&gt;"@ =~= seq!['&', 'g', 't', ';']);
                assert("&lt;"@ =~= seq!['&', 'l', 't', ';']);
                assert(out@ =~= spec_escaped(self.0@.take(i + 1)));
            }
            i = i + 1;
        }
        proof {
            assert(self.0@.take(n as int) =~= self.0@);
        }
        out
    }
}

/// Kind of one media entry of a channel message.
#[derive(Debug, Clone, Copy, PartialEq, Eq, Structural)]
pub enum TelegramMediaType {
    Photo,
    Video,
}

/// One media entry of a channel message.
#[derive(Debug, Clone, PartialEq)]
pub struct TelegramMedia {
    pub kind: TelegramMediaType,
    pub media: String,
    pub caption: Option<String>,
    pub parse_mode: Option<String>,
}

/// The channel's decoded reply to one send: the ids of the created messages,
/// or an error with an optional rate-limit window in seconds.
#[derive(Debug, Clone, PartialEq)]
pub enum TelegramReply {
    Success { message_ids: Vec<u64> },
    Failure { error_code: u32, description: String, retry_after: Option<u64> },
}

/// What one delivery attempt came to.
#[derive(Debug, Clone, PartialEq)]
pub enum SendOutcome {
    /// The channel confirmed the message.
    Delivered { message_id: u64 },
    /// The channel asked to wait this many seconds before retrying.
    RateLimited { retry_secs: u64 },
    /// Any other failure; the post is skipped for this run.
    Rejected { error_code: u32, description: String },
}

/// Classifies a decoded reply: code 429 with a given window is a rate limit,
/// any other error is a rejection, success carries the first message id.
pub fn interpret_reply(reply: TelegramReply) -> (r: SendOutcome)
    requires
        reply matches TelegramReply::Success { message_ids } ==> message_ids@.len() > 0,
    ensures
        match reply {
            TelegramReply::Success { message_ids } => r == (SendOutcome::Delivered {
                message_id: message_ids@[0],
            }),
            TelegramReply::Failure { error_code, description, retry_after } => if error_code
                == 429 && retry_after is Some {
                r == (SendOutcome::RateLimited { retry_secs: retry_after->0 })
            } else {
                r == (SendOutcome::Rejected { error_code, description })
            },
        },
{
    match reply {
        TelegramReply::Success { message_ids } => SendOutcome::Delivered {
            message_id: message_ids[0],
        },
        TelegramReply::Failure { error_code, description, retry_after } => match retry_after {
            Some(retry_secs) if error_code == 429 => SendOutcome::RateLimited { retry_secs },
            _ => SendOutcome::Rejected { error_code, description },
        },
    }
}

/// Client handle for one delivery channel.
pub struct TelegramClient {
    pub token: String,
    pub channel_id: Snowflake,
}

/// A message being built for the channel: the caption text and the media
/// group it will carry.
pub struct SendMessage {
    pub token: String,
    pub channel_id: Snowflake,
    pub text: String,
    pub media: Vec<TelegramMedia>,
}

/// The media entry a post's media maps to: same URL, kind by media variant,
/// no caption yet.
pub open spec fn spec_media_of(m: ForeignMedia) -> TelegramMedia {
    match m {
        ForeignMedia::Photo(u) => TelegramMedia {
            kind: TelegramMediaType::Photo,
            media: u,
            caption: None,
            parse_mode: None,
        },
        ForeignMedia::Video(u) => TelegramMedia {
            kind: TelegramMediaType::Video,
            media: u,
            caption: None,
            parse_mode: None,
        },
    }
}

/// The caption a post renders to: its escaped text, then a source link with
/// the escaped source name.
pub open spec fn spec_caption_text(text: Seq<char>, url: Seq<char>, source: Seq<char>) -> Seq<
    char,
> {
    spec_escaped(text) + "\n\nsrc: <a href=\""@ + url + "\">"@ + spec_escaped(source) + "</a>"@
}

impl TelegramClient {
    pub fn new(token: String, channel_id: Snowflake) -> (r: Self)
        ensures
            r.token == token,
            r.channel_id == channel_id,
    {
        TelegramClient { token, channel_id }
    }

    /// Start building a message for this client's channel.
    pub fn send_message(&self) -> (r: SendMessage)
        ensures
            r.token == self.token,
            r.channel_id == self.channel_id,
            r.text@ == Seq::<char>::empty(),
            r.media@ == Seq::<TelegramMedia>::empty(),
    {
        SendMessage {
            token: self.token.clone(),
            channel_id: self.channel_id.duplicate(),
            text: String::new(),
            media: Vec::new(),
        }
    }
}

impl SendMessage {
    /// Fill the message from a normalized post: caption text with source link,
    /// and one media entry per post media.
    pub fn by_foreign(self, foreign: &ForeignPost) -> (r: Self)
        ensures
            r.token == self.token,
            r.channel_id == self.channel_id,
            r.text@ == spec_caption_text(foreign.text@, foreign.url@, foreign.source@),
            r.media@ == foreign.media@.map_values(|m: ForeignMedia| spec_media_of(m)),
    {
        let mut text = ProtectedString(foreign.text.as_str()).escaped();
        text.append("\n\nsrc: <a href=\"");
        text.append(foreign.url.as_str());
        text.append("\">");
        let escaped_source = ProtectedString(foreign.source.as_str()).escaped();
        text.append(escaped_source.as_str());
        text.append("</a>");
        let mut media: Vec<TelegramMedia> = Vec::new();
        let n = foreign.media.len();
        let mut i: usize = 0;
        while i < n
            invariant
                i <= n,
                n == foreign.media@.len(),
                media@ == foreign.media@.take(i as int).map_values(
                    |m: ForeignMedia| spec_media_of(m),
                ),
            decreases n - i,
        {
            let entry = match &foreign.media[i] {
                ForeignMedia::Photo(u) => TelegramMedia {
                    kind: TelegramMediaType::Photo,
                    media: u.clone(),
                    caption: None,
                    parse_mode: None,
                },
                ForeignMedia::Video(u) => TelegramMedia {
                    kind: TelegramMediaType::Video,
                    media: u.clone(),
                    caption: None,
                    parse_mode: None,
                },
            };
            media.push(entry);
            proof {
                assert(media@ =~= foreign.media@.take(i + 1).map_values(
                    |m: ForeignMedia| spec_media_of(m),
                ));
            }
            i = i + 1;
        }
        proof {
            assert(foreign.media@.take(n as int) =~= foreign.media@);
        }
        SendMessage { token: self.token, channel_id: self.channel_id, text, media }
    }

    /// Finish the message: the caption and HTML parse mode move onto the first
    /// media entry. Returns the token, the channel, and the media group ready
    /// to serialize and send.
    pub fn prepare(self) -> (r: (String, Snowflake, Vec<TelegramMedia>))
        requires
            self.media@.len() > 0,
        ensures
            r.0 == self.token,
            r.1 == self.channel_id,
            r.2@.len() == self.media@.len(),
            r.2@[0].kind == self.media@[0].kind,
            r.2@[0].media == self.media@[0].media,
            r.2@[0].caption == Some(self.text),
            r.2@[0].parse_mode matches Some(pm) && pm@ == "HTML"@,
            forall|i: int| 1 <= i < self.media@.len() ==> r.2@[i] == self.media@[i],
    {
        let SendMessage { token, channel_id, text, mut media } = self;
        let kind = media[0].kind;
        let url = media[0].media.clone();
        let replacement = TelegramMedia {
            kind,
            media: url,
            caption: Some(text),
            parse_mode: Some("HTML".to_owned()),
        };
        media[0] = replacement;
        (token, channel_id, media)
    }
}

} // verus!
