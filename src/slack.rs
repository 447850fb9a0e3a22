//! The chat platform's side: which events are answered, how a thread's
//! replies become the messages of a completion request, and which attached
//! file is sent along as an image.
use vstd::prelude::*;
use vstd::string::*;
use std::sync::Arc;
use base64::Engine;
use crate::ipc::ChannelMessage;

verus! {

/// Whether two strings hold the same text.
fn same_text(a: &str, b: &str) -> (r: bool)
    ensures
        r == (a@ == b@),
{
    String::from_str(a) == String::from_str(b)
}

impl ChannelMessage {
    /// Whether the envelope goes to the event-callback handler; every other
    /// event type is ignored.
    pub fn is_event_callback(&self) -> (r: bool)
        ensures
            r == (self.event_type() == "event_callback"@),
    {
        match self {
            ChannelMessage::SlackEvent(m) => same_text(m.event_type.as_str(), "event_callback"),
        }
    }
}

/// Whether an event is a user's message that the worker answers: a
/// `message`, plain or sharing a file, that no bot posted.
pub open spec fn answers_event(event_type: Seq<char>, subtype: Option<Seq<char>>, from_bot: bool) -> bool {
    &&& !from_bot
    &&& event_type == "message"@
    &&& (subtype is None || subtype == Some("file_share"@))
}

/// Decides whether an event callback is answered.
pub fn should_answer(event_type: &str, subtype: &Option<String>, bot_id: &Option<String>) -> (r: bool)
    ensures
        r == answers_event(
            event_type@,
            match subtype {
                Some(s) => Some(s@),
                None => None,
            },
            bot_id is Some,
        ),
{
    if bot_id.is_some() {
        return false;
    }
    if !same_text(event_type, "message") {
        return false;
    }
    match subtype {
        None => true,
        Some(s) => same_text(s.as_str(), "file_share"),
    }
}

/// What the front handler does with an event, by its top-level type.
#[derive(PartialEq, Eq, Structural, Clone, Copy, Debug)]
pub enum EventRoute {
    /// Answer the platform's handshake with its challenge.
    UrlVerification,
    /// Relay the event to the worker and answer `ok`.
    EventCallback,
    /// Refuse.
    Forbidden,
}

pub fn route_event(event_type: &str) -> (r: EventRoute)
    ensures
        r == (if event_type@ == "url_verification"@ {
            EventRoute::UrlVerification
        } else if event_type@ == "event_callback"@ {
            EventRoute::EventCallback
        } else {
            EventRoute::Forbidden
        }),
{
    if same_text(event_type, "url_verification") {
        EventRoute::UrlVerification
    } else if same_text(event_type, "event_callback") {
        EventRoute::EventCallback
    } else {
        EventRoute::Forbidden
    }
}

/// What the HTTP front answers, by method and path.
#[derive(PartialEq, Eq, Structural, Clone, Copy, Debug)]
pub enum RequestRoute {
    SlackEvents,
    Root,
    NotFound,
}

pub fn route_request(method: &str, path: &str) -> (r: RequestRoute)
    ensures
        r == (if method@ == "POST"@ && path@ == "/slack/events"@ {
            RequestRoute::SlackEvents
        } else if method@ == "GET"@ && path@ == "/"@ {
            RequestRoute::Root
        } else {
            RequestRoute::NotFound
        }),
{
    if same_text(method, "POST") && same_text(path, "/slack/events") {
        RequestRoute::SlackEvents
    } else if same_text(method, "GET") && same_text(path, "/") {
        RequestRoute::Root
    } else {
        RequestRoute::NotFound
    }
}

/// A message posted: where it stands.
pub struct PostResult {
    pub channel: String,
    pub ts: String,
    pub thread_ts: Option<String>,
}

/// One message of a thread.
pub struct RepliesMessage {
    pub message_type: String,
    pub ts: String,
    pub text: String,
    pub thread_ts: String,
    pub bot_id: Option<String>,
}

/// The messages of a thread, oldest first.
pub struct RepliesResult {
    pub messages: Vec<RepliesMessage>,
}

/// A file attached to a message.
pub struct MessageFile {
    pub id: String,
    pub mimetype: String,
    pub url_private_download: Option<String>,
    pub size: u64,
}

/// An image given to the completion service by URL.
pub struct CompletionsRequestMessageImageURL {
    pub url: String,
    pub detail: String,
}

/// One part of a request message: text, or an image.
pub struct CompletionsRequestMessageContent {
    pub content_type: String,
    pub text: Option<String>,
    pub image_url: Option<CompletionsRequestMessageImageURL>,
}

/// One role-tagged message of a completion request.
pub struct CompletionsRequestMessage {
    pub role: String,
    pub content: Vec<CompletionsRequestMessageContent>,
}

/// A part of a request message, as plain values.
pub ghost enum PartView {
    Text(Seq<char>),
    Image(Seq<char>, Seq<char>),
}

/// A request message, as plain values.
pub ghost struct RequestView {
    pub role: Seq<char>,
    pub parts: Seq<PartView>,
}

pub open spec fn part_view(c: CompletionsRequestMessageContent) -> PartView {
    match c.image_url {
        Some(u) => PartView::Image(u.url@, u.detail@),
        None => PartView::Text(
            match c.text {
                Some(t) => t@,
                None => Seq::empty(),
            },
        ),
    }
}

pub open spec fn well_formed_part(c: CompletionsRequestMessageContent) -> bool {
    match c.image_url {
        Some(_) => c.content_type@ == "image_url"@ && c.text is None,
        None => c.content_type@ == "text"@ && c.text is Some,
    }
}

pub open spec fn request_view(m: CompletionsRequestMessage) -> RequestView {
    RequestView { role: m.role@, parts: m.content@.map_values(|c: CompletionsRequestMessageContent| part_view(c)) }
}

pub open spec fn well_formed_request(m: CompletionsRequestMessage) -> bool {
    forall|i: int| 0 <= i < m.content@.len() ==> well_formed_part(#[trigger] m.content@[i])
}

fn text_part(text: String) -> (r: CompletionsRequestMessageContent)
    ensures
        well_formed_part(r),
        part_view(r) == PartView::Text(text@),
{
    CompletionsRequestMessageContent { content_type: String::from_str("text"), text: Some(text), image_url: None }
}

/// The request message a reply of the thread becomes, if any. The message
/// that started this exchange (`ts` equal to `event_ts`) carries the
/// image, if there is one; other user messages carry their text; a bot's
/// messages are the assistant's; anything that is not a message is left out.
pub open spec fn request_for_reply(
    message_type: Seq<char>,
    ts: Seq<char>,
    text: Seq<char>,
    from_bot: bool,
    event_ts: Seq<char>,
    image: Option<Seq<char>>,
) -> Option<RequestView> {
    if message_type != "message"@ {
        None
    } else if from_bot {
        Some(RequestView { role: "assistant"@, parts: seq![PartView::Text(text)] })
    } else if ts == event_ts && image is Some {
        Some(
            RequestView {
                role: "user"@,
                parts: seq![PartView::Text(text), PartView::Image(image->0, "low"@)],
            },
        )
    } else {
        Some(RequestView { role: "user"@, parts: seq![PartView::Text(text)] })
    }
}

pub open spec fn reply_request(m: RepliesMessage, event_ts: Seq<char>, image: Option<Seq<char>>) -> Option<RequestView> {
    request_for_reply(m.message_type@, m.ts@, m.text@, m.bot_id is Some, event_ts, image)
}

/// The request messages for a thread's replies, in order.
pub open spec fn thread_requests(ms: Seq<RepliesMessage>, event_ts: Seq<char>, image: Option<Seq<char>>) -> Seq<RequestView>
    decreases ms.len(),
{
    if ms.len() == 0 {
        Seq::empty()
    } else {
        thread_requests(ms.drop_last(), event_ts, image) + crate::window::opt_seq(
            reply_request(ms.last(), event_ts, image),
        )
    }
}

pub open spec fn requests_view(v: Seq<CompletionsRequestMessage>) -> Seq<RequestView> {
    v.map_values(|m: CompletionsRequestMessage| request_view(m))
}

pub open spec fn opt_text(o: Option<String>) -> Option<Seq<char>> {
    match o {
        Some(s) => Some(s@),
        None => None,
    }
}

/// The request message for one reply of the thread.
pub fn request_for(message: &RepliesMessage, event_ts: &str, image_url: &Option<String>) -> (r: Option<
    CompletionsRequestMessage,
>)
    ensures
        match r {
            Some(m) => well_formed_request(m) && reply_request(*message, event_ts@, opt_text(*image_url))
                == Some(request_view(m)),
            None => reply_request(*message, event_ts@, opt_text(*image_url)) is None,
        },
{
    if !same_text(message.message_type.as_str(), "message") {
        return None;
    }
    let text = message.text.clone();
    let mut content: Vec<CompletionsRequestMessageContent> = Vec::new();
    content.push(text_part(text));
    if message.bot_id.is_some() {
        let m = CompletionsRequestMessage { role: String::from_str("assistant"), content };
        proof {
            assert(request_view(m).parts =~= seq![PartView::Text(message.text@)]);
        }
        return Some(m);
    }
    if same_text(message.ts.as_str(), event_ts) {
        match image_url {
            Some(url) => {
                let image = CompletionsRequestMessageImageURL { url: url.clone(), detail: String::from_str("low") };
                content.push(
                    CompletionsRequestMessageContent {
                        content_type: String::from_str("image_url"),
                        text: None,
                        image_url: Some(image),
                    },
                );
            },
            None => {},
        }
    }
    let m = CompletionsRequestMessage { role: String::from_str("user"), content };
    proof {
        if message.ts@ == event_ts@ && image_url is Some {
            assert(request_view(m).parts =~= seq![
                PartView::Text(message.text@),
                PartView::Image(image_url->0@, "low"@),
            ]);
        } else {
            assert(request_view(m).parts =~= seq![PartView::Text(message.text@)]);
        }
    }
    Some(m)
}

/// The request messages for a thread: the system messages first, then one
/// for each reply that is a message, in order.
pub fn request_messages(
    system: Vec<CompletionsRequestMessage>,
    replies: &Vec<RepliesMessage>,
    event_ts: &str,
    image_url: &Option<String>,
) -> (r: Vec<CompletionsRequestMessage>)
    ensures
        requests_view(r@) == requests_view(system@) + thread_requests(
            replies@,
            event_ts@,
            opt_text(*image_url),
        ),
{
    let ghost image = opt_text(*image_url);
    let mut out = system;
    let ghost sys = requests_view(out@);
    let mut i: usize = 0;
    while i < replies.len()
        invariant
            i <= replies@.len(),
            image == opt_text(*image_url),
            requests_view(out@) == sys + thread_requests(replies@.take(i as int), event_ts@, image),
        decreases replies@.len() - i,
    {
        let ghost o = out@;
        let m = request_for(&replies[i], event_ts, image_url);
        proof {
            assert(replies@.take(i as int + 1).drop_last() =~= replies@.take(i as int));
            assert(replies@.take(i as int + 1).last() == replies@[i as int]);
        }
        match m {
            Some(m) => {
                out.push(m);
                proof {
                    assert(requests_view(out@) =~= requests_view(o).push(request_view(m)));
                }
            },
            None => {},
        }
        i = i + 1;
    }
    proof {
        assert(replies@.take(i as int) =~= replies@);
    }
    out
}

/// A system message carrying `text`.
pub fn system_message(text: String) -> (r: CompletionsRequestMessage)
    ensures
        well_formed_request(r),
        request_view(r) == (RequestView { role: "system"@, parts: seq![PartView::Text(text@)] }),
{
    let mut content: Vec<CompletionsRequestMessageContent> = Vec::new();
    let ghost t = text@;
    content.push(text_part(text));
    let r = CompletionsRequestMessage { role: String::from_str("system"), content };
    proof {
        assert(request_view(r).parts =~= seq![PartView::Text(t)]);
    }
    r
}

/// Whether a file of this type is sent along as an image.
pub open spec fn is_image_type(mimetype: Seq<char>) -> bool {
    mimetype == "image/jpeg"@ || mimetype == "image/png"@
}

/// The URL and type of the first attached file, if it has a download URL
/// and is an image of a type that is sent along.
pub open spec fn image_choice(files: Option<Vec<MessageFile>>) -> Option<(Seq<char>, Seq<char>)> {
    match files {
        Some(fs) => if fs@.len() > 0 {
            match fs@[0].url_private_download {
                Some(u) => if is_image_type(fs@[0].mimetype@) {
                    Some((u@, fs@[0].mimetype@))
                } else {
                    None
                },
                None => None,
            }
        } else {
            None
        },
        None => None,
    }
}

/// The file to download as the message's image: the first attached file,
/// if it has a download URL and is a JPEG or PNG image. Returns its URL and
/// type.
pub fn image_to_download(files: &Option<Vec<MessageFile>>) -> (r: Option<(String, String)>)
    ensures
        match r {
            Some(p) => image_choice(*files) == Some((p.0@, p.1@)),
            None => image_choice(*files) is None,
        },
{
    let files = match files {
        Some(f) => f,
        None => return None,
    };
    if files.len() == 0 {
        return None;
    }
    let file = &files[0];
    let url = match &file.url_private_download {
        Some(u) => u,
        None => return None,
    };
    if same_text(file.mimetype.as_str(), "image/jpeg") || same_text(file.mimetype.as_str(), "image/png") {
        Some((url.clone(), file.mimetype.clone()))
    } else {
        None
    }
}

/// The data URL of an image: `data:`, its type, `;base64,`, its data.
pub fn data_url(mimetype: &str, data_base64: &str) -> (r: String)
    ensures
        r@ == "data:"@ + mimetype@ + ";base64,"@ + data_base64@,
{
    let mut r = String::from_str("data:");
    r.append(mimetype);
    r.append(";base64,");
    r.append(data_base64);
    r
}

/// What the standard base64 alphabet, with padding, gives for `b`.
pub uninterp spec fn base64_of(b: Seq<u8>) -> Seq<char>;

/// Relies on base64's STANDARD engine: padded output, four characters for
/// every started group of three bytes. Its length is computed with checked
/// arithmetic, which cannot overflow for inputs of at most half the address
/// space.
#[verifier::external_body]
fn base64_standard(data: &[u8]) -> (r: String)
    requires
        data@.len() <= usize::MAX / 2,
    ensures
        r@ == base64_of(data@),
        r@.len() == 4 * ((data@.len() + 2) / 3),
{
    base64::engine::general_purpose::STANDARD.encode(data)
}

/// Image handling for the completion request.
pub struct ImageProcess {}

impl ImageProcess {
    pub fn new() -> (r: Arc<ImageProcess>) {
        Arc::new(ImageProcess {})
    }

    /// The data in standard base64, padded.
    pub fn base64(&self, data: Vec<u8>) -> (r: String)
        requires
            data@.len() <= usize::MAX / 2,
        ensures
            r@ == base64_of(data@),
            r@.len() == 4 * ((data@.len() + 2) / 3),
    {
        base64_standard(data.as_slice())
    }

    /// The data URL of downloaded image data of the given type.
    pub fn image_data_url(&self, mimetype: &str, data: Vec<u8>) -> (r: String)
        requires
            data@.len() <= usize::MAX / 2,
        ensures
            r@ == "data:"@ + mimetype@ + ";base64,"@ + base64_of(data@),
    {
        let encoded = self.base64(data);
        data_url(mimetype, encoded.as_str())
    }
}

/// The text of the placeholder posted while a reply is being generated.
pub fn processing_text(text: &str) -> (r: String)
    ensures
        r@ == "Hi! `[Processing "@ + text@ + "...]`"@,
{
    let mut r = String::from_str("Hi! `[Processing ");
    r.append(text);
    r.append("...]`");
    r
}

/// A plain-text HTTP answer.
pub struct SimpleResponse {
    pub status: u16,
    pub body: String,
}

pub fn text_response(status: u16, body: &str) -> (r: SimpleResponse)
    ensures
        r.status == status,
        r.body@ == body@,
{
    SimpleResponse { status, body: String::from_str(body) }
}

/// `403 forbidden`: a request that failed verification, or an event of a
/// type that is not handled.
pub fn forbidden_response() -> (r: SimpleResponse)
    ensures
        r.status == 403,
        r.body@ == "forbidden"@,
{
    text_response(403, "forbidden")
}

/// `500 internal server error`: handling a verified request failed.
pub fn internal_server_error_response() -> (r: SimpleResponse)
    ensures
        r.status == 500,
        r.body@ == "internal server error"@,
{
    text_response(500, "internal server error")
}

/// The answer for a request route that is not the event endpoint.
pub fn static_response(route: RequestRoute) -> (r: Option<SimpleResponse>)
    ensures
        route == RequestRoute::SlackEvents <==> r is None,
        route == RequestRoute::Root ==> (r matches Some(x) && x.status == 200 && x.body@ == "Hello world"@),
        route == RequestRoute::NotFound ==> (r matches Some(x) && x.status == 404 && x.body@ == "not found"@),
{
    match route {
        RequestRoute::SlackEvents => None,
        RequestRoute::Root => Some(text_response(200, "Hello world")),
        RequestRoute::NotFound => Some(text_response(404, "not found")),
    }
}

} // verus!
