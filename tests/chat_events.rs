use chat_relay::slack::{
    data_url, forbidden_response, image_to_download, internal_server_error_response, processing_text,
    request_for, request_messages, route_event, route_request, should_answer, static_response, system_message,
    CompletionsRequestMessage, EventRoute, ImageProcess, MessageFile, RepliesMessage, RequestRoute,
};
use chat_relay::verification::{verify_signature, verify_slack_request, VerificationError};
use hmac::Mac;

fn reply(message_type: &str, ts: &str, text: &str, bot: bool) -> RepliesMessage {
    RepliesMessage {
        message_type: message_type.to_string(),
        ts: ts.to_string(),
        text: text.to_string(),
        thread_ts: "1.0".to_string(),
        bot_id: if bot { Some("B1".to_string()) } else { None },
    }
}

fn shape(m: &CompletionsRequestMessage) -> (String, Vec<(String, Option<String>, Option<(String, String)>)>) {
    (
        m.role.clone(),
        m.content
            .iter()
            .map(|c| {
                (
                    c.content_type.clone(),
                    c.text.clone(),
                    c.image_url.as_ref().map(|u| (u.url.clone(), u.detail.clone())),
                )
            })
            .collect(),
    )
}

fn signature_for(secret: &[u8], ts: &str, body: &str) -> String {
    let mut mac = hmac::Hmac::<sha2::Sha256>::new_from_slice(secret).unwrap();
    mac.update(format!("v0:{}:{}", ts, body).as_bytes());
    format!("v0={}", hex::encode(mac.finalize().into_bytes()))
}

#[test]
fn answers_plain_and_file_share_messages_only() {
    assert!(should_answer("message", &None, &None));
    assert!(should_answer("message", &Some("file_share".to_string()), &None));
    assert!(!should_answer("message", &Some("message_changed".to_string()), &None));
    assert!(!should_answer("message", &None, &Some("B1".to_string())));
    assert!(!should_answer("app_mention", &None, &None));
}

#[test]
fn routes() {
    assert_eq!(route_event("url_verification"), EventRoute::UrlVerification);
    assert_eq!(route_event("event_callback"), EventRoute::EventCallback);
    assert_eq!(route_event("other"), EventRoute::Forbidden);
    assert_eq!(route_request("POST", "/slack/events"), RequestRoute::SlackEvents);
    assert_eq!(route_request("GET", "/"), RequestRoute::Root);
    assert_eq!(route_request("GET", "/slack/events"), RequestRoute::NotFound);
    assert_eq!(route_request("POST", "/"), RequestRoute::NotFound);
}

#[test]
fn responses() {
    let f = forbidden_response();
    assert_eq!((f.status, f.body.as_str()), (403, "forbidden"));
    let e = internal_server_error_response();
    assert_eq!((e.status, e.body.as_str()), (500, "internal server error"));
    let root = static_response(RequestRoute::Root).unwrap();
    assert_eq!((root.status, root.body.as_str()), (200, "Hello world"));
    let nf = static_response(RequestRoute::NotFound).unwrap();
    assert_eq!((nf.status, nf.body.as_str()), (404, "not found"));
    assert!(static_response(RequestRoute::SlackEvents).is_none());
}

#[test]
fn texts() {
    assert_eq!(processing_text("hello"), "Hi! `[Processing hello...]`");
}

#[test]
fn thread_becomes_request_messages() {
    let replies = vec![
        reply("message", "1.0", "first", false),
        reply("message", "1.1", "answer", true),
        reply("message", "1.2", "look", false),
        reply("channel_join", "1.3", "joined", false),
    ];
    let system = vec![system_message("be kind".to_string())];
    let image = Some("data:image/png;base64,AAAA".to_string());
    let msgs = request_messages(system, &replies, "1.2", &image);
    let shapes: Vec<_> = msgs.iter().map(shape).collect();
    let t = |s: &str| ("text".to_string(), Some(s.to_string()), None);
    assert_eq!(
        shapes,
        vec![
            ("system".to_string(), vec![t("be kind")]),
            ("user".to_string(), vec![t("first")]),
            ("assistant".to_string(), vec![t("answer")]),
            (
                "user".to_string(),
                vec![
                    t("look"),
                    (
                        "image_url".to_string(),
                        None,
                        Some(("data:image/png;base64,AAAA".to_string(), "low".to_string()))
                    )
                ]
            ),
        ]
    );
    assert!(request_for(&reply("channel_join", "1.2", "x", false), "1.2", &None).is_none());
    let plain = request_for(&reply("message", "1.2", "look", false), "1.2", &None).unwrap();
    assert_eq!(shape(&plain), ("user".to_string(), vec![t("look")]));
}

fn file(mimetype: &str, url: Option<&str>) -> MessageFile {
    MessageFile {
        id: "F1".to_string(),
        mimetype: mimetype.to_string(),
        url_private_download: url.map(|u| u.to_string()),
        size: 10,
    }
}

#[test]
fn image_selection() {
    assert_eq!(image_to_download(&None), None);
    assert_eq!(image_to_download(&Some(vec![])), None);
    assert_eq!(
        image_to_download(&Some(vec![file("image/png", Some("https://f/1")), file("image/jpeg", Some("https://f/2"))])),
        Some(("https://f/1".to_string(), "image/png".to_string()))
    );
    assert_eq!(image_to_download(&Some(vec![file("image/jpeg", Some("https://f/3"))])).unwrap().1, "image/jpeg");
    assert_eq!(image_to_download(&Some(vec![file("image/gif", Some("https://f/4"))])), None);
    assert_eq!(image_to_download(&Some(vec![file("image/png", None)])), None);
}

#[test]
fn base64_and_data_url() {
    let p = ImageProcess::new();
    assert_eq!(p.base64(b"hello".to_vec()), "aGVsbG8=");
    assert_eq!(p.base64(vec![]), "");
    assert_eq!(p.base64(vec![0xfb, 0xff]), "+/8=");
    assert_eq!(p.image_data_url("image/png", b"hi".to_vec()), "data:image/png;base64,aGk=");
    assert_eq!(data_url("image/jpeg", "AA=="), "data:image/jpeg;base64,AA==");
}

#[test]
fn signature_check() {
    let secret = b"8f742231b10e8888abcd99yyyzzz85a5";
    let body = "token=abc&team_id=T1";
    let sig = signature_for(secret, "1531420618", body);
    assert!(sig.starts_with("v0="));
    assert_eq!(sig.len(), 3 + 64);
    assert!(verify_signature(secret, "1531420618", body, &sig));
    assert!(!verify_signature(secret, "1531420619", body, &sig));
    assert!(!verify_signature(b"other", "1531420618", body, &sig));
    assert!(!verify_signature(secret, "1531420618", body, &sig.to_uppercase()));
}

#[test]
fn request_verification_outcomes() {
    let secret = b"secret";
    let body = "{\"type\":\"event_callback\"}";
    let ts = "1700000000";
    let sig = signature_for(secret, ts, body);
    let now = 1_700_000_100;
    assert_eq!(verify_slack_request(secret, Some(body), Some(&sig), Some(ts), now), Ok(()));
    assert_eq!(verify_slack_request(secret, None, Some(&sig), Some(ts), now), Err(VerificationError::NoBody));
    assert_eq!(
        verify_slack_request(secret, Some(body), None, Some(ts), now),
        Err(VerificationError::MissingSignature)
    );
    assert_eq!(
        verify_slack_request(secret, Some(body), Some(&sig), None, now),
        Err(VerificationError::MissingTimestamp)
    );
    assert_eq!(
        verify_slack_request(secret, Some(body), Some(&sig), Some("12a"), now),
        Err(VerificationError::InvalidTimestamp)
    );
    assert_eq!(
        verify_slack_request(secret, Some(body), Some(&sig), Some(ts), 1_700_000_301),
        Err(VerificationError::Stale)
    );
    assert_eq!(verify_slack_request(secret, Some(body), Some(&sig), Some(ts), 1_700_000_300), Ok(()));
    assert_eq!(
        verify_slack_request(secret, Some("{}"), Some(&sig), Some(ts), now),
        Err(VerificationError::SignatureMismatch)
    );
    let plus = signature_for(secret, "+1700000000", body);
    assert_eq!(verify_slack_request(secret, Some(body), Some(&plus), Some("+1700000000"), now), Ok(()));
}
