use beaconship::json::{JsonPost, CONTENT_TYPE};
use beaconship::pushover::{
    delivery, dispatch, frame_notice, send_notice, Delivery, PushOverMsg, PUSHOVER_URL,
};

fn body_of(msg: &str, app_token: &str, user_token: &str) -> String {
    send_notice(msg, app_token, user_token).body
}

#[test]
fn notices_go_to_the_pushover_endpoint() {
    assert_eq!(PUSHOVER_URL, "https://api.pushover.net/1/messages.json");
}

#[test]
fn notices_are_posted_as_json() {
    assert_eq!(CONTENT_TYPE, "application/json");
}

#[test]
fn notice_is_posted_to_the_endpoint_with_its_three_fields() {
    assert_eq!(
        send_notice("Ship has sunk h1", "app", "u1"),
        JsonPost {
            uri: "https://api.pushover.net/1/messages.json".to_string(),
            body: "{\"message\":\"Ship has sunk h1\",\"token\":\"app\",\"user\":\"u1\"}"
                .to_string(),
        }
    );
}

#[test]
fn every_notice_gets_a_request() {
    for text in ["", "\u{0}", "\"", "\\", "\u{7f}\u{80}\u{10ffff}", "a\nb\tc\r"] {
        let post = send_notice(text, text, text);
        let value: serde_json::Value = serde_json::from_str(&post.body).unwrap();
        assert_eq!(value["message"].as_str(), Some(text));
        assert_eq!(value["token"].as_str(), Some(text));
        assert_eq!(value["user"].as_str(), Some(text));
    }
}

#[test]
fn dispatch_prepares_one_notice_per_receiver_in_order() {
    let receivers = vec!["u1".to_string(), "u2".to_string(), "u1".to_string()];
    let batch = dispatch("msg", "tok", &receivers);
    let notice = |user: &str| PushOverMsg {
        message: "msg".to_string(),
        token: "tok".to_string(),
        user: user.to_string(),
    };
    assert_eq!(batch, vec![notice("u1"), notice("u2"), notice("u1")]);
}

#[test]
fn dispatch_to_nobody_prepares_nothing() {
    assert!(dispatch("msg", "tok", &Vec::new()).is_empty());
}

#[test]
fn success_statuses_count_as_sent() {
    assert_eq!(delivery(Some(200)), Delivery::Sent);
    assert_eq!(delivery(Some(201)), Delivery::Sent);
    assert_eq!(delivery(Some(299)), Delivery::Sent);
}

#[test]
fn other_statuses_count_as_rejected() {
    assert_eq!(delivery(Some(0)), Delivery::Rejected(0));
    assert_eq!(delivery(Some(199)), Delivery::Rejected(199));
    assert_eq!(delivery(Some(300)), Delivery::Rejected(300));
    assert_eq!(delivery(Some(404)), Delivery::Rejected(404));
    assert_eq!(delivery(Some(500)), Delivery::Rejected(500));
    assert_eq!(delivery(Some(u16::MAX)), Delivery::Rejected(u16::MAX));
}

#[test]
fn no_answer_counts_as_failed() {
    assert_eq!(delivery(None), Delivery::Failed);
}

#[test]
fn notice_frame_is_a_json_object_of_three_fields() {
    assert_eq!(
        frame_notice("\"m\"", "\"t\"", "\"u\""),
        JsonPost {
            uri: PUSHOVER_URL.to_string(),
            body: "{\"message\":\"m\",\"token\":\"t\",\"user\":\"u\"}".to_string(),
        }
    );
    assert_eq!(frame_notice("", "", "").body, "{\"message\":,\"token\":,\"user\":}");
}

#[test]
fn notice_body_escapes_what_json_cannot_hold() {
    assert_eq!(
        body_of("line one\n\n\"quoted\" \\ tab\t", "a\u{1}b", "\u{e4}\u{2693}"),
        "{\"message\":\"line one\\n\\n\\\"quoted\\\" \\\\ tab\\t\",\"token\":\"a\\u0001b\",\"user\":\"\u{e4}\u{2693}\"}"
    );
}

#[test]
fn notice_body_reads_back_as_the_notice() {
    let message = "Ship has sunk \"h1\" - last seen 0:\n\nuuid: A";
    let body = body_of(message, "app/token", "u\\1");
    let value: serde_json::Value = serde_json::from_str(&body).unwrap();
    let object = value.as_object().unwrap();
    assert_eq!(object.len(), 3);
    assert_eq!(object["message"].as_str(), Some(message));
    assert_eq!(object["token"].as_str(), Some("app/token"));
    assert_eq!(object["user"].as_str(), Some("u\\1"));
}

#[test]
fn notice_body_is_what_serde_json_writes_for_the_object() {
    let mut object = serde_json::Map::new();
    object.insert("message".to_string(), serde_json::Value::String("m \"1\"\r\n".to_string()));
    object.insert("token".to_string(), serde_json::Value::String("t".to_string()));
    object.insert("user".to_string(), serde_json::Value::String("u".to_string()));
    assert_eq!(
        body_of("m \"1\"\r\n", "t", "u"),
        serde_json::to_string(&serde_json::Value::Object(object)).unwrap()
    );
}
