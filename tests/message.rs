use osc_truegear::link::{next_step, LinkAction, LinkEvent, LinkState};
use osc_truegear::true_gear_message::body_as_base64_string;
use osc_truegear::true_gear_message::bool_as_string;
use osc_truegear::true_gear_message::{Effect, Message};

#[test]
fn body_round_trips_through_base64() {
    let json = br#"{"name":"VRChatMsg","keep":"False"}"#.to_vec();
    let text = body_as_base64_string::serialize(&json);
    assert_ne!(text.as_bytes(), &json[..]);
    assert_eq!(text, "eyJuYW1lIjoiVlJDaGF0TXNnIiwia2VlcCI6IkZhbHNlIn0=");
    assert_eq!(body_as_base64_string::deserialize(&text), Ok(json));
    assert_eq!(body_as_base64_string::serialize(&[]), "");
    assert_eq!(body_as_base64_string::deserialize(""), Ok(vec![]));
}

#[test]
fn invalid_base64_body_is_refused() {
    assert_eq!(
        body_as_base64_string::deserialize("not base64!"),
        Err(body_as_base64_string::BodyError::InvalidBase64)
    );
    assert_eq!(
        body_as_base64_string::deserialize("YQ"),
        Err(body_as_base64_string::BodyError::InvalidBase64)
    );
}

#[test]
fn booleans_are_words() {
    assert_eq!(bool_as_string::serialize(&true), "True");
    assert_eq!(bool_as_string::serialize(&false), "False");
    assert_eq!(bool_as_string::deserialize("True"), Some(true));
    assert_eq!(bool_as_string::deserialize("False"), Some(false));
    assert_eq!(bool_as_string::deserialize("true"), None);
    assert_eq!(bool_as_string::deserialize("Falsey"), None);
}

#[test]
fn play_message_carries_the_effect() {
    let effect = Effect { name: "n".to_string(), uuid: "u".to_string(), keep: false, priority: 3, tracks: vec![] };
    let m = Message::play_no_registered(effect);
    assert_eq!(m.method, "play_no_registered");
    assert_eq!(m.body.priority, 3);
    assert_eq!(m.body.name, "n");
}

#[test]
fn send_while_disconnected_connects_once() {
    let (s, a) = next_step(LinkState::Disconnected, LinkEvent::Send);
    assert_eq!(a, LinkAction::Connect);
    let (s, a) = next_step(s, LinkEvent::ConnectSucceeded);
    assert_eq!(a, LinkAction::Transmit);
    let (s, a) = next_step(s, LinkEvent::SendSucceeded);
    assert_eq!(a, LinkAction::Done);
    assert_eq!(s, LinkState::Connected);
    let (s, a) = next_step(s, LinkEvent::Send);
    assert_eq!(a, LinkAction::Transmit);
    assert_eq!(s, LinkState::Sending);
}

#[test]
fn failures_disconnect() {
    let (s, a) = next_step(LinkState::Disconnected, LinkEvent::Send);
    let (s, a2) = next_step(s, LinkEvent::ConnectFailed);
    assert_eq!((a, a2), (LinkAction::Connect, LinkAction::Failed));
    assert_eq!(s, LinkState::Disconnected);
    assert_eq!(next_step(LinkState::Sending, LinkEvent::SendFailed), (LinkState::Disconnected, LinkAction::Failed));
    assert_eq!(next_step(LinkState::Connected, LinkEvent::PeerClosed), (LinkState::Disconnected, LinkAction::CloseStream));
    assert_eq!(next_step(LinkState::Connected, LinkEvent::Stop), (LinkState::Disconnected, LinkAction::CloseStream));
    assert_eq!(next_step(LinkState::Disconnected, LinkEvent::Stop), (LinkState::Disconnected, LinkAction::Ignore));
    assert_eq!(next_step(LinkState::Disconnected, LinkEvent::Start), (LinkState::Connecting { transmit: false }, LinkAction::Connect));
    assert_eq!(next_step(LinkState::Connecting { transmit: false }, LinkEvent::ConnectSucceeded), (LinkState::Connected, LinkAction::Done));
    assert_eq!(next_step(LinkState::Connected, LinkEvent::Start), (LinkState::Connected, LinkAction::Done));
}
