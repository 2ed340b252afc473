use osc_truegear::mapping::{
    FeedbackMode, InboundArg, InboundMessage, InboundPacket, PacketList, ProtocalMapper,
};
use osc_truegear::registry::{get_dot_name_compact_index_map, NUM_DOTS};
use osc_truegear::true_gear_message::{ActionType, IntensityMode};

fn float_msg(addr: &str, v: f32) -> InboundMessage {
    InboundMessage { addr: addr.to_string(), args: vec![InboundArg::Float(v.to_bits())] }
}

fn bundle(items: Vec<InboundPacket>) -> InboundPacket {
    let mut list = PacketList::End;
    for p in items.into_iter().rev() {
        list = PacketList::Item(Box::new(p), Box::new(list));
    }
    InboundPacket::Bundle(list)
}

#[test]
fn scale_intensity_examples() {
    assert_eq!(ProtocalMapper::scale_intensity(100, 0.0f32.to_bits()), 0);
    assert_eq!(ProtocalMapper::scale_intensity(100, 2.0f32.to_bits()), 150);
    assert_eq!(ProtocalMapper::scale_intensity(50, 1.0f32.to_bits()), 50);
    assert_eq!(ProtocalMapper::scale_intensity(0, 5.0f32.to_bits()), 0);
}

#[test]
fn scale_intensity_rounds_and_clamps() {
    assert_eq!(ProtocalMapper::scale_intensity(3, 0.5f32.to_bits()), 2);
    assert_eq!(ProtocalMapper::scale_intensity(50, 0.3f32.to_bits()), 15);
    assert_eq!(ProtocalMapper::scale_intensity(100, 0.004f32.to_bits()), 0);
    assert_eq!(ProtocalMapper::scale_intensity(100, 0.006f32.to_bits()), 1);
    assert_eq!(ProtocalMapper::scale_intensity(100, (-0.5f32).to_bits()), 0);
    assert_eq!(ProtocalMapper::scale_intensity(100, f32::NAN.to_bits()), 0);
    assert_eq!(ProtocalMapper::scale_intensity(1, f32::INFINITY.to_bits()), 150);
    assert_eq!(ProtocalMapper::scale_intensity(0, f32::INFINITY.to_bits()), 0);
    assert_eq!(ProtocalMapper::scale_intensity(150, 1.0f32.to_bits()), 150);
    assert_eq!(ProtocalMapper::scale_intensity(151, 1.0f32.to_bits()), 150);
    assert_eq!(ProtocalMapper::scale_intensity(65535, f32::MIN_POSITIVE.to_bits()), 0);
    assert_eq!(ProtocalMapper::scale_intensity(1, 1.0e30f32.to_bits()), 150);
}

#[test]
fn scale_intensity_rounds_the_single_precision_product() {
    // 50 * 0.01 and 25 * 0.02 are just below 0.5 exactly, and 0.5 in single precision
    assert_eq!(ProtocalMapper::scale_intensity(50, 0.01f32.to_bits()), 1);
    assert_eq!(ProtocalMapper::scale_intensity(25, 0.02f32.to_bits()), 1);
    for base in [1u16, 3, 7, 25, 30, 50, 99, 100, 149, 150, 1000] {
        for v in [0.001f32, 0.01, 0.02, 0.1, 0.3, 0.5, 0.7, 0.9, 1.0, 1.5] {
            let expected = (base as f32 * v).round().clamp(0.0, 150.0) as u16;
            assert_eq!(ProtocalMapper::scale_intensity(base, v.to_bits()), expected);
        }
    }
}

#[test]
fn write_sets_active_flag() {
    let mut m = ProtocalMapper::new(FeedbackMode::Continuous);
    let k = get_dot_name_compact_index_map().get("TrueGearB3").unwrap();
    m.consume_osc_message(&float_msg("/avatar/parameters/TrueGearB3", 0.3));
    assert!(m.is_active(k));
    assert_eq!(m.intensity(k), 0.3f32.to_bits());
    m.consume_osc_message(&float_msg("/avatar/parameters/TrueGearB3", 0.0));
    assert!(!m.is_active(k));
    assert_eq!(m.intensity(k), 0);
}

#[test]
fn bool_and_other_arguments() {
    let mut m = ProtocalMapper::new(FeedbackMode::Continuous);
    let on = InboundMessage { addr: "/a/TrueGearArmL".to_string(), args: vec![InboundArg::Bool(true)] };
    m.consume_osc_message(&on);
    assert!(m.is_active(40));
    assert_eq!(m.intensity(40), 1.0f32.to_bits());
    let other = InboundMessage { addr: "/a/TrueGearArmL".to_string(), args: vec![InboundArg::Other] };
    m.consume_osc_message(&other);
    assert!(m.is_active(40));
    let empty = InboundMessage { addr: "/a/TrueGearArmL".to_string(), args: vec![] };
    m.consume_osc_message(&empty);
    assert!(m.is_active(40));
    let off = InboundMessage { addr: "/a/TrueGearArmL".to_string(), args: vec![InboundArg::Bool(false)] };
    m.consume_osc_message(&off);
    assert!(!m.is_active(40));
}

#[test]
fn unknown_and_substring_keys_are_ignored() {
    let mut m = ProtocalMapper::new(FeedbackMode::Continuous);
    m.consume_osc_message(&float_msg("/avatar/parameters/TrueGearA1Extra", 0.5));
    m.consume_osc_message(&float_msg("/avatar/TrueGearA1/parameters", 0.5));
    m.consume_osc_message(&float_msg("/avatar/parameters/Other", 0.5));
    m.consume_osc_message(&float_msg("", 0.5));
    for k in 0..NUM_DOTS {
        assert!(!m.is_active(k));
        assert_eq!(m.intensity(k), 0);
    }
    m.consume_osc_message(&float_msg("TrueGearA1", 0.5));
    assert!(m.is_active(0));
}

#[test]
fn nested_bundle_messages_apply_in_order() {
    let mut m = ProtocalMapper::new(FeedbackMode::Continuous);
    let inner = bundle(vec![
        InboundPacket::Message(float_msg("/p/TrueGearC1", 0.7)),
        InboundPacket::Message(float_msg("/p/TrueGearC1", 0.0)),
    ]);
    let outer = bundle(vec![bundle(vec![inner])]);
    m.consume_osc_packet(&outer);
    assert!(!m.is_active(10));
    let inner = bundle(vec![
        InboundPacket::Message(float_msg("/p/TrueGearC1", 0.0)),
        InboundPacket::Message(float_msg("/p/TrueGearC2", 0.4)),
    ]);
    m.consume_osc_packet(&bundle(vec![inner, InboundPacket::Message(float_msg("/p/TrueGearC1", 0.9))]));
    assert!(m.is_active(10));
    assert!(m.is_active(11));
    assert_eq!(m.intensity(10), 0.9f32.to_bits());
}

#[test]
fn continuous_builds_repeat() {
    let mut m = ProtocalMapper::new(FeedbackMode::Continuous);
    m.consume_osc_message(&float_msg("/p/TrueGearA2", 0.5));
    m.consume_osc_message(&float_msg("/p/TrueGearArmR", 1.0));
    let a = m.build_effect(50, 30, 10).unwrap();
    let b = m.build_effect(50, 30, 10).unwrap();
    assert_eq!(format!("{:?}", a), format!("{:?}", b));
    assert_eq!(a.tracks.len(), 2);
    assert_eq!(a.tracks[0].action_type, ActionType::Shake);
    assert_eq!(a.tracks[0].start_intensity, 25);
    assert_eq!(a.tracks[0].end_intensity, 25);
    assert_eq!(a.tracks[0].index, vec![5]);
    assert_eq!(a.tracks[0].interval, 0);
    assert_eq!(a.tracks[1].action_type, ActionType::Electrical);
    assert_eq!(a.tracks[1].start_intensity, 30);
    assert_eq!(a.tracks[1].index, vec![100]);
    assert_eq!(a.tracks[1].interval, 10);
    assert_eq!(a.tracks[1].intensity_mode, IntensityMode::Const);
    assert_eq!(a.tracks[1].start_time, 0);
    assert_eq!(a.tracks[1].end_time, 150);
    assert!(!a.tracks[1].once);
    assert_eq!(a.tracks[1].stop_name, "");
    assert_eq!(a.name, "VRChatMsg");
    assert_eq!(a.uuid, "VRChatMsg");
    assert!(!a.keep);
    assert_eq!(a.priority, 0);
}

#[test]
fn once_second_build_is_empty() {
    let mut m = ProtocalMapper::new(FeedbackMode::Once);
    m.consume_osc_message(&float_msg("/p/TrueGearA2", 0.5));
    assert!(m.build_effect(50, 30, 10).is_some());
    assert!(m.build_effect(50, 30, 10).is_none());
    assert_eq!(m.intensity(1), 0);
}

#[test]
fn idle_table_builds_nothing() {
    let mut m = ProtocalMapper::default();
    assert_eq!(m.feedback_mode(), FeedbackMode::Continuous);
    assert!(m.build_effect(50, 30, 10).is_none());
}

#[test]
fn single_shake_dot_gives_one_track() {
    let mut m = ProtocalMapper::new(FeedbackMode::Continuous);
    m.consume_osc_message(&float_msg("/p/TrueGearH5", 1.0));
    let e = m.build_effect(100, 30, 10).unwrap();
    assert_eq!(e.tracks.len(), 1);
    assert_eq!(e.tracks[0].action_type, ActionType::Shake);
    assert_eq!(e.tracks[0].index, vec![18]);
    assert_eq!(e.tracks[0].start_intensity, 100);
}

#[test]
fn shake_level_follows_largest_intensity() {
    let mut m = ProtocalMapper::new(FeedbackMode::Continuous);
    m.consume_osc_message(&float_msg("/p/TrueGearA1", 0.2));
    m.consume_osc_message(&float_msg("/p/TrueGearD4", 0.8));
    m.consume_osc_message(&float_msg("/p/TrueGearB1", 0.4));
    let e = m.build_effect(100, 30, 10).unwrap();
    assert_eq!(e.tracks.len(), 1);
    assert_eq!(e.tracks[0].start_intensity, 80);
    assert_eq!(e.tracks[0].index, vec![1, 0, 113]);
}

#[test]
fn extract_intensity_coerces() {
    let f = InboundMessage { addr: String::new(), args: vec![InboundArg::Float(0.25f32.to_bits()), InboundArg::Other] };
    assert_eq!(ProtocalMapper::extract_intensity(&f), Some(0.25f32.to_bits()));
    let t = InboundMessage { addr: String::new(), args: vec![InboundArg::Bool(true)] };
    assert_eq!(ProtocalMapper::extract_intensity(&t), Some(1.0f32.to_bits()));
    let o = InboundMessage { addr: String::new(), args: vec![InboundArg::Other, InboundArg::Bool(true)] };
    assert_eq!(ProtocalMapper::extract_intensity(&o), None);
    let e = InboundMessage { addr: String::new(), args: vec![] };
    assert_eq!(ProtocalMapper::extract_intensity(&e), None);
}
