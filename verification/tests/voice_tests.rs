use rusty_bots::json::Json;
use rusty_bots::voice::{
    audio_append_message, capture_chunk, frame_log, handle_event, non_bot_members_in_channel, pcm_to_le_bytes,
    session_update, join_step, Capture, JoinAction, JoinEvent, JoinPhase, Chunk, EventReport, PlaybackBuffer, VoiceState,
};

fn fail_parts(a: &JoinAction) -> (bool, Option<String>, String) {
    match a {
        JoinAction::Fail { leave, log, error } => (*leave, log.clone(), error.clone()),
        _ => panic!("not a failure"),
    }
}

#[test]
fn join_prechecks() {
    let (p, a) = join_step(JoinPhase::Requested, &JoinEvent::Start { voice_enabled: false, has_key: true });
    assert!(p == JoinPhase::Failed);
    assert_eq!(fail_parts(&a), (false, Some("voice: disabled for this bot".to_string()), "voice is disabled for this bot".to_string()));
    let (_, a) = join_step(JoinPhase::Requested, &JoinEvent::Start { voice_enabled: true, has_key: false });
    assert_eq!(fail_parts(&a).2, "xAI API key required for voice");
    let (p, a) = join_step(JoinPhase::Requested, &JoinEvent::Start { voice_enabled: true, has_key: true });
    assert!(p == JoinPhase::FindingManager && matches!(a, JoinAction::FindManager));
    let (_, a) = join_step(JoinPhase::FindingManager, &JoinEvent::Manager { present: false });
    assert_eq!(fail_parts(&a), (false, Some("voice: songbird not initialized".to_string()), "songbird not initialized".to_string()));
}

#[test]
fn join_sequence_and_cleanup() {
    let (p, a) = join_step(JoinPhase::FindingManager, &JoinEvent::Manager { present: true });
    assert!(p == JoinPhase::Joining && matches!(a, JoinAction::RemoveStaleThenJoin));
    let (_, a) = join_step(JoinPhase::Joining, &JoinEvent::JoinFailed { detail: "Dave".to_string() });
    assert_eq!(fail_parts(&a), (true, Some("voice join failed: Dave".to_string()), "join failed: Dave".to_string()));
    let (_, a) = join_step(JoinPhase::Joining, &JoinEvent::JoinTimedOut);
    assert_eq!(fail_parts(&a), (true, Some("voice: join timed out after 25s (no Discord voice connection)".to_string()), "join timed out".to_string()));
    let (p, a) = join_step(JoinPhase::Joining, &JoinEvent::Joined);
    assert!(p == JoinPhase::Connecting && matches!(a, JoinAction::OpenSocket));
    let (_, a) = join_step(JoinPhase::Connecting, &JoinEvent::RequestInvalid { error: "x".to_string() });
    assert_eq!(fail_parts(&a), (false, None, "bad ws request: x".to_string()));
    let (_, a) = join_step(JoinPhase::Connecting, &JoinEvent::SocketFailed { error: "refused".to_string() });
    assert_eq!(fail_parts(&a), (true, Some("voice: xAI realtime connect failed: refused".to_string()), "xAI realtime connect failed: refused".to_string()));
    let (p, a) = join_step(JoinPhase::Connecting, &JoinEvent::SocketOpened);
    assert!(p == JoinPhase::Configuring && matches!(a, JoinAction::ConfigureSession));
    let (_, a) = join_step(JoinPhase::Configuring, &JoinEvent::SessionFailed { error: "e".to_string() });
    assert_eq!(fail_parts(&a), (true, Some("voice: session.update failed: e".to_string()), "session.update failed: e".to_string()));
    let (p, a) = join_step(JoinPhase::Configuring, &JoinEvent::SessionSent);
    assert!(p == JoinPhase::Live && matches!(a, JoinAction::StartBridge));
    let (p, a) = join_step(JoinPhase::Live, &JoinEvent::Joined);
    assert!(p == JoinPhase::Live && matches!(a, JoinAction::Ignore));
}

#[test]
fn samples_become_little_endian_bytes() {
    let pcm: Vec<i16> = vec![0x0102, -1, i16::MIN, 0];
    let b = pcm_to_le_bytes(&pcm);
    let expected: Vec<u8> = pcm.iter().flat_map(|s| s.to_le_bytes()).collect();
    assert_eq!(b, expected);
    for (i, s) in pcm.iter().enumerate() {
        assert_eq!(i16::from_le_bytes([b[2 * i], b[2 * i + 1]]), *s);
    }
    let mut heard = false;
    assert!(matches!(capture_chunk(&vec![], &mut heard), Capture::Skip));
    assert!(!heard);
    assert!(matches!(capture_chunk(&vec![1], &mut heard), Capture::Send { first: true, .. }));
    match capture_chunk(&vec![2], &mut heard) {
        Capture::Send { bytes, first } => {
            assert!(!first);
            assert_eq!(bytes, vec![2, 0]);
        }
        Capture::Skip => panic!(),
    }
}

#[test]
fn append_message_holds_base64() {
    let m = audio_append_message(&vec![1, 2, 3, 4]);
    assert_eq!(m.get("type").unwrap().as_str().unwrap(), "input_audio_buffer.append");
    assert_eq!(m.get("audio").unwrap().as_str().unwrap(), "AQIDBA==");
    assert_eq!(audio_append_message(&vec![]).get("audio").unwrap().as_str().unwrap(), "");
    assert_eq!(audio_append_message(&vec![0xfb, 0xff]).get("audio").unwrap().as_str().unwrap(), "+/8=");
    assert_eq!(audio_append_message(&b"Man".to_vec()).get("audio").unwrap().as_str().unwrap(), "TWFu");
    assert_eq!(audio_append_message(&b"Ma".to_vec()).get("audio").unwrap().as_str().unwrap(), "TWE=");
}

#[test]
fn frame_logs() {
    assert_eq!(frame_log(1).as_deref(), Some("voice: streaming first audio to xAI"));
    assert_eq!(frame_log(2), None);
    assert_eq!(frame_log(500).as_deref(), Some("voice: sent 500 audio frames to xAI"));
}

#[test]
fn session_set_up() {
    let j = session_update(&"eve".to_string(), &"a pirate".to_string());
    assert_eq!(j.get("type").unwrap().as_str().unwrap(), "session.update");
    let s = j.get("session").unwrap();
    assert_eq!(s.get("voice").unwrap().as_str().unwrap(), "eve");
    assert_eq!(s.get("instructions").unwrap().as_str().unwrap(), "a pirate");
    match s.get("turn_detection").unwrap().get("threshold").unwrap() {
        Json::Number(n) => assert_eq!(n, "0.85"),
        _ => panic!(),
    }
    match s.get("audio").unwrap().get("output").unwrap().get("format").unwrap().get("rate").unwrap() {
        Json::Number(n) => assert_eq!(n, "48000"),
        _ => panic!(),
    }
    assert!(s.get("tools").unwrap().as_array().unwrap().is_empty());
}

#[test]
fn playback_is_first_in_first_out() {
    let mut b = PlaybackBuffer::new();
    assert!(matches!(b.read(false, 4), Chunk::Silence { len: 4 }));
    b.extend(&vec![1, 2, 3]);
    b.extend(&vec![4, 5]);
    match b.read(false, 4) {
        Chunk::Audio { bytes } => assert_eq!(bytes, vec![1, 2, 3, 4]),
        _ => panic!(),
    }
    assert!(matches!(b.read(true, 4), Chunk::End));
    match b.read(false, 4) {
        Chunk::Audio { bytes } => assert_eq!(bytes, vec![5]),
        _ => panic!(),
    }
    assert_eq!(b.len(), 0);
}

fn ev(members: Vec<(&str, &str)>) -> Json {
    Json::Object(members.into_iter().map(|(k, v)| (k.to_string(), Json::Str(v.to_string()))).collect())
}

#[test]
fn service_events() {
    let mut got = 0u64;
    let mut buf = PlaybackBuffer::new();
    match handle_event(&ev(vec![("type", "response.output_audio.delta"), ("delta", "AQI=")]), &mut got, &mut buf) {
        EventReport::Info { text } => assert_eq!(text, "voice: receiving audio from xAI (speaking)"),
        _ => panic!(),
    }
    assert!(matches!(handle_event(&ev(vec![("type", "response.audio.delta"), ("audio", "Aw==")]), &mut got, &mut buf), EventReport::Quiet));
    assert_eq!((got, buf.len()), (2, 3));
    assert!(matches!(handle_event(&ev(vec![("type", "response.audio.delta"), ("audio", "!!")]), &mut got, &mut buf), EventReport::Quiet));
    assert_eq!(got, 2);
    assert!(matches!(handle_event(&ev(vec![("type", "response.done")]), &mut got, &mut buf), EventReport::Quiet));
    assert_eq!(got, 0);
    match handle_event(&ev(vec![("type", "session.created")]), &mut got, &mut buf) {
        EventReport::Info { text } => assert_eq!(text, "voice: session.created"),
        _ => panic!(),
    }
    assert!(matches!(handle_event(&ev(vec![("type", "error")]), &mut got, &mut buf), EventReport::ServiceError));
    assert!(matches!(handle_event(&ev(vec![("type", "input_audio_buffer.committed")]), &mut got, &mut buf), EventReport::Quiet));
    assert!(matches!(handle_event(&ev(vec![("type", "response.output_text.delta")]), &mut got, &mut buf), EventReport::Quiet));
    assert!(matches!(handle_event(&ev(vec![]), &mut got, &mut buf), EventReport::Quiet));
    match handle_event(&ev(vec![("type", "conversation.item.created")]), &mut got, &mut buf) {
        EventReport::Info { text } => assert_eq!(text, "voice: event conversation.item.created"),
        _ => panic!(),
    }
}

#[test]
fn humans_in_channel() {
    let states = vec![
        VoiceState { user_id: 1, channel_id: Some(9) },
        VoiceState { user_id: 2, channel_id: Some(9) },
        VoiceState { user_id: 3, channel_id: Some(8) },
        VoiceState { user_id: 4, channel_id: None },
        VoiceState { user_id: 5, channel_id: Some(9) },
    ];
    let members = vec![(1, false), (2, true), (3, false), (4, false)];
    assert_eq!(non_bot_members_in_channel(&states, &members, 9), 1);
    assert_eq!(non_bot_members_in_channel(&states, &members, 8), 1);
}
