use vox_verse::en_decoder::{create_decoder, CodecType, VoxDecoder};
use vox_verse::pipeline::{AsrProcessor, AudioCapability, CapabilityError, NopClient};
use vox_verse::uplink::{is_registration_ack, reconnect_delay_ms, register_message};
use vox_verse::signaling_msgs::SignalingMessage;
use vox_verse::vad_asr::{
    pcm_from_le_bytes, pcm_to_le_bytes, process_buffer, AudioCache, AudioOut, SpeechState, VadProcessor,
    PRE_ROLL_FRAMES, SAMPLES_PER_FRAME,
};

fn frame(tag: i16) -> Vec<i16> {
    vec![tag; 4]
}

fn samples(o: &AudioOut) -> Option<&Vec<i16>> {
    match o {
        AudioOut::Frame { samples } => Some(samples),
        AudioOut::EndOfUtterance => None,
    }
}

#[test]
fn vad_pre_roll() {
    let mut vad = VadProcessor::new();
    let mut sink: Vec<Vec<i16>> = Vec::new();
    for i in 0..10 {
        assert!(vad.handle_speech_state(SpeechState::Silent, frame(i)).is_empty());
    }
    assert_eq!(vad.cached_len(), 10);
    let states = [
        SpeechState::StartSpeaking,
        SpeechState::Speaking,
        SpeechState::Speaking,
        SpeechState::Speaking,
        SpeechState::Speaking,
    ];
    for (k, st) in states.iter().enumerate() {
        for o in vad.handle_speech_state(*st, frame(100 + k as i16)) {
            sink.push(samples(&o).unwrap().clone());
        }
    }
    let mut expected: Vec<Vec<i16>> = (0..10).map(frame).collect();
    expected.extend((0..5).map(|k| frame(100 + k)));
    assert_eq!(sink, expected);
    assert_eq!(vad.cached_len(), 0);
}

#[test]
fn vad_pre_roll_keeps_only_the_newest_frames() {
    let mut vad = VadProcessor::new();
    for i in 0..(PRE_ROLL_FRAMES as i16 + 20) {
        vad.handle_speech_state(SpeechState::Silent, frame(i));
    }
    assert_eq!(vad.cached_len(), PRE_ROLL_FRAMES);
    let out = vad.handle_speech_state(SpeechState::StartSpeaking, frame(-1));
    assert_eq!(out.len(), PRE_ROLL_FRAMES + 1);
    assert_eq!(samples(&out[0]).unwrap(), &frame(20));
    assert_eq!(samples(&out[PRE_ROLL_FRAMES - 1]).unwrap(), &frame(PRE_ROLL_FRAMES as i16 + 19));
    assert_eq!(samples(&out[PRE_ROLL_FRAMES]).unwrap(), &frame(-1));
}

#[test]
fn vad_stop_commits_the_utterance() {
    let mut vad = VadProcessor::new();
    vad.handle_speech_state(SpeechState::StartSpeaking, frame(1));
    let out = vad.handle_speech_state(SpeechState::StopSpeaking, frame(2));
    assert_eq!(out.len(), 2);
    assert_eq!(samples(&out[0]).unwrap(), &frame(2));
    assert!(matches!(out[1], AudioOut::EndOfUtterance));
    assert!(vad.handle_speech_state(SpeechState::Silent, frame(3)).is_empty());
    assert_eq!(vad.cached_len(), 1);
}

#[test]
fn audio_cache_is_a_ring() {
    let mut cache = AudioCache::new(2);
    assert!(cache.push(&[1]));
    assert!(cache.push(&[2]));
    assert!(!cache.push(&[3]));
    assert_eq!(cache.len(), 2);
    assert_eq!(cache.take_all(), vec![vec![2], vec![3]]);
    assert_eq!(cache.len(), 0);
    cache.push(&[4]);
    cache.clear();
    assert_eq!(cache.len(), 0);
    let mut none = AudioCache::new(0);
    assert!(!none.push(&[1]));
    assert_eq!(none.len(), 0);
}

#[test]
fn pcm_little_endian_samples() {
    assert_eq!(pcm_from_le_bytes(&[0x01, 0x00, 0xff, 0xff, 0x00, 0x80, 0xff, 0x7f, 0x09]), vec![1, -1, -32768, 32767]);
    assert_eq!(pcm_from_le_bytes(&[]), Vec::<i16>::new());
}

#[test]
fn buffer_is_cut_into_whole_frames() {
    let mut buf: Vec<i16> = (0..1030).map(|x| x as i16).collect();
    let frames = process_buffer(&mut buf, SAMPLES_PER_FRAME);
    assert_eq!(frames.len(), 2);
    assert_eq!(frames[0], (0..512).map(|x| x as i16).collect::<Vec<i16>>());
    assert_eq!(frames[1], (512..1024).map(|x| x as i16).collect::<Vec<i16>>());
    assert_eq!(buf, (1024..1030).map(|x| x as i16).collect::<Vec<i16>>());
    let mut short: Vec<i16> = vec![1, 2, 3];
    assert!(process_buffer(&mut short, SAMPLES_PER_FRAME).is_empty());
    assert_eq!(short, vec![1, 2, 3]);
}

#[test]
fn asr_sink_reports_busy_when_full() {
    let mut asr = AsrProcessor::new(2);
    assert_eq!(asr.process(&[1, 2]), Ok(()));
    assert_eq!(asr.process(&[3]), Ok(()));
    assert_eq!(asr.process(&[4]), Err(CapabilityError::Busy));
    assert_eq!(asr.drain(), vec![vec![1, 2], vec![3]]);
    assert_eq!(asr.process(&[5]), Ok(()));
    let _ = NopClient::new();
}

#[test]
fn decoder_parameters_and_truncation() {
    let d = create_decoder(CodecType::Opus, 48000, 1);
    assert_eq!(d.sample_rate(), 48000);
    assert_eq!(d.channels(), 1);
    assert_eq!(d.codec(), CodecType::Opus);
    assert_eq!(d.frame_capacity(), 960);
    assert_eq!(d.finish_frame(vec![7; 960], 480).len(), 480);
    assert_eq!(d.finish_frame(vec![7; 10], 480).len(), 10);
    let st = VoxDecoder::new(CodecType::Opus, 16000, 2);
    assert_eq!(st.frame_capacity(), 640);
    assert_eq!(st.finish_frame((0..640).collect(), 3), vec![0, 1, 2, 3, 4, 5]);
}

#[test]
fn reconnect_backoff_doubles_up_to_the_cap() {
    assert_eq!(reconnect_delay_ms(0, 0), 1000);
    assert_eq!(reconnect_delay_ms(1, 0), 2000);
    assert_eq!(reconnect_delay_ms(3, 0), 8000);
    assert_eq!(reconnect_delay_ms(5, 0), 30000);
    assert_eq!(reconnect_delay_ms(40, 0), 30000);
    assert_eq!(reconnect_delay_ms(0, 200), 1200);
    assert_eq!(reconnect_delay_ms(0, -200), 800);
    assert_eq!(reconnect_delay_ms(4, -150), 13600);
}

#[test]
fn uplink_registration() {
    let id = "w7".to_string();
    assert_eq!(register_message(&id), SignalingMessage::ServerRegister { server_id: id.clone() });
    assert!(is_registration_ack(&SignalingMessage::ServerRegistered { server_id: id.clone() }, &id));
    assert!(!is_registration_ack(&SignalingMessage::ServerRegistered { server_id: "w8".to_string() }, &id));
    assert!(!is_registration_ack(&SignalingMessage::ServerRegister { server_id: id.clone() }, &id));
}

#[test]
fn default_config() {
    let c = vox_verse::config::AppConfig::default();
    assert_eq!(c.server.signaling_server, "wss://your-signaling-server.com/room");
    assert_eq!(c.log.level, "info");
    assert_eq!(c.log.path, "./logs");
}

#[test]
fn call_endpoint_answer() {
    let ok = vox_verse::msgs::room_assign_response(Some("w1".to_string()));
    assert!(ok.success);
    assert_eq!(ok.server_id.as_deref(), Some("w1"));
    assert!(ok.error.is_none());
    let no = vox_verse::msgs::room_assign_response(None);
    assert!(!no.success);
    assert_eq!(no.error.as_deref(), Some("No available server"));
}

#[test]
fn pcm_written_and_read_back() {
    let samples: Vec<i16> = vec![0, 1, -1, 255, 256, -32768, 32767, -2];
    let bytes = pcm_to_le_bytes(&samples);
    assert_eq!(&bytes[..6], &[0x00, 0x00, 0x01, 0x00, 0xff, 0xff]);
    assert_eq!(bytes.len(), 16);
    assert_eq!(pcm_from_le_bytes(&bytes), samples);
}
