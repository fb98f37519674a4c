use crossbeam::channel::{bounded, RecvError};
use tonegen::adapter::{frames_in, write_data, write_frames};
use tonegen::bridge::{
    decode_reply, link, scale, AudioThreadMessage, BridgeError, CallbackLink, Generator,
    GeneratorError, GeneratorLink, MainThreadMessage,
};
use tonegen::waveform::{Waveform, ONE};
use tonegen::wavetable::Wavetable;

fn saw(size: usize) -> Wavetable {
    let mut t = Wavetable::create(size).unwrap();
    t.fill(Waveform::Sawtooth);
    t
}

#[test]
fn scale_rounds_towards_zero() {
    assert_eq!(scale(ONE, 1, 10), 107374182);
    assert_eq!(scale(-ONE, 1, 10), -107374182);
    assert_eq!(scale(-7, 1, 2), -3);
    assert_eq!(scale(7, 1, 2), 3);
    assert_eq!(scale(ONE, 1, 1), ONE);
    assert_eq!(scale(12345, 0, 3), 0);
}

#[test]
fn generator_rejects_bad_gain() {
    let t = saw(4);
    assert!(matches!(Generator::new(t.oscillator(1, 4).unwrap(), 1, 0), Err(GeneratorError::InvalidGain)));
    assert!(matches!(Generator::new(t.oscillator(1, 4).unwrap(), 3, 2), Err(GeneratorError::InvalidGain)));
    assert!(Generator::new(t.oscillator(1, 4).unwrap(), 2, 2).is_ok());
}

#[test]
fn generator_replies_follow_the_oscillator() {
    let t = saw(64);
    let mut direct = t.oscillator(220, 44100).unwrap();
    let mut g = Generator::new(t.oscillator(220, 44100).unwrap(), 1, 10).unwrap();
    for _ in 0..10_000 {
        let want = scale(direct.next(), 1, 10);
        assert_eq!(g.respond(AudioThreadMessage::RequestSample), MainThreadMessage::Sample(want));
    }
}

#[test]
fn requests_get_replies_in_order() {
    let t = saw(4);
    let mut g = Generator::new(t.oscillator(1, 4).unwrap(), 1, 1).unwrap();
    let (request_tx, request_rx) = bounded(16);
    let (reply_tx, reply_rx) = bounded(16);
    let server = GeneratorLink::new(request_rx, reply_tx);
    for _ in 0..6 {
        request_tx.send(AudioThreadMessage::RequestSample).unwrap();
        assert_eq!(server.serve_one(&mut g), Ok(()));
    }
    drop(request_tx);
    assert_eq!(server.serve_one(&mut g), Err(BridgeError::RequestChannelClosed));
    let got: Vec<MainThreadMessage> = reply_rx.try_iter().collect();
    let cycle = [-ONE, -ONE / 2, 0, ONE / 2];
    let want: Vec<MainThreadMessage> = (0..6).map(|k| MainThreadMessage::Sample(cycle[k % 4])).collect();
    assert_eq!(got, want);
}

#[test]
fn serve_one_reports_lost_reply_channel() {
    let t = saw(4);
    let mut g = Generator::new(t.oscillator(1, 4).unwrap(), 1, 1).unwrap();
    let (request_tx, request_rx) = bounded(4);
    let (reply_tx, reply_rx) = bounded(4);
    drop(reply_rx);
    let server = GeneratorLink::new(request_rx, reply_tx);
    request_tx.send(AudioThreadMessage::RequestSample).unwrap();
    assert_eq!(server.serve_one(&mut g), Err(BridgeError::ReplyChannelClosed));
    // the step was taken: the next reply is the second sample
    assert_eq!(g.respond(AudioThreadMessage::RequestSample), MainThreadMessage::Sample(-ONE / 2));
}

#[test]
fn next_sample_is_one_rendezvous() {
    let (request_tx, request_rx) = bounded(4);
    let (reply_tx, reply_rx) = bounded(4);
    let client = CallbackLink::new(request_tx, reply_rx);
    reply_tx.send(MainThreadMessage::Sample(42)).unwrap();
    assert_eq!(client.next_sample(), Ok(42));
    assert_eq!(request_rx.try_recv(), Ok(AudioThreadMessage::RequestSample));
    assert!(request_rx.try_recv().is_err());
}

#[test]
fn next_sample_reports_lost_channels() {
    let (request_tx, request_rx) = bounded(4);
    let (reply_tx, reply_rx) = bounded::<MainThreadMessage>(4);
    drop(reply_tx);
    let client = CallbackLink::new(request_tx, reply_rx);
    assert_eq!(client.next_sample(), Err(BridgeError::ReplyChannelClosed));
    drop(request_rx);
    assert_eq!(client.next_sample(), Err(BridgeError::RequestChannelClosed));
}

#[test]
fn decode_reply_cases() {
    assert_eq!(decode_reply(Ok(MainThreadMessage::Sample(-5))), Ok(-5));
    assert_eq!(decode_reply(Err(RecvError)), Err(BridgeError::ReplyChannelClosed));
}

#[test]
fn linked_ends_see_each_other_leave() {
    let t = saw(4);
    let mut g = Generator::new(t.oscillator(1, 4).unwrap(), 1, 1).unwrap();
    let (client, server) = link(8);
    drop(client);
    assert_eq!(server.serve_one(&mut g), Err(BridgeError::RequestChannelClosed));
    let (client, server) = link(0);
    drop(server);
    assert_eq!(client.next_sample(), Err(BridgeError::RequestChannelClosed));
}

#[test]
fn frames_in_counts_partial_frames() {
    assert_eq!(frames_in(6, 2), 3);
    assert_eq!(frames_in(5, 2), 3);
    assert_eq!(frames_in(0, 3), 0);
    assert_eq!(frames_in(7, 1), 7);
}

#[test]
fn write_frames_fans_out() {
    let mut out = vec![9; 5];
    write_frames(&mut out, 2, &vec![1, 2, 3]);
    assert_eq!(out, vec![1, 1, 2, 2, 3]);
}

#[test]
fn adapter_two_channels_three_frames() {
    let (request_tx, request_rx) = bounded(8);
    let (reply_tx, reply_rx) = bounded(8);
    let client = CallbackLink::new(request_tx, reply_rx);
    let (a, b, c) = (214748365, -429496730, 644245094);
    for v in [a, b, c] {
        reply_tx.send(MainThreadMessage::Sample(v)).unwrap();
    }
    let mut out = vec![0; 6];
    let samples = write_data(&mut out, 2, &client).unwrap();
    assert_eq!(samples, vec![a, b, c]);
    assert_eq!(out, vec![a, a, b, b, c, c]);
    assert_eq!(request_rx.try_iter().count(), 3);
}

#[test]
fn adapter_stops_on_broken_rendezvous() {
    let (request_tx, _request_rx) = bounded(8);
    let (reply_tx, reply_rx) = bounded(8);
    let client = CallbackLink::new(request_tx, reply_rx);
    reply_tx.send(MainThreadMessage::Sample(7)).unwrap();
    drop(reply_tx);
    let mut out = vec![0; 6];
    assert_eq!(write_data(&mut out, 3, &client), Err(BridgeError::ReplyChannelClosed));
    assert_eq!(out, vec![7, 7, 7, 0, 0, 0]);
}

#[test]
fn adapter_empty_buffer_needs_no_round_trip() {
    let (request_tx, request_rx) = bounded(4);
    let (reply_tx, reply_rx) = bounded::<MainThreadMessage>(4);
    drop(reply_tx);
    let client = CallbackLink::new(request_tx, reply_rx);
    let mut out: Vec<i32> = Vec::new();
    assert_eq!(write_data(&mut out, 2, &client), Ok(vec![]));
    assert!(out.is_empty());
    assert!(request_rx.try_recv().is_err());
}

#[test]
fn adapter_keeps_frames_after_failed_round_trip() {
    let (request_tx, _request_rx) = bounded(8);
    let (reply_tx, reply_rx) = bounded(8);
    let client = CallbackLink::new(request_tx, reply_rx);
    reply_tx.send(MainThreadMessage::Sample(11)).unwrap();
    reply_tx.send(MainThreadMessage::Sample(-22)).unwrap();
    drop(reply_tx);
    let mut out = vec![5, 6, 7, 8, 9, 10, 11, 12];
    assert_eq!(write_data(&mut out, 2, &client), Err(BridgeError::ReplyChannelClosed));
    assert_eq!(out, vec![11, 11, -22, -22, 9, 10, 11, 12]);
}
