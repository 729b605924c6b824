//! Streams, their multiplexers, and the sender that batches their frames.

use ferrotunnel::batched_sender::{
    assemble_batch, batch_has_room, batch_should_yield, sort_by_priority, WriteProgress,
    MAX_BATCH_SIZE,
};
use ferrotunnel::codec::TunnelCodec;
use ferrotunnel::error::TunnelError;
use ferrotunnel::frame::{
    CloseReason, Frame, OpenStreamFrame, Protocol, StreamPriority,
};
use ferrotunnel::multiplexer::{
    send_result, FrameAction, IncomingStream, Multiplexer, PrioritizedFrame, SendOutcome,
};
use ferrotunnel::quic_multiplexer::{
    decode_stream_header, encode_stream_header, open_quic_stream, protocol_to_u8, u8_to_priority,
    u8_to_protocol, AnyMultiplexer, OpenedStream, QuicMultiplexer, StreamHeader,
};
use ferrotunnel::rate_limit::{
    data_admission, data_cells, scaled_burst, stream_admission, Admission, RateLimitError,
    RateLimiterConfig, SessionRateLimiter,
};
use ferrotunnel::rate_limited::{MeteredRead, RateLimitedStream};
use ferrotunnel::virtual_stream::{
    ReadOutcome, Received, ShutdownStep, VirtualStream, MAX_DATA_FRAME_PAYLOAD,
};

fn config(streams_per_sec: u32, bytes_per_sec: u32, burst_factor: u32) -> RateLimiterConfig {
    RateLimiterConfig { streams_per_sec, bytes_per_sec, burst_factor }
}

fn limiter(bytes_per_sec: u32, burst_factor: u32) -> SessionRateLimiter {
    SessionRateLimiter::new(&config(1000, bytes_per_sec, burst_factor))
}

fn data(stream_id: u32, bytes: &[u8]) -> Frame {
    Frame::Data { stream_id, data: bytes.to_vec(), end_of_stream: false }
}

fn opening(stream_id: u32, priority: StreamPriority) -> Frame {
    Frame::OpenStream(Box::new(OpenStreamFrame {
        stream_id,
        protocol: Protocol::TCP,
        headers: vec![],
        body_hint: None,
        priority,
    }))
}

fn pf(priority: StreamPriority, frame: Frame) -> PrioritizedFrame {
    (priority, frame)
}

#[test]
fn test_rate_limiter_creation() {
    let config = RateLimiterConfig::default();
    let limiter = SessionRateLimiter::new(&config);

    assert!(limiter.check_stream_open().is_ok());
}

#[test]
fn test_burst_allowance() {
    let limiter = SessionRateLimiter::new(&config(1, 1000, 5));

    for _ in 0..5 {
        assert!(limiter.check_stream_open().is_ok());
    }
    assert!(limiter.check_stream_open().is_err());
}

#[test]
fn check_data_accounts_for_byte_count() {
    let limiter = SessionRateLimiter::new(&config(100, 1000, 1));

    assert!(limiter.check_data(1000).is_ok());
    assert!(limiter.check_data(1000).is_err());
}

#[test]
fn check_data_allows_empty_payload() {
    let limiter = SessionRateLimiter::new(&config(1, 1, 1));
    assert!(limiter.check_data(0).is_ok());
}

#[test]
fn check_data_fails_closed_when_payload_exceeds_capacity() {
    let limiter = SessionRateLimiter::new(&config(100, 10, 1));
    assert!(limiter.check_data(100).is_err());
}

#[test]
fn bursts_and_cells_are_clamped() {
    assert_eq!(scaled_burst(100, 3), 300);
    assert_eq!(scaled_burst(u32::MAX, 2), u32::MAX);
    assert_eq!(data_cells(12), 12);
    assert_eq!(data_cells(usize::MAX), u32::MAX);
}

#[test]
fn every_refusal_is_an_error() {
    assert_eq!(stream_admission(Admission::Admitted), Ok(()));
    assert_eq!(stream_admission(Admission::NotYet), Err(RateLimitError::StreamRateLimited));
    assert_eq!(stream_admission(Admission::NeverFits), Err(RateLimitError::StreamRateLimited));
    assert_eq!(data_admission(Admission::Admitted), Ok(()));
    assert_eq!(data_admission(Admission::NotYet), Err(RateLimitError::BytesRateLimited));
    assert_eq!(data_admission(Admission::NeverFits), Err(RateLimitError::BytesRateLimited));
    assert_eq!(RateLimitError::StreamRateLimited.message(), "stream open rate limited");
    assert_eq!(RateLimitError::BytesRateLimited.message(), "data transfer rate limited");
}

#[test]
fn clones_of_a_limiter_share_one_budget() {
    let limiter = limiter(100, 1);
    let other = limiter.clone();
    assert!(limiter.check_data(100).is_ok());
    assert!(other.check_data(100).is_err());
}

#[test]
fn test_stream_id_allocation() {
    let mut client_mux = Multiplexer::new(true);
    assert_eq!(client_mux.open_stream(Protocol::HTTP, 10).0, 1);
    assert_eq!(client_mux.open_stream(Protocol::HTTP, 11).0, 3);

    let mut server_mux = Multiplexer::new(false);
    assert_eq!(server_mux.open_stream(Protocol::HTTP, 10).0, 2);
    assert_eq!(server_mux.open_stream(Protocol::HTTP, 11).0, 4);
}

#[test]
fn send_frame_fails_fast_when_receiver_dropped() {
    let result = send_result(SendOutcome::Closed("send to a closed channel".to_string()));
    assert_eq!(result, Err(TunnelError::Io("send to a closed channel".to_string())));
}

#[test]
fn send_frame_times_out_when_channel_full() {
    assert!(send_result(SendOutcome::Sent).is_ok());
    let err = send_result(SendOutcome::TimedOut).unwrap_err();
    assert_eq!(err, TunnelError::Io("timed out sending frame to wire channel".to_string()));
}

#[test]
fn virtual_stream_write_times_out_when_channel_full() {
    let mut stream = VirtualStream::new(1, StreamPriority::Normal, Vec::new(), Protocol::HTTP);
    let frame = stream.start_write(b"hello");
    assert_eq!(frame, (StreamPriority::Normal, data(1, b"hello")));
    assert!(stream.finish_write(SendOutcome::TimedOut).is_err());
    // The stream can be written to again.
    stream.start_write(b"again");
    assert_eq!(stream.finish_write(SendOutcome::Sent), Ok(5));
}

#[test]
fn frames_go_to_the_channel_of_their_stream() {
    let mut mux = Multiplexer::new(false);
    let announced = mux.process_frame(opening(1, StreamPriority::High), 100);
    assert_eq!(
        announced,
        FrameAction::Announce(IncomingStream {
            stream_id: 1,
            channel: 100,
            priority: StreamPriority::High,
            protocol: Protocol::TCP,
        })
    );
    // A second opening of the same stream is ignored.
    assert_eq!(mux.process_frame(opening(1, StreamPriority::Low), 101), FrameAction::Ignore);
    mux.process_frame(opening(3, StreamPriority::Low), 300);

    assert_eq!(
        mux.process_frame(data(1, b"x"), 0),
        FrameAction::DeliverData { stream_id: 1, channel: 100, frame: data(1, b"x") }
    );
    assert_eq!(
        mux.process_frame(data(3, b"y"), 0),
        FrameAction::DeliverData { stream_id: 3, channel: 300, frame: data(3, b"y") }
    );
    assert_eq!(mux.process_frame(data(5, b"z"), 0), FrameAction::Ignore);

    assert_eq!(mux.prioritize(data(1, b"x")).0, StreamPriority::High);
    assert_eq!(mux.prioritize(data(3, b"x")).0, StreamPriority::Low);
    assert_eq!(mux.prioritize(data(9, b"x")).0, StreamPriority::Normal);

    let close = Frame::CloseStream { stream_id: 3, reason: CloseReason::Normal };
    assert_eq!(
        mux.process_frame(close.clone(), 0),
        FrameAction::DeliverClose { channel: 300, frame: close }
    );
    assert_eq!(
        mux.process_frame(data(1, b"w"), 0),
        FrameAction::DeliverData { stream_id: 1, channel: 100, frame: data(1, b"w") }
    );
    assert_eq!(mux.process_frame(data(3, b"y"), 0), FrameAction::Ignore);
}

#[test]
fn a_stream_that_cannot_be_served_is_forgotten() {
    let mut mux = Multiplexer::new(false);
    mux.process_frame(opening(1, StreamPriority::Normal), 100);
    mux.stream_not_queued(1);
    assert_eq!(mux.process_frame(data(1, b"x"), 0), FrameAction::Ignore);
    assert!(matches!(
        mux.process_frame(opening(1, StreamPriority::Normal), 101),
        FrameAction::Announce(_)
    ));
    mux.data_not_delivered(1);
    assert_eq!(mux.process_frame(data(1, b"x"), 0), FrameAction::Ignore);
}

#[test]
fn opening_a_stream_tells_the_peer() {
    let mut mux = Multiplexer::new(true);
    let (id, (priority, frame)) =
        mux.open_stream_with_priority(Protocol::WebSocket, StreamPriority::Critical, 5);
    assert_eq!((id, priority), (1, StreamPriority::Critical));
    assert_eq!(
        frame,
        Frame::OpenStream(Box::new(OpenStreamFrame {
            stream_id: 1,
            protocol: Protocol::WebSocket,
            headers: vec![],
            body_hint: None,
            priority: StreamPriority::Critical,
        }))
    );
}

#[test]
fn a_stream_hands_out_what_was_received_in_order() {
    let mut stream = VirtualStream::new(1, StreamPriority::Normal, Vec::new(), Protocol::TCP);
    assert_eq!((stream.id(), stream.protocol()), (1, Protocol::TCP));
    assert_eq!(stream.read_buffered(4), None);
    assert_eq!(
        stream.on_received(Received::Frame(data(1, b"abcdefgh")), 3),
        ReadOutcome::Ready(b"abc".to_vec())
    );
    assert_eq!(stream.read_buffered(3), Some(b"def".to_vec()));
    assert_eq!(stream.read_buffered(3), Some(b"gh".to_vec()));
    assert_eq!(stream.read_buffered(3), None);

    assert_eq!(
        stream.on_received(Received::Frame(Frame::Heartbeat { timestamp: 1 }), 3),
        ReadOutcome::Pending
    );
    assert_eq!(
        stream.on_received(Received::Failed(TunnelError::Protocol("broken".to_string())), 3),
        ReadOutcome::Failed("broken".to_string())
    );
    let close = Frame::CloseStream { stream_id: 1, reason: CloseReason::Normal };
    assert_eq!(stream.on_received(Received::Frame(close), 3), ReadOutcome::Ready(vec![]));
    assert_eq!(stream.on_received(Received::Closed, 3), ReadOutcome::Ready(vec![]));
}

#[test]
fn a_large_write_is_sent_in_chunks() {
    let buf: Vec<u8> = (0..150_000u32).map(|i| i as u8).collect();
    let mut stream = VirtualStream::new(7, StreamPriority::High, Vec::new(), Protocol::TCP);
    let mut sent = Vec::new();
    let mut at = 0;
    while at < buf.len() {
        match stream.start_write(&buf[at..]) {
            (StreamPriority::High, Frame::Data { stream_id: 7, data, end_of_stream: false }) => {
                assert!(data.len() <= MAX_DATA_FRAME_PAYLOAD);
                sent.extend_from_slice(&data);
            }
            other => panic!("unexpected {other:?}"),
        }
        at += stream.finish_write(SendOutcome::Sent).unwrap();
    }
    assert_eq!(sent, buf);
}

#[test]
fn a_shutdown_waits_for_the_send_under_way() {
    let mut stream = VirtualStream::new(7, StreamPriority::Low, Vec::new(), Protocol::TCP);
    stream.start_write(b"x");
    assert_eq!(stream.shutdown_step(None), ShutdownStep::Wait);
    let close = Frame::CloseStream { stream_id: 7, reason: CloseReason::Normal };
    assert_eq!(
        stream.shutdown_step(Some(SendOutcome::TimedOut)),
        ShutdownStep::Send((StreamPriority::Low, close))
    );
}

#[test]
fn reads_within_budget_are_not_delayed() {
    let mut stream = RateLimitedStream::new(limiter(1_000_000, 2));
    assert_eq!(stream.begin_read(256, false), MeteredRead::ReadInner(256));
    assert_eq!(stream.on_read(vec![0u8; 256], 256), MeteredRead::Ready(vec![0u8; 256]));
}

#[test]
fn over_budget_reads_are_delayed_without_losing_data() {
    let mut stream = RateLimitedStream::new(limiter(512, 1));
    assert_eq!(stream.begin_read(512, false), MeteredRead::ReadInner(512));
    assert_eq!(stream.on_read(vec![7u8; 512], 512), MeteredRead::Ready(vec![7u8; 512]));

    assert_eq!(stream.begin_read(512, false), MeteredRead::ReadInner(512));
    assert_eq!(stream.on_read(vec![7u8; 512], 512), MeteredRead::Throttle(512));
    assert_eq!(stream.begin_read(512, false), MeteredRead::Wait);
    assert_eq!(stream.begin_read(512, true), MeteredRead::Ready(vec![7u8; 512]));
}

#[test]
fn a_single_over_budget_read_is_paid_for_before_delivery() {
    let mut stream = RateLimitedStream::new(limiter(512, 1));
    assert_eq!(stream.begin_read(1024, false), MeteredRead::ReadInner(1024));
    assert_eq!(stream.on_read(vec![9u8; 1024], 1024), MeteredRead::Throttle(1024));
    assert_eq!(stream.on_paid(1024), vec![9u8; 1024]);
}

#[test]
fn withheld_bytes_survive_a_caller_buffer_smaller_than_the_read() {
    let mut stream = RateLimitedStream::new(limiter(1024 * 1024, 2));
    let mut sink = Vec::new();
    match stream.begin_read(16, false) {
        MeteredRead::ReadInner(16) => {}
        other => panic!("unexpected {other:?}"),
    }
    match stream.on_read(vec![4u8; 256], 16) {
        MeteredRead::Ready(chunk) => sink.extend_from_slice(&chunk),
        other => panic!("unexpected {other:?}"),
    }
    loop {
        match stream.begin_read(16, false) {
            MeteredRead::Ready(chunk) => sink.extend_from_slice(&chunk),
            MeteredRead::ReadInner(16) => break,
            other => panic!("unexpected {other:?}"),
        }
    }
    assert_eq!(sink, vec![4u8; 256]);
    assert_eq!(stream.on_read(Vec::new(), 16), MeteredRead::Ready(Vec::new()));
}

#[test]
fn stream_headers_read_back() {
    for protocol in [
        Protocol::HTTP,
        Protocol::HTTPS,
        Protocol::HTTP2,
        Protocol::WebSocket,
        Protocol::GRPC,
        Protocol::TCP,
        Protocol::QUIC,
    ] {
        assert_eq!(u8_to_protocol(protocol_to_u8(protocol)), Ok(protocol));
        for priority in [
            StreamPriority::Critical,
            StreamPriority::High,
            StreamPriority::Normal,
            StreamPriority::Low,
        ] {
            assert_eq!(u8_to_priority(priority.as_u8()), Ok(priority));
            let header = StreamHeader { protocol, priority, stream_id: 0x0102_0304 };
            let bytes = encode_stream_header(header);
            assert_eq!(bytes[2..], [1, 2, 3, 4]);
            assert_eq!(decode_stream_header(&bytes), Ok(header));
        }
    }
    assert_eq!(u8_to_protocol(99), Err(99));
    assert_eq!(u8_to_priority(99), Err(99));
    assert!(decode_stream_header(&[99, 0, 0, 0, 0, 1]).is_err());
    assert!(decode_stream_header(&[0, 99, 0, 0, 0, 1]).is_err());
}

#[test]
fn quic_streams_are_numbered_by_side_and_limited() {
    let mut mux = QuicMultiplexer::new(true);
    assert_eq!(mux.allocate_stream_id(), Ok(1));
    assert_eq!(mux.allocate_stream_id(), Ok(3));
    let (id, header) = mux.open_stream(Protocol::TCP).unwrap();
    assert_eq!(id, 5);
    assert_eq!(decode_stream_header(&header).unwrap().stream_id, 5);

    let mut denied = QuicMultiplexer::new(false);
    let answer = Some(Err(RateLimitError::StreamRateLimited));
    assert!(open_quic_stream(&mut denied, Protocol::TCP, answer).is_err());

    let budget = SessionRateLimiter::new(&config(1, 1000, 1));
    let mut any = AnyMultiplexer::Quic(QuicMultiplexer::new(false).with_rate_limiter(budget));
    match any.open_stream(Protocol::TCP, 0) {
        Ok(OpenedStream::Quic { stream_id: 2, limiter: Some(_), .. }) => {}
        _ => panic!("expected a metered stream"),
    }
    assert!(any.open_stream(Protocol::TCP, 0).is_err());

    let mut any = AnyMultiplexer::Tcp(Multiplexer::new(true));
    match any.open_stream(Protocol::HTTP, 40) {
        Ok(OpenedStream::Tcp { stream_id: 1, announcement }) => {
            assert!(matches!(announcement.1, Frame::OpenStream(_)));
        }
        _ => panic!("expected a stream"),
    }
}

#[test]
fn test_batched_sender_single_frame() {
    let segments = assemble_batch(
        &TunnelCodec::new(),
        vec![pf(StreamPriority::Normal, Frame::Heartbeat { timestamp: 123 })],
    );
    assert!(segments.iter().map(|s| s.len()).sum::<usize>() > 0);
}

#[test]
fn test_batched_sender_multiple_frames() {
    let frames = (0..5)
        .map(|i| pf(StreamPriority::Normal, Frame::Heartbeat { timestamp: i }))
        .collect();
    let mut wire = assemble_batch(&TunnelCodec::new(), frames).concat();
    let mut out = Vec::new();
    TunnelCodec::new().decode_batch(&mut wire, &mut out).unwrap();
    let expected: Vec<Frame> = (0..5).map(|i| Frame::Heartbeat { timestamp: i }).collect();
    assert_eq!(out, expected);
}

#[test]
fn test_batched_sender_data_frames() {
    let frames =
        (0..3).map(|i| pf(StreamPriority::Normal, data(i, b"test data"))).collect();
    let mut wire = assemble_batch(&TunnelCodec::new(), frames).concat();
    let mut out = Vec::new();
    TunnelCodec::new().decode_batch(&mut wire, &mut out).unwrap();
    assert_eq!(out, vec![data(0, b"test data"), data(1, b"test data"), data(2, b"test data")]);
}

#[test]
fn batched_sender_delivers_every_frame() {
    let n = 20_000u64;
    let codec = TunnelCodec::new();
    let mut next = 0;
    let mut seen = 0;
    while next < n {
        let mut batch = Vec::new();
        while next < n && batch_has_room(batch.len()) {
            batch.push(pf(StreamPriority::Normal, Frame::Heartbeat { timestamp: next }));
            next += 1;
        }
        assert!(batch.len() <= MAX_BATCH_SIZE);
        let mut wire = assemble_batch(&codec, batch).concat();
        let mut out = Vec::new();
        codec.decode_batch(&mut wire, &mut out).unwrap();
        for frame in out {
            assert_eq!(frame, Frame::Heartbeat { timestamp: seen });
            seen += 1;
        }
    }
    assert_eq!(seen, n);
}

#[test]
fn urgent_frames_go_first_and_equals_keep_their_order() {
    let sorted = sort_by_priority(vec![
        pf(StreamPriority::Low, data(1, b"a")),
        pf(StreamPriority::Normal, data(2, b"b")),
        pf(StreamPriority::Critical, data(3, b"c")),
        pf(StreamPriority::Normal, data(4, b"d")),
        pf(StreamPriority::High, data(5, b"e")),
        pf(StreamPriority::Critical, data(6, b"f")),
    ]);
    let order: Vec<u32> = sorted
        .iter()
        .map(|(_, f)| match f {
            Frame::Data { stream_id, .. } => *stream_id,
            _ => 0,
        })
        .collect();
    assert_eq!(order, vec![3, 6, 5, 2, 4, 1]);
}

#[test]
fn a_frame_that_cannot_be_encoded_is_left_out_of_the_batch() {
    let codec = TunnelCodec::with_max_frame_size(32);
    let frames = vec![
        pf(StreamPriority::Normal, data(1, b"small")),
        pf(StreamPriority::Normal, data(2, &[0; 100])),
        pf(StreamPriority::Normal, data(3, b"fits")),
    ];
    let mut wire = assemble_batch(&codec, frames).concat();
    let mut out = Vec::new();
    codec.decode_batch(&mut wire, &mut out).unwrap();
    assert_eq!(out, vec![data(1, b"small"), data(3, b"fits")]);
}

#[test]
fn partial_writes_take_up_where_they_left_off() {
    let buffers = vec![vec![1u8, 2, 3], Vec::new(), vec![4, 5], vec![6]];
    let mut progress = WriteProgress::new();
    let mut written = Vec::new();
    while !progress.settle(&buffers) {
        let parts = progress.parts(&buffers);
        let mut left = 2usize;
        let mut taken = 0usize;
        for (index, offset) in parts {
            for byte in &buffers[index][offset..] {
                if left > 0 {
                    written.push(*byte);
                    left -= 1;
                    taken += 1;
                }
            }
        }
        progress.advance(&buffers, taken).unwrap();
    }
    assert_eq!(written, vec![1, 2, 3, 4, 5, 6]);
    let mut stuck = WriteProgress::new();
    assert!(!stuck.settle(&buffers));
    assert!(stuck.advance(&buffers, 0).is_err());
}

#[test]
fn only_a_batch_between_one_frame_and_a_full_one_waits_for_more() {
    assert!(!batch_should_yield(0));
    assert!(!batch_should_yield(1));
    assert!(batch_should_yield(2));
    assert!(batch_should_yield(MAX_BATCH_SIZE - 1));
    assert!(!batch_should_yield(MAX_BATCH_SIZE));
}

#[test]
fn priorities_compare_as_they_are_sent() {
    let sent = [
        StreamPriority::Critical,
        StreamPriority::High,
        StreamPriority::Normal,
        StreamPriority::Low,
    ];
    for (i, first) in sent.iter().enumerate() {
        assert_eq!(usize::from(first.drain_order()), i);
        for (j, second) in sent.iter().enumerate() {
            assert_eq!(first < second, i < j);
            assert_eq!(first.partial_cmp(second), Some(i.cmp(&j)));
            assert_eq!(first.cmp(second), i.cmp(&j));
        }
    }
    for (number, priority) in sent.iter().rev().enumerate() {
        assert_eq!(usize::from(priority.as_u8()), number);
    }
    assert_eq!(StreamPriority::Low.as_u8(), 0);
    assert_eq!(StreamPriority::Critical.as_u8(), 3);
}

#[test]
fn the_stream_looked_up_last_keeps_its_channel_until_its_id_is_opened_again() {
    let mut mux = Multiplexer::new(false);
    let channel_of = |mux: &mut Multiplexer, id: u32| match mux.process_frame(data(id, b"x"), 0) {
        FrameAction::DeliverData { channel, .. } => Some(channel),
        _ => None,
    };
    mux.process_frame(opening(1, StreamPriority::Normal), 10);
    assert_eq!(channel_of(&mut mux, 1), Some(10));
    mux.process_frame(opening(3, StreamPriority::Normal), 30);
    assert_eq!(channel_of(&mut mux, 1), Some(10));
    assert_eq!(channel_of(&mut mux, 3), Some(30));
    mux.data_not_delivered(1);
    assert_eq!(channel_of(&mut mux, 1), None);
    assert_eq!(channel_of(&mut mux, 3), Some(30));
    mux.process_frame(Frame::CloseStream { stream_id: 3, reason: CloseReason::Normal }, 0);
    mux.process_frame(opening(3, StreamPriority::Normal), 31);
    assert_eq!(channel_of(&mut mux, 3), Some(30));
    mux.process_frame(opening(5, StreamPriority::Normal), 50);
    assert_eq!(channel_of(&mut mux, 5), Some(50));
    assert_eq!(channel_of(&mut mux, 3), Some(31));
}

#[test]
fn a_run_of_the_sender_writes_every_frame_once() {
    let codec = TunnelCodec::with_max_frame_size(100);
    let levels = [StreamPriority::Low, StreamPriority::Critical, StreamPriority::Normal];
    let sent: Vec<(StreamPriority, u32)> = (0..30).map(|n| (levels[n as usize % 3], n)).collect();
    for size in [1, 4, 7, 30] {
        let mut wire = Vec::new();
        for batch in sent.chunks(size) {
            let mut frames: Vec<PrioritizedFrame> =
                batch.iter().map(|(level, n)| pf(*level, data(*n, b"x"))).collect();
            frames.push(pf(StreamPriority::Critical, data(99, &[0; 200])));
            wire.extend(assemble_batch(&codec, frames).concat());
        }
        let mut out = Vec::new();
        codec.decode_batch(&mut wire, &mut out).unwrap();
        let ids: Vec<u32> = out
            .iter()
            .map(|frame| match frame {
                Frame::Data { stream_id, .. } => *stream_id,
                other => panic!("unexpected {other:?}"),
            })
            .collect();
        let mut sorted = ids.clone();
        sorted.sort_unstable();
        assert_eq!(sorted, (0..30).collect::<Vec<u32>>());
        for rest in 0..3 {
            let of_level: Vec<u32> = ids.iter().copied().filter(|n| n % 3 == rest).collect();
            assert!(of_level.windows(2).all(|pair| pair[0] < pair[1]));
        }
    }
}

#[test]
fn metered_reads_hand_out_what_was_read_in_order() {
    let mut stream = RateLimitedStream::new(limiter(10, 1));
    let source: Vec<u8> = (0..=199).collect();
    let mut read = 0;
    let mut handed_out: Vec<u8> = Vec::new();
    let mut at_end = false;
    for turn in 0..500usize {
        let room = turn % 5;
        match stream.begin_read(room, turn % 3 == 0) {
            MeteredRead::Ready(chunk) => handed_out.extend(chunk),
            MeteredRead::Wait => {}
            MeteredRead::ReadInner(_) => {
                let next = (read + 1 + turn % 9).min(source.len());
                let bytes = source[read..next].to_vec();
                at_end = bytes.is_empty();
                read = next;
                match stream.on_read(bytes, room) {
                    MeteredRead::Ready(chunk) => handed_out.extend(chunk),
                    MeteredRead::Throttle(_) if turn % 2 == 0 => {
                        handed_out.extend(stream.on_paid(room));
                    }
                    MeteredRead::Throttle(_) => {}
                    other => panic!("unexpected {other:?}"),
                }
            }
            other => panic!("unexpected {other:?}"),
        }
        assert!(source[..read].starts_with(&handed_out));
    }
    assert!(at_end);
    assert_eq!(handed_out, source);
}
