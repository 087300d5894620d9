use tello_ui::utils::alloc_vec;
use tello_ui::video::{DecodeStep, NalParser, StreamAction, VideoStreamDecoder, write_frame};

#[test]
fn decode_h264_frame() {
    let mut v1 = vec![1, 2, 3, 0];
    let mut v2 = vec![0, 1, 103, 77, 64, 40, 149, 160, 60, 5, 185, 0];
    let mut v3 = vec![0, 0, 1, 104, 238, 56, 128, 0];
    let mut vd = VideoStreamDecoder::new(3).expect("can't create h264 decoder");
    let mut frame = alloc_vec(960 * 720 * 3);
    assert_eq!(StreamAction::ReadMore, vd.decode_images(&mut frame));
    vd.send_stream(&mut v1);
    assert_eq!(StreamAction::ReadMore, vd.decode_images(&mut frame));
    vd.send_stream(&mut v2);
    assert_eq!(StreamAction::CallNext, vd.decode_images(&mut frame));
    assert_eq!(StreamAction::ReadMore, vd.decode_images(&mut frame));
    vd.send_stream(&mut v3);
    assert_eq!(StreamAction::CallNext, vd.decode_images(&mut frame));
    assert_eq!(1, vd.packet_decode_ok());
}

#[test]
fn nal_mark_stream_boundary() {
    let mut v1 = vec![1, 2, 3, 0];
    let mut v2 = vec![0, 1, 104, 238, 56, 128, 0];
    let mut v3 = vec![0, 0, 1, 104, 238, 56, 128, 0];

    let mut np = NalParser::new();
    // nothing read, read some data
    assert_eq!(StreamAction::ReadMore, np.get_packet());
    assert_eq!(None, np.last_nal());
    np.read_stream(&mut v1);

    // no sign of the 0, 0, 1 mark, read more
    assert_eq!(StreamAction::ReadMore, np.get_packet());
    np.read_stream(&mut v2);

    // first 0, 0, 1 mark found at offset 3
    assert_eq!(StreamAction::CallNext, np.get_packet());
    assert_eq!(Some(3), np.last_nal());

    // however no follow-up mark found till the end of current stream
    assert_eq!(StreamAction::ReadMore, np.get_packet());
    np.read_stream(&mut v3);

    // now the packet is complete, process it
    assert_eq!(
        StreamAction::ProcessPacket(vec![0, 0, 1, 104, 238, 56, 128, 0]),
        np.get_packet()
    );
    assert_eq!(Some(0), np.last_nal());

    // no follow-up mark found till the end of current stream, read more
    assert_eq!(StreamAction::ReadMore, np.get_packet());
}

#[test]
fn nal_mark_empty() {
    let mut np = NalParser::new();
    assert_eq!(StreamAction::ReadMore, np.get_packet());
    assert_eq!(None, np.last_nal());
}

#[test]
fn nal_mark_no_mark() {
    let mut np = NalParser::new();
    np.read_stream(&mut vec![2, 3]);
    assert_eq!(StreamAction::ReadMore, np.get_packet());
    assert_eq!(None, np.last_nal());
}

#[test]
fn nal_mark_single_mark() {
    let mut np = NalParser::new();
    np.read_stream(&mut vec![0, 0, 1]);
    assert_eq!(StreamAction::CallNext, np.get_packet());
    assert_eq!(Some(0), np.last_nal());
}

#[test]
fn nal_mark_multiple_marks_same_vec() {
    let mut np = NalParser::new();
    np.read_stream(&mut vec![
        1, 2, 3, 4, 5, 0, 0, 1, 22, 33, 44, 0, 0, 0, 1, 0, 5, 6, 7, 0, 0, 1, 7, 8, 9,
    ]);
    assert_eq!(StreamAction::CallNext, np.get_packet());
    assert_eq!(Some(5), np.last_nal());
    assert_eq!(
        StreamAction::ProcessPacket(vec![0, 0, 1, 22, 33, 44, 0]),
        np.get_packet()
    );
    assert_eq!(
        StreamAction::ProcessPacket(vec![0, 0, 1, 0, 5, 6, 7]),
        np.get_packet()
    );
    assert_eq!(StreamAction::ReadMore, np.get_packet());
}

#[test]
fn nal_mark_multiple_marks() {
    let mut np = NalParser::new();
    np.read_stream(&mut vec![0, 0, 1, 2, 3, 4, 0, 0, 1]);
    assert_eq!(StreamAction::CallNext, np.get_packet());
    assert_eq!(Some(0), np.last_nal());
    assert_eq!(
        StreamAction::ProcessPacket(vec![0, 0, 1, 2, 3, 4]),
        np.get_packet()
    );
    assert_eq!(StreamAction::ReadMore, np.get_packet());
    assert_eq!(Some(0), np.last_nal());
    np.read_stream(&mut vec![2, 2, 2]);
    assert_eq!(StreamAction::ReadMore, np.get_packet());
    assert_eq!(Some(0), np.last_nal());
    np.read_stream(&mut vec![3, 3, 3, 0, 0, 1, 5, 6, 7]);
    assert_eq!(
        StreamAction::ProcessPacket(vec![0, 0, 1, 2, 2, 2, 3, 3, 3]),
        np.get_packet()
    );
    assert_eq!(Some(0), np.last_nal());
    assert_eq!(StreamAction::ReadMore, np.get_packet());
    assert_eq!(Some(0), np.last_nal());
}

/// An accumulator shorter than the marker must starve, not trap.
#[test]
fn nal_mark_short_buffer() {
    let mut np = NalParser::new();
    np.read_stream(&mut vec![0]);
    assert_eq!(StreamAction::ReadMore, np.get_packet());
    assert_eq!(None, np.last_nal());
    np.read_stream(&mut vec![0]);
    assert_eq!(StreamAction::ReadMore, np.get_packet());
    assert_eq!(None, np.last_nal());
}

/// Starving the parser leaves its answer and state alone: repeated calls
/// without new input keep reporting `ReadMore`.
#[test]
fn nal_mark_starvation_idempotent() {
    let mut np = NalParser::new();
    np.read_stream(&mut vec![0, 0, 1, 9, 9]);
    assert_eq!(StreamAction::CallNext, np.get_packet());
    for _ in 0..5 {
        assert_eq!(StreamAction::ReadMore, np.get_packet());
        assert_eq!(Some(0), np.last_nal());
    }
}

fn drain_all(np: &mut NalParser) -> Vec<Vec<u8>> {
    let mut packets = Vec::new();
    loop {
        match np.get_packet() {
            StreamAction::CallNext => {}
            StreamAction::ReadMore => break,
            StreamAction::ProcessPacket(p) => packets.push(p),
        }
    }
    packets
}

/// The packet sequence is independent of how the stream is sliced into
/// chunks: byte-by-byte delivery equals one bulk delivery.
#[test]
fn nal_chunk_boundary_invariance() {
    let stream: Vec<u8> = vec![
        7, 0, 0, 1, 10, 11, 0, 0, 0, 1, 12, 13, 14, 0, 0, 1, 0, 0, 1, 15, 0, 0, 1,
    ];

    let mut bulk = NalParser::new();
    bulk.read_stream(&mut stream.clone());
    let mut expected = drain_all(&mut bulk);

    let mut trickle = NalParser::new();
    let mut got: Vec<Vec<u8>> = Vec::new();
    for b in &stream {
        trickle.read_stream(&mut vec![*b]);
        got.append(&mut drain_all(&mut trickle));
    }
    assert_eq!(expected, got);

    let mut halves = NalParser::new();
    let (left, right) = stream.split_at(11);
    halves.read_stream(&mut left.to_vec());
    let mut got2 = drain_all(&mut halves);
    halves.read_stream(&mut right.to_vec());
    got2.append(&mut drain_all(&mut halves));
    expected = got2;
    let mut bulk2 = NalParser::new();
    bulk2.read_stream(&mut stream.clone());
    assert_eq!(drain_all(&mut bulk2), expected);
}

/// A frame is published only when its size matches the buffer.
#[test]
fn write_frame_size_guard() {
    let mut target = vec![9u8, 9, 9, 9];
    write_frame(&vec![1u8, 2, 3], &mut target);
    assert_eq!(vec![9u8, 9, 9, 9], target);
    write_frame(&vec![1u8, 2, 3, 4], &mut target);
    assert_eq!(vec![1u8, 2, 3, 4], target);
}

/// With `skip_frames = 3`, of 7 produced frames exactly `ceil(7/3) = 3` reach
/// the buffer, at produced-frame indices 0, 3 and 6.
#[test]
fn decimation_cadence() {
    let mut vd = VideoStreamDecoder::new(3).expect("can't create h264 decoder");
    let mut frame = vec![0u8; 4];
    let mut written = 0;
    let mut last = frame.clone();
    for k in 0u8..7 {
        vd.process_decoded(DecodeStep::Frame(vec![100 + k; 4]), &mut frame);
        if frame != last {
            written += 1;
            assert_eq!(vec![100 + k; 4], frame);
            last = frame.clone();
        }
    }
    assert_eq!(3, written);
    assert_eq!(vec![106u8; 4], frame);
    assert_eq!(7, vd.frame_no());
    assert_eq!(0, vd.packet_no());
    assert_eq!(7, vd.packet_decode_ok());
}

/// With `skip_frames = 0` every produced frame reaches the buffer.
#[test]
fn decimation_render_all() {
    let mut vd = VideoStreamDecoder::new(0).expect("can't create h264 decoder");
    let mut frame = vec![0u8; 2];
    for k in 0u8..4 {
        vd.process_decoded(DecodeStep::Frame(vec![k; 2]), &mut frame);
        assert_eq!(vec![k; 2], frame);
    }
    assert_eq!(4, vd.frame_no());
}

/// A rejected packet changes nothing but the packet count; an accepted packet
/// without a picture counts a success and nothing else.
#[test]
fn decode_outcome_isolation() {
    let mut vd = VideoStreamDecoder::new(0).expect("can't create h264 decoder");
    let mut frame = vec![5u8; 3];
    vd.process_decoded(DecodeStep::Failed, &mut frame);
    assert_eq!((0, 0, 0), (vd.packet_no(), vd.packet_decode_ok(), vd.frame_no()));
    assert_eq!(vec![5u8; 3], frame);
    vd.process_decoded(DecodeStep::NoFrame, &mut frame);
    assert_eq!((0, 1, 0), (vd.packet_no(), vd.packet_decode_ok(), vd.frame_no()));
    assert_eq!(vec![5u8; 3], frame);
}

/// A malformed packet between two well-formed ones is dropped: all three
/// packets are counted, only the well-formed two as successful decodes.
#[test]
fn decode_failure_isolation() {
    // A well-formed sequence parameter set, a corrupted packet, and a
    // well-formed picture parameter set, each closed by the next marker.
    let mut stream = vec![0, 0, 1, 103, 77, 64, 40, 149, 160, 60, 5, 185];
    stream.extend_from_slice(&[0, 0, 1, 103, 77, 64]);
    stream.extend_from_slice(&[0, 0, 1, 104, 238, 56, 128]);
    stream.extend_from_slice(&[0, 0, 1]);
    let mut vd = VideoStreamDecoder::new(0).expect("can't create h264 decoder");
    let mut frame = alloc_vec(16);
    vd.send_stream(&mut stream);
    loop {
        match vd.decode_images(&mut frame) {
            StreamAction::CallNext => {}
            _ => break,
        }
    }
    assert_eq!(3, vd.packet_no());
    assert_eq!(2, vd.packet_decode_ok());
    assert_eq!(0, vd.frame_no());
}

/// End-to-end decode-failure isolation: a malformed packet between two
/// well-formed encoded frames is dropped, and the frame buffer ends up
/// holding the second frame's pixels.
#[test]
fn decode_failure_isolation_pixels() {
    let w = 32usize;
    let h = 32usize;
    let encode_solid = |r: u8, g: u8, b: u8| -> Vec<u8> {
        let mut rgb = vec![0u8; w * h * 3];
        for p in rgb.chunks_mut(3) {
            p[0] = r;
            p[1] = g;
            p[2] = b;
        }
        let slice = openh264::formats::RgbSliceU8::new(&rgb, (w, h));
        let yuv = openh264::formats::YUVBuffer::from_rgb8_source(slice);
        let mut enc = openh264::encoder::Encoder::new().expect("can't create h264 encoder");
        enc.encode(&yuv).expect("encode frame").to_vec()
    };
    let red = encode_solid(200, 10, 10);
    let blue = encode_solid(10, 10, 200);

    let mut stream = red.clone();
    stream.extend_from_slice(&[0, 0, 1, 103, 77, 64]); // corrupted packet
    stream.extend_from_slice(&blue);
    stream.extend_from_slice(&[0, 0, 1]); // closes the last unit

    let mut vd = VideoStreamDecoder::new(0).expect("can't create h264 decoder");
    let mut frame = alloc_vec(w * h * 3);
    vd.send_stream(&mut stream);
    loop {
        match vd.decode_images(&mut frame) {
            StreamAction::CallNext => {}
            _ => break,
        }
    }

    // exactly the malformed packet failed to decode
    assert_eq!(vd.packet_no(), vd.packet_decode_ok() + 1);
    // both encoded pictures were produced
    assert_eq!(2, vd.frame_no());
    // the buffer holds the second picture: blue dominates its first pixel
    assert!(frame[2] > 150, "blue channel too low: {}", frame[2]);
    assert!(frame[0] < 100, "red channel too high: {}", frame[0]);
}

/// Draining collects exactly the bounded packets, in stream order, and a
/// drained parser yields nothing more.
#[test]
fn collect_packets_in_order() {
    let mut np = NalParser::new();
    np.read_stream(&mut vec![0, 0, 1, 5, 0, 0, 1, 6, 7, 0, 0, 1]);
    let packets = np.collect_packets();
    assert_eq!(vec![vec![0, 0, 1, 5], vec![0, 0, 1, 6, 7]], packets);
    assert!(np.collect_packets().is_empty());
    assert_eq!(Some(0), np.last_nal());
}
