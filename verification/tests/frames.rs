use diffscreen::frame::frame_payload;
use diffscreen::frame::prefix_equal;
use diffscreen::frame::FrameError;
use diffscreen::frame::HostPipeline;
use diffscreen::frame::ViewerPipeline;
use diffscreen::telemetry::Telemetry;
use diffscreen::telemetry::Throughput;
use diffscreen::wire::depack;
use diffscreen::wire::encode;
use diffscreen::wire::FrameMeta;
use flate2::read::DeflateDecoder;
use flate2::write::DeflateEncoder;
use flate2::Compression;
use std::io::Read;
use std::io::Write;

fn meta(width: u16, height: u16) -> FrameMeta {
    FrameMeta::new(width, height).unwrap()
}

fn inflate_with_flate2(payload: &[u8]) -> Vec<u8> {
    let mut out = Vec::new();
    DeflateDecoder::new(payload).read_to_end(&mut out).unwrap();
    out
}

fn deflate_with_flate2(data: &[u8]) -> Vec<u8> {
    let mut e = DeflateEncoder::new(Vec::new(), Compression::default());
    e.write_all(data).unwrap();
    e.finish().unwrap()
}

fn patterned(len: usize, seed: u8) -> Vec<u8> {
    let mut v = Vec::with_capacity(len);
    let mut x: u32 = seed as u32 + 1;
    for _ in 0..len {
        x = x.wrapping_mul(1664525).wrapping_add(1013904223);
        v.push((x >> 24) as u8);
    }
    v
}

#[test]
fn length_prefix_is_three_bytes_big_endian() {
    assert_eq!(encode(0), [0, 0, 0]);
    assert_eq!(encode(5), [0, 0, 5]);
    assert_eq!(encode(0x0102_03), [1, 2, 3]);
    assert_eq!(encode(0xff_ffff), [0xff, 0xff, 0xff]);
    assert_eq!(depack(&[0, 0, 0]), 0);
    assert_eq!(depack(&[1, 2, 3]), 0x0102_03);
    assert_eq!(depack(&[0xff, 0xff, 0xff]), 0xff_ffff);
    assert_eq!(depack(&[0, 1, 0]), 256);
}

#[test]
fn length_prefix_round_trips_below_the_limit() {
    for len in [0usize, 1, 255, 256, 65535, 65536, 1_000_000, 0xff_ffff] {
        assert_eq!(depack(&encode(len)), len);
    }
}

#[test]
fn length_prefix_carries_only_the_low_24_bits() {
    assert_eq!(encode(0x100_0000), [0, 0, 0]);
    assert_eq!(encode(0x100_0001), [0, 0, 1]);
    assert_eq!(depack(&encode(0x123_4567)), 0x23_4567);
}

#[test]
fn frame_meta_travels_as_width_then_height() {
    let m = meta(1920, 1080);
    assert_eq!(m.encode(), [0x07, 0x80, 0x04, 0x38]);
    assert_eq!(FrameMeta::decode(&[0x07, 0x80, 0x04, 0x38]), Some(m));
    assert_eq!(meta(4, 4).encode(), [0, 4, 0, 4]);
    assert_eq!(meta(65535, 1).encode(), [0xff, 0xff, 0, 1]);
    assert_eq!(
        FrameMeta::decode(&meta(65535, 1).encode()),
        Some(meta(65535, 1))
    );
}

#[test]
fn frame_meta_refuses_a_zero_dimension() {
    assert_eq!(FrameMeta::new(0, 4), None);
    assert_eq!(FrameMeta::new(4, 0), None);
    assert_eq!(FrameMeta::new(0, 0), None);
    assert_eq!(FrameMeta::decode(&[0, 0, 0, 4]), None);
    assert_eq!(FrameMeta::decode(&[0, 4, 0, 0]), None);
    assert!(FrameMeta::new(1, 1).is_some());
}

#[test]
fn frame_sizes_follow_the_dimensions() {
    let m = meta(4, 4);
    assert_eq!(m.luma_size(), 16);
    assert_eq!(m.chroma_size(), 4);
    assert_eq!(m.planar_size(), 24);
    assert_eq!(m.rgb_size(), 48);
    let hd = meta(1920, 1080);
    assert_eq!(hd.luma_size(), 2_073_600);
    assert_eq!(hd.chroma_size(), 518_400);
    assert_eq!(hd.planar_size(), 3_110_400);
    assert_eq!(hd.rgb_size(), 6_220_800);
    let odd = meta(3, 3);
    assert_eq!(odd.luma_size(), 9);
    assert_eq!(odd.chroma_size(), 2);
    assert_eq!(odd.planar_size(), 13);
    let max = meta(65535, 65535);
    assert_eq!(max.luma_size(), 4_294_836_225);
}

#[test]
fn prefix_equal_looks_at_the_prefix_only() {
    let a = vec![1u8, 2, 3, 4];
    let b = vec![1u8, 2, 9, 9];
    assert!(prefix_equal(&a, &b, 0));
    assert!(prefix_equal(&a, &b, 2));
    assert!(!prefix_equal(&a, &b, 3));
    assert!(!prefix_equal(&a, &b, 4));
    assert!(prefix_equal(&a, &a, 4));
}

#[test]
fn frame_payload_prefixes_the_length() {
    let framed = frame_payload(vec![9u8; 300]);
    assert_eq!(framed.header, [0, 1, 44]);
    assert_eq!(framed.payload, vec![9u8; 300]);
    let empty = frame_payload(Vec::new());
    assert_eq!(empty.header, [0, 0, 0]);
    assert!(empty.payload.is_empty());
}

#[test]
fn first_frame_travels_whole() {
    let mut host = HostPipeline::new(meta(4, 4));
    assert!(host.last_sent().is_none());
    let frame = patterned(24, 1);
    let framed = host.next_frame(frame.clone()).unwrap();
    assert_eq!(depack(&framed.header), framed.payload.len());
    assert_eq!(inflate_with_flate2(&framed.payload), frame);
    assert_eq!(framed.payload, deflate_with_flate2(&frame));
    assert_eq!(host.last_sent(), Some(&frame));
    assert_eq!(host.dimensions(), meta(4, 4));
}

#[test]
fn later_frame_travels_as_difference() {
    let mut host = HostPipeline::new(meta(4, 4));
    let first = patterned(24, 1);
    let second = patterned(24, 2);
    host.next_frame(first.clone()).unwrap();
    let framed = host.next_frame(second.clone()).unwrap();
    let delta: Vec<u8> = first.iter().zip(second.iter()).map(|(a, b)| a ^ b).collect();
    assert_eq!(inflate_with_flate2(&framed.payload), delta);
    assert_eq!(depack(&framed.header), framed.payload.len());
    assert_eq!(host.last_sent(), Some(&second));
}

#[test]
fn identical_luma_plane_sends_nothing() {
    let mut host = HostPipeline::new(meta(4, 4));
    let first = patterned(24, 3);
    assert!(host.next_frame(first.clone()).is_some());
    assert!(host.next_frame(first.clone()).is_none());
    assert!(host.next_frame(first.clone()).is_none());
    assert_eq!(host.last_sent(), Some(&first));
}

#[test]
fn chroma_only_change_is_skipped_and_not_remembered() {
    let mut host = HostPipeline::new(meta(4, 4));
    let first = vec![7u8; 24];
    host.next_frame(first.clone()).unwrap();
    let mut tinted = first.clone();
    tinted[16] = 0x55;
    tinted[23] = 0xaa;
    assert!(host.next_frame(tinted.clone()).is_none());
    assert_eq!(host.last_sent(), Some(&first));
    let mut moved = tinted.clone();
    moved[15] = 0;
    let framed = host.next_frame(moved.clone()).unwrap();
    let delta = inflate_with_flate2(&framed.payload);
    let mut expected = vec![0u8; 24];
    expected[15] = 7;
    expected[16] = 7 ^ 0x55;
    expected[23] = 7 ^ 0xaa;
    assert_eq!(delta, expected);
    assert_eq!(host.last_sent(), Some(&moved));
}

#[test]
fn change_in_last_luma_byte_is_sent() {
    let mut host = HostPipeline::new(meta(4, 4));
    let first = vec![0u8; 24];
    host.next_frame(first.clone()).unwrap();
    let mut second = first.clone();
    second[15] = 1;
    assert!(host.next_frame(second).is_some());
}

#[test]
fn viewer_rebuilds_what_the_host_sent() {
    let m = meta(8, 6);
    let len = m.planar_size() as usize;
    let mut host = HostPipeline::new(m);
    let mut viewer = ViewerPipeline::new(m);
    assert!(viewer.frame().is_none());
    for seed in 0..6u8 {
        let frame = patterned(len, seed);
        let framed = host.next_frame(frame.clone()).unwrap();
        assert_eq!(viewer.receive(&framed.payload), Ok(()));
        assert_eq!(viewer.frame(), Some(&frame));
    }
    assert_eq!(viewer.dimensions(), m);
}

#[test]
fn delta_round_trip_on_all_zero_and_all_ones() {
    let m = meta(4, 4);
    for (a, b) in [
        (vec![0u8; 24], vec![0xffu8; 24]),
        (vec![0xffu8; 24], vec![0u8; 24]),
        (vec![0xffu8; 24], patterned(24, 9)),
        (patterned(24, 4), vec![0u8; 24]),
    ] {
        let mut host = HostPipeline::new(m);
        let mut viewer = ViewerPipeline::new(m);
        let f1 = host.next_frame(a.clone()).unwrap();
        viewer.receive(&f1.payload).unwrap();
        assert_eq!(viewer.frame(), Some(&a));
        let f2 = host.next_frame(b.clone()).unwrap();
        viewer.receive(&f2.payload).unwrap();
        assert_eq!(viewer.frame(), Some(&b));
    }
}

#[test]
fn compression_round_trip_through_the_pipelines() {
    for (w, h) in [(1u16, 1u16), (1, 2), (1, 3), (2, 2), (16, 16), (64, 48)] {
        let m = meta(w, h);
        let len = m.planar_size() as usize;
        for data in [vec![0u8; len], vec![0xabu8; len], patterned(len, w as u8)] {
            let mut host = HostPipeline::new(m);
            let mut viewer = ViewerPipeline::new(m);
            let framed = host.next_frame(data.clone()).unwrap();
            assert_eq!(viewer.receive(&framed.payload), Ok(()));
            assert_eq!(viewer.frame(), Some(&data));
        }
    }
}

#[test]
fn four_by_four_session_end_to_end() {
    let m = meta(4, 4);
    assert_eq!(m.encode(), [0, 4, 0, 4]);
    let mut host = HostPipeline::new(m);
    let mut viewer = ViewerPipeline::new(m);

    let first = vec![0u8; 24];
    let sent1 = host.next_frame(first.clone()).unwrap();
    assert_eq!(inflate_with_flate2(&sent1.payload), vec![0u8; 24]);
    assert_eq!(viewer.receive(&sent1.payload), Ok(()));
    assert_eq!(viewer.frame(), Some(&first));

    let mut second = first.clone();
    second[5] = 0xff;
    let sent2 = host.next_frame(second.clone()).unwrap();
    let delta = inflate_with_flate2(&sent2.payload);
    assert_eq!(delta.len(), 24);
    for (i, byte) in delta.iter().enumerate() {
        if i == 5 {
            assert_eq!(*byte, 0xff);
        } else {
            assert_eq!(*byte, 0);
        }
    }
    assert_eq!(viewer.receive(&sent2.payload), Ok(()));
    assert_eq!(viewer.frame(), Some(&second));
}

#[test]
fn viewer_refuses_a_corrupt_payload() {
    let mut viewer = ViewerPipeline::new(meta(4, 4));
    assert_eq!(
        viewer.receive(&[0xff, 0xff, 0xff, 0xff]),
        Err(FrameError::Corrupt)
    );
    assert!(viewer.frame().is_none());
    let good = deflate_with_flate2(&[1u8; 24]);
    viewer.receive(&good).unwrap();
    assert_eq!(
        viewer.receive(&[0xff, 0xff, 0xff, 0xff]),
        Err(FrameError::Corrupt)
    );
    assert_eq!(viewer.frame(), Some(&vec![1u8; 24]));
}

#[test]
fn viewer_refuses_a_payload_of_the_wrong_size() {
    let mut viewer = ViewerPipeline::new(meta(4, 4));
    let short = deflate_with_flate2(&[0u8; 23]);
    let long = deflate_with_flate2(&[0u8; 25]);
    let empty = deflate_with_flate2(&[]);
    assert_eq!(viewer.receive(&short), Err(FrameError::WrongSize));
    assert_eq!(viewer.receive(&long), Err(FrameError::WrongSize));
    assert_eq!(viewer.receive(&empty), Err(FrameError::WrongSize));
    assert!(viewer.frame().is_none());
    assert_eq!(
        viewer.apply_delta(vec![0u8; 23]),
        Err(FrameError::WrongSize)
    );
    assert_eq!(viewer.apply_delta(vec![3u8; 24]), Ok(()));
    assert_eq!(
        viewer.apply_delta(vec![0u8; 25]),
        Err(FrameError::WrongSize)
    );
    assert_eq!(viewer.frame(), Some(&vec![3u8; 24]));
}

#[test]
fn apply_delta_combines_with_the_last_frame() {
    let mut viewer = ViewerPipeline::new(meta(2, 2));
    assert_eq!(viewer.apply_delta(vec![1, 2, 3, 4, 5, 6]), Ok(()));
    assert_eq!(viewer.frame(), Some(&vec![1, 2, 3, 4, 5, 6]));
    assert_eq!(viewer.apply_delta(vec![0xff, 0, 3, 0, 0x0f, 6]), Ok(()));
    assert_eq!(viewer.frame(), Some(&vec![0xfe, 2, 0, 4, 0x0a, 0]));
    assert_eq!(viewer.apply_delta(vec![0; 6]), Ok(()));
    assert_eq!(viewer.frame(), Some(&vec![0xfe, 2, 0, 4, 0x0a, 0]));
}

#[test]
fn telemetry_reports_once_the_window_is_over() {
    let mut t = Telemetry::new();
    assert_eq!(t.record(2048, 0), None);
    assert_eq!(t.record(1024, 500), None);
    assert_eq!(t.record(1023, 999), None);
    assert_eq!(
        t.record(1, 1000),
        Some(Throughput {
            fps: 4,
            kb_per_sec: 4
        })
    );
    assert_eq!(t.record(100, 10), None);
    assert_eq!(
        t.record(100, 2500),
        Some(Throughput {
            fps: 2,
            kb_per_sec: 0
        })
    );
    assert_eq!(
        t.record(1024 * 30, 1000),
        Some(Throughput {
            fps: 1,
            kb_per_sec: 30
        })
    );
}

#[test]
fn telemetry_byte_counter_saturates() {
    let mut t = Telemetry::new();
    assert_eq!(t.record(usize::MAX, 0), None);
    assert_eq!(t.record(usize::MAX, 0), None);
    let report = t.record(usize::MAX, 1000).unwrap();
    assert_eq!(report.fps, 3);
    if usize::MAX as u128 * 3 > u64::MAX as u128 {
        assert_eq!(report.kb_per_sec, u64::MAX / 1024);
    }
}

#[test]
fn large_frames_round_trip() {
    let m = meta(640, 480);
    let len = m.planar_size() as usize;
    assert_eq!(len, 460_800);
    let mut host = HostPipeline::new(m);
    let mut viewer = ViewerPipeline::new(m);
    let first = patterned(len, 17);
    let mut second = first.clone();
    for i in (0..len).step_by(97) {
        second[i] = second[i].wrapping_add(1);
    }
    for frame in [first, second, vec![0u8; len]] {
        let framed = host.next_frame(frame.clone()).unwrap();
        assert_eq!(depack(&framed.header), framed.payload.len());
        assert_eq!(viewer.receive(&framed.payload), Ok(()));
        assert_eq!(viewer.frame(), Some(&frame));
    }
}
