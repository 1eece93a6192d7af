use seesaw::driver::Op;
use seesaw::modules::neopixel::{
    enable_neopixel, set_neopixel_color, set_neopixel_colors, set_neopixel_speed,
    set_nth_neopixel_color, sync_neopixel, write_neopixel_buf, ColorLayout, NeopixelSpeed, GRB,
    RGB, RGBW,
};

fn records(frames: &[Vec<u8>], record_size: usize) -> Vec<usize> {
    frames.iter().map(|f| (f.len() - 4) / record_size).collect()
}

fn offsets(frames: &[Vec<u8>]) -> Vec<u16> {
    frames.iter().map(|f| u16::from_be_bytes([f[2], f[3]])).collect()
}

fn frames_of(op: Op) -> Vec<Vec<u8>> {
    match op {
        Op::Write { frames, .. } => frames,
        Op::Read { .. } => panic!("expected a write"),
    }
}

#[test]
fn rgb_chunks_of_ten() {
    let colors: Vec<(u8, u8, u8)> = (0..25u8).map(|i| (i, i, i)).collect();
    let frames = set_neopixel_colors::<RGB>(0, &colors, 30, 32);
    assert_eq!(records(&frames, 3), vec![10, 10, 5]);
    assert_eq!(offsets(&frames), vec![0, 30, 60]);
    for f in &frames {
        assert_eq!(&f[0..2], &[0x0E, 0x04]);
        assert!(f.len() - 2 <= 32);
    }
}

#[test]
fn rgbw_seven_records_in_one_chunk() {
    let colors: Vec<(u8, u8, u8, u8)> = (0..7u8).map(|i| (i, 1, 2, 3)).collect();
    let frames = set_neopixel_colors::<RGBW>(0, &colors, 7, 32);
    assert_eq!(records(&frames, 4), vec![7]);
    assert_eq!(frames[0].len() - 2, 30);
}

#[test]
fn rgbw_eight_records_in_two_chunks() {
    let colors: Vec<(u8, u8, u8, u8)> = (0..8u8).map(|i| (i, 1, 2, 3)).collect();
    let frames = set_neopixel_colors::<RGBW>(2, &colors, 10, 32);
    assert_eq!(records(&frames, 4), vec![7, 1]);
    assert_eq!(offsets(&frames), vec![8, 36]);
}

#[test]
fn no_colors_no_chunks() {
    let colors: Vec<(u8, u8, u8)> = Vec::new();
    let frames = set_neopixel_colors::<GRB>(0, &colors, 4, 32);
    assert!(frames.is_empty());
}

#[test]
fn chunks_cover_all_records_in_order() {
    for max_transfer in 5..40usize {
        for n in 0..30u8 {
            let colors: Vec<(u8, u8, u8)> = (0..n).map(|i| (i, i, i)).collect();
            let frames = set_neopixel_colors::<RGB>(1, &colors, 40, max_transfer);
            let counts = records(&frames, 3);
            assert_eq!(counts.iter().sum::<usize>(), n as usize);
            let offs = offsets(&frames);
            for k in 1..offs.len() {
                assert_eq!(offs[k] as usize, offs[k - 1] as usize + counts[k - 1] * 3);
            }
            for f in &frames {
                assert!(f.len() - 2 <= max_transfer);
                assert!(f.len() > 4);
            }
            let data: Vec<u8> = frames.iter().flat_map(|f| f[4..].to_vec()).collect();
            let expected: Vec<u8> = colors.iter().flat_map(|c| vec![c.0, c.1, c.2]).collect();
            assert_eq!(data, expected);
        }
    }
}

#[test]
fn grb_swaps_first_two_channels() {
    let mut buf = Vec::new();
    GRB::blit(&(10, 20, 30), &mut buf);
    assert_eq!(buf, vec![20, 10, 30]);
    let mut buf = Vec::new();
    RGB::blit(&(10, 20, 30), &mut buf);
    assert_eq!(buf, vec![10, 20, 30]);
    let mut buf = vec![9];
    RGBW::blit(&(1, 2, 3, 4), &mut buf);
    assert_eq!(buf, vec![9, 1, 2, 3, 4]);
}

#[test]
fn buffer_write_frame() {
    let frame = write_neopixel_buf::<GRB>(0x0103, &[(10, 20, 30), (1, 2, 3)]);
    assert_eq!(frame, vec![0x0E, 0x04, 0x01, 0x03, 20, 10, 30, 2, 1, 3]);
}

#[test]
fn single_pixel_writes() {
    let frames = set_nth_neopixel_color::<GRB>(3, (10, 20, 30), 4, 32);
    assert_eq!(frames, vec![vec![0x0E, 0x04, 0, 9, 20, 10, 30]]);
    let frames = set_neopixel_color::<RGB>((10, 20, 30), 1, 32);
    assert_eq!(frames, vec![vec![0x0E, 0x04, 0, 0, 10, 20, 30]]);
}

#[test]
fn enable_speed_and_sync_frames() {
    assert_eq!(
        frames_of(enable_neopixel(0x30, 3, 4, 3)),
        vec![vec![0x0E, 0x01, 3], vec![0x0E, 0x03, 0, 12]]
    );
    assert_eq!(frames_of(set_neopixel_speed(0x30, NeopixelSpeed::Khz400)), vec![vec![0x0E, 0x02, 0]]);
    assert_eq!(frames_of(set_neopixel_speed(0x30, NeopixelSpeed::default())), vec![vec![0x0E, 0x02, 1]]);
    assert_eq!(frames_of(sync_neopixel(0x30)), vec![vec![0x0E, 0x05]]);
}
