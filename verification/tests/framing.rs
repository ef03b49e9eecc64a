use chat_rs::framing::{loss_setting, FrameBuffer};

#[test]
fn frames_are_cut_in_order_and_the_tail_waits() {
    let mut b: FrameBuffer<i32> = FrameBuffer::new();
    let frames = b.push(&[1, 2, 3, 4, 5], 2);
    assert_eq!(frames, vec![vec![1, 2], vec![3, 4]]);
    assert_eq!(b.buf, vec![5]);
    let frames = b.push(&[6, 7], 2);
    assert_eq!(frames, vec![vec![5, 6]]);
    assert_eq!(b.buf, vec![7]);
}

#[test]
fn short_input_yields_no_frame() {
    let mut b: FrameBuffer<f32> = FrameBuffer::new();
    let frames = b.push(&[0.5, 0.25], 480);
    assert!(frames.is_empty());
    assert_eq!(b.buf.len(), 2);
    b.clear();
    assert!(b.buf.is_empty());
}

#[test]
fn encoder_frame_from_two_echo_frames() {
    let mut b: FrameBuffer<u16> = FrameBuffer::new();
    let first: Vec<u16> = (0..480).collect();
    let second: Vec<u16> = (480..960).collect();
    assert!(b.push(&first, 960).is_empty());
    let frames = b.push(&second, 960);
    assert_eq!(frames.len(), 1);
    assert_eq!(frames[0], (0..960).collect::<Vec<u16>>());
    assert!(b.buf.is_empty());
}

#[test]
fn loss_setting_only_on_change_and_capped() {
    assert_eq!(loss_setting(5, 5), None);
    assert_eq!(loss_setting(12, 0), Some(12));
    assert_eq!(loss_setting(250, 100), Some(100));
    assert_eq!(loss_setting(0, 7), Some(0));
}
