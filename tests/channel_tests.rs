use kinect_rtsp::channel::FrameChannel;
use kinect_rtsp::frame::{AudioFrame, RawFrame};

fn tagged(tag: u8) -> RawFrame {
    RawFrame::Audio(AudioFrame { data: vec![tag] })
}

fn tag_of(frame: &RawFrame) -> u8 {
    match frame {
        RawFrame::Audio(a) => a.data[0],
        _ => panic!("unexpected frame kind"),
    }
}

#[test]
fn overflow_drops_exactly_one_and_keeps_order() {
    let capacity = 16usize;
    let mut channel = FrameChannel::new(capacity);
    let mut accepted = 0;
    for tag in 0..=capacity as u8 {
        if channel.push(tagged(tag)) {
            accepted += 1;
        }
    }
    assert_eq!(accepted, capacity);
    assert_eq!(channel.dropped(), 1);
    for expected in 0..capacity as u8 {
        let frame = channel.pop().expect("frame");
        assert_eq!(tag_of(&frame), expected);
    }
    assert!(channel.pop().is_none());
}

#[test]
fn pop_on_empty_returns_none() {
    let mut channel = FrameChannel::new(4);
    assert!(channel.pop().is_none());
    assert_eq!(channel.dropped(), 0);
}

#[test]
fn frames_come_out_in_order_after_interleaving() {
    let mut channel = FrameChannel::new(2);
    assert!(channel.push(tagged(1)));
    assert!(channel.push(tagged(2)));
    assert!(!channel.push(tagged(3)));
    assert_eq!(tag_of(&channel.pop().unwrap()), 1);
    assert!(channel.push(tagged(4)));
    assert_eq!(tag_of(&channel.pop().unwrap()), 2);
    assert_eq!(tag_of(&channel.pop().unwrap()), 4);
    assert!(channel.pop().is_none());
    assert_eq!(channel.dropped(), 1);
}
