use chat_rs::capture::{CaptureInput, CapturePath, OPUS_FRAME_MS};

fn input(gated: bool, loud: bool) -> CaptureInput {
    CaptureInput { gated, loud, gate_disabled: false, above_gate: loud }
}

#[test]
fn packets_every_second_frame_and_none_while_gated() {
    let mut p = CapturePath::new();
    let o = p.frame(input(false, true));
    assert_eq!(o.announce, Some(true));
    assert_eq!(o.packet, None);
    assert!(!o.drained);
    let o = p.frame(input(false, true));
    assert_eq!(o.announce, None);
    assert_eq!(o.packet, Some(OPUS_FRAME_MS));
    assert!(o.drained);
    // muted: speaking stops at once, and the completed packet is dropped
    let o = p.frame(input(true, true));
    assert_eq!(o.announce, Some(false));
    assert_eq!(o.packet, None);
    let o = p.frame(input(true, true));
    assert_eq!(o.announce, None);
    assert_eq!(o.packet, None);
    assert!(o.drained);
}

#[test]
fn announcements_alternate_from_true() {
    let mut p = CapturePath::new();
    let mut sent = Vec::new();
    let pattern = [true, true, false, true, true, false, false, true, false];
    for (k, loud) in pattern.iter().enumerate() {
        let gated = k % 4 == 3;
        if let Some(b) = p.frame(input(gated, *loud)).announce {
            sent.push(b);
        }
    }
    assert!(!sent.is_empty());
    for (k, b) in sent.iter().enumerate() {
        assert_eq!(*b, k % 2 == 0);
    }
}

#[test]
fn disabled_gate_never_silences() {
    let mut p = CapturePath::new();
    for _ in 0..100 {
        let o = p.frame(CaptureInput { gated: false, loud: false, gate_disabled: true, above_gate: false });
        assert!(!o.zeroed);
    }
    let mut q = CapturePath::new();
    let o = q.frame(CaptureInput { gated: false, loud: false, gate_disabled: false, above_gate: false });
    assert!(o.zeroed);
}
