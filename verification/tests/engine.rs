use stutter::engine::{detect_edge, StutterEngine, TriggerEdge};

#[test]
fn detect_edge_cases() {
    assert_eq!(detect_edge(false, false), TriggerEdge::NoChange);
    assert_eq!(detect_edge(false, true), TriggerEdge::RisingEdge);
    assert_eq!(detect_edge(true, false), TriggerEdge::FallingEdge);
    assert_eq!(detect_edge(true, true), TriggerEdge::NoChange);
}

#[test]
fn engine_pass_through_block() {
    // Gate low for the whole run: both channels come out exactly as they
    // went in.
    let mut engine = StutterEngine::new(8);
    let left: Vec<u32> = vec![1, 2, 3, 4, 5];
    let right: Vec<u32> = vec![10, 20, 30, 40, 50];
    let (l, r) = engine.process_block(false, 8, &left, &right);
    assert_eq!(l, left);
    assert_eq!(r, right);
}

#[test]
fn engine_capture_then_loop_across_blocks() {
    // A rising edge at the start of a block begins capture; the needle keeps
    // counting across block boundaries, so the loop continues seamlessly in
    // the next block.
    let mut engine = StutterEngine::new(8);
    let left1: Vec<u32> = vec![1, 2, 3, 4, 5, 6];
    let right1: Vec<u32> = vec![11, 12, 13, 14, 15, 16];
    let (l1, r1) = engine.process_block(true, 4, &left1, &right1);
    assert_eq!(l1, vec![1, 2, 3, 4, 1, 2]);
    assert_eq!(r1, vec![11, 12, 13, 14, 11, 12]);

    // Gate still high: no edge, playback continues where it left off.
    let left2: Vec<u32> = vec![7, 8, 9, 10];
    let right2: Vec<u32> = vec![17, 18, 19, 20];
    let (l2, r2) = engine.process_block(true, 4, &left2, &right2);
    assert_eq!(l2, vec![3, 4, 1, 2]);
    assert_eq!(r2, vec![13, 14, 11, 12]);
}

#[test]
fn engine_falling_edge_resumes_pass_through() {
    let mut engine = StutterEngine::new(8);
    let left1: Vec<u32> = vec![1, 2, 3, 4, 5, 6];
    let right1: Vec<u32> = left1.clone();
    engine.process_block(true, 2, &left1, &right1);

    // Gate dropped: the very first sample of the next block is raw input.
    let left2: Vec<u32> = vec![100, 101, 102];
    let right2: Vec<u32> = vec![200, 201, 202];
    let (l2, r2) = engine.process_block(false, 2, &left2, &right2);
    assert_eq!(l2, left2);
    assert_eq!(r2, right2);
}

#[test]
fn engine_retrigger_restarts_capture() {
    let mut engine = StutterEngine::new(8);
    let a: Vec<u32> = vec![1, 2, 3, 4];
    engine.process_block(true, 2, &a, &a);
    let b: Vec<u32> = vec![5, 6];
    engine.process_block(false, 2, &b, &b);

    // A second rising edge: the old episode's position is discarded and
    // capture restarts from the first sample of this block.
    let c: Vec<u32> = vec![70, 71, 72, 73];
    let (l, _r) = engine.process_block(true, 2, &c, &c);
    assert_eq!(l, vec![70, 71, 70, 71]);
}

#[test]
fn engine_grow_at_block_boundary() {
    // Size 2 for one block, size 4 for the next: the grown loop exposes the
    // raw samples captured at positions 2 and 3.
    let mut engine = StutterEngine::new(8);
    let first: Vec<u32> = vec![1, 2, 3, 4, 5, 6];
    let (l1, _) = engine.process_block(true, 2, &first, &first);
    assert_eq!(l1, vec![1, 2, 1, 2, 1, 2]);

    let later: Vec<u32> = vec![7, 8, 9, 10];
    let (l2, _) = engine.process_block(true, 4, &later, &later);
    assert_eq!(l2, vec![3, 4, 1, 2]);
}

#[test]
fn engine_zero_length_block() {
    // A zero-length block is tolerated and changes nothing about later
    // output.
    let mut engine = StutterEngine::new(8);
    let empty: Vec<u32> = Vec::new();
    let (l, r) = engine.process_block(false, 8, &empty, &empty);
    assert_eq!(l.len(), 0);
    assert_eq!(r.len(), 0);

    let left: Vec<u32> = vec![1, 2, 3];
    let (l2, _) = engine.process_block(false, 8, &left, &left);
    assert_eq!(l2, left);
}

#[test]
fn engine_size_zero_clamped() {
    // A size request of 0 is clamped to 1: the loop repeats one sample and
    // nothing faults.
    let mut engine = StutterEngine::new(8);
    let left: Vec<u32> = vec![9, 8, 7, 6];
    let (l, _) = engine.process_block(true, 0, &left, &left);
    assert_eq!(l, vec![9, 9, 9, 9]);
}

#[test]
fn engine_carries_float_bit_patterns() {
    // Samples are carried as raw f32 bit patterns; a captured loop hands the
    // exact patterns back.
    let mut engine = StutterEngine::new(8);
    let samples: Vec<f32> = vec![0.5, -0.25, 1.0e-7, -0.0];
    let bits: Vec<u32> = samples.iter().map(|s| s.to_bits()).collect();
    let (l, _) = engine.process_block(true, 2, &bits, &bits);
    let back: Vec<f32> = l.iter().map(|b| f32::from_bits(*b)).collect();
    assert_eq!(back, vec![0.5, -0.25, 0.5, -0.25]);
}

#[test]
fn engine_new_state() {
    let engine = StutterEngine::new(16);
    assert_eq!(engine.capacity(), 16);
    assert_eq!(engine.needle_position(), 0);
}
