use gpu_corrections::engine::Corrections;
use gpu_corrections::error::MyError;
use gpu_corrections::ring::FrameRing;

#[test]
fn ring_rejects_zero_capacity() {
    assert_eq!(FrameRing::new(0).unwrap_err(), MyError::InvalidImageData);
    let ring = FrameRing::new(3).unwrap();
    assert_eq!(ring.capacity(), 3);
}

#[test]
fn ring_claims_each_slot_once() {
    let mut ring = FrameRing::new(3).unwrap();
    assert_eq!(ring.try_claim().unwrap(), 0);
    assert_eq!(ring.try_claim().unwrap(), 1);
    assert_eq!(ring.try_claim().unwrap(), 2);
    assert_eq!(ring.try_claim().unwrap_err(), MyError::RingBufferFull);
}

#[test]
fn ring_slot_lifecycle() {
    let mut ring = FrameRing::new(2).unwrap();
    let slot = ring.try_claim().unwrap();
    ring.mark_dispatched(slot);
    ring.mark_reading_back(slot);
    ring.release(slot);
    // The head has moved on: the next claim takes the other slot.
    assert_eq!(ring.try_claim().unwrap(), 1);
    // Then wraps back to the released one.
    assert_eq!(ring.try_claim().unwrap(), 0);
    assert_eq!(ring.try_claim().unwrap_err(), MyError::RingBufferFull);
}

#[test]
fn capacity_plus_one_submissions_refused() {
    // Claiming capacity() frames without completing any fills the ring;
    // the (capacity + 1)th submission must be refused, never handed an
    // in-flight slot.
    let mut c = Corrections::new(2, 2, 3).unwrap();
    let len = 4usize;
    assert_eq!(c.capacity(), 3);
    assert_eq!(c.begin_frame(len).unwrap(), 0);
    assert_eq!(c.begin_frame(len).unwrap(), 1);
    assert_eq!(c.begin_frame(len).unwrap(), 2);
    assert_eq!(c.begin_frame(len).unwrap_err(), MyError::RingBufferFull);
}

#[test]
fn head_order_guards_slot_reuse() {
    // The ring claims strictly in head order: releasing a slot that is not
    // at the head does not make room until the head's own slot is idle.
    let mut c = Corrections::new(2, 2, 3).unwrap();
    let len = 4usize;
    assert_eq!(c.begin_frame(len).unwrap(), 0);
    assert_eq!(c.begin_frame(len).unwrap(), 1);
    assert_eq!(c.begin_frame(len).unwrap(), 2);
    c.finish_frame(1).unwrap();
    // Head wrapped to slot 0, which is still in flight.
    assert_eq!(c.begin_frame(len).unwrap_err(), MyError::RingBufferFull);
    c.finish_frame(0).unwrap();
    assert_eq!(c.begin_frame(len).unwrap(), 0);
}

#[test]
fn finish_frame_rejects_bad_slots() {
    let mut c = Corrections::new(2, 2, 2).unwrap();
    // Out of range.
    assert_eq!(c.finish_frame(5).unwrap_err(), MyError::GpuExecutionFailed);
    // Not in flight.
    assert_eq!(c.finish_frame(0).unwrap_err(), MyError::GpuExecutionFailed);
    let slot = c.begin_frame(4).unwrap();
    assert!(c.finish_frame(slot).is_ok());
}

#[test]
fn begin_frame_validates_length_before_claiming() {
    let mut c = Corrections::new(2, 2, 1).unwrap();
    assert_eq!(c.begin_frame(3).unwrap_err(), MyError::InvalidImageData);
    // The failed call claimed nothing.
    assert_eq!(c.begin_frame(4).unwrap(), 0);
    assert_eq!(c.begin_frame(4).unwrap_err(), MyError::RingBufferFull);
}

#[test]
fn process_image_releases_its_slot() {
    // The synchronous path claims and releases per call: more calls than
    // slots all succeed.
    let mut c = Corrections::new(2, 2, 2).unwrap();
    let image = vec![9u16; 4];
    for _ in 0..5 {
        assert_eq!(c.process_image(&image).unwrap(), image);
    }
}
