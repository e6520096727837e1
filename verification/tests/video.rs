use bytes::Bytes;
use mixlab::avc::{AvcFrame, Bitstream, DecoderConfigurationRecord, FrameType, Millis};
use mixlab::time::MediaTime;
use mixlab::video::FrameArena;

fn specific(frame_type: FrameType, payload: &[u8]) -> AvcFrame {
    AvcFrame {
        frame_type,
        composition_time: Millis(0),
        bitstream: Bitstream::new(
            Bytes::from(payload.to_vec()),
            DecoderConfigurationRecord {
                version: 1,
                profile_indication: 100,
                profile_compatibility: 0,
                level_indication: 31,
                nalu_size: 4,
                sps: Vec::new(),
                pps: Vec::new(),
            },
        ),
    }
}

#[test]
fn frames_of_equal_content_have_different_ids() {
    let mut arena = FrameArena::new();
    let a = arena.insert(specific(FrameType::KeyFrame, &[1, 2, 3]), MediaTime::new(1, 30), None);
    let b = arena.insert(specific(FrameType::KeyFrame, &[1, 2, 3]), MediaTime::new(1, 30), None);
    assert_ne!(a, b);
    assert_eq!(a, a);
    assert_eq!(a.as_u64(), 0);
    assert_eq!(b.as_u64(), 1);
    // A handle on the same frame compares equal.
    let again = arena.get(a).unwrap().id();
    assert_eq!(again, a);
    assert_ne!(again, b);
    assert_eq!(arena.get(b).unwrap().id(), b);
}

#[test]
fn get_finds_the_frame_with_the_id() {
    let mut arena = FrameArena::new();
    let key = arena.insert(specific(FrameType::KeyFrame, &[1]), MediaTime::new(1, 30), None);
    let inter = arena.insert(specific(FrameType::InterFrame, &[2]), MediaTime::new(1, 25), Some(key));
    assert_eq!(arena.len(), 2);
    let frame = arena.get(inter).unwrap();
    assert_eq!(frame.id(), inter);
    assert!(!frame.is_key_frame());
    assert_eq!(frame.key_frame, Some(key));
    assert_eq!(frame.duration_hint, MediaTime::new(1, 25));
    assert_eq!(frame.specific.bitstream.data().to_vec(), vec![2]);
    let frame = arena.get(key).unwrap();
    assert!(frame.is_key_frame());
    assert_eq!(frame.key_frame, None);
}

#[test]
fn a_frame_stays_until_it_is_delivered() {
    let mut arena = FrameArena::new();
    let key = arena.insert(specific(FrameType::KeyFrame, &[1]), MediaTime::new(1, 30), None);
    assert!(!arena.evict(key, None));
    assert!(arena.get(key).is_some());
    assert!(arena.mark_delivered(key));
    assert!(arena.evict(key, None));
    assert!(arena.get(key).is_none());
    assert_eq!(arena.len(), 0);
    // A frame that is gone is neither delivered nor evicted again.
    assert!(!arena.mark_delivered(key));
    assert!(!arena.evict(key, None));
}

#[test]
fn a_key_frame_stays_while_a_frame_names_it() {
    let mut arena = FrameArena::new();
    let key = arena.insert(specific(FrameType::KeyFrame, &[1]), MediaTime::new(1, 30), None);
    let inter = arena.insert(specific(FrameType::InterFrame, &[2]), MediaTime::new(1, 30), Some(key));
    arena.mark_delivered(key);
    assert!(!arena.evict(key, None));
    arena.mark_delivered(inter);
    assert!(!arena.evict(key, None));
    assert!(arena.evict(inter, None));
    assert!(arena.evict(key, None));
    assert_eq!(arena.len(), 0);
}

#[test]
fn the_kept_frame_stays() {
    let mut arena = FrameArena::new();
    let key = arena.insert(specific(FrameType::KeyFrame, &[1]), MediaTime::new(1, 30), None);
    arena.mark_delivered(key);
    assert!(!arena.evict(key, Some(key)));
    assert!(arena.get(key).is_some());
}

#[test]
fn ids_are_never_given_twice() {
    let mut arena = FrameArena::new();
    let a = arena.insert(specific(FrameType::KeyFrame, &[1]), MediaTime::new(1, 30), None);
    arena.mark_delivered(a);
    assert!(arena.evict(a, None));
    let b = arena.insert(specific(FrameType::KeyFrame, &[1]), MediaTime::new(1, 30), None);
    assert_ne!(a, b);
    assert_eq!(b.as_u64(), 1);
    assert!(arena.has_room());
}
