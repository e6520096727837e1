use mixlab::rtmp::listen;
use mixlab::source::{ConnectError, ListenError, Registry, SourceSend};
use mixlab::time::MediaTime;

#[test]
fn listen_registers_a_mountpoint() {
    let mut registry = Registry::new();
    let recv = listen(&mut registry, "my_stream_endpoint").unwrap();
    assert_eq!(recv.name(), "my_stream_endpoint");
}

#[test]
fn listen_twice_under_one_name_is_refused() {
    let mut registry = Registry::new();
    listen(&mut registry, "a").unwrap();
    assert_eq!(listen(&mut registry, "a").unwrap_err(), ListenError::AlreadyInUse);
    assert!(listen(&mut registry, "b").is_ok());
    assert_eq!(registry.listen("b").unwrap_err(), ListenError::AlreadyInUse);
    assert!(registry.listen("").is_ok());
}

#[test]
fn connect_needs_a_listener() {
    let mut registry = Registry::new();
    assert_eq!(registry.connect("a").unwrap_err(), ConnectError::NoMountpoint);
    registry.listen("a").unwrap();
    assert_eq!(registry.connect("b").unwrap_err(), ConnectError::NoMountpoint);
    let send = registry.connect("a").unwrap();
    assert_eq!(send.name(), "a");
    assert!(send.open());
}

#[test]
fn connect_twice_to_one_mountpoint_is_refused() {
    let mut registry = Registry::new();
    registry.listen("a").unwrap();
    registry.listen("b").unwrap();
    registry.connect("a").unwrap();
    assert_eq!(registry.connect("a").unwrap_err(), ConnectError::AlreadyConnected);
    // The other mountpoint is still free.
    assert!(registry.connect("b").is_ok());
    assert_eq!(registry.connect("b").unwrap_err(), ConnectError::AlreadyConnected);
    // A claimed mountpoint is still registered.
    assert_eq!(registry.listen("a").unwrap_err(), ListenError::AlreadyInUse);
}

#[test]
fn writes_queue_up_in_order() {
    let mut send = SourceSend::detached("a");
    assert_eq!(send.write_audio(MediaTime::new(0, 1), vec![1, 2]), Ok(()));
    assert_eq!(send.write_audio(MediaTime::new(1, 2), vec![3]), Ok(()));
    let taken = send.take_audio();
    assert_eq!(taken.len(), 2);
    assert_eq!(taken[0].timestamp, MediaTime::new(0, 1));
    assert_eq!(taken[0].samples, vec![1, 2]);
    assert_eq!(taken[1].timestamp, MediaTime::new(1, 2));
    assert_eq!(taken[1].samples, vec![3]);
    assert!(send.take_audio().is_empty());
    assert!(send.take_video().is_empty());
}

#[test]
fn a_closed_end_rejects_writes() {
    let mut send = SourceSend::detached("a");
    send.write_audio(MediaTime::new(0, 1), vec![1]).unwrap();
    send.close();
    assert!(!send.open());
    assert_eq!(send.write_audio(MediaTime::new(1, 1), vec![2]), Err(()));
    // What was written before is still there.
    assert_eq!(send.take_audio().len(), 1);
}

#[test]
fn a_mountpoint_is_free_again_after_its_publisher_left() {
    let mut registry = Registry::new();
    registry.listen("a").unwrap();
    registry.listen("b").unwrap();
    let mut send = registry.connect("a").unwrap();
    registry.connect("b").unwrap();
    send.write_audio(MediaTime::new(0, 1), vec![7]).unwrap();
    let (audio, video) = registry.disconnect(send);
    assert_eq!(audio.len(), 1);
    assert_eq!(audio[0].samples, vec![7]);
    assert!(video.is_empty());
    assert!(registry.connect("a").is_ok());
    // The other publisher keeps its mountpoint.
    assert_eq!(registry.connect("b").unwrap_err(), ConnectError::AlreadyConnected);
    // A sending end that belongs to no mountpoint frees none.
    registry.disconnect(SourceSend::detached("b"));
    assert!(registry.connect("b").is_ok());
}
