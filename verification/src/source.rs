//! Mountpoints: the named places where a publisher hands decoded media to
//! whoever listens.
//!
//! A registry holds the mountpoints that have a listener. A publisher
//! connects to one by name and gets the sending end, which collects what
//! the session writes until the transport takes it away.
use crate::time::MediaTime;
use crate::video::FrameId;
use vstd::prelude::*;

verus! {

/// Media time of a write, in seconds.
pub type Timestamp = MediaTime;

/// Why a mountpoint could not be registered.
#[derive(Clone, Copy, Debug, PartialEq, Eq, Structural)]
pub enum ListenError {
    /// The name already has a listener.
    AlreadyInUse,
}

/// Why a publisher could not connect.
#[derive(Clone, Copy, Debug, PartialEq, Eq, Structural)]
pub enum ConnectError {
    /// Nobody listens under that name.
    NoMountpoint,
    /// Another publisher holds the mountpoint.
    AlreadyConnected,
}

/// One registered mountpoint.
#[derive(Debug)]
pub struct Mountpoint {
    name: String,
    claimed: bool,
}

/// The mountpoints of a process. Made once at startup and handed to
/// whatever accepts connections.
#[derive(Debug)]
pub struct Registry {
    mountpoints: Vec<Mountpoint>,
}

/// The receiving end of a mountpoint.
#[derive(Debug)]
pub struct SourceRecv {
    name: String,
}

/// One block of decoded audio.
#[derive(Clone, Debug)]
pub struct AudioWrite {
    pub timestamp: Timestamp,
    pub samples: Vec<i16>,
}

/// One video frame, by its id in the session's frames.
#[derive(Clone, Copy, Debug)]
pub struct VideoWrite {
    pub timestamp: Timestamp,
    pub frame: FrameId,
}

/// The sending end of a mountpoint. Writes queue up in order until they are
/// taken; once the end is closed every write is rejected.
#[derive(Debug)]
pub struct SourceSend {
    name: String,
    open: bool,
    audio: Vec<AudioWrite>,
    video: Vec<VideoWrite>,
}

impl Registry {
    /// The position of the mountpoint `name`, if it is registered.
    pub closed spec fn position(&self, name: Seq<char>) -> Option<int> {
        if exists|i: int| 0 <= i < self.mountpoints@.len() && self.mountpoints@[i].name@ == name {
            Some(
                choose|i: int|
                    0 <= i < self.mountpoints@.len() && self.mountpoints@[i].name@ == name,
            )
        } else {
            None
        }
    }

    /// Whether somebody listens under `name`.
    pub open spec fn is_registered(&self, name: Seq<char>) -> bool {
        self.position(name) is Some
    }

    /// Whether a publisher holds the mountpoint `name`.
    pub closed spec fn is_claimed(&self, name: Seq<char>) -> bool {
        exists|i: int|
            0 <= i < self.mountpoints@.len() && self.mountpoints@[i].name@ == name
                && self.mountpoints@[i].claimed
    }

    /// No name is registered twice.
    pub closed spec fn wf(&self) -> bool {
        forall|i: int, j: int|
            0 <= i < j < self.mountpoints@.len() ==> self.mountpoints@[i].name@
                != self.mountpoints@[j].name@
    }

    /// A registry without mountpoints.
    pub fn new() -> (r: Registry)
        ensures
            r.wf(),
            forall|name: Seq<char>| !r.is_registered(name) && !r.is_claimed(name),
    {
        Registry { mountpoints: Vec::new() }
    }

    fn find(&self, name: &String) -> (r: Option<usize>)
        ensures
            match r {
                Some(i) => i < self.mountpoints@.len() && self.mountpoints@[i as int].name@
                    == name@,
                None => forall|i: int|
                    0 <= i < self.mountpoints@.len() ==> self.mountpoints@[i].name@ != name@,
            },
            r is Some <==> self.is_registered(name@),
    {
        let mut i: usize = 0;
        while i < self.mountpoints.len()
            invariant
                i <= self.mountpoints.len(),
                forall|k: int| 0 <= k < i ==> self.mountpoints@[k].name@ != name@,
            decreases self.mountpoints.len() - i,
        {
            if self.mountpoints[i].name == *name {
                return Some(i);
            }
            i = i + 1;
        }
        None
    }

    /// Registers the mountpoint `name` and gives its receiving end, unless
    /// the name is taken.
    pub fn listen(&mut self, name: &str) -> (r: Result<SourceRecv, ListenError>)
        requires
            old(self).wf(),
        ensures
            final(self).wf(),
            r is Ok <==> !old(self).is_registered(name@),
            r matches Ok(recv) ==> recv.spec_name() == name@,
            r is Err ==> *final(self) == *old(self),
            forall|other: Seq<char>|
                final(self).is_registered(other) <==> old(self).is_registered(other) || other
                    == name@,
            forall|other: Seq<char>| final(self).is_claimed(other) <==> old(self).is_claimed(other),
    {
        let owned = name.to_owned();
        match self.find(&owned) {
            Some(_) => Err(ListenError::AlreadyInUse),
            None => {
                self.mountpoints.push(Mountpoint { name: owned.clone(), claimed: false });
                proof {
                    let last = final(self).mountpoints@.len() - 1;
                    assert(self.mountpoints@[last].name@ == name@);
                    assert forall|other: Seq<char>|
                        self.is_registered(other) <==> old(self).is_registered(other) || other
                            == name@ by {
                        if old(self).is_registered(other) {
                            let i = old(self).position(other)->0;
                            assert(self.mountpoints@[i].name@ == other);
                        }
                        if self.is_registered(other) && other != name@ {
                            let i = self.position(other)->0;
                            assert(old(self).mountpoints@[i].name@ == other);
                        }
                    }
                    assert forall|other: Seq<char>|
                        self.is_claimed(other) <==> old(self).is_claimed(other) by {
                        if old(self).is_claimed(other) {
                            let i = choose|i: int|
                                0 <= i < old(self).mountpoints@.len() && old(
                                    self,
                                ).mountpoints@[i].name@ == other && old(
                                    self,
                                ).mountpoints@[i].claimed;
                            assert(self.mountpoints@[i].name@ == other
                                && self.mountpoints@[i].claimed);
                        }
                        if self.is_claimed(other) {
                            let i = choose|i: int|
                                0 <= i < self.mountpoints@.len() && self.mountpoints@[i].name@
                                    == other && self.mountpoints@[i].claimed;
                            assert(old(self).mountpoints@[i].name@ == other && old(
                                self,
                            ).mountpoints@[i].claimed);
                        }
                    }
                }
                Ok(SourceRecv { name: owned })
            },
        }
    }

    /// Binds a publisher to the mountpoint `name` and gives its sending end.
    /// Fails if nobody listens under the name, or if another publisher holds
    /// the mountpoint.
    pub fn connect(&mut self, name: &str) -> (r: Result<SourceSend, ConnectError>)
        requires
            old(self).wf(),
        ensures
            final(self).wf(),
            r is Ok <==> old(self).is_registered(name@) && !old(self).is_claimed(name@),
            r matches Ok(send) ==> send.spec_name() == name@ && send.is_open()
                && send.audio_queue().len() == 0 && send.video_queue().len() == 0,
            r matches Err(e) ==> *final(self) == *old(self) && (e == ConnectError::NoMountpoint
                <==> !old(self).is_registered(name@)),
            forall|other: Seq<char>|
                final(self).is_registered(other) <==> old(self).is_registered(other),
            forall|other: Seq<char>|
                final(self).is_claimed(other) <==> old(self).is_claimed(other) || (r is Ok && other
                    == name@),
    {
        let owned = name.to_owned();
        match self.find(&owned) {
            None => Err(ConnectError::NoMountpoint),
            Some(i) => {
                if self.mountpoints[i].claimed {
                    Err(ConnectError::AlreadyConnected)
                } else {
                    assert(!self.is_claimed(name@)) by {
                        if self.is_claimed(name@) {
                            let k = choose|k: int|
                                0 <= k < self.mountpoints@.len() && self.mountpoints@[k].name@
                                    == name@ && self.mountpoints@[k].claimed;
                            assert(k == i);
                        }
                    }
                    let kept = owned.clone();
                    self.mountpoints.set(i, Mountpoint { name: kept, claimed: true });
                    proof {
                        assert(self.mountpoints@[i as int].name@ == name@);
                        assert forall|other: Seq<char>|
                            self.is_registered(other) <==> old(self).is_registered(other) by {
                            if old(self).is_registered(other) {
                                let k = old(self).position(other)->0;
                                assert(self.mountpoints@[k].name@ == other);
                            }
                            if self.is_registered(other) {
                                let k = self.position(other)->0;
                                assert(old(self).mountpoints@[k].name@ == other);
                            }
                        }
                        assert forall|other: Seq<char>|
                            self.is_claimed(other) <==> old(self).is_claimed(other) || other
                                == name@ by {
                            if old(self).is_claimed(other) {
                                let k = choose|k: int|
                                    0 <= k < old(self).mountpoints@.len() && old(
                                        self,
                                    ).mountpoints@[k].name@ == other && old(
                                        self,
                                    ).mountpoints@[k].claimed;
                                assert(self.mountpoints@[k].name@ == other
                                    && self.mountpoints@[k].claimed);
                            }
                            if other == name@ {
                                assert(self.mountpoints@[i as int].claimed);
                            }
                            if self.is_claimed(other) && other != name@ {
                                let k = choose|k: int|
                                    0 <= k < self.mountpoints@.len() && self.mountpoints@[k].name@
                                        == other && self.mountpoints@[k].claimed;
                                assert(old(self).mountpoints@[k].name@ == other && old(
                                    self,
                                ).mountpoints@[k].claimed);
                            }
                        }
                    }
                    Ok(SourceSend { name: owned, open: true, audio: Vec::new(), video: Vec::new() })
                }
            },
        }
    }
}

impl Registry {
    /// Takes the publisher's sending end back: the mountpoint is free for
    /// another publisher. What was written and not taken is given back.
    pub fn disconnect(&mut self, source: SourceSend) -> (r: (Vec<AudioWrite>, Vec<VideoWrite>))
        requires
            old(self).wf(),
        ensures
            final(self).wf(),
            r.0@ == source.audio_queue(),
            r.1@ == source.video_queue(),
            forall|other: Seq<char>|
                final(self).is_registered(other) <==> old(self).is_registered(other),
            forall|other: Seq<char>|
                final(self).is_claimed(other) <==> old(self).is_claimed(other) && other
                    != source.spec_name(),
    {
        let SourceSend { name, open: _, audio, video } = source;
        match self.find(&name) {
            Some(i) => {
                let kept = name.clone();
                self.mountpoints.set(i, Mountpoint { name: kept, claimed: false });
                proof {
                    assert(self.mountpoints@[i as int].name@ == name@);
                    assert forall|other: Seq<char>|
                        self.is_registered(other) <==> old(self).is_registered(other) by {
                        if old(self).is_registered(other) {
                            let k = old(self).position(other)->0;
                            assert(self.mountpoints@[k].name@ == other);
                        }
                        if self.is_registered(other) {
                            let k = self.position(other)->0;
                            assert(old(self).mountpoints@[k].name@ == other);
                        }
                    }
                    assert forall|other: Seq<char>|
                        self.is_claimed(other) <==> old(self).is_claimed(other) && other
                            != name@ by {
                        if old(self).is_claimed(other) && other != name@ {
                            let k = choose|k: int|
                                0 <= k < old(self).mountpoints@.len() && old(
                                    self,
                                ).mountpoints@[k].name@ == other && old(
                                    self,
                                ).mountpoints@[k].claimed;
                            assert(self.mountpoints@[k].name@ == other
                                && self.mountpoints@[k].claimed);
                        }
                        if self.is_claimed(other) {
                            let k = choose|k: int|
                                0 <= k < self.mountpoints@.len() && self.mountpoints@[k].name@
                                    == other && self.mountpoints@[k].claimed;
                            assert(k != i);
                            assert(old(self).mountpoints@[k].name@ == other && old(
                                self,
                            ).mountpoints@[k].claimed);
                        }
                    }
                }
            },
            None => {
                proof {
                    assert forall|other: Seq<char>|
                        self.is_claimed(other) <==> old(self).is_claimed(other) && other
                            != name@ by {
                        if self.is_claimed(other) {
                            let k = choose|k: int|
                                0 <= k < self.mountpoints@.len() && self.mountpoints@[k].name@
                                    == other && self.mountpoints@[k].claimed;
                            assert(other != name@);
                        }
                    }
                }
            },
        }
        (audio, video)
    }
}

impl SourceRecv {
    /// The name of the mountpoint.
    pub closed spec fn spec_name(&self) -> Seq<char> {
        self.name@
    }

    pub fn name(&self) -> (r: &String)
        ensures
            r@ == self.spec_name(),
    {
        &self.name
    }
}

impl SourceSend {
    /// The name of the mountpoint.
    pub closed spec fn spec_name(&self) -> Seq<char> {
        self.name@
    }

    /// Whether writes are still taken.
    pub closed spec fn is_open(&self) -> bool {
        self.open
    }

    /// The audio writes that wait to be taken, oldest first.
    pub closed spec fn audio_queue(&self) -> Seq<AudioWrite> {
        self.audio@
    }

    /// The video writes that wait to be taken, oldest first.
    pub closed spec fn video_queue(&self) -> Seq<VideoWrite> {
        self.video@
    }

    /// A sending end that belongs to no registry, for a session that is fed
    /// by hand.
    pub fn detached(name: &str) -> (r: SourceSend)
        ensures
            r.spec_name() == name@,
            r.is_open(),
            r.audio_queue().len() == 0,
            r.video_queue().len() == 0,
    {
        SourceSend { name: name.to_owned(), open: true, audio: Vec::new(), video: Vec::new() }
    }

    pub fn name(&self) -> (r: &String)
        ensures
            r@ == self.spec_name(),
    {
        &self.name
    }

    pub fn open(&self) -> (r: bool)
        ensures
            r == self.is_open(),
    {
        self.open
    }

    /// Queues a block of decoded audio, or rejects it if the end is closed.
    pub fn write_audio(&mut self, timestamp: Timestamp, samples: Vec<i16>) -> (r: Result<(), ()>)
        ensures
            r is Ok <==> old(self).is_open(),
            final(self).is_open() == old(self).is_open(),
            final(self).spec_name() == old(self).spec_name(),
            final(self).video_queue() == old(self).video_queue(),
            r is Ok ==> final(self).audio_queue() == old(self).audio_queue().push(
                AudioWrite { timestamp, samples },
            ),
            r is Err ==> final(self).audio_queue() == old(self).audio_queue(),
    {
        if self.open {
            self.audio.push(AudioWrite { timestamp, samples });
            Ok(())
        } else {
            Err(())
        }
    }

    /// Queues a video frame, or rejects it if the end is closed.
    pub fn write_video(&mut self, timestamp: Timestamp, frame: FrameId) -> (r: Result<(), ()>)
        ensures
            r is Ok <==> old(self).is_open(),
            final(self).is_open() == old(self).is_open(),
            final(self).spec_name() == old(self).spec_name(),
            final(self).audio_queue() == old(self).audio_queue(),
            r is Ok ==> final(self).video_queue() == old(self).video_queue().push(
                VideoWrite { timestamp, frame },
            ),
            r is Err ==> final(self).video_queue() == old(self).video_queue(),
    {
        if self.open {
            self.video.push(VideoWrite { timestamp, frame });
            Ok(())
        } else {
            Err(())
        }
    }

    /// Closes the end: the transport is gone, and every later write is
    /// rejected.
    pub fn close(&mut self)
        ensures
            !final(self).is_open(),
            final(self).spec_name() == old(self).spec_name(),
            final(self).audio_queue() == old(self).audio_queue(),
            final(self).video_queue() == old(self).video_queue(),
    {
        self.open = false;
    }

    /// Takes the audio writes that wait, oldest first.
    pub fn take_audio(&mut self) -> (r: Vec<AudioWrite>)
        ensures
            r@ == old(self).audio_queue(),
            final(self).audio_queue().len() == 0,
            final(self).video_queue() == old(self).video_queue(),
            final(self).is_open() == old(self).is_open(),
            final(self).spec_name() == old(self).spec_name(),
    {
        let mut taken: Vec<AudioWrite> = Vec::new();
        taken.append(&mut self.audio);
        assert(taken@ =~= old(self).audio@);
        taken
    }

    /// Takes the video writes that wait, oldest first.
    pub fn take_video(&mut self) -> (r: Vec<VideoWrite>)
        ensures
            r@ == old(self).video_queue(),
            final(self).video_queue().len() == 0,
            final(self).audio_queue() == old(self).audio_queue(),
            final(self).is_open() == old(self).is_open(),
            final(self).spec_name() == old(self).spec_name(),
    {
        let mut taken: Vec<VideoWrite> = Vec::new();
        taken.append(&mut self.video);
        assert(taken@ =~= old(self).video@);
        taken
    }
}

} // verus!
