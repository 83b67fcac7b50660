use vstd::prelude::*;

use crate::buffer::{copy_bytes, extend_bytes};
use crate::error::{same_error, ServeError};
use crate::state::Poll;

verus! {

/// Static information about a group.
#[derive(Debug, Clone, Copy, PartialEq, Eq, Structural)]
pub struct Group {
    /// The position of the group in its track.
    pub sequence: u64,
    /// How long the group may be kept, in milliseconds.
    pub expires: Option<u64>,
}

impl Group {
    /// A group with this sequence and no expiry.
    pub fn new(sequence: u64) -> (r: Group)
        ensures
            r.sequence == sequence,
            r.expires is None,
    {
        Group { sequence, expires: None }
    }

    /// A writer for a fresh empty group and a reader at its start.
    pub fn produce(self) -> (r: (GroupWriter, GroupReader))
        ensures
            r.0@ == GroupView::empty(self),
            r.0.wf(),
            r.1.group() == self,
            r.1.position() == 0,
    {
        let writer = GroupWriter {
            info: self,
            frames: Vec::new(),
            pending: Vec::new(),
            pending_size: 0,
            in_frame: false,
            fin: false,
            closed: Ok(()),
        };
        assert(writer@.frames =~= Seq::<Seq<u8>>::empty());
        (writer, GroupReader { info: self, index: 0 })
    }
}

/// What a group holds.
pub struct GroupView {
    /// The group's static information.
    pub info: Group,
    /// The complete frames, in the order they were written.
    pub frames: Seq<Seq<u8>>,
    /// The frame being written: its declared size and the bytes so far.
    pub pending: Option<(nat, Seq<u8>)>,
    /// Whether the writer finished the group cleanly.
    pub fin: bool,
    /// The terminal error, if the group was closed with one.
    pub closed: Result<(), ServeError>,
}

impl GroupView {
    /// A group with nothing written.
    pub open spec fn empty(info: Group) -> GroupView {
        GroupView { info, frames: Seq::empty(), pending: None, fin: false, closed: Ok(()) }
    }

    /// Whether the group takes no more writes.
    pub open spec fn is_done(self) -> bool {
        self.fin || self.closed is Err
    }

    /// The group closed with `err` at this point, nothing else changed.
    pub open spec fn close_with(self, err: ServeError) -> GroupView {
        GroupView { closed: Err(err), ..self }
    }
}

/// The group after one chunk is written into it: a done group is left as
/// it is; a chunk with no frame pending, or beyond the pending frame's size,
/// closes it with `WrongSize`; a chunk that fills the frame completes it.
pub open spec fn write_chunk_spec(v: GroupView, chunk: Seq<u8>) -> GroupView {
    if v.is_done() {
        v
    } else {
        match v.pending {
            None => v.close_with(ServeError::WrongSize),
            Some((size, data)) => if data.len() + chunk.len() > size {
                v.close_with(ServeError::WrongSize)
            } else if data.len() + chunk.len() == size {
                GroupView { frames: v.frames.push(data + chunk), pending: None, ..v }
            } else {
                GroupView { pending: Some((size, data + chunk)), ..v }
            },
        }
    }
}

/// The group after `chunks` are written into it one by one.
pub open spec fn feed(v: GroupView, chunks: Seq<Seq<u8>>) -> GroupView
    decreases chunks.len(),
{
    if chunks.len() == 0 {
        v
    } else {
        feed(write_chunk_spec(v, chunks[0]), chunks.drop_first())
    }
}

/// The bytes of `chunks`, one after another.
pub open spec fn joined(chunks: Seq<Seq<u8>>) -> Seq<u8>
    decreases chunks.len(),
{
    if chunks.len() == 0 {
        Seq::empty()
    } else {
        chunks[0] + joined(chunks.drop_first())
    }
}

/// A done group takes no more chunks.
pub proof fn lemma_feed_done(v: GroupView, chunks: Seq<Seq<u8>>)
    requires
        v.is_done(),
    ensures
        feed(v, chunks) == v,
    decreases chunks.len(),
{
    if chunks.len() > 0 {
        lemma_feed_done(v, chunks.drop_first());
    }
}

/// The bytes a frame receives, in non-empty chunks after the `data` it
/// already holds, make it complete exactly when they add up to its declared
/// size: fewer leave it pending with all of them, exactly as many complete
/// it with all of them, and more close the group with `WrongSize`.
pub proof fn lemma_frame_gets_its_size(v: GroupView, size: nat, data: Seq<u8>, chunks: Seq<Seq<u8>>)
    requires
        !v.is_done(),
        v.pending == Some((size, data)),
        data.len() < size,
        forall|i: int| 0 <= i < chunks.len() ==> #[trigger] chunks[i].len() > 0,
    ensures
        data.len() + joined(chunks).len() < size ==> feed(v, chunks) == (GroupView {
            pending: Some((size, data + joined(chunks))),
            ..v
        }),
        data.len() + joined(chunks).len() == size ==> feed(v, chunks) == (GroupView {
            frames: v.frames.push(data + joined(chunks)),
            pending: None,
            ..v
        }),
        data.len() + joined(chunks).len() > size ==> feed(v, chunks).closed == Err::<(), ServeError>(
            ServeError::WrongSize),
    decreases chunks.len(),
{
    if chunks.len() == 0 {
        assert(data + joined(chunks) =~= data);
    } else {
        let x = chunks[0];
        let rest = chunks.drop_first();
        let w = write_chunk_spec(v, x);
        assert forall|i: int| 0 <= i < rest.len() implies #[trigger] rest[i].len() > 0 by {
            assert(rest[i] == chunks[i + 1]);
        }
        assert(data + joined(chunks) =~= (data + x) + joined(rest));
        if data.len() + x.len() > size {
            lemma_feed_done(w, rest);
        } else if data.len() + x.len() == size {
            if rest.len() == 0 {
                assert(joined(rest) =~= Seq::<u8>::empty());
            } else {
                assert(rest[0].len() > 0);
                assert(joined(rest).len() > 0);
                let u = write_chunk_spec(w, rest[0]);
                lemma_feed_done(u, rest.drop_first());
            }
        } else {
            lemma_frame_gets_its_size(w, size, data + x, rest);
        }
    }
}

/// The writing half of a group: frames of declared size, each streamed as
/// chunks. A frame that receives other than its declared number of bytes
/// closes the group with `WrongSize`.
pub struct GroupWriter {
    info: Group,
    frames: Vec<Vec<u8>>,
    pending: Vec<u8>,
    pending_size: usize,
    in_frame: bool,
    fin: bool,
    closed: Result<(), ServeError>,
}

impl View for GroupWriter {
    type V = GroupView;

    closed spec fn view(&self) -> GroupView {
        GroupView {
            info: self.info,
            frames: self.frames@.map_values(|f: Vec<u8>| f@),
            pending: if self.in_frame {
                Some((self.pending_size as nat, self.pending@))
            } else {
                None
            },
            fin: self.fin,
            closed: self.closed,
        }
    }
}

impl GroupWriter {
    /// The group's static information.
    pub fn info(&self) -> (r: Group)
        ensures
            r == self@.info,
    {
        self.info
    }

    /// A pending frame always misses some bytes: a full one is complete.
    pub closed spec fn wf(&self) -> bool {
        self.in_frame ==> self.pending@.len() < self.pending_size
    }

    /// The error a finished or closed group reports to a writer.
    fn done_error(&self) -> (r: ServeError)
        requires
            self@.is_done(),
        ensures
            self@.closed matches Err(e) ==> same_error(r, e),
            self@.closed is Ok ==> r == ServeError::Cancel,
    {
        match &self.closed {
            Err(e) => e.cloned(),
            Ok(()) => ServeError::Cancel,
        }
    }

    /// Starts a frame of `size` bytes. A frame still missing bytes closes the
    /// group with `WrongSize` instead; a done group refuses. An empty frame
    /// is complete at once.
    pub fn create_frame(&mut self, size: usize) -> (r: Result<(), ServeError>)
        requires
            old(self).wf(),
        ensures
            final(self).wf(),
            old(self)@.is_done() ==> *final(self) == *old(self) && r is Err,
            !old(self)@.is_done() && old(self)@.pending is Some ==> {
                &&& r == Err::<(), ServeError>(ServeError::WrongSize)
                &&& final(self)@ == old(self)@.close_with(ServeError::WrongSize)
            },
            !old(self)@.is_done() && old(self)@.pending is None ==> {
                &&& r is Ok
                &&& size == 0 ==> final(self)@ == GroupView {
                    frames: old(self)@.frames.push(Seq::empty()),
                    ..old(self)@
                }
                &&& size > 0 ==> final(self)@ == GroupView {
                    pending: Some((size as nat, Seq::empty())),
                    ..old(self)@
                }
            },
    {
        if self.fin || self.closed.is_err() {
            return Err(self.done_error());
        }
        if self.in_frame {
            self.closed = Err(ServeError::WrongSize);
            return Err(ServeError::WrongSize);
        }
        if size == 0 {
            self.frames.push(Vec::new());
            assert(self@.frames =~= old(self)@.frames.push(Seq::empty()));
        } else {
            self.in_frame = true;
            self.pending = Vec::new();
            self.pending_size = size;
        }
        Ok(())
    }

    /// Adds `chunk` to the frame being written. A chunk beyond the declared
    /// size closes the group with `WrongSize`; a chunk that fills the frame
    /// completes it.
    pub fn write_chunk(&mut self, chunk: &[u8]) -> (r: Result<(), ServeError>)
        requires
            old(self).wf(),
        ensures
            final(self).wf(),
            final(self)@ == write_chunk_spec(old(self)@, chunk@),
            old(self)@.is_done() ==> *final(self) == *old(self) && r is Err,
            !old(self)@.is_done() && old(self)@.pending is None ==> {
                &&& r == Err::<(), ServeError>(ServeError::WrongSize)
                &&& final(self)@ == old(self)@.close_with(ServeError::WrongSize)
            },
            !old(self)@.is_done() ==> (old(self)@.pending matches Some((size, data)) ==> {
                &&& data.len() + chunk@.len() > size ==> {
                    &&& r == Err::<(), ServeError>(ServeError::WrongSize)
                    &&& final(self)@ == old(self)@.close_with(ServeError::WrongSize)
                }
                &&& data.len() + chunk@.len() == size ==> {
                    &&& r is Ok
                    &&& final(self)@ == GroupView {
                        frames: old(self)@.frames.push(data + chunk@),
                        pending: None,
                        ..old(self)@
                    }
                }
                &&& data.len() + chunk@.len() < size ==> {
                    &&& r is Ok
                    &&& final(self)@ == GroupView {
                        pending: Some((size, data + chunk@)),
                        ..old(self)@
                    }
                }
            }),
    {
        if self.fin || self.closed.is_err() {
            return Err(self.done_error());
        }
        if !self.in_frame || chunk.len() > self.pending_size - self.pending.len() {
            self.closed = Err(ServeError::WrongSize);
            return Err(ServeError::WrongSize);
        }
        let ghost data = self.pending@;
        extend_bytes(&mut self.pending, chunk);
        if self.pending.len() == self.pending_size {
            let frame = copy_bytes(self.pending.as_slice());
            self.pending = Vec::new();
            self.frames.push(frame);
            self.in_frame = false;
            assert(self@.frames =~= old(self)@.frames.push(data + chunk@));
        }
        Ok(())
    }

    /// Writes a whole frame: its size, then its bytes as one chunk.
    pub fn write_frame(&mut self, frame: &[u8]) -> (r: Result<(), ServeError>)
        requires
            old(self).wf(),
        ensures
            final(self).wf(),
            old(self)@.is_done() ==> *final(self) == *old(self) && r is Err,
            !old(self)@.is_done() && old(self)@.pending is Some ==> {
                &&& r == Err::<(), ServeError>(ServeError::WrongSize)
                &&& final(self)@ == old(self)@.close_with(ServeError::WrongSize)
            },
            !old(self)@.is_done() && old(self)@.pending is None ==> {
                &&& r is Ok
                &&& final(self)@ == GroupView { frames: old(self)@.frames.push(frame@), ..old(self)@ }
            },
    {
        self.create_frame(frame.len())?;
        if frame.len() > 0 {
            let r = self.write_chunk(frame);
            assert(Seq::<u8>::empty() + frame@ =~= frame@);
            r
        } else {
            assert(frame@ =~= Seq::<u8>::empty());
            Ok(())
        }
    }

    /// Ends the group cleanly. A frame still missing bytes closes the group
    /// with `WrongSize` instead.
    pub fn finish(&mut self) -> (r: Result<(), ServeError>)
        requires
            old(self).wf(),
        ensures
            final(self).wf(),
            old(self)@.is_done() ==> *final(self) == *old(self) && r is Err,
            !old(self)@.is_done() && old(self)@.pending is Some ==> {
                &&& r == Err::<(), ServeError>(ServeError::WrongSize)
                &&& final(self)@ == old(self)@.close_with(ServeError::WrongSize)
            },
            !old(self)@.is_done() && old(self)@.pending is None ==> {
                &&& r is Ok
                &&& final(self)@ == GroupView { fin: true, ..old(self)@ }
            },
    {
        if self.fin || self.closed.is_err() {
            return Err(self.done_error());
        }
        if self.in_frame {
            self.closed = Err(ServeError::WrongSize);
            return Err(ServeError::WrongSize);
        }
        self.fin = true;
        Ok(())
    }

    /// Closes the group with `err`; a done group refuses.
    pub fn close(&mut self, err: ServeError) -> (r: Result<(), ServeError>)
        requires
            old(self).wf(),
        ensures
            final(self).wf(),
            old(self)@.is_done() ==> *final(self) == *old(self) && r is Err,
            !old(self)@.is_done() ==> r is Ok && final(self)@ == old(self)@.close_with(err),
    {
        if self.fin || self.closed.is_err() {
            return Err(self.done_error());
        }
        self.closed = Err(err);
        Ok(())
    }

    /// How many frames are complete.
    pub fn frame_count(&self) -> (r: usize)
        ensures
            r == self@.frames.len(),
    {
        self.frames.len()
    }

    /// A copy of the complete frame at `index`.
    pub fn frame(&self, index: usize) -> (r: Vec<u8>)
        requires
            index < self@.frames.len(),
        ensures
            r@ == self@.frames[index as int],
    {
        copy_bytes(self.frames[index].as_slice())
    }

    /// Whether the writer finished the group cleanly.
    pub fn is_finished(&self) -> (r: bool)
        ensures
            r == self@.fin,
    {
        self.fin
    }

    /// A copy of the terminal error, if any.
    pub fn closed_error(&self) -> (r: Option<ServeError>)
        ensures
            self@.closed is Ok <==> r is None,
            r matches Some(e) ==> (self@.closed matches Err(f) && same_error(e, f)),
    {
        match &self.closed {
            Ok(()) => None,
            Err(e) => Some(e.cloned()),
        }
    }
}

/// A reader of a group: it hands out complete frames in write order.
#[derive(Debug, Clone, Copy, PartialEq, Eq)]
pub struct GroupReader {
    info: Group,
    index: usize,
}

impl GroupReader {
    /// The group read.
    pub closed spec fn group(&self) -> Group {
        self.info
    }

    /// A reader at the start of the group `info`.
    pub fn new(info: Group) -> (r: GroupReader)
        ensures
            r.group() == info,
            r.position() == 0,
    {
        GroupReader { info, index: 0 }
    }

    /// The group's static information.
    pub fn info(&self) -> (r: Group)
        ensures
            r == self.group(),
    {
        self.info
    }

    /// How many frames this reader has taken.
    pub closed spec fn position(&self) -> nat {
        self.index as nat
    }

    /// The sequence of the group.
    pub fn sequence(&self) -> (r: u64)
        ensures
            r == self.group().sequence,
    {
        self.info.sequence
    }

    /// The next frame of `group`, in write order. With no frame left, a
    /// finished group is at its end, a closed one reports its error, and an
    /// open one is `Pending`.
    pub fn read_frame(&mut self, group: &GroupWriter) -> (r: Poll<Result<Option<Vec<u8>>, ServeError>>)
        ensures
            old(self).position() < group@.frames.len() ==> {
                &&& (r matches Poll::Ready(Ok(Some(f))) && f@ == group@.frames[old(self).position() as int])
                &&& final(self).position() == old(self).position() + 1
            },
            old(self).position() >= group@.frames.len() ==> {
                &&& final(self).position() == old(self).position()
                &&& (group@.closed matches Err(e) ==> (r matches Poll::Ready(Err(f)) && same_error(f, e)))
                &&& (group@.closed is Ok && group@.fin ==> (r matches Poll::Ready(Ok(None))))
                &&& group@.closed is Ok && !group@.fin ==> r is Pending
            },
    {
        if self.index < group.frame_count() {
            let f = group.frame(self.index);
            self.index = self.index + 1;
            return Poll::Ready(Ok(Some(f)));
        }
        match group.closed_error() {
            Some(e) => Poll::Ready(Err(e)),
            None => {
                if group.is_finished() {
                    Poll::Ready(Ok(None))
                } else {
                    Poll::Pending
                }
            },
        }
    }
}

} // verus!
