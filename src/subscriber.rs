use vstd::prelude::*;

use std::collections::HashMap;

use crate::error::ServeError;
use crate::group::{write_chunk_spec, Group, GroupView, GroupWriter};
use crate::queue::Queue;
use crate::state::Poll;
use crate::track::{
    create_result, create_spec, same_track, Track, TrackReader, TrackView, TrackWriter,
};

verus! {

broadcast use vstd::std_specs::hash::group_hash_axioms;

/// A named collection of tracks.
pub struct Broadcast {
    pub name: String,
}

impl Broadcast {
    /// The broadcast `name`.
    pub fn new(name: &str) -> (r: Broadcast)
        ensures
            r.name@ == name@,
    {
        Broadcast { name: name.to_owned() }
    }
}

/// Whether two strings hold the same characters.
pub fn str_eq(a: &str, b: &str) -> (r: bool)
    ensures
        r == (a@ == b@),
{
    let x = a.as_bytes();
    let y = b.as_bytes();
    proof {
        vstd::utf8::encode_utf8_decode_utf8(a@);
        vstd::utf8::encode_utf8_decode_utf8(b@);
    }
    if x.len() != y.len() {
        return false;
    }
    let mut i: usize = 0;
    while i < x.len()
        invariant
            x@.len() == y@.len(),
            x@ == vstd::utf8::encode_utf8(a@),
            y@ == vstd::utf8::encode_utf8(b@),
            0 <= i <= x@.len(),
            forall|j: int| 0 <= j < i ==> x@[j] == y@[j],
        decreases x@.len() - i,
    {
        if x[i] != y[i] {
            assert(x@[i as int] != y@[i as int]);
            return false;
        }
        i = i + 1;
    }
    assert(x@ =~= y@);
    true
}

/// The subscribing half of a session: the broadcasts it knows by name, the
/// announced broadcasts not yet taken, and its subscriptions by id, each
/// holding the writer of the track the peer's groups go into.
pub struct Subscriber {
    announced: Queue<Broadcast>,
    broadcasts: Vec<String>,
    tracks: HashMap<u64, TrackWriter>,
    next_id: u64,
}

impl Subscriber {
    /// The names of the known broadcasts.
    pub closed spec fn broadcasts(&self) -> Seq<Seq<char>> {
        self.broadcasts@.map_values(|s: String| s@)
    }

    /// The subscriptions by id.
    pub closed spec fn tracks(&self) -> Map<u64, TrackWriter> {
        self.tracks@
    }

    /// The id the next subscription gets.
    pub closed spec fn next_id(&self) -> u64 {
        self.next_id
    }

    /// The names of the announced broadcasts not yet taken, oldest first.
    pub closed spec fn announced_names(&self) -> Seq<Seq<char>> {
        self.announced.items().map_values(|b: Broadcast| b.name@)
    }

    /// Consumers waiting for an announced broadcast.
    pub closed spec fn announced_waiters(&self) -> nat {
        self.announced.waiters()
    }

    /// Whether the announce queue is closed.
    pub closed spec fn announced_closed(&self) -> bool {
        self.announced.is_closed_spec()
    }

    /// Names are unique, and every subscription id was handed out before.
    pub closed spec fn wf(&self) -> bool {
        &&& self.broadcasts().no_duplicates()
        &&& forall|id: u64| #[trigger] self.tracks@.contains_key(id) ==> id < self.next_id
    }

    /// The id the next subscription gets.
    pub fn upcoming_id(&self) -> (r: u64)
        ensures
            r == self.next_id(),
    {
        self.next_id
    }

    /// A subscriber that knows nothing yet.
    pub fn new() -> (r: Subscriber)
        ensures
            r.wf(),
            r.broadcasts() == Seq::<Seq<char>>::empty(),
            r.tracks() == Map::<u64, TrackWriter>::empty(),
            r.next_id() == 0,
            r.announced_names() == Seq::<Seq<char>>::empty(),
            !r.announced_closed(),
    {
        let r = Subscriber {
            announced: Queue::new(),
            broadcasts: Vec::new(),
            tracks: HashMap::new(),
            next_id: 0,
        };
        assert(r.broadcasts() =~= Seq::<Seq<char>>::empty());
        assert(r.announced_names() =~= Seq::<Seq<char>>::empty());
        r
    }

    /// Where `name` stands among the known broadcasts.
    fn find_broadcast(&self, name: &str) -> (r: Option<usize>)
        ensures
            r matches Some(i) ==> i < self.broadcasts().len() && self.broadcasts()[i as int] == name@,
            r is None <==> !self.broadcasts().contains(name@),
    {
        let mut i: usize = 0;
        while i < self.broadcasts.len()
            invariant
                0 <= i <= self.broadcasts@.len(),
                forall|j: int| 0 <= j < i ==> self.broadcasts()[j] != name@,
            decreases self.broadcasts@.len() - i,
        {
            if str_eq(self.broadcasts[i].as_str(), name) {
                assert(self.broadcasts()[i as int] == name@);
                return Some(i);
            }
            i = i + 1;
        }
        None
    }

    /// The broadcast `name`, learned now if it was not known. The flag says
    /// whether it was new. Only the name is recorded here: no tracks are
    /// produced on demand for it.
    pub fn namespace(&mut self, name: &str) -> (r: (Broadcast, bool))
        requires
            old(self).wf(),
        ensures
            final(self).wf(),
            r.0.name@ == name@,
            r.1 == !old(self).broadcasts().contains(name@),
            r.1 ==> final(self).broadcasts() == old(self).broadcasts().push(name@),
            !r.1 ==> final(self).broadcasts() == old(self).broadcasts(),
            final(self).tracks() == old(self).tracks(),
            final(self).next_id() == old(self).next_id(),
            final(self).announced_names() == old(self).announced_names(),
            final(self).announced_closed() == old(self).announced_closed(),
    {
        match self.find_broadcast(name) {
            Some(_) => (Broadcast::new(name), false),
            None => {
                self.broadcasts.push(name.to_owned());
                assert(self.broadcasts() =~= old(self).broadcasts().push(name@));
                (Broadcast::new(name), true)
            },
        }
    }

    /// Forgets the broadcast `name`, as when its announcement ends.
    pub fn remove_broadcast(&mut self, name: &str) -> (r: bool)
        requires
            old(self).wf(),
        ensures
            final(self).wf(),
            r == old(self).broadcasts().contains(name@),
            !final(self).broadcasts().contains(name@),
            forall|x: Seq<char>|
                x != name@ ==> (#[trigger] final(self).broadcasts().contains(x) <==> old(self).broadcasts().contains(x)),
            final(self).tracks() == old(self).tracks(),
            final(self).next_id() == old(self).next_id(),
            final(self).announced_names() == old(self).announced_names(),
            final(self).announced_closed() == old(self).announced_closed(),
    {
        match self.find_broadcast(name) {
            None => false,
            Some(i) => {
                let ghost before = self.broadcasts();
                self.broadcasts.remove(i);
                assert(self.broadcasts() =~= before.remove(i as int));
                assert forall|x: Seq<char>| x != name@ implies (#[trigger] self.broadcasts().contains(x)
                    <==> before.contains(x)) by {
                    if before.contains(x) {
                        let j = choose|j: int| 0 <= j < before.len() && before[j] == x;
                        if j < i {
                            assert(self.broadcasts()[j] == x);
                        } else {
                            assert(self.broadcasts()[j - 1] == x);
                        }
                    }
                }
                assert(!self.broadcasts().contains(name@)) by {
                    if self.broadcasts().contains(name@) {
                        let j = choose|j: int|
                            0 <= j < self.broadcasts().len() && self.broadcasts()[j] == name@;
                        if j < i {
                            assert(before[j] == before[i as int]);
                        } else {
                            assert(before[j + 1] == before[i as int]);
                        }
                    }
                }
                true
            },
        }
    }

    /// Opens a subscription to `track`: it takes the next id and keeps the
    /// track's writer under it; the reader is handed back.
    pub fn init_subscribe(&mut self, track: Track) -> (r: (u64, TrackReader))
        requires
            old(self).wf(),
            old(self).next_id() < u64::MAX,
        ensures
            final(self).wf(),
            r.0 == old(self).next_id(),
            final(self).next_id() == old(self).next_id() + 1,
            !old(self).tracks().contains_key(r.0),
            final(self).tracks().dom() == old(self).tracks().dom().insert(r.0),
            final(self).tracks()[r.0]@ == TrackView::fresh(),
            forall|id: u64| id != r.0 ==> #[trigger] final(self).tracks().contains_key(id) ==> final(self).tracks()[id] == old(self).tracks()[id],
            r.1.seen() == 0,
            final(self).tracks()[r.0].track() == track,
            final(self).tracks()[r.0].writers() == 1,
            same_track(r.1.track(), track),
            r.1.priority_spec() == track.priority,
            r.1.order_spec() == track.group_order,
            final(self).broadcasts() == old(self).broadcasts(),
            final(self).announced_names() == old(self).announced_names(),
            final(self).announced_closed() == old(self).announced_closed(),
    {
        let id = self.next_id;
        self.next_id = self.next_id + 1;
        let (writer, reader) = track.produce();
        self.tracks.insert(id, writer);
        (id, reader)
    }

    /// The track writer of the subscription `id`, if there is one.
    pub fn track(&self, id: u64) -> (r: Option<&TrackWriter>)
        ensures
            r matches Some(w) ==> self.tracks().contains_key(id) && *w == self.tracks()[id],
            r is None <==> !self.tracks().contains_key(id),
    {
        self.tracks.get(&id)
    }

    /// Ends the subscription `id`, dropping its track writer.
    pub fn drop_subscribe(&mut self, id: u64) -> (r: bool)
        requires
            old(self).wf(),
        ensures
            final(self).wf(),
            r == old(self).tracks().contains_key(id),
            final(self).tracks() == old(self).tracks().remove(id),
            final(self).next_id() == old(self).next_id(),
            final(self).broadcasts() == old(self).broadcasts(),
            final(self).announced_names() == old(self).announced_names(),
            final(self).announced_closed() == old(self).announced_closed(),
    {
        self.tracks.remove(&id).is_some()
    }

    /// A writer for the group `sequence` that the peer sends on the
    /// subscription `subscribe`; an unknown subscription is `NotFound`.
    pub fn create_group(&mut self, subscribe: u64, sequence: u64) -> (r: Result<GroupWriter, ServeError>)
        requires
            old(self).wf(),
        ensures
            final(self).wf(),
            !old(self).tracks().contains_key(subscribe) ==> r == Err::<GroupWriter, ServeError>(
                ServeError::NotFound) && final(self).tracks() == old(self).tracks(),
            old(self).tracks().contains_key(subscribe) ==> {
                &&& final(self).tracks().dom() == old(self).tracks().dom()
                &&& final(self).tracks()[subscribe]@ == create_spec(
                    old(self).tracks()[subscribe]@,
                    sequence,
                )
                &&& forall|id: u64| id != subscribe ==> #[trigger] final(self).tracks().contains_key(id)
                    ==> final(self).tracks()[id] == old(self).tracks()[id]
                &&& create_result(old(self).tracks()[subscribe]@, sequence) == Ok::<(), ServeError>(())
                    ==> (r matches Ok(w) && w@ == GroupView::empty(Group { sequence, expires: None })
                    && w.wf())
                &&& create_result(old(self).tracks()[subscribe]@, sequence) matches Err(e) ==> r
                    == Err::<GroupWriter, ServeError>(e)
            },
            final(self).next_id() == old(self).next_id(),
            final(self).broadcasts() == old(self).broadcasts(),
            final(self).announced_names() == old(self).announced_names(),
            final(self).announced_closed() == old(self).announced_closed(),
    {
        match self.tracks.remove(&subscribe) {
            None => Err(ServeError::NotFound),
            Some(writer) => {
                let mut writer = writer;
                let r = writer.create(sequence);
                self.tracks.insert(subscribe, writer);
                assert(self.tracks@.dom() =~= old(self).tracks@.dom());
                r
            },
        }
    }

    /// Takes in a broadcast the peer announced: it becomes known, if it was
    /// not, and joins the announced ones. A closed announce queue is `Cancel`.
    pub fn recv_announce(&mut self, name: &str) -> (r: Result<Broadcast, ServeError>)
        requires
            old(self).wf(),
        ensures
            final(self).wf(),
            final(self).broadcasts() == if old(self).broadcasts().contains(name@) {
                old(self).broadcasts()
            } else {
                old(self).broadcasts().push(name@)
            },
            old(self).announced_closed() ==> r == Err::<Broadcast, ServeError>(ServeError::Cancel)
                && final(self).announced_names() == old(self).announced_names(),
            !old(self).announced_closed() ==> (r matches Ok(b) && b.name@ == name@)
                && final(self).announced_names() == old(self).announced_names().push(name@),
            final(self).announced_closed() == old(self).announced_closed(),
            final(self).tracks() == old(self).tracks(),
            final(self).next_id() == old(self).next_id(),
    {
        let (broadcast, _) = self.namespace(name);
        let queued = Broadcast::new(name);
        match self.announced.push(queued) {
            Ok(()) => {
                assert(self.announced_names() =~= old(self).announced_names().push(name@));
                Ok(broadcast)
            },
            Err(_) => Err(ServeError::Cancel),
        }
    }

    /// The oldest announced broadcast not yet taken; `Pending` while none
    /// waits, the end once announcements are closed.
    pub fn announced(&mut self) -> (r: Poll<Option<Broadcast>>)
        requires
            old(self).wf(),
            old(self).announced_waiters() < u64::MAX,
        ensures
            final(self).wf(),
            old(self).announced_names().len() > 0 ==> (r matches Poll::Ready(Some(b)) && b.name@
                == old(self).announced_names()[0]) && final(self).announced_names() == old(self).announced_names().drop_first(),
            old(self).announced_names().len() == 0 && old(self).announced_closed() ==> (r matches Poll::Ready(None)),
            old(self).announced_names().len() == 0 && !old(self).announced_closed() ==> r is Pending,
            final(self).announced_closed() == old(self).announced_closed(),
            final(self).broadcasts() == old(self).broadcasts(),
            final(self).tracks() == old(self).tracks(),
            final(self).next_id() == old(self).next_id(),
    {
        let r = self.announced.pop();
        assert(old(self).announced_names().len() > 0 ==> self.announced_names() =~= old(self).announced_names().drop_first());
        r
    }

    /// Closes the announce queue: announced broadcasts not yet taken are
    /// still handed out, and no more join.
    pub fn close_announced(&mut self)
        requires
            old(self).wf(),
        ensures
            final(self).wf(),
            final(self).announced_closed(),
            final(self).announced_names() == old(self).announced_names(),
            final(self).broadcasts() == old(self).broadcasts(),
            final(self).tracks() == old(self).tracks(),
            final(self).next_id() == old(self).next_id(),
    {
        self.announced.close();
    }
}

/// Feeds one chunk the peer sent for the frame being written into `group`.
/// The end of the stream before the frame is full closes the group with
/// `WrongSize`, as does a chunk beyond the frame's declared size.
pub fn ingest_chunk(group: &mut GroupWriter, chunk: Option<&[u8]>) -> (r: Result<(), ServeError>)
    requires
        old(group).wf(),
    ensures
        final(group).wf(),
        chunk matches Some(c) ==> final(group)@ == write_chunk_spec(old(group)@, c@),
        chunk is None && !old(group)@.is_done() ==> r == Err::<(), ServeError>(ServeError::WrongSize)
            && final(group)@ == old(group)@.close_with(ServeError::WrongSize),
        chunk is None && old(group)@.is_done() ==> r is Err && final(group)@ == old(group)@,
        chunk matches Some(c) ==> !old(group)@.is_done() ==> (old(group)@.pending matches Some((size, data)) ==> {
            &&& data.len() + c@.len() > size ==> r == Err::<(), ServeError>(ServeError::WrongSize)
                && final(group)@ == old(group)@.close_with(ServeError::WrongSize)
            &&& data.len() + c@.len() == size ==> r is Ok && final(group)@ == (GroupView {
                frames: old(group)@.frames.push(data + c@),
                pending: None,
                ..old(group)@
            })
            &&& data.len() + c@.len() < size ==> r is Ok && final(group)@ == (GroupView {
                pending: Some((size, data + c@)),
                ..old(group)@
            })
        }),
{
    match chunk {
        Some(c) => group.write_chunk(c),
        None => {
            match group.close(ServeError::WrongSize) {
                Ok(()) => Err(ServeError::WrongSize),
                Err(e) => Err(e),
            }
        },
    }
}

} // verus!
