use vstd::prelude::*;

use crate::error::{same_error, ServeError};
use crate::group::{Group, GroupReader, GroupView, GroupWriter};
use crate::state::{next_epoch, Poll, State};

verus! {

/// The order in which a subscriber wants groups delivered.
#[derive(Debug, Clone, Copy, PartialEq, Eq, Structural)]
pub enum GroupOrder {
    Ascending,
    Descending,
}

/// Static information about a track.
pub struct Track {
    pub broadcast: String,
    pub name: String,
    pub priority: Option<u64>,
    pub group_order: Option<GroupOrder>,
    /// How long groups may be kept, in milliseconds.
    pub group_expires: Option<u64>,
}

/// A copy of a string.
fn copy_string(s: &String) -> (r: String)
    ensures
        r@ == s@,
{
    s.as_str().to_owned()
}

/// Two descriptions of the same track: every field equal, the names by
/// their characters.
pub open spec fn same_track(a: Track, b: Track) -> bool {
    &&& a.broadcast@ == b.broadcast@
    &&& a.name@ == b.name@
    &&& a.priority == b.priority
    &&& a.group_order == b.group_order
    &&& a.group_expires == b.group_expires
}

impl Track {
    /// A builder for the track `name` of `broadcast`, with no options set.
    pub fn new(broadcast: &str, name: &str) -> (r: TrackBuilder)
        ensures
            r.track.broadcast@ == broadcast@,
            r.track.name@ == name@,
            r.track.priority is None,
            r.track.group_order is None,
            r.track.group_expires is None,
    {
        TrackBuilder::new(
            Track {
                broadcast: broadcast.to_owned(),
                name: name.to_owned(),
                priority: None,
                group_order: None,
                group_expires: None,
            },
        )
    }

    /// A copy of the track's information.
    pub fn copy(&self) -> (r: Track)
        ensures
            same_track(r, *self),
    {
        Track {
            broadcast: copy_string(&self.broadcast),
            name: copy_string(&self.name),
            priority: self.priority,
            group_order: self.group_order,
            group_expires: self.group_expires,
        }
    }

    /// A writer for a new open track with no group, and a reader of it.
    pub fn produce(self) -> (r: (TrackWriter, TrackReader))
        ensures
            r.0@ == TrackView::fresh(),
            r.0.writers() == 1,
            r.0.track() == self,
            same_track(r.1.track(), self),
            r.1.priority_spec() == self.priority,
            r.1.order_spec() == self.group_order,
            r.1.seen() == 0,
    {
        let reader_info = self.copy();
        let writer = TrackWriter { info: self, state: State::new(None), next: 0, ended: false };
        let reader = TrackReader::new(reader_info);
        (writer, reader)
    }
}

/// Sets the options of a track before it is produced.
pub struct TrackBuilder {
    pub track: Track,
}

impl TrackBuilder {
    /// A builder starting from `track`.
    pub fn new(track: Track) -> (r: Self)
        ensures
            r.track == track,
    {
        TrackBuilder { track }
    }

    /// Sets the group order.
    pub fn order(self, order: GroupOrder) -> (r: Self)
        ensures
            r.track == (Track { group_order: Some(order), ..self.track }),
    {
        let mut b = self;
        b.track.group_order = Some(order);
        b
    }

    /// Sets the priority.
    pub fn priority(self, priority: u64) -> (r: Self)
        ensures
            r.track == (Track { priority: Some(priority), ..self.track }),
    {
        let mut b = self;
        b.track.priority = Some(priority);
        b
    }

    /// Sets how long groups may be kept, in milliseconds.
    pub fn expires(self, expires: u64) -> (r: Self)
        ensures
            r.track == (Track { group_expires: Some(expires), ..self.track }),
    {
        let mut b = self;
        b.track.group_expires = Some(expires);
        b
    }

    /// The track described.
    pub fn build(self) -> (r: Track)
        ensures
            r == self.track,
    {
        self.track
    }

    /// A writer and a reader for the track described.
    pub fn produce(self) -> (r: (TrackWriter, TrackReader))
        ensures
            r.0@ == TrackView::fresh(),
            r.0.writers() == 1,
            r.0.track() == self.track,
            same_track(r.1.track(), self.track),
            r.1.priority_spec() == self.track.priority,
            r.1.order_spec() == self.track.group_order,
            r.1.seen() == 0,
    {
        self.build().produce()
    }
}

/// What a track's writer holds.
pub struct TrackView {
    /// The newest group; older ones are not kept.
    pub latest: Option<Group>,
    /// Moves each time `latest` changes.
    pub epoch: u64,
    /// The terminal error, once closed.
    pub closed: Result<(), ServeError>,
    /// The sequence that `append` uses.
    pub next: u64,
    /// Whether the track closed because its last writer went away, rather
    /// than by an explicit close.
    pub ended: bool,
}

impl TrackView {
    /// A new open track.
    pub open spec fn fresh() -> TrackView {
        TrackView { latest: None, epoch: 0, closed: Ok(()), next: 0, ended: false }
    }
}

/// The sequence after `s`, held at `u64::MAX`.
pub open spec fn after(s: u64) -> u64 {
    if s == u64::MAX {
        u64::MAX
    } else {
        (s + 1) as u64
    }
}

/// What `create(sequence)` returns when the track is in state `t`.
pub open spec fn create_result(t: TrackView, sequence: u64) -> Result<(), ServeError> {
    if t.closed is Err {
        Err(ServeError::Cancel)
    } else {
        match t.latest {
            Some(g) if sequence == g.sequence => Err(ServeError::Duplicate),
            _ => Ok(()),
        }
    }
}

/// The track after `create(sequence)`: a newer group becomes the latest and
/// moves the epoch; an older one, a duplicate, or a closed track changes nothing.
pub open spec fn create_spec(t: TrackView, sequence: u64) -> TrackView {
    if t.closed is Err {
        t
    } else {
        match t.latest {
            Some(g) if sequence <= g.sequence => t,
            _ => TrackView {
                latest: Some(Group { sequence, expires: None }),
                epoch: next_epoch(t.epoch),
                next: after(sequence),
                ..t
            },
        }
    }
}

/// The track after `k` appends in a row.
pub open spec fn appends(t: TrackView, k: nat) -> TrackView
    decreases k,
{
    if k == 0 {
        t
    } else {
        let u = appends(t, (k - 1) as nat);
        create_spec(u, u.next)
    }
}

/// Creating a group never moves the latest sequence backwards.
pub proof fn lemma_latest_monotonic(t: TrackView, sequence: u64)
    ensures
        t.latest matches Some(g) ==> (create_spec(t, sequence).latest matches Some(h) && g.sequence
            <= h.sequence),
        t.latest is Some ==> create_spec(t, sequence).latest is Some,
{
}

/// A group with the latest's own sequence is a `Duplicate`; an older one is
/// accepted but leaves the track, and so what every reader sees, unchanged.
/// A closed track refuses every group with `Cancel` and stays as it is.
pub proof fn lemma_duplicate_and_stale(t: TrackView, sequence: u64)
    requires
        t.latest is Some,
    ensures
        t.closed is Ok && sequence == t.latest->0.sequence ==> create_result(t, sequence) == Err::<
            (),
            ServeError,
        >(ServeError::Duplicate) && create_spec(t, sequence) == t,
        t.closed is Ok && sequence < t.latest->0.sequence ==> create_result(t, sequence) == Ok::<
            (),
            ServeError,
        >(()) && create_spec(t, sequence) == t,
        t.closed is Err ==> create_result(t, sequence) == Err::<(), ServeError>(ServeError::Cancel)
            && create_spec(t, sequence) == t,
{
}

/// On a new open track, appends without other creates in between make the
/// groups 0, 1, 2, ... : after `k` of them the latest group is `k - 1` and
/// every one of them succeeded.
pub proof fn lemma_append_counts(k: nat)
    requires
        k <= u64::MAX,
    ensures
        appends(TrackView::fresh(), k).next == k,
        appends(TrackView::fresh(), k).closed is Ok,
        k == 0 ==> appends(TrackView::fresh(), k).latest is None,
        k > 0 ==> appends(TrackView::fresh(), k).latest == Some(
            Group { sequence: (k - 1) as u64, expires: None },
        ),
        forall|i: nat|
            i < k ==> #[trigger] create_result(appends(TrackView::fresh(), i), i as u64) == Ok::<
                (),
                ServeError,
            >(()) && appends(TrackView::fresh(), i).next == i,
    decreases k,
{
    if k > 0 {
        lemma_append_counts((k - 1) as nat);
        let u = appends(TrackView::fresh(), (k - 1) as nat);
        assert(create_result(u, u.next) == Ok::<(), ServeError>(()));
    }
}

/// The writing half of a track: it creates groups by sequence.
pub struct TrackWriter {
    info: Track,
    state: State<Option<GroupReader>>,
    next: u64,
    ended: bool,
}

impl View for TrackWriter {
    type V = TrackView;

    closed spec fn view(&self) -> TrackView {
        TrackView {
            latest: match self.state.value() {
                Some(r) => Some(r.group()),
                None => None,
            },
            epoch: self.state.epoch(),
            closed: self.state.closed(),
            next: self.next,
            ended: self.ended,
        }
    }
}

impl TrackWriter {
    /// The track written.
    pub closed spec fn track(&self) -> Track {
        self.info
    }

    /// The track's static information.
    pub fn info(&self) -> (r: &Track)
        ensures
            *r == self.track(),
    {
        &self.info
    }

    /// Live writer handles of the track.
    pub closed spec fn writers(&self) -> nat {
        self.state.writers()
    }

    /// A writer for a new group `sequence`. A group newer than the latest
    /// becomes the latest; an older one gets a writer that no reader will
    /// see; the latest's own sequence is a `Duplicate`; a closed track
    /// refuses with `Cancel`.
    pub fn create(&mut self, sequence: u64) -> (r: Result<GroupWriter, ServeError>)
        ensures
            final(self)@ == create_spec(old(self)@, sequence),
            create_result(old(self)@, sequence) == Ok::<(), ServeError>(()) ==> (r matches Ok(w)
                && w@ == GroupView::empty(Group { sequence, expires: None }) && w.wf()),
            create_result(old(self)@, sequence) matches Err(e) ==> r == Err::<GroupWriter, ServeError>(e),
            final(self).writers() == old(self).writers(),
    {
        if self.state.is_closed() {
            return Err(ServeError::Cancel);
        }
        let (writer, reader) = Group::new(sequence).produce();
        if let Some(latest) = self.state.lock() {
            let l = latest.sequence();
            if sequence < l {
                return Ok(writer);
            } else if sequence == l {
                return Err(ServeError::Duplicate);
            }
        }
        let slot = self.state.lock_mut();
        *slot = Some(reader);
        self.next = sequence.saturating_add(1);
        Ok(writer)
    }

    /// A writer for the group after the latest one created, starting at 0.
    pub fn append(&mut self) -> (r: Result<GroupWriter, ServeError>)
        ensures
            final(self)@ == create_spec(old(self)@, old(self)@.next),
            create_result(old(self)@, old(self)@.next) == Ok::<(), ServeError>(()) ==> (r matches Ok(
                w) && w@ == GroupView::empty(Group { sequence: old(self)@.next, expires: None })
                && w.wf()),
            create_result(old(self)@, old(self)@.next) matches Err(e) ==> r == Err::<
                GroupWriter,
                ServeError,
            >(e),
            final(self).writers() == old(self).writers(),
    {
        let next = self.next;
        self.create(next)
    }

    /// Closes the track with `err`. A closed track keeps its first error and
    /// reports it.
    pub fn close(&mut self, err: ServeError) -> (r: Result<(), ServeError>)
        ensures
            old(self)@.closed is Ok ==> r is Ok && final(self)@ == (TrackView {
                closed: Err(err),
                ended: false,
                ..old(self)@
            }),
            old(self)@.closed matches Err(e) ==> (r matches Err(f) && same_error(f, e)),
            old(self)@.closed is Err ==> final(self)@ == old(self)@,
            final(self).writers() == old(self).writers(),
    {
        match self.state.close(err) {
            Ok(_) => {
                self.ended = false;
                Ok(())
            },
            Err(e) => Err(e),
        }
    }

    /// Adds a writer handle.
    pub fn split(&mut self)
        requires
            old(self).writers() < u64::MAX,
        ensures
            final(self)@ == old(self)@,
            final(self).writers() == old(self).writers() + 1,
    {
        self.state.split();
    }

    /// Removes a writer handle; when the last one goes, the open track
    /// closes with `Cancel` and counts as ended.
    pub fn drop_writer(&mut self)
        requires
            old(self).writers() > 0,
        ensures
            final(self).writers() == old(self).writers() - 1,
            final(self)@.latest == old(self)@.latest,
            final(self)@.epoch == old(self)@.epoch,
            final(self)@.next == old(self)@.next,
            (old(self).writers() == 1 && old(self)@.closed is Ok) ==> final(self)@.closed == Err::<
                (),
                ServeError,
            >(ServeError::Cancel) && final(self)@.ended,
            !(old(self).writers() == 1 && old(self)@.closed is Ok) ==> final(self)@.closed == old(self)@.closed
                && final(self)@.ended == old(self)@.ended,
    {
        if self.state.writers_now() == 1 && !self.state.is_closed() {
            self.ended = true;
        }
        self.state.drop_writer();
    }

    /// Whether the track ended because its last writer went away.
    pub fn is_ended(&self) -> (r: bool)
        ensures
            r == self@.ended,
    {
        self.ended
    }

    /// The latest group, if any.
    pub fn latest_group(&self) -> (r: Option<GroupReader>)
        ensures
            r matches Some(g) ==> self@.latest == Some(g.group()) && g.position() == 0,
            r is None <==> self@.latest is None,
    {
        match self.state.lock() {
            Some(g) => Some(GroupReader::new(g.info())),
            None => None,
        }
    }

    /// The epoch now.
    pub fn epoch(&self) -> (r: u64)
        ensures
            r == self@.epoch,
    {
        self.state.epoch_now()
    }

    /// A copy of the terminal result.
    pub fn closed_result(&self) -> (r: Result<(), ServeError>)
        ensures
            r is Ok <==> self@.closed is Ok,
            r matches Err(e) ==> (self@.closed matches Err(f) && same_error(e, f)),
    {
        self.state.closed_result()
    }
}

/// A reader of a track. It remembers the epoch it last saw, so that `next`
/// hands out the latest group once per change.
pub struct TrackReader {
    info: Track,
    epoch: u64,
    priority: Option<u64>,
    order: Option<GroupOrder>,
}

impl TrackReader {
    /// The track read.
    pub closed spec fn track(&self) -> Track {
        self.info
    }

    /// The priority the reader asks for.
    pub closed spec fn priority_spec(&self) -> Option<u64> {
        self.priority
    }

    /// The group order the reader asks for.
    pub closed spec fn order_spec(&self) -> Option<GroupOrder> {
        self.order
    }

    /// The track's static information.
    pub fn info(&self) -> (r: &Track)
        ensures
            *r == self.track(),
    {
        &self.info
    }

    /// The priority the reader asks for.
    pub fn priority(&self) -> (r: Option<u64>)
        ensures
            r == self.priority_spec(),
    {
        self.priority
    }

    /// The group order the reader asks for.
    pub fn order(&self) -> (r: Option<GroupOrder>)
        ensures
            r == self.order_spec(),
    {
        self.order
    }

    /// The epoch this reader last saw.
    pub closed spec fn seen(&self) -> u64 {
        self.epoch
    }

    fn new(info: Track) -> (r: Self)
        ensures
            r.track() == info,
            r.priority_spec() == info.priority,
            r.order_spec() == info.group_order,
            r.seen() == 0,
    {
        let priority = info.priority;
        let order = info.group_order;
        TrackReader { info, epoch: 0, priority, order }
    }

    /// A second reader at the same place.
    pub fn clone_reader(&self) -> (r: Self)
        ensures
            same_track(r.track(), self.track()),
            r.priority_spec() == self.priority_spec(),
            r.order_spec() == self.order_spec(),
            r.seen() == self.seen(),
    {
        TrackReader { info: self.info.copy(), epoch: self.epoch, priority: self.priority, order: self.order }
    }

    /// The latest group of `track` if its sequence is `sequence`.
    pub fn get(&self, track: &TrackWriter, sequence: u64) -> (r: Option<GroupReader>)
        ensures
            r matches Some(g) ==> track@.latest == Some(g.group()) && g.position() == 0,
            r is Some <==> (track@.latest matches Some(l) && l.sequence == sequence),
    {
        match track.latest_group() {
            Some(g) => {
                if g.sequence() == sequence {
                    Some(g)
                } else {
                    None
                }
            },
            None => None,
        }
    }

    /// The sequence of the latest group of `track`.
    pub fn latest(&self, track: &TrackWriter) -> (r: Option<u64>)
        ensures
            r == (match track@.latest {
                Some(g) => Some(g.sequence),
                None => None::<u64>,
            }),
    {
        match track.latest_group() {
            Some(g) => Some(g.sequence()),
            None => None,
        }
    }

    /// The latest group, once per change of `track`: a changed epoch hands
    /// out the latest group and remembers the epoch. Otherwise a track whose
    /// writers are all gone has ended, one closed explicitly reports its
    /// error, and an open one is `Pending`. Groups may be skipped when several
    /// changes come between two calls.
    pub fn next(&mut self, track: &TrackWriter) -> (r: Poll<Result<Option<GroupReader>, ServeError>>)
        ensures
            final(self).track() == old(self).track(),
            final(self).priority_spec() == old(self).priority_spec(),
            final(self).order_spec() == old(self).order_spec(),
            final(self).seen() == track@.epoch,
            old(self).seen() != track@.epoch ==> (r matches Poll::Ready(Ok(g)) && (match g {
                Some(g) => track@.latest == Some(g.group()) && g.position() == 0,
                None => track@.latest is None,
            })),
            old(self).seen() == track@.epoch ==> {
                &&& track@.closed is Ok ==> r is Pending
                &&& (track@.closed is Err && track@.ended) ==> r == Poll::<
                    Result<Option<GroupReader>, ServeError>,
                >::Ready(Ok(None))
                &&& (track@.closed matches Err(e) ==> (!track@.ended ==> (r matches Poll::Ready(
                    Err(f)) && same_error(f, e))))
            },
    {
        let epoch = track.epoch();
        if self.epoch != epoch {
            self.epoch = epoch;
            return Poll::Ready(Ok(track.latest_group()));
        }
        match track.closed_result() {
            Ok(()) => Poll::Pending,
            Err(e) => {
                if track.is_ended() {
                    Poll::Ready(Ok(None))
                } else {
                    Poll::Ready(Err(e))
                }
            },
        }
    }

    /// Whether `track` has reached its end: cleanly when its writers are all
    /// gone, with its error when it was closed explicitly.
    pub fn closed(&self, track: &TrackWriter) -> (r: Poll<Result<(), ServeError>>)
        ensures
            track@.closed is Ok ==> r is Pending,
            (track@.closed is Err && track@.ended) ==> r == Poll::<Result<(), ServeError>>::Ready(
                Ok(()),
            ),
            (track@.closed matches Err(e) ==> (!track@.ended ==> (r matches Poll::Ready(Err(f))
                && same_error(f, e)))),
    {
        match track.closed_result() {
            Ok(()) => Poll::Pending,
            Err(e) => {
                if track.is_ended() {
                    Poll::Ready(Ok(()))
                } else {
                    Poll::Ready(Err(e))
                }
            },
        }
    }
}

} // verus!
