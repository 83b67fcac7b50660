use vstd::prelude::*;

use crate::buffer::copy_bytes;
use crate::coding::{all_encodable, ints_spec, VARINT_BOUND};
use crate::error::{error_code, ServeError};
use crate::group::{feed, joined, lemma_frame_gets_its_size, Group, GroupReader, GroupView};
use crate::message::{
    frame_ints, frame_of, group_header_ints, group_header_of, lemma_frame_round_trip,
    lemma_group_header_round_trip, parse_with, Frame, GroupDrop,
    GroupHeader, Info, Subscribe, SubscribeUpdate,
};
use crate::track::{create_spec, TrackReader, TrackView, TrackWriter};
use vstd::utf8::encode_utf8;

verus! {

/// One subscription that the publishing side serves: it sends each new
/// group of the track on a stream of its own, and reports the groups that
/// could not be sent.
pub struct Subscribed {
    /// The subscription's id, as the subscriber chose it.
    pub id: u64,
    /// The last update the subscriber sent.
    pub update: Option<SubscribeUpdate>,
    /// Whether the track has ended; no more groups come.
    pub fin: bool,
}

impl Subscribed {
    /// Serving of the subscription `id`, before any group.
    pub fn new(id: u64) -> (r: Subscribed)
        ensures
            r.id == id,
            r.update is None,
            !r.fin,
    {
        Subscribed { id, update: None, fin: false }
    }

    /// What the track's `next` gave: a group to send, whose header is
    /// returned; the end of the track, which stops the pulling; or an error,
    /// which ends the subscription.
    pub fn on_group(&mut self, next: Result<Option<GroupReader>, ServeError>) -> (r: Result<
        Option<GroupHeader>,
        ServeError,
    >)
        ensures
            final(self).id == old(self).id,
            final(self).update == old(self).update,
            next matches Ok(Some(g)) ==> r == Ok::<Option<GroupHeader>, ServeError>(
                Some(GroupHeader { subscribe: old(self).id, sequence: g.group().sequence, expires: g.group().expires }),
            ) && final(self).fin == old(self).fin,
            next matches Ok(None) ==> r == Ok::<Option<GroupHeader>, ServeError>(None) && final(self).fin,
            next matches Err(e) ==> (r matches Err(f) && f == e) && final(self).fin == old(self).fin,
    {
        match next {
            Ok(Some(g)) => {
                let info = g.info();
                Ok(Some(self.group_header(info)))
            },
            Ok(None) => {
                self.fin = true;
                Ok(None)
            },
            Err(e) => Err(e),
        }
    }

    /// The header that opens the stream of `group`.
    pub fn group_header(&self, group: Group) -> (r: GroupHeader)
        ensures
            r == (GroupHeader { subscribe: self.id, sequence: group.sequence, expires: group.expires }),
    {
        GroupHeader { subscribe: self.id, sequence: group.sequence, expires: group.expires }
    }

    /// How a finished group stream is answered: a failed one is reported
    /// as dropped, with the reset code of its error; a delivered one needs
    /// nothing.
    pub fn on_group_done(&self, sequence: u64, result: Result<(), ServeError>) -> (r: Option<GroupDrop>)
        ensures
            result is Ok ==> r is None,
            result matches Err(e) ==> r == Some(
                GroupDrop { sequence, count: 0, code: error_code(e) as u64 },
            ),
    {
        match result {
            Ok(()) => None,
            Err(e) => Some(GroupDrop { sequence, count: 0, code: e.to_code() as u64 }),
        }
    }

    /// Takes an update from the subscriber; it replaces the previous one and
    /// leaves the subscription running.
    pub fn recv_update(&mut self, update: SubscribeUpdate) -> (r: Result<(), ServeError>)
        ensures
            r is Ok,
            final(self).update == Some(update),
            final(self).id == old(self).id,
            final(self).fin == old(self).fin,
    {
        self.update = Some(update);
        Ok(())
    }
}

/// The request that subscribes, under `id`, to the track that `reader`
/// reads in the broadcast `broadcast`.
pub fn subscribe_request(id: u64, broadcast: &str, reader: &TrackReader) -> (r: Subscribe)
    ensures
        r.id == id,
        r.broadcast@ == encode_utf8(broadcast@),
        r.track@ == encode_utf8(reader.track().name@),
        r.priority == reader.priority_spec(),
        r.group_order == reader.track().group_order,
        r.group_expires == reader.track().group_expires,
        r.group_min is None,
        r.group_max is None,
{
    let info = reader.info();
    Subscribe {
        id,
        broadcast: copy_bytes(broadcast.as_bytes()),
        track: copy_bytes(info.name.as_str().as_bytes()),
        priority: reader.priority(),
        group_order: info.group_order,
        group_expires: info.group_expires,
        group_min: None,
        group_max: None,
    }
}

/// The reply to a subscription request for the track that `reader` reads
/// and `track` writes: its priority (0 when unset), its latest group, its
/// order and how long its groups are kept.
pub fn info_reply(reader: &TrackReader, track: &TrackWriter) -> (r: Info)
    ensures
        r.priority == match reader.priority_spec() {
            Some(p) => p,
            None => 0u64,
        },
        r.group_latest == match track@.latest {
            Some(g) => Some(g.sequence),
            None => None::<u64>,
        },
        r.group_order == reader.order_spec(),
        r.group_expires == reader.track().group_expires,
{
    Info {
        priority: match reader.priority() {
            Some(p) => p,
            None => 0,
        },
        group_latest: reader.latest(track),
        group_order: reader.order(),
        group_expires: reader.info().group_expires,
    }
}

/// A group the publisher announces on its stream reaches the subscriber's
/// track for that subscription: the header read back is the one sent, and
/// when its sequence is newer than the track's latest, it becomes the
/// latest that the track's readers see next.
pub proof fn lemma_group_reaches_subscriber(sent: GroupHeader, t: TrackView, rest: Seq<u8>)
    requires
        sent.encodable(),
        t.closed is Ok,
        t.latest matches Some(g) ==> g.sequence < sent.sequence,
    ensures
        parse_with(ints_spec(group_header_ints(sent)) + rest, 3, |vs| group_header_of(vs)) == Some(
            (sent, ints_spec(group_header_ints(sent)).len()),
        ),
        create_spec(t, sent.sequence).latest == Some(Group { sequence: sent.sequence, expires: None }),
        create_spec(t, sent.sequence).epoch != t.epoch,
{
    lemma_group_header_round_trip(sent, rest);
}

/// A frame the publisher sends, as its header and then its bytes in
/// non-empty chunks, arrives whole: the header read back declares its size,
/// and the subscriber's group, given that frame to fill, ends up with
/// exactly its bytes as the next complete frame.
pub proof fn lemma_frame_reaches_subscriber(
    frame: Seq<u8>,
    chunks: Seq<Seq<u8>>,
    g: GroupView,
    rest: Seq<u8>,
)
    requires
        0 < frame.len() < VARINT_BOUND,
        joined(chunks) == frame,
        forall|i: int| 0 <= i < chunks.len() ==> #[trigger] chunks[i].len() > 0,
        !g.is_done(),
        g.pending is None,
    ensures
        parse_with(
            ints_spec(frame_ints(Frame { size: frame.len() as u64 })) + rest,
            1,
            |vs| frame_of(vs),
        ) == Some(
            (
                Frame { size: frame.len() as u64 },
                ints_spec(frame_ints(Frame { size: frame.len() as u64 })).len(),
            ),
        ),
        feed(GroupView { pending: Some((frame.len(), Seq::empty())), ..g }, chunks) == (GroupView {
            frames: g.frames.push(frame),
            ..g
        }),
{
    let m = Frame { size: frame.len() as u64 };
    assert(all_encodable(frame_ints(m))) by {
        assert(frame_ints(m)[0] == m.size);
    }
    lemma_frame_round_trip(m, rest);
    let start = GroupView { pending: Some((frame.len(), Seq::empty())), ..g };
    lemma_frame_gets_its_size(start, frame.len(), Seq::empty(), chunks);
    assert(Seq::<u8>::empty() + joined(chunks) =~= frame);
}

} // verus!
