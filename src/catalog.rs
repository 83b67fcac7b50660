use vstd::prelude::*;

use crate::error::{same_error, ServeError};
use crate::group::{GroupReader, GroupWriter};
use crate::state::Poll;
use crate::track::{GroupOrder, Track, TrackReader, TrackWriter};

verus! {

/// Why a catalog could not be read.
pub enum CatalogError {
    /// The track ended, or its group ended, before a catalog came.
    Empty,
    /// The track or the group failed.
    Serve(ServeError),
}

/// The track that carries a broadcast's catalog: newest group first, kept
/// no longer than it takes to read it.
pub fn catalog_track(broadcast: &str) -> (r: Track)
    ensures
        r.broadcast@ == broadcast@,
        r.name@ == "catalog.json"@,
        r.priority == Some(0u64),
        r.group_order == Some(GroupOrder::Descending),
        r.group_expires == Some(0u64),
{
    Track::new(broadcast, "catalog.json").priority(0).order(GroupOrder::Descending).expires(0).build()
}

/// Reads the catalog of a broadcast: the first frame of the track's latest
/// group.
pub struct Reader {
    pub track: TrackReader,
}

impl Reader {
    /// A catalog reader over `track`.
    pub fn new(track: TrackReader) -> (r: Reader)
        ensures
            r.track == track,
    {
        Reader { track }
    }

    /// The group that holds the newest catalog; a track that ended holds
    /// none.
    pub fn next_group(&mut self, track: &TrackWriter) -> (r: Poll<Result<GroupReader, CatalogError>>)
        ensures
            final(self).track.seen() == track@.epoch,
            old(self).track.seen() != track@.epoch ==> (match track@.latest {
                Some(g) => r matches Poll::Ready(Ok(got)) && got.group() == g && got.position() == 0,
                None => r matches Poll::Ready(Err(CatalogError::Empty)),
            }),
            old(self).track.seen() == track@.epoch ==> {
                &&& track@.closed is Ok ==> r is Pending
                &&& (track@.closed is Err && track@.ended) ==> (r matches Poll::Ready(Err(CatalogError::Empty)))
                &&& (track@.closed matches Err(e) ==> (!track@.ended ==> (r matches Poll::Ready(
                    Err(CatalogError::Serve(f))) && same_error(f, e))))
            },
    {
        match self.track.next(track) {
            Poll::Ready(Ok(Some(g))) => Poll::Ready(Ok(g)),
            Poll::Ready(Ok(None)) => Poll::Ready(Err(CatalogError::Empty)),
            Poll::Ready(Err(e)) => Poll::Ready(Err(CatalogError::Serve(e))),
            Poll::Pending => Poll::Pending,
        }
    }

    /// The catalog's bytes: the first frame of `group`, which `reader`
    /// reads from its start.
    pub fn read(reader: &mut GroupReader, group: &GroupWriter) -> (r: Poll<Result<Vec<u8>, CatalogError>>)
        requires
            old(reader).position() == 0,
        ensures
            group@.frames.len() > 0 ==> (r matches Poll::Ready(Ok(f)) && f@ == group@.frames[0]),
            group@.frames.len() == 0 ==> {
                &&& group@.closed is Ok && group@.fin ==> (r matches Poll::Ready(Err(CatalogError::Empty)))
                &&& group@.closed is Ok && !group@.fin ==> r is Pending
                &&& (group@.closed matches Err(e) ==> (r matches Poll::Ready(Err(CatalogError::Serve(f)))
                    && same_error(f, e)))
            },
    {
        match reader.read_frame(group) {
            Poll::Ready(Ok(Some(f))) => Poll::Ready(Ok(f)),
            Poll::Ready(Ok(None)) => Poll::Ready(Err(CatalogError::Empty)),
            Poll::Ready(Err(e)) => Poll::Ready(Err(CatalogError::Serve(e))),
            Poll::Pending => Poll::Pending,
        }
    }
}

} // verus!
