use vstd::prelude::*;

use crate::coding::{
    all_encodable, bytes_spec, decode_bytes, decode_ints, encode_bytes, encode_ints, ints_spec,
    lemma_bytes_round_trip, lemma_ints_concat, lemma_ints_round_trip, lemma_parse_ints_bound,
    parse_bytes, parse_ints, VARINT_BOUND,
};
use crate::error::ServeError;
use crate::setup::{role_code, Client, Role, ServerReply};
use crate::track::GroupOrder;

verus! {

/// The tag that opens a bidirectional stream.
#[derive(Debug, Clone, Copy, PartialEq, Eq, Structural)]
pub enum StreamKind {
    Session,
    Announce,
    Subscribe,
    Info,
}

/// The tag that opens a unidirectional stream.
#[derive(Debug, Clone, Copy, PartialEq, Eq, Structural)]
pub enum StreamUniKind {
    Group,
}

/// The wire value of a bidirectional stream tag.
pub open spec fn stream_code(k: StreamKind) -> u64 {
    match k {
        StreamKind::Session => 0,
        StreamKind::Announce => 1,
        StreamKind::Subscribe => 2,
        StreamKind::Info => 3,
    }
}

impl StreamKind {
    /// The wire value of the tag.
    pub fn to_code(self) -> (r: u64)
        ensures
            r == stream_code(self),
    {
        match self {
            StreamKind::Session => 0,
            StreamKind::Announce => 1,
            StreamKind::Subscribe => 2,
            StreamKind::Info => 3,
        }
    }

    /// The tag with this wire value; any other value is an unexpected stream.
    pub fn from_code(code: u64) -> (r: Result<StreamKind, ServeError>)
        ensures
            r matches Ok(k) ==> stream_code(k) == code,
            r is Err <==> code > 3,
            r matches Err(e) ==> e == ServeError::UnexpectedStream(code),
    {
        if code == 0 {
            Ok(StreamKind::Session)
        } else if code == 1 {
            Ok(StreamKind::Announce)
        } else if code == 2 {
            Ok(StreamKind::Subscribe)
        } else if code == 3 {
            Ok(StreamKind::Info)
        } else {
            Err(ServeError::UnexpectedStream(code))
        }
    }
}

impl StreamUniKind {
    /// The wire value of the tag.
    pub fn to_code(self) -> (r: u64)
        ensures
            r == 0,
    {
        0
    }

    /// The tag with this wire value; any other value is an unexpected stream.
    pub fn from_code(code: u64) -> (r: Result<StreamUniKind, ServeError>)
        ensures
            code == 0 ==> r == Ok::<StreamUniKind, ServeError>(StreamUniKind::Group),
            code != 0 ==> r == Err::<StreamUniKind, ServeError>(ServeError::UnexpectedStream(code)),
    {
        if code == 0 {
            Ok(StreamUniKind::Group)
        } else {
            Err(ServeError::UnexpectedStream(code))
        }
    }
}

/// An optional integer on the wire: 0 for none, one more than the value
/// otherwise.
pub open spec fn opt_int(o: Option<u64>) -> u64 {
    match o {
        None => 0,
        Some(v) => (v + 1) as u64,
    }
}

/// The optional integer that a wire value stands for.
pub open spec fn int_opt(x: u64) -> Option<u64> {
    if x == 0 {
        None
    } else {
        Some((x - 1) as u64)
    }
}

/// Whether an optional integer can be written.
pub open spec fn opt_ok(o: Option<u64>) -> bool {
    o matches Some(v) ==> v + 1 < VARINT_BOUND
}

/// A group order on the wire: 0 for none, 1 ascending, 2 descending.
pub open spec fn order_int(o: Option<GroupOrder>) -> u64 {
    match o {
        None => 0,
        Some(GroupOrder::Ascending) => 1,
        Some(GroupOrder::Descending) => 2,
    }
}

/// The group order a wire value stands for; other values are invalid.
pub open spec fn int_order(x: u64) -> Option<Option<GroupOrder>> {
    if x == 0 {
        Some(None)
    } else if x == 1 {
        Some(Some(GroupOrder::Ascending))
    } else if x == 2 {
        Some(Some(GroupOrder::Descending))
    } else {
        None
    }
}

fn opt_to_int(o: Option<u64>) -> (r: u64)
    requires
        opt_ok(o),
    ensures
        r == opt_int(o),
{
    match o {
        None => 0,
        Some(v) => v + 1,
    }
}

fn int_to_opt(x: u64) -> (r: Option<u64>)
    ensures
        r == int_opt(x),
{
    if x == 0 {
        None
    } else {
        Some(x - 1)
    }
}

fn order_to_int(o: Option<GroupOrder>) -> (r: u64)
    ensures
        r == order_int(o),
{
    match o {
        None => 0,
        Some(GroupOrder::Ascending) => 1,
        Some(GroupOrder::Descending) => 2,
    }
}

fn int_to_order(x: u64) -> (r: Result<Option<GroupOrder>, ServeError>)
    ensures
        int_order(x) matches Some(o) ==> r == Ok::<Option<GroupOrder>, ServeError>(o),
        int_order(x) is None ==> r == Err::<Option<GroupOrder>, ServeError>(ServeError::Decode),
{
    if x == 0 {
        Ok(None)
    } else if x == 1 {
        Ok(Some(GroupOrder::Ascending))
    } else if x == 2 {
        Ok(Some(GroupOrder::Descending))
    } else {
        Err(ServeError::Decode)
    }
}

/// The header of a frame: the number of payload bytes that follow.
#[derive(Debug, Clone, Copy, PartialEq, Eq, Structural)]
pub struct Frame {
    pub size: u64,
}

/// A report that a group could not be delivered.
#[derive(Debug, Clone, Copy, PartialEq, Eq, Structural)]
pub struct GroupDrop {
    pub sequence: u64,
    pub count: u64,
    pub code: u64,
}

/// The header of a group stream.
#[derive(Debug, Clone, Copy, PartialEq, Eq, Structural)]
pub struct GroupHeader {
    pub subscribe: u64,
    pub sequence: u64,
    /// How long the group may be kept, in milliseconds.
    pub expires: Option<u64>,
}

/// The reply to a subscription.
#[derive(Debug, Clone, Copy, PartialEq, Eq, Structural)]
pub struct Info {
    pub priority: u64,
    pub group_latest: Option<u64>,
    pub group_order: Option<GroupOrder>,
    pub group_expires: Option<u64>,
}

/// A change to a running subscription.
#[derive(Debug, Clone, Copy, PartialEq, Eq, Structural)]
pub struct SubscribeUpdate {
    pub priority: u64,
    pub group_order: Option<GroupOrder>,
    pub group_expires: Option<u64>,
    pub group_min: Option<u64>,
    pub group_max: Option<u64>,
}

/// The integers a frame header is written as.
pub open spec fn frame_ints(m: Frame) -> Seq<u64> {
    seq![m.size]
}

/// The integers a group drop is written as.
pub open spec fn group_drop_ints(m: GroupDrop) -> Seq<u64> {
    seq![m.sequence, m.count, m.code]
}

/// The integers a group header is written as.
pub open spec fn group_header_ints(m: GroupHeader) -> Seq<u64> {
    seq![m.subscribe, m.sequence, opt_int(m.expires)]
}

/// The integers an info reply is written as.
pub open spec fn info_ints(m: Info) -> Seq<u64> {
    seq![m.priority, opt_int(m.group_latest), order_int(m.group_order), opt_int(m.group_expires)]
}

/// The integers a subscription update is written as.
pub open spec fn update_ints(m: SubscribeUpdate) -> Seq<u64> {
    seq![
        m.priority,
        order_int(m.group_order),
        opt_int(m.group_expires),
        opt_int(m.group_min),
        opt_int(m.group_max),
    ]
}

/// The frame header read from its integers.
pub open spec fn frame_of(vs: Seq<u64>) -> Option<Frame> {
    Some(Frame { size: vs[0] })
}

/// The group drop read from its integers.
pub open spec fn group_drop_of(vs: Seq<u64>) -> Option<GroupDrop> {
    Some(GroupDrop { sequence: vs[0], count: vs[1], code: vs[2] })
}

/// The group header read from its integers.
pub open spec fn group_header_of(vs: Seq<u64>) -> Option<GroupHeader> {
    Some(GroupHeader { subscribe: vs[0], sequence: vs[1], expires: int_opt(vs[2]) })
}

/// The info reply read from its integers, if its order is valid.
pub open spec fn info_of(vs: Seq<u64>) -> Option<Info> {
    match int_order(vs[2]) {
        None => None,
        Some(o) => Some(
            Info {
                priority: vs[0],
                group_latest: int_opt(vs[1]),
                group_order: o,
                group_expires: int_opt(vs[3]),
            },
        ),
    }
}

/// The subscription update read from its integers, if its order is valid.
pub open spec fn update_of(vs: Seq<u64>) -> Option<SubscribeUpdate> {
    match int_order(vs[1]) {
        None => None,
        Some(o) => Some(
            SubscribeUpdate {
                priority: vs[0],
                group_order: o,
                group_expires: int_opt(vs[2]),
                group_min: int_opt(vs[3]),
                group_max: int_opt(vs[4]),
            },
        ),
    }
}

/// The message of `k` integers at the start of `s`, as `of` reads it, and
/// its length.
pub open spec fn parse_with<M>(s: Seq<u8>, k: nat, of: spec_fn(Seq<u64>) -> Option<M>) -> Option<(M, nat)> {
    match parse_ints(s, k) {
        None => None,
        Some((vs, n)) => match of(vs) {
            None => None,
            Some(m) => Some((m, n)),
        },
    }
}

/// Whether `r` is what decoding gives where the spec parse gives `p`.
pub open spec fn decoded<M>(p: Option<(M, nat)>, r: Result<(M, usize), ServeError>) -> bool {
    match p {
        Some((m, n)) => r == Ok::<(M, usize), ServeError>((m, n as usize)),
        None => r == Err::<(M, usize), ServeError>(ServeError::Decode),
    }
}

impl Frame {
    /// Appends the encoding of the header.
    pub fn encode(&self, out: &mut Vec<u8>) -> (r: Result<(), ServeError>)
        ensures
            all_encodable(frame_ints(*self)) ==> r is Ok && final(out)@ == old(out)@ + ints_spec(
                frame_ints(*self)),
            !all_encodable(frame_ints(*self)) ==> r is Err && final(out)@ == old(out)@,
    {
        let vs = vec![self.size];
        assert(vs@ == frame_ints(*self));
        encode_ints(vs.as_slice(), out)
    }

    /// Reads a header at `pos` of `buf`.
    pub fn decode(buf: &[u8], pos: usize) -> (r: Result<(Frame, usize), ServeError>)
        requires
            pos <= buf@.len(),
        ensures
            decoded(parse_with(buf@.skip(pos as int), 1, |vs| frame_of(vs)), r),
    {
        match decode_ints(buf, pos, 1) {
            None => Err(ServeError::Decode),
            Some((vs, n)) => Ok((Frame { size: vs[0] }, n)),
        }
    }
}

impl GroupDrop {
    /// Appends the encoding of the message.
    pub fn encode(&self, out: &mut Vec<u8>) -> (r: Result<(), ServeError>)
        ensures
            all_encodable(group_drop_ints(*self)) ==> r is Ok && final(out)@ == old(out)@
                + ints_spec(group_drop_ints(*self)),
            !all_encodable(group_drop_ints(*self)) ==> r is Err && final(out)@ == old(out)@,
    {
        let vs = vec![self.sequence, self.count, self.code];
        assert(vs@ == group_drop_ints(*self));
        encode_ints(vs.as_slice(), out)
    }

    /// Reads the message at `pos` of `buf`.
    pub fn decode(buf: &[u8], pos: usize) -> (r: Result<(GroupDrop, usize), ServeError>)
        requires
            pos <= buf@.len(),
        ensures
            decoded(parse_with(buf@.skip(pos as int), 3, |vs| group_drop_of(vs)), r),
    {
        match decode_ints(buf, pos, 3) {
            None => Err(ServeError::Decode),
            Some((vs, n)) => Ok((GroupDrop { sequence: vs[0], count: vs[1], code: vs[2] }, n)),
        }
    }
}

impl GroupHeader {
    /// Whether every field can be written.
    pub open spec fn encodable(self) -> bool {
        opt_ok(self.expires) && all_encodable(group_header_ints(self))
    }

    /// Appends the encoding of the header.
    pub fn encode(&self, out: &mut Vec<u8>) -> (r: Result<(), ServeError>)
        ensures
            self.encodable() ==> r is Ok && final(out)@ == old(out)@ + ints_spec(
                group_header_ints(*self)),
            !self.encodable() ==> r is Err && final(out)@ == old(out)@,
    {
        if let Some(e) = self.expires {
            if e >= VARINT_BOUND - 1 {
                return Err(ServeError::Encode);
            }
        }
        let vs = vec![self.subscribe, self.sequence, opt_to_int(self.expires)];
        assert(vs@ == group_header_ints(*self));
        encode_ints(vs.as_slice(), out)
    }

    /// Reads a header at `pos` of `buf`.
    pub fn decode(buf: &[u8], pos: usize) -> (r: Result<(GroupHeader, usize), ServeError>)
        requires
            pos <= buf@.len(),
        ensures
            decoded(parse_with(buf@.skip(pos as int), 3, |vs| group_header_of(vs)), r),
    {
        match decode_ints(buf, pos, 3) {
            None => Err(ServeError::Decode),
            Some((vs, n)) => Ok(
                (GroupHeader { subscribe: vs[0], sequence: vs[1], expires: int_to_opt(vs[2]) }, n),
            ),
        }
    }
}

impl Info {
    /// Whether every field can be written.
    pub open spec fn encodable(self) -> bool {
        opt_ok(self.group_latest) && opt_ok(self.group_expires) && all_encodable(info_ints(self))
    }

    /// Appends the encoding of the reply.
    pub fn encode(&self, out: &mut Vec<u8>) -> (r: Result<(), ServeError>)
        ensures
            self.encodable() ==> r is Ok && final(out)@ == old(out)@ + ints_spec(info_ints(*self)),
            !self.encodable() ==> r is Err && final(out)@ == old(out)@,
    {
        if let Some(v) = self.group_latest {
            if v >= VARINT_BOUND - 1 {
                return Err(ServeError::Encode);
            }
        }
        if let Some(v) = self.group_expires {
            if v >= VARINT_BOUND - 1 {
                return Err(ServeError::Encode);
            }
        }
        let vs = vec![
            self.priority,
            opt_to_int(self.group_latest),
            order_to_int(self.group_order),
            opt_to_int(self.group_expires),
        ];
        assert(vs@ == info_ints(*self));
        encode_ints(vs.as_slice(), out)
    }

    /// Reads a reply at `pos` of `buf`.
    pub fn decode(buf: &[u8], pos: usize) -> (r: Result<(Info, usize), ServeError>)
        requires
            pos <= buf@.len(),
        ensures
            decoded(parse_with(buf@.skip(pos as int), 4, |vs| info_of(vs)), r),
    {
        match decode_ints(buf, pos, 4) {
            None => Err(ServeError::Decode),
            Some((vs, n)) => {
                let order = match int_to_order(vs[2]) {
                    Ok(o) => o,
                    Err(e) => {
                        return Err(e);
                    },
                };
                Ok(
                    (
                        Info {
                            priority: vs[0],
                            group_latest: int_to_opt(vs[1]),
                            group_order: order,
                            group_expires: int_to_opt(vs[3]),
                        },
                        n,
                    ),
                )
            },
        }
    }
}

impl SubscribeUpdate {
    /// Whether every field can be written.
    pub open spec fn encodable(self) -> bool {
        &&& opt_ok(self.group_expires)
        &&& opt_ok(self.group_min)
        &&& opt_ok(self.group_max)
        &&& all_encodable(update_ints(self))
    }

    /// Appends the encoding of the update.
    pub fn encode(&self, out: &mut Vec<u8>) -> (r: Result<(), ServeError>)
        ensures
            self.encodable() ==> r is Ok && final(out)@ == old(out)@ + ints_spec(update_ints(*self)),
            !self.encodable() ==> r is Err && final(out)@ == old(out)@,
    {
        if let Some(v) = self.group_expires {
            if v >= VARINT_BOUND - 1 {
                return Err(ServeError::Encode);
            }
        }
        if let Some(v) = self.group_min {
            if v >= VARINT_BOUND - 1 {
                return Err(ServeError::Encode);
            }
        }
        if let Some(v) = self.group_max {
            if v >= VARINT_BOUND - 1 {
                return Err(ServeError::Encode);
            }
        }
        let vs = vec![
            self.priority,
            order_to_int(self.group_order),
            opt_to_int(self.group_expires),
            opt_to_int(self.group_min),
            opt_to_int(self.group_max),
        ];
        assert(vs@ == update_ints(*self));
        encode_ints(vs.as_slice(), out)
    }

    /// Reads an update at `pos` of `buf`.
    pub fn decode(buf: &[u8], pos: usize) -> (r: Result<(SubscribeUpdate, usize), ServeError>)
        requires
            pos <= buf@.len(),
        ensures
            decoded(parse_with(buf@.skip(pos as int), 5, |vs| update_of(vs)), r),
    {
        match decode_ints(buf, pos, 5) {
            None => Err(ServeError::Decode),
            Some((vs, n)) => {
                let order = match int_to_order(vs[1]) {
                    Ok(o) => o,
                    Err(e) => {
                        return Err(e);
                    },
                };
                Ok(
                    (
                        SubscribeUpdate {
                            priority: vs[0],
                            group_order: order,
                            group_expires: int_to_opt(vs[2]),
                            group_min: int_to_opt(vs[3]),
                            group_max: int_to_opt(vs[4]),
                        },
                        n,
                    ),
                )
            },
        }
    }
}

/// Reading a frame header back from its encoding gives the same header.
pub proof fn lemma_frame_round_trip(m: Frame, rest: Seq<u8>)
    requires
        all_encodable(frame_ints(m)),
    ensures
        parse_with(ints_spec(frame_ints(m)) + rest, 1, |vs| frame_of(vs)) == Some(
            (m, ints_spec(frame_ints(m)).len()),
        ),
{
    lemma_ints_round_trip(frame_ints(m), rest);
}

/// Reading a group drop back from its encoding gives the same message.
pub proof fn lemma_group_drop_round_trip(m: GroupDrop, rest: Seq<u8>)
    requires
        all_encodable(group_drop_ints(m)),
    ensures
        parse_with(ints_spec(group_drop_ints(m)) + rest, 3, |vs| group_drop_of(vs)) == Some(
            (m, ints_spec(group_drop_ints(m)).len()),
        ),
{
    lemma_ints_round_trip(group_drop_ints(m), rest);
}

/// Reading a group header back from its encoding gives the same header.
pub proof fn lemma_group_header_round_trip(m: GroupHeader, rest: Seq<u8>)
    requires
        m.encodable(),
    ensures
        parse_with(ints_spec(group_header_ints(m)) + rest, 3, |vs| group_header_of(vs)) == Some(
            (m, ints_spec(group_header_ints(m)).len()),
        ),
{
    lemma_ints_round_trip(group_header_ints(m), rest);
}

/// Reading an info reply back from its encoding gives the same reply.
pub proof fn lemma_info_round_trip(m: Info, rest: Seq<u8>)
    requires
        m.encodable(),
    ensures
        parse_with(ints_spec(info_ints(m)) + rest, 4, |vs| info_of(vs)) == Some(
            (m, ints_spec(info_ints(m)).len()),
        ),
{
    lemma_ints_round_trip(info_ints(m), rest);
}

/// Reading a subscription update back from its encoding gives the same update.
pub proof fn lemma_update_round_trip(m: SubscribeUpdate, rest: Seq<u8>)
    requires
        m.encodable(),
    ensures
        parse_with(ints_spec(update_ints(m)) + rest, 5, |vs| update_of(vs)) == Some(
            (m, ints_spec(update_ints(m)).len()),
        ),
{
    lemma_ints_round_trip(update_ints(m), rest);
}

/// An announcement of a broadcast.
pub struct Announce {
    /// The broadcast's name, as UTF-8.
    pub broadcast: Vec<u8>,
}

/// The reply that accepts an announcement; it has no fields.
#[derive(Debug, Clone, Copy, PartialEq, Eq, Structural)]
pub struct AnnounceOk {}

impl Announce {
    /// Appends the encoding of the announcement.
    pub fn encode(&self, out: &mut Vec<u8>) -> (r: Result<(), ServeError>)
        ensures
            self.broadcast@.len() < VARINT_BOUND ==> r is Ok && final(out)@ == old(out)@
                + bytes_spec(self.broadcast@),
            self.broadcast@.len() >= VARINT_BOUND ==> r is Err && final(out)@ == old(out)@,
    {
        encode_bytes(self.broadcast.as_slice(), out)
    }

    /// Reads an announcement at `pos` of `buf`.
    pub fn decode(buf: &[u8], pos: usize) -> (r: Result<(Announce, usize), ServeError>)
        requires
            pos <= buf@.len(),
        ensures
            match parse_bytes(buf@.skip(pos as int)) {
                Some((b, n)) => r matches Ok((m, k)) && m.broadcast@ == b && k == n,
                None => r == Err::<(Announce, usize), ServeError>(ServeError::Decode),
            },
    {
        match decode_bytes(buf, pos) {
            None => Err(ServeError::Decode),
            Some((b, n)) => Ok((Announce { broadcast: b }, n)),
        }
    }
}

impl AnnounceOk {
    /// The reply is written as nothing at all.
    pub fn encode(&self, out: &mut Vec<u8>) -> (r: Result<(), ServeError>)
        ensures
            r is Ok && final(out)@ == old(out)@,
    {
        Ok(())
    }

    /// Reads the reply, which takes no bytes.
    pub fn decode(buf: &[u8], pos: usize) -> (r: Result<(AnnounceOk, usize), ServeError>)
        ensures
            r == Ok::<(AnnounceOk, usize), ServeError>((AnnounceOk {}, 0)),
    {
        Ok((AnnounceOk {}, 0))
    }
}

/// A request for a track of a broadcast.
pub struct Subscribe {
    pub id: u64,
    /// The broadcast's name, as UTF-8.
    pub broadcast: Vec<u8>,
    /// The track's name, as UTF-8.
    pub track: Vec<u8>,
    pub priority: Option<u64>,
    pub group_order: Option<GroupOrder>,
    pub group_expires: Option<u64>,
    pub group_min: Option<u64>,
    pub group_max: Option<u64>,
}

/// What a subscription request holds.
pub struct SubscribeView {
    pub id: u64,
    pub broadcast: Seq<u8>,
    pub track: Seq<u8>,
    pub priority: Option<u64>,
    pub group_order: Option<GroupOrder>,
    pub group_expires: Option<u64>,
    pub group_min: Option<u64>,
    pub group_max: Option<u64>,
}

impl View for Subscribe {
    type V = SubscribeView;

    open spec fn view(&self) -> SubscribeView {
        SubscribeView {
            id: self.id,
            broadcast: self.broadcast@,
            track: self.track@,
            priority: self.priority,
            group_order: self.group_order,
            group_expires: self.group_expires,
            group_min: self.group_min,
            group_max: self.group_max,
        }
    }
}

/// The integers that follow the two names of a subscription request.
pub open spec fn subscribe_tail(m: SubscribeView) -> Seq<u64> {
    seq![
        opt_int(m.priority),
        order_int(m.group_order),
        opt_int(m.group_expires),
        opt_int(m.group_min),
        opt_int(m.group_max),
    ]
}

/// The encoding of a subscription request: its id, the two names, then the
/// options.
pub open spec fn subscribe_spec(m: SubscribeView) -> Seq<u8> {
    ints_spec(seq![m.id]) + bytes_spec(m.broadcast) + bytes_spec(m.track) + ints_spec(
        subscribe_tail(m),
    )
}

/// Whether every field of a subscription request can be written.
pub open spec fn subscribe_encodable(m: SubscribeView) -> bool {
    &&& m.id < VARINT_BOUND
    &&& m.broadcast.len() < VARINT_BOUND
    &&& m.track.len() < VARINT_BOUND
    &&& opt_ok(m.priority)
    &&& opt_ok(m.group_expires)
    &&& opt_ok(m.group_min)
    &&& opt_ok(m.group_max)
    &&& all_encodable(subscribe_tail(m))
}

/// The subscription request at the start of `s` and its length.
pub open spec fn parse_subscribe(s: Seq<u8>) -> Option<(SubscribeView, nat)> {
    match parse_ints(s, 1) {
        None => None,
        Some((ids, a)) => match parse_bytes(s.skip(a as int)) {
            None => None,
            Some((broadcast, b)) => match parse_bytes(s.skip((a + b) as int)) {
                None => None,
                Some((track, c)) => match parse_ints(s.skip((a + b + c) as int), 5) {
                    None => None,
                    Some((vs, d)) => match int_order(vs[1]) {
                        None => None,
                        Some(order) => Some(
                            (
                                SubscribeView {
                                    id: ids[0],
                                    broadcast,
                                    track,
                                    priority: int_opt(vs[0]),
                                    group_order: order,
                                    group_expires: int_opt(vs[2]),
                                    group_min: int_opt(vs[3]),
                                    group_max: int_opt(vs[4]),
                                },
                                a + b + c + d,
                            ),
                        ),
                    },
                },
            },
        },
    }
}

impl Subscribe {
    /// Appends the encoding of the request.
    pub fn encode(&self, out: &mut Vec<u8>) -> (r: Result<(), ServeError>)
        ensures
            subscribe_encodable(self@) ==> r is Ok && final(out)@ == old(out)@ + subscribe_spec(
                self@,
            ),
            !subscribe_encodable(self@) ==> r is Err,
    {
        if self.id >= VARINT_BOUND || self.broadcast.len() as u64 >= VARINT_BOUND
            || self.track.len() as u64 >= VARINT_BOUND {
            return Err(ServeError::Encode);
        }
        let opts = [self.priority, self.group_expires, self.group_min, self.group_max];
        let mut i: usize = 0;
        while i < 4
            invariant
                0 <= i <= 4,
                opts@ == seq![self.priority, self.group_expires, self.group_min, self.group_max],
                forall|j: int| 0 <= j < i ==> opt_ok(#[trigger] opts@[j]),
            decreases 4 - i,
        {
            if let Some(v) = opts[i] {
                if v >= VARINT_BOUND - 1 {
                    return Err(ServeError::Encode);
                }
            }
            i = i + 1;
        }
        assert(opt_ok(opts@[0]) && opt_ok(opts@[1]) && opt_ok(opts@[2]) && opt_ok(opts@[3]));
        let ghost start = out@;
        let id = vec![self.id];
        let _ = encode_ints(id.as_slice(), out);
        let _ = encode_bytes(self.broadcast.as_slice(), out);
        let _ = encode_bytes(self.track.as_slice(), out);
        let tail = vec![
            opt_to_int(self.priority),
            order_to_int(self.group_order),
            opt_to_int(self.group_expires),
            opt_to_int(self.group_min),
            opt_to_int(self.group_max),
        ];
        assert(tail@ == subscribe_tail(self@));
        assert(all_encodable(id@));
        let r = encode_ints(tail.as_slice(), out);
        assert(id@ == seq![self.id]);
        assert(out@ =~= start + subscribe_spec(self@));
        r
    }

    /// Reads a request at `pos` of `buf`.
    pub fn decode(buf: &[u8], pos: usize) -> (r: Result<(Subscribe, usize), ServeError>)
        requires
            pos <= buf@.len(),
        ensures
            match parse_subscribe(buf@.skip(pos as int)) {
                Some((m, n)) => r matches Ok((got, k)) && got@ == m && k == n,
                None => r == Err::<(Subscribe, usize), ServeError>(ServeError::Decode),
            },
    {
        let ghost s = buf@.skip(pos as int);
        let len = buf.len();
        let (ids, a) = match decode_ints(buf, pos, 1) {
            None => return Err(ServeError::Decode),
            Some(x) => x,
        };
        assert(buf@.skip(pos + a) =~= s.skip(a as int));
        assert(pos + a <= len);
        let (broadcast, b) = match decode_bytes(buf, pos + a) {
            None => return Err(ServeError::Decode),
            Some(x) => x,
        };
        assert(buf@.skip(pos + a + b) =~= s.skip((a + b) as int));
        assert(pos + a + b <= len);
        let (track, c) = match decode_bytes(buf, pos + a + b) {
            None => return Err(ServeError::Decode),
            Some(x) => x,
        };
        assert(buf@.skip(pos + a + b + c) =~= s.skip((a + b + c) as int));
        assert(pos + a + b + c <= len);
        let (vs, d) = match decode_ints(buf, pos + a + b + c, 5) {
            None => return Err(ServeError::Decode),
            Some(x) => x,
        };
        let order = match int_to_order(vs[1]) {
            Ok(o) => o,
            Err(e) => return Err(e),
        };
        let m = Subscribe {
            id: ids[0],
            broadcast,
            track,
            priority: int_to_opt(vs[0]),
            group_order: order,
            group_expires: int_to_opt(vs[2]),
            group_min: int_to_opt(vs[3]),
            group_max: int_to_opt(vs[4]),
        };
        Ok((m, a + b + c + d))
    }
}

/// Reading an announcement back from its encoding gives the same name.
pub proof fn lemma_announce_round_trip(broadcast: Seq<u8>, rest: Seq<u8>)
    requires
        broadcast.len() < VARINT_BOUND,
    ensures
        parse_bytes(bytes_spec(broadcast) + rest) == Some((broadcast, bytes_spec(broadcast).len())),
{
    lemma_bytes_round_trip(broadcast, rest);
}

/// Reading a subscription request back from its encoding gives the same
/// request.
#[verifier::rlimit(50)]
pub proof fn lemma_subscribe_round_trip(m: SubscribeView, rest: Seq<u8>)
    requires
        subscribe_encodable(m),
    ensures
        parse_subscribe(subscribe_spec(m) + rest) == Some((m, subscribe_spec(m).len())),
{
    let p0 = ints_spec(seq![m.id]);
    let p1 = bytes_spec(m.broadcast);
    let p2 = bytes_spec(m.track);
    let tail = subscribe_tail(m);
    let p3 = ints_spec(tail);
    let r2 = p3 + rest;
    let r1 = p2 + r2;
    let r0 = p1 + r1;
    let s = subscribe_spec(m) + rest;
    assert(s =~= p0 + r0);
    let a = p0.len();
    let b = p1.len();
    let c = p2.len();
    assert(all_encodable(seq![m.id]));
    lemma_ints_round_trip(seq![m.id], r0);
    assert(s.skip(a as int) =~= r0);
    lemma_bytes_round_trip(m.broadcast, r1);
    assert(s.skip((a + b) as int) =~= r1);
    lemma_bytes_round_trip(m.track, r2);
    assert(s.skip((a + b + c) as int) =~= r2);
    lemma_ints_round_trip(tail, rest);
    assert(int_order(tail[1]) == Some(m.group_order));
    assert(int_opt(tail[0]) == m.priority);
    assert(int_opt(tail[2]) == m.group_expires);
    assert(int_opt(tail[3]) == m.group_min);
    assert(int_opt(tail[4]) == m.group_max);
    assert(seq![m.id][0] == m.id);
}

/// The extension key under which a handshake carries the role.
pub const ROLE_KEY: u64 = 0;

/// The role that an extension value stands for.
pub open spec fn role_of(code: u64) -> Option<Role> {
    if code == 1 {
        Some(Role::Publisher)
    } else if code == 2 {
        Some(Role::Subscriber)
    } else if code == 3 {
        Some(Role::Both)
    } else if code == 4 {
        Some(Role::Any)
    } else {
        None
    }
}

/// The integers a server's handshake reply is written as: its version, one
/// extension, the role key, and the role as a one-byte value.
pub open spec fn server_ints(m: ServerReply) -> Seq<u64> {
    seq![m.version, 1, ROLE_KEY, 1, role_code(m.role)]
}

/// The server's reply read from its integers, if it carries a role.
pub open spec fn server_of(vs: Seq<u64>) -> Option<ServerReply> {
    if vs[1] == 1 && vs[2] == ROLE_KEY && vs[3] == 1 {
        match role_of(vs[4]) {
            Some(role) => Some(ServerReply { version: vs[0], role }),
            None => None,
        }
    } else {
        None
    }
}

/// Appends the encoding of a server's handshake reply.
pub fn encode_server(m: &ServerReply, out: &mut Vec<u8>) -> (r: Result<(), ServeError>)
    ensures
        all_encodable(server_ints(*m)) ==> r is Ok && final(out)@ == old(out)@ + ints_spec(
            server_ints(*m)),
        !all_encodable(server_ints(*m)) ==> r is Err && final(out)@ == old(out)@,
{
    let vs = vec![m.version, 1, ROLE_KEY, 1, m.role.to_code()];
    assert(vs@ == server_ints(*m));
    encode_ints(vs.as_slice(), out)
}

/// Reads a server's handshake reply at `pos` of `buf`.
pub fn decode_server(buf: &[u8], pos: usize) -> (r: Result<(ServerReply, usize), ServeError>)
    requires
        pos <= buf@.len(),
    ensures
        decoded(parse_with(buf@.skip(pos as int), 5, |vs| server_of(vs)), r),
{
    match decode_ints(buf, pos, 5) {
        None => Err(ServeError::Decode),
        Some((vs, n)) => {
            if vs[1] != 1 || vs[2] != ROLE_KEY || vs[3] != 1 {
                return Err(ServeError::Decode);
            }
            match Role::from_code(vs[4]) {
                Some(role) => Ok((ServerReply { version: vs[0], role }, n)),
                None => Err(ServeError::Decode),
            }
        },
    }
}

/// Reading a server's handshake reply back from its encoding gives the same reply.
pub proof fn lemma_server_round_trip(m: ServerReply, rest: Seq<u8>)
    requires
        all_encodable(server_ints(m)),
    ensures
        parse_with(ints_spec(server_ints(m)) + rest, 5, |vs| server_of(vs)) == Some(
            (m, ints_spec(server_ints(m)).len()),
        ),
{
    lemma_ints_round_trip(server_ints(m), rest);
}

/// The integers after a client's versions: no extension, or one that
/// carries the role.
pub open spec fn client_ext_ints(role: Option<Role>) -> Seq<u64> {
    match role {
        None => seq![0],
        Some(r) => seq![1, ROLE_KEY, 1, role_code(r)],
    }
}

/// The encoding of a client's handshake offer: the number of versions, the
/// versions, then its extensions.
pub open spec fn client_spec(versions: Seq<u64>, role: Option<Role>) -> Seq<u8> {
    ints_spec(seq![versions.len() as u64]) + ints_spec(versions) + ints_spec(client_ext_ints(role))
}

/// The client's offer at the start of `s`: its versions, its role, and its length.
pub open spec fn parse_client(s: Seq<u8>) -> Option<(Seq<u64>, Option<Role>, nat)> {
    match parse_ints(s, 1) {
        None => None,
        Some((count, a)) => match parse_ints(s.skip(a as int), count[0] as nat) {
            None => None,
            Some((versions, b)) => match parse_ints(s.skip((a + b) as int), 1) {
                None => None,
                Some((ext, c)) => if ext[0] == 0 {
                    Some((versions, None, a + b + c))
                } else if ext[0] == 1 {
                    match parse_ints(s.skip((a + b + c) as int), 3) {
                        None => None,
                        Some((kv, d)) => if kv[0] == ROLE_KEY && kv[1] == 1 {
                            match role_of(kv[2]) {
                                Some(role) => Some((versions, Some(role), a + b + c + d)),
                                None => None,
                            }
                        } else {
                            None
                        },
                    }
                } else {
                    None
                },
            },
        },
    }
}

/// Appends the encoding of a client's handshake offer.
pub fn encode_client(m: &Client, out: &mut Vec<u8>) -> (r: Result<(), ServeError>)
    ensures
        m.versions@.len() < VARINT_BOUND && all_encodable(m.versions@) ==> r is Ok && final(out)@
            == old(out)@ + client_spec(m.versions@, m.role),
        !(m.versions@.len() < VARINT_BOUND && all_encodable(m.versions@)) ==> r is Err,
{
    let n = m.versions.len() as u64;
    if n >= VARINT_BOUND {
        return Err(ServeError::Encode);
    }
    let ghost start = out@;
    let count = vec![n];
    assert(all_encodable(count@));
    let _ = encode_ints(count.as_slice(), out);
    encode_ints(m.versions.as_slice(), out)?;
    let ext = match m.role {
        None => vec![0],
        Some(r) => vec![1, ROLE_KEY, 1, r.to_code()],
    };
    assert(ext@ == client_ext_ints(m.role));
    assert(all_encodable(ext@));
    let _ = encode_ints(ext.as_slice(), out);
    assert(count@ == seq![m.versions@.len() as u64]);
    assert(out@ =~= start + client_spec(m.versions@, m.role));
    Ok(())
}

/// Reads a client's handshake offer at `pos` of `buf`.
pub fn decode_client(buf: &[u8], pos: usize) -> (r: Result<(Client, usize), ServeError>)
    requires
        pos <= buf@.len(),
    ensures
        match parse_client(buf@.skip(pos as int)) {
            Some((versions, role, n)) => r matches Ok((c, k)) && c.versions@ == versions && c.role
                == role && k == n,
            None => r == Err::<(Client, usize), ServeError>(ServeError::Decode),
        },
{
    let ghost s = buf@.skip(pos as int);
    let len = buf.len();
    let (count, a) = match decode_ints(buf, pos, 1) {
        None => return Err(ServeError::Decode),
        Some(x) => x,
    };
    assert(buf@.skip(pos + a) =~= s.skip(a as int));
    if count[0] > usize::MAX as u64 {
        proof {
            lemma_parse_ints_bound(s.skip(a as int), count[0] as nat);
        }
        return Err(ServeError::Decode);
    }
    let (versions, b) = match decode_ints(buf, pos + a, count[0] as usize) {
        None => return Err(ServeError::Decode),
        Some(x) => x,
    };
    assert(pos + a + b <= len);
    assert(buf@.skip(pos + a + b) =~= s.skip((a + b) as int));
    let (ext, c) = match decode_ints(buf, pos + a + b, 1) {
        None => return Err(ServeError::Decode),
        Some(x) => x,
    };
    assert(pos + a + b + c <= len);
    if ext[0] == 0 {
        return Ok((Client { versions, role: None }, a + b + c));
    }
    if ext[0] != 1 {
        return Err(ServeError::Decode);
    }
    assert(buf@.skip(pos + a + b + c) =~= s.skip((a + b + c) as int));
    let (kv, d) = match decode_ints(buf, pos + a + b + c, 3) {
        None => return Err(ServeError::Decode),
        Some(x) => x,
    };
    if kv[0] != ROLE_KEY || kv[1] != 1 {
        return Err(ServeError::Decode);
    }
    match Role::from_code(kv[2]) {
        Some(role) => Ok((Client { versions, role: Some(role) }, a + b + c + d)),
        None => Err(ServeError::Decode),
    }
}

/// Reading a client's handshake offer back from its encoding gives the same
/// versions and role.
#[verifier::rlimit(50)]
pub proof fn lemma_client_round_trip(versions: Seq<u64>, role: Option<Role>, rest: Seq<u8>)
    requires
        versions.len() < VARINT_BOUND,
        all_encodable(versions),
    ensures
        parse_client(client_spec(versions, role) + rest) == Some(
            (versions, role, client_spec(versions, role).len()),
        ),
{
    let count = seq![versions.len() as u64];
    let ext = client_ext_ints(role);
    let p0 = ints_spec(count);
    let p1 = ints_spec(versions);
    let p2 = ints_spec(ext);
    let r1 = p2 + rest;
    let r0 = p1 + r1;
    let s = client_spec(versions, role) + rest;
    assert(s =~= p0 + r0);
    assert(all_encodable(count));
    assert(all_encodable(ext));
    lemma_ints_round_trip(count, r0);
    assert(s.skip(p0.len() as int) =~= r0);
    assert(count[0] as nat == versions.len());
    lemma_ints_round_trip(versions, r1);
    assert(s.skip((p0.len() + p1.len()) as int) =~= r1);
    match role {
        None => {
            lemma_ints_round_trip(ext, rest);
        },
        Some(r) => {
            let e1 = seq![1u64];
            let kv = seq![ROLE_KEY, 1, role_code(r)];
            assert(ext =~= e1 + kv);
            assert(all_encodable(e1));
            assert(all_encodable(kv));
            lemma_ints_concat(e1, kv);
            assert(r1 =~= ints_spec(e1) + (ints_spec(kv) + rest));
            lemma_ints_round_trip(e1, ints_spec(kv) + rest);
            assert(s.skip((p0.len() + p1.len() + ints_spec(e1).len()) as int) =~= ints_spec(kv) + rest);
            lemma_ints_round_trip(kv, rest);
        },
    }
}

} // verus!
