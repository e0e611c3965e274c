//! The multiplexor's state: the open streams, their flow control, and what the
//! multiplexor does with each packet and each request from its streams.
use std::collections::HashMap;

use vstd::prelude::*;

use crate::error::WispError;
use crate::extensions::{extensions_view, AnyExtensionSpec, AnyProtocolExtension};
use crate::packet::{
    ClosePacket, CloseReason, ConnectPacket, ConnectSpec, ContinuePacket, Packet, PacketSpec,
    PacketType, PacketTypeSpec, StreamType,
};
use crate::Role;

verus! {

broadcast use vstd::std_specs::hash::group_hash_axioms;

/// How a stream takes part in flow control.
#[derive(Copy, Clone, Eq, PartialEq, Debug, Structural)]
pub enum FlowControl {
    /// flow control completely disabled
    Disabled,
    /// flow control enabled
    /// - incoming: do not send buffer updates and no buffer
    /// - outgoing: track sent amount and wait
    EnabledTrackAmount,
    /// flow control enabled
    /// - incoming: send buffer updates and force buffer
    /// - outgoing: do not track sent amount and do not wait
    EnabledSendMessages,
}

/// Ninety percent of the buffer: once this many packets have been read, the
/// reader announces the room it has made.
pub open spec fn flow_target(buffer_size: u32) -> u32 {
    (buffer_size * 90 / 100) as u32
}

/// The flow control state of one stream.
#[derive(Copy, Clone, Debug, PartialEq, Eq, Structural)]
pub struct StreamInfo {
    pub id: u32,
    pub flow_status: FlowControl,
    pub target_flow_control: u32,
    /// Packets that may still be buffered by the peer (outgoing) or by us (incoming).
    pub flow_control: u32,
    /// The reason the stream was closed with.
    pub close_reason: CloseReason,
    /// The stream's writer waits for the peer to give room; the caller keeps
    /// its waker.
    pub writer_waiting: bool,
}

impl StreamInfo {
    pub fn new(id: u32, flow_status: FlowControl, buffer_size: u32) -> (r: Self)
        ensures
            flow_target(buffer_size) < u32::MAX,
            r == (StreamInfo {
                id,
                flow_status,
                target_flow_control: flow_target(buffer_size),
                flow_control: buffer_size,
                close_reason: CloseReason::Unknown,
                writer_waiting: false,
            }),
    {
        let target = ((buffer_size as u64) * 90) / 100;
        StreamInfo {
            id,
            flow_status,
            target_flow_control: target as u32,
            flow_control: buffer_size,
            close_reason: CloseReason::Unknown,
            writer_waiting: false,
        }
    }

    /// The writer found no room: it waits until the peer gives some.
    pub fn flow_register(&mut self)
        ensures
            *final(self) == (StreamInfo { writer_waiting: true, ..*old(self) }),
    {
        self.writer_waiting = true;
    }

    /// The peer gave room: the writer stops waiting. Returns whether it was
    /// waiting, that is whether its waker is to be woken.
    pub fn flow_wake(&mut self) -> (r: bool)
        ensures
            r == old(self).writer_waiting,
            *final(self) == (StreamInfo { writer_waiting: false, ..*old(self) }),
    {
        let was = self.writer_waiting;
        self.writer_waiting = false;
        was
    }

    pub fn flow_set(&mut self, amt: u32)
        ensures
            *final(self) == (StreamInfo { flow_control: amt, ..*old(self) }),
    {
        self.flow_control = amt;
    }

    /// Adds room, saturating at the largest `u32`, and returns the new amount.
    pub fn flow_add(&mut self, amt: u32) -> (r: u32)
        ensures
            r == if old(self).flow_control + amt > u32::MAX {
                u32::MAX
            } else {
                (old(self).flow_control + amt) as u32
            },
            *final(self) == (StreamInfo { flow_control: r, ..*old(self) }),
    {
        let new = self.flow_control.saturating_add(amt);
        self.flow_control = new;
        new
    }

    /// Takes room away, saturating at zero, and returns the new amount.
    pub fn flow_sub(&mut self, amt: u32) -> (r: u32)
        ensures
            r == if old(self).flow_control < amt {
                0
            } else {
                (old(self).flow_control - amt) as u32
            },
            *final(self) == (StreamInfo { flow_control: r, ..*old(self) }),
    {
        let new = self.flow_control.saturating_sub(amt);
        self.flow_control = new;
        new
    }

    /// Takes one packet's room away, saturating at zero.
    pub fn flow_dec(&mut self)
        ensures
            *final(self) == (StreamInfo {
                flow_control: if old(self).flow_control == 0 {
                    0
                } else {
                    (old(self).flow_control - 1) as u32
                },
                ..*old(self)
            }),
    {
        self.flow_sub(1);
    }

    pub fn flow_empty(&self) -> (r: bool)
        ensures
            r == (self.flow_control == 0),
    {
        self.flow_control == 0
    }

    pub fn get_reason(&self) -> (r: CloseReason)
        ensures
            r == self.close_reason,
    {
        self.close_reason
    }

    pub fn set_reason(&mut self, reason: CloseReason)
        ensures
            *final(self) == (StreamInfo { close_reason: reason, ..*old(self) }),
    {
        self.close_reason = reason;
    }

    /// The writer may hand the peer another packet: only streams that track
    /// the amount sent wait, and only when the peer has no room left.
    pub open spec fn spec_may_send(self) -> bool {
        !(self.flow_status == FlowControl::EnabledTrackAmount && self.flow_control == 0)
    }

    pub fn may_send(&self) -> (r: bool)
        ensures
            r == self.spec_may_send(),
    {
        !(self.flow_status == FlowControl::EnabledTrackAmount && self.flow_control == 0)
    }

    /// A data packet went out: streams that track the amount sent use up one
    /// packet of the peer's room.
    pub fn on_chunk_sent(&mut self)
        ensures
            old(self).flow_status == FlowControl::EnabledTrackAmount ==> *final(self)
                == (StreamInfo {
                flow_control: if old(self).flow_control == 0 {
                    0
                } else {
                    (old(self).flow_control - 1) as u32
                },
                ..*old(self)
            }),
            old(self).flow_status != FlowControl::EnabledTrackAmount ==> *final(self) == *old(self),
    {
        if self.flow_status == FlowControl::EnabledTrackAmount {
            self.flow_dec();
        }
    }

    /// The reader took a packet off a stream. Streams that send buffer updates
    /// count the packets read (a packet polled again after a pending write is
    /// counted once); once more than the target have been read, the room they
    /// made is given back and announced, and the count starts over. Returns
    /// the room to announce in a CONTINUE packet.
    pub fn on_chunk_read(&mut self, read_cnt: &mut u32, was_reading: bool) -> (r: Option<u32>)
        requires
            *old(read_cnt) <= old(self).target_flow_control,
            old(self).target_flow_control < u32::MAX,
        ensures
            final(self).id == old(self).id,
            final(self).flow_status == old(self).flow_status,
            final(self).target_flow_control == old(self).target_flow_control,
            final(self).close_reason == old(self).close_reason,
            *final(read_cnt) <= final(self).target_flow_control,
            ({
                let cnt = if old(self).flow_status == FlowControl::EnabledSendMessages
                    && !was_reading {
                    *old(read_cnt) + 1
                } else {
                    *old(read_cnt) as int
                };
                if old(self).flow_status == FlowControl::EnabledSendMessages && cnt
                    > old(self).target_flow_control {
                    let room = if old(self).flow_control + cnt > u32::MAX {
                        u32::MAX as int
                    } else {
                        old(self).flow_control + cnt
                    };
                    &&& r == Some(room as u32)
                    &&& final(self).flow_control == room
                    &&& *final(read_cnt) == 0
                } else {
                    &&& r is None
                    &&& final(self).flow_control == old(self).flow_control
                    &&& *final(read_cnt) == cnt
                }
            }),
    {
        if self.flow_status == FlowControl::EnabledSendMessages {
            if !was_reading {
                *read_cnt = *read_cnt + 1;
            }
            if *read_cnt > self.target_flow_control {
                let room = self.flow_add(*read_cnt);
                *read_cnt = 0;
                return Some(room);
            }
        }
        None
    }
}

/// The abstract state of a multiplexor.
pub struct MuxSpec {
    pub role: Role,
    pub streams: Map<u32, StreamInfo>,
    pub current_id: u32,
    pub buffer_size: u32,
    pub flow_stream_types: Seq<u8>,
    /// The multiplexor's task has been started.
    pub started: bool,
}

/// What the multiplexor asks its driver to do after taking in a packet.
#[derive(Clone, Debug)]
pub enum MuxAction {
    /// Nothing to do (the packet was for a stream that is gone).
    Nothing,
    /// The peer opened a stream: hand it to whoever accepts streams.
    NewStream(u32, ConnectPacket),
    /// Hand the data to the stream's reader; then report whether it was
    /// taken with `data_delivered`.
    DeliverData(u32, Vec<u8>),
    /// The peer made room on a stream: wake its writer.
    WakeWriter(u32),
    /// The peer closed a stream: tell its handles, with the stream's last state.
    StreamClosed(StreamInfo),
    /// The peer closed the whole connection.
    End,
}

/// The multiplexor's state.
pub struct MuxInner {
    pub role: Role,
    /// The open streams by id: std's `HashMap`, which vstd specifies for
    /// integer keys; which hasher it uses changes nothing the multiplexor
    /// does.
    streams: HashMap<u32, StreamInfo>,
    current_id: u32,
    buffer_size: u32,
    flow_stream_types: Vec<u8>,
    started: bool,
}

impl View for MuxInner {
    type V = MuxSpec;

    closed spec fn view(&self) -> MuxSpec {
        MuxSpec {
            role: self.role,
            streams: self.streams@,
            current_id: self.current_id,
            buffer_size: self.buffer_size,
            flow_stream_types: self.flow_stream_types@,
            started: self.started,
        }
    }
}

/// The stream types that get flow control: those the extensions ask for,
/// then TCP.
pub open spec fn spec_flow_stream_types(exts: Seq<AnyExtensionSpec>) -> Seq<u8>
    decreases exts.len(),
{
    if exts.len() == 0 {
        seq![StreamType::Tcp.spec_byte()]
    } else {
        exts[0].congestion_stream_types() + spec_flow_stream_types(exts.drop_first())
    }
}

/// The flow control a stream of type `ty` gets: the server sends buffer
/// updates, the client tracks what it sent; stream types without flow
/// control get none.
pub open spec fn spec_flow_control(role: Role, ty: StreamType, flow_stream_types: Seq<u8>) -> FlowControl {
    if flow_stream_types.contains(ty.spec_byte()) {
        match role {
            Role::Server => FlowControl::EnabledSendMessages,
            Role::Client => FlowControl::EnabledTrackAmount,
        }
    } else {
        FlowControl::Disabled
    }
}

impl MuxSpec {
    /// The state a stream starts in.
    pub open spec fn fresh_stream(self, id: u32, ty: StreamType) -> StreamInfo {
        StreamInfo {
            id,
            flow_status: spec_flow_control(self.role, ty, self.flow_stream_types),
            target_flow_control: flow_target(self.buffer_size),
            flow_control: self.buffer_size,
            close_reason: CloseReason::Unknown,
            writer_waiting: false,
        }
    }

    /// Every stream is filed under its own id.
    pub open spec fn wf(self) -> bool {
        forall|id: u32| #[trigger] self.streams.contains_key(id) ==> self.streams[id].id == id
    }

    /// The client allocates ids itself: every open stream has an id it handed out.
    pub open spec fn ids_allocated(self) -> bool {
        forall|id: u32| #[trigger] self.streams.contains_key(id) ==> 0 < id <= self.current_id
    }
}

/// What taking in a packet does to the state and what it asks for. Only the
/// shape of the action is stated here; `MuxInner::handle_packet` ties its
/// payloads to the packet.
pub open spec fn spec_handle_packet(s: MuxSpec, p: PacketSpec) -> (MuxSpec, Result<MuxActionSpec, WispError>) {
    match p.packet_type {
        PacketTypeSpec::Connect(c) => {
            let s2 = MuxSpec {
                streams: s.streams.insert(p.stream_id, s.fresh_stream(p.stream_id, c.stream_type)),
                ..s
            };
            match s.role {
                Role::Server => (s2, Ok(MuxActionSpec::NewStream(p.stream_id, c))),
                Role::Client => (s2, Err(WispError::InvalidPacketType(0x01))),
            }
        },
        PacketTypeSpec::Data(d) => if s.streams.contains_key(p.stream_id) {
            (s, Ok(MuxActionSpec::DeliverData(p.stream_id, d)))
        } else {
            (s, Ok(MuxActionSpec::Nothing))
        },
        PacketTypeSpec::Continue(c) => match s.role {
            Role::Server => (s, Err(WispError::InvalidPacketType(0x03))),
            Role::Client => if s.streams.contains_key(p.stream_id) && s.streams[p.stream_id].flow_status
                == FlowControl::EnabledTrackAmount {
                (
                    MuxSpec {
                        streams: s.streams.insert(
                            p.stream_id,
                            StreamInfo {
                                flow_control: c.buffer_remaining,
                                writer_waiting: false,
                                ..s.streams[p.stream_id]
                            },
                        ),
                        ..s
                    },
                    Ok(MuxActionSpec::WakeWriter(p.stream_id)),
                )
            } else {
                (s, Ok(MuxActionSpec::Nothing))
            },
        },
        PacketTypeSpec::Close(c) => if p.stream_id == 0 {
            (s, Ok(MuxActionSpec::End))
        } else if s.streams.contains_key(p.stream_id) {
            (
                MuxSpec { streams: s.streams.remove(p.stream_id), ..s },
                Ok(
                    MuxActionSpec::StreamClosed(
                        StreamInfo { close_reason: c.reason, ..s.streams[p.stream_id] },
                    ),
                ),
            )
        } else {
            (s, Ok(MuxActionSpec::Nothing))
        },
    }
}

/// The abstract content of an action.
pub enum MuxActionSpec {
    Nothing,
    NewStream(u32, ConnectSpec),
    DeliverData(u32, Seq<u8>),
    WakeWriter(u32),
    StreamClosed(StreamInfo),
    End,
}

/// A CLOSE on stream 0 ends the multiplexor and leaves the streams alone;
/// a CLOSE from the peer for an open stream removes it and reports it
/// closed with the peer's reason.
pub proof fn lemma_peer_close(s: MuxSpec, id: u32, reason: CloseReason)
    ensures
        ({
            let (s2, a) = spec_handle_packet(
                s,
                PacketSpec { stream_id: id, packet_type: PacketTypeSpec::Close(ClosePacket { reason }) },
            );
            &&& id == 0 ==> s2 == s && a == Ok::<MuxActionSpec, WispError>(MuxActionSpec::End)
            &&& (id != 0 && s.streams.contains_key(id)) ==> {
                &&& !s2.streams.contains_key(id)
                &&& a == Ok::<MuxActionSpec, WispError>(
                    MuxActionSpec::StreamClosed(StreamInfo { close_reason: reason, ..s.streams[id] }),
                )
            }
        }),
{
}

/// On the client, a CONTINUE for a stream that tracks what it sends sets
/// the room to the amount announced, stops the writer's wait, and the writer
/// may send again exactly when that amount is not zero.
pub proof fn lemma_continue_room(s: MuxSpec, id: u32, n: u32)
    requires
        s.role == Role::Client,
        s.streams.contains_key(id),
        s.streams[id].flow_status == FlowControl::EnabledTrackAmount,
    ensures
        ({
            let s2 = spec_handle_packet(
                s,
                PacketSpec {
                    stream_id: id,
                    packet_type: PacketTypeSpec::Continue(ContinuePacket { buffer_remaining: n }),
                },
            ).0;
            &&& s2.streams[id].flow_control == n
            &&& !s2.streams[id].writer_waiting
            &&& (s2.streams[id].spec_may_send() <==> n > 0)
        }),
{
}

/// A server never has the client's streams' room updated by the client:
/// a CONTINUE from the client is refused and changes nothing.
pub proof fn lemma_server_refuses_continue(s: MuxSpec, id: u32, n: u32)
    requires
        s.role == Role::Server,
    ensures
        spec_handle_packet(
            s,
            PacketSpec {
                stream_id: id,
                packet_type: PacketTypeSpec::Continue(ContinuePacket { buffer_remaining: n }),
            },
        ) == (s, Err::<MuxActionSpec, WispError>(WispError::InvalidPacketType(0x03))),
{
}

impl View for MuxAction {
    type V = MuxActionSpec;

    open spec fn view(&self) -> MuxActionSpec {
        match self {
            MuxAction::Nothing => MuxActionSpec::Nothing,
            MuxAction::NewStream(id, c) => MuxActionSpec::NewStream(*id, c@),
            MuxAction::DeliverData(id, d) => MuxActionSpec::DeliverData(*id, d@),
            MuxAction::WakeWriter(id) => MuxActionSpec::WakeWriter(*id),
            MuxAction::StreamClosed(i) => MuxActionSpec::StreamClosed(*i),
            MuxAction::End => MuxActionSpec::End,
        }
    }
}

/// Starting the multiplexor's task: it can be started once; a later start
/// fails with `MuxTaskStarted`.
pub open spec fn spec_start(s: MuxSpec) -> (MuxSpec, Result<(), WispError>) {
    if s.started {
        (s, Err(WispError::MuxTaskStarted))
    } else {
        (MuxSpec { started: true, ..s }, Ok(()))
    }
}

/// A multiplexor's task starts once: the first start succeeds, and starting
/// it a second time fails with `MuxTaskStarted`, leaving the state as it is.
pub proof fn lemma_second_start_fails(s: MuxSpec)
    requires
        !s.started,
    ensures
        spec_start(s).1 is Ok,
        spec_start(spec_start(s).0).1 == Err::<(), WispError>(WispError::MuxTaskStarted),
        spec_start(spec_start(s).0).0 == spec_start(s).0,
{
}

/// What taking in a DATA packet does: for an open stream, the packet's
/// payload is delivered, byte for byte, to that stream; for any other
/// stream nothing happens. Any other packet delivers nothing.
pub open spec fn data_handled(s: MuxSpec, p: PacketSpec, r: Result<MuxAction, WispError>) -> bool {
    match p.packet_type {
        PacketTypeSpec::Data(d) => if s.streams.contains_key(p.stream_id) {
            r matches Ok(MuxAction::DeliverData(id, got)) && id == p.stream_id && got@ == d
        } else {
            r matches Ok(MuxAction::Nothing)
        },
        _ => !(r matches Ok(MuxAction::DeliverData(..))),
    }
}

/// A DATA packet on an open stream is delivered to that stream with exactly
/// the packet's payload, and leaves the multiplexor's state as it is; a
/// DATA packet on a stream that is not open is dropped; only DATA packets
/// deliver data.
pub proof fn lemma_data_delivered(s: MuxSpec, p: PacketSpec)
    ensures
        p.packet_type is Data ==> spec_handle_packet(s, p).0 == s,
        forall|a: MuxActionSpec|
            spec_handle_packet(s, p).1 == Ok::<MuxActionSpec, WispError>(a) ==> match p.packet_type {
                PacketTypeSpec::Data(d) => if s.streams.contains_key(p.stream_id) {
                    a == MuxActionSpec::DeliverData(p.stream_id, d)
                } else {
                    a == MuxActionSpec::Nothing
                },
                _ => !(a is DeliverData),
            },
        p.packet_type is Data ==> spec_handle_packet(s, p).1 is Ok,
{
}

impl MuxInner {
    /// A multiplexor with no streams, for the extensions agreed on.
    pub fn new(role: Role, buffer_size: u32, extensions: &Vec<AnyProtocolExtension>) -> (r: Self)
        ensures
            r@ == (MuxSpec {
                role,
                streams: Map::empty(),
                current_id: 0,
                buffer_size,
                flow_stream_types: spec_flow_stream_types(extensions_view(extensions@)),
                started: false,
            }),
            r@.wf(),
            r@.ids_allocated(),
    {
        let ghost exts = extensions_view(extensions@);
        let mut types: Vec<u8> = Vec::new();
        let mut i: usize = extensions.len();
        assert(exts.skip(i as int) =~= Seq::<AnyExtensionSpec>::empty());
        types.push(StreamType::Tcp.to_byte());
        while i > 0
            invariant
                0 <= i <= extensions@.len(),
                exts == extensions_view(extensions@),
                types@ == spec_flow_stream_types(exts.skip(i as int)),
            decreases i,
        {
            i -= 1;
            let mut t = extensions[i].get_congestion_stream_types();
            let ghost tail = types@;
            t.append(&mut types);
            types = t;
            assert(exts.skip(i as int).drop_first() =~= exts.skip(i + 1));
        }
        assert(exts.skip(0) =~= exts);
        MuxInner {
            role,
            streams: HashMap::new(),
            current_id: 0,
            buffer_size,
            flow_stream_types: types,
            started: false,
        }
    }

    /// Starts the multiplexor's task (see `spec_start`).
    pub fn start(&mut self) -> (r: Result<(), WispError>)
        ensures
            final(self)@ == spec_start(old(self)@).0,
            r == spec_start(old(self)@).1,
    {
        if self.started {
            Err(WispError::MuxTaskStarted)
        } else {
            self.started = true;
            Ok(())
        }
    }

    /// The flow control a new stream of type `ty` gets.
    pub fn get_flow_control(&self, ty: StreamType) -> (r: FlowControl)
        ensures
            r == spec_flow_control(self@.role, ty, self@.flow_stream_types),
    {
        let b = ty.to_byte();
        let mut i: usize = 0;
        while i < self.flow_stream_types.len()
            invariant
                0 <= i <= self.flow_stream_types@.len(),
                b == ty.spec_byte(),
                forall|k: int| 0 <= k < i ==> self.flow_stream_types@[k] != b,
            decreases self.flow_stream_types@.len() - i,
        {
            if self.flow_stream_types[i] == b {
                assert(self@.flow_stream_types[i as int] == ty.spec_byte());
                return match self.role {
                    Role::Server => FlowControl::EnabledSendMessages,
                    Role::Client => FlowControl::EnabledTrackAmount,
                };
            }
            i += 1;
        }
        FlowControl::Disabled
    }

    /// The state of an open stream.
    pub fn stream(&self, id: u32) -> (r: Option<StreamInfo>)
        ensures
            match r {
                Some(i) => self@.streams.contains_key(id) && self@.streams[id] == i,
                None => !self@.streams.contains_key(id),
            },
    {
        match self.streams.get(&id) {
            Some(i) => Some(*i),
            None => None,
        }
    }

    /// Opens stream `id` of type `ty`, replacing any stream with that id.
    pub fn add_stream(&mut self, id: u32, ty: StreamType) -> (r: StreamInfo)
        requires
            old(self)@.wf(),
        ensures
            r == old(self)@.fresh_stream(id, ty),
            final(self)@ == (MuxSpec { streams: old(self)@.streams.insert(id, r), ..old(self)@ }),
            final(self)@.wf(),
    {
        let flow = self.get_flow_control(ty);
        let info = StreamInfo::new(id, flow, self.buffer_size);
        self.streams.insert(id, info);
        info
    }

    /// Opens a stream with the next id. Ids are handed out in increasing
    /// order, so the new one belongs to no open stream.
    pub fn create_stream(&mut self, ty: StreamType) -> (r: Result<StreamInfo, WispError>)
        requires
            old(self)@.wf(),
        ensures
            final(self)@.wf(),
            match r {
                Ok(info) => {
                    &&& old(self)@.current_id < u32::MAX
                    &&& info.id == old(self)@.current_id + 1
                    &&& info == old(self)@.fresh_stream(info.id, ty)
                    &&& final(self)@ == MuxSpec {
                        streams: old(self)@.streams.insert(info.id, info),
                        current_id: info.id,
                        ..old(self)@
                    }
                    &&& (old(self)@.ids_allocated() ==> !old(self)@.streams.contains_key(info.id)
                        && final(self)@.ids_allocated())
                },
                Err(e) => old(self)@.current_id == u32::MAX && e == WispError::MaxStreamCountReached
                    && final(self)@ == old(self)@,
            },
    {
        let id = match self.current_id.checked_add(1) {
            Some(id) => id,
            None => {
                return Err(WispError::MaxStreamCountReached);
            },
        };
        self.current_id = id;
        let info = self.add_stream(id, ty);
        Ok(info)
    }

    /// Closes stream `id` at our end: the stream is forgotten and the CLOSE
    /// packet to send is returned, with the stream's last state.
    pub fn close(&mut self, id: u32, reason: CloseReason) -> (r: Result<(StreamInfo, Vec<u8>), WispError>)
        requires
            old(self)@.wf(),
        ensures
            final(self)@.wf(),
            old(self)@.ids_allocated() ==> final(self)@.ids_allocated(),
            match r {
                Ok((info, bytes)) => {
                    &&& old(self)@.streams.contains_key(id)
                    &&& info == StreamInfo { close_reason: reason, ..old(self)@.streams[id] }
                    &&& final(self)@ == MuxSpec { streams: old(self)@.streams.remove(id), ..old(self)@ }
                    &&& bytes@ == (PacketSpec {
                        stream_id: id,
                        packet_type: PacketTypeSpec::Close(ClosePacket { reason }),
                    }).spec_encode()
                },
                Err(e) => !old(self)@.streams.contains_key(id) && e == WispError::InvalidStreamId(id)
                    && final(self)@ == old(self)@,
            },
    {
        let removed = self.streams.remove(&id);
        match removed {
            Some(mut info) => {
                assert(old(self)@.streams.contains_key(id));
                assert(self@.streams == old(self)@.streams.remove(id));
                info.set_reason(reason);
                let bytes = Packet::new_close(id, reason).encode();
                assert(info == StreamInfo { close_reason: reason, ..old(self)@.streams[id] });
                assert(self@.streams =~= old(self)@.streams.remove(id));
                assert(bytes@ == (PacketSpec {
                    stream_id: id,
                    packet_type: PacketTypeSpec::Close(ClosePacket { reason }),
                }).spec_encode());
                Ok((info, bytes))
            },
            None => {
                assert(self@.streams =~= old(self)@.streams);
                Err(WispError::InvalidStreamId(id))
            },
        }
    }

    /// Takes in a packet from the peer (see `spec_handle_packet`).
    pub fn handle_packet(&mut self, packet: Packet) -> (r: Result<MuxAction, WispError>)
        requires
            old(self)@.wf(),
        ensures
            final(self)@.wf(),
            final(self)@ == spec_handle_packet(old(self)@, packet@).0,
            match r {
                Ok(a) => spec_handle_packet(old(self)@, packet@).1 == Ok::<MuxActionSpec, WispError>(a@),
                Err(e) => spec_handle_packet(old(self)@, packet@).1 == Err::<MuxActionSpec, WispError>(e),
            },            data_handled(old(self)@, packet@, r),
    {
        proof {
            lemma_data_delivered(old(self)@, packet@);
        }
        let id = packet.stream_id;
        match packet.packet_type {
            PacketType::Connect(connect) => {
                let role = self.role;
                let _ = self.add_stream(id, connect.stream_type);
                assert(self@.streams =~= spec_handle_packet(old(self)@, packet@).0.streams);
                match role {
                    Role::Server => Ok(MuxAction::NewStream(id, connect)),
                    Role::Client => Err(WispError::InvalidPacketType(0x01)),
                }
            },
            PacketType::Data(data) => {
                if self.streams.contains_key(&id) {
                    Ok(MuxAction::DeliverData(id, data))
                } else {
                    Ok(MuxAction::Nothing)
                }
            },
            PacketType::Continue(cont) => match self.role {
                Role::Server => Err(WispError::InvalidPacketType(0x03)),
                Role::Client => match self.stream(id) {
                    Some(mut info) => {
                        if info.flow_status == FlowControl::EnabledTrackAmount {
                            info.flow_set(cont.buffer_remaining);
                            let _ = info.flow_wake();
                            self.streams.insert(id, info);
                            Ok(MuxAction::WakeWriter(id))
                        } else {
                            Ok(MuxAction::Nothing)
                        }
                    },
                    None => Ok(MuxAction::Nothing),
                },
            },
            PacketType::Close(close) => {
                if id == 0 {
                    return Ok(MuxAction::End);
                }
                match self.streams.remove(&id) {
                    Some(mut info) => {
                        info.set_reason(close.reason);
                        assert(self@.streams =~= spec_handle_packet(old(self)@, packet@).0.streams);
                        Ok(MuxAction::StreamClosed(info))
                    },
                    None => {
                        assert(self@.streams =~= old(self)@.streams);
                        Ok(MuxAction::Nothing)
                    },
                }
            },
        }
    }

    /// The stream's reader took the data handed to it: on the server this
    /// uses up one packet of the stream's room.
    pub fn data_delivered(&mut self, id: u32)
        requires
            old(self)@.wf(),
        ensures
            final(self)@.wf(),
            old(self)@.ids_allocated() ==> final(self)@.ids_allocated(),
            (old(self)@.role == Role::Server && old(self)@.streams.contains_key(id)) ==> (final(self)@
                == MuxSpec {
                streams: old(self)@.streams.insert(
                    id,
                    StreamInfo {
                        flow_control: if old(self)@.streams[id].flow_control == 0 {
                            0
                        } else {
                            (old(self)@.streams[id].flow_control - 1) as u32
                        },
                        ..old(self)@.streams[id]
                    },
                ),
                ..old(self)@
            }),
            !(old(self)@.role == Role::Server && old(self)@.streams.contains_key(id)) ==> final(self)@ == old(self)@,
    {
        if self.role == Role::Server {
            match self.stream(id) {
                Some(mut info) => {
                    info.flow_dec();
                    self.streams.insert(id, info);
                },
                None => {},
            }
        }
    }

    /// A data packet for stream `id` went out (see `StreamInfo::on_chunk_sent`).
    pub fn chunk_sent(&mut self, id: u32)
        requires
            old(self)@.wf(),
        ensures
            final(self)@.wf(),
            old(self)@.ids_allocated() ==> final(self)@.ids_allocated(),
            final(self)@.role == old(self)@.role,
            final(self)@.current_id == old(self)@.current_id,
            final(self)@.streams.dom() == old(self)@.streams.dom(),
            old(self)@.streams.contains_key(id) ==> (final(self)@.streams[id] == StreamInfo {
                flow_control: if old(self)@.streams[id].flow_status
                    == FlowControl::EnabledTrackAmount && old(self)@.streams[id].flow_control > 0 {
                    (old(self)@.streams[id].flow_control - 1) as u32
                } else {
                    old(self)@.streams[id].flow_control
                },
                ..old(self)@.streams[id]
            }),
            forall|k: u32| k != id && #[trigger] old(self)@.streams.contains_key(k) ==> final(self)@.streams[k] == old(self)@.streams[k],
    {
        match self.stream(id) {
            Some(mut info) => {
                info.on_chunk_sent();
                self.streams.insert(id, info);
                assert(self@.streams.dom() =~= old(self)@.streams.dom());
            },
            None => {},
        }
    }

    /// Ends the multiplexor: every stream is closed with an unknown reason,
    /// and the CLOSE packet for the connection is returned when a reason was
    /// given.
    pub fn end(&mut self, reason: Option<CloseReason>) -> (r: Option<Vec<u8>>)
        ensures
            final(self)@ == (MuxSpec { streams: Map::empty(), ..old(self)@ }),
            match reason {
                Some(rs) => (r matches Some(b) && b@ == (PacketSpec {
                    stream_id: 0,
                    packet_type: PacketTypeSpec::Close(ClosePacket { reason: rs }),
                }).spec_encode()),
                None => r is None,
            },
    {
        self.streams = HashMap::new();
        match reason {
            Some(rs) => Some(Packet::new_close(0, rs).encode()),
            None => None,
        }
    }

    /// The CONNECT packet that opens stream `id` at the peer.
    pub fn connect_packet(id: u32, connect: ConnectPacket) -> (r: Vec<u8>)
        ensures
            r@ == (PacketSpec { stream_id: id, packet_type: PacketTypeSpec::Connect(connect@) }).spec_encode(),
    {
        Packet { stream_id: id, packet_type: PacketType::Connect(connect) }.encode()
    }
}

} // verus!
