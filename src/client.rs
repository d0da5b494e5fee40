//! Classification of raw CAN frames into CANopen messages.

use vstd::prelude::*;

use crate::frame::CanFrame;

verus! {

/// Classification failures.
#[derive(Debug, Clone, Copy, PartialEq, Eq, Structural)]
pub enum Error {
    InvalidNmtState,
    HasExtendedId,
    InvalidChannel(u32),
}

/// CANopen node id: the low seven bits of a frame identifier.
#[derive(Debug, Clone, Copy, PartialEq, Eq, Structural)]
pub struct NodeId(pub u8);

impl From<u8> for NodeId {
    fn from(node: u8) -> (r: NodeId) {
        NodeId(node)
    }
}

impl vstd::std_specs::convert::FromSpecImpl<u8> for NodeId {
    open spec fn obeys_from_spec() -> bool {
        true
    }

    open spec fn from_spec(v: u8) -> NodeId {
        NodeId(v)
    }
}

impl NodeId {
    pub fn as_raw(&self) -> (r: u8)
        ensures
            r == self.0,
    {
        self.0
    }
}

/// Network management state carried by a heartbeat.
#[derive(Debug, Clone, Copy, PartialEq, Eq, Structural)]
pub enum NmtState {
    BootUp,
    Stopped,
    Operational,
    PreOperational,
}

/// The state that a heartbeat byte encodes, if any.
pub open spec fn nmt_state_of(code: u8) -> Option<NmtState> {
    if code == 0x00 {
        Some(NmtState::BootUp)
    } else if code == 0x04 {
        Some(NmtState::Stopped)
    } else if code == 0x05 {
        Some(NmtState::Operational)
    } else if code == 0x7F {
        Some(NmtState::PreOperational)
    } else {
        None
    }
}

impl TryFrom<u8> for NmtState {
    type Error = Error;

    fn try_from(value: u8) -> (r: Result<NmtState, Error>) {
        match value {
            0x00 => Ok(NmtState::BootUp),
            0x04 => Ok(NmtState::Stopped),
            0x05 => Ok(NmtState::Operational),
            0x7F => Ok(NmtState::PreOperational),
            _ => Err(Error::InvalidNmtState),
        }
    }
}

impl vstd::std_specs::convert::TryFromSpecImpl<u8> for NmtState {
    open spec fn obeys_try_from_spec() -> bool {
        true
    }

    open spec fn try_from_spec(v: u8) -> Result<NmtState, Error> {
        match nmt_state_of(v) {
            Some(s) => Ok(s),
            None => Err(Error::InvalidNmtState),
        }
    }
}


/// Process data object channel.
#[derive(Debug, Clone, Copy, PartialEq, Eq, Hash, Structural)]
pub enum Pdo {
    Tx1,
    Rx1,
    Tx2,
    Rx2,
    Tx3,
    Rx3,
    Tx4,
    Rx4,
}

/// Service data object channel.
#[derive(Debug, Clone, Copy, PartialEq, Eq, Structural)]
pub enum Sdo {
    Tx,
    Rx,
}

/// Eight byte payload buffer, zero padded past the bytes received.
#[derive(Debug, Clone, Copy, PartialEq, Eq)]
pub struct FrameData {
    pub data: [u8; 8],
    pub len: u8,
}

/// `fd` holds the first eight bytes of `payload`, zero padded, and `len` truncated to a byte.
pub open spec fn padded(fd: FrameData, payload: Seq<u8>, len: usize) -> bool {
    &&& fd.len == len as u8
    &&& forall|i: int|
        0 <= i < 8 ==> #[trigger] fd.data@[i] == (if i < payload.len() {
            payload[i]
        } else {
            0u8
        })
}

impl FrameData {
    pub fn new(data: &[u8], len: usize) -> (r: Self)
        ensures
            padded(r, data@, len),
    {
        let mut pdo_data = [0u8; 8];
        let num: usize = if data.len() < 8 {
            data.len()
        } else {
            8
        };
        let mut i: usize = 0;
        while i < num
            invariant
                num <= 8,
                num <= data@.len(),
                num == data@.len() || num == 8,
                i <= num,
                forall|j: int|
                    0 <= j < 8 ==> #[trigger] pdo_data@[j] == (if j < i {
                        data@[j]
                    } else {
                        0u8
                    }),
            decreases num - i,
        {
            pdo_data[i] = data[i];
            i = i + 1;
        }
        FrameData { data: pdo_data, len: len as u8 }
    }
}

/// A classified CANopen message.
#[derive(Debug, Clone, Copy, PartialEq, Eq)]
pub enum CanOpenFrame {
    Sync,
    Heartbeat(NmtState),
    Pdo(Pdo, FrameData),
    Sdo(Sdo, FrameData),
}

impl CanOpenFrame {
    pub fn is_sync(&self) -> (r: bool)
        ensures
            r == (*self is Sync),
    {
        matches!(*self, CanOpenFrame::Sync)
    }

    pub fn is_heartbeat(&self) -> (r: bool)
        ensures
            r == (*self is Heartbeat),
    {
        matches!(*self, CanOpenFrame::Heartbeat(_))
    }

    pub fn is_pdo(&self) -> (r: bool)
        ensures
            r == (*self is Pdo),
    {
        matches!(*self, CanOpenFrame::Pdo(_, _))
    }

    pub fn is_sdo(&self) -> (r: bool)
        ensures
            r == (*self is Sdo),
    {
        matches!(*self, CanOpenFrame::Sdo(_, _))
    }
}

/// A CAN arbitration identifier: 11 bit standard or 29 bit extended.
#[derive(Debug, Clone, Copy, PartialEq, Eq, Structural)]
pub enum CanId {
    Standard(u16),
    Extended(u32),
}

/// The identifier as one integer, whatever its format.
pub open spec fn raw_id(id: CanId) -> u32 {
    match id {
        CanId::Standard(v) => v as u32,
        CanId::Extended(v) => v,
    }
}

impl CanId {
    /// A standard identifier, if `raw` fits in 11 bits.
    pub fn standard(raw: u16) -> (r: Option<CanId>)
        ensures
            r == (if raw <= 0x7FF {
                Some(CanId::Standard(raw))
            } else {
                None
            }),
    {
        if raw <= 0x7FF {
            Some(CanId::Standard(raw))
        } else {
            None
        }
    }

    /// An extended identifier, if `raw` fits in 29 bits.
    pub fn extended(raw: u32) -> (r: Option<CanId>)
        ensures
            r == (if raw <= 0x1FFF_FFFF {
                Some(CanId::Extended(raw))
            } else {
                None
            }),
    {
        if raw <= 0x1FFF_FFFF {
            Some(CanId::Extended(raw))
        } else {
            None
        }
    }
}

/// Collapses standard and extended identifiers into one integer space.
pub fn id_to_raw(id: &CanId) -> (r: u32)
    ensures
        r == raw_id(*id),
{
    match id {
        CanId::Standard(v) => *v as u32,
        CanId::Extended(v) => *v,
    }
}


/// The function code part of an identifier: all but its low seven bits.
pub open spec fn channel_of(id: u32) -> u32 {
    (id - id % 128) as u32
}

/// The node part of an identifier: its low seven bits.
pub open spec fn node_of(id: u32) -> NodeId {
    NodeId((id % 128) as u8)
}

/// The process data channel that a function code selects.
pub open spec fn pdo_of(channel: u32) -> Option<Pdo> {
    if channel == 0x180 {
        Some(Pdo::Tx1)
    } else if channel == 0x200 {
        Some(Pdo::Rx1)
    } else if channel == 0x280 {
        Some(Pdo::Tx2)
    } else if channel == 0x300 {
        Some(Pdo::Rx2)
    } else if channel == 0x380 {
        Some(Pdo::Tx3)
    } else if channel == 0x400 {
        Some(Pdo::Rx3)
    } else if channel == 0x480 {
        Some(Pdo::Tx4)
    } else if channel == 0x500 {
        Some(Pdo::Rx4)
    } else {
        None
    }
}

/// The service data channel that a function code selects.
pub open spec fn sdo_of(channel: u32) -> Option<Sdo> {
    if channel == 0x580 {
        Some(Sdo::Tx)
    } else if channel == 0x600 {
        Some(Sdo::Rx)
    } else {
        None
    }
}

/// `r` is the classification of a frame with identifier `id`, data `payload` and
/// declared length `dlc`, following the predefined connection set.
pub open spec fn classified(
    id: u32,
    payload: Seq<u8>,
    dlc: usize,
    r: Result<(Option<NodeId>, CanOpenFrame), Error>,
) -> bool {
    let channel = channel_of(id);
    let node = node_of(id);
    if channel == 0x080 {
        r == Ok::<(Option<NodeId>, CanOpenFrame), Error>((None, CanOpenFrame::Sync))
    } else if channel == 0x700 {
        if payload.len() > 0 && nmt_state_of(payload[0]) is Some {
            r == Ok::<(Option<NodeId>, CanOpenFrame), Error>(
                (Some(node), CanOpenFrame::Heartbeat(nmt_state_of(payload[0])->0)),
            )
        } else {
            r == Err::<(Option<NodeId>, CanOpenFrame), Error>(Error::InvalidNmtState)
        }
    } else if pdo_of(channel) is Some {
        &&& r matches Ok((Some(n), CanOpenFrame::Pdo(p, fd)))
        &&& n == node
        &&& p == pdo_of(channel)->0
        &&& padded(fd, payload, dlc)
    } else if sdo_of(channel) is Some {
        &&& r matches Ok((Some(n), CanOpenFrame::Sdo(s, fd)))
        &&& n == node
        &&& s == sdo_of(channel)->0
        &&& padded(fd, payload, dlc)
    } else {
        r == Err::<(Option<NodeId>, CanOpenFrame), Error>(Error::InvalidChannel(channel))
    }
}

/// Classifies a CAN frame as a CANopen message, with the node it concerns.
pub fn parse(frame: &CanFrame) -> (r: Result<(Option<NodeId>, CanOpenFrame), Error>)
    ensures
        classified(raw_id(frame.spec_id()), frame.payload(), frame.spec_dlc(), r),
{
    let id = id_to_raw(&frame.id());
    let node_raw = id % 128;
    let channel = id - node_raw;
    let node_id = NodeId(node_raw as u8);
    let data = frame.data();
    let dlc = frame.dlc();

    match channel {
        0x080 => Ok((None, CanOpenFrame::Sync)),
        0x700 => {
            if data.len() == 0 {
                return Err(Error::InvalidNmtState);
            }
            let state = NmtState::try_from(data[0])?;
            Ok((Some(node_id), CanOpenFrame::Heartbeat(state)))
        },
        0x180 => Ok((Some(node_id), CanOpenFrame::Pdo(Pdo::Tx1, FrameData::new(data, dlc)))),
        0x200 => Ok((Some(node_id), CanOpenFrame::Pdo(Pdo::Rx1, FrameData::new(data, dlc)))),
        0x280 => Ok((Some(node_id), CanOpenFrame::Pdo(Pdo::Tx2, FrameData::new(data, dlc)))),
        0x300 => Ok((Some(node_id), CanOpenFrame::Pdo(Pdo::Rx2, FrameData::new(data, dlc)))),
        0x380 => Ok((Some(node_id), CanOpenFrame::Pdo(Pdo::Tx3, FrameData::new(data, dlc)))),
        0x400 => Ok((Some(node_id), CanOpenFrame::Pdo(Pdo::Rx3, FrameData::new(data, dlc)))),
        0x480 => Ok((Some(node_id), CanOpenFrame::Pdo(Pdo::Tx4, FrameData::new(data, dlc)))),
        0x500 => Ok((Some(node_id), CanOpenFrame::Pdo(Pdo::Rx4, FrameData::new(data, dlc)))),
        0x580 => Ok((Some(node_id), CanOpenFrame::Sdo(Sdo::Tx, FrameData::new(data, dlc)))),
        0x600 => Ok((Some(node_id), CanOpenFrame::Sdo(Sdo::Rx, FrameData::new(data, dlc)))),
        _ => Err(Error::InvalidChannel(channel)),
    }
}

} // verus!
