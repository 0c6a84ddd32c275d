//! What packets from the receiver ask the rest of the sender to do.

use crate::protocol::constants::SRTLA_TYPE_REG1_LEN;
use crate::protocol::lists::{no_numbers, no_packets, numbers, packet_list};
use smallvec::SmallVec;
use vstd::prelude::*;

verus! {

/// What packets that came in on a link ask for.
pub struct SrtlaIncoming {
    /// Packets for the SRT client.
    pub forward_to_client: SmallVec<SmallVec<u8, 64>, 4>,
    /// Cumulative SRT ACKs.
    pub ack_numbers: SmallVec<u32, 4>,
    /// Packets reported lost.
    pub nak_numbers: SmallVec<u32, 4>,
    /// Packets that the receiver has, each of them.
    pub srtla_ack_numbers: SmallVec<u32, 4>,
    /// Whether anything came in.
    pub read_any: bool,
    /// A REG1 to send on this link at once.
    pub reg1_send: Option<[u8; SRTLA_TYPE_REG1_LEN]>,
    /// The round-trip time that an answered keepalive gave.
    pub rtt_sample: Option<u64>,
}

/// The contents of an [`SrtlaIncoming`].
#[verifier::ext_equal]
pub struct IncomingView {
    pub forward: Seq<Seq<u8>>,
    pub acks: Seq<u32>,
    pub naks: Seq<u32>,
    pub srtla_acks: Seq<u32>,
    pub read_any: bool,
    pub reg1: Option<Seq<u8>>,
    pub rtt_sample: Option<u64>,
}

impl IncomingView {
    /// Nothing came in.
    pub open spec fn nothing() -> Self {
        IncomingView {
            forward: Seq::empty(),
            acks: Seq::empty(),
            naks: Seq::empty(),
            srtla_acks: Seq::empty(),
            read_any: false,
            reg1: None,
            rtt_sample: None,
        }
    }
}

impl View for SrtlaIncoming {
    type V = IncomingView;

    open spec fn view(&self) -> IncomingView {
        IncomingView {
            forward: packet_list(&self.forward_to_client),
            acks: numbers(&self.ack_numbers),
            naks: numbers(&self.nak_numbers),
            srtla_acks: numbers(&self.srtla_ack_numbers),
            read_any: self.read_any,
            reg1: match self.reg1_send {
                Some(pkt) => Some(pkt@),
                None => None,
            },
            rtt_sample: self.rtt_sample,
        }
    }
}

impl Default for SrtlaIncoming {
    fn default() -> (incoming: Self)
        ensures
            incoming@ == IncomingView::nothing(),
    {
        SrtlaIncoming {
            forward_to_client: no_packets(),
            ack_numbers: no_numbers(),
            nak_numbers: no_numbers(),
            srtla_ack_numbers: no_numbers(),
            read_any: false,
            reg1_send: None,
            rtt_sample: None,
        }
    }
}

} // verus!
