//! The joining device's side of a rejoin: the Rejoin Request it sends to
//! the chosen parent, and the end of a join that did not succeed.
use vstd::prelude::*;

use crate::nwk::formation::{first_assignable, random_address};
use crate::nwk::frame::{spec_with_bit, FrameControl, FrameType, Header, HeaderView, FC_DST_IEEE, FC_SECURITY, FC_SRC_IEEE};
use crate::nwk::join::{JoinPhase, JoinStateView, ParentSnapshot};
use crate::nwk::nib::Nib;
use crate::nwk::state::{Nwk, NwkStateView};
use crate::nwk::tx::{build_npdu, npdu_built, NwkError};
use crate::types::{ExtendedAddress, MacCapability, ShortAddress, FIRST_NON_UNICAST_RAW};

verus! {

/// Network address used when no random draw was acceptable.
pub const FALLBACK_SELF_ADDRESS: u16 = 0x1000;

/// What a join that ended reports (NLME-JOIN.confirm).
#[derive(Clone, Copy, PartialEq, Eq, Debug, Structural)]
pub struct JoinConfirm {
    /// NWK status code.
    pub status: u8,
    /// The device's network address afterwards.
    pub network_address: ShortAddress,
    /// Extended PAN identifier.
    pub extended_pan_id: ExtendedAddress,
    /// The join was a rejoin.
    pub rejoin: bool,
    /// The attach was secured.
    pub secured: bool,
}

/// A Rejoin Request ready to be sent: the plaintext NPDU and its header
/// length, the parent it goes to, and the PAN identifier and network
/// address the MAC is to take first.
#[derive(Clone, Debug)]
pub struct RejoinRequestFrame {
    /// Plaintext NPDU.
    pub npdu: Vec<u8>,
    /// Length of its NWK header.
    pub header_len: usize,
    /// The frame is to be secured.
    pub secure: bool,
    /// The parent.
    pub next_hop: ShortAddress,
    /// The MAC's new PAN identifier.
    pub pan_id: crate::types::PanId,
    /// The MAC's new short address.
    pub short: ShortAddress,
}

/// The device's own network address for an attach: the current one when
/// it is a unicast address other than 0x0000, else the first acceptable
/// random draw, else [`FALLBACK_SELF_ADDRESS`].
pub open spec fn self_address(nib: Nib, draws: Seq<u16>) -> ShortAddress {
    if nib.network_address.0 != 0 && nib.network_address.0 < FIRST_NON_UNICAST_RAW {
        nib.network_address
    } else {
        match first_assignable(draws, 0) {
            Some(a) => a,
            None => ShortAddress(FALLBACK_SELF_ADDRESS),
        }
    }
}

/// The header of a Rejoin Request from `my` to the parent `p` with
/// sequence number `seq`: radius 1, the source IEEE address, secured as
/// asked, and the parent's IEEE address when known.
pub open spec fn rejoin_header(ieee: ExtendedAddress, p: ParentSnapshot, my: ShortAddress, seq: u8, secure: bool) -> HeaderView {
    let fc0 = FrameType::Command.spec_bits() | 0x0008u16;
    let fc1 = spec_with_bit(spec_with_bit(fc0, FC_SRC_IEEE, true), FC_SECURITY, secure);
    let fc2 = if p.extended is Some { spec_with_bit(fc1, FC_DST_IEEE, true) } else { fc1 };
    HeaderView {
        frame_control: FrameControl(fc2),
        dst: p.short,
        src: my,
        radius: 1,
        sequence: seq,
        dst_ieee: p.extended,
        src_ieee: Some(ieee),
        source_route: None,
    }
}

impl NwkStateView {
    /// A join ended without success: its state is dropped, and an initial
    /// join forgets the PAN and network address it was trying.
    pub open spec fn join_finished(self) -> NwkStateView {
        let rejoin = self.join matches Some(j) && j.params.rejoin;
        NwkStateView { nib: NwkStateView::join_failed_nib(self.nib, rejoin), join: None, ..self }
    }

    /// Sending a Rejoin Request to `p`: the device takes its own address
    /// (see [`self_address`]) and the parent's PAN, the next sequence
    /// number is used, and a join in progress waits for the response.
    /// The frame is secured when asked and security is in use.
    pub open spec fn rejoin_requested(
        self,
        p: ParentSnapshot,
        secure: bool,
        capability: MacCapability,
        draws: Seq<u16>,
    ) -> (NwkStateView, Result<(Seq<u8>, int), NwkError>, ShortAddress, bool) {
        let my = self_address(self.nib, draws);
        let seq = self.nib.sequence_number;
        let nib1 = Nib {
            network_address: my,
            pan_id: p.pan_id,
            sequence_number: if seq == 255 { 0u8 } else { (seq + 1) as u8 },
            ..self.nib
        };
        let sec = secure && self.security_enabled;
        let h = rejoin_header(self.nib.ieee_address, p, my, seq, sec);
        let join = match self.join {
            Some(j) => Some(JoinStateView { phase: JoinPhase::RequestSent, ..j }),
            None => None,
        };
        (NwkStateView { nib: nib1, join, ..self }, npdu_built(h, seq![0x06u8, capability.0]), my, sec)
    }
}

impl<const NB: usize, const BTT: usize, const D: usize, const AM: usize, const JL: usize> Nwk<NB, BTT, D, AM, JL> {
    /// Ends a join that did not succeed (see
    /// [`NwkStateView::join_finished`]) and reports `status`.
    #[verifier::rlimit(100)]
    #[verifier::spinoff_prover]
    pub fn finish_join(&mut self, status: u8) -> (c: JoinConfirm)
        requires
            old(self).wf(),
        ensures
            final(self).wf(),
            final(self)@ == old(self)@.join_finished(),
            c == (JoinConfirm {
                status,
                network_address: final(self).nib.network_address,
                extended_pan_id: final(self).nib.extended_pan_id,
                rejoin: old(self).join matches Some(j) && j.params.rejoin,
                secured: false,
            }),
    {
        let j = self.join.take();
        let rejoin = match j {
            Some(j) => j.params.rejoin,
            None => false,
        };
        if !rejoin {
            self.nib.set_network(crate::types::PanId(crate::types::PAN_BROADCAST_RAW), ShortAddress(crate::types::NO_SHORT_ADDRESS_RAW));
        }
        JoinConfirm {
            status,
            network_address: self.nib.network_address,
            extended_pan_id: self.nib.extended_pan_id,
            rejoin,
            secured: false,
        }
    }

    /// Builds the Rejoin Request to `p` (see
    /// [`NwkStateView::rejoin_requested`]); `draws` are the random values
    /// for a new network address.
    pub fn send_rejoin_request(
        &mut self,
        p: ParentSnapshot,
        secure: bool,
        capability: MacCapability,
        draws: &[u16],
    ) -> (r: Result<RejoinRequestFrame, NwkError>)
        requires
            old(self).wf(),
        ensures
            final(self).wf(),
            ({
                let (v, f, my, sec) = old(self)@.rejoin_requested(p, secure, capability, draws@);
                &&& final(self)@ == v
                &&& match f {
                    Ok((b, hl)) => r matches Ok(x) && x.npdu@ == b && x.header_len == hl && x.secure == sec
                        && x.next_hop == p.short && x.pan_id == p.pan_id && x.short == my,
                    Err(e) => r == Err::<RejoinRequestFrame, NwkError>(e),
                }
            }),
    {
        let sec = secure && self.security_enabled;
        let ieee = self.nib.ieee_address;
        let (my, seq) = self.adopt_parent(p, draws);
        match Self::rejoin_frame(ieee, p, my, seq, sec, capability) {
            Ok((npdu, hl)) => Ok(RejoinRequestFrame { npdu, header_len: hl, secure: sec, next_hop: p.short, pan_id: p.pan_id, short: my }),
            Err(e) => Err(e),
        }
    }

    /// Takes the attach address and the parent's PAN, uses the next
    /// sequence number and marks the join as waiting for the response.
    #[verifier::rlimit(100)]
    #[verifier::spinoff_prover]
    fn adopt_parent(&mut self, p: ParentSnapshot, draws: &[u16]) -> (r: (ShortAddress, u8))
        requires
            old(self).wf(),
        ensures
            final(self).wf(),
            ({
                let (v, f, my, sec) = old(self)@.rejoin_requested(p, false, MacCapability(0), draws@);
                final(self)@ == v && r.0 == my && r.1 == old(self).nib.sequence_number
            }),
    {
        let cur = self.nib.network_address;
        let my = if cur.0 != 0 && cur.0 < FIRST_NON_UNICAST_RAW {
            cur
        } else {
            match random_address(draws) {
                Some(a) => a,
                None => ShortAddress(FALLBACK_SELF_ADDRESS),
            }
        };
        self.nib.set_network(p.pan_id, my);
        let seq = self.nib.next_sequence();
        let j = self.join.take();
        match j {
            Some(mut j) => {
                j.phase = JoinPhase::RequestSent;
                self.join = Some(j);
            },
            None => {},
        }
        (my, seq)
    }

    /// The Rejoin Request NPDU (see [`rejoin_header`]).
    fn rejoin_frame(
        ieee: ExtendedAddress,
        p: ParentSnapshot,
        my: ShortAddress,
        seq: u8,
        sec: bool,
        capability: MacCapability,
    ) -> (r: Result<(Vec<u8>, usize), NwkError>)
        ensures
            match npdu_built(rejoin_header(ieee, p, my, seq, sec), seq![0x06u8, capability.0]) {
                Ok((b, hl)) => r matches Ok((v, n)) && v@ == b && n == hl,
                Err(e) => r == Err::<(Vec<u8>, usize), NwkError>(e),
            },
    {
        let mut header = Header::new(FrameType::Command, p.short, my, 1, seq).with_src_ieee(ieee).secured(sec);
        if let Some(e) = p.extended {
            header = header.with_dst_ieee(e);
        }
        assert(header@ == rejoin_header(ieee, p, my, seq, sec));
        let body: [u8; 2] = [0x06, capability.0];
        assert(body@ =~= seq![0x06u8, capability.0]);
        build_npdu(&header, &body)
    }
}

} // verus!
