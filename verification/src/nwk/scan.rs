//! Beacons heard by the network layer: the discovery survey, the
//! candidates of a network discovery, what a formation's active scan
//! learns, and PAN identifier conflict detection.
use vstd::prelude::*;

use crate::mac::frame::MacAddress;
use crate::nwk::beacon::{tlv_chain_ok, BeaconPayload, BeaconPayloadView};
use crate::nwk::discovery::{
    spec_discovery_add, Candidate, CandidateView, DiscoveryTable, RouterInformation, MAX_APPENDIX,
};
use crate::nwk::formation::{FormationState, FormationView};
use crate::nwk::nib::Nib;
use crate::types::{Channel, ChannelMask, ChannelPage, PanId, ShortAddress};

verus! {

/// Why the layer is scanning.
#[derive(Clone, Copy, PartialEq, Eq, Debug, Structural)]
pub enum ScanPurpose {
    /// Network discovery.
    Discovery,
    /// Energy scan of a formation.
    FormationEnergy,
    /// Active scan of a formation.
    FormationActive,
    /// Active scan verifying a PAN identifier (conflict detection).
    PanIdConflict,
    /// Energy detect scan requested by the higher layer.
    EnergyDetect,
}

/// A scan in progress.
#[derive(Clone, Copy, PartialEq, Eq, Debug, Structural)]
pub struct ScanState {
    /// Why.
    pub purpose: ScanPurpose,
    /// Channels scanned.
    pub channels: ChannelMask,
    /// Scan duration exponent.
    pub duration: u8,
    /// Discovery reports only networks that permit joining.
    pub only_permit_join: bool,
}

/// Beacons counted during a network discovery.
#[derive(Clone, Copy, PartialEq, Eq, Debug, Structural)]
pub struct SurveyCounts {
    /// Beacons heard.
    pub total: u32,
    /// Beacons of other networks, of other protocols, or undecodable.
    pub other_networks: u32,
    /// Beacons of the network the device is joined to.
    pub on_network: u32,
    /// Of those, beacons of devices with end device capacity.
    pub potential_parents: u32,
}

/// `v + 1`, saturating.
pub open spec fn inc(v: u32) -> u32 {
    if v == u32::MAX {
        u32::MAX
    } else {
        (v + 1) as u32
    }
}

/// What a beacon tells about its sender.
pub struct BeaconInfo {
    /// PAN identifier of the sender.
    pub src_pan: PanId,
    /// MAC source address.
    pub src: MacAddress,
    /// Association permit of the superframe specification.
    pub permit: bool,
    /// The sender is the PAN coordinator.
    pub pan_coordinator: bool,
    /// Channel heard on.
    pub channel: Channel,
    /// Channel page heard on.
    pub page: ChannelPage,
    /// Link quality of the beacon.
    pub lqi: u8,
}

/// The scan state of the network layer.
#[derive(Clone, Debug)]
pub struct ScanContext<const D: usize> {
    /// The scan in progress.
    pub scan: Option<ScanState>,
    /// Discovery survey counters.
    pub survey: SurveyCounts,
    /// Networks and potential parents discovered.
    pub discovery: DiscoveryTable<D>,
    /// A formation in progress.
    pub formation: Option<FormationState>,
}

/// The mathematical content of a [`ScanContext`].
pub struct ScanContextView {
    /// The scan in progress.
    pub scan: Option<ScanState>,
    /// Survey counters.
    pub survey: SurveyCounts,
    /// Discovered candidates.
    pub discovery: Seq<CandidateView>,
    /// Formation in progress.
    pub formation: Option<FormationView>,
}

impl<const D: usize> View for ScanContext<D> {
    type V = ScanContextView;

    open spec fn view(&self) -> ScanContextView {
        ScanContextView {
            scan: self.scan,
            survey: self.survey,
            discovery: self.discovery@,
            formation: match self.formation {
                Some(f) => Some(f@),
                None => None,
            },
        }
    }
}

/// The candidate a discovery learns from a beacon of a Zigbee PRO
/// network sent from a short address.
pub open spec fn spec_candidate(
    info: BeaconInfo,
    short: ShortAddress,
    p: BeaconPayloadView,
    router_info: Option<RouterInformation>,
) -> CandidateView {
    CandidateView {
        extended_pan_id: p.extended_pan_id,
        pan_id: info.src_pan,
        page: info.page,
        channel: info.channel,
        short,
        extended: match info.src {
            MacAddress::Extended(e) => Some(e),
            _ => None,
        },
        lqa: info.lqi,
        update_id: p.update_id,
        router_capacity: p.router_capacity,
        end_device_capacity: p.end_device_capacity,
        permit_joining: info.permit,
        pan_coordinator: info.pan_coordinator,
        router_info,
        r23: p.appendix.len() > 0 && tlv_chain_ok(p.appendix, 0) && router_info is Some,
        appendix: if p.appendix.len() <= MAX_APPENDIX {
            p.appendix
        } else {
            p.appendix.take(MAX_APPENDIX as int)
        },
        attempts: 0,
    }
}

impl ScanContextView {
    /// The survey counters after a beacon: every beacon counts while a
    /// discovery runs; one that is undecodable or not Zigbee PRO counts
    /// as another network; a Zigbee PRO one counts as on the joined
    /// network (and as a potential parent when it has end device
    /// capacity) or as another network.
    pub open spec fn surveyed(self, nib: Nib, payload: Option<BeaconPayloadView>) -> SurveyCounts {
        let surveying = self.scan matches Some(s) && s.purpose is Discovery;
        let c = self.survey;
        if !surveying {
            c
        } else {
            let c1 = SurveyCounts { total: inc(c.total), ..c };
            match payload {
                Some(p) if p.spec_is_zigbee_pro() => if nib.joined && p.extended_pan_id == nib.extended_pan_id {
                    SurveyCounts {
                        on_network: inc(c1.on_network),
                        potential_parents: if p.end_device_capacity {
                            inc(c1.potential_parents)
                        } else {
                            c1.potential_parents
                        },
                        ..c1
                    }
                } else {
                    SurveyCounts { other_networks: inc(c1.other_networks), ..c1 }
                },
                _ => SurveyCounts { other_networks: inc(c1.other_networks), ..c1 },
            }
        }
    }

    /// The state after a beacon, and the PAN identifier of a detected
    /// conflict. `payload` is the decoded beacon payload (`None` when it
    /// could not be decoded) and `router_info` the Router Information of
    /// its appendix. Only Zigbee PRO beacons go further: during a
    /// discovery, one of a network that permits joining (when only those
    /// are wanted) and whose extended PAN identifier matches the device's
    /// (when it has one) is added as a candidate, when sent from a short
    /// address; during a formation's active scan, the network is recorded
    /// per channel; a beacon with the device's PAN identifier but another
    /// extended PAN identifier is a conflict during a conflict scan, and
    /// when no active scan runs, for a joined router.
    pub open spec fn beacon_received(
        self,
        nib: Nib,
        info: BeaconInfo,
        payload: Option<BeaconPayloadView>,
        router_info: Option<RouterInformation>,
        cap: int,
    ) -> (ScanContextView, Option<PanId>) {
        let v1 = ScanContextView { survey: self.surveyed(nib, payload), ..self };
        match payload {
            Some(p) if p.spec_is_zigbee_pro() => match self.scan {
                Some(s) if s.purpose is Discovery => {
                    if s.only_permit_join && !info.permit {
                        (v1, None)
                    } else if nib.extended_pan_id.0 != 0 && p.extended_pan_id != nib.extended_pan_id {
                        (v1, None)
                    } else {
                        match info.src {
                            MacAddress::Short(short) => {
                                let parent = if nib.device_type is EndDevice {
                                    Some(nib.parent_address)
                                } else {
                                    None
                                };
                                (
                                    ScanContextView {
                                        discovery: spec_discovery_add(
                                            self.discovery,
                                            spec_candidate(info, short, p, router_info),
                                            nib.update_id,
                                            parent,
                                            cap,
                                        ),
                                        ..v1
                                    },
                                    None,
                                )
                            },
                            _ => (v1, None),
                        }
                    }
                },
                Some(s) if s.purpose is FormationActive || s.purpose is PanIdConflict => {
                    let f1 = match self.formation {
                        Some(f) => Some(f.recorded(info.channel, info.src_pan)),
                        None => None,
                    };
                    let conflict = s.purpose is PanIdConflict && info.src_pan == nib.pan_id && p.extended_pan_id
                        != nib.extended_pan_id;
                    (ScanContextView { formation: f1, ..v1 }, if conflict { Some(info.src_pan) } else { None })
                },
                _ => {
                    let conflict = nib.joined && info.src_pan == nib.pan_id && p.extended_pan_id != nib.extended_pan_id
                        && !(nib.device_type is EndDevice);
                    (v1, if conflict { Some(info.src_pan) } else { None })
                },
            },
            _ => (v1, None),
        }
    }
}

impl<const D: usize> ScanContext<D> {
    /// The discovery table and a formation in progress are well formed.
    pub open spec fn wf(&self) -> bool {
        &&& self.discovery.wf()
        &&& self.formation matches Some(f) ==> f.wf()
    }

    fn count_survey(&mut self, nib: &Nib, payload: &Option<BeaconPayload>)
        ensures
            final(self)@ == (ScanContextView {
                survey: old(self)@.surveyed(
                    *nib,
                    match payload {
                        Some(p) => Some(p@),
                        None => None,
                    },
                ),
                ..old(self)@
            }),
            final(self).discovery == old(self).discovery,
            final(self).formation == old(self).formation,
    {
        let surveying = match self.scan {
            Some(s) => s.purpose == ScanPurpose::Discovery,
            None => false,
        };
        if !surveying {
            return;
        }
        self.survey.total = self.survey.total.saturating_add(1);
        let mut other = true;
        if let Some(p) = payload {
            if p.is_zigbee_pro() && nib.joined && p.extended_pan_id == nib.extended_pan_id {
                other = false;
                self.survey.on_network = self.survey.on_network.saturating_add(1);
                if p.end_device_capacity {
                    self.survey.potential_parents = self.survey.potential_parents.saturating_add(1);
                }
            }
        }
        if other {
            self.survey.other_networks = self.survey.other_networks.saturating_add(1);
        }
    }

    /// Handles a beacon (see [`ScanContextView::beacon_received`]);
    /// returns the PAN identifier of a detected conflict.
    pub fn on_mac_beacon(
        &mut self,
        nib: &Nib,
        info: &BeaconInfo,
        payload: Option<BeaconPayload>,
        router_info: Option<RouterInformation>,
    ) -> (conflict: Option<PanId>)
        requires
            old(self).wf(),
        ensures
            final(self).wf(),
            (final(self)@, conflict) == old(self)@.beacon_received(
                *nib,
                *info,
                match payload {
                    Some(p) => Some(p@),
                    None => None,
                },
                router_info,
                D as int,
            ),
    {
        self.count_survey(nib, &payload);
        let p = match payload {
            Some(p) => p,
            None => {
                return None;
            },
        };
        if !p.is_zigbee_pro() {
            return None;
        }
        match self.scan {
            Some(s) => {
                if s.purpose == ScanPurpose::Discovery {
                    if s.only_permit_join && !info.permit {
                        return None;
                    }
                    if nib.extended_pan_id.0 != 0 && p.extended_pan_id != nib.extended_pan_id {
                        return None;
                    }
                    let short = match info.src {
                        MacAddress::Short(a) => a,
                        _ => {
                            return None;
                        },
                    };
                    let n = if p.appendix.len() <= MAX_APPENDIX {
                        p.appendix.len()
                    } else {
                        MAX_APPENDIX
                    };
                    let mut app: Vec<u8> = Vec::new();
                    let mut i: usize = 0;
                    while i < n
                        invariant
                            n <= p.appendix@.len(),
                            i <= n,
                            app@ == p.appendix@.take(i as int),
                        decreases n - i,
                    {
                        app.push(p.appendix[i]);
                        assert(p.appendix@.take(i + 1) =~= p.appendix@.take(i as int).push(p.appendix@[i as int]));
                        i = i + 1;
                    }
                    assert(app@ =~= if p.appendix@.len() <= MAX_APPENDIX {
                        p.appendix@
                    } else {
                        p.appendix@.take(MAX_APPENDIX as int)
                    });
                    let r23 = p.has_appendix() && router_info.is_some();
                    let c = Candidate {
                        extended_pan_id: p.extended_pan_id,
                        pan_id: info.src_pan,
                        page: info.page,
                        channel: info.channel,
                        short,
                        extended: info.src.extended(),
                        lqa: info.lqi,
                        update_id: p.update_id,
                        router_capacity: p.router_capacity,
                        end_device_capacity: p.end_device_capacity,
                        permit_joining: info.permit,
                        pan_coordinator: info.pan_coordinator,
                        router_info,
                        r23,
                        appendix: app,
                        attempts: 0,
                    };
                    let parent = if nib.is_end_device() {
                        Some(nib.parent_address)
                    } else {
                        None
                    };
                    self.discovery.add(c, nib.update_id, parent);
                    return None;
                }
                if s.purpose == ScanPurpose::FormationActive || s.purpose == ScanPurpose::PanIdConflict {
                    if let Some(mut f) = self.formation.take() {
                        f.record_network(info.channel, info.src_pan);
                        self.formation = Some(f);
                    }
                    if s.purpose == ScanPurpose::PanIdConflict && info.src_pan == nib.pan_id && p.extended_pan_id
                        != nib.extended_pan_id {
                        return Some(info.src_pan);
                    }
                    return None;
                }
            },
            None => {},
        }
        if nib.joined && info.src_pan == nib.pan_id && p.extended_pan_id != nib.extended_pan_id
            && nib.is_router_or_coordinator() {
            Some(info.src_pan)
        } else {
            None
        }
    }
}

} // verus!
