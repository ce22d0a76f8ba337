//! Small requests and queries of the network layer: permit joining and
//! the layer's status.
use vstd::prelude::*;

use crate::nwk::state::{Nwk, NwkStateView};
use crate::nwk::tx::NwkError;
use crate::types::{Duration, Instant};

verus! {

/// Milliseconds of the permit joining deadline of an unlimited permit.
pub const FAR_FUTURE_MS: u64 = 0xFFFF_FFFF_FFFF_FFFF;

impl NwkStateView {
    /// NLME-PERMIT-JOINING.request: refused on an end device; `0`
    /// disables joining, `255` permits it without limit, any other value
    /// for that many seconds from now (saturating).
    pub open spec fn permit_joining_requested(self, duration_secs: u8) -> (NwkStateView, Result<(), NwkError>) {
        if self.nib.device_type is EndDevice {
            (self, Err(NwkError::InvalidRequest))
        } else {
            let until = if duration_secs == 0 {
                None
            } else if duration_secs == 255 {
                Some(Instant(FAR_FUTURE_MS))
            } else {
                let ms = duration_secs as int * 1000;
                Some(Instant(if self.now.0 + ms <= u64::MAX { (self.now.0 + ms) as u64 } else { u64::MAX }))
            };
            (NwkStateView { permit_until: until, ..self }, Ok(()))
        }
    }
}

impl<const NB: usize, const BTT: usize, const D: usize, const AM: usize, const JL: usize> Nwk<NB, BTT, D, AM, JL> {
    /// NLME-PERMIT-JOINING.request (see
    /// [`NwkStateView::permit_joining_requested`]).
    pub fn permit_joining(&mut self, duration_secs: u8) -> (r: Result<(), NwkError>)
        requires
            old(self).wf(),
        ensures
            final(self).wf(),
            (final(self)@, r) == old(self)@.permit_joining_requested(duration_secs),
    {
        if !self.nib.is_router_or_coordinator() {
            return Err(NwkError::InvalidRequest);
        }
        if duration_secs == 0 {
            self.permit_until = None;
        } else if duration_secs == 255 {
            self.permit_until = Some(Instant(FAR_FUTURE_MS));
        } else {
            let d = Duration::from_secs(duration_secs as u64);
            self.permit_until = Some(self.now.plus(d));
        }
        Ok(())
    }

    /// Whether joining is permitted: the deadline lies ahead.
    pub fn permit_joining_active(&self) -> (b: bool)
        ensures
            b == (self.permit_until matches Some(t) && t.0 > self.now.0),
    {
        match self.permit_until {
            Some(t) => t.0 > self.now.0,
            None => false,
        }
    }

    /// Whether a join is in progress.
    pub fn is_joining(&self) -> (b: bool)
        ensures
            b == self.join.is_some(),
    {
        self.join.is_some()
    }

    /// Whether the layer is joined and holds the network key.
    pub fn is_operational(&self) -> (b: bool)
        ensures
            b == (self.nib.joined && self.nib.authenticated),
    {
        self.nib.joined && self.nib.authenticated
    }

    /// Current time as last supplied to the timer service.
    pub fn now(&self) -> (t: Instant)
        ensures
            t == self.now,
    {
        self.now
    }

    /// Marks the network as using distributed security.
    pub fn set_distributed(&mut self, distributed: bool)
        requires
            old(self).wf(),
        ensures
            final(self).wf(),
            final(self)@ == (NwkStateView { distributed_network: distributed, ..old(self)@ }),
    {
        self.distributed_network = distributed;
    }
}

} // verus!
