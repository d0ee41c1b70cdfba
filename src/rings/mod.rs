//! The ring family and the names that select a variant.
use vstd::prelude::*;

pub mod cursor;
pub mod slot;
pub mod fifo;
pub mod dual;
pub mod overwrite;
pub mod skipping;
pub mod broadcast;
pub mod spsc;
pub mod spmc;
pub mod mpsc;
pub mod mpmc;
pub mod global_tail_lossy;
pub mod indiv_spsc_group;
pub mod indiv_spmc_copy;

verus! {

/// Every ring variant of the family.
#[derive(Debug, Clone, Copy, PartialEq, Eq, Structural)]
pub enum RingName {
    MPMCLoadBalancer,
    MPMCLoadBalancerPadded,
    MPMCBroadcaster,
    MPMCBroadcasterUnsafeIndivSPMCCopy,
    MPSCLocalTailLossy,
    MPSCLocalTailLossyPadded,
    MPSCGlobalTail,
    MPSCGlobalTailLossy,
    MPSCIndivSPSCGroup,
    SPMCLoadBalancerCopy,
    SPMCBroadcaster,
    SPMCBroadcasterPadded,
    SPMCBroadcasterUnsafeLocalTails,
    SPMCBroadcasterUnsafeLocalTailsOutsideArc,
    SPSCDualIndexFalseSharing,
    SPSCDualIndexPadFalseSharing,
    SPSCSafeSkipping,
    SPSCSafeSkippingNoBoxPtr,
    SPSCSafeSkippingOutsideArc,
    SPSCSlotLockLocalTailCopy,
    SPSCFullLockLocalTailCopy,
}

/// The producer/consumer cardinality of a ring.
#[derive(Debug, Clone, Copy, PartialEq, Eq, Structural)]
pub enum ChannelType {
    SPSC,
    SPMC,
    MPSC,
    MPMC,
}

/// Whether each payload reaches one consumer or all of them.
#[derive(Debug, Clone, Copy, PartialEq, Eq, Structural)]
pub enum DistributionType {
    LoadBalancer,
    Broadcast,
}

/// The cardinality of each variant.
pub open spec fn channel_of(name: RingName) -> ChannelType {
    match name {
        RingName::MPMCLoadBalancer => ChannelType::MPMC,
        RingName::MPMCLoadBalancerPadded => ChannelType::MPMC,
        RingName::MPMCBroadcaster => ChannelType::MPMC,
        RingName::MPMCBroadcasterUnsafeIndivSPMCCopy => ChannelType::MPMC,
        RingName::MPSCLocalTailLossy => ChannelType::MPSC,
        RingName::MPSCLocalTailLossyPadded => ChannelType::MPSC,
        RingName::MPSCGlobalTail => ChannelType::MPSC,
        RingName::MPSCGlobalTailLossy => ChannelType::MPSC,
        RingName::MPSCIndivSPSCGroup => ChannelType::MPSC,
        RingName::SPMCLoadBalancerCopy => ChannelType::SPMC,
        RingName::SPMCBroadcaster => ChannelType::SPMC,
        RingName::SPMCBroadcasterPadded => ChannelType::SPMC,
        RingName::SPMCBroadcasterUnsafeLocalTails => ChannelType::SPMC,
        RingName::SPMCBroadcasterUnsafeLocalTailsOutsideArc => ChannelType::SPMC,
        RingName::SPSCDualIndexFalseSharing => ChannelType::SPSC,
        RingName::SPSCDualIndexPadFalseSharing => ChannelType::SPSC,
        RingName::SPSCSafeSkipping => ChannelType::SPSC,
        RingName::SPSCSafeSkippingNoBoxPtr => ChannelType::SPSC,
        RingName::SPSCSafeSkippingOutsideArc => ChannelType::SPSC,
        RingName::SPSCSlotLockLocalTailCopy => ChannelType::SPSC,
        RingName::SPSCFullLockLocalTailCopy => ChannelType::SPSC,
    }
}

/// Load balancing for the variants whose consumers share one tail; broadcast
/// for the rest (a single consumer sees everything either way).
pub open spec fn distribution_of(name: RingName) -> DistributionType {
    match name {
        RingName::MPMCLoadBalancer => DistributionType::LoadBalancer,
        RingName::MPMCLoadBalancerPadded => DistributionType::LoadBalancer,
        RingName::MPMCBroadcaster => DistributionType::Broadcast,
        RingName::MPMCBroadcasterUnsafeIndivSPMCCopy => DistributionType::Broadcast,
        RingName::MPSCLocalTailLossy => DistributionType::Broadcast,
        RingName::MPSCLocalTailLossyPadded => DistributionType::Broadcast,
        RingName::MPSCGlobalTail => DistributionType::Broadcast,
        RingName::MPSCGlobalTailLossy => DistributionType::Broadcast,
        RingName::MPSCIndivSPSCGroup => DistributionType::Broadcast,
        RingName::SPMCLoadBalancerCopy => DistributionType::LoadBalancer,
        RingName::SPMCBroadcaster => DistributionType::Broadcast,
        RingName::SPMCBroadcasterPadded => DistributionType::Broadcast,
        RingName::SPMCBroadcasterUnsafeLocalTails => DistributionType::Broadcast,
        RingName::SPMCBroadcasterUnsafeLocalTailsOutsideArc => DistributionType::Broadcast,
        RingName::SPSCDualIndexFalseSharing => DistributionType::Broadcast,
        RingName::SPSCDualIndexPadFalseSharing => DistributionType::Broadcast,
        RingName::SPSCSafeSkipping => DistributionType::Broadcast,
        RingName::SPSCSafeSkippingNoBoxPtr => DistributionType::Broadcast,
        RingName::SPSCSafeSkippingOutsideArc => DistributionType::Broadcast,
        RingName::SPSCSlotLockLocalTailCopy => DistributionType::Broadcast,
        RingName::SPSCFullLockLocalTailCopy => DistributionType::Broadcast,
    }
}

impl RingName {
    pub fn get_channel_type(&self) -> (r: ChannelType)
        ensures
            r == channel_of(*self),
    {
        match self {
            RingName::MPMCLoadBalancer => ChannelType::MPMC,
            RingName::MPMCLoadBalancerPadded => ChannelType::MPMC,
            RingName::MPMCBroadcaster => ChannelType::MPMC,
            RingName::MPMCBroadcasterUnsafeIndivSPMCCopy => ChannelType::MPMC,
            RingName::MPSCLocalTailLossy => ChannelType::MPSC,
            RingName::MPSCLocalTailLossyPadded => ChannelType::MPSC,
            RingName::MPSCGlobalTail => ChannelType::MPSC,
            RingName::MPSCGlobalTailLossy => ChannelType::MPSC,
            RingName::MPSCIndivSPSCGroup => ChannelType::MPSC,
            RingName::SPMCLoadBalancerCopy => ChannelType::SPMC,
            RingName::SPMCBroadcaster => ChannelType::SPMC,
            RingName::SPMCBroadcasterPadded => ChannelType::SPMC,
            RingName::SPMCBroadcasterUnsafeLocalTails => ChannelType::SPMC,
            RingName::SPMCBroadcasterUnsafeLocalTailsOutsideArc => ChannelType::SPMC,
            RingName::SPSCDualIndexFalseSharing => ChannelType::SPSC,
            RingName::SPSCDualIndexPadFalseSharing => ChannelType::SPSC,
            RingName::SPSCSafeSkipping => ChannelType::SPSC,
            RingName::SPSCSafeSkippingNoBoxPtr => ChannelType::SPSC,
            RingName::SPSCSafeSkippingOutsideArc => ChannelType::SPSC,
            RingName::SPSCSlotLockLocalTailCopy => ChannelType::SPSC,
            RingName::SPSCFullLockLocalTailCopy => ChannelType::SPSC,
        }
    }

    pub fn get_distribution_type(&self) -> (r: DistributionType)
        ensures
            r == distribution_of(*self),
    {
        match self {
            RingName::MPMCLoadBalancer => DistributionType::LoadBalancer,
            RingName::MPMCLoadBalancerPadded => DistributionType::LoadBalancer,
            RingName::MPMCBroadcaster => DistributionType::Broadcast,
            RingName::MPMCBroadcasterUnsafeIndivSPMCCopy => DistributionType::Broadcast,
            RingName::MPSCLocalTailLossy => DistributionType::Broadcast,
            RingName::MPSCLocalTailLossyPadded => DistributionType::Broadcast,
            RingName::MPSCGlobalTail => DistributionType::Broadcast,
            RingName::MPSCGlobalTailLossy => DistributionType::Broadcast,
            RingName::MPSCIndivSPSCGroup => DistributionType::Broadcast,
            RingName::SPMCLoadBalancerCopy => DistributionType::LoadBalancer,
            RingName::SPMCBroadcaster => DistributionType::Broadcast,
            RingName::SPMCBroadcasterPadded => DistributionType::Broadcast,
            RingName::SPMCBroadcasterUnsafeLocalTails => DistributionType::Broadcast,
            RingName::SPMCBroadcasterUnsafeLocalTailsOutsideArc => DistributionType::Broadcast,
            RingName::SPSCDualIndexFalseSharing => DistributionType::Broadcast,
            RingName::SPSCDualIndexPadFalseSharing => DistributionType::Broadcast,
            RingName::SPSCSafeSkipping => DistributionType::Broadcast,
            RingName::SPSCSafeSkippingNoBoxPtr => DistributionType::Broadcast,
            RingName::SPSCSafeSkippingOutsideArc => DistributionType::Broadcast,
            RingName::SPSCSlotLockLocalTailCopy => DistributionType::Broadcast,
            RingName::SPSCFullLockLocalTailCopy => DistributionType::Broadcast,
        }
    }

    /// The variant's name as text.
    pub fn name(&self) -> (r: &'static str)
        ensures
            r@ == name_of(*self),
    {
        match self {
            RingName::MPMCLoadBalancer => "MPMCLoadBalancer",
            RingName::MPMCLoadBalancerPadded => "MPMCLoadBalancerPadded",
            RingName::MPMCBroadcaster => "MPMCBroadcaster",
            RingName::MPMCBroadcasterUnsafeIndivSPMCCopy => "MPMCBroadcasterUnsafeIndivSPMCCopy",
            RingName::MPSCLocalTailLossy => "MPSCLocalTailLossy",
            RingName::MPSCLocalTailLossyPadded => "MPSCLocalTailLossyPadded",
            RingName::MPSCGlobalTail => "MPSCGlobalTail",
            RingName::MPSCGlobalTailLossy => "MPSCGlobalTailLossy",
            RingName::MPSCIndivSPSCGroup => "MPSCIndivSPSCGroup",
            RingName::SPMCLoadBalancerCopy => "SPMCLoadBalancerCopy",
            RingName::SPMCBroadcaster => "SPMCBroadcaster",
            RingName::SPMCBroadcasterPadded => "SPMCBroadcasterPadded",
            RingName::SPMCBroadcasterUnsafeLocalTails => "SPMCBroadcasterUnsafeLocalTails",
            RingName::SPMCBroadcasterUnsafeLocalTailsOutsideArc => "SPMCBroadcasterUnsafeLocalTailsOutsideArc",
            RingName::SPSCDualIndexFalseSharing => "SPSCDualIndexFalseSharing",
            RingName::SPSCDualIndexPadFalseSharing => "SPSCDualIndexPadFalseSharing",
            RingName::SPSCSafeSkipping => "SPSCSafeSkipping",
            RingName::SPSCSafeSkippingNoBoxPtr => "SPSCSafeSkippingNoBoxPtr",
            RingName::SPSCSafeSkippingOutsideArc => "SPSCSafeSkippingOutsideArc",
            RingName::SPSCSlotLockLocalTailCopy => "SPSCSlotLockLocalTailCopy",
            RingName::SPSCFullLockLocalTailCopy => "SPSCFullLockLocalTailCopy",
        }
    }
}

/// The text of each variant's name.
pub open spec fn name_of(name: RingName) -> Seq<char> {
    match name {
        RingName::MPMCLoadBalancer => "MPMCLoadBalancer"@,
        RingName::MPMCLoadBalancerPadded => "MPMCLoadBalancerPadded"@,
        RingName::MPMCBroadcaster => "MPMCBroadcaster"@,
        RingName::MPMCBroadcasterUnsafeIndivSPMCCopy => "MPMCBroadcasterUnsafeIndivSPMCCopy"@,
        RingName::MPSCLocalTailLossy => "MPSCLocalTailLossy"@,
        RingName::MPSCLocalTailLossyPadded => "MPSCLocalTailLossyPadded"@,
        RingName::MPSCGlobalTail => "MPSCGlobalTail"@,
        RingName::MPSCGlobalTailLossy => "MPSCGlobalTailLossy"@,
        RingName::MPSCIndivSPSCGroup => "MPSCIndivSPSCGroup"@,
        RingName::SPMCLoadBalancerCopy => "SPMCLoadBalancerCopy"@,
        RingName::SPMCBroadcaster => "SPMCBroadcaster"@,
        RingName::SPMCBroadcasterPadded => "SPMCBroadcasterPadded"@,
        RingName::SPMCBroadcasterUnsafeLocalTails => "SPMCBroadcasterUnsafeLocalTails"@,
        RingName::SPMCBroadcasterUnsafeLocalTailsOutsideArc => "SPMCBroadcasterUnsafeLocalTailsOutsideArc"@,
        RingName::SPSCDualIndexFalseSharing => "SPSCDualIndexFalseSharing"@,
        RingName::SPSCDualIndexPadFalseSharing => "SPSCDualIndexPadFalseSharing"@,
        RingName::SPSCSafeSkipping => "SPSCSafeSkipping"@,
        RingName::SPSCSafeSkippingNoBoxPtr => "SPSCSafeSkippingNoBoxPtr"@,
        RingName::SPSCSafeSkippingOutsideArc => "SPSCSafeSkippingOutsideArc"@,
        RingName::SPSCSlotLockLocalTailCopy => "SPSCSlotLockLocalTailCopy"@,
        RingName::SPSCFullLockLocalTailCopy => "SPSCFullLockLocalTailCopy"@,
    }
}

/// The text of each cardinality.
pub open spec fn channel_name_of(c: ChannelType) -> Seq<char> {
    match c {
        ChannelType::MPMC => "MPMC"@,
        ChannelType::MPSC => "MPSC"@,
        ChannelType::SPMC => "SPMC"@,
        ChannelType::SPSC => "SPSC"@,
    }
}

impl ChannelType {
    pub fn name(&self) -> (r: &'static str)
        ensures
            r@ == channel_name_of(*self),
    {
        match self {
            ChannelType::MPMC => "MPMC",
            ChannelType::MPSC => "MPSC",
            ChannelType::SPMC => "SPMC",
            ChannelType::SPSC => "SPSC",
        }
    }
}

} // verus!
pub mod laws;
