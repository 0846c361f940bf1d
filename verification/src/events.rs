//! What the network, the worker and the demo tell the dashboard.

use vstd::prelude::*;

verus! {

/// Something that the dashboard is told.
#[derive(Debug)]
pub enum MinerEvent {
    Connected(String),
    Disconnected,
    /// The bits of the double-precision number that is the new difficulty.
    Difficulty(u64),
    NewJob(String),
    HashUpdate { hashes: u64, hashrate: u64 },
    ShareAccepted,
    ShareRejected(String),
    Log(String),
}

/// What a [`MinerEvent`] holds.
pub enum MinerEventView {
    Connected(Seq<char>),
    Disconnected,
    Difficulty(u64),
    NewJob(Seq<char>),
    HashUpdate { hashes: u64, hashrate: u64 },
    ShareAccepted,
    ShareRejected(Seq<char>),
    Log(Seq<char>),
}

impl View for MinerEvent {
    type V = MinerEventView;

    open spec fn view(&self) -> MinerEventView {
        match self {
            MinerEvent::Connected(addr) => MinerEventView::Connected(addr@),
            MinerEvent::Disconnected => MinerEventView::Disconnected,
            MinerEvent::Difficulty(bits) => MinerEventView::Difficulty(*bits),
            MinerEvent::NewJob(id) => MinerEventView::NewJob(id@),
            MinerEvent::HashUpdate { hashes, hashrate } => MinerEventView::HashUpdate {
                hashes: *hashes,
                hashrate: *hashrate,
            },
            MinerEvent::ShareAccepted => MinerEventView::ShareAccepted,
            MinerEvent::ShareRejected(reason) => MinerEventView::ShareRejected(reason@),
            MinerEvent::Log(message) => MinerEventView::Log(message@),
        }
    }
}

/// What several events hold.
pub open spec fn event_views(events: Seq<MinerEvent>) -> Seq<MinerEventView> {
    Seq::new(events.len(), |i: int| events[i]@)
}

} // verus!
