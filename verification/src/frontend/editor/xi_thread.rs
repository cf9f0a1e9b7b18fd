//! The sending end of the channel to an editing core running in-process.

use vstd::prelude::*;

use std::sync::mpsc::Sender;

verus! {

#[verifier::external_type_specification]
#[verifier::external_body]
#[verifier::reject_recursive_types(T)]
pub struct ExSender<T>(Sender<T>);

/// `Sender::send` of std: queues a message for the receiving end, or
/// fails when that end is gone. Whether it failed is not reported.
#[verifier::external_body]
fn channel_send(tx: &Sender<String>, s: String) {
    let _ = tx.send(s);
}

/// The frontend's handle to the core: messages for the core go through it.
pub struct XiPeer {
    tx: Sender<String>,
}

impl XiPeer {
    /// The channel the handle sends through.
    pub closed spec fn sender(&self) -> Sender<String> {
        self.tx
    }

    /// A handle that sends through `tx`.
    pub fn new(tx: Sender<String>) -> (p: XiPeer)
        ensures
            p.sender() == tx,
    {
        XiPeer { tx }
    }

    /// Sends a message to the core.
    pub fn send(&self, s: String) {
        channel_send(&self.tx, s);
    }
}

} // verus!
