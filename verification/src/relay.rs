use vstd::prelude::*;

verus! {

/// What happened to a chat client's connection since the last step.
#[derive(Debug, Clone, Copy, PartialEq, Eq, Structural)]
pub enum ClientEvent {
    /// A read returned this many bytes.
    Read(usize),
    /// A read failed.
    ReadFailed,
    /// The list of clients was locked.
    Locked,
    /// The lock on the list of clients was poisoned.
    LockPoisoned,
    /// Writing the chunk to one client succeeded.
    Written,
    /// Writing the chunk to one client failed.
    WriteFailed,
}

/// Why a client's relay loop ends.
#[derive(Debug, Clone, Copy, PartialEq, Eq, Structural)]
pub enum StopReason {
    ReadError,
    Disconnected,
    LockError,
}

/// What the relay loop does next.
#[derive(Debug, Clone, Copy, PartialEq, Eq, Structural)]
pub enum ClientAction {
    /// Report the reason and leave the loop.
    Stop(StopReason),
    /// Show the first this many bytes of the buffer as a message, then lock
    /// the list of clients.
    Relay(usize),
    /// Write the chunk to every client of the locked list.
    Broadcast,
    /// Report that a write failed, and go on with the next client.
    WarnWrite,
    /// Go on.
    Continue,
}

/// The decision of the relay loop on one event: a failed read, an empty read
/// or a poisoned lock stop it; a read of some bytes relays them; a taken lock
/// broadcasts them; a failed write is reported and the loop goes on.
pub open spec fn spec_client_step(e: ClientEvent) -> ClientAction {
    match e {
        ClientEvent::ReadFailed => ClientAction::Stop(StopReason::ReadError),
        ClientEvent::Read(n) => if n == 0 {
            ClientAction::Stop(StopReason::Disconnected)
        } else {
            ClientAction::Relay(n)
        },
        ClientEvent::Locked => ClientAction::Broadcast,
        ClientEvent::LockPoisoned => ClientAction::Stop(StopReason::LockError),
        ClientEvent::Written => ClientAction::Continue,
        ClientEvent::WriteFailed => ClientAction::WarnWrite,
    }
}

/// Every read that brought bytes relays exactly those bytes, and only an
/// empty read counts as a disconnect.
pub proof fn lemma_nonempty_read_relays(n: usize)
    ensures
        n > 0 ==> spec_client_step(ClientEvent::Read(n)) == ClientAction::Relay(n),
        n == 0 <==> spec_client_step(ClientEvent::Read(n)) == ClientAction::Stop(StopReason::Disconnected),
{
}

/// The loop stops only on a failed read, an empty read or a poisoned lock;
/// a failed write never stops it.
pub proof fn lemma_stops(e: ClientEvent)
    ensures
        spec_client_step(e) is Stop <==> (e == ClientEvent::ReadFailed || e == ClientEvent::Read(0)
            || e == ClientEvent::LockPoisoned),
{
}

/// A taken lock leads to the broadcast, and of the writes exactly the failed
/// ones are reported.
pub proof fn lemma_lock_and_writes(e: ClientEvent)
    ensures
        spec_client_step(e) == ClientAction::Broadcast <==> e == ClientEvent::Locked,
        spec_client_step(e) == ClientAction::WarnWrite <==> e == ClientEvent::WriteFailed,
        spec_client_step(e) == ClientAction::Continue <==> e == ClientEvent::Written,
{
}

/// The next action of a client's relay loop after `e`.
pub fn client_step(e: ClientEvent) -> (a: ClientAction)
    ensures
        a == spec_client_step(e),
        e matches ClientEvent::Read(n) ==> (n > 0 ==> a == ClientAction::Relay(n)),
        e == ClientEvent::Read(0) ==> a == ClientAction::Stop(StopReason::Disconnected),
        a == ClientAction::Stop(StopReason::Disconnected) ==> e == ClientEvent::Read(0),
{
    match e {
        ClientEvent::ReadFailed => ClientAction::Stop(StopReason::ReadError),
        ClientEvent::Read(n) => if n == 0 {
            ClientAction::Stop(StopReason::Disconnected)
        } else {
            ClientAction::Relay(n)
        },
        ClientEvent::Locked => ClientAction::Broadcast,
        ClientEvent::LockPoisoned => ClientAction::Stop(StopReason::LockError),
        ClientEvent::Written => ClientAction::Continue,
        ClientEvent::WriteFailed => ClientAction::WarnWrite,
    }
}

impl StopReason {
    /// The line reported when the loop stops for this reason.
    pub fn message(&self) -> (r: &'static str)
        ensures
            r@ == (match *self {
                StopReason::ReadError => "Error reading from stream"@,
                StopReason::Disconnected => "Client disconnected, failed to read data"@,
                StopReason::LockError => "Error acquiring lock on clients"@,
            }),
    {
        match self {
            StopReason::ReadError => "Error reading from stream",
            StopReason::Disconnected => "Client disconnected, failed to read data",
            StopReason::LockError => "Error acquiring lock on clients",
        }
    }
}

/// The line reported when a write to a client fails.
pub fn write_warning() -> (r: &'static str)
    ensures
        r@ == "Error writing to stream"@,
{
    "Error writing to stream"
}

} // verus!
