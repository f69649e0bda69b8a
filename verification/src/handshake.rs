//! The guard over the transport of an SSH handshake: until the handshake is over, the transport
//! can be cut off from outside, and whoever waits for it is woken.
use vstd::prelude::*;

verus! {

/// Whether a transport can be cut off.
#[derive(Debug, Clone, Copy, PartialEq, Eq, Structural)]
pub enum HandshakeStatus {
    /// It can be.
    Armed,
    /// It was.
    Aborted,
    /// It can no longer be: the handshake is over.
    Disarmed,
}

/// A side of the transport.
#[derive(Debug, Clone, Copy, PartialEq, Eq, Structural)]
pub enum HandshakeSide {
    Read,
    Write,
}

/// What to do with a request to read or write.
#[derive(Debug, Clone, Copy, PartialEq, Eq, Structural)]
pub enum HandshakeGate {
    /// Answer that the handshake was cancelled.
    Refuse,
    /// Hand it to the transport.
    Pass,
    /// Hand it to the transport, and note whether it waits.
    Watch,
}

/// The state of a guard: who waits for the transport.
#[derive(Debug, Clone, Copy, PartialEq, Eq, Structural)]
pub struct HandshakeGuard {
    pub status: HandshakeStatus,
    pub reader_waits: bool,
    pub writer_waits: bool,
}

/// Who is to be woken.
#[derive(Debug, Clone, Copy, PartialEq, Eq, Structural)]
pub struct Wakeups {
    pub reader: bool,
    pub writer: bool,
}

/// What is said to a request to a transport that was cut off.
pub const HANDSHAKE_CANCELLED: &'static str = "SSH handshake was cancelled";

/// What an abort makes of a guard.
pub open spec fn aborted(guard: HandshakeGuard) -> HandshakeGuard {
    if guard.status == HandshakeStatus::Armed {
        HandshakeGuard {
            status: HandshakeStatus::Aborted,
            reader_waits: false,
            writer_waits: false,
        }
    } else {
        guard
    }
}

/// What the end of the handshake makes of a guard.
pub open spec fn disarmed(guard: HandshakeGuard) -> HandshakeGuard {
    if guard.status == HandshakeStatus::Armed {
        HandshakeGuard {
            status: HandshakeStatus::Disarmed,
            reader_waits: false,
            writer_waits: false,
        }
    } else {
        guard
    }
}

impl HandshakeGuard {
    /// Somebody waits only while the transport can be cut off.
    pub open spec fn wf(self) -> bool {
        self.status != HandshakeStatus::Armed ==> !self.reader_waits && !self.writer_waits
    }

    /// Whether a side is waited for.
    pub open spec fn waits(self, side: HandshakeSide) -> bool {
        match side {
            HandshakeSide::Read => self.reader_waits,
            HandshakeSide::Write => self.writer_waits,
        }
    }

    /// The guard with one side waited for, or not.
    pub open spec fn with_waiter(self, side: HandshakeSide, waits: bool) -> HandshakeGuard {
        match side {
            HandshakeSide::Read => HandshakeGuard { reader_waits: waits, ..self },
            HandshakeSide::Write => HandshakeGuard { writer_waits: waits, ..self },
        }
    }

    /// A guard that nobody waits behind.
    pub fn new() -> (r: HandshakeGuard)
        ensures
            r == (HandshakeGuard {
                status: HandshakeStatus::Armed,
                reader_waits: false,
                writer_waits: false,
            }),
            r.wf(),
    {
        HandshakeGuard {
            status: HandshakeStatus::Armed,
            reader_waits: false,
            writer_waits: false,
        }
    }

    /// What to do with a request.
    #[verifier::allow_in_spec]
    pub fn gate(self) -> HandshakeGate
        returns
            (match self.status {
                HandshakeStatus::Aborted => HandshakeGate::Refuse,
                HandshakeStatus::Disarmed => HandshakeGate::Pass,
                HandshakeStatus::Armed => HandshakeGate::Watch,
            }),
    {
        match self.status {
            HandshakeStatus::Aborted => HandshakeGate::Refuse,
            HandshakeStatus::Disarmed => HandshakeGate::Pass,
            HandshakeStatus::Armed => HandshakeGate::Watch,
        }
    }

    /// Takes in that a request waits; tells whether the transport was cut off meanwhile, so
    /// that the request is to be refused.
    pub fn register(&mut self, side: HandshakeSide) -> (aborted: bool)
        requires
            old(self).wf(),
        ensures
            final(self).wf(),
            aborted == (old(self).status == HandshakeStatus::Aborted),
            *final(self) == if old(self).status == HandshakeStatus::Armed {
                old(self).with_waiter(side, true)
            } else {
                *old(self)
            },
    {
        if self.status == HandshakeStatus::Armed {
            match side {
                HandshakeSide::Read => {
                    self.reader_waits = true;
                },
                HandshakeSide::Write => {
                    self.writer_waits = true;
                },
            }
        }
        self.status == HandshakeStatus::Aborted
    }

    /// Takes in that a request was answered.
    pub fn clear(&mut self, side: HandshakeSide)
        requires
            old(self).wf(),
        ensures
            final(self).wf(),
            *final(self) == old(self).with_waiter(side, false),
    {
        match side {
            HandshakeSide::Read => {
                self.reader_waits = false;
            },
            HandshakeSide::Write => {
                self.writer_waits = false;
            },
        }
    }

    /// Cuts the transport off, unless the handshake is over; tells who is to be woken.
    pub fn abort(&mut self) -> (r: Wakeups)
        requires
            old(self).wf(),
        ensures
            final(self).wf(),
            r == (Wakeups { reader: old(self).reader_waits, writer: old(self).writer_waits }),
            *final(self) == aborted(*old(self)),
    {
        if self.status != HandshakeStatus::Armed {
            return Wakeups { reader: false, writer: false };
        }
        let woken = Wakeups { reader: self.reader_waits, writer: self.writer_waits };
        self.status = HandshakeStatus::Aborted;
        self.reader_waits = false;
        self.writer_waits = false;
        woken
    }

    /// Takes in that the handshake is over.
    pub fn disarm(&mut self)
        requires
            old(self).wf(),
        ensures
            final(self).wf(),
            *final(self) == disarmed(*old(self)),
    {
        if self.status == HandshakeStatus::Armed {
            self.status = HandshakeStatus::Disarmed;
            self.reader_waits = false;
            self.writer_waits = false;
        }
    }
}

/// The first of an abort and the end of the handshake counts: the other changes nothing.
pub proof fn first_end_counts(guard: HandshakeGuard)
    ensures
        disarmed(aborted(guard)) == aborted(guard),
        aborted(disarmed(guard)) == disarmed(guard),
        aborted(guard).gate() == HandshakeGate::Refuse || aborted(guard).gate()
            == HandshakeGate::Pass,
{
}

/// A transport is refused if and only if it was cut off, and watched if and only if it still
/// can be. A cut needs a guard that is armed; nobody waits behind one that is not.
pub proof fn cut_transports_are_refused(guard: HandshakeGuard)
    requires
        guard.wf(),
    ensures
        guard.gate() == HandshakeGate::Refuse <==> guard.status == HandshakeStatus::Aborted,
        guard.gate() == HandshakeGate::Watch <==> guard.status == HandshakeStatus::Armed,
        guard.status == HandshakeStatus::Armed ==> aborted(guard).gate() == HandshakeGate::Refuse
            && disarmed(guard).gate() == HandshakeGate::Pass,
        guard.status != HandshakeStatus::Armed ==> aborted(guard) == guard && disarmed(guard)
            == guard,
        forall|side: HandshakeSide|
            !#[trigger] aborted(guard).waits(side) && !disarmed(guard).waits(side),
{
}

/// A side that waits is waited for, and the other one is left as it is.
pub proof fn sides_wait_apart(
    guard: HandshakeGuard,
    side: HandshakeSide,
    other: HandshakeSide,
    waits: bool,
)
    requires
        side != other,
    ensures
        guard.with_waiter(side, waits).waits(side) == waits,
        guard.with_waiter(side, waits).waits(other) == guard.waits(other),
        guard.with_waiter(side, waits).status == guard.status,
{
}

} // verus!
