//! What is known of the machine's network, and how changes of it are published.
use vstd::prelude::*;

verus! {

/// Whether the machine has a network path.
#[derive(Debug, Clone, Copy, PartialEq, Eq, Structural)]
pub enum NetworkAvailability {
    Online,
    Offline,
    Unknown,
}

/// What is known of the network at one moment.
#[derive(Debug, Clone, Copy, PartialEq, Eq, Structural)]
pub struct ConnectivitySnapshot {
    pub availability: NetworkAvailability,
    /// Whether changes are reported as they happen.
    pub events_available: bool,
    /// Counts how often the machine came back from sleep.
    pub resume_generation: u64,
    /// Counts the snapshots that were published.
    pub generation: u64,
}

impl ConnectivitySnapshot {
    /// What is known before the first report.
    #[verifier::allow_in_spec]
    pub fn initial() -> ConnectivitySnapshot
        returns
            (ConnectivitySnapshot {
                availability: NetworkAvailability::Unknown,
                events_available: false,
                resume_generation: 0,
                generation: 0,
            }),
    {
        ConnectivitySnapshot {
            availability: NetworkAvailability::Unknown,
            events_available: false,
            resume_generation: 0,
            generation: 0,
        }
    }

    /// Whether there is no network path.
    #[verifier::allow_in_spec]
    pub fn is_offline(self) -> bool
        returns
            (self.availability == NetworkAvailability::Offline),
    {
        self.availability == NetworkAvailability::Offline
    }

    /// Whether the machine came back from sleep after `previous`.
    #[verifier::allow_in_spec]
    pub fn resumed_since(self, previous: ConnectivitySnapshot) -> bool
        returns
            (self.resume_generation != previous.resume_generation),
    {
        self.resume_generation != previous.resume_generation
    }
}

/// What a look at the network interfaces shows.
#[derive(Debug, Clone, Copy, PartialEq, Eq, Structural)]
pub struct InterfaceSummary {
    pub have_v4: bool,
    pub have_v6: bool,
    pub has_default_route: bool,
    /// When the machine last came back from sleep, in nanoseconds of a monotonic clock.
    pub last_unsuspend: Option<u128>,
}

/// Offline without any usable address, online with a default route, else unknown.
#[verifier::allow_in_spec]
pub fn interface_availability(summary: InterfaceSummary) -> NetworkAvailability
    returns
        (if !(summary.have_v4 || summary.have_v6) {
            NetworkAvailability::Offline
        } else if summary.has_default_route {
            NetworkAvailability::Online
        } else {
            NetworkAvailability::Unknown
        }),
{
    if !(summary.have_v4 || summary.have_v6) {
        NetworkAvailability::Offline
    } else if summary.has_default_route {
        NetworkAvailability::Online
    } else {
        NetworkAvailability::Unknown
    }
}

/// Holds the last published snapshot and publishes the changes.
#[derive(Debug, Clone, Copy, PartialEq, Eq, Structural)]
pub struct ConnectivityPublisher {
    pub current: ConnectivitySnapshot,
    pub last_unsuspend: Option<u128>,
}

/// Whether a report of a wake-up at `reported` is news to a publisher that has seen `seen`.
pub open spec fn is_new_resume(seen: Option<u128>, reported: Option<u128>) -> bool {
    match (reported, seen) {
        (Some(current), Some(last)) => current > last,
        (Some(_), None) => true,
        (None, _) => false,
    }
}

/// The publisher after a report.
pub open spec fn after_report(
    publisher: ConnectivityPublisher,
    availability: NetworkAvailability,
    events_available: bool,
    last_unsuspend: Option<u128>,
) -> ConnectivityPublisher {
    let previous = publisher.current;
    let resumed = is_new_resume(publisher.last_unsuspend, last_unsuspend);
    let resume_generation = if resumed {
        vstd::wrapping::u64_specs::wrapping_add(previous.resume_generation, 1)
    } else {
        previous.resume_generation
    };
    ConnectivityPublisher {
        last_unsuspend: if resumed {
            last_unsuspend
        } else {
            publisher.last_unsuspend
        },
        current: if previous.availability == availability && previous.events_available
            == events_available && previous.resume_generation == resume_generation {
            previous
        } else {
            ConnectivitySnapshot {
                availability,
                events_available,
                resume_generation,
                generation: vstd::wrapping::u64_specs::wrapping_add(previous.generation, 1),
            }
        },
    }
}

impl ConnectivityPublisher {
    /// A publisher that has published `initial`.
    #[verifier::allow_in_spec]
    pub fn new(initial: ConnectivitySnapshot) -> ConnectivityPublisher
        returns
            (ConnectivityPublisher { current: initial, last_unsuspend: None }),
    {
        ConnectivityPublisher { current: initial, last_unsuspend: None }
    }

    /// Takes in a report; tells whether a new snapshot was published.
    pub fn publish_snapshot(
        &mut self,
        availability: NetworkAvailability,
        events_available: bool,
        last_unsuspend: Option<u128>,
    ) -> (published: bool)
        ensures
            *final(self) == after_report(
                *old(self),
                availability,
                events_available,
                last_unsuspend,
            ),
            published == (final(self).current != old(self).current),
    {
        let previous = self.current;
        let resumed = match (last_unsuspend, self.last_unsuspend) {
            (Some(current), Some(last)) => current > last,
            (Some(_), None) => true,
            (None, _) => false,
        };
        if resumed {
            self.last_unsuspend = last_unsuspend;
        }
        let resume_generation: u64 = if resumed {
            previous.resume_generation.wrapping_add(1)
        } else {
            previous.resume_generation
        };
        if previous.availability == availability && previous.events_available == events_available
            && previous.resume_generation == resume_generation {
            return false;
        }
        self.current = ConnectivitySnapshot {
            availability,
            events_available,
            resume_generation,
            generation: previous.generation.wrapping_add(1),
        };
        true
    }

    /// Takes in a look at the interfaces.
    pub fn publish_interface_state(
        &mut self,
        summary: InterfaceSummary,
        events_available: bool,
    ) -> (published: bool)
        ensures
            *final(self) == after_report(
                *old(self),
                interface_availability(summary),
                events_available,
                summary.last_unsuspend,
            ),
            published == (final(self).current != old(self).current),
    {
        self.publish_snapshot(
            interface_availability(summary),
            events_available,
            summary.last_unsuspend,
        )
    }

    /// Takes in that changes are no longer reported.
    pub fn publish_events_unavailable(&mut self) -> (published: bool)
        ensures
            *final(self) == after_report(*old(self), old(self).current.availability, false, None),
            published == (final(self).current != old(self).current),
    {
        self.publish_snapshot(self.current.availability, false, None)
    }
}

/// A report that repeats the one before it publishes nothing.
pub proof fn repeated_report_publishes_nothing(
    publisher: ConnectivityPublisher,
    availability: NetworkAvailability,
    events_available: bool,
    last_unsuspend: Option<u128>,
)
    ensures
        ({
            let once = after_report(publisher, availability, events_available, last_unsuspend);
            after_report(once, availability, events_available, last_unsuspend) == once
        }),
{
}

/// A wake-up is published once: the generation of wake-ups moves on exactly when the reported
/// time is later than every time seen before.
pub proof fn resume_is_published_once(
    publisher: ConnectivityPublisher,
    availability: NetworkAvailability,
    events_available: bool,
    last_unsuspend: Option<u128>,
)
    ensures
        ({
            let after = after_report(publisher, availability, events_available, last_unsuspend);
            &&& after.current.resumed_since(publisher.current) == is_new_resume(
                publisher.last_unsuspend,
                last_unsuspend,
            )
            &&& !is_new_resume(after.last_unsuspend, last_unsuspend)
        }),
{
}

// ---------------------------------------------------------------------------
// Laws of the network
// ---------------------------------------------------------------------------
/// A machine is offline if and only if it has no address of either kind, and online if and only
/// if it has one and a default route.
pub proof fn networks_need_an_address_and_a_route(summary: InterfaceSummary)
    ensures
        interface_availability(summary) == NetworkAvailability::Offline <==> !summary.have_v4
            && !summary.have_v6,
        interface_availability(summary) == NetworkAvailability::Online
            <==> summary.has_default_route && (summary.have_v4 || summary.have_v6),
{
}

/// A wake-up is news if it is later than the last one that was seen; no report is never news.
pub proof fn later_wake_ups_are_news(seen: u128, reported: u128)
    ensures
        is_new_resume(Some(seen), Some(reported)) <==> seen < reported,
        is_new_resume(None, Some(reported)),
        !is_new_resume(Some(seen), None),
        !is_new_resume(None, None),
{
}

/// After a report the publisher holds what was reported. Its number moves on by one if and only
/// if something is new, and the number of wake-ups by one if and only if one is news.
pub proof fn reports_are_published(
    publisher: ConnectivityPublisher,
    availability: NetworkAvailability,
    events_available: bool,
    last_unsuspend: Option<u128>,
)
    requires
        publisher.current.generation < u64::MAX,
        publisher.current.resume_generation < u64::MAX,
    ensures
        ({
            let before = publisher.current;
            let after = after_report(publisher, availability, events_available, last_unsuspend);
            let news = last_unsuspend is Some && (publisher.last_unsuspend is None
                || publisher.last_unsuspend->0 < last_unsuspend->0);
            &&& after.current.availability == availability
            &&& after.current.events_available == events_available
            &&& after.current.resume_generation == before.resume_generation + if news {
                1int
            } else {
                0
            }
            &&& after.current.generation == before.generation + if news || availability
                != before.availability || events_available != before.events_available {
                1int
            } else {
                0
            }
            &&& after.last_unsuspend == if news {
                last_unsuspend
            } else {
                publisher.last_unsuspend
            }
        }),
{
}

/// Before the first report nothing is known, and that is not being offline.
pub proof fn nothing_is_known_at_first()
    ensures
        ConnectivitySnapshot::initial().availability == NetworkAvailability::Unknown,
        !ConnectivitySnapshot::initial().is_offline(),
        !ConnectivitySnapshot::initial().events_available,
        ConnectivitySnapshot::initial().generation == 0,
        ConnectivitySnapshot::initial().resume_generation == 0,
{
}

} // verus!
