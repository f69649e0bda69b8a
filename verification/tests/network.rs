use stk::network::{
    interface_availability, ConnectivityPublisher, ConnectivitySnapshot, InterfaceSummary,
    NetworkAvailability,
};

#[test]
fn fixed_connectivity_is_what_it_was_made_with() {
    let mut snapshot = ConnectivitySnapshot::initial();
    assert_eq!(snapshot.availability, NetworkAvailability::Unknown);
    assert!(!snapshot.is_offline());
    snapshot.availability = NetworkAvailability::Offline;
    assert!(snapshot.is_offline());
}

#[test]
fn controlled_connectivity_publishes_transitions() {
    let mut publisher = ConnectivityPublisher::new(ConnectivitySnapshot {
        availability: NetworkAvailability::Offline,
        events_available: true,
        resume_generation: 0,
        generation: 0,
    });
    let initial = publisher.current;
    assert!(publisher.publish_snapshot(NetworkAvailability::Online, true, None));
    let current = publisher.current;
    assert_eq!(current.availability, NetworkAvailability::Online);
    assert!(current.generation > initial.generation);
}

#[test]
fn duplicate_network_snapshots_are_not_rebroadcast() {
    let mut publisher = ConnectivityPublisher::new(ConnectivitySnapshot::initial());

    assert!(publisher.publish_snapshot(NetworkAvailability::Online, true, None));
    let published = publisher.current;

    assert!(!publisher.publish_snapshot(NetworkAvailability::Online, true, None));
    assert_eq!(publisher.current, published);
}

#[test]
fn unsuspend_timestamp_is_published_once_as_an_event_generation() {
    let mut publisher = ConnectivityPublisher::new(ConnectivitySnapshot::initial());
    let first_resume = 5_000_000_000;

    assert!(publisher.publish_snapshot(NetworkAvailability::Online, true, Some(first_resume)));
    let first = publisher.current;
    assert_eq!(first.resume_generation, 1);

    assert!(!publisher.publish_snapshot(NetworkAvailability::Online, true, Some(first_resume)));
    assert!(!publisher.publish_snapshot(NetworkAvailability::Online, true, None));

    assert!(publisher.publish_snapshot(
        NetworkAvailability::Online,
        true,
        Some(first_resume + 1_000_000_000),
    ));
    let second = publisher.current;
    assert_eq!(second.resume_generation, 2);
    assert!(second.resumed_since(first));
}

#[test]
fn interfaces_tell_whether_the_machine_is_online() {
    let summary = |have_v4, have_v6, has_default_route| InterfaceSummary {
        have_v4,
        have_v6,
        has_default_route,
        last_unsuspend: None,
    };
    assert_eq!(
        interface_availability(summary(false, false, true)),
        NetworkAvailability::Offline
    );
    assert_eq!(
        interface_availability(summary(false, true, true)),
        NetworkAvailability::Online
    );
    assert_eq!(
        interface_availability(summary(true, false, false)),
        NetworkAvailability::Unknown
    );
    let mut publisher = ConnectivityPublisher::new(ConnectivitySnapshot::initial());
    assert!(publisher.publish_interface_state(summary(true, false, true), true));
    assert!(publisher.publish_events_unavailable());
    assert!(!publisher.current.events_available);
    assert_eq!(
        publisher.current.availability,
        NetworkAvailability::Online
    );
}
