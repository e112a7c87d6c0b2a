use fwupd_dbus::device::Device;
use fwupd_dbus::signal::{
    collect_signals, decode_signal, stream_step, BusItem, PropValue, RawSignal, Signal,
    SignalBody, StreamStep,
};

fn device(id: &str) -> Device {
    Device { device_id: id.to_string(), name: "Example Device".to_string(), only_offline: false }
}

fn device_added(id: &str) -> BusItem {
    BusItem::Signal(RawSignal {
        member: "DeviceAdded".to_string(),
        body: SignalBody::DeviceRecord(device(id)),
    })
}

fn changed() -> BusItem {
    BusItem::Signal(RawSignal { member: "Changed".to_string(), body: SignalBody::Empty })
}

#[test]
fn cleared_flag_ends_stream_immediately() {
    let mut items = vec![changed(), device_added("d1"), changed()];
    let live = vec![false, true, true];
    assert_eq!(collect_signals(&mut items, &live), Vec::new());
}

#[test]
fn flag_cleared_midway_yields_only_the_prefix() {
    let mut items = vec![device_added("d1"), device_added("d2"), device_added("d3")];
    let live = vec![true, true, false];
    let signals = collect_signals(&mut items, &live);
    assert_eq!(signals.len(), 2);
    assert!(matches!(&signals[0], Signal::DeviceAdded(d) if d.device_id == "d1"));
    assert!(matches!(&signals[1], Signal::DeviceAdded(d) if d.device_id == "d2"));
    // The unprocessed tail stays put.
    assert_eq!(items.len(), 0);
}

#[test]
fn non_signal_items_are_never_surfaced() {
    let mut items = vec![BusItem::NonSignal, changed(), BusItem::NonSignal];
    let live = vec![true, true, true];
    let signals = collect_signals(&mut items, &live);
    assert_eq!(signals, vec![Signal::Changed]);
}

#[test]
fn unrecognized_member_never_appears() {
    let mut items = vec![
        BusItem::Signal(RawSignal {
            member: "SomeFutureSignal".to_string(),
            body: SignalBody::Empty,
        }),
        changed(),
    ];
    let live = vec![true, true];
    let signals = collect_signals(&mut items, &live);
    assert_eq!(signals, vec![Signal::Changed]);
}

#[test]
fn decode_failure_does_not_end_stream() {
    let mut items = vec![
        BusItem::Signal(RawSignal {
            member: "DeviceAdded".to_string(),
            body: SignalBody::Malformed("argument mismatch in DeviceAdded method".to_string()),
        }),
        device_added("survivor"),
    ];
    let live = vec![true, true];
    let signals = collect_signals(&mut items, &live);
    assert_eq!(signals.len(), 1);
    assert!(matches!(&signals[0], Signal::DeviceAdded(d) if d.device_id == "survivor"));
}

#[test]
fn device_lifecycle_members_decode_to_their_variants() {
    for (member, check) in [
        ("DeviceAdded", Signal::DeviceAdded(device("x"))),
        ("DeviceChanged", Signal::DeviceChanged(device("x"))),
        ("DeviceRemoved", Signal::DeviceRemoved(device("x"))),
    ] {
        let decoded = decode_signal(RawSignal {
            member: member.to_string(),
            body: SignalBody::DeviceRecord(device("x")),
        });
        assert_eq!(decoded, Some(check));
    }
}

#[test]
fn properties_changed_decodes_structured_payload() {
    let decoded = decode_signal(RawSignal {
        member: "PropertiesChanged".to_string(),
        body: SignalBody::Properties {
            interface: "org.freedesktop.fwupd".to_string(),
            changed: vec![("Percentage".to_string(), PropValue::Uint64(40))],
            invalidated: vec!["Status".to_string()],
        },
    });
    assert_eq!(
        decoded,
        Some(Signal::PropertiesChanged {
            interface: "org.freedesktop.fwupd".to_string(),
            changed: vec![("Percentage".to_string(), PropValue::Uint64(40))],
            invalidated: vec!["Status".to_string()],
        })
    );
}

#[test]
fn wrong_shape_for_member_is_dropped() {
    let decoded = decode_signal(RawSignal {
        member: "DeviceAdded".to_string(),
        body: SignalBody::Empty,
    });
    assert_eq!(decoded, None);
}

#[test]
fn step_ends_exactly_on_cleared_flag() {
    assert_eq!(stream_step(false, changed()), StreamStep::Ended);
    assert_eq!(stream_step(true, changed()), StreamStep::Yielded(Signal::Changed));
    assert_eq!(stream_step(true, BusItem::NonSignal), StreamStep::Skipped);
}
