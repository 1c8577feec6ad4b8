//! What the hotplug bridge decides: whether a notification is worth a scan,
//! and how long to go on scanning for the change that it announced.

use vstd::prelude::*;
use crate::error::Error;
use crate::manager::{spec_is_ledger, DeviceDirection, Manager};

verus! {

/// How long a notification is followed up, in milliseconds.
pub const LEDGER_POLLING_INTERVAL_MS: u64 = 500;

/// How long the event loop waits for events before it looks at the exit
/// flag, in milliseconds.
pub const EVENT_TIMEOUT_MS: u64 = 500;

/// USB class code of a device that names its class per interface.
pub const USB_DEVICE_CLASS_DEVICE: u8 = 0;

/// What a notification is about.
#[derive(Debug, Clone, Copy, PartialEq, Eq, Structural)]
pub enum HotplugEvent {
    /// A device was plugged in.
    Arrival,
    /// A device was removed.
    Departure,
}

/// The change to scan for after a notification, if any: the event's own
/// direction, where the manager is still there and the device's ids could
/// be read and are those of a Ledger.
pub open spec fn spec_follow_up(event: HotplugEvent, manager_alive: bool, ids: Option<(u16, u16)>) -> Option<
    DeviceDirection,
> {
    if manager_alive && (ids matches Some(pair) && spec_is_ledger(pair.0, pair.1)) {
        Some(
            match event {
                HotplugEvent::Arrival => DeviceDirection::Arrived,
                HotplugEvent::Departure => DeviceDirection::Left,
            },
        )
    } else {
        None
    }
}

/// Decides whether a notification is followed by scans, and for which
/// change. `ids` are the vendor and product id from the device's
/// descriptor, if it could be read.
pub fn follow_up(event: HotplugEvent, manager_alive: bool, ids: Option<(u16, u16)>) -> (direction:
    Option<DeviceDirection>)
    ensures
        direction == spec_follow_up(event, manager_alive, ids),
{
    if !manager_alive {
        return None;
    }
    match ids {
        Some((vendor_id, product_id)) => match Manager::is_valid_ledger(vendor_id, product_id) {
            Ok(_) => Some(
                match event {
                    HotplugEvent::Arrival => DeviceDirection::Arrived,
                    HotplugEvent::Departure => DeviceDirection::Left,
                },
            ),
            Err(_) => None,
        },
        None => None,
    }
}

/// What the polling does next.
#[derive(Debug, Clone, Copy, PartialEq, Eq, Structural)]
pub enum PollStep {
    /// Scan once more.
    Scan,
    /// A scan saw the change: stop.
    Connected,
    /// The time is up and no scan saw the change: stop.
    TimedOut,
}

/// The next step of the polling, from the outcome of the last scan, if
/// there was one, and the time since the polling began, in nanoseconds.
pub open spec fn spec_poll_step(
    last_scan: Option<Result<usize, Error>>,
    elapsed_nanos: u128,
    timeout_nanos: u128,
) -> PollStep {
    if last_scan matches Some(Ok(_)) {
        PollStep::Connected
    } else if elapsed_nanos <= timeout_nanos {
        PollStep::Scan
    } else {
        PollStep::TimedOut
    }
}

/// Decides the next step of the polling that follows a notification: scans
/// are repeated, without a pause, until one succeeds or more time than
/// `timeout_nanos` has passed. Both times are in nanoseconds, so that no
/// part of a duration is cut off.
pub fn poll_step(last_scan: Option<&Result<usize, Error>>, elapsed_nanos: u128, timeout_nanos: u128) -> (step:
    PollStep)
    ensures
        step == spec_poll_step(
            match last_scan {
                Some(scan) => Some(*scan),
                None => None,
            },
            elapsed_nanos,
            timeout_nanos,
        ),
{
    match last_scan {
        Some(Ok(_)) => PollStep::Connected,
        _ => {
            if elapsed_nanos <= timeout_nanos {
                PollStep::Scan
            } else {
                PollStep::TimedOut
            }
        },
    }
}

} // verus!
