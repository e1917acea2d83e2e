//! Headphones: the wired jack of the sound card and the Bluetooth earphones.
use crate::text::same_text;
use vstd::prelude::*;

verus! {

/// Whether headphones are in use.
#[derive(Debug, Clone, Copy, PartialEq, Eq, Structural)]
pub enum Earphone {
    Activated,
    Deactivated,
}

impl Earphone {
    pub open spec fn name(self) -> Seq<char> {
        match self {
            Earphone::Activated => "Activated"@,
            Earphone::Deactivated => "Deactivated"@,
        }
    }

    /// The variant's name, as it is printed.
    pub fn to_string(&self) -> (r: String)
        ensures
            r@ == self.name(),
    {
        match self {
            Earphone::Activated => String::from_str("Activated"),
            Earphone::Deactivated => String::from_str("Deactivated"),
        }
    }
}

/// The earphone state that a headphone-jack reading stands for: a plugged jack
/// means headphones are in use; an unplugged jack, or a reading that failed,
/// means they are not. The answer is never an error.
pub fn check_earphones(jack: Result<bool, String>) -> (r: Result<Earphone, String>)
    ensures
        r == Ok::<Earphone, String>(
            if jack == Ok::<bool, String>(true) { Earphone::Activated } else { Earphone::Deactivated },
        ),
{
    let is_jack_in = match jack {
        Ok(j) => j,
        Err(_) => false,
    };
    if is_jack_in {
        return Ok(Earphone::Activated);
    }
    Ok(Earphone::Deactivated)
}

/// Name of the sound card control that reports the headphone jack.
pub open spec fn headphone_jack_control() -> Seq<char> {
    "Headphone Jack"@
}

/// Whether a sound card control is the headphone jack, whose state tells
/// whether headphones are plugged in.
pub fn is_headphone_jack(name: &str) -> (r: bool)
    ensures
        r == (name@ == headphone_jack_control()),
{
    same_text(name, "Headphone Jack")
}

/// A Bluetooth device seen in a scan: its name, and whether it is connected
/// when that was asked.
#[derive(Debug)]
pub struct DeviceReport {
    pub name: String,
    pub connected: Option<bool>,
}

/// Name of the Bluetooth earphones to look for.
pub open spec fn airpods_name() -> Seq<char> {
    "AirPods"@
}

/// Whether a scanned device is the earphones, so that its connection is to
/// be asked.
pub fn is_airpods(name: &str) -> (r: bool)
    ensures
        r == (name@ == airpods_name()),
{
    same_text(name, "AirPods")
}

/// Whether the last device in the scan that is named `name` was found connected.
pub open spec fn last_named_connected(reports: Seq<DeviceReport>, name: Seq<char>) -> bool
    decreases reports.len(),
{
    if reports.len() == 0 {
        false
    } else if reports.last().name@ == name {
        reports.last().connected == Some(true)
    } else {
        last_named_connected(reports.drop_last(), name)
    }
}

/// The outcome of a Bluetooth scan for the earphones: connected when the
/// last device of that name was, and only if the scan could be stopped
/// cleanly.
pub fn airpods_connected(reports: &Vec<DeviceReport>, discovery_stopped: bool) -> (r: bool)
    ensures
        r == (discovery_stopped && last_named_connected(reports@, airpods_name())),
{
    let n = reports.len();
    let mut is_device_connected = false;
    let mut i: usize = 0;
    assert(reports@.take(0).len() == 0);
    while i < n
        invariant
            n == reports.len(),
            i <= n,
            is_device_connected == last_named_connected(reports@.take(i as int), airpods_name()),
        decreases n - i,
    {
        assert(reports@.take(i + 1).drop_last() =~= reports@.take(i as int));
        assert(reports@.take(i + 1).last() == reports@[i as int]);
        if is_airpods(reports[i].name.as_str()) {
            is_device_connected = match reports[i].connected {
                Some(c) => c,
                None => false,
            };
        }
        i = i + 1;
    }
    assert(reports@.take(n as int) =~= reports@);
    if !discovery_stopped {
        return false;
    }
    is_device_connected
}

} // verus!
