//! The Bluetooth earphones, judged by the first matching device of a scan.
use super::devices::DeviceReport;
use crate::text::same_text;
use vstd::prelude::*;

verus! {

/// Whether the Bluetooth earphones are connected.
#[derive(Debug, Clone, Copy, PartialEq, Eq, Structural)]
pub enum BleEarphone {
    Activated,
    Deactivated,
}

/// Name of the Bluetooth earphones to look for.
pub open spec fn earphones_name() -> Seq<char> {
    "Airpods"@
}

/// Whether a scanned device is the earphones, so that its connection is to
/// be asked; the scan stops at the first one.
pub fn is_earphones(name: &str) -> (r: bool)
    ensures
        r == (name@ == earphones_name()),
{
    same_text(name, "Airpods")
}

/// The first device in the scan that is named `name`.
pub open spec fn first_named(reports: Seq<DeviceReport>, name: Seq<char>) -> Option<DeviceReport>
    decreases reports.len(),
{
    if reports.len() == 0 {
        None
    } else if reports[0].name@ == name {
        Some(reports[0])
    } else {
        first_named(reports.drop_first(), name)
    }
}

/// The earphones' state after a scan: activated when the first device named
/// like them is connected, deactivated otherwise and when there is none.
pub open spec fn ble_earphone_of(reports: Seq<DeviceReport>) -> BleEarphone {
    match first_named(reports, earphones_name()) {
        Some(d) => if d.connected == Some(true) {
            BleEarphone::Activated
        } else {
            BleEarphone::Deactivated
        },
        None => BleEarphone::Deactivated,
    }
}

proof fn lemma_first_named_skip(reports: Seq<DeviceReport>, name: Seq<char>, i: int)
    requires
        0 <= i <= reports.len(),
        forall|j: int| 0 <= j < i ==> (#[trigger] reports[j]).name@ != name,
    ensures
        first_named(reports, name) == first_named(reports.skip(i), name),
    decreases i,
{
    if i > 0 {
        let rest = reports.drop_first();
        assert forall|j: int| 0 <= j < i - 1 implies (#[trigger] rest[j]).name@ != name by {
            assert(rest[j] == reports[j + 1]);
        }
        lemma_first_named_skip(rest, name, i - 1);
        assert(rest.skip(i - 1) =~= reports.skip(i));
        assert(reports[0].name@ != name);
    } else {
        assert(reports.skip(0) =~= reports);
    }
}

/// Decides from a scan whether the Bluetooth earphones are in use; the answer
/// is never an error.
pub fn check_earphones(reports: &Vec<DeviceReport>) -> (r: Result<BleEarphone, String>)
    ensures
        r == Ok::<BleEarphone, String>(ble_earphone_of(reports@)),
{
    let n = reports.len();
    let mut i: usize = 0;
    while i < n
        invariant
            n == reports.len(),
            i <= n,
            forall|j: int| 0 <= j < i ==> (#[trigger] reports@[j]).name@ != earphones_name(),
        decreases n - i,
    {
        if is_earphones(reports[i].name.as_str()) {
            proof {
                lemma_first_named_skip(reports@, earphones_name(), i as int);
                assert(reports@.skip(i as int)[0] == reports@[i as int]);
            }
            match reports[i].connected {
                Some(true) => return Ok(BleEarphone::Activated),
                _ => return Ok(BleEarphone::Deactivated),
            }
        }
        i = i + 1;
    }
    proof {
        lemma_first_named_skip(reports@, earphones_name(), n as int);
        assert(reports@.skip(n as int).len() == 0);
    }
    Ok(BleEarphone::Deactivated)
}

} // verus!
