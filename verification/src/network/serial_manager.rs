//! Decisions of the serial GNSS link: which port is the target receiver,
//! and when a degradation of the RTK fix has lasted long enough to warn
//! the operator.

use vstd::prelude::*;
use vstd::string::*;
use crate::text::{decimal, push_decimal};

verus! {

/// Consecutive degraded epochs before an RTK warning is broadcast; at
/// 10 Hz, 20 epochs are two seconds of sustained degradation.
pub const RTK_DEBOUNCE_EPOCHS: u16 = 20;

/// Lowest fix quality that counts as RTK (4 = RTK fixed, 5 = RTK float).
pub const RTK_MIN_QUALITY: u8 = 4;

/// A serial port as enumerated by the operating system: its name and,
/// for a USB port, the vendor and product ids.
pub struct PortEntry {
    pub port_name: String,
    pub usb_ids: Option<(u16, u16)>,
}

/// Index of the first port that is a USB device with the given ids.
pub open spec fn first_match(ports: Seq<Option<(u16, u16)>>, vid: u16, pid: u16) -> Option<int>
    decreases ports.len(),
{
    if ports.len() == 0 {
        None
    } else {
        match first_match(ports.drop_last(), vid, pid) {
            Some(i) => Some(i),
            None => if ports.last() == Some((vid, pid)) {
                Some(ports.len() - 1)
            } else {
                None
            },
        }
    }
}

/// The USB ids of each port.
pub open spec fn ids_of(ports: Seq<PortEntry>) -> Seq<Option<(u16, u16)>> {
    ports.map_values(|p: PortEntry| p.usb_ids)
}

/// Serial link settings of the GNSS receiver to look for.
pub struct SerialManager {
    pub vid: u16,
    pub pid: u16,
    pub baud_rate: u32,
}

impl SerialManager {
    pub fn new(vid: u16, pid: u16, baud_rate: u32) -> (m: Self)
        ensures
            m.vid == vid,
            m.pid == pid,
            m.baud_rate == baud_rate,
    {
        SerialManager { vid, pid, baud_rate }
    }

    /// Name of the first enumerated port that is the target USB receiver.
    pub fn find_port(&self, ports: &Vec<PortEntry>) -> (r: Option<String>)
        ensures
            match first_match(ids_of(ports@), self.vid, self.pid) {
                Some(i) => r is Some && r->0@ == ports@[i].port_name@,
                None => r is None,
            },
    {
        let mut i: usize = 0;
        while i < ports.len()
            invariant
                i <= ports@.len(),
                first_match(ids_of(ports@.take(i as int)), self.vid, self.pid) is None,
            decreases ports.len() - i,
        {
            assert(ids_of(ports@.take(i + 1)).drop_last() =~= ids_of(ports@.take(i as int)));
            let ids = ports[i].usb_ids;
            let hit = match ids {
                Some((v, p)) => v == self.vid && p == self.pid,
                None => false,
            };
            if hit {
                proof {
                    let t = ids_of(ports@.take(i + 1));
                    assert(t.drop_last() =~= ids_of(ports@.take(i as int)));
                    assert(t.last() == ports@[i as int].usb_ids);
                    assert(first_match(t, self.vid, self.pid) == Some(i as int));
                    assert(ids_of(ports@).take(i + 1) =~= t);
                    lemma_first_match_prefix(ids_of(ports@), (i + 1) as nat, self.vid, self.pid);
                }
                let name = ports[i].port_name.clone();
                assert(first_match(ids_of(ports@), self.vid, self.pid) == Some(i as int));
                assert(name@ == ports@[i as int].port_name@);
                return Some(name);
            }
            i = i + 1;
        }
        proof {
            assert(ports@.take(ports@.len() as int) =~= ports@);
        }
        None
    }
}

/// A match found within a prefix is the match of the whole list.
proof fn lemma_first_match_prefix(ports: Seq<Option<(u16, u16)>>, n: nat, vid: u16, pid: u16)
    requires
        n <= ports.len(),
        first_match(ports.take(n as int), vid, pid) is Some,
    ensures
        first_match(ports, vid, pid) == first_match(ports.take(n as int), vid, pid),
    decreases ports.len() - n,
{
    if n < ports.len() {
        assert(ports.take((n + 1) as int).drop_last() =~= ports.take(n as int));
        lemma_first_match_prefix(ports, n + 1, vid, pid);
    } else {
        assert(ports.take(n as int) =~= ports);
    }
}

/// Debounce of RTK degradation: counts consecutive parsed epochs whose fix
/// quality is below RTK.
pub struct RtkMonitor {
    pub consecutive_degraded: u16,
}

/// The count after an epoch with fix quality `new` following quality `old`.
pub open spec fn next_degraded_count(count: u16, old: u8, new: u8) -> u16 {
    if new < RTK_MIN_QUALITY && old >= RTK_MIN_QUALITY {
        1
    } else if new < RTK_MIN_QUALITY {
        if count == u16::MAX {
            u16::MAX
        } else {
            (count + 1) as u16
        }
    } else {
        0
    }
}

impl RtkMonitor {
    pub fn new() -> (m: Self)
        ensures
            m.consecutive_degraded == 0,
    {
        RtkMonitor { consecutive_degraded: 0 }
    }

    /// Account for one parsed epoch whose fix quality went from `old_quality`
    /// to `new_quality`. Returns whether the degradation has just become
    /// sustained, that is whether a warning is due now.
    pub fn observe(&mut self, old_quality: u8, new_quality: u8) -> (warn: bool)
        ensures
            final(self).consecutive_degraded == next_degraded_count(
                old(self).consecutive_degraded,
                old_quality,
                new_quality,
            ),
            warn == (final(self).consecutive_degraded == RTK_DEBOUNCE_EPOCHS),
    {
        if new_quality < RTK_MIN_QUALITY && old_quality >= RTK_MIN_QUALITY {
            self.consecutive_degraded = 1;
        } else if new_quality < RTK_MIN_QUALITY {
            self.consecutive_degraded = self.consecutive_degraded.saturating_add(1);
        } else {
            self.consecutive_degraded = 0;
        }
        self.consecutive_degraded == RTK_DEBOUNCE_EPOCHS
    }
}

/// The count after a run of epochs with the given qualities, starting from
/// `count` after an epoch of quality `old`.
pub open spec fn count_after(count: u16, old: u8, qualities: Seq<u8>) -> u16
    decreases qualities.len(),
{
    if qualities.len() == 0 {
        count
    } else {
        let prev = if qualities.len() == 1 {
            old
        } else {
            qualities[qualities.len() - 2]
        };
        next_degraded_count(count_after(count, old, qualities.drop_last()), prev, qualities.last())
    }
}

/// From an RTK epoch, a run of `k` degraded epochs (0 < k, below the
/// `u16` limit) leaves the count at exactly `k`: the warning is due on the
/// 20th degraded epoch in a row and on no other; any RTK epoch resets it.
pub proof fn law_rtk_warning_after_sustained_run(count: u16, old: u8, qualities: Seq<u8>)
    requires
        old >= RTK_MIN_QUALITY,
        0 < qualities.len() < u16::MAX,
        forall|i: int| 0 <= i < qualities.len() ==> #[trigger] qualities[i] < RTK_MIN_QUALITY,
    ensures
        count_after(count, old, qualities) == qualities.len(),
    decreases qualities.len(),
{
    if qualities.len() > 1 {
        law_rtk_warning_after_sustained_run(count, old, qualities.drop_last());
        assert(qualities[qualities.len() - 2] < RTK_MIN_QUALITY);
    }
}

/// Any epoch at RTK quality resets the count, so no warning is due.
pub proof fn law_rtk_epoch_resets(count: u16, old: u8, new: u8)
    requires
        new >= RTK_MIN_QUALITY,
    ensures
        next_degraded_count(count, old, new) == 0,
{
}

/// Machine-readable code of the RTK degradation warning.
pub fn rtk_warning_code() -> (s: String)
    ensures
        s@ == "RTK_DEGRADATION"@,
{
    String::from_str("RTK_DEGRADATION")
}

/// Text of the RTK degradation warning.
pub open spec fn spec_rtk_warning_message(old: u8, new: u8) -> Seq<char> {
    "RTK fix quality degraded from "@ + decimal(old as nat) + " to "@ + decimal(new as nat)
        + " (sustained "@ + decimal(RTK_DEBOUNCE_EPOCHS as nat) + " epochs)"@
}

/// Text of the RTK degradation warning broadcast to clients.
pub fn rtk_warning_message(old_quality: u8, new_quality: u8) -> (s: String)
    ensures
        s@ == spec_rtk_warning_message(old_quality, new_quality),
{
    let mut s = String::from_str("RTK fix quality degraded from ");
    push_decimal(&mut s, old_quality as u64);
    s.append(" to ");
    push_decimal(&mut s, new_quality as u64);
    s.append(" (sustained ");
    push_decimal(&mut s, RTK_DEBOUNCE_EPOCHS as u64);
    s.append(" epochs)");
    s
}

} // verus!
