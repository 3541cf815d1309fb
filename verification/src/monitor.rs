//! The background monitor: snapshot diffing and the monitoring state
//! machine. The surrounding loop (timers, task spawning, the event
//! callback) lives outside the library; every decision it takes is made
//! here.

use vstd::prelude::*;
use vstd::seq_lib::*;

use crate::config::{DEFAULT_MONITOR_INTERVAL, MAX_MONITOR_INTERVAL, MIN_MONITOR_INTERVAL};
use crate::events::{DeviceSnapshot, MonitoringStatus, NetworkEvent};

verus! {

/// Whether some snapshot in the list has this MAC.
pub open spec fn spec_has_mac(s: Seq<DeviceSnapshot>, mac: Seq<char>) -> bool {
    exists|i: int| 0 <= i < s.len() && (#[trigger] s[i]).mac@ == mac
}

/// The first snapshot with this MAC.
pub open spec fn spec_find_snapshot(s: Seq<DeviceSnapshot>, mac: Seq<char>) -> Option<
    DeviceSnapshot,
>
    decreases s.len(),
{
    if s.len() == 0 {
        None
    } else if s[0].mac@ == mac {
        Some(s[0])
    } else {
        spec_find_snapshot(s.drop_first(), mac)
    }
}

/// No two snapshots share a MAC.
pub open spec fn spec_unique_macs(s: Seq<DeviceSnapshot>) -> bool {
    forall|i: int, j: int| 0 <= i < j < s.len() ==> (#[trigger] s[i]).mac@ != (#[trigger] s[j]).mac@
}

/// The event announcing a newly discovered device.
pub open spec fn spec_new_event(d: DeviceSnapshot) -> NetworkEvent {
    NetworkEvent::NewDeviceDiscovered {
        ip: d.ip,
        mac: d.mac,
        hostname: d.hostname,
        device_type: d.device_type,
    }
}

/// The event announcing a device that went offline.
pub open spec fn spec_offline_event(d: DeviceSnapshot) -> NetworkEvent {
    NetworkEvent::DeviceWentOffline { mac: d.mac, last_ip: d.ip, hostname: d.hostname }
}

/// The event announcing a device whose IP changed.
pub open spec fn spec_ip_change_event(p: DeviceSnapshot, d: DeviceSnapshot) -> NetworkEvent {
    NetworkEvent::DeviceIpChanged { mac: d.mac, old_ip: p.ip, new_ip: d.ip }
}

/// One current device's contribution to the new-device events.
pub open spec fn spec_new_of(prev: Seq<DeviceSnapshot>) -> spec_fn(DeviceSnapshot) -> Option<
    NetworkEvent,
> {
    |d: DeviceSnapshot|
        if !spec_has_mac(prev, d.mac@) {
            Some(spec_new_event(d))
        } else {
            None
        }
}

/// One previous device's contribution to the offline events.
pub open spec fn spec_offline_of(cur: Seq<DeviceSnapshot>) -> spec_fn(DeviceSnapshot) -> Option<
    NetworkEvent,
> {
    |d: DeviceSnapshot|
        if !spec_has_mac(cur, d.mac@) {
            Some(spec_offline_event(d))
        } else {
            None
        }
}

/// One current device's contribution to the IP-change events.
pub open spec fn spec_change_of(prev: Seq<DeviceSnapshot>) -> spec_fn(DeviceSnapshot) -> Option<
    NetworkEvent,
> {
    |d: DeviceSnapshot|
        match spec_find_snapshot(prev, d.mac@) {
            Some(p) => if p.ip@ != d.ip@ {
                Some(spec_ip_change_event(p, d))
            } else {
                None
            },
            None => None,
        }
}

/// Every device event of one diff, in order: devices whose MAC is new,
/// then devices whose MAC disappeared, then devices whose MAC stayed but
/// whose IP changed.
pub open spec fn spec_diff_events(prev: Seq<DeviceSnapshot>, cur: Seq<DeviceSnapshot>) -> Seq<
    NetworkEvent,
> {
    cur.filter_map(spec_new_of(prev)) + prev.filter_map(spec_offline_of(cur)) + cur.filter_map(
        spec_change_of(prev),
    )
}

/// Whether some stored snapshot has this MAC.
fn has_mac(s: &Vec<DeviceSnapshot>, mac: &str) -> (r: bool)
    ensures
        r == spec_has_mac(s@, mac@),
{
    let n = s.len();
    for i in 0..n
        invariant
            n == s@.len(),
            forall|j: int| 0 <= j < i ==> (#[trigger] s@[j]).mac@ != mac@,
    {
        if crate::text::str_eq(s[i].mac.as_str(), mac) {
            return true;
        }
    }
    false
}

/// Finds the index of the first snapshot with this MAC.
fn find_snapshot(s: &Vec<DeviceSnapshot>, mac: &str) -> (r: Option<usize>)
    ensures
        match r {
            Some(k) => 0 <= k < s@.len() && spec_find_snapshot(s@, mac@) == Some(s@[k as int]),
            None => spec_find_snapshot(s@, mac@) is None,
        },
{
    let n = s.len();
    assert(s@.skip(0) =~= s@);
    for i in 0..n
        invariant
            n == s@.len(),
            spec_find_snapshot(s@, mac@) == spec_find_snapshot(s@.skip(i as int), mac@),
    {
        proof {
            assert(s@.skip(i as int)[0] == s@[i as int]);
            assert(s@.skip(i as int).drop_first() =~= s@.skip(i + 1));
        }
        if crate::text::str_eq(s[i].mac.as_str(), mac) {
            return Some(i);
        }
    }
    proof {
        assert(s@.skip(n as int).len() == 0);
    }
    None
}

/// Detects changes between two scans. Identity is the MAC: a device whose
/// MAC is absent from the previous scan is new, one whose MAC is absent
/// from the current scan went offline, and one present in both with a
/// different IP changed its IP. Events come in that order; the order
/// across devices within one group follows the scan lists.
pub fn detect_changes(previous: &Vec<DeviceSnapshot>, current: &Vec<DeviceSnapshot>) -> (events:
    Vec<NetworkEvent>)
    ensures
        events@ == spec_diff_events(previous@, current@),
{
    let ghost f_new = spec_new_of(previous@);
    let ghost f_off = spec_offline_of(current@);
    let ghost f_chg = spec_change_of(previous@);
    let mut events: Vec<NetworkEvent> = Vec::new();
    let n = current.len();
    for i in 0..n
        invariant
            n == current@.len(),
            f_new == spec_new_of(previous@),
            events@ == current@.take(i as int).filter_map(f_new),
    {
        proof {
            current@.lemma_filter_map_take_succ(f_new, i as int);
        }
        let d = &current[i];
        if !has_mac(previous, d.mac.as_str()) {
            events.push(
                NetworkEvent::NewDeviceDiscovered {
                    ip: d.ip.clone(),
                    mac: d.mac.clone(),
                    hostname: match &d.hostname {
                        Some(h) => Some(h.clone()),
                        None => None,
                    },
                    device_type: d.device_type.clone(),
                },
            );
        }
    }
    proof {
        assert(current@.take(n as int) =~= current@);
    }
    let ghost new_done = events@;
    let m = previous.len();
    for i in 0..m
        invariant
            m == previous@.len(),
            f_off == spec_offline_of(current@),
            new_done == current@.filter_map(spec_new_of(previous@)),
            events@ == new_done + previous@.take(i as int).filter_map(f_off),
    {
        proof {
            previous@.lemma_filter_map_take_succ(f_off, i as int);
        }
        let d = &previous[i];
        if !has_mac(current, d.mac.as_str()) {
            events.push(
                NetworkEvent::DeviceWentOffline {
                    mac: d.mac.clone(),
                    last_ip: d.ip.clone(),
                    hostname: match &d.hostname {
                        Some(h) => Some(h.clone()),
                        None => None,
                    },
                },
            );
        }
    }
    proof {
        assert(previous@.take(m as int) =~= previous@);
    }
    let ghost off_done = events@;
    for i in 0..n
        invariant
            n == current@.len(),
            f_chg == spec_change_of(previous@),
            off_done == current@.filter_map(spec_new_of(previous@)) + previous@.filter_map(
                spec_offline_of(current@),
            ),
            events@ == off_done + current@.take(i as int).filter_map(f_chg),
    {
        proof {
            current@.lemma_filter_map_take_succ(f_chg, i as int);
        }
        let d = &current[i];
        match find_snapshot(previous, d.mac.as_str()) {
            Some(k) => {
                if !crate::text::str_eq(previous[k].ip.as_str(), d.ip.as_str()) {
                    events.push(
                        NetworkEvent::DeviceIpChanged {
                            mac: d.mac.clone(),
                            old_ip: previous[k].ip.clone(),
                            new_ip: d.ip.clone(),
                        },
                    );
                }
            },
            None => {},
        }
    }
    proof {
        assert(current@.take(n as int) =~= current@);
    }
    events
}

/// A selective map that keeps nothing yields nothing.
proof fn lemma_filter_map_all_none<A, B>(s: Seq<A>, f: spec_fn(A) -> Option<B>)
    requires
        forall|i: int| 0 <= i < s.len() ==> f(#[trigger] s[i]) is None,
    ensures
        s.filter_map(f) =~= Seq::<B>::empty(),
    decreases s.len(),
{
    if s.len() > 0 {
        lemma_filter_map_all_none(s.drop_last(), f);
    }
}

/// A selective map that keeps exactly one element yields exactly that.
proof fn lemma_filter_map_single<A, B>(s: Seq<A>, f: spec_fn(A) -> Option<B>, i: int)
    requires
        0 <= i < s.len(),
        forall|j: int| 0 <= j < s.len() && j != i ==> f(#[trigger] s[j]) is None,
        f(s[i]) is Some,
    ensures
        s.filter_map(f) =~= seq![f(s[i])->0],
    decreases s.len(),
{
    if i == s.len() - 1 {
        lemma_filter_map_all_none(s.drop_last(), f);
    } else {
        lemma_filter_map_single(s.drop_last(), f, i);
    }
}

/// With unique MACs, the lookup finds exactly the snapshot at the matching
/// index.
proof fn lemma_find_at(s: Seq<DeviceSnapshot>, mac: Seq<char>, i: int)
    requires
        spec_unique_macs(s),
        0 <= i < s.len(),
        s[i].mac@ == mac,
    ensures
        spec_find_snapshot(s, mac) == Some(s[i]),
    decreases s.len(),
{
    if s[0].mac@ == mac {
        assert(i == 0);
    } else {
        assert(i > 0);
        assert(forall|k: int|
            0 <= k < s.drop_first().len() ==> #[trigger] s.drop_first()[k] == s[k + 1]);
        lemma_find_at(s.drop_first(), mac, i - 1);
    }
}

/// A found snapshot has the MAC it was looked up by.
proof fn lemma_find_mac(s: Seq<DeviceSnapshot>, mac: Seq<char>)
    requires
        spec_find_snapshot(s, mac) is Some,
    ensures
        spec_find_snapshot(s, mac)->0.mac@ == mac,
    decreases s.len(),
{
    if s.len() > 0 && s[0].mac@ != mac {
        lemma_find_mac(s.drop_first(), mac);
    }
}

/// A MAC that no snapshot has is not found.
proof fn lemma_find_none(s: Seq<DeviceSnapshot>, mac: Seq<char>)
    requires
        !spec_has_mac(s, mac),
    ensures
        spec_find_snapshot(s, mac) is None,
    decreases s.len(),
{
    if s.len() > 0 {
        assert(s[0].mac@ != mac);
        assert(forall|k: int|
            0 <= k < s.drop_first().len() ==> #[trigger] s.drop_first()[k] == s[k + 1]);
        assert(!spec_has_mac(s.drop_first(), mac));
        lemma_find_none(s.drop_first(), mac);
    }
}

/// Diffing a scan against itself emits no event.
pub proof fn lemma_diff_identity(prev: Seq<DeviceSnapshot>)
    requires
        spec_unique_macs(prev),
    ensures
        spec_diff_events(prev, prev).len() == 0,
{
    assert forall|i: int| 0 <= i < prev.len() implies spec_new_of(prev)(#[trigger] prev[i])
        is None by {
        assert(spec_has_mac(prev, prev[i].mac@));
    }
    lemma_filter_map_all_none(prev, spec_new_of(prev));
    assert forall|i: int| 0 <= i < prev.len() implies spec_offline_of(prev)(#[trigger] prev[i])
        is None by {
        assert(spec_has_mac(prev, prev[i].mac@));
    }
    lemma_filter_map_all_none(prev, spec_offline_of(prev));
    assert forall|i: int| 0 <= i < prev.len() implies spec_change_of(prev)(#[trigger] prev[i])
        is None by {
        lemma_find_at(prev, prev[i].mac@, i);
    }
    lemma_filter_map_all_none(prev, spec_change_of(prev));
}

/// A scan that differs only by one added device emits exactly one
/// new-device event, for that device.
pub proof fn lemma_diff_new_device(prev: Seq<DeviceSnapshot>, x: DeviceSnapshot)
    requires
        spec_unique_macs(prev),
        !spec_has_mac(prev, x.mac@),
    ensures
        spec_diff_events(prev, prev.push(x)) =~= seq![spec_new_event(x)],
{
    let cur = prev.push(x);
    assert(cur.drop_last() =~= prev);
    assert(cur.last() == x);
    assert forall|i: int| 0 <= i < prev.len() implies spec_new_of(prev)(#[trigger] prev[i])
        is None by {
        assert(spec_has_mac(prev, prev[i].mac@));
    }
    lemma_filter_map_all_none(prev, spec_new_of(prev));
    assert(cur.filter_map(spec_new_of(prev)) =~= seq![spec_new_event(x)]);
    assert forall|i: int| 0 <= i < prev.len() implies spec_offline_of(cur)(#[trigger] prev[i])
        is None by {
        assert(cur[i] == prev[i]);
        assert(spec_has_mac(cur, prev[i].mac@));
    }
    lemma_filter_map_all_none(prev, spec_offline_of(cur));
    assert forall|i: int| 0 <= i < cur.len() implies spec_change_of(prev)(#[trigger] cur[i])
        is None by {
        if i < prev.len() {
            lemma_find_at(prev, prev[i].mac@, i);
        } else {
            assert(cur[i] == x);
            lemma_find_none(prev, x.mac@);
        }
    }
    lemma_filter_map_all_none(cur, spec_change_of(prev));
}

/// A scan that differs only by one removed device emits exactly one
/// went-offline event, for that device.
pub proof fn lemma_diff_device_offline(prev: Seq<DeviceSnapshot>, x: DeviceSnapshot)
    requires
        spec_unique_macs(prev),
        !spec_has_mac(prev, x.mac@),
    ensures
        spec_diff_events(prev.push(x), prev) =~= seq![spec_offline_event(x)],
{
    let old = prev.push(x);
    assert(old.drop_last() =~= prev);
    assert forall|i: int| 0 <= i < prev.len() implies spec_new_of(old)(#[trigger] prev[i])
        is None by {
        assert(old[i] == prev[i]);
        assert(spec_has_mac(old, prev[i].mac@));
    }
    lemma_filter_map_all_none(prev, spec_new_of(old));
    assert forall|i: int| 0 <= i < prev.len() implies spec_offline_of(prev)(#[trigger] old[i])
        is None by {
        assert(old[i] == prev[i]);
        assert(spec_has_mac(prev, prev[i].mac@));
    }
    assert(spec_offline_of(prev)(old[prev.len() as int]) == Some(spec_offline_event(x)));
    lemma_filter_map_single(old, spec_offline_of(prev), prev.len() as int);
    assert forall|i: int| 0 <= i < prev.len() implies spec_change_of(old)(#[trigger] prev[i])
        is None by {
        assert(old[i] == prev[i]);
        lemma_find_at(old, prev[i].mac@, i);
    }
    lemma_filter_map_all_none(prev, spec_change_of(old));
}

/// A scan that differs only by one device's IP emits exactly one
/// IP-changed event: not a new-device and a went-offline pair.
pub proof fn lemma_diff_ip_changed(prev: Seq<DeviceSnapshot>, i: int, x: DeviceSnapshot)
    requires
        spec_unique_macs(prev),
        0 <= i < prev.len(),
        x.mac@ == prev[i].mac@,
        x.ip@ != prev[i].ip@,
    ensures
        spec_diff_events(prev, prev.update(i, x)) =~= seq![spec_ip_change_event(prev[i], x)],
{
    let cur = prev.update(i, x);
    assert(cur.len() == prev.len());
    assert forall|j: int| 0 <= j < cur.len() implies spec_new_of(prev)(#[trigger] cur[j])
        is None by {
        if j == i {
            assert(spec_has_mac(prev, cur[j].mac@));
        } else {
            assert(cur[j] == prev[j]);
            assert(spec_has_mac(prev, cur[j].mac@));
        }
    }
    lemma_filter_map_all_none(cur, spec_new_of(prev));
    assert forall|j: int| 0 <= j < prev.len() implies spec_offline_of(cur)(#[trigger] prev[j])
        is None by {
        if j == i {
            assert(cur[j].mac@ == prev[j].mac@);
            assert(spec_has_mac(cur, prev[j].mac@));
        } else {
            assert(cur[j] == prev[j]);
            assert(spec_has_mac(cur, prev[j].mac@));
        }
    }
    lemma_filter_map_all_none(prev, spec_offline_of(cur));
    assert forall|j: int| 0 <= j < cur.len() && j != i implies spec_change_of(prev)(
        #[trigger] cur[j],
    ) is None by {
        assert(cur[j] == prev[j]);
        lemma_find_at(prev, prev[j].mac@, j);
    }
    lemma_find_at(prev, x.mac@, i);
    assert(spec_change_of(prev)(cur[i]) == Some(spec_ip_change_event(prev[i], x)));
    lemma_filter_map_single(cur, spec_change_of(prev), i);
}

/// The monitor's cadence, clamped to the accepted range; absent, the
/// default.
pub open spec fn spec_clamp_interval(interval: Option<u64>) -> u64 {
    match interval {
        Some(v) => if v < MIN_MONITOR_INTERVAL {
            MIN_MONITOR_INTERVAL
        } else if v > MAX_MONITOR_INTERVAL {
            MAX_MONITOR_INTERVAL
        } else {
            v
        },
        None => DEFAULT_MONITOR_INTERVAL,
    }
}

/// How many snapshots are marked online.
pub open spec fn spec_online_count(s: Seq<DeviceSnapshot>) -> int
    decreases s.len(),
{
    if s.len() == 0 {
        0
    } else {
        spec_online_count(s.drop_last()) + (if s.last().is_online {
            1int
        } else {
            0int
        })
    }
}

/// The background network monitor: scheduled scans, snapshot diffing,
/// event emission. This is the monitor's entire decision logic; the
/// clock, the scan itself and the callback are driven from outside, scan
/// by scan.
#[derive(Debug)]
pub struct BackgroundMonitor {
    pub is_running: bool,
    pub interval_seconds: u64,
    pub scan_count: u32,
    pub last_scan_time: Option<String>,
    pub previous_devices: Vec<DeviceSnapshot>,
}

/// A well-formed monitor: cadence in range, one snapshot per MAC.
pub open spec fn spec_monitor_wf(m: BackgroundMonitor) -> bool {
    &&& MIN_MONITOR_INTERVAL <= m.interval_seconds <= MAX_MONITOR_INTERVAL
    &&& spec_unique_macs(m.previous_devices@)
}

impl BackgroundMonitor {
    /// A stopped monitor with the default cadence and no history.
    pub fn new() -> (m: Self)
        ensures
            !m.is_running,
            m.interval_seconds == DEFAULT_MONITOR_INTERVAL,
            m.scan_count == 0,
            m.last_scan_time is None,
            m.previous_devices@.len() == 0,
            spec_monitor_wf(m),
    {
        BackgroundMonitor {
            is_running: false,
            interval_seconds: DEFAULT_MONITOR_INTERVAL,
            scan_count: 0,
            last_scan_time: None,
            previous_devices: Vec::new(),
        }
    }

    /// Starts monitoring: an already-running monitor refuses and stays
    /// untouched; otherwise the flag is set, the cadence clamped, the
    /// scan counter reset, and the started event returned for emission.
    pub fn start(&mut self, interval: Option<u64>) -> (r: Result<NetworkEvent, String>)
        requires
            spec_monitor_wf(*old(self)),
        ensures
            spec_monitor_wf(*final(self)),
            old(self).is_running ==> {
                &&& r is Err
                &&& r->Err_0@ == "Monitoring already running"@
                &&& *final(self) == *old(self)
            },
            !old(self).is_running ==> {
                &&& r is Ok
                &&& r->Ok_0 == (NetworkEvent::MonitoringStarted {
                    interval_seconds: spec_clamp_interval(interval),
                })
                &&& final(self).is_running
                &&& final(self).interval_seconds == spec_clamp_interval(interval)
                &&& final(self).scan_count == 0
                &&& final(self).last_scan_time == old(self).last_scan_time
                &&& final(self).previous_devices == old(self).previous_devices
            },
    {
        if self.is_running {
            return Err(String::from_str("Monitoring already running"));
        }
        let requested = match interval {
            Some(v) => v,
            None => DEFAULT_MONITOR_INTERVAL,
        };
        let clamped = if requested < MIN_MONITOR_INTERVAL {
            MIN_MONITOR_INTERVAL
        } else if requested > MAX_MONITOR_INTERVAL {
            MAX_MONITOR_INTERVAL
        } else {
            requested
        };
        self.interval_seconds = clamped;
        self.is_running = true;
        self.scan_count = 0;
        Ok(NetworkEvent::MonitoringStarted { interval_seconds: clamped })
    }

    /// Stops monitoring: clears the flag; the loop observes it at its
    /// next poll and exits.
    pub fn stop(&mut self)
        ensures
            !final(self).is_running,
            final(self).interval_seconds == old(self).interval_seconds,
            final(self).scan_count == old(self).scan_count,
            final(self).last_scan_time == old(self).last_scan_time,
            final(self).previous_devices == old(self).previous_devices,
    {
        self.is_running = false;
    }

    /// Whether monitoring is running.
    pub fn is_running(&self) -> (r: bool)
        ensures
            r == self.is_running,
    {
        self.is_running
    }

    /// Opens the next scan: counts it and returns the started event, or
    /// nothing when the monitor was stopped.
    pub fn begin_scan(&mut self) -> (r: Option<NetworkEvent>)
        requires
            old(self).scan_count < 0xFFFF_FFFFu32,
        ensures
            old(self).is_running ==> {
                &&& final(self).scan_count == old(self).scan_count + 1
                &&& r == Some(
                    NetworkEvent::ScanStarted { scan_number: (old(self).scan_count + 1) as u32 },
                )
            },
            !old(self).is_running ==> r is None && *final(self) == *old(self),
            final(self).is_running == old(self).is_running,
            final(self).interval_seconds == old(self).interval_seconds,
            final(self).last_scan_time == old(self).last_scan_time,
            final(self).previous_devices == old(self).previous_devices,
    {
        if !self.is_running {
            return None;
        }
        self.scan_count = self.scan_count + 1;
        Some(NetworkEvent::ScanStarted { scan_number: self.scan_count })
    }

    /// Closes a successful scan: diffs the new snapshots against the
    /// previous ones, retains one snapshot per MAC for the next diff,
    /// records the scan time, and returns the device events followed by
    /// the completed event.
    pub fn complete_scan(
        &mut self,
        devices: Vec<DeviceSnapshot>,
        duration_ms: u64,
        timestamp: String,
    ) -> (events: Vec<NetworkEvent>)
        requires
            spec_monitor_wf(*old(self)),
        ensures
            spec_monitor_wf(*final(self)),
            events@ == spec_diff_events(old(self).previous_devices@, devices@) + seq![
                NetworkEvent::ScanCompleted {
                    scan_number: old(self).scan_count,
                    hosts_found: devices@.len() as usize,
                    duration_ms,
                },
            ],
            final(self).last_scan_time == Some(timestamp),
            final(self).is_running == old(self).is_running,
            final(self).interval_seconds == old(self).interval_seconds,
            final(self).scan_count == old(self).scan_count,
            spec_unique_macs(final(self).previous_devices@),
            forall|i: int|
                0 <= i < devices@.len() ==> spec_has_mac(
                    final(self).previous_devices@,
                    (#[trigger] devices@[i]).mac@,
                ),
            forall|i: int|
                0 <= i < final(self).previous_devices@.len() ==> spec_last_sighting(
                    devices@,
                    #[trigger] final(self).previous_devices@[i],
                    devices@.len() as int,
                ),
    {
        let hosts_found = devices.len();
        let events_core = detect_changes(&self.previous_devices, &devices);
        let mut events = events_core;
        events.push(
            NetworkEvent::ScanCompleted {
                scan_number: self.scan_count,
                hosts_found,
                duration_ms,
            },
        );
        proof {
            assert(events@ =~= spec_diff_events(old(self).previous_devices@, devices@) + seq![
                NetworkEvent::ScanCompleted {
                    scan_number: old(self).scan_count,
                    hosts_found: devices@.len() as usize,
                    duration_ms,
                },
            ]);
        }
        self.previous_devices = dedup_by_mac(devices);
        self.last_scan_time = Some(timestamp);
        events
    }

    /// Closes a failed scan: the state is untouched and the error event
    /// returned; monitoring continues.
    pub fn fail_scan(&mut self, message: String) -> (r: NetworkEvent)
        ensures
            r == (NetworkEvent::MonitoringError { message }),
            *final(self) == *old(self),
    {
        NetworkEvent::MonitoringError { message }
    }

    /// The current monitoring status.
    pub fn status(&self) -> (r: MonitoringStatus)
        ensures
            r.is_running == self.is_running,
            r.interval_seconds == self.interval_seconds,
            r.scan_count == self.scan_count,
            r.last_scan_time == self.last_scan_time,
            r.devices_online == spec_online_count(self.previous_devices@),
            r.devices_total == self.previous_devices@.len(),
    {
        let n = self.previous_devices.len();
        let mut online: usize = 0;
        for i in 0..n
            invariant
                n == self.previous_devices@.len(),
                online == spec_online_count(self.previous_devices@.take(i as int)),
                online <= i,
        {
            proof {
                assert(self.previous_devices@.take(i + 1).drop_last() =~= self.previous_devices@
                    .take(i as int));
            }
            if self.previous_devices[i].is_online {
                online = online + 1;
            }
        }
        proof {
            assert(self.previous_devices@.take(n as int) =~= self.previous_devices@);
        }
        MonitoringStatus {
            is_running: self.is_running,
            interval_seconds: self.interval_seconds,
            scan_count: self.scan_count,
            last_scan_time: match &self.last_scan_time {
                Some(t) => Some(t.clone()),
                None => None,
            },
            devices_online: online,
            devices_total: n,
        }
    }
}

impl Default for BackgroundMonitor {
    /// A stopped monitor with the default cadence and no history.
    fn default() -> (m: Self)
        ensures
            !m.is_running,
            m.interval_seconds == DEFAULT_MONITOR_INTERVAL,
            m.scan_count == 0,
            m.last_scan_time is None,
            m.previous_devices@.len() == 0,
            spec_monitor_wf(m),
    {
        BackgroundMonitor::new()
    }
}

/// `d` stands at position `k` in `devices` and no later sighting below the
/// bound `b` shares its MAC.
pub open spec fn spec_is_last_at(devices: Seq<DeviceSnapshot>, d: DeviceSnapshot, k: int, b: int) -> bool {
    &&& 0 <= k < b
    &&& devices[k] == d
    &&& forall|k2: int| k < k2 < b ==> (#[trigger] devices[k2]).mac@ != d.mac@
}

/// `d` is the last sighting of its MAC among the first `b` snapshots.
pub open spec fn spec_last_sighting(devices: Seq<DeviceSnapshot>, d: DeviceSnapshot, b: int) -> bool {
    exists|k: int| #[trigger] spec_is_last_at(devices, d, k, b)
}

/// A MAC that some snapshot has is found.
proof fn lemma_has_mac_finds(s: Seq<DeviceSnapshot>, mac: Seq<char>)
    requires
        spec_has_mac(s, mac),
    ensures
        spec_find_snapshot(s, mac) is Some,
    decreases s.len(),
{
    if s[0].mac@ != mac {
        let w = choose|w: int| 0 <= w < s.len() && (#[trigger] s[w]).mac@ == mac;
        assert(forall|k: int|
            0 <= k < s.drop_first().len() ==> #[trigger] s.drop_first()[k] == s[k + 1]);
        assert(s.drop_first()[w - 1].mac@ == mac);
        lemma_has_mac_finds(s.drop_first(), mac);
    }
}

/// Keeps one snapshot per MAC: a later sighting of a MAC replaces the
/// earlier one, so each retained snapshot is the last sighting of its MAC.
pub fn dedup_by_mac(devices: Vec<DeviceSnapshot>) -> (r: Vec<DeviceSnapshot>)
    ensures
        spec_unique_macs(r@),
        forall|i: int|
            0 <= i < devices@.len() ==> spec_has_mac(r@, (#[trigger] devices@[i]).mac@),
        forall|i: int|
            0 <= i < r@.len() ==> spec_last_sighting(devices@, #[trigger] r@[i], devices@.len() as int),
{
    let mut r: Vec<DeviceSnapshot> = Vec::new();
    let n = devices.len();
    for i in 0..n
        invariant
            n == devices@.len(),
            spec_unique_macs(r@),
            forall|j: int| 0 <= j < i ==> spec_has_mac(r@, (#[trigger] devices@[j]).mac@),
            forall|j: int|
                0 <= j < r@.len() ==> spec_last_sighting(devices@, #[trigger] r@[j], i as int),
    {
        let d = devices[i].clone();
        match find_snapshot(&r, d.mac.as_str()) {
            Some(k) => {
                proof {
                    assert(devices@.contains(devices@[i as int]));
                }
                let ghost old_r = r@;
                proof {
                    lemma_find_mac(old_r, devices@[i as int].mac@);
                }
                r.set(k, d);
                proof {
                    assert(old_r[k as int].mac@ == devices@[i as int].mac@);
                    assert forall|j: int|
                        0 <= j < r@.len() implies spec_last_sighting(
                        devices@,
                        #[trigger] r@[j],
                        i + 1,
                    ) by {
                        if j == k {
                            assert(spec_is_last_at(devices@, r@[j], i as int, i + 1));
                        } else {
                            assert(r@[j] == old_r[j]);
                            let w = choose|w: int| #[trigger] spec_is_last_at(devices@, old_r[j], w, i as int);
                            assert(r@[j].mac@ != old_r[k as int].mac@);
                            assert(devices@[i as int].mac@ != r@[j].mac@);
                            assert(spec_is_last_at(devices@, r@[j], w, i + 1));
                        }
                    }
                    assert forall|p: int, q: int|
                        0 <= p < q < r@.len() implies (#[trigger] r@[p]).mac@ != (
                    #[trigger] r@[q]).mac@ by {
                        if p != k && q != k {
                            assert(r@[p] == old_r[p]);
                            assert(r@[q] == old_r[q]);
                        } else if p == k {
                            assert(r@[q] == old_r[q]);
                            assert(old_r[k as int].mac@ == r@[p].mac@);
                        } else {
                            assert(r@[p] == old_r[p]);
                            assert(old_r[k as int].mac@ == r@[q].mac@);
                        }
                    }
                    assert forall|j: int|
                        0 <= j <= i implies spec_has_mac(r@, (#[trigger] devices@[j]).mac@) by {
                        if j < i {
                            let w = choose|w: int|
                                0 <= w < old_r.len() && old_r[w].mac@ == devices@[j].mac@;
                            if w == k {
                                assert(r@[k as int].mac@ == devices@[j].mac@);
                            } else {
                                assert(r@[w].mac@ == devices@[j].mac@);
                            }
                        } else {
                            assert(r@[k as int].mac@ == devices@[i as int].mac@);
                        }
                    }
                }
            },
            None => {
                proof {
                    assert(devices@.contains(devices@[i as int]));
                }
                let ghost old_r = r@;
                r.push(d);
                proof {
                    assert forall|j: int|
                        0 <= j < r@.len() implies spec_last_sighting(
                        devices@,
                        #[trigger] r@[j],
                        i + 1,
                    ) by {
                        if j == old_r.len() {
                            assert(r@[j] == devices@[i as int]);
                            assert(spec_is_last_at(devices@, r@[j], i as int, i + 1));
                        } else {
                            assert(r@[j] == old_r[j]);
                            let w = choose|w: int| #[trigger] spec_is_last_at(devices@, old_r[j], w, i as int);
                            // The new sighting has a fresh MAC: it was not
                            // found among the retained snapshots.
                            if devices@[i as int].mac@ == r@[j].mac@ {
                                assert(spec_has_mac(old_r, devices@[i as int].mac@));
                                lemma_has_mac_finds(old_r, devices@[i as int].mac@);
                            }
                            assert(spec_is_last_at(devices@, r@[j], w, i + 1));
                        }
                    }
                    assert forall|p: int, q: int|
                        0 <= p < q < r@.len() implies (#[trigger] r@[p]).mac@ != (
                    #[trigger] r@[q]).mac@ by {
                        if q == old_r.len() {
                            assert(r@[p] == old_r[p]);
                            if old_r[p].mac@ == devices@[i as int].mac@ {
                                lemma_find_at(old_r, devices@[i as int].mac@, p);
                            }
                        } else {
                            assert(r@[p] == old_r[p]);
                            assert(r@[q] == old_r[q]);
                        }
                    }
                    assert forall|j: int|
                        0 <= j <= i implies spec_has_mac(r@, (#[trigger] devices@[j]).mac@) by {
                        if j < i {
                            let w = choose|w: int|
                                0 <= w < old_r.len() && old_r[w].mac@ == devices@[j].mac@;
                            assert(r@[w].mac@ == devices@[j].mac@);
                        } else {
                            assert(r@[old_r.len() as int].mac@ == devices@[i as int].mac@);
                        }
                    }
                }
            },
        }
    }
    r
}

} // verus!
