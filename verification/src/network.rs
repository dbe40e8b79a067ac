//! Network domain: device and connectivity decoding, the network snapshot
//! and the per-event updates its producer applies to it, throughput
//! statistics, and the network widget state derived from a snapshot.

use vstd::prelude::*;
use crate::text::{dec_rep, dec2_rep, lex_le, u64_to_string, two_digit_string, str_le};
use crate::text::{lemma_lex_le_total, lemma_lex_le_trans};
use vstd::multiset::Multiset;

verus! {

/// Kind of a network device, decoded from the network service's numeric
/// device-type property.
#[derive(Clone, Copy, Debug, PartialEq, Eq, Structural)]
pub enum DeviceType {
    Ethernet,
    Wifi,
    Bluetooth,
    TunTap,
    WireGuard,
    Generic,
    Other,
    Unknown,
}

impl DeviceType {
    pub open spec fn spec_from_code(code: u32) -> Self {
        if code == 1 {
            DeviceType::Ethernet
        } else if code == 2 {
            DeviceType::Wifi
        } else if code == 5 {
            DeviceType::Bluetooth
        } else if code == 14 {
            DeviceType::Generic
        } else if code == 16 {
            DeviceType::TunTap
        } else if code == 29 {
            DeviceType::WireGuard
        } else if 3 <= code && code <= 32 {
            DeviceType::Other
        } else {
            DeviceType::Unknown
        }
    }
}

impl From<u32> for DeviceType {
    /// Decodes the device-type property; assigned codes get their kind, the
    /// remaining codes up to 32 are lumped as `Other`, everything else is
    /// `Unknown`.
    fn from(code: u32) -> (r: DeviceType)
        ensures
            r == DeviceType::spec_from_code(code),
    {
        match code {
            1u32 => DeviceType::Ethernet,
            2u32 => DeviceType::Wifi,
            5u32 => DeviceType::Bluetooth,
            14u32 => DeviceType::Generic,
            16u32 => DeviceType::TunTap,
            29u32 => DeviceType::WireGuard,
            3u32..=32u32 => DeviceType::Other,
            _ => DeviceType::Unknown,
        }
    }
}

impl vstd::std_specs::convert::FromSpecImpl<u32> for DeviceType {
    open spec fn obeys_from_spec() -> bool {
        true
    }

    open spec fn from_spec(code: u32) -> Self {
        DeviceType::spec_from_code(code)
    }
}

/// Activation state of a network device, decoded from the service's numeric
/// state property.
#[derive(Clone, Copy, Debug, PartialEq, Eq, Structural)]
pub enum DeviceState {
    Unmanaged,
    Unavailable,
    Disconnected,
    Prepare,
    Config,
    NeedAuth,
    IpConfig,
    IpCheck,
    Secondaries,
    Activated,
    Deactivating,
    Failed,
    Unknown,
}

impl DeviceState {
    pub open spec fn spec_from_code(code: u32) -> Self {
        if code == 10 {
            DeviceState::Unmanaged
        } else if code == 20 {
            DeviceState::Unavailable
        } else if code == 30 {
            DeviceState::Disconnected
        } else if code == 40 {
            DeviceState::Prepare
        } else if code == 50 {
            DeviceState::Config
        } else if code == 60 {
            DeviceState::NeedAuth
        } else if code == 70 {
            DeviceState::IpConfig
        } else if code == 80 {
            DeviceState::IpCheck
        } else if code == 90 {
            DeviceState::Secondaries
        } else if code == 100 {
            DeviceState::Activated
        } else if code == 110 {
            DeviceState::Deactivating
        } else if code == 120 {
            DeviceState::Failed
        } else {
            DeviceState::Unknown
        }
    }
}

impl From<u32> for DeviceState {
    /// Decodes the device-state property; unassigned codes fall back to
    /// `Unknown`, never an error.
    fn from(code: u32) -> (r: DeviceState)
        ensures
            r == DeviceState::spec_from_code(code),
    {
        match code {
            10u32 => DeviceState::Unmanaged,
            20u32 => DeviceState::Unavailable,
            30u32 => DeviceState::Disconnected,
            40u32 => DeviceState::Prepare,
            50u32 => DeviceState::Config,
            60u32 => DeviceState::NeedAuth,
            70u32 => DeviceState::IpConfig,
            80u32 => DeviceState::IpCheck,
            90u32 => DeviceState::Secondaries,
            100u32 => DeviceState::Activated,
            110u32 => DeviceState::Deactivating,
            120u32 => DeviceState::Failed,
            _ => DeviceState::Unknown,
        }
    }
}

impl vstd::std_specs::convert::FromSpecImpl<u32> for DeviceState {
    open spec fn obeys_from_spec() -> bool {
        true
    }

    open spec fn from_spec(code: u32) -> Self {
        DeviceState::spec_from_code(code)
    }
}

/// Overall connectivity reported by the network service.
#[derive(Clone, Copy, Debug, PartialEq, Eq, Structural)]
pub enum ConnectivityState {
    Disconnected,
    Portal,
    Loss,
    Full,
    Unknown,
}

impl ConnectivityState {
    pub open spec fn spec_from_code(code: u32) -> Self {
        if code == 1 {
            ConnectivityState::Disconnected
        } else if code == 2 {
            ConnectivityState::Portal
        } else if code == 3 {
            ConnectivityState::Loss
        } else if code == 4 {
            ConnectivityState::Full
        } else {
            ConnectivityState::Unknown
        }
    }
}

impl From<u32> for ConnectivityState {
    /// Decodes the connectivity property; unassigned codes, including the
    /// default `0` used when a fetch fails, fall back to `Unknown`.
    fn from(code: u32) -> (r: ConnectivityState)
        ensures
            r == ConnectivityState::spec_from_code(code),
    {
        match code {
            1u32 => ConnectivityState::Disconnected,
            2u32 => ConnectivityState::Portal,
            3u32 => ConnectivityState::Loss,
            4u32 => ConnectivityState::Full,
            _ => ConnectivityState::Unknown,
        }
    }
}

impl vstd::std_specs::convert::FromSpecImpl<u32> for ConnectivityState {
    open spec fn obeys_from_spec() -> bool {
        true
    }

    open spec fn from_spec(code: u32) -> Self {
        ConnectivityState::spec_from_code(code)
    }
}

/// One wireless access point as the producer snapshots it. Object paths are
/// carried as plain strings.
#[derive(Debug, PartialEq, Eq)]
pub struct AccessPoint {
    pub ssid: String,
    pub strength: u8,
    pub state: DeviceState,
    pub public: bool,
    pub working: bool,
    pub path: String,
    pub device_path: String,
}

/// One active connection, classified by the kind of device that carries it.
#[derive(Clone, Debug)]
pub enum ActiveConnectionInfo {
    Wired { name: String, speed: u32 },
    WiFi { id: String, name: String, strength: u8, device: String },
    Vpn { name: String, object_path: String },
}

impl Clone for AccessPoint {
    /// A copy equal to the original in every field.
    fn clone(&self) -> (r: Self)
        ensures
            r == *self,
    {
        AccessPoint {
            ssid: self.ssid.clone(),
            strength: self.strength,
            state: self.state,
            public: self.public,
            working: self.working,
            path: self.path.clone(),
            device_path: self.device_path.clone(),
        }
    }
}

impl ActiveConnectionInfo {
    /// The display name of the connection, whatever its kind.
    pub open spec fn spec_name(self) -> Seq<char> {
        match self {
            ActiveConnectionInfo::Wired { name, .. } => name@,
            ActiveConnectionInfo::WiFi { name, .. } => name@,
            ActiveConnectionInfo::Vpn { name, .. } => name@,
        }
    }

    pub fn name(&self) -> (r: String)
        ensures
            r@ == self.spec_name(),
    {
        match self {
            ActiveConnectionInfo::Wired { name, .. } => name.clone(),
            ActiveConnectionInfo::WiFi { name, .. } => name.clone(),
            ActiveConnectionInfo::Vpn { name, .. } => name.clone(),
        }
    }

    /// Sort rank of the connection kinds: VPNs first, then wired, then
    /// wireless, as the status list displays them.
    pub open spec fn spec_rank(self) -> int {
        match self {
            ActiveConnectionInfo::Vpn { .. } => 0,
            ActiveConnectionInfo::Wired { .. } => 1,
            ActiveConnectionInfo::WiFi { .. } => 2,
        }
    }

    fn rank(&self) -> (r: u8)
        ensures
            r as int == self.spec_rank(),
    {
        match self {
            ActiveConnectionInfo::Vpn { .. } => 0,
            ActiveConnectionInfo::Wired { .. } => 1,
            ActiveConnectionInfo::WiFi { .. } => 2,
        }
    }
}

/// The order the active-connection list is kept in: by kind rank, then by
/// name in lexicographic order.
pub open spec fn conn_le(a: ActiveConnectionInfo, b: ActiveConnectionInfo) -> bool {
    if a.spec_rank() != b.spec_rank() {
        a.spec_rank() < b.spec_rank()
    } else {
        lex_le(a.spec_name(), b.spec_name())
    }
}

/// Byte counters of one device, together with the previous sample of each
/// counter, from which the display rates are derived. Timestamps are seconds
/// since the Unix epoch.
#[derive(Clone, Debug)]
pub struct NetworkStatistics {
    pub prev_tx: u64,
    pub prev_rx: u64,
    pub prev_tx_time: i64,
    pub prev_rx_time: i64,
    pub tx: u64,
    pub rx: u64,
    pub tx_time: i64,
    pub rx_time: i64,
    pub device: String,
}

/// Rate in bytes per second between two counter samples: the counter delta
/// over the elapsed seconds, truncated; zero whenever no time elapsed (or
/// time or the counter ran backwards), so the rate is total and never
/// divides by zero.
pub open spec fn spec_rate(prev: u64, cur: u64, prev_time: i64, cur_time: i64) -> u64 {
    let elapsed = cur_time - prev_time;
    if elapsed <= 0 || cur < prev {
        0u64
    } else {
        (((cur - prev) as int) / elapsed) as u64
    }
}

/// Rate in bytes per second between two u64 counter samples.
fn rate(prev: u64, cur: u64, prev_time: i64, cur_time: i64) -> (r: u64)
    ensures
        r == spec_rate(prev, cur, prev_time, cur_time),
{
    let elapsed: i128 = cur_time as i128 - prev_time as i128;
    if elapsed <= 0 || cur < prev {
        0
    } else {
        let delta: u64 = cur - prev;
        let e: u64 = elapsed as u64;
        delta / e
    }
}

impl NetworkStatistics {
    pub open spec fn spec_rx_speed(self) -> u64 {
        spec_rate(self.prev_rx, self.rx, self.prev_rx_time, self.rx_time)
    }

    pub open spec fn spec_tx_speed(self) -> u64 {
        spec_rate(self.prev_tx, self.tx, self.prev_tx_time, self.tx_time)
    }

    /// Receive rate in bytes per second since the previous sample.
    pub fn rx_speed(&self) -> (r: u64)
        ensures
            r == self.spec_rx_speed(),
    {
        rate(self.prev_rx, self.rx, self.prev_rx_time, self.rx_time)
    }

    /// Transmit rate in bytes per second since the previous sample.
    pub fn tx_speed(&self) -> (r: u64)
        ensures
            r == self.spec_tx_speed(),
    {
        rate(self.prev_tx, self.tx, self.prev_tx_time, self.tx_time)
    }

    /// A fresh record for a device: both samples of each counter coincide,
    /// so no time has elapsed and both rates are zero.
    pub fn fresh(device: String, rx: u64, tx: u64, now: i64) -> (r: Self)
        ensures
            r == (NetworkStatistics {
                prev_tx: tx,
                prev_rx: rx,
                prev_tx_time: now,
                prev_rx_time: now,
                tx,
                rx,
                tx_time: now,
                rx_time: now,
                device,
            }),
            r.spec_rx_speed() == 0,
            r.spec_tx_speed() == 0,
    {
        NetworkStatistics {
            prev_tx: tx,
            prev_rx: rx,
            prev_tx_time: now,
            prev_rx_time: now,
            tx,
            rx,
            tx_time: now,
            rx_time: now,
            device,
        }
    }
}

/// The receive counter of `s` re-sampled at `now` with value `value`: the
/// current sample becomes the previous one.
pub open spec fn rx_sampled(s: NetworkStatistics, value: u64, now: i64) -> NetworkStatistics {
    NetworkStatistics { prev_rx: s.rx, prev_rx_time: s.rx_time, rx: value, rx_time: now, ..s }
}

/// The transmit counter of `s` re-sampled at `now` with value `value`.
pub open spec fn tx_sampled(s: NetworkStatistics, value: u64, now: i64) -> NetworkStatistics {
    NetworkStatistics { prev_tx: s.tx, prev_tx_time: s.tx_time, tx: value, tx_time: now, ..s }
}

/// Snapshot of the whole network domain as the producer publishes it.
#[derive(Clone, Debug)]
pub struct NetworkData {
    pub wifi_enabled: bool,
    pub active_connections: Vec<ActiveConnectionInfo>,
    pub wireless_access_points: Vec<AccessPoint>,
    pub connectivity: ConnectivityState,
    pub network_statistics: Vec<NetworkStatistics>,
}

/// `k` is the position of the first access point with this ssid.
pub open spec fn first_ap_with_ssid(s: Seq<AccessPoint>, ssid: Seq<char>, k: int) -> bool {
    &&& 0 <= k < s.len()
    &&& s[k].ssid@ == ssid
    &&& forall|j: int| 0 <= j < k ==> s[j].ssid@ != ssid
}

/// `k` is the position of the first connection whose display name is `name`.
pub open spec fn first_conn_named(s: Seq<ActiveConnectionInfo>, name: Seq<char>, k: int) -> bool {
    &&& 0 <= k < s.len()
    &&& s[k].spec_name() == name
    &&& forall|j: int| 0 <= j < k ==> s[j].spec_name() != name
}

/// A wireless connection with its strength replaced; any other kind is left
/// as it is.
pub open spec fn wifi_with_strength(c: ActiveConnectionInfo, v: u8) -> ActiveConnectionInfo {
    match c {
        ActiveConnectionInfo::WiFi { id, name, strength, device } => ActiveConnectionInfo::WiFi {
            id,
            name,
            strength: v,
            device,
        },
        _ => c,
    }
}

impl NetworkData {
    /// The producer saw the wireless-enabled property change.
    pub fn on_wifi_enabled_changed(&mut self, value: bool)
        ensures
            *final(self) == (NetworkData { wifi_enabled: value, ..*old(self) }),
    {
        self.wifi_enabled = value;
    }

    /// The producer saw the connectivity property change; `code` is the raw
    /// property value (a failed fetch reports `0`, which decodes to
    /// `Unknown`).
    pub fn on_connectivity_changed(&mut self, code: u32)
        ensures
            *final(self) == (NetworkData {
                connectivity: ConnectivityState::spec_from_code(code),
                ..*old(self)
            }),
    {
        self.connectivity = ConnectivityState::from(code);
    }

    /// The producer re-fetched the whole active-connection list.
    pub fn on_active_connections_changed(&mut self, value: Vec<ActiveConnectionInfo>)
        ensures
            *final(self) == (NetworkData { active_connections: value, ..*old(self) }),
    {
        self.active_connections = value;
    }

    /// The producer saw the signal strength of the access point named `ssid`
    /// change: the first access point with that ssid takes the new strength,
    /// and so does the first connection with that display name if it is a
    /// wireless one. Every other entry, and every other field, is unchanged.
    pub fn on_strength_changed(&mut self, ssid: &str, value: u8)
        ensures
            final(self).wifi_enabled == old(self).wifi_enabled,
            final(self).connectivity == old(self).connectivity,
            final(self).network_statistics == old(self).network_statistics,
            final(self).wireless_access_points@.len() == old(self).wireless_access_points@.len(),
            forall|k: int|
                0 <= k < old(self).wireless_access_points@.len() && !first_ap_with_ssid(
                    old(self).wireless_access_points@,
                    ssid@,
                    k,
                ) ==> #[trigger] final(self).wireless_access_points@[k]
                    == old(self).wireless_access_points@[k],
            forall|k: int|
                first_ap_with_ssid(old(self).wireless_access_points@, ssid@, k)
                    ==> #[trigger] final(self).wireless_access_points@[k]
                    == (AccessPoint { strength: value, ..old(self).wireless_access_points@[k] }),
            final(self).active_connections@.len() == old(self).active_connections@.len(),
            forall|k: int|
                0 <= k < old(self).active_connections@.len() && !first_conn_named(
                    old(self).active_connections@,
                    ssid@,
                    k,
                ) ==> final(self).active_connections@[k] == old(self).active_connections@[k],
            forall|k: int|
                first_conn_named(old(self).active_connections@, ssid@, k)
                    ==> #[trigger] final(self).active_connections@[k]
                    == wifi_with_strength(old(self).active_connections@[k], value),
    {
        let ap_count = self.wireless_access_points.len();
        let mut i: usize = 0;
        loop
            invariant_except_break
                i <= ap_count,
                *self == *old(self),
                ap_count == self.wireless_access_points@.len(),
                forall|j: int| 0 <= j < i ==> self.wireless_access_points@[j].ssid@ != ssid@,
            ensures
                self.wifi_enabled == old(self).wifi_enabled,
                self.connectivity == old(self).connectivity,
                self.network_statistics == old(self).network_statistics,
                self.active_connections == old(self).active_connections,
                self.wireless_access_points@.len() == old(self).wireless_access_points@.len(),
                forall|k: int|
                    0 <= k < old(self).wireless_access_points@.len() && !first_ap_with_ssid(
                        old(self).wireless_access_points@,
                        ssid@,
                        k,
                    ) ==> #[trigger] self.wireless_access_points@[k]
                        == old(self).wireless_access_points@[k],
                forall|k: int|
                    first_ap_with_ssid(old(self).wireless_access_points@, ssid@, k)
                        ==> #[trigger] self.wireless_access_points@[k]
                        == (AccessPoint { strength: value, ..old(self).wireless_access_points@[k] }),
            decreases ap_count - i,
        {
            if i == ap_count {
                break ;
            }
            if string_eq_str(&self.wireless_access_points[i].ssid, ssid) {
                let ghost pre = self.wireless_access_points@;
                self.wireless_access_points[i].strength = value;
                proof {
                    assert(first_ap_with_ssid(pre, ssid@, i as int));
                    assert(self.wireless_access_points@[i as int] == (AccessPoint {
                        strength: value,
                        ..pre[i as int]
                    }));
                    assert forall|k: int| first_ap_with_ssid(pre, ssid@, k) implies k == i by {
                        if k > i {
                            assert(pre[i as int].ssid@ == ssid@);
                        }
                    };
                }
                break ;
            }
            i = i + 1;
        }
        let conn_count = self.active_connections.len();
        let mut i: usize = 0;
        loop
            invariant_except_break
                i <= conn_count,
                conn_count == self.active_connections@.len(),
                self.wifi_enabled == old(self).wifi_enabled,
                self.connectivity == old(self).connectivity,
                self.network_statistics == old(self).network_statistics,
                self.active_connections == old(self).active_connections,
                self.wireless_access_points@.len() == old(self).wireless_access_points@.len(),
                forall|k: int|
                    0 <= k < old(self).wireless_access_points@.len() && !first_ap_with_ssid(
                        old(self).wireless_access_points@,
                        ssid@,
                        k,
                    ) ==> #[trigger] self.wireless_access_points@[k]
                        == old(self).wireless_access_points@[k],
                forall|k: int|
                    first_ap_with_ssid(old(self).wireless_access_points@, ssid@, k)
                        ==> #[trigger] self.wireless_access_points@[k]
                        == (AccessPoint { strength: value, ..old(self).wireless_access_points@[k] }),
                forall|j: int| 0 <= j < i ==> self.active_connections@[j].spec_name() != ssid@,
            ensures
                self.wifi_enabled == old(self).wifi_enabled,
                self.connectivity == old(self).connectivity,
                self.network_statistics == old(self).network_statistics,
                self.wireless_access_points@.len() == old(self).wireless_access_points@.len(),
                forall|k: int|
                    0 <= k < old(self).wireless_access_points@.len() && !first_ap_with_ssid(
                        old(self).wireless_access_points@,
                        ssid@,
                        k,
                    ) ==> #[trigger] self.wireless_access_points@[k]
                        == old(self).wireless_access_points@[k],
                forall|k: int|
                    first_ap_with_ssid(old(self).wireless_access_points@, ssid@, k)
                        ==> #[trigger] self.wireless_access_points@[k]
                        == (AccessPoint { strength: value, ..old(self).wireless_access_points@[k] }),
                self.active_connections@.len() == old(self).active_connections@.len(),
                forall|k: int|
                    0 <= k < old(self).active_connections@.len() && !first_conn_named(
                        old(self).active_connections@,
                        ssid@,
                        k,
                    ) ==> #[trigger] self.active_connections@[k] == old(self).active_connections@[k],
                forall|k: int|
                    first_conn_named(old(self).active_connections@, ssid@, k)
                        ==> #[trigger] self.active_connections@[k]
                        == wifi_with_strength(old(self).active_connections@[k], value),
            decreases conn_count - i,
        {
            if i == conn_count {
                break ;
            }
            let matches_name = {
                let name = self.active_connections[i].name();
                string_eq_str(&name, ssid)
            };
            if matches_name {
                let ghost pre = self.active_connections@;
                match &mut self.active_connections[i] {
                    ActiveConnectionInfo::WiFi { strength, .. } => {
                        *strength = value;
                    },
                    _ => {},
                }
                proof {
                    assert(first_conn_named(pre, ssid@, i as int));
                    assert(self.active_connections@[i as int] == wifi_with_strength(
                        pre[i as int],
                        value,
                    ));
                    assert forall|k: int| first_conn_named(pre, ssid@, k) implies k == i by {
                        if k > i {
                            assert(pre[i as int].spec_name() == ssid@);
                        }
                    };
                    assert(self.active_connections@ =~= pre.update(i as int,
                        self.active_connections@[i as int]));
                }
                break ;
            }
            i = i + 1;
        }
    }
}

/// The statistics list `after` is `before` with the receive counter of
/// every record of `device` re-sampled to `value` at `now`, and every other
/// record untouched.
pub open spec fn rx_recorded(
    before: Seq<NetworkStatistics>,
    after: Seq<NetworkStatistics>,
    device: Seq<char>,
    value: u64,
    now: i64,
) -> bool {
    &&& after.len() == before.len()
    &&& forall|k: int|
        0 <= k < before.len() && before[k].device@ == device ==> #[trigger] after[k] == rx_sampled(
            before[k],
            value,
            now,
        )
    &&& forall|k: int|
        0 <= k < before.len() && before[k].device@ != device ==> #[trigger] after[k] == before[k]
}

/// As `rx_recorded`, for the transmit counter.
pub open spec fn tx_recorded(
    before: Seq<NetworkStatistics>,
    after: Seq<NetworkStatistics>,
    device: Seq<char>,
    value: u64,
    now: i64,
) -> bool {
    &&& after.len() == before.len()
    &&& forall|k: int|
        0 <= k < before.len() && before[k].device@ == device ==> #[trigger] after[k] == tx_sampled(
            before[k],
            value,
            now,
        )
    &&& forall|k: int|
        0 <= k < before.len() && before[k].device@ != device ==> #[trigger] after[k] == before[k]
}

/// Relies on chrono::Utc::now and DateTime::timestamp: the current instant
/// as whole seconds since the Unix epoch. The value depends on the system
/// clock, so nothing is promised about it.
#[verifier::external_body]
fn utc_timestamp_secs() -> i64 {
    chrono::Utc::now().timestamp()
}

impl NetworkData {
    /// The producer saw the receive-byte counter of `device` change to
    /// `value` at time `now`: every statistics record of that device shifts
    /// its current sample into the previous one and takes the new value.
    pub fn on_rx_bytes_at(&mut self, device: &str, value: u64, now: i64)
        ensures
            rx_recorded(
                old(self).network_statistics@,
                final(self).network_statistics@,
                device@,
                value,
                now,
            ),
            *final(self) == (NetworkData {
                network_statistics: final(self).network_statistics,
                ..*old(self)
            }),
    {
        let n = self.network_statistics.len();
        let mut i: usize = 0;
        while i < n
            invariant
                i <= n,
                n == self.network_statistics@.len(),
                n == old(self).network_statistics@.len(),
                *self == (NetworkData {
                    network_statistics: self.network_statistics,
                    ..*old(self)
                }),
                forall|k: int|
                    0 <= k < i && old(self).network_statistics@[k].device@ == device@
                        ==> #[trigger] self.network_statistics@[k] == rx_sampled(
                        old(self).network_statistics@[k],
                        value,
                        now,
                    ),
                forall|k: int|
                    i <= k < n ==> #[trigger] self.network_statistics@[k] == old(
                        self,
                    ).network_statistics@[k],
                forall|k: int|
                    0 <= k < i && old(self).network_statistics@[k].device@ != device@
                        ==> #[trigger] self.network_statistics@[k] == old(
                        self,
                    ).network_statistics@[k],
            decreases n - i,
        {
            if string_eq_str(&self.network_statistics[i].device, device) {
                let cur = self.network_statistics[i].rx;
                let cur_time = self.network_statistics[i].rx_time;
                self.network_statistics[i].prev_rx = cur;
                self.network_statistics[i].prev_rx_time = cur_time;
                self.network_statistics[i].rx = value;
                self.network_statistics[i].rx_time = now;
            }
            i = i + 1;
        }
    }

    /// As `on_rx_bytes_at`, for the transmit-byte counter.
    pub fn on_tx_bytes_at(&mut self, device: &str, value: u64, now: i64)
        ensures
            tx_recorded(
                old(self).network_statistics@,
                final(self).network_statistics@,
                device@,
                value,
                now,
            ),
            *final(self) == (NetworkData {
                network_statistics: final(self).network_statistics,
                ..*old(self)
            }),
    {
        let n = self.network_statistics.len();
        let mut i: usize = 0;
        while i < n
            invariant
                i <= n,
                n == self.network_statistics@.len(),
                n == old(self).network_statistics@.len(),
                *self == (NetworkData {
                    network_statistics: self.network_statistics,
                    ..*old(self)
                }),
                forall|k: int|
                    0 <= k < i && old(self).network_statistics@[k].device@ == device@
                        ==> #[trigger] self.network_statistics@[k] == tx_sampled(
                        old(self).network_statistics@[k],
                        value,
                        now,
                    ),
                forall|k: int|
                    i <= k < n ==> #[trigger] self.network_statistics@[k] == old(
                        self,
                    ).network_statistics@[k],
                forall|k: int|
                    0 <= k < i && old(self).network_statistics@[k].device@ != device@
                        ==> #[trigger] self.network_statistics@[k] == old(
                        self,
                    ).network_statistics@[k],
            decreases n - i,
        {
            if string_eq_str(&self.network_statistics[i].device, device) {
                let cur = self.network_statistics[i].tx;
                let cur_time = self.network_statistics[i].tx_time;
                self.network_statistics[i].prev_tx = cur;
                self.network_statistics[i].prev_tx_time = cur_time;
                self.network_statistics[i].tx = value;
                self.network_statistics[i].tx_time = now;
            }
            i = i + 1;
        }
    }

    /// The producer saw the receive-byte counter change and stamps the
    /// sample with the wall clock. Whatever instant the clock returns, the
    /// update is exactly a receive re-sample at that instant.
    pub fn on_rx_bytes_changed(&mut self, device: &str, value: u64)
        ensures
            exists|t: i64|
                rx_recorded(
                    old(self).network_statistics@,
                    final(self).network_statistics@,
                    device@,
                    value,
                    t,
                ),
            *final(self) == (NetworkData {
                network_statistics: final(self).network_statistics,
                ..*old(self)
            }),
    {
        let now = utc_timestamp_secs();
        self.on_rx_bytes_at(device, value, now);
    }

    /// As `on_rx_bytes_changed`, for the transmit-byte counter.
    pub fn on_tx_bytes_changed(&mut self, device: &str, value: u64)
        ensures
            exists|t: i64|
                tx_recorded(
                    old(self).network_statistics@,
                    final(self).network_statistics@,
                    device@,
                    value,
                    t,
                ),
            *final(self) == (NetworkData {
                network_statistics: final(self).network_statistics,
                ..*old(self)
            }),
    {
        let now = utc_timestamp_secs();
        self.on_tx_bytes_at(device, value, now);
    }
}

/// Whether a string equals a string slice, by contents.
fn string_eq_str(a: &String, b: &str) -> (r: bool)
    ensures
        r == (a@ == b@),
{
    let r = str_eq(a.as_str(), b);
    r
}

/// Whether two string slices are equal, by contents.
fn str_eq(a: &str, b: &str) -> (r: bool)
    ensures
        r == (a@ == b@),
{
    let alen = a.unicode_len();
    let blen = b.unicode_len();
    if alen != blen {
        proof {
            assert(a@ != b@);
        }
        return false;
    }
    let mut i: usize = 0;
    loop
        invariant
            i <= alen,
            alen == a@.len(),
            alen == b@.len(),
            forall|j: int| 0 <= j < i ==> a@[j] == b@[j],
        decreases alen - i,
    {
        if i == alen {
            proof {
                assert(a@ =~= b@);
            }
            return true;
        }
        let ca = a.get_char(i);
        let cb = b.get_char(i);
        if ca != cb {
            return false;
        }
        i = i + 1;
    }
}

/// Connection situation the network widget displays.
#[derive(Clone, Copy, Debug, PartialEq, Eq, Structural)]
pub enum State {
    WiredConnected,
    WifiConnected,
    VpnConnected,
    WifiDisconnected,
    Offline,
}

/// The wireless icon bands the widget can display.
#[derive(Clone, Copy, Debug, PartialEq, Eq, Structural)]
pub enum WifiIcon {
    Off,
    Low,
    High,
    Full,
}

/// Which icon a signal strength selects: below 25 the low band, below 50
/// the high band, and the full band from 50 up.
pub open spec fn spec_wifi_icon(strength: u8) -> WifiIcon {
    if strength < 25 {
        WifiIcon::Low
    } else if strength < 50 {
        WifiIcon::High
    } else {
        WifiIcon::Full
    }
}

/// Selects the icon band for a signal strength.
pub fn wifi_icon(strength: u8) -> (r: WifiIcon)
    ensures
        r == spec_wifi_icon(strength),
{
    if strength < 25 {
        WifiIcon::Low
    } else if strength < 50 {
        WifiIcon::High
    } else {
        WifiIcon::Full
    }
}

/// The asset path of each wireless icon band.
pub open spec fn spec_wifi_asset(icon: WifiIcon) -> Seq<char> {
    match icon {
        WifiIcon::Off => "icons/wifi-off.svg"@,
        WifiIcon::Low => "icons/wifi-low.svg"@,
        WifiIcon::High => "icons/wifi-high.svg"@,
        WifiIcon::Full => "icons/wifi-full.svg"@,
    }
}

impl WifiIcon {
    /// The asset path the renderer loads for this band.
    pub fn asset(self) -> (r: &'static str)
        ensures
            r@ == spec_wifi_asset(self),
    {
        match self {
            WifiIcon::Off => "icons/wifi-off.svg",
            WifiIcon::Low => "icons/wifi-low.svg",
            WifiIcon::High => "icons/wifi-high.svg",
            WifiIcon::Full => "icons/wifi-full.svg",
        }
    }
}

/// A rate in bytes per second rendered for display: below one megabyte per
/// second as kilobytes with two fraction digits, above as megabytes with
/// two fraction digits; the fraction is truncated, not rounded.
pub open spec fn spec_format_speed(s: nat) -> Seq<char> {
    if s < 1000000 {
        dec_rep(s / 1000) + "."@ + dec2_rep(s / 10 % 100) + " kb/s"@
    } else {
        dec_rep(s / 1000000) + "."@ + dec2_rep(s / 10000 % 100) + " mb/s"@
    }
}

/// Renders a rate in bytes per second for display.
pub fn format_speed(speed: u64) -> (r: String)
    ensures
        r@ == spec_format_speed(speed as nat),
{
    if speed < 1000000 {
        let mut s = u64_to_string(speed / 1000);
        s.append(".");
        let frac = two_digit_string(speed / 10 % 100);
        s.append(frac.as_str());
        s.append(" kb/s");
        proof {
            assert(s@ =~= spec_format_speed(speed as nat));
        }
        s
    } else {
        let mut s = u64_to_string(speed / 1000000);
        s.append(".");
        let frac = two_digit_string(speed / 10000 % 100);
        s.append(frac.as_str());
        s.append(" mb/s");
        proof {
            assert(s@ =~= spec_format_speed(speed as nat));
        }
        s
    }
}

/// `k` is the position of the last statistics record for `device` in the
/// prefix of `s` of length `end`.
pub open spec fn last_stat_for_device_upto(
    s: Seq<NetworkStatistics>,
    device: Seq<char>,
    end: int,
    k: int,
) -> bool {
    &&& 0 <= k < end <= s.len()
    &&& s[k].device@ == device
    &&& forall|j: int| k < j < end ==> s[j].device@ != device
}

/// Network widget state: the presentation fields derived from the last
/// applied snapshot.
#[derive(Clone, Debug)]
pub struct NetworkWidget {
    pub state: State,
    pub icon: WifiIcon,
    pub rx_speed: String,
    pub tx_speed: String,
}

impl NetworkWidget {
    /// The state shown before the first snapshot arrives.
    pub fn new() -> (r: Self)
        ensures
            r.state == State::WifiConnected,
            r.icon == WifiIcon::Off,
            r.rx_speed@ == "0.0 kb/s"@,
            r.tx_speed@ == "0.0 kb/s"@,
    {
        NetworkWidget {
            state: State::WifiConnected,
            icon: WifiIcon::Off,
            rx_speed: String::from_str("0.0 kb/s"),
            tx_speed: String::from_str("0.0 kb/s"),
        }
    }

    /// Applies a snapshot. With wireless disabled the widget goes offline;
    /// with no active connection it shows disconnected; with a wireless
    /// first connection it shows the strength band and the rates of the
    /// last statistics record of that connection's device (the rate labels
    /// keep their old text when no record matches); a first connection of
    /// any other kind leaves the widget as it was. Pure state update: no
    /// side effect; the caller requests the redraw.
    pub fn update(&mut self, data: &NetworkData)
        ensures
            !data.wifi_enabled ==> *final(self) == (NetworkWidget {
                state: State::Offline,
                icon: WifiIcon::Off,
                ..*old(self)
            }),
            data.wifi_enabled && data.active_connections@.len() == 0 ==> *final(self)
                == (NetworkWidget {
                state: State::WifiDisconnected,
                icon: WifiIcon::Off,
                ..*old(self)
            }),
            data.wifi_enabled && data.active_connections@.len() > 0 ==> match data.active_connections@[0] {
                ActiveConnectionInfo::WiFi { strength, device, .. } => {
                    &&& final(self).state == State::WifiConnected
                    &&& final(self).icon == spec_wifi_icon(strength)
                    &&& forall|k: int|
                        last_stat_for_device_upto(
                            data.network_statistics@,
                            device@,
                            data.network_statistics@.len() as int,
                            k,
                        ) ==> {
                            &&& final(self).rx_speed@ == spec_format_speed(
                                data.network_statistics@[k].spec_rx_speed() as nat,
                            )
                            &&& final(self).tx_speed@ == spec_format_speed(
                                data.network_statistics@[k].spec_tx_speed() as nat,
                            )
                        }
                    &&& (forall|j: int|
                        0 <= j < data.network_statistics@.len()
                            ==> data.network_statistics@[j].device@ != device@) ==> {
                        &&& final(self).rx_speed == old(self).rx_speed
                        &&& final(self).tx_speed == old(self).tx_speed
                    }
                },
                _ => *final(self) == *old(self),
            },
    {
        if !data.wifi_enabled {
            self.state = State::Offline;
            self.icon = WifiIcon::Off;
            return ;
        }
        if data.active_connections.len() == 0 {
            self.state = State::WifiDisconnected;
            self.icon = WifiIcon::Off;
            return ;
        }
        match &data.active_connections[0] {
            ActiveConnectionInfo::WiFi { strength, device, .. } => {
                self.icon = wifi_icon(*strength);
                self.state = State::WifiConnected;
                let n = data.network_statistics.len();
                let mut i: usize = 0;
                while i < n
                    invariant
                        i <= n,
                        n == data.network_statistics@.len(),
                        self.state == State::WifiConnected,
                        self.icon == spec_wifi_icon(*strength),
                        forall|k: int|
                            #![trigger data.network_statistics@[k]]
                            last_stat_for_device_upto(
                                data.network_statistics@,
                                device@,
                                i as int,
                                k,
                            ) ==> {
                                &&& self.rx_speed@ == spec_format_speed(
                                    data.network_statistics@[k].spec_rx_speed() as nat,
                                )
                                &&& self.tx_speed@ == spec_format_speed(
                                    data.network_statistics@[k].spec_tx_speed() as nat,
                                )
                            },
                        (forall|j: int|
                            0 <= j < i ==> data.network_statistics@[j].device@ != device@) ==> {
                            &&& self.rx_speed == old(self).rx_speed
                            &&& self.tx_speed == old(self).tx_speed
                        },
                    decreases n - i,
                {
                    if string_eq_str(&data.network_statistics[i].device, device.as_str()) {
                        self.rx_speed = format_speed(data.network_statistics[i].rx_speed());
                        self.tx_speed = format_speed(data.network_statistics[i].tx_speed());
                        proof {
                            assert forall|k: int|
                                #![trigger data.network_statistics@[k]]
                                last_stat_for_device_upto(
                                    data.network_statistics@,
                                    device@,
                                    i + 1,
                                    k,
                                ) implies k == i by {
                                if k < i {
                                    assert(data.network_statistics@[i as int].device@ == device@);
                                }
                            };
                        }
                    } else {
                        proof {
                            assert forall|k: int|
                                #![trigger data.network_statistics@[k]]
                                last_stat_for_device_upto(
                                    data.network_statistics@,
                                    device@,
                                    i + 1,
                                    k,
                                ) implies last_stat_for_device_upto(
                                data.network_statistics@,
                                device@,
                                i as int,
                                k,
                            ) by {
                                assert(data.network_statistics@[i as int].device@ != device@);
                            };
                        }
                    }
                    i = i + 1;
                }
            },
            _ => {},
        }
    }
}

/// The connection order is total.
pub proof fn lemma_conn_le_total(a: ActiveConnectionInfo, b: ActiveConnectionInfo)
    ensures
        conn_le(a, b) || conn_le(b, a),
{
    lemma_lex_le_total(a.spec_name(), b.spec_name());
}

/// The connection order is transitive.
pub proof fn lemma_conn_le_trans(
    a: ActiveConnectionInfo,
    b: ActiveConnectionInfo,
    c: ActiveConnectionInfo,
)
    requires
        conn_le(a, b),
        conn_le(b, c),
    ensures
        conn_le(a, c),
{
    if a.spec_rank() == b.spec_rank() && b.spec_rank() == c.spec_rank() {
        lemma_lex_le_trans(a.spec_name(), b.spec_name(), c.spec_name());
    }
}

/// Compares two connections in display order.
fn conn_le_exec(a: &ActiveConnectionInfo, b: &ActiveConnectionInfo) -> (r: bool)
    ensures
        r == conn_le(*a, *b),
{
    let ra = a.rank();
    let rb = b.rank();
    if ra != rb {
        ra < rb
    } else {
        let na = a.name();
        let nb = b.name();
        str_le(na.as_str(), nb.as_str())
    }
}

/// Moving the element `x`, present in `right`, over to `left` preserves the
/// combined contents.
proof fn lemma_multiset_transfer<A>(
    total: Multiset<A>,
    left: Multiset<A>,
    right: Multiset<A>,
    x: A,
)
    requires
        left.add(right) == total,
        right.count(x) >= 1,
    ensures
        left.insert(x).add(right.remove(x)) == total,
{
    broadcast use vstd::multiset::group_multiset_axioms;

    assert(left.insert(x).add(right.remove(x)) =~= total);
}

/// A sequence without elements holds nothing.
proof fn lemma_empty_seq_multiset<A>(s: Seq<A>)
    requires
        s.len() == 0,
    ensures
        forall|x: A| s.to_multiset().count(x) == 0,
{
    broadcast use vstd::seq_lib::group_to_multiset_ensures;

    assert forall|x: A| s.to_multiset().count(x) == 0 by {
        assert(!s.contains(x));
    };
}

/// Sorts the active connections for display: VPNs first, then wired, then
/// wireless, each group by name. The result is a permutation of the input;
/// entries with equal kind and name may appear in any order.
pub fn sort_connections(input: Vec<ActiveConnectionInfo>) -> (out: Vec<ActiveConnectionInfo>)
    ensures
        out@.to_multiset() == input@.to_multiset(),
        out@.len() == input@.len(),
        forall|p: int, q: int| 0 <= p < q < out@.len() ==> conn_le(out@[p], out@[q]),
{
    broadcast use vstd::seq_lib::group_to_multiset_ensures;
    broadcast use vstd::multiset::group_multiset_axioms;

    let mut rest = input;
    let mut out: Vec<ActiveConnectionInfo> = Vec::new();
    proof {
        assert(out@.to_multiset().add(rest@.to_multiset()) =~= input@.to_multiset());
    }
    while rest.len() > 0
        invariant
            out@.to_multiset().add(rest@.to_multiset()) == input@.to_multiset(),
            out@.len() + rest@.len() == input@.len(),
            forall|p: int, q: int| 0 <= p < q < out@.len() ==> conn_le(out@[p], out@[q]),
            forall|p: int, q: int|
                0 <= p < out@.len() && 0 <= q < rest@.len() ==> conn_le(
                    #[trigger] out@[p],
                    #[trigger] rest@[q],
                ),
        decreases rest@.len(),
    {
        let mut m: usize = 0;
        let mut i: usize = 1;
        proof {
            lemma_conn_le_total(rest@[0], rest@[0]);
        }
        while i < rest.len()
            invariant
                m < i <= rest@.len(),
                forall|j: int| 0 <= j < i ==> conn_le(rest@[m as int], #[trigger] rest@[j]),
            decreases rest@.len() - i,
        {
            if conn_le_exec(&rest[i], &rest[m]) {
                proof {
                    assert forall|j: int| 0 <= j < i + 1 implies conn_le(
                        rest@[i as int],
                        #[trigger] rest@[j],
                    ) by {
                        if j < i {
                            lemma_conn_le_trans(rest@[i as int], rest@[m as int], rest@[j]);
                        } else {
                            lemma_conn_le_total(rest@[i as int], rest@[i as int]);
                        }
                    };
                }
                m = i;
            } else {
                proof {
                    lemma_conn_le_total(rest@[m as int], rest@[i as int]);
                }
            }
            i = i + 1;
        }
        let ghost out0 = out@;
        let ghost rest0 = rest@;
        let x = rest.remove(m);
        out.push(x);
        proof {
            assert(rest@ == rest0.remove(m as int));
            assert(out@ == out0.push(x));
            assert(x == rest0[m as int]);
            assert(rest0.contains(x));
            vstd::seq_lib::to_multiset_contains(rest0, x);
            vstd::seq_lib::to_multiset_remove(rest0, m as int);
            vstd::seq_lib::to_multiset_build(out0, x);
            lemma_multiset_transfer(
                input@.to_multiset(),
                out0.to_multiset(),
                rest0.to_multiset(),
                x,
            );
        }
    }
    proof {
        lemma_empty_seq_multiset(rest@);
        assert(out@.to_multiset() =~= input@.to_multiset());
    }
    out
}

/// Sorts access points by ascending signal strength: the order each
/// device's scan list is assembled in.
pub fn sort_access_points_ascending(input: Vec<AccessPoint>) -> (out: Vec<AccessPoint>)
    ensures
        out@.to_multiset() == input@.to_multiset(),
        out@.len() == input@.len(),
        forall|p: int, q: int| 0 <= p < q < out@.len() ==> out@[p].strength <= out@[q].strength,
{
    broadcast use vstd::seq_lib::group_to_multiset_ensures;
    broadcast use vstd::multiset::group_multiset_axioms;

    let mut rest = input;
    let mut out: Vec<AccessPoint> = Vec::new();
    proof {
        assert(out@.to_multiset().add(rest@.to_multiset()) =~= input@.to_multiset());
    }
    while rest.len() > 0
        invariant
            out@.to_multiset().add(rest@.to_multiset()) == input@.to_multiset(),
            out@.len() + rest@.len() == input@.len(),
            forall|p: int, q: int| 0 <= p < q < out@.len() ==> out@[p].strength <= out@[q].strength,
            forall|p: int, q: int|
                0 <= p < out@.len() && 0 <= q < rest@.len() ==> (#[trigger] out@[p]).strength <= (
                #[trigger] rest@[q]).strength,
        decreases rest@.len(),
    {
        let mut m: usize = 0;
        let mut i: usize = 1;
        while i < rest.len()
            invariant
                m < i <= rest@.len(),
                forall|j: int|
                    0 <= j < i ==> rest@[m as int].strength <= (#[trigger] rest@[j]).strength,
            decreases rest@.len() - i,
        {
            if rest[i].strength < rest[m].strength {
                m = i;
            }
            i = i + 1;
        }
        let ghost out0 = out@;
        let ghost rest0 = rest@;
        let x = rest.remove(m);
        out.push(x);
        proof {
            assert(rest@ == rest0.remove(m as int));
            assert(out@ == out0.push(x));
            assert(x == rest0[m as int]);
            assert(rest0.contains(x));
            vstd::seq_lib::to_multiset_contains(rest0, x);
            vstd::seq_lib::to_multiset_remove(rest0, m as int);
            vstd::seq_lib::to_multiset_build(out0, x);
            lemma_multiset_transfer(
                input@.to_multiset(),
                out0.to_multiset(),
                rest0.to_multiset(),
                x,
            );
        }
    }
    proof {
        lemma_empty_seq_multiset(rest@);
        assert(out@.to_multiset() =~= input@.to_multiset());
    }
    out
}

/// Sorts access points by descending signal strength: the order the final
/// snapshot lists them in, strongest first.
pub fn sort_access_points_descending(input: Vec<AccessPoint>) -> (out: Vec<AccessPoint>)
    ensures
        out@.to_multiset() == input@.to_multiset(),
        out@.len() == input@.len(),
        forall|p: int, q: int| 0 <= p < q < out@.len() ==> out@[p].strength >= out@[q].strength,
{
    broadcast use vstd::seq_lib::group_to_multiset_ensures;
    broadcast use vstd::multiset::group_multiset_axioms;

    let mut rest = input;
    let mut out: Vec<AccessPoint> = Vec::new();
    proof {
        assert(out@.to_multiset().add(rest@.to_multiset()) =~= input@.to_multiset());
    }
    while rest.len() > 0
        invariant
            out@.to_multiset().add(rest@.to_multiset()) == input@.to_multiset(),
            out@.len() + rest@.len() == input@.len(),
            forall|p: int, q: int| 0 <= p < q < out@.len() ==> out@[p].strength >= out@[q].strength,
            forall|p: int, q: int|
                0 <= p < out@.len() && 0 <= q < rest@.len() ==> (#[trigger] out@[p]).strength >= (
                #[trigger] rest@[q]).strength,
        decreases rest@.len(),
    {
        let mut m: usize = 0;
        let mut i: usize = 1;
        while i < rest.len()
            invariant
                m < i <= rest@.len(),
                forall|j: int|
                    0 <= j < i ==> rest@[m as int].strength >= (#[trigger] rest@[j]).strength,
            decreases rest@.len() - i,
        {
            if rest[i].strength > rest[m].strength {
                m = i;
            }
            i = i + 1;
        }
        let ghost out0 = out@;
        let ghost rest0 = rest@;
        let x = rest.remove(m);
        out.push(x);
        proof {
            assert(rest@ == rest0.remove(m as int));
            assert(out@ == out0.push(x));
            assert(x == rest0[m as int]);
            assert(rest0.contains(x));
            vstd::seq_lib::to_multiset_contains(rest0, x);
            vstd::seq_lib::to_multiset_remove(rest0, m as int);
            vstd::seq_lib::to_multiset_build(out0, x);
            lemma_multiset_transfer(
                input@.to_multiset(),
                out0.to_multiset(),
                rest0.to_multiset(),
                x,
            );
        }
    }
    proof {
        lemma_empty_seq_multiset(rest@);
        assert(out@.to_multiset() =~= input@.to_multiset());
    }
    out
}

/// Extending the inspected window by one entry, which either replaced its
/// ssid's result entry or was just appended as `after[k]`, keeps every
/// result entry the last strongest of its ssid within the window.
proof fn lemma_last_strongest_step(
    input: Seq<AccessPoint>,
    before: Seq<AccessPoint>,
    after: Seq<AccessPoint>,
    i: int,
    k: int,
)
    requires
        0 <= i < input.len(),
        0 <= k < after.len(),
        after[k] == input[i],
        forall|kk: int| 0 <= kk < before.len() ==> is_last_strongest(input.take(i), #[trigger] before[kk]),
        after.len() == before.len() || after.len() == before.len() + 1,
        after.len() == before.len() + 1 ==> k == before.len(),
        forall|kk: int| 0 <= kk < before.len() && kk != k ==> #[trigger] after[kk] == before[kk],
        forall|kk: int|
            0 <= kk < after.len() && kk != k ==> (#[trigger] after[kk]).ssid@ != input[i].ssid@,
    ensures
        forall|kk: int| 0 <= kk < after.len() ==> is_last_strongest(input.take(i + 1), #[trigger] after[kk]),
{
    assert forall|kk: int| 0 <= kk < after.len() implies is_last_strongest(
        input.take(i + 1),
        #[trigger] after[kk],
    ) by {
        if kk == k {
            assert(input.take(i + 1)[i] == after[kk]);
        } else {
            assert(kk < before.len());
            assert(after[kk] == before[kk]);
            assert(is_last_strongest(input.take(i), before[kk]));
            lemma_last_strongest_extend_other(input, after[kk], i);
        }
    };
}

/// An entry that is the last strongest of its ssid within a window stays so
/// when the window grows by one entry of a different ssid.
proof fn lemma_last_strongest_extend_other(input: Seq<AccessPoint>, a: AccessPoint, i: int)
    requires
        0 <= i < input.len(),
        is_last_strongest(input.take(i), a),
        input[i].ssid@ != a.ssid@,
    ensures
        is_last_strongest(input.take(i + 1), a),
{
    let j = choose|j: int|
        0 <= j < input.take(i).len() && input.take(i)[j] == a && forall|j2: int|
            j < j2 < input.take(i).len() && input.take(i)[j2].ssid@ == a.ssid@ ==> input.take(
                i,
            )[j2].strength < a.strength;
    let w = input.take(i + 1);
    assert(w[j] == a);
    assert forall|j2: int| j < j2 < w.len() && (#[trigger] w[j2]).ssid@ == a.ssid@ implies w[j2].strength
        < a.strength by {
        if j2 < i {
            assert(input.take(i)[j2] == w[j2]);
        } else {
            assert(w[j2] == input[i]);
        }
    };
    assert(is_last_strongest(w, a));
}

/// An entry that is the last strongest of its ssid within a window stays so
/// when the window grows by a strictly weaker entry of the same ssid.
proof fn lemma_last_strongest_weaker_late_entry(
    input: Seq<AccessPoint>,
    out: Seq<AccessPoint>,
    i: int,
    k: int,
)
    requires
        0 <= i < input.len(),
        0 <= k < out.len(),
        forall|kk: int| 0 <= kk < out.len() ==> is_last_strongest(input.take(i), #[trigger] out[kk]),
        out[k].ssid@ == input[i].ssid@,
        input[i].strength < out[k].strength,
        forall|kk: int| 0 <= kk < out.len() && kk != k ==> (#[trigger] out[kk]).ssid@ != input[i].ssid@,
    ensures
        forall|kk: int| 0 <= kk < out.len() ==> is_last_strongest(input.take(i + 1), #[trigger] out[kk]),
{
    assert forall|kk: int| 0 <= kk < out.len() implies is_last_strongest(
        input.take(i + 1),
        #[trigger] out[kk],
    ) by {
        if kk != k {
            lemma_last_strongest_extend_other(input, out[kk], i);
        } else {
            let j = choose|j: int|
                0 <= j < input.take(i).len() && input.take(i)[j] == out[k] && forall|j2: int|
                    j < j2 < input.take(i).len() && input.take(i)[j2].ssid@ == out[k].ssid@
                        ==> input.take(i)[j2].strength < out[k].strength;
            let w = input.take(i + 1);
            assert(w[j] == out[k]);
            assert forall|j2: int|
                j < j2 < w.len() && (#[trigger] w[j2]).ssid@ == out[k].ssid@ implies w[j2].strength
                < out[k].strength by {
                if j2 < i {
                    assert(input.take(i)[j2] == w[j2]);
                } else {
                    assert(w[j2] == input[i]);
                }
            };
            assert(is_last_strongest(w, out[k]));
        }
    };
}

/// `a` stands at some position of `s` after which no entry with its ssid is
/// as strong again: `a` is the last of the strongest entries for its ssid.
pub open spec fn is_last_strongest(s: Seq<AccessPoint>, a: AccessPoint) -> bool {
    exists|j: int|
        0 <= j < s.len() && s[j] == a && forall|j2: int|
            j < j2 < s.len() && s[j2].ssid@ == a.ssid@ ==> s[j2].strength < a.strength
}

/// Keeps one access point per ssid: the strongest seen, a later equal
/// strength replacing an earlier one. The result lists each ssid of the
/// input exactly once; each entry is the last input entry of maximal
/// strength for its ssid.
pub fn dedup_strongest(input: Vec<AccessPoint>) -> (out: Vec<AccessPoint>)
    ensures
        forall|p: int, q: int| 0 <= p < q < out@.len() ==> out@[p].ssid@ != out@[q].ssid@,
        forall|k: int| 0 <= k < out@.len() ==> input@.contains(#[trigger] out@[k]),
        forall|k: int| 0 <= k < out@.len() ==> is_last_strongest(input@, #[trigger] out@[k]),
        forall|j: int| #![trigger input@[j]]
            0 <= j < input@.len() ==> exists|k: int|
                0 <= k < out@.len() && input@[j].ssid@ == out@[k].ssid@,
        forall|k: int, j: int|
            0 <= k < out@.len() && 0 <= j < input@.len() && (#[trigger] input@[j]).ssid@ == (
            #[trigger] out@[k]).ssid@ ==> input@[j].strength <= out@[k].strength,
{
    let n = input.len();
    let mut out: Vec<AccessPoint> = Vec::new();
    let mut i: usize = 0;
    while i < n
        invariant
            i <= n,
            n == input@.len(),
            forall|k: int| 0 <= k < out@.len() ==> input@.contains(#[trigger] out@[k]),
            forall|k: int|
                0 <= k < out@.len() ==> is_last_strongest(
                    input@.take(i as int),
                    #[trigger] out@[k],
                ),
            forall|p: int, q: int| 0 <= p < q < out@.len() ==> out@[p].ssid@ != out@[q].ssid@,
            forall|j: int| #![trigger input@[j]]
                0 <= j < i ==> exists|k: int|
                    0 <= k < out@.len() && input@[j].ssid@ == out@[k].ssid@,
            forall|k: int, j: int|
                0 <= k < out@.len() && 0 <= j < i && (#[trigger] input@[j]).ssid@ == (
                #[trigger] out@[k]).ssid@ ==> input@[j].strength <= out@[k].strength,
        decreases n - i,
    {
        let out_len = out.len();
        let mut k: usize = 0;
        let mut found = false;
        while k < out_len
            invariant_except_break
                k <= out_len,
                i < n,
                n == input@.len(),
                out_len == out@.len(),
                !found,
                forall|p: int| 0 <= p < k ==> (#[trigger] out@[p]).ssid@ != input@[i as int].ssid@,
            ensures
                i < n,
                n == input@.len(),
                out_len == out@.len(),
                found ==> k < out@.len() && out@[k as int].ssid@ == input@[i as int].ssid@,
                !found ==> forall|p: int|
                    0 <= p < out@.len() ==> (#[trigger] out@[p]).ssid@ != input@[i as int].ssid@,
            decreases out_len - k,
        {
            if string_eq_str(&out[k].ssid, input[i].ssid.as_str()) {
                found = true;
                break ;
            }
            k = k + 1;
        }
        let ghost out0 = out@;
        if found {
            if !(out[k].strength > input[i].strength) {
                let ghost out1 = out@;
                let replacement = input[i].clone();
                out[k] = replacement;
                proof {
                    assert forall|kk: int| 0 <= kk < out@.len() implies input@.contains(
                        #[trigger] out@[kk],
                    ) by {
                        if kk == k {
                            assert(input@[i as int] == out@[kk]);
                        } else {
                            assert(out@[kk] == out1[kk]);
                        }
                    };
                    lemma_last_strongest_step(input@, out1, out@, i as int, k as int);
                }
            } else {
                proof {
                    lemma_last_strongest_weaker_late_entry(input@, out@, i as int, k as int);
                }
            }
            proof {
                assert forall|j: int| #![trigger input@[j]] 0 <= j < i + 1 implies exists|kk: int|
                    0 <= kk < out@.len() && input@[j].ssid@ == out@[kk].ssid@ by {
                    if j < i {
                        let kk = choose|kk: int|
                            0 <= kk < out0.len() && input@[j].ssid@ == out0[kk].ssid@;
                        assert(out@[kk].ssid@ == out0[kk].ssid@);
                    } else {
                        assert(out@[k as int].ssid@ == input@[i as int].ssid@);
                    }
                };
            }
        } else {
            let replacement = input[i].clone();
            out.push(replacement);
            proof {
                assert(input@[i as int] == out@[out0.len() as int]);
                assert forall|j: int| #![trigger input@[j]] 0 <= j < i + 1 implies exists|kk: int|
                    0 <= kk < out@.len() && input@[j].ssid@ == out@[kk].ssid@ by {
                    if j < i {
                        let kk = choose|kk: int|
                            0 <= kk < out0.len() && input@[j].ssid@ == out0[kk].ssid@;
                        assert(out@[kk].ssid@ == out0[kk].ssid@);
                    } else {
                        assert(out@[out0.len() as int].ssid@ == input@[i as int].ssid@);
                    }
                };
                lemma_last_strongest_step(input@, out0, out@, i as int, out0.len() as int);
            }
        }
        i = i + 1;
    }
    proof {
        assert(input@.take(n as int) =~= input@);
        assert forall|k: int| 0 <= k < out@.len() implies is_last_strongest(
            input@,
            #[trigger] out@[k],
        ) by {
            assert(is_last_strongest(input@.take(n as int), out@[k]));
        };
    }
    out
}

/// Law: rates are total and never negative, and a zero elapsed time always
/// yields a zero rate rather than a division by zero; a positive elapsed
/// time yields exactly the truncated counter delta per second.
pub proof fn lemma_rate_total(prev: u64, cur: u64, prev_time: i64, cur_time: i64)
    ensures
        spec_rate(prev, cur, prev_time, cur_time) >= 0,
        cur_time == prev_time ==> spec_rate(prev, cur, prev_time, cur_time) == 0,
        cur_time > prev_time && cur >= prev ==> spec_rate(prev, cur, prev_time, cur_time) == ((cur
            - prev) as int) / (cur_time - prev_time),
{
}

} // verus!
