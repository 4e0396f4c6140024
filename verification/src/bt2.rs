//! The decisions of the BT-2 Bluetooth transport: BlueZ object paths, the search
//! for the BT-2 GATT characteristics, the wait for service resolution, the
//! selection of discovered devices and of forwarded notifications.

use vstd::prelude::*;
use crate::error::{RenogyError, RenogyErrorView, bluetooth_error};
use crate::text::{is_prefix, replace_char, replace_char_string, starts_with};

verus! {

/// Name prefix of BT-2 modules as they advertise themselves.
pub const BT2_NAME_PREFIX: &'static str = "BT-TH-";

/// UUID of the characteristic that requests are written to.
pub const BT2_WRITE_CHAR_UUID: &'static str = "0000ffd1-0000-1000-8000-00805f9b34fb";

/// UUID of the characteristic that replies are notified on.
pub const BT2_NOTIFY_CHAR_UUID: &'static str = "0000fff1-0000-1000-8000-00805f9b34fb";

/// D-Bus interface name of GATT characteristics.
pub const GATT_CHARACTERISTIC_INTERFACE: &'static str = "org.bluez.GattCharacteristic1";

/// Time allowed for a reply, in milliseconds.
pub const DEFAULT_TIMEOUT_MS: u64 = 5000;

/// Length of a device scan, in seconds.
pub const DEFAULT_SCAN_SECS: u64 = 5;

/// Adapter scanned by default.
pub const DEFAULT_ADAPTER: &'static str = "hci0";

/// Number of times service resolution is polled before giving up.
pub const SERVICE_POLL_ATTEMPTS: u32 = 50;

/// Pause between two polls of service resolution, in milliseconds.
pub const SERVICE_POLL_INTERVAL_MS: u64 = 100;

/// Pause after the notification listener is started, in milliseconds.
pub const CONNECT_SETTLE_MS: u64 = 100;

/// Capacity of the channel that carries notifications.
pub const NOTIFY_CHANNEL_CAPACITY: usize = 16;

/// What `str::to_uppercase` returns for a string.
pub uninterp spec fn uppercase(s: Seq<char>) -> Seq<char>;

/// What `str::to_lowercase` returns for a string.
pub uninterp spec fn lowercase(s: Seq<char>) -> Seq<char>;

/// Calls `str::to_uppercase`; the result is named [`uppercase`] of the argument.
#[verifier::external_body]
fn to_uppercase(s: &str) -> (r: String)
    ensures
        r@ == uppercase(s@),
{
    s.to_uppercase()
}

/// Calls `str::to_lowercase`; the result is named [`lowercase`] of the argument.
#[verifier::external_body]
fn to_lowercase(s: &str) -> (r: String)
    ensures
        r@ == lowercase(s@),
{
    s.to_lowercase()
}

/// The BlueZ object path of an adapter.
pub open spec fn spec_adapter_path(adapter: Seq<char>) -> Seq<char> {
    "/org/bluez/"@ + adapter
}

/// The BlueZ object path of a device, given its adapter and its address as BlueZ
/// writes it in paths (upper case, with underscores).
pub open spec fn spec_device_path(adapter: Seq<char>, address: Seq<char>) -> Seq<char> {
    spec_adapter_path(adapter) + "/dev_"@ + address
}

/// Returns the BlueZ object path of an adapter: `/org/bluez/{adapter}`.
pub fn adapter_path(adapter: &str) -> (r: String)
    ensures
        r@ == spec_adapter_path(adapter@),
{
    let mut s = String::from_str("/org/bluez/");
    s.append(adapter);
    s
}

/// Returns the BlueZ object path `/org/bluez/{adapter}/dev_{address}`.
pub fn bluez_device_path(adapter: &str, address: &str) -> (r: String)
    ensures
        r@ == spec_device_path(adapter@, address@),
{
    let mut s = adapter_path(adapter);
    s.append("/dev_");
    s.append(address);
    s
}

/// Returns the BlueZ object path of the device with MAC address `mac_address` on
/// `adapter`: colons become underscores and the address is upper-cased.
pub fn device_path_for_address(mac_address: &str, adapter: &str) -> (r: String)
    ensures
        r@ == spec_device_path(adapter@, uppercase(replace_char(mac_address@, ':', '_'))),
{
    let underscored = replace_char_string(mac_address, ':', '_');
    let upper = to_uppercase(underscored.as_str());
    bluez_device_path(adapter, upper.as_str())
}

/// The role of a GATT characteristic for the BT-2 link.
#[derive(Clone, Copy, Debug, PartialEq, Eq, Structural)]
pub enum CharRole {
    /// Requests are written to it.
    Write,
    /// Replies are notified on it.
    Notify,
    /// Not used by the link.
    Other,
}

/// The role of a characteristic given its lower-case UUID.
pub open spec fn role_of(lowercase_uuid: Seq<char>) -> CharRole {
    if lowercase_uuid == BT2_WRITE_CHAR_UUID@ {
        CharRole::Write
    } else if lowercase_uuid == BT2_NOTIFY_CHAR_UUID@ {
        CharRole::Notify
    } else {
        CharRole::Other
    }
}

/// Returns the role of a characteristic given its lower-case UUID.
pub fn characteristic_role(lowercase_uuid: &str) -> (r: CharRole)
    ensures
        r == role_of(lowercase_uuid@),
{
    let u = String::from_str(lowercase_uuid);
    if u == String::from_str(BT2_WRITE_CHAR_UUID) {
        CharRole::Write
    } else if u == String::from_str(BT2_NOTIFY_CHAR_UUID) {
        CharRole::Notify
    } else {
        CharRole::Other
    }
}

/// A D-Bus object reported by BlueZ, reduced to what the characteristic search reads:
/// its path and, when it is a GATT characteristic with a string `UUID` property, that UUID.
#[derive(Debug, Clone)]
pub struct GattObject {
    pub path: String,
    pub characteristic_uuid: Option<String>,
}

/// The abstract value of a [`GattObject`].
pub struct GattObjectView {
    pub path: Seq<char>,
    pub characteristic_uuid: Option<Seq<char>>,
}

/// The characters of an optional string.
pub open spec fn opt_string_view(o: Option<String>) -> Option<Seq<char>> {
    match o {
        Some(s) => Some(s@),
        None => None,
    }
}

impl View for GattObject {
    type V = GattObjectView;

    open spec fn view(&self) -> GattObjectView {
        GattObjectView {
            path: self.path@,
            characteristic_uuid: opt_string_view(self.characteristic_uuid),
        }
    }
}

/// The role of an object for the device at `device_path`: objects outside the device's
/// path, and objects that are not characteristics, play no role.
pub open spec fn object_role(o: GattObjectView, device_path: Seq<char>) -> CharRole {
    if !is_prefix(device_path, o.path) {
        CharRole::Other
    } else {
        match o.characteristic_uuid {
            None => CharRole::Other,
            Some(u) => role_of(lowercase(u)),
        }
    }
}

/// The search state after looking at the objects from index `k` on, having found
/// `w` and `n` so far: a later object of a role replaces an earlier one, and the
/// search stops as soon as both roles are found.
pub open spec fn scan_from(
    objs: Seq<GattObjectView>,
    device_path: Seq<char>,
    k: int,
    w: Option<Seq<char>>,
    n: Option<Seq<char>>,
) -> (Option<Seq<char>>, Option<Seq<char>>)
    decreases objs.len() - k,
{
    if k < 0 || k >= objs.len() {
        (w, n)
    } else {
        let role = object_role(objs[k], device_path);
        let w2 = if role == CharRole::Write {
            Some(objs[k].path)
        } else {
            w
        };
        let n2 = if role == CharRole::Notify {
            Some(objs[k].path)
        } else {
            n
        };
        if w2 is Some && n2 is Some {
            (w2, n2)
        } else {
            scan_from(objs, device_path, k + 1, w2, n2)
        }
    }
}

/// The result of the characteristic search over `objs`, in the order given.
pub open spec fn characteristics_search(objs: Seq<GattObjectView>, device_path: Seq<char>) -> Result<
    (Seq<char>, Seq<char>),
    RenogyErrorView,
> {
    let (w, n) = scan_from(objs, device_path, 0, None, None);
    if w is Some && n is Some {
        Ok((w->0, n->0))
    } else {
        Err(RenogyErrorView::Bluetooth("BT-2 characteristics not found"@))
    }
}

/// The abstract values of a sequence of objects.
pub open spec fn objects_view(objs: Seq<GattObject>) -> Seq<GattObjectView> {
    objs.map_values(|o: GattObject| o@)
}

/// The abstract value of a search result.
pub open spec fn paths_result_view(r: Result<(String, String), RenogyError>) -> Result<
    (Seq<char>, Seq<char>),
    RenogyErrorView,
> {
    match r {
        Ok((w, n)) => Ok((w@, n@)),
        Err(e) => Err(e@),
    }
}

/// Returns the role of one object for the device at `device_path`.
pub fn role_for_device(o: &GattObject, device_path: &str) -> (r: CharRole)
    ensures
        r == object_role(o@, device_path@),
{
    if !starts_with(o.path.as_str(), device_path) {
        return CharRole::Other;
    }
    match &o.characteristic_uuid {
        None => CharRole::Other,
        Some(u) => {
            let lower = to_lowercase(u.as_str());
            characteristic_role(lower.as_str())
        },
    }
}

/// Finds the paths of the write and notify characteristics of the BT-2 device at
/// `device_path` among the objects that BlueZ manages, in the order given.
pub fn find_characteristics(objects: &Vec<GattObject>, device_path: &str) -> (r: Result<
    (String, String),
    RenogyError,
>)
    ensures
        paths_result_view(r) == characteristics_search(objects_view(objects@), device_path@),
{
    let ghost objs = objects_view(objects@);
    let mut write_path: Option<String> = None;
    let mut notify_path: Option<String> = None;
    let mut i: usize = 0;
    while i < objects.len()
        invariant
            i <= objects@.len(),
            objs == objects_view(objects@),
            objs.len() == objects@.len(),
            !(write_path is Some && notify_path is Some),
            scan_from(objs, device_path@, i as int, opt_string_view(write_path), opt_string_view(notify_path))
                == scan_from(objs, device_path@, 0, None, None),
        decreases objects@.len() - i,
    {
        let o = &objects[i];
        assert(objs[i as int] == o@);
        let role = role_for_device(o, device_path);
        match role {
            CharRole::Write => {
                write_path = Some(o.path.clone());
            },
            CharRole::Notify => {
                notify_path = Some(o.path.clone());
            },
            CharRole::Other => {},
        }
        if write_path.is_some() && notify_path.is_some() {
            match (write_path, notify_path) {
                (Some(w), Some(n)) => {
                    return Ok((w, n));
                },
                _ => {
                    return Err(bluetooth_error("BT-2 characteristics not found"));
                },
            }
        }
        i = i + 1;
    }
    match (write_path, notify_path) {
        (Some(w), Some(n)) => Ok((w, n)),
        _ => Err(bluetooth_error("BT-2 characteristics not found")),
    }
}

/// Whether some object from index `k` on plays `role` for the device.
pub open spec fn role_present(
    objs: Seq<GattObjectView>,
    device_path: Seq<char>,
    role: CharRole,
    k: int,
) -> bool {
    exists|j: int| k <= j < objs.len() && #[trigger] object_role(objs[j], device_path) == role
}

/// Whether `path` is the path of some object from index `k` on that plays `role`.
pub open spec fn role_path(
    objs: Seq<GattObjectView>,
    device_path: Seq<char>,
    role: CharRole,
    k: int,
    path: Seq<char>,
) -> bool {
    exists|j: int|
        k <= j < objs.len() && #[trigger] object_role(objs[j], device_path) == role && objs[j].path
            == path
}

proof fn lemma_scan_from(
    objs: Seq<GattObjectView>,
    device_path: Seq<char>,
    k: int,
    w: Option<Seq<char>>,
    n: Option<Seq<char>>,
)
    requires
        0 <= k <= objs.len(),
    ensures
        ({
            let (w2, n2) = scan_from(objs, device_path, k, w, n);
            &&& (w2 is Some <==> (w is Some || role_present(objs, device_path, CharRole::Write, k)))
            &&& (n2 is Some <==> (n is Some || role_present(objs, device_path, CharRole::Notify, k)))
            &&& (w2 matches Some(p) ==> (w == Some(p) || role_path(
                objs,
                device_path,
                CharRole::Write,
                k,
                p,
            )))
            &&& (n2 matches Some(p) ==> (n == Some(p) || role_path(
                objs,
                device_path,
                CharRole::Notify,
                k,
                p,
            )))
        }),
    decreases objs.len() - k,
{
    if k < objs.len() {
        let role = object_role(objs[k], device_path);
        let w1 = if role == CharRole::Write {
            Some(objs[k].path)
        } else {
            w
        };
        let n1 = if role == CharRole::Notify {
            Some(objs[k].path)
        } else {
            n
        };
        if !(w1 is Some && n1 is Some) {
            lemma_scan_from(objs, device_path, k + 1, w1, n1);
            let (w2, n2) = scan_from(objs, device_path, k + 1, w1, n1);
            assert(role_present(objs, device_path, CharRole::Write, k + 1) ==> role_present(
                objs,
                device_path,
                CharRole::Write,
                k,
            ));
            assert(role_present(objs, device_path, CharRole::Notify, k + 1) ==> role_present(
                objs,
                device_path,
                CharRole::Notify,
                k,
            ));
            if role == CharRole::Write {
                assert(object_role(objs[k], device_path) == CharRole::Write);
            }
            if role == CharRole::Notify {
                assert(object_role(objs[k], device_path) == CharRole::Notify);
            }
            if role_present(objs, device_path, CharRole::Write, k) && w is None {
                let j = choose|j: int|
                    k <= j < objs.len() && #[trigger] object_role(objs[j], device_path)
                        == CharRole::Write;
                if j > k {
                    assert(role_present(objs, device_path, CharRole::Write, k + 1));
                }
            }
            if role_present(objs, device_path, CharRole::Notify, k) && n is None {
                let j = choose|j: int|
                    k <= j < objs.len() && #[trigger] object_role(objs[j], device_path)
                        == CharRole::Notify;
                if j > k {
                    assert(role_present(objs, device_path, CharRole::Notify, k + 1));
                }
            }
            if let Some(p) = w2 {
                if role_path(objs, device_path, CharRole::Write, k + 1, p) {
                    let j = choose|j: int|
                        k + 1 <= j < objs.len() && #[trigger] object_role(objs[j], device_path)
                            == CharRole::Write && objs[j].path == p;
                    assert(k <= j);
                }
            }
            if let Some(p) = n2 {
                if role_path(objs, device_path, CharRole::Notify, k + 1, p) {
                    let j = choose|j: int|
                        k + 1 <= j < objs.len() && #[trigger] object_role(objs[j], device_path)
                            == CharRole::Notify && objs[j].path == p;
                    assert(k <= j);
                }
            }
        } else {
            if role == CharRole::Write {
                assert(object_role(objs[k], device_path) == CharRole::Write);
            }
            if role == CharRole::Notify {
                assert(object_role(objs[k], device_path) == CharRole::Notify);
            }
        }
    }
}

/// The characteristic search succeeds exactly when some object under the device's
/// path is a write characteristic and some is a notify characteristic; the paths it
/// returns are those of such objects.
pub proof fn lemma_characteristics_search(objs: Seq<GattObjectView>, device_path: Seq<char>)
    ensures
        characteristics_search(objs, device_path) is Ok <==> (role_present(
            objs,
            device_path,
            CharRole::Write,
            0,
        ) && role_present(objs, device_path, CharRole::Notify, 0)),
        characteristics_search(objs, device_path) matches Ok((w, n)) ==> role_path(
            objs,
            device_path,
            CharRole::Write,
            0,
            w,
        ) && role_path(objs, device_path, CharRole::Notify, 0, n),
{
    lemma_scan_from(objs, device_path, 0, None, None);
}

/// What the transport does after a poll of service resolution.
#[derive(Clone, Copy, Debug, PartialEq, Eq, Structural)]
pub enum ServiceWaitAction {
    /// Services are resolved: the wait is over.
    Ready,
    /// Sleep one poll interval, then poll again.
    SleepThenPoll,
    /// Sleep one poll interval, then give up with [`services_timeout_error`].
    SleepThenFail,
}

/// The action after a poll, given the number of polls made before it.
pub open spec fn spec_service_wait_step(polls_before: u32, resolved: bool) -> ServiceWaitAction {
    if resolved {
        ServiceWaitAction::Ready
    } else if polls_before + 1 < SERVICE_POLL_ATTEMPTS {
        ServiceWaitAction::SleepThenPoll
    } else {
        ServiceWaitAction::SleepThenFail
    }
}

/// Decides what follows a poll of service resolution, given the number of polls
/// made before it and whether services were reported resolved.
pub fn service_wait_step(polls_before: u32, resolved: bool) -> (a: ServiceWaitAction)
    requires
        polls_before < SERVICE_POLL_ATTEMPTS,
    ensures
        a == spec_service_wait_step(polls_before, resolved),
{
    if resolved {
        ServiceWaitAction::Ready
    } else if polls_before + 1 < SERVICE_POLL_ATTEMPTS {
        ServiceWaitAction::SleepThenPoll
    } else {
        ServiceWaitAction::SleepThenFail
    }
}

/// The error reported when services never resolve.
pub fn services_timeout_error() -> (e: RenogyError)
    ensures
        e@ == RenogyErrorView::Bluetooth("timeout waiting for services to resolve"@),
{
    bluetooth_error("timeout waiting for services to resolve")
}

/// If services are never reported resolved, the wait polls exactly
/// `SERVICE_POLL_ATTEMPTS` times: every earlier poll is followed by another one and
/// the last one by giving up; a resolved poll always ends the wait.
pub proof fn lemma_service_wait_gives_up_after_attempts(k: u32)
    requires
        k < SERVICE_POLL_ATTEMPTS,
    ensures
        k + 1 < SERVICE_POLL_ATTEMPTS ==> spec_service_wait_step(k, false)
            == ServiceWaitAction::SleepThenPoll,
        k + 1 == SERVICE_POLL_ATTEMPTS ==> spec_service_wait_step(k, false)
            == ServiceWaitAction::SleepThenFail,
        spec_service_wait_step(k, true) == ServiceWaitAction::Ready,
{
}

/// Whether an advertised device name is that of a BT-2 module.
pub open spec fn is_bt2_name(name: Option<String>) -> bool {
    name matches Some(s) && is_prefix(BT2_NAME_PREFIX@, s@)
}

/// The indices, in increasing order, of the names among the first `k` that are BT-2 names.
pub open spec fn bt2_indices(names: Seq<Option<String>>, k: int) -> Seq<usize>
    decreases k,
{
    if k <= 0 {
        Seq::empty()
    } else if is_bt2_name(names[k - 1]) {
        bt2_indices(names, k - 1).push((k - 1) as usize)
    } else {
        bt2_indices(names, k - 1)
    }
}

/// Returns the indices of the discovered devices whose name starts with the BT-2 prefix.
pub fn bt2_device_indices(names: &Vec<Option<String>>) -> (r: Vec<usize>)
    ensures
        r@ == bt2_indices(names@, names@.len() as int),
{
    let mut out: Vec<usize> = Vec::new();
    let mut i: usize = 0;
    while i < names.len()
        invariant
            i <= names@.len(),
            out@ == bt2_indices(names@, i as int),
        decreases names@.len() - i,
    {
        let keep = match &names[i] {
            Some(n) => starts_with(n.as_str(), BT2_NAME_PREFIX),
            None => false,
        };
        if keep {
            out.push(i);
        }
        i = i + 1;
    }
    out
}

/// The data a notification carries forward: its value when present and not empty.
pub fn notification_data(value: Option<Vec<u8>>) -> (r: Option<Vec<u8>>)
    ensures
        match value {
            Some(v) => if v@.len() > 0 {
                r == Some(v)
            } else {
                r is None
            },
            None => r is None,
        },
{
    match value {
        Some(v) => {
            if v.len() > 0 {
                Some(v)
            } else {
                None
            }
        },
        None => None,
    }
}

} // verus!
