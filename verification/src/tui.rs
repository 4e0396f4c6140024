//! The text decisions of the terminal dashboard: bars, labels, titles, the status
//! line, and which history points a chart shows.

use vstd::prelude::*;
use crate::text::{
    decimal, decimal_string, hex2, pad_left, push_decimal, push_decimal_padded, push_hex2,
    push_repeated, repeat_char,
};

verus! {

/// Character of a filled bar cell.
pub const BAR_FILLED: char = '\u{2588}';

/// Character of an empty bar cell.
pub const BAR_EMPTY: char = '\u{2591}';

/// Width of the state-of-charge bars, in cells.
pub const SOC_BAR_WIDTH: usize = 40;

/// A bar of `width` cells whose first `filled` cells are filled.
pub open spec fn spec_bar(filled: nat, width: nat) -> Seq<char> {
    repeat_char(BAR_FILLED, filled) + repeat_char(BAR_EMPTY, (width - filled) as nat)
}

/// Returns a bar of `width` cells whose first `filled` cells are filled.
pub fn bar_text(filled: usize, width: usize) -> (r: String)
    requires
        filled <= width,
    ensures
        r@ == spec_bar(filled as nat, width as nat),
{
    let mut s = String::new();
    push_repeated(&mut s, BAR_FILLED, filled);
    push_repeated(&mut s, BAR_EMPTY, width - filled);
    assert(s@ =~= spec_bar(filled as nat, width as nat));
    s
}

/// A bar has exactly `width` cells, and exactly `filled` of them are filled.
pub proof fn lemma_bar_shape(filled: nat, width: nat)
    requires
        filled <= width,
    ensures
        spec_bar(filled, width).len() == width,
        spec_bar(filled, width).filter(|c: char| c == BAR_FILLED).len() == filled,
{
    let b = spec_bar(filled, width);
    let f = |c: char| c == BAR_FILLED;
    let left = repeat_char(BAR_FILLED, filled);
    let right = repeat_char(BAR_EMPTY, (width - filled) as nat);
    Seq::filter_distributes_over_add(left, right, f);
    assert(b =~= left + right);
    assert(left.filter(f) =~= left) by {
        lemma_filter_all(left, f);
    }
    assert(right.filter(f) =~= Seq::<char>::empty()) by {
        lemma_filter_none(right, f);
    }
}

proof fn lemma_filter_all(s: Seq<char>, f: spec_fn(char) -> bool)
    requires
        forall|i: int| 0 <= i < s.len() ==> f(s[i]),
    ensures
        s.filter(f) == s,
    decreases s.len(),
{
    reveal_with_fuel(Seq::filter, 1);
    if s.len() > 0 {
        lemma_filter_all(s.drop_last(), f);
        assert(s.drop_last().push(s.last()) =~= s);
    }
}

proof fn lemma_filter_none(s: Seq<char>, f: spec_fn(char) -> bool)
    requires
        forall|i: int| 0 <= i < s.len() ==> !f(s[i]),
    ensures
        s.filter(f) == Seq::<char>::empty(),
    decreases s.len(),
{
    reveal_with_fuel(Seq::filter, 1);
    if s.len() > 0 {
        lemma_filter_none(s.drop_last(), f);
    }
}

/// The tabs of the dashboard.
#[derive(Clone, Copy, Debug, PartialEq, Eq, Structural)]
pub enum Tab {
    Overview,
    Graphs,
}

/// Returns the position of a tab in the tab bar.
pub fn tab_index(tab: Tab) -> (i: usize)
    ensures
        i == (match tab {
            Tab::Overview => 0usize,
            Tab::Graphs => 1usize,
        }),
{
    match tab {
        Tab::Overview => 0,
        Tab::Graphs => 1,
    }
}

/// The title of the summary box.
pub open spec fn spec_rollup_title(battery_count: nat) -> Seq<char> {
    if battery_count == 1 {
        " Summary (1 battery) "@
    } else {
        " Summary ("@ + decimal(battery_count) + " batteries) "@
    }
}

/// Returns the title of the summary box for `battery_count` batteries.
pub fn rollup_title(battery_count: usize) -> (r: String)
    ensures
        r@ == spec_rollup_title(battery_count as nat),
{
    if battery_count == 1 {
        String::from_str(" Summary (1 battery) ")
    } else {
        let mut s = String::from_str(" Summary (");
        push_decimal(&mut s, battery_count as u64);
        s.append(" batteries) ");
        s
    }
}

/// The number of `true` entries among the first `k`.
pub open spec fn count_true(flags: Seq<bool>, k: int) -> nat
    decreases k,
{
    if k <= 0 {
        0
    } else {
        count_true(flags, k - 1) + if flags[k - 1] {
            1nat
        } else {
            0nat
        }
    }
}

/// Returns how many batteries have alarms, given for each battery whether it has
/// data and that data shows alarms.
pub fn alarm_count(alarmed: &Vec<bool>) -> (n: usize)
    ensures
        n == count_true(alarmed@, alarmed@.len() as int),
{
    let mut n: usize = 0;
    let mut i: usize = 0;
    while i < alarmed.len()
        invariant
            i <= alarmed@.len(),
            n == count_true(alarmed@, i as int),
            n <= i,
        decreases alarmed@.len() - i,
    {
        if alarmed[i] {
            n = n + 1;
        }
        i = i + 1;
    }
    n
}

/// The list entry of a battery without data: `0x{address:02X} ---`.
pub open spec fn spec_address_label(addr: u8) -> Seq<char> {
    "0x"@ + hex2(addr) + " ---"@
}

/// Returns the list entry of a battery without data.
pub fn address_label(addr: u8) -> (r: String)
    ensures
        r@ == spec_address_label(addr),
{
    let mut s = String::from_str("0x");
    push_hex2(&mut s, addr);
    s.append(" ---");
    s
}

/// The detail text shown when the selected battery has no data.
pub open spec fn spec_no_data_label(addr: u8) -> Seq<char> {
    "No data for 0x"@ + hex2(addr)
}

/// Returns the detail text shown when the selected battery has no data.
pub fn no_data_label(addr: u8) -> (r: String)
    ensures
        r@ == spec_no_data_label(addr),
{
    let mut s = String::from_str("No data for 0x");
    push_hex2(&mut s, addr);
    s
}

/// Returns the address of the selected battery, or 0 when the selection is out of range.
pub fn selected_address(addrs: &Vec<u8>, selected: usize) -> (a: u8)
    ensures
        a == (if selected < addrs@.len() {
            addrs@[selected as int]
        } else {
            0u8
        }),
{
    if selected < addrs.len() {
        addrs[selected]
    } else {
        0
    }
}

/// How long ago the last update was: whole seconds under a minute, whole minutes
/// otherwise, and `-` when there has been none.
pub open spec fn spec_elapsed_label(elapsed_secs: Option<u64>) -> Seq<char> {
    match elapsed_secs {
        None => "-"@,
        Some(s) => if s < 60 {
            decimal(s as nat) + "s"@
        } else {
            decimal((s / 60) as nat) + "m"@
        },
    }
}

/// Returns how long ago the last update was.
pub fn elapsed_label(elapsed_secs: Option<u64>) -> (r: String)
    ensures
        r@ == spec_elapsed_label(elapsed_secs),
{
    match elapsed_secs {
        None => String::from_str("-"),
        Some(secs) => {
            if secs < 60 {
                let mut s = decimal_string(secs);
                s.append("s");
                s
            } else {
                let mut s = decimal_string(secs / 60);
                s.append("m");
                s
            }
        },
    }
}

/// The state shown in the status line.
#[derive(Clone, Copy, Debug, PartialEq, Eq, Structural)]
pub enum StatusKind {
    Refreshing,
    Error,
    Normal,
}

/// Returns the state shown in the status line: a refresh in progress wins over an
/// error, and an error over the normal state.
pub fn status_kind(refreshing: bool, has_error: bool) -> (k: StatusKind)
    ensures
        k == (if refreshing {
            StatusKind::Refreshing
        } else if has_error {
            StatusKind::Error
        } else {
            StatusKind::Normal
        }),
{
    if refreshing {
        StatusKind::Refreshing
    } else if has_error {
        StatusKind::Error
    } else {
        StatusKind::Normal
    }
}

/// The word shown for a status.
pub open spec fn spec_status_text(k: StatusKind) -> Seq<char> {
    match k {
        StatusKind::Refreshing => "Refreshing"@,
        StatusKind::Error => "Error"@,
        StatusKind::Normal => "OK"@,
    }
}

/// Returns the word shown for a status.
pub fn status_text(k: StatusKind) -> (r: String)
    ensures
        r@ == spec_status_text(k),
{
    match k {
        StatusKind::Refreshing => String::from_str("Refreshing"),
        StatusKind::Error => String::from_str("Error"),
        StatusKind::Normal => String::from_str("OK"),
    }
}

/// The end of the status line: the time since the last update, and on the graphs tab
/// the number of history points.
pub open spec fn spec_status_tail(tab: Tab, last_update: Seq<char>, points: nat) -> Seq<char> {
    match tab {
        Tab::Overview => " | "@ + last_update,
        Tab::Graphs => " | "@ + last_update + " | "@ + decimal(points) + " pts"@,
    }
}

/// Returns the end of the status line.
pub fn status_tail(tab: Tab, last_update: &str, points: usize) -> (r: String)
    ensures
        r@ == spec_status_tail(tab, last_update@, points as nat),
{
    let mut s = String::from_str(" | ");
    s.append(last_update);
    match tab {
        Tab::Overview => {},
        Tab::Graphs => {
            s.append(" | ");
            push_decimal(&mut s, points as u64);
            s.append(" pts");
        },
    }
    s
}

/// Returns the time window a chart shows, `(start, end)`, from the current time, the
/// scroll offset back in time and the zoom window, all in seconds; both ends stop at 0.
pub fn view_window(now_secs: u64, scroll_offset_secs: u64, window_secs: u64) -> (r: (u64, u64))
    ensures
        r.1 == (if scroll_offset_secs <= now_secs {
            now_secs - scroll_offset_secs
        } else {
            0
        }),
        r.0 == (if window_secs <= r.1 {
            r.1 - window_secs
        } else {
            0
        }),
{
    let end = now_secs.saturating_sub(scroll_offset_secs);
    let start = end.saturating_sub(window_secs);
    (start, end)
}

/// The window never ends after the current time and never starts after it ends.
pub proof fn lemma_view_window_ordered(now: u64, scroll: u64, window: u64)
    ensures
        ({
            let end = if scroll <= now {
                now - scroll
            } else {
                0
            };
            let start = if window <= end {
                end - window
            } else {
                0
            };
            start <= end <= now
        }),
{
}

/// Returns the most points a chart of `width` columns draws: two per column.
pub fn max_chart_points(width: u16) -> (n: usize)
    ensures
        n == 2 * width,
{
    (width as usize) * 2
}

/// Whether a timestamp lies in the closed window `[start, end]`.
pub open spec fn in_view(ts: u64, start: u64, end: u64) -> bool {
    start <= ts && ts <= end
}

/// The indices, among the first `k`, of points in the window (and, when `need_temp`,
/// that also carry a temperature), in increasing order.
pub open spec fn view_indices(
    timestamps: Seq<u64>,
    has_temp: Seq<bool>,
    start: u64,
    end: u64,
    need_temp: bool,
    k: int,
) -> Seq<usize>
    decreases k,
{
    if k <= 0 {
        Seq::empty()
    } else {
        let prev = view_indices(timestamps, has_temp, start, end, need_temp, k - 1);
        if in_view(timestamps[k - 1], start, end) && (!need_temp || has_temp[k - 1]) {
            prev.push((k - 1) as usize)
        } else {
            prev
        }
    }
}

/// Returns which history points the charts show: the indices of the points in the
/// window `[start, end]`, and among them those that carry a temperature.
pub fn chart_selection(timestamps: &Vec<u64>, has_temp: &Vec<bool>, start: u64, end: u64) -> (r: (
    Vec<usize>,
    Vec<usize>,
))
    requires
        timestamps@.len() == has_temp@.len(),
    ensures
        r.0@ == view_indices(timestamps@, has_temp@, start, end, false, timestamps@.len() as int),
        r.1@ == view_indices(timestamps@, has_temp@, start, end, true, timestamps@.len() as int),
{
    let mut all: Vec<usize> = Vec::new();
    let mut temps: Vec<usize> = Vec::new();
    let mut i: usize = 0;
    while i < timestamps.len()
        invariant
            i <= timestamps@.len(),
            timestamps@.len() == has_temp@.len(),
            all@ == view_indices(timestamps@, has_temp@, start, end, false, i as int),
            temps@ == view_indices(timestamps@, has_temp@, start, end, true, i as int),
        decreases timestamps@.len() - i,
    {
        let ts = timestamps[i];
        if start <= ts && ts <= end {
            all.push(i);
            if has_temp[i] {
                temps.push(i);
            }
        }
        i = i + 1;
    }
    (all, temps)
}

/// Whether point `i` is selected: in the window and, when asked for, with a temperature.
pub open spec fn selected_point(
    timestamps: Seq<u64>,
    has_temp: Seq<bool>,
    start: u64,
    end: u64,
    need_temp: bool,
    i: int,
) -> bool {
    in_view(timestamps[i], start, end) && (!need_temp || has_temp[i])
}

/// The selected indices are exactly the in-window points (with a temperature when
/// asked for), in increasing order.
pub proof fn lemma_view_indices(
    timestamps: Seq<u64>,
    has_temp: Seq<bool>,
    start: u64,
    end: u64,
    need_temp: bool,
    k: int,
)
    requires
        0 <= k <= timestamps.len(),
        timestamps.len() == has_temp.len(),
        timestamps.len() <= usize::MAX,
    ensures
        ({
            let s = view_indices(timestamps, has_temp, start, end, need_temp, k);
            &&& forall|j: int|
                0 <= j < s.len() ==> #[trigger] s[j] < k && selected_point(
                    timestamps,
                    has_temp,
                    start,
                    end,
                    need_temp,
                    s[j] as int,
                )
            &&& forall|j: int, l: int| 0 <= j < l < s.len() ==> #[trigger] s[j] < #[trigger] s[l]
            &&& forall|i: int|
                0 <= i < k && #[trigger] selected_point(timestamps, has_temp, start, end, need_temp, i)
                    ==> s.contains(i as usize)
        }),
    decreases k,
{
    if k > 0 {
        lemma_view_indices(timestamps, has_temp, start, end, need_temp, k - 1);
        let prev = view_indices(timestamps, has_temp, start, end, need_temp, k - 1);
        let s = view_indices(timestamps, has_temp, start, end, need_temp, k);
        if selected_point(timestamps, has_temp, start, end, need_temp, k - 1) {
            assert(s == prev.push((k - 1) as usize));
            assert forall|i: int|
                0 <= i < k && #[trigger] selected_point(
                    timestamps,
                    has_temp,
                    start,
                    end,
                    need_temp,
                    i,
                ) implies s.contains(i as usize) by {
                if i < k - 1 {
                    let j = choose|j: int| 0 <= j < prev.len() && prev[j] == i as usize;
                    assert(s[j] == i as usize);
                } else {
                    assert(s[s.len() - 1] == i as usize);
                }
            }
        } else {
            assert(s == prev);
        }
    }
}

/// The box title of a chart: ` {title} `, or ` {title} [{zoom_label}] ` when a zoom
/// label is given.
pub open spec fn spec_chart_title(title: Seq<char>, zoom_label: Seq<char>) -> Seq<char> {
    if zoom_label.len() == 0 {
        " "@ + title + " "@
    } else {
        " "@ + title + " ["@ + zoom_label + "] "@
    }
}

/// Returns the box title of a chart.
pub fn chart_title(title: &str, zoom_label: &str) -> (r: String)
    ensures
        r@ == spec_chart_title(title@, zoom_label@),
{
    let mut s = String::from_str(" ");
    s.append(title);
    if zoom_label.is_empty() {
        s.append(" ");
    } else {
        s.append(" [");
        s.append(zoom_label);
        s.append("] ");
    }
    s
}

/// The heading of the cell-voltage block: `Cells[{count}]: `.
pub open spec fn spec_cells_label(count: nat) -> Seq<char> {
    "Cells["@ + decimal(count) + "]: "@
}

/// Returns the heading of the cell-voltage block.
pub fn cells_label(count: usize) -> (r: String)
    ensures
        r@ == spec_cells_label(count as nat),
{
    let mut s = String::from_str("Cells[");
    push_decimal(&mut s, count as u64);
    s.append("]: ");
    s
}

/// Number of cell voltages per row.
pub const CELLS_PER_ROW: usize = 4;

/// The label of a row of cell voltages: the number of its first cell (counting from
/// one), right-aligned on two columns.
pub open spec fn spec_cell_row_label(row: nat) -> Seq<char> {
    " "@ + pad_left(decimal(row * 4 + 1), 2) + ": "@
}

/// Returns the label of a row of cell voltages.
pub fn cell_row_label(row: usize) -> (r: String)
    requires
        row * 4 + 1 <= u64::MAX,
    ensures
        r@ == spec_cell_row_label(row as nat),
{
    let mut s = String::from_str(" ");
    push_decimal_padded(&mut s, (row as u64) * 4 + 1, 2);
    s.append(": ");
    s
}

/// The sensor count after a temperature range: ` ({count} sensors)`.
pub open spec fn spec_sensors_label(count: nat) -> Seq<char> {
    " ("@ + decimal(count) + " sensors)"@
}

/// Returns the sensor count shown after a temperature range.
pub fn sensors_label(count: usize) -> (r: String)
    ensures
        r@ == spec_sensors_label(count as nat),
{
    let mut s = String::from_str(" (");
    push_decimal(&mut s, count as u64);
    s.append(" sensors)");
    s
}

/// The state of a MOSFET: `{name}:ON` or `{name}:off`.
pub open spec fn spec_mosfet_label(name: Seq<char>, on: bool) -> Seq<char> {
    name + if on {
        ":ON"@
    } else {
        ":off"@
    }
}

/// Returns the state of a MOSFET.
pub fn mosfet_label(name: &str, on: bool) -> (r: String)
    ensures
        r@ == spec_mosfet_label(name@, on),
{
    let mut s = String::from_str(name);
    if on {
        s.append(":ON");
    } else {
        s.append(":off");
    }
    s
}

/// An item of the battery state line.
#[derive(Clone, Copy, Debug, PartialEq, Eq, Structural)]
pub enum StateItem {
    /// Shown as `FULL`, in green.
    FullyCharged,
    /// Shown as `HEATER`, in yellow.
    HeaterOn,
}

/// Returns the items of the battery state line, in display order.
pub fn state_items(fully_charged: bool, heater_on: bool) -> (r: Vec<StateItem>)
    ensures
        r@ == (if fully_charged {
            seq![StateItem::FullyCharged]
        } else {
            Seq::empty()
        }) + (if heater_on {
            seq![StateItem::HeaterOn]
        } else {
            Seq::empty()
        }),
{
    let mut v: Vec<StateItem> = Vec::new();
    if fully_charged {
        v.push(StateItem::FullyCharged);
    }
    if heater_on {
        v.push(StateItem::HeaterOn);
    }
    assert(v@ =~= (if fully_charged {
        seq![StateItem::FullyCharged]
    } else {
        Seq::empty()
    }) + (if heater_on {
        seq![StateItem::HeaterOn]
    } else {
        Seq::empty()
    }));
    v
}

/// The text of a state item.
pub open spec fn spec_state_item_text(item: StateItem) -> Seq<char> {
    match item {
        StateItem::FullyCharged => "FULL"@,
        StateItem::HeaterOn => "HEATER"@,
    }
}

/// Returns the text of a state item.
pub fn state_item_text(item: StateItem) -> (r: String)
    ensures
        r@ == spec_state_item_text(item),
{
    match item {
        StateItem::FullyCharged => String::from_str("FULL"),
        StateItem::HeaterOn => String::from_str("HEATER"),
    }
}

} // verus!
