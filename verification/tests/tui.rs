use renogymon::tui::{
    address_label, alarm_count, bar_text, cell_row_label, cells_label, chart_selection,
    chart_title, elapsed_label, max_chart_points, mosfet_label, no_data_label, rollup_title,
    selected_address, sensors_label, state_item_text, state_items, status_kind, status_tail,
    status_text, tab_index, view_window, StateItem, StatusKind, Tab,
};

#[test]
fn bar_fills_from_the_left() {
    let bar = bar_text(20, 40);
    assert_eq!(bar.chars().count(), 40);
    assert_eq!(bar.chars().filter(|&c| c == '█').count(), 20);
    assert_eq!(bar_text(3, 5), "███░░");
    assert_eq!(bar_text(0, 2), "░░");
    assert_eq!(bar_text(2, 2), "██");
}

#[test]
fn tab_positions() {
    assert_eq!(tab_index(Tab::Overview), 0);
    assert_eq!(tab_index(Tab::Graphs), 1);
}

#[test]
fn summary_titles() {
    assert_eq!(rollup_title(1), " Summary (1 battery) ");
    assert_eq!(rollup_title(0), " Summary (0 batteries) ");
    assert_eq!(rollup_title(12), " Summary (12 batteries) ");
}

#[test]
fn counts_alarmed_batteries() {
    assert_eq!(alarm_count(&vec![true, false, true, true]), 3);
    assert_eq!(alarm_count(&vec![]), 0);
}

#[test]
fn address_labels() {
    assert_eq!(address_label(0x30), "0x30 ---");
    assert_eq!(address_label(0x0A), "0x0A ---");
    assert_eq!(no_data_label(0xFF), "No data for 0xFF");
    assert_eq!(no_data_label(0), "No data for 0x00");
}

#[test]
fn selected_address_falls_back_to_zero() {
    assert_eq!(selected_address(&vec![0x30, 0x31], 1), 0x31);
    assert_eq!(selected_address(&vec![0x30, 0x31], 2), 0);
}

#[test]
fn elapsed_labels() {
    assert_eq!(elapsed_label(None), "-");
    assert_eq!(elapsed_label(Some(0)), "0s");
    assert_eq!(elapsed_label(Some(59)), "59s");
    assert_eq!(elapsed_label(Some(60)), "1m");
    assert_eq!(elapsed_label(Some(3599)), "59m");
    assert_eq!(elapsed_label(Some(7200)), "120m");
}

#[test]
fn status_words() {
    assert_eq!(status_kind(true, true), StatusKind::Refreshing);
    assert_eq!(status_kind(false, true), StatusKind::Error);
    assert_eq!(status_kind(false, false), StatusKind::Normal);
    assert_eq!(status_text(StatusKind::Refreshing), "Refreshing");
    assert_eq!(status_text(StatusKind::Error), "Error");
    assert_eq!(status_text(StatusKind::Normal), "OK");
}

#[test]
fn status_tails() {
    assert_eq!(status_tail(Tab::Overview, "5s", 10), " | 5s");
    assert_eq!(status_tail(Tab::Graphs, "2m", 345), " | 2m | 345 pts");
}

#[test]
fn view_windows() {
    assert_eq!(view_window(10_000, 600, 3600), (5_800, 9_400));
    assert_eq!(view_window(1_000, 600, 3600), (0, 400));
    assert_eq!(view_window(100, 600, 3600), (0, 0));
}

#[test]
fn chart_points_per_column() {
    assert_eq!(max_chart_points(80), 160);
    assert_eq!(max_chart_points(u16::MAX), 131_070);
}

#[test]
fn selects_points_in_window() {
    let ts = vec![5, 10, 15, 20, 25];
    let temp = vec![true, false, true, true, true];
    assert_eq!(chart_selection(&ts, &temp, 10, 20), (vec![1, 2, 3], vec![2, 3]));
    assert_eq!(chart_selection(&ts, &temp, 30, 40), (vec![], vec![]));
}

#[test]
fn chart_titles() {
    assert_eq!(chart_title("SOC (%)", ""), " SOC (%) ");
    assert_eq!(chart_title("Current (A)", "1h"), " Current (A) [1h] ");
}

#[test]
fn cell_labels() {
    assert_eq!(cells_label(16), "Cells[16]: ");
    assert_eq!(cell_row_label(0), "  1: ");
    assert_eq!(cell_row_label(2), "  9: ");
    assert_eq!(cell_row_label(3), " 13: ");
    assert_eq!(cell_row_label(30), " 121: ");
    assert_eq!(sensors_label(4), " (4 sensors)");
}

#[test]
fn mosfet_and_state_labels() {
    assert_eq!(mosfet_label("Chg", true), "Chg:ON");
    assert_eq!(mosfet_label("Dis", false), "Dis:off");
    assert_eq!(state_items(true, true), vec![StateItem::FullyCharged, StateItem::HeaterOn]);
    assert_eq!(state_items(false, true), vec![StateItem::HeaterOn]);
    assert_eq!(state_items(false, false), vec![]);
    assert_eq!(state_item_text(StateItem::FullyCharged), "FULL");
    assert_eq!(state_item_text(StateItem::HeaterOn), "HEATER");
}
