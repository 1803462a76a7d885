//! The tabs and the baud rates.
use larris::app::{ActiveTab, App, BaudRate, ControlFocus, FocusedPane, GCodeFocus};

#[test]
fn active_tab_next_wraps_around() {
    let last = *ActiveTab::ALL.last().unwrap();
    assert_eq!(last.next(), ActiveTab::ALL[0]);
}

#[test]
fn active_tab_prev_wraps_around() {
    let first = ActiveTab::ALL[0];
    assert_eq!(first.prev(), *ActiveTab::ALL.last().unwrap());
}

#[test]
fn active_tab_next_advances_sequentially() {
    for window in ActiveTab::ALL.windows(2) {
        assert_eq!(window[0].next(), window[1]);
    }
}

#[test]
fn active_tab_prev_retreats_sequentially() {
    for window in ActiveTab::ALL.windows(2) {
        assert_eq!(window[1].prev(), window[0]);
    }
}

#[test]
fn active_tab_all_have_non_empty_labels() {
    for tab in ActiveTab::ALL {
        assert!(!tab.label().is_empty(), "{tab:?} has an empty label");
    }
}

#[test]
fn baud_rate_all_have_positive_u32_values() {
    for b in BaudRate::ALL {
        assert!(b.as_u32() > 0, "{b:?} has zero baud rate");
    }
}

#[test]
fn baud_rate_all_have_non_empty_labels() {
    for b in BaudRate::ALL {
        assert!(!b.label().is_empty(), "{b:?} has empty label");
    }
}

#[test]
fn tab_labels_are_the_ones_on_the_bar() {
    let labels: Vec<&str> = ActiveTab::ALL.iter().map(|t| t.label()).collect();
    assert_eq!(labels, ["Connect", "Control", "GCode", "Preview", "Settings"]);
}

#[test]
fn next_and_prev_undo_each_other_on_every_tab() {
    for tab in ActiveTab::ALL {
        assert_eq!(tab.next().prev(), tab);
        assert_eq!(tab.prev().next(), tab);
    }
}

#[test]
fn baud_rate_labels_are_their_decimal_rates() {
    for b in BaudRate::ALL {
        assert_eq!(b.label(), b.as_u32().to_string());
    }
    assert_eq!(BaudRate::ALL[0].as_u32(), 115_200);
    assert_eq!(BaudRate::ALL[1].as_u32(), 56_000);
}

#[test]
fn a_new_app_starts_on_the_port_list() {
    let app = App::new();
    assert_eq!(app.screen.active_tab, ActiveTab::Connect);
    assert_eq!(app.screen.focused, FocusedPane::SerialList);
    assert_eq!(app.screen.control_focus, ControlFocus::Jog);
    assert_eq!(app.screen.gcode_focus, GCodeFocus::GCode);
    assert!(!app.screen.should_quit);
    assert_eq!(app.ports.port_list_selected, Some(0));
    assert_eq!(app.selected_baud(), BaudRate::B115200);
    assert_eq!(app.selected_port(), None);
}
