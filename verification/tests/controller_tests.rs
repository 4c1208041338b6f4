use piso::config::{Config, UiConfig, UserConfig, WifiApConfig, WifiConfig};
use piso::controller::{Button, Controller, Event};

fn config(min_ms: u64, long_ms: u64) -> Config {
    Config {
        user: UserConfig { name: "user".to_string(), password: "secret".to_string() },
        wifi: WifiConfig {
            client: None,
            ap: WifiApConfig { ssid: "net".to_string(), password: "secret".to_string() },
        },
        ui: UiConfig {
            size_step: 5,
            default_size: 50,
            min_button_press_ms: min_ms,
            button_long_press_ms: long_ms,
        },
        system: None,
        drive: None,
    }
}

#[test]
// A press held two seconds against a 50 ms / 1500 ms configuration emits
// exactly one long-press event for the whole cycle, and never the short
// one.
fn long_press_cycle_emits_one_event() {
    let mut c = Controller::new(&config(50, 1500));
    assert_eq!(c.handle_edge(Button::Select, true, 10_000), None);
    let released = c.handle_edge(Button::Select, false, 12_000);
    assert_eq!(released, Some(Event::SelectLong));
    // the cycle is over: another release emits nothing
    assert_eq!(c.handle_edge(Button::Select, false, 12_001), None);
}

#[test]
fn short_press_emits_short_event() {
    let mut c = Controller::new(&config(50, 1500));
    assert_eq!(c.handle_edge(Button::Up, true, 100), None);
    assert_eq!(c.handle_edge(Button::Up, false, 300), Some(Event::Up));
}

#[test]
fn too_short_press_is_spurious() {
    let mut c = Controller::new(&config(50, 1500));
    assert_eq!(c.handle_edge(Button::Down, true, 100), None);
    assert_eq!(c.handle_edge(Button::Down, false, 140), None);
}

#[test]
fn threshold_boundaries() {
    // exactly at the minimum: a short press; exactly at the long
    // threshold: a long press
    let mut c = Controller::new(&config(50, 1500));
    assert_eq!(c.handle_edge(Button::Up, true, 0), None);
    assert_eq!(c.handle_edge(Button::Up, false, 50), Some(Event::Up));
    assert_eq!(c.handle_edge(Button::Up, true, 1000), None);
    assert_eq!(c.handle_edge(Button::Up, false, 2500), Some(Event::UpLong));
    assert_eq!(c.handle_edge(Button::Up, true, 10_000), None);
    assert_eq!(c.handle_edge(Button::Up, false, 11_499), Some(Event::Up));
}

#[test]
fn release_without_press_is_dropped() {
    let mut c = Controller::new(&config(50, 1500));
    assert_eq!(c.handle_edge(Button::Select, false, 500), None);
}

#[test]
fn buttons_are_independent() {
    let mut c = Controller::new(&config(50, 1500));
    assert_eq!(c.handle_edge(Button::Up, true, 0), None);
    assert_eq!(c.handle_edge(Button::Down, true, 10), None);
    assert_eq!(c.handle_edge(Button::Down, false, 200), Some(Event::Down));
    assert_eq!(c.handle_edge(Button::Up, false, 400), Some(Event::Up));
}

#[test]
fn flip_swaps_up_and_down_but_not_select() {
    let mut c = Controller::new(&config(50, 1500));
    c.flip_controls();
    assert_eq!(c.handle_edge(Button::Up, true, 0), None);
    assert_eq!(c.handle_edge(Button::Up, false, 100), Some(Event::Down));
    assert_eq!(c.handle_edge(Button::Down, true, 1000), None);
    assert_eq!(c.handle_edge(Button::Down, false, 3000), Some(Event::UpLong));
    assert_eq!(c.handle_edge(Button::Select, true, 5000), None);
    assert_eq!(c.handle_edge(Button::Select, false, 5100), Some(Event::Select));
}
