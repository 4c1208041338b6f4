use piso::config::{Config, UiConfig, UserConfig, WifiApConfig, WifiConfig};
use piso::context::{Context, PersistentFlags};
use piso::displaymanager::{DisplayManager, Position, Widget};
use piso::lvm::VolumeGroup;
use piso::panel::Panel;
use piso::usb::{GadgetConfig, UsbGadget};
use piso::wifi::WifiManager;

fn test_config() -> Config {
    Config {
        user: UserConfig { name: "user".to_string(), password: "secret".to_string() },
        wifi: WifiConfig {
            client: None,
            ap: WifiApConfig { ssid: "net".to_string(), password: "secret".to_string() },
        },
        ui: UiConfig {
            size_step: 5,
            default_size: 50,
            min_button_press_ms: 50,
            button_long_press_ms: 1500,
        },
        system: None,
        drive: None,
    }
}

fn test_gadget() -> UsbGadget {
    UsbGadget::new(
        "/tmp",
        GadgetConfig {
            vendor_id: String::new(),
            product_id: String::new(),
            device_bcd: String::new(),
            usb_bcd: String::new(),
            serial_number: String::new(),
            manufacturer: String::new(),
            product: String::new(),
            max_power: String::new(),
            configuration: String::new(),
        },
    )
}

fn test_vg() -> VolumeGroup {
    VolumeGroup {
        name: "group0".to_string(),
        path: "/dev/group0".to_string(),
        size: 0,
        free: 0,
        volumes: Vec::new(),
    }
}

fn test_context() -> Context {
    Context {
        usb: test_gadget(),
        vg: test_vg(),
        wifi: WifiManager::new(test_config()),
        persist: PersistentFlags::new(),
        discovery: None,
        ops: Vec::new(),
    }
}

fn panel(
    manager: &mut DisplayManager,
    position: Position,
    size: (usize, usize),
    children: Vec<Widget>,
) -> Widget {
    Panel::new(manager, position, size, children).expect("Failed to create test widget")
}

#[test]
// Test that a bunch of normally positioned windows just line up vertically
fn test_calc_basic_position() {
    let mut manager = DisplayManager::new();
    let ctx = test_context();

    let child1 = panel(&mut manager, Position::Normal, (0, 10), vec![]);
    let child2 = panel(&mut manager, Position::Normal, (0, 10), vec![]);
    let root = panel(
        &mut manager,
        Position::Fixed(0, 0),
        (0, 0),
        vec![child1, child2],
    );

    manager.do_render(&root, &ctx).expect("Failed to do_render");
    assert_eq!(manager.calculate_position(&root, &root), (0, 0));
    assert_eq!(manager.calculate_position(&root, &root.children[0]), (0, 0));
    assert_eq!(manager.calculate_position(&root, &root.children[1]), (0, 10));
}

#[test]
// Test that fixed position windows are ignored in the flow of normal positioned windows
fn test_calc_normal_with_fixed_position() {
    let mut manager = DisplayManager::new();
    let ctx = test_context();

    let child1 = panel(&mut manager, Position::Normal, (0, 10), vec![]);
    let child2 = panel(&mut manager, Position::Fixed(20, 20), (50, 50), vec![]);
    let child3 = panel(&mut manager, Position::Normal, (0, 10), vec![]);
    let root = panel(
        &mut manager,
        Position::Fixed(0, 0),
        (0, 0),
        vec![child1, child2, child3],
    );

    manager.do_render(&root, &ctx).expect("Failed to do_render");
    assert_eq!(manager.calculate_position(&root, &root), (0, 0));
    assert_eq!(manager.calculate_position(&root, &root.children[0]), (0, 0));
    assert_eq!(
        manager.calculate_position(&root, &root.children[1]),
        (20, 20)
    );
    assert_eq!(manager.calculate_position(&root, &root.children[2]), (0, 10));
}

#[test]
// Test that windows are aligned vertically with their nearest fixed position parent
fn test_calc_normal_within_fixed() {
    let mut manager = DisplayManager::new();
    let ctx = test_context();

    let child1 = panel(&mut manager, Position::Normal, (0, 10), vec![]);

    let child2_1 = panel(&mut manager, Position::Normal, (50, 50), vec![]);
    let child2 = panel(
        &mut manager,
        Position::Fixed(20, 20),
        (100, 100),
        vec![child2_1],
    );

    let child3 = panel(&mut manager, Position::Normal, (0, 10), vec![]);
    let root = panel(
        &mut manager,
        Position::Fixed(0, 0),
        (0, 0),
        vec![child1, child2, child3],
    );

    manager.do_render(&root, &ctx).expect("Failed to do_render");
    assert_eq!(manager.calculate_position(&root, &root), (0, 0));
    assert_eq!(manager.calculate_position(&root, &root.children[0]), (0, 0));
    assert_eq!(
        manager.calculate_position(&root, &root.children[1]),
        (20, 20)
    );
    assert_eq!(
        manager.calculate_position(&root, &root.children[1].children[0]),
        (20, 20)
    );
    assert_eq!(manager.calculate_position(&root, &root.children[2]), (0, 10));
}

#[test]
// Three flowing widgets of height ten under one anchor stack at rows 0, 10, 20.
fn flow_layout_stacks_heights() {
    let mut manager = DisplayManager::new();
    let ctx = test_context();

    let a = panel(&mut manager, Position::Normal, (8, 10), vec![]);
    let b = panel(&mut manager, Position::Normal, (8, 10), vec![]);
    let c = panel(&mut manager, Position::Normal, (8, 10), vec![]);
    let root = panel(&mut manager, Position::Fixed(0, 0), (0, 0), vec![a, b, c]);

    manager.do_render(&root, &ctx).expect("Failed to do_render");
    assert_eq!(manager.calculate_position(&root, &root.children[0]), (0, 0));
    assert_eq!(manager.calculate_position(&root, &root.children[1]), (0, 10));
    assert_eq!(manager.calculate_position(&root, &root.children[2]), (0, 20));
}

#[test]
// A pinned overlay between two flowing widgets contributes nothing to the flow.
fn overlay_skips_flow() {
    let mut manager = DisplayManager::new();
    let ctx = test_context();

    let a = panel(&mut manager, Position::Normal, (8, 10), vec![]);
    let b = panel(&mut manager, Position::Fixed(20, 20), (50, 50), vec![]);
    let c = panel(&mut manager, Position::Normal, (8, 10), vec![]);
    let root = panel(&mut manager, Position::Fixed(0, 0), (0, 0), vec![a, b, c]);

    manager.do_render(&root, &ctx).expect("Failed to do_render");
    assert_eq!(manager.calculate_position(&root, &root.children[2]), (0, 10));
}

#[test]
// The composited frame always has the display's dimensions.
fn render_produces_display_sized_frame() {
    let mut manager = DisplayManager::new();
    let ctx = test_context();
    let a = panel(&mut manager, Position::Normal, (8, 10), vec![]);
    let root = panel(&mut manager, Position::Fixed(0, 0), (0, 0), vec![a]);
    manager.shift_focus(&root.children[0]);
    let frame = manager.render(&root, &ctx).expect("Failed to render");
    assert_eq!(frame.width(), piso::display::DISPLAY_WIDTH);
    assert_eq!(frame.height(), piso::display::DISPLAY_HEIGHT);
}
