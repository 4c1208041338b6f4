use piso::action::Action;
use piso::config::{Config, UiConfig, UserConfig, WifiApConfig, WifiClientNetworkConfig, WifiConfig};
use piso::context::{Context, PersistentFlags};
use piso::displaymanager::{DisplayManager, Position, Widget, WidgetKind};
use piso::lvm::VolumeGroup;
use piso::panel::Panel;
use piso::usb::{GadgetConfig, UsbGadget};
use piso::wifi::{WifiClient, WifiManager, WifiState};

fn test_config() -> Config {
    Config {
        user: UserConfig { name: "user".to_string(), password: "secret".to_string() },
        wifi: WifiConfig {
            client: Some(vec![WifiClientNetworkConfig {
                ssid: "home".to_string(),
                password: "secret".to_string(),
            }]),
            ap: WifiApConfig { ssid: "net".to_string(), password: "secret".to_string() },
        },
        ui: UiConfig {
            size_step: 5,
            default_size: 50,
            min_button_press_ms: 50,
            button_long_press_ms: 1500,
        },
        system: None,
        drive: None,
    }
}

fn test_context() -> Context {
    Context {
        usb: UsbGadget::new(
            "/tmp",
            GadgetConfig {
                vendor_id: String::new(),
                product_id: String::new(),
                device_bcd: String::new(),
                usb_bcd: String::new(),
                serial_number: String::new(),
                manufacturer: String::new(),
                product: String::new(),
                max_power: String::new(),
                configuration: String::new(),
            },
        ),
        vg: VolumeGroup {
            name: "group0".to_string(),
            path: "/dev/group0".to_string(),
            size: 1 << 30,
            free: 1 << 29,
            volumes: Vec::new(),
        },
        wifi: WifiManager::new(test_config()),
        persist: PersistentFlags::new(),
        discovery: None,
        ops: Vec::new(),
    }
}

#[test]
// An action consumed in one sweep can emit a follow-up that only a widget
// created during that sweep matches: the pending list empties only after
// a second full sweep.
fn dispatch_needs_two_sweeps() {
    let mut manager = DisplayManager::new();
    let mut ctx = test_context();

    let net = WifiClientNetworkConfig { ssid: "home".to_string(), password: "secret".to_string() };
    let client = WifiClient::new(&mut manager, net, 1).expect("Failed to create test widget");
    let mut root = Panel::new(&mut manager, Position::Fixed(0, 0), (0, 0), vec![client])
        .expect("Failed to create test widget");

    let mut actions = vec![Action::OpenWifiClientConnectionMenu];
    let mut sweeps = 0;
    while !actions.is_empty() {
        manager
            .do_actions(&mut root, &mut ctx, &mut actions)
            .expect("Failed to do_actions");
        sweeps += 1;
        assert!(sweeps < 10, "dispatch did not reach a fixpoint");
    }
    assert!(sweeps >= 2, "the follow-up action was consumed too early");
    // the connection page is attached and the network was joined
    assert_eq!(root.children[0].children.len(), 1);
    assert_eq!(ctx.wifi.state, WifiState::Client(1));
}

#[test]
// Toggling an image export through the dispatch updates the gadget model.
fn iso_toggle_through_dispatch() {
    let mut manager = DisplayManager::new();
    let mut ctx = test_context();
    let iso = piso::iso::Iso::new(&mut manager, "/mnt/loop0p1/ISOS/rescue.iso".to_string())
        .expect("Failed to create test widget");
    let iso_id = iso.windowid();
    let mut root =
        Panel::new(&mut manager, Position::Fixed(0, 0), (0, 0), vec![iso]).expect("panel");

    let mut actions = vec![Action::ToggleIsoMount(iso_id)];
    manager
        .do_actions(&mut root, &mut ctx, &mut actions)
        .expect("Failed to do_actions");
    assert!(actions.is_empty());
    assert_eq!(ctx.usb.exports.len(), 1);
    assert_eq!(ctx.usb.exports[0].path, "/mnt/loop0p1/ISOS/rescue.iso");
    assert!(ctx.usb.exports[0].cdrom);

    let mut actions = vec![Action::ToggleIsoMount(iso_id)];
    manager
        .do_actions(&mut root, &mut ctx, &mut actions)
        .expect("Failed to do_actions");
    assert_eq!(ctx.usb.exports.len(), 0);
}

#[test]
// An action nobody claims stays pending after the sweep.
fn unclaimed_action_stays_pending() {
    let mut manager = DisplayManager::new();
    let mut ctx = test_context();
    let mut root =
        Panel::new(&mut manager, Position::Fixed(0, 0), (0, 0), vec![]).expect("panel");
    let mut actions = vec![Action::OpenSizeMenu];
    manager
        .do_actions(&mut root, &mut ctx, &mut actions)
        .expect("Failed to do_actions");
    assert_eq!(actions.len(), 1);
}

#[test]
// Opening the wireless menu builds the selection page under the row.
fn wifi_menu_opens_page() {
    let mut manager = DisplayManager::new();
    let mut ctx = test_context();
    let cfg = test_config();
    let menu = piso::wifi::WifiMenu::new(&mut manager, &cfg).expect("Failed to create menu");
    let mut root =
        Panel::new(&mut manager, Position::Fixed(0, 0), (0, 0), vec![menu]).expect("panel");
    let mut actions = vec![Action::OpenWifiMenu];
    manager
        .do_actions(&mut root, &mut ctx, &mut actions)
        .expect("Failed to do_actions");
    assert_eq!(root.children[0].children.len(), 1);
    // one configured network, the access point row, and the way back
    assert_eq!(root.children[0].children[0].children.len(), 3);

    let mut actions = vec![Action::CloseWifiMenu];
    manager
        .do_actions(&mut root, &mut ctx, &mut actions)
        .expect("Failed to do_actions");
    assert_eq!(root.children[0].children.len(), 0);
}

#[test]
// The full root widget handles drive creation end to end: the format
// menu's final step creates the volume, queues host work and hands the
// new drive to the root.
fn piso_create_drive_flow() {
    let mut manager = DisplayManager::new();
    let mut ctx = test_context();
    let cfg = test_config();
    let mut root = piso::piso::PIso::new(&mut manager, &ctx, &cfg, piso::version::PiVersion::Zero13)
        .expect("Failed to create root widget");
    match &root.kind {
        WidgetKind::Piso(_) => {}
        _ => panic!("unexpected root kind"),
    }
    let drives_before = root
        .children
        .iter()
        .filter(|c| matches!(c.kind, WidgetKind::Drive(_)))
        .count();
    assert_eq!(drives_before, 0);

    let volume = ctx.vg.create_volume("Drive0", 512).expect("create volume");
    let mut actions = vec![Action::CreateDrive(volume)];
    manager
        .do_actions(&mut root, &mut ctx, &mut actions)
        .expect("Failed to do_actions");
    let drives_after = root
        .children
        .iter()
        .filter(|c| matches!(c.kind, WidgetKind::Drive(_)))
        .count();
    assert_eq!(drives_after, 1);
}

#[test]
// Deleting a drive removes its row, its record and queues the host work.
fn piso_delete_drive_flow() {
    let mut manager = DisplayManager::new();
    let mut ctx = test_context();
    ctx.vg.create_volume("Drive1", 512).expect("create volume");
    let cfg = test_config();
    let mut root = piso::piso::PIso::new(&mut manager, &ctx, &cfg, piso::version::PiVersion::Zero13)
        .expect("Failed to create root widget");
    let drives_before = root
        .children
        .iter()
        .filter(|c| matches!(c.kind, WidgetKind::Drive(_)))
        .count();
    assert_eq!(drives_before, 1);

    let mut actions = vec![Action::DeleteDrive("Drive1".to_string())];
    manager
        .do_actions(&mut root, &mut ctx, &mut actions)
        .expect("Failed to do_actions");
    let drives_after = root
        .children
        .iter()
        .filter(|c| matches!(c.kind, WidgetKind::Drive(_)))
        .count();
    assert_eq!(drives_after, 0);
    assert_eq!(ctx.vg.volumes.len(), 0);
    assert!(!ctx.ops.is_empty());
}
