use piso::config::{Config, DriveRenameConfig, UiConfig, UserConfig, WifiApConfig, WifiConfig};
use piso::lvm::VolumeGroup;
use piso::usb::{GadgetConfig, UsbGadget};
use piso::utils;
use piso::version::{read_version, PiVersion};
use piso::wifi::{WifiManager, WifiState};

fn gadget() -> UsbGadget {
    UsbGadget::new(
        "/sys/kernel/config/usb_gadget/g1",
        GadgetConfig {
            vendor_id: "0x1209".to_string(),
            product_id: "0x0256".to_string(),
            device_bcd: "0x0100".to_string(),
            usb_bcd: "0x0200".to_string(),
            serial_number: "0000".to_string(),
            manufacturer: "maker".to_string(),
            product: "device".to_string(),
            max_power: "250".to_string(),
            configuration: "Config 1".to_string(),
        },
    )
}

fn config() -> Config {
    Config {
        user: UserConfig { name: "user".to_string(), password: "secret".to_string() },
        wifi: WifiConfig {
            client: None,
            ap: WifiApConfig { ssid: "net".to_string(), password: "secret".to_string() },
        },
        ui: UiConfig {
            size_step: 5,
            default_size: 50,
            min_button_press_ms: 50,
            button_long_press_ms: 1500,
        },
        system: None,
        drive: Some(vec![DriveRenameConfig {
            name: "Drive1".to_string(),
            newname: "Music".to_string(),
        }]),
    }
}

#[test]
fn storage_ids_never_repeat() {
    let mut g = gadget();
    let a = g.export_file("/dev/group0/Drive1", false).unwrap();
    let b = g.export_file("/dev/group0/Drive2", false).unwrap();
    assert_ne!(a.0, b.0);
    assert_eq!(g.exports.len(), 2);
    g.unexport_file(&a).unwrap();
    assert_eq!(g.exports.len(), 1);
    assert_eq!(g.exports[0].id, b.0);
    let c = g.export_file("/dev/group0/Drive3", false).unwrap();
    assert_ne!(c.0, a.0);
    assert_ne!(c.0, b.0);
}

#[test]
fn volume_group_from_path_takes_file_name() {
    let vg = VolumeGroup::from_path("/dev/group0").unwrap();
    assert_eq!(vg.name, "group0");
    assert_eq!(vg.path, "/dev/group0");
    assert!(VolumeGroup::from_path("/dev/group0/").is_err());
}

#[test]
fn create_snapshot_delete_volume() {
    let mut vg = VolumeGroup::from_path("/dev/group0").unwrap();
    let v = vg.create_volume("Drive1", 4096).unwrap();
    assert_eq!(v.name, "Drive1");
    assert_eq!(v.path, "/dev/group0/Drive1");
    assert_eq!(v.size, 4096);
    assert_eq!(vg.volumes.len(), 1);

    let s = vg.snapshot_volume("Drive1").unwrap();
    assert_eq!(s.name, "Drive1-backup");
    assert_eq!(s.size, 4096);
    assert_eq!(vg.volumes.len(), 2);
    assert!(vg.snapshot_volume("Missing").is_err());

    vg.delete_volume("Drive1").unwrap();
    assert_eq!(vg.volumes.len(), 1);
    assert_eq!(vg.volumes[0].name, "Drive1-backup");
}

#[test]
fn next_drive_name_skips_taken_numbers() {
    let mut vg = VolumeGroup::from_path("/dev/group0").unwrap();
    assert_eq!(utils::next_available_drive_name(&vg).unwrap(), "Drive1");
    vg.create_volume("Drive1", 1).unwrap();
    vg.create_volume("Drive2", 1).unwrap();
    assert_eq!(utils::next_available_drive_name(&vg).unwrap(), "Drive3");
}

#[test]
fn drive_names_translate_through_config() {
    let cfg = config();
    assert_eq!(utils::translate_drive_name("Drive1", &cfg), "Music");
    assert_eq!(utils::translate_drive_name("Drive1-backup", &cfg), "Music-backup");
    assert_eq!(utils::translate_drive_name("Drive2", &cfg), "Drive2");
}

#[test]
fn decimal_rendering_is_exact() {
    assert_eq!(utils::u64_to_dec(0), "0");
    assert_eq!(utils::u64_to_dec(7), "7");
    assert_eq!(utils::u64_to_dec(105), "105");
    assert_eq!(utils::u64_to_dec(18446744073709551615), "18446744073709551615");
}

#[test]
fn file_name_takes_last_component() {
    assert_eq!(utils::file_name("/a/b/c.iso"), "c.iso");
    assert_eq!(utils::file_name("plain"), "plain");
    assert_eq!(utils::file_name("/ends/with/"), "");
}

#[test]
fn board_revisions_decide_wireless() {
    assert_eq!(read_version("900092"), PiVersion::Zero12);
    assert_eq!(read_version("900093"), PiVersion::Zero13);
    assert_eq!(read_version("920093"), PiVersion::Zero131);
    assert_eq!(read_version("9000c1"), PiVersion::ZeroW11);
    assert_eq!(read_version("bogus"), PiVersion::Unknown);
    assert!(read_version("9000c1").has_wifi());
    assert!(read_version("bogus").has_wifi());
    assert!(!read_version("900092").has_wifi());
}

#[test]
fn wifi_modes_cycle() {
    let mut w = WifiManager::new(config());
    assert_eq!(w.state, WifiState::Uninitialized);
    w.enable_wifi().unwrap();
    assert_eq!(w.state, WifiState::Inactive);
    w.toggle_host().unwrap();
    assert_eq!(w.state, WifiState::Ap);
    assert!(w.deactivate_client().is_err());
    w.toggle_host().unwrap();
    assert_eq!(w.state, WifiState::Inactive);
    w.toggle_client(2).unwrap();
    assert_eq!(w.state, WifiState::Client(2));
    assert!(w.deactivate_host().is_err());
    w.toggle_client(2).unwrap();
    assert_eq!(w.state, WifiState::Inactive);
}

#[test]
fn exhausted_window_ids_are_refused() {
    let mut dm = piso::displaymanager::DisplayManager::new();
    dm.nextid = u32::MAX;
    assert!(dm.add_child(piso::displaymanager::Position::Normal).is_err());
}

#[test]
fn drive_size_formula_is_exact() {
    let menu = piso::newdrive::DriveSize {
        window: 1,
        current_percent: 50,
        vg_size: 1 << 30,
        size_step: 5,
        menu: None,
    };
    // half of a binary gigabyte, already a whole number of blocks
    assert_eq!(menu.current_size(), 536870912);
    let menu = piso::newdrive::DriveSize {
        window: 1,
        current_percent: 33,
        vg_size: 1000,
        size_step: 5,
        menu: None,
    };
    // a third of a kilobyte rounds up to one block
    assert_eq!(menu.current_size(), 512);
}

#[test]
fn mount_state_errors() {
    let mut g = gadget();
    let mut image = match piso::iso::Iso::new(&mut piso::displaymanager::DisplayManager::new(), "/a/b.iso".to_string())
        .unwrap()
        .kind
    {
        piso::displaymanager::WidgetKind::IsoImage(s) => s,
        _ => panic!("unexpected kind"),
    };
    image.mount(&mut g).unwrap();
    assert!(image.mount(&mut g).is_err());
    image.unmount(&mut g).unwrap();
    image.unmount(&mut g).unwrap();

    let mut drive = piso::vdrive::VirtualDrive {
        state: piso::vdrive::MountState::Internal(piso::vdrive::MountInfo {
            loopback_path: "/dev/loop0".to_string(),
            part_mount_paths: vec![],
        }),
        volume: piso::lvm::LogicalVolume {
            name: "Drive1".to_string(),
            path: "/dev/group0/Drive1".to_string(),
            size: 512,
        },
        window: 9,
    };
    assert!(drive.mount_external(&mut g).is_err());
    assert!(drive.unmount_external(&mut g).is_err());
}

#[test]
fn report_rows_fill_the_model() {
    let mut vg = VolumeGroup::from_path("/dev/group0").unwrap();
    vg.set_capacity(&vec![
        piso::lvm::GroupRow {
            vg_name: "other".to_string(),
            vg_size: "1B".to_string(),
            vg_free: "1B".to_string(),
        },
        piso::lvm::GroupRow {
            vg_name: "group0".to_string(),
            vg_size: "1000B".to_string(),
            vg_free: "400B".to_string(),
        },
    ]);
    assert_eq!(vg.size, 1000);
    assert_eq!(vg.free, 400);

    vg.load_volumes(&vec![
        piso::lvm::VolumeRow {
            lv_name: "thinpool".to_string(),
            vg_name: "group0".to_string(),
            lv_attr: "twi-a".to_string(),
            lv_size: "900B".to_string(),
        },
        piso::lvm::VolumeRow {
            lv_name: "Drive1".to_string(),
            vg_name: "group0".to_string(),
            lv_attr: "Vwi-a".to_string(),
            lv_size: "512B".to_string(),
        },
        piso::lvm::VolumeRow {
            lv_name: "Elsewhere".to_string(),
            vg_name: "other".to_string(),
            lv_attr: "Vwi-a".to_string(),
            lv_size: "512B".to_string(),
        },
    ]);
    assert_eq!(vg.volumes.len(), 1);
    assert_eq!(vg.volumes[0].name, "Drive1");
    assert_eq!(vg.volumes[0].path, "/dev/group0/Drive1");
    assert_eq!(vg.volumes[0].size, 512);
}

#[test]
fn byte_columns_parse_exactly() {
    assert_eq!(piso::lvm::parse_bytes("1073741824B"), 1073741824);
    assert_eq!(piso::lvm::parse_bytes("0"), 0);
    assert_eq!(piso::lvm::parse_bytes("12"), 12);
    assert_eq!(piso::lvm::parse_bytes(""), 0);
    assert_eq!(piso::lvm::parse_bytes("B"), 0);
    assert_eq!(piso::lvm::parse_bytes("12x4B"), 0);
    // too large for the machine
    assert_eq!(piso::lvm::parse_bytes("99999999999999999999999B"), 0);
}
