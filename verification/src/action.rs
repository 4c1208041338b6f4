use crate::lvm::LogicalVolume;
use vstd::prelude::*;

verus! {

/// Data-only intents, produced by event handlers and offered tree-wide to
/// every widget's action handler.
#[allow(unused)]
#[derive(Debug, Clone)]
pub enum Action {
    CreateDrive(LogicalVolume),
    SnapshotDrive(String),
    DeleteDrive(String),
    ToggleVDriveMount(u32),
    ToggleIsoMount(u32),
    OpenSizeMenu,
    CloseSizeMenu,
    IncDriveSize,
    DecDriveSize,
    OpenFormatMenu,
    CloseFormatMenu,
    FormatDrive,
    OpenWifiMenu,
    CloseWifiMenu,
    OpenWifiClientConnectionMenu,
    CloseWifiClientConnectionMenu,
    WifiClientConnect,
    OpenWifiApStartupMenu,
    CloseWifiApStartupMenu,
    WifiApStartup,
    OpenVDriveList(u32),
    CloseVDriveList(u32),
    ToggleDriveReadOnly(String),
    ToggleDriveNonRemovable(String),
    FlipDisplay,
    OpenVersion,
    CloseVersion,
}

/// A copy of an action, equal to the original.
pub fn clone_action(a: &Action) -> (r: Action)
    ensures
        r == *a,
{
    match a {
        Action::CreateDrive(v) => Action::CreateDrive(
            LogicalVolume { name: v.name.clone(), path: v.path.clone(), size: v.size },
        ),
        Action::SnapshotDrive(s) => Action::SnapshotDrive(s.clone()),
        Action::DeleteDrive(s) => Action::DeleteDrive(s.clone()),
        Action::ToggleVDriveMount(id) => Action::ToggleVDriveMount(*id),
        Action::ToggleIsoMount(id) => Action::ToggleIsoMount(*id),
        Action::OpenSizeMenu => Action::OpenSizeMenu,
        Action::CloseSizeMenu => Action::CloseSizeMenu,
        Action::IncDriveSize => Action::IncDriveSize,
        Action::DecDriveSize => Action::DecDriveSize,
        Action::OpenFormatMenu => Action::OpenFormatMenu,
        Action::CloseFormatMenu => Action::CloseFormatMenu,
        Action::FormatDrive => Action::FormatDrive,
        Action::OpenWifiMenu => Action::OpenWifiMenu,
        Action::CloseWifiMenu => Action::CloseWifiMenu,
        Action::OpenWifiClientConnectionMenu => Action::OpenWifiClientConnectionMenu,
        Action::CloseWifiClientConnectionMenu => Action::CloseWifiClientConnectionMenu,
        Action::WifiClientConnect => Action::WifiClientConnect,
        Action::OpenWifiApStartupMenu => Action::OpenWifiApStartupMenu,
        Action::CloseWifiApStartupMenu => Action::CloseWifiApStartupMenu,
        Action::WifiApStartup => Action::WifiApStartup,
        Action::OpenVDriveList(id) => Action::OpenVDriveList(*id),
        Action::CloseVDriveList(id) => Action::CloseVDriveList(*id),
        Action::ToggleDriveReadOnly(s) => Action::ToggleDriveReadOnly(s.clone()),
        Action::ToggleDriveNonRemovable(s) => Action::ToggleDriveNonRemovable(s.clone()),
        Action::FlipDisplay => Action::FlipDisplay,
        Action::OpenVersion => Action::OpenVersion,
        Action::CloseVersion => Action::CloseVersion,
    }
}

} // verus!
