use vstd::prelude::*;

verus! {

/// Interaction tuning: menu size steps and the button press thresholds,
/// in milliseconds.
#[derive(Clone, Debug)]
pub struct UiConfig {
    pub size_step: u32,
    pub default_size: u32,
    pub min_button_press_ms: u64,
    pub button_long_press_ms: u64,
}

#[derive(Clone, Debug)]
pub struct UserConfig {
    pub name: String,
    pub password: String,
}

#[derive(Clone, Debug)]
pub struct WifiApConfig {
    pub ssid: String,
    pub password: String,
}

#[derive(Clone, Debug)]
pub struct WifiClientNetworkConfig {
    pub ssid: String,
    pub password: String,
}

#[derive(Clone, Debug)]
pub struct WifiConfig {
    pub client: Option<Vec<WifiClientNetworkConfig>>,
    pub ap: WifiApConfig,
}

#[derive(Clone, Debug)]
pub struct SystemConfig {
    pub auto_fstrim: Option<bool>,
}

/// A display-name override for one drive.
#[derive(Clone, Debug)]
pub struct DriveRenameConfig {
    pub name: String,
    pub newname: String,
}

#[derive(Clone, Debug)]
pub struct Config {
    pub user: UserConfig,
    pub wifi: WifiConfig,
    pub ui: UiConfig,
    pub system: Option<SystemConfig>,
    pub drive: Option<Vec<DriveRenameConfig>>,
}

} // verus!
