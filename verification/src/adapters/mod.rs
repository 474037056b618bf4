//! The adapters: what they make of what they hear from the system.

pub mod bluetooth;
pub mod bus;
pub mod filesystem;
pub mod git;
pub mod hyprland;
pub mod manager;
pub mod network;
pub mod network_rtnetlink;
pub mod podman;
pub mod power;
pub mod power_upower;
pub mod systemd;
pub mod udev;
