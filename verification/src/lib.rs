//! Control plane for locally hosted virtual machines: launch planning,
//! process supervision, the machine protocol and remote-display sessions.

use vstd::prelude::*;

pub mod commands;
pub mod config;
pub mod display;
pub mod error;
pub mod json;
pub mod platform;
pub mod provision;
pub mod qemu;
pub mod storage;
pub mod text;

pub use error::Error;

use text::clone_text;

verus! {

/// The reachable endpoint of a machine's graphical console, as a caller sees it.
#[derive(Debug)]
pub struct DisplaySession {
    pub vm_id: String,
    pub protocol: String,
    pub host: String,
    pub port: u16,
    pub uri: String,
    pub status: String,
    pub reconnect_attempts: u32,
    pub last_error: Option<String>,
    pub connected_at: Option<String>,
}

/// A [`DisplaySession`] as plain values.
pub struct DisplaySessionView {
    pub vm_id: Seq<char>,
    pub protocol: Seq<char>,
    pub host: Seq<char>,
    pub port: u16,
    pub uri: Seq<char>,
    pub status: Seq<char>,
    pub reconnect_attempts: u32,
    pub last_error: Option<Seq<char>>,
    pub connected_at: Option<Seq<char>>,
}

impl View for DisplaySession {
    type V = DisplaySessionView;

    open spec fn view(&self) -> DisplaySessionView {
        DisplaySessionView {
            vm_id: self.vm_id@,
            protocol: self.protocol@,
            host: self.host@,
            port: self.port,
            uri: self.uri@,
            status: self.status@,
            reconnect_attempts: self.reconnect_attempts,
            last_error: self.last_error.deep_view(),
            connected_at: self.connected_at.deep_view(),
        }
    }
}

impl Clone for DisplaySession {
    fn clone(&self) -> (r: Self)
        ensures
            r@ == self@,
    {
        DisplaySession {
            vm_id: self.vm_id.clone(),
            protocol: self.protocol.clone(),
            host: self.host.clone(),
            port: self.port,
            uri: self.uri.clone(),
            status: self.status.clone(),
            reconnect_attempts: self.reconnect_attempts,
            last_error: clone_text(&self.last_error),
            connected_at: clone_text(&self.connected_at),
        }
    }
}

/// What probing the host for a hypervisor found.
#[derive(Debug)]
pub struct QemuInfo {
    pub detected: bool,
    pub path: Option<String>,
    pub version: Option<String>,
    pub accelerator: Option<String>,
}

/// A [`QemuInfo`] as plain values.
pub struct QemuInfoView {
    pub detected: bool,
    pub path: Option<Seq<char>>,
    pub version: Option<Seq<char>>,
    pub accelerator: Option<Seq<char>>,
}

impl View for QemuInfo {
    type V = QemuInfoView;

    open spec fn view(&self) -> QemuInfoView {
        QemuInfoView {
            detected: self.detected,
            path: self.path.deep_view(),
            version: self.version.deep_view(),
            accelerator: self.accelerator.deep_view(),
        }
    }
}

impl Clone for QemuInfo {
    fn clone(&self) -> (r: Self)
        ensures
            r@ == self@,
    {
        QemuInfo {
            detected: self.detected,
            path: clone_text(&self.path),
            version: clone_text(&self.version),
            accelerator: clone_text(&self.accelerator),
        }
    }
}

/// The declarative description of a machine.
#[derive(Debug)]
pub struct VMConfig {
    pub name: String,
    pub memory_mb: u32,
    pub cpu_cores: u32,
    pub disk_size_gb: u32,
    pub os: String,
    pub install_media_path: Option<String>,
    pub boot_order: String,
    pub network_type: String,
}

/// A [`VMConfig`] as plain values.
pub struct VMConfigView {
    pub name: Seq<char>,
    pub memory_mb: u32,
    pub cpu_cores: u32,
    pub disk_size_gb: u32,
    pub os: Seq<char>,
    pub install_media_path: Option<Seq<char>>,
    pub boot_order: Seq<char>,
    pub network_type: Seq<char>,
}

impl View for VMConfig {
    type V = VMConfigView;

    open spec fn view(&self) -> VMConfigView {
        VMConfigView {
            name: self.name@,
            memory_mb: self.memory_mb,
            cpu_cores: self.cpu_cores,
            disk_size_gb: self.disk_size_gb,
            os: self.os@,
            install_media_path: self.install_media_path.deep_view(),
            boot_order: self.boot_order@,
            network_type: self.network_type@,
        }
    }
}

impl Clone for VMConfig {
    fn clone(&self) -> (r: Self)
        ensures
            r@ == self@,
    {
        VMConfig {
            name: self.name.clone(),
            memory_mb: self.memory_mb,
            cpu_cores: self.cpu_cores,
            disk_size_gb: self.disk_size_gb,
            os: self.os.clone(),
            install_media_path: clone_text(&self.install_media_path),
            boot_order: self.boot_order.clone(),
            network_type: self.network_type.clone(),
        }
    }
}

/// The boot order of a configuration that names none.
pub fn default_boot_order() -> (s: String)
    ensures
        s@ == "disk-first"@,
{
    String::from_str("disk-first")
}

/// The network mode of a configuration that names none.
pub fn default_network_type() -> (s: String)
    ensures
        s@ == "nat"@,
{
    String::from_str("nat")
}

/// The lifecycle states that callers and the registry see.
#[derive(Debug, Clone, Copy, PartialEq, Eq, Structural)]
pub enum VMStatus {
    Running,
    Stopped,
    Paused,
    Error,
}

/// A machine as callers see it.
#[derive(Debug)]
pub struct VM {
    pub id: String,
    pub name: String,
    pub status: VMStatus,
    pub config: VMConfig,
}

/// A [`VM`] as plain values.
pub struct VMView {
    pub id: Seq<char>,
    pub name: Seq<char>,
    pub status: VMStatus,
    pub config: VMConfigView,
}

impl View for VM {
    type V = VMView;

    open spec fn view(&self) -> VMView {
        VMView { id: self.id@, name: self.name@, status: self.status, config: self.config@ }
    }
}

impl Clone for VM {
    fn clone(&self) -> (r: Self)
        ensures
            r@ == self@,
    {
        VM {
            id: self.id.clone(),
            name: self.name.clone(),
            status: self.status,
            config: self.config.clone(),
        }
    }
}

} // verus!
