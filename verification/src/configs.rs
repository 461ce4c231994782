use vstd::prelude::*;

verus! {

/// The default for the toggles that start switched on.
pub fn get_true() -> (r: bool)
    ensures
        r == true,
{
    true
}

/// The default for the toggles that start switched off.
pub fn get_false() -> (r: bool)
    ensures
        r == false,
{
    false
}

/// Which facts a display would show; each toggle has a fixed default
/// that an absent configuration key falls back to.
#[derive(Clone, Copy, Debug, PartialEq, Eq, Structural)]
pub struct InfoConfigs {
    pub os_name: bool,
    pub kernel: bool,
    pub host: bool,
    pub uptime: bool,
    pub packages: bool,
    pub display_size: bool,
    pub desktop_environment: bool,
    pub cpu_usage: bool,
    pub memory_usage: bool,
    pub disk_usage: bool,
    pub battery: bool,
    pub local_ip: bool,
}

/// The configuration an empty document resolves to: every key at its
/// default.
pub open spec fn spec_default_configs() -> InfoConfigs {
    InfoConfigs {
        os_name: true,
        kernel: true,
        host: true,
        uptime: true,
        packages: true,
        display_size: false,
        desktop_environment: false,
        cpu_usage: false,
        memory_usage: true,
        disk_usage: true,
        battery: false,
        local_ip: true,
    }
}

impl InfoConfigs {
    /// Builds the all-defaults configuration.
    pub fn new() -> (r: InfoConfigs)
        ensures
            r == spec_default_configs(),
    {
        InfoConfigs {
            os_name: get_true(),
            kernel: get_true(),
            host: get_true(),
            uptime: get_true(),
            packages: get_true(),
            display_size: get_false(),
            desktop_environment: get_false(),
            cpu_usage: get_false(),
            memory_usage: get_true(),
            disk_usage: get_true(),
            battery: get_false(),
            local_ip: get_true(),
        }
    }
}

impl Default for InfoConfigs {
    fn default() -> (r: Self)
        ensures
            r == spec_default_configs(),
    {
        InfoConfigs::new()
    }
}

} // verus!
