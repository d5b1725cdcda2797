//! What is known of the machine as a whole.

use crate::text::{decimal, push_decimal};
use vstd::prelude::*;

verus! {

/// The machine: its system, its name, and its size.
#[derive(Debug, Default, PartialEq, Eq)]
pub struct SystemInformation {
    pub name: String,
    pub os_version: String,
    pub host_name: String,
    /// Seconds since the machine started.
    pub uptime: u64,
    pub total_cpus: u64,
    pub total_memory: u64,
    pub cpu_arch: String,
}

/// What stands before the name.
pub const LABEL_NAME: &'static str = "Name ";

/// What stands between the name and the version of the system.
pub const LABEL_OS_VERSION: &'static str = " \n \n            Os Version ";

/// What stands between the version of the system and the host name.
pub const LABEL_HOST_NAME: &'static str = " \n\n            Hostname ";

/// What stands between the host name and the uptime.
pub const LABEL_UPTIME: &'static str = " \n\n            uptime ";

/// What stands between the uptime and the number of cores.
pub const LABEL_TOTAL_CPUS: &'static str = " \n\n            total cpus ";

/// What stands between the number of cores and the memory.
pub const LABEL_TOTAL_MEMORY: &'static str = " \n\n            total memory ";

/// What stands between the memory and the architecture.
pub const LABEL_CPU_ARCH: &'static str = " \n\n            cpu arch ";

/// What stands after the architecture.
pub const LABEL_END: &'static str = " \n";

impl SystemInformation {
    /// The text that shows the machine: every figure after its label, one
    /// to a line.
    pub open spec fn description(&self) -> Seq<char> {
        LABEL_NAME@ + self.name@ + LABEL_OS_VERSION@ + self.os_version@ + LABEL_HOST_NAME@
            + self.host_name@ + LABEL_UPTIME@ + decimal(self.uptime as nat) + LABEL_TOTAL_CPUS@
            + decimal(self.total_cpus as nat) + LABEL_TOTAL_MEMORY@ + decimal(
            self.total_memory as nat,
        ) + LABEL_CPU_ARCH@ + self.cpu_arch@ + LABEL_END@
    }

    /// The text that shows the machine.
    pub fn describe(&self) -> (text: String)
        ensures
            text@ == self.description(),
    {
        let mut text = String::from_str(LABEL_NAME);
        text.append(self.name.as_str());
        text.append(LABEL_OS_VERSION);
        text.append(self.os_version.as_str());
        text.append(LABEL_HOST_NAME);
        text.append(self.host_name.as_str());
        text.append(LABEL_UPTIME);
        push_decimal(&mut text, self.uptime as u128);
        text.append(LABEL_TOTAL_CPUS);
        push_decimal(&mut text, self.total_cpus as u128);
        text.append(LABEL_TOTAL_MEMORY);
        push_decimal(&mut text, self.total_memory as u128);
        text.append(LABEL_CPU_ARCH);
        text.append(self.cpu_arch.as_str());
        text.append(LABEL_END);
        text
    }
}

} // verus!
