//! Network interfaces and their counters.

use vstd::prelude::*;

verus! {

/// One network interface with what passed through it since the last look.
#[derive(Debug, PartialEq, Eq)]
pub struct NetworkInterface {
    pub name: String,
    pub received: u64,
    pub transmitted: u64,
    pub mac_address: String,
    pub packets_received: u64,
    pub packets_transmitted: u64,
}

/// An interface as contracts speak of it.
pub struct InterfaceModel {
    pub name: Seq<char>,
    pub received: u64,
    pub transmitted: u64,
    pub mac_address: Seq<char>,
    pub packets_received: u64,
    pub packets_transmitted: u64,
}

impl DeepView for NetworkInterface {
    type V = InterfaceModel;

    open spec fn deep_view(&self) -> InterfaceModel {
        InterfaceModel {
            name: self.name@,
            received: self.received,
            transmitted: self.transmitted,
            mac_address: self.mac_address@,
            packets_received: self.packets_received,
            packets_transmitted: self.packets_transmitted,
        }
    }
}

impl View for NetworkInterface {
    type V = InterfaceModel;

    open spec fn view(&self) -> InterfaceModel {
        self.deep_view()
    }
}

impl Clone for NetworkInterface {
    fn clone(&self) -> (copy: Self)
        ensures
            copy@ == self@,
    {
        NetworkInterface {
            name: self.name.clone(),
            received: self.received,
            transmitted: self.transmitted,
            mac_address: self.mac_address.clone(),
            packets_received: self.packets_received,
            packets_transmitted: self.packets_transmitted,
        }
    }
}

impl Default for NetworkInterface {
    fn default() -> (interface: Self)
        ensures
            interface@ == (InterfaceModel {
                name: Seq::<char>::empty(),
                received: 0,
                transmitted: 0,
                mac_address: Seq::<char>::empty(),
                packets_received: 0,
                packets_transmitted: 0,
            }),
    {
        NetworkInterface {
            name: String::new(),
            received: 0,
            transmitted: 0,
            mac_address: String::new(),
            packets_received: 0,
            packets_transmitted: 0,
        }
    }
}

/// The network interfaces of the machine.
#[derive(Debug, PartialEq, Eq)]
pub struct NetworkInterfaceGroup {
    pub interfaces: Vec<NetworkInterface>,
}

impl DeepView for NetworkInterfaceGroup {
    type V = Seq<InterfaceModel>;

    open spec fn deep_view(&self) -> Seq<InterfaceModel> {
        self.interfaces.deep_view()
    }
}

impl View for NetworkInterfaceGroup {
    type V = Seq<InterfaceModel>;

    open spec fn view(&self) -> Seq<InterfaceModel> {
        self.deep_view()
    }
}

impl Clone for NetworkInterfaceGroup {
    fn clone(&self) -> (copy: Self)
        ensures
            copy@ == self@,
    {
        NetworkInterfaceGroup { interfaces: self.interfaces.clone() }
    }
}

impl Default for NetworkInterfaceGroup {
    fn default() -> (group: Self)
        ensures
            group@ == Seq::<InterfaceModel>::empty(),
    {
        NetworkInterfaceGroup { interfaces: Vec::new() }
    }
}

} // verus!
