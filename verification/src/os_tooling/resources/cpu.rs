//! Processor cores and their load.

use vstd::prelude::*;

verus! {

/// One processor core.
#[derive(Debug, PartialEq, Eq)]
pub struct CPUResource {
    pub name: String,
    pub brand: String,
    /// In megahertz.
    pub frequency: u64,
    /// Load in hundredths of a percent.
    pub usage: u32,
}

/// A core as contracts speak of it.
pub struct CpuModel {
    pub name: Seq<char>,
    pub brand: Seq<char>,
    pub frequency: u64,
    pub usage: u32,
}

impl DeepView for CPUResource {
    type V = CpuModel;

    open spec fn deep_view(&self) -> CpuModel {
        CpuModel {
            name: self.name@,
            brand: self.brand@,
            frequency: self.frequency,
            usage: self.usage,
        }
    }
}

impl View for CPUResource {
    type V = CpuModel;

    open spec fn view(&self) -> CpuModel {
        self.deep_view()
    }
}

impl Clone for CPUResource {
    fn clone(&self) -> (copy: Self)
        ensures
            copy@ == self@,
    {
        CPUResource {
            name: self.name.clone(),
            brand: self.brand.clone(),
            frequency: self.frequency,
            usage: self.usage,
        }
    }
}

impl Default for CPUResource {
    fn default() -> (core: Self)
        ensures
            core@ == (CpuModel {
                name: Seq::<char>::empty(),
                brand: Seq::<char>::empty(),
                frequency: 0,
                usage: 0,
            }),
    {
        CPUResource { name: String::new(), brand: String::new(), frequency: 0, usage: 0 }
    }
}

/// The cores of the machine.
#[derive(Debug, PartialEq, Eq)]
pub struct CPUGroup {
    pub cpus: Vec<CPUResource>,
}

impl DeepView for CPUGroup {
    type V = Seq<CpuModel>;

    open spec fn deep_view(&self) -> Seq<CpuModel> {
        self.cpus.deep_view()
    }
}

impl View for CPUGroup {
    type V = Seq<CpuModel>;

    open spec fn view(&self) -> Seq<CpuModel> {
        self.deep_view()
    }
}

impl Clone for CPUGroup {
    fn clone(&self) -> (copy: Self)
        ensures
            copy@ == self@,
    {
        CPUGroup { cpus: self.cpus.clone() }
    }
}

impl Default for CPUGroup {
    fn default() -> (group: Self)
        ensures
            group@ == Seq::<CpuModel>::empty(),
    {
        CPUGroup { cpus: Vec::new() }
    }
}

} // verus!
