//! Disks and how full they are.

use vstd::prelude::*;

verus! {

/// One disk as the operating system reports it, in bytes.
#[derive(Debug, Clone, Copy, PartialEq, Eq, Structural)]
pub struct DiskRaw {
    pub total_space: u64,
    pub available_space: u64,
}

/// One disk: sizes in bytes, the fill level in hundredths of a percent.
#[derive(Debug, Clone, Copy, PartialEq, Eq, Structural)]
pub struct DiskResource {
    pub total: u64,
    pub used: u64,
    pub available: u64,
    pub usage: u32,
}

impl View for DiskResource {
    type V = DiskResource;

    open spec fn view(&self) -> DiskResource {
        *self
    }
}

impl Default for DiskResource {
    fn default() -> (disk: Self)
        ensures
            disk == (DiskResource { total: 0, used: 0, available: 0, usage: 0 }),
    {
        DiskResource { total: 0, used: 0, available: 0, usage: 0 }
    }
}

/// What is in use of a disk: the total less what is available, and nothing
/// where more is reported available than there is.
pub open spec fn used_space(raw: DiskRaw) -> nat {
    if raw.available_space > raw.total_space {
        0
    } else {
        (raw.total_space - raw.available_space) as nat
    }
}

/// The fill level in hundredths of a percent, rounded down; an empty disk
/// has level zero.
pub open spec fn fill_level(raw: DiskRaw) -> nat {
    if raw.total_space == 0 {
        0
    } else {
        used_space(raw) * 10000 / (raw.total_space as nat)
    }
}

/// One disk as it is shown.
pub open spec fn disk_shown(raw: DiskRaw) -> DiskResource {
    DiskResource {
        total: raw.total_space,
        used: used_space(raw) as u64,
        available: raw.available_space,
        usage: fill_level(raw) as u32,
    }
}

/// The fill level is at most a hundred percent.
pub proof fn lemma_fill_level_bounded(raw: DiskRaw)
    ensures
        fill_level(raw) <= 10000,
{
    if raw.total_space != 0 {
        let used = used_space(raw);
        let total = raw.total_space as nat;
        assert(used * 10000 / total <= 10000) by (nonlinear_arith)
            requires
                used <= total,
                total > 0,
        ;
    }
}

impl DiskResource {
    /// One disk from the space that the system reports.
    pub fn from_raw(raw: &DiskRaw) -> (disk: Self)
        ensures
            disk == disk_shown(*raw),
    {
        let used: u64 = if raw.available_space > raw.total_space {
            0
        } else {
            raw.total_space - raw.available_space
        };
        proof {
            lemma_fill_level_bounded(*raw);
        }
        let usage: u32 = if raw.total_space == 0 {
            0
        } else {
            ((used as u128) * 10000 / (raw.total_space as u128)) as u32
        };
        DiskResource { total: raw.total_space, used, available: raw.available_space, usage }
    }
}

/// The disks of the machine.
#[derive(Debug, PartialEq, Eq)]
pub struct DiskGroup {
    pub disks: Vec<DiskResource>,
}

impl View for DiskGroup {
    type V = Seq<DiskResource>;

    open spec fn view(&self) -> Seq<DiskResource> {
        self.disks@
    }
}

impl Clone for DiskGroup {
    fn clone(&self) -> (copy: Self)
        ensures
            copy@ == self@,
    {
        DiskGroup { disks: self.disks.clone() }
    }
}

impl Default for DiskGroup {
    fn default() -> (group: Self)
        ensures
            group@ == Seq::<DiskResource>::empty(),
    {
        DiskGroup { disks: Vec::new() }
    }
}

/// The disks of the machine from the space that the system reports of each,
/// in the order of the reports.
pub fn get_disk_usage(disks: &Vec<DiskRaw>) -> (group: DiskGroup)
    ensures
        group@ == disks@.map_values(|raw: DiskRaw| disk_shown(raw)),
{
    let mut shown: Vec<DiskResource> = Vec::new();
    let n = disks.len();
    let mut i: usize = 0;
    while i < n
        invariant
            n == disks.len(),
            i <= n,
            shown.len() == i,
            forall|j: int| 0 <= j < i ==> #[trigger] shown[j] == disk_shown(disks[j]),
        decreases n - i,
    {
        shown.push(DiskResource::from_raw(&disks[i]));
        i = i + 1;
    }
    DiskGroup { disks: shown }
}

} // verus!
