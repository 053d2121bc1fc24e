//! The snapshot data model: one capture of every monitored metric.
//!
//! Every share of a whole (CPU usage, CPU share of a process) is held in
//! hundredths of a percent, so 100% is `10_000`.

use crate::order::{is_sorted, is_stable_sort_of, sort, Ranked};
use crate::text::{comes_first, lemma_lex_le_total, lemma_lex_le_transitive, lex_le};
use vstd::prelude::*;

verus! {

/// Hundredths of a percent in one whole.
pub const WHOLE: u32 = 10_000;

/// The share that `part` is of `whole`, in hundredths of a percent and
/// rounded down. An empty whole has no share, and a share too large to
/// be held counts as the largest that can be.
pub open spec fn share_of(part: int, whole: int) -> int {
    if whole <= 0 {
        0
    } else if part * WHOLE / whole > u32::MAX {
        u32::MAX as int
    } else {
        part * WHOLE / whole
    }
}

/// Main memory and swap, in bytes.
#[derive(Default, Clone, Copy, Debug, PartialEq, Eq)]
pub struct Memory {
    pub used_swap: u64,
    pub total_swap: u64,
    pub used_mem: u64,
    pub total_mem: u64,
}

/// A part no larger than the whole has a share no larger than the whole.
pub proof fn lemma_share_of_a_part(part: int, whole: int)
    requires
        0 <= part <= whole,
    ensures
        0 <= share_of(part, whole) <= WHOLE,
{
    if whole > 0 {
        assert(0 <= part * 10_000 / whole <= 10_000) by (nonlinear_arith)
            requires
                0 <= part <= whole,
                0 < whole,
        ;
    }
}

fn share(part: u64, whole: u64) -> (s: u32)
    ensures
        s == share_of(part as int, whole as int),
        part <= whole ==> s <= WHOLE,
{
    if whole == 0 {
        0
    } else {
        let scaled: u128 = part as u128 * 10_000u128;
        let s: u128 = scaled / whole as u128;
        proof {
            if part <= whole {
                lemma_share_of_a_part(part as int, whole as int);
            }
        }
        if s > u32::MAX as u128 {
            u32::MAX
        } else {
            s as u32
        }
    }
}

impl Memory {
    /// The share of main memory in use.
    pub fn used_percent(&self) -> (s: u32)
        ensures
            s == share_of(self.used_mem as int, self.total_mem as int),
            self.used_mem <= self.total_mem ==> s <= WHOLE,
    {
        share(self.used_mem, self.total_mem)
    }

    /// The share of swap in use.
    pub fn swap_percent(&self) -> (s: u32)
        ensures
            s == share_of(self.used_swap as int, self.total_swap as int),
            self.used_swap <= self.total_swap ==> s <= WHOLE,
    {
        share(self.used_swap, self.total_swap)
    }

    /// Main memory not in use; none when more is in use than there is.
    pub fn free_mem(&self) -> (free: u64)
        ensures
            free == if self.used_mem <= self.total_mem {
                self.total_mem - self.used_mem
            } else {
                0
            },
    {
        if self.used_mem <= self.total_mem {
            self.total_mem - self.used_mem
        } else {
            0
        }
    }

    /// Swap not in use; none when more is in use than there is.
    pub fn free_swap(&self) -> (free: u64)
        ensures
            free == if self.used_swap <= self.total_swap {
                self.total_swap - self.used_swap
            } else {
                0
            },
    {
        if self.used_swap <= self.total_swap {
            self.total_swap - self.used_swap
        } else {
            0
        }
    }
}

/// One logical core.
#[derive(Default, Clone, Debug, PartialEq, Eq)]
pub struct Core {
    pub name: String,
    /// Hundredths of a percent.
    pub usage: u32,
    pub frequency: u64,
}

/// The processor as a whole and each of its cores.
#[derive(Default, Clone, Debug, PartialEq, Eq)]
pub struct CpuInfo {
    pub vendor: String,
    pub brand: String,
    /// Hundredths of a percent.
    pub usage: u32,
    pub cores: Vec<Core>,
}

#[derive(Clone, Copy, Debug, PartialEq, Eq)]
pub enum DiskKind {
    HDD,
    SSD,
    Unknown(isize),
}

#[derive(Clone, Debug, PartialEq, Eq)]
pub struct Disk {
    pub name: String,
    pub mount_point: String,
    pub kind: DiskKind,
    pub total_space: u64,
    pub free_space: u64,
    pub read_only: bool,
    pub removable: bool,
}

/// An address of either family, as the number its bytes spell.
#[derive(Clone, Copy, Debug, PartialEq, Eq)]
pub enum IpAddress {
    V4(u32),
    V6(u128),
}

/// An address with the length of its network prefix.
#[derive(Clone, Copy, Debug, PartialEq, Eq)]
pub struct IpNetwork {
    pub addr: IpAddress,
    pub prefix: u8,
}

impl IpNetwork {
    /// Version-four addresses come before version-six ones.
    pub open spec fn family(self) -> int {
        match self.addr {
            IpAddress::V4(_) => 0,
            IpAddress::V6(_) => 1,
        }
    }

    pub open spec fn number(self) -> int {
        match self.addr {
            IpAddress::V4(n) => n as int,
            IpAddress::V6(n) => n as int,
        }
    }
}

impl Ranked for IpNetwork {
    /// By family, then by address, then by prefix length.
    open spec fn precedes(&self, other: &Self) -> bool {
        ||| self.family() < other.family()
        ||| self.family() == other.family() && self.number() < other.number()
        ||| self.family() == other.family() && self.number() == other.number() && self.prefix
            <= other.prefix
    }

    proof fn precedes_is_total_preorder() {
    }

    fn goes_first(&self, other: &Self) -> (first: bool) {
        match (self.addr, other.addr) {
            (IpAddress::V4(a), IpAddress::V4(b)) => a < b || (a == b && self.prefix
                <= other.prefix),
            (IpAddress::V6(a), IpAddress::V6(b)) => a < b || (a == b && self.prefix
                <= other.prefix),
            (IpAddress::V4(_), IpAddress::V6(_)) => true,
            (IpAddress::V6(_), IpAddress::V4(_)) => false,
        }
    }
}

/// One network interface.
#[derive(Clone, Debug, PartialEq, Eq)]
pub struct Network {
    pub name: String,
    pub ip_addresses: Vec<IpNetwork>,
    pub mac_address: [u8; 6],
    pub received: u64,
    pub transmitted: u64,
}

impl Network {
    /// An interface with its addresses put in order.
    pub fn new(
        name: String,
        ip_addresses: Vec<IpNetwork>,
        mac_address: [u8; 6],
        received: u64,
        transmitted: u64,
    ) -> (network: Self)
        ensures
            network.name == name,
            is_stable_sort_of(network.ip_addresses@, ip_addresses@),
            network.mac_address == mac_address,
            network.received == received,
            network.transmitted == transmitted,
            network.wf(),
    {
        Network { name, ip_addresses: sort(ip_addresses), mac_address, received, transmitted }
    }

    /// The addresses are in order.
    pub open spec fn wf(&self) -> bool {
        is_sorted(self.ip_addresses@)
    }
}

impl Ranked for Network {
    /// By interface name, in dictionary order.
    open spec fn precedes(&self, other: &Self) -> bool {
        lex_le(self.name@, other.name@)
    }

    proof fn precedes_is_total_preorder() {
        assert forall|a: Self, b: Self| #[trigger] a.precedes(&b) || b.precedes(&a) by {
            lemma_lex_le_total(a.name@, b.name@);
        }
        assert forall|a: Self, b: Self, c: Self|
            #[trigger] a.precedes(&b) && #[trigger] b.precedes(&c) implies a.precedes(&c) by {
            lemma_lex_le_transitive(a.name@, b.name@, c.name@);
        }
    }

    fn goes_first(&self, other: &Self) -> (first: bool) {
        comes_first(self.name.as_str(), other.name.as_str())
    }
}

/// One process as the collector reports it.
#[derive(Clone, Debug, PartialEq, Eq)]
pub struct ProcessReading {
    pub pid: u32,
    pub name: String,
    /// The owner's name, where it could be resolved.
    pub user: Option<String>,
    /// The first word of the command line, where there is one.
    pub command: Option<String>,
    /// Summed over all cores, in hundredths of a percent.
    pub cpu_usage: u32,
    pub memory: u64,
    pub run_time: u64,
}

/// One process as a snapshot holds it.
#[derive(Clone, Debug, PartialEq, Eq)]
pub struct Process {
    pub user: String,
    pub name: String,
    pub pid: u32,
    pub memory: u64,
    /// Share of the whole machine, in hundredths of a percent.
    pub cpu: u32,
    pub command: String,
    pub run_time: u64,
    pub total_m: u64,
}

impl Process {
    /// `self` is what a snapshot holds for `reading` on a machine of `cores`
    /// cores and `total_m` bytes of memory: an unknown owner is the empty
    /// name, a missing command line is the process name, and the usage is
    /// spread over the cores.
    pub open spec fn is_reading(&self, reading: ProcessReading, cores: int, total_m: u64) -> bool {
        &&& self.user@ == match reading.user {
            Some(user) => user@,
            None => Seq::<char>::empty(),
        }
        &&& self.name@ == reading.name@
        &&& self.pid == reading.pid
        &&& self.memory == reading.memory
        &&& self.cpu == if cores > 0 {
            reading.cpu_usage as int / cores
        } else {
            reading.cpu_usage as int
        }
        &&& self.command@ == match reading.command {
            Some(command) => command@,
            None => reading.name@,
        }
        &&& self.run_time == reading.run_time
        &&& self.total_m == total_m
    }

    pub fn new(reading: &ProcessReading, cores: usize, total_m: u64) -> (process: Self)
        ensures
            process.is_reading(*reading, cores as int, total_m),
    {
        let user = match &reading.user {
            Some(user) => user.clone(),
            None => String::new(),
        };
        let command = match &reading.command {
            Some(command) => command.clone(),
            None => reading.name.clone(),
        };
        let cpu = if cores > 0 {
            (reading.cpu_usage as u64 / cores as u64) as u32
        } else {
            reading.cpu_usage
        };
        Process {
            user,
            name: reading.name.clone(),
            pid: reading.pid,
            memory: reading.memory,
            cpu,
            command,
            run_time: reading.run_time,
            total_m,
        }
    }

    /// The processes of `readings`, one for one and in their order.
    pub fn from_readings(readings: &Vec<ProcessReading>, cores: usize, total_m: u64) -> (processes:
        Vec<Self>)
        ensures
            processes@.len() == readings@.len(),
            forall|i: int|
                0 <= i < readings@.len() ==> (#[trigger] processes@[i]).is_reading(
                    readings@[i],
                    cores as int,
                    total_m,
                ),
    {
        let mut processes: Vec<Process> = Vec::new();
        let mut i: usize = 0;
        while i < readings.len()
            invariant
                i <= readings.len(),
                processes@.len() == i,
                forall|k: int|
                    0 <= k < i ==> (#[trigger] processes@[k]).is_reading(
                        readings@[k],
                        cores as int,
                        total_m,
                    ),
            decreases readings.len() - i,
        {
            processes.push(Process::new(&readings[i], cores, total_m));
            i += 1;
        }
        processes
    }
}

impl Ranked for Process {
    /// By share of the machine, the busiest first.
    open spec fn precedes(&self, other: &Self) -> bool {
        self.cpu >= other.cpu
    }

    proof fn precedes_is_total_preorder() {
    }

    fn goes_first(&self, other: &Self) -> (first: bool) {
        self.cpu >= other.cpu
    }
}

/// A snapshot: every metric, captured at one moment.
#[derive(Clone, Debug, PartialEq, Eq)]
pub struct Data {
    pub cpu: CpuInfo,
    pub processes: Vec<Process>,
    pub disks: Vec<Disk>,
    pub memory: Memory,
    pub networks: Vec<Network>,
}

/// Every interface of `networks` has its addresses in order.
pub open spec fn all_in_order(networks: Seq<Network>) -> bool {
    forall|i: int| 0 <= i < networks.len() ==> (#[trigger] networks[i]).wf()
}

impl Data {
    /// There is a core, the processes stand busiest first, the interfaces
    /// stand by name, and each interface has its addresses in order.
    pub open spec fn wf(&self) -> bool {
        &&& self.cpu.cores@.len() > 0
        &&& is_sorted(self.processes@)
        &&& is_sorted(self.networks@)
        &&& all_in_order(self.networks@)
    }

    /// Puts one reading of the machine together, or nothing where the
    /// reading names no core. The interfaces come with their addresses in
    /// order, as `Network::new` makes them.
    pub fn new(
        cpu: CpuInfo,
        memory: Memory,
        processes: Vec<Process>,
        disks: Vec<Disk>,
        networks: Vec<Network>,
    ) -> (snapshot: Option<Self>)
        requires
            all_in_order(networks@),
        ensures
            snapshot is Some <==> cpu.cores@.len() > 0,
            snapshot matches Some(data) ==> {
                &&& data.cpu == cpu
                &&& data.memory == memory
                &&& data.disks == disks
                &&& is_stable_sort_of(data.processes@, processes@)
                &&& is_stable_sort_of(data.networks@, networks@)
                &&& data.wf()
            },
    {
        if cpu.cores.len() == 0 {
            return None;
        }
        let ghost given = networks@;
        let networks = sort(networks);
        proof {
            given.to_multiset_ensures();
            networks@.to_multiset_ensures();
            assert forall|i: int| 0 <= i < networks@.len() implies (#[trigger] networks@[i]).wf() by {
                assert(networks@.contains(networks@[i]));
                assert(given.to_multiset().count(networks@[i]) > 0);
                assert(given.contains(networks@[i]));
                let j = choose|j: int| 0 <= j < given.len() && given[j] == networks@[i];
                assert(given[j].wf());
            }
        }
        Some(Data { cpu, processes: sort(processes), disks, memory, networks })
    }
}

} // verus!
