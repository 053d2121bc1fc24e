use monitors::data::{
    Core, CpuInfo, Data, Disk, DiskKind, IpAddress, IpNetwork, Memory, Network, Process,
    ProcessReading, WHOLE,
};
use monitors::order::sort;

fn cpu(cores: usize) -> CpuInfo {
    CpuInfo {
        vendor: String::from("GenuineIntel"),
        brand: String::from("Some CPU"),
        usage: 1234,
        cores: (0..cores)
            .map(|i| Core { name: format!("cpu{i}"), usage: 100 * i as u32, frequency: 2400 })
            .collect(),
    }
}

fn reading(pid: u32, name: &str, cpu_usage: u32) -> ProcessReading {
    ProcessReading {
        pid,
        name: String::from(name),
        user: Some(String::from("root")),
        command: Some(format!("/bin/{name}")),
        cpu_usage,
        memory: 10,
        run_time: 5,
    }
}

fn process(pid: u32, cpu: u32) -> Process {
    Process {
        user: String::from("u"),
        name: format!("p{pid}"),
        pid,
        memory: 0,
        cpu,
        command: String::new(),
        run_time: 0,
        total_m: 0,
    }
}

fn net(name: &str) -> Network {
    Network::new(String::from(name), Vec::new(), [0; 6], 0, 0)
}

#[test]
fn whole_is_ten_thousand() {
    assert_eq!(WHOLE, 10_000);
}

#[test]
fn memory_shares_and_free_amounts() {
    let m = Memory { used_swap: 1, total_swap: 8, used_mem: 3, total_mem: 4 };
    assert_eq!(m.used_percent(), 7500);
    assert_eq!(m.swap_percent(), 1250);
    assert_eq!(m.free_mem(), 1);
    assert_eq!(m.free_swap(), 7);
}

#[test]
fn memory_with_nothing_installed_has_no_share() {
    let m = Memory { used_swap: 0, total_swap: 0, used_mem: 0, total_mem: 0 };
    assert_eq!(m.used_percent(), 0);
    assert_eq!(m.swap_percent(), 0);
    assert_eq!(m.free_mem(), 0);
    assert_eq!(m.free_swap(), 0);
}

#[test]
fn memory_used_beyond_total_is_more_than_the_whole_and_leaves_nothing_free() {
    let m = Memory { used_swap: 9, total_swap: 8, used_mem: 5, total_mem: 4 };
    assert_eq!(m.used_percent(), 12_500);
    assert_eq!(m.swap_percent(), 11_250);
    assert_eq!(m.free_mem(), 0);
    assert_eq!(m.free_swap(), 0);
}

#[test]
fn a_share_too_large_to_hold_is_the_largest_that_can_be_held() {
    let m = Memory { used_swap: 429_497, total_swap: 1, used_mem: u64::MAX, total_mem: 1 };
    assert_eq!(m.used_percent(), u32::MAX);
    assert_eq!(m.swap_percent(), u32::MAX);
    let m = Memory { used_swap: 429_496, total_swap: 1, used_mem: 0, total_mem: 1 };
    assert_eq!(m.swap_percent(), 4_294_960_000);
}

#[test]
fn data_new_keeps_the_addresses_of_each_interface_in_order() {
    let v4 = |n: u32| IpNetwork { addr: IpAddress::V4(n), prefix: 24 };
    let networks = vec![
        Network::new(String::from("wlan0"), vec![v4(9), v4(3), v4(5)], [0; 6], 0, 0),
        Network::new(String::from("eth0"), vec![v4(2), v4(1)], [0; 6], 0, 0),
    ];
    let data = Data::new(cpu(1), Memory::default(), Vec::new(), Vec::new(), networks).unwrap();
    assert_eq!(data.networks[0].name, "eth0");
    assert_eq!(data.networks[0].ip_addresses, vec![v4(1), v4(2)]);
    assert_eq!(data.networks[1].ip_addresses, vec![v4(3), v4(5), v4(9)]);
}

#[test]
fn memory_share_rounds_down() {
    let m = Memory { used_swap: 2, total_swap: 3, used_mem: 1, total_mem: 3 };
    assert_eq!(m.used_percent(), 3333);
    assert_eq!(m.swap_percent(), 6666);
}

#[test]
fn process_new_spreads_usage_over_the_cores() {
    let p = Process::new(&reading(7, "a", 4000), 4, 1 << 30);
    assert_eq!(p.cpu, 1000);
    assert_eq!(p.pid, 7);
    assert_eq!(p.name, "a");
    assert_eq!(p.user, "root");
    assert_eq!(p.command, "/bin/a");
    assert_eq!(p.memory, 10);
    assert_eq!(p.run_time, 5);
    assert_eq!(p.total_m, 1 << 30);
}

#[test]
fn process_new_rounds_the_share_down() {
    assert_eq!(Process::new(&reading(1, "a", 1000), 3, 0).cpu, 333);
}

#[test]
fn process_new_without_cores_keeps_the_usage() {
    assert_eq!(Process::new(&reading(1, "a", 4000), 0, 0).cpu, 4000);
}

#[test]
fn process_new_unknown_owner_is_the_empty_name() {
    let mut r = reading(1, "a", 0);
    r.user = None;
    assert_eq!(Process::new(&r, 1, 0).user, "");
}

#[test]
fn process_new_missing_command_line_is_the_process_name() {
    let mut r = reading(1, "kworker", 0);
    r.command = None;
    assert_eq!(Process::new(&r, 1, 0).command, "kworker");
}

#[test]
fn from_readings_keeps_number_and_order() {
    let readings = vec![reading(1, "a", 100), reading(2, "b", 900), reading(3, "c", 500)];
    let processes = Process::from_readings(&readings, 2, 64);
    assert_eq!(processes.iter().map(|p| (p.pid, p.cpu)).collect::<Vec<_>>(), vec![
        (1, 50),
        (2, 450),
        (3, 250)
    ]);
    assert!(processes.iter().all(|p| p.total_m == 64));
    assert!(Process::from_readings(&Vec::new(), 2, 64).is_empty());
}

#[test]
fn data_new_without_cores_is_nothing() {
    assert!(Data::new(cpu(0), Memory::default(), Vec::new(), Vec::new(), Vec::new()).is_none());
}

#[test]
fn data_new_puts_the_busiest_process_first() {
    let processes = vec![process(1, 5), process(2, 50), process(3, 0), process(4, 7)];
    let data = Data::new(cpu(1), Memory::default(), processes, Vec::new(), Vec::new()).unwrap();
    assert_eq!(data.processes.iter().map(|p| p.pid).collect::<Vec<_>>(), vec![2, 4, 1, 3]);
}

#[test]
fn data_new_keeps_equally_busy_processes_in_their_order() {
    let processes =
        vec![process(1, 5), process(2, 9), process(3, 5), process(4, 9), process(5, 5)];
    let data = Data::new(cpu(1), Memory::default(), processes, Vec::new(), Vec::new()).unwrap();
    assert_eq!(data.processes.iter().map(|p| p.pid).collect::<Vec<_>>(), vec![2, 4, 1, 3, 5]);
}

#[test]
fn data_new_puts_interfaces_in_name_order() {
    let networks = vec![net("wlan0"), net("eth1"), net("lo"), net("eth0"), net("eth10"), net("")];
    let data = Data::new(cpu(2), Memory::default(), Vec::new(), Vec::new(), networks).unwrap();
    assert_eq!(data.networks.iter().map(|n| n.name.as_str()).collect::<Vec<_>>(), vec![
        "", "eth0", "eth1", "eth10", "lo", "wlan0"
    ]);
}

#[test]
fn data_new_orders_names_as_the_standard_library_does() {
    let names = ["b", "a", "B", "ab", "\u{e9}", "z", "a\u{10000}", "a\u{ffff}", "Z", "0", "aa"];
    let networks: Vec<Network> = names.iter().map(|n| net(n)).collect();
    let data = Data::new(cpu(1), Memory::default(), Vec::new(), Vec::new(), networks).unwrap();
    let mut expected: Vec<String> = names.iter().map(|n| String::from(*n)).collect();
    expected.sort();
    assert_eq!(data.networks.iter().map(|n| n.name.clone()).collect::<Vec<_>>(), expected);
}

#[test]
fn data_new_keeps_processor_memory_and_disks() {
    let memory = Memory { used_swap: 1, total_swap: 2, used_mem: 3, total_mem: 4 };
    let disks = vec![
        Disk {
            name: String::from("sdb"),
            mount_point: String::from("/home"),
            kind: DiskKind::HDD,
            total_space: 10,
            free_space: 4,
            read_only: false,
            removable: true,
        },
        Disk {
            name: String::from("sda"),
            mount_point: String::from("/"),
            kind: DiskKind::Unknown(-1),
            total_space: 20,
            free_space: 5,
            read_only: true,
            removable: false,
        },
    ];
    let data = Data::new(cpu(3), memory, Vec::new(), disks.clone(), Vec::new()).unwrap();
    assert_eq!(data.cpu, cpu(3));
    assert_eq!(data.memory, memory);
    assert_eq!(data.disks, disks);
}

#[test]
fn network_new_puts_addresses_in_order() {
    let v4 = |n: u32, prefix: u8| IpNetwork { addr: IpAddress::V4(n), prefix };
    let v6 = |n: u128, prefix: u8| IpNetwork { addr: IpAddress::V6(n), prefix };
    let ips = vec![v6(1, 64), v4(0xc0a80001, 24), v6(0, 128), v4(0x0a000001, 8), v4(0xc0a80001, 16)];
    let network = Network::new(String::from("eth0"), ips, [1, 2, 3, 4, 5, 6], 7, 8);
    assert_eq!(network.ip_addresses, vec![
        v4(0x0a000001, 8),
        v4(0xc0a80001, 16),
        v4(0xc0a80001, 24),
        v6(0, 128),
        v6(1, 64)
    ]);
    assert_eq!(network.name, "eth0");
    assert_eq!(network.mac_address, [1, 2, 3, 4, 5, 6]);
    assert_eq!((network.received, network.transmitted), (7, 8));
}

#[test]
fn sort_of_nothing_and_of_one() {
    assert!(sort(Vec::<Process>::new()).is_empty());
    assert_eq!(sort(vec![process(1, 3)]), vec![process(1, 3)]);
}

#[test]
fn sort_is_a_permutation() {
    let items: Vec<Process> = (0..60).map(|i| process(i, (i * 37) % 11)).collect();
    let sorted = sort(items.clone());
    assert_eq!(sorted.len(), 60);
    for w in sorted.windows(2) {
        assert!(w[0].cpu > w[1].cpu || (w[0].cpu == w[1].cpu && w[0].pid < w[1].pid));
    }
    let mut pids: Vec<u32> = sorted.iter().map(|p| p.pid).collect();
    pids.sort();
    assert_eq!(pids, (0..60).collect::<Vec<u32>>());
}

#[test]
fn addresses_are_ordered_as_the_collector_orders_them() {
    let raw: Vec<(&str, IpAddress, u8)> = vec![
        ("fe80::1", IpAddress::V6(0xfe80_0000_0000_0000_0000_0000_0000_0001), 64),
        ("192.168.1.10", IpAddress::V4(0xc0a8_010a), 24),
        ("10.0.0.1", IpAddress::V4(0x0a00_0001), 8),
        ("::1", IpAddress::V6(1), 128),
        ("192.168.1.10", IpAddress::V4(0xc0a8_010a), 16),
        ("127.0.0.1", IpAddress::V4(0x7f00_0001), 8),
        ("255.255.255.255", IpAddress::V4(0xffff_ffff), 32),
        ("2001:db8::2", IpAddress::V6(0x2001_0db8_0000_0000_0000_0000_0000_0002), 48),
        ("0.0.0.0", IpAddress::V4(0), 0),
    ];
    let mut theirs: Vec<sysinfo::IpNetwork> = raw
        .iter()
        .map(|(text, _, prefix)| sysinfo::IpNetwork { addr: text.parse().unwrap(), prefix: *prefix })
        .collect();
    theirs.sort();
    let ours: Vec<IpNetwork> =
        raw.iter().map(|(_, addr, prefix)| IpNetwork { addr: *addr, prefix: *prefix }).collect();
    let network = Network::new(String::from("eth0"), ours, [0; 6], 0, 0);
    let text_of = |ip: &IpNetwork| raw.iter().find(|(_, addr, _)| *addr == ip.addr).unwrap().0;
    assert_eq!(
        network.ip_addresses.iter().map(|ip| (String::from(text_of(ip)), ip.prefix)).collect::<Vec<_>>(),
        theirs.iter().map(|ip| (ip.addr.to_string(), ip.prefix)).collect::<Vec<_>>()
    );
}
