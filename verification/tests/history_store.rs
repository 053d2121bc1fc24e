use monitors::data::{Core, CpuInfo, Data, Memory};
use monitors::history::{History, CAPACITY};

fn snapshot(tag: u32) -> Data {
    Data {
        cpu: CpuInfo {
            vendor: String::from("v"),
            brand: String::from("b"),
            usage: tag,
            cores: vec![Core { name: String::from("cpu0"), usage: tag, frequency: 1 }],
        },
        processes: Vec::new(),
        disks: Vec::new(),
        memory: Memory::default(),
        networks: Vec::new(),
    }
}

fn tags(history: &History) -> Vec<u32> {
    history.entries().iter().map(|d| d.cpu.usage).collect()
}

#[test]
fn new_history_is_empty() {
    let history = History::new();
    assert_eq!(history.len(), 0);
    assert!(history.latest().is_none());
    assert!(history.entries().is_empty());
}

#[test]
fn append_keeps_arrival_order_below_capacity() {
    let mut history = History::new();
    for tag in 0..5 {
        history.append(snapshot(tag));
    }
    assert_eq!(tags(&history), vec![0, 1, 2, 3, 4]);
    assert_eq!(history.latest().unwrap().cpu.usage, 4);
}

#[test]
fn length_never_exceeds_capacity() {
    let mut history = History::new();
    for tag in 0..350 {
        history.append(snapshot(tag));
        assert!(history.len() <= CAPACITY);
        assert_eq!(history.len(), std::cmp::min(tag as usize + 1, 100));
        assert_eq!(history.latest().unwrap().cpu.usage, tag);
    }
}

#[test]
fn exactly_at_capacity_nothing_is_evicted() {
    let mut history = History::new();
    for tag in 0..100 {
        history.append(snapshot(tag));
    }
    assert_eq!(history.len(), 100);
    assert_eq!(tags(&history), (0..100).collect::<Vec<u32>>());
}

#[test]
fn one_past_capacity_evicts_the_oldest_only() {
    let mut history = History::new();
    for tag in 0..101 {
        history.append(snapshot(tag));
    }
    assert_eq!(history.len(), 100);
    assert_eq!(tags(&history), (1..101).collect::<Vec<u32>>());
}

#[test]
fn a_hundred_and_fifty_appends_keep_the_last_hundred_in_order() {
    let mut history = History::new();
    for tag in 0..150 {
        history.append(snapshot(tag));
    }
    assert_eq!(history.len(), 100);
    assert_eq!(tags(&history), (50..150).collect::<Vec<u32>>());
    assert_eq!(history.entries()[0].cpu.usage, 50);
    assert_eq!(history.latest().unwrap().cpu.usage, 149);
}

#[test]
fn capacity_is_one_hundred() {
    assert_eq!(CAPACITY, 100);
}
