//! The monitor page: a gauge for the processor, for memory, for swap and
//! for each core.

use crate::data::{share_of, Core, CpuInfo, Data, Memory};
use crate::layout::{grid, is_grid, Rect};
use crate::pages::{arrange, arranged, Category, Kind, Plan, Widget};
use crate::text::{decimal, digit, to_decimal};
use vstd::prelude::*;
use vstd::string::*;

verus! {

/// Rows of the monitor page.
pub const Y: u16 = 12;

/// Columns of the monitor page.
pub const X: u16 = 3;

/// What a gauge shows.
#[derive(Clone, Debug, PartialEq, Eq)]
pub struct Gauge {
    pub title: String,
    /// How far the gauge is filled, in whole percent, at most a hundred.
    pub percent: u16,
    pub label: String,
}

/// The whole percent in `hundredths` of a percent, where more than a
/// hundred counts as a hundred.
pub open spec fn filled(hundredths: u32) -> int {
    if hundredths >= 10_000 {
        100
    } else {
        hundredths as int / 100
    }
}

/// `hundredths` of a percent written as a percentage to two places.
pub open spec fn label_of(hundredths: u32) -> Seq<char> {
    decimal((hundredths / 100) as nat) + seq![
        '.',
        digit(hundredths as int % 100 / 10),
        digit(hundredths as int % 10),
        '%',
    ]
}

/// `gauge` shows `hundredths` of a percent under `title`.
pub open spec fn shows(gauge: Gauge, title: Seq<char>, hundredths: u32) -> bool {
    &&& gauge.title@ == title
    &&& gauge.percent == filled(hundredths)
    &&& gauge.label@ == label_of(hundredths)
}

fn reading(title: String, hundredths: u32) -> (gauge: Gauge)
    ensures
        shows(gauge, title@, hundredths),
{
    proof {
        reveal_strlit(".");
        reveal_strlit("%");
    }
    let percent: u16 = if hundredths >= 10_000 {
        100
    } else {
        (hundredths / 100) as u16
    };
    let tenths = to_decimal((hundredths % 100 / 10) as u64);
    let units = to_decimal((hundredths % 10) as u64);
    let label = to_decimal((hundredths / 100) as u64).concat(".").concat(tenths.as_str()).concat(
        units.as_str(),
    ).concat("%");
    proof {
        assert("."@ =~= seq!['.']);
        assert("%"@ =~= seq!['%']);
        assert(label@ =~= label_of(hundredths));
    }
    Gauge { title, percent, label }
}

/// The gauge of the processor as a whole.
pub fn cpu(info: &CpuInfo) -> (gauge: Gauge)
    ensures
        shows(gauge, "CPU"@, info.usage),
{
    reading(String::from_str("CPU"), info.usage)
}

/// The gauge of main memory.
pub fn memory(mem: &Memory) -> (gauge: Gauge)
    ensures
        shows(gauge, "Memory"@, share_of(mem.used_mem as int, mem.total_mem as int) as u32),
{
    reading(String::from_str("Memory"), mem.used_percent())
}

/// The gauge of swap.
pub fn swap(mem: &Memory) -> (gauge: Gauge)
    ensures
        shows(gauge, "Swap"@, share_of(mem.used_swap as int, mem.total_swap as int) as u32),
{
    reading(String::from_str("Swap"), mem.swap_percent())
}

/// The gauge of one core, under the core's name.
pub fn core_gauge(core: &Core) -> (gauge: Gauge)
    ensures
        shows(gauge, core.name@, core.usage),
{
    reading(core.name.clone(), core.usage)
}

/// The gauges that the page shows whatever the machine holds.
pub open spec fn gauges() -> Seq<Widget> {
    seq![Widget::CpuGauge, Widget::MemoryGauge, Widget::SwapGauge]
}

/// The gauges of the cores share what room the others leave.
pub open spec fn core_gauges(cores: usize) -> Seq<Category> {
    seq![Category { kind: Kind::Core, wanted: cores, percent: 100 }]
}

/// Lays out the monitor page: three columns of twelve cells, filled row by
/// row. Cores for which no cell is left are not shown.
pub fn draw(area: Rect, data: &Data) -> (plan: Plan)
    requires
        area.wf(),
    ensures
        is_grid(area, Y as int, X as int, plan.cells@),
        plan.widgets@ == arranged((Y * X) as int, gauges(), core_gauges(data.cpu.cores.len())),
        plan.wf(),
{
    let cells = grid(area, Y, X);
    let mut widgets: Vec<Widget> = Vec::new();
    widgets.push(Widget::CpuGauge);
    widgets.push(Widget::MemoryGauge);
    widgets.push(Widget::SwapGauge);
    let mut categories: Vec<Category> = Vec::new();
    categories.push(Category { kind: Kind::Core, wanted: data.cpu.cores.len(), percent: 100 });
    proof {
        assert(widgets@ =~= gauges());
        assert(categories@ =~= core_gauges(data.cpu.cores.len()));
    }
    arrange(cells, widgets, &categories)
}

} // verus!
