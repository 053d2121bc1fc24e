//! The history page: the chart series drawn from the retained snapshots,
//! and the three charts that show them.

use crate::data::Data;
use crate::layout::{grid, is_grid, Rect};
use crate::pages::{arrange, arranged, Plan, Widget};
use vstd::prelude::*;

verus! {

/// Rows of the history page.
pub const Y: u16 = 3;

/// Columns of the history page.
pub const X: u16 = 1;

/// One series of a chart. A point pairs the place of a snapshot in the
/// history, counted from the oldest, with a value in hundredths of a
/// percent.
#[derive(Clone, Debug, PartialEq, Eq)]
pub struct HistoryData(pub Vec<(usize, u32)>);

/// The processor's usage in each snapshot.
pub open spec fn cpu_series(history: Seq<Data>) -> Seq<(usize, u32)> {
    Seq::new(history.len(), |i: int| (i as usize, history[i].cpu.usage))
}

/// The share of main memory in use in each snapshot.
pub open spec fn memory_series(history: Seq<Data>) -> Seq<(usize, u32)> {
    Seq::new(
        history.len(),
        |i: int|
            (
                i as usize,
                crate::data::share_of(
                    history[i].memory.used_mem as int,
                    history[i].memory.total_mem as int,
                ) as u32,
            ),
    )
}

/// The share of swap in use in each snapshot.
pub open spec fn swap_series(history: Seq<Data>) -> Seq<(usize, u32)> {
    Seq::new(
        history.len(),
        |i: int|
            (
                i as usize,
                crate::data::share_of(
                    history[i].memory.used_swap as int,
                    history[i].memory.total_swap as int,
                ) as u32,
            ),
    )
}

/// The usage of core number `core` in each snapshot.
pub open spec fn core_series(history: Seq<Data>, core: int) -> Seq<(usize, u32)> {
    Seq::new(history.len(), |i: int| (i as usize, history[i].cpu.cores@[core].usage))
}

/// The number of cores that every snapshot reports: the least number that
/// any of them reports, and none where there is no snapshot.
pub open spec fn common_cores(history: Seq<Data>) -> int
    decreases history.len(),
{
    if history.len() == 0 {
        0
    } else {
        let newest = history.last().cpu.cores@.len() as int;
        if history.len() == 1 {
            newest
        } else {
            let earlier = common_cores(history.drop_last());
            if newest < earlier {
                newest
            } else {
                earlier
            }
        }
    }
}

/// Every snapshot reports at least the common number of cores, and one of
/// them reports no more.
pub proof fn lemma_common_cores_is_least(history: Seq<Data>)
    ensures
        0 <= common_cores(history),
        forall|i: int|
            0 <= i < history.len() ==> common_cores(history) <= (
            #[trigger] history[i]).cpu.cores@.len(),
        history.len() > 0 ==> exists|i: int|
            0 <= i < history.len() && common_cores(history) == (
            #[trigger] history[i]).cpu.cores@.len(),
    decreases history.len(),
{
    if history.len() > 1 {
        let earlier = history.drop_last();
        lemma_common_cores_is_least(earlier);
        assert forall|i: int| 0 <= i < history.len() implies common_cores(history) <= (
        #[trigger] history[i]).cpu.cores@.len() by {
            if i < earlier.len() {
                assert(earlier[i] == history[i]);
            }
        }
        let least = choose|i: int|
            0 <= i < earlier.len() && common_cores(earlier) == (
            #[trigger] earlier[i]).cpu.cores@.len();
        assert(earlier[least] == history[least]);
        assert(history[history.len() - 1] == history.last());
    } else if history.len() == 1 {
        assert(history[0] == history.last());
    }
}

/// Every series has one point for each snapshot, and point `i` stands at
/// place `i`.
pub proof fn lemma_series_are_aligned(history: Seq<Data>)
    requires
        history.len() <= usize::MAX,
    ensures
        cpu_series(history).len() == history.len(),
        memory_series(history).len() == history.len(),
        swap_series(history).len() == history.len(),
        forall|core: int| (#[trigger] core_series(history, core)).len() == history.len(),
        forall|i: int| 0 <= i < history.len() ==> (#[trigger] cpu_series(history)[i]).0 == i,
        forall|i: int| 0 <= i < history.len() ==> (#[trigger] memory_series(history)[i]).0 == i,
        forall|i: int| 0 <= i < history.len() ==> (#[trigger] swap_series(history)[i]).0 == i,
        forall|core: int, i: int|
            0 <= i < history.len() ==> (#[trigger] core_series(history, core)[i]).0 == i,
{
}

impl HistoryData {
    /// One series for each core that every snapshot reports. Where the
    /// snapshots differ in their number of cores, the cores beyond the
    /// least number have no series, so that every series has a point for
    /// every snapshot.
    pub fn from_cores(history: &[Data]) -> (series: Vec<Self>)
        ensures
            series@.len() == common_cores(history@),
            forall|core: int|
                0 <= core < series@.len() ==> (#[trigger] series@[core]).0@ == core_series(
                    history@,
                    core,
                ),
            forall|core: int|
                0 <= core < series@.len() ==> (#[trigger] series@[core]).0@.len() == history@.len(),
            forall|core: int, i: int|
                0 <= core < series@.len() && 0 <= i < history@.len() ==> (
                #[trigger] series@[core].0@[i]).0 == i,
    {
        let mut count: usize = 0;
        let mut i: usize = 0;
        while i < history.len()
            invariant
                i <= history@.len(),
                count == common_cores(history@.take(i as int)),
            decreases history@.len() - i,
        {
            proof {
                assert(history@.take(i + 1).drop_last() =~= history@.take(i as int));
            }
            if i == 0 || history[i].cpu.cores.len() < count {
                count = history[i].cpu.cores.len();
            }
            i += 1;
        }
        proof {
            assert(history@.take(i as int) =~= history@);
            lemma_common_cores_is_least(history@);
        }
        let mut series: Vec<HistoryData> = Vec::new();
        let mut core: usize = 0;
        while core < count
            invariant
                core <= count,
                count == common_cores(history@),
                forall|k: int| 0 <= k < history@.len() ==> count <= (#[trigger] history@[k]).cpu.cores@.len(),
                series@.len() == core,
                forall|c: int|
                    0 <= c < core ==> (#[trigger] series@[c]).0@ == core_series(history@, c),
            decreases count - core,
        {
            let mut points: Vec<(usize, u32)> = Vec::new();
            let mut at: usize = 0;
            while at < history.len()
                invariant
                    at <= history@.len(),
                    core < count,
                    forall|k: int|
                        0 <= k < history@.len() ==> count <= (#[trigger] history@[k]).cpu.cores@.len(),
                    points@ =~= core_series(history@.take(at as int), core as int),
                decreases history@.len() - at,
            {
                points.push((at, history[at].cpu.cores[core].usage));
                at += 1;
            }
            proof {
                assert(history@.take(at as int) =~= history@);
            }
            series.push(HistoryData(points));
            core += 1;
        }
        series
    }

    /// The processor's usage over the history.
    pub fn from_cpu(history: &[Data]) -> (series: Self)
        ensures
            series.0@ == cpu_series(history@),
            series.0@.len() == history@.len(),
            forall|i: int| 0 <= i < history@.len() ==> (#[trigger] series.0@[i]).0 == i,
    {
        let mut points: Vec<(usize, u32)> = Vec::new();
        let mut i: usize = 0;
        while i < history.len()
            invariant
                i <= history@.len(),
                points@ =~= cpu_series(history@.take(i as int)),
            decreases history@.len() - i,
        {
            points.push((i, history[i].cpu.usage));
            i += 1;
        }
        proof {
            assert(history@.take(i as int) =~= history@);
        }
        HistoryData(points)
    }

    /// The shares of main memory and of swap in use over the history.
    pub fn from_mem(history: &[Data]) -> (series: (Self, Self))
        ensures
            series.0.0@ == memory_series(history@),
            series.1.0@ == swap_series(history@),
            series.0.0@.len() == history@.len(),
            series.1.0@.len() == history@.len(),
            forall|i: int| 0 <= i < history@.len() ==> (#[trigger] series.0.0@[i]).0 == i,
            forall|i: int| 0 <= i < history@.len() ==> (#[trigger] series.1.0@[i]).0 == i,
    {
        let mut memory: Vec<(usize, u32)> = Vec::new();
        let mut swap: Vec<(usize, u32)> = Vec::new();
        let mut i: usize = 0;
        while i < history.len()
            invariant
                i <= history@.len(),
                memory@ =~= memory_series(history@.take(i as int)),
                swap@ =~= swap_series(history@.take(i as int)),
            decreases history@.len() - i,
        {
            memory.push((i, history[i].memory.used_percent()));
            swap.push((i, history[i].memory.swap_percent()));
            i += 1;
        }
        proof {
            assert(history@.take(i as int) =~= history@);
        }
        (HistoryData(memory), HistoryData(swap))
    }
}

/// The legend of a chart: none for the processor's chart, and for the
/// others the share of the chart, as a ratio, beyond which the legend is
/// hidden: a half for the memory chart, and for the cores' chart one over
/// the number of `points` in a series.
pub open spec fn legend_of(widget: Widget, points: usize) -> Option<(u32, u32)> {
    match widget {
        Widget::MemoryChart => Some((1u32, 2u32)),
        Widget::CoresChart => Some(
            (
                1u32,
                if points <= u32::MAX {
                    points as u32
                } else {
                    u32::MAX
                },
            ),
        ),
        _ => None,
    }
}

/// Decides the legend of a chart.
pub fn legend(widget: Widget, points: usize) -> (ratio: Option<(u32, u32)>)
    ensures
        ratio == legend_of(widget, points),
{
    match widget {
        Widget::MemoryChart => Some((1, 2)),
        Widget::CoresChart => Some(
            (
                1,
                if points <= u32::MAX as usize {
                    points as u32
                } else {
                    u32::MAX
                },
            ),
        ),
        _ => None,
    }
}

/// Lays out the history page: the processor's chart above the cores' above
/// the memory's.
pub fn draw(area: Rect) -> (plan: Plan)
    requires
        area.wf(),
    ensures
        is_grid(area, Y as int, X as int, plan.cells@),
        plan.widgets@ == seq![Widget::CpuChart, Widget::CoresChart, Widget::MemoryChart],
        plan.wf(),
{
    let cells = grid(area, Y, X);
    let mut widgets: Vec<Widget> = Vec::new();
    widgets.push(Widget::CpuChart);
    widgets.push(Widget::CoresChart);
    widgets.push(Widget::MemoryChart);
    proof {
        assert(cells@.len() == 3) by (nonlinear_arith)
            requires
                cells@.len() == (Y as int) * (X as int),
        ;
    }
    proof {
        assert(arranged(cells@.len() as int, widgets@, Seq::empty()) =~= widgets@);
    }
    arrange(cells, widgets, &Vec::new())
}

} // verus!
