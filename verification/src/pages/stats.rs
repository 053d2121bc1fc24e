//! The two summary pages.

use crate::data::Data;
use crate::layout::{grid, is_grid, Rect};
use crate::pages::{arrange, arranged, Category, Kind, Plan, Widget};
use vstd::prelude::*;

verus! {

/// Rows of either summary page.
pub const Y: u16 = 6;

/// Columns of the first summary page.
pub const X_1: u16 = 1;

/// Columns of the second summary page.
pub const X_2: u16 = 2;

/// The share of the free cells that disks may take, in percent.
pub const DISK_SHARE: u8 = 60;

/// The widgets of the first summary page, which shows them whatever the
/// machine holds: what is known of a Linux host only where the host is
/// one, then packages, processor and memory.
pub open spec fn page_1_widgets(is_linux: bool) -> Seq<Widget> {
    let common = seq![Widget::Packages, Widget::Cpu, Widget::Memory];
    if is_linux {
        seq![Widget::Host, Widget::Kernel, Widget::Environment] + common
    } else {
        common
    }
}

/// Lays out the first summary page: one column of six cells, filled from
/// the top.
pub fn draw_page_1(area: Rect, is_linux: bool) -> (plan: Plan)
    requires
        area.wf(),
    ensures
        is_grid(area, Y as int, X_1 as int, plan.cells@),
        plan.widgets@ == page_1_widgets(is_linux),
        plan.wf(),
{
    let cells = grid(area, Y, X_1);
    let mut widgets: Vec<Widget> = Vec::new();
    if is_linux {
        widgets.push(Widget::Host);
        widgets.push(Widget::Kernel);
        widgets.push(Widget::Environment);
    }
    widgets.push(Widget::Packages);
    widgets.push(Widget::Cpu);
    widgets.push(Widget::Memory);
    proof {
        assert(widgets@ =~= page_1_widgets(is_linux));
        assert(arranged(6, widgets@, Seq::empty()) =~= widgets@);
    }
    arrange(cells, widgets, &Vec::new())
}

/// The kinds of widget that share the second summary page, in the order in
/// which they are given room: disks may take up to `DISK_SHARE` percent of
/// the cells, graphics processors what is then left, interfaces the rest.
pub open spec fn page_2_categories(disks: usize, gpus: usize, networks: usize) -> Seq<Category> {
    seq![
        Category { kind: Kind::Disk, wanted: disks, percent: DISK_SHARE },
        Category { kind: Kind::Gpu, wanted: gpus, percent: 100 },
        Category { kind: Kind::Network, wanted: networks, percent: 100 },
    ]
}

/// Lays out the second summary page: two columns of six cells. The page
/// has no widget that it shows whatever the machine holds, so all its
/// cells are shared by the disks and interfaces of `data` and `gpus`
/// graphics processors.
pub fn draw_page_2(area: Rect, data: &Data, gpus: usize) -> (plan: Plan)
    requires
        area.wf(),
    ensures
        is_grid(area, Y as int, X_2 as int, plan.cells@),
        plan.widgets@ == arranged(
            (Y * X_2) as int,
            Seq::empty(),
            page_2_categories(data.disks.len(), gpus, data.networks.len()),
        ),
        plan.wf(),
{
    let cells = grid(area, Y, X_2);
    let mut categories: Vec<Category> = Vec::new();
    categories.push(Category { kind: Kind::Disk, wanted: data.disks.len(), percent: DISK_SHARE });
    categories.push(Category { kind: Kind::Gpu, wanted: gpus, percent: 100 });
    categories.push(Category { kind: Kind::Network, wanted: data.networks.len(), percent: 100 });
    proof {
        assert(categories@ =~= page_2_categories(data.disks.len(), gpus, data.networks.len()));
    }
    arrange(cells, Vec::new(), &categories)
}

} // verus!
