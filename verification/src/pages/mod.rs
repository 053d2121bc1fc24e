//! The pages: which widgets each page shows, and where.

pub mod history;
pub mod monitor;
pub mod processes;
pub mod stats;

use crate::layout::Rect;
use vstd::prelude::*;

verus! {

/// Something a page can show in one cell of its grid.
#[derive(Clone, Copy, Debug, PartialEq, Eq)]
pub enum Widget {
    Host,
    Kernel,
    Environment,
    Packages,
    /// What is known of the processor, as a table.
    Cpu,
    /// What is known of memory and swap, as a table.
    Memory,
    CpuGauge,
    MemoryGauge,
    SwapGauge,
    /// The gauge of the core at this place among the snapshot's cores.
    CoreGauge(usize),
    /// The disk at this place among the snapshot's disks.
    Disk(usize),
    /// The graphics processor at this place among the host's.
    Gpu(usize),
    /// The interface at this place among the snapshot's networks.
    Network(usize),
    CpuChart,
    CoresChart,
    MemoryChart,
    ProcessTable,
}

/// A page laid out: widget `i` is drawn in cell `i`, and cells beyond the
/// last widget stay empty.
#[derive(Clone, Debug, PartialEq, Eq)]
pub struct Plan {
    pub cells: Vec<Rect>,
    pub widgets: Vec<Widget>,
}

impl Plan {
    /// No widget is without a cell.
    pub open spec fn wf(&self) -> bool {
        self.widgets@.len() <= self.cells@.len()
    }

    /// A plan with no cell and no widget.
    pub fn empty() -> (plan: Self)
        ensures
            plan.cells@.len() == 0,
            plan.widgets@.len() == 0,
    {
        Plan { cells: Vec::new(), widgets: Vec::new() }
    }
}

/// The first `cells` of `widgets`, or all of them where there are fewer.
pub open spec fn fitting(widgets: Seq<Widget>, cells: int) -> Seq<Widget> {
    if widgets.len() <= cells {
        widgets
    } else {
        widgets.take(cells)
    }
}

/// A kind of widget of which a page shows as many as it is given room
/// for.
#[derive(Clone, Copy, Debug, PartialEq, Eq)]
pub struct Category {
    pub kind: Kind,
    /// How many widgets of this kind there are to show.
    pub wanted: usize,
    /// The most this kind may take of the cells that are left when its turn
    /// comes, in percent.
    pub percent: u8,
}

/// The cells that a category may take of `left`: its percentage, rounded
/// down. A percentage over a hundred counts as a hundred.
pub open spec fn quota(left: int, percent: int) -> int {
    if percent >= 100 {
        left
    } else {
        left * percent / 100
    }
}

/// The number of widgets shown of one category: all it wants, up to its
/// quota.
pub open spec fn shown(left: int, category: Category) -> int {
    let most = quota(left, category.percent as int);
    if category.wanted <= most {
        category.wanted as int
    } else {
        most
    }
}

/// The widgets shown of `categories` where `left` cells are shared out in
/// order: each category takes up to its quota of what is left, and what it
/// does not take is left for those after it.
pub open spec fn shared(left: int, categories: Seq<Category>) -> Seq<Widget>
    decreases categories.len(),
{
    if categories.len() == 0 {
        Seq::empty()
    } else {
        let first = shown(left, categories[0]);
        categories[0].kind.run(first) + shared(left - first, categories.skip(1))
    }
}

/// The widgets of a page of `cells` cells that shows `fixed` whatever the
/// machine holds, and after them as many of each of `categories` as the
/// cells that are then left allow.
pub open spec fn arranged(cells: int, fixed: Seq<Widget>, categories: Seq<Category>) -> Seq<Widget> {
    let first = fitting(fixed, cells);
    first + shared(cells - first.len(), categories)
}

proof fn lemma_quota_fits(left: int, percent: int)
    requires
        0 <= left,
        0 <= percent,
    ensures
        0 <= quota(left, percent) <= left,
{
    if percent < 100 {
        assert(0 <= left * percent / 100 <= left) by (nonlinear_arith)
            requires
                0 <= left,
                0 <= percent < 100,
        ;
    }
}

/// Sharing out never shows more widgets than there are cells left.
pub proof fn lemma_shared_fits(left: int, categories: Seq<Category>)
    requires
        0 <= left,
    ensures
        shared(left, categories).len() <= left,
    decreases categories.len(),
{
    if categories.len() > 0 {
        lemma_quota_fits(left, categories[0].percent as int);
        lemma_shared_fits(left - shown(left, categories[0]), categories.skip(1));
    }
}

/// An arranged page never shows more widgets than it has cells.
pub proof fn lemma_arranged_fits(cells: int, fixed: Seq<Widget>, categories: Seq<Category>)
    requires
        0 <= cells,
    ensures
        arranged(cells, fixed, categories).len() <= cells,
{
    lemma_shared_fits(cells - fitting(fixed, cells).len(), categories);
}

impl Category {
    /// The number of widgets of this category that `left` cells allow.
    pub fn take(&self, left: usize) -> (count: usize)
        ensures
            count == shown(left as int, *self),
            count <= left,
    {
        proof {
            lemma_quota_fits(left as int, self.percent as int);
        }
        let most: usize = if self.percent >= 100 {
            left
        } else {
            (left as u128 * self.percent as u128 / 100) as usize
        };
        if self.wanted <= most {
            self.wanted
        } else {
            most
        }
    }
}

/// Lays a page out on `cells`: first the widgets of `fixed`, then those of
/// `categories`, which share the cells that are left.
pub fn arrange(cells: Vec<Rect>, fixed: Vec<Widget>, categories: &Vec<Category>) -> (plan: Plan)
    ensures
        plan.cells == cells,
        plan.widgets@ == arranged(cells@.len() as int, fixed@, categories@),
        plan.wf(),
{
    let mut widgets = fixed;
    if widgets.len() > cells.len() {
        widgets.truncate(cells.len());
    }
    let ghost first = widgets@;
    let ghost room = cells@.len() - first.len();
    let mut left: usize = cells.len() - widgets.len();
    let mut k: usize = 0;
    proof {
        assert(categories@.skip(0) =~= categories@);
        lemma_shared_fits(room, categories@);
    }
    while k < categories.len()
        invariant
            k <= categories@.len(),
            widgets@ + shared(left as int, categories@.skip(k as int)) == first + shared(
                room,
                categories@,
            ),
        decreases categories@.len() - k,
    {
        let count = categories[k].take(left);
        let ghost before = widgets@;
        let ghost rest = categories@.skip(k as int);
        categories[k].kind.extend(&mut widgets, count);
        proof {
            assert(rest[0] == categories@[k as int]);
            assert(rest.skip(1) =~= categories@.skip(k + 1));
            let run = rest[0].kind.run(count as int);
            assert((before + run) + shared(left - count, rest.skip(1)) =~= before + (run + shared(
                left - count,
                rest.skip(1),
            )));
        }
        left = left - count;
        k += 1;
    }
    proof {
        assert(shared(left as int, categories@.skip(k as int)) =~= Seq::<Widget>::empty());
        assert(widgets@ + Seq::<Widget>::empty() =~= widgets@);
    }
    Plan { cells, widgets }
}

/// A kind of widget of which a page may show several, told apart by number.
#[derive(Clone, Copy, Debug, PartialEq, Eq)]
pub enum Kind {
    Core,
    Disk,
    Gpu,
    Network,
}

impl Kind {
    /// The widget of this kind with number `i`.
    pub open spec fn widget(self, i: usize) -> Widget {
        match self {
            Kind::Core => Widget::CoreGauge(i),
            Kind::Disk => Widget::Disk(i),
            Kind::Gpu => Widget::Gpu(i),
            Kind::Network => Widget::Network(i),
        }
    }

    /// The widgets of this kind numbered from zero up to, not including, `n`.
    pub open spec fn run(self, n: int) -> Seq<Widget> {
        Seq::new(n as nat, |i: int| self.widget(i as usize))
    }

    /// Adds to `widgets` the first `n` widgets of this kind.
    pub fn extend(self, widgets: &mut Vec<Widget>, n: usize)
        ensures
            final(widgets)@ == old(widgets)@ + self.run(n as int),
    {
        let mut i: usize = 0;
        while i < n
            invariant
                i <= n,
                widgets@ =~= old(widgets)@ + self.run(i as int),
            decreases n - i,
        {
            let widget = match self {
                Kind::Core => Widget::CoreGauge(i),
                Kind::Disk => Widget::Disk(i),
                Kind::Gpu => Widget::Gpu(i),
                Kind::Network => Widget::Network(i),
            };
            widgets.push(widget);
            i += 1;
        }
    }
}

} // verus!
