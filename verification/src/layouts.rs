//! The layout engine: from the registry and the topology to a rectangle for
//! every tiled window.

use vstd::prelude::*;
use crate::command::{place_all, place_commands, Command};
use crate::config::{BORDER_WIDTH, GAPS, MODELINE_HEIGHT};
use crate::monitors::Monitor;
use crate::window::{
    collect_indices, indices_on, lemma_member, lemma_windows_on, windows_on, Client, Window,
};
use crate::wm::{KoanWM, State};

verus! {

/// The ways of arranging the tiled windows of a monitor.
#[derive(Debug, Clone, Copy, PartialEq, Eq, Structural)]
pub enum LAYOUTS {
    /// The first tiled window on the left, the others stacked on the right.
    MASTER,
    /// Every tiled window fills the monitor.
    MONOCLE,
}

/// The rectangle drawn for a window, border not included.
#[derive(Debug, Clone, Copy, PartialEq, Eq, Structural)]
pub struct Placement {
    pub window: Window,
    pub x: i32,
    pub y: i32,
    pub width: u32,
    pub height: u32,
}

/// The smallest share of a monitor's width, in hundredths, that the master
/// window can be given.
pub const MFACT_MIN: u32 = 10;

/// The largest share of a monitor's width, in hundredths, that the master
/// window can be given.
pub const MFACT_MAX: u32 = 90;

/// By how many hundredths one resize action changes the master's share.
pub const MFACT_STEP: u32 = 5;

/// The height of the band kept free above the tiled windows of a monitor:
/// the status bar and a gap.
pub const RESERVED_TOP: i32 = 14;

/// What is taken in all from the height of a window that reaches down to
/// the bottom of its monitor: the band above it and a gap below.
pub const RESERVED_BOTTOM: u32 = 18;

/// The largest band that can be kept free above the tiled windows.
pub const TOP_LIMIT: i32 = 0xffff;

/// A length: `v`, or nothing where `v` is negative.
pub open spec fn extent(v: int) -> int {
    if v > 0 {
        v
    } else {
        0
    }
}

/// `v` made shorter by `amount`, or nothing where no more than `amount`
/// is there.
pub open spec fn shrink(v: int, amount: int) -> int {
    if v > amount {
        v - amount
    } else {
        0
    }
}

/// What is drawn for a window that is allotted the slot of `width` by
/// `height` at (`x`, `y`): the border is taken from the inside of the slot,
/// so that rectangle and border together fill it.
pub open spec fn placed(window: Window, x: int, y: int, width: int, height: int) -> Placement {
    Placement {
        window,
        x: x as i32,
        y: y as i32,
        width: shrink(width, 2 * BORDER_WIDTH) as u32,
        height: shrink(height, 2 * BORDER_WIDTH) as u32,
    }
}

/// A window alone on its monitor: the whole monitor but for the gaps at its
/// sides, the band of `top` above it and `bottom` in all taken from its
/// height.
pub open spec fn full_slot(mon: Monitor, window: Window, top: int, bottom: int) -> Placement {
    placed(
        window,
        mon.x + GAPS,
        mon.y + top,
        shrink(extent(mon.width as int), 2 * GAPS),
        shrink(extent(mon.height as int), bottom),
    )
}

/// The width of the master's side of a monitor: `mfact` hundredths of the
/// monitor's width, rounded down.
pub open spec fn master_width(mon: Monitor, mfact: int) -> int {
    extent(mon.width as int) * mfact / 100
}

/// The master window: the left side of the monitor, at full height.
pub open spec fn master_slot(
    mon: Monitor,
    mfact: int,
    window: Window,
    top: int,
    bottom: int,
) -> Placement {
    placed(
        window,
        mon.x + GAPS,
        mon.y + top,
        shrink(master_width(mon, mfact), 2 * GAPS),
        shrink(extent(mon.height as int), bottom),
    )
}

/// The height of one slice of a stack of `count` windows.
pub open spec fn slice_height(mon: Monitor, count: int) -> int {
    extent(mon.height as int) / count
}

/// Window `i` of the `count` windows stacked on the right side of the
/// monitor, counted from the top. All slices are equally high, but for the
/// last, which also takes what the division left over and gives up
/// `bottom`.
pub open spec fn stack_slot(
    mon: Monitor,
    mfact: int,
    window: Window,
    top: int,
    bottom: int,
    count: int,
    i: int,
) -> Placement {
    let slice = slice_height(mon, count);
    placed(
        window,
        mon.x + master_width(mon, mfact) + GAPS / 2,
        mon.y + i * slice + top,
        shrink(extent(mon.width as int) - master_width(mon, mfact), GAPS + GAPS / 2),
        if i == count - 1 {
            shrink(extent(mon.height as int) - i * slice, bottom)
        } else {
            shrink(slice, 2 * GAPS)
        },
    )
}

/// The rectangle of window `k` of the `windows` tiled on one monitor.
pub open spec fn slot(
    layout: LAYOUTS,
    mon: Monitor,
    mfact: int,
    windows: Seq<Window>,
    top: int,
    bottom: int,
    k: int,
) -> Placement {
    if layout == LAYOUTS::MONOCLE || windows.len() <= 1 {
        full_slot(mon, windows[k], top, bottom)
    } else if k == 0 {
        master_slot(mon, mfact, windows[k], top, bottom)
    } else {
        stack_slot(mon, mfact, windows[k], top, bottom, windows.len() - 1, k - 1)
    }
}

/// The rectangles of the `windows` tiled on one monitor, in their order.
pub open spec fn arranged(
    layout: LAYOUTS,
    mon: Monitor,
    mfact: int,
    windows: Seq<Window>,
    top: int,
    bottom: int,
) -> Seq<Placement> {
    Seq::new(windows.len(), |k: int| slot(layout, mon, mfact, windows, top, bottom, k))
}

impl State {
    /// The tiled windows of a monitor, in registry order.
    pub open spec fn tiled_on(self, monitor: int) -> Seq<Window> {
        windows_on(self.clients, monitor as usize, true)
    }

    /// The rectangles of the tiled windows of the first `count` monitors,
    /// monitor by monitor.
    pub open spec fn arranged_upto(self, layout: LAYOUTS, top: int, bottom: int, count: int) -> Seq<
        Placement,
    >
        decreases count,
    {
        if count <= 0 {
            Seq::empty()
        } else {
            self.arranged_upto(layout, top, bottom, count - 1) + arranged(
                layout,
                self.monitors[count - 1],
                self.mfact as int,
                self.tiled_on(count - 1),
                top,
                bottom,
            )
        }
    }

    /// The rectangles of all tiled windows when every monitor shows one
    /// window at a time.
    pub open spec fn monocle(self, top: int, bottom: int) -> Seq<Placement> {
        self.arranged_upto(LAYOUTS::MONOCLE, top, bottom, self.monitors.len() as int)
    }

    /// The rectangles of all tiled windows when every monitor shows a
    /// master and a stack.
    pub open spec fn master_and_stack(self, top: int, bottom: int) -> Seq<Placement> {
        self.arranged_upto(LAYOUTS::MASTER, top, bottom, self.monitors.len() as int)
    }

    /// The rectangles of all tiled windows in the current layout. Floating
    /// windows get none.
    pub open spec fn layout(self) -> Seq<Placement> {
        match self.layout {
            LAYOUTS::MASTER => self.master_and_stack(RESERVED_TOP as int, RESERVED_BOTTOM as int),
            LAYOUTS::MONOCLE => self.monocle(RESERVED_TOP as int, RESERVED_BOTTOM as int),
        }
    }

    /// The master's share after one more resize action.
    pub open spec fn stepped_ratio(mfact: u32, increase: bool) -> u32 {
        if increase {
            if mfact + MFACT_STEP >= MFACT_MAX {
                MFACT_MAX
            } else {
                (mfact + MFACT_STEP) as u32
            }
        } else {
            if mfact <= MFACT_MIN + MFACT_STEP {
                MFACT_MIN
            } else {
                (mfact - MFACT_STEP) as u32
            }
        }
    }

    /// The state after the master's share has been stepped up or down.
    pub open spec fn change_split_ratio(self, increase: bool) -> State {
        State { mfact: Self::stepped_ratio(self.mfact, increase), ..self }
    }

    /// The state after the layout has been switched to the other one.
    pub open spec fn switch_layout(self) -> State {
        State {
            layout: match self.layout {
                LAYOUTS::MASTER => LAYOUTS::MONOCLE,
                LAYOUTS::MONOCLE => LAYOUTS::MASTER,
            },
            ..self
        }
    }

    /// The master's share after `n` resize actions in the same direction.
    pub open spec fn stepped_ratio_n(mfact: u32, increase: bool, n: nat) -> u32
        decreases n,
    {
        if n == 0 {
            mfact
        } else {
            Self::stepped_ratio(Self::stepped_ratio_n(mfact, increase, (n - 1) as nat), increase)
        }
    }
}

/// The rectangles depend on the registry, the topology, the layout and the
/// master's share, and on nothing else: two states that agree on these four
/// are laid out alike. So laying out twice with no change in between gives
/// the same rectangles both times.
pub proof fn lemma_layout_deterministic(a: State, b: State)
    requires
        a.clients == b.clients,
        a.monitors == b.monitors,
        a.layout == b.layout,
        a.mfact == b.mfact,
    ensures
        a.layout() == b.layout(),
{
    let count = a.monitors.len() as int;
    lemma_arranged_alike(a, b, a.layout, RESERVED_TOP as int, RESERVED_BOTTOM as int, count);
}

proof fn lemma_arranged_alike(
    a: State,
    b: State,
    layout: LAYOUTS,
    top: int,
    bottom: int,
    count: int,
)
    requires
        a.clients == b.clients,
        a.monitors == b.monitors,
        a.mfact == b.mfact,
    ensures
        a.arranged_upto(layout, top, bottom, count) == b.arranged_upto(layout, top, bottom, count),
    decreases count,
{
    if count > 0 {
        lemma_arranged_alike(a, b, layout, top, bottom, count - 1);
    }
}

/// The rectangle drawn for a window and its border together fill the slot
/// the window is allotted: the border is not added to it.
pub proof fn lemma_border_inside(window: Window, x: int, y: int, width: int, height: int)
    requires
        2 * BORDER_WIDTH <= width <= u32::MAX,
        2 * BORDER_WIDTH <= height <= u32::MAX,
    ensures
        placed(window, x, y, width, height).width + 2 * BORDER_WIDTH == width,
        placed(window, x, y, width, height).height + 2 * BORDER_WIDTH == height,
{
}

/// Under the master layout, with more than one tiled window on a monitor,
/// the master's side and the stack's side together are as wide as the
/// monitor, and the master's side is the master's share of it.
pub proof fn lemma_master_and_stack_split(mon: Monitor, mfact: int)
    requires
        mon.in_range(),
        MFACT_MIN <= mfact <= MFACT_MAX,
    ensures
        0 <= master_width(mon, mfact) <= extent(mon.width as int),
        100 * master_width(mon, mfact) <= extent(mon.width as int) * mfact < 100 * (master_width(
            mon,
            mfact,
        ) + 1),
{
    let w = extent(mon.width as int);
    assert(0 <= w * mfact <= w * 100) by (nonlinear_arith)
        requires
            0 <= w,
            0 <= mfact <= 100,
    ;
}

/// The layout gives a rectangle to every tiled window and to no other: each
/// rectangle belongs to a managed window that does not float, and each such
/// window has its rectangle.
pub proof fn lemma_layout_windows(state: State)
    requires
        state.wf(),
    ensures
        forall|k: int|
            0 <= k < state.layout().len() ==> state.is_client((#[trigger] state.layout()[k]).window)
                && !state.client_of(state.layout()[k].window).is_float,
        forall|i: int|
            0 <= i < state.clients.len() && !(#[trigger] state.clients[i]).is_float ==> exists|
                k: int,
            |
                0 <= k < state.layout().len() && state.layout()[k].window
                    == state.clients[i].window,
{
    let top = RESERVED_TOP as int;
    let bottom = RESERVED_BOTTOM as int;
    let count = state.monitors.len() as int;
    lemma_arranged_windows(state, state.layout, top, bottom, count);
    let all = state.arranged_upto(state.layout, top, bottom, count);
    assert(all == state.layout());
    let clients = state.clients;
    assert forall|i: int|
        0 <= i < clients.len() && !(#[trigger] clients[i]).is_float implies exists|k: int|
        0 <= k < all.len() && all[k].window == clients[i].window by {}
}

proof fn lemma_arranged_windows(state: State, layout: LAYOUTS, top: int, bottom: int, count: int)
    requires
        state.wf(),
        0 <= count <= state.monitors.len(),
    ensures
        ({
            let all = state.arranged_upto(layout, top, bottom, count);
            &&& forall|k: int|
                0 <= k < all.len() ==> state.is_client((#[trigger] all[k]).window)
                    && !state.client_of(all[k].window).is_float
            &&& forall|i: int|
                0 <= i < state.clients.len() && !(#[trigger] state.clients[i]).is_float
                    && state.clients[i].monitor < count ==> exists|k: int|
                    0 <= k < all.len() && all[k].window == state.clients[i].window
        }),
    decreases count,
{
    if count > 0 {
        lemma_arranged_windows(state, layout, top, bottom, count - 1);
        let before = state.arranged_upto(layout, top, bottom, count - 1);
        let all = state.arranged_upto(layout, top, bottom, count);
        let monitor = (count - 1) as usize;
        let windows = state.tiled_on(count - 1);
        let mon = state.monitors[count - 1];
        let here = arranged(layout, mon, state.mfact as int, windows, top, bottom);
        lemma_windows_on(state, monitor, true);
        assert forall|k: int| 0 <= k < all.len() implies state.is_client((#[trigger] all[k]).window)
            && !state.client_of(all[k].window).is_float by {}
        assert forall|i: int|
            0 <= i < state.clients.len() && !(#[trigger] state.clients[i]).is_float
                && state.clients[i].monitor < count implies exists|k: int|
            0 <= k < all.len() && all[k].window == state.clients[i].window by {
            if state.clients[i].monitor < count - 1 {
                let k = choose|k: int|
                    0 <= k < before.len() && before[k].window == state.clients[i].window;
                assert(all[k] == before[k]);
            } else {
                lemma_member(state, i, true);
                let j = windows.index_of(state.clients[i].window);
                assert(all[before.len() + j] == here[j]);
            }
        }
    }
}

/// The right edge of what a window takes on the screen, border included.
pub open spec fn outer_right(p: Placement) -> int {
    p.x + p.width + 2 * BORDER_WIDTH
}

/// The lower edge of what a window takes on the screen, border included.
pub open spec fn outer_bottom(p: Placement) -> int {
    p.y + p.height + 2 * BORDER_WIDTH
}

/// Whether a window, border included, lies on its monitor and below the
/// band of `top` kept free above the tiled windows.
pub open spec fn within(mon: Monitor, top: int, p: Placement) -> bool {
    &&& mon.x <= p.x
    &&& outer_right(p) <= mon.x + mon.width
    &&& mon.y + top <= p.y
    &&& outer_bottom(p) <= mon.y + mon.height
}

/// Whether two windows, borders included, share no point of the screen.
pub open spec fn apart(p: Placement, q: Placement) -> bool {
    ||| outer_right(p) <= q.x
    ||| outer_right(q) <= p.x
    ||| outer_bottom(p) <= q.y
    ||| outer_bottom(q) <= p.y
}

/// Whether a monitor has room for `count` tiled windows: every slot is
/// large enough for gaps and border, and the band above the windows is no
/// higher than what is taken from their height.
pub open spec fn roomy(
    layout: LAYOUTS,
    mon: Monitor,
    mfact: int,
    count: int,
    top: int,
    bottom: int,
) -> bool {
    &&& 0 <= top <= bottom
    &&& mon.height >= bottom + 2 * BORDER_WIDTH
    &&& if layout == LAYOUTS::MONOCLE || count <= 1 {
        mon.width >= 2 * GAPS + 2 * BORDER_WIDTH
    } else {
        &&& master_width(mon, mfact) >= 2 * GAPS + 2 * BORDER_WIDTH
        &&& mon.width - master_width(mon, mfact) >= GAPS + GAPS / 2 + 2 * BORDER_WIDTH
        &&& slice_height(mon, count - 1) >= bottom + 2 * BORDER_WIDTH
        &&& slice_height(mon, count - 1) >= 2 * GAPS + 2 * BORDER_WIDTH
    }
}

/// On a monitor that has room for them, every tiled window lies, border
/// included, on its monitor and below the band kept free at the top.
pub proof fn lemma_slot_within(
    layout: LAYOUTS,
    mon: Monitor,
    mfact: int,
    windows: Seq<Window>,
    top: int,
    bottom: int,
    k: int,
)
    requires
        mon.in_range(),
        MFACT_MIN <= mfact <= MFACT_MAX,
        0 <= k < windows.len(),
        top <= TOP_LIMIT,
        roomy(layout, mon, mfact, windows.len() as int, top, bottom),
    ensures
        within(mon, top, slot(layout, mon, mfact, windows, top, bottom, k)),
{
    lemma_master_and_stack_split(mon, mfact);
    if !(layout == LAYOUTS::MONOCLE || windows.len() <= 1) && k > 0 {
        lemma_slices_stack(mon.height as int, windows.len() - 1, k - 1);
    }
}

/// Under the master layout, on a monitor that has room for them, no two
/// tiled windows share a point of the screen: the master is to the left of
/// the stack, and in the stack each window is above the next.
pub proof fn lemma_slots_apart(
    mon: Monitor,
    mfact: int,
    windows: Seq<Window>,
    top: int,
    bottom: int,
    k: int,
    l: int,
)
    requires
        mon.in_range(),
        MFACT_MIN <= mfact <= MFACT_MAX,
        0 <= k < l < windows.len(),
        top <= TOP_LIMIT,
        roomy(LAYOUTS::MASTER, mon, mfact, windows.len() as int, top, bottom),
    ensures
        apart(
            slot(LAYOUTS::MASTER, mon, mfact, windows, top, bottom, k),
            slot(LAYOUTS::MASTER, mon, mfact, windows, top, bottom, l),
        ),
{
    lemma_master_and_stack_split(mon, mfact);
    let count = windows.len() - 1;
    let slice = slice_height(mon, count);
    lemma_slices_stack(mon.height as int, count, l - 1);
    if k > 0 {
        lemma_slices_stack(mon.height as int, count, k - 1);
        assert((k - 1) * slice + slice <= (l - 1) * slice) by (nonlinear_arith)
            requires
                k <= l - 1,
                0 <= slice,
        ;
    }
}

/// However often the master's share is stepped, it stays within its
/// limits: stepping up never takes it above the largest share, stepping
/// down never below the smallest.
pub proof fn lemma_ratio_stays_clamped(mfact: u32, increase: bool, n: nat)
    ensures
        mfact <= MFACT_MAX ==> State::stepped_ratio_n(mfact, true, n) <= MFACT_MAX,
        mfact >= MFACT_MIN ==> State::stepped_ratio_n(mfact, false, n) >= MFACT_MIN,
        MFACT_MIN <= mfact <= MFACT_MAX ==> MFACT_MIN <= State::stepped_ratio_n(mfact, increase, n)
            <= MFACT_MAX,
    decreases n,
{
    if n > 0 {
        lemma_ratio_stays_clamped(mfact, increase, (n - 1) as nat);
    }
}

/// `v` as a length: nothing where it is negative.
fn extent_of(v: i32) -> (e: u32)
    ensures
        e == extent(v as int),
{
    if v > 0 {
        v as u32
    } else {
        0
    }
}

/// Makes the rectangle that is drawn for a window out of the slot allotted
/// to it, by taking the border from the inside of the slot.
pub fn apply_geometry(win: Window, x: i32, y: i32, w: u32, h: u32) -> (placement: Placement)
    ensures
        placement == placed(win, x as int, y as int, w as int, h as int),
{
    let final_w = w.saturating_sub(BORDER_WIDTH * 2);
    let final_h = h.saturating_sub(BORDER_WIDTH * 2);
    Placement { window: win, x, y, width: final_w, height: final_h }
}

/// Appends to `out` the rectangles of the tiled windows of one monitor.
fn arrange(
    layout: LAYOUTS,
    mon: Monitor,
    mfact: u32,
    clients: &Vec<Client>,
    top: i32,
    bottom: u32,
    out: &mut Vec<Placement>,
)
    requires
        mon.in_range(),
        MFACT_MIN <= mfact <= MFACT_MAX,
        0 <= top <= TOP_LIMIT,
    ensures
        final(out)@ == old(out)@ + arranged(
            layout,
            mon,
            mfact as int,
            windows_on(clients@, mon.index, true),
            top as int,
            bottom as int,
        ),
{
    let indices = collect_indices(clients, mon.index, true);
    let n = indices.len();
    let ghost windows = windows_on(clients@, mon.index, true);
    let ghost goal = arranged(layout, mon, mfact as int, windows, top as int, bottom as int);
    let width = extent_of(mon.width);
    let height = extent_of(mon.height);
    let single = match layout {
        LAYOUTS::MONOCLE => true,
        LAYOUTS::MASTER => n <= 1,
    };
    if single {
        let mut k: usize = 0;
        while k < n
            invariant
                k <= n,
                n == indices@.len(),
                indices@ == indices_on(clients@, mon.index, true),
                forall|j: int| 0 <= j < n ==> (#[trigger] indices@[j]) < clients@.len(),
                windows == windows_on(clients@, mon.index, true),
                goal == arranged(layout, mon, mfact as int, windows, top as int, bottom as int),
                layout == LAYOUTS::MONOCLE || n <= 1,
                mon.in_range(),
                0 <= top <= TOP_LIMIT,
                width == extent(mon.width as int),
                height == extent(mon.height as int),
                out@ == old(out)@ + goal.take(k as int),
            decreases n - k,
        {
            let win = clients[indices[k]].window;
            let placement = apply_geometry(
                win,
                mon.x + GAPS as i32,
                mon.y + top,
                width.saturating_sub(GAPS * 2),
                height.saturating_sub(bottom),
            );
            out.push(placement);
            k += 1;
        }
    } else {
        let master_w_raw: u32 = master_width_of(width, mfact);
        let master = apply_geometry(
            clients[indices[0]].window,
            mon.x + GAPS as i32,
            mon.y + top,
            master_w_raw.saturating_sub(GAPS * 2),
            height.saturating_sub(bottom),
        );
        out.push(master);

        let stack_x = mon.x + master_w_raw as i32;
        let stack_w_raw = width - master_w_raw;
        let count = n - 1;
        let stack_h_total: u32 = (height as u64 / count as u64) as u32;

        let mut i: usize = 0;
        while i < count
            invariant
                i <= count,
                count == n - 1,
                count >= 1,
                n == indices@.len(),
                indices@ == indices_on(clients@, mon.index, true),
                forall|j: int| 0 <= j < n ==> (#[trigger] indices@[j]) < clients@.len(),
                windows == windows_on(clients@, mon.index, true),
                goal == arranged(layout, mon, mfact as int, windows, top as int, bottom as int),
                layout == LAYOUTS::MASTER,
                mon.in_range(),
                0 <= top <= TOP_LIMIT,
                width == extent(mon.width as int),
                height == extent(mon.height as int),
                master_w_raw == master_width(mon, mfact as int),
                master_w_raw <= width,
                stack_x == mon.x + master_w_raw,
                stack_w_raw == width - master_w_raw,
                stack_h_total == slice_height(mon, count as int),
                out@ == old(out)@ + goal.take(i + 1),
            decreases count - i,
        {
            proof {
                lemma_slices_fit(height as int, count as int, i as int);
            }
            let offset: u32 = (i as u64 * stack_h_total as u64) as u32;
            let stack_y = mon.y + offset as i32;
            let slot_h = if i == count - 1 {
                (height - offset).saturating_sub(bottom)
            } else {
                stack_h_total.saturating_sub(GAPS * 2)
            };
            let placement = apply_geometry(
                clients[indices[i + 1]].window,
                stack_x + (GAPS / 2) as i32,
                stack_y + top,
                stack_w_raw.saturating_sub(GAPS + GAPS / 2),
                slot_h,
            );
            out.push(placement);
            i += 1;
        }
    }
}

/// `mfact` hundredths of `width`, rounded down.
fn master_width_of(width: u32, mfact: u32) -> (w: u32)
    requires
        width <= 0xffff,
        mfact <= MFACT_MAX,
    ensures
        w == width * mfact / 100,
        w <= width,
{
    assert(width * mfact <= 0xffff * 90 && width * mfact <= width * 100) by (nonlinear_arith)
        requires
            width <= 0xffff,
            mfact <= 90,
    ;
    ((width as u64 * mfact as u64) / 100) as u32
}

/// The slices of a stack, but for what the division leaves over, fill the
/// height they divide.
proof fn lemma_slices_fit(height: int, count: int, i: int)
    requires
        0 <= height,
        0 <= i < count,
    ensures
        0 <= i * (height / count) <= height,
        height / count <= height,
{
    let slice = height / count;
    assert(0 <= slice && slice * count <= height) by (nonlinear_arith)
        requires
            slice == height / count,
            0 <= height,
            0 < count,
    ;
    assert(0 <= i * slice <= slice * count) by (nonlinear_arith)
        requires
            0 <= i < count,
            0 <= slice,
    ;
}

/// Every slice of a stack ends on the monitor, and every slice but the
/// last leaves room for another below it.
proof fn lemma_slices_stack(height: int, count: int, i: int)
    requires
        0 <= height,
        0 <= i < count,
    ensures
        0 <= height / count,
        0 <= i * (height / count),
        i * (height / count) + (height / count) <= height,
        i < count - 1 ==> i * (height / count) + 2 * (height / count) <= height,
{
    let slice = height / count;
    assert(0 <= slice && slice * count <= height) by (nonlinear_arith)
        requires
            slice == height / count,
            0 <= height,
            0 < count,
    ;
    assert(0 <= i * slice && i * slice + slice <= slice * count) by (nonlinear_arith)
        requires
            0 <= i < count,
            0 <= slice,
    ;
    if i < count - 1 {
        assert(i * slice + 2 * slice <= slice * count) by (nonlinear_arith)
            requires
                0 <= i < count - 1,
                0 <= slice,
        ;
    }
}

impl KoanWM {
    /// Appends nothing to the state: computes the rectangles of all tiled
    /// windows in the given layout, monitor by monitor.
    fn arrange_all(&self, layout: LAYOUTS, top: i32, bottom: u32) -> (placements: Vec<Placement>)
        requires
            self.wf(),
            0 <= top <= TOP_LIMIT,
        ensures
            placements@ == self@.arranged_upto(
                layout,
                top as int,
                bottom as int,
                self@.monitors.len() as int,
            ),
    {
        let mut placements: Vec<Placement> = Vec::new();
        let mut mon_idx: usize = 0;
        while mon_idx < self.monitors.len()
            invariant
                self.wf(),
                0 <= top <= TOP_LIMIT,
                mon_idx <= self@.monitors.len(),
                placements@ == self@.arranged_upto(
                    layout,
                    top as int,
                    bottom as int,
                    mon_idx as int,
                ),
            decreases self@.monitors.len() - mon_idx,
        {
            let mon = self.monitors[mon_idx];
            arrange(layout, mon, self.mfact, &self.clients, top, bottom, &mut placements);
            mon_idx += 1;
        }
        placements
    }

    /// The rectangles of all tiled windows when every monitor shows one
    /// window at a time: each fills its monitor, below a band of `top` and
    /// with `bottom` in all taken from its height.
    pub fn monocle(&self, top: i32, bottom: u32) -> (placements: Vec<Placement>)
        requires
            self.wf(),
            0 <= top <= TOP_LIMIT,
        ensures
            placements@ == self@.monocle(top as int, bottom as int),
    {
        self.arrange_all(LAYOUTS::MONOCLE, top, bottom)
    }

    /// The rectangles of all tiled windows when every monitor shows a
    /// master and a stack: the first tiled window of a monitor on the left,
    /// as wide as the master's share, the others on the right, one below
    /// the other. A window alone on its monitor fills it.
    pub fn master_and_stack(&self, top: i32, bottom: u32) -> (placements: Vec<Placement>)
        requires
            self.wf(),
            0 <= top <= TOP_LIMIT,
        ensures
            placements@ == self@.master_and_stack(top as int, bottom as int),
    {
        self.arrange_all(LAYOUTS::MASTER, top, bottom)
    }

    /// The rectangles of all tiled windows in the current layout, monitor
    /// by monitor and, within a monitor, in registry order.
    pub fn layout(&self) -> (placements: Vec<Placement>)
        requires
            self.wf(),
        ensures
            placements@ == self@.layout(),
    {
        let top = (GAPS + MODELINE_HEIGHT) as i32;
        let bottom = (MODELINE_HEIGHT + GAPS * 2) as u32;
        match self.layout {
            LAYOUTS::MASTER => self.master_and_stack(top, bottom),
            LAYOUTS::MONOCLE => self.monocle(top, bottom),
        }
    }

    /// Steps the master's share up or down, never past its limits, and
    /// lays the windows out anew.
    pub fn change_split_ratio(&mut self, increase: bool) -> (commands: Vec<Command>)
        requires
            old(self).wf(),
        ensures
            final(self).wf(),
            final(self)@ == old(self)@.change_split_ratio(increase),
            MFACT_MIN <= final(self)@.mfact <= MFACT_MAX,
            commands@ == place_all(final(self)@.layout()),
    {
        let step = MFACT_STEP;
        if increase {
            self.mfact = if self.mfact + step >= MFACT_MAX {
                MFACT_MAX
            } else {
                self.mfact + step
            };
        } else {
            self.mfact = if self.mfact <= MFACT_MIN + step {
                MFACT_MIN
            } else {
                self.mfact - step
            };
        }
        let placements = self.layout();
        place_commands(&placements)
    }

    /// Switches to the other layout and lays the windows out anew.
    pub fn switch_layout(&mut self) -> (commands: Vec<Command>)
        requires
            old(self).wf(),
        ensures
            final(self).wf(),
            final(self)@ == old(self)@.switch_layout(),
            commands@ == place_all(final(self)@.layout()),
    {
        self.layout = match self.layout {
            LAYOUTS::MASTER => LAYOUTS::MONOCLE,
            LAYOUTS::MONOCLE => LAYOUTS::MASTER,
        };
        let placements = self.layout();
        place_commands(&placements)
    }
}

} // verus!
