use vstd::prelude::*;

verus! {

/// Kind of top-level window a web view is shown in.
#[derive(Debug, Clone, Copy, PartialEq, Eq, Structural)]
pub enum WinType {
    TopLevel,
    PopUp,
}

impl Default for WinType {
    /// A plain top-level window.
    fn default() -> (res: Self)
        ensures
            res == WinType::TopLevel,
    {
        WinType::TopLevel
    }
}

/// The settings a web view keeps of itself: its title and its kind of window. The native
/// window that shows them is held beside it by the program.
pub struct WebView {
    pub title: String,
    pub window_type: WinType,
}

impl WebView {
    /// A web view with an empty title in a top-level window.
    pub fn new() -> (res: Self)
        ensures
            res.title@ == Seq::<char>::empty(),
            res.window_type == WinType::TopLevel,
    {
        WebView { title: String::new(), window_type: WinType::TopLevel }
    }

    /// Sets the title; the kind of window stays.
    pub fn set_title(&mut self, title: &str)
        ensures
            final(self).title@ == title@,
            final(self).window_type == old(self).window_type,
    {
        self.title = title.to_owned();
    }
}

/// A monitor's area on the screen, in pixels.
#[derive(Debug, Clone, Copy, PartialEq, Eq, Structural)]
pub struct Rectangle {
    pub x: i32,
    pub y: i32,
    pub width: i32,
    pub height: i32,
}

/// Height in pixels of the panel that reserves space at the top of the screen.
pub const BAR_SIZE: u64 = 32;

/// Where a panel window goes and the space it reserves, as the `_NET_WM_STRUT` and
/// `_NET_WM_STRUT_PARTIAL` window properties give it.
pub struct StrutPlan {
    pub x: i32,
    pub y: i32,
    pub strut: Vec<u64>,
    pub strut_partial: Vec<u64>,
}

/// `_NET_WM_STRUT`: left, right, top, bottom; the panel takes `BAR_SIZE` at the top.
pub open spec fn spec_strut() -> Seq<u64> {
    seq![0, 0, BAR_SIZE, 0]
}

/// The last column the panel covers on a monitor of the given width (the width taken as an
/// unsigned number, less one).
pub open spec fn spec_top_end_x(width: i32) -> u64 {
    ((width as u64) - 1) as u64
}

/// `_NET_WM_STRUT_PARTIAL`: the strut followed by the start and end of each side's extent;
/// only the top one is set, from column 0 to the monitor's last column.
pub open spec fn spec_strut_partial(width: i32) -> Seq<u64> {
    seq![0, 0, BAR_SIZE, 0, 0, 0, 0, 0, 0, spec_top_end_x(width), 0, 0]
}

/// The plan for docking a panel on the primary monitor: the window moves to the monitor's top
/// left corner and reserves `BAR_SIZE` pixels along the monitor's top edge.
pub fn strut_plan(monitors: &Vec<Rectangle>, primary: i32) -> (res: StrutPlan)
    requires
        0 <= primary < monitors.len(),
        monitors[primary as int].width != 0,
    ensures
        res.x == monitors[primary as int].x,
        res.y == monitors[primary as int].y,
        res.strut@ == spec_strut(),
        res.strut_partial@ == spec_strut_partial(monitors[primary as int].width),
        res.strut@ == seq![0u64, 0u64, 32u64, 0u64],
        res.strut_partial@ == seq![
            0u64,
            0u64,
            32u64,
            0u64,
            0u64,
            0u64,
            0u64,
            0u64,
            0u64,
            ((monitors[primary as int].width as u64) - 1) as u64,
            0u64,
            0u64,
        ],
        res.strut_partial@[9] == ((monitors[primary as int].width as u64) - 1) as u64,
{
    let monitor = monitors[primary as usize];
    let width = monitor.width;
    assert(width != 0 ==> width as u64 != 0) by (bit_vector);
    let top_end_x: u64 = 0 + (width as u64) - 1;
    let strut = vec![0, 0, BAR_SIZE, 0];
    let strut_partial = vec![0, 0, BAR_SIZE, 0, 0, 0, 0, 0, 0, top_end_x, 0, 0];
    assert(strut@ =~= spec_strut());
    assert(strut_partial@ =~= spec_strut_partial(width));
    StrutPlan { x: monitor.x, y: monitor.y, strut, strut_partial }
}

/// `a` divided by the positive `d`, rounded toward zero (as integer division on `i32` rounds).
pub open spec fn spec_div_toward_zero(a: int, d: int) -> int {
    if a >= 0 {
        a / d
    } else {
        -((-a) / d)
    }
}

/// The size of the application window on a monitor of `width` by `height`: a quarter of the
/// width and three times a quarter of the height, each quarter rounded toward zero.
pub fn app_window_size(width: i32, height: i32) -> (res: (i32, i32))
    ensures
        res.0 == spec_div_toward_zero(width as int, 4),
        res.1 == spec_div_toward_zero(height as int, 4) * 3,
        width >= 0 ==> 0 <= 4 * res.0 <= width < 4 * res.0 + 4,
        width < 0 ==> 4 * res.0 - 4 < width <= 4 * res.0 <= 0,
        height >= 0 ==> 0 <= res.1 && res.1 % 3 == 0 && 4 * (res.1 / 3) <= height < 4 * (res.1 / 3)
            + 4,
        height < 0 ==> res.1 <= 0 && res.1 % 3 == 0 && 4 * (res.1 / 3) - 4 < height <= 4 * (res.1
            / 3),
{
    (width / 4, height / 4 * 3)
}

/// The panel reserves the monitor's whole top edge: on a monitor of positive width `w` the
/// reserved columns run from 0 to `w - 1`, and the strut is 32 pixels at the top only.
pub proof fn lemma_strut_covers_monitor_width(width: i32)
    requires
        width > 0,
    ensures
        spec_top_end_x(width) + 1 == width,
        spec_strut_partial(width).len() == 12,
        spec_strut_partial(width)[8] == 0,
        spec_strut_partial(width)[9] + 1 == width,
        spec_strut_partial(width).subrange(0, 4) == spec_strut(),
        spec_strut() == seq![0u64, 0u64, 32u64, 0u64],
{
    assert(width > 0 ==> width as u64 == width) by (bit_vector);
    assert(spec_strut_partial(width).subrange(0, 4) =~= spec_strut());
}

/// Rounding toward zero: the quotient times the divisor lies between zero and the dividend,
/// less than one divisor away from it.
pub proof fn lemma_div_toward_zero_bounds(a: int, d: int)
    requires
        d > 0,
    ensures
        a >= 0 ==> 0 <= d * spec_div_toward_zero(a, d) <= a < d * spec_div_toward_zero(a, d) + d,
        a < 0 ==> d * spec_div_toward_zero(a, d) - d < a <= d * spec_div_toward_zero(a, d) <= 0,
{
    if a >= 0 {
        assert(0 <= d * (a / d) <= a < d * (a / d) + d) by (nonlinear_arith)
            requires
                a >= 0,
                d > 0,
        ;
    } else {
        let b = -a;
        assert(0 <= d * (b / d) <= b < d * (b / d) + d) by (nonlinear_arith)
            requires
                b > 0,
                d > 0,
        ;
        assert(d * (-(b / d)) == -(d * (b / d))) by (nonlinear_arith);
    }
}

} // verus!
