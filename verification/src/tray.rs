//! The tray icon: its menu actions and the recording badge drawn onto the
//! icon. The tray widget itself belongs to the desktop shell.

use vstd::prelude::*;

verus! {

/// What a tray interaction asks the app to do.
#[derive(Clone, Copy, Debug, PartialEq, Eq, Structural)]
pub enum TrayAction {
    Show,
    StartRecorder,
    StopRecorder,
    SaveReplay,
    Quit,
}

pub const SHOW_ID: &'static str = "clip-engine.show";
pub const START_ID: &'static str = "clip-engine.start";
pub const STOP_ID: &'static str = "clip-engine.stop";
pub const SAVE_ID: &'static str = "clip-engine.save";
pub const QUIT_ID: &'static str = "clip-engine.quit";

/// The action of the menu entry with the given id.
pub open spec fn menu_action(id: Seq<char>) -> Option<TrayAction> {
    if id == SHOW_ID@ {
        Some(TrayAction::Show)
    } else if id == START_ID@ {
        Some(TrayAction::StartRecorder)
    } else if id == STOP_ID@ {
        Some(TrayAction::StopRecorder)
    } else if id == SAVE_ID@ {
        Some(TrayAction::SaveReplay)
    } else if id == QUIT_ID@ {
        Some(TrayAction::Quit)
    } else {
        None
    }
}

/// The action of a chosen menu entry, by its id.
pub fn action_for_menu_id(id: &str) -> (r: Option<TrayAction>)
    ensures
        r == menu_action(id@),
{
    let v = crate::text::chars_of(id);
    if crate::text::eq_str(&v, SHOW_ID) {
        Some(TrayAction::Show)
    } else if crate::text::eq_str(&v, START_ID) {
        Some(TrayAction::StartRecorder)
    } else if crate::text::eq_str(&v, STOP_ID) {
        Some(TrayAction::StopRecorder)
    } else if crate::text::eq_str(&v, SAVE_ID) {
        Some(TrayAction::SaveReplay)
    } else if crate::text::eq_str(&v, QUIT_ID) {
        Some(TrayAction::Quit)
    } else {
        None
    }
}

/// The kind of a pointer event on the tray icon.
#[derive(Clone, Copy, Debug, PartialEq, Eq, Structural)]
pub enum TrayClickKind {
    Click,
    DoubleClick,
    Other,
}

/// A pointer event on the tray icon: its kind, whether the left button was
/// used, and whether the button was released.
#[derive(Clone, Copy, Debug, PartialEq, Eq, Structural)]
pub struct TrayClick {
    pub kind: TrayClickKind,
    pub left: bool,
    pub released: bool,
}

/// A left click (on release) or a left double click shows the window.
pub open spec fn click_shows(c: TrayClick) -> bool {
    (c.kind == TrayClickKind::Click && c.left && c.released) || (c.kind == TrayClickKind::DoubleClick
        && c.left)
}

/// One `Show` per click that shows the window, in order.
pub open spec fn click_actions(clicks: Seq<TrayClick>) -> Seq<TrayAction>
    decreases clicks.len(),
{
    if clicks.len() == 0 {
        Seq::<TrayAction>::empty()
    } else if click_shows(clicks.last()) {
        click_actions(clicks.drop_last()).push(TrayAction::Show)
    } else {
        click_actions(clicks.drop_last())
    }
}

/// The actions of the menu entries chosen, in order; unknown ids are skipped.
pub open spec fn menu_actions(ids: Seq<Seq<char>>) -> Seq<TrayAction>
    decreases ids.len(),
{
    if ids.len() == 0 {
        Seq::<TrayAction>::empty()
    } else {
        match menu_action(ids.last()) {
            Some(a) => menu_actions(ids.drop_last()).push(a),
            None => menu_actions(ids.drop_last()),
        }
    }
}

/// The actions pending on the tray: those of the icon clicks, then those
/// of the menu events.
pub fn poll_actions(clicks: &Vec<TrayClick>, menu_ids: &Vec<String>) -> (r: Vec<TrayAction>)
    ensures
        r@ == click_actions(clicks@) + menu_actions(crate::text::string_views(menu_ids@)),
{
    let mut actions: Vec<TrayAction> = Vec::new();
    for i in 0..clicks.len()
        invariant
            actions@ == click_actions(clicks@.take(i as int)),
    {
        assert(clicks@.take(i + 1).drop_last() =~= clicks@.take(i as int));
        let c = clicks[i];
        let shows = match c.kind {
            TrayClickKind::Click => c.left && c.released,
            TrayClickKind::DoubleClick => c.left,
            TrayClickKind::Other => false,
        };
        if shows {
            actions.push(TrayAction::Show);
        }
    }
    assert(clicks@.take(clicks.len() as int) =~= clicks@);
    let ghost from_clicks = actions@;
    let ghost ids = crate::text::string_views(menu_ids@);
    for i in 0..menu_ids.len()
        invariant
            from_clicks == click_actions(clicks@),
            ids == crate::text::string_views(menu_ids@),
            actions@ == from_clicks + menu_actions(ids.take(i as int)),
    {
        assert(ids.take(i + 1).drop_last() =~= ids.take(i as int));
        assert(ids.take(i + 1).last() == menu_ids@[i as int]@);
        match action_for_menu_id(menu_ids[i].as_str()) {
            Some(a) => {
                actions.push(a);
                assert(actions@ =~= from_clicks + menu_actions(ids.take(i + 1)));
            },
            None => {},
        }
    }
    assert(ids.take(menu_ids.len() as int) =~= ids);
    actions
}

// ---------------------------------------------------------------------------
// Recording badge
// ---------------------------------------------------------------------------

/// Geometry of the badge on a `width` x `height` icon: its centre, and the
/// squared radii of the red dot and of its dark ring.
pub open spec fn badge_radius(width: u32, height: u32) -> int {
    let m = if width < height {
        width
    } else {
        height
    };
    let d = if m / 5 > 8 {
        m / 5
    } else {
        8
    };
    (d / 2) as int
}

pub open spec fn badge_center_x(width: u32, height: u32) -> int {
    let o = badge_radius(width, height) + 2;
    if width >= o + 2 {
        width - (o + 2)
    } else {
        0
    }
}

pub open spec fn badge_center_y(width: u32, height: u32) -> int {
    badge_radius(width, height) + 4
}

pub open spec fn dist2(x: int, y: int, cx: int, cy: int) -> int {
    (x - cx) * (x - cx) + (y - cy) * (y - cy)
}

pub open spec fn red() -> Seq<u8> {
    seq![235u8, 45u8, 55u8, 255u8]
}

pub open spec fn ring() -> Seq<u8> {
    seq![35u8, 20u8, 22u8, 255u8]
}

/// The RGBA value of pixel `(x, y)` after the badge is drawn over `pixels`.
pub open spec fn badge_pixel(pixels: Seq<u8>, width: u32, height: u32, x: int, y: int, c: int) -> u8 {
    let r = badge_radius(width, height);
    let o = r + 2;
    let d = dist2(x, y, badge_center_x(width, height), badge_center_y(width, height));
    if d <= r * r {
        red()[c]
    } else if d <= o * o {
        ring()[c]
    } else {
        pixels[(y * width + x) * 4 + c]
    }
}

proof fn lemma_index_bounds(x: int, y: int, w: int, h: int)
    requires
        0 <= x < w,
        0 <= y < h,
    ensures
        0 <= y * w + x < w * h,
        (y * w + x) * 4 + 3 < w * h * 4,
        (y * w + x) * 4 >= 0,
{
    assert(y * w + x < w * h) by (nonlinear_arith)
        requires
            0 <= x < w,
            0 <= y < h,
    ;
    assert(0 <= y * w) by (nonlinear_arith)
        requires
            0 <= y,
            0 <= w,
    ;
}

proof fn lemma_index_distinct(x1: int, y1: int, x2: int, y2: int, w: int)
    requires
        0 <= x1 < w,
        0 <= x2 < w,
        0 <= y1,
        0 <= y2,
        y1 * w + x1 == y2 * w + x2,
    ensures
        x1 == x2 && y1 == y2,
{
    if y1 < y2 {
        assert(y1 * w + w <= y2 * w) by (nonlinear_arith)
            requires
                y1 < y2,
                0 <= w,
        ;
    } else if y2 < y1 {
        assert(y2 * w + w <= y1 * w) by (nonlinear_arith)
            requires
                y2 < y1,
                0 <= w,
        ;
    }
}

/// `recording_icon_image` on raw RGBA rows: draws a red dot with a dark
/// ring near the top-right corner; every other pixel stays.
#[verifier::spinoff_prover]
#[verifier::rlimit(40)]
pub fn draw_recording_badge(pixels: &mut Vec<u8>, width: u32, height: u32)
    requires
        old(pixels)@.len() == width as int * height as int * 4,
        (if width < height {
            width
        } else {
            height
        }) < 655340,
    ensures
        final(pixels)@.len() == old(pixels)@.len(),
        width == 0 || height == 0 ==> final(pixels)@ == old(pixels)@,
        width > 0 && height > 0 ==> forall|x: int, y: int, c: int|
            0 <= x < width && 0 <= y < height && 0 <= c < 4 ==> #[trigger] final(pixels)@[(y * width
                + x) * 4 + c] == badge_pixel(old(pixels)@, width, height, x, y, c),
{
    if width == 0 || height == 0 {
        return;
    }
    let m = if width < height {
        width
    } else {
        height
    };
    let diameter = if m / 5 > 8 {
        m / 5
    } else {
        8
    };
    let radius = diameter / 2;
    let outer = radius + 2;
    assert(outer <= 65535);
    let cx: u32 = if width >= outer + 2 {
        width - (outer + 2)
    } else {
        0
    };
    let cy: u32 = outer + 2;
    assert(outer * outer <= 4294836225) by (nonlinear_arith)
        requires
            outer <= 65535,
    ;
    assert(radius * radius <= outer * outer) by (nonlinear_arith)
        requires
            radius <= outer,
    ;
    let outer_sq: i64 = (outer * outer) as i64;
    let radius_sq: i64 = (radius * radius) as i64;
    let y0: u32 = if cy >= outer {
        cy - outer
    } else {
        0
    };
    let y1: u32 = if cy + outer < height - 1 {
        cy + outer
    } else {
        height - 1
    };
    let x0: u32 = if cx >= outer {
        cx - outer
    } else {
        0
    };
    let x1: u32 = if cx + outer < width - 1 {
        cx + outer
    } else {
        width - 1
    };
    assert(x0 <= x1);
    let n: usize = pixels.len();
    let ghost orig = pixels@;
    let ghost w = width as int;
    let ghost h = height as int;
    let mut y = y0;
    while y <= y1
        invariant
            pixels@.len() == orig.len(),
            orig.len() == w * h * 4,
            w == width,
            h == height,
            width > 0,
            height > 0,
            y0 <= y,
            y1 < height,
            x0 <= x1 < width,
            outer <= 65535,
            radius == badge_radius(width, height),
            outer == radius + 2,
            cx == badge_center_x(width, height),
            cy == badge_center_y(width, height),
            outer_sq == outer * outer,
            radius_sq == radius * radius,
            radius_sq <= outer_sq,
            orig.len() == n,
            y0 as int == (if cy >= outer { cy - outer } else { 0 }),
            x0 as int == (if cx >= outer { cx - outer } else { 0 }),
            y1 as int == (if cy + outer < height - 1 { cy + outer } else { height - 1 }),
            x1 as int == (if cx + outer < width - 1 { cx + outer } else { width - 1 }),
            forall|px: int, py: int, c: int|
                0 <= px < w && 0 <= py < h && 0 <= c < 4 ==> #[trigger] pixels@[(py * w + px) * 4
                    + c] == if py < y && py >= y0 && px >= x0 && px <= x1 {
                    badge_pixel(orig, width, height, px, py, c)
                } else {
                    orig[(py * w + px) * 4 + c]
                },
        decreases y1 + 1 - y,
    {
        let mut x = x0;
        while x <= x1
            invariant
                pixels@.len() == orig.len(),
                orig.len() == w * h * 4,
                w == width,
                h == height,
                width > 0,
                height > 0,
                y0 <= y <= y1,
                y1 < height,
                x0 <= x <= x1 + 1,
                x1 < width,
                outer <= 65535,
                radius == badge_radius(width, height),
                outer == radius + 2,
                cx == badge_center_x(width, height),
                cy == badge_center_y(width, height),
                outer_sq == outer * outer,
                radius_sq == radius * radius,
                radius_sq <= outer_sq,
                orig.len() == n,
                y0 as int == (if cy >= outer { cy - outer } else { 0 }),
                x0 as int == (if cx >= outer { cx - outer } else { 0 }),
                y1 as int == (if cy + outer < height - 1 { cy + outer } else { height - 1 }),
                x1 as int == (if cx + outer < width - 1 { cx + outer } else { width - 1 }),
                forall|px: int, py: int, c: int|
                    0 <= px < w && 0 <= py < h && 0 <= c < 4 ==> #[trigger] pixels@[(py * w + px)
                        * 4 + c] == if (py < y && py >= y0 && px >= x0 && px <= x1) || (py == y
                        && px >= x0 && px < x) {
                        badge_pixel(orig, width, height, px, py, c)
                    } else {
                        orig[(py * w + px) * 4 + c]
                    },
            decreases x1 + 1 - x,
        {
            let dx: i64 = x as i64 - cx as i64;
            let dy: i64 = y as i64 - cy as i64;
            assert(-65536 < dx < 65536 && -65536 < dy < 65536);
            assert(0 <= dx * dx <= 4294967296) by (nonlinear_arith)
                requires
                    -65536 < dx < 65536,
            ;
            assert(0 <= dy * dy <= 4294967296) by (nonlinear_arith)
                requires
                    -65536 < dy < 65536,
            ;
            let d: i64 = dx * dx + dy * dy;
            proof {
                lemma_index_bounds(x as int, y as int, w, h);
            }
            let base: usize = ((y as usize) * (width as usize) + (x as usize)) * 4;
            if d <= outer_sq {
                let color: [u8; 4] = if d <= radius_sq {
                    [235u8, 45u8, 55u8, 255u8]
                } else {
                    [35u8, 20u8, 22u8, 255u8]
                };
                let ghost before = pixels@;
                pixels.set(base, color[0]);
                pixels.set(base + 1, color[1]);
                pixels.set(base + 2, color[2]);
                pixels.set(base + 3, color[3]);
                assert forall|px: int, py: int, c: int|
                    0 <= px < w && 0 <= py < h && 0 <= c < 4 implies #[trigger] pixels@[(py * w
                    + px) * 4 + c] == if (py < y && py >= y0 && px >= x0 && px <= x1) || (py == y
                    && px >= x0 && px < x + 1) {
                    badge_pixel(orig, width, height, px, py, c)
                } else {
                    orig[(py * w + px) * 4 + c]
                } by {
                    lemma_index_bounds(px, py, w, h);
                    if px == x && py == y {
                        assert(d == dist2(px, py, cx as int, cy as int));
                    } else {
                        if (py * w + px) == (y * w + x) {
                            lemma_index_distinct(px, py, x as int, y as int, w);
                        }
                        assert(pixels@[(py * w + px) * 4 + c] == before[(py * w + px) * 4 + c]);
                    }
                }
            } else {
                assert forall|px: int, py: int, c: int|
                    0 <= px < w && 0 <= py < h && 0 <= c < 4 implies #[trigger] pixels@[(py * w
                    + px) * 4 + c] == if (py < y && py >= y0 && px >= x0 && px <= x1) || (py == y
                    && px >= x0 && px < x + 1) {
                    badge_pixel(orig, width, height, px, py, c)
                } else {
                    orig[(py * w + px) * 4 + c]
                } by {
                    if px == x && py == y {
                        assert(d == dist2(px, py, cx as int, cy as int));
                    }
                }
            }
            x = x + 1;
        }
        y = y + 1;
    }
    assert forall|x: int, y: int, c: int|
        0 <= x < width && 0 <= y < height && 0 <= c < 4 implies #[trigger] pixels@[(y * width + x)
        * 4 + c] == badge_pixel(orig, width, height, x, y, c) by {
        if !(y >= y0 && y <= y1 && x >= x0 && x <= x1) {
            lemma_outside_window(width, height, x, y);
        }
    }
}

/// The tray's recording icon: a copy of the RGBA rows of a `width` x
/// `height` icon with the recording badge drawn on it.
pub fn recording_icon_image(image: &Vec<u8>, width: u32, height: u32) -> (r: Vec<u8>)
    requires
        image@.len() == width as int * height as int * 4,
        (if width < height {
            width
        } else {
            height
        }) < 655340,
    ensures
        r@.len() == image@.len(),
        width == 0 || height == 0 ==> r@ == image@,
        width > 0 && height > 0 ==> forall|x: int, y: int, c: int|
            0 <= x < width && 0 <= y < height && 0 <= c < 4 ==> #[trigger] r@[(y * width + x) * 4
                + c] == badge_pixel(image@, width, height, x, y, c),
{
    let mut recording = image.clone();
    draw_recording_badge(&mut recording, width, height);
    recording
}

/// Pixels outside the drawn window are farther than the ring.
proof fn lemma_outside_window(width: u32, height: u32, x: int, y: int)
    requires
        width > 0,
        height > 0,
        0 <= x < width,
        0 <= y < height,
        ({
            let o = badge_radius(width, height) + 2;
            let cx = badge_center_x(width, height);
            let cy = badge_center_y(width, height);
            !(y >= (if cy >= o { cy - o } else { 0 }) && y <= (if cy + o < height - 1 { cy + o } else { height - 1 })
                && x >= (if cx >= o { cx - o } else { 0 }) && x <= (if cx + o < width - 1 { cx + o } else { width - 1 }))
        }),
    ensures
        dist2(x, y, badge_center_x(width, height), badge_center_y(width, height)) > (badge_radius(
            width,
            height,
        ) + 2) * (badge_radius(width, height) + 2),
{
    let o = badge_radius(width, height) + 2;
    let cx = badge_center_x(width, height);
    let cy = badge_center_y(width, height);
    let dx = x - cx;
    let dy = y - cy;
    assert(o >= 0);
    if dx > o || dx < -o {
        assert(dx * dx > o * o) by (nonlinear_arith)
            requires
                dx > o || dx < -o,
                o >= 0,
        ;
        assert(dy * dy >= 0) by (nonlinear_arith);
    } else {
        assert(dy > o || dy < -o);
        assert(dy * dy > o * o) by (nonlinear_arith)
            requires
                dy > o || dy < -o,
                o >= 0,
        ;
        assert(dx * dx >= 0) by (nonlinear_arith);
    }
}


/// The recording icon shows a red dot: on any icon tall enough to hold the
/// badge's centre, the pixel there is red.
pub proof fn lemma_recording_badge_has_red_dot(pixels: Seq<u8>, width: u32, height: u32)
    requires
        width > 0,
        badge_center_y(width, height) < height,
    ensures
        ({
            let x = badge_center_x(width, height);
            let y = badge_center_y(width, height);
            &&& badge_pixel(pixels, width, height, x, y, 0) == 235u8
            &&& badge_pixel(pixels, width, height, x, y, 1) == 45u8
            &&& badge_pixel(pixels, width, height, x, y, 2) == 55u8
            &&& badge_pixel(pixels, width, height, x, y, 3) == 255u8
        }),
{
    let r = badge_radius(width, height);
    let x = badge_center_x(width, height);
    let y = badge_center_y(width, height);
    assert(dist2(x, y, x, y) == 0);
    assert(r * r >= 0) by (nonlinear_arith);
}

} // verus!
