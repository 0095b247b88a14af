//! Scrolling a viewport over a larger surface so that a region shows.
use vstd::prelude::*;

verus! {

/// A point with unsigned coordinates (a scroll offset).
#[derive(Debug, Clone, Copy, PartialEq, Eq, Structural)]
pub struct UPoint {
    pub x: u32,
    pub y: u32,
}

/// A size with unsigned dimensions.
#[derive(Debug, Clone, Copy, PartialEq, Eq, Structural)]
pub struct USize {
    pub width: u32,
    pub height: u32,
}

/// A rectangle with signed coordinates: its origin and its size.
#[derive(Debug, Clone, Copy, PartialEq, Eq, Structural)]
pub struct PxRect {
    pub x: i32,
    pub y: i32,
    pub width: i32,
    pub height: i32,
}

/// What drives a scrolled area: its offset, the size of its viewport, the
/// largest offset, and the widget that scrolls.
#[derive(Debug, Clone, Copy)]
pub struct ScrollController {
    pub scroll: UPoint,
    pub control_size: USize,
    pub max_scroll: UPoint,
    pub scroll_id: u64,
}

/// `p` lies in `[o, o + s)`.
pub open spec fn within(o: int, s: int, p: int) -> bool {
    o <= p < o + s
}

pub open spec fn clamp(v: int, lo: int, hi: int) -> int {
    if v < lo {
        lo
    } else if v > hi {
        hi
    } else {
        v
    }
}

/// The new offset along one axis: the region's start where it begins before
/// the viewport, its end where it ends past the viewport, the offset
/// otherwise, kept within `[0, max]`.
pub open spec fn axis_scroll(ro: int, rs: int, vo: int, vs: int, max: int) -> int {
    let raw = if ro <= vo {
        ro
    } else if ro + rs >= vo + vs {
        ro + rs - vs
    } else {
        vo
    };
    clamp(raw, 0, max)
}

impl ScrollController {
    /// The region's origin and its far corner both lie in the viewport.
    pub open spec fn shows(self, r: PxRect) -> bool {
        let vx = self.scroll.x as int;
        let vy = self.scroll.y as int;
        let w = self.control_size.width as int;
        let h = self.control_size.height as int;
        &&& within(vx, w, r.x as int)
        &&& within(vy, h, r.y as int)
        &&& within(vx, w, r.x + r.width)
        &&& within(vy, h, r.y + r.height)
    }

    /// The offset that brings the region `r` into view.
    pub open spec fn region_scroll(self, r: PxRect) -> UPoint {
        UPoint {
            x: axis_scroll(
                r.x as int,
                r.width as int,
                self.scroll.x as int,
                self.control_size.width as int,
                self.max_scroll.x as int,
            ) as u32,
            y: axis_scroll(
                r.y as int,
                r.height as int,
                self.scroll.y as int,
                self.control_size.height as int,
                self.max_scroll.y as int,
            ) as u32,
        }
    }

    /// The offset after `make_region_visible(r)`.
    pub open spec fn visible_scroll(self, r: PxRect) -> UPoint {
        if self.shows(r) {
            self.scroll
        } else {
            self.region_scroll(r)
        }
    }

    /// The coordinates stay in the signed range once the viewport and the
    /// region are added up.
    pub open spec fn in_range(self, r: PxRect) -> bool {
        &&& self.scroll.x + self.control_size.width <= i32::MAX
        &&& self.scroll.y + self.control_size.height <= i32::MAX
        &&& self.max_scroll.x <= i32::MAX
        &&& self.max_scroll.y <= i32::MAX
        &&& i32::MIN <= r.x + r.width <= i32::MAX
        &&& i32::MIN <= r.y + r.height <= i32::MAX
    }

    pub fn new(scroll: UPoint, control_size: USize, max_scroll: UPoint, scroll_id: u64) -> (r: Self)
        ensures
            r.scroll == scroll,
            r.control_size == control_size,
            r.max_scroll == max_scroll,
            r.scroll_id == scroll_id,
    {
        ScrollController { scroll, control_size, max_scroll, scroll_id }
    }

    /// Scrolls so that the region `r` shows, unless it already does: along
    /// each axis the viewport starts at the region where the region begins
    /// before it, ends at the region's end where the region ends past it,
    /// and stays otherwise, the offset kept between 0 and the largest one.
    pub fn make_region_visible(&mut self, r: PxRect)
        requires
            old(self).in_range(r),
        ensures
            final(self).scroll == old(self).visible_scroll(r),
            final(self).control_size == old(self).control_size,
            final(self).max_scroll == old(self).max_scroll,
            final(self).scroll_id == old(self).scroll_id,
    {
        let vx = self.scroll.x as i64;
        let vy = self.scroll.y as i64;
        let w = self.control_size.width as i64;
        let h = self.control_size.height as i64;
        let rx = r.x as i64;
        let ry = r.y as i64;
        let ex = rx + r.width as i64;
        let ey = ry + r.height as i64;
        if vx <= rx && rx < vx + w && vy <= ry && ry < vy + h && vx <= ex && ex < vx + w && vy <= ey
            && ey < vy + h {
            return ;
        }
        let x = Self::axis(rx, r.width as i64, vx, w, self.max_scroll.x as i64);
        let y = Self::axis(ry, r.height as i64, vy, h, self.max_scroll.y as i64);
        self.scroll = UPoint { x: x as u32, y: y as u32 };
    }

    fn axis(ro: i64, rs: i64, vo: i64, vs: i64, max: i64) -> (r: i64)
        requires
            i32::MIN <= ro <= i32::MAX,
            i32::MIN <= rs <= i32::MAX,
            0 <= vo,
            0 <= vs,
            vo + vs <= i32::MAX,
            0 <= max <= i32::MAX,
        ensures
            r == axis_scroll(ro as int, rs as int, vo as int, vs as int, max as int),
            0 <= r <= max,
    {
        let raw = if ro <= vo {
            ro
        } else if ro + rs >= vo + vs {
            ro + rs - vs
        } else {
            vo
        };
        if raw < 0 {
            0
        } else if raw > max {
            max
        } else {
            raw
        }
    }

    /// Scrolls to the offset `scroll`.
    pub fn scroll_to(&mut self, scroll: UPoint)
        ensures
            final(self).scroll == scroll,
            final(self).control_size == old(self).control_size,
            final(self).max_scroll == old(self).max_scroll,
            final(self).scroll_id == old(self).scroll_id,
    {
        self.scroll = scroll;
    }

    /// The current offset.
    pub fn scroll(&self) -> (r: UPoint)
        ensures
            r == self.scroll,
    {
        self.scroll
    }

    /// The widget that a mouse wheel event over the area is handed to.
    pub fn mouse_wheel(&self) -> (r: u64)
        ensures
            r == self.scroll_id,
    {
        self.scroll_id
    }
}

proof fn lemma_axis_idempotent(ro: int, rs: int, vo: int, vs: int, max: int)
    requires
        0 <= rs < vs,
        0 <= vo <= max,
    ensures
        axis_scroll(ro, rs, axis_scroll(ro, rs, vo, vs, max), vs, max) == axis_scroll(
            ro,
            rs,
            vo,
            vs,
            max,
        ),
        0 <= axis_scroll(ro, rs, vo, vs, max) <= max,
{
}

/// Making a region visible a second time changes nothing, for a region
/// smaller than the viewport and an offset within the largest one.
pub proof fn lemma_make_region_visible_idempotent(c: ScrollController, r: PxRect)
    requires
        c.in_range(r),
        0 <= r.width < c.control_size.width,
        0 <= r.height < c.control_size.height,
        c.scroll.x <= c.max_scroll.x,
        c.scroll.y <= c.max_scroll.y,
    ensures
        (ScrollController { scroll: c.visible_scroll(r), ..c }).visible_scroll(r) == c.visible_scroll(r),
{
    lemma_axis_idempotent(
        r.x as int,
        r.width as int,
        c.scroll.x as int,
        c.control_size.width as int,
        c.max_scroll.x as int,
    );
    lemma_axis_idempotent(
        r.y as int,
        r.height as int,
        c.scroll.y as int,
        c.control_size.height as int,
        c.max_scroll.y as int,
    );
}

proof fn lemma_axis_brings_into_view(ro: int, rs: int, vo: int, vs: int, max: int)
    requires
        0 <= rs <= vs,
        0 <= ro,
        ro + rs <= max + vs,
        0 <= vo,
        0 <= max,
    ensures
        ({
            let v = axis_scroll(ro, rs, vo, vs, max);
            v <= ro && ro + rs <= v + vs
        }),
{
}

/// After `make_region_visible`, a region no larger than the viewport lies
/// in the viewport along each axis where the largest offset allows it (the
/// region starts at or after 0 and ends no further than the largest offset
/// plus the viewport's size): its origin is at or after the viewport's
/// origin and its far corner (origin plus size) at or before the viewport's
/// far corner. Where the offset is left as it was, the region already lay
/// there.
pub proof fn lemma_make_region_visible_shows(c: ScrollController, r: PxRect)
    requires
        0 <= r.width <= c.control_size.width,
        0 <= r.height <= c.control_size.height,
        0 <= r.x,
        0 <= r.y,
        r.x + r.width <= c.max_scroll.x + c.control_size.width,
        r.y + r.height <= c.max_scroll.y + c.control_size.height,
    ensures
        ({
            let v = c.visible_scroll(r);
            &&& v.x <= r.x && r.x + r.width <= v.x + c.control_size.width
            &&& v.y <= r.y && r.y + r.height <= v.y + c.control_size.height
        }),
{
    if !c.shows(r) {
        lemma_axis_brings_into_view(
            r.x as int,
            r.width as int,
            c.scroll.x as int,
            c.control_size.width as int,
            c.max_scroll.x as int,
        );
        lemma_axis_brings_into_view(
            r.y as int,
            r.height as int,
            c.scroll.y as int,
            c.control_size.height as int,
            c.max_scroll.y as int,
        );
    }
}

/// A region that already shows stays where it is.
pub proof fn lemma_shown_region_stays(c: ScrollController, r: PxRect)
    requires
        c.shows(r),
    ensures
        c.visible_scroll(r) == c.scroll,
{
}

/// A widget whose content scrolls under a controller.
pub struct Scrollable<W> {
    pub child: W,
    pub controller: ScrollController,
}

impl<W> Scrollable<W> {
    pub fn new(child: W, controller: ScrollController) -> (r: Self)
        ensures
            r.child == child,
            r.controller.scroll == controller.scroll,
            r.controller.control_size == controller.control_size,
            r.controller.max_scroll == controller.max_scroll,
            r.controller.scroll_id == controller.scroll_id,
    {
        Scrollable { child, controller }
    }
}

} // verus!
