use vstd::prelude::*;

verus! {

/// A rectangle in screen coordinates, as the host environment reports it:
/// `left`/`top` is the upper-left corner, `right`/`bottom` the lower-right.
#[derive(Clone, Copy, PartialEq, Eq, Structural, Debug)]
pub struct Rect {
    pub left: i32,
    pub top: i32,
    pub right: i32,
    pub bottom: i32,
}

impl Rect {
    /// A rectangle is well formed when its corners are ordered.
    pub open spec fn wf(self) -> bool {
        self.left <= self.right && self.top <= self.bottom
    }

    /// Width of the rectangle, as a mathematical integer.
    pub open spec fn spec_width(self) -> int {
        self.right - self.left
    }

    /// Height of the rectangle, as a mathematical integer.
    pub open spec fn spec_height(self) -> int {
        self.bottom - self.top
    }
}

/// The part of the host environment a tick reads: the available work area
/// and the full screen width.
#[derive(Clone, Copy, PartialEq, Eq, Structural, Debug)]
pub struct HostEnv {
    pub work_area: Rect,
    pub screen_width: i32,
}

impl HostEnv {
    /// The environment is usable when the work area is a proper rectangle and
    /// placing a window of width up to `max_width` at the top-right corner
    /// stays within the range of screen coordinates.
    pub open spec fn fits(self, width: int) -> bool {
        &&& self.work_area.wf()
        &&& width <= i32::MAX
        &&& self.screen_width - width >= i32::MIN
    }
}

/// Where a matched entity is sent: the top-right corner of the work area,
/// keeping the entity's own width and spanning the full work-area height.
pub open spec fn spec_target_rect(entity_rect: Rect, env: HostEnv) -> Rect {
    Rect {
        left: (env.screen_width - entity_rect.spec_width()) as i32,
        top: env.work_area.top,
        right: env.screen_width,
        bottom: env.work_area.bottom,
    }
}

/// Compute the placement rectangle for one entity: flush against the right
/// screen edge, at the top of the work area, spanning the work area's height.
pub fn target_rect(entity_rect: &Rect, env: &HostEnv) -> (r: Rect)
    requires
        entity_rect.wf(),
        env.fits(entity_rect.spec_width()),
    ensures
        r == spec_target_rect(*entity_rect, *env),
        r.left == env.screen_width - entity_rect.spec_width(),
        r.top == env.work_area.top,
        r.right == env.screen_width,
        r.bottom == env.work_area.bottom,
        r.wf(),
        r.spec_width() == entity_rect.spec_width(),
        r.spec_height() == env.work_area.spec_height(),
{
    let width = entity_rect.right - entity_rect.left;
    Rect {
        left: env.screen_width - width,
        top: env.work_area.top,
        right: env.screen_width,
        bottom: env.work_area.bottom,
    }
}

} // verus!
