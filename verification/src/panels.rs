//! The panels beside the conversation: which are shown, how wide they are, and how a
//! drag of their edge changes that. Lengths count sixty-fourths of a pixel.
use vstd::prelude::*;

verus! {

/// Half a pixel: a smaller change of a width is not drawn.
pub const HALF_PIXEL: i64 = 32;

/// An edge that can be dragged.
#[derive(Clone, Copy, Debug, PartialEq, Eq, Structural)]
pub enum PanelResizeTarget {
    Sidebar,
    RightPanel,
    FileTree,
}

/// A drag of an edge under way.
#[derive(Clone, Copy, Debug, PartialEq, Eq, Structural)]
pub struct PanelResizeDrag {
    pub target: PanelResizeTarget,
    pub start_mouse_x: i32,
    pub start_width: i32,
}

/// How narrow and how wide panels may be.
#[derive(Clone, Copy, Debug, PartialEq, Eq, Structural)]
pub struct PanelLimits {
    pub sidebar_min: i32,
    pub sidebar_max: i32,
    pub right_panel_min: i32,
    pub right_panel_max: i32,
    pub file_tree_min: i32,
    pub file_tree_max: i32,
    /// What the conversation keeps.
    pub main_min: i32,
    /// What the editor beside the file tree keeps.
    pub file_editor_min: i32,
}

/// The panels of the window.
#[derive(Clone, Copy, Debug, PartialEq, Eq, Structural)]
pub struct Panels {
    pub sidebar_visible: bool,
    pub right_panel_visible: bool,
    pub sidebar_width: i32,
    pub right_panel_width: i32,
    pub file_tree_width: i32,
    pub drag: Option<PanelResizeDrag>,
}

/// What a change of the panels asks of the host.
#[derive(Clone, Copy, Debug, PartialEq, Eq, Structural)]
pub struct PanelChange {
    /// Draw again.
    pub draw: bool,
    /// Write the layout to disk.
    pub persist: bool,
}

/// Nothing is asked of the host.
pub open spec fn no_change() -> PanelChange {
    PanelChange { draw: false, persist: false }
}

/// The lesser of two lengths.
pub open spec fn lesser(a: int, b: int) -> int {
    if a <= b {
        a
    } else {
        b
    }
}

/// The greater of two lengths.
pub open spec fn greater(a: int, b: int) -> int {
    if a >= b {
        a
    } else {
        b
    }
}

/// A length kept between two others.
pub open spec fn kept_within(x: int, low: int, high: int) -> int {
    if x < low {
        low
    } else if x > high {
        high
    } else {
        x
    }
}

/// How far two lengths are apart.
pub open spec fn apart(a: int, b: int) -> int {
    if a >= b {
        a - b
    } else {
        b - a
    }
}

/// How wide a panel may be drawn at most: its own limit, or what the room leaves, but
/// never less than its least width.
pub open spec fn widest(limit: int, room: int, least: int) -> int {
    greater(lesser(limit, room), least)
}

/// The width that a drag gives: the start, moved with the mouse, within the limits.
pub open spec fn dragged_width(moved: int, limit: int, room: int, least: int) -> int {
    kept_within(moved, least, widest(limit, room, least))
}

fn drag_width(moved: i64, limit: i32, room: i64, least: i32) -> (r: i32)
    ensures
        r == dragged_width(moved as int, limit as int, room as int, least as int),
{
    let narrow: i64 = if (limit as i64) <= room {
        limit as i64
    } else {
        room
    };
    let most: i64 = if narrow >= least as i64 {
        narrow
    } else {
        least as i64
    };
    let width: i64 = if moved < least as i64 {
        least as i64
    } else if moved > most {
        most
    } else {
        moved
    };
    width as i32
}

fn near(a: i32, b: i32) -> (r: bool)
    ensures
        r == (apart(a as int, b as int) < HALF_PIXEL),
{
    let a: i64 = a as i64;
    let b: i64 = b as i64;
    if a >= b {
        a - b < HALF_PIXEL
    } else {
        b - a < HALF_PIXEL
    }
}

impl Panels {
    /// The width that the mouse asks for while it drags. `fitted` are the widths of the
    /// sidebar and of the right panel as they are drawn.
    pub open spec fn asked_width(self, mouse_x: i32, viewport: i32, fitted: (i32, i32), limits: PanelLimits) -> int {
        let drag = self.drag->0;
        let delta = mouse_x - drag.start_mouse_x;
        match drag.target {
            PanelResizeTarget::Sidebar => dragged_width(
                drag.start_width + delta,
                limits.sidebar_max as int,
                viewport - limits.main_min - fitted.1,
                limits.sidebar_min as int,
            ),
            PanelResizeTarget::RightPanel => dragged_width(
                drag.start_width - delta,
                limits.right_panel_max as int,
                viewport - limits.main_min - fitted.0,
                limits.right_panel_min as int,
            ),
            PanelResizeTarget::FileTree => dragged_width(
                drag.start_width - delta,
                limits.file_tree_max as int,
                fitted.1 - limits.file_editor_min,
                limits.file_tree_min as int,
            ),
        }
    }

    /// The width of a panel.
    pub open spec fn width_of(self, target: PanelResizeTarget) -> i32 {
        match target {
            PanelResizeTarget::Sidebar => self.sidebar_width,
            PanelResizeTarget::RightPanel => self.right_panel_width,
            PanelResizeTarget::FileTree => self.file_tree_width,
        }
    }

    /// The panels with another width of one.
    pub open spec fn with_width(self, target: PanelResizeTarget, width: i32) -> Panels {
        match target {
            PanelResizeTarget::Sidebar => Panels { sidebar_width: width, ..self },
            PanelResizeTarget::RightPanel => Panels { right_panel_width: width, ..self },
            PanelResizeTarget::FileTree => Panels { file_tree_width: width, ..self },
        }
    }

    /// Shows or hides the sidebar.
    pub fn set_sidebar_visible(&mut self, visible: bool) -> (r: PanelChange)
        ensures
            *final(self) == (Panels { sidebar_visible: visible, ..*old(self) }),
            r.draw == (old(self).sidebar_visible != visible),
            r.persist == r.draw,
    {
        let changed = self.sidebar_visible != visible;
        self.sidebar_visible = visible;
        PanelChange { draw: changed, persist: changed }
    }

    /// Shows the sidebar where it is hidden, and hides it where it is shown.
    pub fn toggle_sidebar_action(&mut self) -> (r: PanelChange)
        ensures
            *final(self) == (Panels { sidebar_visible: !old(self).sidebar_visible, ..*old(self) }),
            r == (PanelChange { draw: true, persist: true }),
    {
        let visible = !self.sidebar_visible;
        self.set_sidebar_visible(visible)
    }

    /// Shows or hides the right panel.
    pub fn set_right_panel_visible(&mut self, visible: bool) -> (r: PanelChange)
        ensures
            *final(self) == (Panels { right_panel_visible: visible, ..*old(self) }),
            r.draw == (old(self).right_panel_visible != visible),
            r.persist == r.draw,
    {
        let changed = self.right_panel_visible != visible;
        self.right_panel_visible = visible;
        PanelChange { draw: changed, persist: changed }
    }

    /// Starts to drag an edge. `fitted` are the widths of the sidebar and of the right
    /// panel as they are drawn, `fitted_tree` that of the file tree.
    pub fn begin_panel_resize(
        &mut self,
        target: PanelResizeTarget,
        mouse_x: i32,
        fitted: (i32, i32),
        fitted_tree: i32,
    )
        ensures
            ({
                let width = match target {
                    PanelResizeTarget::Sidebar => fitted.0,
                    PanelResizeTarget::RightPanel => fitted.1,
                    PanelResizeTarget::FileTree => fitted_tree,
                };
                *final(self) == (Panels {
                    drag: Some(PanelResizeDrag { target, start_mouse_x: mouse_x, start_width: width }),
                    ..old(self).with_width(target, width)
                })
            }),
    {
        let width = match target {
            PanelResizeTarget::Sidebar => {
                self.sidebar_width = fitted.0;
                fitted.0
            },
            PanelResizeTarget::RightPanel => {
                self.right_panel_width = fitted.1;
                fitted.1
            },
            PanelResizeTarget::FileTree => {
                self.file_tree_width = fitted_tree;
                fitted_tree
            },
        };
        self.drag = Some(PanelResizeDrag { target, start_mouse_x: mouse_x, start_width: width });
    }

    /// The mouse moves while it drags an edge; whether to draw again.
    pub fn resize_panel_mouse_move(&mut self, mouse_x: i32, viewport: i32, fitted: (i32, i32), limits: PanelLimits) -> (r: bool)
        ensures
            old(self).drag is None ==> !r && *final(self) == *old(self),
            old(self).drag matches Some(drag) ==> {
                let width = old(self).asked_width(mouse_x, viewport, fitted, limits);
                &&& r == (apart(old(self).width_of(drag.target) as int, width) >= HALF_PIXEL)
                &&& *final(self) == (if r {
                    old(self).with_width(drag.target, width as i32)
                } else {
                    *old(self)
                })
            },
    {
        let drag = match self.drag {
            Some(drag) => drag,
            None => {
                return false;
            },
        };
        let delta: i64 = mouse_x as i64 - drag.start_mouse_x as i64;
        let start: i64 = drag.start_width as i64;
        match drag.target {
            PanelResizeTarget::Sidebar => {
                let room: i64 = viewport as i64 - limits.main_min as i64 - fitted.1 as i64;
                let width = drag_width(start + delta, limits.sidebar_max, room, limits.sidebar_min);
                if near(self.sidebar_width, width) {
                    return false;
                }
                self.sidebar_width = width;
            },
            PanelResizeTarget::RightPanel => {
                let room: i64 = viewport as i64 - limits.main_min as i64 - fitted.0 as i64;
                let width = drag_width(start - delta, limits.right_panel_max, room, limits.right_panel_min);
                if near(self.right_panel_width, width) {
                    return false;
                }
                self.right_panel_width = width;
            },
            PanelResizeTarget::FileTree => {
                let room: i64 = fitted.1 as i64 - limits.file_editor_min as i64;
                let width = drag_width(start - delta, limits.file_tree_max, room, limits.file_tree_min);
                if near(self.file_tree_width, width) {
                    return false;
                }
                self.file_tree_width = width;
            },
        }
        true
    }

    /// A mouse button is let go. The left one ends a drag; the width of the file tree
    /// is not written to disk.
    pub fn finish_panel_resize(&mut self, left_button: bool) -> (r: PanelChange)
        ensures
            r == (match old(self).drag {
                Some(drag) if left_button => PanelChange {
                    draw: true,
                    persist: drag.target != PanelResizeTarget::FileTree,
                },
                _ => no_change(),
            }),
            *final(self) == (Panels {
                drag: if left_button {
                    None
                } else {
                    old(self).drag
                },
                ..*old(self)
            }),
    {
        if !left_button {
            return PanelChange { draw: false, persist: false };
        }
        let drag = self.drag;
        self.drag = None;
        match drag {
            Some(drag) => PanelChange { draw: true, persist: drag.target != PanelResizeTarget::FileTree },
            None => PanelChange { draw: false, persist: false },
        }
    }

    /// The width that is left for the conversation.
    pub fn chat_viewport_width(&self, viewport: i32, fitted: (i32, i32)) -> (r: i64)
        ensures
            r == viewport - (if self.sidebar_visible {
                fitted.0 as int
            } else {
                0
            }) - (if self.right_panel_visible {
                fitted.1 as int
            } else {
                0
            }),
    {
        let left: i64 = if self.sidebar_visible {
            fitted.0 as i64
        } else {
            0
        };
        let right: i64 = if self.right_panel_visible {
            fitted.1 as i64
        } else {
            0
        };
        viewport as i64 - left - right
    }

    /// Whether the handle of an edge is drawn as dragged.
    pub fn render_panel_resize_handle(&self, target: PanelResizeTarget) -> (r: bool)
        ensures
            r == (self.drag matches Some(drag) && drag.target == target),
    {
        match self.drag {
            Some(drag) => drag.target == target,
            None => false,
        }
    }
}

/// A drag leaves a panel no narrower than its least width, and no wider than its limit
/// and the room allow, where these leave room for the least width at all.
pub proof fn drags_keep_the_limits(moved: int, limit: int, room: int, least: int)
    ensures
        dragged_width(moved, limit, room, least) >= least,
        least <= lesser(limit, room) ==> dragged_width(moved, limit, room, least) <= lesser(limit, room),
{
}

/// Where the limits leave room, a drag that goes out and comes back to where it started
/// leaves the width that it started with.
pub proof fn drags_return(panels: Panels, viewport: i32, fitted: (i32, i32), limits: PanelLimits)
    requires
        panels.drag matches Some(drag) && drag.target == PanelResizeTarget::Sidebar && limits.sidebar_min
            <= drag.start_width <= lesser(limits.sidebar_max as int, viewport - limits.main_min - fitted.1),
    ensures
        panels.drag matches Some(drag) && panels.asked_width(drag.start_mouse_x, viewport, fitted, limits)
            == drag.start_width,
{
}

/// The frame rate, counted over a second.
#[derive(Clone, Copy, Debug, PartialEq, Eq, Structural)]
pub struct FpsCounter {
    pub visible: bool,
    pub value: u32,
    pub frames: u32,
    /// When the count was started, in milliseconds.
    pub since: u64,
}

/// How a frame rate is judged.
#[derive(Clone, Copy, Debug, PartialEq, Eq, Structural)]
pub enum FpsGrade {
    Unknown,
    Good,
    Fair,
    Poor,
}

impl FpsCounter {
    /// The counter once a frame was drawn at this time.
    pub open spec fn ticked(self, now: u64) -> FpsCounter {
        let frames = if self.frames < u32::MAX {
            (self.frames + 1) as u32
        } else {
            self.frames
        };
        if now - self.since >= 1000 {
            FpsCounter { value: frames, frames: 0, since: now, ..self }
        } else {
            FpsCounter { frames, ..self }
        }
    }

    /// Counts a frame that is drawn at this time.
    pub fn tick_fps(&mut self, now: u64)
        ensures
            *final(self) == old(self).ticked(now),
    {
        self.frames = self.frames.saturating_add(1);
        if now >= self.since && now - self.since >= 1000 {
            self.value = self.frames;
            self.frames = 0;
            self.since = now;
        }
    }

    /// Shows the counter where it is hidden, and hides it where it is shown.
    pub fn toggle_fps_counter_action(&mut self)
        ensures
            *final(self) == (FpsCounter { visible: !old(self).visible, ..*old(self) }),
    {
        self.visible = !self.visible;
    }

    /// How the frame rate is judged.
    pub fn render_fps_counter(&self) -> (r: FpsGrade)
        ensures
            r == (if self.value == 0 {
                FpsGrade::Unknown
            } else if self.value >= 55 {
                FpsGrade::Good
            } else if self.value >= 30 {
                FpsGrade::Fair
            } else {
                FpsGrade::Poor
            }),
    {
        if self.value == 0 {
            FpsGrade::Unknown
        } else if self.value >= 55 {
            FpsGrade::Good
        } else if self.value >= 30 {
            FpsGrade::Fair
        } else {
            FpsGrade::Poor
        }
    }
}

} // verus!
