//! The tabs of the right panel: what they show, how they are named, and how they scroll.
use vstd::prelude::*;

use crate::file_types::{after_slash, base_name, file_icon_for_path, name_of, path_icon, slash_tail};
use crate::ids::Uuid;
use crate::panels::kept_within;
use crate::text::{opt_str, same};

verus! {

/// What a tab shows.
#[derive(Debug)]
pub enum RightPanelSurface {
    Browser(Uuid),
    Terminal(Uuid),
    Files,
    Diff,
    /// A file of the workspace, by its path in it.
    File(String),
}

/// What a [`RightPanelSurface`] holds.
#[verifier::ext_equal]
pub ghost enum SurfaceView {
    Browser(Uuid),
    Terminal(Uuid),
    Files,
    Diff,
    File(Seq<char>),
}

impl View for RightPanelSurface {
    type V = SurfaceView;

    open spec fn view(&self) -> SurfaceView {
        match self {
            RightPanelSurface::Browser(id) => SurfaceView::Browser(*id),
            RightPanelSurface::Terminal(id) => SurfaceView::Terminal(*id),
            RightPanelSurface::Files => SurfaceView::Files,
            RightPanelSurface::Diff => SurfaceView::Diff,
            RightPanelSurface::File(path) => SurfaceView::File(path@),
        }
    }
}

/// What a list of them holds.
pub open spec fn surface_views(s: Seq<RightPanelSurface>) -> Seq<SurfaceView> {
    s.map_values(|x: RightPanelSurface| x@)
}

impl Clone for RightPanelSurface {
    /// A second value that holds the same.
    fn clone(&self) -> (r: RightPanelSurface)
        ensures
            r@ == self@,
    {
        match self {
            RightPanelSurface::Browser(id) => RightPanelSurface::Browser(*id),
            RightPanelSurface::Terminal(id) => RightPanelSurface::Terminal(*id),
            RightPanelSurface::Files => RightPanelSurface::Files,
            RightPanelSurface::Diff => RightPanelSurface::Diff,
            RightPanelSurface::File(path) => RightPanelSurface::File(path.clone()),
        }
    }
}

impl SurfaceView {
    /// The terminal that a tab shows.
    pub open spec fn terminal(self) -> Option<Uuid> {
        match self {
            SurfaceView::Terminal(id) => Some(id),
            _ => None,
        }
    }

    /// The name of a tab.
    pub open spec fn label(self) -> Seq<char> {
        match self {
            SurfaceView::Browser(_) => "Browser"@,
            SurfaceView::Terminal(_) => "Terminal"@,
            SurfaceView::Files => "Files"@,
            SurfaceView::Diff => "Diff"@,
            SurfaceView::File(path) => after_slash(path),
        }
    }

    /// The icon of a tab.
    pub open spec fn icon(self) -> Seq<char> {
        match self {
            SurfaceView::Browser(_) => "icons/globe.svg"@,
            SurfaceView::Terminal(_) => "icons/terminal.svg"@,
            SurfaceView::Files => "icons/folder.svg"@,
            SurfaceView::Diff => "icons/file-diff.svg"@,
            SurfaceView::File(path) => path_icon(path),
        }
    }

    /// There is only one tab of it.
    pub open spec fn single(self) -> bool {
        self is Files || self is Diff || self is File
    }

    /// The surface shows files of the workspace.
    pub open spec fn shows_files(self) -> bool {
        self is Files || self is File
    }
}

impl RightPanelSurface {
    /// A browser of its own.
    pub fn new_browser() -> (r: RightPanelSurface)
        ensures
            r@ matches SurfaceView::Browser(id) && id.is_random(),
    {
        RightPanelSurface::Browser(Uuid::new_v4())
    }

    /// A terminal of its own.
    pub fn new_terminal() -> (r: RightPanelSurface)
        ensures
            r@ matches SurfaceView::Terminal(id) && id.is_random(),
    {
        RightPanelSurface::Terminal(Uuid::new_v4())
    }

    /// The terminal that the tab shows.
    pub fn terminal_id(&self) -> (r: Option<Uuid>)
        ensures
            r == self@.terminal(),
    {
        match self {
            RightPanelSurface::Terminal(id) => Some(*id),
            _ => None,
        }
    }

    /// The name of the tab.
    pub fn label(&self) -> (r: &str)
        ensures
            r@ == self@.label(),
    {
        match self {
            RightPanelSurface::Browser(_) => "Browser",
            RightPanelSurface::Terminal(_) => "Terminal",
            RightPanelSurface::Files => "Files",
            RightPanelSurface::Diff => "Diff",
            RightPanelSurface::File(path) => slash_tail(path.as_str()),
        }
    }

    /// The icon of the tab.
    pub fn icon_path(&self) -> (r: &'static str)
        ensures
            r@ == self@.icon(),
    {
        match self {
            RightPanelSurface::Browser(_) => "icons/globe.svg",
            RightPanelSurface::Terminal(_) => "icons/terminal.svg",
            RightPanelSurface::Files => "icons/folder.svg",
            RightPanelSurface::Diff => "icons/file-diff.svg",
            RightPanelSurface::File(path) => file_icon_for_path(path.as_str()),
        }
    }

    /// Whether two tabs show the same.
    pub fn same_as(&self, other: &RightPanelSurface) -> (r: bool)
        ensures
            r == (self@ == other@),
    {
        match (self, other) {
            (RightPanelSurface::Browser(a), RightPanelSurface::Browser(b)) => *a == *b,
            (RightPanelSurface::Terminal(a), RightPanelSurface::Terminal(b)) => *a == *b,
            (RightPanelSurface::Files, RightPanelSurface::Files) => true,
            (RightPanelSurface::Diff, RightPanelSurface::Diff) => true,
            (RightPanelSurface::File(a), RightPanelSurface::File(b)) => same(a.as_str(), b.as_str()),
            _ => false,
        }
    }
}

/// The name of a tab, given the file that the tab of files has open.
pub open spec fn tab_label(surface: SurfaceView, open: Option<Seq<char>>) -> Seq<char> {
    match surface {
        SurfaceView::Files => match open {
            Some(path) => match base_name(path) {
                Some(name) => name,
                None => "Files"@,
            },
            None => "Files"@,
        },
        _ => surface.label(),
    }
}

/// The icon of a tab, given the file that the tab of files has open.
pub open spec fn tab_icon(surface: SurfaceView, open: Option<Seq<char>>) -> Seq<char> {
    match surface {
        SurfaceView::Files => match open {
            Some(path) => path_icon(path),
            None => surface.icon(),
        },
        _ => surface.icon(),
    }
}

/// The name of a tab: that of files is named after the file it has open.
pub fn right_panel_tab_label<'a>(surface: &'a RightPanelSurface, files_selected_path: Option<&'a str>) -> (r: &'a str)
    ensures
        r@ == tab_label(surface@, opt_str(files_selected_path)),
{
    match surface {
        RightPanelSurface::Files => match files_selected_path {
            Some(path) => match name_of(path) {
                Some(name) => name,
                None => "Files",
            },
            None => "Files",
        },
        _ => surface.label(),
    }
}

/// The icon of a tab: that of files has the icon of the file it has open.
pub fn right_panel_tab_icon(surface: &RightPanelSurface, files_selected_path: Option<&str>) -> (r: &'static str)
    ensures
        r@ == tab_icon(surface@, opt_str(files_selected_path)),
{
    match surface {
        RightPanelSurface::Files => match files_selected_path {
            Some(path) => file_icon_for_path(path),
            None => surface.icon_path(),
        },
        _ => surface.icon_path(),
    }
}

/// Where a surface first stands among tabs.
pub open spec fn surface_pos(surfaces: Seq<SurfaceView>, wanted: SurfaceView) -> Option<int>
    decreases surfaces.len(),
{
    if surfaces.len() == 0 {
        None
    } else if surfaces[0] == wanted {
        Some(0)
    } else {
        match surface_pos(surfaces.drop_first(), wanted) {
            Some(i) => Some(i + 1),
            None => None,
        }
    }
}

/// The tab that shows a surface already, where there is only one tab of it.
pub open spec fn reusable(surfaces: Seq<SurfaceView>, wanted: SurfaceView) -> Option<int> {
    if wanted.single() {
        surface_pos(surfaces, wanted)
    } else {
        None
    }
}

pub(crate) proof fn lemma_surface_pos(surfaces: Seq<SurfaceView>, wanted: SurfaceView)
    ensures
        surface_pos(surfaces, wanted) matches Some(i) ==> 0 <= i < surfaces.len() && surfaces[i] == wanted,
        surface_pos(surfaces, wanted) is None ==> !surfaces.contains(wanted),
    decreases surfaces.len(),
{
    if surfaces.len() > 0 && surfaces[0] != wanted {
        let rest = surfaces.drop_first();
        lemma_surface_pos(rest, wanted);
        if surface_pos(rest, wanted) is None && surfaces.contains(wanted) {
            let k = surfaces.index_of(wanted);
            assert(rest[k - 1] == wanted);
        }
    }
}

/// Finds the tab that shows a surface already. Browsers and terminals are never shared.
pub fn reusable_surface_index(surfaces: &[RightPanelSurface], requested: &RightPanelSurface) -> (r: Option<usize>)
    ensures
        match r {
            Some(i) => reusable(surface_views(surfaces@), requested@) == Some(i as int) && i < surfaces@.len(),
            None => reusable(surface_views(surfaces@), requested@) is None,
        },
{
    match requested {
        RightPanelSurface::Browser(_) | RightPanelSurface::Terminal(_) => {
            return None;
        },
        _ => {},
    }
    let ghost views = surface_views(surfaces@);
    let mut i: usize = 0;
    assert(views.skip(0) =~= views);
    while i < surfaces.len()
        invariant
            i <= surfaces@.len(),
            views == surface_views(surfaces@),
            requested@.single(),
            surface_pos(views, requested@) == (match surface_pos(views.skip(i as int), requested@) {
                Some(k) => Some(k + i),
                None => None,
            }),
        decreases surfaces@.len() - i,
    {
        assert(views.skip(i as int)[0] == surfaces@[i as int]@);
        assert(views.skip(i as int).drop_first() =~= views.skip(i + 1));
        if surfaces[i].same_as(requested) {
            return Some(i);
        }
        i = i + 1;
    }
    assert(views.skip(i as int).len() == 0);
    None
}

/// How wide the fade at an edge of the tabs is, in sixty-fourths of a pixel.
pub const TAB_SCROLL_FADE_WIDTH: i64 = 1536;

/// A number of pixels, in sixty-fourths.
pub fn px(pixels: i32) -> (r: i32)
    requires
        i32::MIN <= pixels * 64 <= i32::MAX,
    ensures
        r == pixels * 64,
{
    pixels * 64
}

/// Whether tabs fade out at the left and at the right: where more than half a pixel of
/// them is hidden.
pub fn tab_scroll_fade_visibility(offset_x: i32, max_offset: i32) -> (r: (bool, bool))
    ensures
        r.0 == (-offset_x > 32),
        r.1 == (max_offset + offset_x > 32),
{
    let scrolled: i64 = -(offset_x as i64);
    (scrolled > 32, max_offset as i64 - scrolled > 32)
}

/// A side of the tabs.
#[derive(Clone, Copy, Debug, PartialEq, Eq, Structural)]
pub enum TabScrollFadeSide {
    Left,
    Right,
}

/// Whether tabs fade out at a side.
pub fn tab_scroll_fade(offset_x: i32, max_offset: i32, side: TabScrollFadeSide) -> (r: bool)
    ensures
        r == (match side {
            TabScrollFadeSide::Left => -offset_x > 32,
            TabScrollFadeSide::Right => max_offset + offset_x > 32,
        }),
{
    let (left, right) = tab_scroll_fade_visibility(offset_x, max_offset);
    match side {
        TabScrollFadeSide::Left => left,
        TabScrollFadeSide::Right => right,
    }
}

/// Where tabs scroll so that a tab is clear of the fades, before the ends stop it.
pub open spec fn clear_offset(offset: int, item_left: int, item_right: int, left: int, right: int) -> int {
    if item_left + offset < left + 1536 {
        left + 1536 - item_left
    } else if item_right + offset > right - 1536 {
        right - 1536 - item_right
    } else {
        offset
    }
}

/// Where tabs scroll so that a tab is clear of the fades.
pub fn fade_safe_tab_offset(
    current_offset: i32,
    max_offset: i32,
    item_left: i32,
    item_right: i32,
    viewport_left: i32,
    viewport_right: i32,
) -> (r: i32)
    requires
        max_offset >= 0,
    ensures
        r == kept_within(
            clear_offset(
                current_offset as int,
                item_left as int,
                item_right as int,
                viewport_left as int,
                viewport_right as int,
            ),
            -max_offset,
            0,
        ),
{
    let offset: i64 = current_offset as i64;
    let visible_left: i64 = item_left as i64 + offset;
    let visible_right: i64 = item_right as i64 + offset;
    let from: i64 = viewport_left as i64 + TAB_SCROLL_FADE_WIDTH;
    let to: i64 = viewport_right as i64 - TAB_SCROLL_FADE_WIDTH;
    let wanted: i64 = if visible_left < from {
        offset + (from - visible_left)
    } else if visible_right > to {
        offset - (visible_right - to)
    } else {
        offset
    };
    let least: i64 = -(max_offset as i64);
    let kept: i64 = if wanted < least {
        least
    } else if wanted > 0 {
        0
    } else {
        wanted
    };
    kept as i32
}

/// A tab that fits between the fades is clear of both, wherever the ends of the tabs do
/// not stop the scroll.
pub proof fn chosen_tabs_are_clear(offset: int, item_left: int, item_right: int, left: int, right: int)
    requires
        item_left <= item_right,
        item_right - item_left <= right - left - 2 * 1536,
    ensures
        item_left + clear_offset(offset, item_left, item_right, left, right) >= left + 1536,
        item_right + clear_offset(offset, item_left, item_right, left, right) <= right - 1536,
{
}

/// Nothing fades where nothing is hidden: at the start nothing at the left, at the end
/// nothing at the right.
pub proof fn ends_do_not_fade(offset: int, most: int)
    requires
        -most <= offset <= 0,
    ensures
        offset == 0 ==> !(-offset > 32),
        offset == -most ==> !(most + offset > 32),
{
}

} // verus!
