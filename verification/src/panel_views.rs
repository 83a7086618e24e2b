//! What the right panel shows.
use vstd::prelude::*;

use crate::ids::Uuid;
use crate::lines::{decimal, decimal_of};
use crate::right_panel::{RightPanel, RightPanelView};
use crate::surfaces::{
    reusable, reusable_surface_index, right_panel_tab_icon, right_panel_tab_label, surface_views, tab_icon, tab_label,
    RightPanelSurface, SurfaceView,
};
use crate::text::{opt_str, same};
use crate::working_tree::{lowercase, lowercase_of, WorkingTreeEntryView};

verus! {

/// What stands in place of something that cannot be shown.
#[derive(Clone, Copy, Debug)]
pub struct EmptyMessage {
    pub title: &'static str,
    pub description: &'static str,
}

/// What fills the panel.
#[derive(Debug)]
pub enum PanelBody {
    /// The surfaces to choose from.
    Chooser,
    WorkingTree,
    File(String),
    Diff,
    Terminal(Uuid),
    /// A terminal that does not run.
    Message(EmptyMessage),
    /// A surface that cannot be shown yet.
    Placeholder(RightPanelSurface),
}

/// What a [`PanelBody`] holds.
pub ghost enum PanelBodyView {
    Chooser,
    WorkingTree,
    File(Seq<char>),
    Diff,
    Terminal(Uuid),
    Message(Seq<char>, Seq<char>),
    Placeholder(SurfaceView),
}

impl View for PanelBody {
    type V = PanelBodyView;

    open spec fn view(&self) -> PanelBodyView {
        match self {
            PanelBody::Chooser => PanelBodyView::Chooser,
            PanelBody::WorkingTree => PanelBodyView::WorkingTree,
            PanelBody::File(path) => PanelBodyView::File(path@),
            PanelBody::Diff => PanelBodyView::Diff,
            PanelBody::Terminal(id) => PanelBodyView::Terminal(*id),
            PanelBody::Message(message) => PanelBodyView::Message(message.title@, message.description@),
            PanelBody::Placeholder(surface) => PanelBodyView::Placeholder(surface@),
        }
    }
}

/// A tab.
#[derive(Debug)]
pub struct Tab {
    pub label: String,
    pub icon: &'static str,
    pub active: bool,
    /// Whether it holds changes.
    pub dirty: bool,
}

/// A surface that can be opened.
#[derive(Debug)]
pub struct SurfaceOption {
    pub surface: RightPanelSurface,
    /// Whether it has a tab already.
    pub selected: bool,
}

/// A card of the chooser.
#[derive(Debug)]
pub struct SurfaceCard {
    pub surface: RightPanelSurface,
    pub description: &'static str,
    /// What the card is told apart by.
    pub id: String,
}

/// How a row of the workspace's files is drawn.
#[derive(Clone, Copy, Debug)]
pub struct TreeRow {
    pub selected: bool,
    /// The arrow of a directory.
    pub chevron: Option<&'static str>,
    /// How far it is moved in, in pixels.
    pub indent: u128,
}

/// The number of a line, and where it is drawn.
#[derive(Clone, Copy, Debug, PartialEq, Eq, Structural)]
pub struct LineNumber {
    pub number: usize,
    pub y: i128,
}

impl RightPanelView {
    /// The terminal that gets the focus as the panel is drawn.
    pub open spec fn focus_due(self) -> Option<Uuid> {
        match self.active() {
            Some(surface) => match surface.terminal() {
                Some(id) => if self.pending_terminal_focus == Some(id) && self.terminals.dom().contains(id) {
                    Some(id)
                } else {
                    None
                },
                None => None,
            },
            None => None,
        }
    }

    /// What fills the panel.
    pub open spec fn body(self) -> PanelBodyView {
        match self.active() {
            None => PanelBodyView::Chooser,
            Some(SurfaceView::Files) => match self.files_selected_path {
                Some(path) => PanelBodyView::File(path),
                None => PanelBodyView::WorkingTree,
            },
            Some(SurfaceView::Diff) => PanelBodyView::Diff,
            Some(SurfaceView::Terminal(id)) => if self.terminals.dom().contains(id) {
                PanelBodyView::Terminal(id)
            } else {
                PanelBodyView::Message(
                    "Terminal unavailable"@,
                    "Open the Terminal surface again to start a shell."@,
                )
            },
            Some(SurfaceView::File(path)) => PanelBodyView::File(path),
            Some(surface) => PanelBodyView::Placeholder(surface),
        }
    }

    /// A tab shows the surface at its place.
    pub open spec fn is_tab(self, tab: Tab, i: int) -> bool {
        &&& tab.label@ == tab_label(self.surfaces[i], self.files_selected_path)
        &&& tab.icon@ == tab_icon(self.surfaces[i], self.files_selected_path)
        &&& tab.active == (self.active_surface == Some(i as usize))
        &&& tab.dirty == self.surface_dirty(self.surfaces[i])
    }
}

/// The surfaces that can be opened, in the order in which they are offered. The browser and
/// the terminal are new ones.
pub open spec fn offered(s: Seq<SurfaceView>) -> bool {
    &&& s.len() == 4
    &&& (s[0] matches SurfaceView::Browser(id) && id.is_random())
    &&& (s[1] matches SurfaceView::Terminal(id) && id.is_random())
    &&& s[2] == SurfaceView::Files
    &&& s[3] == SurfaceView::Diff
}

/// The surfaces of a list of options.
pub open spec fn option_surfaces(options: Seq<SurfaceOption>) -> Seq<SurfaceView> {
    options.map_values(|o: SurfaceOption| o.surface@)
}

/// The surfaces of a list of cards.
pub open spec fn card_surfaces(cards: Seq<SurfaceCard>) -> Seq<SurfaceView> {
    cards.map_values(|c: SurfaceCard| c.surface@)
}

fn offer() -> (r: Vec<RightPanelSurface>)
    ensures
        offered(surface_views(r@)),
{
    let mut r: Vec<RightPanelSurface> = Vec::new();
    r.push(RightPanelSurface::new_browser());
    r.push(RightPanelSurface::new_terminal());
    r.push(RightPanelSurface::Files);
    r.push(RightPanelSurface::Diff);
    r
}

/// What stands in place of a surface that cannot be shown yet.
pub open spec fn placeholder_text(surface: SurfaceView) -> Seq<char> {
    match surface {
        SurfaceView::Browser(_) => "Browser previews will appear here once the native preview backend is connected."@,
        SurfaceView::Terminal(_) => "A workspace terminal will appear here once the native terminal backend is connected."@,
        _ => "This surface is not available yet."@,
    }
}

/// What stands in place of a surface that cannot be shown yet.
pub fn render_right_panel_placeholder(surface: &RightPanelSurface) -> (r: EmptyMessageOf)
    ensures
        r.icon@ == surface@.icon(),
        r.title@ == surface@.label(),
        r.description@ == placeholder_text(surface@),
{
    let description = match surface {
        RightPanelSurface::Browser(_) => "Browser previews will appear here once the native preview backend is connected.",
        RightPanelSurface::Terminal(_) => "A workspace terminal will appear here once the native terminal backend is connected.",
        _ => "This surface is not available yet.",
    };
    EmptyMessageOf { icon: surface.icon_path(), title: surface.label().to_owned(), description }
}

/// What stands in place of a surface.
#[derive(Debug)]
pub struct EmptyMessageOf {
    pub icon: &'static str,
    pub title: String,
    pub description: &'static str,
}

/// What a card says of its surface.
pub open spec fn card_text(i: int) -> Seq<char> {
    if i == 0 {
        "Open a local app or URL."@
    } else if i == 1 {
        "Start a shell in this workspace."@
    } else if i == 2 {
        "Browse and read workspace files."@
    } else {
        "Review current workspace changes."@
    }
}

fn render_right_panel_card(surface: RightPanelSurface, description: &'static str) -> (r: SurfaceCard)
    ensures
        r.surface == surface,
        r.description == description,
        r.id@ == "right-panel-card-"@ + lowercase(surface@.label()),
{
    let mut id = "right-panel-card-".to_owned();
    let label = lowercase_of(surface.label());
    id.append(label.as_str());
    SurfaceCard { surface, description, id }
}

/// The cards of the panel while it has no tab.
pub fn render_right_panel_chooser() -> (r: Vec<SurfaceCard>)
    ensures
        offered(card_surfaces(r@)),
        forall|i: int|
            0 <= i < 4 ==> (#[trigger] r@[i]).description@ == card_text(i) && r@[i].id@ == "right-panel-card-"@ + lowercase(
                r@[i].surface@.label(),
            ),
{
    let mut r: Vec<SurfaceCard> = Vec::new();
    r.push(render_right_panel_card(RightPanelSurface::new_browser(), "Open a local app or URL."));
    r.push(render_right_panel_card(RightPanelSurface::new_terminal(), "Start a shell in this workspace."));
    r.push(render_right_panel_card(RightPanelSurface::Files, "Browse and read workspace files."));
    r.push(render_right_panel_card(RightPanelSurface::Diff, "Review current workspace changes."));
    r
}

/// How a row of the workspace's files is drawn.
pub open spec fn row_of(entry: WorkingTreeEntryView, selected: Option<Seq<char>>) -> (bool, Option<Seq<char>>, int) {
    (
        selected == Some(entry.relative_path),
        if !entry.is_dir {
            None
        } else if entry.expanded {
            Some("icons/chevron-down.svg"@)
        } else {
            Some("icons/chevron-right.svg"@)
        },
        8 + entry.depth * 16,
    )
}

/// What a row holds.
pub open spec fn row_view(row: TreeRow) -> (bool, Option<Seq<char>>, int) {
    (row.selected, opt_str(row.chevron), row.indent as int)
}

/// What a list of rows holds.
pub open spec fn row_views(rows: Seq<TreeRow>) -> Seq<(bool, Option<Seq<char>>, int)> {
    rows.map_values(|row: TreeRow| row_view(row))
}

impl RightPanelView {
    /// How the workspace's files are drawn: a row for each that the panel lists.
    pub open spec fn tree_rows(self, selected: Option<Seq<char>>) -> Seq<(bool, Option<Seq<char>>, int)> {
        self.working_tree.map_values(|entry: WorkingTreeEntryView| row_of(entry, selected))
    }
}

impl RightPanel {
    /// What fills the panel, and the terminal that gets the focus now.
    pub fn render_right_panel(&mut self) -> (r: (PanelBody, Option<Uuid>))
        ensures
            r.0@ == old(self)@.body(),
            r.1 == old(self)@.focus_due(),
            final(self)@ == (if old(self)@.focus_due() is Some {
                RightPanelView { pending_terminal_focus: None, ..old(self)@ }
            } else {
                old(self)@
            }),
    {
        assert(crate::right_panel::directory_views(self.terminals@).dom() =~= self.terminals@.dom());
        let active = match self.active_right_panel_surface() {
            Some(surface) => surface.terminal_id(),
            None => None,
        };
        let focus = match (active, self.pending_terminal_focus) {
            (Some(id), Some(pending)) => {
                if id == pending && self.terminals.contains_key(id) {
                    Some(id)
                } else {
                    None
                }
            },
            _ => None,
        };
        let body = self.panel_body();
        if focus.is_some() {
            self.pending_terminal_focus = None;
        }
        (body, focus)
    }

    fn panel_body(&self) -> (r: PanelBody)
        ensures
            r@ == self@.body(),
    {
        assert(crate::right_panel::directory_views(self.terminals@).dom() =~= self.terminals@.dom());
        match self.active_right_panel_surface() {
            None => PanelBody::Chooser,
            Some(surface) => match surface {
                RightPanelSurface::Files => self.render_right_panel_files(),
                RightPanelSurface::Diff => PanelBody::Diff,
                RightPanelSurface::Terminal(id) => {
                    if self.terminals.contains_key(*id) {
                        PanelBody::Terminal(*id)
                    } else {
                        PanelBody::Message(
                            EmptyMessage {
                                title: "Terminal unavailable",
                                description: "Open the Terminal surface again to start a shell.",
                            },
                        )
                    }
                },
                RightPanelSurface::File(path) => PanelBody::File(path.clone()),
                RightPanelSurface::Browser(_) => PanelBody::Placeholder(surface.clone()),
            },
        }
    }

    /// What the tab of files shows.
    pub fn render_right_panel_files(&self) -> (r: PanelBody)
        ensures
            r@ == (match self@.files_selected_path {
                Some(path) => PanelBodyView::File(path),
                None => PanelBodyView::WorkingTree,
            }),
    {
        match &self.files_selected_path {
            Some(path) => PanelBody::File(path.clone()),
            None => PanelBody::WorkingTree,
        }
    }

    /// The tabs, and, once there are tabs, what can be opened besides.
    pub fn render_right_panel_header(&self) -> (r: (Vec<Tab>, Option<Vec<SurfaceOption>>))
        ensures
            r.0@.len() == self@.surfaces.len(),
            forall|i: int| 0 <= i < r.0@.len() ==> self@.is_tab(#[trigger] r.0@[i], i),
            match r.1 {
                None => self@.surfaces.len() == 0,
                Some(options) => {
                    &&& self@.surfaces.len() > 0
                    &&& offered(option_surfaces(options@))
                    &&& forall|i: int|
                        0 <= i < options@.len() ==> (#[trigger] options@[i]).selected == (reusable(
                            self@.surfaces,
                            options@[i].surface@,
                        ) is Some)
                },
            },
    {
        let mut tabs: Vec<Tab> = Vec::new();
        let mut i: usize = 0;
        while i < self.surfaces.len()
            invariant
                i <= self.surfaces@.len(),
                tabs@.len() == i,
                forall|j: int| 0 <= j < i ==> self@.is_tab(#[trigger] tabs@[j], j),
            decreases self.surfaces@.len() - i,
        {
            let surface = &self.surfaces[i];
            assert(self@.surfaces[i as int] == surface@);
            let selected = match &self.files_selected_path {
                Some(path) => Some(path.as_str()),
                None => None,
            };
            let label = right_panel_tab_label(surface, selected).to_owned();
            let icon = right_panel_tab_icon(surface, selected);
            let active = match self.active_surface {
                Some(active) => active == i,
                None => false,
            };
            let dirty = self.right_panel_surface_is_dirty(surface);
            tabs.push(Tab { label, icon, active, dirty });
            i = i + 1;
        }
        if self.surfaces.len() == 0 {
            return (tabs, None);
        }
        let mut surfaces = offer();
        let ghost all = surfaces@;
        let mut options: Vec<SurfaceOption> = Vec::new();
        while surfaces.len() > 0
            invariant
                all.len() == 4,
                options@.len() + surfaces@.len() == 4,
                surfaces@ == all.skip(options@.len() as int),
                forall|j: int| 0 <= j < options@.len() ==> (#[trigger] options@[j]).surface == all[j],
                forall|j: int|
                    0 <= j < options@.len() ==> (#[trigger] options@[j]).selected == (reusable(
                        self@.surfaces,
                        options@[j].surface@,
                    ) is Some),
            decreases surfaces@.len(),
        {
            let ghost n = options@.len() as int;
            let surface = surfaces.remove(0);
            assert(surface == all.skip(n)[0]);
            assert(surfaces@ =~= all.skip(n + 1));
            let selected = reusable_surface_index(self.surfaces.as_slice(), &surface).is_some();
            options.push(SurfaceOption { surface, selected });
        }
        assert(option_surfaces(options@) =~= surface_views(all));
        (tabs, Some(options))
    }

    /// How the rows of the workspace's files are drawn; what stands in their place without
    /// a project.
    pub fn render_right_panel_working_tree(&self, project: bool, selected_path: Option<&str>) -> (r: Result<Vec<TreeRow>, EmptyMessage>)
        ensures
            match r {
                Ok(rows) => project && row_views(rows@) == self@.tree_rows(opt_str(selected_path)),
                Err(message) => !project && message.title@ == "No project open"@ && message.description@
                    == "Open a project to browse its files."@,
            },
    {
        if !project {
            return Err(
                EmptyMessage { title: "No project open", description: "Open a project to browse its files." },
            );
        }
        let mut rows: Vec<TreeRow> = Vec::new();
        let mut i: usize = 0;
        while i < self.working_tree.len()
            invariant
                i <= self.working_tree@.len(),
                rows@.len() == i,
                forall|j: int|
                    0 <= j < i ==> row_view(#[trigger] rows@[j]) == row_of(
                        self@.working_tree[j],
                        opt_str(selected_path),
                    ),
            decreases self.working_tree@.len() - i,
        {
            let entry = &self.working_tree[i];
            assert(self@.working_tree[i as int] == entry@);
            let selected = match selected_path {
                Some(path) => same(path, entry.relative_path.as_str()),
                None => false,
            };
            let chevron = if !entry.is_dir {
                None
            } else if entry.expanded {
                Some("icons/chevron-down.svg")
            } else {
                Some("icons/chevron-right.svg")
            };
            let indent: u128 = 8 + entry.depth as u128 * 16;
            rows.push(TreeRow { selected, chevron, indent });
            i = i + 1;
        }
        assert(row_views(rows@) =~= self@.tree_rows(opt_str(selected_path)));
        Ok(rows)
    }
}

/// How high a line is where nothing was measured, in sixty-fourths of a pixel.
pub const LINE_HEIGHT: i64 = 1024;

/// The lines of a text: one more than it has line ends.
pub open spec fn line_count(s: Seq<char>) -> nat
    decreases s.len(),
{
    if s.len() == 0 {
        1
    } else {
        let before = line_count(s.drop_last());
        if s.last() == '\n' {
            before + 1
        } else {
            before
        }
    }
}

/// How high a line is.
pub open spec fn height_of(heights: Seq<i64>, number: int) -> i64 {
    if 0 < number <= heights.len() {
        heights[number - 1]
    } else {
        LINE_HEIGHT
    }
}

/// Where a line begins, the first at `top`.
pub open spec fn line_top(top: int, heights: Seq<i64>, number: int) -> int
    decreases number,
{
    if number <= 1 {
        top
    } else {
        line_top(top, heights, number - 1) + height_of(heights, number - 1)
    }
}

/// The heights of lines together.
pub open spec fn total(heights: Seq<i64>) -> int
    decreases heights.len(),
{
    if heights.len() == 0 {
        0
    } else {
        total(heights.drop_last()) + heights.last()
    }
}

/// The numbers of the lines from the first on that are drawn: those that are seen, up to
/// the first that begins below what is seen.
pub open spec fn numbers_drawn(count: int, top: int, heights: Seq<i64>, seen: (int, int)) -> Seq<(int, int)>
    decreases count,
{
    if count <= 0 {
        Seq::empty()
    } else {
        let before = numbers_drawn(count - 1, top, heights, seen);
        let y = line_top(top, heights, count);
        if below_seen(count, top, heights, seen.1) || y + height_of(heights, count) < seen.0 {
            before
        } else {
            before.push((count, y))
        }
    }
}

/// One of the first `count` lines begins below what is seen.
pub open spec fn below_seen(count: int, top: int, heights: Seq<i64>, bottom: int) -> bool
    decreases count,
{
    count > 0 && (below_seen(count - 1, top, heights, bottom) || line_top(top, heights, count) > bottom)
}

/// What a list of line numbers holds.
pub open spec fn number_views(s: Seq<LineNumber>) -> Seq<(int, int)> {
    s.map_values(|n: LineNumber| (n.number as int, n.y as int))
}

/// Counts the lines of a text.
pub fn count_lines(content: &str) -> (r: usize)
    requires
        content@.len() < usize::MAX,
    ensures
        r == line_count(content@),
{
    let n = content.unicode_len();
    let mut r: usize = 1;
    let mut i: usize = 0;
    assert(content@.take(0) =~= Seq::empty());
    while i < n
        invariant
            i <= n,
            n == content@.len(),
            n < usize::MAX,
            r <= i + 1,
            r == line_count(content@.take(i as int)),
        decreases n - i,
    {
        assert(content@.take(i + 1).drop_last() =~= content@.take(i as int));
        if content.get_char(i) == '\n' {
            r = r + 1;
        }
        i = i + 1;
    }
    assert(content@.take(i as int) =~= content@);
    r
}

/// How wide the column of line numbers is, in pixels.
pub fn gutter_width(lines: usize) -> (r: u64)
    ensures
        r == 20 + 6 * decimal(lines as nat).len(),
{
    proof {
        assert(vstd::arithmetic::power::pow(10, 20) == 100_000_000_000_000_000_000) by {
            reveal_with_fuel(vstd::arithmetic::power::pow, 21);
        }
        lemma_decimal_short(lines as nat, 20);
    }
    let digits = decimal_of(lines as u64).as_str().unicode_len();
    20 + 6 * digits as u64
}

proof fn lemma_decimal_short(n: nat, k: nat)
    requires
        k > 0,
        n < vstd::arithmetic::power::pow(10, k),
    ensures
        decimal(n).len() <= k,
    decreases k,
{
    vstd::arithmetic::power::lemma_pow1(10);
    if n >= 10 {
        if k == 1 {
            assert(n < 10);
        } else {
            assert(vstd::arithmetic::power::pow(10, k) == 10 * vstd::arithmetic::power::pow(10, (k - 1) as nat)) by {
                reveal(vstd::arithmetic::power::pow);
            }
            lemma_decimal_short(n / 10, (k - 1) as nat);
        }
    }
}

/// How high the text is, by the heights that were measured.
pub fn content_height(lines: usize, heights: &Vec<i64>) -> (r: i128)
    ensures
        r == (if heights@.len() == 0 {
            LINE_HEIGHT * lines
        } else {
            total(heights@)
        }),
{
    if heights.len() == 0 {
        assert(0 <= LINE_HEIGHT * lines <= 1024 * u64::MAX) by (nonlinear_arith)
            requires
                LINE_HEIGHT == 1024,
                lines <= u64::MAX,
        ;
        return LINE_HEIGHT as i128 * lines as i128;
    }
    let mut r: i128 = 0;
    let mut i: usize = 0;
    assert(heights@.take(0) =~= Seq::empty());
    while i < heights.len()
        invariant
            i <= heights@.len(),
            i * i64::MIN <= r <= i * i64::MAX,
            r == total(heights@.take(i as int)),
        decreases heights@.len() - i,
    {
        assert(heights@.take(i + 1).drop_last() =~= heights@.take(i as int));
        r = r + heights[i] as i128;
        i = i + 1;
    }
    assert(heights@.take(i as int) =~= heights@);
    r
}

/// The numbers of lines that are drawn beside a text, each where its line begins. `seen` is
/// what of it is in view, from top to bottom.
pub fn paint_gutter(lines: usize, top: i64, heights: &Vec<i64>, seen: (i64, i64)) -> (r: Vec<LineNumber>)
    ensures
        number_views(r@) == numbers_drawn(lines as int, top as int, heights@, (seen.0 as int, seen.1 as int)),
{
    let ghost wanted = (seen.0 as int, seen.1 as int);
    let mut r: Vec<LineNumber> = Vec::new();
    let mut y: i128 = top as i128;
    let mut done: usize = 0;
    assert(number_views(r@) =~= Seq::empty());
    while done < lines
        invariant
            done <= lines,
            wanted == (seen.0 as int, seen.1 as int),
            y == line_top(top as int, heights@, done + 1),
            top + done * i64::MIN <= y <= top + done * i64::MAX,
            !below_seen(done as int, top as int, heights@, wanted.1),
            number_views(r@) == numbers_drawn(done as int, top as int, heights@, wanted),
        decreases lines - done,
    {
        let height: i64 = if done < heights.len() {
            heights[done]
        } else {
            LINE_HEIGHT
        };
        if y > seen.1 as i128 {
            proof {
                lemma_nothing_below(done + 1, lines as int, top as int, heights@, wanted);
            }
            return r;
        }
        let ghost before = r@;
        if y + height as i128 >= seen.0 as i128 {
            r.push(LineNumber { number: done + 1, y });
            assert(number_views(r@) =~= number_views(before).push((done + 1, y as int)));
        }
        y = y + height as i128;
        done = done + 1;
    }
    r
}

proof fn lemma_nothing_below(from: int, count: int, top: int, heights: Seq<i64>, seen: (int, int))
    requires
        1 <= from <= count,
        line_top(top, heights, from) > seen.1,
    ensures
        below_seen(count, top, heights, seen.1),
        numbers_drawn(count, top, heights, seen) == numbers_drawn(from - 1, top, heights, seen),
    decreases count,
{
    if count > from {
        lemma_nothing_below(from, count - 1, top, heights, seen);
    }
}

/// Drawing the workspace's files reads nothing but the listing that the panel holds: two
/// panels with one listing draw the same rows, whatever else they hold, and unfolding a
/// directory changes no row before a new listing comes.
pub proof fn trees_are_drawn_from_the_listing(
    panel: RightPanelView,
    other: RightPanelView,
    selected: Option<Seq<char>>,
    path: Seq<char>,
)
    requires
        panel.working_tree == other.working_tree,
    ensures
        panel.tree_rows(selected) == other.tree_rows(selected),
        panel.unfolding(path).tree_rows(selected) == panel.tree_rows(selected),
{
}

/// Whatever is done with the tabs, the tab on screen stays one of them.
pub proof fn shown_tabs_exist(
    panel: RightPanelView,
    surface: SurfaceView,
    path: Seq<char>,
    index: usize,
    width: i32,
    project: Option<Seq<char>>,
    session: Uuid,
    selected: Option<Uuid>,
)
    requires
        panel.wf(),
        panel.surfaces.len() < usize::MAX,
    ensures
        panel.opened(surface, width, project).wf(),
        panel.file_opened(path, width, project).wf(),
        panel.closed(index).wf(),
        panel.stored(selected).wf(),
        panel.restored(session, project).wf(),
        panel.forgotten(session, selected).wf(),
{
    lemma_opened_keeps(panel, surface, width, project);
    lemma_file_opened_keeps(panel, path, width, project);
    lemma_closed_keeps(panel, index);
    lemma_restoring_keeps(panel, project, session);
    lemma_forgetting_keeps(panel, session, selected);
    assert(panel.stored(selected).wf());
}

proof fn lemma_opened_keeps(panel: RightPanelView, surface: SurfaceView, width: i32, project: Option<Seq<char>>)
    requires
        panel.wf(),
        panel.surfaces.len() < usize::MAX,
    ensures
        panel.opened(surface, width, project).wf(),
{
    crate::surfaces::lemma_surface_pos(panel.surfaces, surface);
}

proof fn lemma_file_opened_keeps(panel: RightPanelView, path: Seq<char>, width: i32, project: Option<Seq<char>>)
    requires
        panel.wf(),
        panel.surfaces.len() < usize::MAX,
    ensures
        panel.file_opened(path, width, project).wf(),
{
    let wide = panel.widened(width);
    lemma_opened_keeps(wide, SurfaceView::File(path), width, project);
    if let Some(active) = wide.active_surface {
        if wide.surfaces[active as int] != SurfaceView::File(path) {
            lemma_file_replaced_keeps(wide, active, path);
        }
    }
}

proof fn lemma_file_replaced_keeps(panel: RightPanelView, active: usize, path: Seq<char>)
    requires
        panel.wf(),
        active < panel.surfaces.len() < usize::MAX,
        panel.surfaces[active as int] != SurfaceView::File(path),
    ensures
        panel.file_replaced(active, path).wf(),
{
    crate::surfaces::lemma_surface_pos(panel.surfaces, SurfaceView::File(path));
}

proof fn lemma_closed_keeps(panel: RightPanelView, index: usize)
    requires
        panel.wf(),
    ensures
        panel.closed(index).wf(),
{
}

proof fn lemma_restoring_keeps(panel: RightPanelView, project: Option<Seq<char>>, session: Uuid)
    requires
        panel.wf(),
    ensures
        panel.restored(session, project).wf(),
{
    lemma_ensured_keeps(
        (RightPanelView { states: panel.states.remove(session), ..panel }).with_kept(panel.kept_for(session)).refreshed(),
        project,
    );
}

proof fn lemma_forgetting_keeps(panel: RightPanelView, session: Uuid, selected: Option<Uuid>)
    requires
        panel.wf(),
    ensures
        panel.forgotten(session, selected).wf(),
{
    lemma_dropped_keeps(panel.with_kept(crate::right_panel::PanelStateView::empty(false)), crate::right_panel::terminals_of(panel.surfaces));
    if panel.states.dom().contains(session) {
        lemma_dropped_keeps(
            RightPanelView { states: panel.states.remove(session), ..panel },
            crate::right_panel::terminals_of(panel.states[session].surfaces),
        );
    }
}

proof fn lemma_each_keeps(panel: RightPanelView, ids: Seq<Uuid>, project: Option<Seq<char>>)
    ensures
        ({
            let after = panel.each_terminal_ensured(ids, project);
            after.kept() == panel.kept() && after.states == panel.states && after.panels == panel.panels
        }),
    decreases ids.len(),
{
    if ids.len() > 0 {
        lemma_each_keeps(panel, ids.drop_last(), project);
    }
}

proof fn lemma_ensured_keeps(panel: RightPanelView, project: Option<Seq<char>>)
    ensures
        ({
            let after = panel.terminals_ensured(project);
            after.kept() == panel.kept() && after.states == panel.states && after.panels == panel.panels
        }),
{
    lemma_each_keeps(
        RightPanelView {
            terminals: panel.terminals.restrict(Set::new(|id: Uuid| panel.uses_terminal(id))),
            ..panel
        },
        crate::right_panel::terminals_of(panel.surfaces),
        project,
    );
}

proof fn lemma_dropped_keeps(panel: RightPanelView, ids: Seq<Uuid>)
    ensures
        ({
            let after = panel.without_terminals(ids);
            after.kept() == panel.kept() && after.states == panel.states && after.panels == panel.panels
        }),
    decreases ids.len(),
{
    if ids.len() > 0 {
        lemma_dropped_keeps(panel, ids.drop_last());
    }
}

/// A session finds the panel as it left it, whatever was done with the panels of others in
/// between.
pub proof fn panels_come_back(panel: RightPanelView, session: Uuid, project: Option<Seq<char>>, other: RightPanelView)
    requires
        other.states.dom().contains(session),
        other.states[session] == panel.stored(Some(session)).states[session],
    ensures
        other.restored(session, project).kept() == panel.kept(),
{
    lemma_ensured_keeps(
        (RightPanelView { states: other.states.remove(session), ..other }).with_kept(other.kept_for(session)).refreshed(),
        project,
    );
}

/// What is done with the panel of one session leaves what is kept for another as it is.
pub proof fn panels_stay_apart(
    panel: RightPanelView,
    one: Uuid,
    another: Uuid,
    surface: SurfaceView,
    index: usize,
    width: i32,
    project: Option<Seq<char>>,
)
    requires
        one != another,
        panel.states.dom().contains(another),
    ensures
        panel.stored(Some(one)).states.dom().contains(another),
        panel.stored(Some(one)).states[another] == panel.states[another],
        panel.restored(one, project).states.dom().contains(another),
        panel.restored(one, project).states[another] == panel.states[another],
        panel.opened(surface, width, project).states == panel.states,
        panel.closed(index).states == panel.states,
        panel.forgotten(one, Some(one)).states == panel.states,
{
    lemma_ensured_keeps(
        (RightPanelView { states: panel.states.remove(one), ..panel }).with_kept(panel.kept_for(one)).refreshed(),
        project,
    );
    lemma_dropped_keeps(panel.with_kept(crate::right_panel::PanelStateView::empty(false)), crate::right_panel::terminals_of(panel.surfaces));
}

} // verus!
