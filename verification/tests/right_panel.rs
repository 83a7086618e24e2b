use fintwind::diff_files::{collect_diff_files, read_new_paths, read_tracked_files, render_right_panel_diff};
use fintwind::file_editors::Query;
use fintwind::file_types::{file_highlighter_language, file_icon_for_name};
use fintwind::ids::Uuid;
use fintwind::keyed::{IdMap, StrMap, StrSet};
use fintwind::panel_views::{
    content_height, count_lines, gutter_width, paint_gutter, render_right_panel_chooser, render_right_panel_placeholder, LineNumber,
    PanelBody,
};
use fintwind::panels::{FpsCounter, FpsGrade, PanelLimits, PanelResizeTarget, Panels};
use fintwind::right_panel::{PanelEffect, RightPanel, RightPanelSessionState, DEFAULT_FILE_TREE_WIDTH};
use fintwind::surfaces::{
    fade_safe_tab_offset, px, reusable_surface_index, right_panel_tab_icon, right_panel_tab_label, tab_scroll_fade,
    tab_scroll_fade_visibility, RightPanelSurface, TabScrollFadeSide,
};
use fintwind::working_tree::{order_children, Child, TreeWalk, WorkingTreeEntry};

fn panel() -> RightPanel {
    RightPanel {
        panels: Panels {
            sidebar_visible: true,
            right_panel_visible: false,
            sidebar_width: px(280),
            right_panel_width: px(400),
            file_tree_width: px(224),
            drag: None,
        },
        surfaces: Vec::new(),
        active_surface: None,
        pending_tab_reveal: None,
        expanded_paths: StrSet::new(),
        files_selected_path: None,
        file_editors: StrMap::new(),
        diff_files: Vec::new(),
        working_tree: Vec::new(),
        toast: None,
        states: IdMap::new(),
        terminals: IdMap::new(),
        pending_terminal_focus: None,
        effects: Vec::new(),
    }
}

/// The entries of a directory, by path.
fn listing(directory: &str) -> Vec<Child> {
    let entries: Vec<(&str, bool)> = match directory {
        "" => vec![("README.md", false), (".git", true), ("src", true)],
        "src" => vec![("main.rs", false), ("nested", true)],
        _ => vec![],
    };
    entries
        .into_iter()
        .map(|(name, is_dir)| Child {
            path: if directory.is_empty() { format!("/work/{name}") } else { format!("/work/{directory}/{name}") },
            name: name.to_owned(),
            is_dir,
        })
        .collect()
}

fn walk(expanded: &StrSet) -> Vec<WorkingTreeEntry> {
    let mut walk = TreeWalk::new();
    walk.enter_root(listing(""), expanded);
    loop {
        match walk.advance() {
            Some(directory) => {
                let children = listing(&directory.relative_path);
                walk.enter_directory(children, &directory, expanded);
            }
            None => return walk.entries,
        }
    }
}

#[test]
fn directories_keep_their_entries_in_order() {
    let child = |name: &str, is_dir: bool| Child { path: format!("/work/{name}"), name: name.to_owned(), is_dir };
    let ordered = order_children(vec![
        child("b.txt", false),
        child("A.txt", false),
        child(".git", true),
        child("b.txt", false),
        child("zoo", true),
    ]);
    let names: Vec<&str> = ordered.iter().map(|child| child.name.as_str()).collect();
    assert_eq!(names, vec!["zoo", "A.txt", "b.txt", "b.txt"]);
}

#[test]
fn icons_stand_among_the_pictures_of_files() {
    for name in ["", ".", "x", "a.b.c", "Makefile", "chart.yaml", "photo.JPEG", "..", "é.ß"] {
        let icon = file_icon_for_name(name);
        assert!(icon.starts_with("icons/file-types/") && icon.ends_with(".svg"));
    }
}

#[test]
fn working_tree_only_descends_into_expanded_directories() {
    let collapsed = walk(&StrSet::new());
    assert_eq!(
        collapsed.iter().map(|entry| entry.relative_path.as_str()).collect::<Vec<_>>(),
        vec!["src", "README.md"]
    );

    let mut expanded = StrSet::new();
    expanded.insert("/work/src".to_owned());
    let visible = walk(&expanded);
    assert_eq!(
        visible.iter().map(|entry| (entry.relative_path.as_str(), entry.depth)).collect::<Vec<_>>(),
        vec![("src", 0), ("src/nested", 1), ("src/main.rs", 1), ("README.md", 0)]
    );
}

#[test]
fn file_highlighter_language_follows_file_name_and_extension() {
    assert_eq!(file_highlighter_language("src/app.rs"), "rust");
    assert_eq!(file_highlighter_language("ui/panel.tsx"), "tsx");
    assert_eq!(file_highlighter_language("Sources/App.swift"), "swift");
    assert_eq!(file_highlighter_language("Makefile"), "make");
    assert_eq!(file_highlighter_language("src/native.hpp"), "cpp");
    assert_eq!(file_highlighter_language("LICENSE"), "text");

    for (path, expected_language) in [
        ("bun.lock", "json"),
        ("package-lock.json", "json"),
        ("deno.lock", "json"),
        ("composer.lock", "json"),
        ("Pipfile.lock", "json"),
        ("Package.resolved", "json"),
        ("Cargo.lock", "toml"),
        ("uv.lock", "toml"),
        ("poetry.lock", "toml"),
        ("pnpm-lock.yaml", "yaml"),
        ("yarn.lock", "yaml"),
        ("Podfile.lock", "yaml"),
        ("Gemfile.lock", "yaml"),
        ("mix.lock", "elixir"),
    ] {
        assert_eq!(file_highlighter_language(path), expected_language, "{path}");
    }
}

#[test]
fn working_tree_file_icons_follow_names_and_extensions() {
    assert_eq!(file_icon_for_name("main.rs"), "icons/file-types/rust.svg");
    assert_eq!(file_icon_for_name("Panel.tsx"), "icons/file-types/react.svg");
    assert_eq!(file_icon_for_name("README.md"), "icons/file-types/readme.svg");
    assert_eq!(file_icon_for_name("Dockerfile.dev"), "icons/file-types/docker.svg");
    assert_eq!(file_icon_for_name("bun.lock"), "icons/file-types/bun.svg");
    assert_eq!(file_icon_for_name("pnpm-lock.yaml"), "icons/file-types/pnpm.svg");
    assert_eq!(file_icon_for_name("vite.config.ts"), "icons/file-types/vite.svg");
    assert_eq!(file_icon_for_name("unknown.data"), "icons/file-types/file.svg");
}

#[test]
fn icons_ignore_the_case_of_names() {
    assert_eq!(file_icon_for_name("MAIN.RS"), file_icon_for_name("main.rs"));
    assert_eq!(file_icon_for_name("ReadMe.MD"), "icons/file-types/readme.svg");
}

#[test]
fn files_tab_uses_the_selected_file_name_and_icon() {
    let files = RightPanelSurface::Files;
    assert_eq!(right_panel_tab_label(&files, None), "Files");
    assert_eq!(right_panel_tab_label(&files, Some("packages/desktop/bun.lock")), "bun.lock");
    assert_eq!(right_panel_tab_icon(&files, Some("packages/desktop/bun.lock")), "icons/file-types/bun.svg");

    let file = RightPanelSurface::File("src/main.rs".into());
    assert_eq!(right_panel_tab_label(&file, None), "main.rs");
    assert_eq!(right_panel_tab_icon(&file, None), "icons/file-types/rust.svg");
}

#[test]
fn only_reuses_single_instance_surface_tabs() {
    let browser = RightPanelSurface::new_browser();
    let terminal = RightPanelSurface::new_terminal();
    let surfaces = vec![browser, terminal, RightPanelSurface::Files, RightPanelSurface::Diff];

    assert_eq!(reusable_surface_index(&surfaces, &RightPanelSurface::new_browser()), None);
    assert_eq!(reusable_surface_index(&surfaces, &RightPanelSurface::new_terminal()), None);
    assert_eq!(reusable_surface_index(&surfaces, &RightPanelSurface::Files), Some(2));
    assert_eq!(reusable_surface_index(&surfaces, &RightPanelSurface::Diff), Some(3));
}

#[test]
fn right_panel_state_isolated_by_session() {
    let session_with_terminal = Uuid::new_v4();
    let other_session = Uuid::new_v4();
    let terminal_id = Uuid::new_v4();
    let mut states = IdMap::new();
    let mut terminal_state = RightPanelSessionState::empty(true);
    terminal_state.surfaces = vec![RightPanelSurface::Terminal(terminal_id)];
    terminal_state.active_surface = Some(0);
    terminal_state.file_tree_width = px(248);
    states.insert(session_with_terminal, terminal_state);

    let other_state = RightPanelSessionState::take_or_closed(&mut states, other_session);
    assert!(!other_state.visible);
    assert!(other_state.surfaces.is_empty());
    assert_eq!(other_state.active_surface, None);
    assert_eq!(other_state.file_tree_width, DEFAULT_FILE_TREE_WIDTH);

    let restored = RightPanelSessionState::take_or_closed(&mut states, session_with_terminal);
    assert!(restored.visible);
    assert_eq!(restored.surfaces.len(), 1);
    assert!(restored.surfaces[0].same_as(&RightPanelSurface::Terminal(terminal_id)));
    assert_eq!(restored.active_surface, Some(0));
    assert_eq!(restored.file_tree_width, px(248));
}

#[test]
fn tab_scroll_fades_only_show_toward_hidden_content() {
    assert_eq!(tab_scroll_fade_visibility(px(0), px(120)), (false, true));
    assert_eq!(tab_scroll_fade_visibility(px(-40), px(120)), (true, true));
    assert_eq!(tab_scroll_fade_visibility(px(-120), px(120)), (true, false));
    assert_eq!(tab_scroll_fade_visibility(px(0), px(0)), (false, false));
    assert!(tab_scroll_fade(px(-40), px(120), TabScrollFadeSide::Left));
    assert!(!tab_scroll_fade(px(-120), px(120), TabScrollFadeSide::Right));
}

#[test]
fn selected_tab_offset_clears_fade_overlays() {
    assert_eq!(fade_safe_tab_offset(px(-100), px(300), px(90), px(190), px(0), px(300)), px(-66));
    assert_eq!(fade_safe_tab_offset(px(-100), px(324), px(300), px(400), px(0), px(300)), px(-124));
    assert_eq!(fade_safe_tab_offset(px(0), px(0), px(0), px(100), px(0), px(300)), px(0));
}

#[test]
fn closing_tabs_moves_to_the_neighbour() {
    let mut p = panel();
    p.open_right_panel_surface(RightPanelSurface::Files, px(700), Some("/work"));
    p.open_right_panel_surface(RightPanelSurface::Diff, px(700), Some("/work"));
    p.open_right_panel_surface(RightPanelSurface::Files, px(700), Some("/work"));
    assert_eq!(p.surfaces.len(), 2);
    assert_eq!(p.active_surface, Some(0));
    assert!(p.panels.right_panel_visible);
    assert!(p.effects.contains(&PanelEffect::RefreshDiff));
    p.close_right_panel_surface(0);
    assert_eq!(p.active_surface, Some(0));
    assert!(p.surfaces[0].same_as(&RightPanelSurface::Diff));
    p.close_right_panel_surface(7);
    assert_eq!(p.surfaces.len(), 1);
    p.close_right_panel_surface(0);
    assert_eq!(p.active_surface, None);
    assert_eq!(p.pending_tab_reveal, None);
}

#[test]
fn a_changed_file_is_never_replaced() {
    let mut p = panel();
    p.open_right_panel_file("a.rs".to_owned(), px(700), Some("/work"));
    assert_eq!(p.panels.right_panel_width, px(700));
    let (language, writable, dirty) = p.ensure_right_panel_file_editor("a.rs", Some(("one\n".to_owned(), true)));
    assert_eq!((language, writable, dirty), ("rust", true, false));
    p.open_right_panel_file("b.rs".to_owned(), px(900), Some("/work"));
    assert_eq!(p.surfaces.len(), 1);
    assert_eq!(p.panels.right_panel_width, px(700));
    p.open_right_panel_file("a.rs".to_owned(), px(900), Some("/work"));
    p.file_edited("a.rs", "two\n".to_owned());
    assert!(p.right_panel_file_is_dirty("a.rs"));
    p.open_right_panel_file("b.rs".to_owned(), px(900), Some("/work"));
    assert_eq!(p.surfaces.len(), 2);
    let (tabs, options) = p.render_right_panel_header();
    assert_eq!(tabs.iter().map(|t| (t.label.as_str(), t.active, t.dirty)).collect::<Vec<_>>(), vec![
        ("a.rs", false, true),
        ("b.rs", true, false)
    ]);
    assert_eq!(options.unwrap().iter().map(|o| o.selected).collect::<Vec<_>>(), vec![false, false, false, false]);
}

#[test]
fn saving_and_reloading_files() {
    let mut p = panel();
    p.open_right_panel_file("a.rs".to_owned(), px(700), Some("/work"));
    p.ensure_right_panel_file_editor("a.rs", Some(("one\n".to_owned(), true)));
    p.file_edited("a.rs", "two\n".to_owned());
    p.reload_right_panel_file_if_clean("a.rs", Some(("three\n".to_owned(), true)));
    assert_eq!(p.file_editors.get("a.rs").unwrap().content, "two\n");
    assert!(p.clean_paths().is_empty());
    let request = p.save_right_panel_file_action(true).unwrap();
    assert_eq!((request.relative_path.as_str(), request.content.as_str()), ("a.rs", "two\n"));
    p.finish_saving(request, Some("disk full"));
    assert_eq!(p.toast.as_deref(), Some("Could not save a.rs: disk full"));
    let request = p.save_right_panel_file_action(true).unwrap();
    p.finish_saving(request, None);
    assert!(!p.right_panel_file_is_dirty("a.rs"));
    assert_eq!(p.clean_paths(), vec!["a.rs".to_owned()]);
    p.reload_clean_right_panel_file_editors(vec![("a.rs".to_owned(), Some(("four\n".to_owned(), false)))]);
    assert_eq!(p.file_editors.get("a.rs").unwrap().content, "four\n");
    assert!(p.save_right_panel_file_action(true).is_none());
    assert_eq!(p.toast.as_deref(), Some("Could not save a.rs: file is not editable"));
    assert!(p.save_right_panel_file_action(false).is_none());
}

#[test]
fn panels_of_sessions_come_back() {
    let one = Uuid::from_u128(1);
    let other = Uuid::from_u128(2);
    let terminal = Uuid::from_u128(9);
    let mut p = panel();
    p.open_right_panel_surface(RightPanelSurface::Terminal(terminal), px(700), Some("/work"));
    assert_eq!(p.pending_terminal_focus, Some(terminal));
    p.store_selected_right_panel_state(Some(one));
    p.restore_right_panel_state(other, Some("/work"));
    assert!(p.surfaces.is_empty());
    assert!(!p.panels.right_panel_visible);
    assert!(p.terminals.contains_key(terminal));
    p.store_selected_right_panel_state(Some(other));
    p.restore_right_panel_state(one, Some("/work"));
    assert_eq!(p.active_surface, Some(0));
    assert!(p.panels.right_panel_visible);
    let (body, focus) = p.render_right_panel();
    assert!(matches!(body, PanelBody::Terminal(id) if id == terminal));
    assert_eq!(focus, Some(terminal));
    assert_eq!(p.pending_terminal_focus, None);
    p.remove_right_panel_session_state(one, Some(one));
    assert!(!p.terminals.contains_key(terminal));
    assert!(p.surfaces.is_empty());
}

#[test]
fn lists_of_the_workspace_follow_the_project_on_screen() {
    let mut p = panel();
    p.refresh_right_panel_working_tree(true, Query::Missing(4));
    assert_eq!(p.effects.last(), Some(&PanelEffect::WalkTree(4)));
    p.finish_working_tree(true, "/work", Some("/other"), walk(&StrSet::new()));
    assert!(p.working_tree.is_empty());
    p.finish_working_tree(true, "/work", Some("/work"), walk(&StrSet::new()));
    assert_eq!(p.working_tree.len(), 2);
    let rows = p.render_right_panel_working_tree(true, Some("README.md")).unwrap();
    assert_eq!(rows.iter().map(|r| (r.selected, r.chevron, r.indent)).collect::<Vec<_>>(), vec![
        (false, Some("icons/chevron-right.svg"), 8),
        (true, None, 8)
    ]);
    assert_eq!(p.render_right_panel_working_tree(false, None).unwrap_err().title, "No project open");
    p.refresh_right_panel_diff(true, Query::Pending);
    p.refresh_right_panel_diff(false, Query::Pending);
    p.toggle_directory("/work/src");
    assert!(p.expanded_paths.contains("/work/src"));
    p.toggle_directory("/work/src");
    assert!(!p.expanded_paths.contains("/work/src"));
    p.refresh_right_panel_working_tree(false, Query::Pending);
    assert!(p.working_tree.is_empty());
}

#[test]
fn tabs_are_revealed_once() {
    let mut p = panel();
    p.open_right_panel_surface(RightPanelSurface::Diff, px(700), None);
    assert_eq!(p.pending_tab_reveal, Some(0));
    p.tab_scroll_reveal_guard(3);
    assert_eq!(p.pending_tab_reveal, Some(0));
    p.tab_scroll_reveal_guard(0);
    assert_eq!(p.pending_tab_reveal, None);
}

#[test]
fn changes_are_read_from_git() {
    let known = read_tracked_files("3\t1\tsrc/b.rs\n-\t-\tlogo.png\n5\t0\ta.rs\n");
    assert_eq!(known.iter().map(|f| (f.path.as_str(), f.additions, f.deletions)).collect::<Vec<_>>(), vec![
        ("a.rs", 5, 0),
        ("logo.png", 0, 0),
        ("src/b.rs", 3, 1)
    ]);
    let fresh = read_new_paths(&known, "new.txt\na.rs\n");
    assert_eq!(fresh, vec!["new.txt".to_owned()]);
    let files = collect_diff_files(known, &vec![("new.txt".to_owned(), Some("x\ny\n".to_owned()))]);
    assert_eq!(files.iter().map(|f| f.path.as_str()).collect::<Vec<_>>(), vec!["a.rs", "logo.png", "new.txt", "src/b.rs"]);
    let summary = render_right_panel_diff(&files).unwrap();
    assert_eq!((summary.additions, summary.deletions), (10, 1));
    assert!(render_right_panel_diff(&Vec::new()).is_none());
}

#[test]
fn line_numbers_beside_a_file() {
    assert_eq!(count_lines(""), 1);
    assert_eq!(count_lines("a\nb\n"), 3);
    assert_eq!(gutter_width(7), 26);
    assert_eq!(gutter_width(1000), 44);
    assert_eq!(content_height(3, &vec![]), 3072);
    assert_eq!(content_height(3, &vec![1024, 2048, 1024]), 4096);
    let drawn = paint_gutter(5, 0, &vec![1024, 2048, 1024], (1500, 4100));
    assert_eq!(drawn, vec![
        LineNumber { number: 2, y: 1024 },
        LineNumber { number: 3, y: 3072 },
        LineNumber { number: 4, y: 4096 }
    ]);
}

#[test]
fn cards_and_placeholders() {
    let cards = render_right_panel_chooser();
    assert_eq!(cards.iter().map(|c| c.id.as_str()).collect::<Vec<_>>(), vec![
        "right-panel-card-browser",
        "right-panel-card-terminal",
        "right-panel-card-files",
        "right-panel-card-diff"
    ]);
    assert_eq!(cards[3].description, "Review current workspace changes.");
    let note = render_right_panel_placeholder(&RightPanelSurface::Diff);
    assert_eq!(note.description, "This surface is not available yet.");
    assert_eq!(note.title, "Diff");
}

#[test]
fn drags_stay_within_their_limits_and_return() {
    let limits = PanelLimits {
        sidebar_min: px(200),
        sidebar_max: px(480),
        right_panel_min: px(260),
        right_panel_max: px(900),
        file_tree_min: px(160),
        file_tree_max: px(420),
        main_min: px(400),
        file_editor_min: px(240),
    };
    let mut panels = panel().panels;
    let fitted = (px(280), px(400));
    panels.begin_panel_resize(PanelResizeTarget::Sidebar, px(280), fitted, px(224));
    assert!(panels.resize_panel_mouse_move(px(5000), px(2000), fitted, limits));
    assert_eq!(panels.sidebar_width, px(480));
    assert!(panels.resize_panel_mouse_move(px(0), px(2000), fitted, limits));
    assert_eq!(panels.sidebar_width, px(200));
    assert!(panels.resize_panel_mouse_move(px(280), px(2000), fitted, limits));
    assert_eq!(panels.sidebar_width, px(280));
    assert!(!panels.resize_panel_mouse_move(px(280) + 10, px(2000), fitted, limits));
    panels.begin_panel_resize(PanelResizeTarget::RightPanel, px(1600), fitted, px(224));
    assert!(panels.resize_panel_mouse_move(px(1500), px(2000), fitted, limits));
    assert_eq!(panels.right_panel_width, px(500));
}

#[test]
fn frames_are_counted_by_the_second() {
    let mut counter = FpsCounter { visible: true, value: 0, frames: 0, since: 0 };
    assert_eq!(counter.render_fps_counter(), FpsGrade::Unknown);
    for frame in 0..40 {
        counter.tick_fps(frame * 10);
    }
    assert_eq!(counter.value, 0);
    counter.tick_fps(1_000);
    assert_eq!((counter.value, counter.frames), (41, 0));
    assert_eq!(counter.render_fps_counter(), FpsGrade::Fair);
}
