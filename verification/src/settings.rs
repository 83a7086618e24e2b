//! The settings: their pages, the search through them, and how the daemon is reached from
//! outside.
use vstd::prelude::*;

use crate::desk::{wording, wording_with, Text, TextView};
use crate::file_types::{contains, holds};
use crate::lines::{decimal, decimal_of, parse_decimal, parsed};
use crate::model::{AgentSession, SessionStatus};
use crate::text::{copy_texts, same, same_texts, texts, trim, trimmed};
use crate::working_tree::{lowercase, lowercase_of};

verus! {

/// A page of the settings.
#[derive(Clone, Copy, Debug, PartialEq, Eq, Structural)]
pub enum SettingsPage {
    General,
    Appearance,
    Providers,
    Skills,
    McpServers,
    Daemon,
}

/// The pages in the order in which they are listed.
pub open spec fn settings_pages() -> Seq<SettingsPage> {
    seq![
        SettingsPage::General,
        SettingsPage::Appearance,
        SettingsPage::Providers,
        SettingsPage::Skills,
        SettingsPage::McpServers,
        SettingsPage::Daemon,
    ]
}

impl SettingsPage {
    /// The wording of its name.
    pub open spec fn label(self) -> Seq<char> {
        match self {
            SettingsPage::General => "settings.general"@,
            SettingsPage::Appearance => "settings.appearance"@,
            SettingsPage::Providers => "settings.providers"@,
            SettingsPage::Skills => "settings.skills"@,
            SettingsPage::McpServers => "settings.mcp_servers"@,
            SettingsPage::Daemon => "settings.daemon"@,
        }
    }

    /// The wording of what it is found by.
    pub open spec fn keywords(self) -> Seq<char> {
        match self {
            SettingsPage::General => "settings.general_keywords"@,
            SettingsPage::Appearance => "settings.appearance_keywords"@,
            SettingsPage::Providers => "settings.providers_keywords"@,
            SettingsPage::Skills => "settings.skills_keywords"@,
            SettingsPage::McpServers => "settings.mcp_servers_keywords"@,
            SettingsPage::Daemon => "settings.daemon_keywords"@,
        }
    }

    /// Its icon.
    pub open spec fn icon(self) -> Seq<char> {
        match self {
            SettingsPage::General => "icons/settings.svg"@,
            SettingsPage::Appearance => "icons/appearance.svg"@,
            SettingsPage::Providers => "icons/bot.svg"@,
            SettingsPage::Skills => "icons/package.svg"@,
            SettingsPage::McpServers => "icons/wrench.svg"@,
            SettingsPage::Daemon => "icons/server.svg"@,
        }
    }

    /// The wording of its name.
    pub fn label_key(self) -> (r: &'static str)
        ensures
            r@ == self.label(),
    {
        match self {
            SettingsPage::General => "settings.general",
            SettingsPage::Appearance => "settings.appearance",
            SettingsPage::Providers => "settings.providers",
            SettingsPage::Skills => "settings.skills",
            SettingsPage::McpServers => "settings.mcp_servers",
            SettingsPage::Daemon => "settings.daemon",
        }
    }

    /// The wording of what it is found by.
    pub fn keywords_key(self) -> (r: &'static str)
        ensures
            r@ == self.keywords(),
    {
        match self {
            SettingsPage::General => "settings.general_keywords",
            SettingsPage::Appearance => "settings.appearance_keywords",
            SettingsPage::Providers => "settings.providers_keywords",
            SettingsPage::Skills => "settings.skills_keywords",
            SettingsPage::McpServers => "settings.mcp_servers_keywords",
            SettingsPage::Daemon => "settings.daemon_keywords",
        }
    }

    /// Its icon.
    pub fn icon_path(self) -> (r: &'static str)
        ensures
            r@ == self.icon(),
    {
        match self {
            SettingsPage::General => "icons/settings.svg",
            SettingsPage::Appearance => "icons/appearance.svg",
            SettingsPage::Providers => "icons/bot.svg",
            SettingsPage::Skills => "icons/package.svg",
            SettingsPage::McpServers => "icons/wrench.svg",
            SettingsPage::Daemon => "icons/server.svg",
        }
    }

    /// Whether it fills the whole column, without a title.
    pub fn is_split(self) -> (r: bool)
        ensures
            r == (self == SettingsPage::Skills || self == SettingsPage::Providers || self == SettingsPage::McpServers),
    {
        match self {
            SettingsPage::Skills => true,
            SettingsPage::Providers => true,
            SettingsPage::McpServers => true,
            _ => false,
        }
    }

    /// The pages in the order in which they are listed.
    pub fn all() -> (r: Vec<SettingsPage>)
        ensures
            r@ == settings_pages(),
    {
        let mut r: Vec<SettingsPage> = Vec::new();
        r.push(SettingsPage::General);
        r.push(SettingsPage::Appearance);
        r.push(SettingsPage::Providers);
        r.push(SettingsPage::Skills);
        r.push(SettingsPage::McpServers);
        r.push(SettingsPage::Daemon);
        assert(r@ =~= settings_pages());
        r
    }
}

/// The pages that a search leaves: those whose keywords hold what is searched for.
/// `words` are the keywords of the pages, in the order of the pages.
pub open spec fn found(query: Seq<char>, pages: Seq<SettingsPage>, words: Seq<Seq<char>>) -> Seq<SettingsPage>
    decreases pages.len(),
{
    if pages.len() == 0 || words.len() < pages.len() {
        Seq::empty()
    } else {
        let before = found(query, pages.drop_last(), words.take(pages.len() - 1));
        if query.len() == 0 || holds(lowercase(words[pages.len() - 1]), query) {
            before.push(pages.last())
        } else {
            before
        }
    }
}

/// The pages that a search leaves, in their order. `query` is trimmed and in lower case, and
/// `words` are the keywords of the pages in the language of the app.
pub fn visible_settings_pages(query: &str, words: &Vec<String>) -> (r: Vec<SettingsPage>)
    requires
        words@.len() == 6,
    ensures
        r@ == found(query@, settings_pages(), texts(words@)),
{
    let pages = SettingsPage::all();
    let empty = query.unicode_len() == 0;
    let ghost all = settings_pages();
    let ghost list = texts(words@);
    let mut r: Vec<SettingsPage> = Vec::new();
    let mut i: usize = 0;
    while i < pages.len()
        invariant
            i <= pages@.len(),
            pages@ == all,
            words@.len() == pages@.len(),
            list == texts(words@),
            empty == (query@.len() == 0),
            r@ == found(query@, all.take(i as int), list.take(i as int)),
        decreases pages@.len() - i,
    {
        proof {
            assert(all.take(i + 1).drop_last() =~= all.take(i as int));
            assert(list.take(i + 1).take(i as int) =~= list.take(i as int));
            assert(list.take(i + 1)[i as int] == words@[i as int]@);
        }
        if empty || contains(lowercase_of(words[i].as_str()).as_str(), query) {
            r.push(pages[i]);
        }
        i = i + 1;
    }
    proof {
        assert(all.take(i as int) =~= all);
        assert(list.take(i as int) =~= list);
    }
    r
}

/// The row that a key moves to in a list that wraps at both ends. Without a row, the list is
/// entered at the end that the key comes from.
pub open spec fn next_row(current: Option<usize>, len: nat, key: Seq<char>) -> Option<int> {
    if len == 0 {
        None
    } else if key == "down"@ {
        Some(
            match current {
                Some(i) => if i + 1 < len {
                    i + 1
                } else {
                    0
                },
                None => 0,
            },
        )
    } else if key == "up"@ {
        Some(
            match current {
                Some(i) => if 0 < i <= len {
                    i - 1
                } else {
                    len - 1
                },
                None => len - 1,
            },
        )
    } else {
        None
    }
}

/// The row that a key moves to in a list that wraps at both ends.
pub fn next_picker_highlight(current: Option<usize>, len: usize, key: &str) -> (r: Option<usize>)
    ensures
        match r {
            Some(i) => next_row(current, len as nat, key@) == Some(i as int) && i < len,
            None => next_row(current, len as nat, key@) is None,
        },
{
    proof {
        reveal_strlit("down");
        reveal_strlit("up");
    }
    if len == 0 {
        return None;
    }
    if same(key, "down") {
        Some(
            match current {
                Some(i) => if i < len - 1 {
                    i + 1
                } else {
                    0
                },
                None => 0,
            },
        )
    } else if same(key, "up") {
        Some(
            match current {
                Some(i) => if 0 < i && i <= len {
                    i - 1
                } else {
                    len - 1
                },
                None => len - 1,
            },
        )
    } else {
        None
    }
}

/// How the daemon is reached from outside.
#[derive(Debug)]
pub struct DaemonExposureSettings {
    pub enabled: bool,
    pub port: u16,
    pub token: String,
    pub allowed_origins: Vec<String>,
}

/// What [`DaemonExposureSettings`] hold.
#[verifier::ext_equal]
pub ghost struct ExposureView {
    pub enabled: bool,
    pub port: u16,
    pub token: Seq<char>,
    pub allowed_origins: Seq<Seq<char>>,
}

impl View for DaemonExposureSettings {
    type V = ExposureView;

    open spec fn view(&self) -> ExposureView {
        ExposureView {
            enabled: self.enabled,
            port: self.port,
            token: self.token@,
            allowed_origins: texts(self.allowed_origins@),
        }
    }
}

impl Clone for DaemonExposureSettings {
    fn clone(&self) -> (r: DaemonExposureSettings)
        ensures
            r@ == self@,
    {
        DaemonExposureSettings {
            enabled: self.enabled,
            port: self.port,
            token: self.token.clone(),
            allowed_origins: copy_texts(&self.allowed_origins),
        }
    }
}

/// What a change of the settings asks of the host.
#[derive(Clone, Copy, Debug, PartialEq, Eq, Structural)]
pub enum SettingsEffect {
    Notify,
    Save,
    /// Read the skills, where they were not read yet.
    EnsureSkills,
    /// Drop what was half done on the page of providers.
    ResetProviders,
    /// Drop what was half done on the page of servers, and read their configuration again.
    ResetMcpServers,
    FocusComposer,
    /// Start the daemon again with the settings that were handed out.
    Reconfigure,
    /// Forget the runtimes of the daemon that was.
    ClearRuntimes,
    ApplyTheme,
    /// Put every text on screen into the language.
    ApplyLanguage,
    /// Take the models that are known without asking for those of every provider.
    FallBackModels,
    RefreshProviders,
    InvalidateComposerSources,
    SetMenus,
    RefreshWindow,
    StartWindowMove,
}

/// A note that goes away by itself.
#[derive(Debug)]
pub struct Note {
    /// Whether it is a good one.
    pub good: bool,
    pub text: Text,
    /// The wording of an error that it mentions.
    pub error: Option<Text>,
}

/// What a [`Note`] holds.
#[verifier::ext_equal]
pub ghost struct NoteView {
    pub good: bool,
    pub text: TextView,
    pub error: Option<TextView>,
}

impl View for Note {
    type V = NoteView;

    open spec fn view(&self) -> NoteView {
        NoteView {
            good: self.good,
            text: self.text@,
            error: match self.error {
                Some(error) => Some(error@),
                None => None,
            },
        }
    }
}

/// The settings as they are on screen.
pub struct Settings {
    /// The page on screen; nothing while the settings are closed.
    pub page: Option<SettingsPage>,
    pub search: String,
    /// How far the page is scrolled, in sixty-fourths of a pixel, downwards negative.
    pub scroll: i32,
    pub token_revealed: bool,
    pub exposure: DaemonExposureSettings,
    /// What stands in the field of the port.
    pub port_input: String,
    /// What stands in the field of the origins.
    pub origins_input: String,
    /// The daemon is being started again.
    pub reconfigure_pending: bool,
    /// The daemon is another machine's.
    pub remote: bool,
    pub hostname: String,
    pub theme: String,
    pub language: String,
    /// The window moves with the pointer.
    pub header_drag_armed: bool,
    /// A note that goes away by itself.
    pub toast: Option<Note>,
    /// What the host is asked to do, in order.
    pub effects: Vec<SettingsEffect>,
}

/// What [`Settings`] hold.
#[verifier::ext_equal]
pub ghost struct SettingsView {
    pub page: Option<SettingsPage>,
    pub search: Seq<char>,
    pub scroll: i32,
    pub token_revealed: bool,
    pub exposure: ExposureView,
    pub port_input: Seq<char>,
    pub origins_input: Seq<char>,
    pub reconfigure_pending: bool,
    pub remote: bool,
    pub hostname: Seq<char>,
    pub theme: Seq<char>,
    pub language: Seq<char>,
    pub header_drag_armed: bool,
    pub toast: Option<NoteView>,
    pub effects: Seq<SettingsEffect>,
}

impl View for Settings {
    type V = SettingsView;

    open spec fn view(&self) -> SettingsView {
        SettingsView {
            page: self.page,
            search: self.search@,
            scroll: self.scroll,
            token_revealed: self.token_revealed,
            exposure: self.exposure@,
            port_input: self.port_input@,
            origins_input: self.origins_input@,
            reconfigure_pending: self.reconfigure_pending,
            remote: self.remote,
            hostname: self.hostname@,
            theme: self.theme@,
            language: self.language@,
            header_drag_armed: self.header_drag_armed,
            toast: match self.toast {
                Some(note) => Some(note@),
                None => None,
            },
            effects: self.effects@,
        }
    }
}

/// A session keeps the daemon busy.
pub open spec fn busy(session: AgentSession) -> bool {
    session.status != SessionStatus::Idle && session.status != SessionStatus::Failed
}

/// What the check of an exposure gave: the settings, or an error.
pub open spec fn check_view(checked: Result<DaemonExposureSettings, String>) -> Result<ExposureView, Seq<char>> {
    match checked {
        Ok(settings) => Ok(settings@),
        Err(error) => Err(error@),
    }
}

impl SettingsView {
    /// One more thing is asked of the host.
    pub open spec fn ask(self, effect: SettingsEffect) -> SettingsView {
        SettingsView { effects: self.effects.push(effect), ..self }
    }

    /// A note is shown.
    pub open spec fn noted(self, good: bool, text: TextView) -> SettingsView {
        SettingsView { toast: Some(NoteView { good, text, error: None }), ..self }
    }

    /// The page on screen, or the one that is shown first.
    pub open spec fn current_page(self) -> SettingsPage {
        match self.page {
            Some(page) => page,
            None => SettingsPage::General,
        }
    }

    /// A page is opened, at its top and with nothing secret shown.
    pub open spec fn opened(self, page: SettingsPage) -> SettingsView {
        let shown = SettingsView { token_revealed: false, page: Some(page), scroll: 0, ..self };
        (match page {
            SettingsPage::Skills => shown.ask(SettingsEffect::EnsureSkills),
            SettingsPage::Providers => shown.ask(SettingsEffect::ResetProviders),
            SettingsPage::McpServers => shown.ask(SettingsEffect::ResetMcpServers),
            _ => shown,
        }).ask(SettingsEffect::Notify)
    }

    /// What is searched for.
    pub open spec fn query(self) -> Seq<char> {
        lowercase(trimmed(self.search))
    }

    /// The page that a key moves to.
    pub open spec fn next_page(self, key: Seq<char>, words: Seq<Seq<char>>) -> Option<SettingsPage> {
        let pages = found(self.query(), settings_pages(), words);
        match next_row(page_pos(pages, self.current_page()), pages.len(), key) {
            Some(i) => Some(pages[i]),
            None => None,
        }
    }

    /// The port in its field.
    pub open spec fn port(self) -> Option<u16> {
        match parsed(trimmed(self.port_input), u16::MAX as nat) {
            Some(port) => if port == 0 {
                None
            } else {
                Some(port as u16)
            },
            None => None,
        }
    }

    /// The settings in the fields. `checked` is what becomes of the ones on screen with this
    /// port and the origins in their field.
    pub open spec fn from_fields(self, checked: Result<ExposureView, Seq<char>>) -> Result<ExposureView, TextView> {
        if self.port() is None {
            Err(wording("daemon.invalid_port"))
        } else {
            match checked {
                Ok(settings) => Ok(settings),
                Err(error) => Err(TextView::Plain(error)),
            }
        }
    }

    /// The fields differ from what holds, or make no sense.
    pub open spec fn fields_dirty(self, checked: Result<ExposureView, Seq<char>>) -> bool {
        match self.from_fields(checked) {
            Ok(settings) => settings.port != self.exposure.port || settings.allowed_origins
                != self.exposure.allowed_origins,
            Err(_) => true,
        }
    }

    /// New settings are put to use, unless something stands against it. Where the daemon
    /// listens or is to listen, it is started again first.
    pub open spec fn applying(self, settings: ExposureView, stopped: bool) -> SettingsView {
        if self.reconfigure_pending || settings == self.exposure {
            self
        } else if self.remote {
            self.noted(false, wording("daemon.external_description"))
        } else if !stopped {
            self.noted(false, wording("daemon.stop_active_tasks"))
        } else if !self.exposure.enabled && !settings.enabled {
            SettingsView { exposure: settings, ..self }.ask(SettingsEffect::Save).ask(SettingsEffect::Notify)
        } else {
            SettingsView { reconfigure_pending: true, ..self }.ask(SettingsEffect::Reconfigure).ask(
                SettingsEffect::Notify,
            )
        }
    }

    /// The settings make no sense.
    pub open spec fn refused(self, error: TextView) -> SettingsView {
        SettingsView {
            toast: Some(NoteView { good: false, text: wording("daemon.invalid_settings"), error: Some(error) }),
            ..self
        }
    }

    /// The daemon was started again with new settings.
    pub open spec fn reconfigured(self, applied: ExposureView, origins: Seq<char>) -> SettingsView {
        SettingsView {
            reconfigure_pending: false,
            exposure: applied,
            port_input: decimal(applied.port as nat),
            origins_input: origins,
            ..self
        }.ask(SettingsEffect::ClearRuntimes).ask(SettingsEffect::Save).noted(true, wording("daemon.settings_applied")).ask(
            SettingsEffect::Notify,
        )
    }

    /// The daemon could not be started again.
    pub open spec fn reconfigure_failed(self, error: Seq<char>) -> SettingsView {
        SettingsView { reconfigure_pending: false, ..self }.noted(
            false,
            wording_with("daemon.restart_failed", "error", error),
        ).ask(SettingsEffect::Notify)
    }

    /// The language is another.
    pub open spec fn speaking(self, language: Seq<char>) -> SettingsView {
        if self.language == language {
            self
        } else {
            SettingsView { language, ..self }.ask(SettingsEffect::ApplyLanguage).ask(SettingsEffect::FallBackModels).ask(
                SettingsEffect::RefreshProviders,
            ).ask(SettingsEffect::InvalidateComposerSources).ask(SettingsEffect::SetMenus).ask(SettingsEffect::Save).ask(
                SettingsEffect::RefreshWindow,
            ).ask(SettingsEffect::Notify)
        }
    }

    /// The theme is another.
    pub open spec fn themed(self, theme: Seq<char>) -> SettingsView {
        if self.theme == theme {
            self
        } else {
            SettingsView { theme, ..self }.ask(SettingsEffect::ApplyTheme).ask(SettingsEffect::Save).ask(
                SettingsEffect::Notify,
            )
        }
    }
}

/// Where a page stands in a list, if it does.
pub open spec fn page_pos(pages: Seq<SettingsPage>, page: SettingsPage) -> Option<usize>
    decreases pages.len(),
{
    if pages.len() == 0 {
        None
    } else {
        match page_pos(pages.drop_last(), page) {
            Some(i) => Some(i),
            None => if pages.last() == page {
                Some((pages.len() - 1) as usize)
            } else {
                None
            },
        }
    }
}

fn find_page(pages: &Vec<SettingsPage>, page: SettingsPage) -> (r: Option<usize>)
    ensures
        r == page_pos(pages@, page),
{
    let mut i: usize = 0;
    let mut r: Option<usize> = None;
    assert(pages@.take(0) =~= Seq::empty());
    while i < pages.len()
        invariant
            i <= pages@.len(),
            r == page_pos(pages@.take(i as int), page),
        decreases pages@.len() - i,
    {
        assert(pages@.take(i + 1).drop_last() =~= pages@.take(i as int));
        if r.is_none() && pages[i] == page {
            r = Some(i);
        }
        i = i + 1;
    }
    assert(pages@.take(i as int) =~= pages@);
    r
}

/// Whether every session has come to rest.
pub fn at_rest(sessions: &Vec<AgentSession>) -> (r: bool)
    ensures
        r == forall|i: int| 0 <= i < sessions@.len() ==> !busy(#[trigger] sessions@[i]),
{
    let mut i: usize = 0;
    while i < sessions.len()
        invariant
            i <= sessions@.len(),
            forall|j: int| 0 <= j < i ==> !busy(#[trigger] sessions@[j]),
        decreases sessions@.len() - i,
    {
        match sessions[i].status {
            SessionStatus::Idle => {},
            SessionStatus::Failed => {},
            _ => {
                assert(busy(sessions@[i as int]));
                return false;
            },
        }
        i = i + 1;
    }
    true
}

/// How the page of the daemon is drawn.
#[derive(Debug)]
pub struct DaemonPage {
    /// The wording of where the daemon stands.
    pub status: &'static str,
    pub enabled: bool,
    /// The switch and the button for a new token do nothing.
    pub pending: bool,
    pub apply_disabled: bool,
    /// The wording of the button that puts the fields to use.
    pub apply_label: &'static str,
    pub url: String,
    pub copy_url_icon: &'static str,
    pub copy_url_label: &'static str,
    /// The token, or dots in its place.
    pub token: String,
    pub reveal_icon: &'static str,
    pub reveal_tooltip: &'static str,
    pub copy_token_icon: &'static str,
    pub copy_token_label: &'static str,
}

/// The icon of a button that copies.
pub open spec fn copy_icon(copied: bool) -> Seq<char> {
    if copied {
        "icons/check.svg"@
    } else {
        "icons/copy.svg"@
    }
}

/// The wording of a button that copies.
pub open spec fn copy_label(copied: bool) -> Seq<char> {
    if copied {
        "common.copied"@
    } else {
        "common.copy"@
    }
}

fn copy_button(copied: bool) -> (r: (&'static str, &'static str))
    ensures
        r.0@ == copy_icon(copied),
        r.1@ == copy_label(copied),
{
    if copied {
        ("icons/check.svg", "common.copied")
    } else {
        ("icons/copy.svg", "common.copy")
    }
}

impl SettingsView {
    /// Where the daemon is reached.
    pub open spec fn url(self) -> Seq<char> {
        "ws://"@ + self.hostname + ":"@ + decimal(self.exposure.port as nat)
    }

    /// How the page of the daemon is drawn.
    pub open spec fn is_daemon_page(
        self,
        page: DaemonPage,
        checked: Result<ExposureView, Seq<char>>,
        copied: (bool, bool),
    ) -> bool {
        &&& page.status@ == (if self.reconfigure_pending {
            "daemon.status_restarting"@
        } else if self.exposure.enabled {
            "daemon.status_exposed"@
        } else {
            "daemon.status_local"@
        })
        &&& page.enabled == self.exposure.enabled
        &&& page.pending == self.reconfigure_pending
        &&& page.apply_disabled == (self.reconfigure_pending || !self.fields_dirty(checked))
        &&& page.apply_label@ == (if self.reconfigure_pending {
            "daemon.restarting"@
        } else {
            "daemon.apply"@
        })
        &&& page.url@ == self.url()
        &&& page.copy_url_icon@ == copy_icon(copied.0)
        &&& page.copy_url_label@ == copy_label(copied.0)
        &&& page.token@ == (if self.token_revealed {
            self.exposure.token
        } else {
            "••••••••••••••••••••••••••••••••"@
        })
        &&& page.reveal_icon@ == (if self.token_revealed {
            "icons/eye-off.svg"@
        } else {
            "icons/eye.svg"@
        })
        &&& page.reveal_tooltip@ == (if self.token_revealed {
            "daemon.hide_token"@
        } else {
            "daemon.reveal_token"@
        })
        &&& page.copy_token_icon@ == copy_icon(copied.1)
        &&& page.copy_token_label@ == copy_label(copied.1)
    }
}

impl Settings {
    fn ask(&mut self, effect: SettingsEffect)
        ensures
            final(self)@ == old(self)@.ask(effect),
            final(self).exposure == old(self).exposure,
    {
        self.effects.push(effect);
    }

    fn note(&mut self, good: bool, text: Text)
        ensures
            final(self)@ == old(self)@.noted(good, text@),
    {
        self.toast = Some(Note { good, text, error: None });
    }

    /// Shows a page.
    pub fn open_settings_page(&mut self, page: SettingsPage)
        ensures
            final(self)@ == old(self)@.opened(page),
    {
        self.token_revealed = false;
        self.page = Some(page);
        self.scroll = 0;
        match page {
            SettingsPage::Skills => self.ask(SettingsEffect::EnsureSkills),
            SettingsPage::Providers => self.ask(SettingsEffect::ResetProviders),
            SettingsPage::McpServers => self.ask(SettingsEffect::ResetMcpServers),
            _ => {},
        }
        self.ask(SettingsEffect::Notify);
    }

    /// Closes the settings.
    pub fn close_settings(&mut self)
        ensures
            final(self)@ == (SettingsView { page: None, ..old(self)@ }).ask(SettingsEffect::FocusComposer).ask(
                SettingsEffect::Notify,
            ),
    {
        self.page = None;
        self.ask(SettingsEffect::FocusComposer);
        self.ask(SettingsEffect::Notify);
    }

    /// What is searched for.
    pub fn settings_search_query(&self) -> (r: String)
        ensures
            r@ == self@.query(),
    {
        lowercase_of(trim(self.search.as_str()))
    }

    /// Moves to the next page that the search leaves, or to the one before, round the ends.
    pub fn cycle_settings_page(&mut self, key: &str, words: &Vec<String>)
        requires
            words@.len() == 6,
        ensures
            final(self)@ == (match old(self)@.next_page(key@, texts(words@)) {
                Some(page) => old(self)@.opened(page),
                None => old(self)@,
            }),
    {
        let query = self.settings_search_query();
        let pages = visible_settings_pages(query.as_str(), words);
        let page = match self.page {
            Some(page) => page,
            None => SettingsPage::General,
        };
        let current = find_page(&pages, page);
        if let Some(next) = next_picker_highlight(current, pages.len(), key) {
            self.open_settings_page(pages[next]);
        }
    }

    /// Empties the search. Says whether the key is left to others, as it is where nothing
    /// was searched for.
    pub fn clear_search(&mut self) -> (r: bool)
        ensures
            r == (old(self)@.search.len() == 0),
            final(self)@ == (SettingsView { search: Seq::empty(), ..old(self)@ }),
    {
        if self.search.as_str().unicode_len() == 0 {
            assert(self@.search =~= Seq::empty());
            return true;
        }
        self.search = "".to_owned();
        proof {
            reveal_strlit("");
            assert(self@.search =~= Seq::empty());
        }
        false
    }

    /// Which pages the list shows, and which of them is marked.
    pub fn render_settings_sidebar(&self, words: &Vec<String>) -> (r: (Vec<SettingsPage>, SettingsPage))
        requires
            words@.len() == 6,
        ensures
            r.0@ == found(self@.query(), settings_pages(), texts(words@)),
            r.1 == self@.current_page(),
    {
        let query = self.settings_search_query();
        let pages = visible_settings_pages(query.as_str(), words);
        let page = match self.page {
            Some(page) => page,
            None => SettingsPage::General,
        };
        (pages, page)
    }

    /// How high the strip above the list is, in pixels.
    pub fn render_settings_sidebar_titlebar(&self, window_controls: bool) -> (r: u32)
        ensures
            r == (if window_controls {
                48u32
            } else {
                12u32
            }),
    {
        if window_controls {
            48
        } else {
            12
        }
    }

    /// The page on screen, whether it fills the column, and whether a line is drawn above
    /// it because it is scrolled by more than a pixel.
    pub fn render_settings_content(&self) -> (r: (SettingsPage, bool, bool))
        ensures
            r.0 == self@.current_page(),
            r.1 == (r.0 == SettingsPage::Skills || r.0 == SettingsPage::Providers || r.0 == SettingsPage::McpServers),
            r.2 == (!r.1 && self@.scroll < -64),
    {
        let page = match self.page {
            Some(page) => page,
            None => SettingsPage::General,
        };
        let split = page.is_split();
        (page, split, !split && self.scroll < -64)
    }

    /// The pointer goes down on the strip above the page, or off it.
    pub fn arm_header_drag(&mut self, armed: bool)
        ensures
            final(self)@ == (SettingsView { header_drag_armed: armed, ..old(self)@ }),
    {
        self.header_drag_armed = armed;
    }

    /// The pointer moves over the strip: once it went down there, the window moves along.
    pub fn drag_header(&mut self)
        ensures
            final(self)@ == (if old(self)@.header_drag_armed {
                (SettingsView { header_drag_armed: false, ..old(self)@ }).ask(SettingsEffect::StartWindowMove)
            } else {
                old(self)@
            }),
    {
        if self.header_drag_armed {
            self.header_drag_armed = false;
            self.ask(SettingsEffect::StartWindowMove);
        }
    }

    /// The port that stands in its field.
    pub fn port_in_field(&self) -> (r: Option<u16>)
        ensures
            r == self@.port(),
    {
        match parse_decimal(trim(self.port_input.as_str()), 65535) {
            Some(port) => {
                if port == 0 {
                    None
                } else {
                    Some(port as u16)
                }
            },
            None => None,
        }
    }

    /// What is to be checked before it is put to use: what holds, with the port in its
    /// field, and the origins as they stand in theirs. Nothing where the port makes no
    /// sense.
    pub fn exposure_to_check(&self) -> (r: Option<(DaemonExposureSettings, String)>)
        ensures
            match self@.port() {
                Some(port) => r matches Some((settings, origins)) && settings@ == (ExposureView {
                    port,
                    ..self@.exposure
                }) && origins@ == self@.origins_input,
                None => r is None,
            },
    {
        match self.port_in_field() {
            Some(port) => {
                let mut settings = self.exposure.clone();
                settings.port = port;
                Some((settings, self.origins_input.clone()))
            },
            None => None,
        }
    }


    /// The settings in the fields. `checked` is what the client makes of the settings that
    /// hold, with the port and the origins of the fields.
    pub fn daemon_exposure_from_fields(&self, checked: Result<DaemonExposureSettings, String>) -> (r: Result<
        DaemonExposureSettings,
        Text,
    >)
        ensures
            match r {
                Ok(settings) => self@.from_fields(check_view(checked)) == Ok::<ExposureView, TextView>(settings@),
                Err(error) => self@.from_fields(check_view(checked)) == Err::<ExposureView, TextView>(error@),
            },
    {
        if self.port_in_field().is_none() {
            return Err(Text::key("daemon.invalid_port"));
        }
        match checked {
            Ok(settings) => Ok(settings),
            Err(error) => Err(Text::Plain(error)),
        }
    }

    /// Whether the fields differ from what holds, or make no sense.
    pub fn daemon_exposure_fields_dirty(&self, checked: Result<DaemonExposureSettings, String>) -> (r: bool)
        ensures
            r == self@.fields_dirty(check_view(checked)),
    {
        match self.daemon_exposure_from_fields(checked) {
            Ok(settings) => settings.port != self.exposure.port || !same_texts(
                &settings.allowed_origins,
                &self.exposure.allowed_origins,
            ),
            Err(_) => true,
        }
    }

    fn refuse(&mut self, error: Text)
        ensures
            final(self)@ == old(self)@.refused(error@),
    {
        self.toast = Some(Note { good: false, text: Text::key("daemon.invalid_settings"), error: Some(error) });
    }

    fn same_exposure(&self, settings: &DaemonExposureSettings) -> (r: bool)
        ensures
            r == (settings@ == self@.exposure),
    {
        let r = settings.enabled == self.exposure.enabled && settings.port == self.exposure.port && same(
            settings.token.as_str(),
            self.exposure.token.as_str(),
        ) && same_texts(&settings.allowed_origins, &self.exposure.allowed_origins);
        proof {
            if r {
                assert(settings@ =~~= self@.exposure);
            }
        }
        r
    }

    /// Puts new settings to use. Returns those that the daemon is to be started again with.
    pub fn apply_daemon_exposure(&mut self, settings: DaemonExposureSettings, sessions: &Vec<AgentSession>) -> (r: Option<
        DaemonExposureSettings,
    >)
        ensures
            final(self)@ == old(self)@.applying(
                settings@,
                forall|i: int| 0 <= i < sessions@.len() ==> !busy(#[trigger] sessions@[i]),
            ),
            match r {
                Some(given) => given@ == settings@ && !old(self)@.reconfigure_pending && final(self)@.reconfigure_pending,
                None => final(self)@.reconfigure_pending == old(self)@.reconfigure_pending,
            },
    {
        if self.reconfigure_pending || self.same_exposure(&settings) {
            return None;
        }
        if self.remote {
            self.note(false, Text::key("daemon.external_description"));
            return None;
        }
        if !at_rest(sessions) {
            self.note(false, Text::key("daemon.stop_active_tasks"));
            return None;
        }
        if !self.exposure.enabled && !settings.enabled {
            self.exposure = settings;
            self.ask(SettingsEffect::Save);
            self.ask(SettingsEffect::Notify);
            return None;
        }
        self.reconfigure_pending = true;
        self.ask(SettingsEffect::Reconfigure);
        self.ask(SettingsEffect::Notify);
        Some(settings)
    }

    /// Has the daemon listen to the outside, or no longer.
    pub fn set_daemon_exposure_enabled(
        &mut self,
        enabled: bool,
        checked: Result<DaemonExposureSettings, String>,
        sessions: &Vec<AgentSession>,
    ) -> (r: Option<DaemonExposureSettings>)
        ensures
            ({
                let stopped = forall|i: int| 0 <= i < sessions@.len() ==> !busy(#[trigger] sessions@[i]);
                let start = if enabled {
                    old(self)@
                } else {
                    SettingsView { token_revealed: false, ..old(self)@ }
                };
                if enabled {
                    match old(self)@.from_fields(check_view(checked)) {
                        Ok(settings) => final(self)@ == start.applying(
                            ExposureView { enabled: true, ..settings },
                            stopped,
                        ) && (r matches Some(given) ==> given@ == (ExposureView { enabled: true, ..settings })),
                        Err(error) => final(self)@ == start.refused(error) && r is None,
                    }
                } else {
                    final(self)@ == start.applying(ExposureView { enabled: false, ..start.exposure }, stopped) && (
                    r matches Some(given) ==> given@ == (ExposureView { enabled: false, ..start.exposure }))
                }
            }),
            r is Some == (final(self)@.reconfigure_pending && !old(self)@.reconfigure_pending),
    {
        if !enabled {
            self.token_revealed = false;
            let mut settings = self.exposure.clone();
            settings.enabled = false;
            return self.apply_daemon_exposure(settings, sessions);
        }
        match self.daemon_exposure_from_fields(checked) {
            Ok(settings) => {
                let mut settings = settings;
                settings.enabled = true;
                self.apply_daemon_exposure(settings, sessions)
            },
            Err(error) => {
                self.refuse(error);
                None
            },
        }
    }

    /// Puts what stands in the fields to use.
    pub fn apply_daemon_exposure_fields(
        &mut self,
        checked: Result<DaemonExposureSettings, String>,
        sessions: &Vec<AgentSession>,
    ) -> (r: Option<DaemonExposureSettings>)
        ensures
            match old(self)@.from_fields(check_view(checked)) {
                Ok(settings) => final(self)@ == old(self)@.applying(
                    settings,
                    forall|i: int| 0 <= i < sessions@.len() ==> !busy(#[trigger] sessions@[i]),
                ) && (r matches Some(given) ==> given@ == settings),
                Err(error) => final(self)@ == old(self)@.refused(error) && r is None,
            },
            r is Some == (final(self)@.reconfigure_pending && !old(self)@.reconfigure_pending),
    {
        match self.daemon_exposure_from_fields(checked) {
            Ok(settings) => self.apply_daemon_exposure(settings, sessions),
            Err(error) => {
                self.refuse(error);
                None
            },
        }
    }

    /// Puts a new token to use, with what stands in the fields.
    pub fn regenerate_daemon_token(
        &mut self,
        token: String,
        checked: Result<DaemonExposureSettings, String>,
        sessions: &Vec<AgentSession>,
    ) -> (r: Option<DaemonExposureSettings>)
        ensures
            match old(self)@.from_fields(check_view(checked)) {
                Ok(settings) => final(self)@ == (SettingsView { token_revealed: false, ..old(self)@ }).applying(
                    ExposureView { token: token@, ..settings },
                    forall|i: int| 0 <= i < sessions@.len() ==> !busy(#[trigger] sessions@[i]),
                ) && (r matches Some(given) ==> given@ == (ExposureView { token: token@, ..settings })),
                Err(error) => final(self)@ == old(self)@.refused(error) && r is None,
            },
            r is Some == (final(self)@.reconfigure_pending && !old(self)@.reconfigure_pending),
    {
        match self.daemon_exposure_from_fields(checked) {
            Ok(settings) => {
                let mut settings = settings;
                settings.token = token;
                self.token_revealed = false;
                self.apply_daemon_exposure(settings, sessions)
            },
            Err(error) => {
                self.refuse(error);
                None
            },
        }
    }

    /// Takes in how starting the daemon again went. `origins` are the origins as they are
    /// written in their field.
    pub fn finish_daemon_exposure(&mut self, applied: DaemonExposureSettings, origins: String, error: Option<String>)
        ensures
            final(self)@ == (match error {
                None => old(self)@.reconfigured(applied@, origins@),
                Some(text) => old(self)@.reconfigure_failed(text@),
            }),
    {
        self.reconfigure_pending = false;
        match error {
            None => {
                self.port_input = decimal_of(applied.port as u64);
                self.origins_input = origins;
                self.exposure = applied;
                self.ask(SettingsEffect::ClearRuntimes);
                self.ask(SettingsEffect::Save);
                self.note(true, Text::key("daemon.settings_applied"));
            },
            Some(text) => {
                self.note(false, Text::with("daemon.restart_failed", "error", text));
            },
        }
        self.ask(SettingsEffect::Notify);
    }

    /// Shows the token, or hides it.
    pub fn toggle_daemon_token(&mut self)
        ensures
            final(self)@ == (SettingsView { token_revealed: !old(self)@.token_revealed, ..old(self)@ }).ask(
                SettingsEffect::Notify,
            ),
    {
        self.token_revealed = !self.token_revealed;
        self.ask(SettingsEffect::Notify);
    }

    /// How the page of the daemon is drawn; nothing of it for a daemon elsewhere. `copied`
    /// says whether the address and the token were just copied.
    pub fn render_daemon_settings(&self, checked: Result<DaemonExposureSettings, String>, copied: (bool, bool)) -> (r: Option<
        DaemonPage,
    >)
        ensures
            match r {
                None => self@.remote,
                Some(page) => !self@.remote && self@.is_daemon_page(page, check_view(checked), copied),
            },
    {
        if self.remote {
            return None;
        }
        let enabled = self.exposure.enabled;
        let pending = self.reconfigure_pending;
        let fields_dirty = self.daemon_exposure_fields_dirty(checked);
        let mut url = "ws://".to_owned();
        url.append(self.hostname.as_str());
        url.append(":");
        url.append(decimal_of(self.exposure.port as u64).as_str());
        let (copy_url_icon, copy_url_label) = copy_button(copied.0);
        let (copy_token_icon, copy_token_label) = copy_button(copied.1);
        let token = if self.token_revealed {
            self.exposure.token.clone()
        } else {
            "••••••••••••••••••••••••••••••••".to_owned()
        };
        Some(
            DaemonPage {
                status: if pending {
                    "daemon.status_restarting"
                } else if enabled {
                    "daemon.status_exposed"
                } else {
                    "daemon.status_local"
                },
                enabled,
                pending,
                apply_disabled: pending || !fields_dirty,
                apply_label: if pending {
                    "daemon.restarting"
                } else {
                    "daemon.apply"
                },
                url,
                copy_url_icon,
                copy_url_label,
                token,
                reveal_icon: if self.token_revealed {
                    "icons/eye-off.svg"
                } else {
                    "icons/eye.svg"
                },
                reveal_tooltip: if self.token_revealed {
                    "daemon.hide_token"
                } else {
                    "daemon.reveal_token"
                },
                copy_token_icon,
                copy_token_label,
            },
        )
    }

    /// Which of the themes and which of the languages is marked.
    pub fn render_appearance_settings(&self, themes: &Vec<String>, languages: &Vec<String>) -> (r: (Vec<bool>, Vec<bool>))
        ensures
            r.0@ =~= Seq::new(themes@.len(), |i: int| themes@[i]@ == self@.theme),
            r.1@ =~= Seq::new(languages@.len(), |i: int| languages@[i]@ == self@.language),
    {
        (mark(themes, self.theme.as_str()), mark(languages, self.language.as_str()))
    }

    /// Changes the theme.
    pub fn set_theme_preference(&mut self, theme: &str)
        ensures
            final(self)@ == old(self)@.themed(theme@),
    {
        if same(self.theme.as_str(), theme) {
            return;
        }
        self.theme = theme.to_owned();
        self.ask(SettingsEffect::ApplyTheme);
        self.ask(SettingsEffect::Save);
        self.ask(SettingsEffect::Notify);
    }

    /// Changes the language.
    pub fn set_language(&mut self, language: &str)
        ensures
            final(self)@ == old(self)@.speaking(language@),
    {
        if same(self.language.as_str(), language) {
            return;
        }
        self.language = language.to_owned();
        self.ask(SettingsEffect::ApplyLanguage);
        self.ask(SettingsEffect::FallBackModels);
        self.ask(SettingsEffect::RefreshProviders);
        self.ask(SettingsEffect::InvalidateComposerSources);
        self.ask(SettingsEffect::SetMenus);
        self.ask(SettingsEffect::Save);
        self.ask(SettingsEffect::RefreshWindow);
        self.ask(SettingsEffect::Notify);
    }
}

fn mark(names: &Vec<String>, name: &str) -> (r: Vec<bool>)
    ensures
        r@ =~= Seq::new(names@.len(), |i: int| names@[i]@ == name@),
{
    let mut r: Vec<bool> = Vec::new();
    let mut i: usize = 0;
    while i < names.len()
        invariant
            i <= names@.len(),
            r@ =~= Seq::new(i as nat, |j: int| names@[j]@ == name@),
        decreases names@.len() - i,
    {
        r.push(same(names[i].as_str(), name));
        i = i + 1;
    }
    r
}

/// Opening a page hides the token, whatever page was open before.
pub proof fn visits_start_masked(settings: SettingsView, page: SettingsPage)
    ensures
        !settings.opened(page).token_revealed,
        settings.opened(page).page == Some(page),
        settings.opened(page).scroll == 0,
        settings.opened(page).exposure == settings.exposure,
{
}

/// An empty search leaves every page.
pub proof fn empty_search_shows_all(words: Seq<Seq<char>>)
    requires
        words.len() == 6,
    ensures
        found(Seq::empty(), settings_pages(), words) == settings_pages(),
{
    lemma_all_found(settings_pages(), words);
}

proof fn lemma_all_found(pages: Seq<SettingsPage>, words: Seq<Seq<char>>)
    requires
        words.len() == pages.len(),
    ensures
        found(Seq::empty(), pages, words) == pages,
    decreases pages.len(),
{
    if pages.len() > 0 {
        lemma_all_found(pages.drop_last(), words.take(pages.len() - 1));
        assert(pages.drop_last().push(pages.last()) =~= pages);
    } else {
        assert(pages =~= Seq::empty());
    }
}

/// Moving down and then up comes back to the same row.
pub proof fn rows_come_back(row: usize, len: nat)
    requires
        row < len <= usize::MAX,
    ensures
        ({
            let down = next_row(Some(row), len, "down"@);
            down matches Some(i) && next_row(Some(i as usize), len, "up"@) == Some(row as int)
        }),
        ({
            let up = next_row(Some(row), len, "up"@);
            up matches Some(i) && next_row(Some(i as usize), len, "down"@) == Some(row as int)
        }),
{
    reveal_strlit("down");
    reveal_strlit("up");
    assert("up"@.len() != "down"@.len());
}

/// While the daemon is being started again, while it is another machine's, or while a
/// session is at work, how it is reached does not change.
pub proof fn exposure_waits(settings: SettingsView, wanted: ExposureView, stopped: bool)
    requires
        settings.reconfigure_pending || settings.remote || !stopped,
    ensures
        settings.applying(wanted, stopped).exposure == settings.exposure,
        settings.applying(wanted, stopped).effects == settings.effects,
{
}

/// A daemon that listens, or is to listen, holds the new settings only once it was started
/// again with them; a failure leaves the old.
pub proof fn exposure_follows_the_daemon(settings: SettingsView, wanted: ExposureView, origins: Seq<char>, error: Seq<char>)
    requires
        settings.exposure.enabled || wanted.enabled,
    ensures
        settings.applying(wanted, true).exposure == settings.exposure,
        settings.applying(wanted, true).reconfigured(wanted, origins).exposure == wanted,
        settings.applying(wanted, true).reconfigure_failed(error).exposure == settings.exposure,
        !settings.applying(wanted, true).reconfigure_failed(error).reconfigure_pending,
{
}

} // verus!
