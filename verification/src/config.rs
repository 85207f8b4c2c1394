//! The configuration host: where the configuration lives, the one runtime of
//! a process, loading and reloading the configuration script, and the text
//! that reports how each call ended.

use vstd::prelude::*;
use vstd::string::*;
use crate::gateway::{has_nul, lemma_plain_has_no_nul};
use crate::json::{is_plain, lemma_quote_is_delimited, lemma_quote_is_plain, push_quoted, quote};
use crate::text::lemma_same_start;
use crate::lua::runtime::{
    LuaRuntime, ScriptError, ScriptErrorView, SetupError, error_shown, opened_with, ran_in, sandbox,
};

verus! {

/// The name of the configuration script inside the configuration directory.
pub const SCRIPT_NAME: &'static str = "config.lua";

/// The name of this program's directory inside a directory of configurations.
pub const APP_DIR: &'static str = "pigeon";

/// The name of the directory of configurations inside a home directory.
pub const HOME_CONFIG_DIR: &'static str = ".config";

/// What was found in a home directory.
#[derive(Clone, Copy, Debug, PartialEq, Eq, Structural)]
pub struct HomeProbe {
    /// Whether this program's directory is there already.
    pub app_dir_exists: bool,
    /// Whether the directory of configurations is there.
    pub config_dir_exists: bool,
}

/// Where the configuration directory is looked for.
#[derive(Clone, Copy, Debug, PartialEq, Eq, Structural)]
pub enum DirChoice {
    /// Under the directory of configurations of the home directory.
    Home,
    /// Under the platform's own directory of configurations.
    Platform,
}

/// Where the configuration directory is looked for: under the home directory
/// where that is known and holds this program's directory or the directory
/// of configurations; under the platform's directory otherwise.
pub open spec fn chosen(home: Option<HomeProbe>) -> DirChoice {
    match home {
        Some(probe) => if probe.app_dir_exists || probe.config_dir_exists {
            DirChoice::Home
        } else {
            DirChoice::Platform
        },
        None => DirChoice::Platform,
    }
}

/// Where the configuration directory is looked for.
pub fn choose_dir(home: Option<HomeProbe>) -> (choice: DirChoice)
    ensures
        choice == chosen(home),
{
    match home {
        Some(probe) => if probe.app_dir_exists || probe.config_dir_exists {
            DirChoice::Home
        } else {
            DirChoice::Platform
        },
        None => DirChoice::Platform,
    }
}

/// Why there is no configuration directory.
#[derive(Clone, Debug)]
pub enum DirError {
    /// The platform names no directory of configurations.
    Unknown,
    /// The directory could not be created; `reason` is the system's error.
    NotCreated { reason: String },
}

/// What a directory error holds.
pub enum DirErrorView {
    Unknown,
    NotCreated { reason: Seq<char> },
}

impl View for DirError {
    type V = DirErrorView;

    open spec fn view(&self) -> DirErrorView {
        match self {
            DirError::Unknown => DirErrorView::Unknown,
            DirError::NotCreated { reason } => DirErrorView::NotCreated { reason: reason@ },
        }
    }
}

impl DirErrorView {
    /// The message of the error.
    pub open spec fn message(self) -> Seq<char> {
        match self {
            DirErrorView::Unknown => "Failed to get config directory"@,
            DirErrorView::NotCreated { reason } => "Failed to create config directory: "@ + reason,
        }
    }
}

impl DirError {
    /// The message of the error.
    pub fn describe(&self) -> (text: String)
        ensures
            text@ == self@.message(),
    {
        match self {
            DirError::Unknown => String::from_str("Failed to get config directory"),
            DirError::NotCreated { reason } => {
                let mut text = String::from_str("Failed to create config directory: ");
                text.append(reason.as_str());
                text
            },
        }
    }
}

/// The view of a directory that was resolved, or of the error.
pub open spec fn dir_view(dir: Result<String, DirError>) -> Result<Seq<char>, DirErrorView> {
    match dir {
        Ok(dir) => Ok(dir@),
        Err(e) => Err(e@),
    }
}

/// The configuration directory: `candidate`, once it is there. `candidate`
/// is nothing where no place for it is known; `refusal` is the system's error
/// where the directory could not be created.
pub fn resolve_dir(candidate: Option<String>, refusal: Option<String>) -> (dir: Result<
    String,
    DirError,
>)
    ensures
        dir_view(dir) == match candidate {
            None => Err::<Seq<char>, DirErrorView>(DirErrorView::Unknown),
            Some(path) => match refusal {
                Some(reason) => Err(DirErrorView::NotCreated { reason: reason@ }),
                None => Ok(path@),
            },
        },
{
    match candidate {
        None => Err(DirError::Unknown),
        Some(path) => match refusal {
            Some(reason) => Err(DirError::NotCreated { reason }),
            None => Ok(path),
        },
    }
}

/// What was found at the path of the configuration script.
#[derive(Clone, Debug)]
pub enum Script {
    /// No file.
    Absent,
    /// A file that could not be read as text.
    Unreadable,
    /// A file with this source.
    Present { source: String },
}

/// Why loading the configuration failed.
#[derive(Clone, Debug)]
pub enum LoadError {
    /// There is no configuration directory.
    Directory(DirError),
    /// No runtime could be set up.
    Runtime(SetupError),
    /// The configuration script did not load.
    Script(ScriptError),
}

/// What a load error holds; of a setup error, its message.
pub enum LoadErrorView {
    Directory(DirErrorView),
    Runtime(Seq<char>),
    Script(ScriptErrorView),
}

impl View for LoadError {
    type V = LoadErrorView;

    open spec fn view(&self) -> LoadErrorView {
        match self {
            LoadError::Directory(e) => LoadErrorView::Directory(e@),
            LoadError::Runtime(e) => LoadErrorView::Runtime(e.message@),
            LoadError::Script(e) => LoadErrorView::Script(e@),
        }
    }
}

impl LoadErrorView {
    /// The message of the error, which says at which step the load failed.
    pub open spec fn message(self) -> Seq<char> {
        match self {
            LoadErrorView::Directory(e) => e.message(),
            LoadErrorView::Runtime(detail) => "Failed to create Lua runtime: "@ + detail,
            LoadErrorView::Script(e) => "Failed to load config file: "@ + e.message(),
        }
    }
}

impl LoadError {
    /// The message of the error.
    pub fn describe(&self) -> (text: String)
        ensures
            text@ == self@.message(),
    {
        match self {
            LoadError::Directory(e) => e.describe(),
            LoadError::Runtime(e) => {
                let mut text = String::from_str("Failed to create Lua runtime: ");
                text.append(e.message.as_str());
                text
            },
            LoadError::Script(e) => {
                let mut text = String::from_str("Failed to load config file: ");
                text.append(e.describe().as_str());
                text
            },
        }
    }
}

/// Why reloading the configuration failed.
#[derive(Clone, Debug)]
pub enum ReloadError {
    /// No configuration was loaded before.
    NotInitialized,
    /// The configuration script is no longer there.
    NotFound,
    /// The configuration script did not load.
    Script(ScriptError),
}

/// What a reload error holds.
pub enum ReloadErrorView {
    NotInitialized,
    NotFound,
    Script(ScriptErrorView),
}

impl View for ReloadError {
    type V = ReloadErrorView;

    open spec fn view(&self) -> ReloadErrorView {
        match self {
            ReloadError::NotInitialized => ReloadErrorView::NotInitialized,
            ReloadError::NotFound => ReloadErrorView::NotFound,
            ReloadError::Script(e) => ReloadErrorView::Script(e@),
        }
    }
}

impl ReloadErrorView {
    /// The message of the error.
    pub open spec fn message(self) -> Seq<char> {
        match self {
            ReloadErrorView::NotInitialized => "Lua runtime not initialized"@,
            ReloadErrorView::NotFound => "config file not found"@,
            ReloadErrorView::Script(e) => "Failed to reload config: "@ + e.message(),
        }
    }
}

impl ReloadError {
    /// The message of the error.
    pub fn describe(&self) -> (text: String)
        ensures
            text@ == self@.message(),
    {
        match self {
            ReloadError::NotInitialized => String::from_str("Lua runtime not initialized"),
            ReloadError::NotFound => String::from_str("config file not found"),
            ReloadError::Script(e) => {
                let mut text = String::from_str("Failed to reload config: ");
                text.append(e.describe().as_str());
                text
            },
        }
    }
}

/// The text that reports success.
pub open spec fn success_text() -> Seq<char> {
    "{\"success\":true}"@
}

/// The text that reports an error: a JSON object whose one member `error`
/// is the message.
pub open spec fn error_text(message: Seq<char>) -> Seq<char> {
    "{\"error\":"@ + quote(message) + "}"@
}

/// The text that reports success.
pub fn success_reply() -> (reply: String)
    ensures
        reply@ == success_text(),
{
    String::from_str("{\"success\":true}")
}

/// The text that reports an error with `message`.
pub fn error_reply(message: &str) -> (reply: String)
    ensures
        reply@ == error_text(message@),
{
    let mut reply = String::from_str("{\"error\":");
    push_quoted(&mut reply, message);
    reply.append("}");
    reply
}

/// Neither text holds a control character, so either crosses the boundary as
/// it is.
pub proof fn law_replies_are_plain(message: Seq<char>)
    ensures
        is_plain(success_text()),
        is_plain(error_text(message)),
{
    reveal_strlit("{\"success\":true}");
    reveal_strlit("{\"error\":");
    reveal_strlit("}");
    lemma_quote_is_plain(message);
}

/// A report of success is no report of an error, and reports of different
/// errors differ: the text tells how a call ended.
pub proof fn law_replies_tell_the_end(first: Seq<char>, second: Seq<char>)
    ensures
        error_text(first) != success_text(),
        error_text(first) == error_text(second) ==> first == second,
{
    reveal_strlit("{\"success\":true}");
    reveal_strlit("{\"error\":");
    assert(error_text(first)[2] == 'e');
    assert(success_text()[2] == 's');
    if error_text(first) == error_text(second) {
        let open = "{\"error\":"@;
        let close = "}"@;
        assert(error_text(first) =~= open + (quote(first) + close));
        assert(error_text(second) =~= open + (quote(second) + close));
        lemma_same_start(open, quote(first) + close, quote(second) + close);
        lemma_quote_is_delimited(first, close, second, close);
    }
}

/// How far the host has come.
#[derive(Clone, Copy, Debug, PartialEq, Eq, Structural)]
pub enum HostState {
    /// No runtime yet.
    Uninitialized,
    /// A runtime in which no script has run.
    Initialized,
    /// A runtime in which the configuration script has run to its end at
    /// least once.
    Loaded,
}

/// The state that a successful load leaves: the first load makes the
/// runtime of the process, any later one leaves the host as it is.
pub open spec fn after_load(before: HostState, ran: bool) -> HostState {
    match before {
        HostState::Uninitialized => if ran {
            HostState::Loaded
        } else {
            HostState::Initialized
        },
        _ => before,
    }
}

/// The error of a script that did not load.
pub open spec fn script_error(script: ScriptView, path: Seq<char>) -> ScriptErrorView {
    if script is Present {
        ScriptErrorView::Failed { path }
    } else {
        ScriptErrorView::Unreadable { path }
    }
}

/// The state, the directory and the interpreter of a host.
pub struct HostView {
    pub state: HostState,
    pub directory: Option<Seq<char>>,
    pub engine: Option<mlua::Lua>,
}

/// The view of what was found at the script's path.
pub enum ScriptView {
    Absent,
    Unreadable,
    Present { source: Seq<char> },
}

impl View for Script {
    type V = ScriptView;

    open spec fn view(&self) -> ScriptView {
        match self {
            Script::Absent => ScriptView::Absent,
            Script::Unreadable => ScriptView::Unreadable,
            Script::Present { source } => ScriptView::Present { source: source@ },
        }
    }
}

/// Whether `lua` is the interpreter of a runtime that a load made: it was
/// opened with the libraries of the sandbox, and the script that was found,
/// if its source was read, was run in it under the name `path` and ended
/// without an error exactly if `well`.
pub open spec fn made_for(
    lua: mlua::Lua,
    path: Seq<char>,
    script: ScriptView,
    well: bool,
) -> bool {
    &&& opened_with(lua) == sandbox()
    &&& script_ran(lua, path, script, well)
}

/// Whether the script that was found, if its source was read, was run in
/// `lua` under the name `path` and ended without an error exactly if `well`.
pub open spec fn script_ran(
    lua: mlua::Lua,
    path: Seq<char>,
    script: ScriptView,
    well: bool,
) -> bool {
    script matches ScriptView::Present { source } ==> ran_in(lua, path, source, well)
}

/// What a load that succeeded leaves: the first one the runtime it made,
/// with its interpreter `lua`, for the directory `dir`; any later one the
/// host as it was, runtime and interpreter and all.
pub open spec fn kept(
    before: HostView,
    dir: Seq<char>,
    script: ScriptView,
    lua: mlua::Lua,
) -> HostView {
    if before.state is Uninitialized {
        HostView {
            state: after_load(before.state, script is Present),
            directory: Some(dir),
            engine: Some(lua),
        }
    } else {
        before
    }
}

/// How a load may end, and what it leaves. It succeeds only for a directory
/// that was resolved and a script that was read or is not there; the script
/// was then run to its end in the interpreter of a runtime that the load
/// made, and `kept` says what is left. It fails with the error of the
/// directory exactly where there is no directory; otherwise with the
/// interpreter's error because no runtime could be made, or with the error of
/// the script that was found. A load that fails leaves the host as it was.
pub open spec fn load_ends(
    before: HostView,
    dir: Result<Seq<char>, DirErrorView>,
    path: Seq<char>,
    script: ScriptView,
    ended: Result<(), LoadErrorView>,
    after: HostView,
) -> bool {
    match ended {
        Ok(_) => {
            &&& dir is Ok
            &&& !(script is Unreadable)
            &&& exists|lua: mlua::Lua|
                #[trigger] made_for(lua, path, script, true) && after == kept(
                    before,
                    dir->Ok_0,
                    script,
                    lua,
                )
        },
        Err(e) => {
            &&& after == before
            &&& match e {
                LoadErrorView::Directory(e) => dir == Err::<Seq<char>, DirErrorView>(e),
                LoadErrorView::Runtime(detail) => dir is Ok && exists|error: mlua::Error|
                    detail == #[trigger] error_shown(error),
                LoadErrorView::Script(e) => {
                    &&& dir is Ok
                    &&& !(script is Absent)
                    &&& e == script_error(script, path)
                    &&& exists|lua: mlua::Lua| #[trigger] made_for(lua, path, script, false)
                },
            }
        },
    }
}

/// How a reload may end, and what it leaves. It succeeds only where there is
/// a runtime and the script was read; the script was then run to its end in
/// the interpreter of that runtime, and the host is loaded. It fails because
/// there is no runtime; else because the script is not there; else with the
/// error of the script, which was run in that interpreter if its source was
/// read. Directory and interpreter stay, and a reload that fails leaves the
/// host as it was.
pub open spec fn reload_ends(
    before: HostView,
    path: Seq<char>,
    script: ScriptView,
    ended: Result<(), ReloadErrorView>,
    after: HostView,
) -> bool {
    &&& after.directory == before.directory
    &&& after.engine == before.engine
    &&& match ended {
        Ok(_) => {
            &&& !(before.state is Uninitialized)
            &&& script is Present
            &&& after.state is Loaded
            &&& before.engine matches Some(lua) && script_ran(lua, path, script, true)
        },
        Err(e) => {
            &&& after.state == before.state
            &&& e == if before.state is Uninitialized {
                ReloadErrorView::NotInitialized
            } else if script is Absent {
                ReloadErrorView::NotFound
            } else {
                ReloadErrorView::Script(script_error(script, path))
            }
            &&& before.engine matches Some(lua) ==> script_ran(lua, path, script, false)
        },
    }
}

/// The one runtime of a process, once there is one.
pub struct ConfigHost {
    runtime: Option<LuaRuntime>,
}

impl ConfigHost {
    /// How far the host has come.
    pub closed spec fn state(&self) -> HostState {
        match self.runtime {
            None => HostState::Uninitialized,
            Some(runtime) => if runtime.has_loaded() {
                HostState::Loaded
            } else {
                HostState::Initialized
            },
        }
    }

    /// The configuration directory of the runtime, once there is one.
    pub closed spec fn directory(&self) -> Option<Seq<char>> {
        match self.runtime {
            None => None,
            Some(runtime) => Some(runtime.directory()),
        }
    }

    /// The interpreter of the runtime, once there is one.
    pub closed spec fn engine(&self) -> Option<mlua::Lua> {
        match self.runtime {
            None => None,
            Some(runtime) => Some(runtime.engine()),
        }
    }

    /// The state, the directory and the interpreter of the host.
    pub open spec fn view(&self) -> HostView {
        HostView { state: self.state(), directory: self.directory(), engine: self.engine() }
    }

    /// A host without a runtime.
    pub fn new() -> (host: ConfigHost)
        ensures
            host.state() is Uninitialized,
            host.directory() is None,
            host.engine() is None,
    {
        ConfigHost { runtime: None }
    }

    /// The configuration directory of the runtime, once there is one.
    pub fn config_dir(&self) -> (dir: Option<&str>)
        ensures
            match dir {
                Some(dir) => self.directory() == Some(dir@),
                None => self.directory() is None,
            },
    {
        match &self.runtime {
            Some(runtime) => Some(runtime.config_dir()),
            None => None,
        }
    }

    /// The runtime, once there is one.
    pub fn runtime(&self) -> (runtime: Option<&LuaRuntime>)
        ensures
            runtime is None <==> self.state() is Uninitialized,
            runtime matches Some(rt) ==> {
                &&& self.directory() == Some(rt.directory())
                &&& self.engine() == Some(rt.engine())
                &&& rt.has_loaded() <==> self.state() is Loaded
            },
    {
        self.runtime.as_ref()
    }

    /// Whether there is a runtime, and whether the script has run in it.
    pub fn current_state(&self) -> (state: HostState)
        ensures
            state == self.state(),
    {
        match &self.runtime {
            None => HostState::Uninitialized,
            Some(runtime) => if runtime.is_loaded() {
                HostState::Loaded
            } else {
                HostState::Initialized
            },
        }
    }

    /// Loads the configuration: makes a runtime for the directory `dir`,
    /// runs the script found at `path` in it, if there is one, and keeps the
    /// runtime if the host has none yet. A load that fails leaves the host as
    /// it was.
    pub fn load<C, P>(
        &mut self,
        dir: Result<String, DirError>,
        path: &str,
        script: &Script,
        config: C,
        plugin: P,
    ) -> (r: Result<(), LoadError>)
        where
            C: FnOnce(&mlua::Lua, &mlua::Table) -> Result<(), mlua::Error>,
            P: FnOnce(&mlua::Lua, &mlua::Table) -> Result<(), mlua::Error>,
        requires
            forall|lua: &mlua::Lua, table: &mlua::Table| config.requires((lua, table)),
            forall|lua: &mlua::Lua, table: &mlua::Table| plugin.requires((lua, table)),
        ensures
            load_ends(old(self)@, dir_view(dir), path@, script@, load_view(r), final(self)@),
    {
        let dir = match dir {
            Ok(dir) => dir,
            Err(e) => {
                return Err(LoadError::Directory(e));
            },
        };
        let mut runtime = match LuaRuntime::new(dir.as_str(), config, plugin) {
            Ok(runtime) => runtime,
            Err(e) => {
                return Err(LoadError::Runtime(e));
            },
        };
        let ghost lua = runtime.engine();
        let loaded = match script {
            Script::Absent => Ok(()),
            Script::Unreadable => runtime.load_file(path, None),
            Script::Present { source } => runtime.load_file(path, Some(source.as_str())),
        };
        assert(made_for(lua, path@, script@, loaded is Ok));
        match loaded {
            Ok(_) => {
                if self.runtime.is_none() {
                    self.runtime = Some(runtime);
                }
                assert(self@ == kept(old(self)@, dir@, script@, lua));
                Ok(())
            },
            Err(e) => Err(LoadError::Script(e)),
        }
    }

    /// Runs the configuration script again, in the runtime as it stands:
    /// what earlier runs left in the interpreter is still there. A reload
    /// that fails leaves the host as it was.
    pub fn reload(&mut self, path: &str, script: &Script) -> (r: Result<(), ReloadError>)
        ensures
            reload_ends(old(self)@, path@, script@, reload_view(r), final(self)@),
    {
        let mut runtime = match self.runtime.take() {
            Some(runtime) => runtime,
            None => {
                return Err(ReloadError::NotInitialized);
            },
        };
        let loaded = match script {
            Script::Absent => {
                self.runtime = Some(runtime);
                return Err(ReloadError::NotFound);
            },
            Script::Unreadable => runtime.load_file(path, None),
            Script::Present { source } => runtime.load_file(path, Some(source.as_str())),
        };
        self.runtime = Some(runtime);
        match loaded {
            Ok(_) => Ok(()),
            Err(e) => Err(ReloadError::Script(e)),
        }
    }

    /// Loads the configuration and reports how that ended, as text that can
    /// cross the boundary.
    pub fn load_config<C, P>(
        &mut self,
        dir: Result<String, DirError>,
        path: &str,
        script: &Script,
        config: C,
        plugin: P,
    ) -> (reply: String)
        where
            C: FnOnce(&mlua::Lua, &mlua::Table) -> Result<(), mlua::Error>,
            P: FnOnce(&mlua::Lua, &mlua::Table) -> Result<(), mlua::Error>,
        requires
            forall|lua: &mlua::Lua, table: &mlua::Table| config.requires((lua, table)),
            forall|lua: &mlua::Lua, table: &mlua::Table| plugin.requires((lua, table)),
        ensures
            exists|ended: Result<(), LoadErrorView>|
                {
                    &&& #[trigger] load_ends(
                        old(self)@,
                        dir_view(dir),
                        path@,
                        script@,
                        ended,
                        final(self)@,
                    )
                    &&& reply@ == load_text(ended)
                },
            !has_nul(reply@),
    {
        let ended = self.load(dir, path, script, config, plugin);
        let reply = load_reply(&ended);
        proof {
            law_replies_are_plain(
                match ended {
                    Ok(_) => Seq::empty(),
                    Err(e) => e@.message(),
                },
            );
            lemma_plain_has_no_nul(reply@);
            assert(load_ends(old(self)@, dir_view(dir), path@, script@, load_view(ended), self@));
        }
        reply
    }

    /// Reloads the configuration and reports how that ended, as text that
    /// can cross the boundary.
    pub fn reload_config(&mut self, path: &str, script: &Script) -> (reply: String)
        ensures
            exists|ended: Result<(), ReloadErrorView>|
                {
                    &&& #[trigger] reload_ends(old(self)@, path@, script@, ended, final(self)@)
                    &&& reply@ == reload_text(ended)
                },
            !has_nul(reply@),
    {
        let ended = self.reload(path, script);
        let reply = reload_reply(&ended);
        proof {
            law_replies_are_plain(
                match ended {
                    Ok(_) => Seq::empty(),
                    Err(e) => e@.message(),
                },
            );
            lemma_plain_has_no_nul(reply@);
            assert(reload_ends(old(self)@, path@, script@, reload_view(ended), self@));
        }
        reply
    }
}

/// The text that reports how loading the configuration ended.
pub open spec fn load_text(ended: Result<(), LoadErrorView>) -> Seq<char> {
    match ended {
        Ok(_) => success_text(),
        Err(e) => error_text(e.message()),
    }
}

/// The text that reports how reloading the configuration ended.
pub open spec fn reload_text(ended: Result<(), ReloadErrorView>) -> Seq<char> {
    match ended {
        Ok(_) => success_text(),
        Err(e) => error_text(e.message()),
    }
}

/// The view of how a load ended.
pub open spec fn load_view(ended: Result<(), LoadError>) -> Result<(), LoadErrorView> {
    match ended {
        Ok(_) => Ok(()),
        Err(e) => Err(e@),
    }
}

/// The view of how a reload ended.
pub open spec fn reload_view(ended: Result<(), ReloadError>) -> Result<(), ReloadErrorView> {
    match ended {
        Ok(_) => Ok(()),
        Err(e) => Err(e@),
    }
}

/// The text that reports how loading the configuration ended.
pub fn load_reply(ended: &Result<(), LoadError>) -> (reply: String)
    ensures
        reply@ == load_text(load_view(*ended)),
{
    match ended {
        Ok(_) => success_reply(),
        Err(e) => error_reply(e.describe().as_str()),
    }
}

/// The text that reports how reloading the configuration ended.
pub fn reload_reply(ended: &Result<(), ReloadError>) -> (reply: String)
    ensures
        reply@ == reload_text(reload_view(*ended)),
{
    match ended {
        Ok(_) => success_reply(),
        Err(e) => error_reply(e.describe().as_str()),
    }
}

/// How far a state is along the way from no runtime to a loaded one.
pub open spec fn progress(state: HostState) -> nat {
    match state {
        HostState::Uninitialized => 0,
        HostState::Initialized => 1,
        HostState::Loaded => 2,
    }
}

/// A load never takes the host back, however it ends; one that fails leaves
/// the host as it was; and no load takes the place of a runtime that is
/// there: state, directory and interpreter stay.
pub proof fn law_load_never_regresses(
    before: HostView,
    dir: Result<Seq<char>, DirErrorView>,
    path: Seq<char>,
    script: ScriptView,
    ended: Result<(), LoadErrorView>,
    after: HostView,
)
    requires
        load_ends(before, dir, path, script, ended, after),
    ensures
        progress(after.state) >= progress(before.state),
        ended is Err ==> after == before,
        !(before.state is Uninitialized) ==> after == before,
        ended is Ok ==> !(after.state is Uninitialized),
{
}

/// A reload never takes the host back, however it ends; one that fails
/// leaves the host as it was.
pub proof fn law_reload_never_regresses(
    before: HostView,
    path: Seq<char>,
    script: ScriptView,
    ended: Result<(), ReloadErrorView>,
    after: HostView,
)
    requires
        reload_ends(before, path, script, ended, after),
    ensures
        progress(after.state) >= progress(before.state),
        after.engine == before.engine,
        ended is Err ==> after == before,
{
}

/// Before any load has succeeded, a reload is refused, whatever it is given,
/// and the report is `{"error":"Lua runtime not initialized"}`.
pub proof fn law_reload_needs_a_runtime(
    before: HostView,
    path: Seq<char>,
    script: ScriptView,
    ended: Result<(), ReloadErrorView>,
    after: HostView,
)
    requires
        before.state is Uninitialized,
        reload_ends(before, path, script, ended, after),
    ensures
        ended == Err::<(), ReloadErrorView>(ReloadErrorView::NotInitialized),
        reload_text(ended) == error_text("Lua runtime not initialized"@),
        after == before,
{
}

/// Where no script is found, a load for a resolved directory ends in success
/// or because no runtime could be made; the script decides nothing.
pub proof fn law_load_without_script(
    before: HostView,
    dir: Seq<char>,
    path: Seq<char>,
    ended: Result<(), LoadErrorView>,
    after: HostView,
)
    requires
        load_ends(before, Ok(dir), path, ScriptView::Absent, ended, after),
    ensures
        ended is Ok || ended matches Err(LoadErrorView::Runtime(_)),
        ended is Ok ==> load_text(ended) == success_text(),
        ended is Ok && before.state is Uninitialized ==> after.state is Initialized
            && after.directory == Some(dir),
{
}

/// After a reload that succeeded the host is loaded, and every reload that
/// follows finds the runtime: it succeeds or fails for the script's sake, the
/// host stays loaded, and the interpreter is the one it was all along.
pub proof fn law_reload_again(
    first: HostView,
    path: Seq<char>,
    script: ScriptView,
    second: HostView,
    next_script: ScriptView,
    ended: Result<(), ReloadErrorView>,
    third: HostView,
)
    requires
        reload_ends(first, path, script, Ok(()), second),
        reload_ends(second, path, next_script, ended, third),
    ensures
        second.state is Loaded,
        third.state is Loaded,
        third.engine == first.engine,
        third.directory == first.directory,
        ended != Err::<(), ReloadErrorView>(ReloadErrorView::NotInitialized),
        ended is Ok ==> reload_text(ended) == success_text(),
{
}

} // verus!
