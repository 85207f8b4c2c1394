//! One sandboxed interpreter, the directory its configuration lives in, and
//! whether a configuration script has run in it.

use vstd::prelude::*;
use vstd::string::*;

verus! {

#[verifier::external_type_specification]
#[verifier::external_body]
pub struct ExLua(mlua::Lua);

#[verifier::external_type_specification]
#[verifier::external_body]
pub struct ExTable(mlua::Table);

#[verifier::external_type_specification]
#[verifier::external_body]
pub struct ExLuaError(mlua::Error);

/// The standard libraries that an interpreter can be opened with, besides the
/// base library, which every interpreter has.
#[derive(Clone, Copy, Debug, PartialEq, Eq, Structural)]
pub struct Libraries {
    pub coroutine: bool,
    pub table: bool,
    pub io: bool,
    pub os: bool,
    pub string: bool,
    pub utf8: bool,
    pub math: bool,
    pub package: bool,
    pub debug: bool,
}

/// The libraries that a configuration script may use: coroutines, tables,
/// strings, UTF-8, mathematics and module loading. Files, the operating
/// system and the debug library stay closed.
pub open spec fn sandbox() -> Libraries {
    Libraries {
        coroutine: true,
        table: true,
        io: false,
        os: false,
        string: true,
        utf8: true,
        math: true,
        package: true,
        debug: false,
    }
}

/// The libraries that were asked for when an interpreter was opened. The base
/// library is open in every interpreter and is not among them.
pub uninterp spec fn opened_with(lua: mlua::Lua) -> Libraries;

/// `Lua::new_with` of `mlua`, with default options: an interpreter that was
/// opened with the base library and the libraries asked for, and no others;
/// asking for the debug library is refused.
#[verifier::external_body]
fn open_lua(libraries: Libraries) -> (r: Result<mlua::Lua, mlua::Error>)
    ensures
        r matches Ok(lua) ==> opened_with(lua) == libraries,
        r is Err <==> libraries.debug,
{
    let mut flags = mlua::StdLib::NONE;
    if libraries.coroutine { flags |= mlua::StdLib::COROUTINE; }
    if libraries.table { flags |= mlua::StdLib::TABLE; }
    if libraries.io { flags |= mlua::StdLib::IO; }
    if libraries.os { flags |= mlua::StdLib::OS; }
    if libraries.string { flags |= mlua::StdLib::STRING; }
    if libraries.utf8 { flags |= mlua::StdLib::UTF8; }
    if libraries.math { flags |= mlua::StdLib::MATH; }
    if libraries.package { flags |= mlua::StdLib::PACKAGE; }
    if libraries.debug { flags |= mlua::StdLib::DEBUG; }
    mlua::Lua::new_with(flags, mlua::LuaOptions::default())
}

/// The interpreter that a table was made in.
pub uninterp spec fn made_in(table: mlua::Table) -> mlua::Lua;

/// A record of a call that was made: whether `lua` was asked for a new table
/// and answered with `made`. Nothing is said of calls that were not made.
pub uninterp spec fn table_made(lua: mlua::Lua, made: Result<mlua::Table, mlua::Error>) -> bool;

/// A record of a call that was made: whether the globals of `lua` were asked
/// to hold `table` under `name` and answered with `ended`.
pub uninterp spec fn global_set(
    lua: mlua::Lua,
    name: Seq<char>,
    table: mlua::Table,
    ended: Result<(), mlua::Error>,
) -> bool;

/// A record of a call that was made: whether `source` was run in `lua` under
/// the name `name` and the run ended with `ended`.
pub uninterp spec fn chunk_run(
    lua: mlua::Lua,
    name: Seq<char>,
    source: Seq<char>,
    ended: Result<(), mlua::Error>,
) -> bool;

/// `Lua::create_table` of `mlua`: asks the interpreter for a new table. The
/// call and its answer are on record, and a table that it gives is a table of
/// that interpreter.
#[verifier::external_body]
fn new_table(lua: &mlua::Lua) -> (made: Result<mlua::Table, mlua::Error>)
    ensures
        table_made(*lua, made),
        made matches Ok(table) ==> made_in(table) == *lua,
{
    lua.create_table()
}

/// `Table::set` of `mlua` on `Lua::globals`: asks the globals of the
/// interpreter to hold `table` under `name`. The call and its answer are on
/// record. The table must be one of that interpreter: for a table of another
/// `mlua` stops the program.
#[verifier::external_body]
fn set_global(lua: &mlua::Lua, name: &str, table: mlua::Table) -> (ended: Result<
    (),
    mlua::Error,
>)
    requires
        made_in(table) == *lua,
    ensures
        global_set(*lua, name@, table, ended),
{
    lua.globals().set(name, table)
}

/// `Chunk::exec` of `mlua` on `source`, loaded with `Lua::load` and named with
/// `Chunk::set_name`: runs the script in the interpreter. The run and how it
/// ended are on record. It returns when the script ends.
#[verifier::external_body]
fn run_chunk(lua: &mlua::Lua, name: &str, source: &str) -> (ended: Result<(), mlua::Error>)
    ensures
        chunk_run(*lua, name@, source@, ended),
{
    lua.load(source).set_name(name).exec()
}

/// Whether `source` was run in `lua` under the name `name`, and the run ended
/// without an error exactly if `well`.
pub open spec fn ran_in(lua: mlua::Lua, name: Seq<char>, source: Seq<char>, well: bool) -> bool {
    exists|ended: Result<(), mlua::Error>|
        #[trigger] chunk_run(lua, name, source, ended) && (ended is Ok <==> well)
}

/// The text that an error of the interpreter displays as.
pub uninterp spec fn error_shown(error: mlua::Error) -> Seq<char>;

/// `Display` of `mlua::Error`: the text that the error displays as, which
/// depends on the error alone.
#[verifier::external_body]
fn error_text(error: &mlua::Error) -> (text: String)
    ensures
        text@ == error_shown(*error),
{
    error.to_string()
}

/// The name of the one global through which scripts reach the host.
pub const NAMESPACE: &'static str = "pigeon";

/// Why no runtime could be set up; `message` is the interpreter's error as
/// it displays.
#[derive(Clone, Debug)]
pub struct SetupError {
    pub message: String,
}

impl SetupError {
    /// The setup error for an error of the interpreter: its message is the
    /// error as it displays.
    pub fn of(error: &mlua::Error) -> (e: SetupError)
        ensures
            e.message@ == error_shown(*error),
    {
        SetupError { message: error_text(error) }
    }
}

/// Whether `outcome` is what the two registrars came to on `table`: `config`
/// is asked first, and `plugin` only once `config` has returned without an
/// error; the first error is the outcome.
pub open spec fn populated<C, P>(
    lua: &mlua::Lua,
    table: &mlua::Table,
    config: C,
    plugin: P,
    outcome: Result<(), mlua::Error>,
) -> bool where
    C: FnOnce(&mlua::Lua, &mlua::Table) -> Result<(), mlua::Error>,
    P: FnOnce(&mlua::Lua, &mlua::Table) -> Result<(), mlua::Error>,
 {
    ||| config.ensures((lua, table), outcome) && outcome is Err
    ||| exists|first: Result<(), mlua::Error>|
        {
            &&& #[trigger] config.ensures((lua, table), first)
            &&& first is Ok
            &&& plugin.ensures((lua, table), outcome)
        }
}

/// Hands `table` to the two registrars, `config` first, and gives what they
/// came to.
pub fn populate<C, P>(
    lua: &mlua::Lua,
    table: &mlua::Table,
    config: C,
    plugin: P,
) -> (outcome: Result<(), mlua::Error>)
    where
        C: FnOnce(&mlua::Lua, &mlua::Table) -> Result<(), mlua::Error>,
        P: FnOnce(&mlua::Lua, &mlua::Table) -> Result<(), mlua::Error>,
    requires
        config.requires((lua, table)),
        plugin.requires((lua, table)),
    ensures
        populated(lua, table, config, plugin, outcome),
{
    let first = config(lua, table);
    if first.is_err() {
        return first;
    }
    plugin(lua, table)
}

/// How installing a namespace table ended, and the table itself where the
/// globals were never asked to hold it.
pub struct Installation {
    pub ended: Result<(), mlua::Error>,
    pub unused: Option<mlua::Table>,
}

/// Whether `ended` is how installing the namespace ended, where `outcome` is
/// what the registrars came to on `table`: their error as it is; else the
/// answer of the globals that were asked to hold the table under the name
/// `pigeon`.
pub open spec fn installed(
    lua: mlua::Lua,
    table: mlua::Table,
    outcome: Result<(), mlua::Error>,
    ended: Result<(), mlua::Error>,
) -> bool {
    match outcome {
        Err(e) => ended is Err && ended->Err_0 == e,
        Ok(_) => global_set(lua, NAMESPACE@, table, ended),
    }
}

/// Whether `ended` is how setting up the namespace in `lua` ended: with the
/// error of the interpreter where it gave no table; else with whatever
/// installing the table came to after the registrars were asked on it.
pub open spec fn set_up<C, P>(
    lua: mlua::Lua,
    config: C,
    plugin: P,
    ended: Result<(), mlua::Error>,
) -> bool where
    C: FnOnce(&mlua::Lua, &mlua::Table) -> Result<(), mlua::Error>,
    P: FnOnce(&mlua::Lua, &mlua::Table) -> Result<(), mlua::Error>,
 {
    exists|made: Result<mlua::Table, mlua::Error>|
        #[trigger] table_made(lua, made) && match made {
            Err(e) => ended is Err && ended->Err_0 == e,
            Ok(table) => made_in(table) == lua && exists|outcome: Result<(), mlua::Error>|
                {
                    &&& #[trigger] populated(&lua, &table, config, plugin, outcome)
                    &&& installed(lua, table, outcome, ended)
                },
        }
}

/// Why a script did not load. Either names the script's path.
#[derive(Clone, Debug)]
pub enum ScriptError {
    /// The script's source could not be read.
    Unreadable { path: String },
    /// The script stopped with an error.
    Failed { path: String },
}

/// What a script error holds.
pub enum ScriptErrorView {
    Unreadable { path: Seq<char> },
    Failed { path: Seq<char> },
}

impl View for ScriptError {
    type V = ScriptErrorView;

    open spec fn view(&self) -> ScriptErrorView {
        match self {
            ScriptError::Unreadable { path } => ScriptErrorView::Unreadable { path: path@ },
            ScriptError::Failed { path } => ScriptErrorView::Failed { path: path@ },
        }
    }
}

impl ScriptErrorView {
    /// The message of the error, which ends in the script's path.
    pub open spec fn message(self) -> Seq<char> {
        match self {
            ScriptErrorView::Unreadable { path } => "Failed to read lua script: "@ + path,
            ScriptErrorView::Failed { path } => "Failed to execute Lua script: "@ + path,
        }
    }
}

impl ScriptError {
    /// The message of the error, which ends in the script's path.
    pub fn describe(&self) -> (text: String)
        ensures
            text@ == self@.message(),
    {
        match self {
            ScriptError::Unreadable { path } => {
                let mut text = String::from_str("Failed to read lua script: ");
                text.append(path.as_str());
                text
            },
            ScriptError::Failed { path } => {
                let mut text = String::from_str("Failed to execute Lua script: ");
                text.append(path.as_str());
                text
            },
        }
    }
}

/// One interpreter with the directory of its configuration. It is opened
/// with the libraries of the sandbox and no others.
pub struct LuaRuntime {
    lua: mlua::Lua,
    config_path: String,
    loaded: bool,
}

impl LuaRuntime {
    #[verifier::type_invariant]
    spec fn sandboxed(self) -> bool {
        opened_with(self.lua) == sandbox()
    }

    /// The interpreter of the runtime. It is the same from the making of the
    /// runtime on.
    pub closed spec fn engine(&self) -> mlua::Lua {
        self.lua
    }

    /// The directory that the runtime was made for.
    pub closed spec fn directory(&self) -> Seq<char> {
        self.config_path@
    }

    /// Whether a script has run to its end in this runtime.
    pub closed spec fn has_loaded(&self) -> bool {
        self.loaded
    }

    /// The libraries that the interpreter was opened with.
    pub open spec fn granted(&self) -> Libraries {
        opened_with(self.engine())
    }

    /// Whether the namespace of this runtime was set up with these
    /// registrars: a table of its interpreter was handed to both, both
    /// returned without an error, and the globals took the table under the
    /// name `pigeon`.
    pub open spec fn registered<C, P>(&self, config: C, plugin: P) -> bool where
        C: FnOnce(&mlua::Lua, &mlua::Table) -> Result<(), mlua::Error>,
        P: FnOnce(&mlua::Lua, &mlua::Table) -> Result<(), mlua::Error>,
     {
        exists|ended: Result<(), mlua::Error>|
            #[trigger] set_up(self.engine(), config, plugin, ended) && ended is Ok
    }

    /// Opens an interpreter with the libraries of the sandbox, hands a new
    /// table to the two registrars, `config` first, and makes the table the
    /// global `pigeon`. No script has run in the new runtime. Where that
    /// fails, the error shows the interpreter's error that ended the setup.
    pub fn new<C, P>(config_dir: &str, config: C, plugin: P) -> (r: Result<LuaRuntime, SetupError>)
        where
            C: FnOnce(&mlua::Lua, &mlua::Table) -> Result<(), mlua::Error>,
            P: FnOnce(&mlua::Lua, &mlua::Table) -> Result<(), mlua::Error>,
        requires
            forall|lua: &mlua::Lua, table: &mlua::Table| config.requires((lua, table)),
            forall|lua: &mlua::Lua, table: &mlua::Table| plugin.requires((lua, table)),
        ensures
            match r {
                Ok(runtime) => {
                    &&& runtime.directory() == config_dir@
                    &&& !runtime.has_loaded()
                    &&& runtime.granted() == sandbox()
                    &&& runtime.registered(config, plugin)
                },
                Err(e) => exists|lua: mlua::Lua, ended: Result<(), mlua::Error>|
                    {
                        &&& opened_with(lua) == sandbox()
                        &&& #[trigger] set_up(lua, config, plugin, ended)
                        &&& ended is Err
                        &&& e.message@ == error_shown(ended->Err_0)
                    },
            },
    {
        let libraries = Libraries {
            coroutine: true,
            table: true,
            io: false,
            os: false,
            string: true,
            utf8: true,
            math: true,
            package: true,
            debug: false,
        };
        let lua = match open_lua(libraries) {
            Ok(lua) => lua,
            Err(e) => {
                return Err(SetupError::of(&e));
            },
        };
        let runtime = LuaRuntime { lua, config_path: String::from_str(config_dir), loaded: false };
        let ended = runtime.setup(config, plugin);
        proof {
            assert(opened_with(runtime.engine()) == sandbox());
            assert(set_up(runtime.engine(), config, plugin, ended));
        }
        runtime.established(ended)
    }

    /// What setting up a runtime ends in, where `set_up` is how filling and
    /// installing its namespace ended: the runtime as it is, or the setup
    /// error for the interpreter's error.
    pub fn established(self, set_up: Result<(), mlua::Error>) -> (r: Result<LuaRuntime, SetupError>)
        ensures
            match set_up {
                Ok(_) => r is Ok && r->Ok_0 == self,
                Err(error) => r matches Err(e) && e.message@ == error_shown(error),
            },
    {
        match set_up {
            Ok(_) => Ok(self),
            Err(error) => Err(SetupError::of(&error)),
        }
    }

    /// Ends the setup of the namespace, where `outcome` is what the
    /// registrars came to on `table`. An error of theirs is handed on as it
    /// is, and the table comes back: the globals were not asked to hold it.
    /// Else the globals are asked to hold the table under the name `pigeon`,
    /// and their answer is how the setup ended.
    pub fn install(&self, table: mlua::Table, outcome: Result<(), mlua::Error>) -> (r: Installation)
        requires
            made_in(table) == self.engine(),
        ensures
            installed(self.engine(), table, outcome, r.ended),
            r.unused == if outcome is Err {
                Some(table)
            } else {
                None::<mlua::Table>
            },
    {
        if outcome.is_err() {
            return Installation { ended: outcome, unused: Some(table) };
        }
        Installation { ended: set_global(&self.lua, NAMESPACE, table), unused: None }
    }

    /// Makes the namespace table, hands it to the registrars and makes it
    /// the global `pigeon`. Where no table can be made, that error is the
    /// result; the rest is as `populate` and `install` say.
    fn setup<C, P>(&self, config: C, plugin: P) -> (r: Result<(), mlua::Error>)
        where
            C: FnOnce(&mlua::Lua, &mlua::Table) -> Result<(), mlua::Error>,
            P: FnOnce(&mlua::Lua, &mlua::Table) -> Result<(), mlua::Error>,
        requires
            forall|lua: &mlua::Lua, table: &mlua::Table| config.requires((lua, table)),
            forall|lua: &mlua::Lua, table: &mlua::Table| plugin.requires((lua, table)),
        ensures
            set_up(self.engine(), config, plugin, r),
    {
        let made = new_table(&self.lua);
        let table = match made {
            Ok(table) => table,
            Err(e) => {
                return Err(e);
            },
        };
        let outcome = populate(&self.lua, &table, config, plugin);
        let installation = self.install(table, outcome);
        proof {
            assert(populated(&self.lua, &table, config, plugin, outcome));
            assert(installed(self.lua, table, outcome, installation.ended));
            assert(table_made(self.lua, made));
        }
        installation.ended
    }

    /// What a run of the script at `path` leaves behind: `ran` says whether
    /// it came to its end. A failed run changes nothing, and the interpreter
    /// stays the one it was either way.
    pub fn settle(&mut self, path: &str, ran: bool) -> (r: Result<(), ScriptError>)
        ensures
            final(self).engine() == old(self).engine(),
            final(self).directory() == old(self).directory(),
            match r {
                Ok(_) => ran && final(self).has_loaded(),
                Err(e) => !ran && final(self).has_loaded() == old(self).has_loaded() && e@ == (
                ScriptErrorView::Failed { path: path@ }),
            },
    {
        proof {
            use_type_invariant(&*self);
        }
        if ran {
            self.loaded = true;
            Ok(())
        } else {
            Err(ScriptError::Failed { path: String::from_str(path) })
        }
    }

    /// Runs the script that was read from `path`, under that name, in the
    /// interpreter of the runtime; `script` is its source, or nothing where
    /// it could not be read. The interpreter is the one it was, and is not
    /// reset before the run. The call returns when the script ends.
    pub fn load_file(&mut self, path: &str, script: Option<&str>) -> (r: Result<(), ScriptError>)
        ensures
            final(self).engine() == old(self).engine(),
            final(self).directory() == old(self).directory(),
            match script {
                Some(source) => ran_in(old(self).engine(), path@, source@, r is Ok),
                None => r is Err,
            },
            match r {
                Ok(_) => final(self).has_loaded(),
                Err(e) => final(self).has_loaded() == old(self).has_loaded() && e@ == (
                if script is Some {
                    ScriptErrorView::Failed { path: path@ }
                } else {
                    ScriptErrorView::Unreadable { path: path@ }
                }),
            },
    {
        match script {
            None => Err(ScriptError::Unreadable { path: String::from_str(path) }),
            Some(source) => {
                let ended = run_chunk(&self.lua, path, source);
                let ran = ended.is_ok();
                self.settle(path, ran)
            },
        }
    }

    /// The directory that the runtime was made for.
    pub fn config_dir(&self) -> (dir: &str)
        ensures
            dir@ == self.directory(),
    {
        self.config_path.as_str()
    }

    /// Whether a script has run to its end in this runtime.
    pub fn is_loaded(&self) -> (loaded: bool)
        ensures
            loaded == self.has_loaded(),
    {
        self.loaded
    }

    /// The libraries that the interpreter was opened with: those of the
    /// sandbox.
    pub fn libraries(&self) -> (libraries: Libraries)
        ensures
            libraries == self.granted(),
            libraries == sandbox(),
    {
        proof {
            use_type_invariant(self);
        }
        Libraries {
            coroutine: true,
            table: true,
            io: false,
            os: false,
            string: true,
            utf8: true,
            math: true,
            package: true,
            debug: false,
        }
    }

    /// The interpreter itself, for the host's own use.
    pub fn interpreter(&self) -> (lua: &mlua::Lua)
        ensures
            *lua == self.engine(),
            opened_with(*lua) == sandbox(),
    {
        proof {
            use_type_invariant(self);
        }
        &self.lua
    }
}

} // verus!
