use vstd::prelude::*;
use crate::text::str_eq;

verus! {

/// The log level used when the configuration names none.
pub fn default_log_level() -> (s: String)
    ensures
        s@ == "info"@,
{
    "info".to_owned()
}

/// The server port used when the configuration names none.
pub fn default_port() -> (p: u16)
    ensures
        p == 8080,
{
    8080
}

/// The database URL used when the configuration names none.
pub fn default_db() -> (s: String)
    ensures
        s@ == "sqlite://:memory:"@,
{
    "sqlite://:memory:".to_owned()
}

/// The settings of the demo program.
pub struct AppConfig {
    pub log_level: String,
    pub server_port: u16,
    pub database_url: String,
}

impl AppConfig {
    /// The settings when nothing is configured.
    pub fn with_defaults() -> (c: Self)
        ensures
            c.log_level@ == "info"@,
            c.server_port == 8080,
            c.database_url@ == "sqlite://:memory:"@,
    {
        AppConfig {
            log_level: default_log_level(),
            server_port: default_port(),
            database_url: default_db(),
        }
    }
}

/// The log filter in force: the `RUST_LOG` setting when there is one, else
/// the configured level.
pub fn effective_log_filter(rust_log: Option<String>, config: &AppConfig) -> (s: String)
    ensures
        s@ == match rust_log {
            Some(v) => v@,
            None => config.log_level@,
        },
{
    match rust_log {
        Some(v) => v,
        None => config.log_level.clone(),
    }
}

/// A subcommand of the demo program.
pub enum DemoCommand {
    /// Show the `RUST_LOG` environment variable.
    Env,
    /// Write and read back the file at this path.
    File(String),
    /// Pass a message between two threads.
    Thread,
    /// Load the settings and start logging.
    Config,
    /// Print the usage.
    Help,
    /// A subcommand that does not exist.
    Unknown(String),
}

/// The subcommand that the arguments `args` (program name first) ask for.
pub open spec fn command_of(args: Seq<Seq<char>>, c: DemoCommand) -> bool {
    if args.len() < 2 {
        c is Help
    } else {
        let a = args[1];
        if a == "env"@ {
            c is Env
        } else if a == "file"@ {
            c matches DemoCommand::File(p) && p@ == (if args.len() > 2 {
                args[2]
            } else {
                "demo.txt"@
            })
        } else if a == "thread"@ {
            c is Thread
        } else if a == "config"@ {
            c is Config
        } else if a == "help"@ {
            c is Help
        } else {
            c matches DemoCommand::Unknown(u) && u@ == a
        }
    }
}

/// Reads the subcommand from the program arguments, program name first.
pub fn parse_command(args: &Vec<String>) -> (c: DemoCommand)
    ensures
        command_of(args@.map_values(|s: String| s@), c),
{
    let ghost view = args@.map_values(|s: String| s@);
    if args.len() < 2 {
        return DemoCommand::Help;
    }
    let a = args[1].as_str();
    assert(a@ == view[1]);
    if str_eq(a, "env") {
        DemoCommand::Env
    } else if str_eq(a, "file") {
        if args.len() > 2 {
            assert(args[2]@ == view[2]);
            DemoCommand::File(args[2].clone())
        } else {
            DemoCommand::File("demo.txt".to_owned())
        }
    } else if str_eq(a, "thread") {
        DemoCommand::Thread
    } else if str_eq(a, "config") {
        DemoCommand::Config
    } else if str_eq(a, "help") {
        DemoCommand::Help
    } else {
        DemoCommand::Unknown(a.to_owned())
    }
}

} // verus!
