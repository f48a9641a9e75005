//! The run's configuration: recognized options, their defaults, and the
//! validation applied before the engine starts.

use vstd::prelude::*;

verus! {

/// The concurrency limit used when the caller gives none.
pub const DEFAULT_CONCURRENCY: usize = 4;

/// The deadline, in seconds, used in repository mode when the caller gives
/// none.
pub const DEFAULT_TIMEOUT_SECS: u64 = 3;

/// The configuration file read when the caller names none.
pub const DEFAULT_CONFIG_FILENAME: &'static str = "repo.conf";

/// A rejected configuration.
#[derive(Clone, Copy, PartialEq, Eq, Structural, Debug)]
pub enum ConfigError {
    /// No command was given to run.
    MissingCommand,
    /// The concurrency limit was zero; at least one slot is needed.
    ZeroConcurrency,
}

/// One run's settings, constructed once at startup and passed by reference
/// into the engine.
#[derive(Debug)]
pub struct Config {
    /// Whether to print a per-target header before each result.
    pub show_header: bool,
    /// Whether to inject colouring flags for recognized commands.
    pub use_color: bool,
    /// Whether targets are directories to run in (true) or files appended
    /// as the last argument (false).
    pub in_repos: bool,
    /// The file the target list is read from.
    pub config_filename: String,
    /// The concurrency limit C, at least one.
    pub max_concurrent_tasks: usize,
    /// The per-invocation deadline in seconds; absent means no cap.
    pub timeout_secs: Option<u64>,
    /// Whether a non-zero exit code is routed to the error channel as well,
    /// rather than only annotated in the header.
    pub nonzero_is_error: bool,
    /// The executable to run.
    pub command: String,
    /// The arguments after the executable, in order.
    pub arguments: Vec<String>,
}

/// Builds the configuration from the recognized options, filling defaults:
/// a missing concurrency limit becomes [`DEFAULT_CONCURRENCY`], a missing
/// configuration file becomes [`DEFAULT_CONFIG_FILENAME`], and repository
/// mode without a deadline gets [`DEFAULT_TIMEOUT_SECS`]. An empty command
/// line and a zero concurrency limit are rejected.
pub fn build_config(
    show_header: bool,
    use_color: bool,
    in_repos: bool,
    config_filename: Option<String>,
    max_concurrent_tasks: Option<usize>,
    timeout_secs: Option<u64>,
    nonzero_is_error: bool,
    command_line: Vec<String>,
) -> (r: Result<Config, ConfigError>)
    ensures
        r is Err <==> (command_line@.len() == 0 || max_concurrent_tasks == Some(0usize)),
        command_line@.len() == 0 ==> r == Err::<Config, ConfigError>(ConfigError::MissingCommand),
        (command_line@.len() > 0 && max_concurrent_tasks == Some(0usize)) ==> r == Err::<
            Config,
            ConfigError,
        >(ConfigError::ZeroConcurrency),
        (r matches Ok(c) ==> {
            &&& c.show_header == show_header
            &&& c.use_color == use_color
            &&& c.in_repos == in_repos
            &&& c.config_filename@ == (match config_filename {
                Some(f) => f@,
                None => DEFAULT_CONFIG_FILENAME@,
            })
            &&& c.max_concurrent_tasks == (match max_concurrent_tasks {
                Some(w) => w,
                None => DEFAULT_CONCURRENCY,
            })
            &&& c.max_concurrent_tasks >= 1
            &&& c.timeout_secs == (if timeout_secs is Some {
                timeout_secs
            } else if in_repos {
                Some(DEFAULT_TIMEOUT_SECS)
            } else {
                None::<u64>
            })
            &&& c.nonzero_is_error == nonzero_is_error
            &&& c.command@ == command_line.deep_view()[0]
            &&& c.arguments.deep_view() == command_line.deep_view().skip(1)
        }),
{
    if command_line.len() == 0 {
        return Err(ConfigError::MissingCommand);
    }
    let max_concurrent = match max_concurrent_tasks {
        Some(w) => {
            if w == 0 {
                return Err(ConfigError::ZeroConcurrency);
            }
            w
        },
        None => DEFAULT_CONCURRENCY,
    };
    let filename = match config_filename {
        Some(f) => f,
        None => DEFAULT_CONFIG_FILENAME.to_owned(),
    };
    let timeout = match timeout_secs {
        Some(t) => Some(t),
        None => if in_repos {
            Some(DEFAULT_TIMEOUT_SECS)
        } else {
            None
        },
    };
    let command = command_line[0].clone();
    let mut arguments: Vec<String> = Vec::new();
    let n = command_line.len();
    let mut i: usize = 1;
    while i < n
        invariant
            1 <= i <= n,
            n == command_line.len(),
            arguments.deep_view() =~= command_line.deep_view().subrange(1, i as int),
        decreases n - i,
    {
        let ghost pre = arguments.deep_view();
        arguments.push(command_line[i].clone());
        proof {
            assert forall|j: int| 0 <= j < arguments@.len() implies arguments.deep_view()[j]
                == pre.push(command_line.deep_view()[i as int])[j] by {
                assert(arguments.deep_view()[j] == arguments@[j].deep_view());
            }
            assert(arguments.deep_view() =~= pre.push(command_line.deep_view()[i as int]));
            assert(arguments.deep_view() =~= command_line.deep_view().subrange(1, i + 1));
        }
        i += 1;
    }
    proof {
        assert(command_line.deep_view().subrange(1, n as int) =~= command_line.deep_view().skip(
            1,
        ));
    }
    Ok(Config {
        show_header,
        use_color,
        in_repos,
        config_filename: filename,
        max_concurrent_tasks: max_concurrent,
        timeout_secs: timeout,
        nonzero_is_error,
        command,
        arguments,
    })
}

} // verus!
