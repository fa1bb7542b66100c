//! The configuration of a run, built once from the command line.

use crate::cli::{
    path_from, path_of, Cli, Command, OutputProfile, DEFAULT_OUT, DEFAULT_OUTLINE_OUT,
    DEFAULT_REDUCE, DEFAULT_URL,
};
use crate::errors::{join, AppError};
use crate::json::same_text;
use crate::text::{
    chars_of, find_sep, lemma_next_sep_bounds, lowercase_of, next_sep, piece, to_lowercase,
    trim_range,
};
use std::path::PathBuf;
use vstd::prelude::*;
use vstd::string::StrSliceExecFns;

verus! {

/// A top-level section that a reduce can keep.
#[derive(Debug, Clone, Copy, PartialEq, Eq, Structural)]
pub enum ReduceKey {
    Paths,
    Components,
}

impl ReduceKey {
    /// The name of the section in the document.
    pub open spec fn name(self) -> Seq<char> {
        match self {
            ReduceKey::Paths => "paths"@,
            ReduceKey::Components => "components"@,
        }
    }

    /// The name of the section in the document.
    pub fn as_str(self) -> (r: &'static str)
        ensures
            r@ == self.name(),
    {
        match self {
            ReduceKey::Paths => "paths",
            ReduceKey::Components => "components",
        }
    }
}

/// One run, or a run every `interval_ms` milliseconds.
#[derive(Debug, Clone, Copy)]
pub enum Mode {
    Snapshot,
    Watch { interval_ms: u64 },
}

/// What a run needs to know. Built once; only a recovered endpoint ever changes it.
#[derive(Debug)]
pub struct Config {
    pub url: String,
    pub url_from_default: bool,
    pub out: Option<PathBuf>,
    pub outline_out: Option<PathBuf>,
    pub reduce: Vec<ReduceKey>,
    pub profile: OutputProfile,
    pub minify: bool,
    pub timeout_ms: u64,
    pub headers: Vec<String>,
    pub stdout: bool,
}

/// What a list of reduce keys parses to: the keys, or the message of the fault.
pub type ParsedKeys = Result<Seq<ReduceKey>, Seq<char>>;

/// The key that one value of the list names. A value that is no key is
/// faulted for its case where lowercasing would change it, else as unsupported.
pub open spec fn reduce_key_spec(value: Seq<char>, lowered: Seq<char>) -> Result<
    ReduceKey,
    Seq<char>,
> {
    if value == "paths"@ {
        Ok(ReduceKey::Paths)
    } else if value == "components"@ {
        Ok(ReduceKey::Components)
    } else if lowered != value {
        Err("reduce values must be lowercase: "@ + value)
    } else {
        Err("unsupported reduce value: "@ + value)
    }
}

/// `keys` with `key` at its end, unless it is among them already.
pub open spec fn with_key(keys: Seq<ReduceKey>, key: ReduceKey) -> Seq<ReduceKey> {
    if keys.contains(key) {
        keys
    } else {
        keys.push(key)
    }
}

/// The keys named from position `start` on, added to `acc` in order of first
/// appearance: the values stand between commas, white space around them and
/// empty values are passed over, and the first fault ends it.
pub open spec fn reduce_keys_from(s: Seq<char>, start: int, acc: Seq<ReduceKey>) -> ParsedKeys
    decreases s.len() - start,
{
    if start < 0 || start > s.len() {
        Ok(acc)
    } else {
        let end = next_sep(s, ',', start);
        let value = piece(s, start, end);
        proof {
            lemma_next_sep_bounds(s, ',', start);
        }
        if value.len() == 0 {
            if end >= s.len() {
                Ok(acc)
            } else {
                reduce_keys_from(s, end + 1, acc)
            }
        } else {
            match reduce_key_spec(value, lowercase_of(value)) {
                Err(e) => Err(e),
                Ok(key) => if end >= s.len() {
                    Ok(with_key(acc, key))
                } else {
                    reduce_keys_from(s, end + 1, with_key(acc, key))
                },
            }
        }
    }
}

/// The keys that a comma-separated list names; a list that names none is a fault.
pub open spec fn parse_reduce_list_spec(s: Seq<char>) -> ParsedKeys {
    if s.len() == 0 {
        Err("reduce list cannot be empty"@)
    } else {
        match reduce_keys_from(s, 0, Seq::empty()) {
            Err(e) => Err(e),
            Ok(keys) => if keys.len() == 0 {
                Err("reduce list cannot be empty"@)
            } else {
                Ok(keys)
            },
        }
    }
}

/// Keys added one by one, each unless it is there already, stay without a repeat.
pub proof fn lemma_keys_stay_unique(s: Seq<char>, start: int, acc: Seq<ReduceKey>)
    requires
        acc.no_duplicates(),
    ensures
        reduce_keys_from(s, start, acc) matches Ok(keys) ==> keys.no_duplicates(),
    decreases s.len() - start,
{
    if 0 <= start <= s.len() {
        let end = next_sep(s, ',', start);
        let value = piece(s, start, end);
        lemma_next_sep_bounds(s, ',', start);
        if value.len() == 0 {
            if end < s.len() {
                lemma_keys_stay_unique(s, end + 1, acc);
            }
        } else if let Ok(key) = reduce_key_spec(value, lowercase_of(value)) {
            if end < s.len() {
                lemma_keys_stay_unique(s, end + 1, with_key(acc, key));
            }
        }
    }
}

/// A list of reduce keys parses to keys of which none comes twice, and to
/// at least one.
pub proof fn lemma_parsed_keys_unique(s: Seq<char>)
    ensures
        parse_reduce_list_spec(s) matches Ok(keys) ==> keys.no_duplicates() && keys.len() > 0,
{
    lemma_keys_stay_unique(s, 0, Seq::empty());
}

/// `r` is the executable counterpart of `expected`: the same keys, or a
/// reduce error with the same message.
pub open spec fn parsed_as(r: Result<Vec<ReduceKey>, AppError>, expected: ParsedKeys) -> bool {
    match r {
        Ok(keys) => expected == Ok::<Seq<ReduceKey>, Seq<char>>(keys@),
        Err(e) => e is Reduce && expected == Err::<Seq<ReduceKey>, Seq<char>>(e.text()),
    }
}

/// The key that `value` names, given its lowercase form: see [`reduce_key_spec`].
pub fn reduce_key(value: &str, lowered: &str) -> (r: Result<ReduceKey, AppError>)
    ensures
        match r {
            Ok(key) => reduce_key_spec(value@, lowered@) == Ok::<ReduceKey, Seq<char>>(key),
            Err(e) => e is Reduce && reduce_key_spec(value@, lowered@) == Err::<
                ReduceKey,
                Seq<char>,
            >(e.text()),
        },
{
    if same_text(value, "paths") {
        Ok(ReduceKey::Paths)
    } else if same_text(value, "components") {
        Ok(ReduceKey::Components)
    } else if !same_text(lowered, value) {
        Err(AppError::Reduce(join("reduce values must be lowercase: ", value)))
    } else {
        Err(AppError::Reduce(join("unsupported reduce value: ", value)))
    }
}

/// Adds `key` at the end of `items` unless it is among them already.
pub fn push_unique(items: &mut Vec<ReduceKey>, key: ReduceKey)
    ensures
        final(items)@ == with_key(old(items)@, key),
{
    let mut i: usize = 0;
    while i < items.len()
        invariant
            i <= items.len(),
            *items == *old(items),
            forall|k: int| 0 <= k < i ==> items@[k] != key,
        decreases items.len() - i,
    {
        if items[i] == key {
            return ;
        }
        i += 1;
    }
    items.push(key);
}

/// Parses a comma-separated list of reduce keys, keeping the order of first
/// appearance and each key once: see [`parse_reduce_list_spec`].
pub fn parse_reduce_list(value: &str) -> (r: Result<Vec<ReduceKey>, AppError>)
    ensures
        parsed_as(r, parse_reduce_list_spec(value@)),
{
    if value.is_empty() {
        return Err(AppError::Reduce("reduce list cannot be empty".to_owned()));
    }
    let chars = chars_of(value);
    let mut out: Vec<ReduceKey> = Vec::new();
    let mut start: usize = 0;
    loop
        invariant_except_break
            reduce_keys_from(value@, 0, Seq::empty()) == reduce_keys_from(
                value@,
                start as int,
                out@,
            ),
        invariant
            chars@ == value@,
            value@.len() > 0,
            start <= chars.len(),
        ensures
            reduce_keys_from(value@, 0, Seq::empty()) == Ok::<Seq<ReduceKey>, Seq<char>>(out@),
        decreases chars.len() - start,
    {
        let end = find_sep(&chars, ',', start);
        let (a, b) = trim_range(&chars, start, end);
        if a < b {
            let item = value.substring_char(a, b);
            let lowered = to_lowercase(item);
            match reduce_key(item, lowered.as_str()) {
                Ok(key) => {
                    push_unique(&mut out, key);
                },
                Err(e) => {
                    return Err(e);
                },
            }
        }
        if end >= chars.len() {
            break ;
        }
        start = end + 1;
    }
    if out.len() == 0 {
        return Err(AppError::Reduce("reduce list cannot be empty".to_owned()));
    }
    Ok(out)
}

/// The mode that a command line asks for.
pub open spec fn mode_of(cli: Cli) -> Mode {
    match cli.command {
        Some(Command::Watch(args)) => Mode::Watch { interval_ms: args.interval_ms },
        None => Mode::Snapshot,
    }
}

/// The reduce list that holds for a command line: the one given, or the
/// default when watching the full document.
pub open spec fn reduce_source(cli: Cli) -> Option<Seq<char>> {
    match cli.common.reduce {
        Some(value) => Some(value@),
        None => if cli.command is Some && cli.common.profile == OutputProfile::Full {
            Some(DEFAULT_REDUCE@)
        } else {
            None
        },
    }
}

/// The reduce keys of a command line: none where no list holds.
pub open spec fn reduce_of(cli: Cli) -> ParsedKeys {
    match reduce_source(cli) {
        Some(value) => parse_reduce_list_spec(value),
        None => Ok(Seq::empty()),
    }
}

/// The destination of a command line: the one given, or the default unless
/// the output goes to standard output.
pub open spec fn out_of(cli: Cli) -> Option<PathBuf> {
    match cli.common.out {
        Some(path) => Some(path),
        None => if cli.common.stdout {
            None
        } else {
            Some(path_of(DEFAULT_OUT@))
        },
    }
}

/// Whether a command line asks for an outline beside the document without
/// naming its destination: when watching the full document into a file,
/// unless the outline is switched off.
pub open spec fn outline_by_default(cli: Cli) -> bool {
    match cli.command {
        Some(Command::Watch(args)) => !args.no_outline && cli.common.profile
            == OutputProfile::Full && !cli.common.stdout,
        None => false,
    }
}

/// The destination of the outline beside the document, if there is to be one.
pub open spec fn outline_out_of(cli: Cli) -> Option<PathBuf> {
    match cli.common.outline_out {
        Some(path) => Some(path),
        None => if outline_by_default(cli) {
            Some(path_of(DEFAULT_OUTLINE_OUT@))
        } else {
            None
        },
    }
}

/// Whether `config` and `mode` are what the command line asks for, the
/// reduce keys apart.
pub open spec fn built_from(config: Config, mode: Mode, cli: Cli) -> bool {
    &&& mode == mode_of(cli)
    &&& config.url@ == match cli.common.url {
        Some(url) => url@,
        None => DEFAULT_URL@,
    }
    &&& config.url_from_default == (cli.common.url is None)
    &&& config.out == out_of(cli)
    &&& config.outline_out == outline_out_of(cli)
    &&& config.profile == cli.common.profile
    &&& config.minify == cli.common.minify
    &&& config.timeout_ms == cli.common.timeout_ms
    &&& config.headers == cli.common.header
    &&& config.stdout == cli.common.stdout
}

impl Config {
    /// Builds the configuration and the mode from a command line, filling in
    /// the defaults. Fails only on a reduce list that does not parse.
    pub fn from_cli(cli: Cli) -> (r: Result<(Config, Mode), AppError>)
        ensures
            match r {
                Ok(built) => built_from(built.0, built.1, cli) && reduce_of(cli) == Ok::<
                    Seq<ReduceKey>,
                    Seq<char>,
                >(built.0.reduce@),
                Err(e) => e is Reduce && reduce_of(cli) == Err::<Seq<ReduceKey>, Seq<char>>(
                    e.text(),
                ),
            },
    {
        let common = cli.common;
        let (mode, watching, no_outline) = match cli.command {
            Some(Command::Watch(args)) => (
                Mode::Watch { interval_ms: args.interval_ms },
                true,
                args.no_outline,
            ),
            None => (Mode::Snapshot, false, false),
        };
        let full = match common.profile {
            OutputProfile::Full => true,
            OutputProfile::Outline => false,
        };
        let reduce = match &common.reduce {
            Some(value) => parse_reduce_list(value.as_str())?,
            None => if watching && full {
                parse_reduce_list(DEFAULT_REDUCE)?
            } else {
                Vec::new()
            },
        };
        let url_from_default = common.url.is_none();
        let url = match common.url {
            Some(url) => url,
            None => DEFAULT_URL.to_owned(),
        };
        let out = match common.out {
            Some(path) => Some(path),
            None => if common.stdout {
                None
            } else {
                Some(path_from(DEFAULT_OUT))
            },
        };
        let outline_out = match common.outline_out {
            Some(path) => Some(path),
            None => if watching && !no_outline && full && !common.stdout {
                Some(path_from(DEFAULT_OUTLINE_OUT))
            } else {
                None
            },
        };
        Ok(
            (
                Config {
                    url,
                    url_from_default,
                    out,
                    outline_out,
                    reduce,
                    profile: common.profile,
                    minify: common.minify,
                    timeout_ms: common.timeout_ms,
                    headers: common.header,
                    stdout: common.stdout,
                },
                mode,
            ),
        )
    }
}

/// What is wrong with a configuration, if anything: the message for the operator.
pub open spec fn config_fault(config: Config) -> Option<Seq<char>> {
    if !config.stdout && config.out is None {
        Some("--out is required unless --stdout is set."@)
    } else if config.profile == OutputProfile::Outline && config.reduce@.len() > 0 {
        Some("--reduce is not supported with --profile outline."@)
    } else if config.profile == OutputProfile::Outline && config.outline_out is Some {
        Some("--outline-out is not supported with --profile outline."@)
    } else {
        None
    }
}

impl Config {
    /// Whether the configuration is one that a run accepts.
    pub open spec fn valid(self) -> bool {
        config_fault(self) is None
    }
}

/// A configuration built from a command line never lacks its destination:
/// only the outline profile, given reduce keys or a second destination, can
/// make it one that a run does not accept.
pub proof fn lemma_built_config_has_destination(config: Config, mode: Mode, cli: Cli)
    requires
        built_from(config, mode, cli),
    ensures
        config.stdout || config.out is Some,
        config.profile == OutputProfile::Full ==> config.valid(),
        config.profile == OutputProfile::Outline && cli.common.outline_out is None
            ==> config.outline_out is None,
{
}

/// Checks a configuration: a destination is needed unless the output goes to
/// standard output, and the outline profile takes neither reduce keys nor a
/// second destination.
pub fn validate_config(config: &Config) -> (r: Result<(), AppError>)
    ensures
        r is Ok <==> config.valid(),
        r matches Err(e) ==> e is Usage && config_fault(*config) == Some(e.text()),
{
    let outline = match config.profile {
        OutputProfile::Outline => true,
        OutputProfile::Full => false,
    };
    if !config.stdout && config.out.is_none() {
        return Err(AppError::Usage("--out is required unless --stdout is set.".to_owned()));
    }
    if outline && !config.reduce.is_empty() {
        return Err(
            AppError::Usage("--reduce is not supported with --profile outline.".to_owned()),
        );
    }
    if outline && config.outline_out.is_some() {
        return Err(
            AppError::Usage("--outline-out is not supported with --profile outline.".to_owned()),
        );
    }
    Ok(())
}

} // verus!
