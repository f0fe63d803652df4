//! The command line: its options, their defaults and validation.
//!
//! `sentinel [OPTIONS]` accepts long options (`--interval 5`, `--interval=5`),
//! short options (`-i 5`, `-i5`, `-i=5`) and clusters of short flags
//! (`-vi5`). Each option may be given once; options that take no value
//! reject an attached one; a value given as a separate argument may not
//! start with `-` unless it is `-` itself; `--` ends the options, and the
//! command takes no positional argument. `-h`/`--help` and
//! `-V`/`--version` stop parsing with a request to print help or the version.

use vstd::prelude::*;

use crate::numeric::{lemma_decimal_reads_back, parse_signed_chars, parse_signed_spec, parse_unsigned_chars, parse_unsigned_spec};
use crate::text::{chars_eq_str, chars_to_string, decimal, push_str, str_chars};

verus! {

/// Output format of the log files.
#[derive(Debug, Clone, Copy, PartialEq, Eq, Structural)]
pub enum OutputFormat {
    Json,
    Csv,
}

/// The options and flags of the command line.
#[derive(Debug, Clone, Copy, PartialEq, Eq, Structural)]
pub enum CliFlag {
    Interval,
    Format,
    OutputDir,
    CpuThreshold,
    RamThreshold,
    AlertConsecutive,
    MaxFileSize,
    RotateEvery,
    MaxFiles,
    WebhookUrl,
    BufferSize,
    Verbose,
    Help,
    Version,
}

/// The parsed command line.
#[derive(Debug, Clone, PartialEq, Eq)]
pub struct CliArgs {
    pub interval: u64,
    pub format: OutputFormat,
    pub output_dir: String,
    pub cpu_threshold: u8,
    pub ram_threshold: u8,
    pub alert_consecutive: u32,
    pub max_file_size: u64,
    pub rotate_every: u64,
    pub max_files: usize,
    pub webhook_url: Option<String>,
    pub buffer_size: usize,
    pub verbose: bool,
}

pub struct CliArgsView {
    pub interval: u64,
    pub format: OutputFormat,
    pub output_dir: Seq<char>,
    pub cpu_threshold: u8,
    pub ram_threshold: u8,
    pub alert_consecutive: u32,
    pub max_file_size: u64,
    pub rotate_every: u64,
    pub max_files: usize,
    pub webhook_url: Option<Seq<char>>,
    pub buffer_size: usize,
    pub verbose: bool,
}

pub open spec fn opt_view(o: Option<String>) -> Option<Seq<char>> {
    match o {
        Some(s) => Some(s@),
        None => None,
    }
}

impl View for CliArgs {
    type V = CliArgsView;

    open spec fn view(&self) -> CliArgsView {
        CliArgsView {
            interval: self.interval,
            format: self.format,
            output_dir: self.output_dir@,
            cpu_threshold: self.cpu_threshold,
            ram_threshold: self.ram_threshold,
            alert_consecutive: self.alert_consecutive,
            max_file_size: self.max_file_size,
            rotate_every: self.rotate_every,
            max_files: self.max_files,
            webhook_url: opt_view(self.webhook_url),
            buffer_size: self.buffer_size,
            verbose: self.verbose,
        }
    }
}

/// Why the command line was not turned into [`CliArgs`].
#[derive(Debug, Clone, PartialEq, Eq)]
pub enum CliError {
    /// `-h` or `--help` was given.
    HelpRequested,
    /// `-V` or `--version` was given.
    VersionRequested,
    /// An argument that names no option, or a positional argument.
    UnknownArgument(String),
    /// An option that takes a value was given none.
    MissingValue(CliFlag),
    /// An option or flag was given more than once.
    DuplicateArgument(CliFlag),
    /// A flag that takes no value was given one with `=`.
    UnexpectedValue(CliFlag),
    /// A value that the option does not accept, with the reason.
    InvalidValue(CliFlag, String, String),
}

pub enum CliErrorView {
    HelpRequested,
    VersionRequested,
    UnknownArgument(Seq<char>),
    MissingValue(CliFlag),
    DuplicateArgument(CliFlag),
    UnexpectedValue(CliFlag),
    InvalidValue(CliFlag, Seq<char>, Seq<char>),
}

impl View for CliError {
    type V = CliErrorView;

    open spec fn view(&self) -> CliErrorView {
        match self {
            CliError::HelpRequested => CliErrorView::HelpRequested,
            CliError::VersionRequested => CliErrorView::VersionRequested,
            CliError::UnknownArgument(a) => CliErrorView::UnknownArgument(a@),
            CliError::MissingValue(f) => CliErrorView::MissingValue(*f),
            CliError::DuplicateArgument(f) => CliErrorView::DuplicateArgument(*f),
            CliError::UnexpectedValue(f) => CliErrorView::UnexpectedValue(*f),
            CliError::InvalidValue(f, v, r) => CliErrorView::InvalidValue(*f, v@, r@),
        }
    }
}

// ---------------------------------------------------------------------------
// Value parsers
// ---------------------------------------------------------------------------

pub open spec fn str_result_view<T>(r: Result<T, String>) -> Result<T, Seq<char>> {
    match r {
        Ok(v) => Ok(v),
        Err(m) => Err(m@),
    }
}

/// `--interval`: a whole number of seconds, at least 1.
pub open spec fn interval_spec(value: Seq<char>) -> Result<u64, Seq<char>> {
    match parse_unsigned_spec(value, u64::MAX as nat) {
        None => Err("interval must be a positive integer"@),
        Some(n) => if n < 1 { Err("interval must be at least 1 second"@) } else { Ok(n as u64) },
    }
}

/// `--cpu-threshold` and `--ram-threshold`: a percentage in `0..=100`.
pub open spec fn percentage_spec(value: Seq<char>) -> Result<u8, Seq<char>> {
    match parse_signed_spec(value, i16::MIN as int, i16::MAX as int) {
        None => Err("threshold must be an integer between 0 and 100"@),
        Some(n) => if !(0 <= n <= 100) { Err("threshold must be between 0 and 100"@) } else { Ok(n as u8) },
    }
}

/// `--max-file-size`: a whole number of megabytes, at least 1.
pub open spec fn max_file_size_spec(value: Seq<char>) -> Result<u64, Seq<char>> {
    match parse_unsigned_spec(value, u64::MAX as nat) {
        None => Err("max-file-size must be a positive integer"@),
        Some(n) => if n < 1 { Err("max-file-size must be at least 1 MB"@) } else { Ok(n as u64) },
    }
}

/// `--buffer-size`: a number of snapshots, at least 1.
pub open spec fn buffer_size_spec(value: Seq<char>) -> Result<usize, Seq<char>> {
    match parse_unsigned_spec(value, usize::MAX as nat) {
        None => Err("buffer-size must be a positive integer"@),
        Some(n) => if n < 1 { Err("buffer-size must be at least 1"@) } else { Ok(n as usize) },
    }
}

pub fn parse_interval(value: &str) -> (r: Result<u64, String>)
    ensures
        str_result_view(r) == interval_spec(value@),
{
    parse_interval_chars(str_chars(value).as_slice())
}

pub fn parse_percentage(value: &str) -> (r: Result<u8, String>)
    ensures
        str_result_view(r) == percentage_spec(value@),
{
    parse_percentage_chars(str_chars(value).as_slice())
}

pub fn parse_max_file_size(value: &str) -> (r: Result<u64, String>)
    ensures
        str_result_view(r) == max_file_size_spec(value@),
{
    parse_max_file_size_chars(str_chars(value).as_slice())
}

pub fn parse_buffer_size(value: &str) -> (r: Result<usize, String>)
    ensures
        str_result_view(r) == buffer_size_spec(value@),
{
    parse_buffer_size_chars(str_chars(value).as_slice())
}

fn message(text: &str) -> (s: String)
    ensures
        s@ == text@,
{
    chars_to_string(str_chars(text).as_slice())
}

fn parse_interval_chars(value: &[char]) -> (r: Result<u64, String>)
    ensures
        str_result_view(r) == interval_spec(value@),
{
    match parse_unsigned_chars(value, u64::MAX) {
        None => Err(message("interval must be a positive integer")),
        Some(n) => if n < 1 { Err(message("interval must be at least 1 second")) } else { Ok(n) },
    }
}

fn parse_percentage_chars(value: &[char]) -> (r: Result<u8, String>)
    ensures
        str_result_view(r) == percentage_spec(value@),
{
    match parse_signed_chars(value, -32768, 32767) {
        None => Err(message("threshold must be an integer between 0 and 100")),
        Some(n) => if !(0 <= n && n <= 100) {
            Err(message("threshold must be between 0 and 100"))
        } else {
            Ok(n as u8)
        },
    }
}

fn parse_max_file_size_chars(value: &[char]) -> (r: Result<u64, String>)
    ensures
        str_result_view(r) == max_file_size_spec(value@),
{
    match parse_unsigned_chars(value, u64::MAX) {
        None => Err(message("max-file-size must be a positive integer")),
        Some(n) => if n < 1 { Err(message("max-file-size must be at least 1 MB")) } else { Ok(n) },
    }
}

fn parse_buffer_size_chars(value: &[char]) -> (r: Result<usize, String>)
    ensures
        str_result_view(r) == buffer_size_spec(value@),
{
    match parse_unsigned_chars(value, usize::MAX as u64) {
        None => Err(message("buffer-size must be a positive integer")),
        Some(n) => if n < 1 { Err(message("buffer-size must be at least 1")) } else { Ok(n as usize) },
    }
}

/// `--format`: `json` or `csv`.
pub open spec fn format_spec(value: Seq<char>) -> Result<OutputFormat, Seq<char>> {
    if value == "json"@ {
        Ok(OutputFormat::Json)
    } else if value == "csv"@ {
        Ok(OutputFormat::Csv)
    } else {
        Err("possible values: json, csv"@)
    }
}

/// `--output-dir`: any non-empty path.
pub open spec fn output_dir_spec(value: Seq<char>) -> Result<Seq<char>, Seq<char>> {
    if value.len() == 0 {
        Err("a non-empty path is required"@)
    } else {
        Ok(value)
    }
}

/// `--alert-consecutive`: an integer in `0..=u32::MAX`.
pub open spec fn alert_consecutive_spec(value: Seq<char>) -> Result<u32, Seq<char>> {
    match parse_signed_spec(value, i64::MIN as int, i64::MAX as int) {
        None => Err("value must be an integer"@),
        Some(n) => if !(0 <= n <= u32::MAX) { Err("value must be between 0 and 4294967295"@) } else { Ok(n as u32) },
    }
}

/// `--rotate-every`: a whole number of hours (0 disables time rotation).
pub open spec fn rotate_every_spec(value: Seq<char>) -> Result<u64, Seq<char>> {
    match parse_unsigned_spec(value, u64::MAX as nat) {
        None => Err("value must be a non-negative integer"@),
        Some(n) => Ok(n as u64),
    }
}

/// `--max-files`: a number of files.
pub open spec fn max_files_spec(value: Seq<char>) -> Result<usize, Seq<char>> {
    match parse_unsigned_spec(value, usize::MAX as nat) {
        None => Err("value must be a non-negative integer"@),
        Some(n) => Ok(n as usize),
    }
}

fn parse_format_chars(value: &[char]) -> (r: Result<OutputFormat, String>)
    ensures
        str_result_view(r) == format_spec(value@),
{
    if chars_eq_str(value, "json") {
        Ok(OutputFormat::Json)
    } else if chars_eq_str(value, "csv") {
        Ok(OutputFormat::Csv)
    } else {
        Err(message("possible values: json, csv"))
    }
}

fn parse_output_dir_chars(value: &[char]) -> (r: Result<String, String>)
    ensures
        match r {
            Ok(p) => output_dir_spec(value@) == Ok::<Seq<char>, Seq<char>>(p@),
            Err(m) => output_dir_spec(value@) == Err::<Seq<char>, Seq<char>>(m@),
        },
{
    if value.len() == 0 {
        Err(message("a non-empty path is required"))
    } else {
        Ok(chars_to_string(value))
    }
}

fn parse_alert_consecutive_chars(value: &[char]) -> (r: Result<u32, String>)
    ensures
        str_result_view(r) == alert_consecutive_spec(value@),
{
    match parse_signed_chars(value, i64::MIN, i64::MAX) {
        None => Err(message("value must be an integer")),
        Some(n) => if !(0 <= n && n <= 4294967295) {
            Err(message("value must be between 0 and 4294967295"))
        } else {
            Ok(n as u32)
        },
    }
}

fn parse_rotate_every_chars(value: &[char]) -> (r: Result<u64, String>)
    ensures
        str_result_view(r) == rotate_every_spec(value@),
{
    match parse_unsigned_chars(value, u64::MAX) {
        None => Err(message("value must be a non-negative integer")),
        Some(n) => Ok(n),
    }
}

fn parse_max_files_chars(value: &[char]) -> (r: Result<usize, String>)
    ensures
        str_result_view(r) == max_files_spec(value@),
{
    match parse_unsigned_chars(value, usize::MAX as u64) {
        None => Err(message("value must be a non-negative integer")),
        Some(n) => Ok(n as usize),
    }
}

// ---------------------------------------------------------------------------
// Option names
// ---------------------------------------------------------------------------

/// Whether the option takes a value.
pub open spec fn takes_value(f: CliFlag) -> bool {
    !(f == CliFlag::Verbose || f == CliFlag::Help || f == CliFlag::Version)
}

/// The option named by a long name (without the leading `--`).
pub open spec fn lookup_long(name: Seq<char>) -> Option<CliFlag> {
    if name == "interval"@ {
        Some(CliFlag::Interval)
    } else if name == "format"@ {
        Some(CliFlag::Format)
    } else if name == "output-dir"@ {
        Some(CliFlag::OutputDir)
    } else if name == "cpu-threshold"@ {
        Some(CliFlag::CpuThreshold)
    } else if name == "ram-threshold"@ {
        Some(CliFlag::RamThreshold)
    } else if name == "alert-consecutive"@ {
        Some(CliFlag::AlertConsecutive)
    } else if name == "max-file-size"@ {
        Some(CliFlag::MaxFileSize)
    } else if name == "rotate-every"@ {
        Some(CliFlag::RotateEvery)
    } else if name == "max-files"@ {
        Some(CliFlag::MaxFiles)
    } else if name == "webhook-url"@ {
        Some(CliFlag::WebhookUrl)
    } else if name == "buffer-size"@ {
        Some(CliFlag::BufferSize)
    } else if name == "verbose"@ {
        Some(CliFlag::Verbose)
    } else if name == "help"@ {
        Some(CliFlag::Help)
    } else if name == "version"@ {
        Some(CliFlag::Version)
    } else {
        None
    }
}

/// The option named by a short name.
pub open spec fn lookup_short(c: char) -> Option<CliFlag> {
    if c == 'i' {
        Some(CliFlag::Interval)
    } else if c == 'f' {
        Some(CliFlag::Format)
    } else if c == 'o' {
        Some(CliFlag::OutputDir)
    } else if c == 'v' {
        Some(CliFlag::Verbose)
    } else if c == 'h' {
        Some(CliFlag::Help)
    } else if c == 'V' {
        Some(CliFlag::Version)
    } else {
        None
    }
}

fn flag_takes_value(f: CliFlag) -> (r: bool)
    ensures
        r == takes_value(f),
{
    !(f == CliFlag::Verbose || f == CliFlag::Help || f == CliFlag::Version)
}

fn find_long(name: &[char]) -> (r: Option<CliFlag>)
    ensures
        r == lookup_long(name@),
{
    if chars_eq_str(name, "interval") {
        Some(CliFlag::Interval)
    } else if chars_eq_str(name, "format") {
        Some(CliFlag::Format)
    } else if chars_eq_str(name, "output-dir") {
        Some(CliFlag::OutputDir)
    } else if chars_eq_str(name, "cpu-threshold") {
        Some(CliFlag::CpuThreshold)
    } else if chars_eq_str(name, "ram-threshold") {
        Some(CliFlag::RamThreshold)
    } else if chars_eq_str(name, "alert-consecutive") {
        Some(CliFlag::AlertConsecutive)
    } else if chars_eq_str(name, "max-file-size") {
        Some(CliFlag::MaxFileSize)
    } else if chars_eq_str(name, "rotate-every") {
        Some(CliFlag::RotateEvery)
    } else if chars_eq_str(name, "max-files") {
        Some(CliFlag::MaxFiles)
    } else if chars_eq_str(name, "webhook-url") {
        Some(CliFlag::WebhookUrl)
    } else if chars_eq_str(name, "buffer-size") {
        Some(CliFlag::BufferSize)
    } else if chars_eq_str(name, "verbose") {
        Some(CliFlag::Verbose)
    } else if chars_eq_str(name, "help") {
        Some(CliFlag::Help)
    } else if chars_eq_str(name, "version") {
        Some(CliFlag::Version)
    } else {
        None
    }
}

fn find_short(c: char) -> (r: Option<CliFlag>)
    ensures
        r == lookup_short(c),
{
    if c == 'i' {
        Some(CliFlag::Interval)
    } else if c == 'f' {
        Some(CliFlag::Format)
    } else if c == 'o' {
        Some(CliFlag::OutputDir)
    } else if c == 'v' {
        Some(CliFlag::Verbose)
    } else if c == 'h' {
        Some(CliFlag::Help)
    } else if c == 'V' {
        Some(CliFlag::Version)
    } else {
        None
    }
}

// ---------------------------------------------------------------------------
// Options seen so far
// ---------------------------------------------------------------------------

/// The options given so far; `None` for an option not given yet.
pub struct PartialArgs {
    pub interval: Option<u64>,
    pub format: Option<OutputFormat>,
    pub output_dir: Option<String>,
    pub cpu_threshold: Option<u8>,
    pub ram_threshold: Option<u8>,
    pub alert_consecutive: Option<u32>,
    pub max_file_size: Option<u64>,
    pub rotate_every: Option<u64>,
    pub max_files: Option<usize>,
    pub webhook_url: Option<String>,
    pub buffer_size: Option<usize>,
    pub verbose: bool,
}

pub struct PartialView {
    pub interval: Option<u64>,
    pub format: Option<OutputFormat>,
    pub output_dir: Option<Seq<char>>,
    pub cpu_threshold: Option<u8>,
    pub ram_threshold: Option<u8>,
    pub alert_consecutive: Option<u32>,
    pub max_file_size: Option<u64>,
    pub rotate_every: Option<u64>,
    pub max_files: Option<usize>,
    pub webhook_url: Option<Seq<char>>,
    pub buffer_size: Option<usize>,
    pub verbose: bool,
}

impl View for PartialArgs {
    type V = PartialView;

    open spec fn view(&self) -> PartialView {
        PartialView {
            interval: self.interval,
            format: self.format,
            output_dir: opt_view(self.output_dir),
            cpu_threshold: self.cpu_threshold,
            ram_threshold: self.ram_threshold,
            alert_consecutive: self.alert_consecutive,
            max_file_size: self.max_file_size,
            rotate_every: self.rotate_every,
            max_files: self.max_files,
            webhook_url: opt_view(self.webhook_url),
            buffer_size: self.buffer_size,
            verbose: self.verbose,
        }
    }
}

pub open spec fn partial_empty() -> PartialView {
    PartialView {
        interval: None,
        format: None,
        output_dir: None,
        cpu_threshold: None,
        ram_threshold: None,
        alert_consecutive: None,
        max_file_size: None,
        rotate_every: None,
        max_files: None,
        webhook_url: None,
        buffer_size: None,
        verbose: false,
    }
}

/// Whether the option or flag was already given.
pub open spec fn is_given(p: PartialView, f: CliFlag) -> bool {
    match f {
        CliFlag::Interval => p.interval is Some,
        CliFlag::Format => p.format is Some,
        CliFlag::OutputDir => p.output_dir is Some,
        CliFlag::CpuThreshold => p.cpu_threshold is Some,
        CliFlag::RamThreshold => p.ram_threshold is Some,
        CliFlag::AlertConsecutive => p.alert_consecutive is Some,
        CliFlag::MaxFileSize => p.max_file_size is Some,
        CliFlag::RotateEvery => p.rotate_every is Some,
        CliFlag::MaxFiles => p.max_files is Some,
        CliFlag::WebhookUrl => p.webhook_url is Some,
        CliFlag::BufferSize => p.buffer_size is Some,
        CliFlag::Verbose => p.verbose,
        _ => false,
    }
}

pub open spec fn invalid(f: CliFlag, value: Seq<char>, reason: Seq<char>) -> CliErrorView {
    CliErrorView::InvalidValue(f, value, reason)
}

/// Records the value of an option that takes one.
pub open spec fn apply_value_spec(p: PartialView, f: CliFlag, v: Seq<char>) -> Result<PartialView, CliErrorView> {
    if is_given(p, f) {
        Err(CliErrorView::DuplicateArgument(f))
    } else {
        match f {
            CliFlag::Interval => match interval_spec(v) {
                Ok(n) => Ok(PartialView { interval: Some(n), ..p }),
                Err(m) => Err(invalid(f, v, m)),
            },
            CliFlag::Format => match format_spec(v) {
                Ok(x) => Ok(PartialView { format: Some(x), ..p }),
                Err(m) => Err(invalid(f, v, m)),
            },
            CliFlag::OutputDir => match output_dir_spec(v) {
                Ok(x) => Ok(PartialView { output_dir: Some(x), ..p }),
                Err(m) => Err(invalid(f, v, m)),
            },
            CliFlag::CpuThreshold => match percentage_spec(v) {
                Ok(x) => Ok(PartialView { cpu_threshold: Some(x), ..p }),
                Err(m) => Err(invalid(f, v, m)),
            },
            CliFlag::RamThreshold => match percentage_spec(v) {
                Ok(x) => Ok(PartialView { ram_threshold: Some(x), ..p }),
                Err(m) => Err(invalid(f, v, m)),
            },
            CliFlag::AlertConsecutive => match alert_consecutive_spec(v) {
                Ok(x) => Ok(PartialView { alert_consecutive: Some(x), ..p }),
                Err(m) => Err(invalid(f, v, m)),
            },
            CliFlag::MaxFileSize => match max_file_size_spec(v) {
                Ok(x) => Ok(PartialView { max_file_size: Some(x), ..p }),
                Err(m) => Err(invalid(f, v, m)),
            },
            CliFlag::RotateEvery => match rotate_every_spec(v) {
                Ok(x) => Ok(PartialView { rotate_every: Some(x), ..p }),
                Err(m) => Err(invalid(f, v, m)),
            },
            CliFlag::MaxFiles => match max_files_spec(v) {
                Ok(x) => Ok(PartialView { max_files: Some(x), ..p }),
                Err(m) => Err(invalid(f, v, m)),
            },
            CliFlag::WebhookUrl => Ok(PartialView { webhook_url: Some(v), ..p }),
            CliFlag::BufferSize => match buffer_size_spec(v) {
                Ok(x) => Ok(PartialView { buffer_size: Some(x), ..p }),
                Err(m) => Err(invalid(f, v, m)),
            },
            _ => Ok(p),
        }
    }
}

pub open spec fn error_result<T>(r: Result<T, CliError>) -> Result<T, CliErrorView> {
    match r {
        Ok(v) => Ok(v),
        Err(e) => Err(e@),
    }
}

fn invalid_value(f: CliFlag, v: &[char], reason: String) -> (e: CliError)
    ensures
        e@ == invalid(f, v@, reason@),
{
    CliError::InvalidValue(f, chars_to_string(v), reason)
}

fn is_given_exec(p: &PartialArgs, f: CliFlag) -> (r: bool)
    ensures
        r == is_given(p@, f),
{
    match f {
        CliFlag::Interval => p.interval.is_some(),
        CliFlag::Format => p.format.is_some(),
        CliFlag::OutputDir => p.output_dir.is_some(),
        CliFlag::CpuThreshold => p.cpu_threshold.is_some(),
        CliFlag::RamThreshold => p.ram_threshold.is_some(),
        CliFlag::AlertConsecutive => p.alert_consecutive.is_some(),
        CliFlag::MaxFileSize => p.max_file_size.is_some(),
        CliFlag::RotateEvery => p.rotate_every.is_some(),
        CliFlag::MaxFiles => p.max_files.is_some(),
        CliFlag::WebhookUrl => p.webhook_url.is_some(),
        CliFlag::BufferSize => p.buffer_size.is_some(),
        CliFlag::Verbose => p.verbose,
        _ => false,
    }
}

fn apply_value(p: &mut PartialArgs, f: CliFlag, v: &[char]) -> (r: Result<(), CliError>)
    ensures
        match r {
            Ok(()) => apply_value_spec(old(p)@, f, v@) == Ok::<PartialView, CliErrorView>(final(p)@),
            Err(e) => apply_value_spec(old(p)@, f, v@) == Err::<PartialView, CliErrorView>(e@),
        },
{
    if is_given_exec(p, f) {
        return Err(CliError::DuplicateArgument(f));
    }
    match f {
        CliFlag::Interval => match parse_interval_chars(v) {
            Ok(n) => { p.interval = Some(n); Ok(()) },
            Err(m) => Err(invalid_value(f, v, m)),
        },
        CliFlag::Format => match parse_format_chars(v) {
            Ok(x) => { p.format = Some(x); Ok(()) },
            Err(m) => Err(invalid_value(f, v, m)),
        },
        CliFlag::OutputDir => match parse_output_dir_chars(v) {
            Ok(x) => { p.output_dir = Some(x); Ok(()) },
            Err(m) => Err(invalid_value(f, v, m)),
        },
        CliFlag::CpuThreshold => match parse_percentage_chars(v) {
            Ok(x) => { p.cpu_threshold = Some(x); Ok(()) },
            Err(m) => Err(invalid_value(f, v, m)),
        },
        CliFlag::RamThreshold => match parse_percentage_chars(v) {
            Ok(x) => { p.ram_threshold = Some(x); Ok(()) },
            Err(m) => Err(invalid_value(f, v, m)),
        },
        CliFlag::AlertConsecutive => match parse_alert_consecutive_chars(v) {
            Ok(x) => { p.alert_consecutive = Some(x); Ok(()) },
            Err(m) => Err(invalid_value(f, v, m)),
        },
        CliFlag::MaxFileSize => match parse_max_file_size_chars(v) {
            Ok(x) => { p.max_file_size = Some(x); Ok(()) },
            Err(m) => Err(invalid_value(f, v, m)),
        },
        CliFlag::RotateEvery => match parse_rotate_every_chars(v) {
            Ok(x) => { p.rotate_every = Some(x); Ok(()) },
            Err(m) => Err(invalid_value(f, v, m)),
        },
        CliFlag::MaxFiles => match parse_max_files_chars(v) {
            Ok(x) => { p.max_files = Some(x); Ok(()) },
            Err(m) => Err(invalid_value(f, v, m)),
        },
        CliFlag::WebhookUrl => {
            p.webhook_url = Some(chars_to_string(v));
            Ok(())
        },
        CliFlag::BufferSize => match parse_buffer_size_chars(v) {
            Ok(x) => { p.buffer_size = Some(x); Ok(()) },
            Err(m) => Err(invalid_value(f, v, m)),
        },
        _ => Ok(()),
    }
}

// ---------------------------------------------------------------------------
// The argument grammar
// ---------------------------------------------------------------------------

/// Parser state between arguments: the options given so far, the option that
/// waits for its value in the next argument, and whether `--` was seen.
pub struct PState {
    pub acc: PartialView,
    pub pending: Option<CliFlag>,
    pub trailing: bool,
}

pub open spec fn pstate_initial() -> PState {
    PState { acc: partial_empty(), pending: None, trailing: false }
}

/// An option that waits for a value gets none when a flag comes first.
pub open spec fn resolve_pending(st: PState) -> Result<PState, CliErrorView> {
    match st.pending {
        Some(p) => Err(CliErrorView::MissingValue(p)),
        None => Ok(st),
    }
}

/// A flag that takes no value.
pub open spec fn react_flag(st: PState, f: CliFlag) -> Result<PState, CliErrorView> {
    if f == CliFlag::Help {
        Err(CliErrorView::HelpRequested)
    } else if f == CliFlag::Version {
        Err(CliErrorView::VersionRequested)
    } else if st.acc.verbose {
        Err(CliErrorView::DuplicateArgument(CliFlag::Verbose))
    } else {
        Ok(PState { acc: PartialView { verbose: true, ..st.acc }, ..st })
    }
}

pub open spec fn with_value(st: PState, f: CliFlag, v: Seq<char>) -> Result<PState, CliErrorView> {
    match apply_value_spec(st.acc, f, v) {
        Ok(acc) => Ok(PState { acc, ..st }),
        Err(e) => Err(e),
    }
}

/// A cluster of short names (the argument without its leading `-`). An
/// option that takes a value takes the rest of the cluster, without a leading
/// `=`, or the next argument when the cluster ends with it.
pub open spec fn step_short(st: PState, cluster: Seq<char>) -> Result<PState, CliErrorView>
    decreases cluster.len(),
{
    if cluster.len() == 0 {
        Ok(st)
    } else {
        let c = cluster[0];
        let rest = cluster.drop_first();
        match lookup_short(c) {
            None => Err(CliErrorView::UnknownArgument(seq!['-', c])),
            Some(f) => match resolve_pending(st) {
                Err(e) => Err(e),
                Ok(st1) => if takes_value(f) {
                    if rest.len() > 0 {
                        with_value(st1, f, if rest[0] == '=' { rest.drop_first() } else { rest })
                    } else {
                        Ok(PState { pending: Some(f), ..st1 })
                    }
                } else {
                    match react_flag(st1, f) {
                        Err(e) => Err(e),
                        Ok(st2) => step_short(st2, rest),
                    }
                },
            },
        }
    }
}

/// The index of the first occurrence of `c`.
pub open spec fn first_index_of(s: Seq<char>, c: char) -> Option<int>
    decreases s.len(),
{
    if s.len() == 0 {
        None
    } else if s[0] == c {
        Some(0)
    } else {
        match first_index_of(s.drop_first(), c) {
            Some(i) => Some(i + 1),
            None => None,
        }
    }
}

/// A long argument without its leading `--`, split at its first `=`.
pub open spec fn split_long(body: Seq<char>) -> (Seq<char>, Option<Seq<char>>) {
    match first_index_of(body, '=') {
        Some(i) => (body.take(i), Some(body.skip(i + 1))),
        None => (body, None),
    }
}

pub open spec fn step_long(st: PState, tok: Seq<char>) -> Result<PState, CliErrorView> {
    let (name, value) = split_long(tok.skip(2));
    match lookup_long(name) {
        None => Err(CliErrorView::UnknownArgument(tok)),
        Some(f) => if !takes_value(f) && value is Some {
            Err(CliErrorView::UnexpectedValue(f))
        } else {
            match resolve_pending(st) {
                Err(e) => Err(e),
                Ok(st1) => if takes_value(f) {
                    match value {
                        Some(v) => with_value(st1, f, v),
                        None => Ok(PState { pending: Some(f), ..st1 }),
                    }
                } else {
                    react_flag(st1, f)
                },
            }
        },
    }
}

pub open spec fn is_escape(tok: Seq<char>) -> bool {
    tok.len() == 2 && tok[0] == '-' && tok[1] == '-'
}

pub open spec fn is_long(tok: Seq<char>) -> bool {
    tok.len() > 2 && tok[0] == '-' && tok[1] == '-'
}

pub open spec fn is_short(tok: Seq<char>) -> bool {
    tok.len() > 1 && tok[0] == '-' && tok[1] != '-'
}

/// One argument.
pub open spec fn step_token(st: PState, tok: Seq<char>) -> Result<PState, CliErrorView> {
    if st.trailing {
        Err(CliErrorView::UnknownArgument(tok))
    } else if is_escape(tok) {
        Ok(PState { trailing: true, ..st })
    } else if is_long(tok) {
        step_long(st, tok)
    } else if is_short(tok) {
        step_short(st, tok.drop_first())
    } else {
        match st.pending {
            Some(p) => with_value(PState { pending: None, ..st }, p, tok),
            None => Err(CliErrorView::UnknownArgument(tok)),
        }
    }
}

/// The arguments in order; the first error stops parsing.
pub open spec fn run_tokens(st: PState, toks: Seq<Seq<char>>) -> Result<PState, CliErrorView>
    decreases toks.len(),
{
    if toks.len() == 0 {
        Ok(st)
    } else {
        match step_token(st, toks[0]) {
            Ok(st1) => run_tokens(st1, toks.drop_first()),
            Err(e) => Err(e),
        }
    }
}

/// The documented defaults, for the options not given.
pub open spec fn with_defaults(p: PartialView) -> CliArgsView {
    CliArgsView {
        interval: match p.interval { Some(v) => v, None => 5 },
        format: match p.format { Some(v) => v, None => OutputFormat::Json },
        output_dir: match p.output_dir { Some(v) => v, None => "./logs"@ },
        cpu_threshold: match p.cpu_threshold { Some(v) => v, None => 90 },
        ram_threshold: match p.ram_threshold { Some(v) => v, None => 85 },
        alert_consecutive: match p.alert_consecutive { Some(v) => v, None => 3 },
        max_file_size: match p.max_file_size { Some(v) => v, None => 10 },
        rotate_every: match p.rotate_every { Some(v) => v, None => 0 },
        max_files: match p.max_files { Some(v) => v, None => 10 },
        webhook_url: p.webhook_url,
        buffer_size: match p.buffer_size { Some(v) => v, None => 10 },
        verbose: p.verbose,
    }
}

/// The command line, program name first, as [`CliArgs::try_parse_from`]
/// reads it.
pub open spec fn parse_args_spec(args: Seq<Seq<char>>) -> Result<CliArgsView, CliErrorView> {
    let toks = if args.len() > 0 { args.drop_first() } else { args };
    match run_tokens(pstate_initial(), toks) {
        Err(e) => Err(e),
        Ok(st) => match st.pending {
            Some(p) => Err(CliErrorView::MissingValue(p)),
            None => Ok(with_defaults(st.acc)),
        },
    }
}

struct ParseState {
    acc: PartialArgs,
    pending: Option<CliFlag>,
    trailing: bool,
}

impl ParseState {
    spec fn view(&self) -> PState {
        PState { acc: self.acc@, pending: self.pending, trailing: self.trailing }
    }
}

fn resolve_pending_exec(st: &ParseState) -> (r: Result<(), CliError>)
    ensures
        match r {
            Ok(()) => resolve_pending(st.view()) == Ok::<PState, CliErrorView>(st.view()),
            Err(e) => resolve_pending(st.view()) == Err::<PState, CliErrorView>(e@),
        },
{
    match st.pending {
        Some(p) => Err(CliError::MissingValue(p)),
        None => Ok(()),
    }
}

fn react_flag_exec(st: &mut ParseState, f: CliFlag) -> (r: Result<(), CliError>)
    ensures
        match r {
            Ok(()) => react_flag(old(st).view(), f) == Ok::<PState, CliErrorView>(final(st).view()),
            Err(e) => react_flag(old(st).view(), f) == Err::<PState, CliErrorView>(e@),
        },
{
    if f == CliFlag::Help {
        Err(CliError::HelpRequested)
    } else if f == CliFlag::Version {
        Err(CliError::VersionRequested)
    } else if st.acc.verbose {
        Err(CliError::DuplicateArgument(CliFlag::Verbose))
    } else {
        st.acc.verbose = true;
        Ok(())
    }
}

fn with_value_exec(st: &mut ParseState, f: CliFlag, v: &[char]) -> (r: Result<(), CliError>)
    ensures
        match r {
            Ok(()) => with_value(old(st).view(), f, v@) == Ok::<PState, CliErrorView>(final(st).view()),
            Err(e) => with_value(old(st).view(), f, v@) == Err::<PState, CliErrorView>(e@),
        },
{
    apply_value(&mut st.acc, f, v)
}

fn step_short_exec(st: &mut ParseState, cluster: &[char]) -> (r: Result<(), CliError>)
    ensures
        match r {
            Ok(()) => step_short(old(st).view(), cluster@) == Ok::<PState, CliErrorView>(final(st).view()),
            Err(e) => step_short(old(st).view(), cluster@) == Err::<PState, CliErrorView>(e@),
        },
{
    let ghost start = st.view();
    let mut k: usize = 0;
    assert(cluster@.skip(0) =~= cluster@);
    while k < cluster.len()
        invariant
            k <= cluster@.len(),
            start == old(st).view(),
            step_short(start, cluster@) == step_short(st.view(), cluster@.skip(k as int)),
        decreases cluster.len() - k,
    {
        let c = cluster[k];
        let ghost here = st.view();
        let ghost rest = cluster@.skip(k as int).drop_first();
        assert(cluster@.skip(k as int)[0] == c);
        assert(rest =~= cluster@.skip(k + 1));
        match find_short(c) {
            None => {
                let mut name = String::new();
                crate::text::push_char(&mut name, '-');
                crate::text::push_char(&mut name, c);
                assert(name@ =~= seq!['-', c]);
                return Err(CliError::UnknownArgument(name));
            },
            Some(f) => {
                match resolve_pending_exec(st) {
                    Err(e) => return Err(e),
                    Ok(()) => {},
                }
                if flag_takes_value(f) {
                    if k + 1 < cluster.len() {
                        let tail = crate::numeric::slice_from(cluster, k + 1);
                        assert(tail@ =~= rest);
                        let value = if tail[0] == '=' {
                            let v = crate::numeric::slice_from(tail, 1);
                            assert(v@ =~= rest.drop_first());
                            v
                        } else {
                            tail
                        };
                        return with_value_exec(st, f, value);
                    } else {
                        st.pending = Some(f);
                        return Ok(());
                    }
                } else {
                    match react_flag_exec(st, f) {
                        Err(e) => return Err(e),
                        Ok(()) => {},
                    }
                }
            },
        }
        k = k + 1;
    }
    assert(cluster@.skip(k as int).len() == 0);
    Ok(())
}

proof fn lemma_first_index_of(s: Seq<char>, c: char, i: int)
    requires
        0 <= i <= s.len(),
        forall|j: int| 0 <= j < i ==> s[j] != c,
    ensures
        i < s.len() && s[i] == c ==> first_index_of(s, c) == Some(i),
        i == s.len() ==> first_index_of(s, c) is None,
    decreases i,
{
    if i > 0 {
        lemma_first_index_of(s.drop_first(), c, i - 1);
    }
}

fn split_long_exec(body: &[char]) -> (r: (&[char], Option<&[char]>))
    ensures
        split_long(body@) == (r.0@, match r.1 { Some(v) => Some(v@), None => None::<Seq<char>> }),
{
    let mut i: usize = 0;
    while i < body.len()
        invariant
            i <= body@.len(),
            forall|j: int| 0 <= j < i ==> body@[j] != '=',
        decreases body.len() - i,
    {
        if body[i] == '=' {
            proof { lemma_first_index_of(body@, '=', i as int); }
            let (name, tail) = body.split_at(i);
            let value = crate::numeric::slice_from(tail, 1);
            assert(value@ =~= body@.skip(i + 1));
            return (name, Some(value));
        }
        i = i + 1;
    }
    proof { lemma_first_index_of(body@, '=', i as int); }
    (body, None)
}

fn step_long_exec(st: &mut ParseState, tok: &[char]) -> (r: Result<(), CliError>)
    requires
        tok@.len() >= 2,
    ensures
        match r {
            Ok(()) => step_long(old(st).view(), tok@) == Ok::<PState, CliErrorView>(final(st).view()),
            Err(e) => step_long(old(st).view(), tok@) == Err::<PState, CliErrorView>(e@),
        },
{
    let body = crate::numeric::slice_from(tok, 2);
    let (name, value) = split_long_exec(body);
    match find_long(name) {
        None => Err(CliError::UnknownArgument(chars_to_string(tok))),
        Some(f) => {
            if !flag_takes_value(f) && value.is_some() {
                return Err(CliError::UnexpectedValue(f));
            }
            match resolve_pending_exec(st) {
                Err(e) => return Err(e),
                Ok(()) => {},
            }
            if flag_takes_value(f) {
                match value {
                    Some(v) => with_value_exec(st, f, v),
                    None => {
                        st.pending = Some(f);
                        Ok(())
                    },
                }
            } else {
                react_flag_exec(st, f)
            }
        },
    }
}

fn step_token_exec(st: &mut ParseState, tok: &[char]) -> (r: Result<(), CliError>)
    ensures
        match r {
            Ok(()) => step_token(old(st).view(), tok@) == Ok::<PState, CliErrorView>(final(st).view()),
            Err(e) => step_token(old(st).view(), tok@) == Err::<PState, CliErrorView>(e@),
        },
{
    if st.trailing {
        Err(CliError::UnknownArgument(chars_to_string(tok)))
    } else if tok.len() == 2 && tok[0] == '-' && tok[1] == '-' {
        st.trailing = true;
        Ok(())
    } else if tok.len() > 2 && tok[0] == '-' && tok[1] == '-' {
        step_long_exec(st, tok)
    } else if tok.len() > 1 && tok[0] == '-' && tok[1] != '-' {
        let cluster = crate::numeric::slice_from(tok, 1);
        assert(cluster@ =~= tok@.drop_first());
        step_short_exec(st, cluster)
    } else {
        match st.pending {
            Some(p) => {
                st.pending = None;
                with_value_exec(st, p, tok)
            },
            None => Err(CliError::UnknownArgument(chars_to_string(tok))),
        }
    }
}

/// The documented default output directory.
fn default_output_dir() -> (s: String)
    ensures
        s@ == "./logs"@,
{
    message("./logs")
}

impl CliArgs {
    /// Parses a command line, program name first. Options not given take
    /// their documented defaults: interval 5 s, JSON output into `./logs`,
    /// CPU threshold 90 %, RAM threshold 85 %, 3 consecutive readings, 10 MB
    /// files, no time rotation, 10 files kept, no webhook, 10 snapshots
    /// buffered, not verbose.
    pub fn try_parse_from(args: &[&str]) -> (r: Result<CliArgs, CliError>)
        ensures
            match r {
                Ok(a) => parse_args_spec(args@.map_values(|s: &str| s@)) == Ok::<CliArgsView, CliErrorView>(a@),
                Err(e) => parse_args_spec(args@.map_values(|s: &str| s@)) == Err::<CliArgsView, CliErrorView>(e@),
            },
    {
        let ghost all = args@.map_values(|s: &str| s@);
        let ghost toks = if all.len() > 0 { all.drop_first() } else { all };
        let mut st = ParseState {
            acc: PartialArgs {
                interval: None,
                format: None,
                output_dir: None,
                cpu_threshold: None,
                ram_threshold: None,
                alert_consecutive: None,
                max_file_size: None,
                rotate_every: None,
                max_files: None,
                webhook_url: None,
                buffer_size: None,
                verbose: false,
            },
            pending: None,
            trailing: false,
        };
        let first: usize = if args.len() > 0 { 1 } else { 0 };
        let mut i: usize = first;
        assert(all.skip(first as int) =~= toks);
        while i < args.len()
            invariant
                first <= i <= args@.len(),
                all == args@.map_values(|s: &str| s@),
                toks == all.skip(first as int),
                toks == (if all.len() > 0 { all.drop_first() } else { all }),
                run_tokens(pstate_initial(), toks) == run_tokens(st.view(), all.skip(i as int)),
            decreases args.len() - i,
        {
            let tok = str_chars(args[i]);
            let ghost rest = all.skip(i as int);
            assert(rest[0] == tok@);
            assert(rest.drop_first() =~= all.skip(i + 1));
            match step_token_exec(&mut st, tok.as_slice()) {
                Err(e) => return Err(e),
                Ok(()) => {},
            }
            i = i + 1;
        }
        assert(all.skip(i as int).len() == 0);
        if let Some(p) = st.pending {
            return Err(CliError::MissingValue(p));
        }
        let a = st.acc;
        let output_dir = match a.output_dir {
            Some(v) => v,
            None => default_output_dir(),
        };
        Ok(CliArgs {
            interval: match a.interval { Some(v) => v, None => 5 },
            format: match a.format { Some(v) => v, None => OutputFormat::Json },
            output_dir,
            cpu_threshold: match a.cpu_threshold { Some(v) => v, None => 90 },
            ram_threshold: match a.ram_threshold { Some(v) => v, None => 85 },
            alert_consecutive: match a.alert_consecutive { Some(v) => v, None => 3 },
            max_file_size: match a.max_file_size { Some(v) => v, None => 10 },
            rotate_every: match a.rotate_every { Some(v) => v, None => 0 },
            max_files: match a.max_files { Some(v) => v, None => 10 },
            webhook_url: a.webhook_url,
            buffer_size: match a.buffer_size { Some(v) => v, None => 10 },
            verbose: a.verbose,
        })
    }
}

// ---------------------------------------------------------------------------
// Validation law
// ---------------------------------------------------------------------------

/// The documented bounds of the command line's values.
pub open spec fn args_valid(a: CliArgsView) -> bool {
    &&& a.interval >= 1
    &&& a.cpu_threshold <= 100
    &&& a.ram_threshold <= 100
    &&& a.max_file_size >= 1
    &&& a.buffer_size >= 1
    &&& a.output_dir.len() > 0
}

pub open spec fn partial_valid(p: PartialView) -> bool {
    &&& (p.interval matches Some(v) ==> v >= 1)
    &&& (p.cpu_threshold matches Some(v) ==> v <= 100)
    &&& (p.ram_threshold matches Some(v) ==> v <= 100)
    &&& (p.max_file_size matches Some(v) ==> v >= 1)
    &&& (p.buffer_size matches Some(v) ==> v >= 1)
    &&& (p.output_dir matches Some(v) ==> v.len() > 0)
}

proof fn lemma_apply_value_valid(p: PartialView, f: CliFlag, v: Seq<char>)
    requires
        partial_valid(p),
    ensures
        apply_value_spec(p, f, v) matches Ok(q) ==> partial_valid(q),
{
}

proof fn lemma_step_short_valid(st: PState, cluster: Seq<char>)
    requires
        partial_valid(st.acc),
    ensures
        step_short(st, cluster) matches Ok(s) ==> partial_valid(s.acc),
    decreases cluster.len(),
{
    if cluster.len() > 0 {
        let rest = cluster.drop_first();
        if let Some(f) = lookup_short(cluster[0]) {
            if let Ok(st1) = resolve_pending(st) {
                if takes_value(f) {
                    if rest.len() > 0 {
                        lemma_apply_value_valid(st1.acc, f, if rest[0] == '=' { rest.drop_first() } else { rest });
                    }
                } else if let Ok(st2) = react_flag(st1, f) {
                    lemma_step_short_valid(st2, rest);
                }
            }
        }
    }
}

proof fn lemma_step_token_valid(st: PState, tok: Seq<char>)
    requires
        partial_valid(st.acc),
    ensures
        step_token(st, tok) matches Ok(s) ==> partial_valid(s.acc),
{
    if !st.trailing && !is_escape(tok) {
        if is_long(tok) {
            let (name, value) = split_long(tok.skip(2));
            if let Some(f) = lookup_long(name) {
                if let Some(v) = value {
                    lemma_apply_value_valid(st.acc, f, v);
                }
            }
        } else if is_short(tok) {
            lemma_step_short_valid(st, tok.drop_first());
        } else if let Some(p) = st.pending {
            lemma_apply_value_valid(st.acc, p, tok);
        }
    }
}

proof fn lemma_run_tokens_valid(st: PState, toks: Seq<Seq<char>>)
    requires
        partial_valid(st.acc),
    ensures
        run_tokens(st, toks) matches Ok(s) ==> partial_valid(s.acc),
    decreases toks.len(),
{
    if toks.len() > 0 {
        lemma_step_token_valid(st, toks[0]);
        if let Ok(st1) = step_token(st, toks[0]) {
            lemma_run_tokens_valid(st1, toks.drop_first());
        }
    }
}

/// Validation law: whatever the arguments, a command line that parses has
/// an interval of at least one second, thresholds within 0–100, a maximum
/// file size of at least 1 MB, a buffer of at least one snapshot and a
/// non-empty output directory.
pub proof fn lemma_parsed_args_valid(args: Seq<Seq<char>>)
    ensures
        parse_args_spec(args) matches Ok(a) ==> args_valid(a),
{
    reveal_strlit("./logs");
    let toks = if args.len() > 0 { args.drop_first() } else { args };
    lemma_run_tokens_valid(pstate_initial(), toks);
}

/// Defaults law: with no option given, every setting is its documented
/// default.
pub proof fn lemma_defaults(program: Seq<char>)
    ensures
        parse_args_spec(seq![program]) == Ok::<CliArgsView, CliErrorView>(CliArgsView {
            interval: 5,
            format: OutputFormat::Json,
            output_dir: "./logs"@,
            cpu_threshold: 90,
            ram_threshold: 85,
            alert_consecutive: 3,
            max_file_size: 10,
            rotate_every: 0,
            max_files: 10,
            webhook_url: None,
            buffer_size: 10,
            verbose: false,
        }),
{
    assert(seq![program].drop_first() =~= Seq::<Seq<char>>::empty());
}

/// The long name of an option (without the leading `--`).
pub open spec fn long_name_spec(f: CliFlag) -> Seq<char> {
    match f {
        CliFlag::Interval => "interval"@,
        CliFlag::Format => "format"@,
        CliFlag::OutputDir => "output-dir"@,
        CliFlag::CpuThreshold => "cpu-threshold"@,
        CliFlag::RamThreshold => "ram-threshold"@,
        CliFlag::AlertConsecutive => "alert-consecutive"@,
        CliFlag::MaxFileSize => "max-file-size"@,
        CliFlag::RotateEvery => "rotate-every"@,
        CliFlag::MaxFiles => "max-files"@,
        CliFlag::WebhookUrl => "webhook-url"@,
        CliFlag::BufferSize => "buffer-size"@,
        CliFlag::Verbose => "verbose"@,
        CliFlag::Help => "help"@,
        CliFlag::Version => "version"@,
    }
}

impl CliFlag {
    /// The long name of the option, without the leading `--`.
    pub fn long_name(&self) -> (s: &'static str)
        ensures
            s@ == long_name_spec(*self),
    {
        proof {
            reveal_strlit("interval");
            reveal_strlit("format");
            reveal_strlit("output-dir");
            reveal_strlit("cpu-threshold");
            reveal_strlit("ram-threshold");
            reveal_strlit("alert-consecutive");
            reveal_strlit("max-file-size");
            reveal_strlit("rotate-every");
            reveal_strlit("max-files");
            reveal_strlit("webhook-url");
            reveal_strlit("buffer-size");
            reveal_strlit("verbose");
            reveal_strlit("help");
            reveal_strlit("version");
        }
        match self {
            CliFlag::Interval => "interval",
            CliFlag::Format => "format",
            CliFlag::OutputDir => "output-dir",
            CliFlag::CpuThreshold => "cpu-threshold",
            CliFlag::RamThreshold => "ram-threshold",
            CliFlag::AlertConsecutive => "alert-consecutive",
            CliFlag::MaxFileSize => "max-file-size",
            CliFlag::RotateEvery => "rotate-every",
            CliFlag::MaxFiles => "max-files",
            CliFlag::WebhookUrl => "webhook-url",
            CliFlag::BufferSize => "buffer-size",
            CliFlag::Verbose => "verbose",
            CliFlag::Help => "help",
            CliFlag::Version => "version",
        }
    }
}

/// Every option is found again by its long name.
pub proof fn lemma_long_name_round_trip(f: CliFlag)
    ensures
        lookup_long(long_name_spec(f)) == Some(f),
{
    reveal_strlit("interval");
    assert("interval"@.len() == 8);
    reveal_strlit("format");
    assert("format"@.len() == 6);
    reveal_strlit("output-dir");
    assert("output-dir"@.len() == 10);
    reveal_strlit("cpu-threshold");
    assert("cpu-threshold"@.len() == 13);
    reveal_strlit("ram-threshold");
    assert("ram-threshold"@.len() == 13);
    reveal_strlit("alert-consecutive");
    assert("alert-consecutive"@.len() == 17);
    reveal_strlit("max-file-size");
    assert("max-file-size"@.len() == 13);
    reveal_strlit("rotate-every");
    assert("rotate-every"@.len() == 12);
    reveal_strlit("max-files");
    assert("max-files"@.len() == 9);
    reveal_strlit("webhook-url");
    assert("webhook-url"@.len() == 11);
    reveal_strlit("buffer-size");
    assert("buffer-size"@.len() == 11);
    reveal_strlit("verbose");
    assert("verbose"@.len() == 7);
    reveal_strlit("help");
    assert("help"@.len() == 4);
    reveal_strlit("version");
    assert("version"@.len() == 7);
    assert("cpu-threshold"@[0] == 'c');
    assert("ram-threshold"@[0] == 'r');
    assert("max-file-size"@[0] == 'm');
    assert("webhook-url"@[0] == 'w');
    assert("buffer-size"@[0] == 'b');
    assert("verbose"@[3] == 'b');
    assert("version"@[3] == 's');
}

/// The text of an error, in the words of the command-line parser.
pub open spec fn cli_error_message(e: CliErrorView) -> Seq<char> {
    match e {
        CliErrorView::HelpRequested => "help requested"@,
        CliErrorView::VersionRequested => "version requested"@,
        CliErrorView::UnknownArgument(a) => "unexpected argument '"@ + a + "' found"@,
        CliErrorView::MissingValue(f) => "a value is required for '--"@ + long_name_spec(f)
            + "' but none was supplied"@,
        CliErrorView::DuplicateArgument(f) => "the argument '--"@ + long_name_spec(f)
            + "' cannot be used multiple times"@,
        CliErrorView::UnexpectedValue(f) => "unexpected value for '--"@ + long_name_spec(f)
            + "': the flag takes no value"@,
        CliErrorView::InvalidValue(f, v, r) => "invalid value '"@ + v + "' for '--"@ + long_name_spec(f)
            + "': "@ + r,
    }
}

impl CliError {
    /// The text of the error.
    pub fn message(&self) -> (s: String)
        ensures
            s@ == cli_error_message(self@),
    {
        let mut s = String::new();
        match self {
            CliError::HelpRequested => push_str(&mut s, "help requested"),
            CliError::VersionRequested => push_str(&mut s, "version requested"),
            CliError::UnknownArgument(a) => {
                push_str(&mut s, "unexpected argument '");
                push_str(&mut s, a.as_str());
                push_str(&mut s, "' found");
            },
            CliError::MissingValue(f) => {
                push_str(&mut s, "a value is required for '--");
                push_str(&mut s, f.long_name());
                push_str(&mut s, "' but none was supplied");
            },
            CliError::DuplicateArgument(f) => {
                push_str(&mut s, "the argument '--");
                push_str(&mut s, f.long_name());
                push_str(&mut s, "' cannot be used multiple times");
            },
            CliError::UnexpectedValue(f) => {
                push_str(&mut s, "unexpected value for '--");
                push_str(&mut s, f.long_name());
                push_str(&mut s, "': the flag takes no value");
            },
            CliError::InvalidValue(f, v, r) => {
                push_str(&mut s, "invalid value '");
                push_str(&mut s, v.as_str());
                push_str(&mut s, "' for '--");
                push_str(&mut s, f.long_name());
                push_str(&mut s, "': ");
                push_str(&mut s, r.as_str());
            },
        }
        s
    }
}

proof fn lemma_no_equals(s: Seq<char>)
    requires
        forall|i: int| 0 <= i < s.len() ==> s[i] != '=',
    ensures
        first_index_of(s, '=') is None,
    decreases s.len(),
{
    if s.len() > 0 {
        assert forall|i: int| 0 <= i < s.drop_first().len() implies s.drop_first()[i] != '=' by {
            assert(s.drop_first()[i] == s[i + 1]);
        }
        lemma_no_equals(s.drop_first());
    }
}

/// What the parse of a command line comes to once its arguments have left
/// the parser in state `st`.
pub open spec fn finish_parse(st: PState) -> Result<CliArgsView, CliErrorView> {
    match st.pending {
        Some(p) => Err(CliErrorView::MissingValue(p)),
        None => Ok(with_defaults(st.acc)),
    }
}

proof fn lemma_one_argument(p: Seq<char>, a: Seq<char>)
    ensures
        parse_args_spec(seq![p, a]) == match step_token(pstate_initial(), a) {
            Err(e) => Err(e),
            Ok(st) => finish_parse(st),
        },
{
    assert(seq![p, a].drop_first() =~= seq![a]);
    assert(seq![a].drop_first() =~= Seq::<Seq<char>>::empty());
    match step_token(pstate_initial(), a) {
        Ok(st) => assert(run_tokens(st, Seq::<Seq<char>>::empty()) == Ok::<PState, CliErrorView>(st)),
        Err(_) => {},
    }
}

proof fn lemma_two_arguments(p: Seq<char>, a: Seq<char>, b: Seq<char>)
    ensures
        parse_args_spec(seq![p, a, b]) == match step_token(pstate_initial(), a) {
            Err(e) => Err(e),
            Ok(s1) => match step_token(s1, b) {
                Err(e) => Err(e),
                Ok(s2) => finish_parse(s2),
            },
        },
{
    assert(seq![p, a, b].drop_first() =~= seq![a, b]);
    assert(seq![a, b].drop_first() =~= seq![b]);
    assert(seq![b].drop_first() =~= Seq::<Seq<char>>::empty());
    assert(seq![a, b][0] == a);
    assert(seq![b][0] == b);
    match step_token(pstate_initial(), a) {
        Ok(s1) => {
            assert(run_tokens(pstate_initial(), seq![a, b]) == run_tokens(s1, seq![b]));
            match step_token(s1, b) {
                Ok(s2) => {
                    assert(run_tokens(s2, Seq::<Seq<char>>::empty()) == Ok::<PState, CliErrorView>(s2));
                    assert(run_tokens(s1, seq![b]) == run_tokens(s2, Seq::<Seq<char>>::empty()));
                },
                Err(e) => assert(run_tokens(s1, seq![b]) == Err::<PState, CliErrorView>(e)),
            }
        },
        Err(e) => assert(run_tokens(pstate_initial(), seq![a, b]) == Err::<PState, CliErrorView>(e)),
    }
}

proof fn lemma_short_token_i()
    ensures
        step_token(pstate_initial(), "-i"@) == step_token(pstate_initial(), "--interval"@),
{
    reveal_strlit("interval");
    assert("interval"@.len() == 8);
    reveal_strlit("-i");
    assert("-i"@.drop_first() =~= seq!['i']);
    assert(seq!['i'].drop_first() =~= Seq::<char>::empty());
    reveal_strlit("--interval");
    assert("--interval"@.len() == 10);
    assert("--interval"@.skip(2) =~= "interval"@);
    lemma_no_equals("interval"@);
    assert(lookup_long("interval"@) == Some(CliFlag::Interval));
}

proof fn lemma_short_token_f()
    ensures
        step_token(pstate_initial(), "-f"@) == step_token(pstate_initial(), "--format"@),
{
    reveal_strlit("interval");
    assert("interval"@.len() == 8);
    reveal_strlit("format");
    assert("format"@.len() == 6);
    reveal_strlit("-f");
    assert("-f"@.drop_first() =~= seq!['f']);
    assert(seq!['f'].drop_first() =~= Seq::<char>::empty());
    reveal_strlit("--format");
    assert("--format"@.len() == 8);
    assert("--format"@.skip(2) =~= "format"@);
    lemma_no_equals("format"@);
    assert(lookup_long("format"@) == Some(CliFlag::Format));
}

proof fn lemma_short_token_o()
    ensures
        step_token(pstate_initial(), "-o"@) == step_token(pstate_initial(), "--output-dir"@),
{
    reveal_strlit("interval");
    assert("interval"@.len() == 8);
    reveal_strlit("format");
    assert("format"@.len() == 6);
    reveal_strlit("output-dir");
    assert("output-dir"@.len() == 10);
    reveal_strlit("-o");
    assert("-o"@.drop_first() =~= seq!['o']);
    assert(seq!['o'].drop_first() =~= Seq::<char>::empty());
    reveal_strlit("--output-dir");
    assert("--output-dir"@.len() == 12);
    assert("--output-dir"@.skip(2) =~= "output-dir"@);
    lemma_no_equals("output-dir"@);
    assert(lookup_long("output-dir"@) == Some(CliFlag::OutputDir));
}

proof fn lemma_short_token_v()
    ensures
        step_token(pstate_initial(), "-v"@) == step_token(pstate_initial(), "--verbose"@),
{
    reveal_strlit("interval");
    assert("interval"@.len() == 8);
    reveal_strlit("format");
    assert("format"@.len() == 6);
    reveal_strlit("output-dir");
    assert("output-dir"@.len() == 10);
    reveal_strlit("cpu-threshold");
    assert("cpu-threshold"@.len() == 13);
    reveal_strlit("ram-threshold");
    assert("ram-threshold"@.len() == 13);
    reveal_strlit("alert-consecutive");
    assert("alert-consecutive"@.len() == 17);
    reveal_strlit("max-file-size");
    assert("max-file-size"@.len() == 13);
    reveal_strlit("rotate-every");
    assert("rotate-every"@.len() == 12);
    reveal_strlit("max-files");
    assert("max-files"@.len() == 9);
    reveal_strlit("webhook-url");
    assert("webhook-url"@.len() == 11);
    reveal_strlit("buffer-size");
    assert("buffer-size"@.len() == 11);
    reveal_strlit("verbose");
    assert("verbose"@.len() == 7);
    assert("verbose"@[3] == 'b');
    reveal_strlit("-v");
    assert("-v"@.drop_first() =~= seq!['v']);
    assert(seq!['v'].drop_first() =~= Seq::<char>::empty());
    reveal_strlit("--verbose");
    assert("--verbose"@.len() == 9);
    assert("--verbose"@.skip(2) =~= "verbose"@);
    lemma_no_equals("verbose"@);
    assert(lookup_long("verbose"@) == Some(CliFlag::Verbose));
    let st2 = PState { acc: PartialView { verbose: true, ..partial_empty() }, ..pstate_initial() };
    assert(step_short(st2, Seq::<char>::empty()) == Ok::<PState, CliErrorView>(st2));
}

proof fn lemma_short_token_h()
    ensures
        step_token(pstate_initial(), "-h"@) == step_token(pstate_initial(), "--help"@),
{
    reveal_strlit("interval");
    assert("interval"@.len() == 8);
    reveal_strlit("format");
    assert("format"@.len() == 6);
    reveal_strlit("output-dir");
    assert("output-dir"@.len() == 10);
    reveal_strlit("cpu-threshold");
    assert("cpu-threshold"@.len() == 13);
    reveal_strlit("ram-threshold");
    assert("ram-threshold"@.len() == 13);
    reveal_strlit("alert-consecutive");
    assert("alert-consecutive"@.len() == 17);
    reveal_strlit("max-file-size");
    assert("max-file-size"@.len() == 13);
    reveal_strlit("rotate-every");
    assert("rotate-every"@.len() == 12);
    reveal_strlit("max-files");
    assert("max-files"@.len() == 9);
    reveal_strlit("webhook-url");
    assert("webhook-url"@.len() == 11);
    reveal_strlit("buffer-size");
    assert("buffer-size"@.len() == 11);
    reveal_strlit("verbose");
    assert("verbose"@.len() == 7);
    reveal_strlit("help");
    assert("help"@.len() == 4);
    reveal_strlit("-h");
    assert("-h"@.drop_first() =~= seq!['h']);
    assert(seq!['h'].drop_first() =~= Seq::<char>::empty());
    reveal_strlit("--help");
    assert("--help"@.len() == 6);
    assert("--help"@.skip(2) =~= "help"@);
    lemma_no_equals("help"@);
    assert(lookup_long("help"@) == Some(CliFlag::Help));
}

proof fn lemma_short_token_upper_v()
    ensures
        step_token(pstate_initial(), "-V"@) == step_token(pstate_initial(), "--version"@),
{
    reveal_strlit("interval");
    assert("interval"@.len() == 8);
    reveal_strlit("format");
    assert("format"@.len() == 6);
    reveal_strlit("output-dir");
    assert("output-dir"@.len() == 10);
    reveal_strlit("cpu-threshold");
    assert("cpu-threshold"@.len() == 13);
    reveal_strlit("ram-threshold");
    assert("ram-threshold"@.len() == 13);
    reveal_strlit("alert-consecutive");
    assert("alert-consecutive"@.len() == 17);
    reveal_strlit("max-file-size");
    assert("max-file-size"@.len() == 13);
    reveal_strlit("rotate-every");
    assert("rotate-every"@.len() == 12);
    reveal_strlit("max-files");
    assert("max-files"@.len() == 9);
    reveal_strlit("webhook-url");
    assert("webhook-url"@.len() == 11);
    reveal_strlit("buffer-size");
    assert("buffer-size"@.len() == 11);
    reveal_strlit("verbose");
    assert("verbose"@.len() == 7);
    reveal_strlit("help");
    assert("help"@.len() == 4);
    reveal_strlit("version");
    assert("version"@.len() == 7);
    assert("verbose"@[3] == 'b');
    assert("version"@[3] == 's');
    reveal_strlit("-V");
    assert("-V"@.drop_first() =~= seq!['V']);
    assert(seq!['V'].drop_first() =~= Seq::<char>::empty());
    reveal_strlit("--version");
    assert("--version"@.len() == 9);
    assert("--version"@.skip(2) =~= "version"@);
    lemma_no_equals("version"@);
    assert(lookup_long("version"@) == Some(CliFlag::Version));
}

/// Short-name law: each documented short name means its long option, as
/// the README's table gives them (`-i, --interval`, `-f, --format`,
/// `-o, --output-dir`, `-v, --verbose`, `-h, --help`, `-V, --version`):
/// a command line with the short form parses exactly as the one with the
/// long form, for any value given in the next argument.
pub proof fn lemma_short_names_mean_long_options(p: Seq<char>, v: Seq<char>)
    ensures
        parse_args_spec(seq![p, "-i"@, v]) == parse_args_spec(seq![p, "--interval"@, v]),
        parse_args_spec(seq![p, "-f"@, v]) == parse_args_spec(seq![p, "--format"@, v]),
        parse_args_spec(seq![p, "-o"@, v]) == parse_args_spec(seq![p, "--output-dir"@, v]),
        parse_args_spec(seq![p, "-v"@]) == parse_args_spec(seq![p, "--verbose"@]),
        parse_args_spec(seq![p, "-h"@]) == parse_args_spec(seq![p, "--help"@]),
        parse_args_spec(seq![p, "-V"@]) == parse_args_spec(seq![p, "--version"@]),
{
    lemma_short_token_i();
    lemma_short_token_f();
    lemma_short_token_o();
    lemma_short_token_v();
    lemma_short_token_h();
    lemma_short_token_upper_v();
    lemma_two_arguments(p, "-i"@, v);
    lemma_two_arguments(p, "--interval"@, v);
    lemma_two_arguments(p, "-f"@, v);
    lemma_two_arguments(p, "--format"@, v);
    lemma_two_arguments(p, "-o"@, v);
    lemma_two_arguments(p, "--output-dir"@, v);
    lemma_one_argument(p, "-v"@);
    lemma_one_argument(p, "--verbose"@);
    lemma_one_argument(p, "-h"@);
    lemma_one_argument(p, "--help"@);
    lemma_one_argument(p, "-V"@);
    lemma_one_argument(p, "--version"@);
}

/// Range law of the validated options: `--interval`, `--max-file-size` and
/// `--buffer-size` accept every whole number from 1 up to their type's limit
/// and refuse 0; the thresholds accept every whole number from 0 to 100 and
/// refuse every larger one and every negative one.
pub proof fn lemma_value_ranges(n: u64)
    ensures
        n >= 1 ==> interval_spec(decimal(n as nat)) == Ok::<u64, Seq<char>>(n),
        n == 0 ==> interval_spec(decimal(n as nat)) is Err,
        n >= 1 ==> max_file_size_spec(decimal(n as nat)) == Ok::<u64, Seq<char>>(n),
        n == 0 ==> max_file_size_spec(decimal(n as nat)) is Err,
        1 <= n <= usize::MAX ==> buffer_size_spec(decimal(n as nat)) == Ok::<usize, Seq<char>>(n as usize),
        n == 0 ==> buffer_size_spec(decimal(n as nat)) is Err,
        n <= 100 ==> percentage_spec(decimal(n as nat)) == Ok::<u8, Seq<char>>(n as u8),
        n > 100 ==> percentage_spec(decimal(n as nat)) is Err,
        n >= 1 ==> percentage_spec(seq!['-'] + decimal(n as nat)) is Err,
{
    lemma_decimal_reads_back(n as nat);
    let d = decimal(n as nat);
    assert(d[0] != '+' && d[0] != '-');
    let neg = seq!['-'] + d;
    assert(neg[0] == '-');
    assert(neg.drop_first() =~= d);
}

/// Attached-value law: a short option that takes a value gets the same value
/// from `-c=VALUE` as from `-c VALUE` (`-i`, `-f` and `-o`), so the `=` is
/// never part of the value.
pub proof fn lemma_short_equals_value(p: Seq<char>, c: char, v: Seq<char>)
    requires
        c == 'i' || c == 'f' || c == 'o',
        v.len() == 0 || v[0] != '-',
    ensures
        parse_args_spec(seq![p, seq!['-', c, '='] + v]) == parse_args_spec(seq![p, seq!['-', c], v]),
{
    let attached = seq!['-', c, '='] + v;
    let cluster = seq![c, '='] + v;
    assert(attached.drop_first() =~= cluster);
    assert(cluster.drop_first() =~= seq!['='] + v);
    assert((seq!['='] + v).drop_first() =~= v);
    assert(seq!['-', c].drop_first() =~= seq![c]);
    assert(seq![c].drop_first() =~= Seq::<char>::empty());
    lemma_one_argument(p, attached);
    lemma_two_arguments(p, seq!['-', c], v);
}

} // verus!
