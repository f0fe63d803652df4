//! The unified application configuration, built from the command line.

use vstd::prelude::*;

use crate::cli::{opt_view, CliArgs, OutputFormat};
use crate::text::{chars_to_string, push_decimal, push_str, str_chars};

verus! {

/// A webhook URL, parsed, with the parts that the alerting logic reads.
#[derive(Clone)]
pub struct WebhookUrl {
    serialization: String,
    scheme: String,
    host: Option<String>,
    port: Option<u16>,
    path: String,
}

/// The mathematical content of a [`WebhookUrl`].
pub struct WebhookUrlView {
    /// The whole URL as the parser serializes it.
    pub serialization: Seq<char>,
    pub scheme: Seq<char>,
    pub host: Option<Seq<char>>,
    /// The port, when it is not the scheme's default.
    pub port: Option<u16>,
    pub path: Seq<char>,
}

impl View for WebhookUrl {
    type V = WebhookUrlView;

    closed spec fn view(&self) -> WebhookUrlView {
        WebhookUrlView {
            serialization: self.serialization@,
            scheme: self.scheme@,
            host: opt_view(self.host),
            port: self.port,
            path: self.path@,
        }
    }
}

/// What `url::Url::parse` makes of a string: `None` when it is not an
/// absolute URL, else the parts of the parsed URL.
pub uninterp spec fn url_parse(input: Seq<char>) -> Option<WebhookUrlView>;

/// Parses `input` with `url::Url::parse` and reads its serialization
/// (`as_str`), `scheme`, `host_str`, `port` and `path`. The contract claims
/// only that the outcome is the one `url_parse` names for this input.
#[verifier::external_body]
fn parse_url(input: &str) -> (r: Option<WebhookUrl>)
    ensures
        match r {
            Some(u) => url_parse(input@) == Some(u@),
            None => url_parse(input@) is None,
        },
{
    match url::Url::parse(input) {
        Ok(u) => Some(WebhookUrl {
            serialization: u.as_str().to_string(),
            scheme: u.scheme().to_string(),
            host: u.host_str().map(|h| h.to_string()),
            port: u.port(),
            path: u.path().to_string(),
        }),
        Err(_) => None,
    }
}

impl WebhookUrl {
    /// Parses a webhook URL.
    pub fn parse(input: &str) -> (r: Option<WebhookUrl>)
        ensures
            match r {
                Some(u) => url_parse(input@) == Some(u@),
                None => url_parse(input@) is None,
            },
    {
        parse_url(input)
    }

    /// The whole URL.
    pub fn as_str(&self) -> (s: &str)
        ensures
            s@ == self@.serialization,
    {
        self.serialization.as_str()
    }

    pub fn scheme(&self) -> (s: &str)
        ensures
            s@ == self@.scheme,
    {
        self.scheme.as_str()
    }

    pub fn host_str(&self) -> (h: Option<&str>)
        ensures
            match h {
                Some(h) => self@.host == Some(h@),
                None => self@.host is None,
            },
    {
        match &self.host {
            Some(h) => Some(h.as_str()),
            None => None,
        }
    }

    pub fn port(&self) -> (p: Option<u16>)
        ensures
            p == self@.port,
    {
        self.port
    }

    pub fn path(&self) -> (s: &str)
        ensures
            s@ == self@.path,
    {
        self.path.as_str()
    }
}

/// Why the command line did not make a configuration.
#[derive(Debug, Clone, Copy, PartialEq, Eq, Structural)]
pub enum ConfigError {
    InvalidWebhookUrl,
    RotateEveryTooLarge(u64),
}

/// The text of a configuration error. It never holds the webhook URL.
pub open spec fn config_error_message(e: ConfigError) -> Seq<char> {
    match e {
        ConfigError::InvalidWebhookUrl => "invalid webhook URL"@,
        ConfigError::RotateEveryTooLarge(hours) =>
            "rotate-every is too large to convert from hours to seconds: "@ + crate::text::decimal(hours as nat),
    }
}

impl ConfigError {
    /// The error's text.
    pub fn message(&self) -> (s: String)
        ensures
            s@ == config_error_message(*self),
    {
        match self {
            ConfigError::InvalidWebhookUrl => chars_to_string(str_chars("invalid webhook URL").as_slice()),
            ConfigError::RotateEveryTooLarge(hours) => {
                let mut s = String::new();
                push_str(&mut s, "rotate-every is too large to convert from hours to seconds: ");
                push_decimal(&mut s, *hours);
                s
            },
        }
    }
}

/// The validated configuration the engine runs with.
pub struct AppConfig {
    /// Collection interval, in seconds.
    pub interval: u64,
    pub format: OutputFormat,
    pub output_dir: String,
    pub cpu_threshold: u8,
    pub ram_threshold: u8,
    pub alert_consecutive: u32,
    pub max_file_size_mb: u64,
    /// Time-based rotation interval, in seconds; `None` when disabled.
    pub rotate_every: Option<u64>,
    pub max_files: usize,
    pub webhook_url: Option<WebhookUrl>,
    pub buffer_size: usize,
    pub verbose: bool,
}

/// Seconds in an hour.
pub open spec fn secs_per_hour() -> nat {
    3600
}

/// What [`AppConfig::try_from`] makes of parsed arguments: the webhook URL
/// must parse, and a non-zero rotation period in hours must fit in seconds.
pub open spec fn config_outcome(args: crate::cli::CliArgsView) -> Result<(Option<Option<WebhookUrlView>>, Option<u64>), ConfigError> {
    let url = match args.webhook_url {
        Some(u) => Some(url_parse(u)),
        None => None,
    };
    if url matches Some(None) {
        Err(ConfigError::InvalidWebhookUrl)
    } else if args.rotate_every != 0 && args.rotate_every * secs_per_hour() > u64::MAX {
        Err(ConfigError::RotateEveryTooLarge(args.rotate_every))
    } else {
        Ok((url, if args.rotate_every == 0 { None } else { Some((args.rotate_every * secs_per_hour()) as u64) }))
    }
}

impl AppConfig {
    /// Builds the configuration from parsed arguments: parses the webhook URL
    /// (an unparsable one is an error) and turns the rotation period from
    /// hours into seconds (0 disables it; a period whose seconds overflow is an
    /// error). The other settings are taken over as they are.
    pub fn try_from(value: CliArgs) -> (r: Result<AppConfig, ConfigError>)
        ensures
            match config_outcome(value@) {
                Err(e) => r == Err::<AppConfig, ConfigError>(e),
                Ok((url, rotate)) => r matches Ok(c) && {
                    &&& c.interval == value.interval
                    &&& c.format == value.format
                    &&& c.output_dir@ == value.output_dir@
                    &&& c.cpu_threshold == value.cpu_threshold
                    &&& c.ram_threshold == value.ram_threshold
                    &&& c.alert_consecutive == value.alert_consecutive
                    &&& c.max_file_size_mb == value.max_file_size
                    &&& c.rotate_every == rotate
                    &&& c.max_files == value.max_files
                    &&& match (c.webhook_url, url) {
                        (Some(w), Some(Some(v))) => w@ == v,
                        (None, None) => true,
                        _ => false,
                    }
                    &&& c.buffer_size == value.buffer_size
                    &&& c.verbose == value.verbose
                },
            },
    {
        let webhook_url = match &value.webhook_url {
            Some(url) => match WebhookUrl::parse(url.as_str()) {
                Some(u) => Some(u),
                None => return Err(ConfigError::InvalidWebhookUrl),
            },
            None => None,
        };
        let rotate_every = if value.rotate_every == 0 {
            None
        } else {
            match value.rotate_every.checked_mul(60 * 60) {
                Some(seconds) => Some(seconds),
                None => return Err(ConfigError::RotateEveryTooLarge(value.rotate_every)),
            }
        };
        Ok(AppConfig {
            interval: value.interval,
            format: value.format,
            output_dir: value.output_dir,
            cpu_threshold: value.cpu_threshold,
            ram_threshold: value.ram_threshold,
            alert_consecutive: value.alert_consecutive,
            max_file_size_mb: value.max_file_size,
            rotate_every,
            max_files: value.max_files,
            webhook_url,
            buffer_size: value.buffer_size,
            verbose: value.verbose,
        })
    }
}

/// What `{:?}` prints for a path: the path quoted, with quotes, single
/// quotes, backslashes and control characters escaped.
pub uninterp spec fn path_debug(s: Seq<char>) -> Seq<char>;

/// Renders `std::path::Path::new(s)` with `format!("{:?}", ..)`, as a
/// `PathBuf` field prints in a derived or hand-written `Debug`. The contract
/// claims only that the text is the one `path_debug` names for `s`.
#[verifier::external_body]
fn path_debug_text(s: &str) -> (r: String)
    ensures
        r@ == path_debug(s@),
{
    format!("{:?}", std::path::Path::new(s))
}

/// What `{:?}` prints for a `Duration` of whole seconds.
pub open spec fn duration_debug(secs: u64) -> Seq<char> {
    if secs == 0 { "0ns"@ } else { crate::text::decimal(secs as nat) + "s"@ }
}

pub open spec fn format_debug(f: OutputFormat) -> Seq<char> {
    match f {
        OutputFormat::Json => "Json"@,
        OutputFormat::Csv => "Csv"@,
    }
}

pub open spec fn bool_debug(b: bool) -> Seq<char> {
    if b { "true"@ } else { "false"@ }
}

/// The debug rendering of a configuration. It shows whether a webhook is
/// configured, never its URL.
pub open spec fn config_debug_spec(
    interval: u64,
    format: OutputFormat,
    output_dir: Seq<char>,
    cpu_threshold: u8,
    ram_threshold: u8,
    alert_consecutive: u32,
    max_file_size_mb: u64,
    rotate_every: Option<u64>,
    max_files: usize,
    has_webhook: bool,
    buffer_size: usize,
    verbose: bool,
) -> Seq<char> {
    let d = |n: nat| crate::text::decimal(n);
    "AppConfig { interval: "@ + duration_debug(interval)
        + ", format: "@ + format_debug(format)
        + ", output_dir: "@ + path_debug(output_dir)
        + ", cpu_threshold: "@ + d(cpu_threshold as nat)
        + ", ram_threshold: "@ + d(ram_threshold as nat)
        + ", alert_consecutive: "@ + d(alert_consecutive as nat)
        + ", max_file_size_mb: "@ + d(max_file_size_mb as nat)
        + ", rotate_every: "@ + match rotate_every {
            Some(s) => "Some("@ + duration_debug(s) + ")"@,
            None => "None"@,
        }
        + ", max_files: "@ + d(max_files as nat)
        + ", webhook_url: "@ + (if has_webhook { "Some(\"<redacted>\")"@ } else { "None"@ })
        + ", buffer_size: "@ + d(buffer_size as nat)
        + ", verbose: "@ + bool_debug(verbose)
        + " }"@
}

fn push_duration_debug(s: &mut String, secs: u64)
    ensures
        final(s)@ == old(s)@ + duration_debug(secs),
{
    if secs == 0 {
        push_str(s, "0ns");
    } else {
        push_decimal(s, secs);
        push_str(s, "s");
    }
}

impl AppConfig {
    /// The configuration as `{:?}` would show it, with the webhook URL
    /// replaced by `"<redacted>"` so that logs never hold its secret.
    pub fn redacted_debug(&self) -> (s: String)
        ensures
            s@ == config_debug_spec(
                self.interval, self.format, self.output_dir@, self.cpu_threshold, self.ram_threshold,
                self.alert_consecutive, self.max_file_size_mb, self.rotate_every, self.max_files,
                self.webhook_url is Some, self.buffer_size, self.verbose,
            ),
    {
        let mut s = String::new();
        push_str(&mut s, "AppConfig { interval: ");
        push_duration_debug(&mut s, self.interval);
        push_str(&mut s, ", format: ");
        match self.format {
            OutputFormat::Json => push_str(&mut s, "Json"),
            OutputFormat::Csv => push_str(&mut s, "Csv"),
        }
        push_str(&mut s, ", output_dir: ");
        let dir = path_debug_text(self.output_dir.as_str());
        push_str(&mut s, dir.as_str());
        push_str(&mut s, ", cpu_threshold: ");
        push_decimal(&mut s, self.cpu_threshold as u64);
        push_str(&mut s, ", ram_threshold: ");
        push_decimal(&mut s, self.ram_threshold as u64);
        push_str(&mut s, ", alert_consecutive: ");
        push_decimal(&mut s, self.alert_consecutive as u64);
        push_str(&mut s, ", max_file_size_mb: ");
        push_decimal(&mut s, self.max_file_size_mb);
        push_str(&mut s, ", rotate_every: ");
        match self.rotate_every {
            Some(secs) => {
                push_str(&mut s, "Some(");
                push_duration_debug(&mut s, secs);
                push_str(&mut s, ")");
            },
            None => push_str(&mut s, "None"),
        }
        push_str(&mut s, ", max_files: ");
        push_decimal(&mut s, self.max_files as u64);
        push_str(&mut s, ", webhook_url: ");
        if self.webhook_url.is_some() {
            push_str(&mut s, "Some(\"<redacted>\")");
        } else {
            push_str(&mut s, "None");
        }
        push_str(&mut s, ", buffer_size: ");
        push_decimal(&mut s, self.buffer_size as u64);
        push_str(&mut s, ", verbose: ");
        if self.verbose {
            push_str(&mut s, "true");
        } else {
            push_str(&mut s, "false");
        }
        push_str(&mut s, " }");
        s
    }
}

/// Redaction law: two configurations that differ only in which webhook URL
/// they hold have the same debug rendering, so the rendering cannot reveal
/// the URL.
pub proof fn lemma_debug_independent_of_webhook(a: &AppConfig, b: &AppConfig)
    requires
        a.interval == b.interval,
        a.format == b.format,
        a.output_dir@ == b.output_dir@,
        a.cpu_threshold == b.cpu_threshold,
        a.ram_threshold == b.ram_threshold,
        a.alert_consecutive == b.alert_consecutive,
        a.max_file_size_mb == b.max_file_size_mb,
        a.rotate_every == b.rotate_every,
        a.max_files == b.max_files,
        a.webhook_url is Some == b.webhook_url is Some,
        a.buffer_size == b.buffer_size,
        a.verbose == b.verbose,
    ensures
        config_debug_spec(
            a.interval, a.format, a.output_dir@, a.cpu_threshold, a.ram_threshold, a.alert_consecutive,
            a.max_file_size_mb, a.rotate_every, a.max_files, a.webhook_url is Some, a.buffer_size, a.verbose,
        ) == config_debug_spec(
            b.interval, b.format, b.output_dir@, b.cpu_threshold, b.ram_threshold, b.alert_consecutive,
            b.max_file_size_mb, b.rotate_every, b.max_files, b.webhook_url is Some, b.buffer_size, b.verbose,
        ),
{
}

} // verus!
