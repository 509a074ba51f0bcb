//! Logging settings.

use crate::config::LogConfig;
use crate::paths::{directory_or_here, join_path, parent_path};
use crate::text::{chars_of, copy_text, same_ignoring_ascii_case, split_once, trim};
use vstd::prelude::*;

verus! {

/// Log output format.
#[derive(Debug, Clone, Copy, PartialEq, Eq, Structural)]
pub enum LogFormat {
    /// Human-readable, ANSI-free (log files aren't a terminal).
    Pretty,
    /// Newline-delimited JSON, for log shippers.
    Json,
}

/// How often a new log file is started.
#[derive(Debug, Clone, Copy, PartialEq, Eq, Structural)]
pub enum Rotation {
    Hourly,
    Daily,
    Never,
}

/// Whether a text is a given word, whatever the case of its ASCII letters.
pub open spec fn is_word(text: Seq<char>, word: Seq<char>) -> bool {
    crate::text::ascii_lowercase(text) == crate::text::ascii_lowercase(word)
}

pub open spec fn format_of(value: Option<Seq<char>>) -> LogFormat {
    if value matches Some(text) && is_word(text, "json"@) {
        LogFormat::Json
    } else {
        LogFormat::Pretty
    }
}

/// Parse the configured log format. Defaults to `Pretty` for `None` or any
/// unrecognized value: a config typo in `log.format` should degrade
/// gracefully rather than stop the gateway from starting.
pub fn parse_log_format(value: Option<&str>) -> (format: LogFormat)
    ensures
        format == format_of(crate::text::optional_str_view(value)),
{
    match value {
        Some(text) => if same_ignoring_ascii_case(text, "json") {
            LogFormat::Json
        } else {
            LogFormat::Pretty
        },
        None => LogFormat::Pretty,
    }
}

pub open spec fn rotation_of(value: Option<Seq<char>>) -> Rotation {
    if value matches Some(text) && is_word(text, "hourly"@) {
        Rotation::Hourly
    } else if value matches Some(text) && is_word(text, "never"@) {
        Rotation::Never
    } else {
        Rotation::Daily
    }
}

/// Parse the configured rotation policy. Defaults to `Daily` for `None` or
/// any unrecognized value, for the same reason as [`parse_log_format`].
pub fn parse_rotation(value: Option<&str>) -> (rotation: Rotation)
    ensures
        rotation == rotation_of(crate::text::optional_str_view(value)),
{
    match value {
        Some(text) => if same_ignoring_ascii_case(text, "hourly") {
            Rotation::Hourly
        } else if same_ignoring_ascii_case(text, "never") {
            Rotation::Never
        } else {
            Rotation::Daily
        },
        None => Rotation::Daily,
    }
}

/// The log directory in a directory; `.` stands for a missing one.
pub fn log_dir_in(parent: Option<String>) -> (path: String)
    ensures
        crate::paths::lies_in(
            crate::paths::directory_text(parent),
            "logs"@,
            path@,
        ),
{
    proof {
        reveal_strlit("logs");
    }
    let directory = directory_or_here(parent);
    join_path(directory.as_str(), "logs")
}

/// Derive the gateway's default log directory from its own executable
/// path: a `logs` directory next to the `.exe`. Where a path has no slash, what
/// its directory is depends on the platform: it is what stands before the last
/// backslash, or empty. A path that names no file may have none, and `.` stands
/// for it.
pub fn log_dir_from_exe(exe_path: &str) -> (path: String)
    ensures
        forall|directory: Seq<char>, name: Seq<char>| #[trigger]
            crate::paths::splits(exe_path@, directory, name) ==> crate::paths::lies_in(
                directory,
                "logs"@,
                path@,
            ),
        forall|directory: Seq<char>, name: Seq<char>| #[trigger]
            crate::paths::splits_at_backslash(
                exe_path@,
                directory,
                name,
            ) ==> crate::paths::stands_in(directory, "logs"@, path@),
        crate::paths::plain_component(exe_path@) ==> path@ == "logs"@,
        exe_path@.len() == 0 || exe_path@ == seq!['/'] ==> crate::paths::lies_in(
            "."@,
            "logs"@,
            path@,
        ),
        exists|directory: Seq<char>|
            #[trigger] crate::paths::lies_in(directory, "logs"@, path@) && (directory
                == "."@ && !crate::paths::names_file(exe_path@) || (directory.len() < exe_path@.len() && crate::text::has_prefix(
                exe_path@,
                directory,
            ))),
        crate::text::has_suffix(path@, "logs"@),
{
    let parent = parent_path(exe_path);
    let ghost directory = crate::paths::directory_text(parent);
    let path = log_dir_in(parent);
    assert(crate::paths::lies_in(directory, "logs"@, path@));
    proof {
        reveal_strlit("logs");
        assert("logs"@.len() == 4);
        assert(crate::paths::plain_component("logs"@));
        if crate::paths::plain_component(exe_path@) {
            assert(directory =~= Seq::<char>::empty());
            assert(path@ =~= "logs"@);
        }
    }
    path
}

/// How many bytes a character takes in UTF-8.
pub open spec fn byte_width(c: char) -> nat {
    if c <= '\u{7f}' {
        1
    } else if c <= '\u{7ff}' {
        2
    } else if c <= '\u{ffff}' {
        3
    } else {
        4
    }
}

/// How many bytes a text takes in UTF-8.
pub open spec fn byte_len(text: Seq<char>) -> nat
    decreases text.len(),
{
    if text.len() == 0 {
        0
    } else {
        byte_len(text.drop_last()) + byte_width(text.last())
    }
}

/// Whether a number of bytes from the start of a text no character is cut.
pub open spec fn is_between_characters(text: Seq<char>, bytes: nat) -> bool {
    exists|k: int| 0 <= k <= text.len() && byte_len(#[trigger] text.take(k)) == bytes
}

/// What part of a filter directive is being read.
#[derive(Debug, Clone, Copy, PartialEq, Eq, Structural)]
pub enum DirectivePart {
    Start,
    /// A level, or the target that the directive is about.
    Name,
    /// The name of a span, after `[`.
    Span,
    /// A field of a span, after `{`.
    Field,
    /// What follows the fields.
    AfterFields,
    /// What follows the span.
    AfterSpan,
    /// The level, after `=`.
    Level,
    /// Nothing any more: the directive is not valid.
    Invalid,
}

/// How far a directive has been read: in which part, and how many bytes of it
/// stand before that part.
pub struct DirectiveReading {
    pub part: DirectivePart,
    pub from: nat,
}

impl DirectiveReading {
    /// The reading once a character was read that stands after `at` bytes.
    pub open spec fn next(self, c: char, at: nat) -> Self {
        let stay = self;
        let go = |part: DirectivePart| DirectiveReading { part, from: self.from };
        let open = |part: DirectivePart| DirectiveReading { part, from: at + 1 };
        match self.part {
            DirectivePart::Start => if c == '[' {
                open(DirectivePart::Span)
            } else {
                go(DirectivePart::Name)
            },
            DirectivePart::Name => if c == '=' {
                go(DirectivePart::Level)
            } else if c == '[' {
                open(DirectivePart::Span)
            } else {
                stay
            },
            DirectivePart::Span => if c == ']' {
                go(DirectivePart::AfterSpan)
            } else if c == '{' {
                open(DirectivePart::Field)
            } else {
                stay
            },
            DirectivePart::Field => if c == '}' {
                go(DirectivePart::AfterFields)
            } else {
                stay
            },
            DirectivePart::AfterFields => if c == ']' {
                go(DirectivePart::AfterSpan)
            } else {
                go(DirectivePart::Invalid)
            },
            DirectivePart::AfterSpan => if c == '=' {
                go(DirectivePart::Level)
            } else {
                go(DirectivePart::Invalid)
            },
            DirectivePart::Level => stay,
            DirectivePart::Invalid => stay,
        }
    }

    /// Whether the text is cut between characters where a character ends a
    /// part. A target is cut off before the `=` or `[` that ends it, a span
    /// name and a field are cut out between their brackets, and a level is cut
    /// off after its `=`.
    pub open spec fn cuts_cleanly(self, text: Seq<char>, c: char, at: nat) -> bool {
        match self.part {
            DirectivePart::Name => (c == '=' || c == '[' ==> is_between_characters(text, at)) && (c
                == '=' ==> is_between_characters(text, at + 1)),
            DirectivePart::Span => c == ']' || c == '{' ==> is_between_characters(text, self.from)
                && is_between_characters(text, at),
            DirectivePart::Field => c == '}' ==> is_between_characters(text, self.from)
                && is_between_characters(text, at),
            DirectivePart::AfterSpan => c == '=' ==> is_between_characters(text, at + 1),
            _ => true,
        }
    }
}

/// How far a directive has been read once all of a text was.
pub open spec fn reading_of(body: Seq<char>) -> DirectiveReading
    decreases body.len(),
{
    if body.len() == 0 {
        DirectiveReading { part: DirectivePart::Start, from: 0 }
    } else {
        let front = body.drop_last();
        reading_of(front).next(body.last(), byte_len(front))
    }
}

/// Whether a text is cut between characters wherever reading `body` ends a
/// part.
pub open spec fn reading_cuts_cleanly(text: Seq<char>, body: Seq<char>) -> bool
    decreases body.len(),
{
    if body.len() == 0 {
        true
    } else {
        let front = body.drop_last();
        reading_cuts_cleanly(text, front) && reading_of(front).cuts_cleanly(
            text,
            body.last(),
            byte_len(front),
        )
    }
}

/// Whether the places where a directive is cut, counted from its first
/// character that is not whitespace, cut no character of the whole directive
/// either.
pub open spec fn directive_cuts_where_it_reads(directive: Seq<char>) -> bool {
    reading_cuts_cleanly(directive, crate::text::trimmed(directive))
}

/// Whether the directives of a filter, which commas part, can be cut into
/// their parts.
pub open spec fn cuts_where_it_reads(spec: Seq<char>) -> bool
    decreases spec.len(),
{
    match crate::text::cut(spec, ',') {
        Some((head, tail)) => {
            proof {
                crate::text::cut_parts_make_the_text(spec, ',');
            }
            directive_cuts_where_it_reads(head) && cuts_where_it_reads(tail)
        },
        None => directive_cuts_where_it_reads(spec),
    }
}

fn width_of(c: char) -> (width: u128)
    ensures
        width == byte_width(c),
{
    if c <= '\u{7f}' {
        1
    } else if c <= '\u{7ff}' {
        2
    } else if c <= '\u{ffff}' {
        3
    } else {
        4
    }
}

fn cuts_no_character(chars: &Vec<char>, bytes: u128) -> (between: bool)
    ensures
        between == is_between_characters(chars@, bytes as nat),
{
    let mut k: usize = 0;
    let mut seen: u128 = 0;
    while k < chars.len()
        invariant
            k <= chars.len(),
            seen == byte_len(chars@.take(k as int)),
            seen <= 4 * k,
            forall|m: int| 0 <= m < k ==> byte_len(#[trigger] chars@.take(m)) != bytes,
        decreases chars.len() - k,
    {
        if seen == bytes {
            return true;
        }
        proof {
            assert(chars@.take(k + 1).drop_last() =~= chars@.take(k as int));
            assert(chars@.take(k + 1).last() == chars@[k as int]);
        }
        seen = seen + width_of(chars[k]);
        k += 1;
    }
    seen == bytes
}

/// The part that is read next, and whether it begins after the character.
fn next_part(part: DirectivePart, c: char) -> (next: (DirectivePart, bool))
    ensures
        forall|from: nat, at: nat|
            (#[trigger] (DirectiveReading { part, from }).next(c, at)) == (DirectiveReading {
                part: next.0,
                from: if next.1 {
                    at + 1
                } else {
                    from
                },
            }),
{
    match part {
        DirectivePart::Start => if c == '[' {
            (DirectivePart::Span, true)
        } else {
            (DirectivePart::Name, false)
        },
        DirectivePart::Name => if c == '=' {
            (DirectivePart::Level, false)
        } else if c == '[' {
            (DirectivePart::Span, true)
        } else {
            (part, false)
        },
        DirectivePart::Span => if c == ']' {
            (DirectivePart::AfterSpan, false)
        } else if c == '{' {
            (DirectivePart::Field, true)
        } else {
            (part, false)
        },
        DirectivePart::Field => if c == '}' {
            (DirectivePart::AfterFields, false)
        } else {
            (part, false)
        },
        DirectivePart::AfterFields => if c == ']' {
            (DirectivePart::AfterSpan, false)
        } else {
            (DirectivePart::Invalid, false)
        },
        DirectivePart::AfterSpan => if c == '=' {
            (DirectivePart::Level, false)
        } else {
            (DirectivePart::Invalid, false)
        },
        DirectivePart::Level => (part, false),
        DirectivePart::Invalid => (part, false),
    }
}

fn part_cuts_cleanly(
    text: &Vec<char>,
    part: DirectivePart,
    from: u128,
    c: char,
    at: u128,
) -> (clean: bool)
    requires
        at < u128::MAX,
    ensures
        clean == (DirectiveReading { part, from: from as nat }).cuts_cleanly(text@, c, at as nat),
{
    match part {
        DirectivePart::Name => if c == '=' {
            cuts_no_character(text, at) && cuts_no_character(text, at + 1)
        } else if c == '[' {
            cuts_no_character(text, at)
        } else {
            true
        },
        DirectivePart::Span => if c == ']' || c == '{' {
            cuts_no_character(text, from) && cuts_no_character(text, at)
        } else {
            true
        },
        DirectivePart::Field => if c == '}' {
            cuts_no_character(text, from) && cuts_no_character(text, at)
        } else {
            true
        },
        DirectivePart::AfterSpan => if c == '=' {
            cuts_no_character(text, at + 1)
        } else {
            true
        },
        _ => true,
    }
}

proof fn clean_cuts_so_far(text: Seq<char>, body: Seq<char>, j: int)
    requires
        0 <= j <= body.len(),
        reading_cuts_cleanly(text, body),
    ensures
        reading_cuts_cleanly(text, body.take(j)),
    decreases body.len(),
{
    if j < body.len() {
        clean_cuts_so_far(text, body.drop_last(), j);
        assert(body.drop_last().take(j) =~= body.take(j));
    } else {
        assert(body.take(j) =~= body);
    }
}

fn directive_can_be_cut(directive: &str) -> (can: bool)
    ensures
        can == directive_cuts_where_it_reads(directive@),
{
    let text = chars_of(directive);
    let inner = trim(directive);
    let chars = chars_of(inner.as_str());
    let ghost body = chars@;
    let mut part = DirectivePart::Start;
    let mut from: u128 = 0;
    let mut at: u128 = 0;
    let mut j: usize = 0;
    while j < chars.len()
        invariant
            j <= chars.len(),
            text@ == directive@,
            chars@ == body,
            body == crate::text::trimmed(directive@),
            at == byte_len(body.take(j as int)),
            at <= 4 * j,
            reading_of(body.take(j as int)) == (DirectiveReading { part, from: from as nat }),
            reading_cuts_cleanly(text@, body.take(j as int)),
        decreases chars.len() - j,
    {
        let c = chars[j];
        let ghost next = body.take(j + 1);
        proof {
            assert(next.drop_last() =~= body.take(j as int));
            assert(next.last() == c);
        }
        if !part_cuts_cleanly(&text, part, from, c, at) {
            proof {
                if reading_cuts_cleanly(text@, body) {
                    clean_cuts_so_far(text@, body, j + 1);
                }
            }
            return false;
        }
        let step = next_part(part, c);
        proof {
            let reading = DirectiveReading { part, from: from as nat };
            assert(reading.next(c, at as nat) == reading_of(next));
        }
        part = step.0;
        if step.1 {
            from = at + 1;
        }
        at = at + width_of(c);
        j += 1;
    }
    assert(body.take(j as int) =~= body);
    true
}

/// Whether a filter can be handed to the filter parser.
pub fn filter_can_be_cut(spec: &str) -> (can: bool)
    ensures
        can == cuts_where_it_reads(spec@),
{
    let mut rest = spec.to_owned();
    loop
        invariant
            cuts_where_it_reads(rest@) == cuts_where_it_reads(spec@),
        decreases rest@.len(),
    {
        match split_once(rest.as_str(), ',') {
            Some((head, tail)) => {
                proof {
                    crate::text::cut_parts_make_the_text(rest@, ',');
                }
                if !directive_can_be_cut(head.as_str()) {
                    return false;
                }
                rest = tail;
            },
            None => return directive_can_be_cut(rest.as_str()),
        }
    }
}

/// Whether a text is a valid list of filter directives.
pub uninterp spec fn valid_filter(spec: Seq<char>) -> bool;

/// `EnvFilter::try_new` succeeds or fails by the text alone: it fails where
/// some directive between the commas cannot be read. It looks for the parts of
/// a directive without the whitespace around it, but cuts the directive with
/// that whitespace at the places found, and panics where this cuts a
/// character. The memory that a pattern for a field's value takes is taken to
/// suffice.
#[verifier::external_body]
fn filter_parses(spec: &str) -> (valid: bool)
    requires
        cuts_where_it_reads(spec@),
    ensures
        valid == valid_filter(spec@),
{
    tracing_subscriber::EnvFilter::try_new(spec).is_ok()
}

pub open spec fn filter_text(level: Option<Seq<char>>, valid: bool) -> Seq<char> {
    match level {
        Some(spec) => if valid {
            spec
        } else {
            "info"@
        },
        None => "info"@,
    }
}

/// The filter directives to use once it is known whether the given ones are
/// valid.
pub fn choose_filter(level: Option<&str>, valid: bool) -> (directives: String)
    ensures
        directives@ == filter_text(crate::text::optional_str_view(level), valid),
{
    match level {
        Some(spec) => if valid {
            spec.to_owned()
        } else {
            "info".to_owned()
        },
        None => "info".to_owned(),
    }
}

/// The filter directives for an explicit level/directive spec (e.g. `"debug"`
/// or `"opcda_bridge_gateway=debug,tower=warn"`), falling back to `info` if
/// `level` is absent, cannot be cut into directives or fails to parse. Logging
/// misconfiguration should degrade gracefully rather than stop the gateway from
/// starting.
pub fn build_env_filter(level: Option<&str>) -> (directives: String)
    ensures
        directives@ == filter_text(
            crate::text::optional_str_view(level),
            level is Some && cuts_where_it_reads(level->0@) && valid_filter(level->0@),
        ),
{
    let valid = match level {
        Some(spec) => filter_can_be_cut(spec) && filter_parses(spec),
        None => false,
    };
    choose_filter(level, valid)
}

/// Resolved logging settings, after applying `CLI flag > env var > config
/// file > default` precedence to each individual field.
#[derive(Debug, Clone, PartialEq, Eq)]
pub struct LogSettings {
    pub level: Option<String>,
    pub dir: String,
    pub format: LogFormat,
    pub rotation: Rotation,
}

/// Resolve every logging setting. `cli_level` already has `RUST_LOG` folded
/// in; `dir`/`format`/`rotation` have no env var, matching the rest of the
/// config surface.
pub fn resolve_log_settings(
    cli_level: Option<String>,
    cli_dir: Option<String>,
    cli_format: Option<String>,
    cli_rotation: Option<String>,
    config: &LogConfig,
    default_dir: &str,
) -> (settings: LogSettings)
    ensures
        settings.level == crate::collections::first_of(cli_level, config.level),
        settings.dir@ == (match crate::collections::first_of(cli_dir, config.dir) {
            Some(dir) => dir@,
            None => default_dir@,
        }),
        settings.format == format_of(
            crate::text::optional_view(crate::collections::first_of(cli_format, config.format)),
        ),
        settings.rotation == rotation_of(
            crate::text::optional_view(crate::collections::first_of(cli_rotation, config.rotation)),
        ),
{
    let level = match cli_level {
        Some(level) => Some(level),
        None => copy_text(&config.level),
    };
    let dir = match cli_dir {
        Some(dir) => dir,
        None => match &config.dir {
            Some(dir) => dir.clone(),
            None => default_dir.to_owned(),
        },
    };
    let format = match &cli_format {
        Some(format) => parse_log_format(Some(format.as_str())),
        None => match &config.format {
            Some(format) => parse_log_format(Some(format.as_str())),
            None => parse_log_format(None),
        },
    };
    let rotation = match &cli_rotation {
        Some(rotation) => parse_rotation(Some(rotation.as_str())),
        None => match &config.rotation {
            Some(rotation) => parse_rotation(Some(rotation.as_str())),
            None => parse_rotation(None),
        },
    };
    LogSettings { level, dir, format, rotation }
}

/// Whether a filter starts no directive with whitespace.
pub open spec fn starts_directives_at_once(spec: Seq<char>) -> bool {
    forall|i: int|
        0 <= i < spec.len() && (i == 0 || spec[i - 1] == ',') ==> !crate::text::is_whitespace(
            #[trigger] spec[i],
        )
}

proof fn ascii_takes_a_byte_each(text: Seq<char>)
    requires
        crate::text::is_ascii_text(text),
    ensures
        byte_len(text) == text.len(),
    decreases text.len(),
{
    if text.len() > 0 {
        assert(text[text.len() - 1] <= '\u{7f}');
        assert forall|i: int| 0 <= i < text.drop_last().len() implies #[trigger] text.drop_last()[i]
            <= '\u{7f}' by {
            assert(text[i] <= '\u{7f}');
        }
        ascii_takes_a_byte_each(text.drop_last());
    }
}

proof fn trimming_shortens(text: Seq<char>)
    ensures
        crate::text::trimmed_start(text).len() <= text.len(),
        crate::text::trimmed_start(text) == text.skip(
            text.len() - crate::text::trimmed_start(text).len(),
        ),
    decreases text.len(),
{
    if text.len() > 0 && crate::text::is_whitespace(text[0]) {
        let rest = text.drop_first();
        trimming_shortens(rest);
        let body = crate::text::trimmed_start(text);
        assert(text.skip(text.len() - body.len()) =~= rest.skip(rest.len() - body.len()));
    } else {
        assert(text.skip(0) =~= text);
    }
}

proof fn trimming_leaves_a_part(text: Seq<char>)
    ensures
        crate::text::trimmed_end(text).len() <= text.len(),
        crate::text::trimmed_end(text) == text.take(crate::text::trimmed_end(text).len() as int),
    decreases text.len(),
{
    if text.len() > 0 && crate::text::is_whitespace(text.last()) {
        let front = text.drop_last();
        trimming_leaves_a_part(front);
        let left = crate::text::trimmed_end(text).len() as int;
        assert(text.take(left) =~= front.take(left));
    } else {
        assert(text.take(text.len() as int) =~= text);
    }
}

/// Where every place between the characters of a text is one of the whole
/// directive, reading the text cuts no character.
proof fn reading_in_place_cuts_cleanly(text: Seq<char>, body: Seq<char>)
    requires
        forall|j: int|
            0 <= j <= body.len() ==> is_between_characters(text, byte_len(#[trigger] body.take(j))),
    ensures
        reading_cuts_cleanly(text, body),
        ({
            let reading = reading_of(body);
            reading.part is Span || reading.part is Field ==> is_between_characters(
                text,
                reading.from,
            )
        }),
    decreases body.len(),
{
    if body.len() > 0 {
        let front = body.drop_last();
        assert forall|j: int| 0 <= j <= front.len() implies is_between_characters(
            text,
            byte_len(#[trigger] front.take(j)),
        ) by {
            assert(front.take(j) =~= body.take(j));
        }
        reading_in_place_cuts_cleanly(text, front);
        let c = body.last();
        assert(body.take(body.len() as int) =~= body);
        assert(body.take(front.len() as int) =~= front);
        assert(is_between_characters(text, byte_len(body.take(body.len() as int))));
        assert(is_between_characters(text, byte_len(body.take(front.len() as int))));
        if c == '=' || c == '[' || c == '{' {
            assert(byte_len(body) == byte_len(front) + 1);
        }
    }
}

proof fn plain_directives_can_be_cut(directive: Seq<char>)
    requires
        crate::text::is_ascii_text(directive) || directive.len() == 0
            || !crate::text::is_whitespace(directive[0]),
    ensures
        directive_cuts_where_it_reads(directive),
{
    let started = crate::text::trimmed_start(directive);
    let body = crate::text::trimmed(directive);
    trimming_shortens(directive);
    trimming_leaves_a_part(started);
    let lead = directive.len() - started.len();
    assert forall|j: int| 0 <= j <= body.len() implies is_between_characters(
        directive,
        byte_len(#[trigger] body.take(j)),
    ) by {
        if crate::text::is_ascii_text(directive) {
            assert forall|i: int| 0 <= i < body.take(j).len() implies #[trigger] body.take(j)[i]
                <= '\u{7f}' by {
                assert(directive[i + lead] <= '\u{7f}');
            }
            ascii_takes_a_byte_each(body.take(j));
            assert forall|i: int|
                0 <= i < directive.take(j).len() implies #[trigger] directive.take(j)[i]
                <= '\u{7f}' by {
                assert(directive[i] <= '\u{7f}');
            }
            ascii_takes_a_byte_each(directive.take(j));
        } else {
            assert(started == directive);
            assert(body.take(j) =~= directive.take(j));
        }
        assert(byte_len(directive.take(j)) == byte_len(body.take(j)));
    }
    reading_in_place_cuts_cleanly(directive, body);
}

/// A filter of ASCII characters, or one that starts no directive with
/// whitespace, falls back to `info` only where it fails to parse.
pub proof fn ordinary_filters_can_be_cut(spec: Seq<char>)
    requires
        crate::text::is_ascii_text(spec) || starts_directives_at_once(spec),
    ensures
        cuts_where_it_reads(spec),
    decreases spec.len(),
{
    match crate::text::cut(spec, ',') {
        Some((head, tail)) => {
            crate::text::cut_parts_make_the_text(spec, ',');
            let at = head.len() as int;
            assert(spec.take(at) =~= head);
            assert(spec.skip(at + 1) =~= tail);
            if head.len() > 0 {
                assert(head[0] == spec[0]);
            }
            if crate::text::is_ascii_text(spec) {
                assert forall|i: int| 0 <= i < head.len() implies #[trigger] head[i]
                    <= '\u{7f}' by {
                    assert(spec[i] <= '\u{7f}');
                }
                assert forall|i: int| 0 <= i < tail.len() implies #[trigger] tail[i]
                    <= '\u{7f}' by {
                    assert(spec[i + at + 1] <= '\u{7f}');
                }
            } else {
                assert forall|i: int|
                    0 <= i < tail.len() && (i == 0 || tail[i - 1] == ',')
                        implies !crate::text::is_whitespace(#[trigger] tail[i]) by {
                    assert(spec[at] == ',');
                    assert(tail[i] == spec[i + at + 1]);
                    if i > 0 {
                        assert(tail[i - 1] == spec[i + at]);
                    }
                }
            }
            plain_directives_can_be_cut(head);
            ordinary_filters_can_be_cut(tail);
        },
        None => {
            plain_directives_can_be_cut(spec);
        },
    }
}

/// Logs are JSON where that is asked for, in whatever case, and readable
/// otherwise.
pub proof fn json_is_asked_for_by_name(value: Option<Seq<char>>)
    ensures
        format_of(value) is Json <==> value is Some && crate::text::ascii_lowercase(value->0)
            == "json"@,
{
    reveal_strlit("json");
    assert(crate::text::ascii_lowercase("json"@) =~= "json"@);
}

/// Logs are rotated by the hour or never where that is asked for, in whatever
/// case, and daily otherwise.
pub proof fn rotation_is_daily_unless_named(value: Option<Seq<char>>)
    ensures
        rotation_of(value) is Hourly <==> value is Some && crate::text::ascii_lowercase(value->0)
            == "hourly"@,
        rotation_of(value) is Never <==> value is Some && crate::text::ascii_lowercase(value->0)
            == "never"@,
{
    reveal_strlit("hourly");
    reveal_strlit("never");
    assert("hourly"@.len() == 6 && "never"@.len() == 5);
    assert(crate::text::ascii_lowercase("hourly"@) =~= "hourly"@);
    assert(crate::text::ascii_lowercase("never"@) =~= "never"@);
}

/// The filter is the one that was asked for, if it can be used, and `info`
/// otherwise.
pub proof fn unusable_filters_become_info(level: Option<Seq<char>>, valid: bool)
    ensures
        level is Some && valid ==> filter_text(level, valid) == level->0,
        level is None || !valid ==> filter_text(level, valid) == "info"@,
{
}

/// A text takes as many bytes as its UTF-8 encoding has.
pub proof fn bytes_are_those_of_utf8(text: Seq<char>)
    ensures
        byte_len(text) == vstd::utf8::encode_utf8(text).len(),
    decreases text.len(),
{
    if text.len() > 0 {
        let rest = text.drop_first();
        bytes_are_those_of_utf8(rest);
        first_bytes_count(text[0], rest);
        scalars_have_their_width(text[0]);
        assert(seq![text[0]] + rest =~= text);
    }
}

proof fn scalars_have_their_width(c: char)
    ensures
        vstd::utf8::encode_scalar(c as u32).len() == byte_width(c),
{
    vstd::utf8::char_is_scalar(c);
}

proof fn first_bytes_count(c: char, rest: Seq<char>)
    ensures
        byte_len(seq![c] + rest) == byte_width(c) + byte_len(rest),
    decreases rest.len(),
{
    reveal_with_fuel(byte_len, 2);
    let whole = seq![c] + rest;
    if rest.len() > 0 {
        first_bytes_count(c, rest.drop_last());
        assert(whole.drop_last() =~= seq![c] + rest.drop_last());
    } else {
        assert(whole =~= seq![c]);
        assert(whole.drop_last() =~= Seq::empty());
    }
}

} // verus!
