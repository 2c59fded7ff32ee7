//! Where telemetry is stored and for how long.
use crate::error::StorageError;
use crate::text;
use vstd::prelude::*;

verus! {

/// The configuration of the store.
pub struct StorageConfig {
    /// The bytes of the directory of the data, with `/` between its parts, or of a name that begins with
    /// `:memory:`. A directory need not be Unicode.
    pub data_dir: Vec<u8>,
    /// How many days records are kept; 0 keeps them for good.
    pub retention_days: u32,
    /// When old records are deleted, as a cron expression of five to seven fields.
    pub purge_schedule: String,
    /// Old records are deleted without being asked.
    pub auto_purge_enabled: bool,
    /// How many records are deleted at a time.
    pub purge_batch_size: usize,
}

/// The bytes of a text.
pub open spec fn bytes(s: Seq<char>) -> Seq<u8> {
    vstd::utf8::encode_utf8(s)
}

/// The bytes of a path, where there is one.
pub open spec fn path_bytes(path: Option<Vec<u8>>) -> Option<Seq<u8>> {
    match path {
        Some(p) => Some(p@),
        None => None,
    }
}

/// A name in a directory. The byte 47 is a slash.
pub open spec fn in_directory(dir: Seq<u8>, name: Seq<u8>) -> Seq<u8> {
    if dir.len() == 0 || dir.last() == 47u8 {
        dir + name
    } else {
        dir.push(47u8) + name
    }
}

/// The directory of the data under a home directory; without one it is under the working directory.
pub open spec fn data_dir_under(home: Option<Seq<u8>>) -> Seq<u8> {
    let top = match home {
        Some(h) => h,
        None => bytes("."@),
    };
    in_directory(in_directory(top, bytes(".otelite"@)), bytes("data"@))
}

/// The data stays in memory.
pub open spec fn is_in_memory(path: Seq<u8>) -> bool {
    bytes(":memory:"@).is_prefix_of(path)
}

/// Copies the bytes of a path.
pub fn copy_path(path: &Vec<u8>) -> (copy: Vec<u8>)
    ensures
        copy@ == path@,
{
    vstd::slice::slice_to_vec(path.as_slice())
}

/// The bytes of a text.
fn to_bytes(s: &str) -> (b: Vec<u8>)
    ensures
        b@ == bytes(s@),
{
    vstd::slice::slice_to_vec(s.as_bytes())
}

fn join_name(dir: &Vec<u8>, name: &str) -> (path: Vec<u8>)
    ensures
        path@ == in_directory(dir@, bytes(name@)),
{
    let mut path = copy_path(dir);
    if path.len() > 0 && path[path.len() - 1] != 47u8 {
        path.push(47u8);
    }
    let mut rest = to_bytes(name);
    path.append(&mut rest);
    path
}

/// The directory of the data under a home directory, where there is one.
pub fn data_dir_in(home: &Option<Vec<u8>>) -> (dir: Vec<u8>)
    ensures
        dir@ == data_dir_under(path_bytes(*home)),
{
    let top = match home {
        Some(h) => copy_path(h),
        None => to_bytes("."),
    };
    join_name(&join_name(&top, ".otelite"), "data")
}

/// Whether the data stays in memory.
pub fn stays_in_memory(path: &Vec<u8>) -> (r: bool)
    ensures
        r == is_in_memory(path@),
{
    let prefix = to_bytes(":memory:");
    if path.len() < prefix.len() {
        return false;
    }
    let mut i: usize = 0;
    while i < prefix.len()
        invariant
            i <= prefix@.len() <= path@.len(),
            prefix@ == bytes(":memory:"@),
            forall|j: int| 0 <= j < i ==> #[trigger] prefix@[j] == path@[j],
        decreases prefix@.len() - i,
    {
        if prefix[i] != path[i] {
            assert(path@.subrange(0, prefix@.len() as int)[i as int] == path@[i as int]);
            return false;
        }
        i = i + 1;
    }
    assert(prefix@ =~= path@.subrange(0, prefix@.len() as int));
    true
}

/// The bytes of the home directory of the user, by `dirs::home_dir`. It depends on the machine and its
/// environment, so that nothing is claimed of it.
#[verifier::external_body]
fn home_dir() -> (home: Option<Vec<u8>>) {
    match dirs::home_dir() {
        Some(path) => Some(path.into_os_string().into_encoded_bytes()),
        None => None,
    }
}

/// The quoted form of a text, in which what cannot be printed is escaped.
pub uninterp spec fn quoted_text(s: Seq<char>) -> Seq<char>;

/// Quotes a text with the `Debug` formatting of `str`. The claim is that the quoted form depends on the
/// text alone; what it looks like is not stated.
#[verifier::external_body]
fn quote(s: &str) -> (q: String)
    ensures
        q@ == quoted_text(s@),
{
    format!("{:?}", s)
}

/// What `cron` has against a cron expression of six or seven fields; nothing where it accepts it.
pub uninterp spec fn cron_refusal(expression: Seq<char>) -> Option<Seq<char>>;

/// Has `cron` parse an expression, by `cron::Schedule::from_str`. The claim is that whether it is
/// refused, and the text of the refusal, depend on the expression alone.
#[verifier::external_body]
fn check_cron(expression: &str) -> (refusal: Option<String>)
    ensures
        text::optional(refusal) == cron_refusal(expression@),
{
    match <cron::Schedule as std::str::FromStr>::from_str(expression) {
        Ok(_) => None,
        Err(e) => Some(e.to_string()),
    }
}

/// The character separates words.
pub open spec fn is_space(c: char) -> bool {
    ||| '\u{9}' <= c <= '\u{d}'
    ||| c == '\u{20}'
    ||| c == '\u{85}'
    ||| c == '\u{a0}'
    ||| c == '\u{1680}'
    ||| '\u{2000}' <= c <= '\u{200a}'
    ||| c == '\u{2028}'
    ||| c == '\u{2029}'
    ||| c == '\u{202f}'
    ||| c == '\u{205f}'
    ||| c == '\u{3000}'
}

fn separates(c: char) -> (r: bool)
    ensures
        r == is_space(c),
{
    ('\u{9}' <= c && c <= '\u{d}') || c == '\u{20}' || c == '\u{85}' || c == '\u{a0}' || c == '\u{1680}' || (
    '\u{2000}' <= c && c <= '\u{200a}') || c == '\u{2028}' || c == '\u{2029}' || c == '\u{202f}' || c
        == '\u{205f}' || c == '\u{3000}'
}

/// The number of words in a text.
pub open spec fn words(s: Seq<char>) -> nat
    decreases s.len(),
{
    if s.len() == 0 {
        0
    } else {
        let earlier = words(s.drop_last());
        if !is_space(s.last()) && (s.len() == 1 || is_space(s[s.len() - 2])) {
            earlier + 1
        } else {
            earlier
        }
    }
}

fn count_words(s: &str) -> (n: usize)
    ensures
        n == words(s@),
{
    let len: usize = s.unicode_len();
    let mut n: usize = 0;
    let mut spaced: bool = true;
    let mut i: usize = 0;
    assert(s@.take(0) =~= Seq::<char>::empty());
    while i < len
        invariant
            i <= len,
            len == s@.len(),
            n == words(s@.take(i as int)),
            n <= i,
            spaced == (i == 0 || is_space(s@[i - 1])),
        decreases len - i,
    {
        assert(s@.take(i + 1).drop_last() =~= s@.take(i as int));
        let space: bool = separates(s.get_char(i));
        if !space && spaced {
            n = n + 1;
        }
        spaced = space;
        i = i + 1;
    }
    assert(s@.take(i as int) =~= s@);
    n
}

/// The expression in seven fields: without seconds it runs at second 0, and without a year in every
/// year. Anything else than five to seven fields is no expression.
pub open spec fn seven_fields(schedule: Seq<char>) -> Option<Seq<char>> {
    if words(schedule) == 5 {
        Some("0 "@ + schedule + " *"@)
    } else if words(schedule) == 6 {
        Some(schedule + " *"@)
    } else if words(schedule) == 7 {
        Some(schedule)
    } else {
        None
    }
}

/// Writes a schedule in seven fields.
pub fn purge_expression(schedule: &str) -> (expression: Option<String>)
    ensures
        text::optional(expression) == seven_fields(schedule@),
{
    let n: usize = count_words(schedule);
    if n == 5 {
        let mut e = "0 ".to_owned();
        e.append(schedule);
        e.append(" *");
        Some(e)
    } else if n == 6 {
        let mut e = schedule.to_owned();
        e.append(" *");
        Some(e)
    } else if n == 7 {
        Some(schedule.to_owned())
    } else {
        None
    }
}

/// Why a schedule is refused, in words.
pub open spec fn schedule_complaint(quoted: Seq<char>, cause: Seq<char>) -> Seq<char> {
    "Invalid purge schedule "@ + quoted + ": "@ + cause
}

/// The refusal of a schedule, from its quoted form and the cause.
pub fn schedule_error(quoted: &str, cause: &str) -> (e: StorageError)
    ensures
        e matches StorageError::ConfigError(m) && m@ == schedule_complaint(quoted@, cause@),
{
    let mut m = "Invalid purge schedule ".to_owned();
    m.append(quoted);
    m.append(": ");
    m.append(cause);
    StorageError::ConfigError(m)
}

/// What is wrong with a schedule, given what `refusal` says against it in seven fields.
pub open spec fn schedule_fault(
    schedule: Seq<char>,
    refusal: spec_fn(Seq<char>) -> Option<Seq<char>>,
) -> Option<Seq<char>> {
    match seven_fields(schedule) {
        Some(expression) => refusal(expression),
        None => Some("expected 5, 6, or 7 cron fields"@),
    }
}

/// What is wrong with a schedule.
pub open spec fn fault(schedule: Seq<char>) -> Option<Seq<char>> {
    schedule_fault(schedule, |e: Seq<char>| cron_refusal(e))
}

/// Why a configuration is refused; nothing where it is acceptable. The retention is looked at first,
/// then the schedule, then the batch size.
pub open spec fn refusal(
    retention_days: u32,
    schedule: Option<Seq<char>>,
    purge_batch_size: usize,
) -> Option<Seq<char>> {
    if retention_days > 365 {
        Some("Retention days must be between 0 and 365; 0 disables automatic retention"@)
    } else if schedule is Some {
        schedule
    } else if purge_batch_size == 0 {
        Some("Purge batch size must be greater than 0"@)
    } else {
        None
    }
}

/// Judges a configuration from what is wrong with its schedule, in words.
pub fn verdict(retention_days: u32, schedule: Option<String>, purge_batch_size: usize) -> (r: Result<
    (),
    StorageError,
>)
    ensures
        match r {
            Ok(()) => refusal(retention_days, text::optional(schedule), purge_batch_size) is None,
            Err(StorageError::ConfigError(m)) => refusal(
                retention_days,
                text::optional(schedule),
                purge_batch_size,
            ) == Some(m@),
            Err(_) => false,
        },
{
    if retention_days > 365 {
        return Err(
            StorageError::ConfigError(
                "Retention days must be between 0 and 365; 0 disables automatic retention".to_owned(),
            ),
        );
    }
    if let Some(m) = schedule {
        return Err(StorageError::ConfigError(m));
    }
    if purge_batch_size == 0 {
        return Err(StorageError::ConfigError("Purge batch size must be greater than 0".to_owned()));
    }
    Ok(())
}

impl Default for StorageConfig {
    fn default() -> (c: StorageConfig)
        ensures
            exists|home: Option<Seq<u8>>| #[trigger] data_dir_under(home) == c.data_dir@,
            c.retention_days == 90,
            c.purge_schedule@ == "0 2 * * *"@,
            c.auto_purge_enabled,
            c.purge_batch_size == 1000,
    {
        StorageConfig {
            data_dir: StorageConfig::default_data_dir(),
            retention_days: 90,
            purge_schedule: "0 2 * * *".to_owned(),
            auto_purge_enabled: true,
            purge_batch_size: 1000,
        }
    }
}

impl StorageConfig {
    /// Two configurations agree in everything that they hold.
    pub open spec fn same(self, other: StorageConfig) -> bool {
        &&& self.data_dir@ == other.data_dir@
        &&& self.retention_days == other.retention_days
        &&& self.purge_schedule@ == other.purge_schedule@
        &&& self.auto_purge_enabled == other.auto_purge_enabled
        &&& self.purge_batch_size == other.purge_batch_size
    }

    /// Why the schedule is refused; nothing where it is acceptable.
    pub open spec fn schedule_refusal(self) -> Option<Seq<char>> {
        match fault(self.purge_schedule@) {
            Some(cause) => Some(schedule_complaint(quoted_text(self.purge_schedule@), cause)),
            None => None,
        }
    }

    /// Why the configuration is refused; nothing where it is acceptable.
    pub open spec fn refusal(self) -> Option<Seq<char>> {
        refusal(self.retention_days, self.schedule_refusal(), self.purge_batch_size)
    }

    /// The directory of the data under the home directory of the user.
    pub fn default_data_dir() -> (dir: Vec<u8>)
        ensures
            exists|home: Option<Seq<u8>>| #[trigger] data_dir_under(home) == dir@,
    {
        data_dir_in(&home_dir())
    }

    /// The path of the database: a file in the directory of the data, unless the data stays in memory.
    pub fn database_path(&self) -> (path: Vec<u8>)
        ensures
            path@ == if is_in_memory(self.data_dir@) {
                self.data_dir@
            } else {
                in_directory(self.data_dir@, bytes("otelite.db"@))
            },
    {
        if stays_in_memory(&self.data_dir) {
            copy_path(&self.data_dir)
        } else {
            join_name(&self.data_dir, "otelite.db")
        }
    }

    /// The schedule as a cron expression of seven fields that `cron` accepts.
    pub fn parsed_purge_schedule(&self) -> (r: Result<String, StorageError>)
        ensures
            match r {
                Ok(e) => self.schedule_refusal() is None && seven_fields(self.purge_schedule@) == Some(e@),
                Err(StorageError::ConfigError(m)) => self.schedule_refusal() == Some(m@),
                Err(_) => false,
            },
    {
        let schedule = self.purge_schedule.as_str();
        match purge_expression(schedule) {
            Some(expression) => match check_cron(expression.as_str()) {
                Some(cause) => Err(schedule_error(quote(schedule).as_str(), cause.as_str())),
                None => Ok(expression),
            },
            None => Err(schedule_error(quote(schedule).as_str(), "expected 5, 6, or 7 cron fields")),
        }
    }

    /// Accepts the configuration or says why not.
    pub fn validate(&self) -> (r: Result<(), StorageError>)
        ensures
            match r {
                Ok(()) => self.refusal() is None,
                Err(StorageError::ConfigError(m)) => self.refusal() == Some(m@),
                Err(_) => false,
            },
    {
        let schedule = match self.parsed_purge_schedule() {
            Ok(_) => None,
            Err(StorageError::ConfigError(m)) => Some(m),
            Err(_) => None,
        };
        verdict(self.retention_days, schedule, self.purge_batch_size)
    }

    /// The configuration with another directory.
    pub fn with_data_dir(self, data_dir: Vec<u8>) -> (c: StorageConfig)
        ensures
            c.same(StorageConfig { data_dir, ..self }),
    {
        let mut c = self;
        c.data_dir = data_dir;
        c
    }

    /// The configuration with another retention.
    pub fn with_retention_days(self, days: u32) -> (c: StorageConfig)
        ensures
            c.same(StorageConfig { retention_days: days, ..self }),
    {
        let mut c = self;
        c.retention_days = days;
        c
    }

    /// The configuration with another schedule.
    pub fn with_purge_schedule(self, schedule: String) -> (c: StorageConfig)
        ensures
            c.same(StorageConfig { purge_schedule: schedule, ..self }),
    {
        let mut c = self;
        c.purge_schedule = schedule;
        c
    }

    /// The configuration with automatic deletion on or off.
    pub fn with_auto_purge(self, enabled: bool) -> (c: StorageConfig)
        ensures
            c.same(StorageConfig { auto_purge_enabled: enabled, ..self }),
    {
        let mut c = self;
        c.auto_purge_enabled = enabled;
        c
    }
}

/// Why a text names no retention.
#[derive(Clone, Copy, PartialEq, Eq, Structural)]
pub enum NumberFault {
    Empty,
    InvalidDigit,
    TooLarge,
}

/// The fault in words.
pub open spec fn number_complaint(f: NumberFault) -> Seq<char> {
    match f {
        NumberFault::Empty => "cannot parse integer from empty string"@,
        NumberFault::InvalidDigit => "invalid digit found in string"@,
        NumberFault::TooLarge => "number too large to fit in target type"@,
    }
}

/// The number that digits name, read from the left: the first character that is no digit, or the first
/// digit with which the number gets too large, decides the fault.
pub open spec fn read_digits(s: Seq<char>, so_far: nat) -> Result<u32, NumberFault>
    decreases s.len(),
{
    if s.len() == 0 {
        Ok(so_far as u32)
    } else {
        match crate::parse::digit_value(s[0]) {
            None => Err(NumberFault::InvalidDigit),
            Some(d) => if so_far * 10 + d > u32::MAX {
                Err(NumberFault::TooLarge)
            } else {
                read_digits(s.skip(1), so_far * 10 + d)
            },
        }
    }
}

/// The number of days that a text names, with an optional plus sign.
pub open spec fn days_value(s: Seq<char>) -> Result<u32, NumberFault> {
    if s.len() == 0 {
        Err(NumberFault::Empty)
    } else if s.len() == 1 && (s[0] == '+' || s[0] == '-') {
        Err(NumberFault::InvalidDigit)
    } else if s[0] == '+' {
        read_digits(s.skip(1), 0)
    } else {
        read_digits(s, 0)
    }
}

fn digit_of(c: char) -> (d: Option<u32>)
    ensures
        match d {
            Some(n) => crate::parse::digit_value(c) == Some(n as nat),
            None => crate::parse::digit_value(c) is None,
        },
        d matches Some(n) ==> n < 10,
{
    if '0' <= c && c <= '9' {
        Some(c as u32 - '0' as u32)
    } else {
        None
    }
}

/// Reads a number of days.
pub fn parse_days(s: &str) -> (r: Result<u32, NumberFault>)
    ensures
        r == days_value(s@),
{
    let len: usize = s.unicode_len();
    if len == 0 {
        return Err(NumberFault::Empty);
    }
    let first = s.get_char(0);
    if len == 1 && (first == '+' || first == '-') {
        return Err(NumberFault::InvalidDigit);
    }
    let mut i: usize = if first == '+' {
        1
    } else {
        0
    };
    let mut n: u32 = 0;
    assert(s@.skip(0) =~= s@);
    while i < len
        invariant
            i <= len,
            len == s@.len(),
            days_value(s@) == read_digits(s@.skip(i as int), n as nat),
        decreases len - i,
    {
        assert(s@.skip(i as int)[0] == s@[i as int]);
        assert(s@.skip(i as int).skip(1) =~= s@.skip(i + 1));
        match digit_of(s.get_char(i)) {
            None => {
                return Err(NumberFault::InvalidDigit);
            },
            Some(d) => {
                let next: u64 = n as u64 * 10 + d as u64;
                if next > u32::MAX as u64 {
                    return Err(NumberFault::TooLarge);
                }
                n = next as u32;
            },
        }
        i = i + 1;
    }
    assert(s@.skip(i as int) =~= Seq::<char>::empty());
    Ok(n)
}

/// The settings that the environment may give.
pub struct Environment {
    pub data_dir: Option<String>,
    pub retention_days: Option<String>,
    pub purge_schedule: Option<String>,
    pub auto_purge_enabled: Option<String>,
}

/// A setting that the environment may replace.
pub open spec fn replaced(own: Seq<char>, given: Option<String>) -> Seq<char> {
    match given {
        Some(t) => t@,
        None => own,
    }
}

/// The directory, which the environment may replace.
pub open spec fn directory_given(own: Seq<u8>, given: Option<String>) -> Seq<u8> {
    match given {
        Some(t) => bytes(t@),
        None => own,
    }
}

/// The retention that the environment asks for.
pub open spec fn days_given(own: u32, given: Option<String>) -> Result<u32, NumberFault> {
    match given {
        Some(t) => days_value(t@),
        None => Ok(own),
    }
}

/// Whether the environment asks for automatic deletion; nothing where it cannot be told.
pub open spec fn purge_given(own: bool, given: Option<String>) -> Option<bool> {
    match given {
        Some(t) => if t@ == "true"@ {
            Some(true)
        } else if t@ == "false"@ {
            Some(false)
        } else {
            None
        },
        None => Some(own),
    }
}

/// Why the settings of the environment cannot be read; nothing where they can.
pub open spec fn environment_refusal(env: Environment) -> Option<Seq<char>> {
    match days_given(0, env.retention_days) {
        Err(f) => Some("Invalid retention_days: "@ + number_complaint(f)),
        Ok(_) => match (purge_given(true, env.auto_purge_enabled), env.auto_purge_enabled) {
            (None, Some(t)) => Some(
                "Invalid OTELITE_AUTO_PURGE_ENABLED value "@ + quoted_text(t@)
                    + ": provided string was not `true` or `false`"@,
            ),
            _ => None,
        },
    }
}

/// A configuration with the settings of the environment in place of its own.
pub open spec fn applies(c: StorageConfig, base: StorageConfig, env: Environment) -> bool {
    &&& c.data_dir@ == directory_given(base.data_dir@, env.data_dir)
    &&& days_given(base.retention_days, env.retention_days) == Ok::<u32, NumberFault>(c.retention_days)
    &&& c.purge_schedule@ == replaced(base.purge_schedule@, env.purge_schedule)
    &&& purge_given(base.auto_purge_enabled, env.auto_purge_enabled) == Some(c.auto_purge_enabled)
    &&& c.purge_batch_size == base.purge_batch_size
}

/// `r` is the configuration that the environment makes of `base`: its first unreadable setting is
/// refused, and so is a configuration that is not acceptable.
pub open spec fn configures(
    r: Result<StorageConfig, StorageError>,
    base: StorageConfig,
    env: Environment,
) -> bool {
    match r {
        Ok(c) => environment_refusal(env) is None && applies(c, base, env) && c.refusal() is None,
        Err(StorageError::ConfigError(m)) => match environment_refusal(env) {
            Some(e) => m@ == e,
            None => exists|c: StorageConfig| #[trigger] applies(c, base, env) && c.refusal() == Some(m@),
        },
        Err(_) => false,
    }
}

fn number_error(f: NumberFault) -> (e: StorageError)
    ensures
        e matches StorageError::ConfigError(m) && m@ == "Invalid retention_days: "@ + number_complaint(f),
{
    let mut m = "Invalid retention_days: ".to_owned();
    let cause = match f {
        NumberFault::Empty => "cannot parse integer from empty string",
        NumberFault::InvalidDigit => "invalid digit found in string",
        NumberFault::TooLarge => "number too large to fit in target type",
    };
    m.append(cause);
    StorageError::ConfigError(m)
}

fn switch_error(value: &str) -> (e: StorageError)
    ensures
        e matches StorageError::ConfigError(m) && m@ == "Invalid OTELITE_AUTO_PURGE_ENABLED value "@
            + quoted_text(value@) + ": provided string was not `true` or `false`"@,
{
    let mut m = "Invalid OTELITE_AUTO_PURGE_ENABLED value ".to_owned();
    m.append(quote(value).as_str());
    m.append(": provided string was not `true` or `false`");
    StorageError::ConfigError(m)
}

impl StorageConfig {
    /// The configuration that the environment makes of `self`.
    pub fn configured(self, env: &Environment) -> (r: Result<StorageConfig, StorageError>)
        ensures
            configures(r, self, *env),
    {
        let mut c = self;
        if let Some(dir) = &env.data_dir {
            c.data_dir = to_bytes(dir.as_str());
        }
        if let Some(days) = &env.retention_days {
            match parse_days(days.as_str()) {
                Ok(n) => {
                    c.retention_days = n;
                },
                Err(f) => {
                    return Err(number_error(f));
                },
            }
        }
        if let Some(schedule) = &env.purge_schedule {
            c.purge_schedule = schedule.clone();
        }
        if let Some(switch) = &env.auto_purge_enabled {
            if text::same_text(switch.as_str(), "true") {
                c.auto_purge_enabled = true;
            } else if text::same_text(switch.as_str(), "false") {
                c.auto_purge_enabled = false;
            } else {
                return Err(switch_error(switch.as_str()));
            }
        }
        assert(applies(c, self, *env));
        match c.validate() {
            Ok(()) => Ok(c),
            Err(e) => Err(e),
        }
    }

    /// The default configuration with the settings of the environment.
    pub fn from_env(env: &Environment) -> (r: Result<StorageConfig, StorageError>)
        ensures
            exists|base: StorageConfig| #[trigger] is_default(base) && configures(r, base, *env),
    {
        let base = StorageConfig::default();
        assert(is_default(base));
        base.configured(env)
    }

    /// The default configuration with the settings of the environment, and with another directory
    /// where one is given.
    pub fn from_env_with_data_dir(env: &Environment, data_dir: Option<Vec<u8>>) -> (r: Result<
        StorageConfig,
        StorageError,
    >)
        ensures
            exists|base: StorageConfig| #[trigger]
                is_default(base) && overrides(r, base, *env, path_bytes(data_dir)),
    {
        let base = StorageConfig::default();
        assert(is_default(base));
        let r = base.configured(env);
        match r {
            Ok(c) => {
                let ghost inner = c;
                let mut c = c;
                if let Some(dir) = data_dir {
                    c.data_dir = dir;
                }
                assert(c.schedule_refusal() == inner.schedule_refusal());
                match c.validate() {
                    Ok(()) => Ok(c),
                    Err(e) => Err(e),
                }
            },
            Err(e) => Err(e),
        }
    }
}

/// The configuration is the default, under some home directory.
pub open spec fn is_default(c: StorageConfig) -> bool {
    &&& exists|home: Option<Seq<u8>>| #[trigger] data_dir_under(home) == c.data_dir@
    &&& c.retention_days == 90
    &&& c.purge_schedule@ == "0 2 * * *"@
    &&& c.auto_purge_enabled
    &&& c.purge_batch_size == 1000
}

/// `r` is the configuration that the environment makes of `base`, with another directory where one is
/// given. The directory has no part in whether the configuration is acceptable.
pub open spec fn overrides(
    r: Result<StorageConfig, StorageError>,
    base: StorageConfig,
    env: Environment,
    data_dir: Option<Seq<u8>>,
) -> bool {
    match r {
        Ok(c) => {
            &&& environment_refusal(env) is None
            &&& c.refusal() is None
            &&& c.data_dir@ == match data_dir {
                Some(dir) => dir,
                None => directory_given(base.data_dir@, env.data_dir),
            }
            &&& days_given(base.retention_days, env.retention_days) == Ok::<u32, NumberFault>(
                c.retention_days,
            )
            &&& c.purge_schedule@ == replaced(base.purge_schedule@, env.purge_schedule)
            &&& purge_given(base.auto_purge_enabled, env.auto_purge_enabled) == Some(c.auto_purge_enabled)
            &&& c.purge_batch_size == base.purge_batch_size
        },
        Err(_) => configures(r, base, env),
    }
}

/// An acceptable configuration keeps records for at most a year, has a schedule that `cron` accepts, and
/// deletes at least one record at a time; and every such configuration is acceptable.
pub proof fn acceptable_configurations(c: StorageConfig)
    ensures
        c.refusal() is None <==> c.retention_days <= 365 && c.purge_batch_size > 0 && (seven_fields(
            c.purge_schedule@,
        ) matches Some(e) && cron_refusal(e) is None),
{
}

/// Setting one part of a configuration leaves the others, and the last setting counts.
pub proof fn settings_are_independent(c: StorageConfig, days: u32, again: u32, enabled: bool)
    ensures
        (StorageConfig { retention_days: again, ..(StorageConfig { retention_days: days, ..c }) }).same(
            StorageConfig { retention_days: again, ..c },
        ),
        (StorageConfig { auto_purge_enabled: enabled, ..(StorageConfig { retention_days: days, ..c }) }).same(
            StorageConfig { retention_days: days, ..(StorageConfig { auto_purge_enabled: enabled, ..c }) },
        ),
{
}

} // verus!
