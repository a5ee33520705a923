//! The configuration of the extractor, and how the environment sets it.

use crate::catalog_contract::DEFAULT_EXCHANGE_PREFIX;
use crate::table::Table;
use crate::text::{bounded_value, join_two, parse_unsigned, trim, trimmed_text, unsigned_value};
use vstd::prelude::*;

verus! {

/// The configuration of the extractor.
#[derive(Debug, Clone)]
pub struct ExtractorConfig {
    pub amqp_connection: String,
    pub periodic_check_days: u64,
    pub health_port: u16,
    pub max_workers: usize,
    pub batch_size: usize,
    pub queue_size: usize,
    pub progress_log_interval: usize,
    pub state_save_interval: usize,
    pub musicbrainz_root: String,
    pub musicbrainz_exchange_prefix: String,
    pub musicbrainz_dump_url: String,
}

/// What an [`ExtractorConfig`] stands for.
#[verifier::ext_equal]
pub struct ConfigModel {
    pub amqp_connection: Seq<char>,
    pub periodic_check_days: u64,
    pub health_port: u16,
    pub max_workers: usize,
    pub batch_size: usize,
    pub queue_size: usize,
    pub progress_log_interval: usize,
    pub state_save_interval: usize,
    pub musicbrainz_root: Seq<char>,
    pub musicbrainz_exchange_prefix: Seq<char>,
    pub musicbrainz_dump_url: Seq<char>,
}

impl View for ExtractorConfig {
    type V = ConfigModel;

    open spec fn view(&self) -> ConfigModel {
        ConfigModel {
            amqp_connection: self.amqp_connection@,
            periodic_check_days: self.periodic_check_days,
            health_port: self.health_port,
            max_workers: self.max_workers,
            batch_size: self.batch_size,
            queue_size: self.queue_size,
            progress_log_interval: self.progress_log_interval,
            state_save_interval: self.state_save_interval,
            musicbrainz_root: self.musicbrainz_root@,
            musicbrainz_exchange_prefix: self.musicbrainz_exchange_prefix@,
            musicbrainz_dump_url: self.musicbrainz_dump_url@,
        }
    }
}

/// Where the dumps are kept by default.
pub const DEFAULT_ROOT: &'static str = "/musicbrainz-data";

/// Where the dumps are downloaded from by default.
pub const DEFAULT_DUMP_URL: &'static str =
    "https://data.metabrainz.org/pub/musicbrainz/data/json-dumps/";

// ── Percent encoding ────────────────────────────────────────────────

/// Whether a byte stands for itself in an encoded string: an ASCII letter or digit, or one of
/// `-`, `.`, `_` and `~`.
pub open spec fn is_unreserved(byte: u8) -> bool {
    ||| 0x30 <= byte <= 0x39
    ||| 0x41 <= byte <= 0x5a
    ||| 0x61 <= byte <= 0x7a
    ||| byte == 0x2d
    ||| byte == 0x2e
    ||| byte == 0x5f
    ||| byte == 0x7e
}

/// The uppercase hexadecimal digit of a number below sixteen.
pub open spec fn hex_digit(n: u8) -> char {
    if n < 10 {
        (0x30 + n) as char
    } else {
        (0x41 + n - 10) as char
    }
}

/// A byte as it is written in an encoded string.
pub open spec fn escaped(byte: u8) -> Seq<char> {
    if is_unreserved(byte) {
        seq![byte as char]
    } else {
        seq!['%', hex_digit(byte / 16), hex_digit(byte % 16)]
    }
}

/// A list of bytes as it is written in an encoded string.
pub open spec fn escaped_bytes(bytes: Seq<u8>) -> Seq<char>
    decreases bytes.len(),
{
    if bytes.len() == 0 {
        Seq::empty()
    } else {
        escaped(bytes[0]) + escaped_bytes(bytes.drop_first())
    }
}

/// A string with every byte of its UTF-8 encoding escaped that does not stand for itself.
pub open spec fn percent_encoded(text: Seq<char>) -> Seq<char> {
    escaped_bytes(vstd::utf8::encode_utf8(text))
}

/// `urlencoding::encode`. The contract says that each byte of the UTF-8 encoding of `text` is
/// written as itself where it is an ASCII letter or digit, `-`, `.`, `_` or `~`, and as `%`
/// and its two uppercase hexadecimal digits otherwise.
#[verifier::external_body]
fn percent_encode(text: &str) -> (encoded: String)
    ensures
        encoded@ == percent_encoded(text@),
{
    urlencoding::encode(text).into_owned()
}

/// `num_cpus::get`. The number of processors depends on the machine; the contract says that
/// it is at least one.
#[verifier::external_body]
fn cpu_count() -> (count: usize)
    ensures
        count >= 1,
{
    num_cpus::get()
}

/// The connection URL of a broker: the credentials are escaped, and the virtual host is `/`.
pub open spec fn amqp_url(
    user: Seq<char>,
    password: Seq<char>,
    host: Seq<char>,
    port: Seq<char>,
) -> Seq<char> {
    "amqp://"@ + percent_encoded(user) + ":"@ + percent_encoded(password) + "@"@ + host + ":"@
        + port + "/%2F"@
}

/// Build the connection URL of a broker from its parts.
pub fn build_amqp_url(user: &str, password: &str, host: &str, port: &str) -> (url: String)
    ensures
        url@ == amqp_url(user@, password@, host@, port@),
        url@ == "amqp://"@ + percent_encoded(user@) + ":"@ + percent_encoded(password@) + "@"@
            + host@ + ":"@ + port@ + "/%2F"@,
{
    let encoded_user = percent_encode(user);
    let encoded_password = percent_encode(password);
    let mut url = join_two("amqp://", encoded_user.as_str());
    url.append(":");
    url.append(encoded_password.as_str());
    url.append("@");
    url.append(host);
    url.append(":");
    url.append(port);
    url.append("/%2F");
    url
}

// ── Settings ────────────────────────────────────────────────────────

/// The value of a variable, else a default.
pub open spec fn setting(env: Map<Seq<char>, String>, name: Seq<char>, default: Seq<char>) -> Seq<
    char,
> {
    if env.contains_key(name) {
        env[name]@
    } else {
        default
    }
}

/// The number that a variable states, else a default: where it is not set, where it is no
/// number, and where the number is larger than `max`.
pub open spec fn number_setting(
    env: Map<Seq<char>, String>,
    name: Seq<char>,
    default: u64,
    max: u64,
) -> u64 {
    if env.contains_key(name) {
        match bounded_value(env[name]@, max) {
            Some(value) => value,
            None => default,
        }
    } else {
        default
    }
}

/// The number, but at least one.
pub open spec fn at_least_one(value: u64) -> u64 {
    if value == 0 {
        1
    } else {
        value
    }
}

fn setting_of(env: &Table<String>, name: &str, default: &str) -> (value: String)
    ensures
        value@ == setting(env@, name@, default@),
{
    match env.get(name) {
        Some(value) => value.clone(),
        None => default.to_owned(),
    }
}

fn number_of(env: &Table<String>, name: &str, default: u64, max: u64) -> (value: u64)
    requires
        default <= max,
    ensures
        value == number_setting(env@, name@, default, max),
        value <= max,
{
    match env.get(name) {
        Some(text) => match parse_unsigned(text.as_str(), max) {
            Some(value) => value,
            None => default,
        },
        None => default,
    }
}

fn size_of_setting(env: &Table<String>, name: &str, default: usize) -> (value: usize)
    ensures
        value == at_least_one(number_setting(env@, name@, default as u64, usize::MAX as u64)),
{
    let value: u64 = number_of(env, name, default as u64, usize::MAX as u64);
    if value == 0 {
        1
    } else {
        value as usize
    }
}

/// Why a configuration cannot be loaded: the file that holds a secret cannot be read.
#[derive(Debug)]
pub struct ConfigError {
    pub variable: String,
    pub file_path: String,
}

/// The name of the variable that names the file of a secret.
pub open spec fn file_variable(variable: Seq<char>) -> Seq<char> {
    variable + "_FILE"@
}

/// A secret: where a file is named for it, the contents of that file without their outer
/// whitespace, or nothing where it cannot be read; else the variable, else a default.
pub open spec fn secret(
    env: Map<Seq<char>, String>,
    files: Map<Seq<char>, String>,
    variable: Seq<char>,
    default: Seq<char>,
) -> Option<Seq<char>> {
    if env.contains_key(file_variable(variable)) {
        let path = env[file_variable(variable)]@;
        if files.contains_key(path) {
            Some(trimmed_text(files[path]@))
        } else {
            None
        }
    } else {
        Some(setting(env, variable, default))
    }
}

/// Read a secret. `files` holds the contents of the files that could be read.
pub fn read_secret(
    env: &Table<String>,
    files: &Table<String>,
    variable: &str,
    default: &str,
) -> (value: Result<String, ConfigError>)
    ensures
        match value {
            Ok(value) => secret(env@, files@, variable@, default@) == Some(value@),
            Err(error) => {
                &&& secret(env@, files@, variable@, default@) is None
                &&& error.variable@ == variable@
                &&& error.file_path@ == env@[file_variable(variable@)]@
            },
        },
{
    let file_name = join_two(variable, "_FILE");
    match env.get(file_name.as_str()) {
        Some(path) => match files.get(path.as_str()) {
            Some(contents) => Ok(trim(contents.as_str())),
            None => Err(ConfigError { variable: variable.to_owned(), file_path: path.clone() }),
        },
        None => Ok(setting_of(env, variable, default)),
    }
}

/// The configuration that an environment sets, given the credentials and the number of
/// processors.
pub open spec fn config_of(
    env: Map<Seq<char>, String>,
    user: Seq<char>,
    password: Seq<char>,
    cpus: usize,
) -> ConfigModel {
    ConfigModel {
        amqp_connection: amqp_url(
            user,
            password,
            setting(env, "RABBITMQ_HOST"@, "rabbitmq"@),
            setting(env, "RABBITMQ_PORT"@, "5672"@),
        ),
        periodic_check_days: at_least_one(
            number_setting(env, "PERIODIC_CHECK_DAYS"@, 15, u64::MAX),
        ),
        health_port: number_setting(env, "HEALTH_PORT"@, 8000, u16::MAX as u64) as u16,
        max_workers: at_least_one(
            number_setting(env, "MAX_WORKERS"@, cpus as u64, usize::MAX as u64),
        ) as usize,
        batch_size: at_least_one(
            number_setting(env, "BATCH_SIZE"@, 100, usize::MAX as u64),
        ) as usize,
        queue_size: at_least_one(
            number_setting(env, "QUEUE_SIZE"@, 5000, usize::MAX as u64),
        ) as usize,
        progress_log_interval: at_least_one(
            number_setting(env, "PROGRESS_LOG_INTERVAL"@, 1000, usize::MAX as u64),
        ) as usize,
        state_save_interval: at_least_one(
            number_setting(env, "STATE_SAVE_INTERVAL"@, 5000, usize::MAX as u64),
        ) as usize,
        musicbrainz_root: setting(env, "MUSICBRAINZ_ROOT"@, DEFAULT_ROOT@),
        musicbrainz_exchange_prefix: setting(
            env,
            "MUSICBRAINZ_EXCHANGE_PREFIX"@,
            DEFAULT_EXCHANGE_PREFIX@,
        ),
        musicbrainz_dump_url: setting(env, "MUSICBRAINZ_DUMP_URL"@, DEFAULT_DUMP_URL@),
    }
}

/// The configuration of an empty environment, but for the broker, which is on this machine.
pub open spec fn default_config(cpus: usize) -> ConfigModel {
    ConfigModel {
        amqp_connection: amqp_url("groovemap"@, "groovemap"@, "localhost"@, "5672"@),
        periodic_check_days: 15,
        health_port: 8000,
        max_workers: cpus,
        batch_size: 100,
        queue_size: 5000,
        progress_log_interval: 1000,
        state_save_interval: 5000,
        musicbrainz_root: DEFAULT_ROOT@,
        musicbrainz_exchange_prefix: DEFAULT_EXCHANGE_PREFIX@,
        musicbrainz_dump_url: DEFAULT_DUMP_URL@,
    }
}

impl Default for ExtractorConfig {
    fn default() -> (config: ExtractorConfig)
        ensures
            config@.max_workers >= 1,
            config@ == default_config(config@.max_workers),
    {
        ExtractorConfig::with_workers(cpu_count())
    }
}

impl ExtractorConfig {
    /// The default configuration with a number of workers.
    pub fn with_workers(max_workers: usize) -> (config: ExtractorConfig)
        ensures
            config@ == default_config(max_workers),
    {
        ExtractorConfig {
            amqp_connection: build_amqp_url("groovemap", "groovemap", "localhost", "5672"),
            periodic_check_days: 15,
            health_port: 8000,
            max_workers,
            batch_size: 100,
            queue_size: 5000,
            progress_log_interval: 1000,
            state_save_interval: 5000,
            musicbrainz_root: DEFAULT_ROOT.to_owned(),
            musicbrainz_exchange_prefix: DEFAULT_EXCHANGE_PREFIX.to_owned(),
            musicbrainz_dump_url: DEFAULT_DUMP_URL.to_owned(),
        }
    }

    /// The configuration that an environment sets, on a machine with `cpus` processors.
    /// `files` holds the contents of the secret files that could be read.
    pub fn from_settings(env: &Table<String>, files: &Table<String>, cpus: usize) -> (config:
        Result<ExtractorConfig, ConfigError>)
        ensures
            ({
                let user = secret(env@, files@, "RABBITMQ_USERNAME"@, "groovemap"@);
                let password = secret(env@, files@, "RABBITMQ_PASSWORD"@, "groovemap"@);
                match config {
                    Ok(config) => user is Some && password is Some && config@ == config_of(
                        env@,
                        user->0,
                        password->0,
                        cpus,
                    ),
                    Err(error) => {
                        &&& user is None || password is None
                        &&& error.variable@ == if user is None {
                            "RABBITMQ_USERNAME"@
                        } else {
                            "RABBITMQ_PASSWORD"@
                        }
                        &&& error.file_path@ == env@[file_variable(error.variable@)]@
                    },
                }
            }),
    {
        let user = match read_secret(env, files, "RABBITMQ_USERNAME", "groovemap") {
            Ok(value) => value,
            Err(error) => {
                return Err(error);
            },
        };
        let password = match read_secret(env, files, "RABBITMQ_PASSWORD", "groovemap") {
            Ok(value) => value,
            Err(error) => {
                return Err(error);
            },
        };
        let host = setting_of(env, "RABBITMQ_HOST", "rabbitmq");
        let port = setting_of(env, "RABBITMQ_PORT", "5672");
        let days: u64 = number_of(env, "PERIODIC_CHECK_DAYS", 15, u64::MAX);
        Ok(
            ExtractorConfig {
                amqp_connection: build_amqp_url(
                    user.as_str(),
                    password.as_str(),
                    host.as_str(),
                    port.as_str(),
                ),
                periodic_check_days: if days == 0 {
                    1
                } else {
                    days
                },
                health_port: number_of(env, "HEALTH_PORT", 8000, u16::MAX as u64) as u16,
                max_workers: size_of_setting(env, "MAX_WORKERS", cpus),
                batch_size: size_of_setting(env, "BATCH_SIZE", 100),
                queue_size: size_of_setting(env, "QUEUE_SIZE", 5000),
                progress_log_interval: size_of_setting(env, "PROGRESS_LOG_INTERVAL", 1000),
                state_save_interval: size_of_setting(env, "STATE_SAVE_INTERVAL", 5000),
                musicbrainz_root: setting_of(env, "MUSICBRAINZ_ROOT", DEFAULT_ROOT),
                musicbrainz_exchange_prefix: setting_of(
                    env,
                    "MUSICBRAINZ_EXCHANGE_PREFIX",
                    DEFAULT_EXCHANGE_PREFIX,
                ),
                musicbrainz_dump_url: setting_of(env, "MUSICBRAINZ_DUMP_URL", DEFAULT_DUMP_URL),
            },
        )
    }

    /// The configuration that an environment sets on this machine. `files` holds the contents
    /// of the secret files that could be read.
    pub fn from_env(env: &Table<String>, files: &Table<String>) -> (config: Result<
        ExtractorConfig,
        ConfigError,
    >)
        ensures
            ({
                let user = secret(env@, files@, "RABBITMQ_USERNAME"@, "groovemap"@);
                let password = secret(env@, files@, "RABBITMQ_PASSWORD"@, "groovemap"@);
                match config {
                    Ok(config) => user is Some && password is Some && exists|cpus: usize|
                        cpus >= 1 && config@ == #[trigger] config_of(
                            env@,
                            user->0,
                            password->0,
                            cpus,
                        ),
                    Err(error) => {
                        &&& user is None || password is None
                        &&& error.variable@ == if user is None {
                            "RABBITMQ_USERNAME"@
                        } else {
                            "RABBITMQ_PASSWORD"@
                        }
                        &&& error.file_path@ == env@[file_variable(error.variable@)]@
                    },
                }
            }),
    {
        ExtractorConfig::from_settings(env, files, cpu_count())
    }
}

// ── Laws ────────────────────────────────────────────────────────────

proof fn lemma_escaped(byte: u8)
    ensures
        escaped(byte).len() > 0,
        forall|i: int| 0 <= i < escaped(byte).len() ==> is_safe(#[trigger] escaped(byte)[i]),
{
    assert(byte / 16 < 16);
    assert(byte % 16 < 16);
}

/// Whether a character can occur in an encoded string.
pub open spec fn is_safe(c: char) -> bool {
    ||| '0' <= c && c <= '9'
    ||| 'A' <= c && c <= 'Z'
    ||| 'a' <= c && c <= 'z'
    ||| c == '-'
    ||| c == '.'
    ||| c == '_'
    ||| c == '~'
    ||| c == '%'
}

proof fn lemma_escaped_bytes(bytes: Seq<u8>)
    ensures
        forall|i: int|
            0 <= i < escaped_bytes(bytes).len() ==> is_safe(#[trigger] escaped_bytes(bytes)[i]),
    decreases bytes.len(),
{
    if bytes.len() > 0 {
        lemma_escaped(bytes[0]);
        lemma_escaped_bytes(bytes.drop_first());
        let first = escaped(bytes[0]);
        let rest = escaped_bytes(bytes.drop_first());
        assert forall|i: int| 0 <= i < escaped_bytes(bytes).len() implies is_safe(
            #[trigger] escaped_bytes(bytes)[i],
        ) by {
            if i < first.len() {
                assert(escaped_bytes(bytes)[i] == first[i]);
            } else {
                assert(escaped_bytes(bytes)[i] == rest[i - first.len()]);
            }
        }
    }
}

/// An encoded credential holds none of the characters that part a URL, so that it cannot be
/// taken for another part of it.
pub proof fn encoded_credentials_hold_no_delimiter(text: Seq<char>, i: int)
    requires
        0 <= i < percent_encoded(text).len(),
    ensures
        is_safe(percent_encoded(text)[i]),
        percent_encoded(text)[i] != ':',
        percent_encoded(text)[i] != '@',
        percent_encoded(text)[i] != '/',
{
    lemma_escaped_bytes(vstd::utf8::encode_utf8(text));
}

/// The number of a hexadecimal digit.
pub open spec fn hex_value(c: char) -> int {
    if c <= '9' {
        c as int - 0x30
    } else {
        c as int - 0x41 + 10
    }
}

/// The bytes that an encoded string stands for.
pub open spec fn unescaped(text: Seq<char>) -> Seq<u8>
    decreases text.len(),
{
    if text.len() == 0 {
        Seq::empty()
    } else if text[0] == '%' && text.len() >= 3 {
        seq![(hex_value(text[1]) * 16 + hex_value(text[2])) as u8] + unescaped(text.skip(3))
    } else {
        seq![text[0] as u8] + unescaped(text.skip(1))
    }
}

proof fn lemma_unescaped(bytes: Seq<u8>)
    ensures
        unescaped(escaped_bytes(bytes)) == bytes,
    decreases bytes.len(),
{
    if bytes.len() > 0 {
        let byte = bytes[0];
        let rest = escaped_bytes(bytes.drop_first());
        let text = escaped_bytes(bytes);
        lemma_unescaped(bytes.drop_first());
        assert(seq![byte] + bytes.drop_first() =~= bytes);
        if is_unreserved(byte) {
            assert(text[0] == byte as char);
            assert(text.skip(1) =~= rest);
            assert(text[0] != '%');
            assert(text[0] as u8 == byte);
        } else {
            assert(text[0] == '%' && text[1] == hex_digit(byte / 16) && text[2] == hex_digit(
                byte % 16,
            ));
            assert(text.skip(3) =~= rest);
            assert(hex_value(hex_digit(byte / 16)) == byte / 16);
            assert(hex_value(hex_digit(byte % 16)) == byte % 16);
            assert(hex_value(text[1]) * 16 + hex_value(text[2]) == byte);
        }
    }
}

/// A credential can be read back from its encoding: two that differ are encoded differently.
pub proof fn encoded_credentials_can_be_told_apart(one: Seq<char>, other: Seq<char>)
    ensures
        percent_encoded(one) == percent_encoded(other) ==> one == other,
        vstd::utf8::decode_utf8(unescaped(percent_encoded(one))) == one,
{
    lemma_unescaped(vstd::utf8::encode_utf8(one));
    lemma_unescaped(vstd::utf8::encode_utf8(other));
    vstd::utf8::encode_utf8_decode_utf8(one);
    vstd::utf8::encode_utf8_decode_utf8(other);
}

/// No size and no interval of a loaded configuration is zero.
pub proof fn loaded_sizes_are_never_zero(
    env: Map<Seq<char>, String>,
    user: Seq<char>,
    password: Seq<char>,
    cpus: usize,
)
    ensures
        config_of(env, user, password, cpus).periodic_check_days >= 1,
        config_of(env, user, password, cpus).max_workers >= 1,
        config_of(env, user, password, cpus).batch_size >= 1,
        config_of(env, user, password, cpus).queue_size >= 1,
        config_of(env, user, password, cpus).progress_log_interval >= 1,
        config_of(env, user, password, cpus).state_save_interval >= 1,
{
}

/// Whether a variable states a number that is at most `max`.
pub open spec fn states_number(
    env: Map<Seq<char>, String>,
    name: Seq<char>,
    max: int,
    n: nat,
) -> bool {
    env.contains_key(name) && unsigned_value(env[name]@) == Some(n) && n <= max
}

/// Whether a size is what a variable states: the number, but one in place of zero, and the
/// default where the variable states no number that fits.
pub open spec fn follows_variable(
    size: int,
    env: Map<Seq<char>, String>,
    name: Seq<char>,
    default: int,
    max: int,
) -> bool {
    &&& forall|n: nat| n > 0 && #[trigger] states_number(env, name, max, n) ==> size == n
    &&& states_number(env, name, max, 0) ==> size == 1
    &&& (forall|n: nat| !#[trigger] states_number(env, name, max, n)) ==> size == default
}

proof fn lemma_number_setting(
    env: Map<Seq<char>, String>,
    name: Seq<char>,
    default: u64,
    max: u64,
)
    requires
        default <= max,
    ensures
        forall|n: nat| #[trigger]
            states_number(env, name, max as int, n) ==> number_setting(env, name, default, max)
                == n,
        (forall|n: nat| !#[trigger] states_number(env, name, max as int, n)) ==> number_setting(
            env,
            name,
            default,
            max,
        ) == default,
        number_setting(env, name, default, max) <= max,
{
    if env.contains_key(name) && bounded_value(env[name]@, max) is Some {
        assert(states_number(env, name, max as int, unsigned_value(env[name]@)->0));
    }
}

/// Each size and interval of a loaded configuration is what its variable states, and so is the
/// port, where zero counts as a number like any other.
pub proof fn loaded_sizes_follow_their_variables(
    env: Map<Seq<char>, String>,
    user: Seq<char>,
    password: Seq<char>,
    cpus: usize,
    port: nat,
)
    ensures
        ({
            let config = config_of(env, user, password, cpus);
            &&& follows_variable(
                config.periodic_check_days as int,
                env,
                "PERIODIC_CHECK_DAYS"@,
                15,
                u64::MAX as int,
            )
            &&& follows_variable(
                config.max_workers as int,
                env,
                "MAX_WORKERS"@,
                (if cpus == 0 { 1int } else { cpus as int }),
                usize::MAX as int,
            )
            &&& follows_variable(
                config.batch_size as int,
                env,
                "BATCH_SIZE"@,
                100,
                usize::MAX as int,
            )
            &&& follows_variable(
                config.queue_size as int,
                env,
                "QUEUE_SIZE"@,
                5000,
                usize::MAX as int,
            )
            &&& follows_variable(
                config.progress_log_interval as int,
                env,
                "PROGRESS_LOG_INTERVAL"@,
                1000,
                usize::MAX as int,
            )
            &&& follows_variable(
                config.state_save_interval as int,
                env,
                "STATE_SAVE_INTERVAL"@,
                5000,
                usize::MAX as int,
            )
            &&& states_number(env, "HEALTH_PORT"@, u16::MAX as int, port) ==> config.health_port
                == port
            &&& (forall|n: nat| !#[trigger] states_number(env, "HEALTH_PORT"@, u16::MAX as int, n))
                ==> config.health_port == 8000
        }),
{
    lemma_number_setting(env, "PERIODIC_CHECK_DAYS"@, 15, u64::MAX);
    lemma_number_setting(env, "MAX_WORKERS"@, cpus as u64, usize::MAX as u64);
    lemma_number_setting(env, "BATCH_SIZE"@, 100, usize::MAX as u64);
    lemma_number_setting(env, "QUEUE_SIZE"@, 5000, usize::MAX as u64);
    lemma_number_setting(env, "PROGRESS_LOG_INTERVAL"@, 1000, usize::MAX as u64);
    lemma_number_setting(env, "STATE_SAVE_INTERVAL"@, 5000, usize::MAX as u64);
    lemma_number_setting(env, "HEALTH_PORT"@, 8000, u16::MAX as u64);
}

/// Whether a text is what a variable holds, or the default where it is not set.
pub open spec fn follows_text(
    text: Seq<char>,
    env: Map<Seq<char>, String>,
    name: Seq<char>,
    default: Seq<char>,
) -> bool {
    &&& env.contains_key(name) ==> text == env[name]@
    &&& !env.contains_key(name) ==> text == default
}

/// The root of the dumps, the prefix of the exchanges and the source of the dumps are what
/// their variables hold. The connection is to the host and the port that their variables hold,
/// with the credentials escaped.
pub proof fn loaded_texts_follow_their_variables(
    env: Map<Seq<char>, String>,
    user: Seq<char>,
    password: Seq<char>,
    cpus: usize,
    host: Seq<char>,
    port: Seq<char>,
)
    requires
        follows_text(host, env, "RABBITMQ_HOST"@, "rabbitmq"@),
        follows_text(port, env, "RABBITMQ_PORT"@, "5672"@),
    ensures
        ({
            let config = config_of(env, user, password, cpus);
            &&& follows_text(config.musicbrainz_root, env, "MUSICBRAINZ_ROOT"@, DEFAULT_ROOT@)
            &&& follows_text(
                config.musicbrainz_exchange_prefix,
                env,
                "MUSICBRAINZ_EXCHANGE_PREFIX"@,
                DEFAULT_EXCHANGE_PREFIX@,
            )
            &&& follows_text(
                config.musicbrainz_dump_url,
                env,
                "MUSICBRAINZ_DUMP_URL"@,
                DEFAULT_DUMP_URL@,
            )
            &&& config.amqp_connection == "amqp://"@ + percent_encoded(user) + ":"@
                + percent_encoded(password) + "@"@ + host + ":"@ + port + "/%2F"@
        }),
{
}

/// A secret comes out of the file that is named for it, without the whitespace around it, and
/// cannot be had where that file cannot be read; only where no file is named it comes out of
/// its variable, else it is the default.
pub proof fn a_secret_comes_from_its_file_first(
    env: Map<Seq<char>, String>,
    files: Map<Seq<char>, String>,
    variable: Seq<char>,
    default: Seq<char>,
)
    ensures
        ({
            let named = variable + "_FILE"@;
            let value = secret(env, files, variable, default);
            &&& env.contains_key(named) ==> (value is Some <==> files.contains_key(env[named]@))
            &&& env.contains_key(named) && value is Some ==> value->0 == trimmed_text(
                files[env[named]@]@,
            )
            &&& !env.contains_key(named) ==> value is Some && follows_text(
                value->0,
                env,
                variable,
                default,
            )
        }),
{
}

/// The default configuration is what an environment loads that names a broker on this machine
/// and nothing else.
pub proof fn the_default_is_that_of_a_local_broker(env: Map<Seq<char>, String>, cpus: usize)
    requires
        cpus > 0,
        env.dom() == set!["RABBITMQ_HOST"@],
        env["RABBITMQ_HOST"@]@ == "localhost"@,
    ensures
        default_config(cpus) == config_of(env, "groovemap"@, "groovemap"@, cpus),
        secret(env, Map::empty(), "RABBITMQ_USERNAME"@, "groovemap"@) == Some("groovemap"@),
{
    reveal_strlit("RABBITMQ_HOST");
    reveal_strlit("RABBITMQ_PORT");
    reveal_strlit("PERIODIC_CHECK_DAYS");
    reveal_strlit("HEALTH_PORT");
    reveal_strlit("MAX_WORKERS");
    reveal_strlit("BATCH_SIZE");
    reveal_strlit("QUEUE_SIZE");
    reveal_strlit("PROGRESS_LOG_INTERVAL");
    reveal_strlit("STATE_SAVE_INTERVAL");
    reveal_strlit("MUSICBRAINZ_ROOT");
    reveal_strlit("MUSICBRAINZ_EXCHANGE_PREFIX");
    reveal_strlit("MUSICBRAINZ_DUMP_URL");
    reveal_strlit("RABBITMQ_USERNAME");
    reveal_strlit("_FILE");
    assert("RABBITMQ_HOST"@.len() == 13 && "RABBITMQ_HOST"@[9] == 'H');
    assert("RABBITMQ_PORT"@.len() == 13 && "RABBITMQ_PORT"@[9] == 'P');
    assert("PERIODIC_CHECK_DAYS"@.len() == 19);
    assert("HEALTH_PORT"@.len() == 11);
    assert("MAX_WORKERS"@.len() == 11);
    assert("BATCH_SIZE"@.len() == 10);
    assert("QUEUE_SIZE"@.len() == 10);
    assert("PROGRESS_LOG_INTERVAL"@.len() == 21);
    assert("STATE_SAVE_INTERVAL"@.len() == 19);
    assert("MUSICBRAINZ_ROOT"@.len() == 16);
    assert("MUSICBRAINZ_EXCHANGE_PREFIX"@.len() == 27);
    assert("MUSICBRAINZ_DUMP_URL"@.len() == 20);
    assert("RABBITMQ_USERNAME"@.len() == 17);
    assert(("RABBITMQ_USERNAME"@ + "_FILE"@).len() == 22);
    assert(env.contains_key("RABBITMQ_HOST"@));
    assert forall|name: Seq<char>| #[trigger] env.contains_key(name) implies name
        == "RABBITMQ_HOST"@ by {
        assert(env.dom().contains(name));
    }
}

} // verus!
