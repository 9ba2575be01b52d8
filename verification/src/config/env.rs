//! Reading typed settings from environment variables.
//!
//! The environment is a map from names to values. A variable that is set to the
//! empty text counts as unset, except where it is required.

use vstd::prelude::*;
use vstd::string::*;

use crate::duration;
use crate::duration::{duration_of, readable, Duration};
use crate::strmap::{lemma_deep_insert, StrMap};
use crate::text;
use crate::text::{lower, parse_signed, parse_unsigned, split, split_once, trim};

verus! {

pub type Env = Map<Seq<char>, Seq<char>>;

// ---- errors -----------------------------------------------------------------------

/// What is wrong with a setting.
#[derive(Debug, Clone, Copy, PartialEq, Eq, Structural)]
pub enum ErrorKind {
    /// A required variable is not set.
    Missing,
    InvalidUrl,
    /// Certificate checks are switched off without the acknowledgement.
    SkipVerifyNotAcknowledged,
    /// A plain `http` endpoint without permission.
    InsecureHttp,
    InvalidBool,
    InvalidDuration,
    InvalidU64,
    InvalidI32,
    /// One entry of a list of numbers is not a number.
    InvalidI32Entry,
    /// A list is set but names nothing.
    EmptyList,
    /// A list of ports is set but names nothing.
    EmptyPorts,
    /// An entry of a `key=value` list has no `=`.
    NotKeyValue,
    EmptyAnnotationKey,
    InvalidReconcileKind,
    EmptySelector,
    InvalidBackendKind,
    /// A path prefix that does not start with `/`.
    InvalidPathPrefix,
    /// The base URL of pangolin's API is no URL.
    InvalidApiBaseUrl,
    /// The timeout towards pangolin is no duration.
    InvalidTimeout,
}

impl DeepView for ErrorKind {
    type V = ErrorKind;

    open spec fn deep_view(&self) -> ErrorKind {
        *self
    }
}

/// An invalid setting: the variable it is about and the offending text.
#[derive(Debug, Clone, PartialEq, Eq)]
pub struct ConfigError {
    pub kind: ErrorKind,
    pub key: String,
    pub value: String,
}

#[verifier::ext_equal]
pub struct ConfigErrorView {
    pub kind: ErrorKind,
    pub key: Seq<char>,
    pub value: Seq<char>,
}

impl DeepView for ConfigError {
    type V = ConfigErrorView;

    open spec fn deep_view(&self) -> ConfigErrorView {
        ConfigErrorView { kind: self.kind, key: self.key@, value: self.value@ }
    }
}

pub open spec fn error_of(kind: ErrorKind, key: Seq<char>, value: Seq<char>) -> ConfigErrorView {
    ConfigErrorView { kind, key, value }
}

pub fn error(kind: ErrorKind, key: &str, value: &str) -> (r: ConfigError)
    ensures
        r.deep_view() == error_of(kind, key@, value@),
{
    ConfigError { kind, key: key.to_owned(), value: value.to_owned() }
}

/// The message of an error, given how the offending text is shown.
pub open spec fn message_of(kind: ErrorKind, key: Seq<char>, shown: Seq<char>) -> Seq<char> {
    match kind {
        ErrorKind::Missing => "required environment variable "@ + key + " is not set"@,
        ErrorKind::InvalidUrl => key + " must be a valid URL"@,
        ErrorKind::SkipVerifyNotAcknowledged => key + "=true requires I_UNDERSTAND_"@ + key
            + "_IS_INSECURE=true to be explicitly set"@,
        ErrorKind::InsecureHttp => key
            + " uses http://. Set CONFIG_ALLOW_INSECURE_HTTP=true to permit it."@,
        ErrorKind::InvalidBool => "invalid boolean for "@ + key + ": "@ + shown,
        ErrorKind::InvalidDuration => "invalid duration for "@ + key + ": "@ + shown,
        ErrorKind::InvalidU64 => "invalid u64 for "@ + key + ": "@ + shown,
        ErrorKind::InvalidI32 => "invalid i32 for "@ + key + ": "@ + shown,
        ErrorKind::InvalidI32Entry => "invalid i32 in "@ + key + ": "@ + shown,
        ErrorKind::EmptyList => key + " must contain at least one value when set"@,
        ErrorKind::EmptyPorts => key + " must contain at least one port when set"@,
        ErrorKind::NotKeyValue => key + ": entry "@ + shown + " is not `key=value`"@,
        ErrorKind::EmptyAnnotationKey => key + ": empty annotation key in entry "@ + shown,
        ErrorKind::InvalidReconcileKind => "invalid reconcile object kind "@ + shown
            + "; expected HTTPRoute, ListenerSet, Service, EndpointSlice, Backend, SecurityPolicy, or UDPRoute"@,
        ErrorKind::EmptySelector => key + " entry "@ + shown + " has an empty selector value"@,
        ErrorKind::InvalidBackendKind => "invalid "@ + key + " "@ + shown
            + "; expected `service` or `envoy-backend`"@,
        ErrorKind::InvalidPathPrefix => key + " must start with '/' (got "@ + shown + ")"@,
        ErrorKind::InvalidApiBaseUrl => "invalid "@ + key,
        ErrorKind::InvalidTimeout => "invalid "@ + key,
    }
}

/// The message of an error of this kind, given how the offending text is shown.
pub fn message_with(kind: ErrorKind, key: &str, shown: &str) -> (r: String)
    ensures
        r@ == message_of(kind, key@, shown@),
{
    match kind {
        ErrorKind::Missing => text::cat3("required environment variable ", key, " is not set"),
        ErrorKind::InvalidUrl => text::cat(key, " must be a valid URL"),
        ErrorKind::SkipVerifyNotAcknowledged => {
            let mut out = text::cat3(key, "=true requires I_UNDERSTAND_", key);
            out.append("_IS_INSECURE=true to be explicitly set");
            out
        },
        ErrorKind::InsecureHttp => text::cat(
            key,
            " uses http://. Set CONFIG_ALLOW_INSECURE_HTTP=true to permit it.",
        ),
        ErrorKind::InvalidBool => text::cat(
            text::cat3("invalid boolean for ", key, ": ").as_str(),
            shown,
        ),
        ErrorKind::InvalidDuration => text::cat(
            text::cat3("invalid duration for ", key, ": ").as_str(),
            shown,
        ),
        ErrorKind::InvalidU64 => text::cat(
            text::cat3("invalid u64 for ", key, ": ").as_str(),
            shown,
        ),
        ErrorKind::InvalidI32 => text::cat(
            text::cat3("invalid i32 for ", key, ": ").as_str(),
            shown,
        ),
        ErrorKind::InvalidI32Entry => text::cat(
            text::cat3("invalid i32 in ", key, ": ").as_str(),
            shown,
        ),
        ErrorKind::EmptyList => text::cat(key, " must contain at least one value when set"),
        ErrorKind::EmptyPorts => text::cat(key, " must contain at least one port when set"),
        ErrorKind::NotKeyValue => text::cat(
            text::cat3(key, ": entry ", shown).as_str(),
            " is not `key=value`",
        ),
        ErrorKind::EmptyAnnotationKey => text::cat3(
            key,
            ": empty annotation key in entry ",
            shown,
        ),
        ErrorKind::InvalidReconcileKind => text::cat3(
            "invalid reconcile object kind ",
            shown,
            "; expected HTTPRoute, ListenerSet, Service, EndpointSlice, Backend, SecurityPolicy, or UDPRoute",
        ),
        ErrorKind::EmptySelector => text::cat(
            text::cat3(key, " entry ", shown).as_str(),
            " has an empty selector value",
        ),
        ErrorKind::InvalidBackendKind => text::cat3(
            text::cat3("invalid ", key, " ").as_str(),
            shown,
            "; expected `service` or `envoy-backend`",
        ),
        ErrorKind::InvalidPathPrefix => text::cat(
            text::cat3(key, " must start with '/' (got ", shown).as_str(),
            ")",
        ),
        ErrorKind::InvalidApiBaseUrl => text::cat("invalid ", key),
        ErrorKind::InvalidTimeout => text::cat("invalid ", key),
    }
}

impl ConfigError {
    /// The message shown to the operator.
    pub fn message(&self) -> (r: String)
        ensures
            r@ == message_of(self.kind, self.key@, text::text_debug(self.value@)),
    {
        let shown = text::debug_text(self.value.as_str());
        message_with(self.kind, self.key.as_str(), shown.as_str())
    }
}

// ---- readers ------------------------------------------------------------------------

/// The value of a variable, unless it is unset or empty.
pub open spec fn optional_of(env: Env, key: Seq<char>) -> Option<Seq<char>> {
    if env.contains_key(key) && env[key].len() > 0 {
        Some(env[key])
    } else {
        None
    }
}

pub open spec fn text_or_of(env: Env, key: Seq<char>, default: Seq<char>) -> Seq<char> {
    match optional_of(env, key) {
        Some(v) => v,
        None => default,
    }
}

/// The value of a variable that must be set; it may be empty.
pub open spec fn required_of(env: Env, key: Seq<char>) -> Result<Seq<char>, ConfigErrorView> {
    if env.contains_key(key) {
        Ok(env[key])
    } else {
        Err(error_of(ErrorKind::Missing, key, Seq::empty()))
    }
}

/// The truth value of a lowercase word.
pub open spec fn truth(word: Seq<char>) -> Option<bool> {
    if word == "1"@ || word == "true"@ || word == "yes"@ || word == "on"@ {
        Some(true)
    } else if word == "0"@ || word == "false"@ || word == "no"@ || word == "off"@ {
        Some(false)
    } else {
        None
    }
}

pub open spec fn flag_of(env: Env, key: Seq<char>, default: bool) -> Result<bool, ConfigErrorView> {
    match optional_of(env, key) {
        None => Ok(default),
        Some(v) => match truth(lower(v)) {
            Some(b) => Ok(b),
            None => Err(error_of(ErrorKind::InvalidBool, key, lower(v))),
        },
    }
}

/// A variable that is unset, or that can be read as a duration.
pub open spec fn duration_readable(env: Env, key: Seq<char>) -> bool {
    optional_of(env, key) matches Some(v) ==> readable(v)
}

pub open spec fn duration_setting(env: Env, key: Seq<char>, default: Duration) -> Result<
    Duration,
    ConfigErrorView,
> {
    match optional_of(env, key) {
        None => Ok(default),
        Some(v) => match duration_of(v) {
            Some(d) => Ok(Duration { secs: d.0, nanos: d.1 }),
            None => Err(error_of(ErrorKind::InvalidDuration, key, v)),
        },
    }
}

pub open spec fn u64_of(env: Env, key: Seq<char>, default: u64) -> Result<u64, ConfigErrorView> {
    match optional_of(env, key) {
        None => Ok(default),
        Some(v) => match parse_unsigned(v, u64::MAX as nat) {
            Some(n) => Ok(n as u64),
            None => Err(error_of(ErrorKind::InvalidU64, key, v)),
        },
    }
}

pub open spec fn i32_of(env: Env, key: Seq<char>, default: i32) -> Result<i32, ConfigErrorView> {
    match optional_of(env, key) {
        None => Ok(default),
        Some(v) => match parse_signed(v) {
            Some(n) => Ok(n as i32),
            None => Err(error_of(ErrorKind::InvalidI32, key, v)),
        },
    }
}

/// The trimmed entries that are not empty.
pub open spec fn entries_of(parts: Seq<Seq<char>>) -> Seq<Seq<char>>
    decreases parts.len(),
{
    if parts.len() == 0 {
        Seq::empty()
    } else {
        let rest = entries_of(parts.drop_last());
        let e = trim(parts.last());
        if e.len() == 0 {
            rest
        } else {
            rest.push(e)
        }
    }
}

pub open spec fn csv_of(env: Env, key: Seq<char>, default: Seq<Seq<char>>) -> Result<
    Seq<Seq<char>>,
    ConfigErrorView,
> {
    match optional_of(env, key) {
        None => Ok(default),
        Some(v) => {
            let entries = entries_of(split(v, ','));
            if entries.len() == 0 {
                Err(error_of(ErrorKind::EmptyList, key, Seq::empty()))
            } else {
                Ok(entries)
            }
        },
    }
}

/// The numbers that entries stand for, or the first entry that stands for none.
pub open spec fn numbers_of(key: Seq<char>, entries: Seq<Seq<char>>) -> Result<
    Seq<i32>,
    ConfigErrorView,
>
    decreases entries.len(),
{
    if entries.len() == 0 {
        Ok(Seq::empty())
    } else {
        match numbers_of(key, entries.drop_last()) {
            Err(e) => Err(e),
            Ok(rest) => match parse_signed(entries.last()) {
                Some(n) => Ok(rest.push(n as i32)),
                None => Err(error_of(ErrorKind::InvalidI32Entry, key, entries.last())),
            },
        }
    }
}

pub open spec fn ports_of(env: Env, key: Seq<char>, default: Seq<i32>) -> Result<
    Seq<i32>,
    ConfigErrorView,
> {
    match optional_of(env, key) {
        None => Ok(default),
        Some(v) => match numbers_of(key, entries_of(split(v, ','))) {
            Err(e) => Err(e),
            Ok(ports) => if ports.len() == 0 {
                Err(error_of(ErrorKind::EmptyPorts, key, Seq::empty()))
            } else {
                Ok(ports)
            },
        },
    }
}

/// One `key=value` entry.
pub open spec fn assignment(key: Seq<char>, entry: Seq<char>) -> Result<
    (Seq<char>, Seq<char>),
    ConfigErrorView,
> {
    match split_once(entry, '=') {
        None => Err(error_of(ErrorKind::NotKeyValue, key, entry)),
        Some(kv) => if trim(kv.0).len() == 0 {
            Err(error_of(ErrorKind::EmptyAnnotationKey, key, entry))
        } else {
            Ok((trim(kv.0), trim(kv.1)))
        },
    }
}

/// The map that `key=value` entries stand for, or the first bad entry; a later entry
/// takes the place of an earlier one under the same key.
pub open spec fn assignments(key: Seq<char>, entries: Seq<Seq<char>>) -> Result<
    Env,
    ConfigErrorView,
>
    decreases entries.len(),
{
    if entries.len() == 0 {
        Ok(Map::empty())
    } else {
        match assignments(key, entries.drop_last()) {
            Err(e) => Err(e),
            Ok(rest) => match assignment(key, entries.last()) {
                Err(e) => Err(e),
                Ok(kv) => Ok(rest.insert(kv.0, kv.1)),
            },
        }
    }
}

/// A `key=value,key=value,...` list. Empty entries are skipped.
pub open spec fn kv_of(env: Env, key: Seq<char>) -> Result<Env, ConfigErrorView> {
    match optional_of(env, key) {
        None => Ok(Map::empty()),
        Some(v) => assignments(key, entries_of(split(v, ','))),
    }
}

pub fn optional(env: &StrMap<String>, key: &str) -> (r: Option<String>)
    ensures
        r.deep_view() == optional_of(env.deep_view(), key@),
{
    match env.get(key) {
        Some(v) => {
            assert(env.deep_view()[key@] == v@);
            if v.as_str().is_empty() {
                None
            } else {
                Some(v.clone())
            }
        },
        None => None,
    }
}

pub fn text_or(env: &StrMap<String>, key: &str, default: &str) -> (r: String)
    ensures
        r@ == text_or_of(env.deep_view(), key@, default@),
{
    match optional(env, key) {
        Some(v) => v,
        None => default.to_owned(),
    }
}

pub fn required(env: &StrMap<String>, key: &str) -> (r: Result<String, ConfigError>)
    ensures
        match r {
            Ok(v) => required_of(env.deep_view(), key@) == Ok::<_, ConfigErrorView>(v@),
            Err(e) => required_of(env.deep_view(), key@) == Err::<Seq<char>, _>(e.deep_view()),
        },
{
    match env.get(key) {
        Some(v) => {
            assert(env.deep_view()[key@] == v@);
            Ok(v.clone())
        },
        None => {
            proof {
                reveal_strlit("");
                assert(""@ =~= Seq::<char>::empty());
            }
            Err(error(ErrorKind::Missing, key, ""))
        },
    }
}

pub fn flag(env: &StrMap<String>, key: &str, default: bool) -> (r: Result<bool, ConfigError>)
    ensures
        match r {
            Ok(b) => flag_of(env.deep_view(), key@, default) == Ok::<_, ConfigErrorView>(b),
            Err(e) => flag_of(env.deep_view(), key@, default) == Err::<bool, _>(e.deep_view()),
        },
{
    match optional(env, key) {
        None => Ok(default),
        Some(v) => {
            let word = text::to_lower(v.as_str());
            match truth_of(word.as_str()) {
                Some(b) => Ok(b),
                None => Err(error(ErrorKind::InvalidBool, key, word.as_str())),
            }
        },
    }
}

pub fn truth_of(word: &str) -> (r: Option<bool>)
    ensures
        r == truth(word@),
{
    if text::same(word, "1") || text::same(word, "true") || text::same(word, "yes") || text::same(
        word,
        "on",
    ) {
        Some(true)
    } else if text::same(word, "0") || text::same(word, "false") || text::same(word, "no")
        || text::same(word, "off") {
        Some(false)
    } else {
        None
    }
}

/// Whether a variable is unset or can be read as a duration.
pub fn is_duration_readable(env: &StrMap<String>, key: &str) -> (r: bool)
    ensures
        r == duration_readable(env.deep_view(), key@),
{
    match optional(env, key) {
        None => true,
        Some(v) => duration::is_readable(v.as_str()),
    }
}

pub fn duration_env(env: &StrMap<String>, key: &str, default: Duration) -> (r: Result<
    Duration,
    ConfigError,
>)
    requires
        duration_readable(env.deep_view(), key@),
    ensures
        match r {
            Ok(d) => duration_setting(env.deep_view(), key@, default) == Ok::<_, ConfigErrorView>(
                d,
            ) && (default.valid() ==> d.valid()),
            Err(e) => duration_setting(env.deep_view(), key@, default) == Err::<Duration, _>(
                e.deep_view(),
            ),
        },
{
    match optional(env, key) {
        None => Ok(default),
        Some(v) => match duration::parse_duration(v.as_str()) {
            Some(d) => Ok(d),
            None => Err(error(ErrorKind::InvalidDuration, key, v.as_str())),
        },
    }
}

pub fn u64_env(env: &StrMap<String>, key: &str, default: u64) -> (r: Result<u64, ConfigError>)
    ensures
        match r {
            Ok(n) => u64_of(env.deep_view(), key@, default) == Ok::<_, ConfigErrorView>(n),
            Err(e) => u64_of(env.deep_view(), key@, default) == Err::<u64, _>(e.deep_view()),
        },
{
    match optional(env, key) {
        None => Ok(default),
        Some(v) => match text::unsigned(v.as_str(), u64::MAX) {
            Some(n) => Ok(n),
            None => Err(error(ErrorKind::InvalidU64, key, v.as_str())),
        },
    }
}

pub fn i32_env(env: &StrMap<String>, key: &str, default: i32) -> (r: Result<i32, ConfigError>)
    ensures
        match r {
            Ok(n) => i32_of(env.deep_view(), key@, default) == Ok::<_, ConfigErrorView>(n),
            Err(e) => i32_of(env.deep_view(), key@, default) == Err::<i32, _>(e.deep_view()),
        },
{
    match optional(env, key) {
        None => Ok(default),
        Some(v) => match text::signed_i32(v.as_str()) {
            Some(n) => Ok(n),
            None => Err(error(ErrorKind::InvalidI32, key, v.as_str())),
        },
    }
}

/// The trimmed entries of a comma-separated list that are not empty.
pub fn list_entries(raw: &str) -> (r: Vec<String>)
    ensures
        r.deep_view() == entries_of(split(raw@, ',')),
{
    let parts = text::pieces(raw, ',');
    let ghost all = parts.deep_view();
    let mut out: Vec<String> = Vec::new();
    let mut i: usize = 0;
    assert(all.take(0) =~= Seq::<Seq<char>>::empty());
    assert(out.deep_view() =~= Seq::<Seq<char>>::empty());
    while i < parts.len()
        invariant
            all == parts.deep_view(),
            i <= parts@.len(),
            out.deep_view() == entries_of(all.take(i as int)),
        decreases parts@.len() - i,
    {
        let e = text::trimmed(parts[i].as_str());
        let ghost done = out.deep_view();
        assert(all.take(i + 1).drop_last() =~= all.take(i as int));
        assert(all.take(i + 1).last() == parts@[i as int]@);
        if !e.as_str().is_empty() {
            out.push(e);
            assert(out.deep_view() =~= done.push(e@));
        }
        i += 1;
    }
    assert(all.take(i as int) =~= all);
    out
}

pub fn csv_env(env: &StrMap<String>, key: &str, default: Vec<String>) -> (r: Result<
    Vec<String>,
    ConfigError,
>)
    ensures
        match r {
            Ok(v) => csv_of(env.deep_view(), key@, default.deep_view()) == Ok::<_, ConfigErrorView>(
                v.deep_view(),
            ),
            Err(e) => csv_of(env.deep_view(), key@, default.deep_view()) == Err::<
                Seq<Seq<char>>,
                _,
            >(e.deep_view()),
        },
{
    match optional(env, key) {
        None => Ok(default),
        Some(v) => {
            let entries = list_entries(v.as_str());
            if entries.len() == 0 {
                proof {
                    reveal_strlit("");
                    assert(""@ =~= Seq::<char>::empty());
                }
                Err(error(ErrorKind::EmptyList, key, ""))
            } else {
                Ok(entries)
            }
        },
    }
}

proof fn lemma_numbers_prefix(key: Seq<char>, entries: Seq<Seq<char>>, i: int)
    requires
        0 <= i <= entries.len(),
        numbers_of(key, entries.take(i)) is Err,
    ensures
        numbers_of(key, entries) == numbers_of(key, entries.take(i)),
    decreases entries.len() - i,
{
    if i < entries.len() {
        assert(entries.take(i + 1).drop_last() =~= entries.take(i));
        lemma_numbers_prefix(key, entries, i + 1);
    } else {
        assert(entries.take(i) =~= entries);
    }
}

pub fn i32_csv_env(env: &StrMap<String>, key: &str, default: Vec<i32>) -> (r: Result<
    Vec<i32>,
    ConfigError,
>)
    ensures
        match r {
            Ok(v) => ports_of(env.deep_view(), key@, default@) == Ok::<_, ConfigErrorView>(v@),
            Err(e) => ports_of(env.deep_view(), key@, default@) == Err::<Seq<i32>, _>(
                e.deep_view(),
            ),
        },
{
    match optional(env, key) {
        None => Ok(default),
        Some(v) => {
            let entries = list_entries(v.as_str());
            let ghost all = entries.deep_view();
            let mut out: Vec<i32> = Vec::new();
            let mut i: usize = 0;
            assert(all.take(0) =~= Seq::<Seq<char>>::empty());
            while i < entries.len()
                invariant
                    all == entries.deep_view(),
                    all == entries_of(split(v@, ',')),
                    optional_of(env.deep_view(), key@) == Some(v@),
                    i <= entries@.len(),
                    numbers_of(key@, all.take(i as int)) == Ok::<_, ConfigErrorView>(out@),
                decreases entries@.len() - i,
            {
                assert(all.take(i + 1).drop_last() =~= all.take(i as int));
                assert(all.take(i + 1).last() == entries@[i as int]@);
                match text::signed_i32(entries[i].as_str()) {
                    Some(n) => {
                        out.push(n);
                    },
                    None => {
                        proof {
                            lemma_numbers_prefix(key@, all, i + 1);
                        }
                        return Err(error(ErrorKind::InvalidI32Entry, key, entries[i].as_str()));
                    },
                }
                i += 1;
            }
            assert(all.take(i as int) =~= all);
            if out.len() == 0 {
                proof {
                    reveal_strlit("");
                    assert(""@ =~= Seq::<char>::empty());
                }
                Err(error(ErrorKind::EmptyPorts, key, ""))
            } else {
                Ok(out)
            }
        },
    }
}

proof fn lemma_assignments_prefix(key: Seq<char>, entries: Seq<Seq<char>>, i: int)
    requires
        0 <= i <= entries.len(),
        assignments(key, entries.take(i)) is Err,
    ensures
        assignments(key, entries) == assignments(key, entries.take(i)),
    decreases entries.len() - i,
{
    if i < entries.len() {
        assert(entries.take(i + 1).drop_last() =~= entries.take(i));
        lemma_assignments_prefix(key, entries, i + 1);
    } else {
        assert(entries.take(i) =~= entries);
    }
}

fn assign(key: &str, entry: &str) -> (r: Result<(String, String), ConfigError>)
    ensures
        match r {
            Ok(kv) => assignment(key@, entry@) == Ok::<_, ConfigErrorView>((kv.0@, kv.1@)),
            Err(e) => assignment(key@, entry@) == Err::<(Seq<char>, Seq<char>), _>(e.deep_view()),
        },
{
    match text::split_at_first(entry, '=') {
        None => Err(error(ErrorKind::NotKeyValue, key, entry)),
        Some((k, v)) => {
            let name = text::trimmed(k.as_str());
            if name.as_str().is_empty() {
                Err(error(ErrorKind::EmptyAnnotationKey, key, entry))
            } else {
                Ok((name, text::trimmed(v.as_str())))
            }
        },
    }
}

/// Parse a `key=value,key=value,...` list. Empty entries are skipped.
pub fn parse_kv_env(env: &StrMap<String>, key: &str) -> (r: Result<StrMap<String>, ConfigError>)
    ensures
        match r {
            Ok(m) => kv_of(env.deep_view(), key@) == Ok::<_, ConfigErrorView>(m.deep_view()),
            Err(e) => kv_of(env.deep_view(), key@) == Err::<Env, _>(e.deep_view()),
        },
{
    let mut out: StrMap<String> = StrMap::new();
    assert(out.deep_view() =~= Map::<Seq<char>, Seq<char>>::empty());
    match optional(env, key) {
        None => Ok(out),
        Some(v) => {
            let entries = list_entries(v.as_str());
            let ghost all = entries.deep_view();
            let mut i: usize = 0;
            assert(all.take(0) =~= Seq::<Seq<char>>::empty());
            while i < entries.len()
                invariant
                    all == entries.deep_view(),
                    all == entries_of(split(v@, ',')),
                    optional_of(env.deep_view(), key@) == Some(v@),
                    i <= entries@.len(),
                    assignments(key@, all.take(i as int)) == Ok::<_, ConfigErrorView>(
                        out.deep_view(),
                    ),
                decreases entries@.len() - i,
            {
                assert(all.take(i + 1).drop_last() =~= all.take(i as int));
                assert(all.take(i + 1).last() == entries@[i as int]@);
                match assign(key, entries[i].as_str()) {
                    Ok((name, value)) => {
                        proof {
                            lemma_deep_insert(out@, name@, value);
                        }
                        out.insert(name, value);
                    },
                    Err(e) => {
                        proof {
                            lemma_assignments_prefix(key@, all, i + 1);
                        }
                        return Err(e);
                    },
                }
                i += 1;
            }
            assert(all.take(i as int) =~= all);
            Ok(out)
        },
    }
}

} // verus!
