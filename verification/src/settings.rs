//! System settings, query-log retention and cache configuration as stored
//! key/value pairs: reading them back, validating changes, and the writes
//! a change amounts to.

use vstd::prelude::*;
use crate::cache::CacheConfig;
use crate::errors::AppError;
use crate::ip::{decimal, push_decimal};
use crate::json::{json_string_list, json_text_of_strings, parse_string_list, string_list_text};
use crate::message::record_type_named;
use crate::number::{parse_i64, parsed_i64};
use crate::plane_state::strings_view;
use crate::text::{
    chars_of, is_blank, is_blank_text, push_chars, push_str, str_eq, string_of, to_uppercase, uppercase,
};

verus! {

broadcast use vstd::string::group_string_axioms;

/// Key of the disabled record types (a JSON list).
pub const CONFIG_KEY_DISABLED_RECORD_TYPES: &'static str = "disabled_record_types";
/// Key of the alert switch.
pub const CONFIG_KEY_ALERT_ENABLED: &'static str = "alert_enabled";
/// Key of the alert webhook URL.
pub const CONFIG_KEY_ALERT_WEBHOOK_URL: &'static str = "alert_webhook_url";
/// Key of the alert latency threshold.
pub const CONFIG_KEY_ALERT_LATENCY_THRESHOLD: &'static str = "alert_latency_threshold_ms";
/// Key of the automatic log cleanup switch.
pub const CONFIG_KEY_AUTO_CLEANUP: &'static str = "log_auto_cleanup_enabled";
/// Key of the log retention period.
pub const CONFIG_KEY_RETENTION_DAYS: &'static str = "log_retention_days";
/// Key of the cache's default TTL.
pub const CONFIG_KEY_DEFAULT_TTL: &'static str = "cache_default_ttl";
/// Key of the cache's capacity.
pub const CONFIG_KEY_MAX_ENTRIES: &'static str = "cache_max_entries";

/// Latency threshold when none is stored, in milliseconds.
pub const DEFAULT_LATENCY_THRESHOLD_MS: i64 = 200;
/// Retention period when none is stored, in days.
pub const DEFAULT_RETENTION_DAYS: i64 = 30;

/// System-wide settings.
#[derive(Debug)]
pub struct SystemSettings {
    pub disabled_record_types: Vec<String>,
    pub alert_enabled: bool,
    pub alert_webhook_url: Option<String>,
    pub alert_latency_threshold_ms: i64,
}

/// Requested settings changes; `None` leaves a setting unchanged.
#[derive(Debug)]
pub struct SettingsUpdate {
    pub disabled_record_types: Option<Vec<String>>,
    pub alert_enabled: Option<bool>,
    pub alert_webhook_url: Option<String>,
    pub alert_latency_threshold_ms: Option<i64>,
}

impl Default for SettingsUpdate {
    fn default() -> (u: SettingsUpdate)
        ensures
            u.disabled_record_types is None,
            u.alert_enabled is None,
            u.alert_webhook_url is None,
            u.alert_latency_threshold_ms is None,
    {
        SettingsUpdate {
            disabled_record_types: None,
            alert_enabled: None,
            alert_webhook_url: None,
            alert_latency_threshold_ms: None,
        }
    }
}

/// A settings change as the API receives it.
#[derive(Debug)]
pub struct UpdateSettingsRequest {
    pub disabled_record_types: Option<Vec<String>>,
    pub alert_enabled: Option<bool>,
    pub alert_webhook_url: Option<String>,
    pub alert_latency_threshold_ms: Option<i64>,
}

impl UpdateSettingsRequest {
    /// The change it asks for.
    pub fn into_update(self) -> (u: SettingsUpdate)
        ensures
            u.disabled_record_types == self.disabled_record_types,
            u.alert_enabled == self.alert_enabled,
            u.alert_webhook_url == self.alert_webhook_url,
            u.alert_latency_threshold_ms == self.alert_latency_threshold_ms,
    {
        SettingsUpdate {
            disabled_record_types: self.disabled_record_types,
            alert_enabled: self.alert_enabled,
            alert_webhook_url: self.alert_webhook_url,
            alert_latency_threshold_ms: self.alert_latency_threshold_ms,
        }
    }
}

/// Retention configuration for query logs.
#[derive(Debug)]
pub struct RetentionSettings {
    pub auto_cleanup_enabled: bool,
    pub retention_days: i64,
    pub oldest_log_date: Option<String>,
}

/// Service health probe result.
#[derive(Debug)]
pub struct HealthReport {
    pub database: bool,
    pub upstreams: bool,
}

impl HealthReport {
    /// `healthy` when the database and some upstream answer, else `degraded`.
    pub fn status(&self) -> (s: &'static str)
        ensures
            s@ == (if self.database && self.upstreams {
                "healthy"@
            } else {
                "degraded"@
            }),
    {
        if self.database && self.upstreams {
            "healthy"
        } else {
            "degraded"
        }
    }
}

/// A record type name accepted in settings: one of the nine supported
/// types, in any letter case.
pub open spec fn valid_type_name(raw: Seq<char>) -> bool {
    record_type_named(uppercase(raw)) is Some
}

/// The stored form of requested record types: each uppercased, or the
/// first name that is not a supported type.
pub open spec fn normalized_types(types: Seq<Seq<char>>) -> Result<Seq<Seq<char>>, Seq<char>>
    decreases types.len(),
{
    if types.len() == 0 {
        Ok(Seq::empty())
    } else {
        match normalized_types(types.drop_last()) {
            Err(e) => Err(e),
            Ok(v) => if valid_type_name(types.last()) {
                Ok(v.push(uppercase(types.last())))
            } else {
                Err(types.last())
            },
        }
    }
}

/// The message for an unsupported record type name.
pub open spec fn invalid_type_message(raw: Seq<char>) -> Seq<char> {
    "Invalid record type: "@ + raw
}

fn is_supported_type_name(upper: &str) -> (r: bool)
    ensures
        r == (record_type_named(upper@) is Some),
{
    str_eq(upper, "A") || str_eq(upper, "AAAA") || str_eq(upper, "CNAME") || str_eq(upper, "MX")
        || str_eq(upper, "TXT") || str_eq(upper, "PTR") || str_eq(upper, "NS") || str_eq(upper, "SOA")
        || str_eq(upper, "SRV")
}

/// Uppercases requested record types, refusing any that is not supported.
pub fn normalize_record_types(types: &Vec<String>) -> (r: Result<Vec<String>, AppError>)
    ensures
        match normalized_types(strings_view(types@)) {
            Ok(v) => r matches Ok(w) && strings_view(w@) == v,
            Err(raw) => r matches Err(AppError::Validation(m)) && m@ == invalid_type_message(raw),
        },
{
    let mut out: Vec<String> = Vec::new();
    assert(strings_view(types@.subrange(0, 0)) =~= Seq::<Seq<char>>::empty());
    assert(strings_view(out@) =~= Seq::<Seq<char>>::empty());
    let mut i: usize = 0;
    while i < types.len()
        invariant
            0 <= i <= types@.len(),
            normalized_types(strings_view(types@.subrange(0, i as int))) == Ok::<
                Seq<Seq<char>>,
                Seq<char>,
            >(strings_view(out@)),
        decreases types@.len() - i,
    {
        proof {
            assert(strings_view(types@.subrange(0, i + 1)).drop_last() =~= strings_view(
                types@.subrange(0, i as int),
            ));
            assert(strings_view(types@.subrange(0, i + 1)).last() == types@[i as int]@);
            assert(strings_view(types@).subrange(0, i + 1) =~= strings_view(
                types@.subrange(0, i + 1),
            ));
        }
        let ghost before = strings_view(out@);
        let upper: String = to_uppercase(types[i].as_str());
        if !is_supported_type_name(upper.as_str()) {
            proof {
                lemma_normalized_error_persists(strings_view(types@), (i + 1) as int);
            }
            let mut v: Vec<char> = Vec::new();
            push_str(&mut v, "Invalid record type: ");
            push_chars(&mut v, &chars_of(types[i].as_str()));
            return Err(AppError::Validation(string_of(&v)));
        }
        out.push(upper);
        proof {
            assert(strings_view(out@) =~= before.push(uppercase(types@[i as int]@)));
        }
        i = i + 1;
    }
    assert(types@.subrange(0, types@.len() as int) =~= types@);
    Ok(out)
}

/// Once a prefix of the names holds an unsupported one, so do all the
/// names, and the first such name is reported.
proof fn lemma_normalized_error_persists(types: Seq<Seq<char>>, k: int)
    requires
        0 <= k <= types.len(),
        normalized_types(types.subrange(0, k)) is Err,
    ensures
        normalized_types(types) == normalized_types(types.subrange(0, k)),
    decreases types.len() - k,
{
    if k < types.len() {
        assert(types.subrange(0, k + 1).drop_last() =~= types.subrange(0, k));
        lemma_normalized_error_persists(types, k + 1);
    } else {
        assert(types.subrange(0, k) =~= types);
    }
}

fn config_error(key: &str, detail: &str) -> (e: AppError)
    ensures
        e matches AppError::Config(m) && m@ == "Invalid "@ + key@ + ": "@ + detail@,
{
    let mut v: Vec<char> = Vec::new();
    push_str(&mut v, "Invalid ");
    push_str(&mut v, key);
    push_str(&mut v, ": ");
    push_chars(&mut v, &chars_of(detail));
    AppError::Config(string_of(&v))
}

/// An optional text, by view.
pub open spec fn opt_text(o: Option<String>) -> Option<Seq<char>> {
    match o {
        Some(s) => Some(s@),
        None => None,
    }
}

/// Reads the stored settings. A malformed disabled-type list or latency
/// threshold is an error naming the key, not a silent default; missing
/// values take their defaults.
pub fn settings_from_stored(
    disabled_raw: Option<String>,
    alert_enabled_raw: Option<String>,
    webhook_url: Option<String>,
    threshold_raw: Option<String>,
) -> (r: Result<SystemSettings, AppError>)
    ensures
        match disabled_raw {
            Some(raw) => json_string_list(raw@) matches Err(e) ==> (r matches Err(
                AppError::Config(m),
            ) && m@ == "Invalid "@ + "disabled_record_types"@ + ": "@ + e),
            None => true,
        },
        !(disabled_raw matches Some(raw) && json_string_list(raw@) is Err) ==> match threshold_raw {
            Some(t) => match parsed_i64(t@) {
                Some(n) => r matches Ok(s) && s.alert_latency_threshold_ms == n,
                None => r matches Err(AppError::Config(m)) && m@ == "Invalid "@
                    + "alert_latency_threshold_ms"@ + ": "@ + t@,
            },
            None => r matches Ok(s) && s.alert_latency_threshold_ms == DEFAULT_LATENCY_THRESHOLD_MS,
        },
        r matches Ok(s) ==> {
            &&& strings_view(s.disabled_record_types@) == match disabled_raw {
                Some(raw) => json_string_list(raw@)->Ok_0,
                None => Seq::<Seq<char>>::empty(),
            }
            &&& s.alert_enabled == (opt_text(alert_enabled_raw) == Some("true"@))
            &&& s.alert_webhook_url == webhook_url
        },
{
    proof {
        reveal_strlit("disabled_record_types");
        reveal_strlit("alert_latency_threshold_ms");
    }
    let disabled_record_types: Vec<String> = match &disabled_raw {
        Some(raw) => match parse_string_list(raw.as_str()) {
            Ok(v) => v,
            Err(e) => {
                return Err(config_error(CONFIG_KEY_DISABLED_RECORD_TYPES, e.as_str()));
            },
        },
        None => {
            let v: Vec<String> = Vec::new();
            assert(strings_view(v@) =~= Seq::<Seq<char>>::empty());
            v
        },
    };
    let alert_latency_threshold_ms: i64 = match &threshold_raw {
        Some(t) => match parse_i64(t.as_str()) {
            Some(n) => n,
            None => {
                return Err(config_error(CONFIG_KEY_ALERT_LATENCY_THRESHOLD, t.as_str()));
            },
        },
        None => DEFAULT_LATENCY_THRESHOLD_MS,
    };
    let alert_enabled: bool = match &alert_enabled_raw {
        Some(a) => str_eq(a.as_str(), "true"),
        None => false,
    };
    proof {
        reveal_strlit("true");
    }
    Ok(SystemSettings {
        disabled_record_types,
        alert_enabled,
        alert_webhook_url: webhook_url,
        alert_latency_threshold_ms,
    })
}

/// A stored key and value.
pub open spec fn pair_view(p: (String, String)) -> (Seq<char>, Seq<char>) {
    (p.0@, p.1@)
}

/// The writes of a change, by views.
pub open spec fn writes_view(w: Seq<(String, String)>) -> Seq<(Seq<char>, Seq<char>)> {
    w.map_values(|p: (String, String)| pair_view(p))
}

/// The stored text of a flag.
pub open spec fn flag_text(b: bool) -> Seq<char> {
    if b {
        "true"@
    } else {
        "false"@
    }
}

fn flag_string(b: bool) -> (s: String)
    ensures
        s@ == flag_text(b),
{
    if b {
        string_of(&chars_of("true"))
    } else {
        string_of(&chars_of("false"))
    }
}

fn key_value(key: &str, value: String) -> (p: (String, String))
    ensures
        pair_view(p) == (key@, value@),
{
    (string_of(&chars_of(key)), value)
}

/// The decimal text of a positive number.
fn positive_text(n: i64) -> (s: String)
    requires
        n > 0,
    ensures
        s@ == decimal(n as nat),
{
    let mut v: Vec<char> = Vec::new();
    push_decimal(&mut v, n as u64);
    assert(v@ =~= decimal(n as nat));
    string_of(&v)
}

/// The stored writes a settings change amounts to, in order.
pub open spec fn settings_writes(
    disabled: Option<Seq<Seq<char>>>,
    alert_enabled: Option<bool>,
    webhook: Option<Seq<char>>,
    threshold: Option<i64>,
) -> Seq<(Seq<char>, Seq<char>)> {
    let a = match disabled {
        Some(n) => seq![("disabled_record_types"@, json_text_of_strings(n))],
        None => Seq::empty(),
    };
    let b = match alert_enabled {
        Some(e) => seq![("alert_enabled"@, flag_text(e))],
        None => Seq::empty(),
    };
    let c = match webhook {
        Some(u) => seq![("alert_webhook_url"@, u)],
        None => Seq::empty(),
    };
    let d = match threshold {
        Some(t) => if t > 0 {
            seq![("alert_latency_threshold_ms"@, decimal(t as nat))]
        } else {
            Seq::empty()
        },
        None => Seq::empty(),
    };
    a + b + c + d
}

/// A settings change as stored writes: what to write, in order, whether
/// the disabled-type mask must be reloaded after the first write, and the
/// error to report once the writes are done, if any.
#[derive(Debug)]
pub struct SettingsPlan {
    pub writes: Vec<(String, String)>,
    pub reload_disabled_types: bool,
    pub error: Option<AppError>,
}

/// Plans a settings change. Unsupported record types refuse the whole
/// change before anything is written; a latency threshold that is not
/// positive is refused after the other writes, as it is checked last.
pub fn plan_settings_update(update: &SettingsUpdate) -> (r: Result<SettingsPlan, AppError>)
    ensures
        match update.disabled_record_types {
            Some(types) => normalized_types(strings_view(types@)) matches Err(raw) ==> (r matches Err(
                AppError::Validation(m),
            ) && m@ == invalid_type_message(raw)),
            None => true,
        },
        r matches Ok(plan) ==> {
            let disabled = match update.disabled_record_types {
                Some(types) => Some(normalized_types(strings_view(types@))->Ok_0),
                None => None,
            };
            &&& !(update.disabled_record_types matches Some(types) && normalized_types(
                strings_view(types@),
            ) is Err)
            &&& writes_view(plan.writes@) == settings_writes(
                disabled,
                update.alert_enabled,
                opt_text(update.alert_webhook_url),
                update.alert_latency_threshold_ms,
            )
            &&& plan.reload_disabled_types == update.disabled_record_types is Some
            &&& match update.alert_latency_threshold_ms {
                Some(t) => t <= 0 ==> (plan.error matches Some(AppError::Validation(m)) && m@
                    == "Latency threshold must be greater than 0"@),
                None => true,
            }
            &&& (update.alert_latency_threshold_ms matches Some(t) && t <= 0) || plan.error is None
        },
        !(update.disabled_record_types matches Some(types) && normalized_types(
            strings_view(types@),
        ) is Err) ==> r is Ok,
{
    proof {
        reveal_strlit("disabled_record_types");
        reveal_strlit("alert_enabled");
        reveal_strlit("alert_webhook_url");
        reveal_strlit("alert_latency_threshold_ms");
    }
    let mut writes: Vec<(String, String)> = Vec::new();
    let ghost disabled: Option<Seq<Seq<char>>> = None;
    let mut reload: bool = false;
    match &update.disabled_record_types {
        Some(types) => {
            let normalized: Vec<String> = match normalize_record_types(types) {
                Ok(n) => n,
                Err(e) => {
                    return Err(e);
                },
            };
            writes.push(key_value(CONFIG_KEY_DISABLED_RECORD_TYPES, string_list_text(&normalized)));
            reload = true;
            proof {
                disabled = Some(strings_view(normalized@));
            }
        },
        None => {},
    }
    let ghost w1 = writes_view(writes@);
    match update.alert_enabled {
        Some(e) => {
            writes.push(key_value(CONFIG_KEY_ALERT_ENABLED, flag_string(e)));
        },
        None => {},
    }
    let ghost w2 = writes_view(writes@);
    match &update.alert_webhook_url {
        Some(u) => {
            writes.push(key_value(CONFIG_KEY_ALERT_WEBHOOK_URL, u.clone()));
        },
        None => {},
    }
    let ghost w3 = writes_view(writes@);
    let mut error: Option<AppError> = None;
    match update.alert_latency_threshold_ms {
        Some(t) => {
            if t <= 0 {
                error = Some(
                    AppError::Validation(
                        string_of(&chars_of("Latency threshold must be greater than 0")),
                    ),
                );
            } else {
                writes.push(key_value(CONFIG_KEY_ALERT_LATENCY_THRESHOLD, positive_text(t)));
            }
        },
        None => {},
    }
    proof {
        let a = match disabled {
            Some(n) => seq![("disabled_record_types"@, json_text_of_strings(n))],
            None => Seq::<(Seq<char>, Seq<char>)>::empty(),
        };
        assert(w1 =~= a);
        assert(writes_view(writes@) =~= settings_writes(
            disabled,
            update.alert_enabled,
            opt_text(update.alert_webhook_url),
            update.alert_latency_threshold_ms,
        ));
    }
    Ok(SettingsPlan { writes, reload_disabled_types: reload, error })
}

/// Reads the stored retention settings. A malformed retention period is
/// an error naming the key; a missing one is 30 days.
pub fn retention_from_stored(
    auto_cleanup_raw: Option<String>,
    retention_days_raw: Option<String>,
    oldest_log_date: Option<String>,
) -> (r: Result<RetentionSettings, AppError>)
    ensures
        match retention_days_raw {
            Some(d) => match parsed_i64(d@) {
                Some(n) => r matches Ok(s) && s.retention_days == n,
                None => r matches Err(AppError::Config(m)) && m@ == "Invalid "@
                    + "log_retention_days"@ + ": "@ + d@,
            },
            None => r matches Ok(s) && s.retention_days == DEFAULT_RETENTION_DAYS,
        },
        r matches Ok(s) ==> {
            &&& s.auto_cleanup_enabled == (opt_text(auto_cleanup_raw) == Some("true"@))
            &&& s.oldest_log_date == oldest_log_date
        },
{
    proof {
        reveal_strlit("log_retention_days");
        reveal_strlit("true");
    }
    let retention_days: i64 = match &retention_days_raw {
        Some(d) => match parse_i64(d.as_str()) {
            Some(n) => n,
            None => {
                return Err(config_error(CONFIG_KEY_RETENTION_DAYS, d.as_str()));
            },
        },
        None => DEFAULT_RETENTION_DAYS,
    };
    let auto_cleanup_enabled: bool = match &auto_cleanup_raw {
        Some(a) => str_eq(a.as_str(), "true"),
        None => false,
    };
    Ok(RetentionSettings { auto_cleanup_enabled, retention_days, oldest_log_date })
}

/// The stored writes of a retention change, in order.
pub open spec fn retention_writes(auto_cleanup: Option<bool>, days: Option<i64>) -> Seq<
    (Seq<char>, Seq<char>),
> {
    let a = match auto_cleanup {
        Some(e) => seq![("log_auto_cleanup_enabled"@, flag_text(e))],
        None => Seq::empty(),
    };
    let b = match days {
        Some(d) => seq![("log_retention_days"@, decimal(d as nat))],
        None => Seq::empty(),
    };
    a + b
}

/// Plans a retention change: a period that is not positive is refused
/// before anything is written; otherwise the writes, in order.
pub fn plan_retention_update(auto_cleanup_enabled: Option<bool>, retention_days: Option<i64>) -> (r:
    Result<Vec<(String, String)>, AppError>)
    ensures
        match retention_days {
            Some(d) => d <= 0 ==> (r matches Err(AppError::Validation(m)) && m@
                == "Retention days must be greater than 0"@),
            None => true,
        },
        !(retention_days matches Some(d) && d <= 0) ==> (r matches Ok(w) && writes_view(w@)
            == retention_writes(auto_cleanup_enabled, retention_days)),
{
    proof {
        reveal_strlit("log_auto_cleanup_enabled");
        reveal_strlit("log_retention_days");
    }
    match retention_days {
        Some(d) => {
            if d <= 0 {
                return Err(
                    AppError::Validation(string_of(&chars_of("Retention days must be greater than 0"))),
                );
            }
        },
        None => {},
    }
    let mut writes: Vec<(String, String)> = Vec::new();
    match auto_cleanup_enabled {
        Some(e) => {
            writes.push(key_value(CONFIG_KEY_AUTO_CLEANUP, flag_string(e)));
        },
        None => {},
    }
    let ghost w1 = writes_view(writes@);
    match retention_days {
        Some(d) => {
            writes.push(key_value(CONFIG_KEY_RETENTION_DAYS, positive_text(d)));
        },
        None => {},
    }
    proof {
        let a = match auto_cleanup_enabled {
            Some(e) => seq![("log_auto_cleanup_enabled"@, flag_text(e))],
            None => Seq::<(Seq<char>, Seq<char>)>::empty(),
        };
        assert(w1 =~= a);
        assert(writes_view(writes@) =~= retention_writes(auto_cleanup_enabled, retention_days));
    }
    Ok(writes)
}

/// A cleanup of logs older than a number of days: a negative number is
/// refused.
pub fn check_cleanup_days(retention_days: i64) -> (r: Result<(), AppError>)
    ensures
        retention_days < 0 ==> (r matches Err(AppError::Validation(m)) && m@
            == "Retention days cannot be negative"@),
        retention_days >= 0 ==> r is Ok,
{
    if retention_days < 0 {
        Err(AppError::Validation(string_of(&chars_of("Retention days cannot be negative"))))
    } else {
        Ok(())
    }
}

/// A cleanup of logs before a date: a blank date is refused.
pub fn check_cleanup_date(before_date: &str) -> (r: Result<(), AppError>)
    ensures
        is_blank_text(before_date@) ==> (r matches Err(AppError::Validation(m)) && m@
            == "Date cannot be empty"@),
        !is_blank_text(before_date@) ==> r is Ok,
{
    if is_blank(before_date) {
        Err(AppError::Validation(string_of(&chars_of("Date cannot be empty"))))
    } else {
        Ok(())
    }
}

/// Clearing one domain from the cache: a blank domain is refused.
pub fn check_cache_domain(domain: &str) -> (r: Result<(), AppError>)
    ensures
        is_blank_text(domain@) ==> (r matches Err(AppError::Validation(m)) && m@
            == "Domain cannot be empty"@),
        !is_blank_text(domain@) ==> r is Ok,
{
    if is_blank(domain) {
        Err(AppError::Validation(string_of(&chars_of("Domain cannot be empty"))))
    } else {
        Ok(())
    }
}

/// The cache configuration after a change: each given value replaces the
/// current one.
pub fn merged_cache_config(current: CacheConfig, default_ttl: Option<u64>, max_entries: Option<usize>) -> (c:
    CacheConfig)
    ensures
        c.default_ttl == match default_ttl {
            Some(t) => t,
            None => current.default_ttl,
        },
        c.max_entries == match max_entries {
            Some(m) => m,
            None => current.max_entries,
        },
{
    let mut config = current;
    match default_ttl {
        Some(t) => {
            config.default_ttl = t;
        },
        None => {},
    }
    match max_entries {
        Some(m) => {
            config.max_entries = m;
        },
        None => {},
    }
    config
}

/// The stored writes of a cache configuration: its TTL, then its capacity.
pub fn cache_config_writes(config: CacheConfig) -> (w: Vec<(String, String)>)
    ensures
        writes_view(w@) == seq![
            ("cache_default_ttl"@, decimal(config.default_ttl as nat)),
            ("cache_max_entries"@, decimal(config.max_entries as nat)),
        ],
{
    proof {
        reveal_strlit("cache_default_ttl");
        reveal_strlit("cache_max_entries");
    }
    let mut ttl: Vec<char> = Vec::new();
    push_decimal(&mut ttl, config.default_ttl);
    let mut max: Vec<char> = Vec::new();
    push_decimal(&mut max, config.max_entries as u64);
    assert(ttl@ =~= decimal(config.default_ttl as nat));
    assert(max@ =~= decimal(config.max_entries as nat));
    let mut w: Vec<(String, String)> = Vec::new();
    w.push(key_value(CONFIG_KEY_DEFAULT_TTL, string_of(&ttl)));
    w.push(key_value(CONFIG_KEY_MAX_ENTRIES, string_of(&max)));
    assert(writes_view(w@) =~= seq![
        ("cache_default_ttl"@, decimal(config.default_ttl as nat)),
        ("cache_max_entries"@, decimal(config.max_entries as nat)),
    ]);
    w
}

} // verus!
