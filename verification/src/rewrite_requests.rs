//! Requests that create, change or batch-create rewrite rules: what makes
//! them valid, the field-by-field errors reported otherwise, and the
//! stored forms they turn into.

use vstd::prelude::*;
use crate::ip::{parse_ip, parsed_ip, push_signed_decimal, signed_decimal};
use crate::plane_state::strings_view;
use crate::models::{CreateRewriteRule, RewriteRuleRow, UpdateRewriteRule, pick, pick_opt};
use crate::rewrite::{regex_compiles, regex_is_valid};
use crate::text::{
    chars_of, contains_char, lowercase, push_chars, push_str, str_eq, string_of, to_lowercase,
    trim_chars, trimmed, utf8_len, utf8_len_exceeds,
};

verus! {

broadcast use vstd::string::group_string_axioms;

/// One invalid field and why.
#[derive(Debug)]
pub struct ValidationError {
    pub field: String,
    pub message: String,
}

/// Every invalid field of a request.
#[derive(Debug)]
pub struct ValidationErrors {
    pub errors: Vec<ValidationError>,
}

/// The errors of a request, by views.
pub open spec fn errors_view(errors: Seq<ValidationError>) -> Seq<(Seq<char>, Seq<char>)> {
    errors.map_values(|e: ValidationError| (e.field@, e.message@))
}

/// An error for `field`.
pub fn field_error(field: &str, message: String) -> (e: ValidationError)
    ensures
        e.field@ == field@,
        e.message == message,
{
    ValidationError { field: string_of(&chars_of(field)), message }
}

/// Whether a match type is one of `exact`, `wildcard`, `regex`, in any
/// letter case.
pub open spec fn valid_match_type(t: Seq<char>) -> bool {
    let l = lowercase(t);
    l == "exact"@ || l == "wildcard"@ || l == "regex"@
}

/// The message for an unknown match type.
pub open spec fn match_type_message() -> Seq<char> {
    "Invalid match type. Must be one of: exact, wildcard, regex"@
}

fn text(s: &str) -> (r: String)
    ensures
        r@ == s@,
{
    string_of(&chars_of(s))
}

/// Checks a match type.
pub fn validate_match_type(match_type: &str) -> (r: Result<(), String>)
    ensures
        valid_match_type(match_type@) ==> r is Ok,
        !valid_match_type(match_type@) ==> (r matches Err(m) && m@ == match_type_message()),
{
    let lower: String = to_lowercase(match_type);
    let l: &str = lower.as_str();
    if str_eq(l, "exact") || str_eq(l, "wildcard") || str_eq(l, "regex") {
        Ok(())
    } else {
        Err(text("Invalid match type. Must be one of: exact, wildcard, regex"))
    }
}

/// A character allowed in an exact pattern: an ASCII letter or digit,
/// `-`, `.` or `_`.
pub open spec fn exact_pattern_char(c: char) -> bool {
    ('a' <= c && c <= 'z') || ('A' <= c && c <= 'Z') || ('0' <= c && c <= '9') || c == '-' || c
        == '.' || c == '_'
}

/// What is wrong with a pattern for a match type, if anything: it must
/// not be empty nor longer than 255 bytes; a regex must compile, a
/// wildcard must hold a `*`, an exact pattern only domain characters.
pub open spec fn pattern_problem(pattern: Seq<char>, match_type: Seq<char>) -> Option<Seq<char>> {
    let l = lowercase(match_type);
    if pattern.len() == 0 {
        Some("Pattern cannot be empty"@)
    } else if utf8_len(pattern) > 255 {
        Some("Pattern cannot exceed 255 characters"@)
    } else if l == "regex"@ {
        if regex_compiles(pattern) {
            None
        } else {
            Some("Invalid regular expression pattern"@)
        }
    } else if l == "wildcard"@ {
        if pattern.contains('*') {
            None
        } else {
            Some("Wildcard pattern must contain at least one '*'"@)
        }
    } else if l == "exact"@ {
        if forall|i: int| 0 <= i < pattern.len() ==> exact_pattern_char(#[trigger] pattern[i]) {
            None
        } else {
            Some("Exact pattern contains invalid characters"@)
        }
    } else {
        None
    }
}

/// An exact pattern of ASCII letters, digits, `-`, `.` and `_`, neither
/// empty nor longer than 255 bytes, is accepted; one holding any other
/// character is refused as holding invalid characters.
pub proof fn law_exact_pattern_accepts_domain_characters(pattern: Seq<char>)
    requires
        pattern.len() > 0,
        crate::text::utf8_len(pattern) <= 255,
    ensures
        (forall|i: int|
            0 <= i < pattern.len() ==> ('a' <= #[trigger] pattern[i] && pattern[i] <= 'z') || ('A' <= pattern[i]
                && pattern[i] <= 'Z') || ('0' <= pattern[i] && pattern[i] <= '9') || pattern[i] == '-'
                || pattern[i] == '.' || pattern[i] == '_') <==> pattern_problem(pattern, "exact"@) is None,
        pattern_problem(pattern, "exact"@) is Some ==> pattern_problem(pattern, "exact"@)
            == Some("Exact pattern contains invalid characters"@),
{
    reveal_strlit("exact");
    reveal_strlit("regex");
    reveal_strlit("wildcard");
    let e = "exact"@;
    assert forall|i: int| 0 <= i < e.len() implies (#[trigger] e[i] as u32) < 128 by {}
    assert(crate::text::ascii_lower(e) =~= e);
    assert(e[0] != "regex"@[0]);
    assert(e != "regex"@);
    assert(e != "wildcard"@);
}

/// Checks a pattern against its match type.
pub fn validate_pattern(pattern: &str, match_type: &str) -> (r: Result<(), String>)
    ensures
        match pattern_problem(pattern@, match_type@) {
            Some(m) => r matches Err(e) && e@ == m,
            None => r is Ok,
        },
{
    let cs: Vec<char> = chars_of(pattern);
    if cs.len() == 0 {
        return Err(text("Pattern cannot be empty"));
    }
    if utf8_len_exceeds(&cs, 255) {
        return Err(text("Pattern cannot exceed 255 characters"));
    }
    let lower: String = to_lowercase(match_type);
    let l: &str = lower.as_str();
    if str_eq(l, "regex") {
        if !regex_is_valid(pattern) {
            return Err(text("Invalid regular expression pattern"));
        }
    } else if str_eq(l, "wildcard") {
        if !contains_char(&cs, '*') {
            return Err(text("Wildcard pattern must contain at least one '*'"));
        }
    } else if str_eq(l, "exact") {
        let mut i: usize = 0;
        while i < cs.len()
            invariant
                0 <= i <= cs@.len(),
                cs@ == pattern@,
                cs@.len() > 0,
                utf8_len(pattern@) <= 255,
                lowercase(match_type@) == "exact"@,
                lowercase(match_type@) != "regex"@,
                lowercase(match_type@) != "wildcard"@,
                forall|j: int| 0 <= j < i ==> exact_pattern_char(#[trigger] cs@[j]),
            decreases cs@.len() - i,
        {
            let c: char = cs[i];
            if !(('a' <= c && c <= 'z') || ('A' <= c && c <= 'Z') || ('0' <= c && c <= '9') || c
                == '-' || c == '.' || c == '_') {
                assert(!exact_pattern_char(pattern@[i as int]));
                return Err(text("Exact pattern contains invalid characters"));
            }
            i = i + 1;
        }
    }
    Ok(())
}

/// What is wrong with an action type and value, if anything: the type
/// must be `map_ip`, `map_domain` or `block` (any letter case); `map_ip`
/// needs an IP address and `map_domain` a non-empty domain.
pub open spec fn action_problem(action_type: Seq<char>, value: Option<Seq<char>>) -> Option<Seq<char>> {
    let l = lowercase(action_type);
    if !(l == "map_ip"@ || l == "map_domain"@ || l == "block"@) {
        Some("Invalid action type. Must be one of: map_ip, map_domain, block"@)
    } else if l == "map_ip"@ {
        match value {
            None => Some("action_value is required for map_ip action"@),
            Some(v) => if parsed_ip(v) is Some {
                None
            } else {
                Some("Invalid IP address for map_ip action"@)
            },
        }
    } else if l == "map_domain"@ {
        match value {
            None => Some("action_value is required for map_domain action"@),
            Some(v) => if v.len() == 0 {
                Some("action_value cannot be empty for map_domain action"@)
            } else {
                None
            },
        }
    } else {
        None
    }
}

/// An optional string, by view.
pub open spec fn opt_view(o: Option<String>) -> Option<Seq<char>> {
    match o {
        Some(s) => Some(s@),
        None => None,
    }
}

/// Checks an action type and value.
pub fn validate_action(action_type: &str, action_value: &Option<String>) -> (r: Result<(), String>)
    ensures
        match action_problem(action_type@, opt_view(*action_value)) {
            Some(m) => r matches Err(e) && e@ == m,
            None => r is Ok,
        },
{
    let lower: String = to_lowercase(action_type);
    let l: &str = lower.as_str();
    if !(str_eq(l, "map_ip") || str_eq(l, "map_domain") || str_eq(l, "block")) {
        return Err(text("Invalid action type. Must be one of: map_ip, map_domain, block"));
    }
    if str_eq(l, "map_ip") {
        match action_value {
            None => {
                return Err(text("action_value is required for map_ip action"));
            },
            Some(v) => {
                if parse_ip(v.as_str()).is_none() {
                    return Err(text("Invalid IP address for map_ip action"));
                }
            },
        }
    } else if str_eq(l, "map_domain") {
        match action_value {
            None => {
                return Err(text("action_value is required for map_domain action"));
            },
            Some(v) => {
                if v.as_str().is_empty() {
                    return Err(text("action_value cannot be empty for map_domain action"));
                }
            },
        }
    }
    Ok(())
}

/// A request to create a rewrite rule.
#[derive(Debug)]
pub struct CreateRewriteRuleRequest {
    pub pattern: String,
    pub match_type: String,
    pub action_type: String,
    pub action_value: Option<String>,
    pub priority: i32,
    pub enabled: bool,
    pub description: Option<String>,
}

/// A request to change a rewrite rule; `None` keeps the stored value.
#[derive(Debug)]
pub struct UpdateRewriteRuleRequest {
    pub pattern: Option<String>,
    pub match_type: Option<String>,
    pub action_type: Option<String>,
    pub action_value: Option<String>,
    pub priority: Option<i32>,
    pub enabled: Option<bool>,
    pub description: Option<String>,
}

/// The errors of a create request, field by field: an unknown match type;
/// the pattern's problem under a known match type (or, under an unknown
/// one, an empty pattern); the action's problem.
pub open spec fn create_request_errors(
    pattern: Seq<char>,
    match_type: Seq<char>,
    action_type: Seq<char>,
    action_value: Option<Seq<char>>,
) -> Seq<(Seq<char>, Seq<char>)> {
    let a = if valid_match_type(match_type) {
        Seq::empty()
    } else {
        seq![("match_type"@, match_type_message())]
    };
    let b = if valid_match_type(match_type) {
        match pattern_problem(pattern, match_type) {
            Some(m) => seq![("pattern"@, m)],
            None => Seq::empty(),
        }
    } else if pattern.len() == 0 {
        seq![("pattern"@, "Pattern cannot be empty"@)]
    } else {
        Seq::empty()
    };
    let c = match action_problem(action_type, action_value) {
        Some(m) => seq![("action_type"@, m)],
        None => Seq::empty(),
    };
    a + b + c
}

/// Valid when there is no error; otherwise every error.
pub open spec fn validation_outcome(r: Result<(), ValidationErrors>, errors: Seq<(Seq<char>, Seq<char>)>) -> bool {
    if errors.len() == 0 {
        r is Ok
    } else {
        r matches Err(v) && errors_view(v.errors@) == errors
    }
}

fn finish(errors: Vec<ValidationError>) -> (r: Result<(), ValidationErrors>)
    ensures
        validation_outcome(r, errors_view(errors@)),
{
    if errors.len() == 0 {
        Ok(())
    } else {
        Err(ValidationErrors { errors })
    }
}

impl CreateRewriteRuleRequest {
    /// Checks the request, reporting every invalid field.
    pub fn validate(&self) -> (r: Result<(), ValidationErrors>)
        ensures
            validation_outcome(
                r,
                create_request_errors(
                    self.pattern@,
                    self.match_type@,
                    self.action_type@,
                    opt_view(self.action_value),
                ),
            ),
    {
        let mut errors: Vec<ValidationError> = Vec::new();
        let type_ok: bool = validate_match_type(self.match_type.as_str()).is_ok();
        if !type_ok {
            errors.push(
                field_error(
                    "match_type",
                    text("Invalid match type. Must be one of: exact, wildcard, regex"),
                ),
            );
        }
        let ghost e1 = errors_view(errors@);
        if type_ok {
            match validate_pattern(self.pattern.as_str(), self.match_type.as_str()) {
                Err(e) => errors.push(field_error("pattern", e)),
                Ok(()) => {},
            }
        } else if self.pattern.as_str().is_empty() {
            errors.push(field_error("pattern", text("Pattern cannot be empty")));
        }
        let ghost e2 = errors_view(errors@);
        match validate_action(self.action_type.as_str(), &self.action_value) {
            Err(e) => errors.push(field_error("action_type", e)),
            Ok(()) => {},
        }
        proof {
            let a = if valid_match_type(self.match_type@) {
                Seq::<(Seq<char>, Seq<char>)>::empty()
            } else {
                seq![("match_type"@, match_type_message())]
            };
            assert(e1 =~= a);
            assert(errors_view(errors@) =~= create_request_errors(
                self.pattern@,
                self.match_type@,
                self.action_type@,
                opt_view(self.action_value),
            ));
        }
        finish(errors)
    }

    /// The rule to store, with the match and action types lowercased.
    pub fn into_create_rewrite_rule(self) -> (r: CreateRewriteRule)
        ensures
            r.pattern == self.pattern,
            r.match_type@ == lowercase(self.match_type@),
            r.action_type@ == lowercase(self.action_type@),
            r.action_value == self.action_value,
            r.priority == self.priority,
            r.enabled == self.enabled,
            r.description == self.description,
    {
        CreateRewriteRule {
            match_type: to_lowercase(self.match_type.as_str()),
            action_type: to_lowercase(self.action_type.as_str()),
            pattern: self.pattern,
            action_value: self.action_value,
            priority: self.priority,
            enabled: self.enabled,
            description: self.description,
        }
    }
}

/// The errors of an update request against the stored rule: a given
/// match type that is unknown; a given pattern's problem under the match
/// type in force (when that is known); the problem of the action in force
/// when a type or value is given.
pub open spec fn update_request_errors(req: UpdateRewriteRuleRequest, existing: RewriteRuleRow) -> Seq<
    (Seq<char>, Seq<char>),
> {
    let a = match req.match_type {
        Some(mt) => if valid_match_type(mt@) {
            Seq::empty()
        } else {
            seq![("match_type"@, match_type_message())]
        },
        None => Seq::empty(),
    };
    let mt = pick(req.match_type, existing.match_type)@;
    let b = match req.pattern {
        Some(p) => if valid_match_type(mt) {
            match pattern_problem(p@, mt) {
                Some(m) => seq![("pattern"@, m)],
                None => Seq::empty(),
            }
        } else {
            Seq::empty()
        },
        None => Seq::empty(),
    };
    let c = if req.action_type is Some || req.action_value is Some {
        match action_problem(
            pick(req.action_type, existing.action_type)@,
            opt_view(pick_opt(req.action_value, existing.action_value)),
        ) {
            Some(m) => seq![("action_type"@, m)],
            None => Seq::empty(),
        }
    } else {
        Seq::empty()
    };
    a + b + c
}

impl UpdateRewriteRuleRequest {
    /// Checks the request against the stored rule, reporting every invalid
    /// field.
    pub fn validate(&self, existing: &RewriteRuleRow) -> (r: Result<(), ValidationErrors>)
        ensures
            validation_outcome(r, update_request_errors(*self, *existing)),
    {
        let mut errors: Vec<ValidationError> = Vec::new();
        match &self.match_type {
            Some(mt) => match validate_match_type(mt.as_str()) {
                Err(e) => errors.push(field_error("match_type", e)),
                Ok(()) => {},
            },
            None => {},
        }
        let ghost e1 = errors_view(errors@);
        match &self.pattern {
            Some(p) => {
                let mt: &str = match &self.match_type {
                    Some(m) => m.as_str(),
                    None => existing.match_type.as_str(),
                };
                if validate_match_type(mt).is_ok() {
                    match validate_pattern(p.as_str(), mt) {
                        Err(e) => errors.push(field_error("pattern", e)),
                        Ok(()) => {},
                    }
                }
            },
            None => {},
        }
        let ghost e2 = errors_view(errors@);
        if self.action_type.is_some() || self.action_value.is_some() {
            let at: &str = match &self.action_type {
                Some(a) => a.as_str(),
                None => existing.action_type.as_str(),
            };
            let av: &Option<String> = if self.action_value.is_some() {
                &self.action_value
            } else {
                &existing.action_value
            };
            match validate_action(at, av) {
                Err(e) => errors.push(field_error("action_type", e)),
                Ok(()) => {},
            }
        }
        proof {
            let a = match &self.match_type {
                Some(mt) => if valid_match_type(mt@) {
                    Seq::<(Seq<char>, Seq<char>)>::empty()
                } else {
                    seq![("match_type"@, match_type_message())]
                },
                None => Seq::<(Seq<char>, Seq<char>)>::empty(),
            };
            assert(e1 =~= a);
            assert(errors_view(errors@) =~= update_request_errors(*self, *existing));
        }
        finish(errors)
    }

    /// The changes to store, with given match and action types lowercased.
    pub fn into_update_rewrite_rule(self) -> (r: UpdateRewriteRule)
        ensures
            r.pattern == self.pattern,
            opt_view(r.match_type) == match self.match_type {
                Some(t) => Some(lowercase(t@)),
                None => None,
            },
            opt_view(r.action_type) == match self.action_type {
                Some(t) => Some(lowercase(t@)),
                None => None,
            },
            r.action_value == self.action_value,
            r.priority == self.priority,
            r.enabled == self.enabled,
            r.description == self.description,
    {
        UpdateRewriteRule {
            match_type: match &self.match_type {
                Some(t) => Some(to_lowercase(t.as_str())),
                None => None,
            },
            action_type: match &self.action_type {
                Some(t) => Some(to_lowercase(t.as_str())),
                None => None,
            },
            pattern: self.pattern,
            action_value: self.action_value,
            priority: self.priority,
            enabled: self.enabled,
            description: self.description,
        }
    }
}

/// The match type of a batch that names none.
pub fn default_match_type() -> (s: String)
    ensures
        s@ == "exact"@,
{
    text("exact")
}

/// The action type of a batch that names none.
pub fn default_action_type() -> (s: String)
    ensures
        s@ == "block"@,
{
    text("block")
}

/// Rules are enabled unless said otherwise.
pub fn default_enabled() -> (b: bool)
    ensures
        b,
{
    true
}

/// A request to create one rule per pattern, all with the same settings.
#[derive(Debug)]
pub struct BatchCreateRequest {
    /// The patterns, separated by newlines, commas or semicolons
    pub patterns: String,
    pub match_type: String,
    pub action_type: String,
    pub action_value: Option<String>,
    pub priority: i32,
    pub enabled: bool,
    pub description: Option<String>,
}

/// The answer to a batch creation.
#[derive(Debug)]
pub struct BatchCreateResponse {
    pub created: i64,
    pub message: String,
}

impl BatchCreateResponse {
    /// The answer after `created` rules were stored.
    pub fn new(created: i64) -> (r: BatchCreateResponse)
        ensures
            r.created == created,
            r.message@ == "Successfully created "@ + signed_decimal(created as int)
                + " rewrite rules"@,
    {
        let mut v: Vec<char> = Vec::new();
        push_str(&mut v, "Successfully created ");
        push_signed_decimal(&mut v, created);
        push_str(&mut v, " rewrite rules");
        BatchCreateResponse { created, message: string_of(&v) }
    }
}

/// A character that separates the patterns of a batch.
pub open spec fn is_batch_separator(c: char) -> bool {
    c == '\n' || c == ',' || c == ';'
}

/// The pieces of a text between separators, empty ones included, as
/// `str::split` gives them.
pub open spec fn split_pieces(s: Seq<char>) -> Seq<Seq<char>>
    decreases s.len(),
{
    if s.len() == 0 {
        seq![Seq::<char>::empty()]
    } else {
        let p = split_pieces(s.drop_last());
        if is_batch_separator(s.last()) {
            p.push(Seq::<char>::empty())
        } else {
            p.update(p.len() - 1, p.last().push(s.last()))
        }
    }
}

/// The pieces, trimmed, without the empty ones.
pub open spec fn kept_patterns(pieces: Seq<Seq<char>>) -> Seq<Seq<char>>
    decreases pieces.len(),
{
    if pieces.len() == 0 {
        Seq::empty()
    } else {
        let k = kept_patterns(pieces.drop_last());
        if trimmed(pieces.last()).len() > 0 {
            k.push(trimmed(pieces.last()))
        } else {
            k
        }
    }
}

/// The patterns of a batch text.
pub open spec fn batch_patterns(s: Seq<char>) -> Seq<Seq<char>> {
    kept_patterns(split_pieces(s))
}

proof fn lemma_split_pieces_nonempty(s: Seq<char>)
    ensures
        split_pieces(s).len() >= 1,
    decreases s.len(),
{
    if s.len() > 0 {
        lemma_split_pieces_nonempty(s.drop_last());
    }
}

/// Splits a batch text into its patterns: the pieces between newlines,
/// commas and semicolons, trimmed, without the empty ones.
pub fn split_batch_patterns(patterns: &str) -> (r: Vec<String>)
    ensures
        strings_view(r@) == batch_patterns(patterns@),
{
    let cs: Vec<char> = chars_of(patterns);
    let mut out: Vec<String> = Vec::new();
    let mut current: Vec<char> = Vec::new();
    let mut i: usize = 0;
    assert(strings_view(out@) =~= Seq::<Seq<char>>::empty());
    while i < cs.len()
        invariant
            0 <= i <= cs@.len(),
            split_pieces(cs@.subrange(0, i as int)).len() >= 1,
            split_pieces(cs@.subrange(0, i as int)).last() == current@,
            kept_patterns(split_pieces(cs@.subrange(0, i as int)).drop_last()) == strings_view(out@),
        decreases cs@.len() - i,
    {
        let c: char = cs[i];
        let ghost before = split_pieces(cs@.subrange(0, i as int));
        let ghost out_before = strings_view(out@);
        assert(cs@.subrange(0, i + 1).drop_last() =~= cs@.subrange(0, i as int));
        assert(cs@.subrange(0, i + 1).last() == c);
        if c == '\n' || c == ',' || c == ';' {
            let t: Vec<char> = trim_chars(&current);
            if t.len() > 0 {
                out.push(string_of(&t));
                assert(strings_view(out@) =~= out_before.push(t@));
            }
            current = Vec::new();
            proof {
                let after = split_pieces(cs@.subrange(0, i + 1));
                assert(after == before.push(Seq::<char>::empty()));
                assert(after.drop_last() =~= before);
                assert(before =~= before.drop_last().push(before.last()));
            }
        } else {
            current.push(c);
            proof {
                let after = split_pieces(cs@.subrange(0, i + 1));
                assert(after.drop_last() =~= before.drop_last());
            }
        }
        i = i + 1;
    }
    let ghost pieces = split_pieces(cs@);
    assert(cs@.subrange(0, cs@.len() as int) =~= cs@);
    let ghost out_before = strings_view(out@);
    let t: Vec<char> = trim_chars(&current);
    if t.len() > 0 {
        out.push(string_of(&t));
        assert(strings_view(out@) =~= out_before.push(t@));
    }
    proof {
        assert(pieces =~= pieces.drop_last().push(pieces.last()));
    }
    out
}

/// The first pattern, in order, that has a problem under `match_type`,
/// with that problem.
pub open spec fn first_pattern_problem(patterns: Seq<Seq<char>>, match_type: Seq<char>) -> Option<
    (Seq<char>, Seq<char>),
>
    decreases patterns.len(),
{
    if patterns.len() == 0 {
        None
    } else {
        match first_pattern_problem(patterns.drop_last(), match_type) {
            Some(p) => Some(p),
            None => match pattern_problem(patterns.last(), match_type) {
                Some(e) => Some((patterns.last(), e)),
                None => None,
            },
        }
    }
}

impl BatchCreateRequest {
    /// The rules to create, one per pattern, or why there are none: an
    /// unknown match type, an action problem, no pattern, or the first
    /// pattern with a problem.
    pub fn into_rules(self) -> (r: Result<Vec<CreateRewriteRule>, String>)
        ensures
            !valid_match_type(self.match_type@) ==> (r matches Err(m) && m@ == match_type_message()),
            valid_match_type(self.match_type@) ==> match action_problem(
                self.action_type@,
                opt_view(self.action_value),
            ) {
                Some(e) => r matches Err(m) && m@ == e,
                None => {
                    let ps = batch_patterns(self.patterns@);
                    if ps.len() == 0 {
                        r matches Err(m) && m@ == "No valid patterns provided"@
                    } else {
                        match first_pattern_problem(ps, self.match_type@) {
                            Some((p, e)) => r matches Err(m) && m@ == "Invalid pattern '"@ + p
                                + "': "@ + e,
                            None => r matches Ok(rules) && rules@.len() == ps.len() && forall|
                                i: int,
                            |
                                0 <= i < ps.len() ==> {
                                    &&& (#[trigger] rules@[i]).pattern@ == ps[i]
                                    &&& rules@[i].match_type@ == lowercase(self.match_type@)
                                    &&& rules@[i].action_type@ == lowercase(self.action_type@)
                                    &&& opt_view(rules@[i].action_value) == opt_view(self.action_value)
                                    &&& rules@[i].priority == self.priority
                                    &&& rules@[i].enabled == self.enabled
                                    &&& opt_view(rules@[i].description) == opt_view(self.description)
                                },
                        }
                    }
                },
            },
    {
        match validate_match_type(self.match_type.as_str()) {
            Err(e) => {
                return Err(e);
            },
            Ok(()) => {},
        }
        match validate_action(self.action_type.as_str(), &self.action_value) {
            Err(e) => {
                return Err(e);
            },
            Ok(()) => {},
        }
        let patterns: Vec<String> = split_batch_patterns(self.patterns.as_str());
        let ghost ps = strings_view(patterns@);
        if patterns.len() == 0 {
            return Err(text("No valid patterns provided"));
        }
        let mut i: usize = 0;
        while i < patterns.len()
            invariant
                0 <= i <= patterns@.len(),
                ps == strings_view(patterns@),
                ps == batch_patterns(self.patterns@),
                ps.len() > 0,
                valid_match_type(self.match_type@),
                action_problem(self.action_type@, opt_view(self.action_value)) is None,
                first_pattern_problem(ps.subrange(0, i as int), self.match_type@) is None,
            decreases patterns@.len() - i,
        {
            assert(ps.subrange(0, i + 1).drop_last() =~= ps.subrange(0, i as int));
            assert(ps.subrange(0, i + 1).last() == patterns@[i as int]@);
            match validate_pattern(patterns[i].as_str(), self.match_type.as_str()) {
                Err(e) => {
                    proof {
                        lemma_first_problem_persists(ps, (i + 1) as int, self.match_type@);
                    }
                    let mut v: Vec<char> = Vec::new();
                    push_str(&mut v, "Invalid pattern '");
                    push_chars(&mut v, &chars_of(patterns[i].as_str()));
                    push_str(&mut v, "': ");
                    push_chars(&mut v, &chars_of(e.as_str()));
                    return Err(string_of(&v));
                },
                Ok(()) => {},
            }
            i = i + 1;
        }
        assert(ps.subrange(0, ps.len() as int) =~= ps);
        let match_type: String = to_lowercase(self.match_type.as_str());
        let action_type: String = to_lowercase(self.action_type.as_str());
        let mut rules: Vec<CreateRewriteRule> = Vec::new();
        let mut j: usize = 0;
        while j < patterns.len()
            invariant
                0 <= j <= patterns@.len(),
                ps == strings_view(patterns@),
                match_type@ == lowercase(self.match_type@),
                action_type@ == lowercase(self.action_type@),
                rules@.len() == j,
                forall|k: int|
                    0 <= k < j ==> {
                        &&& (#[trigger] rules@[k]).pattern@ == ps[k]
                        &&& rules@[k].match_type@ == lowercase(self.match_type@)
                        &&& rules@[k].action_type@ == lowercase(self.action_type@)
                        &&& opt_view(rules@[k].action_value) == opt_view(self.action_value)
                        &&& rules@[k].priority == self.priority
                        &&& rules@[k].enabled == self.enabled
                        &&& opt_view(rules@[k].description) == opt_view(self.description)
                    },
            decreases patterns@.len() - j,
        {
            let rule = CreateRewriteRule {
                pattern: patterns[j].clone(),
                match_type: match_type.clone(),
                action_type: action_type.clone(),
                action_value: match &self.action_value {
                    Some(v) => Some(v.clone()),
                    None => None,
                },
                priority: self.priority,
                enabled: self.enabled,
                description: match &self.description {
                    Some(d) => Some(d.clone()),
                    None => None,
                },
            };
            rules.push(rule);
            j = j + 1;
        }
        Ok(rules)
    }
}

/// Once a prefix of the patterns has a problem, the first problem of all
/// of them is that one.
proof fn lemma_first_problem_persists(patterns: Seq<Seq<char>>, k: int, match_type: Seq<char>)
    requires
        0 <= k <= patterns.len(),
        first_pattern_problem(patterns.subrange(0, k), match_type) is Some,
    ensures
        first_pattern_problem(patterns, match_type) == first_pattern_problem(
            patterns.subrange(0, k),
            match_type,
        ),
    decreases patterns.len() - k,
{
    if k < patterns.len() {
        assert(patterns.subrange(0, k + 1).drop_last() =~= patterns.subrange(0, k));
        lemma_first_problem_persists(patterns, k + 1, match_type);
    } else {
        assert(patterns.subrange(0, k) =~= patterns);
    }
}

} // verus!
