//! Domain rewrite rules: exact, wildcard and regular-expression matching,
//! rewrite actions, and the priority-ordered rule engine.

use vstd::prelude::*;
use crate::ip::{ip_text, parse_ip, parsed_ip, IpAddr};
use crate::text::{
    all_ascii, ascii_lower, chars_of, contains_char, ends_with, find_char, rfind_char,
    slice_chars, starts_with, str_eq, to_lowercase, lowercase,
};

verus! {

broadcast use vstd::string::group_string_axioms;

/// Match type of a rewrite rule.
#[derive(Debug, Clone, Copy, PartialEq, Eq, Structural)]
pub enum MatchType {
    /// Exact domain match
    Exact,
    /// Wildcard match (*.example.com)
    Wildcard,
    /// Regular expression match
    Regex,
}

/// The lowercase name of a match type.
pub open spec fn match_type_name(m: MatchType) -> Seq<char> {
    match m {
        MatchType::Exact => "exact"@,
        MatchType::Wildcard => "wildcard"@,
        MatchType::Regex => "regex"@,
    }
}

/// The match type a text names, compared after lowercasing.
pub open spec fn match_type_of_text(s: Seq<char>) -> Option<MatchType> {
    let l = lowercase(s);
    if l == "exact"@ {
        Some(MatchType::Exact)
    } else if l == "wildcard"@ {
        Some(MatchType::Wildcard)
    } else if l == "regex"@ {
        Some(MatchType::Regex)
    } else {
        None
    }
}

impl MatchType {
    /// Reads a match type from its name, in any letter case.
    pub fn from_str(s: &str) -> (r: Option<MatchType>)
        ensures
            r == match_type_of_text(s@),
    {
        let lower: String = to_lowercase(s);
        let l: &str = lower.as_str();
        if str_eq(l, "exact") {
            Some(MatchType::Exact)
        } else if str_eq(l, "wildcard") {
            Some(MatchType::Wildcard)
        } else if str_eq(l, "regex") {
            Some(MatchType::Regex)
        } else {
            None
        }
    }

    /// The lowercase name of this match type.
    pub fn as_str(&self) -> (s: &'static str)
        ensures
            s@ == match_type_name(*self),
    {
        match self {
            MatchType::Exact => "exact",
            MatchType::Wildcard => "wildcard",
            MatchType::Regex => "regex",
        }
    }
}

/// Action taken when a rewrite rule matches.
#[derive(Debug, PartialEq, Eq)]
pub enum RewriteAction {
    /// Map to a specific IP address
    MapToIp(IpAddr),
    /// Map to another domain name
    MapToDomain(String),
    /// Block the request (return NXDOMAIN)
    Block,
}

impl Clone for RewriteAction {
    fn clone(&self) -> (r: RewriteAction)
        ensures
            r == *self,
    {
        match self {
            RewriteAction::MapToIp(ip) => RewriteAction::MapToIp(*ip),
            RewriteAction::MapToDomain(d) => RewriteAction::MapToDomain(d.clone()),
            RewriteAction::Block => RewriteAction::Block,
        }
    }
}

/// The action that an action type and value describe, if any.
pub open spec fn action_of_parts(action_type: Seq<char>, value: Option<Seq<char>>) -> Option<
    RewriteAction,
> {
    let t = lowercase(action_type);
    if t == "map_ip"@ || t == "maptoip"@ {
        match value {
            Some(v) => match parsed_ip(v) {
                Some(ip) => Some(RewriteAction::MapToIp(ip)),
                None => None,
            },
            None => None,
        }
    } else if t == "map_domain"@ || t == "maptodomain"@ {
        match value {
            Some(v) => Some(RewriteAction::MapToDomain(choose|s: String| s@ == v)),
            None => None,
        }
    } else if t == "block"@ {
        Some(RewriteAction::Block)
    } else {
        None
    }
}

/// An action, compared by the views of its contents.
pub open spec fn same_action(a: RewriteAction, b: RewriteAction) -> bool {
    match (a, b) {
        (RewriteAction::MapToIp(x), RewriteAction::MapToIp(y)) => x == y,
        (RewriteAction::MapToDomain(x), RewriteAction::MapToDomain(y)) => x@ == y@,
        (RewriteAction::Block, RewriteAction::Block) => true,
        _ => false,
    }
}

/// The type name of an action.
pub open spec fn action_type_name(a: RewriteAction) -> Seq<char> {
    match a {
        RewriteAction::MapToIp(_) => "map_ip"@,
        RewriteAction::MapToDomain(_) => "map_domain"@,
        RewriteAction::Block => "block"@,
    }
}

/// The value text of an action, if it carries one.
pub open spec fn action_value_text(a: RewriteAction) -> Option<Seq<char>> {
    match a {
        RewriteAction::MapToIp(ip) => Some(ip_text(ip)),
        RewriteAction::MapToDomain(d) => Some(d@),
        RewriteAction::Block => None,
    }
}

impl RewriteAction {
    /// Reads an action from its type name (any letter case) and value.
    pub fn from_parts(action_type: &str, action_value: Option<&str>) -> (r: Option<RewriteAction>)
        ensures
            match action_of_parts(action_type@, opt_view(action_value)) {
                Some(a) => r.is_some() && same_action(r.unwrap(), a),
                None => r.is_none(),
            },
    {
        let lower: String = to_lowercase(action_type);
        let t: &str = lower.as_str();
        if str_eq(t, "map_ip") || str_eq(t, "maptoip") {
            match action_value {
                Some(v) => match parse_ip(v) {
                    Some(ip) => Some(RewriteAction::MapToIp(ip)),
                    None => None,
                },
                None => None,
            }
        } else if str_eq(t, "map_domain") || str_eq(t, "maptodomain") {
            match action_value {
                Some(v) => {
                    let d: String = v.to_owned();
                    let ghost c = choose|s: String| s@ == v@;
                    assert(c@ == v@);
                    Some(RewriteAction::MapToDomain(d))
                },
                None => None,
            }
        } else if str_eq(t, "block") {
            Some(RewriteAction::Block)
        } else {
            None
        }
    }

    /// The type name of this action.
    pub fn action_type(&self) -> (s: &'static str)
        ensures
            s@ == action_type_name(*self),
    {
        match self {
            RewriteAction::MapToIp(_) => "map_ip",
            RewriteAction::MapToDomain(_) => "map_domain",
            RewriteAction::Block => "block",
        }
    }

    /// The value text of this action, if it carries one.
    pub fn action_value(&self) -> (r: Option<String>)
        ensures
            opt_string_view(r) == action_value_text(*self),
    {
        match self {
            RewriteAction::MapToIp(ip) => Some(ip.to_string()),
            RewriteAction::MapToDomain(d) => Some(d.clone()),
            RewriteAction::Block => None,
        }
    }
}

/// The view of an optional string slice.
pub open spec fn opt_view(o: Option<&str>) -> Option<Seq<char>> {
    match o {
        Some(s) => Some(s@),
        None => None,
    }
}

/// The view of an optional string.
pub open spec fn opt_string_view(o: Option<String>) -> Option<Seq<char>> {
    match o {
        Some(s) => Some(s@),
        None => None,
    }
}

/// Whether the regular expression `pattern` compiles under the `regex` crate.
pub uninterp spec fn regex_compiles(pattern: Seq<char>) -> bool;

/// Whether the regular expression `pattern`, compiled by the `regex` crate,
/// finds a match anywhere in `text`.
pub uninterp spec fn regex_finds(pattern: Seq<char>, text: Seq<char>) -> bool;

/// Compiles `pattern` with `regex::Regex::new` and, when that succeeds,
/// runs `Regex::is_match` on `text`. `None` exactly when the pattern does not
/// compile; otherwise the match outcome, named by `regex_finds`.
#[verifier::external_body]
fn regex_search(pattern: &str, text: &str) -> (r: Option<bool>)
    ensures
        r == (if regex_compiles(pattern@) {
            Some(regex_finds(pattern@, text@))
        } else {
            None
        }),
{
    regex::Regex::new(pattern).ok().map(|re| re.is_match(text))
}

/// Whether `pattern` compiles as a regular expression.
pub fn regex_is_valid(pattern: &str) -> (r: bool)
    ensures
        r == regex_compiles(pattern@),
{
    regex_search(pattern, "").is_some()
}

/// The position of the only `*` in `p`, when `p` holds exactly one.
pub open spec fn single_star_at(p: Seq<char>, k: int) -> bool {
    &&& 0 <= k < p.len()
    &&& p[k] == '*'
    &&& forall|j: int| 0 <= j < p.len() && j != k ==> p[j] != '*'
}

/// Wildcard matching of an (already lowercased) domain against a pattern.
///
/// `*.suffix` matches any name strictly longer than `.suffix` that ends with
/// it; a pattern with a single `*` elsewhere matches names that start with the
/// text before the star and end with the text after it; a pattern without a
/// star matches only itself.
pub open spec fn wildcard_match(d: Seq<char>, p: Seq<char>) -> bool {
    if p.len() >= 2 && p[0] == '*' && p[1] == '.' {
        let suffix = p.subrange(1, p.len() as int);
        d.len() > suffix.len() && d.subrange(d.len() - suffix.len(), d.len() as int) == suffix
    } else if p.contains('*') {
        exists|k: int|
            single_star_at(p, k) && #[trigger] p.subrange(0, k).len() <= d.len() && d.subrange(
                0,
                k,
            ) == p.subrange(0, k) && p.len() - k - 1 <= d.len() && d.subrange(
                d.len() - (p.len() - k - 1),
                d.len() as int,
            ) == p.subrange(k + 1, p.len() as int)
    } else {
        d == p
    }
}

/// A compiled rewrite rule.
#[derive(Debug)]
pub struct RewriteRule {
    /// Rule ID from database
    pub id: i64,
    /// Pattern to match
    pub pattern: String,
    /// Match type
    pub match_type: MatchType,
    /// Action to perform
    pub action: RewriteAction,
    /// Whether the rule is enabled
    pub enabled: bool,
    /// Priority (higher = checked first)
    pub priority: i32,
}

impl Clone for RewriteRule {
    fn clone(&self) -> (r: RewriteRule)
        ensures
            r == *self,
    {
        RewriteRule {
            id: self.id,
            pattern: self.pattern.clone(),
            match_type: self.match_type,
            action: self.action.clone(),
            enabled: self.enabled,
            priority: self.priority,
        }
    }
}

/// Whether a rule matches a domain: it is enabled and its pattern matches
/// the lowercased domain by its match type. Exact and wildcard patterns are
/// lowercased too; a regular expression is applied as written.
pub open spec fn rule_matches(rule: RewriteRule, domain: Seq<char>) -> bool {
    let d = lowercase(domain);
    let p = lowercase(rule.pattern@);
    rule.enabled && match rule.match_type {
        MatchType::Exact => d == p,
        MatchType::Wildcard => wildcard_match(d, p),
        MatchType::Regex => regex_compiles(rule.pattern@) && regex_finds(rule.pattern@, d),
    }
}

/// Wildcard matching on character vectors.
fn wildcard_matches(d: &Vec<char>, p: &Vec<char>) -> (r: bool)
    ensures
        r == wildcard_match(d@, p@),
{
    if p.len() >= 2 && p[0] == '*' && p[1] == '.' {
        let suffix: Vec<char> = slice_chars(p, 1, p.len());
        ends_with(d, &suffix) && d.len() > suffix.len()
    } else {
        match find_char(p, '*') {
            None => {
                // No wildcard: the pattern is compared as it is.
                assert(!(p@.len() >= 2 && p@[0] == '*' && p@[1] == '.'));
                assert(!p@.contains('*'));
                if d.len() != p.len() {
                    assert(d@.len() != p@.len());
                    assert(d@ != p@);
                    assert(!wildcard_match(d@, p@));
                    return false;
                }
                let mut i: usize = 0;
                while i < d.len()
                    invariant
                        d@.len() == p@.len(),
                        !p@.contains('*'),
                        !(p@.len() >= 2 && p@[0] == '*' && p@[1] == '.'),
                        0 <= i <= d@.len(),
                        forall|j: int| 0 <= j < i ==> d@[j] == p@[j],
                    decreases d@.len() - i,
                {
                    if d[i] != p[i] {
                        assert(d@[i as int] != p@[i as int]);
                        assert(d@ != p@);
                        assert(!wildcard_match(d@, p@));
                        return false;
                    }
                    i = i + 1;
                }
                assert(d@ =~= p@);
                true
            },
            Some(k) => {
                let last: Option<usize> = rfind_char(p, '*');
                if last != Some(k) {
                    proof {
                        let l = last.unwrap();
                        assert forall|k2: int| single_star_at(p@, k2) implies false by {
                            if k2 != k {
                                assert(p@[k as int] == '*');
                            } else {
                                assert(p@[l as int] == '*');
                            }
                        }
                    }
                    return false;
                }
                let before: Vec<char> = slice_chars(p, 0, k);
                let after: Vec<char> = slice_chars(p, k + 1, p.len());
                let r: bool = starts_with(d, &before) && ends_with(d, &after);
                proof {
                    assert(single_star_at(p@, k as int));
                    assert forall|k2: int| single_star_at(p@, k2) implies k2 == k by {
                        if k2 != k {
                            assert(p@[k as int] == '*');
                        }
                    }
                    if r {
                        assert(p@.subrange(0, k as int).len() <= d@.len());
                    }
                }
                r
            },
        }
    }
}

impl RewriteRule {
    /// A new enabled rule.
    pub fn new(
        id: i64,
        pattern: String,
        match_type: MatchType,
        action: RewriteAction,
        priority: i32,
    ) -> (r: RewriteRule)
        ensures
            r.id == id,
            r.pattern == pattern,
            r.match_type == match_type,
            r.action == action,
            r.enabled,
            r.priority == priority,
    {
        RewriteRule { id, pattern, match_type, action, enabled: true, priority }
    }

    /// A rule from its stored fields; `None` when the match type or the
    /// action cannot be read.
    pub fn from_db(
        id: i64,
        pattern: &str,
        match_type: &str,
        action_type: &str,
        action_value: Option<&str>,
        enabled: bool,
        priority: i32,
    ) -> (r: Option<RewriteRule>)
        ensures
            match (match_type_of_text(match_type@), action_of_parts(
                action_type@,
                opt_view(action_value),
            )) {
                (Some(m), Some(a)) => r.is_some() && {
                    let rule = r.unwrap();
                    &&& rule.id == id
                    &&& rule.pattern@ == pattern@
                    &&& rule.match_type == m
                    &&& same_action(rule.action, a)
                    &&& rule.enabled == enabled
                    &&& rule.priority == priority
                },
                _ => r.is_none(),
            },
    {
        let m: MatchType = match MatchType::from_str(match_type) {
            Some(m) => m,
            None => return None,
        };
        let action: RewriteAction = match RewriteAction::from_parts(action_type, action_value) {
            Some(a) => a,
            None => return None,
        };
        Some(RewriteRule { id, pattern: pattern.to_owned(), match_type: m, action, enabled, priority })
    }

    /// Whether this rule matches `domain`.
    pub fn matches(&self, domain: &str) -> (r: bool)
        ensures
            r == rule_matches(*self, domain@),
    {
        if !self.enabled {
            return false;
        }
        let domain_lower: String = to_lowercase(domain);
        match self.match_type {
            MatchType::Exact => {
                let pattern_lower: String = to_lowercase(self.pattern.as_str());
                domain_lower == pattern_lower
            },
            MatchType::Wildcard => {
                let pattern_lower: String = to_lowercase(self.pattern.as_str());
                let d: Vec<char> = chars_of(domain_lower.as_str());
                let p: Vec<char> = chars_of(pattern_lower.as_str());
                wildcard_matches(&d, &p)
            },
            MatchType::Regex => match regex_search(self.pattern.as_str(), domain_lower.as_str()) {
                Some(found) => found,
                None => false,
            },
        }
    }
}

/// Result of a rewrite check: the matching rule and its action.
#[derive(Debug, Clone)]
pub struct RewriteResult {
    /// The rule that matched
    pub rule_id: i64,
    /// The action to perform
    pub action: RewriteAction,
}

/// Rules in non-increasing priority order.
pub open spec fn priority_sorted(rules: Seq<RewriteRule>) -> bool {
    forall|i: int, j: int|
        0 <= i < j < rules.len() ==> #[trigger] rules[i].priority >= #[trigger] rules[j].priority
}

/// The index of the first rule that matches `domain`, if any.
pub open spec fn first_match(rules: Seq<RewriteRule>, domain: Seq<char>) -> Option<int>
    decreases rules.len(),
{
    if rules.len() == 0 {
        None
    } else {
        match first_match(rules.drop_last(), domain) {
            Some(i) => Some(i),
            None => if rule_matches(rules.last(), domain) {
                Some(rules.len() - 1)
            } else {
                None
            },
        }
    }
}

/// Where a rule of priority `p` goes in sorted rules: after every rule of
/// priority at least `p`, before every rule of lower priority.
pub open spec fn is_insertion_point(rules: Seq<RewriteRule>, p: i32, pos: int) -> bool {
    &&& 0 <= pos <= rules.len()
    &&& forall|i: int| 0 <= i < pos ==> #[trigger] rules[i].priority >= p
    &&& forall|i: int| pos <= i < rules.len() ==> #[trigger] rules[i].priority < p
}

/// The rules whose ID differs from `id`, in order.
pub open spec fn without_id(rules: Seq<RewriteRule>, id: i64) -> Seq<RewriteRule>
    decreases rules.len(),
{
    if rules.len() == 0 {
        Seq::empty()
    } else if rules.last().id == id {
        without_id(rules.drop_last(), id)
    } else {
        without_id(rules.drop_last(), id).push(rules.last())
    }
}

/// The rule engine: rules kept in non-increasing priority order, equal
/// priorities in insertion order.
pub struct RewriteEngine {
    rules: Vec<RewriteRule>,
}

impl RewriteEngine {
    /// The rules, in checking order.
    pub closed spec fn rules_view(&self) -> Seq<RewriteRule> {
        self.rules@
    }

    /// The engine's ordering invariant.
    pub closed spec fn wf(&self) -> bool {
        priority_sorted(self.rules@)
    }

    /// An engine without rules.
    pub fn new() -> (e: RewriteEngine)
        ensures
            e.wf(),
            e.rules_view() == Seq::<RewriteRule>::empty(),
    {
        RewriteEngine { rules: Vec::new() }
    }

    /// The first rule, in priority order, that matches `domain`.
    pub fn check(&self, domain: &str) -> (r: Option<RewriteResult>)
        ensures
            match first_match(self.rules_view(), domain@) {
                Some(i) => r.is_some() && r.unwrap().rule_id == self.rules_view()[i].id
                    && r.unwrap().action == self.rules_view()[i].action,
                None => r.is_none(),
            },
    {
        let mut i: usize = 0;
        while i < self.rules.len()
            invariant
                0 <= i <= self.rules@.len(),
                first_match(self.rules@.subrange(0, i as int), domain@).is_none(),
            decreases self.rules@.len() - i,
        {
            assert(self.rules@.subrange(0, i + 1).drop_last() =~= self.rules@.subrange(0, i as int));
            if self.rules[i].matches(domain) {
                proof {
                    lemma_first_match_prefix(self.rules@, (i + 1) as int, domain@);
                }
                return Some(RewriteResult { rule_id: self.rules[i].id, action: self.rules[i].action.clone() });
            }
            i = i + 1;
        }
        assert(self.rules@.subrange(0, self.rules@.len() as int) =~= self.rules@);
        None
    }

    /// Adds a rule after every rule of equal or higher priority.
    pub fn add_rule(&mut self, rule: RewriteRule)
        requires
            old(self).wf(),
        ensures
            final(self).wf(),
            exists|pos: int|
                is_insertion_point(old(self).rules_view(), rule.priority, pos)
                    && final(self).rules_view() == old(self).rules_view().insert(pos, rule),
    {
        let mut pos: usize = 0;
        while pos < self.rules.len() && self.rules[pos].priority >= rule.priority
            invariant
                self.rules@ == old(self).rules@,
                0 <= pos <= self.rules@.len(),
                forall|i: int| 0 <= i < pos ==> #[trigger] self.rules@[i].priority >= rule.priority,
            decreases self.rules@.len() - pos,
        {
            pos = pos + 1;
        }
        let ghost old_rules = self.rules@;
        proof {
            assert forall|i: int| pos <= i < old_rules.len() implies #[trigger] old_rules[i].priority < rule.priority by {
                if pos < old_rules.len() {
                    assert(old_rules[pos as int].priority < rule.priority);
                    assert(old_rules[pos as int].priority >= old_rules[i].priority);
                }
            }
        }
        self.rules.insert(pos, rule);
        proof {
            let n = self.rules@;
            assert(is_insertion_point(old_rules, rule.priority, pos as int));
            assert forall|i: int, j: int| 0 <= i < j < n.len() implies #[trigger] n[i].priority >= #[trigger] n[j].priority by {
                if j < pos {
                } else if j == pos {
                    assert(n[i] == old_rules[i]);
                } else if i < pos {
                    assert(n[j] == old_rules[j - 1]);
                } else if i == pos {
                    assert(n[j] == old_rules[j - 1]);
                } else {
                    assert(n[i] == old_rules[i - 1]);
                    assert(n[j] == old_rules[j - 1]);
                }
            }
            assert(is_insertion_point(old(self).rules_view(), rule.priority, pos as int)
                && self.rules_view() == old(self).rules_view().insert(pos as int, rule));
        }
    }

    /// Removes every rule with the given ID.
    pub fn remove_rule(&mut self, id: i64)
        requires
            old(self).wf(),
        ensures
            final(self).wf(),
            final(self).rules_view() == without_id(old(self).rules_view(), id),
    {
        let ghost old_rules = self.rules@;
        let mut kept: Vec<RewriteRule> = Vec::new();
        let mut i: usize = 0;
        while i < self.rules.len()
            invariant
                self.rules@ == old_rules,
                0 <= i <= old_rules.len(),
                kept@ == without_id(old_rules.subrange(0, i as int), id),
            decreases old_rules.len() - i,
        {
            assert(old_rules.subrange(0, i + 1).drop_last() =~= old_rules.subrange(0, i as int));
            if self.rules[i].id != id {
                kept.push(self.rules[i].clone());
            }
            i = i + 1;
        }
        assert(old_rules.subrange(0, old_rules.len() as int) =~= old_rules);
        proof {
            lemma_without_id_sorted(old_rules, id);
        }
        self.rules = kept;
    }

    /// Removes every rule.
    pub fn clear_rules(&mut self)
        ensures
            final(self).wf(),
            final(self).rules_view() == Seq::<RewriteRule>::empty(),
    {
        self.rules = Vec::new();
    }

    /// The number of rules.
    pub fn rule_count(&self) -> (n: usize)
        ensures
            n == self.rules_view().len(),
    {
        self.rules.len()
    }

    /// A copy of the rules, in checking order.
    pub fn list_rules(&self) -> (v: Vec<RewriteRule>)
        ensures
            v@ == self.rules_view(),
    {
        let mut v: Vec<RewriteRule> = Vec::new();
        let mut i: usize = 0;
        while i < self.rules.len()
            invariant
                0 <= i <= self.rules@.len(),
                v@ == self.rules@.subrange(0, i as int),
            decreases self.rules@.len() - i,
        {
            v.push(self.rules[i].clone());
            assert(v@ =~= self.rules@.subrange(0, i + 1));
            i = i + 1;
        }
        assert(self.rules@.subrange(0, self.rules@.len() as int) =~= self.rules@);
        v
    }

    /// Replaces the rules with `rules`, ordered by priority; rules of equal
    /// priority keep their relative order.
    pub fn load_rules(&mut self, rules: Vec<RewriteRule>)
        ensures
            final(self).wf(),
            final(self).rules_view().len() == rules@.len(),
            forall|r: RewriteRule| #[trigger] final(self).rules_view().contains(r) <==> rules@.contains(r),
    {
        self.rules = Vec::new();
        let mut i: usize = 0;
        while i < rules.len()
            invariant
                0 <= i <= rules@.len(),
                self.wf(),
                self.rules@.len() == i,
                forall|r: RewriteRule| #[trigger] self.rules@.contains(r) <==> rules@.subrange(0, i as int).contains(r),
            decreases rules@.len() - i,
        {
            let ghost before = self.rules@;
            let rule: RewriteRule = rules[i].clone();
            self.add_rule(rule);
            proof {
                let pos = choose|pos: int|
                    is_insertion_point(before, rule.priority, pos)
                        && self.rules@ == before.insert(pos, rule);
                assert forall|r: RewriteRule| #[trigger] self.rules@.contains(r) <==> rules@.subrange(0, i + 1).contains(r) by {
                    assert(rules@.subrange(0, i + 1) =~= rules@.subrange(0, i as int).push(rule));
                    if self.rules@.contains(r) {
                        let k = choose|k: int| 0 <= k < self.rules@.len() && self.rules@[k] == r;
                        if k < pos {
                            assert(before[k] == r);
                            assert(before.contains(r));
                        } else if k > pos {
                            assert(before[k - 1] == r);
                            assert(before.contains(r));
                        }
                        assert(rules@.subrange(0, i + 1).contains(r)) by {
                            if r == rule {
                                assert(rules@.subrange(0, i + 1)[i as int] == r);
                            } else {
                                let m = choose|m: int| 0 <= m < i && #[trigger] rules@.subrange(0, i as int)[m] == r;
                                assert(rules@.subrange(0, i + 1)[m] == r);
                            }
                        }
                    }
                    if rules@.subrange(0, i + 1).contains(r) {
                        let m = choose|m: int| 0 <= m <= i && #[trigger] rules@.subrange(0, i + 1)[m] == r;
                        if m == i {
                            assert(self.rules@[pos] == r);
                        } else {
                            assert(rules@.subrange(0, i as int)[m] == r);
                            assert(before.contains(r));
                            let k = choose|k: int| 0 <= k < before.len() && before[k] == r;
                            if k < pos {
                                assert(self.rules@[k] == r);
                            } else {
                                assert(self.rules@[k + 1] == r);
                            }
                        }
                    }
                }
            }
            i = i + 1;
        }
        assert(rules@.subrange(0, rules@.len() as int) =~= rules@);
    }
}

/// When the first `n` rules hold no match but rule `n - 1`... holds one, the
/// first match of the whole list is at `n - 1`.
proof fn lemma_first_match_prefix(rules: Seq<RewriteRule>, n: int, domain: Seq<char>)
    requires
        1 <= n <= rules.len(),
        first_match(rules.subrange(0, n - 1), domain).is_none(),
        rule_matches(rules[n - 1], domain),
    ensures
        first_match(rules, domain) == Some(n - 1),
    decreases rules.len(),
{
    assert(rules.subrange(0, n).drop_last() =~= rules.subrange(0, n - 1));
    if rules.len() == n {
        assert(rules.subrange(0, n) =~= rules);
    } else {
        assert(rules.drop_last().subrange(0, n - 1) =~= rules.subrange(0, n - 1));
        assert(rules.drop_last()[n - 1] == rules[n - 1]);
        lemma_first_match_prefix(rules.drop_last(), n, domain);
    }
}

/// Removing rules keeps the priority order.
proof fn lemma_without_id_sorted(rules: Seq<RewriteRule>, id: i64)
    requires
        priority_sorted(rules),
    ensures
        priority_sorted(without_id(rules, id)),
        forall|k: int| 0 <= k < without_id(rules, id).len() ==> rules.contains(#[trigger] without_id(rules, id)[k]),
    decreases rules.len(),
{
    if rules.len() > 0 {
        let prefix = rules.drop_last();
        assert(priority_sorted(prefix));
        lemma_without_id_sorted(prefix, id);
        let w = without_id(prefix, id);
        assert forall|k: int| 0 <= k < w.len() implies rules.contains(#[trigger] w[k]) by {
            let m = choose|m: int| 0 <= m < prefix.len() && prefix[m] == w[k];
            assert(rules[m] == w[k]);
        }
        if rules.last().id != id {
            let n = w.push(rules.last());
            assert forall|i: int, j: int| 0 <= i < j < n.len() implies #[trigger] n[i].priority >= #[trigger] n[j].priority by {
                if j == n.len() - 1 {
                    let m = choose|m: int| 0 <= m < prefix.len() && prefix[m] == w[i];
                    assert(rules[m] == n[i]);
                    assert(rules[rules.len() - 1] == n[j]);
                } else {
                    assert(n[i] == w[i]);
                    assert(n[j] == w[j]);
                }
            }
            assert forall|k: int| 0 <= k < n.len() implies rules.contains(#[trigger] n[k]) by {
                if k == n.len() - 1 {
                    assert(rules[rules.len() - 1] == n[k]);
                } else {
                    assert(n[k] == w[k]);
                }
            }
        }
    }
}


/// The first match is a matching rule with no matching rule before it;
/// without a first match, no rule matches.
pub proof fn lemma_first_match_is_earliest(rules: Seq<RewriteRule>, domain: Seq<char>)
    ensures
        match first_match(rules, domain) {
            Some(i) => 0 <= i < rules.len() && rule_matches(rules[i], domain) && forall|j: int|
                0 <= j < i ==> !rule_matches(#[trigger] rules[j], domain),
            None => forall|j: int| 0 <= j < rules.len() ==> !rule_matches(#[trigger] rules[j], domain),
        },
    decreases rules.len(),
{
    if rules.len() > 0 {
        let prefix = rules.drop_last();
        lemma_first_match_is_earliest(prefix, domain);
        assert forall|j: int| 0 <= j < prefix.len() implies prefix[j] == rules[j] by {}
    }
}

/// The rule the engine picks for a domain has the highest priority of all
/// matching rules, and no rule before it matches; when it picks none, no
/// rule matches.
pub proof fn law_check_picks_highest_priority(rules: Seq<RewriteRule>, domain: Seq<char>)
    requires
        priority_sorted(rules),
    ensures
        match first_match(rules, domain) {
            Some(i) => forall|j: int|
                0 <= j < rules.len() && rule_matches(#[trigger] rules[j], domain) ==> i <= j
                    && rules[j].priority <= rules[i].priority,
            None => forall|j: int| 0 <= j < rules.len() ==> !rule_matches(#[trigger] rules[j], domain),
        },
{
    lemma_first_match_is_earliest(rules, domain);
    match first_match(rules, domain) {
        Some(i) => {
            assert forall|j: int|
                0 <= j < rules.len() && rule_matches(#[trigger] rules[j], domain) implies i <= j
                && rules[j].priority <= rules[i].priority by {
                if j < i {
                    assert(!rule_matches(rules[j], domain));
                }
                assert(rules[i].priority >= rules[j].priority || i == j);
            }
        },
        None => {},
    }
}

/// Of two matching rules of equal priority added one after the other, the
/// one added first sits earlier and is never passed over for the second.
pub proof fn law_equal_priority_keeps_insertion_order(
    rules: Seq<RewriteRule>,
    first: RewriteRule,
    second: RewriteRule,
    pos1: int,
    pos2: int,
    domain: Seq<char>,
)
    requires
        priority_sorted(rules),
        first.priority == second.priority,
        is_insertion_point(rules, first.priority, pos1),
        is_insertion_point(rules.insert(pos1, first), second.priority, pos2),
        rule_matches(first, domain),
    ensures
        pos1 < pos2,
        rules.insert(pos1, first).insert(pos2, second)[pos1] == first,
        rules.insert(pos1, first).insert(pos2, second)[pos2] == second,
        first_match(rules.insert(pos1, first).insert(pos2, second), domain) matches Some(i) && i
            <= pos1,
{
    let s1 = rules.insert(pos1, first);
    let s2 = s1.insert(pos2, second);
    assert(s1[pos1] == first);
    if pos2 <= pos1 {
        assert(s1[pos1].priority < second.priority);
    }
    assert(s2[pos1] == s1[pos1]);
    lemma_first_match_is_earliest(s2, domain);
    match first_match(s2, domain) {
        Some(i) => {
            if i > pos1 {
                assert(!rule_matches(s2[pos1], domain));
            }
        },
        None => {
            assert(!rule_matches(s2[pos1], domain));
        },
    }
}

/// Rules in priority order whose rules of equal priority stand in the
/// order of their stamps (the order in which they were added).
pub open spec fn stamped_order(rules: Seq<RewriteRule>, stamps: Seq<int>) -> bool {
    &&& stamps.len() == rules.len()
    &&& priority_sorted(rules)
    &&& forall|i: int, j: int|
        0 <= i < j < rules.len() && #[trigger] rules[i].priority == #[trigger] rules[j].priority
            ==> stamps[i] < stamps[j]
}

/// Adding a rule where `add_rule` puts it, stamped after every rule already
/// there, keeps rules of equal priority in the order they were added: over
/// any number of additions, equal priorities stay in insertion order.
pub proof fn law_add_rule_keeps_insertion_order(
    rules: Seq<RewriteRule>,
    stamps: Seq<int>,
    rule: RewriteRule,
    pos: int,
    stamp: int,
)
    requires
        stamped_order(rules, stamps),
        forall|i: int| 0 <= i < stamps.len() ==> #[trigger] stamps[i] < stamp,
        is_insertion_point(rules, rule.priority, pos),
    ensures
        stamped_order(rules.insert(pos, rule), stamps.insert(pos, stamp)),
{
    let n = rules.insert(pos, rule);
    let t = stamps.insert(pos, stamp);
    assert forall|i: int, j: int| 0 <= i < j < n.len() implies #[trigger] n[i].priority >= #[trigger] n[j].priority
        && (n[i].priority == n[j].priority ==> t[i] < t[j]) by {
        if j < pos {
            assert(n[i] == rules[i] && n[j] == rules[j]);
            assert(t[i] == stamps[i] && t[j] == stamps[j]);
        } else if j == pos {
            assert(n[i] == rules[i] && t[i] == stamps[i]);
        } else if i < pos {
            assert(n[i] == rules[i] && n[j] == rules[j - 1]);
            assert(t[i] == stamps[i] && t[j] == stamps[j - 1]);
        } else if i == pos {
            assert(n[j] == rules[j - 1]);
        } else {
            assert(n[i] == rules[i - 1] && n[j] == rules[j - 1]);
            assert(t[i] == stamps[i - 1] && t[j] == stamps[j - 1]);
        }
    }
}

/// The rule `check` picks for a domain, of rules kept in stamped order:
/// it matches, no matching rule has a higher priority, and of the matching
/// rules of its priority it was added first; when it picks none, no rule
/// matches.
pub proof fn law_check_breaks_ties_by_insertion(rules: Seq<RewriteRule>, stamps: Seq<int>, domain: Seq<char>)
    requires
        stamped_order(rules, stamps),
    ensures
        match first_match(rules, domain) {
            Some(i) => 0 <= i < rules.len() && rule_matches(rules[i], domain) && forall|j: int|
                0 <= j < rules.len() && rule_matches(#[trigger] rules[j], domain) ==> rules[j].priority
                    < rules[i].priority || (rules[j].priority == rules[i].priority && stamps[i]
                    <= stamps[j]),
            None => forall|j: int| 0 <= j < rules.len() ==> !rule_matches(#[trigger] rules[j], domain),
        },
{
    lemma_first_match_is_earliest(rules, domain);
    match first_match(rules, domain) {
        Some(i) => {
            assert forall|j: int| 0 <= j < rules.len() && rule_matches(#[trigger] rules[j], domain) implies rules[j].priority
                < rules[i].priority || (rules[j].priority == rules[i].priority && stamps[i] <= stamps[j]) by {
                if j < i {
                    assert(!rule_matches(rules[j], domain));
                } else if j > i {
                    assert(rules[i].priority >= rules[j].priority);
                }
            }
        },
        None => {},
    }
}

/// A disabled rule matches nothing.
pub proof fn law_disabled_rule_never_matches(rule: RewriteRule, domain: Seq<char>)
    requires
        !rule.enabled,
    ensures
        !rule_matches(rule, domain),
{
}

proof fn lemma_ascii_lower_len(s: Seq<char>)
    ensures
        ascii_lower(s).len() == s.len(),
{
}

proof fn lemma_ascii_concat(a: Seq<char>, b: Seq<char>)
    ensures
        all_ascii(a + b) == (all_ascii(a) && all_ascii(b)),
        ascii_lower(a + b) == ascii_lower(a) + ascii_lower(b),
{
    assert(ascii_lower(a + b) =~= ascii_lower(a) + ascii_lower(b));
    if all_ascii(a) && all_ascii(b) {
        assert forall|i: int| 0 <= i < (a + b).len() implies (#[trigger] (a + b)[i] as u32) < 128 by {
            if i < a.len() {
                assert((a + b)[i] == a[i]);
            } else {
                assert((a + b)[i] == b[i - a.len()]);
            }
        }
    }
    if all_ascii(a + b) {
        assert forall|i: int| 0 <= i < a.len() implies (#[trigger] a[i] as u32) < 128 by {
            assert((a + b)[i] == a[i]);
        }
        assert forall|i: int| 0 <= i < b.len() implies (#[trigger] b[i] as u32) < 128 by {
            assert((a + b)[a.len() + i] == b[i]);
        }
    }
}

/// An exact rule matches a domain that equals its pattern up to ASCII
/// letter case, and only domains of the pattern's length.
pub proof fn law_exact_match_ignores_ascii_case(rule: RewriteRule, domain: Seq<char>)
    requires
        rule.enabled,
        rule.match_type == MatchType::Exact,
        all_ascii(domain),
        all_ascii(rule.pattern@),
    ensures
        ascii_lower(domain) == ascii_lower(rule.pattern@) ==> rule_matches(rule, domain),
        rule_matches(rule, domain) ==> domain.len() == rule.pattern@.len(),
{
    lemma_ascii_lower_len(domain);
    lemma_ascii_lower_len(rule.pattern@);
}

/// A `*.base` wildcard rule matches every name one or more labels below
/// `base`, and does not match `base` itself.
pub proof fn law_wildcard_matches_subdomains_only(
    rule: RewriteRule,
    label: Seq<char>,
    base: Seq<char>,
)
    requires
        rule.enabled,
        rule.match_type == MatchType::Wildcard,
        rule.pattern@ == "*."@ + base,
        label.len() > 0,
        all_ascii(label),
        all_ascii(base),
    ensures
        rule_matches(rule, label + "."@ + base),
        !rule_matches(rule, base),
{
    reveal_strlit("*.");
    reveal_strlit(".");
    let star_dot = "*."@;
    let dot = "."@;
    assert(all_ascii(star_dot));
    assert(all_ascii(dot));
    assert(ascii_lower(star_dot) =~= star_dot);
    assert(ascii_lower(dot) =~= dot);
    lemma_ascii_concat(star_dot, base);
    let lb = ascii_lower(base);
    let p = lowercase(rule.pattern@);
    assert(p == star_dot + lb);
    assert(p[0] == '*' && p[1] == '.');
    let suffix = p.subrange(1, p.len() as int);
    assert(suffix =~= dot + lb);
    lemma_ascii_concat(label, dot);
    lemma_ascii_concat(label + dot, base);
    let d = lowercase(label + dot + base);
    assert(d == ascii_lower(label) + dot + lb);
    lemma_ascii_lower_len(label);
    lemma_ascii_lower_len(base);
    assert(d.subrange(d.len() - suffix.len(), d.len() as int) =~= suffix);
    assert(wildcard_match(d, p));
    assert(lowercase(base) == lb);
    assert(!wildcard_match(lb, p));
}

/// A `*.base` pattern matches a name exactly when the name is longer than
/// `.base` and ends with a dot followed by `base`: the character just
/// before `base` must be a dot, so `xbase` is never matched.
pub proof fn law_wildcard_suffix_follows_a_dot(d: Seq<char>, base: Seq<char>)
    ensures
        wildcard_match(d, seq!['*', '.'] + base) <==> (d.len() > base.len() + 1 && d[d.len() - base.len()
            - 1] == '.' && d.subrange(d.len() - base.len(), d.len() as int) == base),
{
    let p = seq!['*', '.'] + base;
    assert(p[0] == '*' && p[1] == '.');
    let suffix = p.subrange(1, p.len() as int);
    assert(suffix =~= seq!['.'] + base);
    if d.len() > base.len() + 1 {
        let tail = d.subrange(d.len() - suffix.len(), d.len() as int);
        assert(suffix.len() == base.len() + 1);
        assert(d[d.len() - base.len() - 1] == tail[0]);
        assert(d.subrange(d.len() - base.len(), d.len() as int) =~= tail.subrange(1, tail.len() as int));
        assert(suffix[0] == '.');
        assert(suffix.subrange(1, suffix.len() as int) =~= base);
        if tail == suffix {
            assert(d[d.len() - base.len() - 1] == '.');
            assert(d.subrange(d.len() - base.len(), d.len() as int) == base);
        }
        if d[d.len() - base.len() - 1] == '.' && d.subrange(d.len() - base.len(), d.len() as int) == base {
            assert forall|i: int| 0 <= i < suffix.len() implies tail[i] == suffix[i] by {
                if i > 0 {
                    assert(tail[i] == d.subrange(d.len() - base.len(), d.len() as int)[i - 1]);
                }
            }
            assert(tail =~= suffix);
        }
    }
}

/// A wildcard rule `*.base` (ASCII) matches a domain exactly when the
/// lowercased domain is longer than `.base` and ends with a dot followed
/// by the lowercased base.
pub proof fn law_wildcard_rule_needs_dot_before_base(rule: RewriteRule, base: Seq<char>, domain: Seq<char>)
    requires
        rule.enabled,
        rule.match_type == MatchType::Wildcard,
        rule.pattern@ == "*."@ + base,
        all_ascii(base),
    ensures
        rule_matches(rule, domain) <==> {
            let d = lowercase(domain);
            let lb = ascii_lower(base);
            &&& d.len() > lb.len() + 1
            &&& d[d.len() - lb.len() - 1] == '.'
            &&& d.subrange(d.len() - lb.len(), d.len() as int) == lb
        },
{
    reveal_strlit("*.");
    let star_dot = "*."@;
    assert(star_dot =~= seq!['*', '.']);
    assert(all_ascii(star_dot));
    assert(ascii_lower(star_dot) =~= star_dot);
    lemma_ascii_concat(star_dot, base);
    let lb = ascii_lower(base);
    assert(lowercase(rule.pattern@) == seq!['*', '.'] + lb);
    law_wildcard_suffix_follows_a_dot(lowercase(domain), lb);
}

/// A block or map-to-domain action read back from its own type name and
/// value is the same action.
pub proof fn law_action_parts_roundtrip(a: RewriteAction)
    requires
        !(a is MapToIp),
    ensures
        action_of_parts(action_type_name(a), action_value_text(a)) matches Some(b) && same_action(
            a,
            b,
        ),
{
    reveal_strlit("map_ip");
    reveal_strlit("maptoip");
    reveal_strlit("map_domain");
    reveal_strlit("maptodomain");
    reveal_strlit("block");
    let n = action_type_name(a);
    assert(all_ascii(n));
    assert(ascii_lower(n) =~= n);
    match a {
        RewriteAction::MapToDomain(d) => {
            assert(n.len() != 6);
            assert(n.len() != 7);
            let c = choose|s: String| s@ == d@;
            assert(exists|s: String| s@ == d@);
        },
        _ => {
            assert(n.len() != 6);
            assert(n.len() != 7);
            assert(n.len() != 10);
            assert(n.len() != 11);
        },
    }
}

} // verus!
