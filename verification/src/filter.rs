//! Real-time filtering.
//!
//! A [`FilterRule`] is an editable description; a [`FilterSet`] is the compiled form
//! that is evaluated per record. A record passes when every enabled rule accepts it.

use regex::Regex;
use vstd::prelude::*;
use crate::error::{DroidLogError, ErrorView, Result};
use crate::parser::record::{LogLevel, LogRecord, RecordView};
use crate::text::chars::{
    chars_of, clone_opt, clone_strings, concat2, concat3, has_string, lemma_views_push, opt_view, same, string_of, views,
};
use crate::text::laws::{lacks, law_ascii_folding, law_contains_is_infix, law_lists_read_back, same_letters};
use crate::text::class::{lower_chars, lowercase, Class};
use crate::text::number::{dec, dec_int, i32_text, parse_unsigned, u64_text, unsigned_of};
use crate::text::search::{contains, contains_chars, trim, trim_of};
use crate::text::split::{split, split_on};

verus! {

/// Which part of a record a rule inspects.
#[derive(Debug, Clone, Copy, PartialEq, Eq, Structural)]
pub enum FilterField {
    /// logcat tag.
    Tag,
    /// Message body.
    Message,
    /// Process id.
    Pid,
    /// Thread id.
    Tid,
    /// Owning uid.
    Uid,
    /// Resolved package name.
    Package,
    /// Severity.
    Level,
    /// Host receive time; only meaningful with [`FilterOp::WithinLast`].
    Received,
    /// Originating collector.
    Source,
}

/// What a field of a record says, as text.
pub open spec fn field_text(field: FilterField, record: RecordView) -> Option<Seq<char>> {
    match field {
        FilterField::Tag => record.fields.tag,
        FilterField::Message => Some(record.fields.message),
        FilterField::Package => record.package,
        FilterField::Pid => number_text(record.fields.pid),
        FilterField::Tid => number_text(record.fields.tid),
        FilterField::Uid => number_text(record.fields.uid),
        FilterField::Level => Some(record.fields.level.name()),
        FilterField::Received => Some(dec(record.received_at_ms as nat)),
        FilterField::Source => Some(record.source.name()),
    }
}

pub open spec fn number_text(number: Option<i32>) -> Option<Seq<char>> {
    match number {
        Some(number) => Some(dec_int(number as int)),
        None => None,
    }
}

fn number_string(number: Option<i32>) -> (r: Option<String>)
    ensures
        opt_view(r) == number_text(number),
{
    match number {
        Some(number) => Some(i32_text(number)),
        None => None,
    }
}

impl FilterField {
    pub open spec fn label_text(self) -> Seq<char> {
        match self {
            FilterField::Tag => "TAG"@,
            FilterField::Message => "消息"@,
            FilterField::Pid => "PID"@,
            FilterField::Tid => "TID"@,
            FilterField::Uid => "UID"@,
            FilterField::Package => "包名"@,
            FilterField::Level => "级别"@,
            FilterField::Received => "接收时间"@,
            FilterField::Source => "采集源"@,
        }
    }

    /// Every field, in display order.
    pub fn all() -> (r: [Self; 9])
        ensures
            r@ == seq![
                FilterField::Tag,
                FilterField::Message,
                FilterField::Pid,
                FilterField::Tid,
                FilterField::Uid,
                FilterField::Package,
                FilterField::Level,
                FilterField::Received,
                FilterField::Source,
            ],
    {
        let r: [FilterField; 9] = [
            FilterField::Tag,
            FilterField::Message,
            FilterField::Pid,
            FilterField::Tid,
            FilterField::Uid,
            FilterField::Package,
            FilterField::Level,
            FilterField::Received,
            FilterField::Source,
        ];
        assert(r@ =~= seq![
            FilterField::Tag,
            FilterField::Message,
            FilterField::Pid,
            FilterField::Tid,
            FilterField::Uid,
            FilterField::Package,
            FilterField::Level,
            FilterField::Received,
            FilterField::Source,
        ]);
        r
    }

    /// Short label for the filter panel.
    pub fn label(self) -> (r: &'static str)
        ensures
            r@ == self.label_text(),
    {
        match self {
            FilterField::Tag => "TAG",
            FilterField::Message => "消息",
            FilterField::Pid => "PID",
            FilterField::Tid => "TID",
            FilterField::Uid => "UID",
            FilterField::Package => "包名",
            FilterField::Level => "级别",
            FilterField::Received => "接收时间",
            FilterField::Source => "采集源",
        }
    }

    /// Reads this field out of a record.
    fn extract(self, record: &LogRecord) -> (r: Option<String>)
        ensures
            opt_view(r) == field_text(self, record@),
    {
        match self {
            FilterField::Tag => clone_opt(&record.tag),
            FilterField::Message => Some(record.message.clone()),
            FilterField::Package => clone_opt(&record.package),
            FilterField::Pid => number_string(record.pid),
            FilterField::Tid => number_string(record.tid),
            FilterField::Uid => number_string(record.uid),
            FilterField::Level => Some(record.level.to_string()),
            FilterField::Received => Some(u64_text(record.received_at_ms)),
            FilterField::Source => Some(record.source.to_string()),
        }
    }
}

/// How a rule compares a field with its value.
#[derive(Debug, Clone, Copy, PartialEq, Eq, Structural)]
pub enum FilterOp {
    /// Substring match.
    Contains,
    /// Substring must be absent.
    NotContains,
    /// Exact match.
    Equals,
    /// Exact mismatch.
    NotEquals,
    /// Regular expression match.
    Regex,
    /// Severity is at least the rule's level.
    MinLevel,
    /// Comma-separated membership test.
    In,
    /// Host receive time is within the last so many seconds.
    ///
    /// Rolling rather than an absolute range, because a live tail moves.
    WithinLast,
}

impl FilterOp {
    pub open spec fn label_text(self) -> Seq<char> {
        match self {
            FilterOp::Contains => "包含"@,
            FilterOp::NotContains => "不包含"@,
            FilterOp::Equals => "等于"@,
            FilterOp::NotEquals => "不等于"@,
            FilterOp::Regex => "正则"@,
            FilterOp::MinLevel => "不低于"@,
            FilterOp::In => "属于"@,
            FilterOp::WithinLast => "最近 N 秒"@,
        }
    }

    /// An operator that a record without the field satisfies.
    pub open spec fn negative(self) -> bool {
        self == FilterOp::NotContains || self == FilterOp::NotEquals
    }

    /// An operator that needs a value to compare with.
    pub open spec fn needs_value(self) -> bool {
        self == FilterOp::Contains || self == FilterOp::Equals || self == FilterOp::In
    }

    /// Every operator, in display order.
    pub fn all() -> (r: [Self; 8])
        ensures
            r@ == seq![
                FilterOp::Contains,
                FilterOp::NotContains,
                FilterOp::Equals,
                FilterOp::NotEquals,
                FilterOp::Regex,
                FilterOp::MinLevel,
                FilterOp::In,
                FilterOp::WithinLast,
            ],
    {
        let r: [FilterOp; 8] = [
            FilterOp::Contains,
            FilterOp::NotContains,
            FilterOp::Equals,
            FilterOp::NotEquals,
            FilterOp::Regex,
            FilterOp::MinLevel,
            FilterOp::In,
            FilterOp::WithinLast,
        ];
        assert(r@ =~= seq![
            FilterOp::Contains,
            FilterOp::NotContains,
            FilterOp::Equals,
            FilterOp::NotEquals,
            FilterOp::Regex,
            FilterOp::MinLevel,
            FilterOp::In,
            FilterOp::WithinLast,
        ]);
        r
    }

    /// Short label for the filter panel.
    pub fn label(self) -> (r: &'static str)
        ensures
            r@ == self.label_text(),
    {
        match self {
            FilterOp::Contains => "包含",
            FilterOp::NotContains => "不包含",
            FilterOp::Equals => "等于",
            FilterOp::NotEquals => "不等于",
            FilterOp::Regex => "正则",
            FilterOp::MinLevel => "不低于",
            FilterOp::In => "属于",
            FilterOp::WithinLast => "最近 N 秒",
        }
    }
}

/// A user-authored filter rule.
#[derive(Debug, PartialEq, Eq)]
pub struct FilterRule {
    /// Stable id, by which a rule is edited and deleted.
    pub id: String,
    /// Disabled rules are kept but ignored.
    pub enabled: bool,
    /// Field to inspect.
    pub field: FilterField,
    /// Comparison to apply.
    pub op: FilterOp,
    /// User-supplied comparison value.
    pub value: String,
    /// Case sensitivity of the text operators.
    pub case_sensitive: bool,
}

#[verifier::ext_equal]
pub struct RuleView {
    pub id: Seq<char>,
    pub enabled: bool,
    pub field: FilterField,
    pub op: FilterOp,
    pub value: Seq<char>,
    pub case_sensitive: bool,
}

impl View for FilterRule {
    type V = RuleView;

    open spec fn view(&self) -> RuleView {
        RuleView {
            id: self.id@,
            enabled: self.enabled,
            field: self.field,
            op: self.op,
            value: self.value@,
            case_sensitive: self.case_sensitive,
        }
    }
}

impl Clone for FilterRule {
    fn clone(&self) -> (r: Self)
        ensures
            r@ == self@,
    {
        FilterRule {
            id: self.id.clone(),
            enabled: self.enabled,
            field: self.field,
            op: self.op,
            value: self.value.clone(),
            case_sensitive: self.case_sensitive,
        }
    }
}

impl FilterRule {
    /// Builds an enabled rule that does not look at case.
    pub fn new(id: &str, field: FilterField, op: FilterOp, value: &str) -> (r: Self)
        ensures
            r@ == (RuleView { id: id@, enabled: true, field, op, value: value@, case_sensitive: false }),
    {
        FilterRule {
            id: id.to_owned(),
            enabled: true,
            field,
            op,
            value: value.to_owned(),
            case_sensitive: false,
        }
    }

    /// A rule that keeps only records at or above `level`.
    pub fn min_level(level: LogLevel) -> (r: Self)
        ensures
            r@ == (RuleView {
                id: "min-level"@,
                enabled: true,
                field: FilterField::Level,
                op: FilterOp::MinLevel,
                value: level.name(),
                case_sensitive: false,
            }),
    {
        FilterRule {
            id: "min-level".to_owned(),
            enabled: true,
            field: FilterField::Level,
            op: FilterOp::MinLevel,
            value: level.to_string(),
            case_sensitive: false,
        }
    }
}

/// [`regex::Regex`], a compiled regular expression.
#[verifier::external_type_specification]
#[verifier::external_body]
pub struct ExRegex(regex::Regex);

/// The pattern that a regular expression was compiled from.
pub uninterp spec fn regex_source(re: Regex) -> Seq<char>;

/// Why a pattern is not a regular expression, or nothing where it is one.
pub uninterp spec fn regex_error(pattern: Seq<char>) -> Option<Seq<char>>;

/// Whether the pattern matches somewhere in the text.
pub uninterp spec fn regex_finds(pattern: Seq<char>, text: Seq<char>) -> bool;

/// Calls `Regex::new`, and turns the error that it may give into its text.
///
/// Whether the pattern compiles, and what the error says, depends on the pattern
/// alone; the expression keeps the pattern it was compiled from. What makes a
/// pattern well formed is not said.
#[verifier::external_body]
fn compile_regex(pattern: &str) -> (r: std::result::Result<Regex, String>)
    ensures
        match r {
            Ok(re) => regex_error(pattern@) is None && regex_source(re) == pattern@,
            Err(text) => regex_error(pattern@) == Some(text@),
        },
{
    Regex::new(pattern).map_err(|error| error.to_string())
}

/// Calls `Regex::is_match`.
///
/// The answer depends on the pattern and on the text alone. Which texts a pattern
/// matches is not said.
#[verifier::external_body]
fn regex_matches(re: &Regex, text: &str) -> (r: bool)
    ensures
        r == regex_finds(regex_source(*re), text@),
{
    re.is_match(text)
}

/// Calls `Regex::clone`. The copy was compiled from the same pattern.
#[verifier::external_body]
fn copy_regex(re: &Regex) -> (r: Regex)
    ensures
        regex_source(r) == regex_source(*re),
{
    re.clone()
}

impl RuleView {
    /// The pattern of a regular expression rule, with its case setting.
    pub open spec fn pattern(self) -> Seq<char> {
        if self.case_sensitive {
            self.value
        } else {
            "(?i)"@ + self.value
        }
    }

    /// The members of a list value: trimmed, in lower case, without empty ones.
    pub open spec fn members(self) -> Seq<Seq<char>> {
        list_members(split(self.value, Class::One(',')))
    }

    /// The length of a rolling window in seconds.
    pub open spec fn window_seconds(self) -> Option<nat> {
        parse_unsigned(trim(self.value, Class::Space), u64::MAX as nat)
    }

    /// The length of a rolling window in milliseconds, as far as 64 bits hold it.
    pub open spec fn window_ms(self) -> nat {
        match self.window_seconds() {
            Some(seconds) => crate::ring::saturating(seconds * 1000),
            None => 0,
        }
    }

    /// Why the rule cannot be applied, if it cannot.
    pub open spec fn fault(self) -> Option<Seq<char>> {
        if self.op == FilterOp::Regex {
            match regex_error(self.pattern()) {
                Some(text) => Some("正则无效："@ + text),
                None => None,
            }
        } else if self.op == FilterOp::MinLevel {
            match LogLevel::named(self.value) {
                Some(_) => None,
                None => Some("日志级别无效："@ + self.value),
            }
        } else if self.op.needs_value() && self.value.len() == 0 {
            Some("规则 "@ + self.id + " 的比较值为空"@)
        } else if self.op == FilterOp::WithinLast {
            match self.window_seconds() {
                Some(seconds) => if seconds == 0 {
                    Some("时间窗口必须大于 0 秒"@)
                } else {
                    None
                },
                None => Some("时间窗口需要秒数："@ + self.value),
            }
        } else {
            None
        }
    }

    /// Whether the rule, if it can be applied, accepts a record when the clock says
    /// `now`.
    pub open spec fn accepts(self, record: RecordView, now: u64) -> bool {
        if self.op == FilterOp::WithinLast {
            crate::ring::saturating(record.received_at_ms as nat + self.window_ms()) >= now
        } else {
            match field_text(self.field, record) {
                None => self.op.negative(),
                Some(text) => match self.op {
                    FilterOp::Regex => regex_finds(self.pattern(), text),
                    FilterOp::MinLevel => match LogLevel::named(self.value) {
                        Some(min) => record.fields.level.passes(min),
                        None => false,
                    },
                    FilterOp::In => self.members().contains(lowercase(text)),
                    _ => compares(
                        self.op,
                        folded(text, self.case_sensitive),
                        folded(self.value, self.case_sensitive),
                    ),
                },
            }
        }
    }
}

/// The members among the pieces of a list.
pub open spec fn list_members(pieces: Seq<Seq<char>>) -> Seq<Seq<char>>
    decreases pieces.len(),
{
    if pieces.len() == 0 {
        seq![]
    } else {
        let member = lowercase(trim(pieces.last(), Class::Space));
        if member.len() == 0 {
            list_members(pieces.drop_last())
        } else {
            list_members(pieces.drop_last()).push(member)
        }
    }
}

/// Text as it is compared: in lower case, unless case matters.
pub open spec fn folded(text: Seq<char>, case_sensitive: bool) -> Seq<char> {
    if case_sensitive {
        text
    } else {
        lowercase(text)
    }
}

/// The operators that compare two texts.
pub open spec fn compares(op: FilterOp, text: Seq<char>, value: Seq<char>) -> bool {
    match op {
        FilterOp::Contains => contains(text, value),
        FilterOp::NotContains => !contains(text, value),
        FilterOp::Equals => text == value,
        FilterOp::NotEquals => text != value,
        _ => false,
    }
}

/// Compares two texts whose case has been settled.
pub fn compare_text(op: FilterOp, text: &[char], value: &[char]) -> (r: bool)
    ensures
        r == compares(op, text@, value@),
{
    match op {
        FilterOp::Contains => contains_chars(text, value),
        FilterOp::NotContains => !contains_chars(text, value),
        FilterOp::Equals => same(text, value),
        FilterOp::NotEquals => !same(text, value),
        _ => false,
    }
}

/// Case-folds `text` unless case matters.
fn fold(text: &str, case_sensitive: bool) -> (r: Vec<char>)
    ensures
        r@ == folded(text@, case_sensitive),
{
    if case_sensitive {
        chars_of(text)
    } else {
        lower_chars(text)
    }
}

/// A rule with everything that can be worked out before a record comes.
#[derive(Debug)]
pub struct CompiledRule {
    rule: FilterRule,
    regex: Option<Regex>,
    level: Option<LogLevel>,
    members: Vec<String>,
    /// Window length in milliseconds, for [`FilterOp::WithinLast`].
    window_ms: Option<u64>,
}

impl View for CompiledRule {
    type V = RuleView;

    closed spec fn view(&self) -> RuleView {
        self.rule@
    }
}

impl CompiledRule {
    /// What was worked out is what the rule says.
    #[verifier::type_invariant]
    spec fn worked_out(self) -> bool {
        let rule = self.rule@;
        &&& rule.fault() is None
        &&& rule.op == FilterOp::Regex ==> (self.regex matches Some(re) && regex_source(re) == rule.pattern())
        &&& rule.op == FilterOp::MinLevel ==> self.level == LogLevel::named(rule.value)
        &&& rule.op == FilterOp::In ==> views(self.members@) == rule.members()
        &&& rule.op == FilterOp::WithinLast ==> (self.window_ms matches Some(ms) && ms as nat == rule.window_ms())
    }

    /// Evaluates this rule against `record`, when the clock says `now`.
    pub fn matches_at(&self, record: &LogRecord, now: u64) -> (r: bool)
        ensures
            r == self@.accepts(record@, now),
    {
        proof {
            use_type_invariant(self);
        }
        // The rolling window compares clocks rather than text.
        if self.rule.op == FilterOp::WithinLast {
            return match self.window_ms {
                Some(window) => record.received_at_ms.saturating_add(window) >= now,
                None => false,
            };
        }
        let raw: String = match self.rule.field.extract(record) {
            Some(raw) => raw,
            // "No tag" trivially "does not contain X"; a positive operator fails
            // rather than matching by accident.
            None => return self.rule.op == FilterOp::NotContains || self.rule.op == FilterOp::NotEquals,
        };
        match self.rule.op {
            FilterOp::Regex => match &self.regex {
                Some(re) => regex_matches(re, raw.as_str()),
                None => false,
            },
            FilterOp::MinLevel => match self.level {
                Some(min) => record.level.passes_min(min),
                None => false,
            },
            FilterOp::In => {
                let text: Vec<char> = fold(raw.as_str(), false);
                has_string(&self.members, string_of(text.as_slice()).as_str())
            }
            _ => {
                let text: Vec<char> = fold(raw.as_str(), self.rule.case_sensitive);
                let value: Vec<char> = fold(self.rule.value.as_str(), self.rule.case_sensitive);
                compare_text(self.rule.op, text.as_slice(), value.as_slice())
            }
        }
    }
}

impl Clone for CompiledRule {
    fn clone(&self) -> (r: Self)
        ensures
            r@ == self@,
    {
        proof {
            use_type_invariant(self);
        }
        CompiledRule {
            rule: self.rule.clone(),
            regex: match &self.regex {
                Some(re) => Some(copy_regex(re)),
                None => None,
            },
            level: self.level,
            members: clone_strings(&self.members),
            window_ms: self.window_ms,
        }
    }
}

/// The members of a list value.
fn members_of(value: &str) -> (r: Vec<String>)
    ensures
        views(r@) == list_members(split(value@, Class::One(','))),
{
    let cs: Vec<char> = chars_of(value);
    let pieces: Vec<&[char]> = split_on(cs.as_slice(), Class::One(','));
    let ghost all = views(pieces@);
    let mut r: Vec<String> = Vec::new();
    assert(views(r@) =~= seq![]);
    let mut i: usize = 0;
    while i < pieces.len()
        invariant
            i <= pieces@.len(),
            all == views(pieces@),
            views(r@) == list_members(all.take(i as int)),
        decreases pieces@.len() - i,
    {
        assert(all.take(i as int + 1).drop_last() =~= all.take(i as int));
        assert(all.take(i as int + 1).last() == pieces@[i as int]@);
        let piece: String = string_of(trim_of(pieces[i], Class::Space));
        let member: Vec<char> = lower_chars(piece.as_str());
        if member.len() > 0 {
            let text: String = string_of(member.as_slice());
            proof {
                lemma_views_push(r@, text);
            }
            r.push(text);
        }
        i += 1;
    }
    assert(all.take(i as int) =~= all);
    r
}

/// A rolling window in milliseconds, or why the value is none.
fn window_of(value: &str) -> (r: std::result::Result<u64, String>)
    ensures
        match (r, parse_unsigned(trim(value@, Class::Space), u64::MAX as nat)) {
            (Ok(ms), Some(seconds)) => seconds > 0 && ms as nat == crate::ring::saturating(seconds * 1000),
            (Err(text), Some(seconds)) => seconds == 0 && text@ == "时间窗口必须大于 0 秒"@,
            (Err(text), None) => text@ == "时间窗口需要秒数："@ + value@,
            (Ok(_), None) => false,
        },
{
    let cs: Vec<char> = chars_of(value);
    match unsigned_of(trim_of(cs.as_slice(), Class::Space), u64::MAX) {
        Some(seconds) => {
            if seconds == 0 {
                Err("时间窗口必须大于 0 秒".to_owned())
            } else if seconds > u64::MAX / 1000 {
                Ok(u64::MAX)
            } else {
                Ok(seconds * 1000)
            }
        }
        None => Err(concat2("时间窗口需要秒数：", value)),
    }
}

/// Works out whatever the operator of a rule needs.
fn compile_rule(rule: &FilterRule) -> (r: Result<CompiledRule>)
    ensures
        match r {
            Ok(compiled) => rule@.fault() is None && compiled@ == rule@,
            Err(error) => rule@.fault() matches Some(reason) && error@ == ErrorView::InvalidFilter(reason),
        },
{
    let mut regex: Option<Regex> = None;
    if rule.op == FilterOp::Regex {
        let pattern: String = if rule.case_sensitive {
            rule.value.clone()
        } else {
            concat2("(?i)", rule.value.as_str())
        };
        match compile_regex(pattern.as_str()) {
            Ok(re) => {
                regex = Some(re);
            }
            Err(text) => {
                return Err(DroidLogError::InvalidFilter(concat2("正则无效：", text.as_str())));
            }
        }
    }
    let mut level: Option<LogLevel> = None;
    if rule.op == FilterOp::MinLevel {
        level = LogLevel::from_name(rule.value.as_str());
        if level.is_none() {
            return Err(DroidLogError::InvalidFilter(concat2("日志级别无效：", rule.value.as_str())));
        }
    }
    if (rule.op == FilterOp::Contains || rule.op == FilterOp::Equals || rule.op == FilterOp::In)
        && rule.value.as_str().is_empty() {
        return Err(DroidLogError::InvalidFilter(concat3("规则 ", rule.id.as_str(), " 的比较值为空")));
    }
    let members: Vec<String> = if rule.op == FilterOp::In {
        members_of(rule.value.as_str())
    } else {
        Vec::new()
    };
    let mut window_ms: Option<u64> = None;
    if rule.op == FilterOp::WithinLast {
        match window_of(rule.value.as_str()) {
            Ok(ms) => {
                window_ms = Some(ms);
            }
            Err(text) => {
                return Err(DroidLogError::InvalidFilter(text));
            }
        }
    }
    Ok(CompiledRule { rule: rule.clone(), regex, level, members, window_ms })
}

/// A compiled collection of rules.
#[derive(Debug)]
pub struct FilterSet {
    rules: Vec<CompiledRule>,
}

/// The enabled rules, in order.
pub open spec fn enabled_rules(rules: Seq<RuleView>) -> Seq<RuleView>
    decreases rules.len(),
{
    if rules.len() == 0 {
        seq![]
    } else if rules.last().enabled {
        enabled_rules(rules.drop_last()).push(rules.last())
    } else {
        enabled_rules(rules.drop_last())
    }
}

/// Why the first enabled rule that cannot be applied cannot be, if there is one.
pub open spec fn first_fault(rules: Seq<RuleView>) -> Option<Seq<char>>
    decreases rules.len(),
{
    if rules.len() == 0 {
        None
    } else {
        match first_fault(rules.drop_last()) {
            Some(reason) => Some(reason),
            None => if rules.last().enabled {
                rules.last().fault()
            } else {
                None
            },
        }
    }
}

/// Every rule accepts the record.
pub open spec fn all_accept(rules: Seq<RuleView>, record: RecordView, now: u64) -> bool {
    forall|i: int| 0 <= i < rules.len() ==> (#[trigger] rules[i]).accepts(record, now)
}

/// No rule looks at the clock.
pub open spec fn timeless(rules: Seq<RuleView>) -> bool {
    forall|i: int| 0 <= i < rules.len() ==> (#[trigger] rules[i]).op != FilterOp::WithinLast
}

/// The records that every rule accepts, in order.
pub open spec fn accepted(rules: Seq<RuleView>, records: Seq<LogRecord>, now: u64) -> Seq<LogRecord>
    decreases records.len(),
{
    if records.len() == 0 {
        seq![]
    } else {
        let last = records.last();
        if all_accept(rules, last@, now) {
            accepted(rules, records.drop_last(), now).push(last)
        } else {
            accepted(rules, records.drop_last(), now)
        }
    }
}

impl View for FilterSet {
    type V = Seq<RuleView>;

    closed spec fn view(&self) -> Seq<RuleView> {
        views(self.rules@)
    }
}

impl Default for FilterSet {
    fn default() -> (r: Self)
        ensures
            r@ == Seq::<RuleView>::empty(),
    {
        let r: FilterSet = FilterSet { rules: Vec::new() };
        assert(r@ =~= Seq::<RuleView>::empty());
        r
    }
}

impl Clone for FilterSet {
    fn clone(&self) -> (r: Self)
        ensures
            r@ == self@,
    {
        let mut rules: Vec<CompiledRule> = Vec::new();
        let mut i: usize = 0;
        while i < self.rules.len()
            invariant
                i <= self.rules@.len(),
                views(rules@) =~= views(self.rules@).take(i as int),
            decreases self.rules@.len() - i,
        {
            let rule: CompiledRule = self.rules[i].clone();
            proof {
                lemma_views_push(rules@, rule);
                assert(views(self.rules@)[i as int] == rule@);
            }
            rules.push(rule);
            i += 1;
        }
        FilterSet { rules }
    }
}

impl FilterSet {
    /// Compiles `rules`, skipping disabled ones.
    ///
    /// An enabled rule whose pattern does not compile, whose level or window cannot
    /// be read, or whose operator lacks its value, is an error.
    pub fn compile(rules: &[FilterRule]) -> (r: Result<Self>)
        ensures
            match r {
                Ok(set) => first_fault(views(rules@)) is None && set@ == enabled_rules(views(rules@)),
                Err(error) => first_fault(views(rules@)) matches Some(reason) && error@
                    == ErrorView::InvalidFilter(reason),
            },
    {
        let mut compiled: Vec<CompiledRule> = Vec::new();
        let ghost all = views(rules@);
        assert(views(compiled@) =~= seq![]);
        let mut i: usize = 0;
        while i < rules.len()
            invariant
                i <= rules@.len(),
                all == views(rules@),
                first_fault(all.take(i as int)) is None,
                views(compiled@) == enabled_rules(all.take(i as int)),
            decreases rules@.len() - i,
        {
            assert(all.take(i as int + 1).drop_last() =~= all.take(i as int));
            assert(all.take(i as int + 1).last() == rules@[i as int]@);
            if rules[i].enabled {
                match compile_rule(&rules[i]) {
                    Ok(rule) => {
                        proof {
                            lemma_views_push(compiled@, rule);
                        }
                        compiled.push(rule);
                    }
                    Err(error) => {
                        proof {
                            lemma_fault_stays(all, i as int + 1);
                        }
                        return Err(error);
                    }
                }
            }
            i += 1;
        }
        assert(all.take(i as int) =~= all);
        Ok(FilterSet { rules: compiled })
    }

    /// An empty set that accepts every record.
    pub fn accept_all() -> (r: Self)
        ensures
            r@ == Seq::<RuleView>::empty(),
    {
        FilterSet::default()
    }

    /// Number of active rules.
    pub fn len(&self) -> (r: usize)
        ensures
            r as nat == self@.len(),
    {
        self.rules.len()
    }

    /// True when no rule constrains the stream.
    pub fn is_empty(&self) -> (r: bool)
        ensures
            r == (self@.len() == 0),
    {
        self.rules.len() == 0
    }

    /// True when `record` satisfies every active rule, when the clock says `now`.
    pub fn matches_at(&self, record: &LogRecord, now: u64) -> (r: bool)
        ensures
            r == all_accept(self@, record@, now),
    {
        let mut i: usize = 0;
        while i < self.rules.len()
            invariant
                i <= self.rules@.len(),
                forall|j: int| 0 <= j < i ==> (#[trigger] self@[j]).accepts(record@, now),
            decreases self.rules@.len() - i,
        {
            assert(self@[i as int] == self.rules@[i as int]@);
            if !self.rules[i].matches_at(record, now) {
                return false;
            }
            i += 1;
        }
        true
    }

    /// True when `record` satisfies every active rule now.
    pub fn matches(&self, record: &LogRecord) -> (r: bool)
        ensures
            exists|now: u64| r == all_accept(self@, record@, now),
            timeless(self@) ==> r == all_accept(self@, record@, 0),
    {
        let now: u64 = crate::clock::now_ms();
        proof {
            if timeless(self@) {
                law_clock_matters_only_to_windows(self@, record@, now, 0);
            }
        }
        self.matches_at(record, now)
    }

    /// Filters a slice at `now`, preserving order.
    pub fn apply_at<'a>(&self, records: &'a [LogRecord], now: u64) -> (r: Vec<&'a LogRecord>)
        ensures
            r@.map_values(|record: &'a LogRecord| *record) == accepted(self@, records@, now),
    {
        let mut r: Vec<&'a LogRecord> = Vec::new();
        let mut i: usize = 0;
        assert(r@.map_values(|record: &'a LogRecord| *record) =~= seq![]);
        while i < records.len()
            invariant
                i <= records@.len(),
                r@.map_values(|record: &'a LogRecord| *record) == accepted(self@, records@.take(i as int), now),
            decreases records@.len() - i,
        {
            let ghost before = r@;
            assert(records@.take(i as int + 1).drop_last() =~= records@.take(i as int));
            if self.matches_at(&records[i], now) {
                r.push(&records[i]);
                assert(r@.map_values(|record: &'a LogRecord| *record) =~= before.map_values(
                    |record: &'a LogRecord| *record,
                ).push(records@[i as int]));
            }
            i += 1;
        }
        assert(records@.take(i as int) =~= records@);
        r
    }

    /// Filters a slice, preserving order.
    pub fn apply<'a>(&self, records: &'a [LogRecord]) -> (r: Vec<&'a LogRecord>)
        ensures
            exists|now: u64|
                r@.map_values(|record: &'a LogRecord| *record) == #[trigger] accepted(self@, records@, now),
            timeless(self@) ==> r@.map_values(|record: &'a LogRecord| *record) == accepted(self@, records@, 0),
    {
        let now: u64 = crate::clock::now_ms();
        proof {
            if timeless(self@) {
                lemma_timeless_acceptance(self@, records@, now, 0);
            }
        }
        self.apply_at(records, now)
    }
}

/// A fault found early is the fault of the whole list.
proof fn lemma_fault_stays(rules: Seq<RuleView>, n: int)
    requires
        0 <= n <= rules.len(),
        first_fault(rules.take(n)) is Some,
    ensures
        first_fault(rules) == first_fault(rules.take(n)),
    decreases rules.len() - n,
{
    if n < rules.len() {
        assert(rules.take(n + 1).drop_last() =~= rules.take(n));
        lemma_fault_stays(rules, n + 1);
    } else {
        assert(rules.take(n) =~= rules);
    }
}

/// Without a rolling window a whole slice is filtered alike at all times.
proof fn lemma_timeless_acceptance(rules: Seq<RuleView>, records: Seq<LogRecord>, now: u64, later: u64)
    requires
        timeless(rules),
    ensures
        accepted(rules, records, now) == accepted(rules, records, later),
    decreases records.len(),
{
    if records.len() > 0 {
        let last = records.last();
        law_clock_matters_only_to_windows(rules, last@, now, later);
        lemma_timeless_acceptance(rules, records.drop_last(), now, later);
    }
}

/// Without a rolling window the answer does not depend on the clock.
pub proof fn law_clock_matters_only_to_windows(
    rules: Seq<RuleView>,
    record: RecordView,
    now: u64,
    later: u64,
)
    requires
        timeless(rules),
    ensures
        all_accept(rules, record, now) == all_accept(rules, record, later),
{
    assert forall|i: int| 0 <= i < rules.len() implies (#[trigger] rules[i]).accepts(record, now)
        == rules[i].accepts(record, later) by {
        assert(rules[i].op != FilterOp::WithinLast);
    }
    if all_accept(rules, record, now) {
        assert forall|i: int| 0 <= i < rules.len() implies (#[trigger] rules[i]).accepts(
            record,
            later,
        ) by {
            assert(rules[i].accepts(record, now));
        }
    }
    if all_accept(rules, record, later) {
        assert forall|i: int| 0 <= i < rules.len() implies (#[trigger] rules[i]).accepts(
            record,
            now,
        ) by {
            assert(rules[i].accepts(record, later));
        }
    }
}

/// Rules are conjunctive: adding an enabled rule keeps exactly those records that
/// it accepts as well, and adding a disabled one changes nothing.
pub proof fn law_rules_are_conjunctive(
    rules: Seq<RuleView>,
    extra: RuleView,
    record: RecordView,
    now: u64,
)
    ensures
        ({
            let before = all_accept(enabled_rules(rules), record, now);
            let after = all_accept(enabled_rules(rules.push(extra)), record, now);
            after == (before && (extra.enabled ==> extra.accepts(record, now)))
        }),
        all_accept(enabled_rules(Seq::<RuleView>::empty()), record, now),
{
    assert(rules.push(extra).drop_last() =~= rules);
    let old_rules = enabled_rules(rules);
    let new_rules = enabled_rules(rules.push(extra));
    if extra.enabled {
        assert(new_rules == old_rules.push(extra));
        if all_accept(new_rules, record, now) {
            assert(new_rules[old_rules.len() as int].accepts(record, now));
            assert forall|i: int| 0 <= i < old_rules.len() implies (#[trigger] old_rules[i]).accepts(
                record,
                now,
            ) by {
                assert(new_rules[i].accepts(record, now));
            }
        }
        if all_accept(old_rules, record, now) && extra.accepts(record, now) {
            assert forall|i: int| 0 <= i < new_rules.len() implies (#[trigger] new_rules[i]).accepts(
                record,
                now,
            ) by {
                if i < old_rules.len() {
                    assert(old_rules[i].accepts(record, now));
                }
            }
        }
    }
}

/// A record that lacks the field of a rule satisfies the negative operators only,
/// and a record of unknown severity satisfies every minimum.
pub proof fn law_missing_fields(rule: RuleView, record: RecordView, now: u64)
    requires
        rule.op != FilterOp::WithinLast,
    ensures
        field_text(rule.field, record) is None ==> rule.accepts(record, now)
            == rule.op.negative(),
        rule.op == FilterOp::MinLevel && rule.field == FilterField::Level && rule.fault() is None
            && record.fields.level == LogLevel::Unknown ==> rule.accepts(record, now),
{
}

/// A rolling window is closed under age: a record that has just been received passes,
/// what an older record passes, a newer one passes, and what passes later passed earlier.
pub proof fn law_windows_roll(rule: RuleView, older: RecordView, newer: RecordView, now: u64, later: u64)
    requires
        rule.op == FilterOp::WithinLast,
        older.received_at_ms <= newer.received_at_ms,
        now <= later,
    ensures
        newer.received_at_ms >= now ==> rule.accepts(newer, now),
        rule.accepts(older, now) ==> rule.accepts(newer, now),
        rule.accepts(older, later) ==> rule.accepts(older, now),
{
}

/// The record has the field, and this is what it reads.
pub open spec fn reads(record: RecordView, field: FilterField, text: Seq<char>) -> bool {
    match field {
        FilterField::Tag => record.fields.tag == Some(text),
        FilterField::Message => record.fields.message == text,
        FilterField::Pid => record.fields.pid matches Some(n) && text == dec_int(n as int),
        FilterField::Tid => record.fields.tid matches Some(n) && text == dec_int(n as int),
        FilterField::Uid => record.fields.uid matches Some(n) && text == dec_int(n as int),
        FilterField::Package => record.package == Some(text),
        FilterField::Level => text == match record.fields.level {
            LogLevel::Verbose => "verbose"@,
            LogLevel::Debug => "debug"@,
            LogLevel::Info => "info"@,
            LogLevel::Warn => "warn"@,
            LogLevel::Error => "error"@,
            LogLevel::Fatal => "fatal"@,
            LogLevel::Unknown => "unknown"@,
        },
        FilterField::Received => text == dec(record.received_at_ms as nat),
        FilterField::Source => text == match record.source {
            crate::source::LogSourceKind::Logcat => "logcat"@,
            crate::source::LogSourceKind::Dmesg => "dmesg"@,
            crate::source::LogSourceKind::Kmsg => "kmsg"@,
            crate::source::LogSourceKind::Crash => "crash"@,
            crate::source::LogSourceKind::Boot => "boot"@,
            crate::source::LogSourceKind::Recovery => "recovery"@,
        },
    }
}

/// The same rule with another operator.
pub open spec fn with_op(rule: RuleView, op: FilterOp) -> RuleView {
    RuleView { op, ..rule }
}

/// An operator and its negation are complements: of two rules that differ in it alone,
/// exactly one accepts a record that has the field, and of a record that lacks it only
/// the negation does.
pub proof fn law_negations_are_complements(rule: RuleView, record: RecordView, text: Seq<char>, now: u64)
    ensures
        reads(record, rule.field, text) ==> {
            &&& with_op(rule, FilterOp::Contains).accepts(record, now) != with_op(
                rule,
                FilterOp::NotContains,
            ).accepts(record, now)
            &&& with_op(rule, FilterOp::Equals).accepts(record, now) != with_op(rule, FilterOp::NotEquals).accepts(
                record,
                now,
            )
        },
        (forall|t: Seq<char>| !reads(record, rule.field, t)) ==> {
            &&& with_op(rule, FilterOp::NotContains).accepts(record, now)
            &&& with_op(rule, FilterOp::NotEquals).accepts(record, now)
            &&& !with_op(rule, FilterOp::Contains).accepts(record, now)
            &&& !with_op(rule, FilterOp::Equals).accepts(record, now)
            &&& !with_op(rule, FilterOp::Regex).accepts(record, now)
            &&& !with_op(rule, FilterOp::In).accepts(record, now)
        },
{
    match field_text(rule.field, record) {
        Some(t) => {
            assert(reads(record, rule.field, t));
        },
        None => {},
    }
}

/// A rule about a text, with regard to case: it contains the value exactly where it is
/// the value with something around it, and equals it exactly where it is the value.
pub proof fn law_text_rules(rule: RuleView, record: RecordView, text: Seq<char>, now: u64)
    requires
        reads(record, rule.field, text),
        rule.case_sensitive,
    ensures
        with_op(rule, FilterOp::Contains).accepts(record, now) <==> exists|a: Seq<char>, b: Seq<char>|
            text == #[trigger] (a + rule.value + b),
        with_op(rule, FilterOp::NotContains).accepts(record, now) <==> forall|a: Seq<char>, b: Seq<char>|
            text != #[trigger] (a + rule.value + b),
        with_op(rule, FilterOp::Equals).accepts(record, now) <==> text == rule.value,
        with_op(rule, FilterOp::NotEquals).accepts(record, now) <==> text != rule.value,
        with_op(rule, FilterOp::Regex).accepts(record, now) == regex_finds(rule.value, text),
{
    law_contains_is_infix(text, rule.value);
    assert(field_text(rule.field, record) == Some(text));
}

/// A rule about an ASCII text, without regard to case: it contains the value exactly
/// where a part of it is the value but for case, and equals it exactly where it is the
/// value but for case.
pub proof fn law_text_rules_fold_case(rule: RuleView, record: RecordView, text: Seq<char>, now: u64)
    requires
        reads(record, rule.field, text),
        !rule.case_sensitive,
        vstd::utf8::is_ascii_chars(text),
        vstd::utf8::is_ascii_chars(rule.value),
    ensures
        with_op(rule, FilterOp::Contains).accepts(record, now) <==> exists|i: int|
            0 <= i && i + rule.value.len() <= text.len() && same_letters(
                #[trigger] text.subrange(i, i + rule.value.len()),
                rule.value,
            ),
        with_op(rule, FilterOp::Equals).accepts(record, now) <==> same_letters(text, rule.value),
        with_op(rule, FilterOp::Regex).accepts(record, now) == regex_finds(seq!['(', '?', 'i', ')'] + rule.value, text),
{
    let value = rule.value;
    let t = crate::text::class::ascii_lower(text);
    let v = crate::text::class::ascii_lower(value);
    assert(field_text(rule.field, record) == Some(text));
    law_ascii_folding(text, value);
    reveal_strlit("(?i)");
    assert("(?i)"@ =~= seq!['(', '?', 'i', ')']);
    assert forall|i: int| 0 <= i && i + value.len() <= text.len() implies crate::text::search::occurs_at(t, v, i)
        == same_letters(#[trigger] text.subrange(i, i + value.len()), value) by {
        let part = text.subrange(i, i + value.len());
        law_ascii_folding(part, value);
        assert(crate::text::class::ascii_lower(part) =~= t.subrange(i, i + value.len()));
        assert(v.len() == value.len());
    }
    if contains(t, v) {
        let i = choose|i: int| crate::text::search::occurs_at(t, v, i);
        assert(v.len() == value.len() && t.len() == text.len());
        assert(same_letters(text.subrange(i, i + value.len()), value));
    }
    if exists|i: int|
        0 <= i && i + value.len() <= text.len() && same_letters(#[trigger] text.subrange(i, i + value.len()), value) {
        let i = choose|i: int|
            0 <= i && i + value.len() <= text.len() && same_letters(#[trigger] text.subrange(i, i + value.len()), value);
        assert(crate::text::search::occurs_at(t, v, i));
    }
}

proof fn lemma_list_members(pieces: Seq<Seq<char>>, x: Seq<char>)
    ensures
        list_members(pieces).contains(x) <==> x.len() > 0 && exists|i: int|
            0 <= i < pieces.len() && lowercase(trim(#[trigger] pieces[i], Class::Space)) == x,
    decreases pieces.len(),
{
    if pieces.len() > 0 {
        let init = pieces.drop_last();
        lemma_list_members(init, x);
        let before = list_members(init);
        let after = list_members(pieces);
        let member = lowercase(trim(pieces.last(), Class::Space));
        if after.contains(x) {
            let k = choose|k: int| 0 <= k < after.len() && after[k] == x;
            if k < before.len() {
                assert(before[k] == x);
                assert(before.contains(x));
                let i = choose|i: int| 0 <= i < init.len() && lowercase(trim(#[trigger] init[i], Class::Space)) == x;
                assert(pieces[i] == init[i]);
            } else {
                assert(pieces[pieces.len() - 1] == pieces.last());
            }
        }
        if x.len() > 0 && exists|i: int|
            0 <= i < pieces.len() && lowercase(trim(#[trigger] pieces[i], Class::Space)) == x {
            let i = choose|i: int| 0 <= i < pieces.len() && lowercase(trim(#[trigger] pieces[i], Class::Space)) == x;
            if i < init.len() {
                assert(init[i] == pieces[i]);
                assert(before.contains(x));
                let k = choose|k: int| 0 <= k < before.len() && before[k] == x;
                assert(after[k] == x);
            } else {
                assert(after.last() == member);
            }
        }
    }
}

/// A list rule accepts exactly the members of its list, whatever their case: the value
/// is the members with commas between them, and spaces around a member do not matter.
pub proof fn law_list_rules(
    rule: RuleView,
    members: Seq<Seq<char>>,
    record: RecordView,
    text: Seq<char>,
    now: u64,
)
    requires
        rule.op == FilterOp::In,
        members.len() > 0,
        forall|i: int| 0 <= i < members.len() ==> lacks(#[trigger] members[i], ','),
        rule.value == crate::text::split::join(members, seq![',']),
        reads(record, rule.field, text),
        text.len() > 0,
        vstd::utf8::is_ascii_chars(text),
        forall|i: int| 0 <= i < members.len() ==> vstd::utf8::is_ascii_chars(trim(#[trigger] members[i], Class::Space)),
    ensures
        rule.accepts(record, now) <==> exists|i: int|
            0 <= i < members.len() && same_letters(trim(#[trigger] members[i], Class::Space), text),
{
    law_lists_read_back(members, ',');
    assert(field_text(rule.field, record) == Some(text));
    let x = lowercase(text);
    lemma_list_members(members, x);
    assert forall|i: int| 0 <= i < members.len() implies (lowercase(trim(#[trigger] members[i], Class::Space)) == x)
        == same_letters(trim(members[i], Class::Space), text) by {
        law_ascii_folding(trim(members[i], Class::Space), text);
    }
    law_ascii_folding(text, text);
}

/// How severe a level is.
pub open spec fn severity(level: LogLevel) -> int {
    match level {
        LogLevel::Verbose => 1,
        LogLevel::Debug => 2,
        LogLevel::Info => 3,
        LogLevel::Warn => 4,
        LogLevel::Error => 5,
        LogLevel::Fatal => 6,
        LogLevel::Unknown => 7,
    }
}

/// A level rule accepts what is at least as severe as its level, and what is of unknown
/// severity.
pub proof fn law_level_rules(rule: RuleView, min: LogLevel, record: RecordView, now: u64)
    requires
        rule.op == FilterOp::MinLevel,
        rule.field == FilterField::Level,
        rule.value == min.name(),
    ensures
        rule.fault() is None,
        rule.accepts(record, now) == (record.fields.level == LogLevel::Unknown || severity(record.fields.level)
            >= severity(min)),
{
    crate::parser::record::law_level_names_read_back(min);
}

/// A window rule accepts what was received in the last so many seconds, and a window of
/// no seconds is refused.
pub proof fn law_window_rules(
    rule: RuleView,
    before: Seq<char>,
    seconds: nat,
    after: Seq<char>,
    record: RecordView,
    now: u64,
)
    requires
        rule.op == FilterOp::WithinLast,
        rule.value == before + dec(seconds) + after,
        crate::text::laws::is_gap(before),
        crate::text::laws::is_gap(after),
        seconds <= u64::MAX,
    ensures
        rule.fault() is None <==> seconds > 0,
        record.received_at_ms + seconds * 1000 <= u64::MAX ==> rule.accepts(record, now) == (record.received_at_ms
            + seconds * 1000 >= now),
        record.received_at_ms + seconds * 1000 > u64::MAX ==> rule.accepts(record, now),
{
    crate::text::number::law_dec_reads_back(seconds);
    crate::text::laws::lemma_dec_digits(seconds);
    crate::text::laws::law_trim_reads_back(before, dec(seconds), after);
}

/// A rule is refused exactly where it can not be applied: a pattern that is none, a
/// level that is none, a window that is no positive number, or nothing to compare with
/// where there has to be something.
pub proof fn law_refused_rules(rule: RuleView)
    ensures
        rule.op == FilterOp::Contains || rule.op == FilterOp::Equals || rule.op == FilterOp::In ==> (rule.fault()
            is Some <==> rule.value.len() == 0),
        rule.op == FilterOp::NotContains || rule.op == FilterOp::NotEquals ==> rule.fault() is None,
        rule.op == FilterOp::Regex && rule.case_sensitive ==> (rule.fault() is Some <==> regex_error(rule.value)
            is Some),
        rule.op == FilterOp::WithinLast && rule.value.len() == 0 ==> rule.fault() is Some,
{
    if rule.op == FilterOp::WithinLast && rule.value.len() == 0 {
        crate::text::search::lemma_trim_plain(rule.value, Class::Space);
    }
}

/// A set keeps exactly the enabled rules, and filtering a slice keeps exactly the records
/// that all of them accept.
pub proof fn law_filtering(rules: Seq<RuleView>, records: Seq<LogRecord>, record: LogRecord, now: u64)
    ensures
        accepted(rules, records.push(record), now) == if forall|i: int|
            0 <= i < rules.len() ==> (#[trigger] rules[i]).accepts(record@, now) {
            accepted(rules, records, now).push(record)
        } else {
            accepted(rules, records, now)
        },
        forall|rule: RuleView| rule.enabled ==> #[trigger] enabled_rules(rules.push(rule)) == enabled_rules(rules).push(
            rule,
        ),
        forall|rule: RuleView| !rule.enabled ==> #[trigger] enabled_rules(rules.push(rule)) == enabled_rules(rules),
{
    assert(records.push(record).drop_last() =~= records);
    assert forall|rule: RuleView| rule.enabled implies #[trigger] enabled_rules(rules.push(rule)) == enabled_rules(
        rules,
    ).push(rule) by {
        assert(rules.push(rule).drop_last() =~= rules);
    }
    assert forall|rule: RuleView| !rule.enabled implies #[trigger] enabled_rules(rules.push(rule)) == enabled_rules(
        rules,
    ) by {
        assert(rules.push(rule).drop_last() =~= rules);
    }
}

/// A pattern is matched as it was written, and without regard to case where case does not
/// matter; it is refused exactly where it is no pattern.
pub proof fn law_pattern_rules(rule: RuleView, record: RecordView, text: Seq<char>, now: u64)
    requires
        rule.op == FilterOp::Regex,
        reads(record, rule.field, text),
    ensures
        ({
            let pattern = if rule.case_sensitive {
                rule.value
            } else {
                seq!['(', '?', 'i', ')'] + rule.value
            };
            &&& rule.accepts(record, now) == regex_finds(pattern, text)
            &&& rule.fault() is Some <==> regex_error(pattern) is Some
        }),
{
    reveal_strlit("(?i)");
    assert("(?i)"@ =~= seq!['(', '?', 'i', ')']);
    assert(field_text(rule.field, record) == Some(text));
}

} // verus!
