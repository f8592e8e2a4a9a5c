//! The flat configuration: settings by variable name, read as typed values
//! with their defaults where a setting is missing.
use vstd::prelude::*;

use crate::config::model::{ModelRequestDefaults, ReasoningEffort, DEFAULT_TEMPERATURE_BITS};
use crate::config::schema::{DEFAULT_FAKE_PROFILE, DEFAULT_OPENAI_BASE_URL, DEFAULT_PROVIDER};
use crate::config::settings::{default_tool_threshold_tokens, ProviderConfig, DEFAULT_TOOL_OUTPUT_THRESHOLD_TOKENS};
use crate::executor::limits::ToolOutputLimits;
use crate::config::env::{false_word, true_word};
use crate::text::{
    ascii_lowercase, chars_less, is_blank, is_blank_str, lemma_chars_less_total, lemma_chars_less_transitive, parse_unsigned,
    parse_unsigned_spec, string_equals, string_less, trim_chars,
};

verus! {

/// The map that entries stand for, a later entry winning over an earlier one
/// under the same name.
pub open spec fn settings_map(entries: Seq<(String, String)>) -> Map<Seq<char>, Seq<char>>
    decreases entries.len(),
{
    if entries.len() == 0 {
        Map::empty()
    } else {
        settings_map(entries.drop_last()).insert(entries.last().0@, entries.last().1@)
    }
}

pub open spec fn distinct_names(entries: Seq<(String, String)>) -> bool {
    forall|i: int, j: int| 0 <= i < j < entries.len() ==> (#[trigger] entries[i]).0@ != (#[trigger] entries[j]).0@
}

/// With distinct names, each entry's value is the map's under its name, and
/// the map has no other names.
proof fn lemma_settings_map(entries: Seq<(String, String)>)
    requires
        distinct_names(entries),
    ensures
        forall|i: int| 0 <= i < entries.len() ==> #[trigger] settings_map(entries).contains_key(entries[i].0@)
            && settings_map(entries)[entries[i].0@] == entries[i].1@,
        forall|name: Seq<char>| #[trigger] settings_map(entries).contains_key(name) ==> exists|i: int|
            0 <= i < entries.len() && entries[i].0@ == name,
    decreases entries.len(),
{
    if entries.len() > 0 {
        let init = entries.drop_last();
        assert(distinct_names(init)) by {
            assert forall|i: int, j: int| 0 <= i < j < init.len() implies (#[trigger] init[i]).0@ != (#[trigger] init[j]).0@ by {
                assert(init[i] == entries[i] && init[j] == entries[j]);
            }
        }
        lemma_settings_map(init);
        assert forall|i: int| 0 <= i < entries.len() implies #[trigger] settings_map(entries).contains_key(entries[i].0@)
            && settings_map(entries)[entries[i].0@] == entries[i].1@ by {
            if i < entries.len() - 1 {
                assert(init[i] == entries[i]);
                assert(settings_map(init).contains_key(init[i].0@));
                assert(entries[i].0@ != entries[entries.len() - 1].0@);
            }
        }
        assert forall|name: Seq<char>| #[trigger] settings_map(entries).contains_key(name) implies exists|i: int|
            0 <= i < entries.len() && entries[i].0@ == name by {
            if name != entries.last().0@ {
                assert(settings_map(init).contains_key(name));
                let i = choose|i: int| 0 <= i < init.len() && init[i].0@ == name;
                assert(entries[i] == init[i]);
            } else {
                assert(entries[entries.len() - 1].0@ == name);
            }
        }
    }
}

/// Replacing an entry by one under the same name replaces its value in the
/// map.
proof fn lemma_settings_map_update(entries: Seq<(String, String)>, i: int, entry: (String, String))
    requires
        distinct_names(entries),
        0 <= i < entries.len(),
        entry.0@ == entries[i].0@,
    ensures
        settings_map(entries.update(i, entry)) == settings_map(entries).insert(entry.0@, entry.1@),
    decreases entries.len(),
{
    let updated = entries.update(i, entry);
    if i == entries.len() - 1 {
        assert(updated.drop_last() =~= entries.drop_last());
        assert(settings_map(updated) =~= settings_map(entries).insert(entry.0@, entry.1@));
    } else {
        let init = entries.drop_last();
        assert(distinct_names(init)) by {
            assert forall|a: int, b: int| 0 <= a < b < init.len() implies (#[trigger] init[a]).0@ != (#[trigger] init[b]).0@ by {
                assert(init[a] == entries[a] && init[b] == entries[b]);
            }
        }
        lemma_settings_map_update(init, i, entry);
        assert(updated.drop_last() =~= init.update(i, entry));
        assert(entries[i].0@ != entries.last().0@);
        assert(settings_map(updated) =~= settings_map(entries).insert(entry.0@, entry.1@));
    }
}

/// Whether the names of `entries` come in the order of strings, each once.
pub open spec fn names_in_order(entries: Seq<(String, String)>) -> bool {
    forall|i: int, j: int| 0 <= i < j < entries.len() ==> chars_less((#[trigger] entries[i]).0@, (#[trigger] entries[j]).0@)
}

/// An entry put where its name belongs keeps the names in order.
proof fn lemma_insert_in_order(entries: Seq<(String, String)>, p: int, e: (String, String))
    requires
        names_in_order(entries),
        0 <= p <= entries.len(),
        forall|q: int| 0 <= q < p ==> chars_less((#[trigger] entries[q]).0@, e.0@),
        p < entries.len() ==> chars_less(e.0@, entries[p].0@),
    ensures
        names_in_order(entries.insert(p, e)),
{
    let inserted = entries.insert(p, e);
    assert forall|i: int, j: int| 0 <= i < j < inserted.len() implies chars_less(
        (#[trigger] inserted[i]).0@,
        (#[trigger] inserted[j]).0@,
    ) by {
        if j < p {
            assert(inserted[i] == entries[i] && inserted[j] == entries[j]);
        } else if j == p {
            assert(inserted[i] == entries[i]);
        } else if i == p {
            assert(inserted[j] == entries[j - 1]);
            if j - 1 > p {
                assert(chars_less(entries[p].0@, entries[j - 1].0@));
                lemma_chars_less_transitive(e.0@, entries[p].0@, entries[j - 1].0@);
            }
        } else if i < p {
            assert(inserted[i] == entries[i] && inserted[j] == entries[j - 1]);
            assert(chars_less(entries[i].0@, entries[j - 1].0@));
        } else {
            assert(inserted[i] == entries[i - 1] && inserted[j] == entries[j - 1]);
            assert(chars_less(entries[i - 1].0@, entries[j - 1].0@));
        }
    }
}

/// Settings by name.
pub struct PhiConfig {
    values: Vec<(String, String)>,
}

impl PhiConfig {
    #[verifier::type_invariant]
    spec fn names_are_distinct(self) -> bool {
        distinct_names(self.values@)
    }

    pub closed spec fn spec_settings(self) -> Map<Seq<char>, Seq<char>> {
        settings_map(self.values@)
    }
}

impl View for PhiConfig {
    type V = Map<Seq<char>, Seq<char>>;

    open spec fn view(&self) -> Map<Seq<char>, Seq<char>> {
        self.spec_settings()
    }
}

impl PhiConfig {
    /// The settings of `values`, the last of two under one name winning.
    pub fn new(values: Vec<(String, String)>) -> (config: Self)
        ensures
            config@ == settings_map(values@),
    {
        let mut config = PhiConfig { values: Vec::new() };
        assert(config@ =~= settings_map(values@.take(0)));
        let mut rest = values;
        let ghost all = rest@;
        let ghost n = all.len();
        while rest.len() > 0
            invariant
                n == all.len(),
                rest@.len() <= n,
                rest@ == all.skip(n - rest@.len()),
                config@ == settings_map(all.take(n - rest@.len())),
            decreases rest.len(),
        {
            let ghost done = (n - rest@.len()) as int;
            let (name, value) = rest.remove(0);
            proof {
                assert((name, value) == all[done]);
                assert(rest@ =~= all.skip(done + 1));
                assert(all.take(done + 1).drop_last() =~= all.take(done));
            }
            config.insert(name, value);
        }
        assert(all.take(n as int) =~= all);
        config
    }

    fn position(&self, name: &str) -> (found: Option<usize>)
        ensures
            match found {
                Some(i) => i < self.values@.len() && self.values@[i as int].0@ == name@,
                None => forall|i: int| 0 <= i < self.values@.len() ==> (#[trigger] self.values@[i]).0@ != name@,
            },
    {
        let mut i: usize = 0;
        while i < self.values.len()
            invariant
                i <= self.values@.len(),
                forall|k: int| 0 <= k < i ==> (#[trigger] self.values@[k]).0@ != name@,
            decreases self.values.len() - i,
        {
            if string_equals(&self.values[i].0, name) {
                return Some(i);
            }
            i += 1;
        }
        None
    }

    pub fn get(&self, name: &str) -> (value: Option<&String>)
        ensures
            match value {
                Some(v) => self@.contains_key(name@) && self@[name@] == v@,
                None => !self@.contains_key(name@),
            },
    {
        proof {
            use_type_invariant(self);
            lemma_settings_map(self.values@);
        }
        match self.position(name) {
            Some(i) => {
                assert(settings_map(self.values@).contains_key(self.values@[i as int].0@));
                Some(&self.values[i].1)
            },
            None => None,
        }
    }

    pub fn insert(&mut self, name: String, value: String)
        ensures
            final(self)@ == old(self)@.insert(name@, value@),
    {
        proof {
            use_type_invariant(&*self);
        }
        match self.position(name.as_str()) {
            Some(i) => {
                let ghost before = self.values@;
                proof {
                    lemma_settings_map_update(before, i as int, (name, value));
                }
                let mut values: Vec<(String, String)> = Vec::new();
                std::mem::swap(&mut values, &mut self.values);
                values.set(i, (name, value));
                assert(distinct_names(values@)) by {
                    assert forall|a: int, b: int| 0 <= a < b < values@.len() implies (#[trigger] values@[a]).0@
                        != (#[trigger] values@[b]).0@ by {
                        if a != i && b != i {
                            assert(values@[a] == before[a] && values@[b] == before[b]);
                        } else if a == i {
                            assert(values@[b] == before[b]);
                        } else {
                            assert(values@[a] == before[a]);
                        }
                    }
                }
                self.values = values;
            },
            None => {
                let ghost before = self.values@;
                let mut values: Vec<(String, String)> = Vec::new();
                std::mem::swap(&mut values, &mut self.values);
                values.push((name, value));
                assert(values@.drop_last() =~= before);
                assert(distinct_names(values@)) by {
                    assert forall|a: int, b: int| 0 <= a < b < values@.len() implies (#[trigger] values@[a]).0@
                        != (#[trigger] values@[b]).0@ by {
                        assert(values@[a] == before[a]);
                        if b < before.len() {
                            assert(values@[b] == before[b]);
                        }
                    }
                }
                self.values = values;
            },
        }
    }

    /// The settings, one entry per name, in the order of the names.
    pub fn iter(&self) -> (listing: Vec<(String, String)>)
        ensures
            names_in_order(listing@),
            forall|i: int|
                0 <= i < listing@.len() ==> #[trigger] self@.contains_key(listing@[i].0@) && self@[listing@[i].0@]
                    == listing@[i].1@,
            forall|name: Seq<char>| #[trigger] self@.contains_key(name) ==> exists|i: int|
                0 <= i < listing@.len() && listing@[i].0@ == name,
    {
        proof {
            use_type_invariant(self);
            lemma_settings_map(self.values@);
        }
        let ghost values = self.values@;
        let ghost mut source: Seq<int> = Seq::empty();
        let ghost mut place: Seq<int> = Seq::empty();
        let mut listing: Vec<(String, String)> = Vec::new();
        let mut k: usize = 0;
        while k < self.values.len()
            invariant
                values == self.values@,
                distinct_names(values),
                k <= values.len(),
                names_in_order(listing@),
                source.len() == listing@.len(),
                place.len() == k,
                forall|i: int|
                    0 <= i < listing@.len() ==> 0 <= #[trigger] source[i] < k && listing@[i].0@ == values[source[i]].0@
                        && listing@[i].1@ == values[source[i]].1@,
                forall|m: int|
                    0 <= m < k ==> 0 <= #[trigger] place[m] < listing@.len() && listing@[place[m]].0@ == values[m].0@,
            decreases self.values.len() - k,
        {
            let name = self.values[k].0.clone();
            let value = self.values[k].1.clone();
            let mut p: usize = 0;
            while p < listing.len() && !string_less(name.as_str(), listing[p].0.as_str())
                invariant
                    p <= listing@.len(),
                    forall|q: int| 0 <= q < p ==> !chars_less(name@, (#[trigger] listing@[q]).0@),
                decreases listing.len() - p,
            {
                p += 1;
            }
            let ghost old_listing = listing@;
            proof {
                assert forall|q: int| 0 <= q < p implies chars_less((#[trigger] old_listing[q]).0@, name@) by {
                    assert(values[source[q]].0@ != values[k as int].0@);
                    lemma_chars_less_total(old_listing[q].0@, name@);
                }
            }
            listing.insert(p, (name, value));
            proof {
                lemma_insert_in_order(old_listing, p as int, listing@[p as int]);
                assert(listing@ == old_listing.insert(p as int, listing@[p as int]));
                let old_place = place;
                source = source.insert(p as int, k as int);
                place = Seq::new(k as nat, |m: int| if old_place[m] >= p { old_place[m] + 1 } else { old_place[m] }).push(
                    p as int,
                );
                assert forall|i: int| 0 <= i < listing@.len() implies 0 <= #[trigger] source[i] < k + 1
                    && listing@[i].0@ == values[source[i]].0@ && listing@[i].1@ == values[source[i]].1@ by {
                    if i < p {
                        assert(listing@[i] == old_listing[i]);
                    } else if i > p {
                        assert(listing@[i] == old_listing[i - 1]);
                    }
                }
                assert forall|m: int| 0 <= m < k + 1 implies 0 <= #[trigger] place[m] < listing@.len()
                    && listing@[place[m]].0@ == values[m].0@ by {
                    if m < k {
                        if old_place[m] >= p {
                            assert(listing@[old_place[m] + 1] == old_listing[old_place[m]]);
                        } else {
                            assert(listing@[old_place[m]] == old_listing[old_place[m]]);
                        }
                    }
                }
            }
            k += 1;
        }
        proof {
            assert forall|i: int| 0 <= i < listing@.len() implies #[trigger] self@.contains_key(listing@[i].0@)
                && self@[listing@[i].0@] == listing@[i].1@ by {
                assert(settings_map(values).contains_key(values[source[i]].0@));
            }
            assert forall|name: Seq<char>| #[trigger] self@.contains_key(name) implies exists|i: int|
                0 <= i < listing@.len() && listing@[i].0@ == name by {
                let m = choose|m: int| 0 <= m < values.len() && values[m].0@ == name;
                assert(listing@[place[m]].0@ == name);
            }
        }
        listing
    }

    /// Puts every setting of `other` over these.
    pub fn extend(&mut self, other: &Self)
        ensures
            final(self)@ == old(self)@.union_prefer_right(other@),
    {
        let ghost start = self@;
        let ghost theirs = other.values@;
        let mut i: usize = 0;
        assert(start.union_prefer_right(settings_map(theirs.take(0))) =~= start);
        while i < other.values.len()
            invariant
                theirs == other.values@,
                i <= theirs.len(),
                self@ == start.union_prefer_right(settings_map(theirs.take(i as int))),
            decreases other.values.len() - i,
        {
            let name = other.values[i].0.clone();
            let value = other.values[i].1.clone();
            proof {
                assert(theirs.take(i + 1).drop_last() =~= theirs.take(i as int));
                assert(theirs.take(i + 1).last() == theirs[i as int]);
            }
            self.insert(name, value);
            assert(self@ =~= start.union_prefer_right(settings_map(theirs.take(i + 1))));
            i += 1;
        }
        assert(theirs.take(i as int) =~= theirs);
    }
}

/// The setting `name`, as it is.
pub fn setting_from_config(config: &PhiConfig, name: &str) -> (value: Option<String>)
    ensures
        match value {
            Some(v) => config@.contains_key(name@) && v@ == config@[name@],
            None => !config@.contains_key(name@),
        },
{
    match config.get(name) {
        Some(value) => Some(value.clone()),
        None => None,
    }
}

/// The setting `name` unless it is blank.
pub fn optional_string_from_config(config: &PhiConfig, name: &str) -> (value: Option<String>)
    ensures
        match value {
            Some(v) => config@.contains_key(name@) && v@ == config@[name@] && !is_blank(v@),
            None => !config@.contains_key(name@) || is_blank(config@[name@]),
        },
{
    match config.get(name) {
        Some(value) => if is_blank_str(value.as_str()) {
            None
        } else {
            Some(value.clone())
        },
        None => None,
    }
}

/// The setting `name` as an unsigned integer: none where it is missing, a
/// message where it is not one.
pub open spec fn u64_setting(settings: Map<Seq<char>, Seq<char>>, name: Seq<char>) -> Result<Option<nat>, Seq<char>> {
    if !settings.contains_key(name) {
        Ok(None)
    } else {
        match parse_unsigned_spec(settings[name], u64::MAX as nat) {
            Some(n) => Ok(Some(n)),
            None => Err(name + " must be a valid unsigned integer"@),
        }
    }
}

/// What a boolean word says: `1`, `true`, `yes`, `on` or `0`, `false`,
/// `no`, `off`, in any case and with surrounding whitespace.
pub open spec fn bool_word(text: Seq<char>) -> Option<bool> {
    let word = ascii_lowercase(trim_chars(text));
    if true_word(word) {
        Some(true)
    } else if false_word(word) {
        Some(false)
    } else {
        None
    }
}

pub open spec fn bool_setting(settings: Map<Seq<char>, Seq<char>>, name: Seq<char>) -> Result<Option<bool>, Seq<char>> {
    if !settings.contains_key(name) {
        Ok(None)
    } else {
        match bool_word(settings[name]) {
            Some(b) => Ok(Some(b)),
            None => Err(name + " must be a valid boolean"@),
        }
    }
}

pub open spec fn effort_setting(settings: Map<Seq<char>, Seq<char>>, name: Seq<char>) -> Result<Option<ReasoningEffort>, Seq<char>> {
    if !settings.contains_key(name) {
        Ok(None)
    } else {
        match ReasoningEffort::spec_from_str(settings[name]) {
            Some(e) => Ok(Some(e)),
            None => Err(name + " must be one of: minimal, low, medium, high"@),
        }
    }
}

/// `value` is what `spec` says, a message taken by its text.
pub open spec fn reads_as<T, U>(value: Result<Option<T>, String>, spec: Result<Option<U>, Seq<char>>, same: spec_fn(T, U) -> bool) -> bool {
    match spec {
        Ok(Some(u)) => value matches Ok(Some(t)) && same(t, u),
        Ok(None) => value matches Ok(None),
        Err(message) => value matches Err(e) && e@ == message,
    }
}

/// The setting `name` as an unsigned integer, refused with a message when it
/// is not one.
pub fn optional_u64_from_config(config: &PhiConfig, name: &str) -> (value: Result<Option<u64>, String>)
    ensures
        reads_as(value, u64_setting(config@, name@), |t: u64, u: nat| t == u),
{
    match config.get(name) {
        Some(text) => match parse_unsigned(text.as_str(), u64::MAX) {
            Some(n) => Ok(Some(n)),
            None => {
                let mut message = name.to_owned();
                message.append(" must be a valid unsigned integer");
                Err(message)
            },
        },
        None => Ok(None),
    }
}

pub fn optional_public_u64_from_config(config: &PhiConfig, name: &str) -> (value: Result<Option<u64>, String>)
    ensures
        reads_as(value, u64_setting(config@, name@), |t: u64, u: nat| t == u),
{
    optional_u64_from_config(config, name)
}

/// The setting `name` as an unsigned integer that fits `usize`.
pub fn optional_public_usize_from_config(config: &PhiConfig, name: &str) -> (value: Result<Option<usize>, String>)
    ensures
        match u64_setting(config@, name@) {
            Ok(Some(n)) => if n <= usize::MAX {
                value == Ok::<Option<usize>, String>(Some(n as usize))
            } else {
                value matches Err(message) && message@ == name@ + " must fit into usize"@
            },
            Ok(None) => value == Ok::<Option<usize>, String>(None),
            Err(message) => value matches Err(e) && e@ == message,
        },
{
    match optional_u64_from_config(config, name) {
        Ok(Some(n)) => if n <= usize::MAX as u64 {
            Ok(Some(n as usize))
        } else {
            let mut message = name.to_owned();
            message.append(" must fit into usize");
            Err(message)
        },
        Ok(None) => Ok(None),
        Err(message) => Err(message),
    }
}

/// The setting `name` as a boolean word, refused with a message when it is
/// not one.
pub fn optional_bool_from_config(config: &PhiConfig, name: &str) -> (value: Result<Option<bool>, String>)
    ensures
        reads_as(value, bool_setting(config@, name@), |t: bool, u: bool| t == u),
{
    match config.get(name) {
        Some(text) => match crate::config::env::parse_bool_text(text.as_str()) {
            Some(b) => Ok(Some(b)),
            None => {
                let mut message = name.to_owned();
                message.append(" must be a valid boolean");
                Err(message)
            },
        },
        None => Ok(None),
    }
}

/// The setting `name` as a reasoning effort, refused with the words it
/// accepts when it is not one.
pub fn optional_reasoning_effort_from_config(config: &PhiConfig, name: &str) -> (value: Result<Option<ReasoningEffort>, String>)
    ensures
        reads_as(value, effort_setting(config@, name@), |t: ReasoningEffort, u: ReasoningEffort| t == u),
{
    match config.get(name) {
        Some(text) => match ReasoningEffort::from_str(text.as_str()) {
            Ok(effort) => Ok(Some(effort)),
            Err(_) => {
                let mut message = name.to_owned();
                message.append(" must be one of: minimal, low, medium, high");
                Err(message)
            },
        },
        None => Ok(None),
    }
}

/// The setting `name`, or `default` where it is missing.
pub open spec fn setting_or(settings: Map<Seq<char>, Seq<char>>, name: Seq<char>, default: Seq<char>) -> Seq<char> {
    if settings.contains_key(name) {
        settings[name]
    } else {
        default
    }
}

/// The setting `name`, or `default` where it is missing or blank.
pub open spec fn nonblank_setting_or(settings: Map<Seq<char>, Seq<char>>, name: Seq<char>, default: Seq<char>) -> Seq<char> {
    if settings.contains_key(name) && !is_blank(settings[name]) {
        settings[name]
    } else {
        default
    }
}

impl ProviderConfig {
    /// The provider settings, each defaulted where it is missing (the key
    /// also where it is blank). Reading them does not fail.
    pub fn from_config(config: &PhiConfig) -> (provider: Result<ProviderConfig, String>)
        ensures
            provider matches Ok(p) && p.provider@ == setting_or(config@, "PHI_PROVIDER"@, DEFAULT_PROVIDER@)
                && p.api_base@ == setting_or(config@, "PHI_API"@, DEFAULT_OPENAI_BASE_URL@) && p.api_key@
                == nonblank_setting_or(config@, "PHI_KEY"@, Seq::empty()) && p.fake_profile@ == setting_or(
                config@,
                "PHI_FAKE_PROFILE"@,
                DEFAULT_FAKE_PROFILE@,
            ),
    {
        let defaults = ProviderConfig::defaults();
        let provider = match setting_from_config(config, "PHI_PROVIDER") {
            Some(value) => value,
            None => defaults.provider,
        };
        let api_base = match setting_from_config(config, "PHI_API") {
            Some(value) => value,
            None => defaults.api_base,
        };
        let api_key = match optional_string_from_config(config, "PHI_KEY") {
            Some(value) => value,
            None => defaults.api_key,
        };
        let fake_profile = match setting_from_config(config, "PHI_FAKE_PROFILE") {
            Some(value) => value,
            None => defaults.fake_profile,
        };
        Ok(ProviderConfig { provider, api_base, api_key, fake_profile })
    }
}

/// Output tokens a request asks for when the flat configuration sets none.
pub const FLAT_DEFAULT_MAX_TOKENS: u64 = 32000;

/// Reasoning tokens a request allows when the flat configuration sets none.
pub const FLAT_DEFAULT_THINKING_TOKEN_BUDGET: u64 = 4096;

/// The request defaults that settings give, or the message of the first
/// setting that holds a value of the wrong kind (after the temperature,
/// which the caller reads).
pub open spec fn flat_request_defaults(
    settings: Map<Seq<char>, Seq<char>>,
    temperature_bits: Option<u64>,
) -> Result<(Seq<char>, Option<u64>, nat, bool, nat, ReasoningEffort), Seq<char>> {
    match u64_setting(settings, "PHI_MAX_TOKENS"@) {
        Err(message) => Err(message),
        Ok(max_tokens) => match bool_setting(settings, "PHI_ENABLE_REASONING"@) {
            Err(message) => Err(message),
            Ok(enabled) => match u64_setting(settings, "PHI_THINKING_TOKEN_BUDGET"@) {
                Err(message) => Err(message),
                Ok(budget) => match effort_setting(settings, "PHI_REASONING_EFFORT"@) {
                    Err(message) => Err(message),
                    Ok(effort) => Ok(
                        (
                            nonblank_setting_or(settings, "PHI_MODEL"@, Seq::empty()),
                            match temperature_bits {
                                Some(bits) => Some(bits),
                                None => Some(DEFAULT_TEMPERATURE_BITS),
                            },
                            match max_tokens {
                                Some(n) => n,
                                None => FLAT_DEFAULT_MAX_TOKENS as nat,
                            },
                            match enabled {
                                Some(b) => b,
                                None => true,
                            },
                            match budget {
                                Some(n) => n,
                                None => FLAT_DEFAULT_THINKING_TOKEN_BUDGET as nat,
                            },
                            match effort {
                                Some(e) => e,
                                None => ReasoningEffort::Medium,
                            },
                        ),
                    ),
                },
            },
        },
    }
}

impl ModelRequestDefaults {
    /// The request defaults of the flat configuration; `temperature_bits`
    /// is `PHI_TEMPERATURE`, read as a float by the caller.
    pub fn from_config(config: &PhiConfig, temperature_bits: Option<u64>) -> (defaults: Result<ModelRequestDefaults, String>)
        ensures
            match flat_request_defaults(config@, temperature_bits) {
                Ok(fields) => defaults matches Ok(d) && d.model@ == fields.0 && d.temperature_bits == fields.1
                    && d.max_tokens == fields.2 && d.enable_reasoning == fields.3 && d.thinking_token_budget
                    == fields.4 && d.reasoning_effort == fields.5,
                Err(message) => defaults matches Err(e) && e@ == message,
            },
    {
        let model = match optional_string_from_config(config, "PHI_MODEL") {
            Some(model) => model,
            None => String::new(),
        };
        let temperature_bits = match temperature_bits {
            Some(bits) => Some(bits),
            None => Some(DEFAULT_TEMPERATURE_BITS),
        };
        let max_tokens = match optional_u64_from_config(config, "PHI_MAX_TOKENS") {
            Ok(value) => match value {
                Some(n) => n,
                None => FLAT_DEFAULT_MAX_TOKENS,
            },
            Err(message) => return Err(message),
        };
        let enable_reasoning = match optional_bool_from_config(config, "PHI_ENABLE_REASONING") {
            Ok(value) => match value {
                Some(b) => b,
                None => true,
            },
            Err(message) => return Err(message),
        };
        let thinking_token_budget = match optional_u64_from_config(config, "PHI_THINKING_TOKEN_BUDGET") {
            Ok(value) => match value {
                Some(n) => n,
                None => FLAT_DEFAULT_THINKING_TOKEN_BUDGET,
            },
            Err(message) => return Err(message),
        };
        let reasoning_effort = match optional_reasoning_effort_from_config(config, "PHI_REASONING_EFFORT") {
            Ok(value) => match value {
                Some(e) => e,
                None => ReasoningEffort::Medium,
            },
            Err(message) => return Err(message),
        };
        Ok(
            ModelRequestDefaults {
                model,
                temperature_bits,
                max_tokens,
                enable_reasoning,
                thinking_token_budget,
                reasoning_effort,
            },
        )
    }
}

/// The tool output limits of the flat configuration: the threshold it sets
/// where that is a `usize`, else the default.
pub fn tool_output_limits_from_config(config: &PhiConfig) -> (limits: ToolOutputLimits)
    ensures
        limits.output_threshold_tokens == match u64_setting(config@, "PHI_TOOL_THRESHOLD_TOKENS"@) {
            Ok(Some(n)) => if n <= usize::MAX { n } else { DEFAULT_TOOL_OUTPUT_THRESHOLD_TOKENS as nat },
            _ => DEFAULT_TOOL_OUTPUT_THRESHOLD_TOKENS as nat,
        },
{
    let threshold = match optional_public_usize_from_config(config, "PHI_TOOL_THRESHOLD_TOKENS") {
        Ok(Some(n)) => n,
        _ => default_tool_threshold_tokens(),
    };
    ToolOutputLimits::new(threshold)
}

} // verus!
