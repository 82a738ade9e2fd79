//! # Filter definitions for filtering DLT messages
//!
//! A filter admits a message by its log level and by the ids of ECU,
//! application and context. The elements of a filter are independent of
//! each other: a filter can say *application is one of these, and level is
//! at most that*, but not *level at most this for one application and at most
//! that for another*.
use crate::dlt::{u8_to_log_level, LogLevel};
use crate::header::{ExtendedHeader, ExtendedHeaderView};
use vstd::hash_set::StringHashSet;
use vstd::prelude::*;

verus! {

/// Describes what DLT messages to let through, based on log level and on
/// the ids of application, ECU and context.
///
/// Each id comes with the largest level number that was asked for it.
#[derive(Debug, Clone, PartialEq, Eq)]
pub struct DltFilterConfig {
    /// Only select log entries with this level and more severe ones.
    ///
    /// ``` text
    ///  1 => FATAL
    ///  2 => ERROR
    ///  3 => WARN
    ///  4 => INFO
    ///  5 => DEBUG
    ///  6 => VERBOSE
    /// ```
    pub min_log_level: Option<u8>,
    /// What application ids should be allowed.
    pub app_ids: Option<Vec<(String, u8)>>,
    /// What ECU ids should be allowed.
    pub ecu_ids: Option<Vec<(String, u8)>>,
    /// What context ids should be allowed.
    pub context_ids: Option<Vec<(String, u8)>>,
    /// How many application ids exist in total.
    pub app_id_count: i64,
    /// How many context ids exist in total.
    pub context_id_count: i64,
}

/// A processed version of the filter configuration, in which the ids are
/// sets that can be asked quickly.
pub struct ProcessedDltFilterConfig {
    pub min_log_level: Option<LogLevel>,
    pub app_ids: Option<StringHashSet>,
    pub ecu_ids: Option<StringHashSet>,
    pub context_ids: Option<StringHashSet>,
    pub app_id_count: i64,
    pub context_id_count: i64,
}

/// Mathematical value of a [`ProcessedDltFilterConfig`].
pub struct FilterView {
    pub min_log_level: Option<LogLevel>,
    pub app_ids: Option<Set<Seq<char>>>,
    pub ecu_ids: Option<Set<Seq<char>>>,
    pub context_ids: Option<Set<Seq<char>>>,
    pub app_id_count: i64,
    pub context_id_count: i64,
}

/// Mathematical value of an optional set of ids.
pub open spec fn spec_opt_ids(ids: Option<StringHashSet>) -> Option<Set<Seq<char>>> {
    match ids {
        Some(s) => Some(s@),
        None => None,
    }
}

impl View for ProcessedDltFilterConfig {
    type V = FilterView;

    open spec fn view(&self) -> FilterView {
        FilterView {
            min_log_level: self.min_log_level,
            app_ids: spec_opt_ids(self.app_ids),
            ecu_ids: spec_opt_ids(self.ecu_ids),
            context_ids: spec_opt_ids(self.context_ids),
            app_id_count: self.app_id_count,
            context_id_count: self.context_id_count,
        }
    }
}

/// Mathematical value of an optional filter.
pub open spec fn spec_opt_filter(filter: Option<&ProcessedDltFilterConfig>) -> Option<FilterView> {
    match filter {
        Some(f) => Some(f@),
        None => None,
    }
}

/// Whether an id that was asked for with `level` stays under a filter with
/// the lower bound `min`.
pub open spec fn spec_retained(level: u8, min: Option<u8>) -> bool {
    match min {
        Some(m) => level >= m,
        None => true,
    }
}

/// The ids among the first `n` pairs that stay under the lower bound `min`.
pub open spec fn spec_retained_ids(pairs: Seq<(String, u8)>, min: Option<u8>, n: int) -> Set<
    Seq<char>,
> {
    Set::new(
        |id: Seq<char>|
            exists|i: int|
                0 <= i < n && i < pairs.len() && (#[trigger] pairs[i]).0@ == id && spec_retained(
                    pairs[i].1,
                    min,
                ),
    )
}

/// The set of ids that a list of a filter configuration stands for.
pub open spec fn spec_id_set(pairs: Option<Vec<(String, u8)>>, min: Option<u8>) -> Option<
    Set<Seq<char>>,
> {
    match pairs {
        Some(p) => Some(spec_retained_ids(p@, min, p@.len() as int)),
        None => None,
    }
}

/// The processed form of a filter configuration.
pub open spec fn spec_processed(cfg: DltFilterConfig) -> FilterView {
    FilterView {
        min_log_level: match cfg.min_log_level {
            Some(v) => u8_to_log_level(v),
            None => None,
        },
        app_ids: spec_id_set(cfg.app_ids, cfg.min_log_level),
        ecu_ids: spec_id_set(cfg.ecu_ids, cfg.min_log_level),
        context_ids: spec_id_set(cfg.context_ids, cfg.min_log_level),
        app_id_count: cfg.app_id_count,
        context_id_count: cfg.context_id_count,
    }
}

/// Collect the ids of `pairs` that stay under the lower bound `min`.
fn id_set(pairs: &Option<Vec<(String, u8)>>, min: Option<u8>) -> (r: Option<StringHashSet>)
    ensures
        spec_opt_ids(r) == spec_id_set(*pairs, min),
{
    match pairs {
        None => None,
        Some(p) => {
            let mut set = StringHashSet::new();
            let mut i: usize = 0;
            assert(set@ =~= spec_retained_ids(p@, min, 0));
            while i < p.len()
                invariant
                    i <= p@.len(),
                    set@ == spec_retained_ids(p@, min, i as int),
                decreases p@.len() - i,
            {
                let keep = match min {
                    Some(m) => p[i].1 >= m,
                    None => true,
                };
                if keep {
                    set.insert(p[i].0.clone());
                }
                assert(set@ =~= spec_retained_ids(p@, min, i + 1)) by {
                    assert forall|id: Seq<char>|
                        spec_retained_ids(p@, min, i + 1).contains(id) implies set@.contains(
                        id,
                    ) by {
                        let j = choose|j: int|
                            0 <= j < i + 1 && j < p@.len() && (#[trigger] p@[j]).0@ == id
                                && spec_retained(p@[j].1, min);
                        if j < i {
                            assert(spec_retained_ids(p@, min, i as int).contains(id));
                        }
                    }
                    assert forall|id: Seq<char>| set@.contains(id) implies spec_retained_ids(
                        p@,
                        min,
                        i + 1,
                    ).contains(id) by {
                        if spec_retained_ids(p@, min, i as int).contains(id) {
                            let j = choose|j: int|
                                0 <= j < i && j < p@.len() && (#[trigger] p@[j]).0@ == id
                                    && spec_retained(p@[j].1, min);
                            assert(0 <= j < i + 1 && p@[j].0@ == id);
                        } else {
                            assert(p@[i as int].0@ == id);
                        }
                    }
                }
                i += 1;
            }
            Some(set)
        },
    }
}

impl ProcessedDltFilterConfig {
    /// Process a filter configuration: the level must be one of the six
    /// defined levels to count, and each list of ids becomes the set of
    /// those ids whose level is not below the lower bound of the filter.
    pub fn from_config(cfg: &DltFilterConfig) -> (processed: ProcessedDltFilterConfig)
        ensures
            processed@ == spec_processed(*cfg),
    {
        ProcessedDltFilterConfig {
            min_log_level: match cfg.min_log_level {
                Some(v) => u8_to_log_level(v),
                None => None,
            },
            app_ids: id_set(&cfg.app_ids, cfg.min_log_level),
            ecu_ids: id_set(&cfg.ecu_ids, cfg.min_log_level),
            context_ids: id_set(&cfg.context_ids, cfg.min_log_level),
            app_id_count: cfg.app_id_count,
            context_id_count: cfg.context_id_count,
        }
    }
}

/// A set of ids is given, holds at least one id, and `id` is none of them.
pub open spec fn spec_excluded(ids: Option<Set<Seq<char>>>, id: Seq<char>) -> bool {
    match ids {
        Some(s) => s.len() > 0 && !s.contains(id),
        None => false,
    }
}

/// A set of ids is given and holds fewer ids than are known to exist.
pub open spec fn spec_incomplete_selection(ids: Option<Set<Seq<char>>>, known: i64) -> bool {
    match ids {
        Some(s) => known > s.len(),
        None => false,
    }
}

/// Whether a filter drops a message, by its extended header and its ECU
/// id. The rules are tried in this order and the first that applies
/// decides:
///
/// 1. a log message that is less severe than the filter's level is dropped;
/// 2. a message of an application that is not among the given ones is
///    dropped;
/// 3. a message of a context that is not among the given ones is dropped;
/// 4. a message of an ECU that is not among the given ones is dropped;
/// 5. a message without extended header is dropped where applications or
///    contexts were selected and not every known one is among them.
///
/// Level, application and context stand in the extended header, so that
/// rules 1 to 3 apply to no message without one. Rule 4 asks for the ECU id
/// alone. Without a filter nothing is dropped.
pub open spec fn spec_filtered_out(
    extended_header: Option<ExtendedHeaderView>,
    filter: Option<FilterView>,
    ecu_id: Option<Seq<char>>,
) -> bool {
    match filter {
        None => false,
        Some(f) => {
            ||| (match extended_header {
                Some(h) => {
                    ||| (f.min_log_level is Some && h.spec_skip_with_level(
                        f.min_log_level->Some_0,
                    ))
                    ||| spec_excluded(f.app_ids, h.application_id)
                    ||| spec_excluded(f.context_ids, h.context_id)
                },
                None => false,
            })
            ||| (ecu_id is Some && spec_excluded(f.ecu_ids, ecu_id->Some_0))
            ||| (extended_header is None && (spec_incomplete_selection(f.app_ids, f.app_id_count)
                || spec_incomplete_selection(f.context_ids, f.context_id_count)))
        },
    }
}

fn excluded(ids: &Option<StringHashSet>, id: &str) -> (r: bool)
    ensures
        r == spec_excluded(spec_opt_ids(*ids), id@),
{
    match ids {
        Some(s) => s.len() > 0 && !s.contains(id),
        None => false,
    }
}

fn incomplete_selection(ids: &Option<StringHashSet>, known: i64) -> (r: bool)
    ensures
        r == spec_incomplete_selection(spec_opt_ids(*ids), known),
{
    match ids {
        Some(s) => {
            let n: usize = s.len();
            known > 0 && known as u64 > n as u64
        },
        None => false,
    }
}

/// Decide whether the filter drops a message. The decision depends on the
/// three arguments alone.
pub fn filtered_out(
    extended_header: Option<&ExtendedHeader>,
    filter_config_opt: Option<&ProcessedDltFilterConfig>,
    ecu_id: Option<&String>,
) -> (drop: bool)
    ensures
        drop == spec_filtered_out(
            match extended_header {
                Some(h) => Some(h@),
                None => None,
            },
            spec_opt_filter(filter_config_opt),
            match ecu_id {
                Some(id) => Some(id@),
                None => None,
            },
        ),
{
    match filter_config_opt {
        None => false,
        Some(filter_config) => {
            if let Some(h) = extended_header {
                if let Some(min_filter_level) = filter_config.min_log_level {
                    if h.skip_with_level(min_filter_level) {
                        return true;
                    }
                }
                if excluded(&filter_config.app_ids, h.application_id.as_str()) {
                    return true;
                }
                if excluded(&filter_config.context_ids, h.context_id.as_str()) {
                    return true;
                }
            }
            if let Some(ecu_id) = ecu_id {
                if excluded(&filter_config.ecu_ids, ecu_id.as_str()) {
                    return true;
                }
            }
            if extended_header.is_none() {
                if incomplete_selection(&filter_config.app_ids, filter_config.app_id_count) {
                    return true;
                }
                return incomplete_selection(
                    &filter_config.context_ids,
                    filter_config.context_id_count,
                );
            }
            false
        },
    }
}

} // verus!
