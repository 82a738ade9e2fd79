//! # The common DLT statistics
//!
//! How many messages of each log level were seen, for every application,
//! context and ECU. Statistics of several sources can be merged.
//!
//! Counts are modelled as a [`Tally`] of unbounded integers, and a list of
//! counts per id as the list of its ids and tallies. The sum of all tallies
//! that a list holds for an id is what merging adds up.
use crate::dlt::LogLevel;
use crate::header::StandardHeaderView;
use crate::parse::{DltParseError, ParseErrorKind};
use crate::statistics::{Statistic, StatisticCollector, StatisticView};
use rustc_hash::FxHashMap;
use vstd::prelude::*;

verus! {

/// Counts of messages per level, as unbounded integers.
pub struct Tally {
    pub non_log: int,
    pub log_fatal: int,
    pub log_error: int,
    pub log_warning: int,
    pub log_info: int,
    pub log_debug: int,
    pub log_verbose: int,
    pub log_invalid: int,
}

impl Tally {
    /// No message at all.
    pub open spec fn zero() -> Tally {
        Tally {
            non_log: 0,
            log_fatal: 0,
            log_error: 0,
            log_warning: 0,
            log_info: 0,
            log_debug: 0,
            log_verbose: 0,
            log_invalid: 0,
        }
    }

    /// One message of the given level; a message that is no log message
    /// has no level.
    pub open spec fn one(level: Option<LogLevel>) -> Tally {
        match level {
            None => Tally { non_log: 1, ..Tally::zero() },
            Some(LogLevel::Fatal) => Tally { log_fatal: 1, ..Tally::zero() },
            Some(LogLevel::Error) => Tally { log_error: 1, ..Tally::zero() },
            Some(LogLevel::Warn) => Tally { log_warning: 1, ..Tally::zero() },
            Some(LogLevel::Info) => Tally { log_info: 1, ..Tally::zero() },
            Some(LogLevel::Debug) => Tally { log_debug: 1, ..Tally::zero() },
            Some(LogLevel::Verbose) => Tally { log_verbose: 1, ..Tally::zero() },
            Some(LogLevel::Invalid(_)) => Tally { log_invalid: 1, ..Tally::zero() },
        }
    }

    /// The sum of two tallies, level by level.
    pub open spec fn plus(self, other: Tally) -> Tally {
        Tally {
            non_log: self.non_log + other.non_log,
            log_fatal: self.log_fatal + other.log_fatal,
            log_error: self.log_error + other.log_error,
            log_warning: self.log_warning + other.log_warning,
            log_info: self.log_info + other.log_info,
            log_debug: self.log_debug + other.log_debug,
            log_verbose: self.log_verbose + other.log_verbose,
            log_invalid: self.log_invalid + other.log_invalid,
        }
    }

    /// Every count can be held in a `usize`.
    pub open spec fn fits(self) -> bool {
        &&& self.non_log <= usize::MAX
        &&& self.log_fatal <= usize::MAX
        &&& self.log_error <= usize::MAX
        &&& self.log_warning <= usize::MAX
        &&& self.log_info <= usize::MAX
        &&& self.log_debug <= usize::MAX
        &&& self.log_verbose <= usize::MAX
        &&& self.log_invalid <= usize::MAX
    }
}

/// Shows how many messages per log level were found.
#[derive(Debug, Default, Clone, Copy, PartialEq, Eq)]
pub struct LevelDistribution {
    pub non_log: usize,
    pub log_fatal: usize,
    pub log_error: usize,
    pub log_warning: usize,
    pub log_info: usize,
    pub log_debug: usize,
    pub log_verbose: usize,
    pub log_invalid: usize,
}

impl View for LevelDistribution {
    type V = Tally;

    open spec fn view(&self) -> Tally {
        Tally {
            non_log: self.non_log as int,
            log_fatal: self.log_fatal as int,
            log_error: self.log_error as int,
            log_warning: self.log_warning as int,
            log_info: self.log_info as int,
            log_debug: self.log_debug as int,
            log_verbose: self.log_verbose as int,
            log_invalid: self.log_invalid as int,
        }
    }
}

impl LevelDistribution {
    /// The distribution of a single message.
    pub fn new(level: Option<LogLevel>) -> (d: LevelDistribution)
        ensures
            d@ == Tally::one(level),
    {
        let all_zero = LevelDistribution {
            non_log: 0,
            log_fatal: 0,
            log_error: 0,
            log_warning: 0,
            log_info: 0,
            log_debug: 0,
            log_verbose: 0,
            log_invalid: 0,
        };
        match level {
            None => LevelDistribution { non_log: 1, ..all_zero },
            Some(LogLevel::Fatal) => LevelDistribution { log_fatal: 1, ..all_zero },
            Some(LogLevel::Error) => LevelDistribution { log_error: 1, ..all_zero },
            Some(LogLevel::Warn) => LevelDistribution { log_warning: 1, ..all_zero },
            Some(LogLevel::Info) => LevelDistribution { log_info: 1, ..all_zero },
            Some(LogLevel::Debug) => LevelDistribution { log_debug: 1, ..all_zero },
            Some(LogLevel::Verbose) => LevelDistribution { log_verbose: 1, ..all_zero },
            _ => LevelDistribution { log_invalid: 1, ..all_zero },
        }
    }

    /// Add the counts of `outside` to the own ones. The sums have to fit
    /// into a `usize`.
    pub fn merge(&mut self, outside: &LevelDistribution)
        requires
            old(self)@.plus(outside@).fits(),
        ensures
            final(self)@ == old(self)@.plus(outside@),
    {
        self.non_log += outside.non_log;
        self.log_fatal += outside.log_fatal;
        self.log_error += outside.log_error;
        self.log_warning += outside.log_warning;
        self.log_info += outside.log_info;
        self.log_debug += outside.log_debug;
        self.log_verbose += outside.log_verbose;
        self.log_invalid += outside.log_invalid;
    }

    /// Add the counts of `outside` to the own ones, unless a sum does not
    /// fit into a `usize`: then nothing is changed and the answer is
    /// `false`.
    pub fn checked_merge(&mut self, outside: &LevelDistribution) -> (merged: bool)
        ensures
            merged == old(self)@.plus(outside@).fits(),
            merged ==> final(self)@ == old(self)@.plus(outside@),
            !merged ==> *final(self) == *old(self),
    {
        let fits = self.non_log <= usize::MAX - outside.non_log && self.log_fatal <= usize::MAX
            - outside.log_fatal && self.log_error <= usize::MAX - outside.log_error
            && self.log_warning <= usize::MAX - outside.log_warning && self.log_info <= usize::MAX
            - outside.log_info && self.log_debug <= usize::MAX - outside.log_debug
            && self.log_verbose <= usize::MAX - outside.log_verbose && self.log_invalid
            <= usize::MAX - outside.log_invalid;
        if fits {
            self.merge(outside);
        }
        fits
    }
}

/// Counts are added in any order and grouping, with the same result.
pub proof fn lemma_tally_plus_laws(a: Tally, b: Tally, c: Tally)
    ensures
        a.plus(b) == b.plus(a),
        a.plus(b).plus(c) == a.plus(b.plus(c)),
        a.plus(Tally::zero()) == a,
{
}

/// Mathematical value of a list of counts per id.
pub open spec fn spec_entries(list: Seq<(String, LevelDistribution)>) -> Seq<(Seq<char>, Tally)> {
    Seq::new(list.len(), |i: int| (list[i].0@, list[i].1@))
}

/// The sum of all tallies that `entries` holds for `id`.
pub open spec fn spec_tally_of(entries: Seq<(Seq<char>, Tally)>, id: Seq<char>) -> Tally
    decreases entries.len(),
{
    if entries.len() == 0 {
        Tally::zero()
    } else {
        let rest = spec_tally_of(entries.drop_last(), id);
        if entries.last().0 == id {
            rest.plus(entries.last().1)
        } else {
            rest
        }
    }
}

/// The index of the first entry for `id`, or the length of `entries` where
/// there is none.
pub open spec fn spec_position(entries: Seq<(Seq<char>, Tally)>, id: Seq<char>) -> int
    decreases entries.len(),
{
    if entries.len() == 0 {
        0
    } else if entries[0].0 == id {
        0
    } else {
        1 + spec_position(entries.drop_first(), id)
    }
}

/// `owner` after one entry was merged into it: the tally is added to the
/// first entry of the same id, or the entry is put at the end where there
/// is none.
pub open spec fn spec_merge_one(owner: Seq<(Seq<char>, Tally)>, income: (Seq<char>, Tally)) -> Seq<
    (Seq<char>, Tally),
> {
    let k = spec_position(owner, income.0);
    if k < owner.len() {
        owner.update(k, (owner[k].0, owner[k].1.plus(income.1)))
    } else {
        owner.push(income)
    }
}

/// `owner` after the entries of `incomes` were merged into it one by one.
pub open spec fn spec_merge_levels(
    owner: Seq<(Seq<char>, Tally)>,
    incomes: Seq<(Seq<char>, Tally)>,
) -> Seq<(Seq<char>, Tally)>
    decreases incomes.len(),
{
    if incomes.len() == 0 {
        owner
    } else {
        spec_merge_one(spec_merge_levels(owner, incomes.drop_last()), incomes.last())
    }
}

/// Merging one entry into `owner` needs no count above `usize::MAX`.
pub open spec fn spec_merge_one_fits(owner: Seq<(Seq<char>, Tally)>, income: (Seq<char>, Tally)) -> bool {
    let k = spec_position(owner, income.0);
    k < owner.len() ==> owner[k].1.plus(income.1).fits()
}

/// Merging `incomes` into `owner` needs no count above `usize::MAX`.
pub open spec fn spec_merge_levels_fits(
    owner: Seq<(Seq<char>, Tally)>,
    incomes: Seq<(Seq<char>, Tally)>,
) -> bool
    decreases incomes.len(),
{
    if incomes.len() == 0 {
        true
    } else {
        &&& spec_merge_levels_fits(owner, incomes.drop_last())
        &&& spec_merge_one_fits(spec_merge_levels(owner, incomes.drop_last()), incomes.last())
    }
}

/// The position of an id is an index of the first entry with that id, or
/// the length of the list.
pub proof fn lemma_position(entries: Seq<(Seq<char>, Tally)>, id: Seq<char>)
    ensures
        0 <= spec_position(entries, id) <= entries.len(),
        spec_position(entries, id) < entries.len() ==> entries[spec_position(entries, id)].0 == id,
        forall|j: int| 0 <= j < spec_position(entries, id) ==> (#[trigger] entries[j]).0 != id,
    decreases entries.len(),
{
    if entries.len() != 0 && entries[0].0 != id {
        lemma_position(entries.drop_first(), id);
        let p = spec_position(entries.drop_first(), id);
        assert forall|j: int| 0 <= j < p + 1 implies (#[trigger] entries[j]).0 != id by {
            if j > 0 {
                assert(entries.drop_first()[j - 1] == entries[j]);
            }
        }
        if p < entries.drop_first().len() {
            assert(entries.drop_first()[p] == entries[p + 1]);
        }
    }
}

/// Changing the tally of one entry changes the sum for its id by as much,
/// and no other sum.
pub proof fn lemma_tally_of_update(
    entries: Seq<(Seq<char>, Tally)>,
    k: int,
    extra: Tally,
    id: Seq<char>,
)
    requires
        0 <= k < entries.len(),
    ensures
        spec_tally_of(entries.update(k, (entries[k].0, entries[k].1.plus(extra))), id) == if entries[k].0
            == id {
            spec_tally_of(entries, id).plus(extra)
        } else {
            spec_tally_of(entries, id)
        },
    decreases entries.len(),
{
    let updated = entries.update(k, (entries[k].0, entries[k].1.plus(extra)));
    if k == entries.len() - 1 {
        assert(updated.drop_last() =~= entries.drop_last());
    } else {
        assert(updated.drop_last() =~= entries.drop_last().update(
            k,
            (entries[k].0, entries[k].1.plus(extra)),
        ));
        assert(entries.drop_last()[k] == entries[k]);
        lemma_tally_of_update(entries.drop_last(), k, extra, id);
    }
}

/// Merging one entry adds its tally to the sum for its id, and to no other
/// sum.
pub proof fn lemma_tally_of_merge_one(
    owner: Seq<(Seq<char>, Tally)>,
    income: (Seq<char>, Tally),
    id: Seq<char>,
)
    ensures
        spec_tally_of(spec_merge_one(owner, income), id) == if income.0 == id {
            spec_tally_of(owner, id).plus(income.1)
        } else {
            spec_tally_of(owner, id)
        },
{
    let k = spec_position(owner, income.0);
    lemma_position(owner, income.0);
    if k < owner.len() {
        lemma_tally_of_update(owner, k, income.1, id);
    } else {
        assert(owner.push(income).drop_last() =~= owner);
    }
}

/// For every id, the sum that the merged list holds is the sum of what the
/// two lists held.
pub proof fn lemma_tally_of_merge_levels(
    owner: Seq<(Seq<char>, Tally)>,
    incomes: Seq<(Seq<char>, Tally)>,
    id: Seq<char>,
)
    ensures
        spec_tally_of(spec_merge_levels(owner, incomes), id) == spec_tally_of(owner, id).plus(
            spec_tally_of(incomes, id),
        ),
    decreases incomes.len(),
{
    if incomes.len() != 0 {
        lemma_tally_of_merge_levels(owner, incomes.drop_last(), id);
        lemma_tally_of_merge_one(
            spec_merge_levels(owner, incomes.drop_last()),
            incomes.last(),
            id,
        );
    }
}

/// Merging the lists of counts is commutative on the counts: whichever list
/// is merged into the other, the sum for every id is the same.
pub proof fn lemma_merge_levels_commutative(
    a: Seq<(Seq<char>, Tally)>,
    b: Seq<(Seq<char>, Tally)>,
    id: Seq<char>,
)
    ensures
        spec_tally_of(spec_merge_levels(a, b), id) == spec_tally_of(spec_merge_levels(b, a), id),
{
    lemma_tally_of_merge_levels(a, b, id);
    lemma_tally_of_merge_levels(b, a, id);
}

/// Merging the lists of counts is associative on the counts: in whichever
/// grouping three lists are merged, the sum for every id is the same.
pub proof fn lemma_merge_levels_associative(
    a: Seq<(Seq<char>, Tally)>,
    b: Seq<(Seq<char>, Tally)>,
    c: Seq<(Seq<char>, Tally)>,
    id: Seq<char>,
)
    ensures
        spec_tally_of(spec_merge_levels(spec_merge_levels(a, b), c), id) == spec_tally_of(
            spec_merge_levels(a, spec_merge_levels(b, c)),
            id,
        ),
{
    lemma_tally_of_merge_levels(a, b, id);
    lemma_tally_of_merge_levels(spec_merge_levels(a, b), c, id);
    lemma_tally_of_merge_levels(b, c, id);
    lemma_tally_of_merge_levels(a, spec_merge_levels(b, c), id);
}

/// Some common statistics about collected messages. Includes the
/// `LevelDistribution` for application ids, context ids and ECU ids.
#[derive(Debug, Clone, PartialEq, Eq)]
pub struct StatisticInfo {
    pub app_ids: Vec<(String, LevelDistribution)>,
    pub context_ids: Vec<(String, LevelDistribution)>,
    pub ecu_ids: Vec<(String, LevelDistribution)>,
    pub contained_non_verbose: bool,
}

/// Mathematical value of a [`StatisticInfo`].
pub struct StatisticInfoView {
    pub app_ids: Seq<(Seq<char>, Tally)>,
    pub context_ids: Seq<(Seq<char>, Tally)>,
    pub ecu_ids: Seq<(Seq<char>, Tally)>,
    pub contained_non_verbose: bool,
}

impl View for StatisticInfo {
    type V = StatisticInfoView;

    open spec fn view(&self) -> StatisticInfoView {
        StatisticInfoView {
            app_ids: spec_entries(self.app_ids@),
            context_ids: spec_entries(self.context_ids@),
            ecu_ids: spec_entries(self.ecu_ids@),
            contained_non_verbose: self.contained_non_verbose,
        }
    }
}

impl StatisticInfoView {
    /// The statistics of two sources together.
    pub open spec fn spec_merge(self, other: StatisticInfoView) -> StatisticInfoView {
        StatisticInfoView {
            app_ids: spec_merge_levels(self.app_ids, other.app_ids),
            context_ids: spec_merge_levels(self.context_ids, other.context_ids),
            ecu_ids: spec_merge_levels(self.ecu_ids, other.ecu_ids),
            contained_non_verbose: self.contained_non_verbose || other.contained_non_verbose,
        }
    }

    /// Merging `other` needs no count above `usize::MAX`.
    pub open spec fn spec_merge_fits(self, other: StatisticInfoView) -> bool {
        &&& spec_merge_levels_fits(self.app_ids, other.app_ids)
        &&& spec_merge_levels_fits(self.context_ids, other.context_ids)
        &&& spec_merge_levels_fits(self.ecu_ids, other.ecu_ids)
    }
}

/// Index of the first entry of `owner` for `id`.
fn position(owner: &Vec<(String, LevelDistribution)>, id: &String) -> (k: usize)
    ensures
        k as int == spec_position(spec_entries(owner@), id@),
        k <= owner@.len(),
{
    let ghost entries = spec_entries(owner@);
    let mut k: usize = 0;
    while k < owner.len()
        invariant
            k <= owner@.len(),
            entries == spec_entries(owner@),
            forall|j: int| 0 <= j < k ==> (#[trigger] entries[j]).0 != id@,
        decreases owner@.len() - k,
    {
        assert(entries[k as int].0 == owner@[k as int].0@);
        if owner[k].0 == *id {
            proof {
                lemma_position(entries, id@);
            }
            return k;
        }
        k += 1;
    }
    proof {
        lemma_position(entries, id@);
    }
    k
}

impl StatisticInfo {
    pub fn new() -> (info: StatisticInfo)
        ensures
            info@.app_ids.len() == 0,
            info@.context_ids.len() == 0,
            info@.ecu_ids.len() == 0,
            !info@.contained_non_verbose,
    {
        StatisticInfo {
            app_ids: Vec::new(),
            context_ids: Vec::new(),
            ecu_ids: Vec::new(),
            contained_non_verbose: false,
        }
    }

    /// Merge the statistics of another source into these: the counts of
    /// each id are added up, ids that are new are put at the end in the
    /// order in which they come, and the merged statistics contain
    /// non-verbose messages where either source did.
    pub fn merge(&mut self, stat: StatisticInfo)
        requires
            old(self)@.spec_merge_fits(stat@),
        ensures
            final(self)@ == old(self)@.spec_merge(stat@),
    {
        StatisticInfo::merge_levels(&mut self.app_ids, stat.app_ids);
        StatisticInfo::merge_levels(&mut self.context_ids, stat.context_ids);
        StatisticInfo::merge_levels(&mut self.ecu_ids, stat.ecu_ids);
        self.contained_non_verbose = self.contained_non_verbose || stat.contained_non_verbose;
    }

    /// Merge the counts of `incomes` into `owner`, entry by entry.
    pub fn merge_levels(
        owner: &mut Vec<(String, LevelDistribution)>,
        incomes: Vec<(String, LevelDistribution)>,
    )
        requires
            spec_merge_levels_fits(spec_entries(old(owner)@), spec_entries(incomes@)),
        ensures
            spec_entries(final(owner)@) == spec_merge_levels(
                spec_entries(old(owner)@),
                spec_entries(incomes@),
            ),
    {
        let ghost start = spec_entries(owner@);
        let ghost all = spec_entries(incomes@);
        let mut j: usize = 0;
        assert(all.subrange(0, 0) =~= Seq::<(Seq<char>, Tally)>::empty());
        while j < incomes.len()
            invariant
                j <= incomes@.len(),
                all == spec_entries(incomes@),
                spec_merge_levels_fits(start, all),
                spec_entries(owner@) == spec_merge_levels(start, all.subrange(0, j as int)),
            decreases incomes@.len() - j,
        {
            let ghost before = spec_entries(owner@);
            let ghost income = all[j as int];
            proof {
                assert(all.subrange(0, j + 1).drop_last() =~= all.subrange(0, j as int));
                assert(all.subrange(0, j + 1).last() == income);
                lemma_merge_levels_fits_prefix(start, all, j + 1);
            }
            let k = position(owner, &incomes[j].0);
            if k < owner.len() {
                let mut entry = owner[k].1;
                entry.merge(&incomes[j].1);
                let id = owner[k].0.clone();
                owner[k] = (id, entry);
                assert(spec_entries(owner@) =~= spec_merge_one(before, income));
            } else {
                owner.push((incomes[j].0.clone(), incomes[j].1));
                assert(spec_entries(owner@) =~= spec_merge_one(before, income));
            }
            j += 1;
        }
        assert(all.subrange(0, incomes@.len() as int) =~= all);
    }
}

/// The hasher of `rustc_hash`, which the maps of the collector use.
#[verifier::external_type_specification]
#[verifier::external_body]
pub struct ExFxBuildHasher(rustc_hash::FxBuildHasher);

/// The distribution that a map of the collector holds for each id.
pub uninterp spec fn id_map_entries(map: FxHashMap<String, LevelDistribution>) -> Map<
    Seq<char>,
    LevelDistribution,
>;

/// `FxHashMap::default`.
///
/// Trusted: the new map holds nothing.
#[verifier::external_body]
fn id_map_new() -> (created: FxHashMap<String, LevelDistribution>)
    ensures
        id_map_entries(created) == spec_no_entries(),
{
    FxHashMap::default()
}

/// The entries of a map that holds nothing.
pub open spec fn spec_no_entries() -> Map<Seq<char>, LevelDistribution> {
    Map::empty()
}

/// `HashMap::get` on an `FxHashMap`.
///
/// Trusted: the result is the distribution that the map holds for `id`,
/// and `None` exactly where it holds none.
#[verifier::external_body]
fn id_map_get(map: &FxHashMap<String, LevelDistribution>, id: &String) -> (r: Option<
    LevelDistribution,
>)
    ensures
        match r {
            Some(d) => id_map_entries(*map).contains_key(id@) && id_map_entries(*map)[id@] == d,
            None => !id_map_entries(*map).contains_key(id@),
        },
{
    map.get(id).copied()
}

/// `HashMap::insert` on an `FxHashMap`.
///
/// Trusted: afterwards the map holds `distribution` for `id`, and for
/// every other id what it held before.
#[verifier::external_body]
fn id_map_insert(
    map: &mut FxHashMap<String, LevelDistribution>,
    id: String,
    distribution: LevelDistribution,
)
    ensures
        id_map_entries(*final(map)) == id_map_entries(*old(map)).insert(id@, distribution),
{
    map.insert(id, distribution);
}

/// `HashMap::into_iter` on an `FxHashMap`, collected into a list.
///
/// Trusted: the list holds every entry of the map once, in an order that
/// is left open.
#[verifier::external_body]
fn id_map_into_vec(map: FxHashMap<String, LevelDistribution>) -> (list: Vec<
    (String, LevelDistribution),
>)
    ensures
        spec_lists_map(list@, id_map_entries(map)),
{
    map.into_iter().collect()
}

/// `list` holds every entry of `map` once, and nothing else.
pub open spec fn spec_lists_map(
    list: Seq<(String, LevelDistribution)>,
    map: Map<Seq<char>, LevelDistribution>,
) -> bool {
    &&& forall|i: int|
        0 <= i < list.len() ==> map.contains_key((#[trigger] list[i]).0@) && map[list[i].0@]
            == list[i].1
    &&& forall|i: int, j: int|
        0 <= i < j < list.len() ==> (#[trigger] list[i]).0@ != (#[trigger] list[j]).0@
    &&& forall|id: Seq<char>|
        map.contains_key(id) ==> exists|i: int| 0 <= i < list.len() && (#[trigger] list[i]).0@ == id
}

/// The tally of one more message of the given level for `id`.
pub open spec fn spec_bumped(
    map: Map<Seq<char>, LevelDistribution>,
    id: Seq<char>,
    level: Option<LogLevel>,
) -> Tally {
    (if map.contains_key(id) {
        map[id]@
    } else {
        Tally::zero()
    }).plus(Tally::one(level))
}

/// The distribution for `id` after one more message of the given level,
/// unless a count would not fit into a `usize`.
fn bumped(map: &FxHashMap<String, LevelDistribution>, id: &String, level: Option<LogLevel>) -> (r:
    Option<LevelDistribution>)
    ensures
        match r {
            Some(d) => d@ == spec_bumped(id_map_entries(*map), id@, level),
            None => !spec_bumped(id_map_entries(*map), id@, level).fits(),
        },
{
    let one = LevelDistribution::new(level);
    match id_map_get(map, id) {
        Some(found) => {
            let mut d = found;
            if d.checked_merge(&one) {
                Some(d)
            } else {
                None
            }
        },
        None => Some(one),
    }
}

/// Collector for the `StatisticInfo` statistics.
pub struct StatisticInfoCollector {
    app_ids: FxHashMap<String, LevelDistribution>,
    context_ids: FxHashMap<String, LevelDistribution>,
    ecu_ids: FxHashMap<String, LevelDistribution>,
    contained_non_verbose: bool,
}

/// Mathematical value of a [`StatisticInfoCollector`].
pub struct CollectorView {
    pub app_ids: Map<Seq<char>, LevelDistribution>,
    pub context_ids: Map<Seq<char>, LevelDistribution>,
    pub ecu_ids: Map<Seq<char>, LevelDistribution>,
    pub contained_non_verbose: bool,
}

impl View for StatisticInfoCollector {
    type V = CollectorView;

    closed spec fn view(&self) -> CollectorView {
        CollectorView {
            app_ids: id_map_entries(self.app_ids),
            context_ids: id_map_entries(self.context_ids),
            ecu_ids: id_map_entries(self.ecu_ids),
            contained_non_verbose: self.contained_non_verbose,
        }
    }
}

/// The id under which a message without ECU id is counted.
pub open spec fn spec_ecu_key(header: StandardHeaderView) -> Seq<char> {
    match header.ecu_id {
        Some(id) => id,
        None => "NONE"@,
    }
}

impl CollectorView {
    /// Whether one more message can be counted with every count within
    /// `usize`.
    pub open spec fn spec_can_collect(self, statistic: StatisticView) -> bool {
        &&& spec_bumped(
            self.ecu_ids,
            spec_ecu_key(statistic.standard_header),
            statistic.log_level,
        ).fits()
        &&& match statistic.extended_header {
            Some(h) => {
                &&& spec_bumped(self.app_ids, h.application_id, statistic.log_level).fits()
                &&& spec_bumped(self.context_ids, h.context_id, statistic.log_level).fits()
            },
            None => true,
        }
    }

    /// Whether `after` is this collector with one more message counted:
    /// under the ECU id of the standard header, or under `NONE` without
    /// one, and under the ids of application and context where there is an
    /// extended header.
    pub open spec fn spec_collected(self, statistic: StatisticView, after: CollectorView) -> bool {
        let ecu = spec_ecu_key(statistic.standard_header);
        &&& after.ecu_ids.dom() == self.ecu_ids.dom().insert(ecu)
        &&& after.ecu_ids[ecu]@ == spec_bumped(self.ecu_ids, ecu, statistic.log_level)
        &&& forall|id: Seq<char>|
            id != ecu && self.ecu_ids.contains_key(id) ==> after.ecu_ids[id] == self.ecu_ids[id]
        &&& match statistic.extended_header {
            Some(h) => {
                &&& after.app_ids.dom() == self.app_ids.dom().insert(h.application_id)
                &&& after.app_ids[h.application_id]@ == spec_bumped(
                    self.app_ids,
                    h.application_id,
                    statistic.log_level,
                )
                &&& forall|id: Seq<char>|
                    id != h.application_id && self.app_ids.contains_key(id) ==> after.app_ids[id]
                        == self.app_ids[id]
                &&& after.context_ids.dom() == self.context_ids.dom().insert(h.context_id)
                &&& after.context_ids[h.context_id]@ == spec_bumped(
                    self.context_ids,
                    h.context_id,
                    statistic.log_level,
                )
                &&& forall|id: Seq<char>|
                    id != h.context_id && self.context_ids.contains_key(id)
                        ==> after.context_ids[id] == self.context_ids[id]
            },
            None => after.app_ids == self.app_ids && after.context_ids == self.context_ids,
        }
        &&& after.contained_non_verbose == (self.contained_non_verbose || !statistic.is_verbose)
    }
}

impl StatisticInfoCollector {
    /// A collector that has seen no message.
    pub fn new() -> (collector: StatisticInfoCollector)
        ensures
            collector@.app_ids == Map::<Seq<char>, LevelDistribution>::empty(),
            collector@.context_ids == Map::<Seq<char>, LevelDistribution>::empty(),
            collector@.ecu_ids == Map::<Seq<char>, LevelDistribution>::empty(),
            !collector@.contained_non_verbose,
    {
        StatisticInfoCollector {
            app_ids: id_map_new(),
            context_ids: id_map_new(),
            ecu_ids: id_map_new(),
            contained_non_verbose: false,
        }
    }

    /// Finalize and return the collected statistics: each list holds every
    /// id that was seen once, with its counts.
    pub fn collect(self) -> (info: StatisticInfo)
        ensures
            spec_lists_map(info.app_ids@, self@.app_ids),
            spec_lists_map(info.context_ids@, self@.context_ids),
            spec_lists_map(info.ecu_ids@, self@.ecu_ids),
            info.contained_non_verbose == self@.contained_non_verbose,
    {
        StatisticInfo {
            app_ids: id_map_into_vec(self.app_ids),
            context_ids: id_map_into_vec(self.context_ids),
            ecu_ids: id_map_into_vec(self.ecu_ids),
            contained_non_verbose: self.contained_non_verbose,
        }
    }
}

impl Default for StatisticInfoCollector {
    fn default() -> (collector: StatisticInfoCollector)
        ensures
            collector@.app_ids == spec_no_entries(),
            collector@.context_ids == spec_no_entries(),
            collector@.ecu_ids == spec_no_entries(),
            !collector@.contained_non_verbose,
    {
        StatisticInfoCollector::new()
    }
}

impl Default for StatisticInfo {
    fn default() -> (info: StatisticInfo)
        ensures
            info@.app_ids.len() == 0,
            info@.context_ids.len() == 0,
            info@.ecu_ids.len() == 0,
            !info@.contained_non_verbose,
    {
        StatisticInfo::new()
    }
}

impl StatisticCollector for StatisticInfoCollector {
    /// Count one message. Where a count would leave the range of `usize`
    /// the message is not counted and the pass is told to stop.
    fn collect_statistic(&mut self, statistic: Statistic) -> (r: Result<(), DltParseError>)
        ensures
            r is Ok <==> old(self)@.spec_can_collect(statistic@),
            r is Ok ==> old(self)@.spec_collected(statistic@, final(self)@),
            r is Err ==> final(self)@ == old(self)@ && r->Err_0.kind()
                == ParseErrorKind::Unrecoverable,
    {
        let log_level = statistic.log_level;
        let ecu_id: String = match statistic.standard_header.ecu_id {
            Some(id) => id,
            None => "NONE".to_owned(),
        };
        let ecu = match bumped(&self.ecu_ids, &ecu_id, log_level) {
            Some(d) => d,
            None => {
                return Err(DltParseError::Unrecoverable("too many messages to count".to_owned()));
            },
        };
        match statistic.extended_header {
            Some(h) => {
                let app = match bumped(&self.app_ids, &h.application_id, log_level) {
                    Some(d) => d,
                    None => {
                        return Err(
                            DltParseError::Unrecoverable("too many messages to count".to_owned()),
                        );
                    },
                };
                let context = match bumped(&self.context_ids, &h.context_id, log_level) {
                    Some(d) => d,
                    None => {
                        return Err(
                            DltParseError::Unrecoverable("too many messages to count".to_owned()),
                        );
                    },
                };
                id_map_insert(&mut self.app_ids, h.application_id, app);
                id_map_insert(&mut self.context_ids, h.context_id, context);
            },
            None => {},
        }
        id_map_insert(&mut self.ecu_ids, ecu_id, ecu);
        self.contained_non_verbose = self.contained_non_verbose || !statistic.is_verbose;
        Ok(())
    }
}

/// Where merging a list fits, merging a prefix of it fits.
pub proof fn lemma_merge_levels_fits_prefix(
    owner: Seq<(Seq<char>, Tally)>,
    incomes: Seq<(Seq<char>, Tally)>,
    n: int,
)
    requires
        0 <= n <= incomes.len(),
        spec_merge_levels_fits(owner, incomes),
    ensures
        spec_merge_levels_fits(owner, incomes.subrange(0, n)),
    decreases incomes.len(),
{
    if n == incomes.len() {
        assert(incomes.subrange(0, n) =~= incomes);
    } else {
        assert(incomes.drop_last().subrange(0, n) =~= incomes.subrange(0, n));
        lemma_merge_levels_fits_prefix(owner, incomes.drop_last(), n);
    }
}

} // verus!
