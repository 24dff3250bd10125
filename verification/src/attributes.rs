//! The options of an aggregate declaration.

use crate::syntax::{expr_to_u64, parse_meta_list, syn_expr_u64, syn_meta_list};
use crate::syntax::{MetaForm, RawMeta, RawMetaView};
use crate::text::{begins_with, chars_of, is_word, parse_u64, read_u64};
use std::collections::BTreeMap;
use vstd::prelude::*;

verus! {

/// One entry of an option list, with the number that its value writes.
pub struct MetaEntry {
    /// The entry's name, where its path is a single identifier.
    pub name: Option<String>,
    /// The entry's form.
    pub form: MetaForm,
    /// The value of a name and value entry, where it is an integer literal
    /// that fits in a `u64`.
    pub number: Option<u64>,
}

/// An entry as a value.
pub struct MetaEntryView {
    pub name: Option<Seq<char>>,
    pub form: MetaForm,
    pub number: Option<u64>,
}

impl DeepView for MetaEntry {
    type V = MetaEntryView;

    open spec fn deep_view(&self) -> MetaEntryView {
        MetaEntryView { name: self.name.deep_view(), form: self.form, number: self.number }
    }
}

/// Why an option list is refused.
#[derive(Debug, Clone, Copy, PartialEq, Eq, Structural)]
pub enum AttributeError {
    /// The text is no comma separated list of one or more entries.
    Syntax,
    /// `limit`, `concurrent`, `window` or a `window<N>` stands without a
    /// value.
    ExpectedValue,
    /// `limit` is zero, or more than a `usize` holds.
    InvalidLimit,
    /// `concurrent` is zero, or more than a `usize` holds.
    InvalidConcurrent,
    /// In `window<N>`, `N` is no positive number that a `u64` holds.
    InvalidThreshold,
    /// The value of a `window<N>` is no integer that a `u64` holds.
    ExpectedInteger,
    /// A `window<N>` stands behind one whose `N` is as large or larger.
    UnsortedThresholds,
    /// No `window` with an integer value is left standing.
    MissingWindow,
    /// No `limit` with an integer value is left standing.
    MissingLimit,
}

/// The options of one aggregate.
#[derive(Debug)]
pub struct Attributes {
    /// The batch size at which a flush is forced; also the capacity of the
    /// submission channel. At least 1.
    pub limit: usize,
    /// The most aggregate invocations that may run at once, where bounded.
    /// At least 1.
    pub concurrent_limit: Option<usize>,
    /// Whether calls return without awaiting a reply.
    pub asynchronous: bool,
    /// The window, in milliseconds, where no threshold applies.
    pub default_window: u64,
    /// The windows, in milliseconds, by threshold.
    pub windows: BTreeMap<u64, u64>,
}

/// The options as a value.
pub struct AttributesView {
    pub limit: usize,
    pub concurrent_limit: Option<usize>,
    pub asynchronous: bool,
    pub default_window: u64,
    pub windows: Map<u64, u64>,
}

impl View for Attributes {
    type V = AttributesView;

    open spec fn view(&self) -> AttributesView {
        AttributesView {
            limit: self.limit,
            concurrent_limit: self.concurrent_limit,
            asynchronous: self.asynchronous,
            default_window: self.default_window,
            windows: self.windows@,
        }
    }
}

/// What has been read of an option list so far.
pub struct Draft {
    pub limit: Option<usize>,
    pub concurrent_limit: Option<usize>,
    pub asynchronous: bool,
    pub default_window: Option<u64>,
    pub windows: Map<u64, u64>,
    /// The threshold of the last `window<N>` read.
    pub last: Option<u64>,
}

/// The threshold that `name` writes: the `N` of `window<N>`, a positive
/// number in base ten.
pub open spec fn threshold_of(name: Seq<char>) -> Option<u64> {
    let prefix = "window"@.len() as int;
    match parse_u64(name.skip(prefix)) {
        Some(threshold) => if threshold >= 1 {
            Some(threshold)
        } else {
            None
        },
        None => None,
    }
}

/// Whether `name` is `window` with something behind it.
pub open spec fn names_threshold(name: Seq<char>) -> bool {
    let prefix = "window"@.len() as int;
    name.len() > prefix && name.take(prefix) == "window"@
}

/// A count option: a positive number that a `usize` holds. A value that is
/// no integer leaves the option unset.
pub open spec fn count_of(number: Option<u64>, refused: AttributeError) -> Result<
    Option<usize>,
    AttributeError,
> {
    match number {
        None => Ok(None),
        Some(n) => if 1 <= n <= usize::MAX {
            Ok(Some(n as usize))
        } else {
            Err(refused)
        },
    }
}

impl Draft {
    /// Nothing read yet.
    pub open spec fn empty() -> Draft {
        Draft {
            limit: None,
            concurrent_limit: None,
            asynchronous: false,
            default_window: None,
            windows: Map::empty(),
            last: None,
        }
    }

    /// The draft with a `window<N>` entry read in.
    pub open spec fn with_threshold(self, name: Seq<char>, number: Option<u64>) -> Result<
        Draft,
        AttributeError,
    > {
        match threshold_of(name) {
            None => Err(AttributeError::InvalidThreshold),
            Some(threshold) => match number {
                None => Err(AttributeError::ExpectedInteger),
                Some(window) => if self.last matches Some(last) && last >= threshold {
                    Err(AttributeError::UnsortedThresholds)
                } else {
                    Ok(
                        Draft {
                            windows: self.windows.insert(threshold, window),
                            last: Some(threshold),
                            ..self
                        },
                    )
                },
            },
        }
    }

    /// The draft with one more entry read in. An entry under another name
    /// than those of the options changes nothing.
    pub open spec fn with(self, entry: MetaEntryView) -> Result<Draft, AttributeError> {
        match entry.name {
            None => Ok(self),
            Some(name) => {
                let valued = entry.form == MetaForm::NameValue;
                if name == "limit"@ {
                    if !valued {
                        Err(AttributeError::ExpectedValue)
                    } else {
                        match count_of(entry.number, AttributeError::InvalidLimit) {
                            Ok(limit) => Ok(Draft { limit, ..self }),
                            Err(error) => Err(error),
                        }
                    }
                } else if name == "concurrent"@ {
                    if !valued {
                        Err(AttributeError::ExpectedValue)
                    } else {
                        match count_of(entry.number, AttributeError::InvalidConcurrent) {
                            Ok(concurrent_limit) => Ok(Draft { concurrent_limit, ..self }),
                            Err(error) => Err(error),
                        }
                    }
                } else if name == "asynchronous"@ {
                    Ok(Draft { asynchronous: true, ..self })
                } else if name == "window"@ {
                    if !valued {
                        Err(AttributeError::ExpectedValue)
                    } else {
                        Ok(Draft { default_window: entry.number, ..self })
                    }
                } else if names_threshold(name) {
                    if !valued {
                        Err(AttributeError::ExpectedValue)
                    } else {
                        self.with_threshold(name, entry.number)
                    }
                } else {
                    Ok(self)
                }
            },
        }
    }

    /// The draft after `entries`, read from first to last up to the first
    /// that is refused.
    pub open spec fn read(entries: Seq<MetaEntryView>) -> Result<Draft, AttributeError>
        decreases entries.len(),
    {
        if entries.len() == 0 {
            Ok(Draft::empty())
        } else {
            match Draft::read(entries.drop_last()) {
                Ok(draft) => draft.with(entries.last()),
                Err(error) => Err(error),
            }
        }
    }

    /// The options that the draft gives: `window` and `limit` are required.
    pub open spec fn finish(self) -> Result<AttributesView, AttributeError> {
        match self.default_window {
            None => Err(AttributeError::MissingWindow),
            Some(default_window) => match self.limit {
                None => Err(AttributeError::MissingLimit),
                Some(limit) => Ok(
                    AttributesView {
                        limit,
                        concurrent_limit: self.concurrent_limit,
                        asynchronous: self.asynchronous,
                        default_window,
                        windows: self.windows,
                    },
                ),
            },
        }
    }
}

/// The options that `entries` declare.
pub open spec fn attributes_of(entries: Seq<MetaEntryView>) -> Result<
    AttributesView,
    AttributeError,
> {
    match Draft::read(entries) {
        Ok(draft) => draft.finish(),
        Err(error) => Err(error),
    }
}

/// An outcome with the options taken as a value.
pub open spec fn outcome_view(outcome: Result<Attributes, AttributeError>) -> Result<
    AttributesView,
    AttributeError,
> {
    match outcome {
        Ok(attributes) => Ok(attributes@),
        Err(error) => Err(error),
    }
}

/// The entry that `raw` stands for: the number of its value is read where
/// the entry has a value.
pub open spec fn resolved(raw: RawMetaView) -> MetaEntryView {
    MetaEntryView {
        name: raw.name,
        form: raw.form,
        number: if raw.form == MetaForm::NameValue {
            syn_expr_u64(raw.value)
        } else {
            None
        },
    }
}

/// The entries that `tokens` hold, where they are an option list.
pub open spec fn entries_of(tokens: Seq<char>) -> Option<Seq<MetaEntryView>> {
    match syn_meta_list(tokens) {
        Some(list) => Some(list.map_values(|raw: RawMetaView| resolved(raw))),
        None => None,
    }
}

/// The working state of [`Attributes::from_entries`].
struct Reading {
    limit: Option<usize>,
    concurrent_limit: Option<usize>,
    asynchronous: bool,
    default_window: Option<u64>,
    windows: BTreeMap<u64, u64>,
    last: Option<u64>,
}

impl View for Reading {
    type V = Draft;

    closed spec fn view(&self) -> Draft {
        Draft {
            limit: self.limit,
            concurrent_limit: self.concurrent_limit,
            asynchronous: self.asynchronous,
            default_window: self.default_window,
            windows: self.windows@,
            last: self.last,
        }
    }
}

/// Reads a count option.
fn read_count(number: Option<u64>, refused: AttributeError) -> (count: Result<
    Option<usize>,
    AttributeError,
>)
    ensures
        count == count_of(number, refused),
{
    match number {
        None => Ok(None),
        Some(n) => {
            if n >= 1 && n <= usize::MAX as u64 {
                Ok(Some(n as usize))
            } else {
                Err(refused)
            }
        },
    }
}

impl Reading {
    /// Reads a `window<N>` entry in.
    fn with_threshold(self, name: &Vec<char>, number: Option<u64>) -> (read: Result<
        Reading,
        AttributeError,
    >)
        requires
            "window"@.len() <= name@.len(),
        ensures
            match read {
                Ok(reading) => self@.with_threshold(name@, number) == Ok::<Draft, AttributeError>(
                    reading@,
                ),
                Err(error) => self@.with_threshold(name@, number) == Err::<Draft, AttributeError>(
                    error,
                ),
            },
    {
        let prefix = chars_of("window").len();
        let threshold = match read_u64(name, prefix) {
            Some(threshold) => threshold,
            None => { return Err(AttributeError::InvalidThreshold); },
        };
        if threshold < 1 {
            return Err(AttributeError::InvalidThreshold);
        }
        let window = match number {
            Some(window) => window,
            None => { return Err(AttributeError::ExpectedInteger); },
        };
        if let Some(last) = self.last {
            if last >= threshold {
                return Err(AttributeError::UnsortedThresholds);
            }
        }
        let mut reading = self;
        proof {
            crate::window::lemma_thresholds_are_ordered();
        }
        reading.windows.insert(threshold, window);
        reading.last = Some(threshold);
        Ok(reading)
    }

    /// Reads one more entry in.
    fn with(self, entry: &MetaEntry) -> (read: Result<Reading, AttributeError>)
        ensures
            match read {
                Ok(reading) => self@.with(entry.deep_view()) == Ok::<Draft, AttributeError>(
                    reading@,
                ),
                Err(error) => self@.with(entry.deep_view()) == Err::<Draft, AttributeError>(error),
            },
    {
        let name = match &entry.name {
            Some(name) => chars_of(name.as_str()),
            None => { return Ok(self); },
        };
        let valued = match entry.form {
            MetaForm::NameValue => true,
            _ => false,
        };
        let mut reading = self;
        if is_word(&name, "limit") {
            if !valued {
                return Err(AttributeError::ExpectedValue);
            }
            match read_count(entry.number, AttributeError::InvalidLimit) {
                Ok(limit) => {
                    reading.limit = limit;
                    Ok(reading)
                },
                Err(error) => Err(error),
            }
        } else if is_word(&name, "concurrent") {
            if !valued {
                return Err(AttributeError::ExpectedValue);
            }
            match read_count(entry.number, AttributeError::InvalidConcurrent) {
                Ok(concurrent_limit) => {
                    reading.concurrent_limit = concurrent_limit;
                    Ok(reading)
                },
                Err(error) => Err(error),
            }
        } else if is_word(&name, "asynchronous") {
            reading.asynchronous = true;
            Ok(reading)
        } else if is_word(&name, "window") {
            if !valued {
                return Err(AttributeError::ExpectedValue);
            }
            reading.default_window = entry.number;
            Ok(reading)
        } else if begins_with(&name, "window") {
            proof {
                assert(name@.take(name@.len() as int) =~= name@);
                assert(names_threshold(name@));
            }
            if !valued {
                return Err(AttributeError::ExpectedValue);
            }
            reading.with_threshold(&name, entry.number)
        } else {
            Ok(reading)
        }
    }
}

/// The entries that stand for `raw`, in order.
fn resolve(raw: &Vec<RawMeta>) -> (entries: Vec<MetaEntry>)
    ensures
        entries.deep_view() == raw.deep_view().map_values(|raw: RawMetaView| resolved(raw)),
{
    let mut entries: Vec<MetaEntry> = Vec::new();
    let mut i: usize = 0;
    while i < raw.len()
        invariant
            i <= raw@.len(),
            entries@.len() == i,
            forall|j: int|
                0 <= j < i ==> (#[trigger] entries@[j]).deep_view() == resolved(
                    raw@[j].deep_view(),
                ),
        decreases raw@.len() - i,
    {
        let name = match &raw[i].name {
            Some(name) => Some(name.clone()),
            None => None,
        };
        let number = match raw[i].form {
            MetaForm::NameValue => expr_to_u64(raw[i].value.as_str()),
            _ => None,
        };
        entries.push(MetaEntry { name, form: raw[i].form, number });
        i += 1;
    }
    proof {
        assert(entries.deep_view() =~= raw.deep_view().map_values(
            |raw: RawMetaView| resolved(raw),
        ));
    }
    entries
}

/// The most permits that a semaphore takes: the bound on concurrent
/// invocations where none is declared.
pub open spec fn unbounded_permits() -> usize {
    (usize::MAX / 8) as usize
}

impl Attributes {
    /// The options that `tokens` declare, read as a comma separated list of
    /// entries such as `window = 100, window2 = 10, limit = 1000`.
    pub fn parse(tokens: &str) -> (outcome: Result<Attributes, AttributeError>)
        ensures
            outcome_view(outcome) == match entries_of(tokens@) {
                Some(entries) => attributes_of(entries),
                None => Err(AttributeError::Syntax),
            },
    {
        match parse_meta_list(tokens) {
            Some(raw) => {
                let entries = resolve(&raw);
                Attributes::from_entries(&entries)
            },
            None => Err(AttributeError::Syntax),
        }
    }

    /// The number of permits of the concurrency semaphore: the declared
    /// bound, or the most that a semaphore takes where none is declared or
    /// the declared one is larger.
    pub fn permits(&self) -> (permits: usize)
        ensures
            permits == match self.concurrent_limit {
                Some(bound) => if bound <= unbounded_permits() {
                    bound
                } else {
                    unbounded_permits()
                },
                None => unbounded_permits(),
            },
    {
        let most = usize::MAX / 8;
        match self.concurrent_limit {
            Some(bound) => if bound <= most {
                bound
            } else {
                most
            },
            None => most,
        }
    }

    /// The capacity of the submission channel: the limit, kept within what
    /// a channel takes, which is at least 1 and at most the permits of a
    /// semaphore.
    pub fn capacity(&self) -> (capacity: usize)
        ensures
            capacity == if self.limit < 1 {
                1
            } else if self.limit <= unbounded_permits() {
                self.limit
            } else {
                unbounded_permits()
            },
            1 <= capacity <= unbounded_permits(),
    {
        let most = usize::MAX / 8;
        if self.limit < 1 {
            1
        } else if self.limit <= most {
            self.limit
        } else {
            most
        }
    }

    /// The options that `entries` declare, or why they are refused.
    pub fn from_entries(entries: &Vec<MetaEntry>) -> (outcome: Result<Attributes, AttributeError>)
        ensures
            outcome_view(outcome) == attributes_of(entries.deep_view()),
    {
        let mut reading = Reading {
            limit: None,
            concurrent_limit: None,
            asynchronous: false,
            default_window: None,
            windows: BTreeMap::new(),
            last: None,
        };
        let mut i: usize = 0;
        while i < entries.len()
            invariant
                i <= entries@.len(),
                Draft::read(entries.deep_view().take(i as int)) == Ok::<Draft, AttributeError>(
                    reading@,
                ),
            decreases entries@.len() - i,
        {
            let ghost read_before = entries.deep_view().take(i as int);
            proof {
                assert(entries.deep_view().take(i + 1).drop_last() =~= read_before);
                assert(entries.deep_view().take(i + 1).last() == entries@[i as int].deep_view());
            }
            match reading.with(&entries[i]) {
                Ok(next) => {
                    reading = next;
                },
                Err(error) => {
                    proof {
                        lemma_refused_stays_refused(entries.deep_view(), i + 1);
                    }
                    return Err(error);
                },
            }
            i += 1;
        }
        proof {
            assert(entries.deep_view().take(i as int) =~= entries.deep_view());
        }
        let default_window = match reading.default_window {
            Some(default_window) => default_window,
            None => { return Err(AttributeError::MissingWindow); },
        };
        let limit = match reading.limit {
            Some(limit) => limit,
            None => { return Err(AttributeError::MissingLimit); },
        };
        Ok(
            Attributes {
                limit,
                concurrent_limit: reading.concurrent_limit,
                asynchronous: reading.asynchronous,
                default_window,
                windows: reading.windows,
            },
        )
    }
}

/// Once an entry is refused, the list is refused for that reason, whatever
/// follows.
proof fn lemma_refused_stays_refused(entries: Seq<MetaEntryView>, n: int)
    requires
        0 <= n <= entries.len(),
        Draft::read(entries.take(n)) is Err,
    ensures
        Draft::read(entries) == Draft::read(entries.take(n)),
    decreases entries.len() - n,
{
    if n < entries.len() {
        assert(entries.take(n + 1).drop_last() =~= entries.take(n));
        lemma_refused_stays_refused(entries, n + 1);
    } else {
        assert(entries.take(n) =~= entries);
    }
}

/// Options that are accepted are valid: the limit and the bound on
/// concurrent invocations are positive, and so is every threshold.
pub proof fn law_accepted_options_are_valid(entries: Seq<MetaEntryView>)
    ensures
        attributes_of(entries) matches Ok(attributes) ==> {
            &&& attributes.limit >= 1
            &&& attributes.concurrent_limit matches Some(bound) ==> bound >= 1
            &&& forall|threshold: u64| #[trigger]
                attributes.windows.contains_key(threshold) ==> threshold >= 1
        },
{
    lemma_draft_is_valid(entries);
}

/// What holds of every draft that has been read.
spec fn draft_is_valid(draft: Draft) -> bool {
    &&& draft.limit matches Some(limit) ==> limit >= 1
    &&& draft.concurrent_limit matches Some(bound) ==> bound >= 1
    &&& forall|threshold: u64| #[trigger]
        draft.windows.contains_key(threshold) ==> {
            &&& threshold >= 1
            &&& draft.last matches Some(last)
            &&& threshold <= last
        }
}

proof fn lemma_draft_is_valid(entries: Seq<MetaEntryView>)
    ensures
        Draft::read(entries) matches Ok(draft) ==> draft_is_valid(draft),
    decreases entries.len(),
{
    if entries.len() > 0 {
        lemma_draft_is_valid(entries.drop_last());
    }
}

/// Thresholds are accepted only in strictly ascending order: of two
/// `window<N>` entries of an accepted list, the later has the larger `N`.
pub proof fn law_thresholds_ascend(entries: Seq<MetaEntryView>, i: int, j: int)
    requires
        attributes_of(entries) is Ok,
        0 <= i < j < entries.len(),
        entries[i].name matches Some(name) && names_threshold(name),
        entries[j].name matches Some(name) && names_threshold(name),
    ensures
        threshold_of(entries[i].name->0) matches Some(first) && threshold_of(
            entries[j].name->0,
        ) matches Some(second) && first < second,
{
    lemma_read_prefix(entries, i + 1);
    lemma_read_prefix(entries, j + 1);
    lemma_read_prefix(entries, j);
    assert(entries.take(i + 1).drop_last() =~= entries.take(i));
    assert(entries.take(j + 1).drop_last() =~= entries.take(j));
    lemma_read_prefix(entries, i);
    lemma_last_grows(entries, i + 1, j);
    let before_first = Draft::read(entries.take(i))->Ok_0;
    let before_second = Draft::read(entries.take(j))->Ok_0;
    lemma_threshold_entry(before_first, entries[i]);
    lemma_threshold_entry(before_second, entries[j]);
    assert(entries.take(i + 1).last() == entries[i]);
    assert(entries.take(j + 1).last() == entries[j]);
}

/// An entry named `window<N>` is read as a threshold.
proof fn lemma_threshold_entry(draft: Draft, entry: MetaEntryView)
    requires
        entry.name matches Some(name) && names_threshold(name),
    ensures
        draft.with(entry) == if entry.form == MetaForm::NameValue {
            draft.with_threshold(entry.name->0, entry.number)
        } else {
            Err(AttributeError::ExpectedValue)
        },
{
    reveal_strlit("window");
    reveal_strlit("limit");
    reveal_strlit("concurrent");
    reveal_strlit("asynchronous");
    let name = entry.name->0;
    assert(name.take(6)[0] == 'w');
    assert(name[0] == 'w');
}

/// A list that is accepted is accepted up to any of its entries.
proof fn lemma_read_prefix(entries: Seq<MetaEntryView>, n: int)
    requires
        Draft::read(entries) is Ok,
        0 <= n <= entries.len(),
    ensures
        Draft::read(entries.take(n)) is Ok,
    decreases entries.len() - n,
{
    if Draft::read(entries.take(n)) is Err {
        lemma_refused_stays_refused(entries, n);
    }
}

/// The threshold read last never gets smaller.
proof fn lemma_last_grows(entries: Seq<MetaEntryView>, m: int, n: int)
    requires
        0 <= m <= n <= entries.len(),
        Draft::read(entries.take(n)) is Ok,
    ensures
        Draft::read(entries.take(m)) matches Ok(early) && Draft::read(
            entries.take(n),
        ) matches Ok(late) && (early.last matches Some(first) ==> late.last matches Some(second)
            && first <= second),
    decreases n - m,
{
    if m < n {
        assert(entries.take(n).drop_last() =~= entries.take(n - 1));
        lemma_last_grows(entries, m, n - 1);
    }
}

} // verus!
