//! The decisions of a sync run. The run is a state machine: `next_step` says
//! what outside work comes next (fetch a catalog, look for a file, download,
//! write the mapping), and the caller hands back what came of it. Channels are
//! taken in input order and emotes in catalog order; no per-channel or
//! per-emote problem stops the run.
use vstd::prelude::*;
use crate::catalog::{CatalogEntry, FetchError, catalog_url, CATALOG_BASE};
use crate::channels::{channel_ids, parse_channel_list, views_of};
use crate::error::SyncError;
use crate::mapping::{MappingStore, mapping_json};
use crate::names::{mapping_token, token_of};
use crate::resolve::{resolve, resolved_entry};

verus! {

/// The directory, under the data root, that holds one directory per channel.
pub const ASSETS_DIR: &'static str = "7tv_emotes";

/// The mapping file's name under the data root.
pub const MAPPING_FILE: &'static str = "emote_mapping.json";

/// The most failure records a report lists; the rest are only counted.
pub const FAILURE_REPORT_LIMIT: usize = 50;

/// One emote of the current channel, resolved and ready to be handled.
pub struct PlannedEmote {
    pub name: String,
    pub token: String,
    /// `<assets dir>/<channel>/<file name>`, relative to the data root.
    pub relative_path: String,
    pub download_url: String,
}

pub ghost struct PlanView {
    pub name: Seq<char>,
    pub token: Seq<char>,
    pub relative_path: Seq<char>,
    pub download_url: Seq<char>,
}

impl View for PlannedEmote {
    type V = PlanView;

    open spec fn view(&self) -> PlanView {
        PlanView {
            name: self.name@,
            token: self.token@,
            relative_path: self.relative_path@,
            download_url: self.download_url@,
        }
    }
}

/// `s` with every backslash turned into a forward slash.
pub open spec fn slashed(s: Seq<char>) -> Seq<char> {
    s.map_values(|c: char| if c == '\\' { '/' } else { c })
}

/// The relative path of file `file_name` of channel `channel`, with forward
/// slashes only.
pub open spec fn relative_path_of(channel: Seq<char>, file_name: Seq<char>) -> Seq<char> {
    ASSETS_DIR@ + "/"@ + slashed(channel) + "/"@ + slashed(file_name)
}

/// How an entry of channel `channel` is planned.
pub open spec fn plan_of(channel: Seq<char>, e: CatalogEntry) -> PlanView {
    let a = resolved_entry(e);
    PlanView {
        name: e.name@,
        token: token_of(e.name@),
        relative_path: relative_path_of(channel, a.file_name),
        download_url: a.download_url,
    }
}

/// How one emote ended.
#[derive(Debug, Clone, Copy, PartialEq, Eq, Structural)]
pub enum Outcome {
    /// Downloaded and written.
    Saved,
    /// Its file was already on disk.
    Existing,
    /// The download or the write failed.
    Failed,
}

/// The mapping after one emote of outcome `o`: a saved emote is mapped to its
/// path, a found one only where its token was not mapped yet.
pub open spec fn apply_one(m: Map<Seq<char>, Seq<char>>, p: PlanView, o: Outcome) -> Map<
    Seq<char>,
    Seq<char>,
> {
    match o {
        Outcome::Saved => m.insert(p.token, p.relative_path),
        Outcome::Existing => if m.contains_key(p.token) {
            m
        } else {
            m.insert(p.token, p.relative_path)
        },
        Outcome::Failed => m,
    }
}

/// The mapping after the emotes of `h`, in order, starting from `m`.
pub open spec fn apply_history(m: Map<Seq<char>, Seq<char>>, h: Seq<(PlanView, Outcome)>) -> Map<
    Seq<char>,
    Seq<char>,
>
    decreases h.len(),
{
    if h.len() == 0 {
        m
    } else {
        apply_one(apply_history(m, h.drop_last()), h.last().0, h.last().1)
    }
}

/// How many emotes of `h` ended with `o`.
pub open spec fn count_of(h: Seq<(PlanView, Outcome)>, o: Outcome) -> nat
    decreases h.len(),
{
    if h.len() == 0 {
        0
    } else {
        count_of(h.drop_last(), o) + if h.last().1 == o {
            1nat
        } else {
            0nat
        }
    }
}

/// The history of a run made of the histories of its channels, in order.
pub open spec fn concat_all(hs: Seq<Seq<(PlanView, Outcome)>>) -> Seq<(PlanView, Outcome)>
    decreases hs.len(),
{
    if hs.len() == 0 {
        Seq::empty()
    } else {
        concat_all(hs.drop_last()) + hs.last()
    }
}

/// Per-channel or whole-run counters.
#[derive(Debug, Clone, Copy, PartialEq, Eq, Structural)]
pub struct Counters {
    pub processed: u64,
    pub downloaded: u64,
    pub skipped: u64,
    pub failed: u64,
}

impl Counters {
    pub open spec fn balanced(&self, pending: int) -> bool {
        self.processed == self.downloaded + self.skipped + self.failed + pending
    }

    /// All counters at zero.
    pub fn zero() -> (r: Counters)
        ensures
            r == (Counters { processed: 0, downloaded: 0, skipped: 0, failed: 0 }),
    {
        Counters { processed: 0, downloaded: 0, skipped: 0, failed: 0 }
    }
}

/// Why one emote failed.
#[derive(Debug, PartialEq, Eq)]
pub enum EmoteFailure {
    /// The download answered with a status outside 200..=299.
    HttpStatus(u16),
    /// The download did not complete.
    Transport(String),
    /// The bytes could not be written to disk.
    Write(String),
}

/// One failed emote.
#[derive(Debug, PartialEq, Eq)]
pub struct FailureRecord {
    pub channel_id: String,
    pub emote_name: String,
    pub reason: EmoteFailure,
}

/// What came of one channel.
#[derive(Debug, PartialEq, Eq)]
pub struct ChannelSummary {
    pub channel_id: String,
    pub counters: Counters,
    /// Set where the catalog could not be had; such a channel did no work.
    pub fetch_error: Option<FetchError>,
}

/// What a finished run returns.
#[derive(Debug, PartialEq, Eq)]
pub struct SyncReport {
    pub totals: Counters,
    pub channels: Vec<ChannelSummary>,
    /// The first failures, at most `FAILURE_REPORT_LIMIT` of them.
    pub failures: Vec<FailureRecord>,
    /// How many failures are not listed.
    pub omitted_failures: usize,
}

/// Where the run stands.
#[derive(Debug, Clone, Copy, PartialEq, Eq, Structural)]
pub enum Phase {
    AwaitCatalog,
    AwaitExisting,
    AwaitDownload,
    AwaitPersist,
}

/// The outside work that comes next.
#[derive(Debug, PartialEq, Eq)]
pub enum Step {
    /// Fetch the catalog of a channel.
    FetchCatalog { channel_id: String, url: String },
    /// Tell whether a file exists, relative to the data root.
    CheckExisting { relative_path: String },
    /// Download `url` and write it to `relative_path` under the data root.
    Download { url: String, relative_path: String },
    /// Write the mapping (`mapping_text`) to the mapping file, then `finish`.
    PersistMapping,
}

/// The phase after a channel is done, when `current` channels of `n` are.
pub open spec fn phase_after_channel(current: int, n: int) -> Phase {
    if current == n {
        Phase::AwaitPersist
    } else {
        Phase::AwaitCatalog
    }
}

/// The entries that a catalog outcome offers: none unless it holds an emote set.
pub open spec fn entries_of(outcome: Result<Option<Vec<CatalogEntry>>, FetchError>) -> Seq<
    CatalogEntry,
> {
    match outcome {
        Ok(Some(v)) => v@,
        _ => Seq::empty(),
    }
}

/// The fetch error of a catalog outcome, if any.
pub open spec fn error_of(outcome: Result<Option<Vec<CatalogEntry>>, FetchError>) -> Option<
    FetchError,
> {
    match outcome {
        Err(e) => Some(e),
        _ => None,
    }
}

/// Appends `s` to `out` with every backslash turned into a forward slash.
fn append_slashed(out: &mut String, s: &str)
    ensures
        final(out)@ == old(out)@ + slashed(s@),
{
    let ghost start = out@;
    let n = s.unicode_len();
    let mut i: usize = 0;
    proof {
        reveal_strlit("/");
    }
    assert(slashed(s@.subrange(0, 0)) =~= Seq::<char>::empty());
    while i < n
        invariant
            n == s@.len(),
            i <= n,
            "/"@ == seq!['/'],
            out@ == start + slashed(s@.subrange(0, i as int)),
        decreases n - i,
    {
        let c = s.get_char(i);
        if c == '\\' {
            out.append("/");
        } else {
            out.append(s.substring_char(i, i + 1));
        }
        assert(slashed(s@.subrange(0, i as int + 1)) =~= slashed(s@.subrange(0, i as int)).push(
            if c == '\\' {
                '/'
            } else {
                c
            },
        ));
        i = i + 1;
    }
    assert(s@.subrange(0, n as int) =~= s@);
}

/// `<assets dir>/<channel>/<file name>`, with every backslash of the channel
/// and the file name turned into a forward slash.
pub fn relative_path(channel: &str, file_name: &str) -> (r: String)
    ensures
        r@ == relative_path_of(channel@, file_name@),
        forall|k: int| 0 <= k < r@.len() ==> r@[k] != '\\',
{
    let mut r = String::from_str(ASSETS_DIR);
    r.append("/");
    append_slashed(&mut r, channel);
    r.append("/");
    append_slashed(&mut r, file_name);
    proof {
        lemma_forward_slashes_only(channel@, file_name@);
        assert forall|k: int| 0 <= k < r@.len() implies r@[k] != '\\' by {
            assert(relative_path_of(channel@, file_name@)[k] != '\\');
        }
    }
    r
}

/// Relative paths hold forward slashes only, never a backslash.
pub proof fn lemma_forward_slashes_only(channel: Seq<char>, file_name: Seq<char>)
    ensures
        forall|k: int|
            0 <= k < relative_path_of(channel, file_name).len() ==> #[trigger] relative_path_of(
                channel,
                file_name,
            )[k] != '\\',
{
    reveal_strlit("7tv_emotes");
    reveal_strlit("/");
    assert(ASSETS_DIR@ == "7tv_emotes"@);
    let p = relative_path_of(channel, file_name);
    assert forall|k: int| 0 <= k < p.len() implies p[k] != '\\' by {
        let a = ASSETS_DIR@;
        let c = slashed(channel);
        let f = slashed(file_name);
        if k < a.len() {
        } else if k < a.len() + 1 {
        } else if k < a.len() + 1 + c.len() {
            assert(p[k] == c[k - a.len() - 1]);
        } else if k < a.len() + 2 + c.len() {
        } else {
            assert(p[k] == f[k - a.len() - 2 - c.len()]);
        }
    }
}

/// Recording one more emote extends the mapping and the counts by that emote.
pub proof fn lemma_history_push(
    m: Map<Seq<char>, Seq<char>>,
    h: Seq<(PlanView, Outcome)>,
    x: (PlanView, Outcome),
)
    ensures
        apply_history(m, h.push(x)) == apply_one(apply_history(m, h), x.0, x.1),
        count_of(h.push(x), Outcome::Saved) == count_of(h, Outcome::Saved) + if x.1
            == Outcome::Saved {
            1nat
        } else {
            0nat
        },
        count_of(h.push(x), Outcome::Existing) == count_of(h, Outcome::Existing) + if x.1
            == Outcome::Existing {
            1nat
        } else {
            0nat
        },
        count_of(h.push(x), Outcome::Failed) == count_of(h, Outcome::Failed) + if x.1
            == Outcome::Failed {
            1nat
        } else {
            0nat
        },
{
    assert(h.push(x).drop_last() =~= h);
}

/// A sync run in progress.
pub struct SyncEngine {
    pub channels: Vec<String>,
    pub current: usize,
    pub plan: Vec<PlannedEmote>,
    pub next_emote: usize,
    pub phase: Phase,
    pub mapping: MappingStore,
    pub totals: Counters,
    pub channel_counts: Counters,
    pub summaries: Vec<ChannelSummary>,
    pub failures: Vec<FailureRecord>,
    /// The mapping as loaded at the start.
    pub initial: Ghost<Map<Seq<char>, Seq<char>>>,
    /// Every emote handled so far, with its outcome, in order.
    pub history: Ghost<Seq<(PlanView, Outcome)>>,
    /// The part of `history` of each closed channel, in order; empty for a
    /// channel that did no work.
    pub closed_histories: Ghost<Seq<Seq<(PlanView, Outcome)>>>,
    /// The part of `history` of the current channel.
    pub channel_history: Ghost<Seq<(PlanView, Outcome)>>,
}

impl SyncEngine {
    pub open spec fn plan_views(&self) -> Seq<PlanView> {
        self.plan@.map_values(|p: PlannedEmote| p@)
    }

    pub open spec fn pending(&self) -> int {
        self.plan@.len() - self.next_emote
    }

    /// The emote now being handled.
    pub open spec fn current_emote(&self) -> PlanView {
        self.plan@[self.next_emote as int]@
    }

    /// What holds in every state: the mapping and the counters agree with the
    /// history, and every emote counted as processed is done or pending.
    pub open spec fn wf_core(&self) -> bool {
        &&& self.wf_records()
        &&& self.totals.balanced(self.pending())
        &&& self.channel_counts.balanced(self.pending())
    }

    /// The mapping and the outcome counters agree with the history.
    pub open spec fn wf_records(&self) -> bool {
        &&& self.mapping.wf()
        &&& self.current <= self.channels@.len()
        &&& self.next_emote <= self.plan@.len()
        &&& self.mapping@ == apply_history(self.initial@, self.history@)
        &&& self.history@ == concat_all(self.closed_histories@) + self.channel_history@
        &&& self.totals.downloaded == count_of(self.history@, Outcome::Saved)
        &&& self.totals.skipped == count_of(self.history@, Outcome::Existing)
        &&& self.totals.failed == count_of(self.history@, Outcome::Failed)
    }

    pub open spec fn wf(&self) -> bool {
        &&& self.wf_core()
        &&& match self.phase {
            Phase::AwaitCatalog => self.current < self.channels@.len() && self.plan@.len() == 0
                && self.channel_history@.len() == 0 && self.channel_counts == Counters {
                processed: 0,
                downloaded: 0,
                skipped: 0,
                failed: 0,
            },
            Phase::AwaitExisting => self.current < self.channels@.len() && self.next_emote
                < self.plan@.len(),
            Phase::AwaitDownload => self.current < self.channels@.len() && self.next_emote
                < self.plan@.len(),
            Phase::AwaitPersist => self.current == self.channels@.len() && self.plan@.len() == 0
                && self.channel_history@.len() == 0,
        }
    }

    /// The parts of the run that handling an emote or a catalog leaves as they
    /// were.
    pub open spec fn same_run(&self, old: &SyncEngine) -> bool {
        &&& self.channels == old.channels
        &&& self.initial == old.initial
    }

    /// After the emote at `old.next_emote` was handled, leaving the channel
    /// counters at `counts`: the next emote of the channel is up, or the
    /// channel is closed with those counters.
    pub open spec fn moved_on(&self, old: &SyncEngine, counts: Counters) -> bool {
        &&& self.same_run(old)
        &&& self.failures@.len() >= old.failures@.len()
        &&& if old.next_emote + 1 < old.plan@.len() {
            &&& self.phase == Phase::AwaitExisting
            &&& self.current == old.current
            &&& self.next_emote == old.next_emote + 1
            &&& self.plan == old.plan
            &&& self.summaries == old.summaries
            &&& self.channel_counts == counts
        } else {
            self.closed_channel(old, counts, None)
        }
    }

    /// The channel at `old.current` is closed with counters `counts`.
    pub open spec fn closed_channel(
        &self,
        old: &SyncEngine,
        counts: Counters,
        fetch_error: Option<FetchError>,
    ) -> bool {
        &&& self.current == old.current + 1
        &&& self.phase == phase_after_channel(self.current as int, self.channels@.len() as int)
        &&& self.plan@.len() == 0
        &&& self.next_emote == 0
        &&& self.channel_counts == Counters { processed: 0, downloaded: 0, skipped: 0, failed: 0 }
        &&& self.summaries@ == old.summaries@.push(
            ChannelSummary {
                channel_id: old.channels@[old.current as int],
                counters: counts,
                fetch_error,
            },
        )
    }

    /// Starts a run over the channels that `channel_list` names, with the
    /// mapping as loaded. A list that names none is refused.
    pub fn start(channel_list: &str, mapping: MappingStore) -> (r: Result<SyncEngine, SyncError>)
        requires
            mapping.wf(),
        ensures
            r is Ok <==> channel_ids(channel_list@).len() > 0,
            r is Err ==> r == Err::<SyncEngine, SyncError>(SyncError::InvalidChannelList),
            r matches Ok(e) ==> {
                &&& e.wf()
                &&& e.phase == Phase::AwaitCatalog
                &&& e.current == 0
                &&& views_of(e.channels@) == channel_ids(channel_list@)
                &&& e.mapping@ == mapping@
                &&& e.initial@ == mapping@
                &&& e.history@.len() == 0
                &&& e.totals == Counters { processed: 0, downloaded: 0, skipped: 0, failed: 0 }
                &&& e.summaries@.len() == 0
                &&& e.failures@.len() == 0
            },
    {
        match parse_channel_list(channel_list) {
            Err(e) => Err(e),
            Ok(channels) => {
                let ghost m = mapping@;
                assert(concat_all(Seq::<Seq<(PlanView, Outcome)>>::empty()) + Seq::<
                    (PlanView, Outcome),
                >::empty() =~= Seq::<(PlanView, Outcome)>::empty());
                Ok(
                    SyncEngine {
                        channels,
                        current: 0,
                        plan: Vec::new(),
                        next_emote: 0,
                        phase: Phase::AwaitCatalog,
                        mapping,
                        totals: Counters::zero(),
                        channel_counts: Counters::zero(),
                        summaries: Vec::new(),
                        failures: Vec::new(),
                        initial: Ghost(m),
                        history: Ghost(Seq::empty()),
                        closed_histories: Ghost(Seq::empty()),
                        channel_history: Ghost(Seq::empty()),
                    },
                )
            },
        }
    }

    /// The outside work that comes next.
    pub fn next_step(&self) -> (r: Step)
        requires
            self.wf(),
        ensures
            self.phase == Phase::AwaitCatalog ==> (r matches Step::FetchCatalog { channel_id, url }
                && channel_id@ == self.channels@[self.current as int]@ && url@ == CATALOG_BASE@
                + channel_id@),
            self.phase == Phase::AwaitExisting ==> (r matches Step::CheckExisting { relative_path }
                && relative_path@ == self.current_emote().relative_path),
            self.phase == Phase::AwaitDownload ==> (r matches Step::Download { url, relative_path }
                && url@ == self.current_emote().download_url && relative_path@
                == self.current_emote().relative_path),
            self.phase == Phase::AwaitPersist ==> r == Step::PersistMapping,
    {
        match self.phase {
            Phase::AwaitCatalog => {
                let channel_id = self.channels[self.current].clone();
                let url = catalog_url(channel_id.as_str());
                Step::FetchCatalog { channel_id, url }
            },
            Phase::AwaitExisting => Step::CheckExisting {
                relative_path: self.plan[self.next_emote].relative_path.clone(),
            },
            Phase::AwaitDownload => Step::Download {
                url: self.plan[self.next_emote].download_url.clone(),
                relative_path: self.plan[self.next_emote].relative_path.clone(),
            },
            Phase::AwaitPersist => Step::PersistMapping,
        }
    }

    /// Closes the current channel, all of whose emotes are handled.
    fn close_channel(&mut self, fetch_error: Option<FetchError>)
        requires
            old(self).wf_core(),
            old(self).current < old(self).channels@.len(),
            old(self).next_emote == old(self).plan@.len(),
        ensures
            final(self).wf(),
            final(self).same_run(old(self)),
            final(self).closed_channel(old(self), old(self).channel_counts, fetch_error),
            final(self).mapping == old(self).mapping,
            final(self).totals == old(self).totals,
            final(self).history == old(self).history,
            final(self).failures == old(self).failures,
            final(self).closed_histories@ == old(self).closed_histories@.push(
                old(self).channel_history@,
            ),
            final(self).channel_history@.len() == 0,
    {
        let ghost closed = self.closed_histories@;
        let ghost ch = self.channel_history@;
        assert(closed.push(ch).drop_last() =~= closed);
        assert(concat_all(closed.push(ch)) + Seq::<(PlanView, Outcome)>::empty() =~= concat_all(
            closed,
        ) + ch);
        self.closed_histories = Ghost(closed.push(ch));
        self.channel_history = Ghost(Seq::empty());
        let n = self.channels.len();
        let summary = ChannelSummary {
            channel_id: self.channels[self.current].clone(),
            counters: self.channel_counts,
            fetch_error,
        };
        self.summaries.push(summary);
        self.channel_counts = Counters::zero();
        self.plan = Vec::new();
        self.next_emote = 0;
        self.current = self.current + 1;
        self.phase = if self.current == n {
            Phase::AwaitPersist
        } else {
            Phase::AwaitCatalog
        };
    }

    /// Moves past the emote just handled, whose outcome is already recorded.
    fn move_on(&mut self)
        requires
            old(self).wf_records(),
            old(self).current < old(self).channels@.len(),
            old(self).next_emote < old(self).plan@.len(),
            old(self).totals.balanced(old(self).pending() - 1),
            old(self).channel_counts.balanced(old(self).pending() - 1),
        ensures
            final(self).wf(),
            final(self).moved_on(old(self), old(self).channel_counts),
            final(self).mapping == old(self).mapping,
            final(self).totals == old(self).totals,
            final(self).history == old(self).history,
            final(self).failures == old(self).failures,
    {
        let n = self.plan.len();
        self.next_emote = self.next_emote + 1;
        if self.next_emote == n {
            self.close_channel(None);
        } else {
            self.phase = Phase::AwaitExisting;
        }
    }

    /// Takes in the catalog of the current channel: its emotes, in catalog
    /// order, become the channel's plan. A channel whose catalog could not be
    /// had, or whose emote set is absent or empty, is closed with nothing done.
    pub fn on_catalog(&mut self, outcome: Result<Option<Vec<CatalogEntry>>, FetchError>)
        requires
            old(self).wf(),
            old(self).phase == Phase::AwaitCatalog,
            outcome matches Ok(Some(v)) ==> old(self).totals.processed + v@.len() <= u64::MAX,
        ensures
            final(self).wf(),
            final(self).same_run(old(self)),
            final(self).mapping == old(self).mapping,
            final(self).history == old(self).history,
            final(self).failures == old(self).failures,
            final(self).totals == (Counters {
                processed: (old(self).totals.processed + entries_of(outcome).len()) as u64,
                ..old(self).totals
            }),
            entries_of(outcome).len() > 0 ==> {
                &&& final(self).phase == Phase::AwaitExisting
                &&& final(self).current == old(self).current
                &&& final(self).next_emote == 0
                &&& final(self).summaries == old(self).summaries
                &&& final(self).plan_views() == entries_of(outcome).map_values(
                    |e: CatalogEntry| plan_of(old(self).channels@[old(self).current as int]@, e),
                )
            },
            entries_of(outcome).len() > 0 ==> final(self).closed_histories
                == old(self).closed_histories && final(self).channel_history
                == old(self).channel_history,
            entries_of(outcome).len() == 0 ==> final(self).closed_histories@ == old(
                self,
            ).closed_histories@.push(Seq::empty()),
            entries_of(outcome).len() == 0 ==> final(self).closed_channel(
                old(self),
                Counters { processed: 0, downloaded: 0, skipped: 0, failed: 0 },
                error_of(outcome),
            ),
    {
        let ghost entries = entries_of(outcome);
        let ghost err = error_of(outcome);
        assert(self.channel_history@ =~= Seq::<(PlanView, Outcome)>::empty());
        match outcome {
            Err(e) => {
                self.close_channel(Some(e));
            },
            Ok(None) => {
                self.close_channel(None);
            },
            Ok(Some(list)) => {
                if list.len() == 0 {
                    self.close_channel(None);
                } else {
                    let channel = self.channels[self.current].clone();
                    let ghost ch = channel@;
                    let mut plan: Vec<PlannedEmote> = Vec::new();
                    let mut i: usize = 0;
                    while i < list.len()
                        invariant
                            i <= list@.len(),
                            ch == channel@,
                            plan@.map_values(|p: PlannedEmote| p@) =~= list@.subrange(
                                0,
                                i as int,
                            ).map_values(|e: CatalogEntry| plan_of(ch, e)),
                        decreases list.len() - i,
                    {
                        let e = &list[i];
                        let asset = resolve(e);
                        let token = mapping_token(e.name.as_str());
                        let path = relative_path(channel.as_str(), asset.file_name.as_str());
                        let planned = PlannedEmote {
                            name: e.name.clone(),
                            token,
                            relative_path: path,
                            download_url: asset.download_url,
                        };
                        assert(planned@ == plan_of(ch, list@[i as int]));
                        let ghost before = plan@;
                        plan.push(planned);
                        assert(plan@.map_values(|p: PlannedEmote| p@) =~= before.map_values(
                            |p: PlannedEmote| p@,
                        ).push(planned@));
                        assert(list@.subrange(0, i as int + 1) =~= list@.subrange(0, i as int).push(
                            list@[i as int],
                        ));
                        i = i + 1;
                    }
                    assert(list@.subrange(0, list@.len() as int) =~= list@);
                    let n = list.len() as u64;
                    self.totals.processed = self.totals.processed + n;
                    self.channel_counts = Counters { processed: n, downloaded: 0, skipped: 0, failed: 0 };
                    self.plan = plan;
                    self.next_emote = 0;
                    self.phase = Phase::AwaitExisting;
                }
            },
        }
    }

    /// Takes in whether the current emote's file is already on disk. A file
    /// that exists is a skip, and its token is mapped to it where the token was
    /// not mapped yet; otherwise the emote is downloaded next.
    pub fn on_existing(&mut self, exists: bool)
        requires
            old(self).wf(),
            old(self).phase == Phase::AwaitExisting,
        ensures
            final(self).wf(),
            !exists ==> *final(self) == (SyncEngine {
                phase: Phase::AwaitDownload,
                ..*old(self)
            }),
            exists ==> {
                &&& final(self).history@ == old(self).history@.push(
                    (old(self).current_emote(), Outcome::Existing),
                )
                &&& final(self).mapping@ == apply_one(
                    old(self).mapping@,
                    old(self).current_emote(),
                    Outcome::Existing,
                )
                &&& final(self).totals == (Counters {
                    skipped: (old(self).totals.skipped + 1) as u64,
                    ..old(self).totals
                })
                &&& final(self).failures == old(self).failures
                &&& final(self).moved_on(
                    old(self),
                    Counters {
                        skipped: (old(self).channel_counts.skipped + 1) as u64,
                        ..old(self).channel_counts
                    },
                )
            },
    {
        if !exists {
            self.phase = Phase::AwaitDownload;
            return;
        }
        let ghost cur = self.current_emote();
        let ghost h = self.history@;
        let token = self.plan[self.next_emote].token.clone();
        let path = self.plan[self.next_emote].relative_path.clone();
        if !self.mapping.contains(&token) {
            self.mapping.insert(token, path);
        }
        self.totals.skipped = self.totals.skipped + 1;
        self.channel_counts.skipped = self.channel_counts.skipped + 1;
        proof {
            lemma_history_push(self.initial@, h, (cur, Outcome::Existing));
        }
        let ghost ch = self.channel_history@;
        assert(h.push((cur, Outcome::Existing)) =~= concat_all(self.closed_histories@) + ch.push(
            (cur, Outcome::Existing),
        ));
        self.history = Ghost(h.push((cur, Outcome::Existing)));
        self.channel_history = Ghost(ch.push((cur, Outcome::Existing)));
        self.move_on();
    }

    /// Takes in what came of downloading the current emote: a saved emote is
    /// mapped to its path and counted as downloaded; a failed one is counted
    /// and recorded, and the run goes on.
    pub fn on_download(&mut self, outcome: Result<(), EmoteFailure>)
        requires
            old(self).wf(),
            old(self).phase == Phase::AwaitDownload,
        ensures
            final(self).wf(),
            outcome is Ok ==> {
                &&& final(self).history@ == old(self).history@.push(
                    (old(self).current_emote(), Outcome::Saved),
                )
                &&& final(self).mapping@ == old(self).mapping@.insert(
                    old(self).current_emote().token,
                    old(self).current_emote().relative_path,
                )
                &&& final(self).totals == (Counters {
                    downloaded: (old(self).totals.downloaded + 1) as u64,
                    ..old(self).totals
                })
                &&& final(self).failures == old(self).failures
                &&& final(self).moved_on(
                    old(self),
                    Counters {
                        downloaded: (old(self).channel_counts.downloaded + 1) as u64,
                        ..old(self).channel_counts
                    },
                )
            },
            outcome matches Err(reason) ==> {
                &&& final(self).history@ == old(self).history@.push(
                    (old(self).current_emote(), Outcome::Failed),
                )
                &&& final(self).mapping == old(self).mapping
                &&& final(self).totals == (Counters {
                    failed: (old(self).totals.failed + 1) as u64,
                    ..old(self).totals
                })
                &&& final(self).failures@ == old(self).failures@.push(
                    FailureRecord {
                        channel_id: old(self).channels@[old(self).current as int],
                        emote_name: old(self).plan@[old(self).next_emote as int].name,
                        reason,
                    },
                )
                &&& final(self).moved_on(
                    old(self),
                    Counters {
                        failed: (old(self).channel_counts.failed + 1) as u64,
                        ..old(self).channel_counts
                    },
                )
            },
    {
        let ghost cur = self.current_emote();
        let ghost h = self.history@;
        match outcome {
            Ok(()) => {
                let token = self.plan[self.next_emote].token.clone();
                let path = self.plan[self.next_emote].relative_path.clone();
                self.mapping.insert(token, path);
                self.totals.downloaded = self.totals.downloaded + 1;
                self.channel_counts.downloaded = self.channel_counts.downloaded + 1;
                proof {
                    lemma_history_push(self.initial@, h, (cur, Outcome::Saved));
                }
                let ghost ch = self.channel_history@;
                assert(h.push((cur, Outcome::Saved)) =~= concat_all(self.closed_histories@)
                    + ch.push((cur, Outcome::Saved)));
                self.history = Ghost(h.push((cur, Outcome::Saved)));
                self.channel_history = Ghost(ch.push((cur, Outcome::Saved)));
            },
            Err(reason) => {
                let record = FailureRecord {
                    channel_id: self.channels[self.current].clone(),
                    emote_name: self.plan[self.next_emote].name.clone(),
                    reason,
                };
                self.failures.push(record);
                self.totals.failed = self.totals.failed + 1;
                self.channel_counts.failed = self.channel_counts.failed + 1;
                proof {
                    lemma_history_push(self.initial@, h, (cur, Outcome::Failed));
                }
                let ghost ch = self.channel_history@;
                assert(h.push((cur, Outcome::Failed)) =~= concat_all(self.closed_histories@)
                    + ch.push((cur, Outcome::Failed)));
                self.history = Ghost(h.push((cur, Outcome::Failed)));
                self.channel_history = Ghost(ch.push((cur, Outcome::Failed)));
            },
        }
        self.move_on();
    }

    /// Ends the run once every channel is closed, with what came of writing
    /// the mapping. The report is returned either way; a mapping that could not
    /// be written is the run's one error.
    pub fn finish(self, persisted: Result<(), String>) -> (r: (SyncReport, Result<(), SyncError>))
        requires
            self.wf(),
            self.phase == Phase::AwaitPersist,
        ensures
            r.0.totals == self.totals,
            r.0.channels == self.summaries,
            self.failures@.len() <= FAILURE_REPORT_LIMIT ==> r.0.failures == self.failures
                && r.0.omitted_failures == 0,
            self.failures@.len() > FAILURE_REPORT_LIMIT ==> r.0.failures@
                == self.failures@.subrange(0, FAILURE_REPORT_LIMIT as int)
                && r.0.omitted_failures == self.failures@.len() - FAILURE_REPORT_LIMIT,
            persisted is Ok ==> r.1 is Ok,
            persisted matches Err(reason) ==> r.1 == Err::<(), SyncError>(
                SyncError::MappingPersist(reason),
            ),
    {
        let mut failures = self.failures;
        let total = failures.len();
        let mut omitted: usize = 0;
        if total > FAILURE_REPORT_LIMIT {
            failures.truncate(FAILURE_REPORT_LIMIT);
            omitted = total - FAILURE_REPORT_LIMIT;
        }
        let report = SyncReport {
            totals: self.totals,
            channels: self.summaries,
            failures,
            omitted_failures: omitted,
        };
        let status = match persisted {
            Ok(()) => Ok(()),
            Err(reason) => Err(SyncError::MappingPersist(reason)),
        };
        (report, status)
    }

    /// Stops the run at the host's request: no further catalog is fetched and no
    /// further emote handled, and the mapping as it stands is written next. The
    /// emotes of the current channel that were not handled are no longer
    /// counted as processed; the channel is closed with what was done.
    pub fn cancel(&mut self)
        requires
            old(self).wf(),
        ensures
            final(self).wf(),
            final(self).same_run(old(self)),
            final(self).mapping == old(self).mapping,
            final(self).history == old(self).history,
            final(self).failures == old(self).failures,
            final(self).totals == (Counters {
                processed: (old(self).totals.processed - old(self).pending()) as u64,
                ..old(self).totals
            }),
            final(self).phase == Phase::AwaitPersist,
            final(self).current == old(self).channels@.len(),
            (old(self).phase == Phase::AwaitExisting || old(self).phase == Phase::AwaitDownload)
                ==> final(self).summaries@ == old(self).summaries@.push(
                ChannelSummary {
                    channel_id: old(self).channels@[old(self).current as int],
                    counters: Counters {
                        processed: (old(self).channel_counts.processed
                            - old(self).pending()) as u64,
                        ..old(self).channel_counts
                    },
                    fetch_error: None,
                },
            ),
            !(old(self).phase == Phase::AwaitExisting || old(self).phase == Phase::AwaitDownload)
                ==> final(self).summaries == old(self).summaries,
    {
        match self.phase {
            Phase::AwaitExisting | Phase::AwaitDownload => {
                let pending = (self.plan.len() - self.next_emote) as u64;
                self.totals.processed = self.totals.processed - pending;
                self.channel_counts.processed = self.channel_counts.processed - pending;
                self.next_emote = self.plan.len();
                self.close_channel(None);
            },
            _ => {},
        }
        self.current = self.channels.len();
        self.phase = Phase::AwaitPersist;
        self.channel_counts = Counters::zero();
    }

    /// The text to write to the mapping file.
    pub fn mapping_text(&self) -> (r: String)
        requires
            self.wf(),
        ensures
            r@ == mapping_json(self.mapping@),
    {
        self.mapping.to_json()
    }
}

} // verus!
