//! Properties of whole runs, stated over the history of emote outcomes that a
//! `SyncEngine` keeps and that its mapping and counters follow.
use vstd::prelude::*;
use crate::mapping::mapping_json;
use crate::sync::{
    apply_history, apply_one, concat_all, count_of, lemma_history_push, Outcome, PlanView,
};

verus! {

/// No emote outcome takes a token out of the mapping.
pub proof fn lemma_history_keeps_tokens(m: Map<Seq<char>, Seq<char>>, h: Seq<(PlanView, Outcome)>)
    ensures
        forall|k: Seq<char>| m.contains_key(k) ==> #[trigger] apply_history(m, h).contains_key(k),
    decreases h.len(),
{
    if h.len() > 0 {
        lemma_history_keeps_tokens(m, h.drop_last());
        assert forall|k: Seq<char>| m.contains_key(k) implies #[trigger] apply_history(
            m,
            h,
        ).contains_key(k) by {
            assert(apply_history(m, h.drop_last()).contains_key(k));
        }
    }
}

/// After a run, every emote that was saved or found on disk has its token
/// mapped: later emotes only add or replace entries, never remove one.
pub proof fn lemma_mapped_after_run(m: Map<Seq<char>, Seq<char>>, h: Seq<(PlanView, Outcome)>)
    ensures
        forall|i: int|
            0 <= i < h.len() && h[i].1 != Outcome::Failed ==> #[trigger] apply_history(
                m,
                h,
            ).contains_key(h[i].0.token),
    decreases h.len(),
{
    if h.len() > 0 {
        let prefix = h.drop_last();
        lemma_mapped_after_run(m, prefix);
        assert forall|i: int|
            0 <= i < h.len() && h[i].1 != Outcome::Failed implies #[trigger] apply_history(
                m,
                h,
            ).contains_key(h[i].0.token) by {
            if i < h.len() - 1 {
                assert(prefix[i] == h[i]);
                assert(apply_history(m, prefix).contains_key(prefix[i].0.token));
            }
        }
    }
}

/// A saved emote maps its token to exactly its own path at once.
pub proof fn lemma_saved_maps_path(m: Map<Seq<char>, Seq<char>>, p: PlanView)
    ensures
        apply_one(m, p, Outcome::Saved)[p.token] == p.relative_path,
        apply_one(m, p, Outcome::Existing).contains_key(p.token),
{
}

/// A run whose emotes each either failed, or were found on disk with their
/// token already mapped, downloads nothing and changes nothing.
pub proof fn lemma_confirm_mapped(m: Map<Seq<char>, Seq<char>>, h: Seq<(PlanView, Outcome)>)
    requires
        forall|i: int|
            0 <= i < h.len() ==> #[trigger] h[i].1 == Outcome::Failed || (h[i].1
                == Outcome::Existing && m.contains_key(h[i].0.token)),
    ensures
        apply_history(m, h) == m,
        count_of(h, Outcome::Saved) == 0,
    decreases h.len(),
{
    if h.len() > 0 {
        let prefix = h.drop_last();
        assert forall|i: int| 0 <= i < prefix.len() implies #[trigger] prefix[i].1
            == Outcome::Failed || (prefix[i].1 == Outcome::Existing && m.contains_key(
            prefix[i].0.token,
        )) by {
            assert(prefix[i] == h[i]);
        }
        lemma_confirm_mapped(m, prefix);
        assert(h[h.len() - 1].1 == Outcome::Failed || m.contains_key(h.last().0.token));
    }
}

/// Whether a second run with history `h2` repeats a first run with history
/// `h1`: each of its emotes either failed again, or is one that ended saved or
/// found on disk in the first run and was now found on disk.
pub open spec fn repeats_run(h1: Seq<(PlanView, Outcome)>, h2: Seq<(PlanView, Outcome)>) -> bool {
    forall|i: int|
        #![trigger h2[i]]
        0 <= i < h2.len() ==> h2[i].1 == Outcome::Failed || (h2[i].1 == Outcome::Existing
            && exists|j: int|
            #![trigger h1[j]]
            0 <= j < h1.len() && h1[j].1 != Outcome::Failed && h1[j].0 == h2[i].0)
}

/// A repeated run is idempotent. When a second run repeats a first one, it
/// downloads nothing and leaves the mapping, and so the text written to the
/// mapping file, as the first run left it.
pub proof fn lemma_resync_idempotent(
    m: Map<Seq<char>, Seq<char>>,
    h1: Seq<(PlanView, Outcome)>,
    h2: Seq<(PlanView, Outcome)>,
)
    requires
        repeats_run(h1, h2),
    ensures
        apply_history(apply_history(m, h1), h2) == apply_history(m, h1),
        mapping_json(apply_history(apply_history(m, h1), h2)) == mapping_json(
            apply_history(m, h1),
        ),
        count_of(h2, Outcome::Saved) == 0,
{
    let m1 = apply_history(m, h1);
    lemma_mapped_after_run(m, h1);
    assert forall|i: int| 0 <= i < h2.len() implies #[trigger] h2[i].1 == Outcome::Failed || (
    h2[i].1 == Outcome::Existing && m1.contains_key(h2[i].0.token)) by {
        if h2[i].1 != Outcome::Failed {
            let j = choose|j: int|
                0 <= j < h1.len() && h1[j].1 != Outcome::Failed && h1[j].0 == h2[i].0;
            assert(h1[j] == h1[j]);
            assert(m1.contains_key(h1[j].0.token));
        }
    }
    lemma_confirm_mapped(m1, h2);
}

/// Every emote of a run is counted once: as downloaded, skipped or failed.
pub proof fn lemma_counts_partition(h: Seq<(PlanView, Outcome)>)
    ensures
        count_of(h, Outcome::Saved) + count_of(h, Outcome::Existing) + count_of(h, Outcome::Failed)
            == h.len(),
    decreases h.len(),
{
    if h.len() > 0 {
        lemma_counts_partition(h.drop_last());
    }
}

/// A failed emote is contained: it leaves the mapping and the download count
/// as they were, it is counted as failed, and the emotes after it are applied
/// just as they would have been without it.
pub proof fn lemma_failure_contained(
    m: Map<Seq<char>, Seq<char>>,
    before: Seq<(PlanView, Outcome)>,
    failed: PlanView,
    after: Seq<(PlanView, Outcome)>,
)
    ensures
        apply_history(m, before.push((failed, Outcome::Failed)) + after) == apply_history(
            apply_history(m, before),
            after,
        ),
        count_of(before.push((failed, Outcome::Failed)) + after, Outcome::Saved) == count_of(
            before,
            Outcome::Saved,
        ) + count_of(after, Outcome::Saved),
        count_of(before.push((failed, Outcome::Failed)) + after, Outcome::Failed) >= 1,
    decreases after.len(),
{
    let x = (failed, Outcome::Failed);
    lemma_history_push(m, before, x);
    if after.len() == 0 {
        assert(before.push(x) + after =~= before.push(x));
        assert(apply_history(apply_history(m, before), after) == apply_history(m, before));
    } else {
        let rest = after.drop_last();
        let y = after.last();
        lemma_failure_contained(m, before, failed, rest);
        assert(before.push(x) + after =~= (before.push(x) + rest).push(y));
        lemma_history_push(m, before.push(x) + rest, y);
        lemma_history_push(apply_history(m, before), rest, y);
        assert(rest.push(y) =~= after);
        assert(count_of(after, Outcome::Saved) == count_of(rest, Outcome::Saved) + if y.1
            == Outcome::Saved {
            1nat
        } else {
            0nat
        });
        assert(count_of(before.push(x) + after, Outcome::Failed) >= count_of(
            before.push(x) + rest,
            Outcome::Failed,
        ));
    }
}

/// The history of consecutive channels is the history of the first ones
/// followed by that of the rest.
pub proof fn lemma_concat_append(
    a: Seq<Seq<(PlanView, Outcome)>>,
    b: Seq<Seq<(PlanView, Outcome)>>,
)
    ensures
        concat_all(a + b) == concat_all(a) + concat_all(b),
    decreases b.len(),
{
    if b.len() == 0 {
        assert(a + b =~= a);
        assert(concat_all(a) + concat_all(b) =~= concat_all(a));
    } else {
        lemma_concat_append(a, b.drop_last());
        assert((a + b).drop_last() =~= a + b.drop_last());
        assert((a + b).last() == b.last());
        assert(concat_all(a) + concat_all(b.drop_last()) + b.last() =~= concat_all(a) + (
        concat_all(b.drop_last()) + b.last()));
    }
}

/// A channel that did no work, because its catalog could not be had or held no
/// emote, is as if it had not been listed: the run's history, and so its
/// mapping and all its counts, equal those of the run over the other channels
/// alone.
pub proof fn lemma_channel_without_work(
    m: Map<Seq<char>, Seq<char>>,
    before: Seq<Seq<(PlanView, Outcome)>>,
    after: Seq<Seq<(PlanView, Outcome)>>,
)
    ensures
        concat_all(before.push(Seq::empty()) + after) == concat_all(before + after),
        apply_history(m, concat_all(before.push(Seq::empty()) + after)) == apply_history(
            m,
            concat_all(before + after),
        ),
        forall|o: Outcome|
            #[trigger] count_of(concat_all(before.push(Seq::empty()) + after), o) == count_of(
                concat_all(before + after),
                o,
            ),
{
    let e = Seq::<(PlanView, Outcome)>::empty();
    lemma_concat_append(before.push(e), after);
    lemma_concat_append(before, after);
    assert(before.push(e).drop_last() =~= before);
    assert(concat_all(before.push(e)) =~= concat_all(before) + e);
    assert(concat_all(before) + e =~= concat_all(before));
}

} // verus!
