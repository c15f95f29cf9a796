//! Multi-entry trigger text-overlay model.
//!
//! Display-text actions accumulate here with deterministic ordering
//! (newest first), bounded capacity, per-entry expiry, and per-client
//! scope. The renderer decides how many entries it can show; the model is
//! the single source of truth for what is visible where.

use vstd::prelude::*;
use vstd::relations::{sorted_by, strongly_connected, transitive};
use crate::scope::{PresentationTarget, shown_on, source_view, visible_on};
use crate::sorting::{lemma_insert_sorted_at, lemma_stable_sort, stable_sort, total_preorder};

verus! {

/// Default visibility window in milliseconds.
pub const DEFAULT_VISIBLE_MS: u64 = 10_000;

/// Bounded history so a trigger storm cannot grow without limit.
pub const MAX_ENTRIES: usize = 50;

/// What a fired trigger asks the presentation services to do.
pub enum TriggerAction {
    PlaySound { sound: String, volume: u8 },
    Speak { text: String, rate: Option<i32>, volume: u8 },
    DisplayText { text: String, font_color: Option<String> },
}

/// One trigger action fired by a character's log.
pub struct ActionEvent {
    /// Log-source key of the character whose log fired the trigger.
    pub character: String,
    pub trigger_name: String,
    pub target: PresentationTarget,
    pub priority: u8,
    pub action: TriggerAction,
}

/// A displayed trigger text. Instants are milliseconds on the owner's clock.
#[derive(Debug)]
pub struct TriggerTextEntry {
    pub source_id: String,
    pub text: String,
    pub font_color: Option<String>,
    pub target: PresentationTarget,
    pub added: u64,
    pub expires: u64,
}

/// The mathematical value of a [`TriggerTextEntry`].
pub struct TextEntryView {
    pub source_id: Seq<char>,
    pub text: Seq<char>,
    pub font_color: Option<Seq<char>>,
    pub target: PresentationTarget,
    pub added: u64,
    pub expires: u64,
}

pub open spec fn opt_string_view(s: Option<String>) -> Option<Seq<char>> {
    match s {
        Some(s) => Some(s@),
        None => None,
    }
}

impl View for TriggerTextEntry {
    type V = TextEntryView;

    open spec fn view(&self) -> TextEntryView {
        TextEntryView {
            source_id: self.source_id@,
            text: self.text@,
            font_color: opt_string_view(self.font_color),
            target: self.target,
            added: self.added,
            expires: self.expires,
        }
    }
}

pub fn clone_opt_string(s: &Option<String>) -> (r: Option<String>)
    ensures
        r == *s,
{
    match s {
        Some(s) => Some(s.clone()),
        None => None,
    }
}

impl Clone for TriggerTextEntry {
    fn clone(&self) -> (r: Self)
        ensures
            r == *self,
    {
        TriggerTextEntry {
            source_id: self.source_id.clone(),
            text: self.text.clone(),
            font_color: clone_opt_string(&self.font_color),
            target: self.target,
            added: self.added,
            expires: self.expires,
        }
    }
}

pub open spec fn is_display(e: ActionEvent) -> bool {
    e.action is DisplayText
}

/// The entry a display-text event becomes at `now`.
pub open spec fn entry_of(e: ActionEvent, now: u64) -> TextEntryView {
    match e.action {
        TriggerAction::DisplayText { text, font_color } => TextEntryView {
            source_id: e.character@,
            text: text@,
            font_color: opt_string_view(font_color),
            target: e.target,
            added: now,
            expires: (now + DEFAULT_VISIBLE_MS) as u64,
        },
        _ => arbitrary(),
    }
}

/// The entries a batch of events adds, in event order.
pub open spec fn batch_entries(events: Seq<ActionEvent>, now: u64) -> Seq<TextEntryView> {
    events.filter(|e: ActionEvent| is_display(e)).map_values(|e: ActionEvent| entry_of(e, now))
}

/// Newest first.
pub open spec fn newer_first() -> spec_fn(TextEntryView, TextEntryView) -> bool {
    |a: TextEntryView, b: TextEntryView| a.added >= b.added
}

pub open spec fn entry_visible(e: TextEntryView, source: Option<Seq<char>>, is_active: bool, now: u64) -> bool {
    now < e.expires && shown_on(e.target, e.source_id, source, is_active)
}

pub proof fn lemma_newer_first_total()
    ensures
        total_preorder(newer_first()),
{
    let le = newer_first();
    assert(transitive(le));
    assert(strongly_connected(le));
}

pub open spec fn entry_views(v: Seq<TriggerTextEntry>) -> Seq<TextEntryView> {
    v.map_values(|t: TriggerTextEntry| t@)
}

/// The scoped, bounded history of displayed trigger texts.
#[derive(Debug, Default)]
pub struct TriggerTextState {
    entries: Vec<TriggerTextEntry>,
}

impl TriggerTextState {
    #[verifier::type_invariant]
    spec fn bounded(self) -> bool {
        self.entries@.len() <= MAX_ENTRIES
    }
}

impl View for TriggerTextState {
    type V = Seq<TextEntryView>;

    closed spec fn view(&self) -> Seq<TextEntryView> {
        entry_views(self.entries@)
    }
}

/// The history after a batch: unchanged when the batch displays nothing,
/// else the old and new entries ordered newest first (stable), truncated to
/// the capacity.
pub open spec fn after_batch(old: Seq<TextEntryView>, events: Seq<ActionEvent>, now: u64) -> Seq<TextEntryView> {
    let added = batch_entries(events, now);
    if added.len() == 0 {
        old
    } else {
        let all = stable_sort(old + added, newer_first());
        if all.len() > MAX_ENTRIES { all.take(MAX_ENTRIES as int) } else { all }
    }
}

impl TriggerTextState {
    pub fn new() -> (s: TriggerTextState)
        ensures
            s@ == Seq::<TextEntryView>::empty(),
    {
        let s = TriggerTextState { entries: Vec::new() };
        assert(s@ =~= Seq::<TextEntryView>::empty());
        s
    }

    /// Record every display-text action from a batch of trigger events.
    /// Returns the number of entries added.
    pub fn apply_events(&mut self, events: &[ActionEvent], now: u64) -> (added: usize)
        requires
            now + DEFAULT_VISIBLE_MS <= u64::MAX,
        ensures
            added == batch_entries(events@, now).len(),
            final(self)@ == after_batch(old(self)@, events@, now),
    {
        proof {
            use_type_invariant(&*self);
        }
        let ghost disp = |e: ActionEvent| is_display(e);
        let ghost mk = |e: ActionEvent| entry_of(e, now);
        let mut added: usize = 0;
        let mut fresh: Vec<TriggerTextEntry> = Vec::new();
        let n = events.len();
        let mut i: usize = 0;
        proof {
            assert(events@.take(0).filter(disp) =~= Seq::<ActionEvent>::empty()) by {
                reveal_with_fuel(Seq::filter, 1);
            }
            assert(entry_views(fresh@) =~= Seq::<TextEntryView>::empty());
        }
        while i < n
            invariant
                n == events@.len(),
                i <= n,
                now + DEFAULT_VISIBLE_MS <= u64::MAX,
                disp == (|e: ActionEvent| is_display(e)),
                mk == (|e: ActionEvent| entry_of(e, now)),
                entry_views(fresh@) == events@.take(i as int).filter(disp).map_values(mk),
                added == fresh@.len(),
                added <= i,
            decreases n - i,
        {
            proof {
                assert(events@.take(i + 1).drop_last() =~= events@.take(i as int));
                assert(events@.take(i + 1).last() == events@[i as int]);
                reveal_with_fuel(Seq::filter, 1);
            }
            let event = &events[i];
            match &event.action {
                TriggerAction::DisplayText { text, font_color } => {
                    let entry = TriggerTextEntry {
                        source_id: event.character.clone(),
                        text: text.clone(),
                        font_color: clone_opt_string(font_color),
                        target: event.target,
                        added: now,
                        expires: now + DEFAULT_VISIBLE_MS,
                    };
                    fresh.push(entry);
                    added = added + 1;
                    assert(entry_views(fresh@) =~= events@.take(i as int).filter(disp).map_values(
                        mk,
                    ).push(mk(events@[i as int])));
                },
                _ => {},
            }
            i = i + 1;
        }
        proof {
            assert(events@.take(n as int) =~= events@);
        }
        if added == 0 {
            return added;
        }
        let ghost le = newer_first();
        let ghost all = entry_views(self.entries@) + entry_views(fresh@);
        let mut pending: Vec<TriggerTextEntry> = Vec::new();
        let old_len = self.entries.len();
        let mut p: usize = 0;
        while p < old_len
            invariant
                old_len == self.entries@.len(),
                p <= old_len,
                entry_views(pending@) == entry_views(self.entries@).take(p as int),
            decreases old_len - p,
        {
            let e = self.entries[p].clone();
            let ghost prev = pending@;
            pending.push(e);
            assert(pending@ == prev.push(self.entries@[p as int]));
            assert(entry_views(prev.push(self.entries@[p as int])) =~= entry_views(prev).push(
                self.entries@[p as int]@,
            ));
            assert(entry_views(self.entries@).take(p + 1) =~= entry_views(self.entries@).take(
                p as int,
            ).push(self.entries@[p as int]@));
            p = p + 1;
        }
        let fresh_len = fresh.len();
        let mut q: usize = 0;
        assert(entry_views(self.entries@).take(old_len as int) =~= entry_views(self.entries@));
        while q < fresh_len
            invariant
                fresh_len == fresh@.len(),
                q <= fresh_len,
                entry_views(pending@) == entry_views(self.entries@) + entry_views(fresh@).take(
                    q as int,
                ),
            decreases fresh_len - q,
        {
            let e = fresh[q].clone();
            let ghost prev = pending@;
            pending.push(e);
            assert(pending@ == prev.push(fresh@[q as int]));
            assert(entry_views(prev.push(fresh@[q as int])) =~= entry_views(prev).push(
                fresh@[q as int]@,
            ));
            assert(entry_views(self.entries@) + entry_views(fresh@).take(q + 1) =~= (entry_views(
                self.entries@,
            ) + entry_views(fresh@).take(q as int)).push(fresh@[q as int]@));
            q = q + 1;
        }
        assert(entry_views(fresh@).take(fresh_len as int) =~= entry_views(fresh@));
        assert(entry_views(pending@) == all);
        let mut sorted: Vec<TriggerTextEntry> = Vec::new();
        let total = pending.len();
        let mut k: usize = 0;
        proof {
            assert(all.take(0) =~= Seq::<TextEntryView>::empty());
            assert(entry_views(sorted@) =~= Seq::<TextEntryView>::empty());
        }
        while k < total
            invariant
                total == pending@.len(),
                all == entry_views(pending@),
                le == newer_first(),
                k <= total,
                entry_views(sorted@) == stable_sort(all.take(k as int), le),
            decreases total - k,
        {
            let e = pending[k].clone();
            assert(e@ == all[k as int]);
            let ghost before = entry_views(sorted@);
            let mut j = sorted.len();
            while j > 0 && sorted[j - 1].added < e.added
                invariant
                    j <= sorted@.len(),
                    before == entry_views(sorted@),
                    le == newer_first(),
                    forall|q: int| j <= q < before.len() ==> !le(#[trigger] before[q], e@),
                decreases j,
            {
                j = j - 1;
            }
            proof {
                lemma_insert_sorted_at(before, e@, le, j as int);
            }
            sorted.insert(j, e);
            proof {
                assert(entry_views(sorted@) =~= before.insert(j as int, all[k as int]));
                assert(all.take(k + 1).drop_last() =~= all.take(k as int));
                assert(all.take(k + 1).last() == all[k as int]);
            }
            k = k + 1;
        }
        proof {
            assert(all.take(total as int) =~= all);
            lemma_newer_first_total();
            lemma_stable_sort(all, le);
        }
        sorted.truncate(MAX_ENTRIES);
        proof {
            let full = stable_sort(all, le);
            if full.len() > MAX_ENTRIES {
                assert(entry_views(sorted@) =~= full.take(MAX_ENTRIES as int));
            } else {
                assert(entry_views(sorted@) =~= full);
            }
        }
        self.entries = sorted;
        added
    }

    /// Drop every entry whose visibility window has ended by `now`.
    pub fn remove_expired(&mut self, now: u64) -> (changed: bool)
        ensures
            final(self)@ == old(self)@.filter(|e: TextEntryView| now < e.expires),
            changed == (final(self)@.len() != old(self)@.len()),
    {
        proof {
            use_type_invariant(&*self);
        }
        let ghost keep = |e: TextEntryView| now < e.expires;
        let n = self.entries.len();
        let mut kept: Vec<TriggerTextEntry> = Vec::new();
        let mut i: usize = 0;
        proof {
            assert(entry_views(self.entries@).take(0).filter(keep) =~= Seq::<TextEntryView>::empty())
                by {
                reveal_with_fuel(Seq::filter, 1);
            }
            assert(entry_views(kept@) =~= Seq::<TextEntryView>::empty());
        }
        while i < n
            invariant
                n == self.entries@.len(),
                i <= n,
                keep == (|e: TextEntryView| now < e.expires),
                entry_views(kept@) == entry_views(self.entries@).take(i as int).filter(keep),
                kept@.len() <= i,
                n <= MAX_ENTRIES,
            decreases n - i,
        {
            let ghost all = entry_views(self.entries@);
            proof {
                assert(all.take(i + 1).drop_last() =~= all.take(i as int));
                assert(all.take(i + 1).last() == all[i as int]);
                reveal_with_fuel(Seq::filter, 1);
            }
            if now < self.entries[i].expires {
                let e = self.entries[i].clone();
                kept.push(e);
                assert(entry_views(kept@) =~= all.take(i as int).filter(keep).push(all[i as int]));
            }
            i = i + 1;
        }
        proof {
            assert(entry_views(self.entries@).take(n as int) =~= entry_views(self.entries@));
        }
        let changed = kept.len() != n;
        self.entries = kept;
        changed
    }

    /// Entries visible on a label, newest first.
    pub fn visible_for(&self, source_id: Option<&str>, is_active: bool, now: u64) -> (r: Vec<
        &TriggerTextEntry,
    >)
        ensures
            r@.map_values(|e: &TriggerTextEntry| e@) == self@.filter(
                |e: TextEntryView| entry_visible(e, source_view(source_id), is_active, now),
            ),
    {
        let ghost pred = |e: TextEntryView| entry_visible(e, source_view(source_id), is_active, now);
        let ghost all = entry_views(self.entries@);
        let n = self.entries.len();
        let mut out: Vec<&TriggerTextEntry> = Vec::new();
        let mut i: usize = 0;
        proof {
            assert(all.take(0).filter(pred) =~= Seq::<TextEntryView>::empty()) by {
                reveal_with_fuel(Seq::filter, 1);
            }
            assert(out@.map_values(|e: &TriggerTextEntry| e@) =~= Seq::<TextEntryView>::empty());
        }
        while i < n
            invariant
                n == self.entries@.len(),
                all == entry_views(self.entries@),
                i <= n,
                pred == (|e: TextEntryView| entry_visible(e, source_view(source_id), is_active, now)),
                out@.map_values(|e: &TriggerTextEntry| e@) == all.take(i as int).filter(pred),
            decreases n - i,
        {
            proof {
                assert(all.take(i + 1).drop_last() =~= all.take(i as int));
                assert(all.take(i + 1).last() == all[i as int]);
                reveal_with_fuel(Seq::filter, 1);
            }
            let e = &self.entries[i];
            if now < e.expires && visible_on(e.target, &e.source_id, source_id, is_active) {
                out.push(e);
                assert(out@.map_values(|e: &TriggerTextEntry| e@) =~= all.take(i as int).filter(
                    pred,
                ).push(all[i as int]));
            }
            i = i + 1;
        }
        proof {
            assert(all.take(n as int) =~= all);
        }
        out
    }

    pub fn is_empty(&self) -> (b: bool)
        ensures
            b == (self@.len() == 0),
    {
        self.entries.len() == 0
    }
}

/// The history never exceeds its capacity and is always newest first: a
/// batch that displays anything leaves at most `MAX_ENTRIES` entries ordered
/// by descending insertion time, holding each entry of the old history and
/// the batch at most once.
pub proof fn law_history_bounded_newest_first(old: Seq<TextEntryView>, events: Seq<ActionEvent>, now: u64)
    requires
        batch_entries(events, now).len() > 0,
    ensures
        after_batch(old, events, now).len() <= MAX_ENTRIES,
        sorted_by(after_batch(old, events, now), newer_first()),
        forall|e: TextEntryView|
            after_batch(old, events, now).to_multiset().count(e) <= (old + batch_entries(
                events,
                now,
            )).to_multiset().count(e),
{
    let all = old + batch_entries(events, now);
    let le = newer_first();
    lemma_newer_first_total();
    lemma_stable_sort(all, le);
    let full = stable_sort(all, le);
    if full.len() > MAX_ENTRIES {
        let t = full.take(MAX_ENTRIES as int);
        assert forall|i: int, j: int| 0 <= i < j < t.len() implies #[trigger] le(t[i], t[j]) by {
            assert(le(full[i], full[j]));
        }
        assert forall|e: TextEntryView| t.to_multiset().count(e) <= all.to_multiset().count(e) by {
            vstd::seq_lib::lemma_multiset_commutative(t, full.skip(MAX_ENTRIES as int));
            assert(t + full.skip(MAX_ENTRIES as int) =~= full);
        }
    }
}


/// The text of the last display action among the events, if any.
pub open spec fn last_display_text(events: Seq<ActionEvent>) -> Option<Seq<char>>
    decreases events.len(),
{
    if events.len() == 0 {
        None
    } else {
        match events.last().action {
            TriggerAction::DisplayText { text, .. } => Some(text@),
            _ => last_display_text(events.drop_last()),
        }
    }
}

/// The banner text for a batch of trigger events: the newest display text
/// (sounds and speech go to the audio service instead).
pub fn latest_display_text(events: &[ActionEvent]) -> (r: Option<String>)
    ensures
        match r {
            Some(t) => last_display_text(events@) == Some(t@),
            None => last_display_text(events@) is None,
        },
{
    let mut latest: Option<String> = None;
    let mut i: usize = 0;
    while i < events.len()
        invariant
            0 <= i <= events@.len(),
            match latest {
                Some(t) => last_display_text(events@.take(i as int)) == Some(t@),
                None => last_display_text(events@.take(i as int)) is None,
            },
        decreases events@.len() - i,
    {
        proof {
            assert(events@.take(i + 1).drop_last() =~= events@.take(i as int));
            assert(events@.take(i + 1).last() == events@[i as int]);
        }
        match &events[i].action {
            TriggerAction::DisplayText { text, .. } => {
                latest = Some(text.clone());
            },
            _ => {},
        }
        i = i + 1;
    }
    proof {
        assert(events@.take(events@.len() as int) =~= events@);
    }
    latest
}

} // verus!
