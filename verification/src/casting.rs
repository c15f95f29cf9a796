//! Spell casting as seen in the log: how long a cast and its outcome stay on
//! screen, when a cast counts as completed, and the outcomes' captions.

use vstd::prelude::*;
use crate::clients::{opt_view, EqWindow};
use crate::pid_map::PidMap;
use crate::text::{
    eq_ignore_ascii_case, eq_ignore_case, find, find_exec, occurs_at, rfind, rfind_exec, rfind_from, trim_dots,
};

verus! {

pub const TIMER_ID: usize = 47;
pub const TIMER_INTERVAL_MS: u32 = 16;
/// How long an unconfirmed cast stays after its estimated end.
pub const UNCONFIRMED_GRACE_MS: u64 = 750;
/// The fade at the end of that grace.
pub const UNCONFIRMED_FADE_MS: u64 = 220;
pub const COMPLETION_FILL_MS: u64 = 110;
pub const SUCCESS_LINGER_MS: u64 = 420;
pub const FIZZLE_LINGER_MS: u64 = 760;
pub const RESIST_LINGER_MS: u64 = 660;
pub const INTERRUPT_LINGER_MS: u64 = 560;
/// The longest cast that still trains an estimate.
pub const MAX_SAMPLE_MS: u64 = 120_000;
/// Bards' songs are shown with a fixed three-second cycle.
pub const BARD_CAST_MS: u64 = 3000;

#[derive(Clone, Copy, Debug, PartialEq, Eq, Structural)]
pub enum CastingOutcome {
    Completed,
    Fizzled,
    Resisted,
    Interrupted,
}

impl CastingOutcome {
    pub open spec fn spec_linger(self) -> u64 {
        match self {
            CastingOutcome::Completed => SUCCESS_LINGER_MS,
            CastingOutcome::Fizzled => FIZZLE_LINGER_MS,
            CastingOutcome::Resisted => RESIST_LINGER_MS,
            CastingOutcome::Interrupted => INTERRUPT_LINGER_MS,
        }
    }

    /// The caption shown with the outcome.
    pub fn label(self) -> (s: &'static str)
        ensures
            s@ == match self {
                CastingOutcome::Completed => "COMPLETE"@,
                CastingOutcome::Fizzled => "FIZZLE"@,
                CastingOutcome::Resisted => "RESIST"@,
                CastingOutcome::Interrupted => "INTERRUPTED"@,
            },
    {
        match self {
            CastingOutcome::Completed => "COMPLETE",
            CastingOutcome::Fizzled => "FIZZLE",
            CastingOutcome::Resisted => "RESIST",
            CastingOutcome::Interrupted => "INTERRUPTED",
        }
    }

    /// How long the outcome stays on screen.
    pub fn linger_ms(self) -> (ms: u64)
        ensures
            ms == self.spec_linger(),
    {
        match self {
            CastingOutcome::Completed => SUCCESS_LINGER_MS,
            CastingOutcome::Fizzled => FIZZLE_LINGER_MS,
            CastingOutcome::Resisted => RESIST_LINGER_MS,
            CastingOutcome::Interrupted => INTERRUPT_LINGER_MS,
        }
    }

    /// Whether the bar fills to the end: the spell went off (even if the
    /// target resisted it).
    pub fn fills(self) -> (b: bool)
        ensures
            b == (self == CastingOutcome::Completed || self == CastingOutcome::Resisted),
    {
        match self {
            CastingOutcome::Completed | CastingOutcome::Resisted => true,
            _ => false,
        }
    }
}

/// An unconfirmed cast disappears once the grace after its estimate ran out.
pub fn active_cast_visible(elapsed_ms: u64, estimated_ms: u64) -> (b: bool)
    ensures
        b == (elapsed_ms < estimated_ms + UNCONFIRMED_GRACE_MS),
{
    if estimated_ms > u64::MAX - UNCONFIRMED_GRACE_MS {
        true
    } else {
        elapsed_ms < estimated_ms + UNCONFIRMED_GRACE_MS
    }
}

/// When an unconfirmed cast starts to fade: the fade's length before it
/// disappears (saturating).
pub fn active_fade_start_ms(estimated_ms: u64) -> (ms: u64)
    ensures
        ms == (if estimated_ms + UNCONFIRMED_GRACE_MS > u64::MAX {
            u64::MAX - UNCONFIRMED_FADE_MS
        } else {
            estimated_ms + UNCONFIRMED_GRACE_MS - UNCONFIRMED_FADE_MS
        }),
{
    let timeout = if estimated_ms > u64::MAX - UNCONFIRMED_GRACE_MS {
        u64::MAX
    } else {
        estimated_ms + UNCONFIRMED_GRACE_MS
    };
    timeout - UNCONFIRMED_FADE_MS
}

/// An outcome stays for its linger time.
pub fn terminal_visible(elapsed_ms: u64, outcome: CastingOutcome) -> (b: bool)
    ensures
        b == (elapsed_ms < outcome.spec_linger()),
{
    elapsed_ms < outcome.linger_ms()
}

/// An outcome fades out over its last 180 ms (or all of it, if shorter).
pub fn terminal_fade_start_ms(outcome: CastingOutcome) -> (ms: u64)
    ensures
        ms == outcome.spec_linger() - (if outcome.spec_linger() < 180 { outcome.spec_linger() } else { 180 }),
{
    let linger = outcome.linger_ms();
    let fade = if linger < 180 { linger } else { 180 };
    linger - fade
}

/// A cast trains its spell's estimate only when asked to, and only for a
/// positive duration of at most two minutes.
pub fn should_train(train: bool, elapsed_ms: u64) -> (b: bool)
    ensures
        b == (train && elapsed_ms > 0 && elapsed_ms <= MAX_SAMPLE_MS),
{
    train && elapsed_ms > 0 && elapsed_ms <= MAX_SAMPLE_MS
}

/// The class code of bards.
pub open spec fn is_bard(class: Option<Seq<char>>) -> bool {
    class matches Some(c) && eq_ignore_case(c, seq!['B', 'R', 'D'])
}

/// A cast's nominal duration: bards' songs take the fixed bard cycle;
/// instant spells stay instant.
pub fn base_duration_ms(base_cast_ms: u64, effective_class: Option<&str>) -> (ms: u64)
    ensures
        ms == (if is_bard(match effective_class {
            Some(c) => Some(c@),
            None => None,
        }) && base_cast_ms != 0 {
            BARD_CAST_MS
        } else {
            base_cast_ms
        }),
{
    let bard = match effective_class {
        Some(c) => {
            proof {
                reveal_strlit("BRD");
            }
            eq_ignore_ascii_case(c, "BRD")
        },
        None => false,
    };
    if bard && base_cast_ms != 0 {
        BARD_CAST_MS
    } else {
        base_cast_ms
    }
}

/// The spell named by a heal line: after the last " hit points by ", up to
/// the first ". (" and without trailing dots.
pub open spec fn healed_spell(suffix: Seq<char>) -> Seq<char> {
    let head = match find(suffix, ". ("@) {
        Some(k) => suffix.take(k),
        None => suffix,
    };
    trim_dots(head)
}

/// A heal line of the player's own (`You healed ... hit points by <spell>`)
/// names the active spell, ignoring ASCII case.
pub open spec fn owned_heal(body: Seq<char>, active_spell: Seq<char>) -> bool {
    match rfind(body, " hit points by "@) {
        None => false,
        Some(i) => {
            &&& find(body.take(i), "You healed "@) is Some
            &&& eq_ignore_case(healed_spell(body.skip(i + " hit points by "@.len())), active_spell)
        },
    }
}

fn trim_trailing_dots(s: &str) -> (r: &str)
    ensures
        r@ == trim_dots(s@),
{
    let n = s.unicode_len();
    let mut end = n;
    proof {
        assert(s@.take(n as int) =~= s@);
    }
    while end > 0 && s.get_char(end - 1) == '.'
        invariant
            n == s@.len(),
            end <= n,
            trim_dots(s@) == trim_dots(s@.take(end as int)),
        decreases end,
    {
        proof {
            assert(s@.take(end as int).drop_last() =~= s@.take(end - 1));
        }
        end = end - 1;
    }
    proof {
        assert(s@.subrange(0, end as int) =~= s@.take(end as int));
    }
    s.substring_char(0, end)
}

/// Whether a log line reports the player's own heal with the active spell,
/// which completes the cast.
pub fn is_owned_heal(body: &str, active_spell: &str) -> (b: bool)
    ensures
        b == owned_heal(body@, active_spell@),
{
    proof {
        reveal_strlit(" hit points by ");
    }
    let marker = " hit points by ";
    let i = match rfind_exec(body, marker) {
        None => return false,
        Some(i) => i,
    };
    let n = body.unicode_len();
    assert(occurs_at(body@, marker@, i as int)) by {
        lemma_rfind_occurs(body@, marker@, body@.len() - marker@.len());
    }
    let prefix = body.substring_char(0, i);
    assert(prefix@ =~= body@.take(i as int));
    if find_exec(prefix, "You healed ").is_none() {
        return false;
    }
    let suffix = body.substring_char(i + 15, n);
    assert(suffix@ =~= body@.skip(i + " hit points by "@.len()));
    let head = match find_exec(suffix, ". (") {
        Some(k) => {
            proof {
                lemma_find_occurs(suffix@, ". ("@, 0);
            }
            suffix.substring_char(0, k)
        },
        None => suffix,
    };
    proof {
        if let Some(k) = find(suffix@, ". ("@) {
            assert(head@ =~= suffix@.take(k));
        }
    }
    let spell = trim_trailing_dots(head);
    eq_ignore_ascii_case(spell, active_spell)
}

proof fn lemma_rfind_occurs(s: Seq<char>, p: Seq<char>, n: int)
    ensures
        rfind_from(s, p, n) matches Some(i) ==> occurs_at(s, p, i) && i <= n,
    decreases n + 1,
{
    if n >= 0 && !occurs_at(s, p, n) {
        lemma_rfind_occurs(s, p, n - 1);
    }
}

proof fn lemma_find_occurs(s: Seq<char>, p: Seq<char>, n: int)
    ensures
        crate::text::find_from(s, p, n) matches Some(i) ==> occurs_at(s, p, i) && i >= n,
    decreases s.len() - n + 1,
{
    if !(n > s.len() - p.len() || n < 0) && !occurs_at(s, p, n) {
        lemma_find_occurs(s, p, n + 1);
    }
}


/// A casting line of a character's log.
#[derive(Debug)]
#[allow(inconsistent_fields)]
pub enum CastingEvent {
    Started { spell: String },
    Fizzled { spell: Option<String> },
    Interrupted { spell: Option<String> },
    Resisted { spell: String },
    ConcentrationRecovered,
}

/// What a casting line asks of its client's cast.
#[derive(Debug, PartialEq, Eq)]
pub enum CastAction<'a> {
    /// A cast of this spell begins.
    Start(&'a str),
    /// The active cast (of this spell, where the line names one) ends with
    /// this outcome; `train` says whether its duration trains the estimate.
    Finish { spell: Option<&'a str>, outcome: CastingOutcome, train: bool },
    Ignore,
}

fn opt_str(s: &Option<String>) -> (r: Option<&str>)
    ensures
        match s {
            Some(t) => r matches Some(u) && u@ == t@,
            None => r is None,
        },
{
    match s {
        Some(t) => Some(t.as_str()),
        None => None,
    }
}

/// Fizzles and resists train the estimate (the cast ran its course);
/// interruptions do not.
pub fn cast_action(event: &CastingEvent) -> (a: CastAction<'_>)
    ensures
        match *event {
            CastingEvent::Started { spell } => a matches CastAction::Start(s) && s@ == spell@,
            CastingEvent::Fizzled { spell } => a matches CastAction::Finish { spell: s, outcome, train } && outcome
                == CastingOutcome::Fizzled && train && (match spell {
                Some(t) => s matches Some(u) && u@ == t@,
                None => s is None,
            }),
            CastingEvent::Interrupted { spell } => a matches CastAction::Finish { spell: s, outcome, train }
                && outcome == CastingOutcome::Interrupted && !train && (match spell {
                Some(t) => s matches Some(u) && u@ == t@,
                None => s is None,
            }),
            CastingEvent::Resisted { spell } => a matches CastAction::Finish { spell: s, outcome, train } && outcome
                == CastingOutcome::Resisted && train && (s matches Some(u) && u@ == spell@),
            CastingEvent::ConcentrationRecovered => a == CastAction::Ignore,
        },
{
    match event {
        CastingEvent::Started { spell } => CastAction::Start(spell.as_str()),
        CastingEvent::Fizzled { spell } => CastAction::Finish {
            spell: opt_str(spell),
            outcome: CastingOutcome::Fizzled,
            train: true,
        },
        CastingEvent::Interrupted { spell } => CastAction::Finish {
            spell: opt_str(spell),
            outcome: CastingOutcome::Interrupted,
            train: false,
        },
        CastingEvent::Resisted { spell } => CastAction::Finish {
            spell: Some(spell.as_str()),
            outcome: CastingOutcome::Resisted,
            train: true,
        },
        CastingEvent::ConcentrationRecovered => CastAction::Ignore,
    }
}

/// Whether a terminal line may end the active cast: it names no spell, or
/// names the active one (ignoring ASCII case).
pub fn finish_matches(observed_spell: Option<&str>, active_spell: &str) -> (b: bool)
    ensures
        b == match observed_spell {
            Some(s) => eq_ignore_case(s@, active_spell@),
            None => true,
        },
{
    match observed_spell {
        Some(s) => eq_ignore_ascii_case(s, active_spell),
        None => true,
    }
}

/// Direct spell damage dealt by the character itself with the ability it is
/// casting confirms that the cast completed.
pub fn owned_direct_spell_hit(
    direct_spell: bool,
    attacker_is_self: bool,
    ability: Option<&str>,
    active_spell: Option<&str>,
) -> (b: bool)
    ensures
        b == (direct_spell && attacker_is_self && ability is Some && active_spell is Some && eq_ignore_case(
            ability.unwrap()@,
            active_spell.unwrap()@,
        )),
{
    if !direct_spell || !attacker_is_self {
        return false;
    }
    match (ability, active_spell) {
        (Some(a), Some(s)) => eq_ignore_ascii_case(a, s),
        _ => false,
    }
}

/// Without a terminal line in the same batch, a cast completes when the
/// character's own direct spell damage, its own heal, or the spell's landing
/// message shows it.
pub fn completion_inferred(terminal_seen: bool, owned_direct_spell: bool, owned_heal: bool, landing: bool) -> (b: bool)
    ensures
        b == (!terminal_seen && (owned_direct_spell || owned_heal || landing)),
{
    !terminal_seen && (owned_direct_spell || owned_heal || landing)
}


/// A cast in progress: what the log named, the class it was estimated for,
/// when it started and how long it is expected to take.
#[derive(Debug)]
pub struct ActiveCast {
    pub spell_name: String,
    pub class: Option<String>,
    pub started_at_ms: u64,
    pub estimated_ms: u64,
    pub base_cast_ms: u64,
}

/// A finished cast shown until its outcome's linger time ends; its bar
/// starts from the progress (in millionths) it had reached.
#[derive(Debug)]
pub struct TerminalCast {
    pub spell_name: String,
    pub outcome: CastingOutcome,
    pub observed_at_ms: u64,
    pub start_progress_ppm: u32,
}

#[derive(Debug)]
pub enum CastEntry {
    Active(ActiveCast),
    Terminal(TerminalCast),
}

pub open spec fn since_ms(now: u64, then: u64) -> int {
    if now >= then { now - then } else { 0 }
}

/// Whether a cast is still shown at `now`.
pub open spec fn entry_visible(e: CastEntry, now: u64) -> bool {
    match e {
        CastEntry::Active(a) => since_ms(now, a.started_at_ms) < a.estimated_ms + UNCONFIRMED_GRACE_MS,
        CastEntry::Terminal(t) => since_ms(now, t.observed_at_ms) < t.outcome.spec_linger(),
    }
}

fn entry_visible_exec(e: &CastEntry, now: u64) -> (b: bool)
    ensures
        b == entry_visible(*e, now),
{
    match e {
        CastEntry::Active(a) => {
            let elapsed = if now >= a.started_at_ms { now - a.started_at_ms } else { 0 };
            active_cast_visible(elapsed, a.estimated_ms)
        },
        CastEntry::Terminal(t) => {
            let elapsed = if now >= t.observed_at_ms { now - t.observed_at_ms } else { 0 };
            terminal_visible(elapsed, t.outcome)
        },
    }
}

/// Window `i` is the first window of `pid`.
pub open spec fn first_window_of(ws: Seq<EqWindow>, pid: u32, i: int) -> bool {
    0 <= i < ws.len() && ws[i].pid == pid && forall|k: int| 0 <= k < i ==> ws[k].pid != pid
}

/// A client's cast stays while the client is loaded and, for a cast in
/// progress, its first window still has the class the cast was estimated
/// for.
pub open spec fn cast_kept(e: CastEntry, ws: Seq<EqWindow>, pid: u32) -> bool {
    exists|i: int| #[trigger] first_window_of(ws, pid, i) && match e {
        CastEntry::Active(a) => opt_view(a.class) == opt_view(
            ws[choose|j: int| #[trigger] first_window_of(ws, pid, j)].class,
        ),
        CastEntry::Terminal(_) => true,
    }
}

fn same_class(a: &Option<String>, b: &Option<String>) -> (r: bool)
    ensures
        r == (opt_view(*a) == opt_view(*b)),
{
    match (a, b) {
        (Some(x), Some(y)) => crate::text::str_eq(x.as_str(), y.as_str()),
        (None, None) => true,
        _ => false,
    }
}

/// A spell as the spell catalog resolves a name from the log: its catalog
/// name, its nominal cast time, and the one class that can cast it, where
/// only one can.
#[derive(Debug)]
pub struct ResolvedSpell {
    pub name: String,
    pub base_cast_ms: u64,
    pub unique_class: Option<String>,
}

/// The class a cast is attributed to: a spell that only one class casts
/// names that class; a shared spell keeps the class known for the client.
pub open spec fn attributed_class(unique_class: Option<String>, class: Option<String>) -> Option<String> {
    if unique_class is Some {
        unique_class
    } else {
        class
    }
}

/// A cast's nominal duration for a class.
pub open spec fn nominal_ms(base_cast_ms: u64, class: Option<String>) -> u64 {
    if is_bard(opt_view(class)) && base_cast_ms != 0 {
        BARD_CAST_MS
    } else {
        base_cast_ms
    }
}

/// How long a cast is expected to take: a trained estimate counts for a
/// known class other than bards; otherwise the nominal duration.
pub open spec fn expected_ms(base_cast_ms: u64, class: Option<String>, trained_ms: Option<u64>) -> u64 {
    if class is Some && !is_bard(opt_view(class)) && trained_ms is Some {
        trained_ms.unwrap()
    } else {
        nominal_ms(base_cast_ms, class)
    }
}

/// The class whose trained estimate a cast of `spell` uses: none for an
/// instant spell, for bards' songs, or where the class is unknown.
pub fn estimate_class(spell: &ResolvedSpell, class: &Option<String>) -> (r: Option<String>)
    ensures
        ({
            let c = attributed_class(spell.unique_class, *class);
            r == (if nominal_ms(spell.base_cast_ms, c) == 0 || c is None || is_bard(opt_view(c)) {
                None
            } else {
                c
            })
        }),
{
    let c = match &spell.unique_class {
        Some(u) => Some(u.clone()),
        None => class.clone(),
    };
    let bard = match opt_str(&c) {
        Some(name) => {
            proof {
                reveal_strlit("BRD");
            }
            eq_ignore_ascii_case(name, "BRD")
        },
        None => false,
    };
    if spell.base_cast_ms == 0 || bard {
        None
    } else {
        c
    }
}

/// Each client's current or last cast.
pub struct CastBook {
    entries: PidMap<CastEntry>,
}

impl CastBook {
    pub closed spec fn view(&self) -> Map<u32, CastEntry> {
        self.entries.view()
    }

    pub closed spec fn wf(&self) -> bool {
        self.entries.wf()
    }

    pub fn new() -> (b: CastBook)
        ensures
            b.wf(),
            b.view() == Map::<u32, CastEntry>::empty(),
    {
        CastBook { entries: PidMap::new() }
    }

    /// A spell that casts instantly shows as completed at once, at a full bar.
    pub fn start_instant(&mut self, pid: u32, spell_name: String, observed_at_ms: u64)
        requires
            old(self).wf(),
        ensures
            final(self).wf(),
            final(self).view() == old(self).view().insert(
                pid,
                CastEntry::Terminal(
                    TerminalCast {
                        spell_name,
                        outcome: CastingOutcome::Completed,
                        observed_at_ms,
                        start_progress_ppm: 1_000_000,
                    },
                ),
            ),
    {
        self.entries.insert(
            pid,
            CastEntry::Terminal(
                TerminalCast {
                    spell_name,
                    outcome: CastingOutcome::Completed,
                    observed_at_ms,
                    start_progress_ppm: 1_000_000,
                },
            ),
        );
    }

    /// A cast begins.
    pub fn start(&mut self, pid: u32, cast: ActiveCast)
        requires
            old(self).wf(),
        ensures
            final(self).wf(),
            final(self).view() == old(self).view().insert(pid, CastEntry::Active(cast)),
    {
        self.entries.insert(pid, CastEntry::Active(cast));
    }

    /// A line names a spell being cast (`spell` is what the catalog resolved,
    /// `None` for a name it does not know). An unknown spell forgets the
    /// client's cast and changes nothing shown; an instant one completes at
    /// once; any other begins with its expected duration, where `trained_ms`
    /// is the estimate trained for this client and spell at its nominal
    /// duration. Returns whether a cast was recorded.
    pub fn begin(
        &mut self,
        pid: u32,
        spell: Option<ResolvedSpell>,
        class: Option<String>,
        observed_at_ms: u64,
        trained_ms: Option<u64>,
    ) -> (changed: bool)
        requires
            old(self).wf(),
        ensures
            final(self).wf(),
            match spell {
                None => !changed && final(self).view() == old(self).view().remove(pid),
                Some(sp) => changed && ({
                    let c = attributed_class(sp.unique_class, class);
                    final(self).view() == old(self).view().insert(
                        pid,
                        if nominal_ms(sp.base_cast_ms, c) == 0 {
                            CastEntry::Terminal(
                                TerminalCast {
                                    spell_name: sp.name,
                                    outcome: CastingOutcome::Completed,
                                    observed_at_ms,
                                    start_progress_ppm: 1_000_000,
                                },
                            )
                        } else {
                            CastEntry::Active(
                                ActiveCast {
                                    spell_name: sp.name,
                                    class: c,
                                    started_at_ms: observed_at_ms,
                                    estimated_ms: expected_ms(sp.base_cast_ms, c, trained_ms),
                                    base_cast_ms: sp.base_cast_ms,
                                },
                            )
                        },
                    )
                }),
            },
    {
        let sp = match spell {
            None => {
                self.entries.remove(pid);
                return false;
            },
            Some(sp) => sp,
        };
        let c = match sp.unique_class {
            Some(u) => Some(u),
            None => class,
        };
        let nominal = base_duration_ms(sp.base_cast_ms, opt_str(&c));
        if nominal == 0 {
            self.start_instant(pid, sp.name, observed_at_ms);
            return true;
        }
        let bard = match opt_str(&c) {
            Some(name) => {
                proof {
                    reveal_strlit("BRD");
                }
                eq_ignore_ascii_case(name, "BRD")
            },
            None => false,
        };
        let estimated_ms = match trained_ms {
            Some(t) => if c.is_some() && !bard {
                t
            } else {
                nominal
            },
            None => nominal,
        };
        self.start(
            pid,
            ActiveCast {
                spell_name: sp.name,
                class: c,
                started_at_ms: observed_at_ms,
                estimated_ms,
                base_cast_ms: sp.base_cast_ms,
            },
        );
        true
    }

    /// Forget a client's cast (its spell is unknown, or the client left).
    pub fn remove(&mut self, pid: u32)
        requires
            old(self).wf(),
        ensures
            final(self).wf(),
            final(self).view() == old(self).view().remove(pid),
    {
        self.entries.remove(pid);
    }

    /// A client's cast.
    pub fn get(&self, pid: u32) -> (r: Option<&CastEntry>)
        requires
            self.wf(),
        ensures
            match r {
                Some(e) => self.view().contains_key(pid) && self.view()[pid] == *e,
                None => !self.view().contains_key(pid),
            },
    {
        self.entries.get(pid)
    }

    /// The spell a client is casting.
    pub fn active_spell_name(&self, pid: u32) -> (r: Option<&str>)
        requires
            self.wf(),
        ensures
            match r {
                Some(name) => self.view().contains_key(pid) && (self.view()[pid] matches CastEntry::Active(a)
                    && a.spell_name@ == name@),
                None => !(self.view().contains_key(pid) && self.view()[pid] is Active),
            },
    {
        match self.entries.get(pid) {
            Some(CastEntry::Active(a)) => Some(a.spell_name.as_str()),
            _ => None,
        }
    }

    /// End a client's cast with an outcome, if it is casting and the line
    /// names no spell or the spell being cast. The bar keeps `progress_ppm`
    /// (what the cast had reached). Returns the ended cast, whose duration
    /// may train its estimate.
    pub fn finish(
        &mut self,
        pid: u32,
        observed_spell: Option<&str>,
        outcome: CastingOutcome,
        observed_at_ms: u64,
        progress_ppm: u32,
    ) -> (r: Option<ActiveCast>)
        requires
            old(self).wf(),
        ensures
            final(self).wf(),
            ({
                let applies = old(self).view().contains_key(pid) && (old(self).view()[pid] matches CastEntry::Active(a)
                    && match observed_spell {
                    Some(s) => eq_ignore_case(s@, a.spell_name@),
                    None => true,
                });
                &&& applies ==> (r matches Some(a) && old(self).view()[pid] == CastEntry::Active(a)
                    && final(self).view() == old(self).view().insert(
                    pid,
                    CastEntry::Terminal(
                        TerminalCast { spell_name: a.spell_name, outcome, observed_at_ms, start_progress_ppm: progress_ppm },
                    ),
                ))
                &&& !applies ==> r is None && final(self).view() == old(self).view()
            }),
    {
        let matches = match self.entries.get(pid) {
            Some(CastEntry::Active(a)) => finish_matches(observed_spell, a.spell_name.as_str()),
            _ => false,
        };
        if !matches {
            return None;
        }
        match self.entries.remove(pid) {
            Some(CastEntry::Active(a)) => {
                let name = a.spell_name.clone();
                self.entries.insert(
                    pid,
                    CastEntry::Terminal(
                        TerminalCast { spell_name: name, outcome, observed_at_ms, start_progress_ppm: progress_ppm },
                    ),
                );
                proof {
                    assert(old(self).view().remove(pid).insert(pid, CastEntry::Terminal(
                        TerminalCast { spell_name: a.spell_name, outcome, observed_at_ms, start_progress_ppm: progress_ppm },
                    )) =~= old(self).view().insert(pid, CastEntry::Terminal(
                        TerminalCast { spell_name: a.spell_name, outcome, observed_at_ms, start_progress_ppm: progress_ppm },
                    )));
                }
                Some(a)
            },
            _ => None,
        }
    }

    /// Forget the casts of the given clients.
    fn remove_all(&mut self, pids: &Vec<u32>)
        requires
            old(self).wf(),
        ensures
            final(self).wf(),
            forall|k: u32| #[trigger] final(self).view().contains_key(k) <==> old(self).view().contains_key(k)
                && !pids@.contains(k),
            forall|k: u32| #[trigger] final(self).view().contains_key(k) ==> final(self).view()[k] == old(self).view()[k],
    {
        let mut t: usize = 0;
        while t < pids.len()
            invariant
                self.wf(),
                0 <= t <= pids@.len(),
                forall|k: u32| #[trigger] self.view().contains_key(k) <==> old(self).view().contains_key(k)
                    && !pids@.take(t as int).contains(k),
                forall|k: u32| #[trigger] self.view().contains_key(k) ==> self.view()[k] == old(self).view()[k],
            decreases pids@.len() - t,
        {
            let pid = pids[t];
            let ghost prev = self.view();
            self.entries.remove(pid);
            proof {
                assert(self.view() == prev.remove(pid));
                assert forall|k: u32| pids@.take(t + 1).contains(k) <==> pids@.take(t as int).contains(k) || k == pid by {
                    let t1 = pids@.take(t + 1);
                    let t0 = pids@.take(t as int);
                    if t1.contains(k) {
                        let j = choose|j: int| 0 <= j < t1.len() && t1[j] == k;
                        if j < t {
                            assert(t0[j] == k);
                        }
                    }
                    if t0.contains(k) {
                        let j = choose|j: int| 0 <= j < t0.len() && t0[j] == k;
                        assert(t1[j] == k);
                    }
                    if k == pid {
                        assert(t1[t as int] == k);
                    }
                }
            }
            t = t + 1;
        }
        proof {
            assert(pids@.take(pids@.len() as int) =~= pids@);
        }
    }

    /// Keep a client's cast only while the client is loaded and, for a cast
    /// in progress, still has the class it was estimated for.
    pub fn reconcile_clients(&mut self, windows: &[EqWindow])
        requires
            old(self).wf(),
        ensures
            final(self).wf(),
            forall|k: u32| #[trigger] final(self).view().contains_key(k) <==> old(self).view().contains_key(k)
                && cast_kept(old(self).view()[k], windows@, k),
            forall|k: u32| #[trigger] final(self).view().contains_key(k) ==> final(self).view()[k] == old(self).view()[k],
    {
        let n = self.entries.len();
        let mut dropped: Vec<u32> = Vec::new();
        let mut i: usize = 0;
        while i < n
            invariant
                self.wf(),
                self.entries.view() == old(self).view(),
                n == self.entries.entries().len(),
                self.entries.view() == crate::pid_map::map_of(self.entries.entries()),
                crate::pid_map::distinct_keys(self.entries.entries()),
                0 <= i <= n,
                forall|q: u32| #[trigger] dropped@.contains(q) <==> exists|j: int| 0 <= j < i && self.entries.entries()[j].0 == q
                    && !cast_kept(self.entries.entries()[j].1, windows@, q),
            decreases n - i,
        {
            let k = self.entries.key_at(i);
            let v = self.entries.value_at(i);
            let ghost before = dropped@;
            let ghost e = self.entries.entries();
            let kept = match crate::clients::position_of(windows, k) {
                Some(w) => {
                    proof {
                        assert(first_window_of(windows@, k, w as int));
                        let c = choose|c: int| first_window_of(windows@, k, c);
                        if c < w {
                            assert(windows@[c].pid != k);
                        }
                        if w < c {
                            assert(windows@[w as int].pid != k);
                        }
                    }
                    match v {
                        CastEntry::Active(a) => same_class(&a.class, &windows[w].class),
                        CastEntry::Terminal(_) => true,
                    }
                },
                None => {
                    proof {
                        assert(!exists|c: int| first_window_of(windows@, k, c)) by {
                            if exists|c: int| first_window_of(windows@, k, c) {
                                let c = choose|c: int| first_window_of(windows@, k, c);
                                assert(crate::clients::pids_of(windows@)[c] == k);
                            }
                        }
                    }
                    false
                },
            };
            if !kept {
                dropped.push(k);
            }
            proof {
                assert(e[i as int].0 == k && e[i as int].1 == *v);
                assert(kept == cast_kept(*v, windows@, k));
                assert forall|q: u32| #[trigger] dropped@.contains(q) <==> exists|j: int| 0 <= j < i + 1 && e[j].0 == q
                    && !cast_kept(e[j].1, windows@, q) by {
                    if dropped@.contains(q) {
                        let m = choose|m: int| 0 <= m < dropped@.len() && dropped@[m] == q;
                        if m < before.len() {
                            assert(before[m] == q);
                            assert(before.contains(q));
                            let j = choose|j: int| 0 <= j < i && e[j].0 == q && !cast_kept(e[j].1, windows@, q);
                            assert(0 <= j < i + 1 && e[j].0 == q && !cast_kept(e[j].1, windows@, q));
                        } else {
                            assert(0 <= i < i + 1 && e[i as int].0 == q && !cast_kept(e[i as int].1, windows@, q));
                        }
                    }
                    if exists|j: int| 0 <= j < i + 1 && e[j].0 == q && !cast_kept(e[j].1, windows@, q) {
                        let j = choose|j: int| 0 <= j < i + 1 && e[j].0 == q && !cast_kept(e[j].1, windows@, q);
                        if j < i {
                            assert(before.contains(q));
                            let m = choose|m: int| 0 <= m < before.len() && before[m] == q;
                            assert(dropped@[m] == q);
                        } else {
                            assert(dropped@[dropped@.len() - 1] == q);
                        }
                    }
                }
            }
            i = i + 1;
        }
        proof {
            assert forall|q: u32| #[trigger] dropped@.contains(q) <==> old(self).view().contains_key(q) && !cast_kept(
                old(self).view()[q],
                windows@,
                q,
            ) by {
                if dropped@.contains(q) {
                    let j = choose|j: int| 0 <= j < n && self.entries.entries()[j].0 == q && !cast_kept(
                        self.entries.entries()[j].1,
                        windows@,
                        q,
                    );
                    crate::pid_map::lemma_map_of_at(self.entries.entries(), j);
                }
                if old(self).view().contains_key(q) && !cast_kept(old(self).view()[q], windows@, q) {
                    let j = choose|j: int| 0 <= j < n && self.entries.entries()[j].0 == q;
                    crate::pid_map::lemma_map_of_at(self.entries.entries(), j);
                }
            }
        }
        self.remove_all(&dropped);
    }

    /// Drop the casts that are no longer shown at `now`. Returns the clients
    /// whose cast was dropped.
    pub fn prune(&mut self, now_ms: u64) -> (expired: Vec<u32>)
        requires
            old(self).wf(),
        ensures
            final(self).wf(),
            forall|k: u32| #[trigger] final(self).view().contains_key(k) <==> old(self).view().contains_key(k)
                && entry_visible(old(self).view()[k], now_ms),
            forall|k: u32| #[trigger] final(self).view().contains_key(k) ==> final(self).view()[k] == old(self).view()[k],
            forall|k: u32| #[trigger] expired@.contains(k) <==> old(self).view().contains_key(k) && !entry_visible(
                old(self).view()[k],
                now_ms,
            ),
    {
        let n = self.entries.len();
        let mut expired: Vec<u32> = Vec::new();
        let mut i: usize = 0;
        while i < n
            invariant
                self.wf(),
                self.entries.view() == old(self).view(),
                n == self.entries.entries().len(),
                self.entries.view() == crate::pid_map::map_of(self.entries.entries()),
                crate::pid_map::distinct_keys(self.entries.entries()),
                0 <= i <= n,
                forall|k: u32| #[trigger] expired@.contains(k) <==> exists|j: int| 0 <= j < i && self.entries.entries()[j].0 == k
                    && !entry_visible(self.entries.entries()[j].1, now_ms),
            decreases n - i,
        {
            let k = self.entries.key_at(i);
            let v = self.entries.value_at(i);
            let ghost before = expired@;
            let ghost e = self.entries.entries();
            let gone = !entry_visible_exec(v, now_ms);
            if gone {
                expired.push(k);
            }
            proof {
                assert(e[i as int].0 == k && e[i as int].1 == *v);
                assert forall|q: u32| #[trigger] expired@.contains(q) <==> exists|j: int| 0 <= j < i + 1 && e[j].0 == q
                    && !entry_visible(e[j].1, now_ms) by {
                    if expired@.contains(q) {
                        let m = choose|m: int| 0 <= m < expired@.len() && expired@[m] == q;
                        if m < before.len() {
                            assert(before[m] == q);
                            assert(before.contains(q));
                            let j = choose|j: int| 0 <= j < i && e[j].0 == q && !entry_visible(e[j].1, now_ms);
                            assert(0 <= j < i + 1 && e[j].0 == q && !entry_visible(e[j].1, now_ms));
                        } else {
                            assert(q == k && gone);
                            assert(0 <= i < i + 1 && e[i as int].0 == q && !entry_visible(e[i as int].1, now_ms));
                        }
                    }
                    if exists|j: int| 0 <= j < i + 1 && e[j].0 == q && !entry_visible(e[j].1, now_ms) {
                        let j = choose|j: int| 0 <= j < i + 1 && e[j].0 == q && !entry_visible(e[j].1, now_ms);
                        if j < i {
                            assert(before.contains(q));
                            let m = choose|m: int| 0 <= m < before.len() && before[m] == q;
                            assert(expired@[m] == q);
                        } else {
                            assert(expired@[expired@.len() - 1] == q);
                        }
                    }
                }
            }
            i = i + 1;
        }
        proof {
            assert forall|q: u32| #[trigger] expired@.contains(q) <==> old(self).view().contains_key(q) && !entry_visible(
                old(self).view()[q],
                now_ms,
            ) by {
                if expired@.contains(q) {
                    let j = choose|j: int| 0 <= j < n && self.entries.entries()[j].0 == q && !entry_visible(
                        self.entries.entries()[j].1,
                        now_ms,
                    );
                    crate::pid_map::lemma_map_of_at(self.entries.entries(), j);
                }
                if old(self).view().contains_key(q) && !entry_visible(old(self).view()[q], now_ms) {
                    let j = choose|j: int| 0 <= j < n && self.entries.entries()[j].0 == q;
                    crate::pid_map::lemma_map_of_at(self.entries.entries(), j);
                }
            }
        }
        self.remove_all(&expired);
        expired
    }
}

} // verus!
