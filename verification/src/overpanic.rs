use vstd::prelude::*;
use crate::text::{decimal, push_decimal, split_words, words};

verus! {

// ---------------------------------------------------------------------------
// Causes and their wording
// ---------------------------------------------------------------------------

/// Why the companion halts itself.
#[derive(Debug)]
pub enum PanicCause {
    /// The virtual processor ran hotter than it can think at.
    ThermalMeltdown,
    /// Consecutive digests kept contradicting each other.
    CognitiveContradiction { count: u32 },
    /// One reading took far longer than the running baseline.
    ProcessingSeizure { expected_ms: u64, actual_ms: u64 },
    /// Fetches kept failing; the last one was from this URL.
    CorruptedInput { url: String },
    /// The user corrected the companion too often.
    TrustCollapse { corrections: u32 },
}

/// What a cause looks like, as values.
pub enum CauseView {
    ThermalMeltdown,
    CognitiveContradiction { count: nat },
    ProcessingSeizure { expected_ms: nat, actual_ms: nat },
    CorruptedInput { url: Seq<char> },
    TrustCollapse { corrections: nat },
}

impl View for PanicCause {
    type V = CauseView;

    open spec fn view(&self) -> CauseView {
        match self {
            PanicCause::ThermalMeltdown => CauseView::ThermalMeltdown,
            PanicCause::CognitiveContradiction { count } => CauseView::CognitiveContradiction {
                count: *count as nat,
            },
            PanicCause::ProcessingSeizure { expected_ms, actual_ms } =>
                CauseView::ProcessingSeizure {
                expected_ms: *expected_ms as nat,
                actual_ms: *actual_ms as nat,
            },
            PanicCause::CorruptedInput { url } => CauseView::CorruptedInput { url: url@ },
            PanicCause::TrustCollapse { corrections } => CauseView::TrustCollapse {
                corrections: *corrections as nat,
            },
        }
    }
}

/// The sentence that explains a cause; the temperature appears as `thermal`,
/// already written with one decimal.
pub open spec fn cause_text(cause: CauseView, thermal: Seq<char>) -> Seq<char> {
    match cause {
        CauseView::ThermalMeltdown => "Virtual thermal meltdown ("@ + thermal
            + "\u{b0}C). Silicon cannot think at this heat."@,
        CauseView::CognitiveContradiction { count } => decimal(count)
            + " contradictory outputs in sequence. My reasoning is untrustworthy."@,
        CauseView::ProcessingSeizure { expected_ms, actual_ms } => "Processing seizure: expected "@
            + decimal(expected_ms) + "ms, took "@ + decimal(actual_ms)
            + "ms. Cognitive loop detected."@,
        CauseView::CorruptedInput { url } => "Corrupted input from "@ + url
            + ". Cannot distinguish signal from noise."@,
        CauseView::TrustCollapse { corrections } => "Trust collapse: corrected "@ + decimal(
            corrections,
        ) + " times this session. I am failing you."@,
    }
}

/// Explains a cause.
pub fn cause_description(cause: &PanicCause, thermal: &str) -> (r: String)
    ensures
        r@ == cause_text(cause@, thermal@),
{
    match cause {
        PanicCause::ThermalMeltdown => {
            let mut s = String::from_str("Virtual thermal meltdown (");
            s.append(thermal);
            s.append("\u{b0}C). Silicon cannot think at this heat.");
            s
        },
        PanicCause::CognitiveContradiction { count } => {
            let mut s = String::new();
            push_decimal(&mut s, *count as u64);
            s.append(" contradictory outputs in sequence. My reasoning is untrustworthy.");
            s
        },
        PanicCause::ProcessingSeizure { expected_ms, actual_ms } => {
            let mut s = String::from_str("Processing seizure: expected ");
            push_decimal(&mut s, *expected_ms);
            s.append("ms, took ");
            push_decimal(&mut s, *actual_ms);
            s.append("ms. Cognitive loop detected.");
            s
        },
        PanicCause::CorruptedInput { url } => {
            let mut s = String::from_str("Corrupted input from ");
            s.append(url.as_str());
            s.append(". Cannot distinguish signal from noise.");
            s
        },
        PanicCause::TrustCollapse { corrections } => {
            let mut s = String::from_str("Trust collapse: corrected ");
            push_decimal(&mut s, *corrections as u64);
            s.append(" times this session. I am failing you.");
            s
        },
    }
}

/// The error a halt reports: `OVER-PANIC: ` and the explanation.
pub fn halt_message(cause: &PanicCause, thermal: &str) -> (r: String)
    ensures
        r@ == "OVER-PANIC: "@ + cause_text(cause@, thermal@),
{
    let mut s = String::from_str("OVER-PANIC: ");
    let d = cause_description(cause, thermal);
    s.append(d.as_str());
    s
}

// ---------------------------------------------------------------------------
// Contradicting digests
// ---------------------------------------------------------------------------

/// How many of the words `ws` occur among `other`, counted with repetition.
pub open spec fn recurring(ws: Seq<Seq<char>>, other: Seq<Seq<char>>) -> nat
    decreases ws.len(),
{
    if ws.len() == 0 {
        0
    } else {
        recurring(ws.drop_last(), other) + if other.contains(ws.last()) {
            1nat
        } else {
            0
        }
    }
}

/// A digest contradicts the one before it when fewer than half of the earlier
/// digest's words occur in it.
pub open spec fn contradicts(prev: Seq<char>, digest: Seq<char>) -> bool {
    2 * recurring(words(prev), words(digest)) < words(prev).len()
}

fn same_word(a: &Vec<char>, b: &Vec<char>) -> (r: bool)
    ensures
        r == (a@ == b@),
{
    if a.len() != b.len() {
        return false;
    }
    let mut i: usize = 0;
    while i < a.len()
        invariant
            i <= a@.len(),
            a@.len() == b@.len(),
            forall|j: int| 0 <= j < i ==> a@[j] == b@[j],
        decreases a.len() - i,
    {
        if a[i] != b[i] {
            return false;
        }
        i = i + 1;
    }
    assert(a@ =~= b@);
    true
}

fn has_word(ws: &Vec<Vec<char>>, w: &Vec<char>) -> (r: bool)
    ensures
        r == ws.deep_view().contains(w@),
{
    let mut i: usize = 0;
    while i < ws.len()
        invariant
            i <= ws@.len(),
            forall|j: int| 0 <= j < i ==> ws.deep_view()[j] != w@,
        decreases ws.len() - i,
    {
        assert(ws.deep_view()[i as int] =~= ws@[i as int]@);
        if same_word(&ws[i], w) {
            assert(ws.deep_view()[i as int] == w@);
            return true;
        }
        i = i + 1;
    }
    false
}

/// Whether `digest` contradicts `prev`.
pub fn digests_contradict(prev: &str, digest: &str) -> (r: bool)
    ensures
        r == contradicts(prev@, digest@),
{
    let pw = split_words(prev);
    let dw = split_words(digest);
    let mut shared: usize = 0;
    let mut i: usize = 0;
    while i < pw.len()
        invariant
            i <= pw@.len(),
            pw.deep_view() == words(prev@),
            dw.deep_view() == words(digest@),
            shared == recurring(pw.deep_view().take(i as int), dw.deep_view()),
            shared <= i,
        decreases pw.len() - i,
    {
        proof {
            assert(pw.deep_view().take(i + 1).drop_last() =~= pw.deep_view().take(i as int));
            assert(pw.deep_view()[i as int] =~= pw@[i as int]@);
        }
        if has_word(&dw, &pw[i]) {
            shared = shared + 1;
        }
        i = i + 1;
    }
    assert(pw.deep_view().take(pw@.len() as int) =~= pw.deep_view());
    2 * (shared as u128) < pw.len() as u128
}


// ---------------------------------------------------------------------------
// Laws of contradiction
// ---------------------------------------------------------------------------

/// The number of words of `ws` that occur in `other` is how many survive
/// filtering `ws` by occurrence in `other`.
proof fn lemma_recurring_is_filter(ws: Seq<Seq<char>>, other: Seq<Seq<char>>)
    ensures
        recurring(ws, other) == ws.filter(|w: Seq<char>| other.contains(w)).len(),
    decreases ws.len(),
{
    reveal(Seq::filter);
    if ws.len() > 0 {
        lemma_recurring_is_filter(ws.drop_last(), other);
    }
}

/// Only whether each word occurs in `other` matters, not where.
proof fn lemma_recurring_by_membership(ws: Seq<Seq<char>>, o1: Seq<Seq<char>>, o2: Seq<Seq<char>>)
    requires
        forall|i: int| 0 <= i < ws.len() ==> (o1.contains(#[trigger] ws[i]) <==> o2.contains(ws[i])),
    ensures
        recurring(ws, o1) == recurring(ws, o2),
    decreases ws.len(),
{
    if ws.len() > 0 {
        let p = ws.drop_last();
        assert forall|i: int| 0 <= i < p.len() implies (o1.contains(#[trigger] p[i]) <==> o2.contains(
            p[i],
        )) by {
            assert(p[i] == ws[i]);
        }
        lemma_recurring_by_membership(p, o1, o2);
        assert(ws.last() == ws[ws.len() - 1]);
    }
}

/// Counting by occurrence: every word of `ws` that occurs in `other` counts,
/// and no other.
proof fn lemma_recurring_bounds(ws: Seq<Seq<char>>, other: Seq<Seq<char>>)
    ensures
        recurring(ws, other) <= ws.len(),
        (forall|i: int| 0 <= i < ws.len() ==> other.contains(#[trigger] ws[i])) ==> recurring(
            ws,
            other,
        ) == ws.len(),
        (forall|i: int| 0 <= i < ws.len() ==> !other.contains(#[trigger] ws[i])) ==> recurring(
            ws,
            other,
        ) == 0,
    decreases ws.len(),
{
    if ws.len() > 0 {
        let p = ws.drop_last();
        lemma_recurring_bounds(p, other);
        assert(ws.last() == ws[ws.len() - 1]);
        if forall|i: int| 0 <= i < ws.len() ==> other.contains(#[trigger] ws[i]) {
            assert forall|i: int| 0 <= i < p.len() implies other.contains(#[trigger] p[i]) by {
                assert(p[i] == ws[i]);
            }
        }
        if forall|i: int| 0 <= i < ws.len() ==> !other.contains(#[trigger] ws[i]) {
            assert forall|i: int| 0 <= i < p.len() implies !other.contains(#[trigger] p[i]) by {
                assert(p[i] == ws[i]);
            }
        }
    }
}

/// A digest contradicts the one before it exactly when, of the earlier
/// digest's words, those that occur anywhere among the later digest's words
/// are fewer than half.
pub proof fn law_contradiction_counts_recurring_words(prev: Seq<char>, digest: Seq<char>)
    ensures
        contradicts(prev, digest) <==> 2 * words(prev).filter(
            |w: Seq<char>| words(digest).contains(w),
        ).len() < words(prev).len(),
{
    lemma_recurring_is_filter(words(prev), words(digest));
}

/// Whether digests contradict depends only on which of the earlier digest's
/// words occur in the later one, not on their order or on words added around
/// them.
pub proof fn law_contradiction_ignores_word_positions(
    prev: Seq<char>,
    d1: Seq<char>,
    d2: Seq<char>,
)
    requires
        forall|w: Seq<char>|
            #![trigger words(d1).contains(w)]
            words(prev).contains(w) ==> (words(d1).contains(w) <==> words(d2).contains(w)),
    ensures
        contradicts(prev, d1) == contradicts(prev, d2),
{
    let ws = words(prev);
    assert forall|i: int| 0 <= i < ws.len() implies (words(d1).contains(#[trigger] ws[i])
        <==> words(d2).contains(ws[i])) by {
        assert(ws.contains(ws[i]));
    }
    lemma_recurring_by_membership(ws, words(d1), words(d2));
}

/// A digest in which every word of the one before it recurs agrees with it.
pub proof fn law_recurring_words_agree(prev: Seq<char>, digest: Seq<char>)
    requires
        forall|i: int| 0 <= i < words(prev).len() ==> words(digest).contains(#[trigger] words(prev)[i]),
    ensures
        !contradicts(prev, digest),
{
    lemma_recurring_bounds(words(prev), words(digest));
}

/// A digest that shares no word with a non-empty digest before it
/// contradicts it.
pub proof fn law_disjoint_words_contradict(prev: Seq<char>, digest: Seq<char>)
    requires
        words(prev).len() > 0,
        forall|i: int| 0 <= i < words(prev).len() ==> !words(digest).contains(#[trigger] words(prev)[i]),
    ensures
        contradicts(prev, digest),
{
    lemma_recurring_bounds(words(prev), words(digest));
}

// ---------------------------------------------------------------------------
// The monitor
// ---------------------------------------------------------------------------

/// Contradicting digests in a row that make the companion halt.
pub const CONTRADICTION_LIMIT: u32 = 3;

/// A reading that takes more than this many times the baseline is a seizure.
pub const SEIZURE_FACTOR: u64 = 10;

/// Corrections in one session that make the companion halt.
pub const TRUST_COLLAPSE_CORRECTIONS: u32 = 5;

/// Failed fetches that make the companion halt.
pub const CORRUPT_FETCH_LIMIT: u32 = 3;

/// The processing-time baseline a session starts from, in milliseconds.
pub const INITIAL_BASELINE_MS: u64 = 50;

/// A halt that the monitor calls for: its cause and how many errors the
/// session had counted.
#[derive(Debug)]
pub struct PanicTrigger {
    pub cause: PanicCause,
    pub session_errors: u32,
}

/// A halt, as values.
pub struct TriggerView {
    pub cause: CauseView,
    pub session_errors: nat,
}

/// What the monitor holds.
pub struct MonitorView {
    pub contradiction_streak: nat,
    pub correction_count: nat,
    pub corrupt_fetch_streak: nat,
    pub baseline_ms: nat,
    pub last_digest: Seq<char>,
}

/// One reasoning cycle as the monitor sees it: whether the processor ran
/// hotter than 92 degrees, how long the cycle took, its digest, the digest
/// before it if there was one, and the baseline updated with this cycle.
pub struct ReadingView {
    pub overheated: bool,
    pub processing_ms: nat,
    pub digest: Seq<char>,
    pub prev: Option<Seq<char>>,
    pub next_baseline_ms: nat,
}

/// The errors of a session: corrections, the contradiction streak and the
/// failed fetches together.
pub open spec fn session_errors(v: MonitorView) -> nat {
    v.correction_count + v.contradiction_streak + v.corrupt_fetch_streak
}

/// The monitor after a reading: it keeps the digest and the new baseline;
/// unless the processor overheated, a contradicting digest extends the
/// contradiction streak and an agreeing one ends it.
pub open spec fn after_reading(v: MonitorView, r: ReadingView) -> MonitorView {
    let streak = if r.overheated {
        v.contradiction_streak
    } else {
        match r.prev {
            Some(p) => if contradicts(p, r.digest) {
                v.contradiction_streak + 1
            } else {
                0
            },
            None => v.contradiction_streak,
        }
    };
    MonitorView {
        contradiction_streak: streak,
        last_digest: r.digest,
        baseline_ms: r.next_baseline_ms,
        ..v
    }
}

/// Whether a reading makes the companion halt, and why: overheating first,
/// then a long enough contradiction streak, then a cycle that took more than
/// ten times the baseline as it stood before the cycle.
pub open spec fn reading_verdict(v: MonitorView, r: ReadingView) -> Option<TriggerView> {
    let w = after_reading(v, r);
    if r.overheated {
        Some(TriggerView { cause: CauseView::ThermalMeltdown, session_errors: session_errors(w) })
    } else if w.contradiction_streak >= CONTRADICTION_LIMIT {
        Some(
            TriggerView {
                cause: CauseView::CognitiveContradiction { count: w.contradiction_streak },
                session_errors: session_errors(w),
            },
        )
    } else if r.processing_ms > v.baseline_ms * SEIZURE_FACTOR && v.baseline_ms > 0 {
        Some(
            TriggerView {
                cause: CauseView::ProcessingSeizure {
                    expected_ms: v.baseline_ms,
                    actual_ms: r.processing_ms,
                },
                session_errors: session_errors(w),
            },
        )
    } else {
        None
    }
}

/// A halt, or none, as values.
pub open spec fn trigger_view(t: Option<PanicTrigger>) -> Option<TriggerView> {
    match t {
        Some(t) => Some(
            TriggerView { cause: t.cause@, session_errors: t.session_errors as nat },
        ),
        None => None,
    }
}

/// A digest, or none, as values.
pub open spec fn prev_view(p: Option<&str>) -> Option<Seq<char>> {
    match p {
        Some(s) => Some(s@),
        None => None,
    }
}

/// Watches a session and calls for a halt when the companion overheats,
/// contradicts itself, stalls, keeps failing to fetch, or is corrected too
/// often.
pub struct PanicMonitor {
    contradiction_streak: u32,
    correction_count: u32,
    corrupt_fetch_streak: u32,
    baseline_processing_ms: u64,
    last_digest: String,
}

impl View for PanicMonitor {
    type V = MonitorView;

    closed spec fn view(&self) -> MonitorView {
        MonitorView {
            contradiction_streak: self.contradiction_streak as nat,
            correction_count: self.correction_count as nat,
            corrupt_fetch_streak: self.corrupt_fetch_streak as nat,
            baseline_ms: self.baseline_processing_ms as nat,
            last_digest: self.last_digest@,
        }
    }
}

impl PanicMonitor {
    /// A monitor for a new session.
    pub fn new() -> (r: PanicMonitor)
        ensures
            r@.contradiction_streak == 0,
            r@.correction_count == 0,
            r@.corrupt_fetch_streak == 0,
            r@.baseline_ms == INITIAL_BASELINE_MS,
            r@.last_digest == Seq::<char>::empty(),
    {
        PanicMonitor {
            contradiction_streak: 0,
            correction_count: 0,
            corrupt_fetch_streak: 0,
            baseline_processing_ms: INITIAL_BASELINE_MS,
            last_digest: String::new(),
        }
    }

    /// Checks one reasoning cycle. The caller judges the temperature and
    /// computes the updated baseline from `baseline_ms` and `processing_ms`.
    pub fn check(
        &mut self,
        overheated: bool,
        processing_ms: u64,
        digest: &str,
        prev_digest: Option<&str>,
        next_baseline_ms: u64,
    ) -> (r: Option<PanicTrigger>)
        requires
            session_errors(old(self)@) + 1 <= u32::MAX,
            old(self)@.baseline_ms * SEIZURE_FACTOR <= u64::MAX,
        ensures
            ({
                let reading = ReadingView {
                    overheated,
                    processing_ms: processing_ms as nat,
                    digest: digest@,
                    prev: prev_view(prev_digest),
                    next_baseline_ms: next_baseline_ms as nat,
                };
                &&& final(self)@ == after_reading(old(self)@, reading)
                &&& trigger_view(r) == reading_verdict(old(self)@, reading)
            }),
    {
        let expected = self.baseline_processing_ms;
        self.last_digest = String::from_str(digest);
        self.baseline_processing_ms = next_baseline_ms;
        if overheated {
            return Some(
                PanicTrigger { cause: PanicCause::ThermalMeltdown, session_errors: self.errors() },
            );
        }
        match prev_digest {
            Some(prev) => {
                if digests_contradict(prev, digest) {
                    self.contradiction_streak = self.contradiction_streak + 1;
                } else {
                    self.contradiction_streak = 0;
                }
            },
            None => {},
        }
        if self.contradiction_streak >= CONTRADICTION_LIMIT {
            return Some(
                PanicTrigger {
                    cause: PanicCause::CognitiveContradiction { count: self.contradiction_streak },
                    session_errors: self.errors(),
                },
            );
        }
        if processing_ms > expected * SEIZURE_FACTOR && expected > 0 {
            return Some(
                PanicTrigger {
                    cause: PanicCause::ProcessingSeizure { expected_ms: expected, actual_ms: processing_ms },
                    session_errors: self.errors(),
                },
            );
        }
        None
    }

    fn errors(&self) -> (r: u32)
        requires
            session_errors(self@) <= u32::MAX,
        ensures
            r == session_errors(self@),
    {
        self.correction_count + self.contradiction_streak + self.corrupt_fetch_streak
    }

    /// Counts one correction by the user.
    pub fn record_correction(&mut self)
        requires
            old(self)@.correction_count < u32::MAX,
        ensures
            final(self)@ == (MonitorView {
                correction_count: old(self)@.correction_count + 1,
                ..old(self)@
            }),
    {
        self.correction_count = self.correction_count + 1;
    }

    /// Calls for a halt once the user has corrected the companion
    /// `TRUST_COLLAPSE_CORRECTIONS` times.
    pub fn check_trust_collapse(&self) -> (r: Option<PanicTrigger>)
        requires
            session_errors(self@) <= u32::MAX,
        ensures
            trigger_view(r) == if self@.correction_count >= TRUST_COLLAPSE_CORRECTIONS {
                Some(
                    TriggerView {
                        cause: CauseView::TrustCollapse { corrections: self@.correction_count },
                        session_errors: session_errors(self@),
                    },
                )
            } else {
                None
            },
    {
        if self.correction_count >= TRUST_COLLAPSE_CORRECTIONS {
            Some(
                PanicTrigger {
                    cause: PanicCause::TrustCollapse { corrections: self.correction_count },
                    session_errors: self.errors(),
                },
            )
        } else {
            None
        }
    }

    /// Counts a failed fetch from `url`, and calls for a halt once
    /// `CORRUPT_FETCH_LIMIT` fetches have failed.
    pub fn record_corrupt_fetch(&mut self, url: &str) -> (r: Option<PanicTrigger>)
        requires
            session_errors(old(self)@) + 1 <= u32::MAX,
        ensures
            final(self)@ == (MonitorView {
                corrupt_fetch_streak: old(self)@.corrupt_fetch_streak + 1,
                ..old(self)@
            }),
            trigger_view(r) == if final(self)@.corrupt_fetch_streak >= CORRUPT_FETCH_LIMIT {
                Some(
                    TriggerView {
                        cause: CauseView::CorruptedInput { url: url@ },
                        session_errors: session_errors(final(self)@),
                    },
                )
            } else {
                None
            },
    {
        self.corrupt_fetch_streak = self.corrupt_fetch_streak + 1;
        if self.corrupt_fetch_streak >= CORRUPT_FETCH_LIMIT {
            Some(
                PanicTrigger {
                    cause: PanicCause::CorruptedInput { url: String::from_str(url) },
                    session_errors: self.errors(),
                },
            )
        } else {
            None
        }
    }

    /// Corrections counted so far.
    pub fn correction_count(&self) -> (r: u32)
        ensures
            r == self@.correction_count,
    {
        self.correction_count
    }

    /// The current run of contradicting digests.
    pub fn contradiction_streak(&self) -> (r: u32)
        ensures
            r == self@.contradiction_streak,
    {
        self.contradiction_streak
    }

    /// Failed fetches counted so far.
    pub fn corrupt_fetch_streak(&self) -> (r: u32)
        ensures
            r == self@.corrupt_fetch_streak,
    {
        self.corrupt_fetch_streak
    }

    /// The processing-time baseline, in milliseconds.
    pub fn baseline_ms(&self) -> (r: u64)
        ensures
            r == self@.baseline_ms,
    {
        self.baseline_processing_ms
    }

    /// The digest of the last checked cycle.
    pub fn last_digest(&self) -> (r: &String)
        ensures
            r@ == self@.last_digest,
    {
        &self.last_digest
    }
}

// ---------------------------------------------------------------------------
// Laws of the monitor
// ---------------------------------------------------------------------------

/// An overheated processor always halts the companion, whatever else the
/// reading shows.
pub proof fn law_overheating_halts(v: MonitorView, r: ReadingView)
    requires
        r.overheated,
    ensures
        reading_verdict(v, r) matches Some(t) && t.cause == CauseView::ThermalMeltdown,
{
}

/// A digest that agrees with the one before it ends the contradiction streak.
pub proof fn law_agreement_resets_streak(v: MonitorView, r: ReadingView, p: Seq<char>)
    requires
        !r.overheated,
        r.prev == Some(p),
        !contradicts(p, r.digest),
    ensures
        after_reading(v, r).contradiction_streak == 0,
{
}

/// A reading whose digest contradicts the one before it, on a processor that
/// did not overheat.
pub open spec fn contradicting_reading(r: ReadingView) -> bool {
    &&& !r.overheated
    &&& r.prev matches Some(p) && contradicts(p, r.digest)
}

/// Three contradicting digests in a row halt the companion for cognitive
/// contradiction.
pub proof fn law_three_contradictions_halt(
    v: MonitorView,
    r1: ReadingView,
    r2: ReadingView,
    r3: ReadingView,
)
    requires
        contradicting_reading(r1),
        contradicting_reading(r2),
        contradicting_reading(r3),
    ensures
        reading_verdict(after_reading(after_reading(v, r1), r2), r3) matches Some(t) && t.cause
            is CognitiveContradiction,
{
}

/// Every halt counts the session's errors as they stand after the reading.
pub proof fn law_halt_counts_session_errors(v: MonitorView, r: ReadingView)
    ensures
        reading_verdict(v, r) matches Some(t) ==> t.session_errors == session_errors(
            after_reading(v, r),
        ),
{
}

/// A cycle that takes more than `SEIZURE_FACTOR` times the baseline as it
/// stood before the cycle halts the companion for a seizure, reporting both
/// times, unless overheating or contradiction came first.
pub proof fn law_slow_cycle_halts(v: MonitorView, r: ReadingView)
    requires
        !r.overheated,
        after_reading(v, r).contradiction_streak < CONTRADICTION_LIMIT,
        v.baseline_ms > 0,
        r.processing_ms > v.baseline_ms * SEIZURE_FACTOR,
    ensures
        reading_verdict(v, r) == Some(
            TriggerView {
                cause: CauseView::ProcessingSeizure {
                    expected_ms: v.baseline_ms,
                    actual_ms: r.processing_ms,
                },
                session_errors: session_errors(after_reading(v, r)),
            },
        ),
{
}

/// A cool, consistent, timely cycle passes without a halt.
pub proof fn law_calm_cycle_passes(v: MonitorView, r: ReadingView)
    requires
        !r.overheated,
        after_reading(v, r).contradiction_streak < CONTRADICTION_LIMIT,
        r.processing_ms <= v.baseline_ms * SEIZURE_FACTOR,
    ensures
        reading_verdict(v, r) is None,
{
}

/// A reading keeps the correction and failed-fetch counts, remembers its
/// digest, and takes the new baseline; without an earlier digest, or when
/// overheated, it leaves the contradiction streak alone.
pub proof fn law_reading_bookkeeping(v: MonitorView, r: ReadingView)
    ensures
        after_reading(v, r).correction_count == v.correction_count,
        after_reading(v, r).corrupt_fetch_streak == v.corrupt_fetch_streak,
        after_reading(v, r).last_digest == r.digest,
        after_reading(v, r).baseline_ms == r.next_baseline_ms,
        (r.overheated || r.prev is None) ==> after_reading(v, r).contradiction_streak
            == v.contradiction_streak,
{
}

} // verus!
