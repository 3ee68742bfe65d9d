//! The decisions of the background usage reader: when to open an
//! app-server session and what to publish around it, and in which order to
//! try the installed Codex Desktop packages.
use vstd::prelude::*;

use crate::locale::{status_text_of, AppLocale};
use crate::model::{connecting_status, UsageSnapshot, UsageStatus};

verus! {

broadcast use vstd::seq_lib::group_to_multiset_ensures;

/// Where the reader is.
#[derive(Clone, Copy, Debug, PartialEq, Eq, Structural)]
pub enum WorkerState {
    /// Waiting for a Codex window to be active.
    WaitingForCodex,
    /// An app-server session is open.
    Reading,
    /// A session has ended; waiting before the next one.
    CoolingDown,
}

/// What the reader observed.
#[derive(Clone, Copy, Debug, PartialEq, Eq, Structural)]
pub enum WorkerEvent {
    /// Whether Codex is active, and whether the delay before a new session
    /// has run out.
    Poll { codex_active: bool, retry_elapsed: bool },
    /// The session ended, in failure or not; whether Codex is still active.
    SessionEnded { failed: bool, codex_active: bool },
}

/// What the reader does next.
#[derive(Clone, Debug, PartialEq, Eq)]
pub enum WorkerAction {
    /// Sleep this many milliseconds, then poll.
    Sleep(u64),
    /// Publish the snapshot, then open a session.
    StartSession(UsageSnapshot),
    /// Publish the snapshot.
    Publish(UsageSnapshot),
    /// Nothing; observe again.
    Proceed,
}

/// How long the reader sleeps between polls while waiting for Codex.
pub const IDLE_POLL_MS: u64 = 500;

/// How long the reader sleeps between polls while cooling down.
pub const COOLDOWN_POLL_MS: u64 = 250;

/// How long the reader waits after a session before opening the next one.
pub const RETRY_DELAY_MS: u64 = 8_000;

/// The status text published when a session failed.
pub open spec fn retry_status() -> Seq<char> {
    "暂时无法读取用量，正在重试…"@
}

/// The state after `event` in `state`.
pub open spec fn next_worker_state(state: WorkerState, event: WorkerEvent) -> WorkerState {
    match (state, event) {
        (WorkerState::WaitingForCodex, WorkerEvent::Poll { codex_active, .. }) => if codex_active {
            WorkerState::Reading
        } else {
            WorkerState::WaitingForCodex
        },
        (WorkerState::Reading, WorkerEvent::SessionEnded { .. }) => WorkerState::CoolingDown,
        (WorkerState::CoolingDown, WorkerEvent::Poll { codex_active, retry_elapsed }) => if codex_active
            && !retry_elapsed {
            WorkerState::CoolingDown
        } else {
            WorkerState::WaitingForCodex
        },
        _ => state,
    }
}

/// `snapshot` shows no quota and the status `status`.
pub open spec fn shows_status(snapshot: UsageSnapshot, status: Seq<char>) -> bool {
    &&& snapshot.primary is None
    &&& snapshot.weekly is None
    &&& snapshot.status matches Some(m) && m@ == status
    &&& snapshot.sampled_at is None
}

/// `action` is the reader's action on `event` in `state`: poll Codex every
/// 500 ms until it is active, then publish the connecting status and open a
/// session; after a failed session publish the retry status if Codex is
/// still active; cool down, polling every 250 ms, while Codex is active and
/// the retry delay has not run out.
pub open spec fn is_worker_action(state: WorkerState, event: WorkerEvent, action: WorkerAction) -> bool {
    match (state, event) {
        (WorkerState::WaitingForCodex, WorkerEvent::Poll { codex_active, .. }) => if codex_active {
            action matches WorkerAction::StartSession(s) && shows_status(s, connecting_status())
        } else {
            action == WorkerAction::Sleep(IDLE_POLL_MS)
        },
        (WorkerState::Reading, WorkerEvent::SessionEnded { failed, codex_active }) => if failed
            && codex_active {
            action matches WorkerAction::Publish(s) && shows_status(s, retry_status())
        } else {
            action == WorkerAction::Proceed
        },
        (WorkerState::CoolingDown, WorkerEvent::Poll { codex_active, retry_elapsed }) => if codex_active
            && !retry_elapsed {
            action == WorkerAction::Sleep(COOLDOWN_POLL_MS)
        } else {
            action == WorkerAction::Proceed
        },
        _ => action == WorkerAction::Proceed,
    }
}

impl WorkerState {
    /// The reader's decision on `event`; the state moves on accordingly.
    pub fn on_event(&mut self, event: WorkerEvent) -> (action: WorkerAction)
        ensures
            *final(self) == next_worker_state(*old(self), event),
            is_worker_action(*old(self), event, action),
    {
        match (*self, event) {
            (WorkerState::WaitingForCodex, WorkerEvent::Poll { codex_active, .. }) => {
                if codex_active {
                    *self = WorkerState::Reading;
                    WorkerAction::StartSession(UsageSnapshot::connecting())
                } else {
                    WorkerAction::Sleep(IDLE_POLL_MS)
                }
            },
            (WorkerState::Reading, WorkerEvent::SessionEnded { failed, codex_active }) => {
                *self = WorkerState::CoolingDown;
                if failed && codex_active {
                    WorkerAction::Publish(UsageSnapshot::error("暂时无法读取用量，正在重试…"))
                } else {
                    WorkerAction::Proceed
                }
            },
            (WorkerState::CoolingDown, WorkerEvent::Poll { codex_active, retry_elapsed }) => {
                if codex_active && !retry_elapsed {
                    WorkerAction::Sleep(COOLDOWN_POLL_MS)
                } else {
                    *self = WorkerState::WaitingForCodex;
                    WorkerAction::Proceed
                }
            },
            _ => WorkerAction::Proceed,
        }
    }
}

/// While waiting, the reader opens a session (publishing the connecting
/// status) exactly when a poll finds Codex active, whatever the delay flag
/// says; otherwise it keeps waiting and sleeps.
pub proof fn lemma_waiting_opens_session_when_codex_active(
    codex_active: bool,
    retry_elapsed: bool,
    action: WorkerAction,
)
    requires
        is_worker_action(
            WorkerState::WaitingForCodex,
            WorkerEvent::Poll { codex_active, retry_elapsed },
            action,
        ),
    ensures
        codex_active ==> next_worker_state(
            WorkerState::WaitingForCodex,
            WorkerEvent::Poll { codex_active, retry_elapsed },
        ) == WorkerState::Reading,
        codex_active ==> (action matches WorkerAction::StartSession(s) && s.status matches Some(m)
            && m@ == "正在读取 Codex 用量…"@),
        !codex_active ==> next_worker_state(
            WorkerState::WaitingForCodex,
            WorkerEvent::Poll { codex_active, retry_elapsed },
        ) == WorkerState::WaitingForCodex,
        !codex_active ==> action == WorkerAction::Sleep(IDLE_POLL_MS),
{
}

/// An open session stays open on polls and ends only when the session
/// ends; then the reader cools down, and publishes the retry status
/// exactly when the session failed while Codex was still active.
pub proof fn lemma_session_end_leads_to_cooldown(
    failed: bool,
    codex_active: bool,
    retry_elapsed: bool,
    action: WorkerAction,
)
    requires
        is_worker_action(
            WorkerState::Reading,
            WorkerEvent::SessionEnded { failed, codex_active },
            action,
        ),
    ensures
        next_worker_state(WorkerState::Reading, WorkerEvent::SessionEnded { failed, codex_active })
            == WorkerState::CoolingDown,
        next_worker_state(WorkerState::Reading, WorkerEvent::Poll { codex_active, retry_elapsed })
            == WorkerState::Reading,
        (action is Publish) == (failed && codex_active),
        failed && codex_active ==> (action matches WorkerAction::Publish(s) && s.status matches Some(
            m,
        ) && m@ == "暂时无法读取用量，正在重试…"@),
{
}

/// Cooling down, the reader goes back to waiting exactly when Codex is
/// gone or the delay has run out, and publishes nothing.
pub proof fn lemma_cooldown_ends_when_codex_gone_or_delay_over(
    codex_active: bool,
    retry_elapsed: bool,
    action: WorkerAction,
)
    requires
        is_worker_action(
            WorkerState::CoolingDown,
            WorkerEvent::Poll { codex_active, retry_elapsed },
            action,
        ),
    ensures
        (next_worker_state(
            WorkerState::CoolingDown,
            WorkerEvent::Poll { codex_active, retry_elapsed },
        ) == WorkerState::WaitingForCodex) == (!codex_active || retry_elapsed),
        !(action is StartSession || action is Publish),
{
}

/// The statuses that the reader publishes are the Chinese status texts of
/// the title bar: connecting when a session opens, retrying after a failed
/// one.
pub proof fn lemma_published_statuses_are_locale_texts()
    ensures
        connecting_status() == status_text_of(AppLocale::Chinese, UsageStatus::Connecting),
        retry_status() == status_text_of(AppLocale::Chinese, UsageStatus::Retrying),
{
}

/// Whether `event` found Codex active.
pub open spec fn finds_codex_active(event: WorkerEvent) -> bool {
    match event {
        WorkerEvent::Poll { codex_active, .. } => codex_active,
        WorkerEvent::SessionEnded { codex_active, .. } => codex_active,
    }
}

/// Whether the reader publishes a snapshot on `event` in `state`.
pub open spec fn publishes_on(state: WorkerState, event: WorkerEvent) -> bool {
    match (state, event) {
        (WorkerState::WaitingForCodex, WorkerEvent::Poll { codex_active, .. }) => codex_active,
        (WorkerState::Reading, WorkerEvent::SessionEnded { failed, codex_active }) => failed
            && codex_active,
        _ => false,
    }
}

/// Whether `event` in `state` opens a session (publishing the connecting
/// status first).
pub open spec fn opens_session(state: WorkerState, event: WorkerEvent) -> bool {
    state == WorkerState::WaitingForCodex && event matches WorkerEvent::Poll { codex_active: true, .. }
}

/// The state of the reader after `events`, from `start`.
#[verifier::opaque]
pub open spec fn state_after(start: WorkerState, events: Seq<WorkerEvent>) -> WorkerState
    decreases events.len(),
{
    if events.len() == 0 {
        start
    } else {
        next_worker_state(state_after(start, events.drop_last()), events.last())
    }
}

/// A step publishes exactly when `publishes_on` says so, and then Codex
/// was found active; a step that opens a session publishes the connecting
/// status.
pub proof fn lemma_publishes_only_while_codex_active(
    state: WorkerState,
    event: WorkerEvent,
    action: WorkerAction,
)
    requires
        is_worker_action(state, event, action),
    ensures
        (action is StartSession || action is Publish) <==> publishes_on(state, event),
        publishes_on(state, event) ==> finds_codex_active(event),
        opens_session(state, event) ==> (action matches WorkerAction::StartSession(s) && shows_status(
            s,
            connecting_status(),
        )),
{
}

/// The last step before the `i`-th that opened a session, when the reader
/// is reading after `i` steps.
proof fn lemma_last_opening(start: WorkerState, events: Seq<WorkerEvent>, i: int) -> (j: int)
    requires
        start != WorkerState::Reading,
        0 <= i <= events.len(),
        state_after(start, events.take(i)) == WorkerState::Reading,
    ensures
        0 <= j < i,
        opens_session(state_after(start, events.take(j)), events[j]),
        forall|k: int| j < k <= i ==> #[trigger] state_after(start, events.take(k)) == WorkerState::Reading,
    decreases i,
{
    reveal(state_after);
    if i == 0 {
        assert(events.take(0).len() == 0);
        assert(false);
        0
    } else {
        assert(events.take(i).drop_last() =~= events.take(i - 1));
        assert(events.take(i).last() == events[i - 1]);
        let prev = state_after(start, events.take(i - 1));
        if prev == WorkerState::Reading {
            lemma_last_opening(start, events, i - 1)
        } else {
            i - 1
        }
    }
}

/// Over any run of the reader that starts outside a session: every
/// publication happens on a step that found Codex active, and whenever a
/// session is open, it was opened by a step that found Codex active and
/// published the connecting status, with the session open ever since.
pub proof fn lemma_reader_runs(start: WorkerState, events: Seq<WorkerEvent>)
    requires
        start != WorkerState::Reading,
    ensures
        forall|i: int|
            0 <= i < events.len() && publishes_on(#[trigger] state_after(start, events.take(i)), events[i])
                ==> finds_codex_active(events[i]),
        forall|i: int|
            0 <= i <= events.len() && #[trigger] state_after(start, events.take(i)) == WorkerState::Reading
                ==> exists|j: int|
                0 <= j < i && opens_session(#[trigger] state_after(start, events.take(j)), events[j])
                    && forall|k: int|
                    j < k <= i ==> #[trigger] state_after(start, events.take(k))
                        == WorkerState::Reading,
{
    assert forall|i: int|
        0 <= i <= events.len() && #[trigger] state_after(start, events.take(i)) == WorkerState::Reading
            implies exists|j: int|
        0 <= j < i && opens_session(#[trigger] state_after(start, events.take(j)), events[j])
            && forall|k: int|
            j < k <= i ==> #[trigger] state_after(start, events.take(k)) == WorkerState::Reading by {
        let j = lemma_last_opening(start, events, i);
        assert(opens_session(state_after(start, events.take(j)), events[j]));
    }
}

/// Lexicographic order of texts, character by character (code point
/// order); a proper prefix comes first.
pub open spec fn text_less(a: Seq<char>, b: Seq<char>) -> bool
    decreases a.len(),
{
    if a.len() == 0 {
        b.len() > 0
    } else if b.len() == 0 {
        false
    } else if a[0] != b[0] {
        a[0] < b[0]
    } else {
        text_less(a.drop_first(), b.drop_first())
    }
}

/// `text_less` is a strict total order: irreflexive, asymmetric,
/// transitive, and any two different texts are ordered.
pub proof fn lemma_text_less_total_order(a: Seq<char>, b: Seq<char>, c: Seq<char>)
    ensures
        !text_less(a, a),
        text_less(a, b) ==> !text_less(b, a),
        text_less(a, b) && text_less(b, c) ==> text_less(a, c),
        a != b ==> text_less(a, b) || text_less(b, a),
{
    lemma_text_less_irreflexive(a);
    lemma_text_less_asymmetric(a, b);
    lemma_text_less_transitive(a, b, c);
    lemma_text_less_connected(a, b);
}

/// Texts are ordered by their first difference: when `a` and `b` agree on
/// their first `k` characters, `a` comes first exactly when its character
/// at `k` is the smaller one, or when `a` ends at `k` and `b` goes on; and
/// when `b` ends at `k`, `a` does not come first.
pub proof fn lemma_text_less_first_difference(a: Seq<char>, b: Seq<char>, k: int)
    requires
        0 <= k <= a.len(),
        k <= b.len(),
        a.take(k) == b.take(k),
    ensures
        k < a.len() && k < b.len() && a[k] != b[k] ==> (text_less(a, b) <==> a[k] < b[k]),
        k == a.len() && k < b.len() ==> text_less(a, b),
        k == b.len() ==> !text_less(a, b),
    decreases k,
{
    if k > 0 {
        assert(a[0] == a.take(k)[0]);
        assert(b[0] == b.take(k)[0]);
        assert(a.drop_first().take(k - 1) =~= b.drop_first().take(k - 1)) by {
            assert forall|j: int| 0 <= j < k - 1 implies a.drop_first()[j] == b.drop_first()[j] by {
                assert(a[j + 1] == a.take(k)[j + 1]);
                assert(b[j + 1] == b.take(k)[j + 1]);
            }
        }
        lemma_text_less_first_difference(a.drop_first(), b.drop_first(), k - 1);
    }
}

proof fn lemma_text_less_irreflexive(a: Seq<char>)
    ensures
        !text_less(a, a),
    decreases a.len(),
{
    if a.len() > 0 {
        lemma_text_less_irreflexive(a.drop_first());
    }
}

proof fn lemma_text_less_asymmetric(a: Seq<char>, b: Seq<char>)
    ensures
        text_less(a, b) ==> !text_less(b, a),
    decreases a.len(),
{
    if a.len() > 0 && b.len() > 0 && a[0] == b[0] {
        lemma_text_less_asymmetric(a.drop_first(), b.drop_first());
    }
}

proof fn lemma_text_less_transitive(a: Seq<char>, b: Seq<char>, c: Seq<char>)
    ensures
        text_less(a, b) && text_less(b, c) ==> text_less(a, c),
    decreases a.len(),
{
    if a.len() > 0 && b.len() > 0 && c.len() > 0 && a[0] == b[0] && b[0] == c[0] {
        lemma_text_less_transitive(a.drop_first(), b.drop_first(), c.drop_first());
    }
}

proof fn lemma_text_less_connected(a: Seq<char>, b: Seq<char>)
    ensures
        a != b ==> text_less(a, b) || text_less(b, a),
    decreases a.len(),
{
    if a.len() == 0 && b.len() == 0 {
        assert(a =~= b);
    }
    if a.len() > 0 && b.len() > 0 && a[0] == b[0] {
        lemma_text_less_connected(a.drop_first(), b.drop_first());
        if a.drop_first() == b.drop_first() {
            assert(a =~= seq![a[0]] + a.drop_first());
            assert(b =~= seq![b[0]] + b.drop_first());
        }
    }
}

/// Whether a directory name is that of a Codex Desktop package.
pub open spec fn is_codex_package(name: Seq<char>) -> bool {
    "OpenAI.Codex_"@.is_prefix_of(name)
}

/// `names` are in descending text order.
pub open spec fn is_descending(names: Seq<Seq<char>>) -> bool {
    forall|i: int, j: int| 0 <= i < j < names.len() ==> !text_less(#[trigger] names[i], #[trigger] names[j])
}

/// Whether `a` comes before `b` in text order.
fn text_less_exec(a: &str, b: &str) -> (r: bool)
    ensures
        r == text_less(a@, b@),
{
    let n = a.unicode_len();
    let m = b.unicode_len();
    let mut i: usize = 0;
    proof {
        assert(a@.skip(0) =~= a@);
        assert(b@.skip(0) =~= b@);
    }
    while i < n && i < m
        invariant
            n == a@.len(),
            m == b@.len(),
            i <= n,
            i <= m,
            text_less(a@, b@) == text_less(a@.skip(i as int), b@.skip(i as int)),
        decreases n - i,
    {
        let x = a.get_char(i);
        let y = b.get_char(i);
        if x != y {
            return x < y;
        }
        proof {
            assert(a@.skip(i as int).drop_first() =~= a@.skip(i + 1));
            assert(b@.skip(i as int).drop_first() =~= b@.skip(i + 1));
        }
        i = i + 1;
    }
    i == n && i < m
}

/// Whether `s` starts with `prefix`.
fn has_prefix(s: &str, prefix: &str) -> (r: bool)
    ensures
        r == prefix@.is_prefix_of(s@),
{
    let n = s.unicode_len();
    let p = prefix.unicode_len();
    if p > n {
        return false;
    }
    let mut i: usize = 0;
    while i < p
        invariant
            n == s@.len(),
            p == prefix@.len(),
            p <= n,
            i <= p,
            forall|j: int| 0 <= j < i ==> prefix@[j] == s@[j],
        decreases p - i,
    {
        if s.get_char(i) != prefix.get_char(i) {
            return false;
        }
        i = i + 1;
    }
    proof {
        assert(prefix@ =~= s@.subrange(0, p as int));
    }
    true
}

/// The Codex Desktop packages among the directory names `names`, in the
/// order in which they are tried: the names that start with
/// `OpenAI.Codex_`, in descending text order (for valid Unicode names, the
/// order std gives `OsString`).
pub fn codex_package_candidates(names: &Vec<String>) -> (r: Vec<String>)
    ensures
        is_descending(r.deep_view()),
        r.deep_view().to_multiset() == names.deep_view().filter(
            |n: Seq<char>| is_codex_package(n),
        ).to_multiset(),
{
    let ghost pred = |n: Seq<char>| is_codex_package(n);
    let mut r: Vec<String> = Vec::new();
    let mut i: usize = 0;
    proof {
        assert(names.deep_view().take(0).filter(pred) =~= Seq::<Seq<char>>::empty());
        assert(r.deep_view() =~= Seq::<Seq<char>>::empty());
    }
    while i < names.len()
        invariant
            i <= names.len(),
            pred == (|n: Seq<char>| is_codex_package(n)),
            is_descending(r.deep_view()),
            r.deep_view().to_multiset() == names.deep_view().take(i as int).filter(pred).to_multiset(),
        decreases names.len() - i,
    {
        let name = &names[i];
        proof {
            let upto = names.deep_view().take(i + 1);
            assert(upto.drop_last() =~= names.deep_view().take(i as int));
            assert(upto.last() == name@);
            reveal(Seq::filter);
            assert(upto.filter(pred) == if is_codex_package(name@) {
                names.deep_view().take(i as int).filter(pred).push(name@)
            } else {
                names.deep_view().take(i as int).filter(pred)
            });
        }
        if has_prefix(name.as_str(), "OpenAI.Codex_") {
            let mut p: usize = 0;
            while p < r.len() && !text_less_exec(r[p].as_str(), name.as_str())
                invariant
                    p <= r.len(),
                    forall|q: int| 0 <= q < p ==> !text_less(r.deep_view()[q], name@),
                decreases r.len() - p,
            {
                p = p + 1;
            }
            let ghost before = r.deep_view();
            proof {
                if p < r.len() {
                    assert forall|q: int| p <= q < before.len() implies text_less(before[q], name@) by {
                        if q > p {
                            lemma_text_less_total_order(before[q], before[p as int], name@);
                            assert(!text_less(before[p as int], before[q]));
                        }
                    }
                }
            }
            r.insert(p, name.clone());
            proof {
                let after = r.deep_view();
                assert(after =~= before.insert(p as int, name@));
                assert forall|a: int, b: int| 0 <= a < b < after.len() implies !text_less(
                    #[trigger] after[a],
                    #[trigger] after[b],
                ) by {
                    if b < p {
                    } else if a < p && b == p {
                    } else if a == p {
                        lemma_text_less_total_order(before[b - 1], name@, name@);
                    } else if a < p {
                        assert(after[b] == before[b - 1]);
                    } else {
                        assert(after[a] == before[a - 1]);
                        assert(after[b] == before[b - 1]);
                    }
                }
                assert(after.to_multiset() == before.to_multiset().insert(name@));
            }
        }
        i = i + 1;
    }
    proof {
        assert(names.deep_view().take(names.len() as int) =~= names.deep_view());
    }
    r
}

} // verus!
