//! Safra-style termination detection for the worker threads.
//!
//! A token travels round the ring of workers `0, 1, .., n - 1, 0, ..`.  The
//! token is white (idle) or black (active).  A worker that holds the token
//! blackens it if it has done work since it last held it and hands it on.  The
//! control worker `0` whitens the token when it receives it black; when it
//! receives it white, every worker has been idle for a whole round and the run
//! is declared finished.
//!
//! The detector is a plain state machine: `check_termination` is one step of
//! it.  Callers that share it between threads keep it behind a lock, so each
//! step is atomic.

use vstd::prelude::*;
use vstd::arithmetic::div_mod::{
    lemma_fundamental_div_mod, lemma_fundamental_div_mod_converse, lemma_mod_pos_bound, lemma_small_mod,
};

verus! {

/// What a worker reports about itself when it checks for termination.
#[derive(Clone, Copy, PartialEq, Eq, Structural, Debug)]
pub enum TermState {
    Idle,
    Active,
}

/// The termination detector shared by the workers.
pub struct SafraTerminator {
    /// Colour of the token: `true` is black (some worker was active).
    token_state: bool,
    /// The worker that currently holds the token.
    token_holder: usize,
    /// Set once by the control worker when termination is detected.
    global_done: bool,
}

/// The abstract state of a detector.
#[derive(Clone, Copy, PartialEq, Eq, Structural, Debug)]
pub struct SafraView {
    pub token_active: bool,
    pub token_holder: usize,
    pub global_done: bool,
}

impl View for SafraTerminator {
    type V = SafraView;

    closed spec fn view(&self) -> SafraView {
        SafraView {
            token_active: self.token_state,
            token_holder: self.token_holder,
            global_done: self.global_done,
        }
    }
}

/// Whether worker `thread_id` hands the token on in this step.
pub open spec fn passes_token(s: SafraView, thread_id: usize) -> bool {
    &&& !s.global_done
    &&& s.token_holder == thread_id
    &&& !(thread_id == 0 && !s.token_active)
}

/// One step of the detector: the new state and whether termination is known.
pub open spec fn safra_step(
    s: SafraView,
    thread_id: usize,
    thread_state: TermState,
    thread_count: usize,
) -> (SafraView, bool) {
    if s.global_done {
        (s, true)
    } else if thread_id == 0 && s.token_holder == 0 && !s.token_active {
        (SafraView { token_active: s.token_active, token_holder: s.token_holder, global_done: true }, true)
    } else {
        // The control worker whitens a black token it holds.
        let whitened = if thread_id == 0 && s.token_holder == 0 { false } else { s.token_active };
        if s.token_holder == thread_id {
            let coloured = whitened || thread_state == TermState::Active;
            (
                SafraView {
                    token_active: coloured,
                    token_holder: ((thread_id + 1) % (thread_count as int)) as usize,
                    global_done: false,
                },
                false,
            )
        } else {
            (s, false)
        }
    }
}

impl SafraTerminator {
    /// A fresh detector: black token held by the control worker, not done.
    pub fn new() -> (t: Self)
        ensures
            t@ == (SafraView { token_active: true, token_holder: 0, global_done: false }),
    {
        SafraTerminator { token_state: true, token_holder: 0, global_done: false }
    }

    /// Whether termination has been detected.
    pub fn is_done(&self) -> (done: bool)
        ensures
            done == self@.global_done,
    {
        self.global_done
    }

    fn get_token_state(&self) -> (state: TermState)
        ensures
            state == (if self@.token_active { TermState::Active } else { TermState::Idle }),
    {
        if self.token_state {
            TermState::Active
        } else {
            TermState::Idle
        }
    }

    fn set_token_state(&mut self, state: TermState)
        ensures
            final(self)@ == (SafraView {
                token_active: state == TermState::Active,
                token_holder: old(self)@.token_holder,
                global_done: old(self)@.global_done,
            }),
    {
        match state {
            TermState::Idle => self.token_state = false,
            TermState::Active => self.token_state = true,
        }
    }

    /// One termination check by worker `thread_id` of `thread_count`.
    ///
    /// Returns `true` only once every worker has been idle for a whole round of
    /// the token and the control worker has declared the run finished;
    /// otherwise `false`, because some worker is still active.
    pub fn check_termination(
        &mut self,
        thread_id: usize,
        thread_state: TermState,
        thread_count: usize,
    ) -> (done: bool)
        requires
            passes_token(old(self)@, thread_id) ==> thread_count > 0 && thread_id < usize::MAX,
        ensures
            (final(self)@, done) == safra_step(old(self)@, thread_id, thread_state, thread_count),
    {
        if self.is_done() {
            return true;
        }
        // Control worker
        if thread_id == 0 && self.token_holder == 0 {
            match self.get_token_state() {
                TermState::Idle => {
                    self.global_done = true;
                    return true;
                },
                TermState::Active => {
                    self.set_token_state(TermState::Idle);
                },
            }
        }
        // Whoever holds the token
        if self.token_holder == thread_id {
            match thread_state {
                TermState::Idle => {},
                TermState::Active => {
                    self.set_token_state(TermState::Active);
                },
            }
            self.pass_token(thread_count, thread_id);
        }
        false
    }

    fn pass_token(&mut self, thread_count: usize, thread_id: usize)
        requires
            thread_count > 0,
            thread_id < usize::MAX,
        ensures
            final(self)@ == (SafraView {
                token_active: old(self)@.token_active,
                token_holder: ((thread_id + 1) % (thread_count as int)) as usize,
                global_done: old(self)@.global_done,
            }),
    {
        self.token_holder = (thread_id + 1) % thread_count;
    }
}


/// The calls `0, 1, .., n - 1` of one round of the token, worker `i` reporting
/// `Active` exactly when `actives[i]` holds.
pub open spec fn ring_round(actives: Seq<bool>) -> Seq<(usize, TermState)> {
    Seq::new(
        actives.len(),
        |i: int| (i as usize, if actives[i] { TermState::Active } else { TermState::Idle }),
    )
}

/// The state after a sequence of termination checks.
pub open spec fn run_checks(
    s: SafraView,
    calls: Seq<(usize, TermState)>,
    thread_count: usize,
) -> SafraView
    decreases calls.len(),
{
    if calls.len() == 0 {
        s
    } else {
        let before = run_checks(s, calls.drop_last(), thread_count);
        safra_step(before, calls.last().0, calls.last().1, thread_count).0
    }
}

/// Whether some worker among the first `k` reported itself active.
pub open spec fn some_active(actives: Seq<bool>, k: int) -> bool {
    exists|j: int| 0 <= j < k && #[trigger] actives[j]
}

/// Once termination is detected it stays detected: every later check returns
/// `true` and changes nothing.
pub proof fn lemma_done_is_final(
    s: SafraView,
    thread_id: usize,
    thread_state: TermState,
    thread_count: usize,
)
    requires
        s.global_done,
    ensures
        safra_step(s, thread_id, thread_state, thread_count) == (s, true),
{
}

/// A check reports termination exactly when the detector is done after it.
pub proof fn lemma_result_is_done(
    s: SafraView,
    thread_id: usize,
    thread_state: TermState,
    thread_count: usize,
)
    ensures
        safra_step(s, thread_id, thread_state, thread_count).1 == safra_step(
            s,
            thread_id,
            thread_state,
            thread_count,
        ).0.global_done,
{
}

/// Only the control worker, holding a white token, declares termination.
pub proof fn lemma_only_control_declares(
    s: SafraView,
    thread_id: usize,
    thread_state: TermState,
    thread_count: usize,
)
    requires
        !s.global_done,
        safra_step(s, thread_id, thread_state, thread_count).1,
    ensures
        thread_id == 0,
        s.token_holder == 0,
        !s.token_active,
{
}

/// A worker that does not hold the token changes nothing.
pub proof fn lemma_non_holder_changes_nothing(
    s: SafraView,
    thread_id: usize,
    thread_state: TermState,
    thread_count: usize,
)
    requires
        s.token_holder != thread_id,
    ensures
        safra_step(s, thread_id, thread_state, thread_count) == (s, s.global_done),
{
}

/// An active worker that hands the token on hands it on black.
pub proof fn lemma_active_holder_blackens(
    s: SafraView,
    thread_id: usize,
    thread_count: usize,
)
    requires
        passes_token(s, thread_id),
    ensures
        safra_step(s, thread_id, TermState::Active, thread_count).0.token_active,
{
}

/// The token never leaves the ring of workers `0 .. thread_count`.
pub proof fn lemma_holder_stays_in_ring(
    s: SafraView,
    thread_id: usize,
    thread_state: TermState,
    thread_count: usize,
)
    requires
        0 < thread_count,
        s.token_holder < thread_count,
        thread_id < usize::MAX,
    ensures
        safra_step(s, thread_id, thread_state, thread_count).0.token_holder < thread_count,
{
}

proof fn lemma_round_prefix(s: SafraView, actives: Seq<bool>, thread_count: usize, k: int)
    requires
        thread_count > 0,
        actives.len() == thread_count,
        !s.global_done,
        s.token_holder == 0,
        s.token_active,
        1 <= k <= thread_count,
    ensures
        run_checks(s, ring_round(actives).take(k), thread_count) == (SafraView {
            token_active: some_active(actives, k),
            token_holder: (k % (thread_count as int)) as usize,
            global_done: false,
        }),
    decreases k,
{
    let calls = ring_round(actives).take(k);
    let n = thread_count as int;
    assert(calls.drop_last() =~= ring_round(actives).take(k - 1));
    assert(calls.last() == ((k - 1) as usize, if actives[k - 1] { TermState::Active } else { TermState::Idle }));
    if k < n {
        lemma_small_mod(k as nat, n as nat);
    } else {
        assert(k % n == 0) by (nonlinear_arith) requires k == n, n > 0;
    }
    if k == 1 {
        assert(calls.drop_last() =~= Seq::<(usize, TermState)>::empty());
        assert(run_checks(s, calls.drop_last(), thread_count) == s);
        assert(some_active(actives, 1) == actives[0]) by {
            if actives[0] {
                assert(actives[0]);
            }
        }
    } else {
        lemma_round_prefix(s, actives, thread_count, k - 1);
        assert(run_checks(s, calls.drop_last(), thread_count) == run_checks(s, ring_round(actives).take(k - 1), thread_count));
        lemma_small_mod((k - 1) as nat, n as nat);
        assert(some_active(actives, k) == (some_active(actives, k - 1) || actives[k - 1])) by {
            if actives[k - 1] {
                assert(actives[k - 1]);
            }
            if some_active(actives, k - 1) {
                let j = choose|j: int| 0 <= j < k - 1 && #[trigger] actives[j];
                assert(actives[j]);
            }
        }
    }
}

/// The heart of the detector.  Start from a black token held by the control
/// worker.  After one round in which each worker `i` checks once, reporting
/// `actives[i]`, the token is back with the control worker, and the control
/// worker's next check declares termination exactly when no worker reported
/// itself active during the round.
pub proof fn lemma_round_decides(
    s: SafraView,
    actives: Seq<bool>,
    thread_count: usize,
    control_state: TermState,
)
    requires
        thread_count > 0,
        actives.len() == thread_count,
        !s.global_done,
        s.token_holder == 0,
        s.token_active,
    ensures
        run_checks(s, ring_round(actives), thread_count).token_holder == 0,
        !run_checks(s, ring_round(actives), thread_count).global_done,
        safra_step(run_checks(s, ring_round(actives), thread_count), 0, control_state, thread_count).1
            == !(exists|i: int| 0 <= i < actives.len() && #[trigger] actives[i]),
{
    lemma_round_prefix(s, actives, thread_count, thread_count as int);
    assert(ring_round(actives).take(thread_count as int) =~= ring_round(actives));
}

/// A control worker that finds a white token in its hand declares termination
/// at once.
pub proof fn lemma_white_token_at_control_declares(
    s: SafraView,
    thread_state: TermState,
    thread_count: usize,
)
    requires
        s.token_holder == 0,
        !s.token_active,
    ensures
        safra_step(s, 0, thread_state, thread_count).1,
        safra_step(s, 0, thread_state, thread_count).0.global_done,
{
}


/// The state of a fresh detector.
pub open spec fn fresh_view() -> SafraView {
    SafraView { token_active: true, token_holder: 0, global_done: false }
}

/// Whether every check of a run is made by one of the workers `0 .. thread_count`.
pub open spec fn calls_in_ring(calls: Seq<(usize, TermState)>, thread_count: usize) -> bool {
    forall|k: int| 0 <= k < calls.len() ==> (#[trigger] calls[k]).0 < thread_count
}

/// What the `k`-th check of a run returns.
pub open spec fn check_result(
    s: SafraView,
    calls: Seq<(usize, TermState)>,
    thread_count: usize,
    k: int,
) -> bool {
    safra_step(run_checks(s, calls.take(k), thread_count), calls[k].0, calls[k].1, thread_count).1
}

/// The checks of a run in which the token was handed on, in order, each with
/// the worker that held it and the state that worker reported.
pub open spec fn pass_log(
    s: SafraView,
    calls: Seq<(usize, TermState)>,
    thread_count: usize,
) -> Seq<(usize, TermState)>
    decreases calls.len(),
{
    if calls.len() == 0 {
        Seq::empty()
    } else {
        let before = pass_log(s, calls.drop_last(), thread_count);
        if passes_token(run_checks(s, calls.drop_last(), thread_count), calls.last().0) {
            before.push(calls.last())
        } else {
            before
        }
    }
}

/// In a log of `l` passes round a ring of `n` workers, the position of the
/// current round's first pass (the control worker's).
pub open spec fn round_start(l: int, n: int) -> int {
    l - 1 - (l - 1) % n
}

/// The colour the log gives the token: black before the first pass, and after
/// it black exactly when some pass of the current round reported work.
pub open spec fn round_active(log: Seq<(usize, TermState)>, n: int) -> bool {
    log.len() == 0 || exists|j: int|
        round_start(log.len() as int, n) <= j < log.len() && (#[trigger] log[j]).1 == TermState::Active
}

proof fn lemma_ring_arith(l: int, n: int)
    requires
        n > 0,
        l >= 0,
    ensures
        0 <= l % n < n,
        l % n <= l,
        ((l % n) + 1) % n == (l + 1) % n,
        l % n != 0 ==> l >= 1 && (l - 1) % n == l % n - 1,
        l % n == 0 && l >= 1 ==> l >= n && (l - 1) % n == n - 1,
{
    lemma_mod_pos_bound(l, n);
    lemma_fundamental_div_mod(l, n);
    let q = l / n;
    let r = l % n;
    assert(l == q * n + r) by (nonlinear_arith)
        requires
            l == n * q + r,
    ;
    assert(r <= l) by (nonlinear_arith)
        requires
            l == q * n + r,
            0 <= r < n,
            l >= 0,
    ;
    if r + 1 < n {
        lemma_small_mod((r + 1) as nat, n as nat);
        lemma_fundamental_div_mod_converse(l + 1, n, q, r + 1);
    } else {
        lemma_fundamental_div_mod_converse(r + 1, n, 1, 0);
        assert(l + 1 == (q + 1) * n + 0) by (nonlinear_arith)
            requires
                l == q * n + r,
                r + 1 == n,
        ;
        lemma_fundamental_div_mod_converse(l + 1, n, q + 1, 0);
    }
    if r != 0 {
        lemma_fundamental_div_mod_converse(l - 1, n, q, r - 1);
    }
    if r == 0 && l >= 1 {
        assert(q >= 1) by (nonlinear_arith)
            requires
                l == q * n,
                l >= 1,
                n > 0,
        ;
        assert(l >= n) by (nonlinear_arith)
            requires
                l == q * n,
                q >= 1,
                n > 0,
        ;
        assert(l - 1 == (q - 1) * n + (n - 1)) by (nonlinear_arith)
            requires
                l == q * n,
        ;
        lemma_fundamental_div_mod_converse(l - 1, n, q - 1, n - 1);
    }
}

/// What a run from a fresh detector keeps, whatever the order of the checks:
/// the token is handed round the ring in order (the `j`-th pass is by worker
/// `j mod n`), it is held by the worker after the last passer, and its colour
/// is that of the current round of passes.
pub proof fn lemma_token_goes_round_the_ring(calls: Seq<(usize, TermState)>, thread_count: usize)
    requires
        thread_count > 0,
        calls_in_ring(calls, thread_count),
    ensures
        forall|j: int|
            0 <= j < pass_log(fresh_view(), calls, thread_count).len() ==> (#[trigger] pass_log(
                fresh_view(),
                calls,
                thread_count,
            )[j]).0 == j % (thread_count as int),
        run_checks(fresh_view(), calls, thread_count).token_holder == pass_log(
            fresh_view(),
            calls,
            thread_count,
        ).len() as int % (thread_count as int),
        run_checks(fresh_view(), calls, thread_count).token_holder < thread_count,
        run_checks(fresh_view(), calls, thread_count).token_active == round_active(
            pass_log(fresh_view(), calls, thread_count),
            thread_count as int,
        ),
    decreases calls.len(),
{
    let n = thread_count as int;
    let init = fresh_view();
    if calls.len() == 0 {
        assert(pass_log(init, calls, thread_count).len() == 0);
        lemma_small_mod(0, thread_count as nat);
    } else {
        let prev = calls.drop_last();
        assert(calls_in_ring(prev, thread_count)) by {
            assert forall|k: int| 0 <= k < prev.len() implies (#[trigger] prev[k]).0 < thread_count by {
                assert(prev[k] == calls[k]);
            }
        }
        lemma_token_goes_round_the_ring(prev, thread_count);
        let u = run_checks(init, prev, thread_count);
        let log0 = pass_log(init, prev, thread_count);
        let log = pass_log(init, calls, thread_count);
        let c = calls.last();
        let l = log0.len() as int;
        assert(c == calls[calls.len() - 1]);
        lemma_ring_arith(l, n);
        if passes_token(u, c.0) {
            assert(log == log0.push(c));
            assert(c.0 as int == l % n);
            let t = run_checks(init, calls, thread_count);
            assert(t.token_holder == (l + 1) % n);
            lemma_ring_arith(l + 1, n);
            assert forall|j: int| 0 <= j < log.len() implies (#[trigger] log[j]).0 == j % n by {
                if j < l {
                    assert(log[j] == log0[j]);
                }
            }
            assert(round_start(l + 1, n) == l - l % n);
            if l % n == 0 {
                assert(t.token_active == (c.1 == TermState::Active));
                if c.1 == TermState::Active {
                    assert(log[l].1 == TermState::Active);
                }
                assert(t.token_active == round_active(log, n));
            } else {
                assert(round_start(l, n) == l - l % n);
                assert(t.token_active == (u.token_active || c.1 == TermState::Active));
                if u.token_active {
                    let j = choose|j: int|
                        round_start(l, n) <= j < l && (#[trigger] log0[j]).1 == TermState::Active;
                    assert(log[j] == log0[j]);
                }
                if c.1 == TermState::Active {
                    assert(log[l].1 == TermState::Active);
                }
                if t.token_active == false {
                    assert forall|j: int| round_start(l + 1, n) <= j < log.len() implies (#[trigger] log[j]).1
                        != TermState::Active by {
                        if j < l {
                            assert(log[j] == log0[j]);
                        }
                    }
                }
                assert(t.token_active == round_active(log, n));
            }
        } else {
            assert(log == log0);
        }
    }
}

/// A run's detector is done exactly when it started done or one of its checks
/// returned `true`.
pub proof fn lemma_done_records_a_declaration(
    s: SafraView,
    calls: Seq<(usize, TermState)>,
    thread_count: usize,
)
    ensures
        run_checks(s, calls, thread_count).global_done == (s.global_done || exists|k: int|
            0 <= k < calls.len() && #[trigger] check_result(s, calls, thread_count, k)),
    decreases calls.len(),
{
    if calls.len() > 0 {
        let prev = calls.drop_last();
        let last = calls.len() - 1;
        lemma_done_records_a_declaration(s, prev, thread_count);
        assert(calls.take(last) =~= prev);
        assert forall|k: int| 0 <= k < last implies check_result(s, calls, thread_count, k)
            == check_result(s, prev, thread_count, k) by {
            assert(calls.take(k) =~= prev.take(k));
            assert(calls[k] == prev[k]);
        }
        let before = run_checks(s, prev, thread_count);
        lemma_result_is_done(before, calls.last().0, calls.last().1, thread_count);
        assert(check_result(s, calls, thread_count, last) == run_checks(s, calls, thread_count).global_done);
        if before.global_done {
            lemma_done_is_final(before, calls.last().0, calls.last().1, thread_count);
        }
        if exists|k: int| 0 <= k < last && #[trigger] check_result(s, prev, thread_count, k) {
            let k = choose|k: int| 0 <= k < last && #[trigger] check_result(s, prev, thread_count, k);
            assert(check_result(s, calls, thread_count, k));
        }
    } else {
        assert(run_checks(s, calls, thread_count) == s);
    }
}

/// Safety of the detector over any interleaving of checks.  The check that
/// first returns `true` is the control worker's, and the last `n` hand-overs
/// of the token before it were by workers `0, 1, .., n - 1` in turn, each
/// reporting itself idle: a whole round of the ring passed with no work.
pub proof fn lemma_declaration_follows_an_idle_round(
    calls: Seq<(usize, TermState)>,
    thread_count: usize,
    f: int,
)
    requires
        thread_count > 0,
        calls_in_ring(calls, thread_count),
        0 <= f < calls.len(),
        !run_checks(fresh_view(), calls.take(f), thread_count).global_done,
        check_result(fresh_view(), calls, thread_count, f),
    ensures
        calls[f].0 == 0,
        pass_log(fresh_view(), calls.take(f), thread_count).len() >= thread_count,
        pass_log(fresh_view(), calls.take(f), thread_count).len() as int % (thread_count as int) == 0,
        forall|j: int|
            pass_log(fresh_view(), calls.take(f), thread_count).len() - thread_count <= j < pass_log(
                fresh_view(),
                calls.take(f),
                thread_count,
            ).len() ==> #[trigger] pass_log(fresh_view(), calls.take(f), thread_count)[j] == (
                (j - (pass_log(fresh_view(), calls.take(f), thread_count).len() - thread_count)) as usize,
                TermState::Idle,
            ),
{
    let n = thread_count as int;
    let prefix = calls.take(f);
    assert(calls_in_ring(prefix, thread_count)) by {
        assert forall|k: int| 0 <= k < prefix.len() implies (#[trigger] prefix[k]).0 < thread_count by {
            assert(prefix[k] == calls[k]);
        }
    }
    lemma_token_goes_round_the_ring(prefix, thread_count);
    let u = run_checks(fresh_view(), prefix, thread_count);
    lemma_only_control_declares(u, calls[f].0, calls[f].1, thread_count);
    let log = pass_log(fresh_view(), prefix, thread_count);
    let l = log.len() as int;
    lemma_ring_arith(l, n);
    assert(l != 0);
    assert(round_start(l, n) == l - n);
    lemma_fundamental_div_mod(l, n);
    let q = l / n;
    assert(l == q * n) by (nonlinear_arith)
        requires
            l == n * q + 0,
    ;
    assert forall|j: int| l - n <= j < l implies #[trigger] log[j] == ((j - (l - n)) as usize, TermState::Idle) by {
        assert(j == (q - 1) * n + (j - (l - n))) by (nonlinear_arith)
            requires
                l == q * n,
        ;
        lemma_fundamental_div_mod_converse(j, n, q - 1, j - (l - n));
        assert(log[j].0 == j % n);
        if log[j].1 == TermState::Active {
            assert(round_start(l, n) <= j < l && log[j].1 == TermState::Active);
        }
    }
}

/// Checks in ring order `0, 1, .., n - 1, 0, 1, ..`, each by an idle worker.
pub open spec fn idle_rounds(thread_count: usize, len: nat) -> Seq<(usize, TermState)> {
    Seq::new(len, |i: int| ((i % (thread_count as int)) as usize, TermState::Idle))
}

proof fn lemma_done_stays_done(s: SafraView, calls: Seq<(usize, TermState)>, thread_count: usize, a: int, b: int)
    requires
        0 <= a <= b <= calls.len(),
        run_checks(s, calls.take(a), thread_count).global_done,
    ensures
        run_checks(s, calls.take(b), thread_count).global_done,
    decreases b - a,
{
    if a < b {
        lemma_done_stays_done(s, calls, thread_count, a, b - 1);
        assert(calls.take(b).drop_last() =~= calls.take(b - 1));
        let before = run_checks(s, calls.take(b - 1), thread_count);
        lemma_done_is_final(before, calls.take(b).last().0, calls.take(b).last().1, thread_count);
    }
}

proof fn lemma_idle_rounds_prefix(s: SafraView, thread_count: usize, m: nat, k: int)
    requires
        thread_count > 0,
        s.token_holder < thread_count,
        !s.global_done,
        0 <= k <= m,
        k <= 2 * thread_count + 1,
    ensures
        ({
            let t = run_checks(s, idle_rounds(thread_count, m).take(k), thread_count);
            let h = s.token_holder as int;
            let n = thread_count as int;
            t.global_done || {
                &&& t.token_holder == (if k <= h {
                    h
                } else {
                    k % n
                })
                &&& k > n ==> !t.token_active
                &&& h == 0 && k >= 1 ==> !t.token_active
            }
        }),
    decreases k,
{
    let c = idle_rounds(thread_count, m);
    let n = thread_count as int;
    let h = s.token_holder as int;
    if k == 0 {
        assert(c.take(0) =~= Seq::<(usize, TermState)>::empty());
    } else {
        lemma_idle_rounds_prefix(s, thread_count, m, k - 1);
        assert(c.take(k).drop_last() =~= c.take(k - 1));
        assert(c.take(k).last() == c[k - 1]);
        let u = run_checks(s, c.take(k - 1), thread_count);
        let tid = (k - 1) % n;
        lemma_ring_arith(k - 1, n);
        assert(c[k - 1] == (tid as usize, TermState::Idle));
        if u.global_done {
            lemma_done_is_final(u, tid as usize, TermState::Idle, thread_count);
        } else if k - 1 < h {
            lemma_small_mod((k - 1) as nat, n as nat);
            lemma_non_holder_changes_nothing(u, tid as usize, TermState::Idle, thread_count);
        } else {
            if k - 1 == h {
                lemma_small_mod(h as nat, n as nat);
            }
            assert(u.token_holder == tid);
            if k - 1 == n {
                lemma_fundamental_div_mod_converse(n, n, 1, 0);
            }
            if k - 1 == 0 {
                lemma_small_mod(0, n as nat);
            }
        }
    }
}

/// Liveness of the detector.  From any state whose token is in the ring,
/// once the workers check in ring order `0, 1, .., n - 1, 0, ..` and all are
/// idle, the `2n + 1`-th check and every check after it return `true`.
pub proof fn lemma_idle_rounds_terminate(s: SafraView, thread_count: usize, m: nat)
    requires
        thread_count > 0,
        s.token_holder < thread_count,
        m >= 2 * thread_count + 1,
    ensures
        forall|k: int|
            2 * thread_count <= k < m ==> #[trigger] check_result(
                s,
                idle_rounds(thread_count, m),
                thread_count,
                k,
            ),
{
    let c = idle_rounds(thread_count, m);
    let n = thread_count as int;
    let last = 2 * n + 1;
    if s.global_done {
        assert(c.take(0) =~= Seq::<(usize, TermState)>::empty());
        lemma_done_stays_done(s, c, thread_count, 0, last);
    } else {
        lemma_idle_rounds_prefix(s, thread_count, m, 2 * n);
        let u = run_checks(s, c.take(2 * n), thread_count);
        lemma_ring_arith(2 * n, n);
        lemma_fundamental_div_mod_converse(2 * n, n, 2, 0);
        assert(c.take(last).drop_last() =~= c.take(2 * n));
        assert(c.take(last).last() == c[2 * n]);
        assert(c[2 * n] == (0usize, TermState::Idle));
        if !u.global_done {
            lemma_white_token_at_control_declares(u, TermState::Idle, thread_count);
        } else {
            lemma_done_is_final(u, 0, TermState::Idle, thread_count);
        }
    }
    assert(run_checks(s, c.take(last), thread_count).global_done);
    assert forall|k: int| 2 * n <= k < m implies #[trigger] check_result(s, c, thread_count, k) by {
        let t = run_checks(s, c.take(k), thread_count);
        if k == 2 * n {
            assert(c.take(last).drop_last() =~= c.take(k));
            assert(c.take(last).last() == c[k]);
            lemma_result_is_done(t, c[k].0, c[k].1, thread_count);
        } else {
            lemma_done_stays_done(s, c, thread_count, last, k);
            lemma_done_is_final(t, c[k].0, c[k].1, thread_count);
        }
    }
}

/// Where a worker found its next directory, if anywhere.
#[derive(Clone, Copy, PartialEq, Eq, Structural, Debug)]
pub enum WorkSource {
    /// Its own queue.
    OwnQueue,
    /// Another worker's queue.
    Stolen,
    /// Every queue was empty.
    Nothing,
}

/// What a worker does next.
#[derive(Clone, Copy, PartialEq, Eq, Structural, Debug)]
pub enum WorkerAction {
    /// Scan the directory it found.
    Scan,
    /// Look for work again.
    Retry,
    /// Stop: termination is detected.
    Stop,
}

/// One scheduling step of a worker: the action, the worker's new state, and
/// the detector's new state.
pub open spec fn worker_step_spec(
    s: SafraView,
    thread_index: usize,
    thread_count: usize,
    local_state: TermState,
    found: WorkSource,
) -> (WorkerAction, TermState, SafraView) {
    if found != WorkSource::Nothing {
        (WorkerAction::Scan, TermState::Active, s)
    } else {
        let (next, done) = safra_step(s, thread_index, local_state, thread_count);
        if done {
            (WorkerAction::Stop, local_state, next)
        } else {
            (WorkerAction::Retry, TermState::Idle, next)
        }
    }
}

/// The scheduling decision of worker `thread_index` after it looked for work.
/// A worker that found a directory becomes active and scans it.  A worker that
/// found nothing checks for termination, reporting whether it was active since
/// its last check; it stops if termination is detected and otherwise becomes
/// idle and looks again.
pub fn worker_step(
    term: &mut SafraTerminator,
    thread_index: usize,
    thread_count: usize,
    local_state: TermState,
    found: WorkSource,
) -> (step: (WorkerAction, TermState))
    requires
        found == WorkSource::Nothing && passes_token(old(term)@, thread_index) ==> thread_count > 0
            && thread_index < usize::MAX,
    ensures
        (step.0, step.1, final(term)@) == worker_step_spec(
            old(term)@,
            thread_index,
            thread_count,
            local_state,
            found,
        ),
{
    match found {
        WorkSource::OwnQueue | WorkSource::Stolen => (WorkerAction::Scan, TermState::Active),
        WorkSource::Nothing => {
            if term.check_termination(thread_index, local_state, thread_count) {
                (WorkerAction::Stop, local_state)
            } else {
                (WorkerAction::Retry, TermState::Idle)
            }
        },
    }
}

/// A worker stops only once termination is detected, never while it has
/// found work, and finding work leaves the detector untouched.
pub proof fn lemma_workers_stop_only_when_done(
    s: SafraView,
    thread_index: usize,
    thread_count: usize,
    local_state: TermState,
    found: WorkSource,
)
    ensures
        worker_step_spec(s, thread_index, thread_count, local_state, found).0 == WorkerAction::Stop
            ==> found == WorkSource::Nothing && worker_step_spec(
            s,
            thread_index,
            thread_count,
            local_state,
            found,
        ).2.global_done,
        found != WorkSource::Nothing ==> worker_step_spec(
            s,
            thread_index,
            thread_count,
            local_state,
            found,
        ).2 == s,
{
}

/// The worker's own state and the detector after a run of scheduling steps,
/// the worker starting from `local`.
pub open spec fn worker_run(
    s: SafraView,
    thread_index: usize,
    thread_count: usize,
    local: TermState,
    found: Seq<WorkSource>,
) -> (TermState, SafraView)
    decreases found.len(),
{
    if found.len() == 0 {
        (local, s)
    } else {
        let before = worker_run(s, thread_index, thread_count, local, found.drop_last());
        let step = worker_step_spec(before.1, thread_index, thread_count, before.0, found.last());
        (step.1, step.2)
    }
}

/// Whether the worker stopped at one of its first `k` steps.
pub open spec fn worker_stopped_within(
    s: SafraView,
    thread_index: usize,
    thread_count: usize,
    found: Seq<WorkSource>,
    k: int,
) -> bool {
    exists|j: int|
        0 <= j < k && #[trigger] worker_step_spec(
            worker_run(s, thread_index, thread_count, TermState::Idle, found.take(j)).1,
            thread_index,
            thread_count,
            worker_run(s, thread_index, thread_count, TermState::Idle, found.take(j)).0,
            found[j],
        ).0 == WorkerAction::Stop
}

/// A worker that starts idle and has not stopped reports, in each check, that
/// it was active exactly when it took a directory since its previous check
/// (or since it started): the step just before found work.
pub proof fn lemma_worker_reports_work_since_last_check(
    s: SafraView,
    thread_index: usize,
    thread_count: usize,
    found: Seq<WorkSource>,
    k: int,
)
    requires
        0 <= k <= found.len(),
        !worker_stopped_within(s, thread_index, thread_count, found, k),
    ensures
        worker_run(s, thread_index, thread_count, TermState::Idle, found.take(k)).0 == (if k > 0
            && found[k - 1] != WorkSource::Nothing {
            TermState::Active
        } else {
            TermState::Idle
        }),
    decreases k,
{
    if k == 0 {
        assert(found.take(0) =~= Seq::<WorkSource>::empty());
    } else {
        assert(!worker_stopped_within(s, thread_index, thread_count, found, k - 1)) by {
            if worker_stopped_within(s, thread_index, thread_count, found, k - 1) {
                let j = choose|j: int|
                    0 <= j < k - 1 && #[trigger] worker_step_spec(
                        worker_run(s, thread_index, thread_count, TermState::Idle, found.take(j)).1,
                        thread_index,
                        thread_count,
                        worker_run(s, thread_index, thread_count, TermState::Idle, found.take(j)).0,
                        found[j],
                    ).0 == WorkerAction::Stop;
                assert(0 <= j < k);
            }
        }
        lemma_worker_reports_work_since_last_check(s, thread_index, thread_count, found, k - 1);
        assert(found.take(k).drop_last() =~= found.take(k - 1));
        assert(found.take(k).last() == found[k - 1]);
        let before = worker_run(s, thread_index, thread_count, TermState::Idle, found.take(k - 1));
        if worker_step_spec(before.1, thread_index, thread_count, before.0, found[k - 1]).0
            == WorkerAction::Stop {
            assert(worker_stopped_within(s, thread_index, thread_count, found, k));
        }
    }
}

} // verus!
