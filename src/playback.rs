use vstd::prelude::*;

verus! {

/// One step of playback, to be carried out in order by whoever owns the
/// terminal.
#[derive(Debug, Clone, Copy, PartialEq, Eq, Structural)]
pub enum Action {
    /// Clear the screen: the escape character, then `[2J`.
    Clear,
    /// Print the frame at this index.
    Show(usize),
    /// Pause for this many microseconds.
    Sleep(u64),
}

/// The text that clears a terminal: the escape character, then `[2J`.
pub fn clear_sequence() -> (s: &'static str)
    ensures
        s@ == seq!['\x1b', '[', '2', 'J'],
{
    proof {
        reveal_strlit("\x1b[2J");
    }
    "\x1b[2J"
}

/// Microseconds per frame at a frame rate, rounded down.
pub open spec fn delay_of(frame_rate: u32) -> u64 {
    (1_000_000int / (frame_rate as int)) as u64
}

/// The pause after each frame: one second divided by the frame rate, in
/// whole microseconds.
pub fn frame_delay(frame_rate: u32) -> (d: u64)
    requires
        frame_rate > 0,
    ensures
        d == delay_of(frame_rate),
{
    1_000_000u64 / frame_rate as u64
}

/// Playback of `n` frames: one clear to start, then for each frame in order
/// its display, a pause of `delay`, and a clear.
pub open spec fn plan(n: nat, delay: u64) -> Seq<Action>
    decreases n,
{
    if n == 0 {
        seq![Action::Clear]
    } else {
        plan((n - 1) as nat, delay) + seq![
            Action::Show((n - 1) as usize),
            Action::Sleep(delay),
            Action::Clear,
        ]
    }
}

/// The steps that play `frame_count` frames at `frame_rate` frames per
/// second. No frame is skipped or repeated.
pub fn playback_plan(frame_count: usize, frame_rate: u32) -> (r: Vec<Action>)
    requires
        frame_rate > 0,
    ensures
        r@ == plan(frame_count as nat, delay_of(frame_rate)),
{
    let delay = frame_delay(frame_rate);
    let mut steps: Vec<Action> = Vec::new();
    steps.push(Action::Clear);
    let mut i: usize = 0;
    while i < frame_count
        invariant
            i <= frame_count,
            delay == delay_of(frame_rate),
            steps@ == plan(i as nat, delay),
        decreases frame_count - i,
    {
        steps.push(Action::Show(i));
        steps.push(Action::Sleep(delay));
        steps.push(Action::Clear);
        assert(steps@ =~= plan((i + 1) as nat, delay));
        i = i + 1;
    }
    steps
}

/// How many clears a sequence of steps holds.
pub open spec fn clear_count(steps: Seq<Action>) -> nat
    decreases steps.len(),
{
    if steps.len() == 0 {
        0
    } else {
        clear_count(steps.drop_last()) + if steps.last() is Clear {
            1nat
        } else {
            0nat
        }
    }
}

/// The microseconds that a sequence of steps pauses in all.
pub open spec fn sleep_total(steps: Seq<Action>) -> nat
    decreases steps.len(),
{
    if steps.len() == 0 {
        0
    } else {
        sleep_total(steps.drop_last()) + match steps.last() {
            Action::Sleep(d) => d as nat,
            _ => 0nat,
        }
    }
}

proof fn lemma_totals_append(a: Seq<Action>, b: Seq<Action>)
    ensures
        clear_count(a + b) == clear_count(a) + clear_count(b),
        sleep_total(a + b) == sleep_total(a) + sleep_total(b),
    decreases b.len(),
{
    if b.len() > 0 {
        lemma_totals_append(a, b.drop_last());
        assert((a + b).drop_last() =~= a + b.drop_last());
    }
}

/// The position of frame `i`'s display among the steps of playback.
pub open spec fn show_step(i: int) -> int {
    3 * i + 1
}

/// Playing `n` frames clears the screen `n + 1` times, once before the first
/// frame and once after each, pauses `n` times `delay` in all, and shows
/// frame `i` as the `3 * i + 1`-th step.
pub proof fn lemma_plan_totals(n: nat, delay: u64)
    ensures
        plan(n, delay).len() == 3 * n + 1,
        clear_count(plan(n, delay)) == n + 1,
        sleep_total(plan(n, delay)) == n * delay,
        forall|i: int|
            0 <= i < n ==> #[trigger] plan(n, delay)[show_step(i)] == Action::Show(i as usize),
    decreases n,
{
    if n == 0 {
        let one = seq![Action::Clear];
        assert(one.drop_last() =~= Seq::<Action>::empty());
        assert(clear_count(Seq::<Action>::empty()) == 0);
        assert(sleep_total(Seq::<Action>::empty()) == 0);
        assert(clear_count(one) == 1);
        assert(sleep_total(one) == 0);
    } else {
        let m = (n - 1) as nat;
        lemma_plan_totals(m, delay);
        let tail = seq![Action::Show(m as usize), Action::Sleep(delay), Action::Clear];
        lemma_totals_append(plan(m, delay), tail);
        let t1 = seq![Action::Show(m as usize)];
        let t2 = seq![Action::Show(m as usize), Action::Sleep(delay)];
        assert(t1.drop_last() =~= Seq::<Action>::empty());
        assert(t2.drop_last() =~= t1);
        assert(tail.drop_last() =~= t2);
        assert(clear_count(Seq::<Action>::empty()) == 0);
        assert(sleep_total(Seq::<Action>::empty()) == 0);
        assert(clear_count(t1) == 0 && sleep_total(t1) == 0);
        assert(clear_count(t2) == 0 && sleep_total(t2) == delay);
        assert(clear_count(tail) == 1);
        assert(sleep_total(tail) == delay);
        assert forall|i: int| 0 <= i < n implies #[trigger] plan(n, delay)[show_step(i)]
            == Action::Show(i as usize) by {
            if i < m {
                assert(plan(m, delay)[show_step(i)] == Action::Show(i as usize));
            }
        }
        assert(n * delay == m * delay + delay) by (nonlinear_arith)
            requires
                m == n - 1,
        ;
    }
}

} // verus!
