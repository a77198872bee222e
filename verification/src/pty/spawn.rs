use vstd::prelude::*;

use crate::text::{chars_of, joined, string_between};

verus! {

/// The shell used where the environment names none.
pub fn default_shell() -> (shell: &'static str)
    ensures
        shell@ == "/bin/zsh"@,
{
    "/bin/zsh"
}

/// The part of a path after its last slash; all of it where there is none.
pub open spec fn base_name(path: Seq<char>) -> Seq<char>
    decreases path.len(),
{
    if path.len() == 0 || path.last() == '/' {
        Seq::empty()
    } else {
        base_name(path.drop_last()).push(path.last())
    }
}

/// The part of a path after its last slash.
pub fn file_name(path: &str) -> (name: String)
    ensures
        name@ == base_name(path@),
{
    let chars = chars_of(path);
    let mut from: usize = chars.len();
    assert(chars@.take(from as int) =~= chars@);
    while from > 0 && chars[from - 1] != '/'
        invariant
            from <= chars@.len(),
            chars@ == path@,
            base_name(chars@) =~= base_name(chars@.take(from as int)) + chars@.subrange(
                from as int,
                chars@.len() as int,
            ),
        decreases from,
    {
        from = from - 1;
        proof {
            let upto = chars@.take(from + 1);
            assert(upto.drop_last() =~= chars@.take(from as int));
            assert(upto.last() == chars@[from as int]);
            assert(base_name(upto) == base_name(chars@.take(from as int)).push(
                chars@[from as int],
            ));
            assert(chars@.subrange(from as int, chars@.len() as int) =~= seq![chars@[from as int]]
                + chars@.subrange(from + 1, chars@.len() as int));
        }
    }
    assert(base_name(chars@.take(from as int)) =~= Seq::empty());
    string_between(&chars, from, chars.len())
}

/// The name under which a shell is started as a login shell: a dash and its base name.
pub fn login_name(shell: &str) -> (name: String)
    ensures
        name@ == "-"@ + base_name(shell@),
{
    joined("-", file_name(shell).as_str())
}

/// The size of a pseudo-terminal.
#[derive(Debug, Clone, Copy, PartialEq, Eq, Structural)]
pub struct PtySize {
    pub cols: u16,
    pub rows: u16,
    pub pixel_width: u16,
    pub pixel_height: u16,
}

impl PtySize {
    pub fn new(cols: u16, rows: u16) -> (size: PtySize)
        ensures
            size == (PtySize { cols, rows, pixel_width: 0, pixel_height: 0 }),
    {
        PtySize { cols, rows, pixel_width: 0, pixel_height: 0 }
    }
}

/// What a non-blocking wait for a child says.
#[derive(Debug, Clone, Copy, PartialEq, Eq, Structural)]
pub enum WaitOutcome {
    /// The child still runs.
    StillAlive,
    /// The child exited, or was stopped or ended by a signal.
    Changed,
    /// The wait failed: the child is already gone.
    Failed,
}

/// Whether a child still runs, by the outcome of a wait.
pub fn is_alive(outcome: WaitOutcome) -> (alive: bool)
    ensures
        alive == (outcome == WaitOutcome::StillAlive),
{
    outcome == WaitOutcome::StillAlive
}

/// The children that still run, in order.
pub open spec fn still_running(pids: Seq<i32>, outcomes: Seq<WaitOutcome>) -> Seq<i32>
    decreases pids.len(),
{
    if pids.len() == 0 {
        Seq::empty()
    } else {
        let rest = still_running(pids.drop_last(), outcomes);
        if outcomes[pids.len() - 1] == WaitOutcome::StillAlive {
            rest.push(pids.last())
        } else {
            rest
        }
    }
}

/// Children that are to be collected once they have exited.
pub struct Reaper {
    pids: Vec<i32>,
}

impl View for Reaper {
    type V = Seq<i32>;

    closed spec fn view(&self) -> Seq<i32> {
        self.pids@
    }
}

impl Reaper {
    pub fn new() -> (reaper: Reaper)
        ensures
            reaper@ == Seq::<i32>::empty(),
    {
        Reaper { pids: Vec::new() }
    }

    /// Watch a child from now on.
    pub fn track(&mut self, pid: i32)
        ensures
            final(self)@ == old(self)@.push(pid),
    {
        self.pids.push(pid);
    }

    /// The children that are watched.
    pub fn reaper_pids(&self) -> (pids: &Vec<i32>)
        ensures
            pids@ == self@,
    {
        &self.pids
    }

    /// Stop watching the children that no longer run, given the outcome of a wait for each.
    pub fn reap_zombies(&mut self, outcomes: &Vec<WaitOutcome>)
        requires
            outcomes@.len() == old(self)@.len(),
        ensures
            final(self)@ == still_running(old(self)@, outcomes@),
    {
        let mut kept: Vec<i32> = Vec::new();
        let mut i: usize = 0;
        while i < self.pids.len()
            invariant
                i <= self.pids@.len() == outcomes@.len(),
                kept@ == still_running(self.pids@.take(i as int), outcomes@),
            decreases self.pids@.len() - i,
        {
            if outcomes[i] == WaitOutcome::StillAlive {
                kept.push(self.pids[i]);
            }
            i = i + 1;
            assert(self.pids@.take(i as int).drop_last() =~= self.pids@.take(i - 1));
        }
        assert(self.pids@.take(i as int) =~= self.pids@);
        self.pids = kept;
    }
}

impl Default for Reaper {
    fn default() -> (reaper: Reaper)
        ensures
            reaper@ == Seq::<i32>::empty(),
    {
        Reaper::new()
    }
}

/// Only children that were watched and still run are watched after a round, each as often as
/// before.
pub proof fn reaping_keeps_only_running_children(
    pids: Seq<i32>,
    outcomes: Seq<WaitOutcome>,
    pid: i32,
)
    requires
        pids.len() == outcomes.len(),
    ensures
        still_running(pids, outcomes).contains(pid) <==> exists|i: int|
            0 <= i < pids.len() && #[trigger] pids[i] == pid && outcomes[i]
                == WaitOutcome::StillAlive,
    decreases pids.len(),
{
    if pids.len() > 0 {
        let n = pids.len() - 1;
        let before = pids.drop_last();
        let cut = outcomes.drop_last();
        reaping_ignores_later_outcomes(before, outcomes, cut);
        reaping_keeps_only_running_children(before, cut, pid);
        let rest = still_running(before, outcomes);
        let all = still_running(pids, outcomes);
        if rest.contains(pid) {
            let k = choose|k: int| 0 <= k < rest.len() && rest[k] == pid;
            assert(all[k] == pid);
            let i = choose|i: int|
                0 <= i < before.len() && #[trigger] before[i] == pid && cut[i]
                    == WaitOutcome::StillAlive;
            assert(pids[i] == pid && outcomes[i] == WaitOutcome::StillAlive);
        }
        if outcomes[n] == WaitOutcome::StillAlive && pids[n] == pid {
            assert(all[all.len() - 1] == pid);
        }
        if exists|i: int|
            0 <= i < pids.len() && #[trigger] pids[i] == pid && outcomes[i]
                == WaitOutcome::StillAlive {
            let i = choose|i: int|
                0 <= i < pids.len() && #[trigger] pids[i] == pid && outcomes[i]
                    == WaitOutcome::StillAlive;
            if i < n {
                assert(before[i] == pid && cut[i] == WaitOutcome::StillAlive);
            }
        }
    }
}

proof fn reaping_ignores_later_outcomes(
    pids: Seq<i32>,
    outcomes: Seq<WaitOutcome>,
    cut: Seq<WaitOutcome>,
)
    requires
        forall|i: int| 0 <= i < pids.len() ==> outcomes[i] == cut[i],
    ensures
        still_running(pids, outcomes) == still_running(pids, cut),
    decreases pids.len(),
{
    if pids.len() > 0 {
        reaping_ignores_later_outcomes(pids.drop_last(), outcomes, cut);
    }
}

/// The base name of a path is what stands after its last slash: all of it where it has none.
pub proof fn base_names_follow_the_last_slash(dir: Seq<char>, name: Seq<char>)
    requires
        forall|i: int| 0 <= i < name.len() ==> #[trigger] name[i] != '/',
    ensures
        base_name(dir + seq!['/'] + name) == name,
        base_name(name) == name,
    decreases name.len(),
{
    let path = dir + seq!['/'] + name;
    if name.len() == 0 {
        assert(path.last() == '/');
        assert(base_name(path) =~= name);
        assert(base_name(name) =~= name);
    } else {
        base_names_follow_the_last_slash(dir, name.drop_last());
        assert(path.drop_last() =~= dir + seq!['/'] + name.drop_last());
        assert(name.drop_last().push(name.last()) =~= name);
    }
}

} // verus!
