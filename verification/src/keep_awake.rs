//! The computer does not fall asleep while an agent works.
//!
//! What keeps it awake is taken once, and let go when the last agent stops working. Where it could
//! not be had, that is not tried again until the next piece of work.

use vstd::prelude::*;
use vstd::string::*;
use crate::editor_manners::{CommandText, ExternalCommand, Platform};
use crate::text::{decimal, decimal_text, texts, texts_empty, texts_push};
use crate::workspace::ThreadActivity;

verus! {

/// The setting.
#[derive(Clone, Copy, PartialEq, Eq, Structural, Debug)]
pub enum KeepAwake {
    Off,
    WhileWorking,
}

/// Whether the platform has a way to keep the computer awake.
pub fn keep_awake_supported(platform: Platform) -> (b: bool)
    ensures
        b == (platform != Platform::Other),
{
    platform != Platform::Other
}

pub open spec fn wanted_awake(mode: KeepAwake, working: nat) -> bool {
    mode == KeepAwake::WhileWorking && working > 0
}

/// Whether the computer is to be kept awake: the setting says so, and some thread works.
pub fn wants_wake_lock(mode: KeepAwake, working_threads: usize) -> (b: bool)
    ensures
        b == wanted_awake(mode, working_threads as nat),
{
    mode == KeepAwake::WhileWorking && working_threads > 0
}

/// How many of the threads work.
pub open spec fn working_count(activities: Seq<ThreadActivity>) -> nat
    decreases activities.len(),
{
    if activities.len() == 0 {
        0
    } else if activities.last() == ThreadActivity::Working {
        working_count(activities.drop_last()) + 1
    } else {
        working_count(activities.drop_last())
    }
}

/// How many of the threads of all windows work. One that waits for an answer does not.
pub fn working_threads(activities: &Vec<ThreadActivity>) -> (n: usize)
    ensures
        n == working_count(activities@),
{
    let mut n: usize = 0;
    let mut i: usize = 0;
    while i < activities.len()
        invariant
            n <= i <= activities@.len(),
            n == working_count(activities@.take(i as int)),
        decreases activities@.len() - i,
    {
        proof {
            assert(activities@.take(i + 1).drop_last() =~= activities@.take(i as int));
            assert(activities@.take(i + 1).last() == activities@[i as int]);
        }
        if activities[i] == ThreadActivity::Working {
            n = n + 1;
        }
        i = i + 1;
    }
    assert(activities@.take(activities@.len() as int) =~= activities@);
    n
}

/// What is held to keep the computer awake.
#[derive(Clone, Copy, PartialEq, Eq, Structural, Debug)]
pub struct KeepAwakeState {
    /// Something is held.
    pub held: bool,
    /// It could not be had for the work that goes on.
    pub failed: bool,
}

/// What is to be done, in this order.
#[derive(Clone, Copy, PartialEq, Eq, Structural, Debug)]
pub struct WakeStep {
    /// Let go what is held.
    pub release: bool,
    /// Take hold again, and say whether that worked.
    pub acquire: bool,
}

impl Default for KeepAwakeState {
    fn default() -> (state: KeepAwakeState)
        ensures
            state == (KeepAwakeState { held: false, failed: false }),
    {
        KeepAwakeState { held: false, failed: false }
    }
}

impl KeepAwakeState {
    /// The state before anything new is held.
    pub open spec fn applied(self, wanted: bool, lost: bool) -> KeepAwakeState {
        KeepAwakeState { held: wanted && self.held && !lost, failed: wanted && self.failed }
    }

    pub open spec fn step(self, wanted: bool, lost: bool) -> WakeStep {
        WakeStep {
            release: self.held && (lost || !wanted),
            acquire: wanted && !self.failed && (!self.held || lost),
        }
    }

    /// Brings what is held in line with what is wanted. `lost` says that what is held has been
    /// taken away from outside.
    pub fn apply(&mut self, wanted: bool, lost: bool) -> (step: WakeStep)
        ensures
            *final(self) == old(self).applied(wanted, lost),
            step == old(self).step(wanted, lost),
    {
        let mut release = false;
        if self.held && lost {
            self.held = false;
            release = true;
        }
        if !wanted {
            let release = release || self.held;
            self.held = false;
            self.failed = false;
            return WakeStep { release, acquire: false };
        }
        if self.held || self.failed {
            return WakeStep { release, acquire: false };
        }
        WakeStep { release, acquire: true }
    }

    /// Whether taking hold worked.
    pub fn acquired(&mut self, worked: bool)
        ensures
            *final(self) == (KeepAwakeState {
                held: old(self).held || worked,
                failed: old(self).failed || !worked,
            }),
    {
        if worked {
            self.held = true;
        } else {
            self.failed = true;
        }
    }
}

/// What keeps the computer awake.
pub enum WakeRequest {
    /// A program that runs as long as it is to stay awake.
    Run(ExternalCommand),
    /// The execution state of the thread, with the system required.
    SetExecutionState,
    /// There is no way here.
    Unsupported,
}

/// The program that keeps a Mac awake as long as this process lives.
pub open spec fn caffeinate(pid: nat) -> CommandText {
    CommandText { program: "/usr/bin/caffeinate"@, args: seq!["-i"@, "-w"@, decimal(pid)] }
}

/// How the computer is kept awake on a platform: only its own falling asleep is held off, neither
/// the screen nor a sleep that the user asks for.
pub fn acquire_wake_lock(platform: Platform, pid: u32) -> (r: WakeRequest)
    ensures
        match platform {
            Platform::MacOs => r matches WakeRequest::Run(command) && command@ == caffeinate(pid as nat),
            Platform::Windows => r is SetExecutionState,
            Platform::Other => r is Unsupported,
        },
{
    match platform {
        Platform::MacOs => {
            let mut args: Vec<String> = Vec::new();
            let idle = "-i".to_owned();
            let wait = "-w".to_owned();
            let id = decimal_text(pid as u64);
            proof {
                texts_empty();
                texts_push(Seq::empty(), idle);
                texts_push(seq![idle], wait);
                texts_push(seq![idle, wait], id);
                assert(Seq::empty().push(idle) =~= seq![idle]);
                assert(seq![idle].push(wait) =~= seq![idle, wait]);
            }
            args.push(idle);
            args.push(wait);
            args.push(id);
            assert(texts(args@) =~= seq!["-i"@, "-w"@, decimal(pid as nat)]);
            WakeRequest::Run(ExternalCommand { program: "/usr/bin/caffeinate".to_owned(), args })
        },
        Platform::Windows => WakeRequest::SetExecutionState,
        Platform::Other => WakeRequest::Unsupported,
    }
}

/// While work goes on, what is held is not taken again; once it stops, it is let go and nothing is
/// held.
pub proof fn held_once_and_released(state: KeepAwakeState)
    requires
        state.held,
    ensures
        state.applied(true, false) == state,
        state.step(true, false) == (WakeStep { release: false, acquire: false }),
        state.applied(false, false) == (KeepAwakeState { held: false, failed: false }),
        state.step(false, false) == (WakeStep { release: true, acquire: false }),
{
}

/// What was taken away from outside is let go and taken again.
pub proof fn lost_is_taken_again(state: KeepAwakeState)
    requires
        state.held,
        !state.failed,
    ensures
        state.step(true, true) == (WakeStep { release: true, acquire: true }),
{
}

/// A failure is not tried again while the same work goes on, and is once it has stopped.
pub proof fn failures_wait_for_the_next_work(state: KeepAwakeState)
    requires
        state.failed,
        !state.held,
    ensures
        !state.step(true, false).acquire,
        state.applied(true, false) == state,
        state.applied(false, false).step(true, false).acquire,
{
}

/// Nothing is ever held without being wanted.
pub proof fn nothing_is_held_unwanted(state: KeepAwakeState, lost: bool)
    ensures
        !state.applied(false, lost).held,
        !state.step(false, lost).acquire,
{
}

/// The computer is to be kept awake exactly if the setting says so and some thread works.
pub proof fn work_keeps_awake(mode: KeepAwake, activities: Seq<ThreadActivity>)
    ensures
        wanted_awake(mode, working_count(activities)) <==> mode == KeepAwake::WhileWorking && exists|k: int|
            0 <= k < activities.len() && #[trigger] activities[k] == ThreadActivity::Working,
        working_count(activities) <= activities.len(),
    decreases activities.len(),
{
    if activities.len() > 0 {
        let rest = activities.drop_last();
        let last = activities.len() - 1;
        work_keeps_awake(KeepAwake::WhileWorking, rest);
        assert forall|k: int| 0 <= k < rest.len() implies rest[k] == #[trigger] activities[k] by {}
        if activities[last] == ThreadActivity::Working {
            assert(working_count(activities) > 0);
        } else if working_count(rest) > 0 {
            let k = choose|k: int| 0 <= k < rest.len() && #[trigger] rest[k] == ThreadActivity::Working;
            assert(activities[k] == ThreadActivity::Working);
        }
    }
}

/// Each thread that works counts once, wherever it stands; one that waits for an answer does not count.
pub proof fn threads_that_work_add_up(a: Seq<ThreadActivity>, b: Seq<ThreadActivity>, activity: ThreadActivity)
    ensures
        working_count(a + b) == working_count(a) + working_count(b),
        working_count(seq![ThreadActivity::Working]) == 1,
        activity != ThreadActivity::Working ==> working_count(seq![activity]) == 0,
    decreases b.len(),
{
    reveal_with_fuel(working_count, 2);
    assert(seq![activity].drop_last() =~= Seq::empty());
    assert(seq![ThreadActivity::Working].drop_last() =~= Seq::empty());
    if b.len() == 0 {
        assert(a + b =~= a);
    } else {
        assert((a + b).drop_last() =~= a + b.drop_last());
        threads_that_work_add_up(a, b.drop_last(), activity);
    }
}

/// What is held is let go exactly if it is not held afterwards, and taken exactly if it is wanted, not
/// held then, and has not failed for the same work.
pub proof fn steps_lead_to_what_is_held(state: KeepAwakeState, wanted: bool, lost: bool)
    ensures
        state.step(wanted, lost).release <==> state.held && !state.applied(wanted, lost).held,
        state.step(wanted, lost).acquire <==> wanted && !state.applied(wanted, lost).held && !state.applied(
            wanted,
            lost,
        ).failed,
        state.applied(wanted, lost).held ==> state.held && wanted && !lost,
        state.held && wanted && !lost ==> state.applied(wanted, lost).held,
        wanted ==> state.applied(wanted, lost).failed == state.failed,
        !wanted ==> !state.applied(wanted, lost).failed,
{
}

/// The program that keeps a Mac awake waits for this process, and for no other.
pub proof fn the_program_waits_for_this_process(pid: nat, other: nat)
    ensures
        caffeinate(pid).args.len() == 3,
        crate::text::digits_value(caffeinate(pid).args[2]) == pid,
        caffeinate(pid) == caffeinate(other) ==> pid == other,
{
    crate::text::decimal_reads_back(pid);
    crate::text::decimal_reads_back(other);
    if caffeinate(pid) == caffeinate(other) {
        assert(caffeinate(pid).args[2] == caffeinate(other).args[2]);
    }
}

} // verus!
