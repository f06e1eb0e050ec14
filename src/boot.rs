//! Boot coordination: the leader hart relocates and fixes up the device tree
//! and publishes two one-shot tokens; every other hart waits on them. Each
//! call of `BootSystem::step` is one action of one hart, so any interleaving
//! of steps is a possible run of the concurrent boot.
use vstd::prelude::*;

use crate::trap::{next_ret, TrapFrame, NEXT_STAGE_ENTRY};

verus! {

/// The hart that relocates and fixes up the device tree.
pub const LEADER: usize = 0;

/// Where a hart stands in booting.
#[derive(Clone, Copy, PartialEq, Eq, Structural, Debug)]
pub enum BootPhase {
    Reset,
    /// Leader: the tree is relocated and its address published (token 1).
    Relocated,
    /// Leader: its platform instance is built.
    PlatformReady,
    /// Leader: its trap vector is installed.
    TrapReady,
    /// Leader: memory protection covers the firmware.
    Protected,
    /// Leader: the tree carries the firmware's reservation.
    FixedUp,
    /// Secondary: spinning on token 1.
    WaitToken1,
    /// Secondary: its platform instance is built from the published tree.
    SecondaryPlatform,
    /// Secondary: its trap vector is installed; spinning on token 2.
    WaitToken2,
    /// Handed over to the next boot stage.
    Ready,
    /// The leader could not fix up the tree: stopped for good.
    Halted,
}

/// What a hart does in one step of the boot.
#[derive(Clone, Copy, PartialEq, Eq, Structural, Debug)]
pub enum BootAction {
    /// Publish the relocated tree's address (token 1).
    PublishTree(usize),
    /// Build this hart's platform instance from the tree at this address.
    BuildPlatform(usize),
    InstallTrapVector,
    ConfigureProtection,
    /// Add the firmware's reservation to the tree.
    FixUpTree,
    /// Publish that the fix-up is done (token 2).
    PublishFixedUp,
    /// Poll a token that is not yet published.
    Spin,
    /// Enter the next stage with this tree address.
    EnterNextStage(usize),
    Halt,
}

pub open spec fn leader_phase(p: BootPhase) -> bool {
    p is Reset || p is Relocated || p is PlatformReady || p is TrapReady || p is Protected
        || p is FixedUp || p is Ready || p is Halted
}

pub open spec fn secondary_phase(p: BootPhase) -> bool {
    p is Reset || p is WaitToken1 || p is SecondaryPlatform || p is WaitToken2 || p is Ready
}

/// One hart's boot decision, from its phase and the two tokens it read
/// (token 1 as the published tree address, if any). `tree` is where the
/// leader relocated the tree (read only at reset); `fixup_ok` is whether the
/// leader's fix-up succeeded (read only once memory protection is set).
/// The leader relocates and publishes, builds its platform, installs its
/// trap vector, sets up memory protection, fixes the tree up (or halts for
/// good), publishes token 2 and enters the next stage; every other hart
/// spins on token 1, builds its platform from the published tree, installs
/// its trap vector, spins on token 2 and enters the next stage.
pub open spec fn boot_step_spec(
    h: int,
    p: BootPhase,
    token1: Option<usize>,
    token2: bool,
    tree: usize,
    fixup_ok: bool,
) -> (BootPhase, BootAction) {
    let enter = match token1 {
        Some(a) => (BootPhase::Ready, BootAction::EnterNextStage(a)),
        None => (p, BootAction::Spin),
    };
    if h == LEADER {
        match p {
            BootPhase::Reset => (BootPhase::Relocated, BootAction::PublishTree(tree)),
            BootPhase::Relocated => match token1 {
                Some(a) => (BootPhase::PlatformReady, BootAction::BuildPlatform(a)),
                None => (p, BootAction::Spin),
            },
            BootPhase::PlatformReady => (BootPhase::TrapReady, BootAction::InstallTrapVector),
            BootPhase::TrapReady => (BootPhase::Protected, BootAction::ConfigureProtection),
            BootPhase::Protected => if fixup_ok {
                (BootPhase::FixedUp, BootAction::FixUpTree)
            } else {
                (BootPhase::Halted, BootAction::Halt)
            },
            BootPhase::FixedUp => (BootPhase::Ready, BootAction::PublishFixedUp),
            BootPhase::Ready => enter,
            _ => (p, BootAction::Halt),
        }
    } else {
        match p {
            BootPhase::Reset => (BootPhase::WaitToken1, BootAction::Spin),
            BootPhase::WaitToken1 => match token1 {
                Some(a) => (BootPhase::SecondaryPlatform, BootAction::BuildPlatform(a)),
                None => (p, BootAction::Spin),
            },
            BootPhase::SecondaryPlatform => (BootPhase::WaitToken2, BootAction::InstallTrapVector),
            BootPhase::WaitToken2 => if token2 {
                enter
            } else {
                (p, BootAction::Spin)
            },
            BootPhase::Ready => enter,
            _ => (p, BootAction::Halt),
        }
    }
}

pub fn boot_step(
    h: usize,
    p: BootPhase,
    token1: Option<usize>,
    token2: bool,
    tree: usize,
    fixup_ok: bool,
) -> (r: (BootPhase, BootAction))
    ensures
        r == boot_step_spec(h as int, p, token1, token2, tree, fixup_ok),
{
    let enter = match token1 {
        Some(a) => (BootPhase::Ready, BootAction::EnterNextStage(a)),
        None => (p, BootAction::Spin),
    };
    if h == LEADER {
        match p {
            BootPhase::Reset => (BootPhase::Relocated, BootAction::PublishTree(tree)),
            BootPhase::Relocated => match token1 {
                Some(a) => (BootPhase::PlatformReady, BootAction::BuildPlatform(a)),
                None => (p, BootAction::Spin),
            },
            BootPhase::PlatformReady => (BootPhase::TrapReady, BootAction::InstallTrapVector),
            BootPhase::TrapReady => (BootPhase::Protected, BootAction::ConfigureProtection),
            BootPhase::Protected => {
                if fixup_ok {
                    (BootPhase::FixedUp, BootAction::FixUpTree)
                } else {
                    (BootPhase::Halted, BootAction::Halt)
                }
            },
            BootPhase::FixedUp => (BootPhase::Ready, BootAction::PublishFixedUp),
            BootPhase::Ready => enter,
            _ => (p, BootAction::Halt),
        }
    } else {
        match p {
            BootPhase::Reset => (BootPhase::WaitToken1, BootAction::Spin),
            BootPhase::WaitToken1 => match token1 {
                Some(a) => (BootPhase::SecondaryPlatform, BootAction::BuildPlatform(a)),
                None => (p, BootAction::Spin),
            },
            BootPhase::SecondaryPlatform => (BootPhase::WaitToken2, BootAction::InstallTrapVector),
            BootPhase::WaitToken2 => {
                if token2 {
                    enter
                } else {
                    (p, BootAction::Spin)
                }
            },
            BootPhase::Ready => enter,
            _ => (p, BootAction::Halt),
        }
    }
}

/// Every hart's phase, the two tokens, how many times token 1 was published,
/// and, for each hart that built its platform, the publish count it read
/// then.
pub struct BootSystem {
    pub phases: Vec<BootPhase>,
    pub token1: Option<usize>,
    pub token2: bool,
    pub publishes: u64,
    pub built_at: Vec<Option<u64>>,
}

impl BootSystem {
    pub open spec fn n(&self) -> int {
        self.phases@.len() as int
    }

    /// Hart `h`'s phase fits its role, and it built its platform, after a
    /// publish, exactly when it is past that point.
    pub open spec fn hart_ok(&self, h: int) -> bool {
        let p = self.phases@[h];
        &&& h == LEADER ==> leader_phase(p)
        &&& h != LEADER ==> secondary_phase(p)
        &&& (self.built_at@[h] is Some <==> (h == LEADER && (p is PlatformReady || p is TrapReady
            || p is Protected || p is FixedUp || p is Ready || p is Halted)) || (h != LEADER && (
        p is SecondaryPlatform || p is WaitToken2 || p is Ready)))
        &&& self.built_at@[h] matches Some(c) ==> 1 <= c <= self.publishes
        &&& h != LEADER && p is Ready ==> self.token2
    }

    /// The boot's invariant: token 1 is published once, by the leader, when
    /// it leaves `Reset`; token 2 only once the leader is ready; and no hart
    /// built its platform before token 1.
    pub open spec fn wf(&self) -> bool {
        &&& self.n() >= 1
        &&& self.built_at@.len() == self.n()
        &&& self.publishes <= 1
        &&& (self.token1 is Some <==> self.publishes == 1)
        &&& (self.token1 is None <==> self.phases@[LEADER as int] is Reset)
        &&& self.token2 ==> self.phases@[LEADER as int] is Ready
        &&& forall|h: int| 0 <= h < self.n() ==> #[trigger] self.hart_ok(h)
    }

    /// What one step of hart `h` does: phases, tokens, publish count and
    /// platform records afterwards, and the action taken. The hart decides by
    /// `boot_step_spec` on the tokens it reads; publishing a token and
    /// building a platform (which records the publish count read) are its
    /// actions.
    pub open spec fn step_spec(&self, h: int, tree: usize, fixup_ok: bool) -> (
        Seq<BootPhase>,
        Option<usize>,
        bool,
        u64,
        Seq<Option<u64>>,
        BootAction,
    ) {
        let (p2, a) = boot_step_spec(h, self.phases@[h], self.token1, self.token2, tree, fixup_ok);
        (
            self.phases@.update(h, p2),
            match a {
                BootAction::PublishTree(t) => Some(t),
                _ => self.token1,
            },
            self.token2 || a is PublishFixedUp,
            if a is PublishTree {
                1
            } else {
                self.publishes
            },
            if a is BuildPlatform {
                self.built_at@.update(h, Some(self.publishes))
            } else {
                self.built_at@
            },
            a,
        )
    }

    /// `n` harts, all at reset, nothing published.
    pub fn new(n: usize) -> (r: BootSystem)
        requires
            n >= 1,
        ensures
            r.wf(),
            r.n() == n,
            forall|h: int| 0 <= h < n ==> r.phases@[h] == BootPhase::Reset,
    {
        let mut phases: Vec<BootPhase> = Vec::new();
        let mut built_at: Vec<Option<u64>> = Vec::new();
        let mut i: usize = 0;
        while i < n
            invariant
                i <= n,
                phases@.len() == i,
                built_at@.len() == i,
                forall|h: int| 0 <= h < i ==> phases@[h] == BootPhase::Reset,
                forall|h: int| 0 <= h < i ==> built_at@[h] is None,
            decreases n - i,
        {
            phases.push(BootPhase::Reset);
            built_at.push(None);
            i = i + 1;
        }
        let r = BootSystem { phases, token1: None, token2: false, publishes: 0, built_at };
        assert forall|h: int| 0 <= h < r.n() implies #[trigger] r.hart_ok(h) by {}
        r
    }

    /// One action of hart `h`. `tree` is the address the leader relocated
    /// the tree to (read only by its first step); `fixup_ok` says whether the
    /// leader's fix-up succeeded (read only by its fix-up step).
    pub fn step(&mut self, h: usize, tree: usize, fixup_ok: bool) -> (r: BootAction)
        requires
            old(self).wf(),
            h < old(self).n(),
        ensures
            final(self).wf(),
            final(self).n() == old(self).n(),
            (
                final(self).phases@,
                final(self).token1,
                final(self).token2,
                final(self).publishes,
                final(self).built_at@,
                r,
            ) == old(self).step_spec(h as int, tree, fixup_ok),
            // Only the leader publishes, and token 1 once.
            h != LEADER ==> final(self).token1 == old(self).token1 && final(self).token2 == old(
                self,
            ).token2,
            old(self).token1 is Some ==> final(self).token1 == old(self).token1,
            // A platform is built only from the published tree, after the publish.
            r matches BootAction::BuildPlatform(a) ==> old(self).token1 == Some(a)
                && final(self).built_at@[h as int] == Some(old(self).publishes) && old(self).publishes >= 1,
            // The next stage gets the published tree.
            r matches BootAction::EnterNextStage(a) ==> old(self).token1 == Some(a),
            forall|g: int| 0 <= g < old(self).n() && g != h ==> #[trigger] final(self).phases@[g] == old(self).phases@[g]
                && final(self).built_at@[g] == old(self).built_at@[g],
    {
        proof {
            assert(self.hart_ok(h as int));
            assert(self.hart_ok(LEADER as int));
        }
        let (p2, r) = boot_step(h, self.phases[h], self.token1, self.token2, tree, fixup_ok);
        match r {
            BootAction::PublishTree(t) => {
                self.token1 = Some(t);
                self.publishes = 1;
            },
            BootAction::BuildPlatform(_) => {
                self.built_at.set(h, Some(self.publishes));
            },
            BootAction::PublishFixedUp => {
                self.token2 = true;
            },
            _ => {},
        }
        self.phases.set(h, p2);
        proof {
            assert forall|g: int| 0 <= g < self.n() implies #[trigger] self.hart_ok(g) by {
                assert(old(self).hart_ok(g));
            }
        }
        r
    }
}

/// No hart has built its platform before token 1 was published: every
/// platform built read a publish count of at least one, and the tree's
/// address is then published.
pub proof fn lemma_platform_after_publish(s: BootSystem, h: int)
    requires
        s.wf(),
        0 <= h < s.n(),
        s.built_at@[h] is Some,
    ensures
        s.built_at@[h]->0 >= 1,
        s.token1 is Some,
        s.publishes == 1,
{
    assert(s.hart_ok(h));
    assert(s.hart_ok(LEADER as int));
}

/// Where control goes on leaving the firmware: the next stage's entry, in
/// supervisor mode, with supervisor traps sent to that entry too, translation
/// off, the supervisor scratch register and interrupt enables cleared, and
/// the frame that delivers the hart's identifier and the tree's address.
pub struct NextBoot {
    pub stvec: usize,
    /// The supervisor external, software and timer interrupt enables
    /// (`sie.SEIE`, `sie.SSIE`, `sie.STIE`).
    pub seie: bool,
    pub ssie: bool,
    pub stie: bool,
    pub mepc: usize,
    /// Privilege to return to: 1 is supervisor mode.
    pub mpp: usize,
    pub satp: usize,
    pub sscratch: usize,
    pub frame: TrapFrame,
}

pub fn next_boot(hartid: usize, fdt_addr: usize) -> (r: NextBoot)
    ensures
        r.stvec == NEXT_STAGE_ENTRY,
        !r.seie && !r.ssie && !r.stie,
        r.mepc == NEXT_STAGE_ENTRY,
        r.mpp == 1,
        r.satp == 0,
        r.sscratch == 0,
        r.frame.reg@ == Seq::new(32, |i: int| 0usize).update(10, hartid).update(11, fdt_addr),
{
    NextBoot {
        stvec: NEXT_STAGE_ENTRY,
        seie: false,
        ssie: false,
        stie: false,
        mepc: NEXT_STAGE_ENTRY,
        mpp: 1,
        satp: 0,
        sscratch: 0,
        frame: next_ret(hartid, fdt_addr),
    }
}

} // verus!
