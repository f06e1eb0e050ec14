use meowsbi::boot::{boot_step, BootAction, BootPhase, BootSystem};
use meowsbi::pmp::setup_pmp;
use meowsbi::mem::stack_top;

const TREE: usize = 0x8220_0000;

#[test]
fn secondary_platforms_are_built_after_the_publish() {
    for n in 1..=5usize {
        // Secondaries first in every round, so that they spin before the publish.
        let mut sys = BootSystem::new(n);
        let mut publish_seen = 0u64;
        let mut rounds = 0;
        while !(0..n).all(|h| sys.phases[h] == BootPhase::Ready) {
            for h in (0..n).rev() {
                let before = sys.publishes;
                match sys.step(h, TREE, true) {
                    BootAction::PublishTree(a) => {
                        assert_eq!(a, TREE);
                        publish_seen += 1;
                    }
                    BootAction::BuildPlatform(a) => {
                        assert_eq!(a, TREE);
                        assert!(before >= 1);
                        assert_eq!(sys.built_at[h], Some(1));
                    }
                    BootAction::EnterNextStage(a) => assert_eq!(a, TREE),
                    _ => {}
                }
            }
            rounds += 1;
            assert!(rounds < 20);
        }
        assert_eq!(publish_seen, 1);
        assert_eq!(sys.publishes, 1);
        assert!(sys.token2);
        assert!(sys.built_at.iter().all(|b| *b == Some(1)));
    }
}

#[test]
fn secondaries_spin_until_tokens() {
    let mut sys = BootSystem::new(2);
    assert_eq!(sys.step(1, TREE, true), BootAction::Spin);
    assert_eq!(sys.step(1, TREE, true), BootAction::Spin);
    assert_eq!(sys.phases[1], BootPhase::WaitToken1);
    assert_eq!(sys.step(0, TREE, true), BootAction::PublishTree(TREE));
    assert_eq!(sys.step(1, 0, true), BootAction::BuildPlatform(TREE));
    assert_eq!(sys.step(1, 0, true), BootAction::InstallTrapVector);
    assert_eq!(sys.step(1, 0, true), BootAction::Spin);
    assert_eq!(sys.step(0, 0, true), BootAction::BuildPlatform(TREE));
    assert_eq!(sys.step(0, 0, true), BootAction::InstallTrapVector);
    assert_eq!(sys.step(0, 0, true), BootAction::ConfigureProtection);
    assert_eq!(sys.step(0, 0, true), BootAction::FixUpTree);
    assert_eq!(sys.step(1, 0, true), BootAction::Spin);
    assert_eq!(sys.step(0, 0, true), BootAction::PublishFixedUp);
    assert_eq!(sys.step(1, 0, true), BootAction::EnterNextStage(TREE));
    assert_eq!(sys.step(0, 0, true), BootAction::EnterNextStage(TREE));
}

#[test]
fn failed_fixup_halts_the_leader_and_holds_the_others() {
    let mut sys = BootSystem::new(2);
    sys.step(0, TREE, false);
    for _ in 0..3 {
        sys.step(0, TREE, false);
    }
    assert_eq!(sys.step(0, TREE, false), BootAction::Halt);
    assert_eq!(sys.phases[0], BootPhase::Halted);
    for _ in 0..10 {
        sys.step(1, TREE, false);
    }
    assert_eq!(sys.phases[1], BootPhase::WaitToken2);
    assert!(!sys.token2);
}

#[test]
fn firmware_protection_range() {
    let c = setup_pmp(0x8000_0000, 0x1_2345).unwrap();
    assert_eq!(c.size, 0x2_0000);
    assert_eq!(c.addr0, 0x8000_0000 / 4 + 0x2_0000 / 8 - 1);
    assert_eq!(c.addr0, (0x8000_0000u64 >> 2) | ((0x2_0000u64 >> 3) - 1));
    assert_eq!(c.addr1, (1 << 53) - 1);
    assert_eq!(c.cfg0, 0x1f18);
    assert_eq!(setup_pmp(0x8000_0000, 3).unwrap().size, 8);
    assert_eq!(setup_pmp(0x8000_0000, 0x2_0000).unwrap().size, 0x2_0000);
    assert_eq!(setup_pmp(0x8000_1000, 0x2_0000), None);
}

#[test]
fn hart_stacks_end_at_their_blocks() {
    assert_eq!(stack_top(0x8010_0000, 0, 1 << 16), Some(0x8011_0000));
    assert_eq!(stack_top(0x8010_0000, 1, 1 << 16), Some(0x8012_0000));
    assert_eq!(stack_top(usize::MAX - 10, 0, 1 << 16), None);
}

#[test]
fn per_hart_boot_decisions() {
    assert_eq!(boot_step(0, BootPhase::Reset, None, false, TREE, true), (BootPhase::Relocated, BootAction::PublishTree(TREE)));
    assert_eq!(
        boot_step(0, BootPhase::Protected, Some(TREE), false, TREE, false),
        (BootPhase::Halted, BootAction::Halt)
    );
    assert_eq!(boot_step(1, BootPhase::WaitToken1, None, false, 0, true), (BootPhase::WaitToken1, BootAction::Spin));
    assert_eq!(
        boot_step(1, BootPhase::WaitToken1, Some(TREE), false, 0, true),
        (BootPhase::SecondaryPlatform, BootAction::BuildPlatform(TREE))
    );
    assert_eq!(
        boot_step(1, BootPhase::WaitToken2, Some(TREE), true, 0, true),
        (BootPhase::Ready, BootAction::EnterNextStage(TREE))
    );
}
