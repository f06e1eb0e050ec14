use meowsbi::ipi::{sender_step, serve, IPIReq, IpiSystem, SendAction, SendEvent, SendPhase};
use meowsbi::mmio::Mmio;
use meowsbi::platform::{DeviceInfo, QEMU};
use meowsbi::mem::HartData;

/// Runs every hart once per round, in ascending order, until every sender is
/// done; returns the rounds taken and what each hart carried out.
fn run(sys: &mut IpiSystem, senders: &[usize], max_rounds: usize) -> (usize, Vec<Vec<IPIReq>>) {
    let n = sys.harts.len();
    let mut done_log = vec![Vec::new(); n];
    for round in 1..=max_rounds {
        for h in 0..n {
            if let Some(k) = sys.step(h) {
                done_log[h].push(k);
            }
        }
        if senders.iter().all(|&s| sys.is_done(s)) && sys.harts.iter().all(|d| !d.ipi_pending) {
            return (round, done_log);
        }
    }
    panic!("no progress within {} rounds", max_rounds);
}

#[test]
fn send_returns_after_every_destination_served() {
    for n in 1..=8usize {
        for mask in 1u64..(1u64 << n) {
            let mut sys = IpiSystem::new(n);
            sys.begin_send(0, mask, IPIReq::FENCE_I);
            let mut steps = 0;
            while !sys.is_done(0) {
                sys.step(0);
                for d in 1..n {
                    sys.step(d);
                }
                steps += 1;
                assert!(steps <= 4 * n + 4, "n={} mask={:b}", n, mask);
            }
            assert!(sys.harts.iter().all(|d| !d.ipi_pending));
            assert_eq!(sys.lock, None);
        }
    }
}

#[test]
fn every_destination_executes_the_request_once() {
    let mut sys = IpiSystem::new(4);
    sys.begin_send(1, 0b1011, IPIReq::SFENCE_VMA);
    let (_, log) = run(&mut sys, &[1], 100);
    assert_eq!(log[0], vec![IPIReq::SFENCE_VMA]);
    assert_eq!(log[1], vec![IPIReq::SFENCE_VMA]);
    assert_eq!(log[2], Vec::<IPIReq>::new());
    assert_eq!(log[3], vec![IPIReq::SFENCE_VMA]);
}

#[test]
fn self_targeted_send_never_posts() {
    let mut sys = IpiSystem::new(4);
    sys.begin_send(2, 1 << 2, IPIReq::S_IPI);
    let mut served = Vec::new();
    while !sys.is_done(2) {
        if let Some(k) = sys.step(2) {
            served.push(k);
        }
        assert!(sys.harts.iter().all(|d| !d.ipi_pending));
    }
    assert_eq!(served, vec![IPIReq::S_IPI]);
}

#[test]
fn disjoint_senders_deliver_their_own_kinds() {
    let mut sys = IpiSystem::new(6);
    sys.begin_send(0, 0b000110, IPIReq::FENCE_I);
    sys.begin_send(3, 0b110000, IPIReq::SFENCE_VMA);
    let (_, log) = run(&mut sys, &[0, 3], 200);
    assert_eq!(log[1], vec![IPIReq::FENCE_I]);
    assert_eq!(log[2], vec![IPIReq::FENCE_I]);
    assert_eq!(log[4], vec![IPIReq::SFENCE_VMA]);
    assert_eq!(log[5], vec![IPIReq::SFENCE_VMA]);
    assert!(log[0].is_empty() && log[3].is_empty());
}

#[test]
fn two_harts_sending_to_each_other_do_not_deadlock() {
    let mut sys = IpiSystem::new(2);
    sys.begin_send(0, 0b10, IPIReq::S_IPI);
    sys.begin_send(1, 0b01, IPIReq::FENCE_I);
    let (rounds, log) = run(&mut sys, &[0, 1], 100);
    assert!(rounds <= 20);
    assert_eq!(log[0], vec![IPIReq::FENCE_I]);
    assert_eq!(log[1], vec![IPIReq::S_IPI]);
}

#[test]
fn all_harts_broadcast_at_once() {
    for n in 1..=6usize {
        let mut sys = IpiSystem::new(n);
        let senders: Vec<usize> = (0..n).collect();
        for &s in &senders {
            sys.begin_send(s, u64::MAX, IPIReq::S_IPI);
        }
        let (_, log) = run(&mut sys, &senders, 50 * n);
        for h in 0..n {
            assert_eq!(log[h].len(), n);
        }
    }
}

#[test]
fn hart_slot_handoff() {
    let mut d = HartData::new();
    assert!(d.ipi_wait());
    assert_eq!(d.ipi_handle(), None);
    d.ipi_set(IPIReq::FENCE_I);
    assert!(!d.ipi_wait());
    assert_eq!(d.ipi_handle(), Some(IPIReq::FENCE_I));
    assert!(d.ipi_wait());
    assert_eq!(d.ipi_handle(), None);
}

#[test]
fn targets_in_ascending_order() {
    assert_eq!(meowsbi::ipi::targets(0b1011, 4), vec![0, 1, 3]);
    assert_eq!(meowsbi::ipi::targets(u64::MAX, 3), vec![0, 1, 2]);
    assert_eq!(meowsbi::ipi::targets(0b1000, 3), Vec::<usize>::new());
    assert_eq!(meowsbi::ipi::targets(1 << 63, 64), vec![63]);
}

#[test]
fn sender_decisions_follow_the_protocol() {
    let req = IPIReq::FENCE_I;
    let acq = SendPhase::Acquiring { mask: 0b101, req };
    assert_eq!(
        sender_step(0, 3, acq, SendEvent::Lock { acquired: true, own_signal: true }),
        (SendPhase::Delivering { mask: 0b101, req, next: 0 }, SendAction::Nothing)
    );
    assert_eq!(
        sender_step(0, 3, acq, SendEvent::Lock { acquired: false, own_signal: true }),
        (acq, SendAction::ServeOwn)
    );
    assert_eq!(
        sender_step(0, 3, acq, SendEvent::Lock { acquired: false, own_signal: false }),
        (acq, SendAction::Spin)
    );
    let d0 = SendPhase::Delivering { mask: 0b101, req, next: 0 };
    assert_eq!(
        sender_step(0, 3, d0, SendEvent::Nothing),
        (SendPhase::Delivering { mask: 0b101, req, next: 1 }, SendAction::ExecuteInline(req))
    );
    let d1 = SendPhase::Delivering { mask: 0b101, req, next: 1 };
    assert_eq!(
        sender_step(0, 3, d1, SendEvent::Nothing),
        (SendPhase::Delivering { mask: 0b101, req, next: 2 }, SendAction::Nothing)
    );
    let d2 = SendPhase::Delivering { mask: 0b101, req, next: 2 };
    assert_eq!(
        sender_step(0, 3, d2, SendEvent::Nothing),
        (SendPhase::Delivering { mask: 0b101, req, next: 3 }, SendAction::Post { dest: 2, req })
    );
    let d3 = SendPhase::Delivering { mask: 0b101, req, next: 3 };
    assert_eq!(
        sender_step(0, 3, d3, SendEvent::Nothing),
        (SendPhase::Waiting { mask: 0b101, req, next: 0 }, SendAction::Nothing)
    );
    let w2 = SendPhase::Waiting { mask: 0b101, req, next: 2 };
    assert_eq!(sender_step(0, 3, w2, SendEvent::Slot { pending: true }), (w2, SendAction::Spin));
    assert_eq!(
        sender_step(0, 3, w2, SendEvent::Slot { pending: false }),
        (SendPhase::Waiting { mask: 0b101, req, next: 3 }, SendAction::Nothing)
    );
    let w3 = SendPhase::Waiting { mask: 0b101, req, next: 3 };
    assert_eq!(sender_step(0, 3, w3, SendEvent::Nothing), (SendPhase::Done, SendAction::ReleaseLock));
}

#[test]
fn destination_serves_then_clears_its_signal() {
    let info = DeviceInfo {
        clint_reg: None,
        uart_reg: None,
        uart_offset: None,
        uart_shift: None,
        uart_clk: None,
        uart_baud: None,
    };
    let q = QEMU::new(1, &info);
    let mut slot = HartData::new();
    assert_eq!(serve(&mut slot, &q), None);
    slot.ipi_set(IPIReq::SFENCE_VMA);
    assert_eq!(
        serve(&mut slot, &q),
        Some((IPIReq::SFENCE_VMA, Mmio::W32 { addr: 0x200_0004, word: 0 }))
    );
    assert!(!slot.ipi_pending);
}

#[test]
fn send_runs_to_completion_within_the_bound() {
    for n in 1..=6usize {
        for mask in 1u64..(1u64 << n) {
            for h in 0..n {
                let mut sys = IpiSystem::new(n);
                let (rounds, log) = sys.send_ipi(h, mask, IPIReq::S_IPI);
                assert!(rounds <= n * (3 * n + 4));
                for d in 0..n {
                    let times = log.iter().filter(|e| e.0 == d).count();
                    assert_eq!(times, ((mask >> d) & 1) as usize, "n={} mask={:b} h={} d={}", n, mask, h, d);
                }
                assert!(log.iter().all(|e| e.1 == IPIReq::S_IPI));
                assert!(sys.is_done(h));
                assert_eq!(sys.lock, None);
                assert!(sys.harts.iter().all(|d| !d.ipi_pending));
            }
        }
    }
}

#[test]
fn self_only_send_leaves_every_slot() {
    let mut sys = IpiSystem::new(4);
    let before = sys.harts.clone();
    let (_, log) = sys.send_ipi(2, 1 << 2, IPIReq::FENCE_I);
    assert_eq!(log, vec![(2, IPIReq::FENCE_I)]);
    assert_eq!(sys.harts, before);
    assert!(sys.is_done(2));
}

#[test]
fn concurrent_disjoint_sends_each_served_once() {
    let mut sys = IpiSystem::new(6);
    let sends = vec![(0usize, 0b000111u64, IPIReq::FENCE_I), (3usize, 0b111000u64, IPIReq::SFENCE_VMA)];
    let (rounds, log) = sys.send_all(&sends);
    assert!(rounds <= 6 * (3 * 6 + 4));
    for &(s, mask, req) in &sends {
        for d in 0..6usize {
            let mine: Vec<_> = log.iter().filter(|e| e.0 == d && e.1 == s).collect();
            assert_eq!(mine.len(), ((mask >> d) & 1) as usize);
            assert!(mine.iter().all(|e| e.2 == req));
        }
        assert!(sys.is_done(s));
    }
    assert_eq!(log.len(), 6);
    assert_eq!(sys.lock, None);
    assert!(sys.harts.iter().all(|d| !d.ipi_pending));
}

#[test]
fn two_harts_sending_to_each_other_through_the_driver() {
    let mut sys = IpiSystem::new(2);
    let sends = vec![(0usize, 0b10u64, IPIReq::S_IPI), (1usize, 0b01u64, IPIReq::FENCE_I)];
    let (_, mut log) = sys.send_all(&sends);
    log.sort_by_key(|e| e.0);
    assert_eq!(log, vec![(0, 1, IPIReq::FENCE_I), (1, 0, IPIReq::S_IPI)]);
}
