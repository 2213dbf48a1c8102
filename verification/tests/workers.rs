//! One worker for each receiver.

use logitray::hid::client::WorkerCommand;
use logitray::supervisor::{Order, Retired, Supervisor, Wakeup};

#[test]
fn receivers_get_workers_as_they_appear() {
    let mut supervisor = Supervisor::new(180);
    let plan = supervisor.scan(&[], Some(&[0xC52B, 0xC547]));
    assert!(plan.retired.is_empty());
    assert_eq!(plan.spawned, [0xC52B, 0xC547]);

    let plan = supervisor.scan(&[], Some(&[0xC547, 0xC548, 0xC52B]));
    assert!(plan.retired.is_empty());
    assert_eq!(plan.spawned, [0xC548]);
    assert_eq!(supervisor.workers, [0xC52B, 0xC547, 0xC548]);
}

#[test]
fn unplugged_receivers_lose_their_workers() {
    let mut supervisor = Supervisor::new(180);
    supervisor.scan(&[], Some(&[0xC52B, 0xC547]));
    let plan = supervisor.scan(&[], Some(&[0xC547]));
    assert_eq!(
        plan.retired,
        [Retired {
            pid: 0xC52B,
            unplugged: true
        }]
    );
    assert!(plan.spawned.is_empty());
    // Plugged in again, it gets a new one.
    assert_eq!(
        supervisor.scan(&[], Some(&[0xC547, 0xC52B])).spawned,
        [0xC52B]
    );
}

#[test]
fn a_worker_that_ended_is_replaced() {
    let mut supervisor = Supervisor::new(180);
    supervisor.scan(&[], Some(&[0xC52B, 0xC547]));
    let plan = supervisor.scan(&[0xC547], Some(&[0xC52B, 0xC547]));
    assert_eq!(
        plan.retired,
        [Retired {
            pid: 0xC547,
            unplugged: false
        }]
    );
    assert_eq!(plan.spawned, [0xC547]);
}

#[test]
fn a_failed_scan_is_not_an_empty_one() {
    let mut supervisor = Supervisor::new(180);
    supervisor.scan(&[], Some(&[0xC52B, 0xC547]));
    let plan = supervisor.scan(&[0xC52B], None);
    assert_eq!(
        plan.retired,
        [Retired {
            pid: 0xC52B,
            unplugged: false
        }]
    );
    assert!(plan.spawned.is_empty());
    assert_eq!(supervisor.workers, [0xC547]);
}

#[test]
fn commands_are_passed_on() {
    let mut supervisor = Supervisor::new(180);
    assert_eq!(
        supervisor.wake(Wakeup::Command(WorkerCommand::Refresh)),
        Order {
            pass_on: Some(WorkerCommand::Refresh),
            stop: false
        }
    );
    assert_eq!(
        supervisor.wake(Wakeup::Command(WorkerCommand::SetSafetyInterval(30))),
        Order {
            pass_on: Some(WorkerCommand::SetSafetyInterval(30)),
            stop: false
        }
    );
    assert_eq!(supervisor.safety_secs, 30);
    assert_eq!(
        supervisor.wake(Wakeup::Timeout),
        Order {
            pass_on: None,
            stop: false
        }
    );
    assert_eq!(
        supervisor.wake(Wakeup::Command(WorkerCommand::Exit)),
        Order {
            pass_on: Some(WorkerCommand::Exit),
            stop: true
        }
    );
    assert_eq!(
        supervisor.wake(Wakeup::Disconnected),
        Order {
            pass_on: None,
            stop: true
        }
    );
}
