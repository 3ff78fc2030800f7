use stellarconduit_core::message::types::TopologyFlag;
use stellarconduit_core::time::TimeSpan;
use stellarconduit_core::transport::power::{
    InterfacePowerState, PowerManager, PowerMode, IDLE_SLEEP_TIMEOUT_MS,
};

fn idle_sleep_timeout() -> TimeSpan {
    TimeSpan::from_millis(IDLE_SLEEP_TIMEOUT_MS)
}

#[test]
fn awake_window_alignment_uses_shared_modulo_barrier() {
    let manager = PowerManager::new(TimeSpan::from_secs(0));
    assert!(manager.is_awake_window(TimeSpan::from_millis(10)));
    assert!(!manager.is_awake_window(TimeSpan::from_millis(4_999)));
    assert!(manager.is_awake_window(TimeSpan::from_millis(5_000)));
    assert!(manager.is_awake_window(TimeSpan::from_millis(5_499)));
    assert!(!manager.is_awake_window(TimeSpan::from_millis(5_500)));
}

#[test]
fn next_awake_barrier_rounds_up_to_next_five_second_boundary() {
    let manager = PowerManager::new(TimeSpan::from_secs(0));
    assert_eq!(
        manager.next_awake_barrier(TimeSpan::from_millis(1_250)),
        TimeSpan::from_secs(5)
    );
    assert_eq!(
        manager.next_awake_barrier(TimeSpan::from_secs(5)),
        TimeSpan::from_secs(10)
    );
}

#[test]
fn idle_timeout_emits_single_go_to_sleep_flag() {
    let mut manager = PowerManager::new(TimeSpan::from_secs(0));

    let first = manager.tick(idle_sleep_timeout());
    assert_eq!(manager.mode(), PowerMode::SynchronizedLowPower);
    assert_eq!(first.topology_flags, vec![TopologyFlag::GoToSleep]);
    assert_eq!(first.interface_state, InterfacePowerState::awake());

    let second = manager.tick(idle_sleep_timeout().plus(&TimeSpan::from_secs(1)));
    assert!(second.topology_flags.is_empty());
    assert_eq!(second.interface_state, InterfacePowerState::sleeping());
}

#[test]
fn sleeping_transaction_waits_for_next_barrier_and_wakes_network() {
    let mut manager = PowerManager::new(TimeSpan::from_secs(0));
    manager.tick(idle_sleep_timeout());

    let sleeping =
        manager.record_outbound_transaction(idle_sleep_timeout().plus(&TimeSpan::from_millis(1_000)));
    assert_eq!(sleeping.interface_state, InterfacePowerState::sleeping());
    assert!(!sleeping.wake_network);
    assert_eq!(manager.mode(), PowerMode::SynchronizedLowPower);

    let awake = manager.tick(idle_sleep_timeout().plus(&TimeSpan::from_secs(5)));
    assert!(awake.wake_network);
    assert_eq!(awake.interface_state, InterfacePowerState::awake());
    assert_eq!(manager.mode(), PowerMode::HighPower);
}

#[test]
fn incoming_transaction_restores_high_power() {
    let mut manager = PowerManager::new(TimeSpan::from_secs(0));
    manager.tick(idle_sleep_timeout());
    assert_eq!(manager.mode(), PowerMode::SynchronizedLowPower);
    let d = manager.record_incoming_transaction(idle_sleep_timeout().plus(&TimeSpan::from_millis(2_000)));
    assert_eq!(manager.mode(), PowerMode::HighPower);
    assert_eq!(d.interface_state, InterfacePowerState::awake());
    assert!(d.topology_flags.is_empty());
    assert!(!d.wake_network);
}

#[test]
fn next_awake_barrier_exact_value() {
    let manager = PowerManager::new(TimeSpan::from_secs(0));
    assert_eq!(
        manager.next_awake_barrier(TimeSpan::from_millis(12_345)),
        TimeSpan::from_secs(15)
    );
}

#[test]
fn interfaces_follow_mode_and_window() {
    let mut manager = PowerManager::new(TimeSpan::from_secs(0));
    assert_eq!(manager.interface_state(TimeSpan::from_millis(1_000)), InterfacePowerState::awake());
    manager.tick(idle_sleep_timeout());
    assert_eq!(manager.interface_state(TimeSpan::from_millis(301_000)), InterfacePowerState::sleeping());
    assert_eq!(manager.interface_state(TimeSpan::from_millis(305_100)), InterfacePowerState::awake());
}
