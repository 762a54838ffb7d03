use lightkeeper::cooldown::{CooldownTimers, COOLDOWN_LENGTH};

#[test]
fn cooldown_runs_down() {
    let mut timers = CooldownTimers::new();
    assert!(timers.all_finished());
    timers.start_cooldown("host|restart", 7);
    assert_eq!(timers.cooldown_of("host|restart"), COOLDOWN_LENGTH);
    assert_eq!(timers.update_cooldowns(1000), 1);
    assert_eq!(timers.cooldown_of("host|restart"), COOLDOWN_LENGTH - 1000);
    assert_eq!(timers.cooldown_of("other"), 0);
}

#[test]
fn finished_command_cools_down_faster() {
    let mut timers = CooldownTimers::new();
    timers.start_cooldown("b", 1);
    timers.finish_cooldown(1);
    timers.finish_cooldown(99);
    assert_eq!(timers.update_cooldowns(1000), 1);
    assert_eq!(timers.cooldown_of("b"), COOLDOWN_LENGTH - 30_000);
    assert_eq!(timers.update_cooldowns(1000), 0);
    assert!(timers.all_finished());
    assert_eq!(timers.cooldown_of("b"), 0);
}

#[test]
fn exact_end_of_cooldown_removes_it() {
    let mut timers = CooldownTimers::new();
    timers.start_cooldown("a", 1);
    assert_eq!(timers.update_cooldowns(COOLDOWN_LENGTH), 0);
    timers.start_cooldown("a", 2);
    timers.start_cooldown("c", 3);
    assert_eq!(timers.update_cooldowns(COOLDOWN_LENGTH - 1), 2);
}

#[test]
fn large_step_without_finished_commands() {
    let mut timers = CooldownTimers::new();
    timers.start_cooldown("b", 1);
    assert_eq!(timers.update_cooldowns(u32::MAX), 0);
    assert_eq!(timers.cooldown_of("b"), 0);
}
