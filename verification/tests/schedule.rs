use raid_roster::models::{CapacityConfig, Raid};
use raid_roster::schedule::{
    after_cleanup, delay_until, move_by, on_fire, priority_deadline, restore_schedules,
    send_reminder, timers_for, Armed, ClaimLedger, Firing, Timer, TimerAction, CLAIM_TTL,
    CLEANUP_GRACE, HOUR, MINUTE, REMINDER_LEAD,
};

fn raid(id: u128, scheduled_for: i64, until: Option<i64>, is_active: bool) -> Raid {
    Raid {
        id,
        guild_id: 1,
        channel_id: 2,
        message_id: 3,
        scheduled_for,
        created_by: 4,
        owner_id: 4,
        description: String::from("fun"),
        is_active,
        raid_name: String::from("Arma"),
        capacity: CapacityConfig::new(12, true, 1, until, vec![]).unwrap(),
    }
}

#[test]
fn units_of_time() {
    assert_eq!(MINUTE, 60 * 1_000_000);
    assert_eq!(HOUR, 60 * MINUTE);
    assert_eq!(REMINDER_LEAD, 15 * MINUTE);
    assert_eq!(CLEANUP_GRACE, 20 * MINUTE);
    assert_eq!(CLAIM_TTL, 48 * HOUR);
}

#[test]
fn a_due_time_in_the_past_runs_at_once() {
    assert_eq!(delay_until(100, 250), 0);
    assert_eq!(delay_until(250, 250), 0);
    assert_eq!(delay_until(250, 100), 150);
    assert_eq!(delay_until(i64::MAX, i64::MIN), u64::MAX);
    assert_eq!(delay_until(i64::MIN, i64::MAX), 0);
}

#[test]
fn moving_a_time_stays_within_the_clock() {
    assert_eq!(move_by(10, 5), 15);
    assert_eq!(move_by(10, -25), -15);
    assert_eq!(move_by(i64::MAX, 1), i64::MAX);
    assert_eq!(move_by(i64::MIN, -1), i64::MIN);
    assert_eq!(move_by(0, i128::MAX), i64::MAX);
    assert_eq!(move_by(i64::MAX, i128::MIN), i64::MIN);
    assert_eq!(move_by(i64::MIN, 1 << 64), i64::MAX);
    assert_eq!(move_by(i64::MIN, u64::MAX as i128), i64::MAX);
    assert_eq!(priority_deadline(10 * HOUR, 3), 7 * HOUR);
    assert_eq!(priority_deadline(0, -2), 2 * HOUR);
    assert_eq!(priority_deadline(i64::MIN, i64::MAX), i64::MIN);
}

#[test]
fn a_raid_implies_three_timers_with_a_priority_window() {
    let start = 1_000 * HOUR;
    let timers = timers_for(&raid(9, start, Some(start - 5 * HOUR), true), 2);
    assert_eq!(
        timers,
        vec![
            Timer { raid_id: 9, action: TimerAction::PromoteAfterPriority, run_at: start - 5 * HOUR },
            Timer { raid_id: 9, action: TimerAction::Reminder, run_at: start - 15 * MINUTE },
            Timer { raid_id: 9, action: TimerAction::Cleanup, run_at: start + 2 * HOUR + 20 * MINUTE },
        ]
    );
}

#[test]
fn a_raid_without_a_window_implies_two_timers() {
    let timers = timers_for(&raid(9, 0, None, true), 1);
    assert_eq!(
        timers,
        vec![
            Timer { raid_id: 9, action: TimerAction::Reminder, run_at: -900_000_000 },
            Timer { raid_id: 9, action: TimerAction::Cleanup, run_at: 4_800_000_000 },
        ]
    );
}

#[test]
fn recovery_arms_the_timers_of_active_raids_only() {
    let start = 10 * HOUR;
    let raids = vec![
        (raid(1, start, None, true), 1u32),
        (raid(2, start, Some(start - HOUR), false), 1u32),
        (raid(3, start, Some(start - HOUR), true), 0u32),
    ];
    let now = start - 30 * MINUTE;
    let armed = restore_schedules(&raids, now);
    assert_eq!(
        armed,
        vec![
            Armed {
                timer: Timer { raid_id: 1, action: TimerAction::Reminder, run_at: start - 15 * MINUTE },
                wait: (15 * MINUTE) as u64,
            },
            Armed {
                timer: Timer { raid_id: 1, action: TimerAction::Cleanup, run_at: start + HOUR + 20 * MINUTE },
                wait: (110 * MINUTE) as u64,
            },
            Armed {
                timer: Timer { raid_id: 3, action: TimerAction::PromoteAfterPriority, run_at: start - HOUR },
                wait: 0,
            },
            Armed {
                timer: Timer { raid_id: 3, action: TimerAction::Reminder, run_at: start - 15 * MINUTE },
                wait: (15 * MINUTE) as u64,
            },
            Armed {
                timer: Timer { raid_id: 3, action: TimerAction::Cleanup, run_at: start + 20 * MINUTE },
                wait: (50 * MINUTE) as u64,
            },
        ]
    );
    assert!(restore_schedules(&vec![], now).is_empty());
}

#[test]
fn a_cancelled_raid_gets_no_reminder() {
    assert_eq!(on_fire(TimerAction::Reminder, true), Firing::ClaimReminder);
    assert_eq!(on_fire(TimerAction::Reminder, false), Firing::Skip);
    assert_eq!(on_fire(TimerAction::PromoteAfterPriority, true), Firing::RunPromotion);
    assert_eq!(on_fire(TimerAction::PromoteAfterPriority, false), Firing::RunPromotion);
    assert_eq!(on_fire(TimerAction::Cleanup, false), Firing::RemoveArtifacts);
    assert!(send_reminder(true, true));
    assert!(!send_reminder(false, true));
    assert!(!send_reminder(true, false));
}

#[test]
fn a_cleanup_that_worked_makes_the_raid_inactive() {
    let mut r = raid(1, 0, None, true);
    after_cleanup(&mut r, false);
    assert!(r.is_active);
    after_cleanup(&mut r, true);
    assert!(!r.is_active);
    assert!(restore_schedules(&vec![(r, 1)], 0).is_empty());
}

#[test]
fn two_processes_racing_for_a_reminder_send_it_once() {
    let mut ledger = ClaimLedger::new();
    let first = ledger.try_claim(42, 1_000);
    let second = ledger.try_claim(42, 1_000);
    assert!(first);
    assert!(!second);
    let sent = [first, second].iter().filter(|won| send_reminder(**won, true)).count();
    assert_eq!(sent, 1);
    assert!(ledger.try_claim(43, 1_000));
    assert_eq!(ledger.claims, vec![(42, 1_000 + CLAIM_TTL), (43, 1_000 + CLAIM_TTL)]);
}

#[test]
fn a_claim_lapses_after_two_days() {
    let mut ledger = ClaimLedger::new();
    assert!(ledger.try_claim(42, 0));
    assert!(!ledger.try_claim(42, CLAIM_TTL - 1));
    assert!(ledger.try_claim(42, CLAIM_TTL));
}
