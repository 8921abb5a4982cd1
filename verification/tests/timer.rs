use blightmud::timer::{Schedule, TimerNotice};

#[test]
fn test_schedule() {
    let mut schedule: Schedule<&'static str> = Schedule::new();
    let guard = "repeating every 0 ms";
    schedule.add_job(guard, Some(1), 1, false);
    schedule.run_job(1);
    assert_eq!(schedule.job_count(), 1);
    schedule.run_job(1);
    assert!(schedule.is_empty());

    let guard = "repeating every 0 ms";
    schedule.add_job(guard, Some(1), 1, false);
    assert_eq!(schedule.job_count(), 1);
    schedule.clear_jobs(true);
    assert!(schedule.is_empty());
}

#[test]
fn firing_reports_runs_and_the_last_one() {
    let mut schedule: Schedule<u8> = Schedule::new();
    schedule.add_job(0, Some(1), 7, false);
    assert_eq!(schedule.run_job(7), Some(TimerNotice::TimedEvent(7)));
    assert_eq!(schedule.run_job(7), Some(TimerNotice::DropTimedEvent(7)));
    assert_eq!(schedule.run_job(7), None);
}

#[test]
fn endless_jobs_keep_running() {
    let mut schedule: Schedule<u8> = Schedule::new();
    schedule.add_job(0, None, 3, false);
    for _ in 0..5 {
        assert_eq!(schedule.run_job(3), Some(TimerNotice::TimedEvent(3)));
    }
    assert_eq!(schedule.job_count(), 1);
}

#[test]
fn core_jobs_survive_clearing_script_jobs() {
    let mut schedule: Schedule<u8> = Schedule::new();
    schedule.add_job(0, None, 1, true);
    schedule.add_job(0, None, 2, false);
    schedule.clear_jobs(false);
    assert!(schedule.is_empty());
    assert_eq!(schedule.run_job(1), Some(TimerNotice::TimedEvent(1)));
    schedule.remove_job(2);
    assert_eq!(schedule.run_job(2), None);
}
