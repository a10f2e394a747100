use mail_autoconfig::context::Context;
use mail_autoconfig::job::{Action, Job, JobQueue};
use mail_autoconfig::ongoing::OngoingState;

#[test]
fn configure_replaces_a_waiting_configuration() {
    let mut ctx = Context::new();
    ctx.configure();
    assert_eq!(ctx.jobs.count(Action::ConfigureImap), 1);
    ctx.jobs.add(Action::Housekeeping, 7);
    ctx.configure();
    ctx.configure();
    assert_eq!(ctx.jobs.count(Action::ConfigureImap), 1);
    assert_eq!(ctx.jobs.len(), 2);
    assert_eq!(ctx.jobs.take_next(), Some(Job { action: Action::Housekeeping, foreign_id: 7 }));
    assert_eq!(ctx.jobs.take_next(), Some(Job { action: Action::ConfigureImap, foreign_id: 0 }));
    assert_eq!(ctx.jobs.take_next(), None);
}

#[test]
fn configure_does_nothing_while_an_operation_runs() {
    let mut ctx = Context::new();
    assert!(ctx.alloc_ongoing());
    ctx.configure();
    assert_eq!(ctx.jobs.count(Action::ConfigureImap), 0);
    ctx.free_ongoing();
    ctx.configure();
    assert_eq!(ctx.jobs.count(Action::ConfigureImap), 1);
}

#[test]
fn kill_action_takes_all_of_a_kind() {
    let mut q = JobQueue::new();
    q.add(Action::Housekeeping, 1);
    q.add(Action::ImexImap, 2);
    q.add(Action::Housekeeping, 3);
    q.replace_configure();
    q.kill_action(Action::Housekeeping);
    assert_eq!(q.len(), 2);
    assert_eq!(q.count(Action::Housekeeping), 0);
    assert_eq!(q.take_next(), Some(Job { action: Action::ImexImap, foreign_id: 2 }));
    q.kill_action(Action::ConfigureImap);
    assert_eq!(q.len(), 0);
}

#[test]
fn one_operation_at_a_time() {
    let mut o = OngoingState::new();
    assert!(!o.has_ongoing());
    assert!(o.alloc_ongoing());
    assert!(o.has_ongoing());
    assert!(!o.alloc_ongoing());
    assert!(!o.shall_stop_ongoing());
    o.stop_ongoing();
    assert!(o.shall_stop_ongoing());
    assert!(!o.alloc_ongoing());
    o.free_ongoing();
    assert!(!o.has_ongoing());
    assert!(!o.shall_stop_ongoing());
    o.stop_ongoing();
    assert!(!o.shall_stop_ongoing());
    assert!(o.alloc_ongoing());
    assert!(!o.shall_stop_ongoing());
}

#[test]
fn is_configured_reads_the_flag() {
    let mut ctx = Context::new();
    assert!(!ctx.is_configured());
    assert!(ctx.sql.open(None, false).is_ok());
    assert!(!ctx.is_configured());
    ctx.sql.set_raw_config_bool("configured", true).unwrap();
    assert!(ctx.is_configured());
    ctx.sql.set_raw_config("configured", Some("0")).unwrap();
    assert!(!ctx.is_configured());
    ctx.sql.set_raw_config("configured", Some("yes")).unwrap();
    assert!(!ctx.is_configured());
    ctx.sql.set_raw_config("configured", Some("2")).unwrap();
    assert!(ctx.is_configured());
    ctx.sql.close();
    assert!(!ctx.is_configured());
}

#[test]
fn adding_a_configuration_replaces_the_waiting_one() {
    let mut q = JobQueue::new();
    q.add(Action::ConfigureImap, 1);
    q.add(Action::Housekeeping, 2);
    q.add(Action::ConfigureImap, 3);
    assert_eq!(q.count(Action::ConfigureImap), 1);
    assert_eq!(q.take_next(), Some(Job { action: Action::Housekeeping, foreign_id: 2 }));
    assert_eq!(q.take_next(), Some(Job { action: Action::ConfigureImap, foreign_id: 3 }));
}
