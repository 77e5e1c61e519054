use utsh::job_control::{JobControl, JobState};

#[test]
fn job_states() {
    assert!(JobState::Foreground.is_running());
    assert!(JobState::Background.is_running());
    assert!(!JobState::Stopped.is_running());
    assert!(!JobState::Done.is_running());
}

#[test]
fn register_finish_and_reap() {
    let mut jc = JobControl::new();
    assert!(jc.is_empty());
    let a = jc.register(100, "sleep 1");
    let b = jc.register(200, "echo ok");
    assert_eq!((a, b), (1, 2));
    assert_eq!(jc.len(), 2);
    assert_eq!(jc.get(b).unwrap().state, JobState::Background);
    jc.finish(b, Some(0));
    assert_eq!(jc.get(b).unwrap().state, JobState::Done);
    jc.finish(b, Some(5));
    assert_eq!(jc.get(b).unwrap().exit_code, Some(0));
    let reaped = jc.reap_done();
    assert_eq!(reaped, vec![(2, "echo ok".to_string(), Some(0))]);
    assert!(jc.get(b).is_none());
    assert_eq!(jc.len(), 1);
    assert_eq!(jc.jobs()[0].id, 1);
    let c = jc.register(300, "x");
    assert_eq!(c, 3);
}
