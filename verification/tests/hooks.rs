use std::sync::atomic::{AtomicUsize, Ordering};
use utsh::hooks::{HookEvent, Hooks};

type HookFn = Box<dyn Fn(&HookEvent) + Send + Sync>;

#[test]
fn hooks_run_in_order() {
    let calls = std::sync::Arc::new(AtomicUsize::new(0));
    let mut hooks: Hooks<HookFn> = Hooks::new();
    for _ in 0..3 {
        let calls = calls.clone();
        hooks.add_preexec(Box::new(move |ev: &HookEvent| {
            assert_eq!(ev.command.as_deref(), Some("ls -la"));
            calls.fetch_add(1, Ordering::SeqCst);
        }));
    }
    hooks.run_preexec("ls -la");
    assert_eq!(calls.load(Ordering::SeqCst), 3);
    assert_eq!(hooks.len(), (3, 0));
}

#[test]
fn precmd_receives_exit_code() {
    let got = std::sync::Arc::new(std::sync::Mutex::new(None::<i32>));
    let mut hooks: Hooks<HookFn> = Hooks::new();
    let got2 = got.clone();
    hooks.add_precmd(Box::new(move |ev: &HookEvent| *got2.lock().unwrap() = ev.exit_status));
    hooks.run_precmd(42, None);
    assert_eq!(*got.lock().unwrap(), Some(42));
}

#[test]
fn hook_order_is_registration_order() {
    let log = std::sync::Arc::new(std::sync::Mutex::new(Vec::<usize>::new()));
    let mut hooks: Hooks<HookFn> = Hooks::new();
    assert!(hooks.is_empty());
    for k in 0..3usize {
        let log = log.clone();
        hooks.add_preexec(Box::new(move |_ev: &HookEvent| log.lock().unwrap().push(k)));
    }
    hooks.run_preexec("x");
    assert_eq!(*log.lock().unwrap(), vec![0, 1, 2]);
    let e = HookEvent::precmd(1, Some("/tmp".to_string()));
    assert_eq!(e.command, None);
    assert_eq!(e.cwd.as_deref(), Some("/tmp"));
}
