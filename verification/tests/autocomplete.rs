use workspace_ctrl::autocomplete::{AutocompleteState, WorkerReply, AUTOCOMPLETE_DEBOUNCE_MS};

#[test]
fn debounce_no_lanza_worker_antes_del_plazo() {
    let mut s = AutocompleteState::new();
    let t0 = 5_000u64;
    s.request("C:\\x".to_string(), t0);
    // Just requested: the debounce is running, so work is pending but nothing is launched.
    let step = s.drive(t0);
    assert!(step.busy);
    assert!(step.launch.is_none(), "no lookup may start within the debounce");
    // Once the debounce ran out, the lookup starts.
    let step = s.drive(t0 + AUTOCOMPLETE_DEBOUNCE_MS);
    assert!(step.busy);
    assert_eq!(step.launch, Some("C:\\x".to_string()), "after the debounce the lookup starts");
}

#[test]
fn resultado_de_buffer_obsoleto_se_descarta() {
    let mut s = AutocompleteState::new();
    let t0 = 100u64;
    // Ask for A and start its lookup; before it answers, the user types on (B).
    s.request("C:\\tmp\\a".to_string(), t0);
    let step = s.drive(t0 + AUTOCOMPLETE_DEBOUNCE_MS);
    assert_eq!(step.launch, Some("C:\\tmp\\a".to_string()));
    s.request("C:\\tmp\\b".to_string(), t0 + AUTOCOMPLETE_DEBOUNCE_MS);
    // The answer for A arrives stale: it is taken but not handed on.
    let delivered = s.poll(WorkerReply::Done("C:\\tmp\\a".to_string(), vec!["Alpha".to_string()]));
    assert!(delivered.is_none(), "an answer for an old buffer must not be delivered: {delivered:?}");
    // B gets its own lookup after the pause.
    let step = s.drive(t0 + 2 * AUTOCOMPLETE_DEBOUNCE_MS);
    assert_eq!(step.launch, Some("C:\\tmp\\b".to_string()));
}

#[test]
fn entrega_sugerencias_del_buffer_vigente_y_deja_de_estar_busy() {
    let buffer = "C:\\tmp\\al".to_string();
    let mut s = AutocompleteState::new();
    let t0 = 0u64;
    s.request(buffer.clone(), t0);
    let step = s.drive(t0 + AUTOCOMPLETE_DEBOUNCE_MS);
    assert!(step.busy, "a lookup in flight keeps the timer busy");
    assert_eq!(s.poll(WorkerReply::Pending), None);
    let Some((buf, sugg)) = s.poll(WorkerReply::Done(buffer.clone(), vec!["Alpha".to_string()]))
    else {
        panic!("the answer for the latest buffer must be delivered");
    };
    assert_eq!(buf, buffer);
    assert!(sugg.iter().any(|x| x == "Alpha"), "suggestions: {sugg:?}");
    // Once delivered, nothing is pending.
    assert!(!s.drive(t0 + 10 * AUTOCOMPLETE_DEBOUNCE_MS).busy, "nothing pending, not busy");
}

#[test]
fn cancel_drops_everything_pending() {
    let mut s = AutocompleteState::new();
    s.request("x".to_string(), 0);
    assert!(s.drive(AUTOCOMPLETE_DEBOUNCE_MS).launch.is_some());
    s.cancel();
    assert_eq!(s.poll(WorkerReply::Done("x".to_string(), vec![])), None);
    let step = s.drive(10 * AUTOCOMPLETE_DEBOUNCE_MS);
    assert!(!step.busy);
    assert!(step.launch.is_none());
}

#[test]
fn one_request_one_lookup_and_a_gone_worker_frees_the_timer() {
    let mut s = AutocompleteState::new();
    s.request("y".to_string(), 50);
    assert!(s.drive(50 + AUTOCOMPLETE_DEBOUNCE_MS).launch.is_some());
    // Later ticks do not start the same lookup again.
    let again = s.drive(50 + 5 * AUTOCOMPLETE_DEBOUNCE_MS);
    assert!(again.launch.is_none());
    assert!(again.busy);
    // The worker ends without answering: nothing is delivered and nothing stays pending.
    assert_eq!(s.poll(WorkerReply::Gone), None);
    assert!(!s.drive(60 + 5 * AUTOCOMPLETE_DEBOUNCE_MS).busy);
    // A clock that goes backwards counts as no time elapsed.
    s.request("z".to_string(), 1_000);
    let early = s.drive(10);
    assert!(early.busy);
    assert!(early.launch.is_none());
}
