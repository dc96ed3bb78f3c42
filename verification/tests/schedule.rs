use pterodactil::schedule::{stop_after_process, After, ProcessFailed, Schedule};

#[test]
fn schedule_is_fifo_without_duplicates() {
    let mut s = Schedule::new();
    s.push(3);
    s.push(1);
    s.push(3);
    s.push(2);
    assert_eq!(s.take_next(), Some(3));
    s.push(3);
    assert_eq!(s.take_next(), Some(1));
    assert_eq!(s.take_next(), Some(2));
    assert_eq!(s.take_next(), Some(3));
    assert_eq!(s.take_next(), None);
}

#[test]
fn stop_only_when_asked() {
    assert!(stop_after_process(Ok(After::Stop)));
    assert!(!stop_after_process(Ok(After::Nothing)));
    assert!(!stop_after_process(Err(ProcessFailed)));
}

#[test]
fn run_queued_processes_in_order_and_defers_new_work() {
    let mut s = Schedule::new();
    s.push(1);
    s.push(2);
    s.push(3);
    let steps = s.run_queued(|id: u64| match id {
        1 => (Ok(After::Stop), vec![2, 4]),
        2 => (Err(ProcessFailed), vec![1]),
        _ => (Ok(After::Nothing), vec![]),
    });
    let ids: Vec<u64> = steps.iter().map(|st| st.id).collect();
    assert_eq!(ids, vec![1, 2, 3]);
    let stops: Vec<bool> = steps.iter().map(|st| st.stop).collect();
    assert_eq!(stops, vec![true, false, false]);
    assert_eq!(steps[0].scheduled, vec![2, 4]);
    assert_eq!(s.take_next(), Some(4));
    assert_eq!(s.take_next(), Some(1));
    assert_eq!(s.take_next(), None);
}
