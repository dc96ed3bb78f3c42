use pterodactil::world::{stop_after_delivery, Delivery, Next, World, WorldTask};

#[test]
fn world_tasks_come_out_in_order() {
    let mut w = World::new();
    assert_eq!(w.next_task(), None);
    w.send(4, 40);
    w.start(7);
    w.send(0, 0);
    assert_eq!(w.next_task(), Some(WorldTask::Message { address: 4, message: 40 }));
    assert_eq!(w.next_task(), Some(WorldTask::Start { factory: 7 }));
    assert_eq!(w.next_task(), Some(WorldTask::Message { address: 0, message: 0 }));
    assert_eq!(w.next_task(), None);
}

#[test]
fn delivery_stops_only_on_request() {
    assert!(stop_after_delivery(Delivery::Handled(Next::Stop)));
    assert!(!stop_after_delivery(Delivery::Handled(Next::Continue)));
    assert!(!stop_after_delivery(Delivery::ActorMissing));
    assert!(!stop_after_delivery(Delivery::HandlerFailed));
}

#[test]
fn run_queued_performs_tasks_in_order() {
    let mut w = World::new();
    w.send(1, 10);
    w.start(5);
    w.send(2, 20);
    let steps = w.run_queued(|t: WorldTask| match t {
        WorldTask::Message { address: 1, .. } => (Delivery::Handled(Next::Stop), vec![WorldTask::Start { factory: 6 }]),
        WorldTask::Start { .. } => (Delivery::Handled(Next::Stop), vec![]),
        _ => (Delivery::HandlerFailed, vec![WorldTask::Message { address: 3, message: 30 }]),
    });
    assert_eq!(steps.len(), 3);
    assert_eq!(steps[0].task, WorldTask::Message { address: 1, message: 10 });
    assert!(steps[0].stop);
    assert_eq!(steps[1].task, WorldTask::Start { factory: 5 });
    assert!(!steps[1].stop);
    assert!(!steps[2].stop);
    assert_eq!(w.len(), 2);
    assert_eq!(w.next_task(), Some(WorldTask::Start { factory: 6 }));
    assert_eq!(w.next_task(), Some(WorldTask::Message { address: 3, message: 30 }));
}
