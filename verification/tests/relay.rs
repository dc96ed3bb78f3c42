use pterodactil::relay::{after_callback, MapOnce, MapRelay, RelayError};

#[test]
fn map_once_relays_one_message() {
    let mut relay = MapOnce::new(9, |x: u32| x * 2);
    assert_eq!(relay.relay(21u32), Ok((9, 42u32)));
    assert_eq!(relay.relay(1u32), Err(RelayError::CalledMoreThanOnce));
}

#[test]
fn map_relays_every_message() {
    let mut count = 0u32;
    let mut relay = MapRelay::new(4, move |x: u32| {
        count += 1;
        x + count
    });
    assert_eq!(relay.relay(10u32), Ok((4, 11u32)));
    assert_eq!(relay.relay(10u32), Ok((4, 12u32)));
    assert_eq!(relay.relay(0u32), Ok((4, 3u32)));
}

#[test]
fn callbacks_stop_when_they_return_false() {
    assert_eq!(after_callback::<&str>(Ok(false)), Ok(true));
    assert_eq!(after_callback::<&str>(Ok(true)), Ok(false));
    assert_eq!(after_callback::<&str>(Err("failed")), Err("failed"));
}

#[test]
fn map_once_passes_exactly_one_of_many() {
    let mut relay = MapOnce::new(2, |x: u8| x + 1);
    let out = relay.relay_all(vec![1u8, 2, 3]);
    assert_eq!(out, vec![Ok((2, 2u8)), Err(RelayError::CalledMoreThanOnce), Err(RelayError::CalledMoreThanOnce)]);
    let mut unused = MapOnce::new(2, |x: u8| x + 1);
    assert!(unused.relay_all(Vec::<u8>::new()).is_empty());
    assert_eq!(unused.relay(5u8), Ok((2, 6u8)));
}

#[test]
fn map_passes_every_message_in_order() {
    let mut relay = MapRelay::new(3, |x: u8| x * 10);
    assert_eq!(relay.relay_all(vec![1u8, 2, 3]), vec![(3, 10u8), (3, 20u8), (3, 30u8)]);
}
