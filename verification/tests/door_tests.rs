use bot_core::door::{Door, DoorDirection, DoorLights, DoorSound, DoorState};

#[test]
fn t_door_opens_then_closes() {
    let mut d = Door::new(DoorState::Closed, DoorDirection::Side, 1_100);
    let sounds = d.try_open(false);
    assert_eq!(d.state, DoorState::Opening);
    assert_eq!(sounds, vec![DoorSound::Open]);

    // 550 milli-units per second: two one-second frames to slide 1.1 units.
    let (lights, s1) = d.update(true, 1_000);
    assert_eq!(lights, DoorLights::Off);
    assert!(s1.is_empty());
    assert_eq!(d.offset_milli, 550);
    assert_eq!(d.state, DoorState::Opening);

    let (_, _) = d.update(true, 1_000);
    assert_eq!(d.state, DoorState::Opened);
    assert_eq!(d.offset_milli, 1_100);

    // Nobody nearby: the door starts closing, with the close sound.
    let (lights3, s3) = d.update(false, 1_000);
    assert_eq!(lights3, DoorLights::Off);
    assert_eq!(s3, vec![DoorSound::Close]);
    assert_eq!(d.state, DoorState::Closing);
    assert_eq!(d.offset_milli, 550);

    let (_, _) = d.update(false, 1_000);
    assert_eq!(d.state, DoorState::Closed);
    assert_eq!(d.offset_milli, 0);

    // A closed door shows green.
    let (lights5, s5) = d.update(false, 16);
    assert_eq!(lights5, DoorLights::Green);
    assert!(s5.is_empty());
}

#[test]
fn t_locked_door_needs_master_key() {
    let mut d = Door::new(DoorState::Locked, DoorDirection::Up, 2_000);
    // Without the key: refused, stays locked, shows red.
    let sounds = d.try_open(false);
    assert_eq!(sounds, vec![DoorSound::AccessDenied]);
    assert_eq!(d.state, DoorState::Locked);
    let (lights, _) = d.update(true, 16);
    assert_eq!(lights, DoorLights::Red);

    // With the key: opens, and announces it.
    let sounds2 = d.try_open(true);
    assert_eq!(sounds2, vec![DoorSound::Open, DoorSound::AccessGranted]);
    assert_eq!(d.state, DoorState::Opening);
}

#[test]
fn t_open_attempts_ignored_in_other_states() {
    let mut d = Door::new(DoorState::Broken, DoorDirection::Side, 1_000);
    assert!(d.try_open(true).is_empty());
    assert_eq!(d.state, DoorState::Broken);
    let (lights, _) = d.update(true, 16);
    assert_eq!(lights, DoorLights::Off);

    let mut d2 = Door::new(DoorState::Opening, DoorDirection::Side, 1_000);
    assert!(d2.try_open(false).is_empty());
    assert_eq!(d2.state, DoorState::Opening);
}

#[test]
fn t_door_defaults() {
    assert_eq!(DoorState::default(), DoorState::Closed);
    assert!(matches!(DoorDirection::default(), DoorDirection::Side));
}
