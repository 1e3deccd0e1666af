//! Sliding doors: a small state machine driven by proximity and key
//! possession, moving the leaf along its open direction at a fixed speed.

use vstd::prelude::*;

verus! {

/// Where a door is in its cycle.
#[derive(Clone, Copy, Debug, PartialEq, Eq, Structural)]
pub enum DoorState {
    Opened,
    Opening,
    Closed,
    Closing,
    Locked,
    Broken,
}

impl Default for DoorState {
    /// Doors start closed.
    fn default() -> (r: DoorState)
        ensures
            r == DoorState::Closed,
    {
        DoorState::Closed
    }
}

/// Along which local axis the leaf slides open.
#[derive(Clone, Copy, Debug, PartialEq, Eq, Structural)]
pub enum DoorDirection {
    Side,
    Up,
}

impl Default for DoorDirection {
    /// Doors slide sideways unless configured otherwise.
    fn default() -> (r: DoorDirection)
        ensures
            r == DoorDirection::Side,
    {
        DoorDirection::Side
    }
}

/// How fast the leaf slides, milli-units per second.
pub const DOOR_SPEED_MILLI_PER_S: i64 = 550;

/// A sound the door asks the host to play.
#[derive(Clone, Copy, Debug, PartialEq, Eq, Structural)]
pub enum DoorSound {
    Open,
    AccessGranted,
    AccessDenied,
    Close,
}

/// What the door's status lights should show.
#[derive(Clone, Copy, Debug, PartialEq, Eq, Structural)]
pub enum DoorLights {
    Off,
    Green,
    Red,
}

/// One sliding door. The host owns the scene nodes; the door owns its cycle
/// and its current offset along the open direction.
#[derive(Clone, Copy, Debug, PartialEq, Eq, Structural)]
pub struct Door {
    pub state: DoorState,
    pub open_direction: DoorDirection,
    /// Current slide offset, milli-units.
    pub offset_milli: i64,
    /// Offset of the fully open leaf, milli-units.
    pub open_offset_amount_milli: i64,
}

impl Door {
    pub open spec fn wf(self) -> bool {
        &&& 0 <= self.offset_milli <= crate::vecmath::POS_BOUND
        &&& 0 <= self.open_offset_amount_milli <= crate::vecmath::POS_BOUND
    }

    pub fn new(state: DoorState, open_direction: DoorDirection, open_offset_amount_milli: i64) -> (r:
        Door)
        requires
            0 <= open_offset_amount_milli <= crate::vecmath::POS_BOUND,
        ensures
            r.wf(),
            r == (Door { state, open_direction, offset_milli: 0, open_offset_amount_milli }),
    {
        Door { state, open_direction, offset_milli: 0, open_offset_amount_milli }
    }

    /// The state and sounds after an open attempt by someone who may hold the
    /// master key.
    pub open spec fn try_open_spec(self, has_master_key: bool) -> (Door, Seq<DoorSound>) {
        if self.state is Closed {
            (Door { state: DoorState::Opening, ..self }, seq![DoorSound::Open])
        } else if self.state is Locked {
            if has_master_key {
                (
                    Door { state: DoorState::Opening, ..self },
                    seq![DoorSound::Open, DoorSound::AccessGranted],
                )
            } else {
                (self, seq![DoorSound::AccessDenied])
            }
        } else {
            (self, Seq::empty())
        }
    }

    /// Try to open the door: a closed door starts opening; a locked door
    /// opens only to a master key and refuses otherwise; any other state
    /// ignores the attempt.
    pub fn try_open(&mut self, has_master_key: bool) -> (sounds: Vec<DoorSound>)
        requires
            old(self).wf(),
        ensures
            final(self).wf(),
            *final(self) == old(self).try_open_spec(has_master_key).0,
            sounds@ == old(self).try_open_spec(has_master_key).1,
    {
        let mut sounds: Vec<DoorSound> = Vec::new();
        match self.state {
            DoorState::Closed => {
                self.state = DoorState::Opening;
                sounds.push(DoorSound::Open);
                proof {
                    assert(sounds@ =~= seq![DoorSound::Open]);
                }
            },
            DoorState::Locked => {
                if has_master_key {
                    self.state = DoorState::Opening;
                    sounds.push(DoorSound::Open);
                    sounds.push(DoorSound::AccessGranted);
                    proof {
                        assert(sounds@ =~= seq![DoorSound::Open, DoorSound::AccessGranted]);
                    }
                } else {
                    sounds.push(DoorSound::AccessDenied);
                    proof {
                        assert(sounds@ =~= seq![DoorSound::AccessDenied]);
                    }
                }
            },
            _ => {},
        }
        sounds
    }

    /// The door after one frame: an opened door with nobody nearby starts
    /// closing; an opening or closing leaf advances by the door speed and
    /// latches at its end position; the lights show green on a closed door,
    /// red on a locked one and nothing while the leaf moves or is broken.
    pub open spec fn update_spec(self, someone_nearby: bool, dt: int) -> (
        Door,
        DoorLights,
        Seq<DoorSound>,
    ) {
        let step = (DOOR_SPEED_MILLI_PER_S as int) * dt / 1000;
        let (d0, sounds) = if !someone_nearby && self.state is Opened {
            (Door { state: DoorState::Closing, ..self }, seq![DoorSound::Close])
        } else {
            (self, Seq::<DoorSound>::empty())
        };
        match d0.state {
            DoorState::Opening => {
                let d1 = if d0.offset_milli < d0.open_offset_amount_milli {
                    if d0.offset_milli + step >= d0.open_offset_amount_milli {
                        Door {
                            state: DoorState::Opened,
                            offset_milli: d0.open_offset_amount_milli,
                            ..d0
                        }
                    } else {
                        Door { offset_milli: (d0.offset_milli + step) as i64, ..d0 }
                    }
                } else {
                    d0
                };
                (d1, DoorLights::Off, sounds)
            },
            DoorState::Closing => {
                let d1 = if d0.offset_milli > 0 {
                    if d0.offset_milli - step <= 0 {
                        Door { state: DoorState::Closed, offset_milli: 0, ..d0 }
                    } else {
                        Door { offset_milli: (d0.offset_milli - step) as i64, ..d0 }
                    }
                } else {
                    d0
                };
                (d1, DoorLights::Off, sounds)
            },
            DoorState::Closed => (d0, DoorLights::Green, sounds),
            DoorState::Locked => (d0, DoorLights::Red, sounds),
            _ => (d0, DoorLights::Off, sounds),
        }
    }

    /// Advance the door by one frame.
    pub fn update(&mut self, someone_nearby: bool, dt_ms: i64) -> (r: (DoorLights, Vec<DoorSound>))
        requires
            old(self).wf(),
            0 <= dt_ms <= crate::angle::DT_BOUND_MS,
        ensures
            final(self).wf(),
            *final(self) == old(self).update_spec(someone_nearby, dt_ms as int).0,
            r.0 == old(self).update_spec(someone_nearby, dt_ms as int).1,
            r.1@ == old(self).update_spec(someone_nearby, dt_ms as int).2,
    {
        let step: i64 = DOOR_SPEED_MILLI_PER_S * dt_ms / 1000;
        let mut sounds: Vec<DoorSound> = Vec::new();
        let nearby_close = !someone_nearby && matches!(self.state, DoorState::Opened);
        if nearby_close {
            self.state = DoorState::Closing;
            sounds.push(DoorSound::Close);
            proof {
                assert(sounds@ =~= seq![DoorSound::Close]);
            }
        }
        let lights = match self.state {
            DoorState::Opening => {
                if self.offset_milli < self.open_offset_amount_milli {
                    if self.offset_milli + step >= self.open_offset_amount_milli {
                        self.state = DoorState::Opened;
                        self.offset_milli = self.open_offset_amount_milli;
                    } else {
                        self.offset_milli = self.offset_milli + step;
                    }
                }
                DoorLights::Off
            },
            DoorState::Closing => {
                if self.offset_milli > 0 {
                    if self.offset_milli - step <= 0 {
                        self.state = DoorState::Closed;
                        self.offset_milli = 0;
                    } else {
                        self.offset_milli = self.offset_milli - step;
                    }
                }
                DoorLights::Off
            },
            DoorState::Closed => DoorLights::Green,
            DoorState::Locked => DoorLights::Red,
            _ => DoorLights::Off,
        };
        (lights, sounds)
    }
}

/// How close an agent must stand to interact with a door, milli-units.
pub const DOOR_INTERACTION_DISTANCE_MILLI: i64 = 1_250;

/// The doors within interaction distance of the position, in list order.
/// Each pair is a door's handle and its initial position.
pub open spec fn near_doors_spec(doors: Seq<(u64, crate::vecmath::Vec3i)>, actor: crate::vecmath::Vec3i) -> Seq<u64>
    decreases doors.len(),
{
    if doors.len() == 0 {
        Seq::empty()
    } else {
        let rest = near_doors_spec(doors.drop_last(), actor);
        if crate::vecmath::dist_sq_spec(doors.last().1, actor) <= DOOR_INTERACTION_DISTANCE_MILLI
            * DOOR_INTERACTION_DISTANCE_MILLI {
            rest.push(doors.last().0)
        } else {
            rest
        }
    }
}

/// Which doors an agent standing at the given position may try to open.
pub fn doors_near_actor(
    doors: &Vec<(u64, crate::vecmath::Vec3i)>,
    actor_position: crate::vecmath::Vec3i,
) -> (r: Vec<u64>)
    requires
        actor_position.in_bounds(),
        forall|i: int| 0 <= i < doors@.len() ==> (#[trigger] doors@[i]).1.in_bounds(),
    ensures
        r@ == near_doors_spec(doors@, actor_position),
{
    let mut r: Vec<u64> = Vec::new();
    let n = doors.len();
    let mut k: usize = 0;
    proof {
        assert(doors@.take(0int) =~= Seq::<(u64, crate::vecmath::Vec3i)>::empty());
    }
    while k < n
        invariant
            0 <= k <= n,
            n == doors@.len(),
            actor_position.in_bounds(),
            forall|i: int| 0 <= i < doors@.len() ==> (#[trigger] doors@[i]).1.in_bounds(),
            r@ == near_doors_spec(doors@.take(k as int), actor_position),
        decreases n - k,
    {
        proof {
            assert(doors@.take(k as int + 1).drop_last() =~= doors@.take(k as int));
            assert(doors@.take(k as int + 1).last() == doors@[k as int]);
        }
        let (handle, position) = doors[k];
        if crate::vecmath::dist_sq(&position, &actor_position) <= DOOR_INTERACTION_DISTANCE_MILLI
            * DOOR_INTERACTION_DISTANCE_MILLI {
            r.push(handle);
        }
        k = k + 1;
    }
    proof {
        assert(doors@.take(n as int) =~= doors@);
    }
    r
}

} // verus!
