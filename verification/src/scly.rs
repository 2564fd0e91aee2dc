//! The scripting section of a room: named layers of typed objects joined by
//! event connections.
//!
//! Property data is parsed lazily: an object fresh from the disc carries its
//! raw property bytes, and `promote` reinterprets them as a typed value the
//! first time a patch needs one.  Promotion never changes the serialized
//! form, so untouched objects re-serialize byte-exactly.

use vstd::prelude::*;
use crate::bytes::{Cursor, Sink, cstr_ok, u32_bytes, lemma_subrange_adjacent};
use crate::scly_props::{
    Actor, DamageableTrigger, HudMemo, MemoryRelay, Pickup, Platform, PlayerHint,
    PointOfInterest, Relay, Sound, SpawnPoint, SpecialFunction, StreamedAudio, Timer, Trigger,
    Water, WorldTransporter, actor_bytes, damageable_trigger_bytes, hud_memo_bytes,
    memory_relay_bytes, parse_actor, parse_damageable_trigger, parse_hud_memo,
    parse_memory_relay, parse_pickup, parse_platform, parse_player_hint,
    parse_point_of_interest, parse_relay, parse_sound, parse_spawn_point,
    parse_special_function, parse_streamed_audio, parse_timer, parse_trigger, parse_water,
    parse_world_transporter, pickup_bytes, platform_bytes, player_hint_bytes,
    point_of_interest_bytes, relay_bytes, sound_bytes, spawn_point_bytes,
    special_function_bytes, streamed_audio_bytes, timer_bytes, trigger_bytes, water_bytes,
    world_transporter_bytes, write_actor, write_damageable_trigger, write_hud_memo,
    write_memory_relay, write_pickup, write_platform, write_player_hint,
    write_point_of_interest, write_relay, write_sound, write_spawn_point,
    write_special_function, write_streamed_audio, write_timer, write_trigger, write_water,
    write_world_transporter,
};

verus! {

// Object type codes.
pub const OBJ_ACTOR: u8 = 0x00;
pub const OBJ_TRIGGER: u8 = 0x04;
pub const OBJ_TIMER: u8 = 0x05;
pub const OBJ_PLATFORM: u8 = 0x08;
pub const OBJ_SOUND: u8 = 0x09;
pub const OBJ_SPAWN_POINT: u8 = 0x0F;
pub const OBJ_PICKUP: u8 = 0x11;
pub const OBJ_MEMORY_RELAY: u8 = 0x13;
pub const OBJ_RELAY: u8 = 0x15;
pub const OBJ_HUD_MEMO: u8 = 0x17;
pub const OBJ_DAMAGEABLE_TRIGGER: u8 = 0x1A;
pub const OBJ_WATER: u8 = 0x20;
pub const OBJ_SPECIAL_FUNCTION: u8 = 0x3A;
pub const OBJ_PLAYER_HINT: u8 = 0x3E;
pub const OBJ_POINT_OF_INTEREST: u8 = 0x42;
pub const OBJ_STREAMED_AUDIO: u8 = 0x61;
pub const OBJ_WORLD_TRANSPORTER: u8 = 0x62;

// Connection states.
pub const STATE_ACTIVE: u32 = 0x00;
pub const STATE_ARRIVED: u32 = 0x01;
pub const STATE_CLOSED: u32 = 0x02;
pub const STATE_ENTERED: u32 = 0x03;
pub const STATE_EXITED: u32 = 0x04;
pub const STATE_INACTIVE: u32 = 0x05;
pub const STATE_INSIDE: u32 = 0x06;
pub const STATE_MAX_REACHED: u32 = 0x07;
pub const STATE_OPEN: u32 = 0x08;
pub const STATE_ZERO: u32 = 0x09;
pub const STATE_DEATH_RATTLE: u32 = 0x0B;

// Connection messages.
pub const MSG_ACTION: u32 = 0x01;
pub const MSG_ACTIVATE: u32 = 0x04;
pub const MSG_DEACTIVATE: u32 = 0x07;
pub const MSG_DECREMENT: u32 = 0x08;
pub const MSG_INCREMENT: u32 = 0x0C;
pub const MSG_PLAY: u32 = 0x0E;
pub const MSG_SET_TO_ZERO: u32 = 0x14;
pub const MSG_STOP: u32 = 0x16;

/// A directed event edge: when the source object reaches `state`, send
/// `message` to the object whose instance id is `target_object_id`.
#[derive(Clone, Copy, Debug, PartialEq, Eq, Structural)]
pub struct Connection {
    pub state: u32,
    pub message: u32,
    pub target_object_id: u32,
}

pub open spec fn connection_bytes(c: Connection) -> Seq<u8> {
    u32_bytes(c.state) + u32_bytes(c.message) + u32_bytes(c.target_object_id)
}

pub open spec fn connections_bytes(s: Seq<Connection>) -> Seq<u8>
    decreases s.len(),
{
    if s.len() == 0 {
        Seq::empty()
    } else {
        connections_bytes(s.drop_last()) + connection_bytes(s.last())
    }
}

pub proof fn lemma_connections_bytes_push(s: Seq<Connection>, c: Connection)
    ensures
        connections_bytes(s.push(c)) == connections_bytes(s) + connection_bytes(c),
{
    assert(s.push(c).drop_last() =~= s);
    assert(s.push(c).last() == c);
}

/// Typed or still-raw property data of a scripting object.
#[derive(Clone, Debug)]
pub enum SclyProperty {
    /// Raw property bytes that have not been reinterpreted yet (or whose
    /// object type the patcher does not know).
    Unknown { object_type: u8, data: Vec<u8> },
    Actor(Actor),
    Trigger(Trigger),
    Timer(Timer),
    Platform(Platform),
    Sound(Sound),
    SpawnPoint(SpawnPoint),
    Pickup(Pickup),
    MemoryRelay(MemoryRelay),
    Relay(Relay),
    HudMemo(HudMemo),
    DamageableTrigger(DamageableTrigger),
    Water(Water),
    SpecialFunction(SpecialFunction),
    PlayerHint(PlayerHint),
    PointOfInterest(PointOfInterest),
    StreamedAudio(StreamedAudio),
    WorldTransporter(WorldTransporter),
}

impl SclyProperty {
    pub open spec fn spec_object_type(self) -> u8 {
        match self {
            SclyProperty::Unknown { object_type, .. } => object_type,
            SclyProperty::Actor(_) => OBJ_ACTOR,
            SclyProperty::Trigger(_) => OBJ_TRIGGER,
            SclyProperty::Timer(_) => OBJ_TIMER,
            SclyProperty::Platform(_) => OBJ_PLATFORM,
            SclyProperty::Sound(_) => OBJ_SOUND,
            SclyProperty::SpawnPoint(_) => OBJ_SPAWN_POINT,
            SclyProperty::Pickup(_) => OBJ_PICKUP,
            SclyProperty::MemoryRelay(_) => OBJ_MEMORY_RELAY,
            SclyProperty::Relay(_) => OBJ_RELAY,
            SclyProperty::HudMemo(_) => OBJ_HUD_MEMO,
            SclyProperty::DamageableTrigger(_) => OBJ_DAMAGEABLE_TRIGGER,
            SclyProperty::Water(_) => OBJ_WATER,
            SclyProperty::SpecialFunction(_) => OBJ_SPECIAL_FUNCTION,
            SclyProperty::PlayerHint(_) => OBJ_PLAYER_HINT,
            SclyProperty::PointOfInterest(_) => OBJ_POINT_OF_INTEREST,
            SclyProperty::StreamedAudio(_) => OBJ_STREAMED_AUDIO,
            SclyProperty::WorldTransporter(_) => OBJ_WORLD_TRANSPORTER,
        }
    }

    #[verifier::opaque]
    pub open spec fn prop_bytes(self) -> Seq<u8> {
        match self {
            SclyProperty::Unknown { data, .. } => data@,
            SclyProperty::Actor(t) => actor_bytes(t),
            SclyProperty::Trigger(t) => trigger_bytes(t),
            SclyProperty::Timer(t) => timer_bytes(t),
            SclyProperty::Platform(t) => platform_bytes(t),
            SclyProperty::Sound(t) => sound_bytes(t),
            SclyProperty::SpawnPoint(t) => spawn_point_bytes(t),
            SclyProperty::Pickup(t) => pickup_bytes(t),
            SclyProperty::MemoryRelay(t) => memory_relay_bytes(t),
            SclyProperty::Relay(t) => relay_bytes(t),
            SclyProperty::HudMemo(t) => hud_memo_bytes(t),
            SclyProperty::DamageableTrigger(t) => damageable_trigger_bytes(t),
            SclyProperty::Water(t) => water_bytes(t),
            SclyProperty::SpecialFunction(t) => special_function_bytes(t),
            SclyProperty::PlayerHint(t) => player_hint_bytes(t),
            SclyProperty::PointOfInterest(t) => point_of_interest_bytes(t),
            SclyProperty::StreamedAudio(t) => streamed_audio_bytes(t),
            SclyProperty::WorldTransporter(t) => world_transporter_bytes(t),
        }
    }

    #[verifier::opaque]
    pub open spec fn wf(self) -> bool {
        match self {
            SclyProperty::Unknown { .. } => true,
            SclyProperty::Actor(t) => t.wf(),
            SclyProperty::Trigger(t) => t.wf(),
            SclyProperty::Timer(t) => t.wf(),
            SclyProperty::Platform(t) => t.wf(),
            SclyProperty::Sound(t) => t.wf(),
            SclyProperty::SpawnPoint(t) => t.wf(),
            SclyProperty::Pickup(t) => t.wf(),
            SclyProperty::MemoryRelay(t) => t.wf(),
            SclyProperty::Relay(t) => t.wf(),
            SclyProperty::HudMemo(t) => t.wf(),
            SclyProperty::DamageableTrigger(t) => t.wf(),
            SclyProperty::Water(t) => t.wf(),
            SclyProperty::SpecialFunction(t) => t.wf(),
            SclyProperty::PlayerHint(t) => t.wf(),
            SclyProperty::PointOfInterest(t) => t.wf(),
            SclyProperty::StreamedAudio(t) => t.wf(),
            SclyProperty::WorldTransporter(t) => t.wf(),
        }
    }

    pub fn object_type(&self) -> (r: u8)
        ensures
            r == self.spec_object_type(),
    {
        match self {
            SclyProperty::Unknown { object_type, .. } => *object_type,
            SclyProperty::Actor(_) => OBJ_ACTOR,
            SclyProperty::Trigger(_) => OBJ_TRIGGER,
            SclyProperty::Timer(_) => OBJ_TIMER,
            SclyProperty::Platform(_) => OBJ_PLATFORM,
            SclyProperty::Sound(_) => OBJ_SOUND,
            SclyProperty::SpawnPoint(_) => OBJ_SPAWN_POINT,
            SclyProperty::Pickup(_) => OBJ_PICKUP,
            SclyProperty::MemoryRelay(_) => OBJ_MEMORY_RELAY,
            SclyProperty::Relay(_) => OBJ_RELAY,
            SclyProperty::HudMemo(_) => OBJ_HUD_MEMO,
            SclyProperty::DamageableTrigger(_) => OBJ_DAMAGEABLE_TRIGGER,
            SclyProperty::Water(_) => OBJ_WATER,
            SclyProperty::SpecialFunction(_) => OBJ_SPECIAL_FUNCTION,
            SclyProperty::PlayerHint(_) => OBJ_PLAYER_HINT,
            SclyProperty::PointOfInterest(_) => OBJ_POINT_OF_INTEREST,
            SclyProperty::StreamedAudio(_) => OBJ_STREAMED_AUDIO,
            SclyProperty::WorldTransporter(_) => OBJ_WORLD_TRANSPORTER,
        }
    }

    /// Write the property bytes.
    pub fn write(&self, s: &mut Sink)
        ensures
            final(s)@ == old(s)@ + self.prop_bytes(),
    {
        proof {
            reveal(SclyProperty::prop_bytes);
        }
        match self {
            SclyProperty::Unknown { data, .. } => s.write_bytes(data),
            SclyProperty::Actor(t) => write_actor(s, t),
            SclyProperty::Trigger(t) => write_trigger(s, t),
            SclyProperty::Timer(t) => write_timer(s, t),
            SclyProperty::Platform(t) => write_platform(s, t),
            SclyProperty::Sound(t) => write_sound(s, t),
            SclyProperty::SpawnPoint(t) => write_spawn_point(s, t),
            SclyProperty::Pickup(t) => write_pickup(s, t),
            SclyProperty::MemoryRelay(t) => write_memory_relay(s, t),
            SclyProperty::Relay(t) => write_relay(s, t),
            SclyProperty::HudMemo(t) => write_hud_memo(s, t),
            SclyProperty::DamageableTrigger(t) => write_damageable_trigger(s, t),
            SclyProperty::Water(t) => write_water(s, t),
            SclyProperty::SpecialFunction(t) => write_special_function(s, t),
            SclyProperty::PlayerHint(t) => write_player_hint(s, t),
            SclyProperty::PointOfInterest(t) => write_point_of_interest(s, t),
            SclyProperty::StreamedAudio(t) => write_streamed_audio(s, t),
            SclyProperty::WorldTransporter(t) => write_world_transporter(s, t),
        }
    }

    /// After a successful promotion, a value of a known object type carries
    /// the matching typed variant.
    pub open spec fn promoted_form(self) -> bool {
        &&& self.spec_object_type() == OBJ_ACTOR ==> self is Actor
        &&& self.spec_object_type() == OBJ_TRIGGER ==> self is Trigger
        &&& self.spec_object_type() == OBJ_TIMER ==> self is Timer
        &&& self.spec_object_type() == OBJ_PLATFORM ==> self is Platform
        &&& self.spec_object_type() == OBJ_SOUND ==> self is Sound
        &&& self.spec_object_type() == OBJ_SPAWN_POINT ==> self is SpawnPoint
        &&& self.spec_object_type() == OBJ_PICKUP ==> self is Pickup
        &&& self.spec_object_type() == OBJ_MEMORY_RELAY ==> self is MemoryRelay
        &&& self.spec_object_type() == OBJ_RELAY ==> self is Relay
        &&& self.spec_object_type() == OBJ_HUD_MEMO ==> self is HudMemo
        &&& self.spec_object_type() == OBJ_DAMAGEABLE_TRIGGER ==> self is DamageableTrigger
        &&& self.spec_object_type() == OBJ_WATER ==> self is Water
        &&& self.spec_object_type() == OBJ_SPECIAL_FUNCTION ==> self is SpecialFunction
        &&& self.spec_object_type() == OBJ_PLAYER_HINT ==> self is PlayerHint
        &&& self.spec_object_type() == OBJ_POINT_OF_INTEREST ==> self is PointOfInterest
        &&& self.spec_object_type() == OBJ_STREAMED_AUDIO ==> self is StreamedAudio
        &&& self.spec_object_type() == OBJ_WORLD_TRANSPORTER ==> self is WorldTransporter
    }

    /// Reinterpret raw property bytes as the typed value for this object
    /// type, in place.  The serialized form never changes; once promoted (or
    /// if the type is not one the patcher knows), the value is left as it is.
    /// Returns false only when the raw bytes do not parse as their type.
    pub fn promote(&mut self) -> (ok: bool)
        ensures
            final(self).prop_bytes() == old(self).prop_bytes(),
            final(self).spec_object_type() == old(self).spec_object_type(),
            old(self).wf() ==> final(self).wf(),
            !ok ==> *final(self) == *old(self),
            !(*old(self) is Unknown) ==> ok && *final(self) == *old(self),
            ok ==> final(self).promoted_form(),
    {
        proof {
            reveal(SclyProperty::prop_bytes);
            reveal(SclyProperty::wf);
        }
        let ty = self.object_type();
        let data = match self {
            SclyProperty::Unknown { data, .. } => data,
            _ => { return true; },
        };
        let mut c = Cursor::new(data);
        let parsed: SclyProperty = if ty == OBJ_ACTOR {
            match parse_actor(&mut c, data) {
                Some(t) => SclyProperty::Actor(t),
                None => { return false; },
            }
        } else if ty == OBJ_TRIGGER {
            match parse_trigger(&mut c, data) {
                Some(t) => SclyProperty::Trigger(t),
                None => { return false; },
            }
        } else if ty == OBJ_TIMER {
            match parse_timer(&mut c, data) {
                Some(t) => SclyProperty::Timer(t),
                None => { return false; },
            }
        } else if ty == OBJ_PLATFORM {
            match parse_platform(&mut c, data) {
                Some(t) => SclyProperty::Platform(t),
                None => { return false; },
            }
        } else if ty == OBJ_SOUND {
            match parse_sound(&mut c, data) {
                Some(t) => SclyProperty::Sound(t),
                None => { return false; },
            }
        } else if ty == OBJ_SPAWN_POINT {
            match parse_spawn_point(&mut c, data) {
                Some(t) => SclyProperty::SpawnPoint(t),
                None => { return false; },
            }
        } else if ty == OBJ_PICKUP {
            match parse_pickup(&mut c, data) {
                Some(t) => SclyProperty::Pickup(t),
                None => { return false; },
            }
        } else if ty == OBJ_MEMORY_RELAY {
            match parse_memory_relay(&mut c, data) {
                Some(t) => SclyProperty::MemoryRelay(t),
                None => { return false; },
            }
        } else if ty == OBJ_RELAY {
            match parse_relay(&mut c, data) {
                Some(t) => SclyProperty::Relay(t),
                None => { return false; },
            }
        } else if ty == OBJ_HUD_MEMO {
            match parse_hud_memo(&mut c, data) {
                Some(t) => SclyProperty::HudMemo(t),
                None => { return false; },
            }
        } else if ty == OBJ_DAMAGEABLE_TRIGGER {
            match parse_damageable_trigger(&mut c, data) {
                Some(t) => SclyProperty::DamageableTrigger(t),
                None => { return false; },
            }
        } else if ty == OBJ_WATER {
            match parse_water(&mut c, data) {
                Some(t) => SclyProperty::Water(t),
                None => { return false; },
            }
        } else if ty == OBJ_SPECIAL_FUNCTION {
            match parse_special_function(&mut c, data) {
                Some(t) => SclyProperty::SpecialFunction(t),
                None => { return false; },
            }
        } else if ty == OBJ_PLAYER_HINT {
            match parse_player_hint(&mut c, data) {
                Some(t) => SclyProperty::PlayerHint(t),
                None => { return false; },
            }
        } else if ty == OBJ_POINT_OF_INTEREST {
            match parse_point_of_interest(&mut c, data) {
                Some(t) => SclyProperty::PointOfInterest(t),
                None => { return false; },
            }
        } else if ty == OBJ_STREAMED_AUDIO {
            match parse_streamed_audio(&mut c, data) {
                Some(t) => SclyProperty::StreamedAudio(t),
                None => { return false; },
            }
        } else if ty == OBJ_WORLD_TRANSPORTER {
            match parse_world_transporter(&mut c, data) {
                Some(t) => SclyProperty::WorldTransporter(t),
                None => { return false; },
            }
        } else {
            return true;
        };
        // Reinterpretation must account for every byte of the raw data.
        if c.pos != c.end {
            return false;
        }
        assert(parsed.prop_bytes() =~= self.prop_bytes());
        *self = parsed;
        true
    }
}

/// A scripting object: an identified, typed property blob plus its outgoing
/// event connections.
#[derive(Clone, Debug)]
pub struct SclyObject {
    pub instance_id: u32,
    pub connections: Vec<Connection>,
    pub property_data: SclyProperty,
}

impl SclyObject {
    /// Everything after the object's type byte and size field.
    #[verifier::opaque]
    pub open spec fn payload_bytes(self) -> Seq<u8> {
        u32_bytes(self.instance_id) + u32_bytes(self.connections@.len() as u32)
            + connections_bytes(self.connections@) + self.property_data.prop_bytes()
    }

    #[verifier::opaque]
    pub open spec fn obj_bytes(self) -> Seq<u8> {
        seq![self.property_data.spec_object_type()] + u32_bytes(
            self.payload_bytes().len() as u32,
        ) + self.payload_bytes()
    }

    #[verifier::opaque]
    pub open spec fn wf(self) -> bool {
        &&& self.property_data.wf()
        &&& self.connections@.len() < 0x1_0000_0000
    }

    /// The derived size field can describe the payload.
    pub open spec fn size_ok(self) -> bool {
        self.payload_bytes().len() < 0x1_0000_0000
    }
}

pub open spec fn objects_bytes(s: Seq<SclyObject>) -> Seq<u8>
    decreases s.len(),
{
    if s.len() == 0 {
        Seq::empty()
    } else {
        objects_bytes(s.drop_last()) + s.last().obj_bytes()
    }
}

pub proof fn lemma_objects_bytes_push(s: Seq<SclyObject>, o: SclyObject)
    ensures
        objects_bytes(s.push(o)) == objects_bytes(s) + o.obj_bytes(),
{
    assert(s.push(o).drop_last() =~= s);
    assert(s.push(o).last() == o);
}

/// Serialize one object: type byte, derived payload size, then the payload.
/// Fails, leaving the sink untouched, exactly when the payload outgrows the
/// 32-bit size field.
pub fn try_write_object(s: &mut Sink, o: &SclyObject) -> (r: Result<(), ()>)
    requires
        o.wf(),
    ensures
        match r {
            Ok(_) => o.size_ok() && final(s)@ == old(s)@ + o.obj_bytes(),
            Err(_) => !o.size_ok() && final(s)@ == old(s)@,
        },
{
    proof {
        reveal(SclyObject::wf);
        reveal(SclyObject::payload_bytes);
        reveal(SclyObject::obj_bytes);
    }
    let mut payload = Sink::new();
    payload.write_u32(o.instance_id);
    payload.write_u32(o.connections.len() as u32);
    let mut i: usize = 0;
    while i < o.connections.len()
        invariant
            o.connections@.len() < 0x1_0000_0000,
            i <= o.connections@.len(),
            payload@ == u32_bytes(o.instance_id) + u32_bytes(o.connections@.len() as u32)
                + connections_bytes(o.connections@.take(i as int)),
        decreases o.connections@.len() - i,
    {
        let c = o.connections[i];
        payload.write_u32(c.state);
        payload.write_u32(c.message);
        payload.write_u32(c.target_object_id);
        proof {
            lemma_connections_bytes_push(o.connections@.take(i as int), c);
            assert(o.connections@.take(i as int).push(c) =~= o.connections@.take(i + 1));
            assert(payload@ =~= u32_bytes(o.instance_id) + u32_bytes(
                o.connections@.len() as u32,
            ) + connections_bytes(o.connections@.take(i + 1)));
        }
        i = i + 1;
    }
    assert(o.connections@.take(o.connections@.len() as int) =~= o.connections@);
    o.property_data.write(&mut payload);
    assert(payload@ =~= o.payload_bytes());
    let n = payload.len();
    if (n as u64) >= 0x1_0000_0000u64 {
        return Err(());
    }
    s.write_u8(o.property_data.object_type());
    s.write_u32(n as u32);
    let payload_vec = payload.into_bytes();
    s.write_bytes(&payload_vec);
    assert(final(s)@ =~= old(s)@ + o.obj_bytes());
    Ok(())
}

/// Parse `count` connections of 12 bytes each.  Succeeds exactly when the
/// cursor still holds that many.
pub fn parse_connections(c: &mut Cursor, buf: &Vec<u8>, count: u32) -> (r: Option<
    Vec<Connection>,
>)
    requires
        old(c).valid(buf@),
    ensures
        final(c).valid(buf@),
        final(c).end == old(c).end,
        match r {
            Some(v) => {
                &&& v@.len() == count
                &&& old(c).pos <= final(c).pos
                &&& connections_bytes(v@) == buf@.subrange(old(c).pos as int, final(c).pos as int)
            },
            None => true,
        },
        r is Some <==> count * 12 <= old(c).remaining(),
{
    if (count as usize) > (c.end - c.pos) / 12 {
        return None;
    }
    let mut v: Vec<Connection> = Vec::new();
    let ghost conn_start = c.pos as int;
    let mut i: usize = 0;
    while i < count as usize
        invariant
            c.valid(buf@),
            c.end == old(c).end,
            old(c).pos <= c.pos,
            conn_start == old(c).pos,
            c.pos + (count as usize - i) * 12 <= c.end,
            i <= count as usize,
            v@.len() == i,
            connections_bytes(v@) == buf@.subrange(conn_start, c.pos as int),
        decreases count as usize - i,
    {
        let ghost p0 = c.pos as int;
        proof {
            assert((count as usize - i) * 12 >= 12) by (nonlinear_arith)
                requires
                    i < count as usize,
            ;
        }
        let state = match c.read_u32(buf) {
            Some(x) => x,
            None => {
                proof {
                    assert(false);
                }
                return None;
            },
        };
        let message = match c.read_u32(buf) {
            Some(x) => x,
            None => {
                proof {
                    assert(false);
                }
                return None;
            },
        };
        let target_object_id = match c.read_u32(buf) {
            Some(x) => x,
            None => {
                proof {
                    assert(false);
                }
                return None;
            },
        };
        let conn = Connection { state, message, target_object_id };
        proof {
            assert(connection_bytes(conn) =~= buf@.subrange(p0, c.pos as int));
            lemma_connections_bytes_push(v@, conn);
            lemma_subrange_adjacent(buf@, conn_start, p0, c.pos as int);
        }
        v.push(conn);
        i = i + 1;
    }
    Some(v)
}

/// Parse one object; its property data is kept raw for later promotion.
#[verifier::rlimit(80)]
pub fn parse_object(c: &mut Cursor, buf: &Vec<u8>) -> (r: Option<SclyObject>)
    requires
        old(c).valid(buf@),
    ensures
        final(c).valid(buf@),
        final(c).end == old(c).end,
        match r {
            Some(o) => {
                &&& o.wf()
                &&& o.property_data is Unknown
                &&& old(c).pos <= final(c).pos
                &&& o.obj_bytes() == buf@.subrange(old(c).pos as int, final(c).pos as int)
            },
            None => true,
        },
{
    let ty = match c.read_u8(buf) {
        Some(v) => v,
        None => { return None; },
    };
    let size = match c.read_u32(buf) {
        Some(v) => v,
        None => { return None; },
    };
    if (size as usize) > c.end - c.pos {
        return None;
    }
    let mut pc = c.truncated(size as usize);
    let ghost payload_start = pc.pos as int;
    let instance_id = match pc.read_u32(buf) {
        Some(v) => v,
        None => { return None; },
    };
    let count = match pc.read_u32(buf) {
        Some(v) => v,
        None => { return None; },
    };
    let ghost conns_start = pc.pos as int;
    let connections = match parse_connections(&mut pc, buf, count) {
        Some(v) => v,
        None => { return None; },
    };
    let ghost data_start = pc.pos as int;
    let rest = pc.end - pc.pos;
    let data = match pc.read_bytes(buf, rest) {
        Some(v) => v,
        None => { return None; },
    };
    let o = SclyObject {
        instance_id,
        connections,
        property_data: SclyProperty::Unknown { object_type: ty, data },
    };
    proof {
        reveal(SclyProperty::prop_bytes);
        reveal(SclyProperty::wf);
        reveal(SclyObject::wf);
        reveal(SclyObject::payload_bytes);
        reveal(SclyObject::obj_bytes);
        let a = old(c).pos as int;
        assert(o.connections@.len() as u32 == count);
        assert(o.payload_bytes() =~= buf@.subrange(a + 5, a + 5 + size)) by {
            assert(u32_bytes(instance_id) == buf@.subrange(a + 5, a + 9));
            assert(u32_bytes(count) == buf@.subrange(a + 9, a + 13));
            assert(connections_bytes(o.connections@) == buf@.subrange(conns_start, data_start));
            assert(o.property_data.prop_bytes() == buf@.subrange(data_start, a + 5 + size));
        };
        assert(o.payload_bytes().len() == size);
        assert(o.obj_bytes() =~= buf@.subrange(a, a + 5 + size)) by {
            assert(seq![ty] == buf@.subrange(a, a + 1));
            assert(u32_bytes(size) == buf@.subrange(a + 1, a + 5));
            assert(o.payload_bytes().len() as u32 == size);
        };
    }
    c.pos = c.pos + size as usize;
    Some(o)
}

/// A togglable group of scripting objects.
#[derive(Clone, Debug)]
pub struct SclyLayer {
    pub unknown: u32,
    pub objects: Vec<SclyObject>,
}

impl SclyLayer {
    #[verifier::opaque]
    pub open spec fn layer_bytes(self) -> Seq<u8> {
        u32_bytes(self.unknown) + u32_bytes(self.objects@.len() as u32) + objects_bytes(
            self.objects@,
        )
    }

    #[verifier::opaque]
    pub open spec fn wf(self) -> bool {
        &&& self.objects@.len() < 0x1_0000_0000
        &&& forall|i: int| 0 <= i < self.objects@.len() ==> self.objects@[i].wf()
    }

    /// Every object's derived size field can describe it.
    pub open spec fn size_ok(self) -> bool {
        forall|i: int| 0 <= i < self.objects@.len() ==> self.objects@[i].size_ok()
    }
}

/// Serialize a layer: leading field, derived object count, then the objects.
/// Fails exactly when some object's payload outgrows its size field.
pub fn try_serialize_layer(l: &SclyLayer) -> (r: Result<Vec<u8>, ()>)
    requires
        l.wf(),
    ensures
        match r {
            Ok(v) => l.size_ok() && v@ == l.layer_bytes(),
            Err(_) => !l.size_ok(),
        },
{
    proof {
        reveal(SclyLayer::wf);
        reveal(SclyLayer::layer_bytes);
    }
    let mut s = Sink::new();
    s.write_u32(l.unknown);
    s.write_u32(l.objects.len() as u32);
    let mut i: usize = 0;
    while i < l.objects.len()
        invariant
            l.objects@.len() < 0x1_0000_0000,
            forall|j: int| 0 <= j < l.objects@.len() ==> l.objects@[j].wf(),
            forall|j: int| 0 <= j < i ==> l.objects@[j].size_ok(),
            i <= l.objects@.len(),
            s@ == u32_bytes(l.unknown) + u32_bytes(l.objects@.len() as u32) + objects_bytes(
                l.objects@.take(i as int),
            ),
        decreases l.objects@.len() - i,
    {
        match try_write_object(&mut s, &l.objects[i]) {
            Ok(_) => (),
            Err(_) => { return Err(()); },
        };
        proof {
            lemma_objects_bytes_push(l.objects@.take(i as int), l.objects@[i as int]);
            assert(l.objects@.take(i as int).push(l.objects@[i as int]) =~= l.objects@.take(
                i + 1,
            ));
            assert(s@ =~= u32_bytes(l.unknown) + u32_bytes(l.objects@.len() as u32)
                + objects_bytes(l.objects@.take(i + 1)));
        }
        i = i + 1;
    }
    assert(l.objects@.take(l.objects@.len() as int) =~= l.objects@);
    Ok(s.into_bytes())
}

/// Parse `count` objects one after the other.
#[verifier::rlimit(100)]
pub fn parse_objects(c: &mut Cursor, buf: &Vec<u8>, count: u32) -> (r: Option<Vec<SclyObject>>)
    requires
        old(c).valid(buf@),
    ensures
        final(c).valid(buf@),
        final(c).end == old(c).end,
        match r {
            Some(v) => {
                &&& v@.len() == count
                &&& forall|j: int| 0 <= j < v@.len() ==> v@[j].wf()
                &&& old(c).pos <= final(c).pos
                &&& objects_bytes(v@) == buf@.subrange(old(c).pos as int, final(c).pos as int)
            },
            None => true,
        },
{
    let mut objects: Vec<SclyObject> = Vec::new();
    let ghost objs_start = c.pos as int;
    let mut i: usize = 0;
    while i < count as usize
        invariant
            c.valid(buf@),
            c.end == old(c).end,
            objs_start == old(c).pos,
            objs_start <= c.pos,
            i <= count as usize,
            objects@.len() == i,
            forall|j: int| 0 <= j < objects@.len() ==> objects@[j].wf(),
            objects_bytes(objects@) == buf@.subrange(objs_start, c.pos as int),
        decreases count as usize - i,
    {
        let ghost p0 = c.pos as int;
        let o = match parse_object(c, buf) {
            Some(v) => v,
            None => { return None; },
        };
        proof {
            lemma_objects_bytes_push(objects@, o);
            lemma_subrange_adjacent(buf@, objs_start, p0, c.pos as int);
        }
        objects.push(o);
        i = i + 1;
    }
    Some(objects)
}

/// Parse a layer from exactly the bytes of one cursor.
#[verifier::rlimit(50)]
pub fn parse_layer(c: &mut Cursor, buf: &Vec<u8>) -> (r: Option<SclyLayer>)
    requires
        old(c).valid(buf@),
    ensures
        final(c).valid(buf@),
        final(c).end == old(c).end,
        match r {
            Some(l) => {
                &&& l.wf()
                &&& old(c).pos <= final(c).pos
                &&& l.layer_bytes() == buf@.subrange(old(c).pos as int, final(c).pos as int)
            },
            None => true,
        },
{
    let unknown = match c.read_u32(buf) {
        Some(v) => v,
        None => { return None; },
    };
    let count = match c.read_u32(buf) {
        Some(v) => v,
        None => { return None; },
    };
    let objects = match parse_objects(c, buf, count) {
        Some(v) => v,
        None => { return None; },
    };
    let l = SclyLayer { unknown, objects };
    proof {
        reveal(SclyLayer::wf);
        reveal(SclyLayer::layer_bytes);
        assert(l.layer_bytes() =~= buf@.subrange(old(c).pos as int, c.pos as int));
    }
    Some(l)
}

/// The scripting section: a magic constant, a pass-through field, then the
/// layers prefixed with a derived size table.
#[derive(Clone, Debug)]
pub struct Scly {
    pub unknown: u32,
    pub layers: Vec<SclyLayer>,
}

pub const SCLY_MAGIC: u32 = 0x53434C59;

pub open spec fn layer_sizes_bytes(s: Seq<SclyLayer>) -> Seq<u8>
    decreases s.len(),
{
    if s.len() == 0 {
        Seq::empty()
    } else {
        layer_sizes_bytes(s.drop_last()) + u32_bytes(s.last().layer_bytes().len() as u32)
    }
}

pub open spec fn layers_bytes(s: Seq<SclyLayer>) -> Seq<u8>
    decreases s.len(),
{
    if s.len() == 0 {
        Seq::empty()
    } else {
        layers_bytes(s.drop_last()) + s.last().layer_bytes()
    }
}

pub proof fn lemma_layer_seq_push(s: Seq<SclyLayer>, l: SclyLayer)
    ensures
        layer_sizes_bytes(s.push(l)) == layer_sizes_bytes(s) + u32_bytes(
            l.layer_bytes().len() as u32,
        ),
        layers_bytes(s.push(l)) == layers_bytes(s) + l.layer_bytes(),
{
    assert(s.push(l).drop_last() =~= s);
    assert(s.push(l).last() == l);
}

impl Scly {
    #[verifier::opaque]
    pub open spec fn scly_bytes(self) -> Seq<u8> {
        u32_bytes(SCLY_MAGIC) + u32_bytes(self.unknown) + u32_bytes(self.layers@.len() as u32)
            + layer_sizes_bytes(self.layers@) + layers_bytes(self.layers@)
    }

    #[verifier::opaque]
    pub open spec fn wf(self) -> bool {
        &&& self.layers@.len() < 0x1_0000_0000
        &&& forall|i: int| 0 <= i < self.layers@.len() ==> self.layers@[i].wf()
    }

    /// Every derived size field of the section can describe its content.
    pub open spec fn size_ok(self) -> bool {
        &&& forall|i: int| 0 <= i < self.layers@.len() ==> self.layers@[i].size_ok()
        &&& forall|i: int|
            0 <= i < self.layers@.len() ==> self.layers@[i].layer_bytes().len() < 0x1_0000_0000
    }

    /// Serialize the section; every layer size in the table is recomputed
    /// from the layer's current content.  Fails exactly when some derived
    /// size outgrows its 32-bit field.
    pub fn try_write(&self, s: &mut Sink) -> (r: Result<(), ()>)
        requires
            self.wf(),
        ensures
            match r {
                Ok(_) => self.size_ok() && final(s)@ == old(s)@ + self.scly_bytes(),
                Err(_) => !self.size_ok() && final(s)@ == old(s)@,
            },
    {
        proof {
            reveal(Scly::wf);
            reveal(Scly::scly_bytes);
        }
        let mut blobs: Vec<Vec<u8>> = Vec::new();
        let mut i: usize = 0;
        while i < self.layers.len()
            invariant
                self.layers@.len() < 0x1_0000_0000,
                forall|j: int| 0 <= j < self.layers@.len() ==> self.layers@[j].wf(),
                i <= self.layers@.len(),
                blobs@.len() == i,
                forall|j: int| 0 <= j < i ==> blobs@[j]@ == self.layers@[j].layer_bytes(),
                forall|j: int|
                    0 <= j < i ==> self.layers@[j].size_ok() && self.layers@[j].layer_bytes().len()
                        < 0x1_0000_0000,
            decreases self.layers@.len() - i,
        {
            let b = match try_serialize_layer(&self.layers[i]) {
                Ok(v) => v,
                Err(_) => { return Err(()); },
            };
            if (b.len() as u64) >= 0x1_0000_0000u64 {
                return Err(());
            }
            blobs.push(b);
            i = i + 1;
        }
        s.write_u32(SCLY_MAGIC);
        s.write_u32(self.unknown);
        s.write_u32(self.layers.len() as u32);
        let ghost mid = s@;
        let mut i: usize = 0;
        while i < blobs.len()
            invariant
                self.layers@.len() < 0x1_0000_0000,
                blobs@.len() == self.layers@.len(),
                forall|j: int| 0 <= j < blobs@.len() ==> blobs@[j]@ == self.layers@[j].layer_bytes(),
                forall|j: int|
                    0 <= j < blobs@.len() ==> self.layers@[j].layer_bytes().len() < 0x1_0000_0000,
                i <= blobs@.len(),
                s@ == mid + layer_sizes_bytes(self.layers@.take(i as int)),
            decreases blobs@.len() - i,
        {
            s.write_u32(blobs[i].len() as u32);
            proof {
                lemma_layer_seq_push(self.layers@.take(i as int), self.layers@[i as int]);
                assert(self.layers@.take(i as int).push(self.layers@[i as int])
                    =~= self.layers@.take(i + 1));
                assert(s@ =~= mid + layer_sizes_bytes(self.layers@.take(i + 1)));
            }
            i = i + 1;
        }
        assert(self.layers@.take(self.layers@.len() as int) =~= self.layers@);
        let ghost mid2 = s@;
        let mut i: usize = 0;
        while i < blobs.len()
            invariant
                self.layers@.len() < 0x1_0000_0000,
                blobs@.len() == self.layers@.len(),
                forall|j: int| 0 <= j < blobs@.len() ==> blobs@[j]@ == self.layers@[j].layer_bytes(),
                i <= blobs@.len(),
                s@ == mid2 + layers_bytes(self.layers@.take(i as int)),
            decreases blobs@.len() - i,
        {
            s.write_bytes(&blobs[i]);
            proof {
                lemma_layer_seq_push(self.layers@.take(i as int), self.layers@[i as int]);
                assert(self.layers@.take(i as int).push(self.layers@[i as int])
                    =~= self.layers@.take(i + 1));
                assert(s@ =~= mid2 + layers_bytes(self.layers@.take(i + 1)));
            }
            i = i + 1;
        }
        assert(self.layers@.take(self.layers@.len() as int) =~= self.layers@);
        assert(final(s)@ =~= old(s)@ + self.scly_bytes());
        Ok(())
    }
}

/// Parse the scripting section, checking its magic constant and that every
/// layer occupies exactly the size the table declares for it.
#[verifier::rlimit(100)]
pub fn parse_scly(c: &mut Cursor, buf: &Vec<u8>) -> (r: Option<Scly>)
    requires
        old(c).valid(buf@),
    ensures
        final(c).valid(buf@),
        final(c).end == old(c).end,
        match r {
            Some(v) => {
                &&& v.wf()
                &&& old(c).pos <= final(c).pos
                &&& v.scly_bytes() == buf@.subrange(old(c).pos as int, final(c).pos as int)
            },
            None => true,
        },
{
    match c.expect_u32(buf, SCLY_MAGIC) {
        Some(v) => v,
        None => { return None; },
    };
    let unknown = match c.read_u32(buf) {
        Some(v) => v,
        None => { return None; },
    };
    let count = match c.read_u32(buf) {
        Some(v) => v,
        None => { return None; },
    };
    if (count as usize) > (c.end - c.pos) / 4 {
        return None;
    }
    let mut sizes: Vec<u32> = Vec::new();
    let ghost sizes_start = c.pos as int;
    let mut i: usize = 0;
    while i < count as usize
        invariant
            c.valid(buf@),
            c.end == old(c).end,
            0 <= sizes_start <= c.pos,
            c.pos + (count as usize - i) * 4 <= c.end,
            i <= count as usize,
            sizes@.len() == i,
            buf@.subrange(sizes_start, c.pos as int) == sizes_concat(sizes@),
        decreases count as usize - i,
    {
        let ghost p0 = c.pos as int;
        let sz = match c.read_u32(buf) {
            Some(v) => v,
            None => { return None; },
        };
        proof {
            lemma_sizes_concat_push(sizes@, sz);
            lemma_subrange_adjacent(buf@, sizes_start, p0, c.pos as int);
        }
        sizes.push(sz);
        i = i + 1;
    }
    let mut layers: Vec<SclyLayer> = Vec::new();
    let ghost layers_start = c.pos as int;
    let mut i: usize = 0;
    while i < count as usize
        invariant
            c.valid(buf@),
            c.end == old(c).end,
            0 <= layers_start <= c.pos,
            i <= count as usize,
            sizes@.len() == count,
            layers@.len() == i,
            forall|j: int| 0 <= j < layers@.len() ==> layers@[j].wf(),
            forall|j: int|
                0 <= j < layers@.len() ==> layers@[j].layer_bytes().len() == sizes@[j],
            buf@.subrange(layers_start, c.pos as int) == layers_bytes(layers@),
        decreases count as usize - i,
    {
        let sz = sizes[i];
        if (sz as usize) > c.end - c.pos {
            return None;
        }
        let ghost p0 = c.pos as int;
        let mut lc = c.truncated(sz as usize);
        let l = match parse_layer(&mut lc, buf) {
            Some(v) => v,
            None => { return None; },
        };
        if lc.pos != lc.end {
            // The layer did not fill the size the table declared.
            return None;
        }
        proof {
            lemma_layer_seq_push(layers@, l);
            lemma_subrange_adjacent(buf@, layers_start, p0, p0 + sz);
        }
        layers.push(l);
        c.pos = c.pos + sz as usize;
        i = i + 1;
    }
    let v = Scly { unknown, layers };
    proof {
        reveal(Scly::wf);
        reveal(Scly::scly_bytes);
        assert(sizes_concat(sizes@) =~= layer_sizes_bytes(v.layers@)) by {
            lemma_sizes_vs_layers(sizes@, v.layers@);
        };
        assert(v.scly_bytes() =~= buf@.subrange(old(c).pos as int, c.pos as int));
    }
    Some(v)
}

/// The raw bytes of a size table.
pub open spec fn sizes_concat(s: Seq<u32>) -> Seq<u8>
    decreases s.len(),
{
    if s.len() == 0 {
        Seq::empty()
    } else {
        sizes_concat(s.drop_last()) + u32_bytes(s.last())
    }
}

pub proof fn lemma_sizes_concat_push(s: Seq<u32>, v: u32)
    ensures
        sizes_concat(s.push(v)) == sizes_concat(s) + u32_bytes(v),
{
    assert(s.push(v).drop_last() =~= s);
    assert(s.push(v).last() == v);
}

/// A size table whose entries equal the layers' serialized lengths encodes
/// the same bytes as the derived size table.
pub proof fn lemma_sizes_vs_layers(sizes: Seq<u32>, layers: Seq<SclyLayer>)
    requires
        sizes.len() == layers.len(),
        forall|j: int| 0 <= j < layers.len() ==> layers[j].layer_bytes().len() == sizes[j],
    ensures
        sizes_concat(sizes) == layer_sizes_bytes(layers),
    decreases layers.len(),
{
    if layers.len() > 0 {
        lemma_sizes_vs_layers(sizes.drop_last(), layers.drop_last());
    }
}

} // verus!
