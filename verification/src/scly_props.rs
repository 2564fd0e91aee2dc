//! Typed property data for scripting objects.
//!
//! Every scalar that the game stores as a 32-bit float is held here as its raw
//! 32-bit bit pattern: the patcher never does arithmetic on these values, it
//! only copies them between fields and the serialized form, so the bit
//! pattern is the faithful representation.

use vstd::prelude::*;
use crate::bytes::{Cursor, Sink, cstr_bytes, cstr_ok, u32_bytes};

verus! {

/// A three-component vector (position, rotation, scale); each component is
/// the raw bit pattern of a 32-bit float.
#[derive(Clone, Copy, Debug, PartialEq, Eq, Structural)]
pub struct Xyz {
    pub x: u32,
    pub y: u32,
    pub z: u32,
}

pub open spec fn xyz_bytes(v: Xyz) -> Seq<u8> {
    u32_bytes(v.x) + u32_bytes(v.y) + u32_bytes(v.z)
}

pub fn write_xyz(s: &mut Sink, v: &Xyz)
    ensures
        final(s)@ == old(s)@ + xyz_bytes(*v),
{
    s.write_u32(v.x);
    s.write_u32(v.y);
    s.write_u32(v.z);
    assert(final(s)@ =~= old(s)@ + xyz_bytes(*v));
}

pub fn parse_xyz(c: &mut Cursor, buf: &Vec<u8>) -> (r: Option<Xyz>)
    requires
        old(c).valid(buf@),
    ensures
        final(c).valid(buf@),
        final(c).end == old(c).end,
        match r {
            Some(v) => {
                &&& old(c).pos <= final(c).pos
                &&& xyz_bytes(v) == buf@.subrange(old(c).pos as int, final(c).pos as int)
            },
            None => true,
        },
{
    let x = match c.read_u32(buf) {
        Some(v) => v,
        None => { return None; },
    };
    let y = match c.read_u32(buf) {
        Some(v) => v,
        None => { return None; },
    };
    let z = match c.read_u32(buf) {
        Some(v) => v,
        None => { return None; },
    };
    let v = Xyz { x, y, z };
    assert(xyz_bytes(v) =~= buf@.subrange(old(c).pos as int, final(c).pos as int));
    Some(v)
}

/// Damage dealt by a trigger volume.
#[derive(Clone, Copy, Debug, PartialEq, Eq, Structural)]
pub struct DamageInfo {
    pub weapon_type: u32,
    pub damage: u32,
    pub radius: u32,
    pub knockback_power: u32,
}

pub open spec fn damage_info_bytes(d: DamageInfo) -> Seq<u8> {
    u32_bytes(d.weapon_type) + u32_bytes(d.damage) + u32_bytes(d.radius) + u32_bytes(
        d.knockback_power,
    )
}

pub fn write_damage_info(s: &mut Sink, d: &DamageInfo)
    ensures
        final(s)@ == old(s)@ + damage_info_bytes(*d),
{
    s.write_u32(d.weapon_type);
    s.write_u32(d.damage);
    s.write_u32(d.radius);
    s.write_u32(d.knockback_power);
    assert(final(s)@ =~= old(s)@ + damage_info_bytes(*d));
}

pub fn parse_damage_info(c: &mut Cursor, buf: &Vec<u8>) -> (r: Option<DamageInfo>)
    requires
        old(c).valid(buf@),
    ensures
        final(c).valid(buf@),
        final(c).end == old(c).end,
        match r {
            Some(d) => {
                &&& old(c).pos <= final(c).pos
                &&& damage_info_bytes(d) == buf@.subrange(old(c).pos as int, final(c).pos as int)
            },
            None => true,
        },
{
    let weapon_type = match c.read_u32(buf) {
        Some(v) => v,
        None => { return None; },
    };
    let damage = match c.read_u32(buf) {
        Some(v) => v,
        None => { return None; },
    };
    let radius = match c.read_u32(buf) {
        Some(v) => v,
        None => { return None; },
    };
    let knockback_power = match c.read_u32(buf) {
        Some(v) => v,
        None => { return None; },
    };
    let d = DamageInfo { weapon_type, damage, radius, knockback_power };
    assert(damage_info_bytes(d) =~= buf@.subrange(old(c).pos as int, final(c).pos as int));
    Some(d)
}

/// A volume that sends messages when the player enters, stays in or leaves it.
#[derive(Clone, Debug)]
pub struct Trigger {
    pub name: Vec<u8>,
    pub position: Xyz,
    pub scale: Xyz,
    pub damage_info: DamageInfo,
    pub force: Xyz,
    pub flags: u32,
    pub active: u8,
    pub deactivate_on_enter: u8,
    pub deactivate_on_exit: u8,
}

impl Trigger {
    pub open spec fn wf(self) -> bool {
        cstr_ok(self.name@)
    }
}

pub open spec fn trigger_bytes(t: Trigger) -> Seq<u8> {
    cstr_bytes(t.name@) + xyz_bytes(t.position) + xyz_bytes(t.scale) + damage_info_bytes(
        t.damage_info,
    ) + xyz_bytes(t.force) + u32_bytes(t.flags) + seq![t.active] + seq![t.deactivate_on_enter]
        + seq![t.deactivate_on_exit]
}

pub fn write_trigger(s: &mut Sink, t: &Trigger)
    ensures
        final(s)@ == old(s)@ + trigger_bytes(*t),
{
    s.write_cstr(&t.name);
    write_xyz(s, &t.position);
    write_xyz(s, &t.scale);
    write_damage_info(s, &t.damage_info);
    write_xyz(s, &t.force);
    s.write_u32(t.flags);
    s.write_u8(t.active);
    s.write_u8(t.deactivate_on_enter);
    s.write_u8(t.deactivate_on_exit);
    assert(final(s)@ =~= old(s)@ + trigger_bytes(*t));
}

pub fn parse_trigger(c: &mut Cursor, buf: &Vec<u8>) -> (r: Option<Trigger>)
    requires
        old(c).valid(buf@),
    ensures
        final(c).valid(buf@),
        final(c).end == old(c).end,
        match r {
            Some(t) => {
                &&& t.wf()
                &&& old(c).pos <= final(c).pos
                &&& trigger_bytes(t) == buf@.subrange(old(c).pos as int, final(c).pos as int)
            },
            None => true,
        },
{
    let name = match c.read_cstr(buf) {
        Some(v) => v,
        None => { return None; },
    };
    let position = match parse_xyz(c, buf) {
        Some(v) => v,
        None => { return None; },
    };
    let scale = match parse_xyz(c, buf) {
        Some(v) => v,
        None => { return None; },
    };
    let damage_info = match parse_damage_info(c, buf) {
        Some(v) => v,
        None => { return None; },
    };
    let force = match parse_xyz(c, buf) {
        Some(v) => v,
        None => { return None; },
    };
    let flags = match c.read_u32(buf) {
        Some(v) => v,
        None => { return None; },
    };
    let active = match c.read_u8(buf) {
        Some(v) => v,
        None => { return None; },
    };
    let deactivate_on_enter = match c.read_u8(buf) {
        Some(v) => v,
        None => { return None; },
    };
    let deactivate_on_exit = match c.read_u8(buf) {
        Some(v) => v,
        None => { return None; },
    };
    let t = Trigger {
        name,
        position,
        scale,
        damage_info,
        force,
        flags,
        active,
        deactivate_on_enter,
        deactivate_on_exit,
    };
    assert(trigger_bytes(t) =~= buf@.subrange(old(c).pos as int, final(c).pos as int));
    Some(t)
}

/// Fires its connections after a delay.
#[derive(Clone, Debug)]
pub struct Timer {
    pub name: Vec<u8>,
    pub start_time: u32,
    pub max_random_add: u32,
    pub reset_to_zero: u8,
    pub start_immediately: u8,
    pub active: u8,
}

impl Timer {
    pub open spec fn wf(self) -> bool {
        cstr_ok(self.name@)
    }
}

pub open spec fn timer_bytes(t: Timer) -> Seq<u8> {
    cstr_bytes(t.name@) + u32_bytes(t.start_time) + u32_bytes(t.max_random_add) + seq![
        t.reset_to_zero,
        t.start_immediately,
        t.active,
    ]
}

pub fn write_timer(s: &mut Sink, t: &Timer)
    ensures
        final(s)@ == old(s)@ + timer_bytes(*t),
{
    s.write_cstr(&t.name);
    s.write_u32(t.start_time);
    s.write_u32(t.max_random_add);
    s.write_u8(t.reset_to_zero);
    s.write_u8(t.start_immediately);
    s.write_u8(t.active);
    assert(final(s)@ =~= old(s)@ + timer_bytes(*t));
}

pub fn parse_timer(c: &mut Cursor, buf: &Vec<u8>) -> (r: Option<Timer>)
    requires
        old(c).valid(buf@),
    ensures
        final(c).valid(buf@),
        final(c).end == old(c).end,
        match r {
            Some(t) => {
                &&& t.wf()
                &&& old(c).pos <= final(c).pos
                &&& timer_bytes(t) == buf@.subrange(old(c).pos as int, final(c).pos as int)
            },
            None => true,
        },
{
    let name = match c.read_cstr(buf) {
        Some(v) => v,
        None => { return None; },
    };
    let start_time = match c.read_u32(buf) {
        Some(v) => v,
        None => { return None; },
    };
    let max_random_add = match c.read_u32(buf) {
        Some(v) => v,
        None => { return None; },
    };
    let reset_to_zero = match c.read_u8(buf) {
        Some(v) => v,
        None => { return None; },
    };
    let start_immediately = match c.read_u8(buf) {
        Some(v) => v,
        None => { return None; },
    };
    let active = match c.read_u8(buf) {
        Some(v) => v,
        None => { return None; },
    };
    let t = Timer { name, start_time, max_random_add, reset_to_zero, start_immediately, active };
    assert(timer_bytes(t) =~= buf@.subrange(old(c).pos as int, final(c).pos as int));
    Some(t)
}

/// Hit points plus knockback resistance.
#[derive(Clone, Copy, Debug, PartialEq, Eq, Structural)]
pub struct HealthInfo {
    pub health: u32,
    pub knockback_resistance: u32,
}

pub open spec fn health_info_bytes(h: HealthInfo) -> Seq<u8> {
    u32_bytes(h.health) + u32_bytes(h.knockback_resistance)
}

pub fn write_health_info(s: &mut Sink, h: &HealthInfo)
    ensures
        final(s)@ == old(s)@ + health_info_bytes(*h),
{
    s.write_u32(h.health);
    s.write_u32(h.knockback_resistance);
    assert(final(s)@ =~= old(s)@ + health_info_bytes(*h));
}

pub fn parse_health_info(c: &mut Cursor, buf: &Vec<u8>) -> (r: Option<HealthInfo>)
    requires
        old(c).valid(buf@),
    ensures
        final(c).valid(buf@),
        final(c).end == old(c).end,
        match r {
            Some(h) => {
                &&& old(c).pos <= final(c).pos
                &&& health_info_bytes(h) == buf@.subrange(old(c).pos as int, final(c).pos as int)
            },
            None => true,
        },
{
    let health = match c.read_u32(buf) {
        Some(v) => v,
        None => { return None; },
    };
    let knockback_resistance = match c.read_u32(buf) {
        Some(v) => v,
        None => { return None; },
    };
    let h = HealthInfo { health, knockback_resistance };
    assert(health_info_bytes(h) =~= buf@.subrange(old(c).pos as int, final(c).pos as int));
    Some(h)
}

/// A named relay: forwards a message to its connections.
#[derive(Clone, Debug)]
pub struct Relay {
    pub name: Vec<u8>,
    pub active: u8,
}

impl Relay {
    pub open spec fn wf(self) -> bool {
        cstr_ok(self.name@)
    }
}

pub open spec fn relay_bytes(t: Relay) -> Seq<u8> {
    cstr_bytes(t.name@) + seq![t.active]
}

pub fn write_relay(s: &mut Sink, t: &Relay)
    ensures
        final(s)@ == old(s)@ + relay_bytes(*t),
{
    s.write_cstr(&t.name);
    s.write_u8(t.active);
    assert(final(s)@ =~= old(s)@ + relay_bytes(*t));
}

pub fn parse_relay(c: &mut Cursor, buf: &Vec<u8>) -> (r: Option<Relay>)
    requires
        old(c).valid(buf@),
    ensures
        final(c).valid(buf@),
        final(c).end == old(c).end,
        match r {
            Some(t) => {
                &&& t.wf()
                &&& old(c).pos <= final(c).pos
                &&& relay_bytes(t) == buf@.subrange(old(c).pos as int, final(c).pos as int)
            },
            None => true,
        },
{
    let name = match c.read_cstr(buf) {
        Some(v) => v,
        None => { return None; },
    };
    let active = match c.read_u8(buf) {
        Some(v) => v,
        None => { return None; },
    };
    let t = Relay { name, active };
    assert(relay_bytes(t) =~= buf@.subrange(old(c).pos as int, final(c).pos as int));
    Some(t)
}

/// A relay whose triggered state is saved with the game.
#[derive(Clone, Debug)]
pub struct MemoryRelay {
    pub name: Vec<u8>,
    pub unknown: u8,
    pub active: u8,
}

impl MemoryRelay {
    pub open spec fn wf(self) -> bool {
        cstr_ok(self.name@)
    }
}

pub open spec fn memory_relay_bytes(t: MemoryRelay) -> Seq<u8> {
    cstr_bytes(t.name@) + seq![t.unknown] + seq![t.active]
}

pub fn write_memory_relay(s: &mut Sink, t: &MemoryRelay)
    ensures
        final(s)@ == old(s)@ + memory_relay_bytes(*t),
{
    s.write_cstr(&t.name);
    s.write_u8(t.unknown);
    s.write_u8(t.active);
    assert(final(s)@ =~= old(s)@ + memory_relay_bytes(*t));
}

pub fn parse_memory_relay(c: &mut Cursor, buf: &Vec<u8>) -> (r: Option<MemoryRelay>)
    requires
        old(c).valid(buf@),
    ensures
        final(c).valid(buf@),
        final(c).end == old(c).end,
        match r {
            Some(t) => {
                &&& t.wf()
                &&& old(c).pos <= final(c).pos
                &&& memory_relay_bytes(t) == buf@.subrange(old(c).pos as int, final(c).pos as int)
            },
            None => true,
        },
{
    let name = match c.read_cstr(buf) {
        Some(v) => v,
        None => { return None; },
    };
    let unknown = match c.read_u8(buf) {
        Some(v) => v,
        None => { return None; },
    };
    let active = match c.read_u8(buf) {
        Some(v) => v,
        None => { return None; },
    };
    let t = MemoryRelay { name, unknown, active };
    assert(memory_relay_bytes(t) =~= buf@.subrange(old(c).pos as int, final(c).pos as int));
    Some(t)
}

/// An on-screen message shown to the player.
#[derive(Clone, Debug)]
pub struct HudMemo {
    pub name: Vec<u8>,
    pub first_message_timer: u32,
    pub unknown: u8,
    pub memo_type: u32,
    pub strg: u32,
    pub active: u8,
}

impl HudMemo {
    pub open spec fn wf(self) -> bool {
        cstr_ok(self.name@)
    }
}

pub open spec fn hud_memo_bytes(t: HudMemo) -> Seq<u8> {
    cstr_bytes(t.name@) + u32_bytes(t.first_message_timer) + seq![t.unknown] + u32_bytes(t.memo_type) + u32_bytes(t.strg) + seq![t.active]
}

pub fn write_hud_memo(s: &mut Sink, t: &HudMemo)
    ensures
        final(s)@ == old(s)@ + hud_memo_bytes(*t),
{
    s.write_cstr(&t.name);
    s.write_u32(t.first_message_timer);
    s.write_u8(t.unknown);
    s.write_u32(t.memo_type);
    s.write_u32(t.strg);
    s.write_u8(t.active);
    assert(final(s)@ =~= old(s)@ + hud_memo_bytes(*t));
}

pub fn parse_hud_memo(c: &mut Cursor, buf: &Vec<u8>) -> (r: Option<HudMemo>)
    requires
        old(c).valid(buf@),
    ensures
        final(c).valid(buf@),
        final(c).end == old(c).end,
        match r {
            Some(t) => {
                &&& t.wf()
                &&& old(c).pos <= final(c).pos
                &&& hud_memo_bytes(t) == buf@.subrange(old(c).pos as int, final(c).pos as int)
            },
            None => true,
        },
{
    let name = match c.read_cstr(buf) {
        Some(v) => v,
        None => { return None; },
    };
    let first_message_timer = match c.read_u32(buf) {
        Some(v) => v,
        None => { return None; },
    };
    let unknown = match c.read_u8(buf) {
        Some(v) => v,
        None => { return None; },
    };
    let memo_type = match c.read_u32(buf) {
        Some(v) => v,
        None => { return None; },
    };
    let strg = match c.read_u32(buf) {
        Some(v) => v,
        None => { return None; },
    };
    let active = match c.read_u8(buf) {
        Some(v) => v,
        None => { return None; },
    };
    let t = HudMemo { name, first_message_timer, unknown, memo_type, strg, active };
    assert(hud_memo_bytes(t) =~= buf@.subrange(old(c).pos as int, final(c).pos as int));
    Some(t)
}

/// A static or animated model placed in the room.
#[derive(Clone, Debug)]
pub struct Actor {
    pub name: Vec<u8>,
    pub position: Xyz,
    pub rotation: Xyz,
    pub scale: Xyz,
    pub cmdl: u32,
    pub ancs: u32,
    pub target_passthrough: u8,
    pub active: u8,
}

impl Actor {
    pub open spec fn wf(self) -> bool {
        cstr_ok(self.name@)
    }
}

pub open spec fn actor_bytes(t: Actor) -> Seq<u8> {
    cstr_bytes(t.name@) + xyz_bytes(t.position) + xyz_bytes(t.rotation) + xyz_bytes(t.scale) + u32_bytes(t.cmdl) + u32_bytes(t.ancs) + seq![t.target_passthrough] + seq![t.active]
}

pub fn write_actor(s: &mut Sink, t: &Actor)
    ensures
        final(s)@ == old(s)@ + actor_bytes(*t),
{
    s.write_cstr(&t.name);
    write_xyz(s, &t.position);
    write_xyz(s, &t.rotation);
    write_xyz(s, &t.scale);
    s.write_u32(t.cmdl);
    s.write_u32(t.ancs);
    s.write_u8(t.target_passthrough);
    s.write_u8(t.active);
    assert(final(s)@ =~= old(s)@ + actor_bytes(*t));
}

pub fn parse_actor(c: &mut Cursor, buf: &Vec<u8>) -> (r: Option<Actor>)
    requires
        old(c).valid(buf@),
    ensures
        final(c).valid(buf@),
        final(c).end == old(c).end,
        match r {
            Some(t) => {
                &&& t.wf()
                &&& old(c).pos <= final(c).pos
                &&& actor_bytes(t) == buf@.subrange(old(c).pos as int, final(c).pos as int)
            },
            None => true,
        },
{
    let name = match c.read_cstr(buf) {
        Some(v) => v,
        None => { return None; },
    };
    let position = match parse_xyz(c, buf) {
        Some(v) => v,
        None => { return None; },
    };
    let rotation = match parse_xyz(c, buf) {
        Some(v) => v,
        None => { return None; },
    };
    let scale = match parse_xyz(c, buf) {
        Some(v) => v,
        None => { return None; },
    };
    let cmdl = match c.read_u32(buf) {
        Some(v) => v,
        None => { return None; },
    };
    let ancs = match c.read_u32(buf) {
        Some(v) => v,
        None => { return None; },
    };
    let target_passthrough = match c.read_u8(buf) {
        Some(v) => v,
        None => { return None; },
    };
    let active = match c.read_u8(buf) {
        Some(v) => v,
        None => { return None; },
    };
    let t = Actor { name, position, rotation, scale, cmdl, ancs, target_passthrough, active };
    assert(actor_bytes(t) =~= buf@.subrange(old(c).pos as int, final(c).pos as int));
    Some(t)
}

/// A moving or static platform.
#[derive(Clone, Debug)]
pub struct Platform {
    pub name: Vec<u8>,
    pub position: Xyz,
    pub rotation: Xyz,
    pub scale: Xyz,
    pub cmdl: u32,
    pub active: u8,
}

impl Platform {
    pub open spec fn wf(self) -> bool {
        cstr_ok(self.name@)
    }
}

pub open spec fn platform_bytes(t: Platform) -> Seq<u8> {
    cstr_bytes(t.name@) + xyz_bytes(t.position) + xyz_bytes(t.rotation) + xyz_bytes(t.scale) + u32_bytes(t.cmdl) + seq![t.active]
}

pub fn write_platform(s: &mut Sink, t: &Platform)
    ensures
        final(s)@ == old(s)@ + platform_bytes(*t),
{
    s.write_cstr(&t.name);
    write_xyz(s, &t.position);
    write_xyz(s, &t.rotation);
    write_xyz(s, &t.scale);
    s.write_u32(t.cmdl);
    s.write_u8(t.active);
    assert(final(s)@ =~= old(s)@ + platform_bytes(*t));
}

pub fn parse_platform(c: &mut Cursor, buf: &Vec<u8>) -> (r: Option<Platform>)
    requires
        old(c).valid(buf@),
    ensures
        final(c).valid(buf@),
        final(c).end == old(c).end,
        match r {
            Some(t) => {
                &&& t.wf()
                &&& old(c).pos <= final(c).pos
                &&& platform_bytes(t) == buf@.subrange(old(c).pos as int, final(c).pos as int)
            },
            None => true,
        },
{
    let name = match c.read_cstr(buf) {
        Some(v) => v,
        None => { return None; },
    };
    let position = match parse_xyz(c, buf) {
        Some(v) => v,
        None => { return None; },
    };
    let rotation = match parse_xyz(c, buf) {
        Some(v) => v,
        None => { return None; },
    };
    let scale = match parse_xyz(c, buf) {
        Some(v) => v,
        None => { return None; },
    };
    let cmdl = match c.read_u32(buf) {
        Some(v) => v,
        None => { return None; },
    };
    let active = match c.read_u8(buf) {
        Some(v) => v,
        None => { return None; },
    };
    let t = Platform { name, position, rotation, scale, cmdl, active };
    assert(platform_bytes(t) =~= buf@.subrange(old(c).pos as int, final(c).pos as int));
    Some(t)
}

/// A collectable item.
#[derive(Clone, Debug)]
pub struct Pickup {
    pub name: Vec<u8>,
    pub position: Xyz,
    pub rotation: Xyz,
    pub scale: Xyz,
    pub hitbox: Xyz,
    pub scan_offset: Xyz,
    pub kind: u32,
    pub max_increase: u32,
    pub curr_increase: u32,
    pub cmdl: u32,
    pub ancs: u32,
    pub fade_in_timer: u32,
    pub spawn_delay: u32,
    pub active: u8,
}

impl Pickup {
    pub open spec fn wf(self) -> bool {
        cstr_ok(self.name@)
    }
}

pub open spec fn pickup_bytes(t: Pickup) -> Seq<u8> {
    cstr_bytes(t.name@) + xyz_bytes(t.position) + xyz_bytes(t.rotation) + xyz_bytes(t.scale) + xyz_bytes(t.hitbox) + xyz_bytes(t.scan_offset) + u32_bytes(t.kind) + u32_bytes(t.max_increase) + u32_bytes(t.curr_increase) + u32_bytes(t.cmdl) + u32_bytes(t.ancs) + u32_bytes(t.fade_in_timer) + u32_bytes(t.spawn_delay) + seq![t.active]
}

#[verifier::rlimit(80)]
pub fn write_pickup(s: &mut Sink, t: &Pickup)
    ensures
        final(s)@ == old(s)@ + pickup_bytes(*t),
{
    s.write_cstr(&t.name);
    write_xyz(s, &t.position);
    write_xyz(s, &t.rotation);
    write_xyz(s, &t.scale);
    write_xyz(s, &t.hitbox);
    write_xyz(s, &t.scan_offset);
    s.write_u32(t.kind);
    s.write_u32(t.max_increase);
    s.write_u32(t.curr_increase);
    s.write_u32(t.cmdl);
    s.write_u32(t.ancs);
    s.write_u32(t.fade_in_timer);
    s.write_u32(t.spawn_delay);
    s.write_u8(t.active);
    assert(final(s)@ =~= old(s)@ + pickup_bytes(*t));
}

#[verifier::rlimit(80)]
pub fn parse_pickup(c: &mut Cursor, buf: &Vec<u8>) -> (r: Option<Pickup>)
    requires
        old(c).valid(buf@),
    ensures
        final(c).valid(buf@),
        final(c).end == old(c).end,
        match r {
            Some(t) => {
                &&& t.wf()
                &&& old(c).pos <= final(c).pos
                &&& pickup_bytes(t) == buf@.subrange(old(c).pos as int, final(c).pos as int)
            },
            None => true,
        },
{
    let name = match c.read_cstr(buf) {
        Some(v) => v,
        None => { return None; },
    };
    let position = match parse_xyz(c, buf) {
        Some(v) => v,
        None => { return None; },
    };
    let rotation = match parse_xyz(c, buf) {
        Some(v) => v,
        None => { return None; },
    };
    let scale = match parse_xyz(c, buf) {
        Some(v) => v,
        None => { return None; },
    };
    let hitbox = match parse_xyz(c, buf) {
        Some(v) => v,
        None => { return None; },
    };
    let scan_offset = match parse_xyz(c, buf) {
        Some(v) => v,
        None => { return None; },
    };
    let kind = match c.read_u32(buf) {
        Some(v) => v,
        None => { return None; },
    };
    let max_increase = match c.read_u32(buf) {
        Some(v) => v,
        None => { return None; },
    };
    let curr_increase = match c.read_u32(buf) {
        Some(v) => v,
        None => { return None; },
    };
    let cmdl = match c.read_u32(buf) {
        Some(v) => v,
        None => { return None; },
    };
    let ancs = match c.read_u32(buf) {
        Some(v) => v,
        None => { return None; },
    };
    let fade_in_timer = match c.read_u32(buf) {
        Some(v) => v,
        None => { return None; },
    };
    let spawn_delay = match c.read_u32(buf) {
        Some(v) => v,
        None => { return None; },
    };
    let active = match c.read_u8(buf) {
        Some(v) => v,
        None => { return None; },
    };
    let t = Pickup { name, position, rotation, scale, hitbox, scan_offset, kind, max_increase, curr_increase, cmdl, ancs, fade_in_timer, spawn_delay, active };
    assert(pickup_bytes(t) =~= buf@.subrange(old(c).pos as int, final(c).pos as int));
    Some(t)
}

/// A liquid volume (water, acid or lava).
#[derive(Clone, Debug)]
pub struct Water {
    pub name: Vec<u8>,
    pub position: Xyz,
    pub scale: Xyz,
    pub flags: u32,
    pub active: u8,
}

impl Water {
    pub open spec fn wf(self) -> bool {
        cstr_ok(self.name@)
    }
}

pub open spec fn water_bytes(t: Water) -> Seq<u8> {
    cstr_bytes(t.name@) + xyz_bytes(t.position) + xyz_bytes(t.scale) + u32_bytes(t.flags) + seq![t.active]
}

pub fn write_water(s: &mut Sink, t: &Water)
    ensures
        final(s)@ == old(s)@ + water_bytes(*t),
{
    s.write_cstr(&t.name);
    write_xyz(s, &t.position);
    write_xyz(s, &t.scale);
    s.write_u32(t.flags);
    s.write_u8(t.active);
    assert(final(s)@ =~= old(s)@ + water_bytes(*t));
}

pub fn parse_water(c: &mut Cursor, buf: &Vec<u8>) -> (r: Option<Water>)
    requires
        old(c).valid(buf@),
    ensures
        final(c).valid(buf@),
        final(c).end == old(c).end,
        match r {
            Some(t) => {
                &&& t.wf()
                &&& old(c).pos <= final(c).pos
                &&& water_bytes(t) == buf@.subrange(old(c).pos as int, final(c).pos as int)
            },
            None => true,
        },
{
    let name = match c.read_cstr(buf) {
        Some(v) => v,
        None => { return None; },
    };
    let position = match parse_xyz(c, buf) {
        Some(v) => v,
        None => { return None; },
    };
    let scale = match parse_xyz(c, buf) {
        Some(v) => v,
        None => { return None; },
    };
    let flags = match c.read_u32(buf) {
        Some(v) => v,
        None => { return None; },
    };
    let active = match c.read_u8(buf) {
        Some(v) => v,
        None => { return None; },
    };
    let t = Water { name, position, scale, flags, active };
    assert(water_bytes(t) =~= buf@.subrange(old(c).pos as int, final(c).pos as int));
    Some(t)
}

/// Where the player appears, together with the inventory granted there.
#[derive(Clone, Debug)]
pub struct SpawnPoint {
    pub name: Vec<u8>,
    pub position: Xyz,
    pub rotation: Xyz,
    pub power: u32,
    pub missiles: u32,
    pub bombs: u32,
    pub power_bombs: u32,
    pub default_spawn: u8,
    pub active: u8,
    pub morphed: u8,
}

impl SpawnPoint {
    pub open spec fn wf(self) -> bool {
        cstr_ok(self.name@)
    }
}

pub open spec fn spawn_point_bytes(t: SpawnPoint) -> Seq<u8> {
    cstr_bytes(t.name@) + xyz_bytes(t.position) + xyz_bytes(t.rotation) + u32_bytes(t.power) + u32_bytes(t.missiles) + u32_bytes(t.bombs) + u32_bytes(t.power_bombs) + seq![t.default_spawn] + seq![t.active] + seq![t.morphed]
}

pub fn write_spawn_point(s: &mut Sink, t: &SpawnPoint)
    ensures
        final(s)@ == old(s)@ + spawn_point_bytes(*t),
{
    s.write_cstr(&t.name);
    write_xyz(s, &t.position);
    write_xyz(s, &t.rotation);
    s.write_u32(t.power);
    s.write_u32(t.missiles);
    s.write_u32(t.bombs);
    s.write_u32(t.power_bombs);
    s.write_u8(t.default_spawn);
    s.write_u8(t.active);
    s.write_u8(t.morphed);
    assert(final(s)@ =~= old(s)@ + spawn_point_bytes(*t));
}

pub fn parse_spawn_point(c: &mut Cursor, buf: &Vec<u8>) -> (r: Option<SpawnPoint>)
    requires
        old(c).valid(buf@),
    ensures
        final(c).valid(buf@),
        final(c).end == old(c).end,
        match r {
            Some(t) => {
                &&& t.wf()
                &&& old(c).pos <= final(c).pos
                &&& spawn_point_bytes(t) == buf@.subrange(old(c).pos as int, final(c).pos as int)
            },
            None => true,
        },
{
    let name = match c.read_cstr(buf) {
        Some(v) => v,
        None => { return None; },
    };
    let position = match parse_xyz(c, buf) {
        Some(v) => v,
        None => { return None; },
    };
    let rotation = match parse_xyz(c, buf) {
        Some(v) => v,
        None => { return None; },
    };
    let power = match c.read_u32(buf) {
        Some(v) => v,
        None => { return None; },
    };
    let missiles = match c.read_u32(buf) {
        Some(v) => v,
        None => { return None; },
    };
    let bombs = match c.read_u32(buf) {
        Some(v) => v,
        None => { return None; },
    };
    let power_bombs = match c.read_u32(buf) {
        Some(v) => v,
        None => { return None; },
    };
    let default_spawn = match c.read_u8(buf) {
        Some(v) => v,
        None => { return None; },
    };
    let active = match c.read_u8(buf) {
        Some(v) => v,
        None => { return None; },
    };
    let morphed = match c.read_u8(buf) {
        Some(v) => v,
        None => { return None; },
    };
    let t = SpawnPoint { name, position, rotation, power, missiles, bombs, power_bombs, default_spawn, active, morphed };
    assert(spawn_point_bytes(t) =~= buf@.subrange(old(c).pos as int, final(c).pos as int));
    Some(t)
}

/// A scannable point.
#[derive(Clone, Debug)]
pub struct PointOfInterest {
    pub name: Vec<u8>,
    pub position: Xyz,
    pub rotation: Xyz,
    pub active: u8,
    pub scan_id: u32,
}

impl PointOfInterest {
    pub open spec fn wf(self) -> bool {
        cstr_ok(self.name@)
    }
}

pub open spec fn point_of_interest_bytes(t: PointOfInterest) -> Seq<u8> {
    cstr_bytes(t.name@) + xyz_bytes(t.position) + xyz_bytes(t.rotation) + seq![t.active] + u32_bytes(t.scan_id)
}

pub fn write_point_of_interest(s: &mut Sink, t: &PointOfInterest)
    ensures
        final(s)@ == old(s)@ + point_of_interest_bytes(*t),
{
    s.write_cstr(&t.name);
    write_xyz(s, &t.position);
    write_xyz(s, &t.rotation);
    s.write_u8(t.active);
    s.write_u32(t.scan_id);
    assert(final(s)@ =~= old(s)@ + point_of_interest_bytes(*t));
}

pub fn parse_point_of_interest(c: &mut Cursor, buf: &Vec<u8>) -> (r: Option<PointOfInterest>)
    requires
        old(c).valid(buf@),
    ensures
        final(c).valid(buf@),
        final(c).end == old(c).end,
        match r {
            Some(t) => {
                &&& t.wf()
                &&& old(c).pos <= final(c).pos
                &&& point_of_interest_bytes(t) == buf@.subrange(old(c).pos as int, final(c).pos as int)
            },
            None => true,
        },
{
    let name = match c.read_cstr(buf) {
        Some(v) => v,
        None => { return None; },
    };
    let position = match parse_xyz(c, buf) {
        Some(v) => v,
        None => { return None; },
    };
    let rotation = match parse_xyz(c, buf) {
        Some(v) => v,
        None => { return None; },
    };
    let active = match c.read_u8(buf) {
        Some(v) => v,
        None => { return None; },
    };
    let scan_id = match c.read_u32(buf) {
        Some(v) => v,
        None => { return None; },
    };
    let t = PointOfInterest { name, position, rotation, active, scan_id };
    assert(point_of_interest_bytes(t) =~= buf@.subrange(old(c).pos as int, final(c).pos as int));
    Some(t)
}

/// A volume that can take damage and relays its destruction.
#[derive(Clone, Debug)]
pub struct DamageableTrigger {
    pub name: Vec<u8>,
    pub position: Xyz,
    pub scale: Xyz,
    pub health_info: HealthInfo,
    pub damage_vulnerability: u32,
    pub active: u8,
}

impl DamageableTrigger {
    pub open spec fn wf(self) -> bool {
        cstr_ok(self.name@)
    }
}

pub open spec fn damageable_trigger_bytes(t: DamageableTrigger) -> Seq<u8> {
    cstr_bytes(t.name@) + xyz_bytes(t.position) + xyz_bytes(t.scale) + health_info_bytes(t.health_info) + u32_bytes(t.damage_vulnerability) + seq![t.active]
}

pub fn write_damageable_trigger(s: &mut Sink, t: &DamageableTrigger)
    ensures
        final(s)@ == old(s)@ + damageable_trigger_bytes(*t),
{
    s.write_cstr(&t.name);
    write_xyz(s, &t.position);
    write_xyz(s, &t.scale);
    write_health_info(s, &t.health_info);
    s.write_u32(t.damage_vulnerability);
    s.write_u8(t.active);
    assert(final(s)@ =~= old(s)@ + damageable_trigger_bytes(*t));
}

pub fn parse_damageable_trigger(c: &mut Cursor, buf: &Vec<u8>) -> (r: Option<DamageableTrigger>)
    requires
        old(c).valid(buf@),
    ensures
        final(c).valid(buf@),
        final(c).end == old(c).end,
        match r {
            Some(t) => {
                &&& t.wf()
                &&& old(c).pos <= final(c).pos
                &&& damageable_trigger_bytes(t) == buf@.subrange(old(c).pos as int, final(c).pos as int)
            },
            None => true,
        },
{
    let name = match c.read_cstr(buf) {
        Some(v) => v,
        None => { return None; },
    };
    let position = match parse_xyz(c, buf) {
        Some(v) => v,
        None => { return None; },
    };
    let scale = match parse_xyz(c, buf) {
        Some(v) => v,
        None => { return None; },
    };
    let health_info = match parse_health_info(c, buf) {
        Some(v) => v,
        None => { return None; },
    };
    let damage_vulnerability = match c.read_u32(buf) {
        Some(v) => v,
        None => { return None; },
    };
    let active = match c.read_u8(buf) {
        Some(v) => v,
        None => { return None; },
    };
    let t = DamageableTrigger { name, position, scale, health_info, damage_vulnerability, active };
    assert(damageable_trigger_bytes(t) =~= buf@.subrange(old(c).pos as int, final(c).pos as int));
    Some(t)
}

/// An elevator to another world/area pair.
#[derive(Clone, Debug)]
pub struct WorldTransporter {
    pub name: Vec<u8>,
    pub active: u8,
    pub mlvl: u32,
    pub mrea: u32,
    pub player_scale: Xyz,
    pub volume: u32,
}

impl WorldTransporter {
    pub open spec fn wf(self) -> bool {
        cstr_ok(self.name@)
    }
}

pub open spec fn world_transporter_bytes(t: WorldTransporter) -> Seq<u8> {
    cstr_bytes(t.name@) + seq![t.active] + u32_bytes(t.mlvl) + u32_bytes(t.mrea) + xyz_bytes(t.player_scale) + u32_bytes(t.volume)
}

pub fn write_world_transporter(s: &mut Sink, t: &WorldTransporter)
    ensures
        final(s)@ == old(s)@ + world_transporter_bytes(*t),
{
    s.write_cstr(&t.name);
    s.write_u8(t.active);
    s.write_u32(t.mlvl);
    s.write_u32(t.mrea);
    write_xyz(s, &t.player_scale);
    s.write_u32(t.volume);
    assert(final(s)@ =~= old(s)@ + world_transporter_bytes(*t));
}

pub fn parse_world_transporter(c: &mut Cursor, buf: &Vec<u8>) -> (r: Option<WorldTransporter>)
    requires
        old(c).valid(buf@),
    ensures
        final(c).valid(buf@),
        final(c).end == old(c).end,
        match r {
            Some(t) => {
                &&& t.wf()
                &&& old(c).pos <= final(c).pos
                &&& world_transporter_bytes(t) == buf@.subrange(old(c).pos as int, final(c).pos as int)
            },
            None => true,
        },
{
    let name = match c.read_cstr(buf) {
        Some(v) => v,
        None => { return None; },
    };
    let active = match c.read_u8(buf) {
        Some(v) => v,
        None => { return None; },
    };
    let mlvl = match c.read_u32(buf) {
        Some(v) => v,
        None => { return None; },
    };
    let mrea = match c.read_u32(buf) {
        Some(v) => v,
        None => { return None; },
    };
    let player_scale = match parse_xyz(c, buf) {
        Some(v) => v,
        None => { return None; },
    };
    let volume = match c.read_u32(buf) {
        Some(v) => v,
        None => { return None; },
    };
    let t = WorldTransporter { name, active, mlvl, mrea, player_scale, volume };
    assert(world_transporter_bytes(t) =~= buf@.subrange(old(c).pos as int, final(c).pos as int));
    Some(t)
}

/// A positional sound effect.
#[derive(Clone, Debug)]
pub struct Sound {
    pub name: Vec<u8>,
    pub position: Xyz,
    pub rotation: Xyz,
    pub sound_id: u32,
    pub active: u8,
    pub max_dist: u32,
    pub dist_comp: u32,
    pub start_delay: u32,
    pub min_volume: u32,
    pub volume: u32,
    pub priority: u32,
    pub pan: u32,
    pub loops: u8,
    pub non_emitter: u8,
    pub auto_start: u8,
    pub occlusion_test: u8,
    pub acoustics: u8,
    pub world_sfx: u8,
    pub allow_duplicates: u8,
    pub pitch: u32,
}

impl Sound {
    pub open spec fn wf(self) -> bool {
        cstr_ok(self.name@)
    }
}

pub open spec fn sound_bytes(t: Sound) -> Seq<u8> {
    cstr_bytes(t.name@) + xyz_bytes(t.position) + xyz_bytes(t.rotation) + u32_bytes(t.sound_id) + seq![t.active] + u32_bytes(t.max_dist) + u32_bytes(t.dist_comp) + u32_bytes(t.start_delay) + u32_bytes(t.min_volume) + u32_bytes(t.volume) + u32_bytes(t.priority) + u32_bytes(t.pan) + seq![t.loops] + seq![t.non_emitter] + seq![t.auto_start] + seq![t.occlusion_test] + seq![t.acoustics] + seq![t.world_sfx] + seq![t.allow_duplicates] + u32_bytes(t.pitch)
}

#[verifier::rlimit(80)]
pub fn write_sound(s: &mut Sink, t: &Sound)
    ensures
        final(s)@ == old(s)@ + sound_bytes(*t),
{
    s.write_cstr(&t.name);
    write_xyz(s, &t.position);
    write_xyz(s, &t.rotation);
    s.write_u32(t.sound_id);
    s.write_u8(t.active);
    s.write_u32(t.max_dist);
    s.write_u32(t.dist_comp);
    s.write_u32(t.start_delay);
    s.write_u32(t.min_volume);
    s.write_u32(t.volume);
    s.write_u32(t.priority);
    s.write_u32(t.pan);
    s.write_u8(t.loops);
    s.write_u8(t.non_emitter);
    s.write_u8(t.auto_start);
    s.write_u8(t.occlusion_test);
    s.write_u8(t.acoustics);
    s.write_u8(t.world_sfx);
    s.write_u8(t.allow_duplicates);
    s.write_u32(t.pitch);
    assert(final(s)@ =~= old(s)@ + sound_bytes(*t));
}

#[verifier::rlimit(80)]
pub fn parse_sound(c: &mut Cursor, buf: &Vec<u8>) -> (r: Option<Sound>)
    requires
        old(c).valid(buf@),
    ensures
        final(c).valid(buf@),
        final(c).end == old(c).end,
        match r {
            Some(t) => {
                &&& t.wf()
                &&& old(c).pos <= final(c).pos
                &&& sound_bytes(t) == buf@.subrange(old(c).pos as int, final(c).pos as int)
            },
            None => true,
        },
{
    let name = match c.read_cstr(buf) {
        Some(v) => v,
        None => { return None; },
    };
    let position = match parse_xyz(c, buf) {
        Some(v) => v,
        None => { return None; },
    };
    let rotation = match parse_xyz(c, buf) {
        Some(v) => v,
        None => { return None; },
    };
    let sound_id = match c.read_u32(buf) {
        Some(v) => v,
        None => { return None; },
    };
    let active = match c.read_u8(buf) {
        Some(v) => v,
        None => { return None; },
    };
    let max_dist = match c.read_u32(buf) {
        Some(v) => v,
        None => { return None; },
    };
    let dist_comp = match c.read_u32(buf) {
        Some(v) => v,
        None => { return None; },
    };
    let start_delay = match c.read_u32(buf) {
        Some(v) => v,
        None => { return None; },
    };
    let min_volume = match c.read_u32(buf) {
        Some(v) => v,
        None => { return None; },
    };
    let volume = match c.read_u32(buf) {
        Some(v) => v,
        None => { return None; },
    };
    let priority = match c.read_u32(buf) {
        Some(v) => v,
        None => { return None; },
    };
    let pan = match c.read_u32(buf) {
        Some(v) => v,
        None => { return None; },
    };
    let loops = match c.read_u8(buf) {
        Some(v) => v,
        None => { return None; },
    };
    let non_emitter = match c.read_u8(buf) {
        Some(v) => v,
        None => { return None; },
    };
    let auto_start = match c.read_u8(buf) {
        Some(v) => v,
        None => { return None; },
    };
    let occlusion_test = match c.read_u8(buf) {
        Some(v) => v,
        None => { return None; },
    };
    let acoustics = match c.read_u8(buf) {
        Some(v) => v,
        None => { return None; },
    };
    let world_sfx = match c.read_u8(buf) {
        Some(v) => v,
        None => { return None; },
    };
    let allow_duplicates = match c.read_u8(buf) {
        Some(v) => v,
        None => { return None; },
    };
    let pitch = match c.read_u32(buf) {
        Some(v) => v,
        None => { return None; },
    };
    let t = Sound { name, position, rotation, sound_id, active, max_dist, dist_comp, start_delay, min_volume, volume, priority, pan, loops, non_emitter, auto_start, occlusion_test, acoustics, world_sfx, allow_duplicates, pitch };
    assert(sound_bytes(t) =~= buf@.subrange(old(c).pos as int, final(c).pos as int));
    Some(t)
}

/// Music streamed from a named audio file.
#[derive(Clone, Debug)]
pub struct StreamedAudio {
    pub name: Vec<u8>,
    pub audio_file_name: Vec<u8>,
    pub volume: u32,
    pub oneshot: u32,
    pub active: u8,
}

impl StreamedAudio {
    pub open spec fn wf(self) -> bool {
        cstr_ok(self.name@) && cstr_ok(self.audio_file_name@)
    }
}

pub open spec fn streamed_audio_bytes(t: StreamedAudio) -> Seq<u8> {
    cstr_bytes(t.name@) + cstr_bytes(t.audio_file_name@) + u32_bytes(t.volume) + u32_bytes(t.oneshot) + seq![t.active]
}

pub fn write_streamed_audio(s: &mut Sink, t: &StreamedAudio)
    ensures
        final(s)@ == old(s)@ + streamed_audio_bytes(*t),
{
    s.write_cstr(&t.name);
    s.write_cstr(&t.audio_file_name);
    s.write_u32(t.volume);
    s.write_u32(t.oneshot);
    s.write_u8(t.active);
    assert(final(s)@ =~= old(s)@ + streamed_audio_bytes(*t));
}

pub fn parse_streamed_audio(c: &mut Cursor, buf: &Vec<u8>) -> (r: Option<StreamedAudio>)
    requires
        old(c).valid(buf@),
    ensures
        final(c).valid(buf@),
        final(c).end == old(c).end,
        match r {
            Some(t) => {
                &&& t.wf()
                &&& old(c).pos <= final(c).pos
                &&& streamed_audio_bytes(t) == buf@.subrange(old(c).pos as int, final(c).pos as int)
            },
            None => true,
        },
{
    let name = match c.read_cstr(buf) {
        Some(v) => v,
        None => { return None; },
    };
    let audio_file_name = match c.read_cstr(buf) {
        Some(v) => v,
        None => { return None; },
    };
    let volume = match c.read_u32(buf) {
        Some(v) => v,
        None => { return None; },
    };
    let oneshot = match c.read_u32(buf) {
        Some(v) => v,
        None => { return None; },
    };
    let active = match c.read_u8(buf) {
        Some(v) => v,
        None => { return None; },
    };
    let t = StreamedAudio { name, audio_file_name, volume, oneshot, active };
    assert(streamed_audio_bytes(t) =~= buf@.subrange(old(c).pos as int, final(c).pos as int));
    Some(t)
}

/// A grab-bag of engine behaviours selected by `type_`.
#[derive(Clone, Debug)]
pub struct SpecialFunction {
    pub name: Vec<u8>,
    pub position: Xyz,
    pub rotation: Xyz,
    pub type_: u32,
    pub unknown0: Vec<u8>,
    pub unknown1: u32,
    pub unknown2: u32,
    pub unknown3: u32,
    pub layer_change_room_id: u32,
    pub layer_change_layer_id: u32,
    pub item_id: u32,
    pub unknown4: u8,
    pub unknown5: u32,
    pub unknown6: u32,
    pub unknown7: u32,
    pub unknown8: u32,
}

impl SpecialFunction {
    pub open spec fn wf(self) -> bool {
        cstr_ok(self.name@) && cstr_ok(self.unknown0@)
    }
}

pub open spec fn special_function_bytes(t: SpecialFunction) -> Seq<u8> {
    cstr_bytes(t.name@) + xyz_bytes(t.position) + xyz_bytes(t.rotation) + u32_bytes(t.type_) + cstr_bytes(t.unknown0@) + u32_bytes(t.unknown1) + u32_bytes(t.unknown2) + u32_bytes(t.unknown3) + u32_bytes(t.layer_change_room_id) + u32_bytes(t.layer_change_layer_id) + u32_bytes(t.item_id) + seq![t.unknown4] + u32_bytes(t.unknown5) + u32_bytes(t.unknown6) + u32_bytes(t.unknown7) + u32_bytes(t.unknown8)
}

#[verifier::rlimit(80)]
pub fn write_special_function(s: &mut Sink, t: &SpecialFunction)
    ensures
        final(s)@ == old(s)@ + special_function_bytes(*t),
{
    s.write_cstr(&t.name);
    write_xyz(s, &t.position);
    write_xyz(s, &t.rotation);
    s.write_u32(t.type_);
    s.write_cstr(&t.unknown0);
    s.write_u32(t.unknown1);
    s.write_u32(t.unknown2);
    s.write_u32(t.unknown3);
    s.write_u32(t.layer_change_room_id);
    s.write_u32(t.layer_change_layer_id);
    s.write_u32(t.item_id);
    s.write_u8(t.unknown4);
    s.write_u32(t.unknown5);
    s.write_u32(t.unknown6);
    s.write_u32(t.unknown7);
    s.write_u32(t.unknown8);
    assert(final(s)@ =~= old(s)@ + special_function_bytes(*t));
}

#[verifier::rlimit(100)]
pub fn parse_special_function(c: &mut Cursor, buf: &Vec<u8>) -> (r: Option<SpecialFunction>)
    requires
        old(c).valid(buf@),
    ensures
        final(c).valid(buf@),
        final(c).end == old(c).end,
        match r {
            Some(t) => {
                &&& t.wf()
                &&& old(c).pos <= final(c).pos
                &&& special_function_bytes(t) == buf@.subrange(old(c).pos as int, final(c).pos as int)
            },
            None => true,
        },
{
    let name = match c.read_cstr(buf) {
        Some(v) => v,
        None => { return None; },
    };
    let position = match parse_xyz(c, buf) {
        Some(v) => v,
        None => { return None; },
    };
    let rotation = match parse_xyz(c, buf) {
        Some(v) => v,
        None => { return None; },
    };
    let type_ = match c.read_u32(buf) {
        Some(v) => v,
        None => { return None; },
    };
    let unknown0 = match c.read_cstr(buf) {
        Some(v) => v,
        None => { return None; },
    };
    let unknown1 = match c.read_u32(buf) {
        Some(v) => v,
        None => { return None; },
    };
    let unknown2 = match c.read_u32(buf) {
        Some(v) => v,
        None => { return None; },
    };
    let unknown3 = match c.read_u32(buf) {
        Some(v) => v,
        None => { return None; },
    };
    let layer_change_room_id = match c.read_u32(buf) {
        Some(v) => v,
        None => { return None; },
    };
    let layer_change_layer_id = match c.read_u32(buf) {
        Some(v) => v,
        None => { return None; },
    };
    let item_id = match c.read_u32(buf) {
        Some(v) => v,
        None => { return None; },
    };
    let unknown4 = match c.read_u8(buf) {
        Some(v) => v,
        None => { return None; },
    };
    let unknown5 = match c.read_u32(buf) {
        Some(v) => v,
        None => { return None; },
    };
    let unknown6 = match c.read_u32(buf) {
        Some(v) => v,
        None => { return None; },
    };
    let unknown7 = match c.read_u32(buf) {
        Some(v) => v,
        None => { return None; },
    };
    let unknown8 = match c.read_u32(buf) {
        Some(v) => v,
        None => { return None; },
    };
    let t = SpecialFunction { name, position, rotation, type_, unknown0, unknown1, unknown2, unknown3, layer_change_room_id, layer_change_layer_id, item_id, unknown4, unknown5, unknown6, unknown7, unknown8 };
    assert(special_function_bytes(t) =~= buf@.subrange(old(c).pos as int, final(c).pos as int));
    Some(t)
}

/// A hint shown to the player; its serialized form carries two
/// expected-constant property counts.
#[derive(Clone, Debug)]
pub struct PlayerHint {
    pub name: Vec<u8>,
    pub position: Xyz,
    pub rotation: Xyz,
    pub unknown0: u8,
    pub unknowns: Vec<u8>,
    pub unknown1: u32,
}

pub const PLAYER_HINT_PROP_COUNT: u32 = 6;

pub const PLAYER_HINT_INNER_PROP_COUNT: u32 = 15;

impl PlayerHint {
    pub open spec fn wf(self) -> bool {
        cstr_ok(self.name@) && self.unknowns@.len() == 15
    }
}

pub open spec fn player_hint_bytes(t: PlayerHint) -> Seq<u8> {
    u32_bytes(PLAYER_HINT_PROP_COUNT) + cstr_bytes(t.name@) + xyz_bytes(t.position) + xyz_bytes(
        t.rotation,
    ) + seq![t.unknown0] + u32_bytes(PLAYER_HINT_INNER_PROP_COUNT) + t.unknowns@ + u32_bytes(
        t.unknown1,
    )
}

pub fn write_player_hint(s: &mut Sink, t: &PlayerHint)
    ensures
        final(s)@ == old(s)@ + player_hint_bytes(*t),
{
    s.write_u32(PLAYER_HINT_PROP_COUNT);
    s.write_cstr(&t.name);
    write_xyz(s, &t.position);
    write_xyz(s, &t.rotation);
    s.write_u8(t.unknown0);
    s.write_u32(PLAYER_HINT_INNER_PROP_COUNT);
    s.write_bytes(&t.unknowns);
    s.write_u32(t.unknown1);
    assert(final(s)@ =~= old(s)@ + player_hint_bytes(*t));
}

pub fn parse_player_hint(c: &mut Cursor, buf: &Vec<u8>) -> (r: Option<PlayerHint>)
    requires
        old(c).valid(buf@),
    ensures
        final(c).valid(buf@),
        final(c).end == old(c).end,
        match r {
            Some(t) => {
                &&& t.wf()
                &&& old(c).pos <= final(c).pos
                &&& player_hint_bytes(t) == buf@.subrange(old(c).pos as int, final(c).pos as int)
            },
            None => true,
        },
{
    match c.expect_u32(buf, PLAYER_HINT_PROP_COUNT) {
        Some(v) => v,
        None => { return None; },
    };
    let name = match c.read_cstr(buf) {
        Some(v) => v,
        None => { return None; },
    };
    let position = match parse_xyz(c, buf) {
        Some(v) => v,
        None => { return None; },
    };
    let rotation = match parse_xyz(c, buf) {
        Some(v) => v,
        None => { return None; },
    };
    let unknown0 = match c.read_u8(buf) {
        Some(v) => v,
        None => { return None; },
    };
    match c.expect_u32(buf, PLAYER_HINT_INNER_PROP_COUNT) {
        Some(v) => v,
        None => { return None; },
    };
    let unknowns = match c.read_bytes(buf, 15) {
        Some(v) => v,
        None => { return None; },
    };
    let unknown1 = match c.read_u32(buf) {
        Some(v) => v,
        None => { return None; },
    };
    let t = PlayerHint { name, position, rotation, unknown0, unknowns, unknown1 };
    assert(player_hint_bytes(t) =~= buf@.subrange(old(c).pos as int, final(c).pos as int));
    Some(t)
}

impl SpecialFunction {
    /// The engine's layer-change function: toggles layer
    /// `layer_change_layer_id` of room `layer_change_room_id`.
    pub fn layer_change_fn(name: Vec<u8>, room_id: u32, layer_id: u32) -> (r: SpecialFunction)
        requires
            cstr_ok(name@),
        ensures
            r.wf(),
            r.name == name,
            r.type_ == 16,
            r.layer_change_room_id == room_id,
            r.layer_change_layer_id == layer_id,
            r.unknown4 == 1,
    {
        let mut empty: Vec<u8> = Vec::new();
        SpecialFunction {
            name,
            position: Xyz { x: 0, y: 0, z: 0 },
            rotation: Xyz { x: 0, y: 0, z: 0 },
            type_: 16,
            unknown0: empty,
            unknown1: 0,
            unknown2: 0,
            unknown3: 0,
            layer_change_room_id: room_id,
            layer_change_layer_id: layer_id,
            item_id: 0,
            unknown4: 1,
            unknown5: 0,
            unknown6: 0xFFFFFFFF,
            unknown7: 0xFFFFFFFF,
            unknown8: 0xFFFFFFFF,
        }
    }
}

} // verus!
