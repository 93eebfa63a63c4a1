//! The shared telemetry record: its packed little-endian layout, the datagram
//! that refreshes it, and typed views of it.
//!
//! The record in shared memory is the wire record followed by a description of
//! 2048 UTF-16 units that the wire record leaves out. Floating-point fields are
//! held as their `f32` bit patterns.

use vstd::prelude::*;

use crate::bytes::{
    read_bytes, read_u16_le, read_u16s_le, read_u32_le, read_u32x3_le, u16_le, u16s_le, u32_le,
    u32s_le,
};

verus! {

pub const UI_VERSION_OFFSET: usize = 0;

pub const UI_TICK_OFFSET: usize = UI_VERSION_OFFSET + 4;

pub const AVATAR_POSITION_OFFSET: usize = UI_TICK_OFFSET + 4;

pub const AVATAR_FRONT_OFFSET: usize = AVATAR_POSITION_OFFSET + 12;

pub const AVATAR_TOP_OFFSET: usize = AVATAR_FRONT_OFFSET + 12;

pub const NAME_OFFSET: usize = AVATAR_TOP_OFFSET + 12;

/// The number of UTF-16 units of the name and of the identity.
pub const TEXT_LEN: usize = 256;

pub const CAMERA_POSITION_OFFSET: usize = NAME_OFFSET + 2 * TEXT_LEN;

pub const CAMERA_FRONT_OFFSET: usize = CAMERA_POSITION_OFFSET + 12;

pub const CAMERA_TOP_OFFSET: usize = CAMERA_FRONT_OFFSET + 12;

pub const IDENTITY_OFFSET: usize = CAMERA_TOP_OFFSET + 12;

pub const CONTEXT_LEN_OFFSET: usize = IDENTITY_OFFSET + 2 * TEXT_LEN;

pub const CONTEXT_OFFSET: usize = CONTEXT_LEN_OFFSET + 4;

/// The number of bytes of the opaque context buffer.
pub const CONTEXT_BUFFER_LEN: usize = 256;

/// The size of a wire record: everything up to and with the context buffer.
pub const WIRE_RECORD_SIZE: usize = CONTEXT_OFFSET + CONTEXT_BUFFER_LEN;

pub const DESCRIPTION_OFFSET: usize = WIRE_RECORD_SIZE;

/// The number of UTF-16 units of the description.
pub const DESCRIPTION_LEN: usize = 2048;

/// The size of the record in shared memory.
pub const LINKED_MEM_SIZE: usize = DESCRIPTION_OFFSET + 2 * DESCRIPTION_LEN;

pub const MAP_ID_OFFSET: usize = 28;

pub const MAP_TYPE_OFFSET: usize = MAP_ID_OFFSET + 4;

pub const SHARD_ID_OFFSET: usize = MAP_TYPE_OFFSET + 4;

pub const INSTANCE_OFFSET: usize = SHARD_ID_OFFSET + 4;

pub const BUILD_ID_OFFSET: usize = INSTANCE_OFFSET + 4;

pub const UI_STATE_OFFSET: usize = BUILD_ID_OFFSET + 4;

pub const COMPASS_WIDTH_OFFSET: usize = UI_STATE_OFFSET + 4;

pub const COMPASS_HEIGHT_OFFSET: usize = COMPASS_WIDTH_OFFSET + 2;

pub const COMPASS_ROTATION_OFFSET: usize = COMPASS_HEIGHT_OFFSET + 2;

pub const PLAYER_X_OFFSET: usize = COMPASS_ROTATION_OFFSET + 4;

pub const PLAYER_Y_OFFSET: usize = PLAYER_X_OFFSET + 4;

pub const MAP_CENTER_X_OFFSET: usize = PLAYER_Y_OFFSET + 4;

pub const MAP_CENTER_Y_OFFSET: usize = MAP_CENTER_X_OFFSET + 4;

pub const MAP_SCALE_OFFSET: usize = MAP_CENTER_Y_OFFSET + 4;

pub const PROCESS_ID_OFFSET: usize = MAP_SCALE_OFFSET + 4;

pub const MOUNT_INDEX_OFFSET: usize = PROCESS_ID_OFFSET + 4;

/// The size of the context block laid over the context buffer.
pub const CONTEXT_SIZE: usize = MOUNT_INDEX_OFFSET + 1;

/// The layouts have the sizes that the producer of the records uses: a
/// context block of 85 bytes, a wire record of 1364 bytes, and a shared record
/// that adds 2048 UTF-16 units to the wire record.
pub proof fn lemma_layout_sizes()
    ensures
        CONTEXT_SIZE == 85,
        WIRE_RECORD_SIZE == 1364,
        LINKED_MEM_SIZE == WIRE_RECORD_SIZE + 2 * DESCRIPTION_LEN,
        LINKED_MEM_SIZE == 5460,
        CONTEXT_SIZE <= CONTEXT_BUFFER_LEN,
{
}

/// The flags of the context block's `ui_state` bitmask.
#[derive(Clone, Copy, Debug, PartialEq, Eq, Structural)]
pub enum UiState {
    MapOpen,
    CompassTopRight,
    CompassRotation,
    GameFocus,
    CompetetiveMode,
    TextbookFocus,
    Combat,
}

/// The bit of each flag.
pub open spec fn ui_state_bit(s: UiState) -> u32 {
    match s {
        UiState::MapOpen => 0,
        UiState::CompassTopRight => 1,
        UiState::CompassRotation => 2,
        UiState::GameFocus => 3,
        UiState::CompetetiveMode => 4,
        UiState::TextbookFocus => 5,
        UiState::Combat => 6,
    }
}

impl UiState {
    /// The mask of the flag: its bit set, and no other.
    pub fn mask(&self) -> (r: u32)
        ensures
            r == 1u32 << ui_state_bit(*self),
    {
        let r: u32 = match self {
            UiState::MapOpen => 1,
            UiState::CompassTopRight => 2,
            UiState::CompassRotation => 4,
            UiState::GameFocus => 8,
            UiState::CompetetiveMode => 16,
            UiState::TextbookFocus => 32,
            UiState::Combat => 64,
        };
        assert(1u32 << 0u32 == 1 && 1u32 << 1u32 == 2 && 1u32 << 2u32 == 4 && 1u32 << 3u32 == 8
            && 1u32 << 4u32 == 16 && 1u32 << 5u32 == 32 && 1u32 << 6u32 == 64) by (bit_vector);
        r
    }
}

/// The game's context block, laid over the first 85 bytes of the record's
/// context buffer. Floating-point fields are `f32` bit patterns.
#[derive(Clone, Debug)]
pub struct MumbleContext {
    pub server_address: Vec<u8>,
    pub map_id: u32,
    pub map_type: u32,
    pub shard_id: u32,
    pub instance: u32,
    pub build_id: u32,
    pub ui_state: u32,
    pub compass_width: u16,
    pub compass_height: u16,
    pub compass_rotation: u32,
    pub player_x: u32,
    pub player_y: u32,
    pub map_center_x: u32,
    pub map_center_y: u32,
    pub map_scale: u32,
    pub process_id: u32,
    pub mount_index: u8,
}

/// `c` is the context block stored at the start of `b`.
pub open spec fn context_of(b: Seq<u8>, c: MumbleContext) -> bool {
    &&& c.server_address@ == b.take(28)
    &&& c.map_id == u32_le(b, MAP_ID_OFFSET as int)
    &&& c.map_type == u32_le(b, MAP_TYPE_OFFSET as int)
    &&& c.shard_id == u32_le(b, SHARD_ID_OFFSET as int)
    &&& c.instance == u32_le(b, INSTANCE_OFFSET as int)
    &&& c.build_id == u32_le(b, BUILD_ID_OFFSET as int)
    &&& c.ui_state == u32_le(b, UI_STATE_OFFSET as int)
    &&& c.compass_width == u16_le(b, COMPASS_WIDTH_OFFSET as int)
    &&& c.compass_height == u16_le(b, COMPASS_HEIGHT_OFFSET as int)
    &&& c.compass_rotation == u32_le(b, COMPASS_ROTATION_OFFSET as int)
    &&& c.player_x == u32_le(b, PLAYER_X_OFFSET as int)
    &&& c.player_y == u32_le(b, PLAYER_Y_OFFSET as int)
    &&& c.map_center_x == u32_le(b, MAP_CENTER_X_OFFSET as int)
    &&& c.map_center_y == u32_le(b, MAP_CENTER_Y_OFFSET as int)
    &&& c.map_scale == u32_le(b, MAP_SCALE_OFFSET as int)
    &&& c.process_id == u32_le(b, PROCESS_ID_OFFSET as int)
    &&& c.mount_index == b[MOUNT_INDEX_OFFSET as int]
}

/// `option` has a bit in common with the bitmask `state`.
pub open spec fn ui_state_has(state: u32, option: u32) -> bool {
    state & option != 0
}

impl MumbleContext {
    /// Reads the context block at the start of `b`.
    pub fn from_bytes(b: &[u8]) -> (r: MumbleContext)
        requires
            b@.len() >= CONTEXT_SIZE,
        ensures
            context_of(b@, r),
    {
        MumbleContext {
            server_address: read_bytes(b, 0, 28),
            map_id: read_u32_le(b, MAP_ID_OFFSET),
            map_type: read_u32_le(b, MAP_TYPE_OFFSET),
            shard_id: read_u32_le(b, SHARD_ID_OFFSET),
            instance: read_u32_le(b, INSTANCE_OFFSET),
            build_id: read_u32_le(b, BUILD_ID_OFFSET),
            ui_state: read_u32_le(b, UI_STATE_OFFSET),
            compass_width: read_u16_le(b, COMPASS_WIDTH_OFFSET),
            compass_height: read_u16_le(b, COMPASS_HEIGHT_OFFSET),
            compass_rotation: read_u32_le(b, COMPASS_ROTATION_OFFSET),
            player_x: read_u32_le(b, PLAYER_X_OFFSET),
            player_y: read_u32_le(b, PLAYER_Y_OFFSET),
            map_center_x: read_u32_le(b, MAP_CENTER_X_OFFSET),
            map_center_y: read_u32_le(b, MAP_CENTER_Y_OFFSET),
            map_scale: read_u32_le(b, MAP_SCALE_OFFSET),
            process_id: read_u32_le(b, PROCESS_ID_OFFSET),
            mount_index: b[MOUNT_INDEX_OFFSET],
        }
    }

    /// Whether the flags in `option` share a bit with `ui_state`.
    pub fn get_ui_state(&self, option: u32) -> (r: bool)
        ensures
            r == ui_state_has(self.ui_state, option),
    {
        let state = self.ui_state;
        let res = state & option;
        res != 0
    }

    pub fn get_map_id(&self) -> (r: u32)
        ensures
            r == self.map_id,
    {
        self.map_id
    }

    pub fn get_map_center_x(&self) -> (r: u32)
        ensures
            r == self.map_center_x,
    {
        self.map_center_x
    }

    pub fn get_map_center_y(&self) -> (r: u32)
        ensures
            r == self.map_center_y,
    {
        self.map_center_y
    }

    pub fn get_map_scale(&self) -> (r: u32)
        ensures
            r == self.map_scale,
    {
        self.map_scale
    }
}

impl Default for MumbleContext {
    /// A context block of zero bytes.
    fn default() -> (r: MumbleContext)
        ensures
            r.server_address@ == Seq::new(28, |i: int| 0u8),
            r.map_id == 0 && r.map_type == 0 && r.shard_id == 0 && r.instance == 0,
            r.build_id == 0 && r.ui_state == 0,
            r.compass_width == 0 && r.compass_height == 0,
            r.compass_rotation == 0 && r.player_x == 0 && r.player_y == 0,
            r.map_center_x == 0 && r.map_center_y == 0 && r.map_scale == 0,
            r.process_id == 0 && r.mount_index == 0,
    {
        let mut server_address: Vec<u8> = Vec::new();
        let mut k: usize = 0;
        while k < 28
            invariant
                k <= 28,
                server_address@ == Seq::new(k as nat, |i: int| 0u8),
            decreases 28 - k,
        {
            server_address.push(0);
            k = k + 1;
            assert(server_address@ =~= Seq::new(k as nat, |i: int| 0u8));
        }
        MumbleContext {
            server_address,
            map_id: 0,
            map_type: 0,
            shard_id: 0,
            instance: 0,
            build_id: 0,
            ui_state: 0,
            compass_width: 0,
            compass_height: 0,
            compass_rotation: 0,
            player_x: 0,
            player_y: 0,
            map_center_x: 0,
            map_center_y: 0,
            map_scale: 0,
            process_id: 0,
            mount_index: 0,
        }
    }
}

/// With exactly bit `i` set in `ui_state`, of the masks of the seven flags
/// only the mask of bit `i` reads as set.
pub proof fn lemma_single_ui_flag(i: u32, j: u32)
    requires
        i < 7,
        j < 7,
    ensures
        ui_state_has(1u32 << i, 1u32 << j) <==> i == j,
{
    assert(((1u32 << i) & (1u32 << j) != 0) <==> i == j) by (bit_vector)
        requires
            i < 7,
            j < 7,
    ;
}

/// What a shared record holds, as mathematical values.
pub struct RecordModel {
    pub ui_version: u32,
    pub ui_tick: u32,
    pub avatar_position: Seq<u32>,
    pub avatar_front: Seq<u32>,
    pub avatar_top: Seq<u32>,
    pub name: Seq<u16>,
    pub camera_position: Seq<u32>,
    pub camera_front: Seq<u32>,
    pub camera_top: Seq<u32>,
    pub identity: Seq<u16>,
    pub context_len: u32,
    pub context: Seq<u8>,
    pub description: Seq<u16>,
}

/// The record that the wire record `b` stands for: its fields, and a
/// description of zero units.
pub open spec fn wire_model(b: Seq<u8>) -> RecordModel {
    RecordModel {
        ui_version: u32_le(b, UI_VERSION_OFFSET as int),
        ui_tick: u32_le(b, UI_TICK_OFFSET as int),
        avatar_position: u32s_le(b, AVATAR_POSITION_OFFSET as int, 3),
        avatar_front: u32s_le(b, AVATAR_FRONT_OFFSET as int, 3),
        avatar_top: u32s_le(b, AVATAR_TOP_OFFSET as int, 3),
        name: u16s_le(b, NAME_OFFSET as int, TEXT_LEN as nat),
        camera_position: u32s_le(b, CAMERA_POSITION_OFFSET as int, 3),
        camera_front: u32s_le(b, CAMERA_FRONT_OFFSET as int, 3),
        camera_top: u32s_le(b, CAMERA_TOP_OFFSET as int, 3),
        identity: u16s_le(b, IDENTITY_OFFSET as int, TEXT_LEN as nat),
        context_len: u32_le(b, CONTEXT_LEN_OFFSET as int),
        context: b.subrange(CONTEXT_OFFSET as int, CONTEXT_OFFSET + CONTEXT_BUFFER_LEN),
        description: Seq::new(DESCRIPTION_LEN as nat, |i: int| 0u16),
    }
}

/// The record stored in the shared-memory bytes `b`.
pub open spec fn local_model(b: Seq<u8>) -> RecordModel {
    RecordModel {
        description: u16s_le(b, DESCRIPTION_OFFSET as int, DESCRIPTION_LEN as nat),
        ..wire_model(b)
    }
}

/// The shared-memory bytes that a wire record `d` becomes: its own bytes, then
/// a zero description.
pub open spec fn region_of_wire(d: Seq<u8>) -> Seq<u8> {
    d + Seq::new(2 * DESCRIPTION_LEN as nat, |i: int| 0u8)
}

/// A copy of the shared record. Floating-point fields are `f32` bit patterns.
#[derive(Clone, Debug)]
pub struct LinkedMem {
    pub ui_version: u32,
    pub ui_tick: u32,
    pub avatar_position: [u32; 3],
    pub avatar_front: [u32; 3],
    pub avatar_top: [u32; 3],
    pub name: Vec<u16>,
    pub camera_position: [u32; 3],
    pub camera_front: [u32; 3],
    pub camera_top: [u32; 3],
    pub identity: Vec<u16>,
    pub context_len: u32,
    pub context: Vec<u8>,
    pub description: Vec<u16>,
}

/// Names what `String::from_utf16_lossy` makes of a sequence of UTF-16 units.
pub uninterp spec fn utf16_lossy(units: Seq<u16>) -> Seq<char>;

/// Relies on `String::from_utf16_lossy`: the text decoded from `units`, with
/// invalid units replaced; it depends on the units alone, and no units give
/// the empty text.
#[verifier::external_body]
fn decode_utf16_lossy(units: &[u16]) -> (r: String)
    ensures
        r@ == utf16_lossy(units@),
        units@.len() == 0 ==> r@.len() == 0,
{
    String::from_utf16_lossy(units)
}

impl LinkedMem {
    pub open spec fn model(&self) -> RecordModel {
        RecordModel {
            ui_version: self.ui_version,
            ui_tick: self.ui_tick,
            avatar_position: self.avatar_position@,
            avatar_front: self.avatar_front@,
            avatar_top: self.avatar_top@,
            name: self.name@,
            camera_position: self.camera_position@,
            camera_front: self.camera_front@,
            camera_top: self.camera_top@,
            identity: self.identity@,
            context_len: self.context_len,
            context: self.context@,
            description: self.description@,
        }
    }

    /// The buffers have the lengths of the layout.
    pub open spec fn wf(&self) -> bool {
        &&& self.name@.len() == TEXT_LEN
        &&& self.identity@.len() == TEXT_LEN
        &&& self.context@.len() == CONTEXT_BUFFER_LEN
        &&& self.description@.len() == DESCRIPTION_LEN
    }

    /// Reads the record from the bytes of the shared region; `None` unless
    /// they are exactly a record long.
    pub fn from_bytes(b: &[u8]) -> (r: Option<LinkedMem>)
        ensures
            r is Some <==> b@.len() == LINKED_MEM_SIZE,
            r matches Some(m) ==> m.model() == local_model(b@) && m.wf(),
    {
        if b.len() != LINKED_MEM_SIZE {
            return None;
        }
        let m = LinkedMem {
            ui_version: read_u32_le(b, UI_VERSION_OFFSET),
            ui_tick: read_u32_le(b, UI_TICK_OFFSET),
            avatar_position: read_u32x3_le(b, AVATAR_POSITION_OFFSET),
            avatar_front: read_u32x3_le(b, AVATAR_FRONT_OFFSET),
            avatar_top: read_u32x3_le(b, AVATAR_TOP_OFFSET),
            name: read_u16s_le(b, NAME_OFFSET, TEXT_LEN),
            camera_position: read_u32x3_le(b, CAMERA_POSITION_OFFSET),
            camera_front: read_u32x3_le(b, CAMERA_FRONT_OFFSET),
            camera_top: read_u32x3_le(b, CAMERA_TOP_OFFSET),
            identity: read_u16s_le(b, IDENTITY_OFFSET, TEXT_LEN),
            context_len: read_u32_le(b, CONTEXT_LEN_OFFSET),
            context: read_bytes(b, CONTEXT_OFFSET, CONTEXT_BUFFER_LEN),
            description: read_u16s_le(b, DESCRIPTION_OFFSET, DESCRIPTION_LEN),
        };
        assert(m.model() =~= local_model(b@));
        Some(m)
    }

    /// The record that a wire record stands for, with a zero description;
    /// `None` unless `datagram` is exactly a wire record long.
    pub fn from_wire(datagram: &[u8]) -> (r: Option<LinkedMem>)
        ensures
            r is Some <==> datagram@.len() == WIRE_RECORD_SIZE,
            r matches Some(m) ==> m.model() == wire_model(datagram@) && m.wf(),
    {
        let mut region: Vec<u8> = Vec::new();
        if update_gw2(&mut region, datagram) {
            proof {
                lemma_wire_record_in_region(datagram@);
            }
            LinkedMem::from_bytes(region.as_slice())
        } else {
            None
        }
    }

    /// The context block laid over the context buffer.
    pub fn get_context(&self) -> (r: MumbleContext)
        requires
            self.wf(),
        ensures
            context_of(self.context@, r),
    {
        MumbleContext::from_bytes(self.context.as_slice())
    }

    /// The identity text, decoded from its UTF-16 units.
    pub fn get_identity(&self) -> (r: String)
        ensures
            r@ == utf16_lossy(self.identity@),
    {
        decode_utf16_lossy(self.identity.as_slice())
    }

    pub fn get_avatar_pos(&self) -> (r: [u32; 3])
        ensures
            r == self.avatar_position,
    {
        self.avatar_position
    }

    pub fn get_ui_tick(&self) -> (r: u32)
        ensures
            r == self.ui_tick,
    {
        self.ui_tick
    }

    pub fn get_camera_pos(&self) -> (r: [u32; 3])
        ensures
            r == self.camera_position,
    {
        self.camera_position
    }

    pub fn get_camera_front(&self) -> (r: [u32; 3])
        ensures
            r == self.camera_front,
    {
        self.camera_front
    }
}

/// How long one poll waits for a datagram, in nanoseconds: a short blocking
/// window of 200 ms when the caller waits for a fresh record, else next to
/// nothing, to drain what is pending.
pub fn poll_timeout_nanos(block: bool) -> (r: u64)
    ensures
        r == (if block {
            200_000_000u64
        } else {
            1u64
        }),
{
    if block {
        200_000_000
    } else {
        1
    }
}

/// Takes in one received datagram. A datagram of exactly the wire size is a
/// record: the region becomes its bytes followed by a zero description, and
/// the result is true. Any other datagram leaves the region as it was, and the
/// result is false.
pub fn update_gw2(region: &mut Vec<u8>, datagram: &[u8]) -> (r: bool)
    ensures
        r == (datagram@.len() == WIRE_RECORD_SIZE),
        r ==> final(region)@ == region_of_wire(datagram@),
        !r ==> final(region)@ == old(region)@,
{
    if datagram.len() != WIRE_RECORD_SIZE {
        return false;
    }
    region.clear();
    let mut k: usize = 0;
    while k < WIRE_RECORD_SIZE
        invariant
            k <= WIRE_RECORD_SIZE,
            datagram@.len() == WIRE_RECORD_SIZE,
            region@ == datagram@.take(k as int),
        decreases WIRE_RECORD_SIZE - k,
    {
        region.push(datagram[k]);
        k = k + 1;
        assert(region@ =~= datagram@.take(k as int));
    }
    let mut k: usize = 0;
    while k < 2 * DESCRIPTION_LEN
        invariant
            k <= 2 * DESCRIPTION_LEN,
            datagram@.len() == WIRE_RECORD_SIZE,
            region@ == datagram@ + Seq::new(k as nat, |i: int| 0u8),
        decreases 2 * DESCRIPTION_LEN - k,
    {
        region.push(0);
        k = k + 1;
        assert(region@ =~= datagram@ + Seq::new(k as nat, |i: int| 0u8));
    }
    true
}

/// A wire record taken into the region reads back as the record it stands
/// for: every field of the wire record, and a zero description.
pub proof fn lemma_wire_record_in_region(d: Seq<u8>)
    requires
        d.len() == WIRE_RECORD_SIZE,
    ensures
        local_model(region_of_wire(d)) == wire_model(d),
        region_of_wire(d).len() == LINKED_MEM_SIZE,
{
    let b = region_of_wire(d);
    assert forall|k: int| 0 <= k < d.len() implies b[k] == d[k] by {}
    assert forall|k: int| d.len() <= k < b.len() implies b[k] == 0 by {}
    assert(u32s_le(b, AVATAR_POSITION_OFFSET as int, 3) =~= u32s_le(d, AVATAR_POSITION_OFFSET as int, 3));
    assert(u32s_le(b, AVATAR_FRONT_OFFSET as int, 3) =~= u32s_le(d, AVATAR_FRONT_OFFSET as int, 3));
    assert(u32s_le(b, AVATAR_TOP_OFFSET as int, 3) =~= u32s_le(d, AVATAR_TOP_OFFSET as int, 3));
    assert(u16s_le(b, NAME_OFFSET as int, TEXT_LEN as nat) =~= u16s_le(d, NAME_OFFSET as int, TEXT_LEN as nat));
    assert(u32s_le(b, CAMERA_POSITION_OFFSET as int, 3) =~= u32s_le(d, CAMERA_POSITION_OFFSET as int, 3));
    assert(u32s_le(b, CAMERA_FRONT_OFFSET as int, 3) =~= u32s_le(d, CAMERA_FRONT_OFFSET as int, 3));
    assert(u32s_le(b, CAMERA_TOP_OFFSET as int, 3) =~= u32s_le(d, CAMERA_TOP_OFFSET as int, 3));
    assert(u16s_le(b, IDENTITY_OFFSET as int, TEXT_LEN as nat) =~= u16s_le(d, IDENTITY_OFFSET as int, TEXT_LEN as nat));
    assert(b.subrange(CONTEXT_OFFSET as int, CONTEXT_OFFSET + CONTEXT_BUFFER_LEN) =~= d.subrange(CONTEXT_OFFSET as int, CONTEXT_OFFSET + CONTEXT_BUFFER_LEN));
    assert(u16s_le(b, DESCRIPTION_OFFSET as int, DESCRIPTION_LEN as nat) =~= Seq::new(DESCRIPTION_LEN as nat, |i: int| 0u16));
    assert(local_model(b) =~= wire_model(d));
}

} // verus!
