//! The packets a client exchanges with a server: the fields of each clientbound packet,
//! the decoded form of any packet, and the encoding of the serverbound ones.
use vstd::prelude::*;

use crate::network::fixed::{be_bytes, be_value, lemma_be_round_trip, lemma_byte_power_values};
use crate::network::nbt::NBTTag;
use crate::network::packets::Packet;
use crate::network::types::{
    law_varint_round_trip, mcstring_bytes, varint_at_start, varint_bytes, Angle, Boolean, Byte, Chat, DoubleBits, FloatBits, Identifier,
    Int, Long, MCString, Position, Short, UByte, VarInt, VarLong, UUID,
};

verus! {

/// What a handshake asks the server for next.
#[derive(Debug, Clone, Copy, PartialEq, Eq, Structural)]
pub enum HandshakeMode {
    Status,
    Login,
}

/// The server's reply to a status request.
#[derive(Debug)]
pub struct Status {
    pub response: MCString,
}

/// A non-living entity appeared.
#[derive(Debug)]
pub struct SpawnEntity {
    pub entity_id: VarInt,
    pub uuid: UUID,
    pub entity_type: VarInt,
    pub x: DoubleBits,
    pub y: DoubleBits,
    pub z: DoubleBits,
    pub pitch: Angle,
    pub yaw: Angle,
    pub data: Int,
    pub vx: Short,
    pub vy: Short,
    pub vz: Short,
}

/// An experience orb appeared.
#[derive(Debug)]
pub struct SpawnExperienceOrb {
    pub entity_id: VarInt,
    pub x: DoubleBits,
    pub y: DoubleBits,
    pub z: DoubleBits,
    pub amount: Short,
}

/// A living entity appeared.
#[derive(Debug)]
pub struct SpawnLivingEntity {
    pub entity_id: VarInt,
    pub uuid: UUID,
    pub entity_type: VarInt,
    pub x: DoubleBits,
    pub y: DoubleBits,
    pub z: DoubleBits,
    pub yaw: Angle,
    pub pitch: Angle,
    pub head_pitch: Angle,
    pub vx: Short,
    pub vy: Short,
    pub vz: Short,
}

/// A painting appeared.
#[derive(Debug)]
pub struct SpawnPainting {
    pub entity_id: VarInt,
    pub uuid: UUID,
    pub painting_id: VarInt,
    pub center_coords: Position,
    pub direction: Byte,
}

/// Another player came into view.
#[derive(Debug)]
pub struct SpawnPlayer {
    pub entity_id: VarInt,
    pub uuid: UUID,
    pub x: DoubleBits,
    pub y: DoubleBits,
    pub z: DoubleBits,
    pub yaw: Angle,
    pub pitch: Angle,
}

/// A sculk vibration; its fields are not read.
#[derive(Debug)]
pub struct SculkVibrationSignal {}

/// An entity played an animation.
#[derive(Debug)]
pub struct EntityAnimation {
    pub player_id: VarInt,
    pub animation_id: UByte,
}

/// The player's statistics.
#[derive(Debug)]
pub struct Statistics {
    pub stats_len: VarInt,
    pub stats: Vec<(VarInt, VarInt, VarInt)>,
}

/// The server's answer to a digging action.
#[derive(Debug)]
pub struct AcknowledgePlayerDigging {
    pub location: Position,
    pub block_state_id: VarInt,
    pub player_digging_state: VarInt,
    pub success: Boolean,
}

/// A block is being broken.
#[derive(Debug)]
pub struct BlockBreakAnimation {
    pub breaker_entity_id: VarInt,
    pub block_pos: Position,
    pub destroy_stage: Byte,
}

/// Data for a block entity.
#[derive(Debug)]
pub struct BlockEntityData {
    pub block_pos: Position,
    pub update_type: UByte,
    pub data: NBTTag,
}

/// A block performed an action.
#[derive(Debug)]
pub struct BlockAction {
    pub block_pos: Position,
    pub action_id: UByte,
    pub action_param: UByte,
    pub block_type_id: VarInt,
}

/// One block changed.
#[derive(Debug)]
pub struct BlockChange {
    pub block_pos: Position,
    pub block_state_id: VarInt,
}

/// A boss bar update; only its first fields are kept.
#[derive(Debug)]
pub struct BossBar {
    pub uuid: UUID,
    pub action: VarInt,
}

/// The server's difficulty changed.
#[derive(Debug)]
pub struct ServerDifficulty {
    pub difficulty: UByte,
    pub locked: Boolean,
}

/// A chat message from the server.
#[derive(Debug)]
pub struct ChatIncoming {
    pub json: MCString,
    pub position: Byte,
    pub sender: UUID,
}

/// Clears the titles on screen.
#[derive(Debug)]
pub struct ClearTitles {
    pub reset: Boolean,
}

/// Completions for a command being typed.
#[derive(Debug)]
pub struct TabComplete {
    pub transaction_id: VarInt,
    pub start: VarInt,
    pub len: VarInt,
    pub matches_len: VarInt,
    pub matches: Vec<(MCString, Boolean, Option<Chat>)>,
}

/// The server's command tree; its fields are not read.
#[derive(Debug)]
pub struct DeclareCommands {}

/// A window was closed.
#[derive(Debug)]
pub struct CloseWindowClientbound {
    pub window_id: UByte,
}

/// A property of a window changed.
#[derive(Debug)]
pub struct WindowProperty {
    pub window_id: UByte,
    pub property: Short,
    pub value: Short,
}

/// An item got a cooldown.
#[derive(Debug)]
pub struct SetCooldown {
    pub item_id: VarInt,
    pub cooldown_ticks: VarInt,
}

/// A message on a plugin channel.
#[derive(Debug)]
pub struct PluginMessage {
    pub channel: Identifier,
    pub data: Vec<Byte>,
}

/// A sound played by name.
#[derive(Debug)]
pub struct NamedSoundEffect {
    pub sound_name: Identifier,
    pub category: VarInt,
    pub x: Int,
    pub y: Int,
    pub z: Int,
    pub vol: FloatBits,
    pub pitch: FloatBits,
}

/// The server closed the connection.
#[derive(Debug)]
pub struct Disconnect {
    pub reason: MCString,
}

/// An entity's status changed.
#[derive(Debug)]
pub struct EntityStatus {
    pub entity_id: Int,
    pub status: Byte,
}

/// An explosion happened.
#[derive(Debug)]
pub struct Explosion {
    pub x: FloatBits,
    pub y: FloatBits,
    pub z: FloatBits,
    pub strength: FloatBits,
    pub blocks_len: VarInt,
    pub block_offsets: Vec<(Byte, Byte, Byte)>,
    pub vx: FloatBits,
    pub vy: FloatBits,
    pub vz: FloatBits,
}

/// A chunk went out of view.
#[derive(Debug)]
pub struct UnloadChunk {
    pub x: Int,
    pub z: Int,
}

/// The game's state changed.
#[derive(Debug)]
pub struct ChangeGameState {
    pub reason: UByte,
    pub value: FloatBits,
}

/// A horse's inventory was opened.
#[derive(Debug)]
pub struct OpenHorseWindow {
    pub window_id: Byte,
    pub num_slots: VarInt,
    pub entity_id: Int,
}

/// The world border was set up.
#[derive(Debug)]
pub struct InitializeWorldBorder {
    pub x: DoubleBits,
    pub z: DoubleBits,
    pub old_diameter: DoubleBits,
    pub new_diameter: DoubleBits,
    pub speed: VarLong,
    pub portal_teleport_boundary: VarInt,
    pub warning_blocks: VarInt,
    pub warning_time: VarInt,
}

/// The server checks that the client is still there.
#[derive(Debug)]
pub struct KeepAliveClientbound {
    pub keep_alive_id: Long,
}

/// A chunk column's blocks and heightmaps.
#[derive(Debug)]
pub struct ChunkData {
    pub x: Int,
    pub z: Int,
    pub bit_mask_len: VarInt,
    pub bit_mask: Vec<Long>,
    pub heightmaps: NBTTag,
    pub biomes_len: VarInt,
    pub biomes: Vec<VarInt>,
    pub data_len: VarInt,
    pub data: Vec<Byte>,
    pub block_entities_len: VarInt,
    pub block_entities: Vec<NBTTag>,
}

/// A sound or particle effect.
#[derive(Debug)]
pub struct Effect {
    pub effect_id: Int,
    pub location: Position,
    pub data: Int,
    pub disable_relative_volume: Boolean,
}

/// A particle effect; the particle's data is not read.
#[derive(Debug)]
pub struct Particle {
    pub particle_id: Int,
    pub long_distance: Boolean,
    pub x: DoubleBits,
    pub y: DoubleBits,
    pub z: DoubleBits,
    pub off_x: FloatBits,
    pub off_y: FloatBits,
    pub off_z: FloatBits,
    pub particle_data: FloatBits,
    pub particle_count: Int,
}

/// The light levels of a chunk.
#[derive(Debug)]
pub struct UpdateLight {
    pub chunk_x: VarInt,
    pub chunk_z: VarInt,
    pub trust_edges: Boolean,
    pub sky_light_mask_len: VarInt,
    pub sky_light_mask: Vec<Long>,
    pub block_light_mask_len: VarInt,
    pub block_light_mask: Vec<Long>,
    pub empty_sky_light_mask_len: VarInt,
    pub empty_sky_light_mask: Vec<Long>,
    pub empty_block_light_mask_len: VarInt,
    pub empty_block_light_mask: Vec<Long>,
    pub sky_lights_len: VarInt,
    pub sky_lights: Vec<(VarInt, [Byte; 2048])>,
    pub block_lights_len: VarInt,
    pub block_lights: Vec<(VarInt, [Byte; 2048])>,
}

/// The player joined the world.
#[derive(Debug)]
pub struct JoinGame {
    pub player_id: Int,
    pub is_hardcore: Boolean,
    pub gamemode: UByte,
    pub prev_gamemode: Byte,
    pub world_names_len: VarInt,
    pub world_names: Vec<Identifier>,
    pub dimension_codec: NBTTag,
    pub dimension: NBTTag,
    pub world_name: Identifier,
    pub hashed_seed: Long,
    pub max_players: VarInt,
    pub view_distance: VarInt,
    pub reduced_debug_info: Boolean,
    pub enable_respawn_screen: Boolean,
    pub is_debug: Boolean,
    pub is_flat: Boolean,
}

/// A map's contents; its fields are not read.
#[derive(Debug)]
pub struct MapData {}

/// A villager's trades; its fields are not read.
#[derive(Debug)]
pub struct TradeList {}

/// An entity moved by a small offset.
#[derive(Debug)]
pub struct EntityPosition {
    pub entity_id: VarInt,
    pub dx: Short,
    pub dy: Short,
    pub dz: Short,
    pub on_ground: Boolean,
}

/// An entity moved and turned.
#[derive(Debug)]
pub struct EntityPositionAndRotation {
    pub entity_id: VarInt,
    pub dx: Short,
    pub dy: Short,
    pub dz: Short,
    pub yaw: Angle,
    pub pitch: Angle,
    pub on_ground: Boolean,
}

/// An entity turned.
#[derive(Debug)]
pub struct EntityRotation {
    pub entity_id: VarInt,
    pub yaw: Angle,
    pub pitch: Angle,
    pub on_ground: Boolean,
}

/// The player's health, food and saturation.
#[derive(Debug)]
pub struct UpdateHealth {
    pub health: FloatBits,
    pub food: VarInt,
    pub saturation: FloatBits,
}

/// An entity turned its head.
#[derive(Debug)]
pub struct EntityHeadLook {
    pub entity_id: VarInt,
    pub head_yaw: Angle,
}

/// An entity's velocity.
#[derive(Debug)]
pub struct EntityVelocity {
    pub entity_id: VarInt,
    pub vx: Short,
    pub vy: Short,
    pub vz: Short,
}

/// An entity moved to a new place.
#[derive(Debug)]
pub struct EntityTeleport {
    pub entity_id: VarInt,
    pub x: DoubleBits,
    pub y: DoubleBits,
    pub z: DoubleBits,
    pub yaw: Angle,
    pub pitch: Angle,
    pub on_ground: Boolean,
}

/// An entity's metadata; only the entity is read.
#[derive(Debug)]
pub struct EntityMetadata {
    pub entity_id: VarInt,
}

/// The server placed the player.
#[derive(Debug)]
pub struct PlayerPositionAndLook {
    pub x: DoubleBits,
    pub y: DoubleBits,
    pub z: DoubleBits,
    pub yaw: FloatBits,
    pub pitch: FloatBits,
    pub flags: Byte,
    pub teleport_id: VarInt,
    pub dismount: Boolean,
}

/// Entities were removed.
#[derive(Debug)]
pub struct DestroyEntities {
    pub entities_len: VarInt,
    pub entities: Vec<VarInt>,
}

/// The world's age and time of day.
#[derive(Debug)]
pub struct TimeUpdate {
    pub world_age: Long,
    pub day_time: Long,
}

/// A sound effect; its fields are not read.
#[derive(Debug)]
pub struct SoundEffect {}
/// All the kinds of packets that go back and forth, decoded into their fields.
#[derive(Debug)]
pub enum DecodedPacket {
    Okay,
    Close,
    Error(std::io::Error),
    // Serverbound
    /// Protocol version, server address, port, and what to do next.
    Handshake(VarInt, MCString, Short, HandshakeMode),
    /// The player's name.
    LoginStart(MCString),
    ClientStatusRespawn,
    /// X, Y, Z, on ground.
    PlayerPosition(DoubleBits, DoubleBits, DoubleBits, Boolean),
    /// X, Y, Z, yaw, pitch, on ground.
    PlayerPositionAndRotation(DoubleBits, DoubleBits, DoubleBits, FloatBits, FloatBits, Boolean),
    KeepAliveServerbound(Long),
    ChatOutgoing(MCString),
    /// Locale, view distance, chat mode, chat colours, visible skin parts, main hand,
    /// text filtering disabled.
    ClientSettings(MCString, Byte, VarInt, Boolean, UByte, VarInt, Boolean),
    /// The teleport ID given by `PlayerPositionAndLook`.
    TeleportConfirm(VarInt),
    // Clientbound, login
    Status(Status),
    // Clientbound, play
    SpawnEntity(SpawnEntity),
    SpawnExperienceOrb(SpawnExperienceOrb),
    SpawnLivingEntity(SpawnLivingEntity),
    SpawnPainting(SpawnPainting),
    SpawnPlayer(SpawnPlayer),
    SculkVibrationSignal(SculkVibrationSignal),
    EntityAnimation(EntityAnimation),
    Statistics(Statistics),
    AcknowledgePlayerDigging(AcknowledgePlayerDigging),
    BlockBreakAnimation(BlockBreakAnimation),
    BlockEntityData(BlockEntityData),
    BlockAction(BlockAction),
    BlockChange(BlockChange),
    BossBar(BossBar),
    ServerDifficulty(ServerDifficulty),
    ChatIncoming(ChatIncoming),
    ClearTitles(ClearTitles),
    TabComplete(TabComplete),
    DeclareCommands(DeclareCommands),
    CloseWindowClientbound(CloseWindowClientbound),
    WindowProperty(WindowProperty),
    SetCooldown(SetCooldown),
    PluginMessage(PluginMessage),
    NamedSoundEffect(NamedSoundEffect),
    Disconnect(Disconnect),
    EntityStatus(EntityStatus),
    Explosion(Explosion),
    UnloadChunk(UnloadChunk),
    ChangeGameState(ChangeGameState),
    OpenHorseWindow(OpenHorseWindow),
    InitializeWorldBorder(InitializeWorldBorder),
    KeepAliveClientbound(KeepAliveClientbound),
    ChunkData(ChunkData),
    Effect(Effect),
    Particle(Particle),
    UpdateLight(UpdateLight),
    JoinGame(JoinGame),
    MapData(MapData),
    TradeList(TradeList),
    EntityPosition(EntityPosition),
    EntityPositionAndRotation(EntityPositionAndRotation),
    EntityRotation(EntityRotation),
    UpdateHealth(UpdateHealth),
    EntityHeadLook(EntityHeadLook),
    EntityVelocity(EntityVelocity),
    EntityTeleport(EntityTeleport),
    EntityMetadata(EntityMetadata),
    PlayerPositionAndLook(PlayerPositionAndLook),
    DestroyEntities(DestroyEntities),
    TimeUpdate(TimeUpdate),
    SoundEffect(SoundEffect),
    // Login
    EncryptionRequest(),
    LoginSuccess(),
    /// The compression threshold.
    SetCompression(VarInt),
    LoginPluginRequest(),
    /// A packet this library does not decode, with all its bytes.
    Unknown(Vec<u8>),
    Empty,
}

/// The byte that asks for a handshake's next state.
pub open spec fn mode_byte(mode: HandshakeMode) -> u8 {
    match mode {
        HandshakeMode::Status => 0x01,
        HandshakeMode::Login => 0x02,
    }
}

/// The one byte of a boolean.
pub open spec fn bool_byte(b: bool) -> Seq<u8> {
    if b {
        seq![0x01u8]
    } else {
        seq![0x00u8]
    }
}

/// The bytes of a serverbound packet, ID first; `None` for the packets that are not sent.
pub open spec fn encoding(p: DecodedPacket) -> Option<Seq<u8>> {
    match p {
        DecodedPacket::Handshake(protocol, origin, port, mode) => Some(
            seq![0x00u8] + varint_bytes(protocol.0) + mcstring_bytes(origin.0@) + be_bytes(
                port.0 as u16 as nat,
                2,
            ) + seq![mode_byte(mode)],
        ),
        DecodedPacket::LoginStart(name) => Some(seq![0x00u8] + mcstring_bytes(name.0@)),
        DecodedPacket::PlayerPositionAndRotation(x, y, z, yaw, pitch, on_ground) => Some(
            seq![0x12u8] + be_bytes(x.0 as nat, 8) + be_bytes(y.0 as nat, 8) + be_bytes(
                z.0 as nat,
                8,
            ) + be_bytes(yaw.0 as nat, 4) + be_bytes(pitch.0 as nat, 4) + bool_byte(on_ground.0),
        ),
        DecodedPacket::PlayerPosition(x, y, z, on_ground) => Some(
            seq![0x11u8] + be_bytes(x.0 as nat, 8) + be_bytes(y.0 as nat, 8) + be_bytes(
                z.0 as nat,
                8,
            ) + bool_byte(on_ground.0),
        ),
        DecodedPacket::ClientStatusRespawn => Some(seq![0x04u8, 0x00u8]),
        DecodedPacket::KeepAliveServerbound(id) => Some(
            seq![0x0fu8] + be_bytes(id.0 as u64 as nat, 8),
        ),
        DecodedPacket::ChatOutgoing(message) => Some(seq![0x03u8] + mcstring_bytes(message.0@)),
        DecodedPacket::ClientSettings(locale, view, chat, cols, skin, hand, filtering) => Some(
            seq![0x05u8] + mcstring_bytes(locale.0@) + seq![view.0 as u8] + varint_bytes(chat.0)
                + bool_byte(cols.0) + seq![skin.0] + varint_bytes(hand.0) + bool_byte(
                filtering.0,
            ),
        ),
        DecodedPacket::TeleportConfirm(id) => Some(seq![0x00u8] + varint_bytes(id.0)),
        _ => None,
    }
}

impl DecodedPacket {
    /// Encodes a serverbound packet to be sent to the server: its ID, then its fields.
    /// The packets that are not sent by a client give `None`. A login name must fit in a
    /// packet of at most eighteen bytes.
    pub fn encode(&self) -> (out: Option<Packet>)
        requires
            self matches DecodedPacket::LoginStart(name) ==> 1 + mcstring_bytes(name.0@).len()
                <= 18,
        ensures
            match out {
                Some(p) => encoding(*self) == Some(p@),
                None => encoding(*self) is None,
            },
    {
        let mut out: Packet;
        match self {
            DecodedPacket::Handshake(protocol, origin, port, mode) => {
                out = Packet::new_with_id(0x00);
                out.add(&protocol.to_bytes());
                out.add(&origin.to_bytes());
                out.add(&port.to_bytes());
                out.add_byte(
                    match mode {
                        HandshakeMode::Status => 0x01,
                        HandshakeMode::Login => 0x02,
                    },
                );
            },
            DecodedPacket::LoginStart(name) => {
                out = Packet::new_with_id(0x00);
                out.add(&name.to_bytes());
            },
            DecodedPacket::PlayerPositionAndRotation(x, y, z, yaw, pitch, on_ground) => {
                out = Packet::new_with_id(0x12);
                out.add(&x.to_bytes());
                out.add(&y.to_bytes());
                out.add(&z.to_bytes());
                out.add(&yaw.to_bytes());
                out.add(&pitch.to_bytes());
                out.add(&on_ground.to_bytes());
            },
            DecodedPacket::PlayerPosition(x, y, z, on_ground) => {
                out = Packet::new_with_id(0x11);
                out.add(&x.to_bytes());
                out.add(&y.to_bytes());
                out.add(&z.to_bytes());
                out.add(&on_ground.to_bytes());
            },
            DecodedPacket::ClientStatusRespawn => {
                out = Packet::new_with_id(0x04);
                out.add_byte(0x00);
            },
            DecodedPacket::KeepAliveServerbound(keep_alive_id) => {
                out = Packet::new_with_id(0x0f);
                out.add(&keep_alive_id.to_bytes());
            },
            DecodedPacket::ChatOutgoing(message) => {
                out = Packet::new_with_id(0x03);
                out.add(&message.to_bytes());
            },
            DecodedPacket::ClientSettings(locale, view, chat, cols, skin, hand, filtering) => {
                out = Packet::new_with_id(0x05);
                out.add(&locale.to_bytes());
                out.add(&view.to_bytes());
                out.add(&chat.to_bytes());
                out.add(&cols.to_bytes());
                out.add(&skin.to_bytes());
                out.add(&hand.to_bytes());
                out.add(&filtering.to_bytes());
            },
            DecodedPacket::TeleportConfirm(id) => {
                out = Packet::new_with_id(0x00);
                out.add(&id.to_bytes());
            },
            _ => {
                return None;
            },
        }
        proof {
            assert(encoding(*self) == Some(out@));
        }
        Some(out)
    }
}

/// A position-and-rotation packet is 34 bytes: its ID `0x12`, then x, y and z, each read
/// back as the same eight-byte big-endian value from bytes 1..9, 9..17 and 17..25, then
/// the yaw and the pitch from bytes 25..29 and 29..33, and last the on-ground flag.
pub proof fn law_position_and_rotation_layout(
    x: DoubleBits,
    y: DoubleBits,
    z: DoubleBits,
    yaw: FloatBits,
    pitch: FloatBits,
    on_ground: Boolean,
)
    ensures
        encoding(DecodedPacket::PlayerPositionAndRotation(x, y, z, yaw, pitch, on_ground)) matches Some(b)
            && b.len() == 34 && b[0] == 0x12 && be_value(b.subrange(1, 9)) == x.0 && be_value(
            b.subrange(9, 17),
        ) == y.0 && be_value(b.subrange(17, 25)) == z.0 && be_value(b.subrange(25, 29)) == yaw.0
            && be_value(b.subrange(29, 33)) == pitch.0 && b[33] == (if on_ground.0 {
            1u8
        } else {
            0u8
        }),
{
    lemma_byte_power_values();
    lemma_be_round_trip(x.0 as nat, 8);
    lemma_be_round_trip(y.0 as nat, 8);
    lemma_be_round_trip(z.0 as nat, 8);
    lemma_be_round_trip(yaw.0 as nat, 4);
    lemma_be_round_trip(pitch.0 as nat, 4);
    let b = encoding(DecodedPacket::PlayerPositionAndRotation(x, y, z, yaw, pitch, on_ground)).unwrap();
    assert(b.subrange(1, 9) =~= be_bytes(x.0 as nat, 8));
    assert(b.subrange(9, 17) =~= be_bytes(y.0 as nat, 8));
    assert(b.subrange(17, 25) =~= be_bytes(z.0 as nat, 8));
    assert(b.subrange(25, 29) =~= be_bytes(yaw.0 as nat, 4));
    assert(b.subrange(29, 33) =~= be_bytes(pitch.0 as nat, 4));
}

/// A position packet is 26 bytes: its ID `0x11`, then x, y and z, each read back as the
/// same eight-byte big-endian value from bytes 1..9, 9..17 and 17..25, and last the
/// on-ground flag.
pub proof fn law_position_layout(x: DoubleBits, y: DoubleBits, z: DoubleBits, on_ground: Boolean)
    ensures
        encoding(DecodedPacket::PlayerPosition(x, y, z, on_ground)) matches Some(b) && b.len() == 26
            && b[0] == 0x11 && be_value(b.subrange(1, 9)) == x.0 && be_value(b.subrange(9, 17))
            == y.0 && be_value(b.subrange(17, 25)) == z.0 && b[25] == (if on_ground.0 {
            1u8
        } else {
            0u8
        }),
{
    lemma_byte_power_values();
    lemma_be_round_trip(x.0 as nat, 8);
    lemma_be_round_trip(y.0 as nat, 8);
    lemma_be_round_trip(z.0 as nat, 8);
    let b = encoding(DecodedPacket::PlayerPosition(x, y, z, on_ground)).unwrap();
    assert(b.subrange(1, 9) =~= be_bytes(x.0 as nat, 8));
    assert(b.subrange(9, 17) =~= be_bytes(y.0 as nat, 8));
    assert(b.subrange(17, 25) =~= be_bytes(z.0 as nat, 8));
}

/// The packet IDs a client sends: `0x00` for the handshake, the login start and the
/// teleport confirmation (each in its own protocol state), `0x03` for a chat message,
/// `0x04` for the respawn request, `0x05` for the settings, `0x0f` for a keep-alive,
/// `0x11` for a position and `0x12` for a position and rotation. Only these packets are
/// encoded.
pub proof fn law_serverbound_ids(p: DecodedPacket)
    ensures
        encoding(p) is Some <==> (p is Handshake || p is LoginStart || p is TeleportConfirm
            || p is ChatOutgoing || p is ClientStatusRespawn || p is ClientSettings
            || p is KeepAliveServerbound || p is PlayerPosition || p is PlayerPositionAndRotation),
        encoding(p) matches Some(b) ==> b.len() > 0 && b[0] == (match p {
            DecodedPacket::ChatOutgoing(_) => 0x03u8,
            DecodedPacket::ClientStatusRespawn => 0x04u8,
            DecodedPacket::ClientSettings(..) => 0x05u8,
            DecodedPacket::KeepAliveServerbound(_) => 0x0fu8,
            DecodedPacket::PlayerPosition(..) => 0x11u8,
            DecodedPacket::PlayerPositionAndRotation(..) => 0x12u8,
            _ => 0x00u8,
        }),
{
}

/// A keep-alive sends back its id as eight big-endian bytes after its ID, and a teleport
/// confirmation its teleport id as a `VarInt`; both read back as the same number.
pub proof fn law_replies_carry_their_ids(keep_alive: Long, teleport: VarInt)
    ensures
        encoding(DecodedPacket::KeepAliveServerbound(keep_alive)) matches Some(b) && b.len() == 9
            && ((be_value(b.subrange(1, 9)) as u64) as i64) == keep_alive.0,
        encoding(DecodedPacket::TeleportConfirm(teleport)) matches Some(b) && varint_at_start(
            b.skip(1),
        ) == Some(teleport.0),
{
    lemma_byte_power_values();
    lemma_be_round_trip(keep_alive.0 as u64 as nat, 8);
    let b = encoding(DecodedPacket::KeepAliveServerbound(keep_alive)).unwrap();
    assert(b.subrange(1, 9) =~= be_bytes(keep_alive.0 as u64 as nat, 8));
    let k = keep_alive.0;
    assert(((k as u64) as i64) == k) by (bit_vector);
    assert(be_value(b.subrange(1, 9)) == (k as u64) as nat);
    law_varint_round_trip(teleport.0);
    let c = encoding(DecodedPacket::TeleportConfirm(teleport)).unwrap();
    assert(c.skip(1) =~= varint_bytes(teleport.0));
}

} // verus!
