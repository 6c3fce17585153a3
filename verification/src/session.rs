//! The client's side of a game session: what it knows of the server and the world, and
//! how each packet from the server changes that and what it answers. Entities, whose
//! positions and angles are floating point, are kept by the application.
use vstd::prelude::*;

use crate::chat::{chat_json_text, chat_text, message_text, Chat, ChatMessageType};
use crate::network::messages::DecodedPacket;
use crate::network::types::{Boolean, Byte, FloatBits, MCString, UByte, VarInt};
use crate::players::{apply_entries, parse_player_info, read_player_info, PlayerList, PlayerView};
use crate::state::{difficulty_of, input_step, Difficulty, InputEffect, InputEvents, InputState};
use crate::world::chunks::{chunk_decodable, chunk_from_packet, Chunk};
use crate::world::{block_changed, coords_of, World};

verus! {

/// The settings the player reports to the server on joining.
pub struct PlayerSettings {
    pub locale: String,
    pub view_distance: i8,
    /// 0 enabled, 1 commands only, 2 hidden.
    pub chat_mode: i32,
    /// A bit for each visible part of the skin.
    pub displayed_skin_parts: u8,
    /// 0 left, 1 right.
    pub main_hand: i32,
    pub disable_text_filtering: bool,
}

impl PlayerSettings {
    /// The settings of a new player: British English, a view distance of 8, chat on,
    /// the whole skin shown, left-handed, and text filtering off.
    pub fn new() -> (s: PlayerSettings)
        ensures
            s.view_distance == 8,
            s.chat_mode == 0,
            s.displayed_skin_parts == 0xFF,
            s.main_hand == 0,
            s.disable_text_filtering,
    {
        PlayerSettings {
            locale: String::from_str("en_GB"),
            view_distance: 8,
            chat_mode: 0,
            displayed_skin_parts: 0xFF,
            main_hand: 0,
            disable_text_filtering: true,
        }
    }
}

/// What the client knows of the server it plays on.
pub struct Session {
    pub world_time: i64,
    pub day_time: i64,
    pub player_id: i32,
    /// The bits of the player's health, a single-precision float.
    pub health: FloatBits,
    pub food: i32,
    /// The bits of the player's food saturation, a single-precision float.
    pub saturation: FloatBits,
    pub difficulty: Difficulty,
    pub difficulty_locked: bool,
    pub settings: PlayerSettings,
    pub world: World,
    pub chat: Chat,
    pub connected: bool,
    /// What the player's keys and mouse do.
    pub input: InputState,
    /// The players on the server.
    pub players: PlayerList,
}

/// The settings packet the client answers a `JoinGame` with.
pub open spec fn is_settings_reply(p: DecodedPacket, s: PlayerSettings) -> bool {
    p matches DecodedPacket::ClientSettings(locale, view, chat, colours, skin, hand, filtering)
        && locale.0@ == s.locale@ && view.0 == s.view_distance && chat.0 == s.chat_mode
        && !colours.0 && skin.0 == s.displayed_skin_parts && hand.0 == s.main_hand && filtering.0
        == s.disable_text_filtering
}

impl Session {
    /// A session just connected: no time has passed, the player has full health (20),
    /// full food (20) and a saturation of 5, the difficulty is easy and unlocked, and no
    /// chunk is loaded.
    pub fn new(settings: PlayerSettings) -> (s: Session)
        ensures
            s.world_time == 0,
            s.day_time == 0,
            s.player_id == 0,
            s.health.0 == 0x41A0_0000,
            s.food == 20,
            s.saturation.0 == 0x40A0_0000,
            s.difficulty == Difficulty::Easy,
            !s.difficulty_locked,
            s.settings == settings,
            s.world@ == Map::<(i32, i32), Chunk>::empty(),
            s.chat.messages().len() == 0,
            s.chat.typed().len() == 0,
            s.connected,
            s.input == InputState::Playing,
            s.players@ == Map::<(int, int), PlayerView>::empty(),
    {
        Session {
            world_time: 0,
            day_time: 0,
            player_id: 0,
            health: FloatBits(0x41A0_0000),
            food: 20,
            saturation: FloatBits(0x40A0_0000),
            difficulty: Difficulty::Easy,
            difficulty_locked: false,
            settings,
            world: World::new(),
            chat: Chat::new(),
            connected: true,
            input: InputState::Playing,
            players: PlayerList::new(),
        }
    }

    /// Handles a packet from the server and returns the packets to answer it with. The
    /// difficulty, the time, the player's health and id, the connection, the chat and the
    /// world's chunks follow the packets that carry them (a chat message whose JSON does
    /// not parse, and a chunk that cannot be decoded, are left out); a `PlayerInfo`
    /// packet (ID `0x36`, which the decoder leaves undecoded) updates the player list when
    /// it can be read; a `JoinGame` is answered with the player's settings and a respawn,
    /// and a `PlayerPositionAndLook` with the confirmation
    /// of its teleport. A block change takes its id among `known_blocks` block states.
    pub fn handle_packet(&mut self, packet: &DecodedPacket, known_blocks: usize) -> (replies: Vec<
        DecodedPacket,
    >)
        ensures
            final(self).difficulty == (match packet {
                DecodedPacket::ServerDifficulty(p) => difficulty_of(p.difficulty.0),
                _ => old(self).difficulty,
            }),
            final(self).difficulty_locked == (match packet {
                DecodedPacket::ServerDifficulty(p) => p.locked.0,
                _ => old(self).difficulty_locked,
            }),
            final(self).world_time == (match packet {
                DecodedPacket::TimeUpdate(p) => p.world_age.0,
                _ => old(self).world_time,
            }),
            final(self).day_time == (match packet {
                DecodedPacket::TimeUpdate(p) => p.day_time.0,
                _ => old(self).day_time,
            }),
            final(self).health == (match packet {
                DecodedPacket::UpdateHealth(p) => p.health,
                _ => old(self).health,
            }),
            final(self).food == (match packet {
                DecodedPacket::UpdateHealth(p) => p.food.0,
                _ => old(self).food,
            }),
            final(self).saturation == (match packet {
                DecodedPacket::UpdateHealth(p) => p.saturation,
                _ => old(self).saturation,
            }),
            final(self).player_id == (match packet {
                DecodedPacket::JoinGame(p) => p.player_id.0,
                _ => old(self).player_id,
            }),
            final(self).connected == (old(self).connected && !(packet is Disconnect)),
            final(self).settings == old(self).settings,
            final(self).input == old(self).input,
            final(self).chat.typed() == old(self).chat.typed(),
            final(self).players@ == (match packet {
                DecodedPacket::Unknown(b) => if b@.len() > 0 && b@[0] == 0x36 {
                    match read_player_info(b@) {
                        Some((action, entries)) => apply_entries(old(self).players@, action, entries),
                        None => old(self).players@,
                    }
                } else {
                    old(self).players@
                },
                _ => old(self).players@,
            }),
            match packet {
                DecodedPacket::ChatIncoming(c) => if chat_text(c.json.0@) is Some {
                    &&& final(self).chat.messages().len() == old(self).chat.messages().len() + 1
                    &&& final(self).chat.messages().drop_last() == old(self).chat.messages()
                    &&& final(self).chat.messages().last().sender == c.sender
                    &&& final(self).chat.messages().last().message_type == ChatMessageType::Temp
                    &&& final(self).chat.messages().last().text@ == message_text(c.json.0@)
                } else {
                    final(self).chat.messages() == old(self).chat.messages()
                },
                _ => final(self).chat.messages() == old(self).chat.messages(),
            },
            packet matches DecodedPacket::BlockChange(p) ==> block_changed(
                old(self).world@,
                final(self).world@,
                p.block_pos.0 as int,
                p.block_pos.1 as int,
                p.block_pos.2 as int,
                p.block_state_id.0 as int,
                known_blocks as int,
            ),
            packet matches DecodedPacket::UnloadChunk(p) ==> final(self).world@
                == old(self).world@.remove((p.x.0, p.z.0)),
            packet matches DecodedPacket::ChunkData(cd) ==> if chunk_decodable(*cd) {
                exists|ch: Chunk|
                    chunk_from_packet(ch, *cd) && final(self).world@ == old(self).world@.insert(
                        (cd.x.0, cd.z.0),
                        ch,
                    )
            } else {
                final(self).world@ == old(self).world@
            },
            !(packet is BlockChange || packet is UnloadChunk || packet is ChunkData)
                ==> final(self).world@ == old(self).world@,
            replies@.len() == (match packet {
                DecodedPacket::JoinGame(_) => 2int,
                DecodedPacket::PlayerPositionAndLook(_) => 1int,
                _ => 0int,
            }),
            packet is JoinGame ==> is_settings_reply(replies@[0], old(self).settings)
                && replies@[1] is ClientStatusRespawn,
            packet matches DecodedPacket::PlayerPositionAndLook(p) ==> replies@[0] matches DecodedPacket::TeleportConfirm(id)
                && id.0 == p.teleport_id.0,
    {
        let mut replies: Vec<DecodedPacket> = Vec::new();
        match packet {
            DecodedPacket::ServerDifficulty(p) => {
                self.difficulty = Difficulty::from_byte(p.difficulty.0);
                self.difficulty_locked = p.locked.0;
            },
            DecodedPacket::TimeUpdate(p) => {
                self.world_time = p.world_age.0;
                self.day_time = p.day_time.0;
            },
            DecodedPacket::UpdateHealth(p) => {
                self.health = p.health;
                self.food = p.food.0;
                self.saturation = p.saturation;
            },
            DecodedPacket::Disconnect(_) => {
                self.connected = false;
            },
            DecodedPacket::JoinGame(p) => {
                self.player_id = p.player_id.0;
                replies.push(
                    DecodedPacket::ClientSettings(
                        MCString(self.settings.locale.clone()),
                        Byte(self.settings.view_distance),
                        VarInt(self.settings.chat_mode),
                        Boolean(false),
                        UByte(self.settings.displayed_skin_parts),
                        VarInt(self.settings.main_hand),
                        Boolean(self.settings.disable_text_filtering),
                    ),
                );
                replies.push(DecodedPacket::ClientStatusRespawn);
            },
            DecodedPacket::PlayerPositionAndLook(p) => {
                replies.push(DecodedPacket::TeleportConfirm(VarInt(p.teleport_id.0)));
            },
            DecodedPacket::BlockChange(p) => {
                self.world.handle_block_change(
                    p.block_pos.0,
                    p.block_pos.1,
                    p.block_pos.2,
                    p.block_state_id.0,
                    known_blocks,
                );
            },
            DecodedPacket::ChatIncoming(c) => {
                if chat_json_text(c.json.0.as_str()).is_some() {
                    self.chat.add_message(packet);
                }
            },
            DecodedPacket::UnloadChunk(p) => {
                self.world.remove_chunk((p.x.0, p.z.0));
            },
            DecodedPacket::ChunkData(cd) => {
                match Chunk::try_new(cd) {
                    Some(ch) => {
                        self.world.insert_chunk(ch);
                    },
                    None => {},
                }
            },
            DecodedPacket::Unknown(bytes) => {
                if bytes.len() > 0 && bytes[0] == 0x36 {
                    match parse_player_info(bytes) {
                        Some(info) => self.players.apply(&info),
                        None => {},
                    }
                }
            },
            _ => {},
        }
        replies
    }

    /// Handles one frame of the player's input: the input state moves on as
    /// `InputState::step` says. Starting a command puts a slash in the chat's message;
    /// submitting the chat takes the message, leaves it empty, and returns the chat packet
    /// that sends it when it is not empty.
    pub fn handle_input(&mut self, ev: &InputEvents) -> (out: Option<DecodedPacket>)
        ensures
            final(self).input == input_step(old(self).input, *ev).0,
            final(self).chat.messages() == old(self).chat.messages(),
            final(self).world@ == old(self).world@,
            final(self).connected == old(self).connected,
            final(self).players@ == old(self).players@,
            match input_step(old(self).input, *ev).1 {
                InputEffect::Nothing => final(self).chat.typed() == old(self).chat.typed()
                    && out is None,
                InputEffect::StartCommand => final(self).chat.typed() == seq!['/']
                    && out is None,
                InputEffect::SubmitChat => {
                    &&& final(self).chat.typed() == Seq::<char>::empty()
                    &&& out is Some <==> old(self).chat.typed().len() > 0
                    &&& out matches Some(p) ==> p matches DecodedPacket::ChatOutgoing(m) && m.0@
                        == old(self).chat.typed()
                },
            },
    {
        let (next, effect) = self.input.step(ev);
        self.input = next;
        match effect {
            InputEffect::Nothing => None,
            InputEffect::StartCommand => {
                let slash = String::from_str("/");
                proof {
                    reveal_strlit("/");
                }
                self.chat.set_message(slash);
                None
            },
            InputEffect::SubmitChat => {
                let text = self.chat.get_message_and_clear();
                if text.as_str().is_empty() {
                    None
                } else {
                    Some(DecodedPacket::ChatOutgoing(MCString(text)))
                }
            },
        }
    }
}

} // verus!
