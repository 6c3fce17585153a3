use mince_raft::chat::{Chat, ChatMessageType, SavedServer};
use mince_raft::network::messages::{
    ChatIncoming, ChunkData, DecodedPacket, Disconnect, JoinGame, PlayerPositionAndLook, ServerDifficulty, TimeUpdate,
    UnloadChunk, UpdateHealth,
};
use mince_raft::network::nbt::NBTTag;
use mince_raft::network::types::{
    Boolean, Byte, DoubleBits, FloatBits, Int, Long, MCString, UByte, VarInt, UUID,
};
use mince_raft::players::parse_player_info;
use mince_raft::session::{PlayerSettings, Session};
use mince_raft::state::{
    Difficulty, InputEffect, InputEvents, InputState, PauseAction, ServerState,
};
use mince_raft::world::chunks::Chunk;

fn quiet() -> InputEvents {
    InputEvents {
        escape_pressed: false,
        t_pressed: false,
        slash_pressed: false,
        tab_pressed: false,
        tab_released: false,
        left_click: false,
        return_pressed: false,
    }
}

#[test]
fn input_state_transitions() {
    let esc = InputEvents { escape_pressed: true, ..quiet() };
    assert_eq!(InputState::Playing.step(&esc), (InputState::Paused, InputEffect::Nothing));
    assert_eq!(InputState::Paused.step(&esc), (InputState::Playing, InputEffect::Nothing));
    assert_eq!(InputState::ChatOpen.step(&esc), (InputState::Playing, InputEffect::Nothing));
    assert_eq!(InputState::ShowingInfo.step(&esc), (InputState::Paused, InputEffect::Nothing));
    assert_eq!(InputState::InteractingInfo.step(&esc), (InputState::Paused, InputEffect::Nothing));
    let t = InputEvents { t_pressed: true, ..quiet() };
    assert_eq!(InputState::Playing.step(&t), (InputState::ChatOpen, InputEffect::Nothing));
    let slash = InputEvents { slash_pressed: true, ..quiet() };
    assert_eq!(InputState::Playing.step(&slash), (InputState::ChatOpen, InputEffect::StartCommand));
    let tab = InputEvents { tab_pressed: true, ..quiet() };
    assert_eq!(InputState::Playing.step(&tab), (InputState::ShowingInfo, InputEffect::Nothing));
    let click = InputEvents { left_click: true, ..quiet() };
    assert_eq!(InputState::ShowingInfo.step(&click), (InputState::InteractingInfo, InputEffect::Nothing));
    let release = InputEvents { tab_released: true, ..quiet() };
    assert_eq!(InputState::ShowingInfo.step(&release), (InputState::Playing, InputEffect::Nothing));
    assert_eq!(InputState::InteractingInfo.step(&release), (InputState::Playing, InputEffect::Nothing));
    let enter = InputEvents { return_pressed: true, ..quiet() };
    assert_eq!(InputState::ChatOpen.step(&enter), (InputState::Playing, InputEffect::SubmitChat));
    assert_eq!(InputState::Paused.step(&enter), (InputState::Paused, InputEffect::Nothing));
    // Escape wins over everything else in the same frame.
    let all = InputEvents { escape_pressed: true, t_pressed: true, return_pressed: true, ..quiet() };
    assert_eq!(InputState::Playing.step(&all), (InputState::Paused, InputEffect::Nothing));
    for s in [
        InputState::Playing,
        InputState::Paused,
        InputState::ShowingInfo,
        InputState::InteractingInfo,
        InputState::ChatOpen,
    ] {
        assert_eq!(s.step(&quiet()), (s, InputEffect::Nothing));
    }
}

#[test]
fn input_state_queries() {
    assert!(InputState::Playing.should_grab_mouse());
    assert!(InputState::ShowingInfo.should_grab_mouse());
    assert!(!InputState::Paused.should_grab_mouse());
    assert!(!InputState::InteractingInfo.should_grab_mouse());
    assert!(!InputState::ChatOpen.should_grab_mouse());
    assert!(InputState::InteractingInfo.moves_with_keyboard());
    assert!(!InputState::InteractingInfo.looks_with_mouse());
    assert!(!InputState::ChatOpen.moves_with_keyboard());
    assert!(InputState::Paused.is_paused());
    assert!(!InputState::Playing.is_paused());
}

#[test]
fn pause_menu_actions() {
    assert_eq!(InputState::Paused.after_pause_action(PauseAction::Unpause), (InputState::Playing, false));
    assert_eq!(InputState::Paused.after_pause_action(PauseAction::Disconnect), (InputState::Paused, true));
    assert_eq!(InputState::Paused.after_pause_action(PauseAction::Nothing), (InputState::Paused, false));
    assert_eq!(InputState::Playing.after_pause_action(PauseAction::Disconnect), (InputState::Playing, false));
}

#[test]
fn difficulty_bytes() {
    assert_eq!(Difficulty::from_byte(0), Difficulty::Peaceful);
    assert_eq!(Difficulty::from_byte(1), Difficulty::Easy);
    assert_eq!(Difficulty::from_byte(2), Difficulty::Medium);
    assert_eq!(Difficulty::from_byte(3), Difficulty::Hard);
    assert_eq!(Difficulty::from_byte(9), Difficulty::Peaceful);
    assert_ne!(ServerState::Play, ServerState::Login);
}

fn join_game(id: i32) -> DecodedPacket {
    DecodedPacket::JoinGame(JoinGame {
        player_id: Int(id),
        is_hardcore: Boolean(false),
        gamemode: UByte(0),
        prev_gamemode: Byte(-1),
        world_names_len: VarInt(0),
        world_names: vec![],
        dimension_codec: NBTTag(quartz_nbt::NbtCompound::new()),
        dimension: NBTTag(quartz_nbt::NbtCompound::new()),
        world_name: MCString(String::from("minecraft:overworld")),
        hashed_seed: Long(0),
        max_players: VarInt(20),
        view_distance: VarInt(10),
        reduced_debug_info: Boolean(false),
        enable_respawn_screen: Boolean(true),
        is_debug: Boolean(false),
        is_flat: Boolean(false),
    })
}

#[test]
fn session_follows_server_packets() {
    let mut s = Session::new(PlayerSettings::new());
    assert_eq!(s.difficulty, Difficulty::Easy);
    assert_eq!(s.health.0, 20.0f32.to_bits());
    assert_eq!(s.saturation.0, 5.0f32.to_bits());
    assert_eq!(s.food, 20);
    assert!(s.connected);

    let r = s.handle_packet(
        &DecodedPacket::ServerDifficulty(ServerDifficulty { difficulty: UByte(3), locked: Boolean(true) }),
        10,
    );
    assert!(r.is_empty());
    assert_eq!(s.difficulty, Difficulty::Hard);
    assert!(s.difficulty_locked);

    s.handle_packet(&DecodedPacket::TimeUpdate(TimeUpdate { world_age: Long(1000), day_time: Long(6000) }), 10);
    assert_eq!((s.world_time, s.day_time), (1000, 6000));

    s.handle_packet(
        &DecodedPacket::UpdateHealth(UpdateHealth {
            health: FloatBits(10.5f32.to_bits()),
            food: VarInt(3),
            saturation: FloatBits(0),
        }),
        10,
    );
    assert_eq!(s.health.0, 10.5f32.to_bits());
    assert_eq!(s.food, 3);

    let replies = s.handle_packet(&join_game(77), 10);
    assert_eq!(s.player_id, 77);
    assert_eq!(replies.len(), 2);
    match &replies[0] {
        DecodedPacket::ClientSettings(locale, view, chat, colours, skin, hand, filtering) => {
            assert_eq!(locale.0, "en_GB");
            assert_eq!(view.0, 8);
            assert_eq!(chat.0, 0);
            assert!(!colours.0);
            assert_eq!(skin.0, 0xff);
            assert_eq!(hand.0, 0);
            assert!(filtering.0);
        },
        other => panic!("unexpected {:?}", other),
    }
    assert!(matches!(replies[1], DecodedPacket::ClientStatusRespawn));
    assert_eq!(replies[1].encode().unwrap().get_bytes(), vec![0x04, 0x00]);

    let replies = s.handle_packet(
        &DecodedPacket::PlayerPositionAndLook(PlayerPositionAndLook {
            x: DoubleBits(0),
            y: DoubleBits(0),
            z: DoubleBits(0),
            yaw: FloatBits(0),
            pitch: FloatBits(0),
            flags: Byte(0),
            teleport_id: VarInt(12),
            dismount: Boolean(false),
        }),
        10,
    );
    assert_eq!(replies.len(), 1);
    match &replies[0] {
        DecodedPacket::TeleportConfirm(id) => assert_eq!(id.0, 12),
        other => panic!("unexpected {:?}", other),
    }

    let mut heights = vec![0i64; 37];
    heights[0] = 1;
    s.world.insert_chunk(Chunk::from_parts(4, 5, &heights, 0, &vec![]));
    assert!(s.world.get_chunk((4, 5)).is_some());
    s.handle_packet(&DecodedPacket::UnloadChunk(UnloadChunk { x: Int(4), z: Int(5) }), 10);
    assert!(s.world.get_chunk((4, 5)).is_none());

    s.handle_packet(&chat_packet("{\"extra\":[{\"text\":\"hi\"}]}"), 10);
    s.handle_packet(&chat_packet("{broken"), 10);
    assert_eq!(s.chat.get_history().len(), 1);
    assert_eq!(s.chat.get_history()[0].text, "hi");

    s.handle_packet(&DecodedPacket::Disconnect(Disconnect { reason: MCString(String::from("bye")) }), 10);
    assert!(!s.connected);
    assert_eq!(s.difficulty, Difficulty::Hard);
}

fn chat_packet(json: &str) -> DecodedPacket {
    DecodedPacket::ChatIncoming(ChatIncoming {
        json: MCString(String::from(json)),
        position: Byte(0),
        sender: UUID([1, 2]),
    })
}

#[test]
fn chat_history_and_input() {
    let mut chat = Chat::new();
    assert!(chat.get_history().is_empty());
    chat.add_message(&chat_packet("{\"extra\":[{\"text\":\"hello\"}],\"text\":\"\"}"));
    assert_eq!(chat.get_history().len(), 1);
    assert_eq!(chat.get_history()[0].text, "hello");
    assert_eq!(chat.get_history()[0].sender.0, [1, 2]);
    assert_eq!(chat.get_history()[0].message_type, ChatMessageType::Temp);
    // Without an extra component the text renders as null.
    chat.add_message(&chat_packet("{\"text\":\"plain\"}"));
    assert_eq!(chat.get_history()[1].text, "null");
    // Other packets are not recorded.
    chat.add_message(&DecodedPacket::Empty);
    assert_eq!(chat.get_history().len(), 2);
    // Every double quote of the rendered text is dropped, escaped ones too.
    chat.add_message(&chat_packet("{\"extra\":[{\"text\":\"a\\\"b\"}]}"));
    assert_eq!(chat.get_history()[2].text, "a\\b");
    chat.set_message(String::from("/help"));
    assert_eq!(chat.get_message(), "/help");
    assert_eq!(chat.get_message_and_clear(), "/help");
    assert_eq!(chat.get_message(), "");
    let saved = SavedServer { ip: String::from("localhost"), name: String::from("Home") };
    assert_eq!(saved.clone().ip, "localhost");
}

fn chunk_data(x: i32, z: i32, heights: Vec<i64>, mask: i64) -> DecodedPacket {
    let mut heightmaps = quartz_nbt::NbtCompound::new();
    heightmaps.insert("MOTION_BLOCKING", heights);
    DecodedPacket::ChunkData(ChunkData {
        x: Int(x),
        z: Int(z),
        bit_mask_len: VarInt(1),
        bit_mask: vec![Long(mask)],
        heightmaps: NBTTag(heightmaps),
        biomes_len: VarInt(0),
        biomes: vec![],
        data_len: VarInt(0),
        data: vec![],
        block_entities_len: VarInt(0),
        block_entities: vec![],
    })
}

#[test]
fn session_loads_decodable_chunks() {
    let mut s = Session::new(PlayerSettings::new());
    let mut heights = vec![0i64; 37];
    heights[0] = 70;
    let replies = s.handle_packet(&chunk_data(-2, 3, heights.clone(), 0), 10);
    assert!(replies.is_empty());
    let chunk = s.world.get_chunk((-2, 3)).expect("loaded");
    assert_eq!(chunk.get_highest_block((0, 0)), 70);
    assert_eq!(chunk.block_id_at((0, 0, 0)), 0);
    // A section announced by the mask but not sent: nothing is loaded.
    s.handle_packet(&chunk_data(5, 5, heights.clone(), 1), 10);
    assert!(s.world.get_chunk((5, 5)).is_none());
    // A heightmap too short: nothing is loaded.
    s.handle_packet(&chunk_data(6, 6, vec![0i64; 10], 0), 10);
    assert!(s.world.get_chunk((6, 6)).is_none());
    assert!(s.world.get_chunk((-2, 3)).is_some());
}

#[test]
fn session_submits_the_typed_chat_once() {
    let mut s = Session::new(PlayerSettings::new());
    assert_eq!(s.input, InputState::Playing);
    // T opens the chat; Return sends what was typed and clears it.
    assert!(s.handle_input(&InputEvents { t_pressed: true, ..quiet() }).is_none());
    assert_eq!(s.input, InputState::ChatOpen);
    s.chat.set_message(String::from("hello"));
    match s.handle_input(&InputEvents { return_pressed: true, ..quiet() }) {
        Some(DecodedPacket::ChatOutgoing(m)) => assert_eq!(m.0, "hello"),
        other => panic!("unexpected {:?}", other),
    }
    assert_eq!(s.input, InputState::Playing);
    assert_eq!(s.chat.get_message(), "");
    // An empty message is not sent.
    s.handle_input(&InputEvents { t_pressed: true, ..quiet() });
    assert!(s.handle_input(&InputEvents { return_pressed: true, ..quiet() }).is_none());
    assert_eq!(s.input, InputState::Playing);
    // Slash opens the chat with a slash typed; Escape closes it and keeps the text.
    assert!(s.handle_input(&InputEvents { slash_pressed: true, ..quiet() }).is_none());
    assert_eq!(s.chat.get_message(), "/");
    assert!(s.handle_input(&InputEvents { escape_pressed: true, ..quiet() }).is_none());
    assert_eq!(s.input, InputState::Playing);
    assert_eq!(s.chat.get_message(), "/");
}

fn player_info(action: u8, entries: &[Vec<u8>]) -> DecodedPacket {
    let mut bytes = vec![0x36, action, entries.len() as u8];
    for e in entries {
        bytes.extend_from_slice(e);
    }
    DecodedPacket::Unknown(bytes)
}

fn uuid_bytes(lo: u8) -> Vec<u8> {
    let mut b = vec![0u8; 16];
    b[0] = 0x11;
    b[15] = lo;
    b
}

#[test]
fn session_keeps_the_player_list() {
    let mut s = Session::new(PlayerSettings::new());
    // Add two players; the first has one signed property and a display name.
    let mut alice = uuid_bytes(1);
    alice.extend_from_slice(&[5, b'A', b'l', b'i', b'c', b'e', 1]);
    alice.extend_from_slice(&[1, b'p', 1, b'v', 1, 1, b's']);
    alice.extend_from_slice(&[1, 40, 1, 3, b'"', b'A', b'"']);
    let mut bob = uuid_bytes(2);
    bob.extend_from_slice(&[3, b'B', b'o', b'b', 0, 0, 0x96, 0x01, 0]);
    s.handle_packet(&player_info(0, &[alice, bob]), 10);
    let a = s.players.get(UUID([0x1100_0000_0000_0000, 1])).expect("alice");
    assert_eq!(a.name, "Alice");
    assert_eq!(a.gamemode, 1);
    assert_eq!(a.ping, 40);
    assert_eq!(a.display_name.as_deref(), Some("\"A\""));
    let b = s.players.get(UUID([0x1100_0000_0000_0000, 2])).expect("bob");
    assert_eq!((b.gamemode, b.ping, b.display_name.is_none()), (0, 150, true));

    // Game mode, latency and display name updates change one field.
    let mut gm = uuid_bytes(2);
    gm.push(3);
    s.handle_packet(&player_info(1, &[gm]), 10);
    let mut ping = uuid_bytes(1);
    ping.push(7);
    s.handle_packet(&player_info(2, &[ping]), 10);
    let mut dn = uuid_bytes(1);
    dn.push(0);
    s.handle_packet(&player_info(3, &[dn]), 10);
    let a = s.players.get(UUID([0x1100_0000_0000_0000, 1])).unwrap();
    assert_eq!((a.name.as_str(), a.gamemode, a.ping, a.display_name.is_none()), ("Alice", 1, 7, true));
    assert_eq!(s.players.get(UUID([0x1100_0000_0000_0000, 2])).unwrap().gamemode, 3);
    // An update for a player not listed adds nobody.
    let mut stranger = uuid_bytes(9);
    stranger.push(2);
    s.handle_packet(&player_info(1, &[stranger]), 10);
    assert!(s.players.get(UUID([0x1100_0000_0000_0000, 9])).is_none());

    // Removal; a packet cut short changes nothing.
    s.handle_packet(&player_info(4, &[uuid_bytes(1)]), 10);
    assert!(s.players.get(UUID([0x1100_0000_0000_0000, 1])).is_none());
    let mut cut = uuid_bytes(2);
    cut.truncate(10);
    s.handle_packet(&player_info(4, &[cut]), 10);
    assert!(s.players.get(UUID([0x1100_0000_0000_0000, 2])).is_some());
}

#[test]
fn player_info_packets_parse() {
    let mut bytes = vec![0x36, 4, 2];
    bytes.extend_from_slice(&uuid_bytes(1));
    bytes.extend_from_slice(&uuid_bytes(2));
    let info = parse_player_info(&bytes).expect("readable");
    assert_eq!(info.action, 4);
    assert_eq!(info.players.len(), 2);
    assert_eq!(info.players[1].uuid.0, [0x1100_0000_0000_0000, 2]);
    // An unknown action, or a count larger than the entries sent.
    assert!(parse_player_info(&vec![0x36, 7, 0]).is_some());
    let mut bad = vec![0x36, 7, 1];
    bad.extend_from_slice(&uuid_bytes(1));
    assert!(parse_player_info(&bad).is_none());
    bytes[2] = 3;
    assert!(parse_player_info(&bytes).is_none());
}
