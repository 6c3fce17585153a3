use mince_raft::network::connection::{compression_for, keep_alive_reply, login_outcome, LoginOutcome};
use mince_raft::network::messages::{DecodedPacket, Disconnect, KeepAliveClientbound};
use mince_raft::network::types::{Long, MCString, VarInt};
use mince_raft::state::{InputEvents, InputState};
use mince_raft::world::{chunk_at_coords, chunk_coords};

#[test]
fn compression_thresholds() {
    assert_eq!(compression_for(0), None);
    assert_eq!(compression_for(-5), None);
    assert_eq!(compression_for(256), Some(256));
}

#[test]
fn login_outcomes() {
    assert_eq!(login_outcome(&DecodedPacket::SetCompression(VarInt(64))), LoginOutcome::Compression(Some(64)));
    assert_eq!(login_outcome(&DecodedPacket::SetCompression(VarInt(-1))), LoginOutcome::Compression(None));
    assert_eq!(login_outcome(&DecodedPacket::LoginSuccess()), LoginOutcome::LoggedIn);
    assert_eq!(
        login_outcome(&DecodedPacket::Disconnect(Disconnect { reason: MCString(String::from("no")) })),
        LoginOutcome::Disconnected
    );
    assert_eq!(login_outcome(&DecodedPacket::EncryptionRequest()), LoginOutcome::Unsupported);
    assert_eq!(login_outcome(&DecodedPacket::LoginPluginRequest()), LoginOutcome::Unsupported);
    assert_eq!(login_outcome(&DecodedPacket::Empty), LoginOutcome::Waiting);
}

#[test]
fn keep_alives_are_echoed() {
    let ka = DecodedPacket::KeepAliveClientbound(KeepAliveClientbound { keep_alive_id: Long(99) });
    match keep_alive_reply(&ka) {
        Some(DecodedPacket::KeepAliveServerbound(id)) => assert_eq!(id.0, 99),
        other => panic!("unexpected {:?}", other),
    }
    assert_eq!(
        keep_alive_reply(&ka).unwrap().encode().unwrap().get_bytes(),
        vec![0x0f, 0, 0, 0, 0, 0, 0, 0, 99]
    );
    assert!(keep_alive_reply(&DecodedPacket::Empty).is_none());
}

#[test]
fn chunk_split_recombines() {
    for v in [0, 1, 15, 16, -1, -16, -17, 12345, -98765, i32::MAX, i32::MIN] {
        let c = chunk_at_coords((v, v)).0 as i64;
        let l = chunk_coords((v, v)).0 as i64;
        assert!((0..16).contains(&l));
        assert_eq!(c * 16 + l, v as i64);
    }
}

#[test]
fn escape_twice_resumes() {
    let esc = InputEvents {
        escape_pressed: true,
        t_pressed: false,
        slash_pressed: false,
        tab_pressed: false,
        tab_released: false,
        left_click: false,
        return_pressed: false,
    };
    let (paused, _) = InputState::Playing.step(&esc);
    assert_eq!(paused, InputState::Paused);
    assert_eq!(paused.step(&esc).0, InputState::Playing);
}
