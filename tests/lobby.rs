use livedraft_arena::arena::{LiveDraftArena, LiveDraftArenaError, Operation};
use livedraft_arena::draft_room::{DraftRoomError, DraftStatus};
use livedraft_arena::gateway::{self, DraftRoomState, PlayerPicks, RoomData};
use livedraft_arena::ids::{ChainId, Owner};
use livedraft_arena::lobby::{
    is_blank_str, ContractParameters, Lobby, LobbyError, LobbyOperation, RoomStatus,
};

fn owner(n: u8) -> Owner {
    Owner { bytes: [n; 32] }
}

fn chain(n: u8) -> ChainId {
    ChainId { bytes: [n; 32] }
}

fn create(name: &str, max_players: u8) -> LobbyOperation {
    LobbyOperation::CreateRoom { room_name: name.to_string(), max_players }
}

#[test]
fn create_room_validates_name_capacity_and_caller() {
    let lobby = Lobby::new();
    let c = Some(owner(1));
    assert_eq!(lobby.execute_operation(c, create("", 4)).unwrap_err(), LobbyError::InvalidRoomName);
    assert_eq!(
        lobby.execute_operation(c, create(" \t\n", 4)).unwrap_err(),
        LobbyError::InvalidRoomName
    );
    assert_eq!(
        lobby.execute_operation(c, create("\u{3000}", 4)).unwrap_err(),
        LobbyError::InvalidRoomName
    );
    assert_eq!(lobby.execute_operation(c, create("Arena", 1)).unwrap_err(), LobbyError::InvalidCapacity);
    assert_eq!(lobby.execute_operation(c, create("Arena", 9)).unwrap_err(), LobbyError::InvalidCapacity);
    assert_eq!(
        lobby.execute_operation(None, create("Arena", 4)).unwrap_err(),
        LobbyError::AuthenticationRequired
    );
    // The name is checked before the capacity.
    assert_eq!(lobby.execute_operation(None, create(" ", 0)).unwrap_err(), LobbyError::InvalidRoomName);
}

#[test]
fn create_room_accepts_bounds_and_keeps_the_name() {
    let lobby = Lobby::new();
    for cap in [2u8, 8] {
        let m = lobby.execute_operation(Some(owner(1)), create("  Friday draft ", cap)).unwrap();
        assert_eq!(m.room_name, "  Friday draft ");
        assert_eq!(m.max_players, cap);
        assert_eq!(m.status, RoomStatus::Waiting);
        assert_eq!(m.parameters(), ContractParameters::DraftRoom { max_players: cap });
    }
}

#[test]
fn blank_text_is_only_white_space() {
    assert!(is_blank_str(""));
    assert!(is_blank_str(" \u{a0}\u{2028}"));
    assert!(!is_blank_str(" x "));
}

#[test]
fn recorded_rooms_are_listed_by_instance() {
    let mut lobby = Lobby::new();
    let m1 = lobby.execute_operation(Some(owner(1)), create("One", 2)).unwrap();
    lobby.record_room(chain(0xab), m1);
    let m2 = lobby.execute_operation(Some(owner(1)), create("Two", 6)).unwrap();
    lobby.record_room(chain(0x01), m2);
    let list = lobby.room_list();
    assert_eq!(list.len(), 2);
    assert_eq!(list[0].chain_id, "ab".repeat(32));
    assert_eq!(list[0].room_name, "One");
    assert_eq!(list[0].max_players, 2);
    assert_eq!(list[0].status, "Waiting");
    assert_eq!(list[1].chain_id, "01".repeat(32));
    // Recording the same instance again replaces its metadata.
    let m3 = lobby.execute_operation(Some(owner(1)), create("Again", 3)).unwrap();
    lobby.record_room(chain(0xab), m3);
    let list = lobby.room_list();
    assert_eq!(list.len(), 2);
    assert_eq!(list[0].room_name, "Again");
    assert_eq!(list[0].max_players, 3);
}

#[test]
fn room_status_names_and_conversion() {
    assert_eq!(RoomStatus::from(DraftStatus::Waiting), RoomStatus::Waiting);
    assert_eq!(RoomStatus::from(DraftStatus::Drafting), RoomStatus::Drafting);
    assert_eq!(RoomStatus::from(DraftStatus::Finished), RoomStatus::Finished);
    assert_eq!(RoomStatus::Drafting.name(), "Drafting");
    assert_eq!(RoomStatus::Finished.name(), "Finished");
    assert_eq!(gateway::RoomStatus::from_name("Drafting"), gateway::RoomStatus::Drafting);
    assert_eq!(gateway::RoomStatus::from_name("Finished"), gateway::RoomStatus::Finished);
    assert_eq!(gateway::RoomStatus::from_name("Waiting"), gateway::RoomStatus::Waiting);
    assert_eq!(gateway::RoomStatus::from_name("drafting"), gateway::RoomStatus::Waiting);
}

#[test]
fn arena_sends_operations_to_the_right_kind() {
    let mut lobby = LiveDraftArena::new(ContractParameters::Lobby, None);
    let created = lobby
        .execute_operation(
            Some(owner(1)),
            Operation::CreateRoom { room_name: "Room".to_string(), max_players: 2 },
        )
        .unwrap()
        .unwrap();
    assert_eq!(created.parameters(), ContractParameters::DraftRoom { max_players: 2 });
    assert!(matches!(lobby.execute_operation(Some(owner(1)), Operation::JoinRoom), Ok(None)));
    assert!(matches!(
        lobby.execute_operation(
            Some(owner(1)),
            Operation::CreateRoom { room_name: String::new(), max_players: 2 }
        ),
        Err(LiveDraftArenaError::Lobby(LobbyError::InvalidRoomName))
    ));

    let mut room = LiveDraftArena::new(created.parameters(), Some(owner(1)));
    assert!(matches!(room.execute_operation(Some(owner(1)), Operation::JoinRoom), Ok(None)));
    assert!(matches!(
        room.execute_operation(Some(owner(1)), Operation::JoinRoom),
        Err(LiveDraftArenaError::DraftRoom(DraftRoomError::AlreadyJoined))
    ));
    assert!(matches!(
        room.execute_operation(
            Some(owner(1)),
            Operation::CreateRoom { room_name: "x".to_string(), max_players: 2 }
        ),
        Ok(None)
    ));
    assert!(matches!(room.execute_operation(Some(owner(1)), Operation::StartDraft), Ok(None)));
    assert!(matches!(
        room.execute_operation(Some(owner(1)), Operation::PickItem { item_id: 9 }),
        Ok(None)
    ));
    match &room {
        LiveDraftArena::DraftRoom(r) => assert_eq!(r.picks[0][0].id, 9),
        LiveDraftArena::Lobby(_) => panic!("expected a draft room"),
    }
}

#[test]
fn gateway_reports_room_state_and_picks() {
    let mut arena = LiveDraftArena::new(ContractParameters::DraftRoom { max_players: 2 }, Some(owner(1)));
    arena.execute_operation(Some(owner(1)), Operation::JoinRoom).unwrap();
    arena.execute_operation(Some(owner(2)), Operation::JoinRoom).unwrap();
    arena.execute_operation(Some(owner(1)), Operation::StartDraft).unwrap();
    arena.execute_operation(Some(owner(1)), Operation::PickItem { item_id: 7 }).unwrap();
    let room = match &arena {
        LiveDraftArena::DraftRoom(r) => r,
        LiveDraftArena::Lobby(_) => panic!("expected a draft room"),
    };
    let state = DraftRoomState::from_room(&chain(3), room);
    assert_eq!(state.chain_id, "03".repeat(32));
    assert_eq!(state.players, vec!["01".repeat(32), "02".repeat(32)]);
    assert_eq!(state.current_turn, 1);
    assert_eq!(state.round, 1);
    assert_eq!(state.max_rounds, 3);
    assert_eq!(state.pool.len(), 14);
    assert_eq!(state.status, gateway::RoomStatus::Drafting);

    let mine = PlayerPicks::of_player(room, &owner(1));
    assert_eq!(mine.player, "01".repeat(32));
    assert_eq!(mine.items.len(), 1);
    assert_eq!(mine.items[0].id, 7);
    assert_eq!(mine.items[0].name, "Black Lotus");
    assert_eq!(mine.items[0].power, 100);
    assert!(PlayerPicks::of_player(room, &owner(2)).items.is_empty());
    assert!(PlayerPicks::of_player(room, &owner(5)).items.is_empty());
}

#[test]
fn gateway_lists_a_recorded_room() {
    let lobby = Lobby::new();
    let m = lobby.execute_operation(Some(owner(1)), create("Listed", 5)).unwrap();
    let data = RoomData::from_metadata(&chain(0x10), &m, 0);
    assert_eq!(data.chain_id, "10".repeat(32));
    assert_eq!(data.room_name, "Listed");
    assert_eq!(data.max_players, 5);
    assert_eq!(data.current_players, 0);
    assert_eq!(data.status, gateway::RoomStatus::Waiting);
}
