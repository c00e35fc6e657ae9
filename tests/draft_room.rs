use livedraft_arena::draft_room::{
    DraftRoom, DraftRoomError, DraftRoomOperation, DraftStatus, CATALOG_SIZE, MAX_ROUNDS,
};
use livedraft_arena::ids::Owner;

fn owner(n: u8) -> Owner {
    Owner { bytes: [n; 32] }
}

fn pool_ids(room: &DraftRoom) -> Vec<u8> {
    room.pool.iter().map(|it| it.id).collect()
}

fn total_picks(room: &DraftRoom) -> usize {
    room.picks.iter().map(|p| p.len()).sum()
}

/// A room for `n` players that the first of them created, all joined and started.
fn started_room(n: u8) -> DraftRoom {
    let mut room = DraftRoom::new(n, Some(owner(1)));
    for i in 1..=n {
        assert_eq!(room.join_room(Some(owner(i))), Ok(()));
    }
    assert_eq!(room.start_draft(Some(owner(1))), Ok(()));
    room
}

fn first_pool_id(room: &DraftRoom) -> u8 {
    room.pool[0].id
}

#[test]
fn new_room_is_waiting_and_empty() {
    let room = DraftRoom::new(4, Some(owner(1)));
    assert_eq!(room.status, DraftStatus::Waiting);
    assert!(room.players.is_empty());
    assert!(room.pool.is_empty());
    assert_eq!(room.round, 1);
    assert_eq!(room.current_turn, 0);
    assert_eq!(room.max_rounds, MAX_ROUNDS);
    assert_eq!(room.max_players, 4);
}

#[test]
fn black_lotus_scenario_with_two_players() {
    let a = owner(1);
    let b = owner(2);
    let mut room = DraftRoom::new(2, Some(a));
    assert_eq!(room.join_room(Some(a)), Ok(()));
    assert_eq!(room.join_room(Some(b)), Ok(()));
    assert_eq!(room.start_draft(Some(a)), Ok(()));
    assert_eq!(room.pool.len(), 15);
    assert_eq!(room.current_player(), Some(a));

    assert_eq!(room.pick_item(Some(a), 7), Ok(()));
    assert!(!pool_ids(&room).contains(&7));
    assert_eq!(room.picks[0].len(), 1);
    assert_eq!(room.picks[0][0].id, 7);
    assert_eq!(room.picks[0][0].name, "Black Lotus");
    assert_eq!(room.picks[0][0].power, 100);
    assert_eq!(room.current_turn, 1);
    assert_eq!(room.round, 1);
    assert_eq!(room.current_player(), Some(b));

    assert_eq!(room.pick_item(Some(b), 1), Ok(()));
    assert_eq!(room.round, 2);
    assert_eq!(room.current_turn, 0);
    // Round two runs backward: B, at index n - 1, picks again at once.
    assert_eq!(room.current_player(), Some(b));
    assert_eq!(room.pick_item(Some(a), 2), Err(DraftRoomError::NotYourTurn));
    assert_eq!(room.pick_item(Some(b), 2), Ok(()));
    assert_eq!(room.current_player(), Some(a));
}

fn check_snake_order(n: u8) {
    let mut room = started_room(n);
    for round in 1..=2u8 {
        assert_eq!(room.round, round);
        for k in 0..n {
            let expected = if round % 2 == 1 { owner(k + 1) } else { owner(n - k) };
            assert_eq!(room.current_player(), Some(expected));
            if room.pool.is_empty() {
                // Eight players use up the fifteen items one turn before round two ends.
                assert_eq!((n, round, k), (8, 2, 7));
                return;
            }
            let id = first_pool_id(&room);
            assert_eq!(room.pick_item(Some(expected), id), Ok(()));
        }
    }
}

#[test]
fn snake_order_with_two_players() {
    check_snake_order(2);
}

#[test]
fn snake_order_with_three_players() {
    check_snake_order(3);
}

#[test]
fn snake_order_with_four_players() {
    check_snake_order(4);
}

#[test]
fn snake_order_with_eight_players() {
    check_snake_order(8);
}

#[test]
fn draft_finishes_after_players_times_rounds_picks() {
    for n in 2..=5u8 {
        let mut room = started_room(n);
        let mut made = 0usize;
        while room.status == DraftStatus::Drafting {
            let p = room.current_player().unwrap();
            let id = first_pool_id(&room);
            assert_eq!(room.pick_item(Some(p), id), Ok(()));
            made += 1;
            assert_eq!(room.pool.len() + total_picks(&room), CATALOG_SIZE);
        }
        assert_eq!(made, n as usize * MAX_ROUNDS as usize);
        assert_eq!(room.status, DraftStatus::Finished);
        assert_eq!(room.round, MAX_ROUNDS + 1);
        for picks in &room.picks {
            assert_eq!(picks.len(), MAX_ROUNDS as usize);
        }
    }
}

#[test]
fn eight_players_exhaust_the_pool_before_the_last_round_ends() {
    let mut room = started_room(8);
    for _ in 0..CATALOG_SIZE {
        let p = room.current_player().unwrap();
        let id = first_pool_id(&room);
        assert_eq!(room.pick_item(Some(p), id), Ok(()));
    }
    assert!(room.pool.is_empty());
    assert_eq!(room.status, DraftStatus::Drafting);
    let p = room.current_player().unwrap();
    assert_eq!(room.pick_item(Some(p), 1), Err(DraftRoomError::ItemNotFound));
}

#[test]
fn pool_and_picks_always_hold_every_catalog_id_once() {
    let mut room = started_room(3);
    for _ in 0..6 {
        let p = room.current_player().unwrap();
        let id = room.pool[room.pool.len() - 1].id;
        assert_eq!(room.pick_item(Some(p), id), Ok(()));
        let mut ids = pool_ids(&room);
        for picks in &room.picks {
            ids.extend(picks.iter().map(|it| it.id));
        }
        ids.sort();
        assert_eq!(ids, (1..=15).collect::<Vec<u8>>());
    }
}

#[test]
fn finalize_twice_after_finish_succeeds_and_changes_nothing() {
    let mut room = started_room(2);
    while room.status == DraftStatus::Drafting {
        let p = room.current_player().unwrap();
        let id = first_pool_id(&room);
        room.pick_item(Some(p), id).unwrap();
    }
    let pool_before = pool_ids(&room);
    assert_eq!(room.execute_operation(Some(owner(1)), DraftRoomOperation::FinalizeDraft), Ok(()));
    assert_eq!(room.execute_operation(None, DraftRoomOperation::FinalizeDraft), Ok(()));
    assert_eq!(room.finalize_draft(), Ok(()));
    assert_eq!(pool_ids(&room), pool_before);
    assert_eq!(room.status, DraftStatus::Finished);
    assert_eq!(room.round, MAX_ROUNDS + 1);
}

#[test]
fn finalize_before_finish_fails() {
    let mut room = DraftRoom::new(2, Some(owner(1)));
    assert_eq!(room.finalize_draft(), Err(DraftRoomError::DraftNotFinished));
    room = started_room(2);
    assert_eq!(room.finalize_draft(), Err(DraftRoomError::DraftNotFinished));
}

#[test]
fn join_after_start_is_rejected_even_with_room_to_spare() {
    let mut room = DraftRoom::new(8, Some(owner(1)));
    room.join_room(Some(owner(1))).unwrap();
    room.join_room(Some(owner(2))).unwrap();
    room.start_draft(Some(owner(1))).unwrap();
    assert_eq!(room.join_room(Some(owner(3))), Err(DraftRoomError::NotWaiting));
    assert_eq!(room.join_room(Some(owner(1))), Err(DraftRoomError::NotWaiting));
    assert_eq!(room.players.len(), 2);
    assert_eq!(room.picks.len(), 2);
}

#[test]
fn join_errors() {
    let mut room = DraftRoom::new(2, Some(owner(1)));
    assert_eq!(room.join_room(None), Err(DraftRoomError::AuthenticationRequired));
    assert_eq!(room.join_room(Some(owner(1))), Ok(()));
    assert_eq!(room.join_room(Some(owner(1))), Err(DraftRoomError::AlreadyJoined));
    assert_eq!(room.join_room(Some(owner(2))), Ok(()));
    assert_eq!(room.join_room(Some(owner(3))), Err(DraftRoomError::RoomFull));
    assert_eq!(room.players, vec![owner(1), owner(2)]);
}

#[test]
fn start_errors() {
    let mut room = DraftRoom::new(2, Some(owner(1)));
    assert_eq!(room.start_draft(None), Err(DraftRoomError::AuthenticationRequired));
    assert_eq!(room.start_draft(Some(owner(2))), Err(DraftRoomError::NotCreator));
    assert_eq!(room.status, DraftStatus::Waiting);
    assert_eq!(room.start_draft(Some(owner(1))), Ok(()));
    assert_eq!(room.start_draft(Some(owner(1))), Err(DraftRoomError::NotWaiting));
    let mut no_creator = DraftRoom::new(2, None);
    assert_eq!(no_creator.start_draft(Some(owner(1))), Err(DraftRoomError::NotCreator));
}

#[test]
fn catalog_fills_the_pool_in_id_order() {
    let room = started_room(2);
    assert_eq!(pool_ids(&room), (1..=15).collect::<Vec<u8>>());
    assert_eq!(room.pool[0].name, "Lightning Bolt");
    assert_eq!(room.pool[4].power, 70);
    assert_eq!(room.pool[9].name, "Swords to Plowshares");
    assert_eq!(room.pool[14].name, "Demonic Tutor");
    assert_eq!(room.pool[14].power, 90);
}

#[test]
fn missing_item_fails_and_changes_nothing() {
    let mut room = started_room(2);
    let before = pool_ids(&room);
    assert_eq!(room.pick_item(Some(owner(1)), 99), Err(DraftRoomError::ItemNotFound));
    assert_eq!(room.pick_item(Some(owner(1)), 0), Err(DraftRoomError::ItemNotFound));
    assert_eq!(pool_ids(&room), before);
    assert_eq!(total_picks(&room), 0);
    assert_eq!(room.current_turn, 0);
    room.pick_item(Some(owner(1)), 3).unwrap();
    assert_eq!(room.pick_item(Some(owner(2)), 3), Err(DraftRoomError::ItemNotFound));
    assert_eq!(room.current_turn, 1);
    assert_eq!(total_picks(&room), 1);
}

#[test]
fn out_of_turn_pick_fails_even_for_a_pooled_item() {
    let mut room = started_room(3);
    let before = pool_ids(&room);
    assert_eq!(room.pick_item(Some(owner(2)), 5), Err(DraftRoomError::NotYourTurn));
    assert_eq!(room.pick_item(Some(owner(9)), 5), Err(DraftRoomError::NotYourTurn));
    assert_eq!(pool_ids(&room), before);
    assert_eq!(room.current_turn, 0);
    assert_eq!(total_picks(&room), 0);
}

#[test]
fn pick_errors_before_the_draft_and_without_players() {
    let mut room = DraftRoom::new(2, Some(owner(1)));
    assert_eq!(room.pick_item(Some(owner(1)), 1), Err(DraftRoomError::NotDrafting));
    assert_eq!(room.pick_item(None, 1), Err(DraftRoomError::AuthenticationRequired));
    // The creator may start without anyone having joined: nobody is active.
    room.start_draft(Some(owner(1))).unwrap();
    assert_eq!(room.current_player(), None);
    assert_eq!(room.pick_item(Some(owner(1)), 1), Err(DraftRoomError::NotYourTurn));
}

#[test]
fn execute_operation_dispatches_each_operation() {
    let mut room = DraftRoom::new(2, Some(owner(1)));
    assert_eq!(room.execute_operation(Some(owner(1)), DraftRoomOperation::JoinRoom), Ok(()));
    assert_eq!(room.execute_operation(Some(owner(2)), DraftRoomOperation::JoinRoom), Ok(()));
    assert_eq!(room.execute_operation(Some(owner(1)), DraftRoomOperation::StartDraft), Ok(()));
    assert_eq!(
        room.execute_operation(Some(owner(1)), DraftRoomOperation::PickItem { item_id: 4 }),
        Ok(())
    );
    assert_eq!(room.picks[0][0].id, 4);
    assert_eq!(
        room.execute_operation(Some(owner(2)), DraftRoomOperation::FinalizeDraft),
        Err(DraftRoomError::DraftNotFinished)
    );
}
