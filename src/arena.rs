//! One entry point for both kinds of instance: an instance is either the
//! lobby or a draft room, and each operation goes to the kind it is meant for.
use vstd::prelude::*;

use crate::draft_room::{
    fresh_room,
    DraftRoom,
    DraftRoomError,
    DraftRoomOperation,
    DraftRoomView,
};
use crate::ids::Owner;
use crate::lobby::{
    create_room_result,
    ContractParameters,
    DraftRoomMetadata,
    Lobby,
    LobbyError,
    LobbyOperation,
    RoomMetadataView,
    RoomStatus,
};

verus! {

/// Operations of either kind of instance.
#[derive(Debug)]
pub enum Operation {
    CreateRoom { room_name: String, max_players: u8 },
    JoinRoom,
    StartDraft,
    PickItem { item_id: u8 },
    FinalizeDraft,
}

/// The room operation that an operation stands for, if it is one.
pub open spec fn room_operation(op: Operation) -> Option<DraftRoomOperation> {
    match op {
        Operation::CreateRoom { .. } => None,
        Operation::JoinRoom => Some(DraftRoomOperation::JoinRoom),
        Operation::StartDraft => Some(DraftRoomOperation::StartDraft),
        Operation::PickItem { item_id } => Some(DraftRoomOperation::PickItem { item_id }),
        Operation::FinalizeDraft => Some(DraftRoomOperation::FinalizeDraft),
    }
}

/// Why either kind of instance rejected an operation.
#[derive(Clone, Copy, Debug, PartialEq, Eq, Structural)]
pub enum LiveDraftArenaError {
    Lobby(LobbyError),
    DraftRoom(DraftRoomError),
}

impl From<LobbyError> for LiveDraftArenaError {
    fn from(e: LobbyError) -> (r: LiveDraftArenaError) {
        LiveDraftArenaError::Lobby(e)
    }
}

impl vstd::std_specs::convert::FromSpecImpl<LobbyError> for LiveDraftArenaError {
    open spec fn obeys_from_spec() -> bool {
        true
    }

    open spec fn from_spec(e: LobbyError) -> LiveDraftArenaError {
        LiveDraftArenaError::Lobby(e)
    }
}

impl From<DraftRoomError> for LiveDraftArenaError {
    fn from(e: DraftRoomError) -> (r: LiveDraftArenaError) {
        LiveDraftArenaError::DraftRoom(e)
    }
}

impl vstd::std_specs::convert::FromSpecImpl<DraftRoomError> for LiveDraftArenaError {
    open spec fn obeys_from_spec() -> bool {
        true
    }

    open spec fn from_spec(e: DraftRoomError) -> LiveDraftArenaError {
        LiveDraftArenaError::DraftRoom(e)
    }
}

/// The state of one instance: the lobby or a draft room.
pub enum LiveDraftArena {
    Lobby(Lobby),
    DraftRoom(DraftRoom),
}

impl LiveDraftArena {
    /// The well-formedness of the instance's state.
    pub open spec fn wf(&self) -> bool {
        match self {
            LiveDraftArena::Lobby(lobby) => lobby.wf(),
            LiveDraftArena::DraftRoom(room) => room@.wf(),
        }
    }

    /// A fresh instance of the kind that the parameters name: an empty lobby,
    /// or a waiting room for at most `max_players` players, created by `creator`.
    pub fn new(parameters: ContractParameters, creator: Option<Owner>) -> (r: LiveDraftArena)
        ensures
            r.wf(),
            match parameters {
                ContractParameters::Lobby => r matches LiveDraftArena::Lobby(lobby)
                    && lobby.rooms_map() == Map::<
                    crate::ids::ChainId,
                    RoomMetadataView,
                >::empty(),
                ContractParameters::DraftRoom { max_players } => r matches LiveDraftArena::DraftRoom(
                    room,
                ) && room@ == fresh_room(max_players, creator),
            },
    {
        match parameters {
            ContractParameters::Lobby => LiveDraftArena::Lobby(Lobby::new()),
            ContractParameters::DraftRoom { max_players } => LiveDraftArena::DraftRoom(
                DraftRoom::new(max_players, creator),
            ),
        }
    }

    /// Sends an operation to the instance. The lobby takes `CreateRoom`: when
    /// it is accepted the answer holds the new room's metadata, which the
    /// host records once it has opened the room's instance. A draft room
    /// takes the other four operations. An operation meant for the other
    /// kind of instance is ignored.
    pub fn execute_operation(&mut self, caller: Option<Owner>, operation: Operation) -> (r: Result<
        Option<DraftRoomMetadata>,
        LiveDraftArenaError,
    >)
        requires
            old(self).wf(),
        ensures
            final(self).wf(),
            (*old(self)) is Lobby ==> *final(self) == *old(self),
            (*old(self)) is Lobby && operation is CreateRoom ==> ({
                let res = create_room_result(
                    operation->CreateRoom_room_name@,
                    operation->CreateRoom_max_players,
                    caller,
                );
                &&& (r is Ok) == (res is Ok)
                &&& r matches Err(e) ==> res matches Err(le) && e == LiveDraftArenaError::Lobby(le)
                &&& r matches Ok(m) ==> m matches Some(meta) && meta@ == (RoomMetadataView {
                    room_name: operation->CreateRoom_room_name@,
                    max_players: operation->CreateRoom_max_players,
                    status: RoomStatus::Waiting,
                })
            }),
            (*old(self)) is Lobby && !(operation is CreateRoom) ==> r == Ok::<
                Option<DraftRoomMetadata>,
                LiveDraftArenaError,
            >(None),
            (*old(self)) is DraftRoom ==> ({
                let before: DraftRoomView = (*old(self))->DraftRoom_0@;
                &&& (*final(self)) is DraftRoom
                &&& match room_operation(operation) {
                    Some(op) => {
                        &&& (*final(self))->DraftRoom_0@ == before.next(caller, op)
                        &&& r matches Ok(m) ==> m is None
                        &&& (r is Ok) == (before.outcome(caller, op) is Ok)
                        &&& r matches Err(e) ==> before.outcome(caller, op) matches Err(de) && e
                            == LiveDraftArenaError::DraftRoom(de)
                    },
                    None => {
                        &&& (*final(self))->DraftRoom_0@ == before
                        &&& r == Ok::<Option<DraftRoomMetadata>, LiveDraftArenaError>(None)
                    },
                }
            }),
    {
        match self {
            LiveDraftArena::Lobby(lobby) => match operation {
                Operation::CreateRoom { room_name, max_players } => {
                    match lobby.execute_operation(
                        caller,
                        LobbyOperation::CreateRoom { room_name, max_players },
                    ) {
                        Ok(metadata) => Ok(Some(metadata)),
                        Err(e) => Err(LiveDraftArenaError::Lobby(e)),
                    }
                },
                _ => Ok(None),
            },
            LiveDraftArena::DraftRoom(room) => {
                let op = match operation {
                    Operation::CreateRoom { .. } => {
                        return Ok(None);
                    },
                    Operation::JoinRoom => DraftRoomOperation::JoinRoom,
                    Operation::StartDraft => DraftRoomOperation::StartDraft,
                    Operation::PickItem { item_id } => DraftRoomOperation::PickItem { item_id },
                    Operation::FinalizeDraft => DraftRoomOperation::FinalizeDraft,
                };
                match room.execute_operation(caller, op) {
                    Ok(()) => Ok(None),
                    Err(e) => Err(LiveDraftArenaError::DraftRoom(e)),
                }
            },
        }
    }
}

} // verus!
