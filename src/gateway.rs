//! What the query gateway serves: read-only projections of the lobby's and
//! the rooms' state, and the inputs and results of its mutations.
use vstd::prelude::*;
use vstd::string::StrSliceExecFns;

use crate::draft_room::{self, DraftRoom, DraftStatus};
use crate::hex::hex_of;
use crate::ids::{ChainId, Owner};
use crate::lobby;

verus! {

/// Draft room status, as the gateway reports it.
#[derive(Clone, Copy, Debug, PartialEq, Eq, Structural)]
pub enum RoomStatus {
    Waiting,
    Drafting,
    Finished,
}

/// The gateway's status for a room's own status.
pub open spec fn status_of(status: DraftStatus) -> RoomStatus {
    match status {
        DraftStatus::Waiting => RoomStatus::Waiting,
        DraftStatus::Drafting => RoomStatus::Drafting,
        DraftStatus::Finished => RoomStatus::Finished,
    }
}

/// The gateway's status for the lobby's record of a room's status.
pub open spec fn status_of_record(status: lobby::RoomStatus) -> RoomStatus {
    match status {
        lobby::RoomStatus::Waiting => RoomStatus::Waiting,
        lobby::RoomStatus::Drafting => RoomStatus::Drafting,
        lobby::RoomStatus::Finished => RoomStatus::Finished,
    }
}

/// The status that a status name gives: `Drafting` and `Finished` name
/// themselves, and any other text reads as `Waiting`.
pub open spec fn status_named(name: Seq<char>) -> RoomStatus {
    if name == "Drafting"@ {
        RoomStatus::Drafting
    } else if name == "Finished"@ {
        RoomStatus::Finished
    } else {
        RoomStatus::Waiting
    }
}

/// Whether two texts are the same.
fn same_text(a: &str, b: &str) -> (r: bool)
    ensures
        r == (a@ == b@),
{
    let n = a.unicode_len();
    if n != b.unicode_len() {
        return false;
    }
    let mut i: usize = 0;
    while i < n
        invariant
            n == a@.len(),
            n == b@.len(),
            i <= n,
            forall|j: int| 0 <= j < i ==> a@[j] == b@[j],
        decreases n - i,
    {
        if a.get_char(i) != b.get_char(i) {
            return false;
        }
        i = i + 1;
    }
    assert(a@ =~= b@);
    true
}

impl RoomStatus {
    /// The status that a status name gives; unknown names read as `Waiting`.
    pub fn from_name(name: &str) -> (r: RoomStatus)
        ensures
            r == status_named(name@),
    {
        if same_text(name, "Drafting") {
            RoomStatus::Drafting
        } else if same_text(name, "Finished") {
            RoomStatus::Finished
        } else {
            RoomStatus::Waiting
        }
    }
}

/// A draft item, as the gateway reports it.
#[derive(Debug)]
pub struct DraftItem {
    pub id: u32,
    pub name: String,
    pub power: u32,
}

/// Whether `g` reports the item `it`.
pub open spec fn reports_item(g: DraftItem, it: draft_room::DraftItemView) -> bool {
    &&& g.id == it.id as u32
    &&& g.name@ == it.name
    &&& g.power == it.power
}

impl DraftItem {
    /// The report of a room's item.
    pub fn from_item(item: &draft_room::DraftItem) -> (r: DraftItem)
        ensures
            reports_item(r, item@),
    {
        DraftItem { id: item.id as u32, name: item.name.clone(), power: item.power }
    }
}

/// The reports of a sequence of items, in order.
pub fn report_items(items: &Vec<draft_room::DraftItem>) -> (r: Vec<DraftItem>)
    ensures
        r@.len() == items@.len(),
        forall|i: int| 0 <= i < r@.len() ==> reports_item(#[trigger] r@[i], items@[i]@),
{
    let mut out: Vec<DraftItem> = Vec::new();
    let mut i: usize = 0;
    while i < items.len()
        invariant
            i <= items@.len(),
            out@.len() == i,
            forall|j: int| 0 <= j < i ==> reports_item(#[trigger] out@[j], items@[j]@),
        decreases items@.len() - i,
    {
        out.push(DraftItem::from_item(&items[i]));
        i = i + 1;
    }
    out
}

/// Draft room metadata, as the gateway reports it.
#[derive(Debug)]
pub struct DraftRoomMetadata {
    pub room_name: String,
    pub max_players: u8,
    pub status: RoomStatus,
}

/// One room in the gateway's room listing.
#[derive(Debug)]
pub struct RoomData {
    pub chain_id: String,
    pub room_name: String,
    pub max_players: u8,
    pub current_players: u8,
    pub status: RoomStatus,
}

impl RoomData {
    /// The listing entry for a room that the lobby recorded.
    pub fn from_metadata(chain_id: &ChainId, metadata: &lobby::DraftRoomMetadata, current_players: u8) -> (r:
        RoomData)
        ensures
            r.chain_id@ == hex_of(chain_id.bytes@),
            r.room_name@ == metadata.room_name@,
            r.max_players == metadata.max_players,
            r.current_players == current_players,
            r.status == status_of_record(metadata.status),
    {
        RoomData {
            chain_id: chain_id.to_hex_string(),
            room_name: metadata.room_name.clone(),
            max_players: metadata.max_players,
            current_players,
            status: match metadata.status {
                lobby::RoomStatus::Waiting => RoomStatus::Waiting,
                lobby::RoomStatus::Drafting => RoomStatus::Drafting,
                lobby::RoomStatus::Finished => RoomStatus::Finished,
            },
        }
    }
}

/// The full state of one room, as the gateway reports it.
#[derive(Debug)]
pub struct DraftRoomState {
    pub chain_id: String,
    pub players: Vec<String>,
    pub max_players: u8,
    pub current_turn: u8,
    pub round: u8,
    pub max_rounds: u8,
    pub pool: Vec<DraftItem>,
    pub status: RoomStatus,
}

impl DraftRoomState {
    /// The report of a room's roster, turn, round, pool and status; players
    /// are written as their owners in hexadecimal.
    pub fn from_room(chain_id: &ChainId, room: &DraftRoom) -> (r: DraftRoomState)
        ensures
            r.chain_id@ == hex_of(chain_id.bytes@),
            r.players@.len() == room.players@.len(),
            forall|i: int|
                0 <= i < r.players@.len() ==> #[trigger] r.players@[i]@ == hex_of(
                    room.players@[i].bytes@,
                ),
            r.max_players == room.max_players,
            r.current_turn == room.current_turn,
            r.round == room.round,
            r.max_rounds == room.max_rounds,
            r.pool@.len() == room.pool@.len(),
            forall|i: int| 0 <= i < r.pool@.len() ==> reports_item(#[trigger] r.pool@[i], room.pool@[i]@),
            r.status == status_of(room.status),
    {
        let mut players: Vec<String> = Vec::new();
        let mut i: usize = 0;
        while i < room.players.len()
            invariant
                i <= room.players@.len(),
                players@.len() == i,
                forall|j: int|
                    0 <= j < i ==> #[trigger] players@[j]@ == hex_of(room.players@[j].bytes@),
            decreases room.players@.len() - i,
        {
            players.push(room.players[i].to_hex_string());
            i = i + 1;
        }
        DraftRoomState {
            chain_id: chain_id.to_hex_string(),
            players,
            max_players: room.max_players,
            current_turn: room.current_turn,
            round: room.round,
            max_rounds: room.max_rounds,
            pool: report_items(&room.pool),
            status: match room.status {
                DraftStatus::Waiting => RoomStatus::Waiting,
                DraftStatus::Drafting => RoomStatus::Drafting,
                DraftStatus::Finished => RoomStatus::Finished,
            },
        }
    }
}

/// One player's picks, as the gateway reports them.
#[derive(Debug)]
pub struct PlayerPicks {
    pub player: String,
    pub items: Vec<DraftItem>,
}

impl PlayerPicks {
    /// The picks of `player` in the room, in the order picked; none for
    /// someone who has not joined.
    pub fn of_player(room: &DraftRoom, player: &Owner) -> (r: PlayerPicks)
        requires
            room@.wf(),
        ensures
            r.player@ == hex_of(player.bytes@),
            room@.players.contains(*player) ==> exists|k: int|
                0 <= k < room@.players.len() && room@.players[k] == *player && r.items@.len()
                    == room@.picks[k].len() && forall|i: int|
                    0 <= i < r.items@.len() ==> reports_item(#[trigger] r.items@[i], room@.picks[k][i]),
            !room@.players.contains(*player) ==> r.items@.len() == 0,
    {
        let mut k: usize = 0;
        while k < room.players.len()
            invariant
                k <= room.players@.len(),
                room@.wf(),
                forall|j: int| 0 <= j < k ==> room.players@[j] != *player,
            decreases room.players@.len() - k,
        {
            if room.players[k] == *player {
                let items = report_items(&room.picks[k]);
                proof {
                    assert(room@.picks[k as int] == draft_room::items_view(room.picks@[k as int]@));
                }
                return PlayerPicks { player: player.to_hex_string(), items };
            }
            k = k + 1;
        }
        PlayerPicks { player: player.to_hex_string(), items: Vec::new() }
    }
}

/// The input of a room creation.
#[derive(Debug)]
pub struct CreateRoomInput {
    pub room_name: String,
    pub max_players: u8,
}

/// The input of a pick: the item's id as clients send it.
#[derive(Debug)]
pub struct PickItemInput {
    pub item_id: u32,
}

/// The result of a mutation, as the gateway reports it.
#[derive(Debug)]
pub struct OperationResult {
    pub success: bool,
    pub message: String,
    pub transaction_hash: Option<String>,
}

} // verus!
