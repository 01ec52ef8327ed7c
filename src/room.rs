//! Rooms, their membership categories, and the session that owns them.
use vstd::prelude::*;

verus! {

/// The local user's membership category in a room.
#[derive(Clone, Copy, Debug, PartialEq, Eq, Structural)]
pub enum RoomType {
    Joined,
    Left,
    Invited,
}

/// A logged-in session: who the user is and the handle to act for them.
#[derive(Clone, Debug)]
pub struct Session {
    pub access_token: String,
    pub user_id: String,
    pub device_id: String,
}

/// The persisted summary of one room.
#[derive(Clone, Debug)]
pub struct RoomInfo {
    pub room_id: String,
    pub room_type: RoomType,
}

/// A live room as the cache hands it out.
#[derive(Clone, Debug)]
pub struct Room {
    room_id: String,
    own_user_id: String,
    room_type: RoomType,
}

/// The abstract value of a room: its id, the local user's id, its category.
pub struct RoomModel {
    pub room_id: Seq<char>,
    pub own_user_id: Seq<char>,
    pub room_type: RoomType,
}

impl Room {
    pub closed spec fn view(&self) -> RoomModel {
        RoomModel { room_id: self.room_id@, own_user_id: self.own_user_id@, room_type: self.room_type }
    }

    /// A fresh room with the given identity.
    pub fn new(own_user_id: &String, room_id: &String, room_type: RoomType) -> (r: Room)
        ensures
            r.view() == (RoomModel { room_id: room_id@, own_user_id: own_user_id@, room_type }),
    {
        Room { room_id: room_id.clone(), own_user_id: own_user_id.clone(), room_type }
    }

    /// The room that a persisted summary describes.
    pub fn restore(own_user_id: &String, info: &RoomInfo) -> (r: Room)
        ensures
            r.view() == (RoomModel {
                room_id: info.room_id@,
                own_user_id: own_user_id@,
                room_type: info.room_type,
            }),
    {
        Room::new(own_user_id, &info.room_id, info.room_type)
    }

    pub fn room_id(&self) -> (r: &String)
        ensures
            r@ == self.view().room_id,
    {
        &self.room_id
    }

    pub fn own_user_id(&self) -> (r: &String)
        ensures
            r@ == self.view().own_user_id,
    {
        &self.own_user_id
    }

    pub fn room_type(&self) -> (r: RoomType)
        ensures
            r == self.view().room_type,
    {
        self.room_type
    }
}

} // verus!
