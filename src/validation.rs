//! Room names: letters, digits and underscores, one to fifty of them.

use vstd::prelude::*;
use crate::error::Error;
use crate::text::{chars_of, push_str, string_of};

verus! {

/// Longest room name accepted.
pub const MAX_ROOM_NAME_LEN: usize = 50;

/// A character allowed in a room name: an ASCII letter or digit, or `_`.
pub open spec fn is_room_char(c: char) -> bool {
    ('a' <= c && c <= 'z') || ('A' <= c && c <= 'Z') || ('0' <= c && c <= '9') || c == '_'
}

/// Whether `name` is a valid room name.
pub open spec fn is_valid_room_name(name: Seq<char>) -> bool {
    &&& 1 <= name.len() <= MAX_ROOM_NAME_LEN
    &&& forall|i: int| 0 <= i < name.len() ==> is_room_char(#[trigger] name[i])
}

/// Accepts a valid room name; rejects any other with `InvalidRoomName`.
pub fn validate_room_name(room: &str) -> (r: Result<(), Error>)
    ensures
        r is Ok <==> is_valid_room_name(room@),
        r is Err ==> r matches Err(Error::InvalidRoomName(_)),
{
    let cs = chars_of(room);
    if cs.len() == 0 {
        return Err(Error::InvalidRoomName("Room name cannot be empty".to_owned()));
    }
    let mut i: usize = 0;
    while i < cs.len()
        invariant
            i <= cs@.len(),
            cs@ == room@,
            forall|j: int| 0 <= j < i ==> is_room_char(#[trigger] cs@[j]),
        decreases cs@.len() - i,
    {
        let c = cs[i];
        if !(('a' <= c && c <= 'z') || ('A' <= c && c <= 'Z') || ('0' <= c && c <= '9') || c == '_') {
            let mut msg: Vec<char> = Vec::new();
            push_str(&mut msg, "Room name '");
            push_str(&mut msg, room);
            push_str(&mut msg, "' contains invalid characters. Only letters, numbers, and underscores are allowed.");
            return Err(Error::InvalidRoomName(string_of(&msg)));
        }
        i = i + 1;
    }
    if cs.len() > MAX_ROOM_NAME_LEN {
        let mut msg: Vec<char> = Vec::new();
        push_str(&mut msg, "Room name '");
        push_str(&mut msg, room);
        push_str(&mut msg, "' is too long (max 50 characters)");
        return Err(Error::InvalidRoomName(string_of(&msg)));
    }
    Ok(())
}

} // verus!
