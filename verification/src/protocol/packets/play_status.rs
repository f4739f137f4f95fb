//! The play status packet, which the server sends.

use vstd::prelude::*;
use crate::protodef::endian::{i32_be_at, i32_be_bytes, lemma_i32_be_roundtrip, vec_write_i32_be};

verus! {

/// The outcome a play status packet reports.
#[derive(Debug, Clone, Copy, PartialEq, Eq, Structural)]
pub enum Status {
    LoginSuccess,
    FailedClient,
    FailedSpawn,
    PlayerSpawn,
    FailedInvalidTenant,
    FailedVanillaEdu,
    FailedEduVanilla,
    FailedServerFull,
    FailedEditorVanillaMismatch,
    FailedVanillaEditorMismatch,
}

/// The number a status goes by on the wire: its place in the list, from 0.
pub open spec fn status_code(s: Status) -> i32 {
    match s {
        Status::LoginSuccess => 0,
        Status::FailedClient => 1,
        Status::FailedSpawn => 2,
        Status::PlayerSpawn => 3,
        Status::FailedInvalidTenant => 4,
        Status::FailedVanillaEdu => 5,
        Status::FailedEduVanilla => 6,
        Status::FailedServerFull => 7,
        Status::FailedEditorVanillaMismatch => 8,
        Status::FailedVanillaEditorMismatch => 9,
    }
}

/// The body of a play status packet: the status code as a big-endian `i32`.
pub open spec fn play_status_bytes(s: Status) -> Seq<u8> {
    i32_be_bytes(status_code(s))
}

/// The statuses in the order `Status` declares them.
pub open spec fn declared_statuses() -> Seq<Status> {
    seq![
        Status::LoginSuccess,
        Status::FailedClient,
        Status::FailedSpawn,
        Status::PlayerSpawn,
        Status::FailedInvalidTenant,
        Status::FailedVanillaEdu,
        Status::FailedEduVanilla,
        Status::FailedServerFull,
        Status::FailedEditorVanillaMismatch,
        Status::FailedVanillaEditorMismatch,
    ]
}

/// The status law: every status is in the declared list, and the body of a
/// play status packet, read as a big-endian `i32`, is the status's place in
/// that list (so distinct statuses give distinct bodies).
pub proof fn lemma_play_status_code(s: Status)
    ensures
        exists|i: int| 0 <= i < 10 && declared_statuses()[i] == s,
        forall|i: int|
            0 <= i < 10 ==> i32_be_at(#[trigger] play_status_bytes(declared_statuses()[i]), 0)
                == i,
{
    match s {
        Status::LoginSuccess => assert(declared_statuses()[0] == s),
        Status::FailedClient => assert(declared_statuses()[1] == s),
        Status::FailedSpawn => assert(declared_statuses()[2] == s),
        Status::PlayerSpawn => assert(declared_statuses()[3] == s),
        Status::FailedInvalidTenant => assert(declared_statuses()[4] == s),
        Status::FailedVanillaEdu => assert(declared_statuses()[5] == s),
        Status::FailedEduVanilla => assert(declared_statuses()[6] == s),
        Status::FailedServerFull => assert(declared_statuses()[7] == s),
        Status::FailedEditorVanillaMismatch => assert(declared_statuses()[8] == s),
        Status::FailedVanillaEditorMismatch => assert(declared_statuses()[9] == s),
    }
    assert forall|i: int|
        0 <= i < 10 implies i32_be_at(#[trigger] play_status_bytes(declared_statuses()[i]), 0)
        == i by {
        let st = declared_statuses()[i];
        lemma_i32_be_roundtrip(status_code(st), Seq::empty());
        assert(i32_be_bytes(status_code(st)) + Seq::<u8>::empty() =~= play_status_bytes(st));
        assert(status_code(st) == i);
    }
}

pub(crate) fn status_as_i32(s: Status) -> (r: i32)
    ensures
        r == status_code(s),
{
    match s {
        Status::LoginSuccess => 0,
        Status::FailedClient => 1,
        Status::FailedSpawn => 2,
        Status::PlayerSpawn => 3,
        Status::FailedInvalidTenant => 4,
        Status::FailedVanillaEdu => 5,
        Status::FailedEduVanilla => 6,
        Status::FailedServerFull => 7,
        Status::FailedEditorVanillaMismatch => 8,
        Status::FailedVanillaEditorMismatch => 9,
    }
}

/// A play status packet.
#[derive(Debug, Clone, Copy, PartialEq, Eq, Structural)]
pub struct PlayStatus {
    pub status: Status,
}

impl PlayStatus {
    /// Appends the body of `packet` to `buffer`.
    pub fn compose(buffer: &mut Vec<u8>, packet: Self) -> (r: std::io::Result<()>)
        ensures
            r is Ok,
            final(buffer)@ == old(buffer)@ + play_status_bytes(packet.status),
    {
        let _ = vec_write_i32_be(buffer, status_as_i32(packet.status));
        Ok(())
    }
}

} // verus!
