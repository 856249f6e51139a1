//! Downloading a file: which call follows which, and what came of it.

use vstd::prelude::*;

use crate::text;
use crate::text::push_decimal;

verus! {

/// The address of the community list.
pub const DEFAULT_GAME_LIST_URL: &'static str = "https://raw.githubusercontent.com/noahz123/HDR-Auto/main/games_default.txt";

/// How long connecting, sending and receiving may each take, in milliseconds.
pub const GAME_LIST_DOWNLOAD_TIMEOUT_MS: u32 = 5000;

/// The HTTP status of success.
pub const HTTP_STATUS_OK: u32 = 200;

/// Why a download failed.
#[derive(Clone, Copy, Debug, PartialEq, Eq, Structural)]
pub enum DownloadError {
    /// A call failed; the operating system knows why.
    Os,
    /// The server answered with this HTTP status.
    HttpStatus(u32),
}

/// What a call of a download gave.
#[derive(Debug)]
pub struct DownloadReply {
    /// The call succeeded.
    pub ok: bool,
    /// The HTTP status, where it was asked for.
    pub status: u32,
    /// The bytes that were read, where some were asked for.
    pub chunk: Vec<u8>,
}

/// The next call of a download, or its end.
#[derive(Debug)]
pub enum DownloadStep {
    /// Open a session.
    OpenSession,
    /// Open the address in the session.
    OpenUrl,
    /// Ask for the HTTP status.
    AskStatus,
    /// Read more; these bytes have been read.
    Read { bytes: Vec<u8> },
    /// The whole file has been read.
    Done { bytes: Vec<u8> },
    /// The download failed.
    Failed(DownloadError),
}

/// The next call of a download, or its end, with the bytes as a sequence.
pub enum DownloadStage {
    OpenSession,
    OpenUrl,
    AskStatus,
    Read(Seq<u8>),
    Done(Seq<u8>),
    Failed(DownloadError),
}

impl View for DownloadStep {
    type V = DownloadStage;

    open spec fn view(&self) -> DownloadStage {
        match *self {
            DownloadStep::OpenSession => DownloadStage::OpenSession,
            DownloadStep::OpenUrl => DownloadStage::OpenUrl,
            DownloadStep::AskStatus => DownloadStage::AskStatus,
            DownloadStep::Read { bytes } => DownloadStage::Read(bytes@),
            DownloadStep::Done { bytes } => DownloadStage::Done(bytes@),
            DownloadStep::Failed(error) => DownloadStage::Failed(error),
        }
    }
}

/// What a call gave, with the bytes as a sequence.
pub struct Reply {
    pub ok: bool,
    pub status: u32,
    pub chunk: Seq<u8>,
}

impl View for DownloadReply {
    type V = Reply;

    open spec fn view(&self) -> Reply {
        Reply { ok: self.ok, status: self.status, chunk: self.chunk@ }
    }
}

/// What follows a call. A call that fails ends the download, and so does an HTTP status other than
/// success. Reading goes on until a call reads nothing.
pub open spec fn download_after(stage: DownloadStage, reply: Reply) -> DownloadStage {
    match stage {
        DownloadStage::Done(_) => stage,
        DownloadStage::Failed(_) => stage,
        _ => if !reply.ok {
            DownloadStage::Failed(DownloadError::Os)
        } else {
            match stage {
                DownloadStage::OpenSession => DownloadStage::OpenUrl,
                DownloadStage::OpenUrl => DownloadStage::AskStatus,
                DownloadStage::AskStatus => if reply.status == HTTP_STATUS_OK {
                    DownloadStage::Read(Seq::empty())
                } else {
                    DownloadStage::Failed(DownloadError::HttpStatus(reply.status))
                },
                DownloadStage::Read(bytes) => if reply.chunk.len() == 0 {
                    DownloadStage::Done(bytes)
                } else {
                    DownloadStage::Read(bytes + reply.chunk)
                },
                _ => stage,
            }
        },
    }
}

/// What follows a call of a download.
pub fn download_bytes(step: DownloadStep, reply: DownloadReply) -> (r: DownloadStep)
    ensures
        r@ == download_after(step@, reply@),
{
    match step {
        DownloadStep::OpenSession => {
            if reply.ok {
                DownloadStep::OpenUrl
            } else {
                DownloadStep::Failed(DownloadError::Os)
            }
        },
        DownloadStep::OpenUrl => {
            if reply.ok {
                DownloadStep::AskStatus
            } else {
                DownloadStep::Failed(DownloadError::Os)
            }
        },
        DownloadStep::AskStatus => match http_status_code(reply.ok, reply.status) {
            Ok(status) => {
                if status != HTTP_STATUS_OK {
                    DownloadStep::Failed(DownloadError::HttpStatus(status))
                } else {
                    let bytes: Vec<u8> = Vec::new();
                    assert(bytes@ =~= Seq::<u8>::empty());
                    DownloadStep::Read { bytes }
                }
            },
            Err(error) => DownloadStep::Failed(error),
        },
        DownloadStep::Read { bytes } => {
            if !reply.ok {
                return DownloadStep::Failed(DownloadError::Os);
            }
            if reply.chunk.len() == 0 {
                return DownloadStep::Done { bytes };
            }
            let mut bytes = bytes;
            let mut chunk = reply.chunk;
            bytes.append(&mut chunk);
            DownloadStep::Read { bytes }
        },
        DownloadStep::Done { bytes } => DownloadStep::Done { bytes },
        DownloadStep::Failed(error) => DownloadStep::Failed(error),
    }
}

/// The HTTP status, where asking for it succeeded.
pub fn http_status_code(ok: bool, status: u32) -> (r: Result<u32, DownloadError>)
    ensures
        r == (if ok {
            Ok::<u32, DownloadError>(status)
        } else {
            Err(DownloadError::Os)
        }),
{
    if ok {
        Ok(status)
    } else {
        Err(DownloadError::Os)
    }
}

/// The message for an HTTP status that is not success.
pub fn http_error_message(status: u32) -> (r: String)
    ensures
        r@ == "default game list download returned HTTP "@ + text::decimal(status as nat),
{
    let mut r: String = "default game list download returned HTTP ".to_string();
    push_decimal(&mut r, status);
    r
}

// ---------------------------------------------------------------------------
// Laws
// ---------------------------------------------------------------------------
/// Where a download stands after calls that gave `replies`.
pub open spec fn download_run(replies: Seq<Reply>) -> DownloadStage
    decreases replies.len(),
{
    if replies.len() == 0 {
        DownloadStage::OpenSession
    } else {
        download_after(download_run(replies.drop_last()), replies.last())
    }
}

/// The bytes that `replies` brought, one after the other.
pub open spec fn joined(replies: Seq<Reply>) -> Seq<u8>
    decreases replies.len(),
{
    if replies.len() == 0 {
        Seq::empty()
    } else {
        joined(replies.drop_last()) + replies.last().chunk
    }
}

/// The first `n` calls succeeded, and the server answered with success.
pub open spec fn went_well(replies: Seq<Reply>, n: int) -> bool {
    &&& 3 <= n <= replies.len()
    &&& replies[2].status == 200
    &&& forall|i: int| 0 <= i < n ==> (#[trigger] replies[i]).ok
}

/// The call with number `n` read nothing, and those before it went well.
pub open spec fn ended_at(replies: Seq<Reply>, n: int) -> bool {
    3 <= n < replies.len() && went_well(replies, n + 1) && replies[n].chunk.len() == 0
}

/// The call with number `n` failed, those before it succeeded, and the server had answered with
/// success where it had answered.
pub open spec fn failed_at(replies: Seq<Reply>, n: int) -> bool {
    &&& 0 <= n < replies.len()
    &&& !replies[n].ok
    &&& forall|i: int| 0 <= i < n ==> (#[trigger] replies[i]).ok
    &&& n > 2 ==> replies[2].status == 200
}

/// A download that is done holds all that was read up to the first call that read nothing, and no
/// call before had failed. So a file is downloaded as a whole or not at all. One that failed did so
/// at the first call that failed, or for the status that the server answered.
pub proof fn a_download_is_whole_or_fails(replies: Seq<Reply>)
    ensures
        match download_run(replies) {
            DownloadStage::OpenSession => replies.len() == 0,
            DownloadStage::OpenUrl => replies.len() == 1 && replies[0].ok,
            DownloadStage::AskStatus => replies.len() == 2 && replies[0].ok && replies[1].ok,
            DownloadStage::Read(bytes) => went_well(replies, replies.len() as int) && bytes == joined(
                replies.skip(3),
            ),
            DownloadStage::Done(bytes) => exists|n: int| #[trigger]
                ended_at(replies, n) && bytes == joined(replies.subrange(3, n)),
            DownloadStage::Failed(DownloadError::Os) => exists|i: int| #[trigger]
                failed_at(replies, i),
            DownloadStage::Failed(DownloadError::HttpStatus(status)) => replies.len() >= 3
                && replies[0].ok && replies[1].ok && replies[2].ok && replies[2].status == status
                && status != 200,
        },
    decreases replies.len(),
{
    if replies.len() > 0 {
        let rest = replies.drop_last();
        let last = replies.last();
        let m = rest.len() as int;
        assert(replies[m] == last);
        a_download_is_whole_or_fails(rest);
        assert forall|i: int| 0 <= i < m implies rest[i] == #[trigger] replies[i] by {}
        match download_run(rest) {
            DownloadStage::Read(bytes) => {
                assert(replies.skip(3).drop_last() =~= rest.skip(3));
                assert forall|i: int| 0 <= i < m implies (#[trigger] replies[i]).ok by {
                    assert(rest[i].ok);
                }
                assert(replies[2] == rest[2]);
                if last.ok {
                    assert(went_well(replies, m + 1));
                    if last.chunk.len() == 0 {
                        assert(replies.subrange(3, m) =~= rest.skip(3));
                        assert(ended_at(replies, m));
                    }
                } else {
                    assert(failed_at(replies, m));
                }
            },
            DownloadStage::Done(bytes) => {
                let n = choose|n: int| #[trigger]
                    ended_at(rest, n) && bytes == joined(rest.subrange(3, n));
                assert(rest.subrange(3, n) =~= replies.subrange(3, n));
                assert forall|i: int| 0 <= i < n + 1 implies (#[trigger] replies[i]).ok by {
                    assert(rest[i].ok);
                }
                assert(replies[2] == rest[2] && replies[n] == rest[n]);
                assert(ended_at(replies, n));
            },
            DownloadStage::Failed(DownloadError::Os) => {
                let n = choose|n: int| #[trigger] failed_at(rest, n);
                assert forall|i: int| 0 <= i < n implies (#[trigger] replies[i]).ok by {
                    assert(rest[i].ok);
                }
                assert(replies[n] == rest[n]);
                if n > 2 {
                    assert(replies[2] == rest[2]);
                }
                assert(failed_at(replies, n));
            },
            DownloadStage::Failed(DownloadError::HttpStatus(status)) => {
                assert(replies[0] == rest[0] && replies[1] == rest[1] && replies[2] == rest[2]);
            },
            _ => {
                if m > 0 {
                    assert(replies[0] == rest[0]);
                }
                if m > 1 {
                    assert(replies[1] == rest[1]);
                }
                if !last.ok {
                    assert forall|i: int| 0 <= i < m implies (#[trigger] replies[i]).ok by {
                        assert(i == 0 || i == 1);
                    }
                    assert(failed_at(replies, m));
                }
            },
        }
    }
}

/// While all calls go well and each reads something, the download goes on with all that was read.
proof fn lemma_reading_goes_on(replies: Seq<Reply>)
    requires
        went_well(replies, replies.len() as int),
        forall|i: int| 3 <= i < replies.len() ==> (#[trigger] replies[i]).chunk.len() > 0,
    ensures
        download_run(replies) == DownloadStage::Read(joined(replies.skip(3))),
    decreases replies.len(),
{
    let rest = replies.drop_last();
    assert(replies[replies.len() - 1].ok);
    if replies.len() == 3 {
        assert(replies[0].ok && replies[1].ok);
        reveal_with_fuel(download_run, 4);
        assert(replies.skip(3) =~= Seq::<Reply>::empty());
    } else {
        assert forall|i: int| 0 <= i < rest.len() implies (#[trigger] rest[i]).ok by {
            assert(replies[i].ok);
        }
        assert forall|i: int| 3 <= i < rest.len() implies (#[trigger] rest[i]).chunk.len() > 0 by {
            assert(replies[i].chunk.len() > 0);
        }
        lemma_reading_goes_on(rest);
        assert(replies.skip(3).drop_last() =~= rest.skip(3));
        assert(replies[replies.len() - 1].chunk.len() > 0);
    }
}

/// A download whose calls go well until one reads nothing is done, with all that was read.
pub proof fn a_good_download_is_done(replies: Seq<Reply>, n: int)
    requires
        ended_at(replies, n),
        forall|i: int| 3 <= i < n ==> (#[trigger] replies[i]).chunk.len() > 0,
    ensures
        download_run(replies) == DownloadStage::Done(joined(replies.subrange(3, n))),
    decreases replies.len(),
{
    let rest = replies.drop_last();
    assert forall|i: int| 0 <= i <= n && i < rest.len() implies (#[trigger] rest[i]).ok by {
        assert(replies[i].ok);
    }
    if n < rest.len() {
        assert(rest[2] == replies[2] && rest[n] == replies[n]);
        assert(ended_at(rest, n));
        a_good_download_is_done(rest, n);
        assert(rest.subrange(3, n) =~= replies.subrange(3, n));
    } else {
        assert(rest[2] == replies[2]);
        assert forall|i: int| 3 <= i < rest.len() implies (#[trigger] rest[i]).chunk.len() > 0 by {
            assert(replies[i].chunk.len() > 0);
        }
        lemma_reading_goes_on(rest);
        assert(rest.skip(3) =~= replies.subrange(3, n));
        assert(replies[n].ok);
    }
}

} // verus!
