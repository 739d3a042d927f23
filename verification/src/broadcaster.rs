//! Status broadcaster: turns successive snapshots of one job into the
//! stream messages a subscribed client sees. Each poll diffs the fresh
//! snapshot against what was last sent and emits, in order: a status
//! update on change, a progress update on change, one log message per new
//! log entry, and a closing message when the job has reached a terminal
//! state. The socket itself lives outside the crate.

use vstd::prelude::*;

use crate::model::{is_terminal, BuildJob, BuildLog, BuildStatus, MessageType};

verus! {

/// Payload of one stream message.
pub enum MessageData {
    /// A status change.
    Status { status: BuildStatus },
    /// The first message after subscribing: status and progress together.
    StatusWithProgress { status: BuildStatus, progress: u8 },
    /// A progress change.
    Progress { progress: u8 },
    /// One new log entry.
    Log { entry: BuildLog },
    /// Terminal success, carrying the download URL.
    Done { download_url: Option<String> },
    /// Terminal failure, carrying the captured error.
    Failure { error: Option<String> },
}

/// One stream message: job, kind, payload.
pub struct WebSocketMessage {
    pub job_id: u128,
    pub type_: MessageType,
    pub data: MessageData,
}

/// What one subscriber has last been sent.
pub struct BroadcastState {
    pub last_status: BuildStatus,
    pub last_progress: u8,
    pub sent_logs: usize,
}

/// The status-update message for a snapshot.
pub open spec fn status_msg(j: BuildJob) -> WebSocketMessage {
    WebSocketMessage {
        job_id: j.id,
        type_: MessageType::StatusUpdate,
        data: MessageData::Status { status: j.status },
    }
}

/// The progress-update message for a snapshot.
pub open spec fn progress_msg(j: BuildJob) -> WebSocketMessage {
    WebSocketMessage {
        job_id: j.id,
        type_: MessageType::ProgressUpdate,
        data: MessageData::Progress { progress: j.progress },
    }
}

/// The message for log entry `k` of a snapshot.
pub open spec fn log_msg(j: BuildJob, k: int) -> WebSocketMessage {
    WebSocketMessage {
        job_id: j.id,
        type_: MessageType::LogMessage,
        data: MessageData::Log { entry: j.logs@[k] },
    }
}

/// The closing message of a completed job, carrying its download URL.
pub open spec fn done_msg(j: BuildJob) -> WebSocketMessage {
    WebSocketMessage {
        job_id: j.id,
        type_: MessageType::Completed,
        data: MessageData::Done { download_url: j.download_url },
    }
}

/// The closing message of a failed job, carrying the captured error.
pub open spec fn error_msg(j: BuildJob) -> WebSocketMessage {
    WebSocketMessage {
        job_id: j.id,
        type_: MessageType::Error,
        data: MessageData::Failure { error: j.error },
    }
}

/// The first unsent log index: everything before it has been sent, capped
/// at the snapshot's log length.
pub open spec fn log_start(bs: BroadcastState, j: BuildJob) -> int {
    if bs.sent_logs <= j.logs@.len() {
        bs.sent_logs as int
    } else {
        j.logs@.len() as int
    }
}

/// Everything one poll emits for a snapshot, in order: status change,
/// progress change, new log entries, then the closing message if the job
/// is terminal.
pub open spec fn spec_messages(bs: BroadcastState, j: BuildJob) -> Seq<WebSocketMessage> {
    (if j.status != bs.last_status {
        seq![status_msg(j)]
    } else {
        Seq::empty()
    }) + (if j.progress != bs.last_progress {
        seq![progress_msg(j)]
    } else {
        Seq::empty()
    }) + Seq::new((j.logs@.len() - log_start(bs, j)) as nat, |i: int| log_msg(j, log_start(bs, j) + i))
        + (if j.status == BuildStatus::Completed {
        seq![done_msg(j)]
    } else if j.status == BuildStatus::Failed {
        seq![error_msg(j)]
    } else {
        Seq::empty()
    })
}

/// The first message a fresh subscriber receives: the job's current
/// status and progress together.
pub fn initial_message(j: &BuildJob) -> (m: WebSocketMessage)
    ensures
        m.job_id == j.id,
        m.type_ == MessageType::StatusUpdate,
        m.data == (MessageData::StatusWithProgress { status: j.status, progress: j.progress }),
{
    WebSocketMessage {
        job_id: j.id,
        type_: MessageType::StatusUpdate,
        data: MessageData::StatusWithProgress { status: j.status, progress: j.progress },
    }
}

/// The diff state of a subscriber that has just been sent the initial
/// message: nothing of this snapshot is news any more.
pub fn start_broadcast(j: &BuildJob) -> (bs: BroadcastState)
    ensures
        bs.last_status == j.status,
        bs.last_progress == j.progress,
        bs.sent_logs == j.logs@.len(),
{
    BroadcastState {
        last_status: j.status,
        last_progress: j.progress,
        sent_logs: j.logs.len(),
    }
}

/// One poll of the broadcaster: diff the snapshot against what was last
/// sent and emit exactly `spec_messages`; the second component says
/// whether the loop stops — on a terminal snapshot, or with no message at
/// all when the job has disappeared.
pub fn broadcast_step(bs: &mut BroadcastState, snapshot: Option<&BuildJob>) -> (out: (
    Vec<WebSocketMessage>,
    bool,
))
    ensures
        match snapshot {
            None => out.0@.len() == 0 && out.1 && *final(bs) == *old(bs),
            Some(j) => {
                &&& out.0@ == spec_messages(*old(bs), *j)
                &&& out.1 == is_terminal(j.status)
                &&& final(bs).last_status == j.status
                &&& final(bs).last_progress == j.progress
                &&& final(bs).sent_logs == j.logs@.len()
            },
        },
{
    match snapshot {
        None => (Vec::new(), true),
        Some(j) => {
            let mut msgs: Vec<WebSocketMessage> = Vec::new();
            let ghost pre = *bs;
            if !(j.status == bs.last_status) {
                msgs.push(
                    WebSocketMessage {
                        job_id: j.id,
                        type_: MessageType::StatusUpdate,
                        data: MessageData::Status { status: j.status },
                    },
                );
            }
            let ghost part1 = msgs@;
            proof {
                assert(part1 =~= (if j.status != pre.last_status {
                    seq![status_msg(*j)]
                } else {
                    Seq::<WebSocketMessage>::empty()
                }));
            }
            if !(j.progress == bs.last_progress) {
                msgs.push(
                    WebSocketMessage {
                        job_id: j.id,
                        type_: MessageType::ProgressUpdate,
                        data: MessageData::Progress { progress: j.progress },
                    },
                );
            }
            let ghost part2 = msgs@;
            proof {
                assert(part2 =~= part1 + (if j.progress != pre.last_progress {
                    seq![progress_msg(*j)]
                } else {
                    Seq::<WebSocketMessage>::empty()
                }));
            }
            let n = j.logs.len();
            let start = if bs.sent_logs <= n {
                bs.sent_logs
            } else {
                n
            };
            proof {
                assert(start as int == log_start(pre, *j));
            }
            let mut k = start;
            while k < n
                invariant
                    start <= k <= n,
                    n == j.logs@.len(),
                    msgs@ == part2 + Seq::new(
                        (k - start) as nat,
                        |i: int| log_msg(*j, start + i),
                    ),
                decreases n - k,
            {
                let e = &j.logs[k];
                msgs.push(
                    WebSocketMessage {
                        job_id: j.id,
                        type_: MessageType::LogMessage,
                        data: MessageData::Log {
                            entry: BuildLog {
                                timestamp: e.timestamp,
                                level: e.level,
                                message: e.message.clone(),
                            },
                        },
                    },
                );
                proof {
                    assert(msgs@ =~= part2 + Seq::new(
                        (k + 1 - start) as nat,
                        |i: int| log_msg(*j, start + i),
                    ));
                }
                k += 1;
            }
            let stop: bool;
            if j.status == BuildStatus::Completed {
                let url = match &j.download_url {
                    Some(u) => Some(u.clone()),
                    None => None,
                };
                msgs.push(
                    WebSocketMessage {
                        job_id: j.id,
                        type_: MessageType::Completed,
                        data: MessageData::Done { download_url: url },
                    },
                );
                stop = true;
            } else if j.status == BuildStatus::Failed {
                let err = match &j.error {
                    Some(e) => Some(e.clone()),
                    None => None,
                };
                msgs.push(
                    WebSocketMessage {
                        job_id: j.id,
                        type_: MessageType::Error,
                        data: MessageData::Failure { error: err },
                    },
                );
                stop = true;
            } else {
                stop = false;
            }
            bs.last_status = j.status;
            bs.last_progress = j.progress;
            bs.sent_logs = n;
            proof {
                assert(msgs@ =~= spec_messages(pre, *j));
            }
            (msgs, stop)
        },
    }
}

/// Law: a broadcaster handed a completed snapshot emits a final message
/// of kind `Completed` carrying the job's download URL and stops; handed
/// a failed snapshot it emits a final `Error` message and stops.
pub proof fn lemma_broadcast_terminal(bs: BroadcastState, j: BuildJob)
    ensures
        j.status == BuildStatus::Completed ==> spec_messages(bs, j).len() >= 1 && spec_messages(
            bs,
            j,
        ).last() == done_msg(j),
        j.status == BuildStatus::Failed ==> spec_messages(bs, j).len() >= 1 && spec_messages(
            bs,
            j,
        ).last() == error_msg(j),
{
    if j.status == BuildStatus::Completed {
        let m = spec_messages(bs, j);
        assert(m.last() == done_msg(j));
    }
    if j.status == BuildStatus::Failed {
        let m = spec_messages(bs, j);
        assert(m.last() == error_msg(j));
    }
}

/// An inbound frame from the client side of the stream.
pub enum InboundFrame {
    Text(String),
    Binary(Vec<u8>),
    Ping(Vec<u8>),
    Pong(Vec<u8>),
    Close,
}

/// What the server does with an inbound frame.
pub enum ControlAction {
    /// Answer a ping with this pong payload.
    Reply(Vec<u8>),
    /// Application-level payloads are ignored: the stream is server-push.
    Ignore,
    /// The client closed; stop this subscriber's loop.
    Stop,
}

/// The control protocol of the stream: ping begets pong, close ends the
/// loop, everything else is ignored.
pub fn control_reply(frame: InboundFrame) -> (r: ControlAction)
    ensures
        match frame {
            InboundFrame::Ping(p) => r matches ControlAction::Reply(q) && q@ == p@,
            InboundFrame::Close => r == ControlAction::Stop,
            InboundFrame::Text(_) => r == ControlAction::Ignore,
            InboundFrame::Binary(_) => r == ControlAction::Ignore,
            InboundFrame::Pong(_) => r == ControlAction::Ignore,
        },
{
    match frame {
        InboundFrame::Ping(p) => ControlAction::Reply(p),
        InboundFrame::Close => ControlAction::Stop,
        _ => ControlAction::Ignore,
    }
}

} // verus!
