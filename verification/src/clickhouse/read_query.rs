//! Who owns the capacity of a read: the read itself until its reply was read to the end, and after
//! that nobody; a read that is abandoned keeps it until the server was seen without it.
use vstd::prelude::*;

use crate::clickhouse::disconnect::{setting, DisconnectGuard};
use crate::processing::ProcessingError;
use crate::text;

verus! {

/// How many reads an endpoint admits at a time: as configured, and never none.
pub fn endpoint_capacity(capacity: usize) -> (r: usize)
    ensures
        r == (if capacity == 0 {
            1
        } else {
            capacity
        }),
{
    if capacity == 0 {
        1
    } else {
        capacity
    }
}

/// Reads are admitted only once watching them was prepared.
pub fn require_ready(ready: bool) -> (r: Result<(), ProcessingError>)
    ensures
        if ready {
            r is Ok
        } else {
            &&& r matches Err(e)
            &&& e is Database
            &&& e.context() == "ClickHouse read cancellation is not initialized"@
        },
{
    if ready {
        Ok(())
    } else {
        Err(
            ProcessingError::database_msg(
                "ClickHouse read cancellation is not initialized".to_owned(),
            ),
        )
    }
}

/// What came of waiting for capacity.
#[derive(Debug)]
pub enum Admission<P> {
    Granted(P),
    TimedOut,
    Closed,
}

/// Begins a read with its capacity, under the given name or else under the next free one. Nothing is
/// submitted yet.
pub fn begin_read<P>(admission: Admission<P>, id: Option<String>, next_id: String) -> (r: Result<
    DisconnectGuard<P>,
    ProcessingError,
>)
    ensures
        match admission {
            Admission::Granted(permit) => r == Ok::<DisconnectGuard<P>, ProcessingError>(
                DisconnectGuard {
                    query_id: match id {
                        Some(given) => given,
                        None => next_id,
                    },
                    permit: Some(permit),
                    submitted: false,
                },
            ),
            Admission::TimedOut => r matches Err(e) && e is Timeout && e.context()
                == "ClickHouse read admission"@,
            Admission::Closed => r matches Err(e) && e is Database && e.context()
                == "ClickHouse read admission closed"@,
        },
{
    match admission {
        Admission::Granted(permit) => {
            let query_id = match id {
                Some(given) => given,
                None => next_id,
            };
            Ok(DisconnectGuard { query_id, permit: Some(permit), submitted: false })
        },
        Admission::TimedOut => Err(
            ProcessingError::timeout_msg("ClickHouse read admission".to_owned()),
        ),
        Admission::Closed => Err(
            ProcessingError::database_msg("ClickHouse read admission closed".to_owned()),
        ),
    }
}

impl<P> DisconnectGuard<P> {
    /// Takes a setting of the query: its name is the one that is watched for.
    pub fn with_setting(&mut self, name: &str, value: &str)
        ensures
            final(self).permit == old(self).permit,
            final(self).submitted == old(self).submitted,
            final(self).query_id@ == (if name@ == "query_id"@ {
                value@
            } else {
                old(self).query_id@
            }),
    {
        if text::text_eq(name, "query_id") {
            self.query_id = value.to_owned();
        }
    }

    /// Takes whether the query could be begun. One that could not gives its capacity back.
    pub fn opened(&mut self, ok: bool)
        ensures
            *final(self) == (if ok {
                DisconnectGuard { submitted: true, ..*old(self) }
            } else {
                DisconnectGuard { permit: None, ..*old(self) }
            }),
    {
        if ok {
            self.submitted();
        } else {
            self.disarm();
        }
    }
}

/// The texts of settings.
pub open spec fn settings_texts(settings: Seq<(String, String)>) -> Seq<(Seq<char>, Seq<char>)> {
    Seq::new(settings.len(), |i: int| (settings[i].0@, settings[i].1@))
}

/// The settings by which the server ends a read when its connection is closed. The read changes
/// nothing.
pub open spec fn protecting() -> Seq<(Seq<char>, Seq<char>)> {
    seq![("readonly"@, "2"@), ("cancel_http_readonly_queries_on_client_close"@, "1"@)]
}

/// The settings of a read that is watched.
pub fn read_settings(query_id: &str) -> (r: Vec<(String, String)>)
    ensures
        settings_texts(r@) == seq![("query_id"@, query_id@)] + protecting(),
{
    let mut r: Vec<(String, String)> = Vec::new();
    r.push(setting("query_id", query_id));
    r.push(setting("readonly", "2"));
    r.push(setting("cancel_http_readonly_queries_on_client_close", "1"));
    proof {
        assert(settings_texts(r@) =~= seq![("query_id"@, query_id@)] + protecting());
    }
    r
}

/// What reading on brought.
#[derive(Clone, Copy, Debug, PartialEq, Eq, Structural)]
pub enum CursorEvent {
    /// A row.
    Row,
    /// The end of the reply.
    End,
    /// A failure, or too long a wait.
    Failed,
}

/// A reply that is being read.
#[derive(Debug)]
pub struct ReadCursorState<P> {
    pub open: bool,
    pub guard: Option<DisconnectGuard<P>>,
}

impl<P> ReadCursorState<P> {
    /// Whether it can be read on. One that failed cannot.
    pub fn may_read(&self) -> (r: Result<(), ProcessingError>)
        ensures
            if self.open {
                r is Ok
            } else {
                &&& r matches Err(e)
                &&& e is Database
                &&& e.context() == "read cursor already failed"@
            },
    {
        if self.open {
            Ok(())
        } else {
            Err(ProcessingError::database_msg("read cursor already failed".to_owned()))
        }
    }

    /// Takes what reading on brought. At the end the capacity is given back; after a failure the
    /// connection is closed, and the read, which is returned, is abandoned.
    pub fn observe(&mut self, event: CursorEvent) -> (r: Option<DisconnectGuard<P>>)
        ensures
            match event {
                CursorEvent::Row => r is None && *final(self) == *old(self),
                CursorEvent::End => {
                    &&& r is None
                    &&& final(self).open == old(self).open
                    &&& final(self).guard == (match old(self).guard {
                        Some(guard) => Some(DisconnectGuard { permit: None, ..guard }),
                        None => None,
                    })
                },
                CursorEvent::Failed => {
                    &&& r == old(self).guard
                    &&& !final(self).open
                    &&& final(self).guard is None
                },
            },
    {
        match event {
            CursorEvent::Row => None,
            CursorEvent::End => {
                let taken = self.guard.take();
                self.guard = match taken {
                    Some(guard) => {
                        let mut disarmed = guard;
                        disarmed.disarm();
                        Some(disarmed)
                    },
                    None => None,
                };
                None
            },
            CursorEvent::Failed => {
                self.open = false;
                self.guard.take()
            },
        }
    }
}

/// What reading on for a single row brought.
#[derive(Debug)]
pub enum RowReply<T> {
    /// A row.
    Row(T),
    /// The end of the reply.
    End,
    /// A failure, or too long a wait.
    Failed(ProcessingError),
}

/// What follows.
#[derive(Debug)]
pub enum FirstRowNext<T> {
    /// The reply is read on, with this first row so far.
    ReadOn(Option<T>),
    /// This is the row, where there is one.
    Answer(Option<T>),
    /// The failure is reported.
    Fail(ProcessingError),
}

/// The first row after one more.
pub open spec fn first_kept<T>(first: Option<T>, row: T) -> Option<T> {
    match first {
        Some(kept) => Some(kept),
        None => Some(row),
    }
}

/// Takes what reading on brought. The first row counts once the reply has been read to its end; a
/// failure before that is reported whatever was read.
pub fn first_row_next<T>(first: Option<T>, reply: RowReply<T>) -> (r: FirstRowNext<T>)
    ensures
        r == (match reply {
            RowReply::Row(row) => FirstRowNext::ReadOn(first_kept(first, row)),
            RowReply::End => FirstRowNext::Answer(first),
            RowReply::Failed(e) => FirstRowNext::Fail(e),
        }),
{
    match reply {
        RowReply::Row(row) => match first {
            Some(kept) => FirstRowNext::ReadOn(Some(kept)),
            None => FirstRowNext::ReadOn(Some(row)),
        },
        RowReply::End => FirstRowNext::Answer(first),
        RowReply::Failed(e) => FirstRowNext::Fail(e),
    }
}

/// The first row after some rows.
pub open spec fn first_of<T>(rows: Seq<T>) -> Option<T>
    decreases rows.len(),
{
    if rows.len() == 0 {
        None
    } else {
        first_kept(first_of(rows.drop_last()), rows.last())
    }
}

/// Of a reply that was read row by row, the first row is kept, where there is one.
pub proof fn law_first_row_is_kept<T>(rows: Seq<T>)
    ensures
        first_of(rows) == (if rows.len() == 0 {
            None
        } else {
            Some(rows[0])
        }),
    decreases rows.len(),
{
    if rows.len() > 0 {
        law_first_row_is_kept(rows.drop_last());
    }
}

/// A protected read changes nothing on the server, and ends there with its connection.
pub proof fn law_protected_reads_end_with_their_connection()
    ensures
        protecting().contains(("readonly"@, "2"@)),
        protecting().contains(("cancel_http_readonly_queries_on_client_close"@, "1"@)),
        protecting().len() == 2,
{
    assert(protecting()[0] == ("readonly"@, "2"@));
    assert(protecting()[1] == ("cancel_http_readonly_queries_on_client_close"@, "1"@));
}

} // verus!
