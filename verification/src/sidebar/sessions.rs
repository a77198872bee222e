use vstd::prelude::*;

use crate::text::same_text;

verus! {

/// Status of a session.
#[derive(Debug, Clone, Copy, PartialEq, Eq, Structural)]
pub enum SessionStatus {
    Active,
    Finished,
    Error,
}

/// Summary of a single session for display. The cost is carried as the bit pattern of a double.
#[derive(Debug)]
pub struct SessionSummary {
    pub session_id: String,
    pub status: SessionStatus,
    pub turn_count: u32,
    pub total_cost_usd_bits: u64,
}

/// A summary, as mathematical values.
pub struct SummaryModel {
    pub session_id: Seq<char>,
    pub status: SessionStatus,
    pub turn_count: u32,
    pub total_cost_usd_bits: u64,
}

impl View for SessionSummary {
    type V = SummaryModel;

    open spec fn view(&self) -> SummaryModel {
        SummaryModel {
            session_id: self.session_id@,
            status: self.status,
            turn_count: self.turn_count,
            total_cost_usd_bits: self.total_cost_usd_bits,
        }
    }
}

/// Summaries as mathematical values.
pub open spec fn summary_values(sessions: Seq<SessionSummary>) -> Seq<SummaryModel> {
    Seq::new(sessions.len(), |i: int| sessions[i]@)
}

/// The sessions with the status of the first one of the given identifier replaced.
pub open spec fn status_set(
    sessions: Seq<SummaryModel>,
    session_id: Seq<char>,
    status: SessionStatus,
) -> Seq<SummaryModel>
    decreases sessions.len(),
{
    if sessions.len() == 0 {
        sessions
    } else if sessions[0].session_id == session_id {
        sessions.update(0, SummaryModel { status, ..sessions[0] })
    } else {
        seq![sessions[0]] + status_set(sessions.drop_first(), session_id, status)
    }
}

/// Ordered list of sessions with an active selection.
pub struct SessionList {
    sessions: Vec<SessionSummary>,
    active_index: Option<usize>,
}

/// A list of sessions, as mathematical values.
#[verifier::ext_equal]
pub struct SessionListModel {
    pub sessions: Seq<SummaryModel>,
    pub active: Option<int>,
}

impl View for SessionList {
    type V = SessionListModel;

    closed spec fn view(&self) -> SessionListModel {
        SessionListModel {
            sessions: summary_values(self.sessions@),
            active: match self.active_index {
                Some(i) => Some(i as int),
                None => None,
            },
        }
    }
}

impl SessionList {
    pub fn new() -> (list: SessionList)
        ensures
            list@ == (SessionListModel { sessions: Seq::empty(), active: None }),
    {
        let list = SessionList { sessions: Vec::new(), active_index: None };
        assert(list@.sessions =~= Seq::empty());
        list
    }

    /// Add a session, which becomes the active one.
    pub fn add(&mut self, summary: SessionSummary)
        ensures
            final(self)@ == (SessionListModel {
                sessions: old(self)@.sessions.push(summary@),
                active: Some(old(self)@.sessions.len() as int),
            }),
    {
        self.active_index = Some(self.sessions.len());
        self.sessions.push(summary);
        assert(self@.sessions =~= old(self)@.sessions.push(summary@));
    }

    /// Set the status of the first session with the given identifier.
    pub fn update(&mut self, session_id: &str, status: SessionStatus)
        ensures
            final(self)@ == (SessionListModel {
                sessions: status_set(old(self)@.sessions, session_id@, status),
                ..old(self)@
            }),
    {
        let ghost before = self@.sessions;
        let mut i: usize = 0;
        assert(before.skip(0) =~= before);
        assert(before.take(0) + status_set(before, session_id@, status) =~= status_set(
            before,
            session_id@,
            status,
        ));
        while i < self.sessions.len()
            invariant
                i <= self.sessions@.len(),
                self@.sessions == before,
                self.active_index == old(self).active_index,
                before == old(self)@.sessions,
                status_set(before, session_id@, status) == before.take(i as int) + status_set(
                    before.skip(i as int),
                    session_id@,
                    status,
                ),
            decreases self.sessions@.len() - i,
        {
            let ghost rest = before.skip(i as int);
            assert(rest[0] == self.sessions@[i as int]@);
            if same_text(self.sessions[i].session_id.as_str(), session_id) {
                self.sessions[i].status = status;
                assert(self@.sessions =~= before.take(i as int) + rest.update(
                    0,
                    SummaryModel { status, ..rest[0] },
                ));
                return;
            }
            assert(rest.drop_first() =~= before.skip(i + 1));
            i = i + 1;
            assert(before.take(i as int) + status_set(before.skip(i as int), session_id@, status)
                =~= before.take(i - 1) + (seq![rest[0]] + status_set(
                rest.drop_first(),
                session_id@,
                status,
            )));
        }
        assert(before.skip(i as int) =~= Seq::empty());
        assert(before.take(i as int) + Seq::<SummaryModel>::empty() =~= before);
    }

    /// The active session.
    pub fn active(&self) -> (summary: Option<&SessionSummary>)
        ensures
            match summary {
                Some(s) => self@.active matches Some(i) && 0 <= i < self@.sessions.len() && s@
                    == self@.sessions[i],
                None => self@.active matches Some(i) ==> i >= self@.sessions.len(),
            },
    {
        match self.active_index {
            Some(i) => if i < self.sessions.len() {
                Some(&self.sessions[i])
            } else {
                None
            },
            None => None,
        }
    }

    /// The sessions, in the order in which they were added.
    pub fn iter(&self) -> (sessions: &Vec<SessionSummary>)
        ensures
            summary_values(sessions@) == self@.sessions,
    {
        &self.sessions
    }
}

impl Default for SessionList {
    fn default() -> (list: SessionList)
        ensures
            list@ == (SessionListModel { sessions: Seq::empty(), active: None }),
    {
        SessionList::new()
    }
}

/// Setting a status changes no identifier and no count of sessions.
pub proof fn setting_a_status_keeps_the_sessions(
    sessions: Seq<SummaryModel>,
    session_id: Seq<char>,
    status: SessionStatus,
)
    ensures
        status_set(sessions, session_id, status).len() == sessions.len(),
        forall|i: int|
            0 <= i < sessions.len() ==> (#[trigger] status_set(sessions, session_id, status)[i]).session_id
                == sessions[i].session_id,
    decreases sessions.len(),
{
    if sessions.len() > 0 && sessions[0].session_id != session_id {
        let rest = sessions.drop_first();
        setting_a_status_keeps_the_sessions(rest, session_id, status);
        assert forall|i: int| 0 <= i < sessions.len() implies (#[trigger] status_set(
            sessions,
            session_id,
            status,
        )[i]).session_id == sessions[i].session_id by {
            if i > 0 {
                assert(status_set(rest, session_id, status)[i - 1].session_id
                    == rest[i - 1].session_id);
            }
        }
    }
}

/// The first session with the identifier gets the status; all else stays.
pub proof fn the_first_session_gets_the_status(
    sessions: Seq<SummaryModel>,
    session_id: Seq<char>,
    status: SessionStatus,
    i: int,
)
    requires
        0 <= i < sessions.len(),
    ensures
        ({
            let after = status_set(sessions, session_id, status);
            let first = sessions[i].session_id == session_id && forall|k: int|
                0 <= k < i ==> (#[trigger] sessions[k]).session_id != session_id;
            &&& first ==> after[i] == (SummaryModel { status, ..sessions[i] })
            &&& !first ==> after[i] == sessions[i]
        }),
    decreases sessions.len(),
{
    let after = status_set(sessions, session_id, status);
    setting_a_status_keeps_the_sessions(sessions, session_id, status);
    if sessions[0].session_id == session_id {
        assert(i > 0 ==> after[i] == sessions[i]);
    } else if i > 0 {
        let rest = sessions.drop_first();
        the_first_session_gets_the_status(rest, session_id, status, i - 1);
        assert(after[i] == status_set(rest, session_id, status)[i - 1]);
        assert(rest[i - 1] == sessions[i]);
        if forall|k: int| 0 <= k < i ==> (#[trigger] sessions[k]).session_id != session_id {
            assert forall|k: int| 0 <= k < i - 1 implies (#[trigger] rest[k]).session_id
                != session_id by {
                assert(rest[k] == sessions[k + 1]);
            }
        }
        if forall|k: int| 0 <= k < i - 1 ==> (#[trigger] rest[k]).session_id != session_id {
            assert forall|k: int| 0 <= k < i implies (#[trigger] sessions[k]).session_id
                != session_id by {
                if k > 0 {
                    assert(rest[k - 1] == sessions[k]);
                }
            }
        }
    } else {
        assert(after[0] == sessions[0]);
    }
}

} // verus!
