use vstd::prelude::*;
use crate::request::{
    header_rows, header_rows_of, record_of, rows_view, CapturedRequest, CapturedRequestView,
    HeaderRow, RequestRecord, RequestRecordView, opt_text,
};

verus! {

/// Everything that is stored for one request: its row, its header rows in order,
/// and its body when the body is not empty.
pub struct WritePlan {
    pub request: RequestRecord,
    pub headers: Vec<HeaderRow>,
    pub body: Option<Vec<u8>>,
}

/// The model of a [`WritePlan`].
pub struct WritePlanView {
    pub request: RequestRecordView,
    pub headers: Seq<(Seq<char>, Seq<char>)>,
    pub body: Option<Seq<u8>>,
}

impl View for WritePlan {
    type V = WritePlanView;

    open spec fn view(&self) -> WritePlanView {
        WritePlanView {
            request: self.request@,
            headers: rows_view(self.headers@),
            body: match self.body {
                Some(b) => Some(b@),
                None => None,
            },
        }
    }
}

/// What is stored for request `req` from `client_ip` whose collected body is
/// `body`: no body row when the body is empty.
pub open spec fn plan_of(req: CapturedRequestView, client_ip: Option<Seq<char>>, body: Seq<u8>) -> WritePlanView {
    WritePlanView {
        request: record_of(req, client_ip),
        headers: header_rows_of(req.headers),
        body: if body.len() > 0 {
            Some(body)
        } else {
            None
        },
    }
}

impl WritePlan {
    /// What to store for request `req` from `client_ip` whose collected body is `body`.
    pub fn new(req: &CapturedRequest, client_ip: Option<String>, body: Vec<u8>) -> (r: WritePlan)
        ensures
            r@ == plan_of(req@, opt_text(client_ip), body@),
            opt_text(r.request.client_ip) == opt_text(client_ip),
            r.request.method@ == req.method@,
            r.request.path@ == req.path@,
            opt_text(r.request.query) == opt_text(req.query),
            r.body is Some <==> body@.len() > 0,
            r.body matches Some(b) ==> b@ == body@,
            rows_view(r.headers@).len() == req.headers@.len(),
    {
        let request = RequestRecord::from_request(req, client_ip);
        let headers = header_rows(&req.headers);
        let body = if body.len() > 0 {
            Some(body)
        } else {
            None
        };
        WritePlan { request, headers, body }
    }
}

/// The next thing to do to store a request.
pub enum WriteAction {
    /// Begin a transaction.
    BeginTransaction,
    /// Insert the request's row and report the id it was given.
    InsertRequest(RequestRecord),
    /// Insert one header row of the request with id `request_id`.
    InsertHeader { request_id: i64, name: String, value: String },
    /// Insert the body of the request with id `request_id`.
    InsertBody { request_id: i64, body: Vec<u8> },
    /// Commit the transaction.
    Commit,
    /// The request is stored.
    Finish,
    /// Give up: the transaction is dropped, which rolls it back, and the failure
    /// that was reported is the result.
    Abort,
}

/// The model of a [`WriteAction`].
pub enum ActionView {
    Begin,
    InsertRequest(RequestRecordView),
    InsertHeader(i64, Seq<char>, Seq<char>),
    InsertBody(i64, Seq<u8>),
    Commit,
    Finish,
    Abort,
}

impl View for WriteAction {
    type V = ActionView;

    open spec fn view(&self) -> ActionView {
        match self {
            WriteAction::BeginTransaction => ActionView::Begin,
            WriteAction::InsertRequest(r) => ActionView::InsertRequest(r@),
            WriteAction::InsertHeader { request_id, name, value } => ActionView::InsertHeader(
                *request_id,
                name@,
                value@,
            ),
            WriteAction::InsertBody { request_id, body } => ActionView::InsertBody(*request_id, body@),
            WriteAction::Commit => ActionView::Commit,
            WriteAction::Finish => ActionView::Finish,
            WriteAction::Abort => ActionView::Abort,
        }
    }
}

/// Whether an action ends the write.
pub open spec fn is_terminal(a: ActionView) -> bool {
    a is Finish || a is Abort
}

/// How the last action went.
#[derive(Clone, Copy, Debug, PartialEq, Eq, Structural)]
pub enum StepReport {
    /// It succeeded.
    Done,
    /// The request's row was inserted and given this id.
    RequestStored(i64),
    /// It failed.
    Failed,
}

/// The statements that store a plan, in order, when the request's row is given
/// id `id`: begin, the request's row, each header row with that id, the body row
/// with that id when there is a body, and commit.
pub open spec fn planned_actions(plan: WritePlanView, id: i64) -> Seq<ActionView> {
    seq![ActionView::Begin, ActionView::InsertRequest(plan.request)]
        + plan.headers.map_values(
        |h: (Seq<char>, Seq<char>)| ActionView::InsertHeader(id, h.0, h.1),
    ) + match plan.body {
        Some(b) => seq![ActionView::InsertBody(id, b)],
        None => Seq::<ActionView>::empty(),
    } + seq![ActionView::Commit]
}

/// Where a write stands.
pub enum SessionStatus {
    Running,
    Saved,
    Aborted,
}

/// The model of a [`WriteSession`]: the plan, how many of its statements have
/// been issued, the id the request's row was given, if it is known yet, and
/// where the write stands.
pub struct SessionView {
    pub plan: WritePlanView,
    pub issued: nat,
    pub id: Option<i64>,
    pub status: SessionStatus,
}

/// The id that a session's statements carry.
pub open spec fn session_id(s: SessionView) -> i64 {
    match s.id {
        Some(id) => id,
        None => 0,
    }
}

/// The session that has just issued the first statement (begin) of `plan`.
pub open spec fn begun_session(plan: WritePlanView) -> SessionView {
    SessionView { plan, issued: 1, id: None, status: SessionStatus::Running }
}

/// The session after `report` on its last action, and the action it asks for next.
/// A failure ends the write with `Abort`; the id of the request's row is taken
/// from the report on inserting it (a report without an id there is a failure);
/// while statements remain, the next one is issued; once the commit is reported
/// done, the write ends with `Finish`. An ended session stays as it is.
pub open spec fn next_session(s: SessionView, report: StepReport) -> (SessionView, ActionView) {
    match s.status {
        SessionStatus::Saved => (s, ActionView::Finish),
        SessionStatus::Aborted => (s, ActionView::Abort),
        SessionStatus::Running => {
            if report is Failed {
                (SessionView { status: SessionStatus::Aborted, ..s }, ActionView::Abort)
            } else if s.issued == 2 {
                match report {
                    StepReport::RequestStored(id) => (
                        SessionView { issued: 3, id: Some(id), ..s },
                        planned_actions(s.plan, id)[2],
                    ),
                    _ => (SessionView { status: SessionStatus::Aborted, ..s }, ActionView::Abort),
                }
            } else if s.issued < planned_actions(s.plan, session_id(s)).len() {
                (
                    SessionView { issued: s.issued + 1, ..s },
                    planned_actions(s.plan, session_id(s))[s.issued as int],
                )
            } else {
                (SessionView { status: SessionStatus::Saved, ..s }, ActionView::Finish)
            }
        },
    }
}

enum Stage {
    Begun,
    RequestSent,
    HeaderSent(usize),
    BodySent,
    CommitSent,
    Saved,
    Aborted,
}

/// Where a session is: the last statement issued, the id of the request's row
/// once it is known, and, for an ended session, how many statements were issued.
struct Progress {
    stage: Stage,
    id: Option<i64>,
    issued_at_end: Ghost<nat>,
}

/// The decisions of storing one request in a transaction. The caller performs
/// each action it is given and reports how it went; the session says what to do
/// next, until it answers `Finish` or `Abort`.
pub struct WriteSession {
    plan: WritePlan,
    progress: Progress,
}

impl WriteSession {
    #[verifier::type_invariant]
    spec fn well_formed(self) -> bool {
        let p = self.progress;
        let total = planned_actions(self.plan@, session_id_of(p.id)).len();
        &&& (p.stage matches Stage::HeaderSent(j) ==> j < self.plan.headers@.len())
        &&& (p.stage is BodySent ==> self.plan.body is Some)
        &&& ((p.stage is Begun || p.stage is RequestSent) ==> p.id is None)
        &&& ((p.stage is HeaderSent || p.stage is BodySent || p.stage is CommitSent) ==> p.id is Some)
        &&& (p.stage is Saved ==> p.issued_at_end@ == total && p.id is Some)
        &&& (p.stage is Aborted ==> 1 <= p.issued_at_end@ <= total)
        &&& ((p.stage is Aborted && p.issued_at_end@ >= 3) ==> p.id is Some)
        &&& ((p.stage is Aborted && p.issued_at_end@ < 3) ==> p.id is None)
    }
}

/// The id that statements carry, from an optional id.
pub open spec fn session_id_of(id: Option<i64>) -> i64 {
    match id {
        Some(i) => i,
        None => 0,
    }
}

impl View for WriteSession {
    type V = SessionView;

    closed spec fn view(&self) -> SessionView {
        let n = self.plan.headers@.len();
        let b: nat = if self.plan.body is Some {
            1
        } else {
            0
        };
        let p = self.progress;
        SessionView {
            plan: self.plan@,
            issued: match p.stage {
                Stage::Begun => 1,
                Stage::RequestSent => 2,
                Stage::HeaderSent(j) => (3 + j) as nat,
                Stage::BodySent => 3 + n,
                Stage::CommitSent => 3 + n + b,
                Stage::Saved => p.issued_at_end@,
                Stage::Aborted => p.issued_at_end@,
            },
            id: p.id,
            status: match p.stage {
                Stage::Saved => SessionStatus::Saved,
                Stage::Aborted => SessionStatus::Aborted,
                _ => SessionStatus::Running,
            },
        }
    }
}

/// The statements that store a plan: begin, the request's row, one insert per
/// header row in order with the request's id, the body with that id when there is
/// a body, and commit last, and nothing else.
pub proof fn lemma_planned_shape(plan: WritePlanView, id: i64)
    ensures
        ({
            let p = planned_actions(plan, id);
            let n = plan.headers.len();
            let b: nat = if plan.body is Some {
                1
            } else {
                0
            };
            &&& p.len() == 3 + n + b
            &&& p[0] == ActionView::Begin
            &&& p[1] == ActionView::InsertRequest(plan.request)
            &&& forall|j: int|
                0 <= j < n ==> #[trigger] p[2 + j] == ActionView::InsertHeader(
                    id,
                    plan.headers[j].0,
                    plan.headers[j].1,
                )
            &&& (plan.body matches Some(body) ==> p[2 + n as int] == ActionView::InsertBody(id, body))
            &&& p[2 + n + b as int] == ActionView::Commit
        }),
{
}

fn copy_bytes(v: &Vec<u8>) -> (r: Vec<u8>)
    ensures
        r@ == v@,
{
    let mut out: Vec<u8> = Vec::new();
    let mut i: usize = 0;
    while i < v.len()
        invariant
            i <= v@.len(),
            out@ == v@.take(i as int),
        decreases v@.len() - i,
    {
        out.push(v[i]);
        assert(out@ =~= v@.take(i + 1));
        i = i + 1;
    }
    assert(out@ =~= v@);
    out
}

impl WriteSession {
    /// Starts storing `plan`: the first action is to begin a transaction.
    pub fn begin(plan: WritePlan) -> (r: (WriteSession, WriteAction))
        ensures
            r.0@ == begun_session(plan@),
            r.1@ == ActionView::Begin,
            r.1@ == planned_actions(plan@, 0)[0],
    {
        let progress = Progress { stage: Stage::Begun, id: None, issued_at_end: Ghost(1) };
        (WriteSession { plan, progress }, WriteAction::BeginTransaction)
    }

    /// Whether the write has ended.
    pub fn is_finished(&self) -> (r: bool)
        ensures
            r == !(self@.status is Running),
    {
        match self.progress.stage {
            Stage::Saved | Stage::Aborted => true,
            _ => false,
        }
    }

    /// The action that inserts header row `j`.
    fn header_action(plan: &WritePlan, id: i64, j: usize) -> (r: WriteAction)
        requires
            j < plan.headers@.len(),
        ensures
            r@ == planned_actions(plan@, id)[2 + j],
    {
        proof {
            lemma_planned_shape(plan@, id);
        }
        let row = &plan.headers[j];
        assert(rows_view(plan.headers@)[j as int] == (row.name@, row.value@));
        WriteAction::InsertHeader { request_id: id, name: row.name.clone(), value: row.value.clone() }
    }

    /// The action after the last header row: the body row when there is a body,
    /// and the commit otherwise, with the stage it leaves the session in.
    fn after_headers(plan: &WritePlan, id: i64) -> (r: (Stage, WriteAction))
        ensures
            r.1@ == planned_actions(plan@, id)[2 + plan.headers@.len() as int],
            r.0 is BodySent ==> plan.body is Some,
            r.0 is BodySent || r.0 is CommitSent,
            r.0 is CommitSent ==> plan.body is None,
    {
        proof {
            lemma_planned_shape(plan@, id);
        }
        match &plan.body {
            Some(b) => {
                let body = copy_bytes(b);
                (Stage::BodySent, WriteAction::InsertBody { request_id: id, body })
            },
            None => (Stage::CommitSent, WriteAction::Commit),
        }
    }

    /// Takes the report on the last action and gives the next action.
    pub fn advance(&mut self, report: StepReport) -> (r: WriteAction)
        ensures
            (final(self)@, r@) == next_session(old(self)@, report),
            old(self)@.status is Running && report == StepReport::Failed ==> r@ == ActionView::Abort
                && final(self)@.status is Aborted,
            r@ is Finish ==> final(self)@.status is Saved,
            r@ is Abort ==> final(self)@.status is Aborted,
            final(self)@.plan == old(self)@.plan,
    {
        proof {
            use_type_invariant(&*self);
            lemma_planned_shape(self.plan@, session_id_of(self.progress.id));
        }
        let ghost before = self@;
        let id = self.progress.id;
        match self.progress.stage {
            Stage::Saved => {
                return WriteAction::Finish;
            },
            Stage::Aborted => {
                return WriteAction::Abort;
            },
            _ => {},
        }
        if let StepReport::Failed = report {
            self.progress = Progress { stage: Stage::Aborted, id, issued_at_end: Ghost(before.issued) };
            return WriteAction::Abort;
        }
        match self.progress.stage {
            Stage::Begun => {
                let action = WriteAction::InsertRequest(self.plan.request.duplicate());
                self.progress = Progress { stage: Stage::RequestSent, id: None, issued_at_end: Ghost(1) };
                action
            },
            Stage::RequestSent => {
                match report {
                    StepReport::RequestStored(new_id) => {
                        proof {
                            lemma_planned_shape(self.plan@, new_id);
                        }
                        if self.plan.headers.len() > 0 {
                            let action = Self::header_action(&self.plan, new_id, 0);
                            self.progress = Progress {
                                stage: Stage::HeaderSent(0),
                                id: Some(new_id),
                                issued_at_end: Ghost(1),
                            };
                            action
                        } else {
                            let (stage, action) = Self::after_headers(&self.plan, new_id);
                            self.progress = Progress { stage, id: Some(new_id), issued_at_end: Ghost(1) };
                            action
                        }
                    },
                    _ => {
                        self.progress = Progress { stage: Stage::Aborted, id: None, issued_at_end: Ghost(2) };
                        WriteAction::Abort
                    },
                }
            },
            Stage::HeaderSent(j) => {
                let known = match id {
                    Some(i) => i,
                    None => 0,
                };
                let n = self.plan.headers.len();
                assert(j < n);
                if j < n - 1 {
                    let action = Self::header_action(&self.plan, known, j + 1);
                    self.progress = Progress { stage: Stage::HeaderSent(j + 1), id, issued_at_end: Ghost(1) };
                    action
                } else {
                    let (stage, action) = Self::after_headers(&self.plan, known);
                    self.progress = Progress { stage, id, issued_at_end: Ghost(1) };
                    action
                }
            },
            Stage::BodySent => {
                self.progress = Progress { stage: Stage::CommitSent, id, issued_at_end: Ghost(1) };
                WriteAction::Commit
            },
            _ => {
                self.progress = Progress { stage: Stage::Saved, id, issued_at_end: Ghost(before.issued) };
                WriteAction::Finish
            },
        }
    }

    /// The plan being stored.
    pub fn plan(&self) -> (r: &WritePlan)
        ensures
            r@ == self@.plan,
    {
        &self.plan
    }
}

/// The session and the actions it asked for, after the reports `reports` in order.
pub open spec fn run_session(s: SessionView, reports: Seq<StepReport>) -> (SessionView, Seq<ActionView>)
    decreases reports.len(),
{
    if reports.len() == 0 {
        (s, Seq::empty())
    } else {
        let (mid, acts) = run_session(s, reports.drop_last());
        let (next, a) = next_session(mid, reports.last());
        (next, acts.push(a))
    }
}

/// The statements among `acts`: all but `Finish` and `Abort`.
pub open spec fn statements(acts: Seq<ActionView>) -> Seq<ActionView>
    decreases acts.len(),
{
    if acts.len() == 0 {
        acts
    } else if is_terminal(acts.last()) {
        statements(acts.drop_last())
    } else {
        statements(acts.drop_last()).push(acts.last())
    }
}

/// The number of statements that storing `plan` takes.
pub open spec fn plan_len(plan: WritePlanView) -> nat {
    planned_actions(plan, 0).len()
}

/// What holds of every session that a write can reach: it has issued at least the
/// begin and at most every planned statement, the id is known exactly once the
/// request's row is inserted, and a saved session has issued them all.
pub open spec fn session_ok(s: SessionView) -> bool {
    &&& 1 <= s.issued <= plan_len(s.plan)
    &&& (s.id is Some <==> s.issued >= 3)
    &&& (s.status is Saved ==> s.issued == plan_len(s.plan))
}

proof fn lemma_plan_len(plan: WritePlanView, id: i64)
    ensures
        planned_actions(plan, id).len() == plan_len(plan),
        planned_actions(plan, id).take(2) == planned_actions(plan, 0).take(2),
        plan_len(plan) >= 3,
{
    lemma_planned_shape(plan, id);
    lemma_planned_shape(plan, 0);
    assert(planned_actions(plan, id).take(2) =~= planned_actions(plan, 0).take(2));
}

/// Storing a request issues the planned statements in order and nothing else:
/// whatever the reports, the statements asked for so far (begin first) are the
/// first statements of the plan, every row after the request's row carries the id
/// that was reported for it, and once `Finish` or `Abort` is given the session
/// gives that same answer and no further statement.
pub proof fn law_statements_follow_plan(plan: WritePlanView, reports: Seq<StepReport>)
    ensures
        ({
            let (s, acts) = run_session(begun_session(plan), reports);
            &&& s.plan == plan
            &&& session_ok(s)
            &&& statements(seq![ActionView::Begin] + acts) == planned_actions(plan, session_id(s)).take(
                s.issued as int,
            )
            &&& forall|i: int, j: int|
                0 <= i < j < acts.len() && is_terminal(#[trigger] acts[i]) ==> #[trigger] acts[j]
                    == acts[i]
            &&& (acts.len() > 0 && is_terminal(acts.last()) ==> !(s.status is Running))
            &&& (acts.len() > 0 && !(s.status is Running) ==> is_terminal(acts.last()))
            &&& (acts.len() > 0 ==> (acts.last() is Finish <==> s.status is Saved))
        }),
    decreases reports.len(),
{
    let s0 = begun_session(plan);
    lemma_plan_len(plan, 0);
    if reports.len() == 0 {
        assert(seq![ActionView::Begin] + Seq::<ActionView>::empty() =~= seq![ActionView::Begin]);
        assert(statements(seq![ActionView::Begin]) =~= seq![ActionView::Begin]) by {
            reveal_with_fuel(statements, 2);
            assert(seq![ActionView::Begin].drop_last() =~= Seq::<ActionView>::empty());
        }
        lemma_planned_shape(plan, 0);
        assert(planned_actions(plan, 0).take(1) =~= seq![ActionView::Begin]);
    } else {
        let r = reports.last();
        law_statements_follow_plan(plan, reports.drop_last());
        let (mid, acts) = run_session(s0, reports.drop_last());
        let (next, a) = next_session(mid, r);
        assert(run_session(s0, reports) == (next, acts.push(a)));
        let before = seq![ActionView::Begin] + acts;
        let after = seq![ActionView::Begin] + acts.push(a);
        assert(after =~= before.push(a));
        assert(after.drop_last() =~= before);
        lemma_plan_len(plan, session_id(mid));
        lemma_plan_len(plan, session_id(next));
        if !is_terminal(a) {
            assert(statements(after) == statements(before).push(a));
            let p = planned_actions(plan, session_id(next));
            assert(next.issued == mid.issued + 1);
            if mid.issued == 2 {
                lemma_plan_len(plan, session_id(next));
                assert(planned_actions(plan, session_id(mid)).take(2) == p.take(2));
            } else {
                assert(session_id(next) == session_id(mid));
            }
            assert(a == p[mid.issued as int]);
            assert(p.take(mid.issued + 1 as int) =~= p.take(mid.issued as int).push(p[mid.issued as int]));
        } else {
            assert(statements(after) == statements(before));
            assert(session_id(next) == session_id(mid));
        }
        assert forall|i: int, j: int|
            0 <= i < j < acts.push(a).len() && is_terminal(#[trigger] acts.push(a)[i]) implies #[trigger] acts.push(a)[j]
                == acts.push(a)[i] by {
            if j < acts.len() {
                assert(acts.push(a)[i] == acts[i]);
                assert(acts.push(a)[j] == acts[j]);
            } else {
                assert(acts.push(a)[i] == acts[i]);
                if i < acts.len() - 1 {
                    assert(acts[i] == acts[acts.len() - 1]);
                }
            }
        }
    }
}

/// A request is stored only as a whole: the write ends with `Finish` only when
/// every planned statement, the commit last, has been issued and reported done.
pub proof fn law_finish_only_when_all_stored(plan: WritePlanView, reports: Seq<StepReport>)
    requires
        ({
            let acts = run_session(begun_session(plan), reports).1;
            acts.len() > 0 && acts.last() is Finish
        }),
    ensures
        ({
            let (s, acts) = run_session(begun_session(plan), reports);
            &&& s.status is Saved
            &&& statements(seq![ActionView::Begin] + acts) == planned_actions(plan, session_id(s))
        }),
{
    law_statements_follow_plan(plan, reports);
    let (s, acts) = run_session(begun_session(plan), reports);
    lemma_plan_len(plan, session_id(s));
    assert(planned_actions(plan, session_id(s)).take(plan_len(plan) as int) =~= planned_actions(
        plan,
        session_id(s),
    ));
}

/// The reports of a write in which every statement succeeds and the request's
/// row is given id `id`.
pub open spec fn success_reports(plan: WritePlanView, id: i64) -> Seq<StepReport> {
    seq![StepReport::Done, StepReport::RequestStored(id)] + Seq::new(
        (plan_len(plan) - 3) as nat,
        |i: int| StepReport::Done,
    ) + seq![StepReport::Done]
}

proof fn lemma_success_prefix(plan: WritePlanView, id: i64, k: int)
    requires
        0 <= k <= plan_len(plan) - 3,
    ensures
        ({
            let (s, acts) = run_session(
                begun_session(plan),
                success_reports(plan, id).take(2 + k),
            );
            &&& s == SessionView { plan, issued: (3 + k) as nat, id: Some(id), status: SessionStatus::Running }
            &&& acts == planned_actions(plan, id).subrange(1, 3 + k)
        }),
    decreases k,
{
    lemma_plan_len(plan, id);
    lemma_plan_len(plan, 0);
    let r = success_reports(plan, id);
    let s0 = begun_session(plan);
    let p = planned_actions(plan, id);
    if k == 0 {
        reveal_with_fuel(run_session, 3);
        let r2 = r.take(2);
        assert(r2.drop_last() =~= seq![StepReport::Done]);
        assert(r2.drop_last().drop_last() =~= Seq::<StepReport>::empty());
        assert(r2.last() == StepReport::RequestStored(id));
        assert(r2.drop_last().last() == StepReport::Done);
        let (m1, a1) = run_session(s0, r2.drop_last());
        assert(m1.issued == 2);
        assert(a1 =~= seq![planned_actions(plan, 0)[1]]);
        assert(planned_actions(plan, 0)[1] == p[1]);
        assert(p.subrange(1, 3) =~= seq![p[1], p[2]]);
    } else {
        lemma_success_prefix(plan, id, k - 1);
        assert(r.take(2 + k).drop_last() =~= r.take(2 + k - 1));
        assert(r.take(2 + k).last() == StepReport::Done);
        assert(p.subrange(1, 3 + k) =~= p.subrange(1, 3 + k - 1).push(p[2 + k]));
    }
}

/// When every statement succeeds, storing a request issues exactly the planned
/// statements, begin, the request's row, each header row and the body row (when
/// there is a body) with the reported id, and commit, and then ends with `Finish`.
pub proof fn law_success_stores_everything(plan: WritePlanView, id: i64)
    ensures
        ({
            let (s, acts) = run_session(begun_session(plan), success_reports(plan, id));
            &&& s.status is Saved
            &&& seq![ActionView::Begin] + acts == planned_actions(plan, id).push(ActionView::Finish)
        }),
{
    lemma_plan_len(plan, id);
    let r = success_reports(plan, id);
    let k = plan_len(plan) - 3;
    lemma_success_prefix(plan, id, k);
    assert(r.len() == 3 + k);
    assert(r.drop_last() =~= r.take(2 + k));
    let p = planned_actions(plan, id);
    lemma_planned_shape(plan, id);
    assert(seq![ActionView::Begin] + p.subrange(1, 3 + k).push(ActionView::Finish) =~= p.push(
        ActionView::Finish,
    ));
}

/// A failure reported on a running write always ends it with `Abort`, whatever
/// statement failed: no failed statement is ever followed by more statements or by
/// a commit.
pub proof fn law_failure_aborts(s: SessionView)
    requires
        s.status is Running,
    ensures
        next_session(s, StepReport::Failed).1 == ActionView::Abort,
        next_session(s, StepReport::Failed).0.status is Aborted,
        next_session(s, StepReport::Failed).0.plan == s.plan,
{
}

/// Over a whole write: every report of a failure that comes before the write has
/// ended is answered with `Abort`; and a write that ends with `Finish` had no
/// failure reported up to its end.
pub proof fn law_failed_write_never_finishes(plan: WritePlanView, reports: Seq<StepReport>)
    ensures
        ({
            let (s, acts) = run_session(begun_session(plan), reports);
            &&& acts.len() == reports.len()
            &&& forall|i: int|
                0 <= i < reports.len() && reports[i] == StepReport::Failed && (forall|k: int|
                    0 <= k < i ==> !is_terminal(#[trigger] acts[k])) ==> acts[i] == ActionView::Abort
            &&& (acts.len() > 0 && acts.last() is Finish) ==> forall|i: int|
                0 <= i < acts.len() && (forall|k: int| 0 <= k < i ==> !is_terminal(#[trigger] acts[k]))
                    ==> reports[i] != StepReport::Failed
        }),
    decreases reports.len(),
{
    let s0 = begun_session(plan);
    law_statements_follow_plan(plan, reports);
    if reports.len() > 0 {
        law_failed_write_never_finishes(plan, reports.drop_last());
        law_statements_follow_plan(plan, reports.drop_last());
        let (mid, prev) = run_session(s0, reports.drop_last());
        let (s, acts) = run_session(s0, reports);
        let n = reports.len() - 1;
        assert(acts == prev.push(next_session(mid, reports.last()).1));
        assert forall|i: int|
            0 <= i < reports.len() && reports[i] == StepReport::Failed && (forall|k: int|
                0 <= k < i ==> !is_terminal(#[trigger] acts[k])) implies acts[i] == ActionView::Abort by {
            if i < n {
                assert(reports.drop_last()[i] == reports[i]);
                assert forall|k: int| 0 <= k < i implies !is_terminal(#[trigger] prev[k]) by {
                    assert(acts[k] == prev[k]);
                }
                assert(acts[i] == prev[i]);
            } else {
                if prev.len() > 0 {
                    assert(!is_terminal(acts[n - 1]));
                    assert(acts[n - 1] == prev.last());
                }
                assert(mid.status is Running);
                law_failure_aborts(mid);
            }
        }
        if acts.last() is Finish {
            assert forall|i: int|
                0 <= i < acts.len() && (forall|k: int| 0 <= k < i ==> !is_terminal(#[trigger] acts[k]))
                    implies reports[i] != StepReport::Failed by {
                if reports[i] == StepReport::Failed {
                    assert(acts[i] == ActionView::Abort);
                    if i < acts.len() - 1 {
                        assert(acts[acts.len() - 1] == acts[i]);
                    }
                }
            }
        }
    }
}

/// The row planned for a request is the row of that request from that client:
/// its method, path and query are the request's, and its client address is the
/// one given; the body row is planned exactly when the body is not empty, and it
/// holds the body; there is one header row per header.
pub proof fn law_plan_keeps_request(req: CapturedRequestView, client_ip: Option<Seq<char>>, body: Seq<u8>)
    ensures
        plan_of(req, client_ip, body).request.client_ip == client_ip,
        plan_of(req, client_ip, body).request.method == req.method,
        plan_of(req, client_ip, body).request.path == req.path,
        plan_of(req, client_ip, body).request.query == req.query,
        plan_of(req, client_ip, body).body is Some <==> body.len() > 0,
        plan_of(req, client_ip, body).body matches Some(b) ==> b == body,
        plan_of(req, client_ip, body).headers.len() == req.headers.len(),
{
}

} // verus!
