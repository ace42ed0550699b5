//! Requests to the profile, their replies, and the task that answers one
//! request by a sequence of table operations.
//!
//! A task asks for one table operation at a time and is told how it went.
//! When an operation fails, the task ends with an error reply that carries
//! the failure's message; when the last operation succeeds, the task ends
//! with the reply that the request asks for.

use vstd::prelude::*;

use crate::data::{stamp, GroupData, GroupModel, NodeData, NodeModel};

verus! {

/// A request to the profile.
pub enum ProfileRequest {
    CountGroups,
    ListAllGroups,
    CountNodes(i32),
    ListAllNodes(i32),
    GetGroupById(i32),
    GetNodeById(i32),
    RemoveGroupById(i32),
    RemoveNodeById(i32),
    SetGroupById(i32, GroupData),
    SetNodeById(i32, NodeData),
    AppendGroup(GroupData),
    AppendNode(i32, NodeData),
    UpdateGroup(i32, Vec<NodeData>),
}

/// The model of a request.
pub enum RequestModel {
    CountGroups,
    ListAllGroups,
    CountNodes(i32),
    ListAllNodes(i32),
    GetGroupById(i32),
    GetNodeById(i32),
    RemoveGroupById(i32),
    RemoveNodeById(i32),
    SetGroupById(i32, GroupModel),
    SetNodeById(i32, NodeModel),
    AppendGroup(GroupModel),
    AppendNode(i32, NodeModel),
    UpdateGroup(i32, Seq<NodeModel>),
}

/// The models of nodes.
pub open spec fn node_models(v: Seq<NodeData>) -> Seq<NodeModel> {
    v.map_values(|n: NodeData| n@)
}

/// The models of groups.
pub open spec fn group_models(v: Seq<GroupData>) -> Seq<GroupModel> {
    v.map_values(|g: GroupData| g@)
}

impl View for ProfileRequest {
    type V = RequestModel;

    open spec fn view(&self) -> RequestModel {
        match self {
            ProfileRequest::CountGroups => RequestModel::CountGroups,
            ProfileRequest::ListAllGroups => RequestModel::ListAllGroups,
            ProfileRequest::CountNodes(g) => RequestModel::CountNodes(*g),
            ProfileRequest::ListAllNodes(g) => RequestModel::ListAllNodes(*g),
            ProfileRequest::GetGroupById(g) => RequestModel::GetGroupById(*g),
            ProfileRequest::GetNodeById(n) => RequestModel::GetNodeById(*n),
            ProfileRequest::RemoveGroupById(g) => RequestModel::RemoveGroupById(*g),
            ProfileRequest::RemoveNodeById(n) => RequestModel::RemoveNodeById(*n),
            ProfileRequest::SetGroupById(g, d) => RequestModel::SetGroupById(*g, d@),
            ProfileRequest::SetNodeById(n, d) => RequestModel::SetNodeById(*n, d@),
            ProfileRequest::AppendGroup(d) => RequestModel::AppendGroup(d@),
            ProfileRequest::AppendNode(g, d) => RequestModel::AppendNode(*g, d@),
            ProfileRequest::UpdateGroup(g, v) => RequestModel::UpdateGroup(*g, node_models(v@)),
        }
    }
}

/// A reply of the profile.
pub enum ProfileReply {
    Error(String),
    CountGroups(usize),
    ListAllGroups(Vec<GroupData>),
    CountNodes(usize),
    ListAllNodes(Vec<NodeData>),
    GetGroupById(GroupData),
    GetNodeById(NodeData),
    SetGroupById,
    SetNodeById,
    RemoveGroupById,
    RemoveNodeById,
    AppendGroup,
    AppendNode,
    UpdateGroup,
    GetRuntimeValue(String),
    SetRuntimeValue,
}

/// The model of a reply.
pub enum ReplyModel {
    Error(Seq<char>),
    CountGroups(usize),
    ListAllGroups(Seq<GroupModel>),
    CountNodes(usize),
    ListAllNodes(Seq<NodeModel>),
    GetGroupById(GroupModel),
    GetNodeById(NodeModel),
    SetGroupById,
    SetNodeById,
    RemoveGroupById,
    RemoveNodeById,
    AppendGroup,
    AppendNode,
    UpdateGroup,
    GetRuntimeValue(Seq<char>),
    SetRuntimeValue,
}

impl View for ProfileReply {
    type V = ReplyModel;

    open spec fn view(&self) -> ReplyModel {
        match self {
            ProfileReply::Error(e) => ReplyModel::Error(e@),
            ProfileReply::CountGroups(c) => ReplyModel::CountGroups(*c),
            ProfileReply::ListAllGroups(v) => ReplyModel::ListAllGroups(group_models(v@)),
            ProfileReply::CountNodes(c) => ReplyModel::CountNodes(*c),
            ProfileReply::ListAllNodes(v) => ReplyModel::ListAllNodes(node_models(v@)),
            ProfileReply::GetGroupById(g) => ReplyModel::GetGroupById(g@),
            ProfileReply::GetNodeById(n) => ReplyModel::GetNodeById(n@),
            ProfileReply::SetGroupById => ReplyModel::SetGroupById,
            ProfileReply::SetNodeById => ReplyModel::SetNodeById,
            ProfileReply::RemoveGroupById => ReplyModel::RemoveGroupById,
            ProfileReply::RemoveNodeById => ReplyModel::RemoveNodeById,
            ProfileReply::AppendGroup => ReplyModel::AppendGroup,
            ProfileReply::AppendNode => ReplyModel::AppendNode,
            ProfileReply::UpdateGroup => ReplyModel::UpdateGroup,
            ProfileReply::GetRuntimeValue(v) => ReplyModel::GetRuntimeValue(v@),
            ProfileReply::SetRuntimeValue => ReplyModel::SetRuntimeValue,
        }
    }
}

/// Whether a reply is the one that a request asks for.
pub open spec fn reply_answers(req: RequestModel, reply: ReplyModel) -> bool {
    match req {
        RequestModel::CountGroups => reply is CountGroups,
        RequestModel::ListAllGroups => reply is ListAllGroups,
        RequestModel::CountNodes(_) => reply is CountNodes,
        RequestModel::ListAllNodes(_) => reply is ListAllNodes,
        RequestModel::GetGroupById(_) => reply is GetGroupById,
        RequestModel::GetNodeById(_) => reply is GetNodeById,
        RequestModel::RemoveGroupById(_) => reply is RemoveGroupById,
        RequestModel::RemoveNodeById(_) => reply is RemoveNodeById,
        RequestModel::SetGroupById(_, _) => reply is SetGroupById,
        RequestModel::SetNodeById(_, _) => reply is SetNodeById,
        RequestModel::AppendGroup(_) => reply is AppendGroup,
        RequestModel::AppendNode(_, _) => reply is AppendNode,
        RequestModel::UpdateGroup(_, _) => reply is UpdateGroup,
    }
}

/// Whether a reply is the one that a request asks for (see
/// `reply_answers`).
pub fn answers(req: &ProfileRequest, reply: &ProfileReply) -> (b: bool)
    ensures
        b == reply_answers(req@, reply@),
{
    match req {
        ProfileRequest::CountGroups => matches!(reply, ProfileReply::CountGroups(_)),
        ProfileRequest::ListAllGroups => matches!(reply, ProfileReply::ListAllGroups(_)),
        ProfileRequest::CountNodes(_) => matches!(reply, ProfileReply::CountNodes(_)),
        ProfileRequest::ListAllNodes(_) => matches!(reply, ProfileReply::ListAllNodes(_)),
        ProfileRequest::GetGroupById(_) => matches!(reply, ProfileReply::GetGroupById(_)),
        ProfileRequest::GetNodeById(_) => matches!(reply, ProfileReply::GetNodeById(_)),
        ProfileRequest::RemoveGroupById(_) => matches!(reply, ProfileReply::RemoveGroupById),
        ProfileRequest::RemoveNodeById(_) => matches!(reply, ProfileReply::RemoveNodeById),
        ProfileRequest::SetGroupById(_, _) => matches!(reply, ProfileReply::SetGroupById),
        ProfileRequest::SetNodeById(_, _) => matches!(reply, ProfileReply::SetNodeById),
        ProfileRequest::AppendGroup(_) => matches!(reply, ProfileReply::AppendGroup),
        ProfileRequest::AppendNode(_, _) => matches!(reply, ProfileReply::AppendNode),
        ProfileRequest::UpdateGroup(_, _) => matches!(reply, ProfileReply::UpdateGroup),
    }
}

/// What a requester makes of the reply to its request: an error reply
/// gives its message, the reply that the request asks for is accepted.
pub fn accept_reply(req: &ProfileRequest, reply: ProfileReply) -> (res: Result<ProfileReply, String>)
    requires
        reply@ is Error || reply_answers(req@, reply@),
    ensures
        match reply@ {
            ReplyModel::Error(e) => res matches Err(m) && m@ == e,
            _ => res matches Ok(r) && r@ == reply@,
        },
{
    match reply {
        ProfileReply::Error(e) => Err(e),
        other => Ok(other),
    }
}

/// A table operation that a task asks for.
pub enum TableAction {
    CountGroups,
    ListAllGroups,
    QueryGroup(i32),
    CountNodes(i32),
    ListAllNodes(i32),
    QueryNode(i32),
    RemoveGroup(i32),
    RemoveNode(i32),
    SetGroup(i32, GroupData),
    SetNode(i32, NodeData),
    AppendGroup(GroupData),
    AppendNode(i32, NodeData),
    RemoveAllNodes(i32),
    Reply(ProfileReply),
}

/// The model of a table operation.
pub enum ActionModel {
    CountGroups,
    ListAllGroups,
    QueryGroup(i32),
    CountNodes(i32),
    ListAllNodes(i32),
    QueryNode(i32),
    RemoveGroup(i32),
    RemoveNode(i32),
    SetGroup(i32, GroupModel),
    SetNode(i32, NodeModel),
    AppendGroup(GroupModel),
    AppendNode(i32, NodeModel),
    RemoveAllNodes(i32),
    Reply(ReplyModel),
}

impl View for TableAction {
    type V = ActionModel;

    open spec fn view(&self) -> ActionModel {
        match self {
            TableAction::CountGroups => ActionModel::CountGroups,
            TableAction::ListAllGroups => ActionModel::ListAllGroups,
            TableAction::QueryGroup(g) => ActionModel::QueryGroup(*g),
            TableAction::CountNodes(g) => ActionModel::CountNodes(*g),
            TableAction::ListAllNodes(g) => ActionModel::ListAllNodes(*g),
            TableAction::QueryNode(n) => ActionModel::QueryNode(*n),
            TableAction::RemoveGroup(g) => ActionModel::RemoveGroup(*g),
            TableAction::RemoveNode(n) => ActionModel::RemoveNode(*n),
            TableAction::SetGroup(g, d) => ActionModel::SetGroup(*g, d@),
            TableAction::SetNode(n, d) => ActionModel::SetNode(*n, d@),
            TableAction::AppendGroup(d) => ActionModel::AppendGroup(d@),
            TableAction::AppendNode(g, d) => ActionModel::AppendNode(*g, d@),
            TableAction::RemoveAllNodes(g) => ActionModel::RemoveAllNodes(*g),
            TableAction::Reply(r) => ActionModel::Reply(r@),
        }
    }
}

/// How a table operation went.
pub enum TableEvent {
    Failed(String),
    Count(usize),
    Groups(Vec<GroupData>),
    Nodes(Vec<NodeData>),
    Group(GroupData),
    Node(NodeData),
    Done,
}

/// The model of how a table operation went.
pub enum EventModel {
    Failed(Seq<char>),
    Count(usize),
    Groups(Seq<GroupModel>),
    Nodes(Seq<NodeModel>),
    Group(GroupModel),
    Node(NodeModel),
    Done,
}

impl View for TableEvent {
    type V = EventModel;

    open spec fn view(&self) -> EventModel {
        match self {
            TableEvent::Failed(e) => EventModel::Failed(e@),
            TableEvent::Count(c) => EventModel::Count(*c),
            TableEvent::Groups(v) => EventModel::Groups(group_models(v@)),
            TableEvent::Nodes(v) => EventModel::Nodes(node_models(v@)),
            TableEvent::Group(g) => EventModel::Group(g@),
            TableEvent::Node(n) => EventModel::Node(n@),
            TableEvent::Done => EventModel::Done,
        }
    }
}

/// A node of an updated group as it is appended at time `now`: it belongs
/// to the group and is created and modified at `now`.
pub open spec fn update_stamped(n: NodeModel, group_id: i32, now: u64) -> NodeModel {
    NodeModel { create_at: stamp(now), modified_at: stamp(now), group_id: group_id, ..n }
}

/// The table operations that answer a request at time `now`, in order,
/// when each of them succeeds.
pub open spec fn plan(req: RequestModel, now: u64) -> Seq<ActionModel> {
    match req {
        RequestModel::CountGroups => seq![ActionModel::CountGroups],
        RequestModel::ListAllGroups => seq![ActionModel::ListAllGroups],
        RequestModel::CountNodes(g) => seq![ActionModel::QueryGroup(g), ActionModel::CountNodes(g)],
        RequestModel::ListAllNodes(g) => seq![ActionModel::QueryGroup(g), ActionModel::ListAllNodes(g)],
        RequestModel::GetGroupById(g) => seq![ActionModel::QueryGroup(g)],
        RequestModel::GetNodeById(n) => seq![ActionModel::QueryNode(n)],
        RequestModel::RemoveGroupById(g) => seq![ActionModel::RemoveGroup(g)],
        RequestModel::RemoveNodeById(n) => seq![ActionModel::RemoveNode(n)],
        RequestModel::SetGroupById(g, d) => seq![ActionModel::SetGroup(g, d)],
        RequestModel::SetNodeById(n, d) => seq![ActionModel::SetNode(n, d)],
        RequestModel::AppendGroup(d) => seq![ActionModel::AppendGroup(d)],
        RequestModel::AppendNode(g, d) => seq![ActionModel::QueryGroup(g), ActionModel::AppendNode(g, d)],
        RequestModel::UpdateGroup(g, ns) => seq![ActionModel::QueryGroup(g), ActionModel::RemoveAllNodes(g)]
            + ns.map_values(|n: NodeModel| ActionModel::AppendNode(g, update_stamped(n, g, now))),
    }
}

/// Whether an event can tell how an operation went: a failure always can;
/// otherwise a count answers a count, groups a listing of groups, nodes a
/// listing of nodes, a group a group query, a node a node query, and
/// `Done` any other operation.
pub open spec fn event_fits(a: ActionModel, ev: EventModel) -> bool {
    ||| ev is Failed
    ||| match a {
        ActionModel::CountGroups => ev is Count,
        ActionModel::CountNodes(_) => ev is Count,
        ActionModel::ListAllGroups => ev is Groups,
        ActionModel::ListAllNodes(_) => ev is Nodes,
        ActionModel::QueryGroup(_) => ev is Group,
        ActionModel::QueryNode(_) => ev is Node,
        ActionModel::Reply(_) => false,
        _ => ev is Done,
    }
}

/// The reply that a request gets when its last operation succeeds with
/// `ev`: counts, listings and queried records are passed on.
pub open spec fn final_reply(req: RequestModel, ev: EventModel) -> ReplyModel {
    match req {
        RequestModel::CountGroups => match ev {
            EventModel::Count(c) => ReplyModel::CountGroups(c),
            _ => ReplyModel::Error(Seq::empty()),
        },
        RequestModel::ListAllGroups => match ev {
            EventModel::Groups(v) => ReplyModel::ListAllGroups(v),
            _ => ReplyModel::Error(Seq::empty()),
        },
        RequestModel::CountNodes(_) => match ev {
            EventModel::Count(c) => ReplyModel::CountNodes(c),
            _ => ReplyModel::Error(Seq::empty()),
        },
        RequestModel::ListAllNodes(_) => match ev {
            EventModel::Nodes(v) => ReplyModel::ListAllNodes(v),
            _ => ReplyModel::Error(Seq::empty()),
        },
        RequestModel::GetGroupById(_) => match ev {
            EventModel::Group(g) => ReplyModel::GetGroupById(g),
            _ => ReplyModel::Error(Seq::empty()),
        },
        RequestModel::GetNodeById(_) => match ev {
            EventModel::Node(n) => ReplyModel::GetNodeById(n),
            _ => ReplyModel::Error(Seq::empty()),
        },
        RequestModel::RemoveGroupById(_) => ReplyModel::RemoveGroupById,
        RequestModel::RemoveNodeById(_) => ReplyModel::RemoveNodeById,
        RequestModel::SetGroupById(_, _) => ReplyModel::SetGroupById,
        RequestModel::SetNodeById(_, _) => ReplyModel::SetNodeById,
        RequestModel::AppendGroup(_) => ReplyModel::AppendGroup,
        RequestModel::AppendNode(_, _) => ReplyModel::AppendNode,
        RequestModel::UpdateGroup(_, _) => ReplyModel::UpdateGroup,
    }
}

/// Whether a request's operations can be counted in a `usize`.
pub open spec fn request_fits(req: RequestModel) -> bool {
    req matches RequestModel::UpdateGroup(_, ns) ==> ns.len() + 2 <= usize::MAX
}

/// The task that answers one request.
pub struct ProfileTask {
    request: ProfileRequest,
    now: u64,
    step: usize,
    finished: bool,
}

impl ProfileTask {
    /// The request.
    pub closed spec fn request_model(&self) -> RequestModel {
        self.request@
    }

    /// The time at which the task stamps what it writes.
    pub closed spec fn time(&self) -> u64 {
        self.now
    }

    /// How many operations have succeeded.
    pub closed spec fn done_steps(&self) -> nat {
        self.step as nat
    }

    /// Whether the task has given its reply.
    pub closed spec fn is_finished(&self) -> bool {
        self.finished
    }

    /// The operation the task waits on.
    pub open spec fn pending(&self) -> ActionModel {
        plan(self.request_model(), self.time())[self.done_steps() as int]
    }

    /// Whether the task is consistent: it waits on an operation of its
    /// plan.
    pub closed spec fn wf(&self) -> bool {
        &&& request_fits(self.request@)
        &&& self.step < plan(self.request@, self.now).len()
    }

    /// A consistent task waits on an operation of its plan.
    pub proof fn lemma_pending_in_plan(&self)
        requires
            self.wf(),
        ensures
            self.done_steps() < plan(self.request_model(), self.time()).len(),
    {
    }

    /// When the last operation of a running task's plan succeeds, the
    /// reply the task gives is the one its request asks for.
    pub proof fn law_task_reply_answers(&self, ev: EventModel)
        requires
            self.wf(),
            !(ev is Failed),
            event_fits(self.pending(), ev),
            self.done_steps() + 1 == plan(self.request_model(), self.time()).len(),
        ensures
            reply_answers(self.request_model(), final_reply(self.request_model(), ev)),
    {
        law_final_reply_answers(self.request_model(), self.time(), ev);
    }

    /// The number of operations of the plan.
    fn plan_len(&self) -> (n: usize)
        requires
            request_fits(self.request@),
        ensures
            n == plan(self.request@, self.now).len(),
    {
        match &self.request {
            ProfileRequest::CountNodes(_) => 2,
            ProfileRequest::ListAllNodes(_) => 2,
            ProfileRequest::AppendNode(_, _) => 2,
            ProfileRequest::UpdateGroup(_, ns) => ns.len() + 2,
            _ => 1,
        }
    }

    /// Operation `k` of the plan.
    fn action_at(&self, k: usize) -> (a: TableAction)
        requires
            k < plan(self.request@, self.now).len(),
        ensures
            a@ == plan(self.request@, self.now)[k as int],
    {
        match &self.request {
            ProfileRequest::CountGroups => TableAction::CountGroups,
            ProfileRequest::ListAllGroups => TableAction::ListAllGroups,
            ProfileRequest::CountNodes(g) => if k == 0 {
                TableAction::QueryGroup(*g)
            } else {
                TableAction::CountNodes(*g)
            },
            ProfileRequest::ListAllNodes(g) => if k == 0 {
                TableAction::QueryGroup(*g)
            } else {
                TableAction::ListAllNodes(*g)
            },
            ProfileRequest::GetGroupById(g) => TableAction::QueryGroup(*g),
            ProfileRequest::GetNodeById(n) => TableAction::QueryNode(*n),
            ProfileRequest::RemoveGroupById(g) => TableAction::RemoveGroup(*g),
            ProfileRequest::RemoveNodeById(n) => TableAction::RemoveNode(*n),
            ProfileRequest::SetGroupById(g, d) => TableAction::SetGroup(*g, d.duplicate()),
            ProfileRequest::SetNodeById(n, d) => TableAction::SetNode(*n, d.duplicate()),
            ProfileRequest::AppendGroup(d) => TableAction::AppendGroup(d.duplicate()),
            ProfileRequest::AppendNode(g, d) => if k == 0 {
                TableAction::QueryGroup(*g)
            } else {
                TableAction::AppendNode(*g, d.duplicate())
            },
            ProfileRequest::UpdateGroup(g, ns) => {
                if k == 0 {
                    TableAction::QueryGroup(*g)
                } else if k == 1 {
                    TableAction::RemoveAllNodes(*g)
                } else {
                    let mut n = ns[k - 2].duplicate();
                    n.set_create_at(self.now);
                    n.set_modified_at(self.now);
                    n.group_id = *g;
                    assert(node_models(ns@)[k - 2] == ns@[k - 2]@);
                    TableAction::AppendNode(*g, n)
                }
            },
        }
    }

    /// The reply when the last operation succeeds with `event` (see
    /// `final_reply`).
    fn final_reply_exec(&self, event: TableEvent) -> (r: ProfileReply)
        ensures
            r@ == final_reply(self.request@, event@),
    {
        match &self.request {
            ProfileRequest::CountGroups => match event {
                TableEvent::Count(c) => ProfileReply::CountGroups(c),
                _ => ProfileReply::Error(String::new()),
            },
            ProfileRequest::ListAllGroups => match event {
                TableEvent::Groups(v) => ProfileReply::ListAllGroups(v),
                _ => ProfileReply::Error(String::new()),
            },
            ProfileRequest::CountNodes(_) => match event {
                TableEvent::Count(c) => ProfileReply::CountNodes(c),
                _ => ProfileReply::Error(String::new()),
            },
            ProfileRequest::ListAllNodes(_) => match event {
                TableEvent::Nodes(v) => ProfileReply::ListAllNodes(v),
                _ => ProfileReply::Error(String::new()),
            },
            ProfileRequest::GetGroupById(_) => match event {
                TableEvent::Group(g) => ProfileReply::GetGroupById(g),
                _ => ProfileReply::Error(String::new()),
            },
            ProfileRequest::GetNodeById(_) => match event {
                TableEvent::Node(n) => ProfileReply::GetNodeById(n),
                _ => ProfileReply::Error(String::new()),
            },
            ProfileRequest::RemoveGroupById(_) => ProfileReply::RemoveGroupById,
            ProfileRequest::RemoveNodeById(_) => ProfileReply::RemoveNodeById,
            ProfileRequest::SetGroupById(_, _) => ProfileReply::SetGroupById,
            ProfileRequest::SetNodeById(_, _) => ProfileReply::SetNodeById,
            ProfileRequest::AppendGroup(_) => ProfileReply::AppendGroup,
            ProfileRequest::AppendNode(_, _) => ProfileReply::AppendNode,
            ProfileRequest::UpdateGroup(_, _) => ProfileReply::UpdateGroup,
        }
    }

    /// Starts answering `request` at time `now`: the task asks for the
    /// first operation of its plan.
    pub fn start(request: ProfileRequest, now: u64) -> (res: (ProfileTask, TableAction))
        requires
            request_fits(request@),
        ensures
            res.0.wf(),
            res.0.request_model() == request@,
            res.0.time() == now,
            res.0.done_steps() == 0,
            !res.0.is_finished(),
            res.1@ == plan(request@, now)[0],
    {
        let task = ProfileTask { request, now, step: 0, finished: false };
        let action = task.action_at(0);
        (task, action)
    }

    /// Takes how the pending operation went. A failure ends the task with
    /// an error reply carrying its message; a success asks for the next
    /// operation of the plan, or, after the last one, ends the task with
    /// the reply that the request asks for.
    pub fn on_event(&mut self, event: TableEvent) -> (a: TableAction)
        requires
            old(self).wf(),
            !old(self).is_finished(),
            event_fits(old(self).pending(), event@),
        ensures
            final(self).request_model() == old(self).request_model(),
            final(self).time() == old(self).time(),
            a@ matches ActionModel::Reply(r) ==> final(self).is_finished() && (r is Error || reply_answers(
                old(self).request_model(),
                r,
            )),
            a@ == next_action(old(self).request_model(), old(self).time(), old(self).done_steps(), event@),
            match event@ {
                EventModel::Failed(e) => final(self).is_finished() && a@ == ActionModel::Reply(
                    ReplyModel::Error(e),
                ),
                _ => if old(self).done_steps() + 1 < plan(old(self).request_model(), old(self).time()).len() {
                    &&& final(self).wf()
                    &&& !final(self).is_finished()
                    &&& final(self).done_steps() == old(self).done_steps() + 1
                    &&& a@ == final(self).pending()
                } else {
                    final(self).is_finished() && a@ == ActionModel::Reply(
                        final_reply(old(self).request_model(), event@),
                    )
                },
            },
    {
        let event = match event {
            TableEvent::Failed(e) => {
                self.finished = true;
                return TableAction::Reply(ProfileReply::Error(e));
            },
            other => other,
        };
        let n = self.plan_len();
        proof {
            if !(self.step + 1 < n) {
                self.law_task_reply_answers(event@);
            }
        }
        if self.step + 1 < n {
            self.step = self.step + 1;
            self.action_at(self.step)
        } else {
            self.finished = true;
            TableAction::Reply(self.final_reply_exec(event))
        }
    }
}

/// A task's reply is one that the requester accepts: when the last
/// operation of the plan succeeds, the reply is the one the request asks
/// for (and a failure gives an error reply, which is accepted as well).
pub proof fn law_final_reply_answers(req: RequestModel, now: u64, ev: EventModel)
    requires
        !(ev is Failed),
        event_fits(plan(req, now).last(), ev),
    ensures
        reply_answers(req, final_reply(req, ev)),
{
    match req {
        RequestModel::UpdateGroup(g, ns) => {
            let p = plan(req, now);
            if ns.len() > 0 {
                assert(p.last() == ActionModel::AppendNode(g, update_stamped(ns.last(), g, now)));
            } else {
                assert(p.last() == ActionModel::RemoveAllNodes(g));
            }
        },
        _ => {},
    }
}

/// The operation or reply that a task asks for when the operation at step
/// `k` of its plan went as `ev` says (see `ProfileTask::on_event`).
pub open spec fn next_action(req: RequestModel, now: u64, k: nat, ev: EventModel) -> ActionModel {
    match ev {
        EventModel::Failed(e) => ActionModel::Reply(ReplyModel::Error(e)),
        _ => if k + 1 < plan(req, now).len() {
            plan(req, now)[(k + 1) as int]
        } else {
            ActionModel::Reply(final_reply(req, ev))
        },
    }
}

/// What a task asks for, in order, from step `k` on, when the operations go
/// as `evs` says one by one; the run ends with the first reply.
pub open spec fn run_actions(req: RequestModel, now: u64, k: nat, evs: Seq<EventModel>) -> Seq<ActionModel>
    decreases evs.len(),
{
    if evs.len() == 0 {
        Seq::<ActionModel>::empty()
    } else {
        let a = next_action(req, now, k, evs[0]);
        if a is Reply {
            seq![a]
        } else {
            seq![a] + run_actions(req, now, k + 1, evs.drop_first())
        }
    }
}

/// Whether the events tell, one by one, how the operations of the plan from
/// step `k` on went.
pub open spec fn events_fit(req: RequestModel, now: u64, k: nat, evs: Seq<EventModel>) -> bool {
    forall|i: int|
        0 <= i < evs.len() && k + i < plan(req, now).len() ==> #[trigger] event_fits(
            plan(req, now)[k + i],
            evs[i],
        )
}

/// No operation of a plan is a reply.
pub proof fn lemma_plan_has_no_reply(req: RequestModel, now: u64)
    ensures
        forall|i: int| 0 <= i < plan(req, now).len() ==> !(#[trigger] plan(req, now)[i] is Reply),
{
    match req {
        RequestModel::UpdateGroup(g, ns) => {
            let p = plan(req, now);
            assert forall|i: int| 0 <= i < p.len() implies !(#[trigger] p[i] is Reply) by {
                if i >= 2 {
                    assert(p[i] == ActionModel::AppendNode(g, update_stamped(ns[i - 2], g, now)));
                }
            }
        },
        _ => {},
    }
}

/// A whole run of a task gives exactly one reply: when the operations
/// from step `k` on go as `evs` says, and the events reach the end of the
/// plan, the run ends with one reply and asks for no reply before it; the
/// reply is an error or the one the request asks for.
pub proof fn law_run_gives_one_reply(req: RequestModel, now: u64, k: nat, evs: Seq<EventModel>)
    requires
        k < plan(req, now).len(),
        events_fit(req, now, k, evs),
        evs.len() + k >= plan(req, now).len(),
    ensures
        run_actions(req, now, k, evs).len() >= 1,
        forall|i: int|
            0 <= i < run_actions(req, now, k, evs).len() - 1 ==> !(#[trigger] run_actions(req, now, k, evs)[i] is Reply),
        run_actions(req, now, k, evs).last() matches ActionModel::Reply(r) && (r is Error || reply_answers(req, r)),
    decreases evs.len(),
{
    lemma_plan_has_no_reply(req, now);
    let p = plan(req, now);
    let ev = evs[0];
    assert(event_fits(p[k as int + 0], evs[0]));
    let a = next_action(req, now, k, ev);
    let r = run_actions(req, now, k, evs);
    if a is Reply {
        assert(r =~= seq![a]);
        if !(ev is Failed) {
            assert(k + 1 >= p.len());
            assert(p.last() == p[k as int]);
            law_final_reply_answers(req, now, ev);
        }
    } else {
        let rest = evs.drop_first();
        assert(k + 1 < p.len());
        assert forall|i: int| 0 <= i < rest.len() && (k + 1) + i < p.len() implies #[trigger] event_fits(
            p[(k + 1) + i],
            rest[i],
        ) by {
            assert(rest[i] == evs[i + 1]);
            assert(event_fits(p[k + (i + 1)], evs[i + 1]));
        }
        law_run_gives_one_reply(req, now, k + 1, rest);
        let tail = run_actions(req, now, k + 1, rest);
        assert(r =~= seq![a] + tail);
        assert forall|i: int| 0 <= i < r.len() - 1 implies !(#[trigger] r[i] is Reply) by {
            if i > 0 {
                assert(r[i] == tail[i - 1]);
            }
        }
        assert(r.last() == tail.last());
    }
}

/// What a listener is told after a request has changed the profile.
#[derive(Debug, Clone, Copy, PartialEq, Eq)]
pub enum ProfileSignal {
    Empty,
    AppendGroup,
    RemoveGroupById(i32),
    RemoveNodeById(i32),
    SetGroupById(i32),
    SetNodeById(i32),
    AppendNode(i32),
    UpdateGroup(i32),
}

/// The signal that a request gives once it has succeeded: requests that
/// only read give none.
pub open spec fn signal_for(req: RequestModel) -> Option<ProfileSignal> {
    match req {
        RequestModel::RemoveGroupById(g) => Some(ProfileSignal::RemoveGroupById(g)),
        RequestModel::RemoveNodeById(n) => Some(ProfileSignal::RemoveNodeById(n)),
        RequestModel::SetGroupById(g, _) => Some(ProfileSignal::SetGroupById(g)),
        RequestModel::SetNodeById(n, _) => Some(ProfileSignal::SetNodeById(n)),
        RequestModel::AppendGroup(_) => Some(ProfileSignal::AppendGroup),
        RequestModel::AppendNode(g, _) => Some(ProfileSignal::AppendNode(g)),
        RequestModel::UpdateGroup(g, _) => Some(ProfileSignal::UpdateGroup(g)),
        _ => None,
    }
}

/// The signal that a request gives once it has succeeded (see
/// `signal_for`).
pub fn signal_after(req: &ProfileRequest) -> (s: Option<ProfileSignal>)
    ensures
        s == signal_for(req@),
{
    match req {
        ProfileRequest::RemoveGroupById(g) => Some(ProfileSignal::RemoveGroupById(*g)),
        ProfileRequest::RemoveNodeById(n) => Some(ProfileSignal::RemoveNodeById(*n)),
        ProfileRequest::SetGroupById(g, _) => Some(ProfileSignal::SetGroupById(*g)),
        ProfileRequest::SetNodeById(n, _) => Some(ProfileSignal::SetNodeById(*n)),
        ProfileRequest::AppendGroup(_) => Some(ProfileSignal::AppendGroup),
        ProfileRequest::AppendNode(g, _) => Some(ProfileSignal::AppendNode(*g)),
        ProfileRequest::UpdateGroup(g, _) => Some(ProfileSignal::UpdateGroup(*g)),
        _ => None,
    }
}

} // verus!
