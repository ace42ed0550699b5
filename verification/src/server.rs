//! The decisions of the server's services: the proxy that a subscription
//! is fetched through, how a fetched subscription is read, the cores that
//! can be run and how one is chosen, the stored node ids, the names of
//! traffic statistics, and the configuration file with its inbounds.

use vstd::prelude::*;

use crate::data::{stamp, GroupData, GroupModel, NodeData, NodeModel};
use crate::profile::{default_routing_name, Group};
use crate::json;
use crate::json::{check_is_default_and_delete, json_get, json_to_string_pretty, parse_json, Json, JsonNumber, JsonValue, Num};
use crate::serialize::{opt_str, subscription_decodable, subscription_nodes, nodes_result, try_get_nodes_from_base64, DecodeError};
use crate::text;
use crate::text::{chars_eq_str, chars_of, decimal_exec, decimal_i64_exec, extend_chars, parse_i64_exec, string_of, trim_exec};

verus! {

/// The HTTP inbound of the local proxy.
pub struct HttpInbound {
    pub listen: String,
    pub port: u32,
}

/// The HTTP address of a listening endpoint: `http://<listen>:<port>`.
pub open spec fn http_address_spec(listen: Seq<char>, port: u32) -> Seq<char> {
    "http://"@ + listen + ":"@ + text::decimal(port as nat)
}

/// The address of the local HTTP proxy when the proxy is to be used and
/// there is an HTTP inbound; the empty text otherwise.
pub open spec fn proxy_url_spec(use_proxy: bool, http: Option<(Seq<char>, u32)>) -> Seq<char> {
    match http {
        Some(h) => if use_proxy {
            http_address_spec(h.0, h.1)
        } else {
            Seq::empty()
        },
        None => Seq::empty(),
    }
}

/// The model of an optional HTTP inbound.
pub open spec fn opt_inbound(h: Option<HttpInbound>) -> Option<(Seq<char>, u32)> {
    match h {
        Some(h) => Some((h.listen@, h.port)),
        None => None,
    }
}

/// The HTTP address of a listening endpoint (see `http_address_spec`):
/// the proxy that subscriptions are fetched through, and the core's API.
pub fn http_address(listen: &str, port: u32) -> (res: String)
    ensures
        res@ == http_address_spec(listen@, port),
{
    let mut out = chars_of("http://");
    extend_chars(&mut out, &chars_of(listen));
    extend_chars(&mut out, &chars_of(":"));
    extend_chars(&mut out, &decimal_exec(port as u64));
    string_of(&out)
}

/// The proxy that a subscription is fetched through (see
/// `proxy_url_spec`).
pub fn proxy_url(use_proxy: bool, http: &Option<HttpInbound>) -> (res: String)
    ensures
        res@ == proxy_url_spec(use_proxy, opt_inbound(*http)),
{
    match http {
        Some(h) => {
            if use_proxy {
                http_address(h.listen.as_str(), h.port)
            } else {
                String::new()
            }
        },
        None => String::new(),
    }
}

/// The lines, each trimmed, joined without separators.
pub open spec fn concat_trimmed(ls: Seq<Seq<char>>) -> Seq<char>
    decreases ls.len(),
{
    if ls.len() == 0 {
        Seq::<char>::empty()
    } else {
        concat_trimmed(ls.drop_last()) + text::trim(ls.last())
    }
}

/// The text of a fetched subscription: its lines trimmed and joined.
pub open spec fn joined_content(content: Seq<char>) -> Seq<char> {
    concat_trimmed(text::lines(content))
}

/// The lines of a fetched text, each trimmed, joined without separators
/// (see `joined_content`).
pub fn join_trimmed_lines(content: &str) -> (res: String)
    ensures
        res@ == joined_content(content@),
{
    let cs = chars_of(content);
    let ls = text::lines_exec(&cs);
    let ghost all = text::views(ls@);
    let mut out: Vec<char> = Vec::new();
    let mut i: usize = 0;
    while i < ls.len()
        invariant
            i <= ls@.len(),
            all == text::views(ls@),
            all == text::lines(content@),
            out@ == concat_trimmed(all.subrange(0, i as int)),
        decreases ls.len() - i,
    {
        assert(all[i as int] == ls@[i as int]@);
        assert(all.subrange(0, i + 1).drop_last() =~= all.subrange(0, i as int));
        let t = trim_exec(&ls[i]);
        extend_chars(&mut out, &t);
        i = i + 1;
    }
    assert(all.subrange(0, ls@.len() as int) =~= all);
    string_of(&out)
}

/// The nodes of a fetched subscription: its lines are trimmed and joined
/// into one Base64 text, which is decoded (see `subscription_nodes`); the
/// result is `None` when some link of it cannot be decoded (see
/// `subscription_decodable`).
pub fn nodes_from_content(content: &str) -> (res: Option<Result<Vec<NodeData>, DecodeError>>)
    ensures
        match res {
            Some(r) => subscription_decodable(joined_content(content@)) && nodes_result(r)
                == subscription_nodes(joined_content(content@)),
            None => !subscription_decodable(joined_content(content@)),
        },
{
    let joined = join_trimmed_lines(content);
    try_get_nodes_from_base64(joined.as_str())
}

/// The name of a traffic statistic of the core's API:
/// `outbound>>><tag>>>>traffic>>><kind>`.
pub open spec fn stat_name_spec(tag: Seq<char>, kind: Seq<char>) -> Seq<char> {
    "outbound>>>"@ + tag + ">>>traffic>>>"@ + kind
}

/// The name of a traffic statistic (see `stat_name_spec`).
pub fn stat_name(tag: &str, kind: &str) -> (res: String)
    ensures
        res@ == stat_name_spec(tag@, kind@),
{
    let mut out = chars_of("outbound>>>");
    extend_chars(&mut out, &chars_of(tag));
    extend_chars(&mut out, &chars_of(">>>traffic>>>"));
    extend_chars(&mut out, &chars_of(kind));
    string_of(&out)
}

/// A stored node id: the text of an `i64`, as `i64::from_str` reads it.
pub fn parse_node_id(s: &str) -> (res: Option<i64>)
    ensures
        res == text::parse_i64(s@),
{
    let cs = chars_of(s);
    parse_i64_exec(&cs)
}

/// The text under which a node id is stored, as `i64`'s `Display` writes
/// it.
pub fn node_id_text(id: i64) -> (res: String)
    ensures
        res@ == text::decimal_int(id as int),
{
    string_of(&decimal_i64_exec(id))
}

/// The id that a stored text names, if it is one.
pub open spec fn stored_id(s: Option<Seq<char>>) -> Option<i64> {
    match s {
        Some(t) => text::parse_i64(t),
        None => None,
    }
}

/// The node ids to select at start, in the order they are tried: the
/// default node's, then the current node's, each when it is stored and
/// reads as an id.
pub open spec fn startup_ids_spec(default_id: Option<Seq<char>>, current_id: Option<Seq<char>>) -> Seq<i64> {
    let first = match stored_id(default_id) {
        Some(i) => seq![i],
        None => Seq::<i64>::empty(),
    };
    match stored_id(current_id) {
        Some(i) => first.push(i),
        None => first,
    }
}

/// The node ids to select at start, in the order they are tried (see
/// `startup_ids_spec`); `StartupSelection` tries them.
pub fn startup_node_ids(default_id: &Option<String>, current_id: &Option<String>) -> (res: Vec<i64>)
    ensures
        res@ == startup_ids_spec(opt_str(*default_id), opt_str(*current_id)),
{
    let mut ids: Vec<i64> = Vec::new();
    match default_id {
        Some(t) => match parse_node_id(t.as_str()) {
            Some(i) => ids.push(i),
            None => {},
        },
        None => {},
    }
    let ghost first = ids@;
    match current_id {
        Some(t) => match parse_node_id(t.as_str()) {
            Some(i) => ids.push(i),
            None => {},
        },
        None => {},
    }
    assert(first =~= match stored_id(opt_str(*default_id)) {
        Some(i) => seq![i],
        None => Seq::<i64>::empty(),
    });
    ids
}

/// A signal that the services send to their listeners.
#[derive(Debug, Clone, PartialEq, Eq)]
pub enum AColorSignal {
    /// The configuration of the core has changed.
    CoreConfigChanged,
    /// The runtime value of the name has changed.
    RuntimeValueChanged(String),
    /// The group with the id has lost all its nodes.
    EmptyGroup(i32),
    /// The group with the id has been filled anew.
    UpdateGroup(i32),
}

/// The model of a signal.
pub enum SignalModel {
    CoreConfigChanged,
    RuntimeValueChanged(Seq<char>),
    EmptyGroup(i32),
    UpdateGroup(i32),
}

impl View for AColorSignal {
    type V = SignalModel;

    open spec fn view(&self) -> SignalModel {
        match self {
            AColorSignal::CoreConfigChanged => SignalModel::CoreConfigChanged,
            AColorSignal::RuntimeValueChanged(k) => SignalModel::RuntimeValueChanged(k@),
            AColorSignal::EmptyGroup(g) => SignalModel::EmptyGroup(*g),
            AColorSignal::UpdateGroup(g) => SignalModel::UpdateGroup(*g),
        }
    }
}

/// The models of signals, in order.
pub open spec fn signal_models(s: Seq<AColorSignal>) -> Seq<SignalModel> {
    s.map_values(|x: AColorSignal| x@)
}

/// The runtime value under which the current node's id is kept.
pub open spec fn current_node_key() -> Seq<char> {
    "CURRENT_NODE_ID"@
}

/// What selecting a node as the core's configuration changes: the current
/// node, the runtime value that keeps its id, and the signals to send, in
/// order.
pub struct ConfigChange {
    pub node: NodeData,
    pub runtime_key: String,
    pub runtime_value: String,
    pub signals: Vec<AColorSignal>,
}

/// Whether `c` is what selecting the node `node` with id `node_id` changes:
/// `node` becomes the current node, `CURRENT_NODE_ID` is set to the id's
/// decimal text, and the signals are that the core's configuration changed
/// and then that `CURRENT_NODE_ID` changed.
pub open spec fn config_change_ok(c: ConfigChange, node_id: i64, node: NodeModel) -> bool {
    &&& c.node@ == node
    &&& c.runtime_key@ == current_node_key()
    &&& c.runtime_value@ == text::decimal_int(node_id as int)
    &&& signal_models(c.signals@) == seq![
        SignalModel::CoreConfigChanged,
        SignalModel::RuntimeValueChanged(current_node_key()),
    ]
}

/// The id that selecting a node keeps under `CURRENT_NODE_ID` reads back
/// as that node's id, so the next start tries that node: after the
/// default node when one is stored, else alone.
pub proof fn law_selected_node_read_back_at_start(
    c: ConfigChange,
    node_id: i64,
    node: NodeModel,
    default_id: Option<Seq<char>>,
)
    requires
        config_change_ok(c, node_id, node),
    ensures
        stored_id(Some(c.runtime_value@)) == Some(node_id),
        startup_ids_spec(default_id, Some(c.runtime_value@)).len() >= 1,
        startup_ids_spec(default_id, Some(c.runtime_value@)).last() == node_id,
        stored_id(default_id) is None ==> startup_ids_spec(default_id, Some(c.runtime_value@)) == seq![node_id],
        stored_id(default_id) matches Some(d) ==> startup_ids_spec(default_id, Some(c.runtime_value@)) == seq![
            d,
            node_id,
        ],
{
    text::law_decimal_reads_back(0, node_id);
    if stored_id(default_id) is Some {
        assert(startup_ids_spec(default_id, Some(c.runtime_value@)) =~= seq![stored_id(default_id)->Some_0, node_id]);
    } else {
        assert(startup_ids_spec(default_id, Some(c.runtime_value@)) =~= seq![node_id]);
    }
}

/// What selecting the node `node`, read under the id `node_id`, changes (see
/// `config_change_ok`).
pub fn set_config(node_id: i64, node: NodeData) -> (c: ConfigChange)
    ensures
        config_change_ok(c, node_id, node@),
{
    proof {
        reveal_strlit("CURRENT_NODE_ID");
    }
    let mut signals: Vec<AColorSignal> = Vec::new();
    signals.push(AColorSignal::CoreConfigChanged);
    signals.push(AColorSignal::RuntimeValueChanged(String::from_str("CURRENT_NODE_ID")));
    assert(signal_models(signals@) =~= seq![
        SignalModel::CoreConfigChanged,
        SignalModel::RuntimeValueChanged(current_node_key()),
    ]);
    ConfigChange {
        node,
        runtime_key: String::from_str("CURRENT_NODE_ID"),
        runtime_value: node_id_text(node_id),
        signals,
    }
}

/// What the selection of the start node asks for next.
pub enum StartupStep {
    /// Read the node with this id, and tell whether it exists.
    Query(i64),
    /// This node is selected.
    Selected(ConfigChange),
    /// No candidate names a node: there is no current node.
    NoneSelected,
}

/// The selection of the node that the core starts with: the candidates (see
/// `startup_ids_spec`) are read in order, and the first that names an
/// existing node is selected.
pub struct StartupSelection {
    ids: Vec<i64>,
    pos: usize,
}

impl StartupSelection {
    /// The candidates, in the order they are tried.
    pub closed spec fn ids_model(&self) -> Seq<i64> {
        self.ids@
    }

    /// How many candidates have been found missing.
    pub closed spec fn position(&self) -> nat {
        self.pos as nat
    }

    /// Starts the selection from the stored default and current node ids:
    /// the first candidate is read, or, without candidates, nothing is
    /// selected.
    pub fn start(default_id: &Option<String>, current_id: &Option<String>) -> (res: (StartupSelection, StartupStep))
        ensures
            res.0.ids_model() == startup_ids_spec(opt_str(*default_id), opt_str(*current_id)),
            res.0.position() == 0,
            match res.1 {
                StartupStep::Query(i) => res.0.ids_model().len() > 0 && i == res.0.ids_model()[0],
                StartupStep::NoneSelected => res.0.ids_model().len() == 0,
                StartupStep::Selected(_) => false,
            },
    {
        let ids = startup_node_ids(default_id, current_id);
        if ids.len() == 0 {
            (StartupSelection { ids, pos: 0 }, StartupStep::NoneSelected)
        } else {
            let first = ids[0];
            (StartupSelection { ids, pos: 0 }, StartupStep::Query(first))
        }
    }

    /// Takes what reading the pending candidate found. A node found is
    /// selected; a candidate found missing is skipped for the next one, and
    /// after the last one nothing is selected.
    pub fn on_lookup(&mut self, found: Option<NodeData>) -> (step: StartupStep)
        requires
            old(self).position() < old(self).ids_model().len(),
        ensures
            final(self).ids_model() == old(self).ids_model(),
            match found {
                Some(n) => step matches StartupStep::Selected(c) && config_change_ok(
                    c,
                    old(self).ids_model()[old(self).position() as int],
                    n@,
                ),
                None => if old(self).position() + 1 < old(self).ids_model().len() {
                    &&& final(self).position() == old(self).position() + 1
                    &&& step matches StartupStep::Query(i)
                    &&& i == old(self).ids_model()[final(self).position() as int]
                } else {
                    step is NoneSelected
                },
            },
    {
        match found {
            Some(n) => StartupStep::Selected(set_config(self.ids[self.pos], n)),
            None => {
                if self.pos < self.ids.len() - 1 {
                    self.pos = self.pos + 1;
                    StartupStep::Query(self.ids[self.pos])
                } else {
                    StartupStep::NoneSelected
                }
            },
        }
    }
}

/// The first position of `ids` whose node has_node.
pub open spec fn first_existing(ids: Seq<i64>, has_node: spec_fn(i64) -> bool) -> Option<int>
    decreases ids.len(),
{
    if ids.len() == 0 {
        None
    } else {
        match first_existing(ids.drop_last(), has_node) {
            Some(i) => Some(i),
            None => if has_node(ids.last()) {
                Some(ids.len() - 1)
            } else {
                None
            },
        }
    }
}

/// When the selection has skipped the candidates before position `k`
/// because their nodes do not exist, and the node of candidate `k` has_node,
/// candidate `k` is the first whose node has_node.
pub proof fn law_selection_takes_first_existing(ids: Seq<i64>, has_node: spec_fn(i64) -> bool, k: int)
    requires
        0 <= k < ids.len(),
        forall|j: int| 0 <= j < k ==> !has_node(#[trigger] ids[j]),
        has_node(ids[k]),
    ensures
        first_existing(ids, has_node) == Some(k),
    decreases ids.len(),
{
    if k < ids.len() - 1 {
        let t = ids.drop_last();
        assert forall|j: int| 0 <= j < k implies !has_node(#[trigger] t[j]) by {
            assert(t[j] == ids[j]);
        }
        assert(t[k] == ids[k]);
        law_selection_takes_first_existing(t, has_node, k);
    } else {
        lemma_first_existing_none(ids.drop_last(), has_node);
    }
}

/// Without an existing node among the candidates, none is found.
pub proof fn lemma_first_existing_none(ids: Seq<i64>, has_node: spec_fn(i64) -> bool)
    requires
        forall|j: int| 0 <= j < ids.len() ==> !has_node(#[trigger] ids[j]),
    ensures
        first_existing(ids, has_node) is None,
    decreases ids.len(),
{
    if ids.len() > 0 {
        let t = ids.drop_last();
        assert forall|j: int| 0 <= j < t.len() implies !has_node(#[trigger] t[j]) by {
            assert(t[j] == ids[j]);
        }
        lemma_first_existing_none(t, has_node);
        assert(!has_node(ids[ids.len() - 1]));
    }
}

/// A node as group `g` stores it when it takes it in at time `now` (see
/// `Group::append_record`).
pub open spec fn appended_node(g: GroupModel, n: NodeModel, now: u64) -> NodeModel {
    NodeModel {
        group_id: g.id,
        group_name: g.name,
        routing_id: 0,
        routing_name: default_routing_name(),
        create_at: stamp(now),
        modified_at: stamp(now),
        ..n
    }
}

/// What the update of a group asks for next.
pub enum UpdateStep {
    /// Remove all nodes of the group with this id.
    RemoveAllNodes(i32),
    /// Send the signal, if any, then add this node to the group's table.
    Append { signal: Option<AColorSignal>, node: NodeData },
    /// Send the signals, in order; the update has succeeded.
    Finish { signals: Vec<AColorSignal> },
    /// The group could not be emptied: the update fails with this message.
    Failed(String),
}

/// The model of an optional signal.
pub open spec fn opt_signal(s: Option<AColorSignal>) -> Option<SignalModel> {
    match s {
        Some(x) => Some(x@),
        None => None,
    }
}

/// The update of a group with the nodes of its subscription: the group is
/// emptied, which is signalled, then every node is added in order, a node
/// that cannot be added being skipped, and the update is signalled.
pub struct GroupUpdate {
    group: Group,
    nodes: Vec<NodeData>,
    pos: usize,
    now: u64,
    emptied: bool,
}

impl GroupUpdate {
    /// The group that is updated.
    pub closed spec fn group_model(&self) -> GroupModel {
        self.group@
    }

    /// The nodes that the group gets, in order.
    pub closed spec fn nodes_model(&self) -> Seq<NodeModel> {
        self.nodes@.map_values(|n: NodeData| n@)
    }

    /// The time at which the nodes are added.
    pub closed spec fn time(&self) -> u64 {
        self.now
    }

    /// Whether the group has been emptied.
    pub closed spec fn emptied(&self) -> bool {
        self.emptied
    }

    /// The position of the node being added.
    pub closed spec fn position(&self) -> nat {
        self.pos as nat
    }

    /// Whether the update is consistent: once the group is emptied, a node
    /// of the list is being added.
    pub closed spec fn wf(&self) -> bool {
        self.emptied ==> self.pos < self.nodes@.len()
    }

    /// Starts updating `group` with `nodes` at time `now`: the group is
    /// emptied first.
    pub fn start(group: GroupData, nodes: Vec<NodeData>, now: u64) -> (res: (GroupUpdate, UpdateStep))
        ensures
            res.0.wf(),
            res.0.group_model() == group@,
            res.0.nodes_model() == nodes@.map_values(|n: NodeData| n@),
            res.0.time() == now,
            !res.0.emptied(),
            res.1 matches UpdateStep::RemoveAllNodes(id) && id == group@.id,
    {
        let id = group.id;
        (GroupUpdate { group: Group::new(group), nodes, pos: 0, now, emptied: false }, UpdateStep::RemoveAllNodes(id))
    }

    /// The step that adds node `k`, or finishes after the last one; the
    /// signal goes with the first step after the group is emptied.
    fn step_at(&self, k: usize, first: bool) -> (step: UpdateStep)
        requires
            k <= self.nodes@.len(),
        ensures
            k < self.nodes@.len() ==> {
                &&& step matches UpdateStep::Append { signal, node }
                &&& node@ == appended_node(self.group@, self.nodes@[k as int]@, self.now)
                &&& opt_signal(signal) == if first {
                    Some(SignalModel::EmptyGroup(self.group@.id))
                } else {
                    None::<SignalModel>
                }
            },
            k == self.nodes@.len() ==> {
                &&& step matches UpdateStep::Finish { signals }
                &&& signal_models(signals@) == if first {
                    seq![SignalModel::EmptyGroup(self.group@.id), SignalModel::UpdateGroup(self.group@.id)]
                } else {
                    seq![SignalModel::UpdateGroup(self.group@.id)]
                }
            },
    {
        let id = self.group.data().id;
        if k < self.nodes.len() {
            let node = self.group.append_record(self.nodes[k].duplicate(), self.now);
            let signal = if first {
                Some(AColorSignal::EmptyGroup(id))
            } else {
                None
            };
            UpdateStep::Append { signal, node }
        } else {
            let mut signals: Vec<AColorSignal> = Vec::new();
            if first {
                signals.push(AColorSignal::EmptyGroup(id));
            }
            signals.push(AColorSignal::UpdateGroup(id));
            proof {
                if first {
                    assert(signal_models(signals@) =~= seq![
                        SignalModel::EmptyGroup(self.group@.id),
                        SignalModel::UpdateGroup(self.group@.id),
                    ]);
                } else {
                    assert(signal_models(signals@) =~= seq![SignalModel::UpdateGroup(self.group@.id)]);
                }
            }
            UpdateStep::Finish { signals }
        }
    }

    /// Takes how emptying the group went: a failure ends the update with
    /// its message; otherwise `EmptyGroup` is signalled and the first node
    /// is added, or, without nodes, `UpdateGroup` is signalled as well.
    pub fn on_emptied(&mut self, result: Result<(), String>) -> (step: UpdateStep)
        requires
            old(self).wf(),
            !old(self).emptied(),
        ensures
            final(self).group_model() == old(self).group_model(),
            final(self).nodes_model() == old(self).nodes_model(),
            final(self).time() == old(self).time(),
            match result {
                Err(e) => step matches UpdateStep::Failed(m) && m@ == e@,
                Ok(_) => if old(self).nodes_model().len() > 0 {
                    &&& final(self).wf()
                    &&& final(self).emptied()
                    &&& final(self).position() == 0
                    &&& step matches UpdateStep::Append { signal, node }
                    &&& node@ == appended_node(old(self).group_model(), old(self).nodes_model()[0], old(self).time())
                    &&& opt_signal(signal) == Some(SignalModel::EmptyGroup(old(self).group_model().id))
                } else {
                    step matches UpdateStep::Finish { signals } && signal_models(signals@) == seq![
                        SignalModel::EmptyGroup(old(self).group_model().id),
                        SignalModel::UpdateGroup(old(self).group_model().id),
                    ]
                },
            },
    {
        match result {
            Err(e) => UpdateStep::Failed(e),
            Ok(_) => {
                if self.nodes.len() > 0 {
                    self.emptied = true;
                    self.pos = 0;
                }
                let step = self.step_at(0, true);
                assert(self.nodes@.len() > 0 ==> self.nodes@[0]@ == self.nodes_model()[0]);
                step
            },
        }
    }

    /// Takes how adding the pending node went. Whether it was added or not
    /// (a node that cannot be added is skipped), the next node is added,
    /// or, after the last one, `UpdateGroup` is signalled.
    pub fn on_appended(&mut self, added: bool) -> (step: UpdateStep)
        requires
            old(self).wf(),
            old(self).emptied(),
        ensures
            final(self).group_model() == old(self).group_model(),
            final(self).nodes_model() == old(self).nodes_model(),
            final(self).time() == old(self).time(),
            if old(self).position() + 1 < old(self).nodes_model().len() {
                &&& final(self).wf()
                &&& final(self).emptied()
                &&& final(self).position() == old(self).position() + 1
                &&& step matches UpdateStep::Append { signal, node }
                &&& node@ == appended_node(
                    old(self).group_model(),
                    old(self).nodes_model()[final(self).position() as int],
                    old(self).time(),
                )
                &&& signal is None
            } else {
                step matches UpdateStep::Finish { signals } && signal_models(signals@) == seq![
                    SignalModel::UpdateGroup(old(self).group_model().id),
                ]
            },
    {
        let n = self.nodes.len();
        let next = self.pos + 1;
        if next < n {
            self.pos = next;
        }
        let step = self.step_at(next, false);
        assert(next < self.nodes@.len() ==> self.nodes@[next as int]@ == self.nodes_model()[next as int]);
        step
    }
}

/// The address of the core's statistics API.
pub struct ApiEndpoint {
    pub listen: String,
    pub port: u32,
}

/// How a request for traffic information is served.
pub enum TrafficPlan {
    /// Subscribe to the sender that is already running.
    Subscribe,
    /// Start a sender that polls the API at the address for the outbound
    /// tagged `tag`, keep it, and subscribe to it.
    Start { url: String, tag: String },
    /// The core has no API: the information is unavailable.
    Unavailable,
}

/// How a request for traffic information is served: a running sender is
/// reused, so that at most one is ever started; otherwise a sender for the
/// `PROXY` outbound is started at the core's API when it has one.
pub fn traffic_plan(has_sender: bool, api: &Option<ApiEndpoint>) -> (p: TrafficPlan)
    ensures
        has_sender ==> p is Subscribe,
        !has_sender ==> match api {
            Some(a) => p matches TrafficPlan::Start { url, tag } && url@ == http_address_spec(a.listen@, a.port)
                && tag@ == "PROXY"@,
            None => p is Unavailable,
        },
{
    if has_sender {
        TrafficPlan::Subscribe
    } else {
        match api {
            Some(a) => TrafficPlan::Start {
                url: http_address(a.listen.as_str(), a.port),
                tag: String::from_str("PROXY"),
            },
            None => TrafficPlan::Unavailable,
        }
    }
}

/// A core that can be run: its tag, its kind's name and its executable.
pub struct CoreEntry {
    pub tag: String,
    pub name: String,
    pub path: String,
}

/// The model of a core.
pub struct CoreModel {
    pub tag: Seq<char>,
    pub name: Seq<char>,
    pub path: Seq<char>,
}

impl View for CoreEntry {
    type V = CoreModel;

    open spec fn view(&self) -> CoreModel {
        CoreModel { tag: self.tag@, name: self.name@, path: self.path@ }
    }
}

/// The position of the core tagged `tag`.
pub open spec fn core_find(s: Seq<CoreModel>, tag: Seq<char>) -> Option<int>
    decreases s.len(),
{
    if s.len() == 0 {
        None
    } else {
        match core_find(s.drop_last(), tag) {
            Some(i) => Some(i),
            None => if s.last().tag == tag {
                Some(s.len() - 1)
            } else {
                None
            },
        }
    }
}

/// The cores with `c` stored under its tag: it replaces the core of that
/// tag, or comes last.
pub open spec fn core_upsert(s: Seq<CoreModel>, c: CoreModel) -> Seq<CoreModel> {
    match core_find(s, c.tag) {
        Some(i) => s.update(i, c),
        None => s.push(c),
    }
}

/// The core tagged `tag`.
pub open spec fn core_get(s: Seq<CoreModel>, tag: Seq<char>) -> Option<CoreModel> {
    match core_find(s, tag) {
        Some(i) => Some(s[i]),
        None => None,
    }
}

/// Whether no two cores share a tag.
pub open spec fn tags_unique(s: Seq<CoreModel>) -> bool {
    forall|i: int, j: int| 0 <= i < j < s.len() ==> #[trigger] s[i].tag != #[trigger] s[j].tag
}

/// A found position holds the first core of that tag; without one, no
/// core has the tag.
pub proof fn lemma_core_find(s: Seq<CoreModel>, tag: Seq<char>)
    ensures
        core_find(s, tag) matches Some(i) ==> 0 <= i < s.len() && s[i].tag == tag && forall|j: int|
            0 <= j < i ==> #[trigger] s[j].tag != tag,
        core_find(s, tag) is None ==> forall|j: int| 0 <= j < s.len() ==> #[trigger] s[j].tag != tag,
    decreases s.len(),
{
    if s.len() > 0 {
        let t = s.drop_last();
        lemma_core_find(t, tag);
        match core_find(t, tag) {
            Some(i) => {
                assert forall|j: int| 0 <= j < i implies #[trigger] s[j].tag != tag by {
                    assert(t[j].tag != tag);
                }
            },
            None => {
                assert forall|j: int| 0 <= j < s.len() - 1 implies #[trigger] s[j].tag != tag by {
                    assert(t[j].tag != tag);
                }
            },
        }
    }
}

/// Once a prefix holds the tag, the whole list finds it at the same
/// position.
pub proof fn lemma_core_find_prefix(s: Seq<CoreModel>, k: int, tag: Seq<char>)
    requires
        0 <= k <= s.len(),
        core_find(s.subrange(0, k), tag) is Some,
    ensures
        core_find(s, tag) == core_find(s.subrange(0, k), tag),
    decreases s.len(),
{
    if k == s.len() {
        assert(s.subrange(0, k) =~= s);
    } else {
        assert(s.drop_last().subrange(0, k) =~= s.subrange(0, k));
        lemma_core_find_prefix(s.drop_last(), k, tag);
    }
}

/// Two lists with the same tags at the same positions find a tag at the
/// same position.
pub proof fn lemma_core_find_same_tags(s: Seq<CoreModel>, t: Seq<CoreModel>, tag: Seq<char>)
    requires
        s.len() == t.len(),
        forall|j: int| 0 <= j < s.len() ==> #[trigger] s[j].tag == t[j].tag,
    ensures
        core_find(s, tag) == core_find(t, tag),
    decreases s.len(),
{
    if s.len() > 0 {
        assert forall|j: int| 0 <= j < s.len() - 1 implies #[trigger] s.drop_last()[j].tag == t.drop_last()[j].tag by {
            assert(s.drop_last()[j] == s[j]);
            assert(t.drop_last()[j] == t[j]);
        }
        lemma_core_find_same_tags(s.drop_last(), t.drop_last(), tag);
    }
}

/// Storing a core under its tag keeps the tags unique.
pub proof fn lemma_core_upsert_unique(s: Seq<CoreModel>, c: CoreModel)
    requires
        tags_unique(s),
    ensures
        tags_unique(core_upsert(s, c)),
{
    lemma_core_find(s, c.tag);
    let r = core_upsert(s, c);
    assert forall|i: int, j: int| 0 <= i < j < r.len() implies #[trigger] r[i].tag != #[trigger] r[j].tag by {
        match core_find(s, c.tag) {
            Some(k) => {
                assert(r[i].tag == s[i].tag);
                assert(r[j].tag == s[j].tag);
            },
            None => {
                assert(r[i] == s[i]);
                if j < s.len() {
                    assert(r[j] == s[j]);
                }
            },
        }
    }
}

/// Adding a core and looking up its tag gives that core; every other tag
/// keeps its core.
pub proof fn law_core_get_after_add(s: Seq<CoreModel>, c: CoreModel, tag: Seq<char>)
    ensures
        core_get(core_upsert(s, c), tag) == if tag == c.tag {
            Some(c)
        } else {
            core_get(s, tag)
        },
{
    lemma_core_find(s, c.tag);
    lemma_core_find(s, tag);
    let r = core_upsert(s, c);
    match core_find(s, c.tag) {
        Some(i) => {
            assert forall|j: int| 0 <= j < s.len() implies #[trigger] s[j].tag == r[j].tag by {}
            lemma_core_find_same_tags(s, r, tag);
            match core_find(s, tag) {
                Some(k) => {
                    if tag != c.tag {
                        assert(k != i);
                    }
                },
                None => {},
            }
        },
        None => {
            assert(r.drop_last() =~= s);
        },
    }
}

/// After the listed cores are added, the core given at start can be
/// chosen by its name, whatever the list holds.
pub proof fn law_start_core_available(s: Seq<CoreModel>, listed: Seq<CoreModel>, name: Seq<char>, path: Seq<char>)
    ensures
        core_get(
            core_upsert(add_all(s, listed), CoreModel { tag: name, name: name, path: path }),
            name,
        ) == Some(CoreModel { tag: name, name: name, path: path }),
{
    law_core_get_after_add(add_all(s, listed), CoreModel { tag: name, name: name, path: path }, name);
}

/// The ASCII lower case of a character.
pub open spec fn ascii_lower(c: char) -> char {
    if 'A' <= c && c <= 'Z' {
        ((c as u32) + 32) as char
    } else {
        c
    }
}

/// Whether a core's kind names V2Ray, in any ASCII case.
pub open spec fn is_v2ray_name(name: Seq<char>) -> bool {
    name.map_values(|c: char| ascii_lower(c)) == "v2ray"@
}

/// How a chosen core is run.
pub enum CoreChoice {
    /// A V2Ray core at the path.
    V2Ray { path: String },
    /// A core of another kind, run under its tag.
    External { tag: String, name: String, path: String },
}

/// Why a core cannot be chosen.
#[derive(Debug, Clone, Copy, PartialEq, Eq)]
pub enum CoreError {
    /// No core has the tag.
    CoreNotAdded,
}

/// The cores that can be run, by tag, and the tag of the one chosen.
pub struct AColoRSCore {
    core_tag: String,
    entries: Vec<CoreEntry>,
}

impl View for AColoRSCore {
    type V = Seq<CoreModel>;

    closed spec fn view(&self) -> Seq<CoreModel> {
        self.entries@.map_values(|c: CoreEntry| c@)
    }
}

/// Whether `c` is `lower` in either ASCII case, for a lower-case letter
/// `lower`.
fn eq_ignore_case(c: char, lower: char, upper: char) -> (b: bool)
    requires
        'a' <= lower <= 'z',
        upper as u32 + 32 == lower as u32,
    ensures
        b == (ascii_lower(c) == lower),
{
    c == lower || c == upper
}

/// Whether a core's kind names V2Ray (see `is_v2ray_name`).
pub fn is_v2ray(name: &str) -> (b: bool)
    ensures
        b == is_v2ray_name(name@),
{
    proof {
        reveal_strlit("v2ray");
    }
    let cs = chars_of(name);
    if cs.len() != 5 {
        assert(name@.map_values(|c: char| ascii_lower(c)).len() != "v2ray"@.len());
        return false;
    }
    let b = eq_ignore_case(cs[0], 'v', 'V') && cs[1] == '2' && eq_ignore_case(cs[2], 'r', 'R')
        && eq_ignore_case(cs[3], 'a', 'A') && eq_ignore_case(cs[4], 'y', 'Y');
    let ghost low = name@.map_values(|c: char| ascii_lower(c));
    assert(ascii_lower(cs@[1]) == '2' <==> cs@[1] == '2');
    if b {
        assert(low =~= "v2ray"@);
    } else {
        assert(low != "v2ray"@ ) by {
            if low == "v2ray"@ {
                assert(low[0] == 'v' && low[1] == '2' && low[2] == 'r' && low[3] == 'a' && low[4] == 'y');
            }
        }
    }
    b
}

impl AColoRSCore {
    /// The tag of the chosen core.
    pub closed spec fn tag_model(&self) -> Seq<char> {
        self.core_tag@
    }

    /// Whether no two cores share a tag.
    pub closed spec fn wf(&self) -> bool {
        tags_unique(self@)
    }

    /// No cores, and none chosen.
    pub fn new() -> (r: AColoRSCore)
        ensures
            r.wf(),
            r@ == Seq::<CoreModel>::empty(),
            r.tag_model() == Seq::<char>::empty(),
    {
        let r = AColoRSCore { core_tag: String::new(), entries: Vec::new() };
        assert(r@ =~= Seq::<CoreModel>::empty());
        r
    }

    /// The position of the core tagged `tag` (see `core_find`).
    fn find(&self, tag: &str) -> (res: Option<usize>)
        ensures
            match res {
                Some(i) => core_find(self@, tag@) == Some(i as int),
                None => core_find(self@, tag@) is None,
            },
    {
        let ghost s = self@;
        let mut i: usize = 0;
        while i < self.entries.len()
            invariant
                i <= self.entries@.len(),
                s == self@,
                s.len() == self.entries@.len(),
                core_find(s.subrange(0, i as int), tag@) is None,
            decreases self.entries.len() - i,
        {
            assert(s.subrange(0, i + 1).drop_last() =~= s.subrange(0, i as int));
            assert(s[i as int] == self.entries@[i as int]@);
            let t = chars_of(self.entries[i].tag.as_str());
            if chars_eq_str(&t, tag) {
                proof {
                    lemma_core_find_prefix(s, i + 1, tag@);
                }
                return Some(i);
            }
            i = i + 1;
        }
        assert(s.subrange(0, s.len() as int) =~= s);
        None
    }

    /// Adds a core under `tag`, replacing the core of that tag if there is
    /// one (see `core_upsert`).
    pub fn add_core(&mut self, core_name: &str, tag: &str, core_path: &str)
        requires
            old(self).wf(),
        ensures
            final(self).wf(),
            final(self).tag_model() == old(self).tag_model(),
            final(self)@ == core_upsert(
                old(self)@,
                CoreModel { tag: tag@, name: core_name@, path: core_path@ },
            ),
    {
        let ghost s = self@;
        let entry = CoreEntry {
            tag: String::from_str(tag),
            name: String::from_str(core_name),
            path: String::from_str(core_path),
        };
        proof {
            lemma_core_find(s, tag@);
            lemma_core_upsert_unique(s, entry@);
        }
        match self.find(tag) {
            Some(i) => {
                self.entries.set(i, entry);
                assert(self@ =~= s.update(i as int, entry@));
            },
            None => {
                self.entries.push(entry);
                assert(self@ =~= s.push(entry@));
            },
        }
    }

    /// Adds the cores that the configuration lists, in order, then the
    /// core given at start under its own name as tag.
    pub fn add_cores(&mut self, listed: &Vec<CoreEntry>, core_name: &str, core_path: &str)
        requires
            old(self).wf(),
        ensures
            final(self).wf(),
            final(self).tag_model() == old(self).tag_model(),
            final(self)@ == core_upsert(
                add_all(old(self)@, listed@.map_values(|c: CoreEntry| c@)),
                CoreModel { tag: core_name@, name: core_name@, path: core_path@ },
            ),
    {
        let ghost all = listed@.map_values(|c: CoreEntry| c@);
        let ghost s0 = self@;
        let mut i: usize = 0;
        while i < listed.len()
            invariant
                i <= listed@.len(),
                all == listed@.map_values(|c: CoreEntry| c@),
                self@ == add_all(s0, all.subrange(0, i as int)),
                self.tag_model() == old(self).tag_model(),
                self.wf(),
            decreases listed.len() - i,
        {
            assert(all.subrange(0, i + 1).drop_last() =~= all.subrange(0, i as int));
            assert(all[i as int] == listed@[i as int]@);
            let c = &listed[i];
            self.add_core(c.name.as_str(), c.tag.as_str(), c.path.as_str());
            i = i + 1;
        }
        assert(all.subrange(0, listed@.len() as int) =~= all);
        self.add_core(core_name, core_name, core_path);
    }

    /// The tags of the cores, in the order they were first added.
    pub fn list_all_tags(&self) -> (res: Vec<String>)
        ensures
            res@.map_values(|t: String| t@) == self@.map_values(|c: CoreModel| c.tag),
    {
        let mut out: Vec<String> = Vec::new();
        let mut i: usize = 0;
        while i < self.entries.len()
            invariant
                i <= self.entries@.len(),
                out@.map_values(|t: String| t@) == self@.subrange(0, i as int).map_values(|c: CoreModel| c.tag),
            decreases self.entries.len() - i,
        {
            assert(self@[i as int] == self.entries@[i as int]@);
            let ghost prev = out@;
            let t = self.entries[i].tag.clone();
            out.push(t);
            assert(out@.map_values(|t: String| t@) =~= prev.map_values(|t: String| t@).push(self@[i as int].tag));
            assert(self@.subrange(0, i + 1).map_values(|c: CoreModel| c.tag) =~= self@.subrange(0, i as int).map_values(
                |c: CoreModel| c.tag,
            ).push(self@[i as int].tag));
            i = i + 1;
        }
        assert(self@.subrange(0, self.entries@.len() as int) =~= self@);
        out
    }

    /// How the core tagged `tag` is run: as a V2Ray core when its kind
    /// names V2Ray in any ASCII case, else as a core of its kind under the
    /// tag; an error when no core has the tag.
    fn choose_core(&self, tag: &str) -> (res: Result<CoreChoice, CoreError>)
        ensures
            match core_get(self@, tag@) {
                None => res == Err::<CoreChoice, CoreError>(CoreError::CoreNotAdded),
                Some(c) => match res {
                    Ok(CoreChoice::V2Ray { path }) => is_v2ray_name(c.name) && path@ == c.path,
                    Ok(CoreChoice::External { tag: t, name, path }) => !is_v2ray_name(c.name) && t@
                        == tag@ && name@ == c.name && path@ == c.path,
                    Err(_) => false,
                },
            },
    {
        match self.find(tag) {
            Some(i) => {
                proof {
                    lemma_core_find(self@, tag@);
                }
                let entry = &self.entries[i];
                assert(self@[i as int] == entry@);
                if is_v2ray(entry.name.as_str()) {
                    Ok(CoreChoice::V2Ray { path: entry.path.clone() })
                } else {
                    Ok(
                        CoreChoice::External {
                            tag: String::from_str(tag),
                            name: entry.name.clone(),
                            path: entry.path.clone(),
                        },
                    )
                }
            },
            None => Err(CoreError::CoreNotAdded),
        }
    }

    /// Chooses the core tagged `core_tag`: the tag is kept as the chosen
    /// one whether or not a core has it, and the result says how that core
    /// is run (see `choose_core`).
    pub fn set_core(&mut self, core_tag: &str) -> (res: Result<CoreChoice, CoreError>)
        requires
            old(self).wf(),
        ensures
            final(self).wf(),
            final(self)@ == old(self)@,
            final(self).tag_model() == core_tag@,
            match core_get(old(self)@, core_tag@) {
                None => res == Err::<CoreChoice, CoreError>(CoreError::CoreNotAdded),
                Some(c) => match res {
                    Ok(CoreChoice::V2Ray { path }) => is_v2ray_name(c.name) && path@ == c.path,
                    Ok(CoreChoice::External { tag: t, name, path }) => !is_v2ray_name(c.name) && t@
                        == core_tag@ && name@ == c.name && path@ == c.path,
                    Err(_) => false,
                },
            },
    {
        self.core_tag = String::from_str(core_tag);
        self.choose_core(core_tag)
    }

    /// The tag of the chosen core.
    pub fn get_core_tag(&self) -> (res: String)
        ensures
            res@ == self.tag_model(),
    {
        self.core_tag.clone()
    }
}

/// The cores after each of `cs` is added in order.
pub open spec fn add_all(s: Seq<CoreModel>, cs: Seq<CoreModel>) -> Seq<CoreModel>
    decreases cs.len(),
{
    if cs.len() == 0 {
        s
    } else {
        core_upsert(add_all(s, cs.drop_last()), cs.last())
    }
}

/// The configuration written when there is none.
pub open spec fn default_config_text() -> Seq<char> {
    "{\n  \"inbounds\": {\n    \"socks5\": {\n      \"enable\": true,\n      \"listen\": \"127.0.0.1\",\n      \"port\": 4444,\n      \"udp_enable\": true\n    },\n    \"http\": {\n      \"enable\": true,\n      \"listen\": \"127.0.0.1\",\n      \"port\": 4445\n    }\n  }\n}"@
}

/// The configuration written when there is none (see
/// `default_config_text`).
pub fn default_config_content() -> (res: String)
    ensures
        res@ == default_config_text(),
{
    String::from_str("{\n  \"inbounds\": {\n    \"socks5\": {\n      \"enable\": true,\n      \"listen\": \"127.0.0.1\",\n      \"port\": 4444,\n      \"udp_enable\": true\n    },\n    \"http\": {\n      \"enable\": true,\n      \"listen\": \"127.0.0.1\",\n      \"port\": 4445\n    }\n  }\n}")
}

/// The text a configuration is read from: the file's content, or the
/// default configuration when the content is empty.
pub open spec fn config_source(content: Seq<char>) -> Seq<char> {
    if content.len() == 0 {
        default_config_text()
    } else {
        content
    }
}

/// Reads a configuration from the file's content (see `config_source`);
/// the parser's message when the text is no JSON.
pub fn read_config(content: &str) -> (res: Result<JsonValue, String>)
    ensures
        match res {
            Ok(v) => json::spec_json_parse(config_source(content@)) == Ok::<Json, Seq<char>>(v@),
            Err(m) => json::spec_json_parse(config_source(content@)) == Err::<Json, Seq<char>>(m@),
        },
{
    let cs = chars_of(content);
    if cs.len() == 0 {
        let d = default_config_content();
        parse_json(d.as_str())
    } else {
        parse_json(content)
    }
}

/// The members with the member `key` set to `v`: the first member of that
/// name takes the value, or a new member comes last.
pub open spec fn set_member(m: Seq<(Seq<char>, Json)>, key: Seq<char>, v: Json) -> Seq<(Seq<char>, Json)>
    decreases m.len(),
{
    if m.len() == 0 {
        seq![(key, v)]
    } else if m[0].0 == key {
        m.update(0, (key, v))
    } else {
        seq![m[0]] + set_member(m.drop_first(), key, v)
    }
}

/// A configuration with its inbounds replaced: an object gets the member
/// `inbounds` set; any other value stays as it is.
pub open spec fn with_inbounds(config: Json, inbounds: Json) -> Json {
    match config {
        Json::Object(m) => Json::Object(set_member(m, "inbounds"@, inbounds)),
        _ => config,
    }
}

/// Setting a member and looking it up gives the value that was set.
pub proof fn lemma_set_member_lookup(m: Seq<(Seq<char>, Json)>, key: Seq<char>, v: Json)
    ensures
        json::member_lookup(set_member(m, key, v), key) == Some(v),
    decreases m.len(),
{
    if m.len() > 0 && m[0].0 != key {
        lemma_set_member_lookup(m.drop_first(), key, v);
        let r = set_member(m, key, v);
        assert(r.drop_first() =~= set_member(m.drop_first(), key, v));
    }
}

/// A configuration object written with new inbounds holds those inbounds.
pub proof fn law_config_holds_inbounds(config: Json, inbounds: Json)
    requires
        config is Object,
    ensures
        json::json_member(with_inbounds(config, inbounds), "inbounds"@) == Some(inbounds),
{
    lemma_set_member_lookup(config->Object_0, "inbounds"@, inbounds);
}

/// The position of the first member named `key`.
fn find_member(m: &Vec<(String, JsonValue)>, key: &str) -> (res: Option<usize>)
    ensures
        match res {
            Some(i) => i < m@.len() && m@[i as int].0@ == key@ && forall|j: int|
                0 <= j < i ==> #[trigger] m@[j].0@ != key@,
            None => forall|j: int| 0 <= j < m@.len() ==> #[trigger] m@[j].0@ != key@,
        },
{
    let mut i: usize = 0;
    while i < m.len()
        invariant
            i <= m@.len(),
            forall|j: int| 0 <= j < i ==> #[trigger] m@[j].0@ != key@,
        decreases m.len() - i,
    {
        let name = chars_of(m[i].0.as_str());
        if chars_eq_str(&name, key) {
            return Some(i);
        }
        i = i + 1;
    }
    None
}

/// Sets the member `key` of the members (see `set_member`).
fn set_member_exec(m: &mut Vec<(String, JsonValue)>, key: &str, v: JsonValue)
    ensures
        json::member_views(final(m)@) == set_member(json::member_views(old(m)@), key@, v@),
{
    let ghost before = json::member_views(m@);
    proof {
        json::lemma_member_views(m@);
    }
    let found = find_member(m, key);
    let ghost vv = v@;
    match found {
        Some(i) => {
            proof {
                assert forall|j: int| 0 <= j < i implies #[trigger] before[j].0 != key@ by {
                    assert(before[j].0 == m@[j].0@);
                }
                lemma_set_member_split(before, i as int, key@, vv);
            }
            let name = String::from_str(key);
            m.set(i, (name, v));
            proof {
                json::lemma_member_views(m@);
            }
            assert(json::member_views(m@) =~= before.update(i as int, (key@, vv)));
        },
        None => {
            proof {
                assert forall|j: int| 0 <= j < before.len() implies #[trigger] before[j].0 != key@ by {
                    assert(before[j].0 == m@[j].0@);
                }
                lemma_set_member_split(before, before.len() as int, key@, vv);
            }
            m.push((String::from_str(key), v));
            proof {
                json::lemma_member_views(m@);
            }
            assert(json::member_views(m@) =~= before.push((key@, vv)));
        },
    }
}

/// Where the first member of the name stands at `i`, setting it updates
/// position `i`; where no member has the name, setting it adds one last.
pub proof fn lemma_set_member_split(m: Seq<(Seq<char>, Json)>, i: int, key: Seq<char>, v: Json)
    requires
        0 <= i <= m.len(),
        forall|j: int| 0 <= j < i ==> #[trigger] m[j].0 != key,
        i < m.len() ==> m[i].0 == key,
    ensures
        i < m.len() ==> set_member(m, key, v) == m.update(i, (key, v)),
        i == m.len() ==> set_member(m, key, v) == m.push((key, v)),
    decreases m.len(),
{
    if m.len() == 0 {
        assert(m.push((key, v)) =~= seq![(key, v)]);
    } else if m[0].0 == key {
    } else {
        let t = m.drop_first();
        assert forall|j: int| 0 <= j < i - 1 implies #[trigger] t[j].0 != key by {
            assert(t[j] == m[j + 1]);
        }
        lemma_set_member_split(t, i - 1, key, v);
        if i < m.len() {
            assert(seq![m[0]] + t.update(i - 1, (key, v)) =~= m.update(i, (key, v)));
        } else {
            assert(seq![m[0]] + t.push((key, v)) =~= m.push((key, v)));
        }
    }
}

/// A configuration with its inbounds replaced (see `with_inbounds`).
pub fn config_with_inbounds(config: JsonValue, inbounds: JsonValue) -> (res: JsonValue)
    ensures
        res@ == with_inbounds(config@, inbounds@),
{
    match config {
        JsonValue::Object(m) => {
            let mut m = m;
            set_member_exec(&mut m, "inbounds", inbounds);
            JsonValue::Object(m)
        },
        other => other,
    }
}

/// The text of the configuration file after its inbounds are replaced:
/// the configuration with the new inbounds, without members that carry
/// only defaults, as indented JSON.
pub fn config_file_text(config: JsonValue, inbounds: JsonValue) -> (res: String)
    ensures
        res@ == json::spec_json_pretty(json::strip_defaults(with_inbounds(config@, inbounds@))),
{
    let mut c = config_with_inbounds(config, inbounds);
    check_is_default_and_delete(&mut c);
    json_to_string_pretty(&c)
}

/// The HTTP inbound of a configuration: `inbounds.http` with a string
/// `listen` and a `port` that is a `u32`.
pub open spec fn http_inbound_spec(config: Json) -> Option<(Seq<char>, u32)> {
    match json::json_member(config, "inbounds"@) {
        Some(ib) => match json::json_member(ib, "http"@) {
            Some(h) => match (json::json_member(h, "listen"@), json::json_member(h, "port"@)) {
                (Some(Json::String(l)), Some(Json::Number(Num::PosInt(p)))) => if p <= u32::MAX {
                    Some((l, p as u32))
                } else {
                    None
                },
                _ => None,
            },
            None => None,
        },
        None => None,
    }
}

/// The `inbounds.http` member of a configuration, if it has one.
pub open spec fn http_member(config: Json) -> Option<Json> {
    match json::json_member(config, "inbounds"@) {
        Some(ib) => json::json_member(ib, "http"@),
        None => None,
    }
}

/// The HTTP inbound of a configuration is read from its `inbounds.http`
/// member and from nothing else: two configurations with the same such
/// member give the same inbound, and a found inbound is that member's
/// string `listen` and integer `port`.
pub proof fn law_http_inbound_reads_http_member(c1: Json, c2: Json)
    ensures
        http_member(c1) == http_member(c2) ==> http_inbound_spec(c1) == http_inbound_spec(c2),
        http_inbound_spec(c1) matches Some(p) ==> {
            &&& http_member(c1) matches Some(h)
            &&& json::json_member(h, "listen"@) == Some(Json::String(p.0))
            &&& json::json_member(h, "port"@) == Some(Json::Number(Num::PosInt(p.1 as u64)))
        },
{
}

/// A subscription is fetched through the configuration's HTTP inbound
/// when the proxy is to be used: the proxy is `http://<listen>:<port>` of
/// the `inbounds.http` member; without the proxy, or without that
/// inbound, there is none (the empty text).
pub proof fn law_proxy_is_http_inbound(use_proxy: bool, config: Json, h: Json, listen: Seq<char>, port: u64)
    ensures
        use_proxy && http_member(config) == Some(h) && json::json_member(h, "listen"@) == Some(Json::String(listen))
            && json::json_member(h, "port"@) == Some(Json::Number(Num::PosInt(port))) && port <= 0xffff_ffff
            ==> proxy_url_spec(use_proxy, http_inbound_spec(config)) == "http://"@ + listen + ":"@ + text::decimal(
            port as nat,
        ),
        !use_proxy ==> proxy_url_spec(use_proxy, http_inbound_spec(config)) == Seq::<char>::empty(),
        http_member(config) is None ==> proxy_url_spec(use_proxy, http_inbound_spec(config)) == Seq::<char>::empty(),
{
}

/// The HTTP inbound of a configuration (see `http_inbound_spec`).
pub fn http_inbound(config: &JsonValue) -> (res: Option<HttpInbound>)
    ensures
        opt_inbound(res) == http_inbound_spec(config@),
{
    let ib = match json_get(config, "inbounds") {
        Some(v) => v,
        None => return None,
    };
    let h = match json_get(ib, "http") {
        Some(v) => v,
        None => return None,
    };
    match (json_get(h, "listen"), json_get(h, "port")) {
        (Some(JsonValue::String(l)), Some(JsonValue::Number(JsonNumber::PosInt(p)))) => {
            if *p <= 0xffff_ffff {
                Some(HttpInbound { listen: l.clone(), port: *p as u32 })
            } else {
                None
            }
        },
        _ => None,
    }
}

/// A listed core: an object with the strings `tag`, `name` and `path`.
pub open spec fn core_of_json(c: Json) -> Option<CoreModel> {
    match (json::json_member(c, "tag"@), json::json_member(c, "name"@), json::json_member(c, "path"@)) {
        (Some(Json::String(t)), Some(Json::String(n)), Some(Json::String(p))) => Some(
            CoreModel { tag: t, name: n, path: p },
        ),
        _ => None,
    }
}

/// The listed cores, in order, when every one of them is a core.
pub open spec fn cores_of_json(cs: Seq<Json>) -> Option<Seq<CoreModel>>
    decreases cs.len(),
{
    if cs.len() == 0 {
        Some(Seq::<CoreModel>::empty())
    } else {
        match (cores_of_json(cs.drop_last()), core_of_json(cs.last())) {
            (Some(a), Some(c)) => Some(a.push(c)),
            _ => None,
        }
    }
}

/// The cores that a configuration lists under `cores`: none when it has
/// no such member, else an array of cores; anything else is refused.
pub open spec fn listed_cores_spec(config: Json) -> Option<Seq<CoreModel>> {
    match json::json_member(config, "cores"@) {
        None => Some(Seq::<CoreModel>::empty()),
        Some(Json::Array(cs)) => cores_of_json(cs),
        Some(_) => None,
    }
}

/// Once a prefix of the list holds something that is no core, so does the
/// whole list.
pub proof fn lemma_cores_prefix(cs: Seq<Json>, k: int)
    requires
        0 <= k <= cs.len(),
        cores_of_json(cs.subrange(0, k)) is None,
    ensures
        cores_of_json(cs) is None,
    decreases cs.len(),
{
    if k == cs.len() {
        assert(cs.subrange(0, k) =~= cs);
    } else {
        assert(cs.drop_last().subrange(0, k) =~= cs.subrange(0, k));
        lemma_cores_prefix(cs.drop_last(), k);
    }
}

/// The cores read from a list, when they are read, are the list's
/// elements one for one, each with the `tag`, `name` and `path` strings of
/// its own element; when they are not, some element lacks one of them.
proof fn lemma_cores_of_json_elements(cs: Seq<Json>)
    ensures
        cores_of_json(cs) matches Some(r) ==> {
            &&& r.len() == cs.len()
            &&& forall|i: int|
                0 <= i < cs.len() ==> {
                    &&& json::json_member(cs[i], "tag"@) == Some(Json::String((#[trigger] r[i]).tag))
                    &&& json::json_member(cs[i], "name"@) == Some(Json::String(r[i].name))
                    &&& json::json_member(cs[i], "path"@) == Some(Json::String(r[i].path))
                }
        },
        cores_of_json(cs) is None ==> exists|i: int| 0 <= i < cs.len() && #[trigger] core_of_json(cs[i]) is None,
    decreases cs.len(),
{
    if cs.len() > 0 {
        let d = cs.drop_last();
        lemma_cores_of_json_elements(d);
        if cores_of_json(cs) is Some {
            let r = cores_of_json(cs)->Some_0;
            let rd = cores_of_json(d)->Some_0;
            assert(r == rd.push(core_of_json(cs.last())->Some_0));
            assert forall|i: int| 0 <= i < cs.len() implies {
                &&& json::json_member(cs[i], "tag"@) == Some(Json::String((#[trigger] r[i]).tag))
                &&& json::json_member(cs[i], "name"@) == Some(Json::String(r[i].name))
                &&& json::json_member(cs[i], "path"@) == Some(Json::String(r[i].path))
            } by {
                if i < cs.len() - 1 {
                    assert(d[i] == cs[i]);
                    assert(r[i] == rd[i]);
                }
            }
        } else {
            if cores_of_json(d) is None {
                let i = choose|i: int| 0 <= i < d.len() && #[trigger] core_of_json(d[i]) is None;
                assert(d[i] == cs[i]);
            } else {
                assert(core_of_json(cs[cs.len() - 1]) is None);
            }
        }
    }
}

/// The cores that a configuration lists are read from its `cores` member
/// and from nothing else: without one there are none; with an array, the
/// cores are its elements one for one, each with the `tag`, `name` and
/// `path` strings of its own element, and the list is refused exactly
/// when some element lacks one of them; any other `cores` member is
/// refused.
pub proof fn law_listed_cores_read_cores_member(config: Json)
    ensures
        json::json_member(config, "cores"@) is None ==> listed_cores_spec(config) == Some(Seq::<CoreModel>::empty()),
        json::json_member(config, "cores"@) matches Some(Json::Array(cs)) ==> {
            &&& listed_cores_spec(config) matches Some(r) ==> {
                &&& r.len() == cs.len()
                &&& forall|i: int|
                    0 <= i < cs.len() ==> {
                        &&& json::json_member(cs[i], "tag"@) == Some(Json::String((#[trigger] r[i]).tag))
                        &&& json::json_member(cs[i], "name"@) == Some(Json::String(r[i].name))
                        &&& json::json_member(cs[i], "path"@) == Some(Json::String(r[i].path))
                    }
            }
            &&& listed_cores_spec(config) is None <==> exists|i: int|
                0 <= i < cs.len() && !(json::json_member(#[trigger] cs[i], "tag"@) matches Some(Json::String(_))
                    && json::json_member(cs[i], "name"@) matches Some(Json::String(_))
                    && json::json_member(cs[i], "path"@) matches Some(Json::String(_)))
        },
        json::json_member(config, "cores"@) matches Some(v) ==> (!(v is Array) ==> listed_cores_spec(config) is None),
{
    if let Some(Json::Array(cs)) = json::json_member(config, "cores"@) {
        lemma_cores_of_json_elements(cs);
        if listed_cores_spec(config) is Some {
            let r = listed_cores_spec(config)->Some_0;
            if exists|i: int|
                0 <= i < cs.len() && !(json::json_member(#[trigger] cs[i], "tag"@) matches Some(Json::String(_))
                    && json::json_member(cs[i], "name"@) matches Some(Json::String(_))
                    && json::json_member(cs[i], "path"@) matches Some(Json::String(_))) {
                let i = choose|i: int|
                    0 <= i < cs.len() && !(json::json_member(#[trigger] cs[i], "tag"@) matches Some(Json::String(_))
                        && json::json_member(cs[i], "name"@) matches Some(Json::String(_))
                        && json::json_member(cs[i], "path"@) matches Some(Json::String(_)));
                assert(json::json_member(cs[i], "tag"@) == Some(Json::String(r[i].tag)));
            }
        } else {
            let i = choose|i: int| 0 <= i < cs.len() && #[trigger] core_of_json(cs[i]) is None;
            assert(!(json::json_member(cs[i], "tag"@) matches Some(Json::String(_))
                && json::json_member(cs[i], "name"@) matches Some(Json::String(_))
                && json::json_member(cs[i], "path"@) matches Some(Json::String(_))));
        }
    }
}

/// A listed core (see `core_of_json`).
fn core_from_json(c: &JsonValue) -> (res: Option<CoreEntry>)
    ensures
        match res {
            Some(e) => core_of_json(c@) == Some(e@),
            None => core_of_json(c@) is None,
        },
{
    match (json_get(c, "tag"), json_get(c, "name"), json_get(c, "path")) {
        (Some(JsonValue::String(t)), Some(JsonValue::String(n)), Some(JsonValue::String(p))) => Some(
            CoreEntry { tag: t.clone(), name: n.clone(), path: p.clone() },
        ),
        _ => None,
    }
}

/// The cores that a configuration lists (see `listed_cores_spec`).
pub fn listed_cores(config: &JsonValue) -> (res: Option<Vec<CoreEntry>>)
    ensures
        match res {
            Some(v) => listed_cores_spec(config@) == Some(v@.map_values(|c: CoreEntry| c@)),
            None => listed_cores_spec(config@) is None,
        },
{
    let cs = match json_get(config, "cores") {
        None => {
            let empty: Vec<CoreEntry> = Vec::new();
            assert(empty@.map_values(|c: CoreEntry| c@) =~= Seq::<CoreModel>::empty());
            return Some(empty);
        },
        Some(JsonValue::Array(cs)) => cs,
        Some(_) => return None,
    };
    let ghost all = json::json_views(cs@);
    proof {
        json::lemma_json_views(cs@);
    }
    let mut out: Vec<CoreEntry> = Vec::new();
    let mut i: usize = 0;
    assert(all.subrange(0, 0) =~= Seq::<Json>::empty());
    assert(out@.map_values(|c: CoreEntry| c@) =~= Seq::<CoreModel>::empty());
    while i < cs.len()
        invariant
            i <= cs@.len(),
            all == json::json_views(cs@),
            all.len() == cs@.len(),
            json::json_member(config@, "cores"@) == Some(Json::Array(all)),
            forall|j: int| 0 <= j < cs@.len() ==> #[trigger] all[j] == cs@[j]@,
            cores_of_json(all.subrange(0, i as int)) == Some(out@.map_values(|c: CoreEntry| c@)),
        decreases cs.len() - i,
    {
        assert(all.subrange(0, i + 1).drop_last() =~= all.subrange(0, i as int));
        assert(all[i as int] == cs@[i as int]@);
        match core_from_json(&cs[i]) {
            Some(e) => {
                let ghost prev = out@;
                out.push(e);
                assert(out@.map_values(|c: CoreEntry| c@) =~= prev.map_values(|c: CoreEntry| c@).push(
                    out@.last()@,
                ));
            },
            None => {
                proof {
                    lemma_cores_prefix(all, i + 1);
                }
                return None;
            },
        }
        i = i + 1;
    }
    assert(all.subrange(0, cs@.len() as int) =~= all);
    Some(out)
}

/// The greeting service.
pub struct AColoRSGreeter {}

impl AColoRSGreeter {
    /// The greeting service.
    pub fn new() -> AColoRSGreeter {
        AColoRSGreeter {}
    }

    /// The reply to a ping from `name`: `Received Ping from <name>.`.
    pub fn ping_message(&self, name: &str) -> (res: String)
        ensures
            res@ == "Received Ping from "@ + name@ + "."@,
    {
        let mut out = chars_of("Received Ping from ");
        extend_chars(&mut out, &chars_of(name));
        extend_chars(&mut out, &chars_of("."));
        string_of(&out)
    }
}

/// The tools service.
pub struct AColoRSTools {}

impl AColoRSTools {
    /// The tools service.
    pub fn new() -> AColoRSTools {
        AColoRSTools {}
    }
}

} // verus!
