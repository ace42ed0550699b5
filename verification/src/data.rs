//! The records that the profile keeps: groups, nodes and runtime values,
//! with their models and the rules that stamp their times.

use vstd::prelude::*;

verus! {

/// The current time in seconds since the Unix epoch, read from
/// `std::time::SystemTime::now`; a clock before the epoch reads as 0.
/// Nothing is claimed of the value.
#[verifier::external_body]
pub(crate) fn current_time() -> u64 {
    match std::time::SystemTime::now().duration_since(std::time::UNIX_EPOCH) {
        Ok(d) => d.as_secs(),
        Err(_) => 0,
    }
}

/// The protocol of a node.
#[derive(Debug, Clone, Copy, PartialEq, Eq)]
pub enum EntryType {
    Vmess,
    Shadowsocks,
    Trojan,
}

/// The number that stands for a protocol in a node's `protocol` field.
pub open spec fn entry_type_number(t: EntryType) -> i32 {
    match t {
        EntryType::Vmess => 0,
        EntryType::Shadowsocks => 1,
        EntryType::Trojan => 2,
    }
}

impl EntryType {
    /// The number that stands for this protocol.
    pub fn number(&self) -> (n: i32)
        ensures
            n == entry_type_number(*self),
    {
        match self {
            EntryType::Vmess => 0,
            EntryType::Shadowsocks => 1,
            EntryType::Trojan => 2,
        }
    }
}

/// A group of nodes: a subscription or a hand-made list.
#[derive(Debug, Clone, PartialEq, Eq)]
pub struct GroupData {
    pub id: i32,
    pub name: String,
    pub is_subscription: bool,
    pub group_type: i32,
    pub url: String,
    pub cycle_time: i32,
    pub create_at: i64,
    pub modified_at: i64,
}

/// The model of a group.
pub struct GroupModel {
    pub id: i32,
    pub name: Seq<char>,
    pub is_subscription: bool,
    pub group_type: i32,
    pub url: Seq<char>,
    pub cycle_time: i32,
    pub create_at: i64,
    pub modified_at: i64,
}

impl View for GroupData {
    type V = GroupModel;

    open spec fn view(&self) -> GroupModel {
        GroupModel {
            id: self.id,
            name: self.name@,
            is_subscription: self.is_subscription,
            group_type: self.group_type,
            url: self.url@,
            cycle_time: self.cycle_time,
            create_at: self.create_at,
            modified_at: self.modified_at,
        }
    }
}

/// A node: one proxy server with its configuration.
#[derive(Debug, Clone, PartialEq, Eq)]
pub struct NodeData {
    pub id: i32,
    pub name: String,
    pub group_id: i32,
    pub group_name: String,
    pub routing_id: i32,
    pub routing_name: String,
    pub protocol: i32,
    pub address: String,
    pub port: i32,
    pub password: String,
    pub raw: String,
    pub url: String,
    pub latency: i32,
    pub upload: i64,
    pub download: i64,
    pub create_at: i64,
    pub modified_at: i64,
}

/// The model of a node.
pub struct NodeModel {
    pub id: i32,
    pub name: Seq<char>,
    pub group_id: i32,
    pub group_name: Seq<char>,
    pub routing_id: i32,
    pub routing_name: Seq<char>,
    pub protocol: i32,
    pub address: Seq<char>,
    pub port: i32,
    pub password: Seq<char>,
    pub raw: Seq<char>,
    pub url: Seq<char>,
    pub latency: i32,
    pub upload: i64,
    pub download: i64,
    pub create_at: i64,
    pub modified_at: i64,
}

impl View for NodeData {
    type V = NodeModel;

    open spec fn view(&self) -> NodeModel {
        NodeModel {
            id: self.id,
            name: self.name@,
            group_id: self.group_id,
            group_name: self.group_name@,
            routing_id: self.routing_id,
            routing_name: self.routing_name@,
            protocol: self.protocol,
            address: self.address@,
            port: self.port,
            password: self.password@,
            raw: self.raw@,
            url: self.url@,
            latency: self.latency,
            upload: self.upload,
            download: self.download,
            create_at: self.create_at,
            modified_at: self.modified_at,
        }
    }
}

/// A named runtime value.
#[derive(Debug, Clone, PartialEq, Eq)]
pub struct ValueData {
    pub id: i32,
    pub name: String,
    pub value_type: i32,
    pub value: String,
}

/// The model of a runtime value.
pub struct ValueModel {
    pub id: i32,
    pub name: Seq<char>,
    pub value_type: i32,
    pub value: Seq<char>,
}

impl View for ValueData {
    type V = ValueModel;

    open spec fn view(&self) -> ValueModel {
        ValueModel { id: self.id, name: self.name@, value_type: self.value_type, value: self.value@ }
    }
}

impl GroupData {
    /// A copy of the group.
    pub fn duplicate(&self) -> (r: GroupData)
        ensures
            r@ == self@,
    {
        GroupData {
            id: self.id,
            name: self.name.clone(),
            is_subscription: self.is_subscription,
            group_type: self.group_type,
            url: self.url.clone(),
            cycle_time: self.cycle_time,
            create_at: self.create_at,
            modified_at: self.modified_at,
        }
    }
}

impl NodeData {
    /// A copy of the node.
    pub fn duplicate(&self) -> (r: NodeData)
        ensures
            r@ == self@,
    {
        NodeData {
            id: self.id,
            name: self.name.clone(),
            group_id: self.group_id,
            group_name: self.group_name.clone(),
            routing_id: self.routing_id,
            routing_name: self.routing_name.clone(),
            protocol: self.protocol,
            address: self.address.clone(),
            port: self.port,
            password: self.password.clone(),
            raw: self.raw.clone(),
            url: self.url.clone(),
            latency: self.latency,
            upload: self.upload,
            download: self.download,
            create_at: self.create_at,
            modified_at: self.modified_at,
        }
    }
}

impl ValueData {
    /// A copy of the value.
    pub fn duplicate(&self) -> (r: ValueData)
        ensures
            r@ == self@,
    {
        ValueData { id: self.id, name: self.name.clone(), value_type: self.value_type, value: self.value.clone() }
    }
}

/// The model of a group with all fields zero or empty.
pub open spec fn default_group_model() -> GroupModel {
    GroupModel {
        id: 0,
        name: Seq::empty(),
        is_subscription: false,
        group_type: 0,
        url: Seq::empty(),
        cycle_time: 0,
        create_at: 0,
        modified_at: 0,
    }
}

/// The model of a node with all fields zero or empty.
pub open spec fn default_node_model() -> NodeModel {
    NodeModel {
        id: 0,
        name: Seq::empty(),
        group_id: 0,
        group_name: Seq::empty(),
        routing_id: 0,
        routing_name: Seq::empty(),
        protocol: 0,
        address: Seq::empty(),
        port: 0,
        password: Seq::empty(),
        raw: Seq::empty(),
        url: Seq::empty(),
        latency: 0,
        upload: 0,
        download: 0,
        create_at: 0,
        modified_at: 0,
    }
}

impl Default for GroupData {
    fn default() -> (r: GroupData)
        ensures
            r@ == default_group_model(),
    {
        GroupData {
            id: 0,
            name: String::new(),
            is_subscription: false,
            group_type: 0,
            url: String::new(),
            cycle_time: 0,
            create_at: 0,
            modified_at: 0,
        }
    }
}

impl Default for NodeData {
    fn default() -> (r: NodeData)
        ensures
            r@ == default_node_model(),
    {
        NodeData {
            id: 0,
            name: String::new(),
            group_id: 0,
            group_name: String::new(),
            routing_id: 0,
            routing_name: String::new(),
            protocol: 0,
            address: String::new(),
            port: 0,
            password: String::new(),
            raw: String::new(),
            url: String::new(),
            latency: 0,
            upload: 0,
            download: 0,
            create_at: 0,
            modified_at: 0,
        }
    }
}

/// A time read from the clock as a stored time stamp.
pub open spec fn stamp(now: u64) -> i64 {
    now as i64
}

impl GroupData {
    /// Stamps the modification time with `now`; nothing else changes.
    pub fn set_modified_at(&mut self, now: u64)
        ensures
            final(self)@ == (GroupModel { modified_at: stamp(now), ..old(self)@ }),
    {
        self.modified_at = now as i64;
    }

    /// Stamps the creation time with `now`; nothing else changes.
    pub fn set_create_at(&mut self, now: u64)
        ensures
            final(self)@ == (GroupModel { create_at: stamp(now), ..old(self)@ }),
    {
        self.create_at = now as i64;
    }

    /// Stamps the modification time with the current time; nothing else
    /// changes.
    pub fn update_modified_at(&mut self)
        ensures
            final(self)@ == (GroupModel { modified_at: final(self).modified_at, ..old(self)@ }),
    {
        let now = current_time();
        self.set_modified_at(now);
    }

    /// Stamps the creation time with the current time; nothing else
    /// changes.
    pub fn update_create_at(&mut self)
        ensures
            final(self)@ == (GroupModel { create_at: final(self).create_at, ..old(self)@ }),
    {
        let now = current_time();
        self.set_create_at(now);
    }
}

impl NodeData {
    /// Stamps the modification time with `now`; nothing else changes.
    pub fn set_modified_at(&mut self, now: u64)
        ensures
            final(self)@ == (NodeModel { modified_at: stamp(now), ..old(self)@ }),
    {
        self.modified_at = now as i64;
    }

    /// Stamps the creation time with `now`; nothing else changes.
    pub fn set_create_at(&mut self, now: u64)
        ensures
            final(self)@ == (NodeModel { create_at: stamp(now), ..old(self)@ }),
    {
        self.create_at = now as i64;
    }

    /// Stamps the modification time with the current time; nothing else
    /// changes.
    pub fn update_modified_at(&mut self)
        ensures
            final(self)@ == (NodeModel { modified_at: final(self).modified_at, ..old(self)@ }),
    {
        let now = current_time();
        self.set_modified_at(now);
    }

    /// Stamps the creation time with the current time; nothing else
    /// changes.
    pub fn update_create_at(&mut self)
        ensures
            final(self)@ == (NodeModel { create_at: final(self).create_at, ..old(self)@ }),
    {
        let now = current_time();
        self.set_create_at(now);
    }
}

} // verus!
