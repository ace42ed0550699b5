//! The tables of a profile: groups of nodes and the runtime values.
//!
//! Storing rows is the caller's work; this module decides what is stored:
//! the fields that a group stamps on a node it takes in, the times that
//! groups and nodes carry, and the cache of runtime values by name, which
//! answers reads and says which row a write touches.

use vstd::prelude::*;

use crate::data::{default_group_model, stamp, GroupData, GroupModel, NodeData, NodeModel, ValueData, ValueModel};
use crate::serialize::opt_str;
use crate::text::{chars_eq_str, chars_of};

verus! {

/// The routing that a node gets when a group takes it in.
pub open spec fn default_routing_name() -> Seq<char> {
    "default_routings"@
}

/// A group of nodes.
pub struct Group {
    data: GroupData,
}

impl View for Group {
    type V = GroupModel;

    closed spec fn view(&self) -> GroupModel {
        self.data@
    }
}

impl Group {
    /// A group with the given record.
    pub fn new(data: GroupData) -> (g: Group)
        ensures
            g@ == data@,
    {
        Group { data }
    }

    /// The group's record.
    pub fn data(&self) -> (d: &GroupData)
        ensures
            d@ == self@,
    {
        &self.data
    }

    /// The group's record, taken out.
    pub fn to_data(self) -> (d: GroupData)
        ensures
            d@ == self@,
    {
        self.data
    }

    /// The node as the group stores it when it takes it in at time `now`:
    /// it belongs to the group, under the group's name, with the default
    /// routing, created and modified at `now`.
    pub fn append_record(&self, item: NodeData, now: u64) -> (r: NodeData)
        ensures
            r@ == (NodeModel {
                group_id: self@.id,
                group_name: self@.name,
                routing_id: 0,
                routing_name: default_routing_name(),
                create_at: stamp(now),
                modified_at: stamp(now),
                ..item@
            }),
    {
        let mut item = item;
        item.group_id = self.data.id;
        item.group_name = self.data.name.clone();
        item.routing_name = String::from_str("default_routings");
        item.routing_id = 0;
        item.set_create_at(now);
        item.set_modified_at(now);
        item
    }

    /// The node as the group stores it when it replaces a row at time
    /// `now`: it belongs to the group and is modified at `now`.
    pub fn set_record(&self, item: NodeData, now: u64) -> (r: NodeData)
        ensures
            r@ == (NodeModel { group_id: self@.id, modified_at: stamp(now), ..item@ }),
    {
        let mut item = item;
        item.group_id = self.data.id;
        item.set_modified_at(now);
        item
    }
}

/// A node of a group.
pub struct Node {
    data: NodeData,
}

impl View for Node {
    type V = NodeModel;

    closed spec fn view(&self) -> NodeModel {
        self.data@
    }
}

impl Node {
    /// A node with the given record.
    pub fn new(data: NodeData) -> (n: Node)
        ensures
            n@ == data@,
    {
        Node { data }
    }

    /// The node's record.
    pub fn data(&self) -> (d: &NodeData)
        ensures
            d@ == self@,
    {
        &self.data
    }

    /// The node's record, taken out.
    pub fn to_data(self) -> (d: NodeData)
        ensures
            d@ == self@,
    {
        self.data
    }
}

/// A runtime value read from its table.
pub struct ValueRecord {
    data: ValueData,
}

impl View for ValueRecord {
    type V = ValueModel;

    closed spec fn view(&self) -> ValueModel {
        self.data@
    }
}

impl ValueRecord {
    /// A value with the given record.
    pub fn new(data: ValueData) -> (v: ValueRecord)
        ensures
            v@ == data@,
    {
        ValueRecord { data }
    }

    /// The value's record.
    pub fn data(&self) -> (d: &ValueData)
        ensures
            d@ == self@,
    {
        &self.data
    }
}

/// The list of groups.
pub struct GroupList {}

impl GroupList {
    /// The list of groups.
    pub fn new() -> GroupList {
        GroupList {}
    }

    /// The group that nodes are read, replaced and removed through: a
    /// group whose record has every field zero or empty.
    pub fn default_group(&self) -> (g: Group)
        ensures
            g@ == default_group_model(),
    {
        Group::new(GroupData::default())
    }

    /// The group as the list stores it when it is added at time `now`:
    /// created and modified at `now`.
    pub fn append_record(&self, item: GroupData, now: u64) -> (r: GroupData)
        ensures
            r@ == (GroupModel { create_at: stamp(now), modified_at: stamp(now), ..item@ }),
    {
        let mut item = item;
        item.set_create_at(now);
        item.set_modified_at(now);
        item
    }

    /// The group as the list stores it when it replaces a row at time
    /// `now`: modified at `now`.
    pub fn set_record(&self, item: GroupData, now: u64) -> (r: GroupData)
        ensures
            r@ == (GroupModel { modified_at: stamp(now), ..item@ }),
    {
        let mut item = item;
        item.set_modified_at(now);
        item
    }
}

/// The position of the first value named `key`.
pub open spec fn cache_find(s: Seq<ValueModel>, key: Seq<char>) -> Option<int>
    decreases s.len(),
{
    if s.len() == 0 {
        None
    } else {
        match cache_find(s.drop_last(), key) {
            Some(i) => Some(i),
            None => if s.last().name == key {
                Some(s.len() - 1)
            } else {
                None
            },
        }
    }
}

/// The value named `key`.
pub open spec fn cache_get(s: Seq<ValueModel>, key: Seq<char>) -> Option<Seq<char>> {
    match cache_find(s, key) {
        Some(i) => Some(s[i].value),
        None => None,
    }
}

/// The values with `d` stored under its name: it replaces the value of
/// that name, or comes last.
pub open spec fn cache_upsert(s: Seq<ValueModel>, d: ValueModel) -> Seq<ValueModel> {
    match cache_find(s, d.name) {
        Some(i) => s.update(i, d),
        None => s.push(d),
    }
}

/// The values after `key` is set to `value`: a value of that name keeps
/// its row and gets the new text; otherwise a new value of type 2 comes
/// last.
pub open spec fn cache_set(s: Seq<ValueModel>, key: Seq<char>, value: Seq<char>) -> Seq<ValueModel> {
    match cache_find(s, key) {
        Some(i) => s.update(i, ValueModel { value: value, ..s[i] }),
        None => s.push(ValueModel { id: 0, name: key, value_type: 2, value: value }),
    }
}

/// The values read from rows, in order, each stored under its name.
pub open spec fn cache_of_rows(rows: Seq<ValueModel>) -> Seq<ValueModel>
    decreases rows.len(),
{
    if rows.len() == 0 {
        Seq::<ValueModel>::empty()
    } else {
        cache_upsert(cache_of_rows(rows.drop_last()), rows.last())
    }
}

/// Whether no two values share a name.
pub open spec fn names_unique(s: Seq<ValueModel>) -> bool {
    forall|i: int, j: int| 0 <= i < j < s.len() ==> #[trigger] s[i].name != #[trigger] s[j].name
}

/// A found position holds the first value of that name; without one, no
/// value has the name.
pub proof fn lemma_cache_find(s: Seq<ValueModel>, key: Seq<char>)
    ensures
        cache_find(s, key) matches Some(i) ==> 0 <= i < s.len() && s[i].name == key && forall|j: int|
            0 <= j < i ==> #[trigger] s[j].name != key,
        cache_find(s, key) is None ==> forall|j: int| 0 <= j < s.len() ==> #[trigger] s[j].name != key,
    decreases s.len(),
{
    if s.len() > 0 {
        let t = s.drop_last();
        lemma_cache_find(t, key);
        match cache_find(t, key) {
            Some(i) => {
                assert forall|j: int| 0 <= j < i implies #[trigger] s[j].name != key by {
                    assert(t[j].name != key);
                }
            },
            None => {
                assert forall|j: int| 0 <= j < s.len() - 1 implies #[trigger] s[j].name != key by {
                    assert(t[j].name != key);
                }
            },
        }
    }
}

/// Two lists with the same names at the same positions find a name at the
/// same position.
pub proof fn lemma_cache_find_same_names(s: Seq<ValueModel>, t: Seq<ValueModel>, key: Seq<char>)
    requires
        s.len() == t.len(),
        forall|j: int| 0 <= j < s.len() ==> #[trigger] s[j].name == t[j].name,
    ensures
        cache_find(s, key) == cache_find(t, key),
    decreases s.len(),
{
    if s.len() > 0 {
        assert forall|j: int| 0 <= j < s.len() - 1 implies #[trigger] s.drop_last()[j].name == t.drop_last()[j].name by {
            assert(s.drop_last()[j] == s[j]);
            assert(t.drop_last()[j] == t[j]);
        }
        lemma_cache_find_same_names(s.drop_last(), t.drop_last(), key);
    }
}

/// Once a prefix holds the name, the whole list finds it at the same
/// position.
pub proof fn lemma_cache_find_prefix(s: Seq<ValueModel>, k: int, key: Seq<char>)
    requires
        0 <= k <= s.len(),
        cache_find(s.subrange(0, k), key) is Some,
    ensures
        cache_find(s, key) == cache_find(s.subrange(0, k), key),
    decreases s.len(),
{
    if k == s.len() {
        assert(s.subrange(0, k) =~= s);
    } else {
        assert(s.drop_last().subrange(0, k) =~= s.subrange(0, k));
        lemma_cache_find_prefix(s.drop_last(), k, key);
    }
}

/// Storing a value under its name keeps the names unique.
pub proof fn lemma_upsert_unique(s: Seq<ValueModel>, d: ValueModel)
    requires
        names_unique(s),
    ensures
        names_unique(cache_upsert(s, d)),
{
    lemma_cache_find(s, d.name);
    let r = cache_upsert(s, d);
    assert forall|i: int, j: int| 0 <= i < j < r.len() implies #[trigger] r[i].name != #[trigger] r[j].name by {
        match cache_find(s, d.name) {
            Some(k) => {
                assert(r[i].name == s[i].name);
                assert(r[j].name == s[j].name);
            },
            None => {
                if j == s.len() {
                    assert(r[i] == s[i]);
                } else {
                    assert(r[i] == s[i]);
                    assert(r[j] == s[j]);
                }
            },
        }
    }
}

/// Setting a value and reading it back gives the value that was set.
pub proof fn law_get_after_set(s: Seq<ValueModel>, key: Seq<char>, value: Seq<char>)
    ensures
        cache_get(cache_set(s, key, value), key) == Some(value),
{
    lemma_cache_find(s, key);
    let r = cache_set(s, key, value);
    match cache_find(s, key) {
        Some(i) => {
            assert forall|j: int| 0 <= j < s.len() implies #[trigger] s[j].name == r[j].name by {}
            lemma_cache_find_same_names(s, r, key);
        },
        None => {
            assert(r.drop_last() =~= s);
        },
    }
}

/// Setting a value leaves every other name's value as it was.
pub proof fn law_set_keeps_others(s: Seq<ValueModel>, key: Seq<char>, value: Seq<char>, other: Seq<char>)
    requires
        other != key,
    ensures
        cache_get(cache_set(s, key, value), other) == cache_get(s, other),
{
    lemma_cache_find(s, key);
    lemma_cache_find(s, other);
    let r = cache_set(s, key, value);
    match cache_find(s, key) {
        Some(i) => {
            assert forall|j: int| 0 <= j < s.len() implies #[trigger] s[j].name == r[j].name by {}
            lemma_cache_find_same_names(s, r, other);
            match cache_find(s, other) {
                Some(k) => {
                    assert(k != i);
                },
                None => {},
            }
        },
        None => {
            assert(r.drop_last() =~= s);
        },
    }
}

/// What a runtime write asks of the table: replace the row of a value, or
/// add a new row.
pub enum RuntimeWrite {
    Update { id: i32, data: ValueData },
    Insert { data: ValueData },
}

/// The runtime values, kept by name.
pub struct RuntimeValue {
    entries: Vec<ValueData>,
}

impl View for RuntimeValue {
    type V = Seq<ValueModel>;

    closed spec fn view(&self) -> Seq<ValueModel> {
        self.entries@.map_values(|d: ValueData| d@)
    }
}

impl RuntimeValue {
    /// Whether no two values share a name.
    pub closed spec fn wf(&self) -> bool {
        names_unique(self@)
    }

    /// No values.
    pub fn new() -> (r: RuntimeValue)
        ensures
            r.wf(),
            r@ == Seq::<ValueModel>::empty(),
    {
        let r = RuntimeValue { entries: Vec::new() };
        assert(r@ =~= Seq::<ValueModel>::empty());
        r
    }

    /// The position of the value named `key` (see `cache_find`).
    fn find(&self, key: &str) -> (res: Option<usize>)
        ensures
            match res {
                Some(i) => cache_find(self@, key@) == Some(i as int),
                None => cache_find(self@, key@) is None,
            },
    {
        let ghost s = self@;
        let mut i: usize = 0;
        while i < self.entries.len()
            invariant
                i <= self.entries@.len(),
                s == self@,
                s.len() == self.entries@.len(),
                cache_find(s.subrange(0, i as int), key@) is None,
            decreases self.entries.len() - i,
        {
            assert(s.subrange(0, i + 1).drop_last() =~= s.subrange(0, i as int));
            assert(s[i as int] == self.entries@[i as int]@);
            let name = chars_of(self.entries[i].name.as_str());
            if chars_eq_str(&name, key) {
                proof {
                    lemma_cache_find_prefix(s, i + 1, key@);
                }
                return Some(i);
            }
            i = i + 1;
        }
        assert(s.subrange(0, s.len() as int) =~= s);
        None
    }

    /// The value named `key`.
    pub fn get_by_key(&self, key: &str) -> (res: Option<String>)
        ensures
            opt_str(res) == cache_get(self@, key@),
    {
        match self.find(key) {
            Some(i) => {
                proof {
                    lemma_cache_find(self@, key@);
                }
                assert(self@[i as int] == self.entries@[i as int]@);
                Some(self.entries[i].value.clone())
            },
            None => None,
        }
    }

    /// Stores `data` under its name (see `cache_upsert`).
    pub fn insert_value(&mut self, data: ValueData)
        requires
            old(self).wf(),
        ensures
            final(self).wf(),
            final(self)@ == cache_upsert(old(self)@, data@),
    {
        let ghost s = self@;
        proof {
            lemma_cache_find(s, data@.name);
            lemma_upsert_unique(s, data@);
        }
        let key = data.name.clone();
        match self.find(key.as_str()) {
            Some(i) => {
                self.entries.set(i, data);
                assert(self@ =~= s.update(i as int, data@));
            },
            None => {
                self.entries.push(data);
                assert(self@ =~= s.push(data@));
            },
        }
    }

    /// The values read from rows, each stored under its name (see
    /// `cache_of_rows`).
    pub fn from_rows(rows: Vec<ValueData>) -> (r: RuntimeValue)
        ensures
            r.wf(),
            r@ == cache_of_rows(rows@.map_values(|d: ValueData| d@)),
    {
        let ghost all = rows@.map_values(|d: ValueData| d@);
        let mut r = RuntimeValue::new();
        let mut i: usize = 0;
        while i < rows.len()
            invariant
                i <= rows@.len(),
                all == rows@.map_values(|d: ValueData| d@),
                r.wf(),
                r@ == cache_of_rows(all.subrange(0, i as int)),
            decreases rows.len() - i,
        {
            assert(all.subrange(0, i + 1).drop_last() =~= all.subrange(0, i as int));
            assert(all[i as int] == rows@[i as int]@);
            r.insert_value(rows[i].duplicate());
            i = i + 1;
        }
        assert(all.subrange(0, rows@.len() as int) =~= all);
        r
    }

    /// Sets the value named `key`. A value of that name takes the new text
    /// at once and its row is to be replaced; otherwise nothing changes
    /// yet, and a new row of type 2 is to be added, after which the caller
    /// stores it with `insert_value`.
    pub fn set_by_key(&mut self, key: &str, value: String) -> (w: RuntimeWrite)
        requires
            old(self).wf(),
        ensures
            final(self).wf(),
            match cache_find(old(self)@, key@) {
                Some(i) => {
                    &&& final(self)@ == cache_set(old(self)@, key@, value@)
                    &&& w matches RuntimeWrite::Update { id, data }
                    &&& id == old(self)@[i].id
                    &&& data@ == final(self)@[i]
                },
                None => {
                    &&& final(self)@ == old(self)@
                    &&& w matches RuntimeWrite::Insert { data }
                    &&& data@ == (ValueModel { id: 0, name: key@, value_type: 2, value: value@ })
                    &&& cache_upsert(final(self)@, data@) == cache_set(old(self)@, key@, value@)
                },
            },
    {
        let ghost s = self@;
        proof {
            lemma_cache_find(s, key@);
        }
        match self.find(key) {
            Some(i) => {
                let mut entry = self.entries[i].duplicate();
                assert(entry@ == s[i as int]);
                entry.value = value;
                let id = entry.id;
                self.entries.set(i, entry.duplicate());
                assert(self@ =~= s.update(i as int, ValueModel { value: value@, ..s[i as int] }));
                proof {
                    assert forall|a: int, b: int| 0 <= a < b < self@.len() implies #[trigger] self@[a].name
                        != #[trigger] self@[b].name by {
                        assert(self@[a].name == s[a].name);
                        assert(self@[b].name == s[b].name);
                    }
                }
                RuntimeWrite::Update { id, data: entry }
            },
            None => {
                let data = ValueData { id: 0, name: String::from_str(key), value_type: 2, value };
                RuntimeWrite::Insert { data }
            },
        }
    }
}

/// A table that a list of records is kept in.
pub trait HasTable {
    /// The name of the table.
    fn has_table_name() -> &'static str;
}

impl HasTable for Group {
    /// A group's records are nodes, kept in `nodes`.
    fn has_table_name() -> (name: &'static str)
        ensures
            name@ == "nodes"@,
    {
        "nodes"
    }
}

impl HasTable for GroupList {
    /// Groups are kept in `groups`.
    fn has_table_name() -> (name: &'static str)
        ensures
            name@ == "groups"@,
    {
        "groups"
    }
}

impl HasTable for RuntimeValue {
    /// Runtime values are kept in `runtime`.
    fn has_table_name() -> (name: &'static str)
        ensures
            name@ == "runtime"@,
    {
        "runtime"
    }
}

} // verus!
