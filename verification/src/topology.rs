//! What the driver knows of the schema: keyspaces, their replication
//! strategies, tables and views.

use vstd::prelude::*;

verus! {

/// Replication with one factor for the whole cluster.
#[derive(Debug, Clone, PartialEq, Eq)]
pub struct SimpleStrategy {
    pub replication_factor: u32,
}

/// Replication with a factor for each datacenter.
#[derive(Debug, Clone, PartialEq, Eq)]
pub struct NetworkTopologyStrategy {
    pub datacenter_repfactors: Vec<(String, i32)>,
}

/// A replication strategy that the driver does not know.
#[derive(Debug, Clone, PartialEq, Eq)]
pub struct Other {
    pub name: String,
    pub data: Vec<(String, String)>,
}

/// The settings of a strategy, for the strategies that have any.
#[derive(Debug, Clone, PartialEq, Eq)]
pub enum StrategyData {
    Simple(SimpleStrategy),
    NetworkTopology(NetworkTopologyStrategy),
    Other(Other),
}

/// A replication strategy as the host sees it: its name and its settings.
#[derive(Debug, Clone, PartialEq, Eq)]
pub struct ScyllaStrategy {
    pub kind: String,
    pub data: Option<StrategyData>,
}

/// A replication strategy as the driver reports it.
#[derive(Debug, Clone, PartialEq, Eq)]
pub enum Strategy {
    SimpleStrategy { replication_factor: usize },
    NetworkTopologyStrategy { datacenter_repfactors: Vec<(String, usize)> },
    Other { name: String, data: Vec<(String, String)> },
    LocalStrategy,
}

/// A table: its columns and its keys.
#[derive(Debug, Clone, PartialEq, Eq)]
pub struct ScyllaTable {
    pub columns: Vec<String>,
    pub partition_key: Vec<String>,
    pub clustering_key: Vec<String>,
    pub partitioner: Option<String>,
}

/// A materialized view: a table and the name of the table it is made of.
#[derive(Debug, Clone, PartialEq, Eq)]
pub struct ScyllaMaterializedView {
    pub view_metadata: ScyllaTable,
    pub base_table_name: String,
}

/// A keyspace: its replication strategy, its tables and its views, each
/// by name.
#[derive(Debug, Clone, PartialEq, Eq)]
pub struct ScyllaKeyspace {
    pub strategy: ScyllaStrategy,
    pub tables: Vec<(String, ScyllaTable)>,
    pub views: Vec<(String, ScyllaMaterializedView)>,
}

/// The keyspaces that the driver knows, or `None` where it knows none.
pub fn get_keyspace_info(keyspaces: Vec<(String, ScyllaKeyspace)>) -> (r: Option<
    Vec<(String, ScyllaKeyspace)>,
>)
    ensures
        r == if keyspaces@.len() == 0 {
            None
        } else {
            Some(keyspaces)
        },
{
    if keyspaces.len() == 0 {
        None
    } else {
        Some(keyspaces)
    }
}

/// The low 32 bits of `v`.
pub open spec fn low_unsigned(v: usize) -> u32 {
    (v as int % 0x1_0000_0000) as u32
}

/// The low 32 bits of `v`, read in two's complement.
pub open spec fn low_signed(v: usize) -> i32 {
    let low = v as int % 0x1_0000_0000;
    if low < 0x8000_0000 {
        low as i32
    } else {
        (low - 0x1_0000_0000) as i32
    }
}

fn truncate_unsigned(v: usize) -> (r: u32)
    ensures
        r == low_unsigned(v),
{
    (v as u64 % 0x1_0000_0000) as u32
}

fn truncate_signed(v: usize) -> (r: i32)
    ensures
        r == low_signed(v),
{
    let low: u64 = v as u64 % 0x1_0000_0000;
    if low < 0x8000_0000 {
        low as i32
    } else {
        (low as i64 - 0x1_0000_0000) as i32
    }
}

/// Whether `to` holds the datacenters of `from` in their order, each
/// factor cut to its low 32 bits.
pub open spec fn repfactors_converted(from: Seq<(String, usize)>, to: Seq<(String, i32)>) -> bool {
    to.len() == from.len() && forall|i: int|
        #![trigger to[i]]
        0 <= i < from.len() ==> to[i].0@ == from[i].0@ && to[i].1 == low_signed(from[i].1)
}

/// Whether `to` holds the pairs of `from` in their order.
pub open spec fn pairs_copied(from: Seq<(String, String)>, to: Seq<(String, String)>) -> bool {
    to.len() == from.len() && forall|i: int|
        #![trigger to[i]]
        0 <= i < from.len() ==> to[i].0@ == from[i].0@ && to[i].1@ == from[i].1@
}

/// Whether `to` is `from` as the host sees it: named by its kind, an
/// unknown strategy by its own name, and a local strategy without data.
pub open spec fn strategy_converted(from: Strategy, to: ScyllaStrategy) -> bool {
    match from {
        Strategy::SimpleStrategy { replication_factor } => to.kind@ == "SimpleStrategy"@ && to.data
            == Some(
            StrategyData::Simple(
                SimpleStrategy { replication_factor: low_unsigned(replication_factor) },
            ),
        ),
        Strategy::NetworkTopologyStrategy { datacenter_repfactors } => to.kind@
            == "NetworkTopologyStrategy"@ && (to.data matches Some(
            StrategyData::NetworkTopology(n),
        ) && repfactors_converted(datacenter_repfactors@, n.datacenter_repfactors@)),
        Strategy::Other { name, data } => to.kind@ == name@ && (to.data matches Some(
            StrategyData::Other(o),
        ) && o.name@ == name@ && pairs_copied(data@, o.data@)),
        Strategy::LocalStrategy => to.kind@ == "LocalStrategy"@ && to.data is None,
    }
}

fn convert_repfactors(from: &Vec<(String, usize)>) -> (r: Vec<(String, i32)>)
    ensures
        repfactors_converted(from@, r@),
{
    let n: usize = from.len();
    let mut to: Vec<(String, i32)> = Vec::new();
    let mut i: usize = 0;
    while i < n
        invariant
            n == from@.len(),
            i <= n,
            to@.len() == i,
            forall|j: int|
                #![trigger to@[j]]
                0 <= j < i ==> to@[j].0@ == from@[j].0@ && to@[j].1 == low_signed(from@[j].1),
        decreases n - i,
    {
        let name: String = from[i].0.clone();
        let factor: i32 = truncate_signed(from[i].1);
        let ghost before = to@;
        to.push((name, factor));
        assert forall|j: int| #![trigger to@[j]] 0 <= j < i + 1 implies to@[j].0@ == from@[j].0@
            && to@[j].1 == low_signed(from@[j].1) by {
            if j < i {
                assert(to@[j] == before[j]);
            }
        }
        i = i + 1;
    }
    to
}

fn copy_pairs(from: &Vec<(String, String)>) -> (r: Vec<(String, String)>)
    ensures
        pairs_copied(from@, r@),
{
    let n: usize = from.len();
    let mut to: Vec<(String, String)> = Vec::new();
    let mut i: usize = 0;
    while i < n
        invariant
            n == from@.len(),
            i <= n,
            to@.len() == i,
            forall|j: int|
                #![trigger to@[j]]
                0 <= j < i ==> to@[j].0@ == from@[j].0@ && to@[j].1@ == from@[j].1@,
        decreases n - i,
    {
        let key: String = from[i].0.clone();
        let value: String = from[i].1.clone();
        let ghost before = to@;
        to.push((key, value));
        assert forall|j: int| #![trigger to@[j]] 0 <= j < i + 1 implies to@[j].0@ == from@[j].0@
            && to@[j].1@ == from@[j].1@ by {
            if j < i {
                assert(to@[j] == before[j]);
            }
        }
        i = i + 1;
    }
    to
}

impl ScyllaStrategy {
    /// The strategy as the host sees it.
    pub fn from_strategy(strategy: &Strategy) -> (r: ScyllaStrategy)
        ensures
            strategy_converted(*strategy, r),
    {
        match strategy {
            Strategy::SimpleStrategy { replication_factor } => ScyllaStrategy {
                kind: "SimpleStrategy".to_owned(),
                data: Some(
                    StrategyData::Simple(
                        SimpleStrategy {
                            replication_factor: truncate_unsigned(*replication_factor),
                        },
                    ),
                ),
            },
            Strategy::NetworkTopologyStrategy { datacenter_repfactors } => ScyllaStrategy {
                kind: "NetworkTopologyStrategy".to_owned(),
                data: Some(
                    StrategyData::NetworkTopology(
                        NetworkTopologyStrategy {
                            datacenter_repfactors: convert_repfactors(datacenter_repfactors),
                        },
                    ),
                ),
            },
            Strategy::Other { name, data } => ScyllaStrategy {
                kind: name.clone(),
                data: Some(StrategyData::Other(Other { name: name.clone(), data: copy_pairs(data) })),
            },
            Strategy::LocalStrategy => ScyllaStrategy {
                kind: "LocalStrategy".to_owned(),
                data: None,
            },
        }
    }
}

} // verus!
