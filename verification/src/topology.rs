//! The parts that instances play in a flow.
//!
//! A connector that only feeds pipelines is a start point of the flow, one
//! that is only fed by pipelines is an end point, and one that is both is in
//! between. A connector that no link names stands apart.
use crate::flow::ConnectStmt;
use crate::ids::ConnectorId;
use crate::registry::{
    lists_keys, lists_values, lists_values_of, second, Instances, Registry,
};
use vstd::prelude::*;

verus! {

/// The addresses of the instances of a flow, by the part they play.
#[derive(Debug)]
pub struct Topology {
    /// all pipelines
    pub pipelines: Vec<u64>,
    /// connectors that are sources only
    pub start_points: Vec<u64>,
    /// connectors that are both sources and sinks
    pub mixed_pickles: Vec<u64>,
    /// connectors that are sinks only
    pub end_points: Vec<u64>,
    /// connectors that are neither
    pub unlinked: Vec<u64>,
}

/// A `Topology` as mathematical sequences.
#[verifier::ext_equal]
pub struct TopologyView {
    pub pipelines: Seq<u64>,
    pub start_points: Seq<u64>,
    pub mixed_pickles: Seq<u64>,
    pub end_points: Seq<u64>,
    pub unlinked: Seq<u64>,
}

impl View for Topology {
    type V = TopologyView;

    open spec fn view(&self) -> TopologyView {
        TopologyView {
            pipelines: self.pipelines@,
            start_points: self.start_points@,
            mixed_pickles: self.mixed_pickles@,
            end_points: self.end_points@,
            unlinked: self.unlinked@,
        }
    }
}

/// The side of a link that a connector is on.
#[derive(Debug, PartialEq, Eq, Clone, Copy, Structural)]
pub enum Side {
    /// it feeds a pipeline
    Source,
    /// it is fed by a pipeline
    Sink,
}

/// The name of the connector on this side of `link`, if there is one.
pub open spec fn connector_on(side: Side, link: ConnectStmt) -> Option<Seq<char>> {
    match (side, link) {
        (Side::Source, ConnectStmt::ConnectorToPipeline { from, .. }) => Some(from.instance@),
        (Side::Sink, ConnectStmt::PipelineToConnector { to, .. }) => Some(to.instance@),
        _ => None,
    }
}

/// `names` with `name` at its end, where it is not in `names` yet.
pub open spec fn with_name(names: Seq<Seq<char>>, name: Option<Seq<char>>) -> Seq<Seq<char>> {
    match name {
        Some(name) => if names.contains(name) {
            names
        } else {
            names.push(name)
        },
        None => names,
    }
}

/// The connectors on this side of `links`, each once, in the order of first
/// mention.
pub open spec fn connectors_on(side: Side, links: Seq<ConnectStmt>) -> Seq<Seq<char>>
    decreases links.len(),
{
    if links.len() == 0 {
        Seq::empty()
    } else {
        with_name(connectors_on(side, links.drop_last()), connector_on(side, links.last()))
    }
}

/// The connectors that `links` feed.
pub open spec fn sinks(links: Seq<ConnectStmt>) -> Seq<Seq<char>> {
    connectors_on(Side::Sink, links)
}

/// The connectors that feed `links`.
pub open spec fn sources(links: Seq<ConnectStmt>) -> Seq<Seq<char>> {
    connectors_on(Side::Source, links)
}

/// The connectors that are sources only.
pub open spec fn start_names(links: Seq<ConnectStmt>) -> Seq<Seq<char>> {
    sources(links).filter(|name: Seq<char>| !sinks(links).contains(name))
}

/// The connectors that are both sinks and sources.
pub open spec fn mixed_names(links: Seq<ConnectStmt>) -> Seq<Seq<char>> {
    sinks(links).filter(|name: Seq<char>| sources(links).contains(name))
}

/// The connectors that are sinks only.
pub open spec fn end_names(links: Seq<ConnectStmt>) -> Seq<Seq<char>> {
    sinks(links).filter(|name: Seq<char>| !sources(links).contains(name))
}

/// Those of `names` that are neither sinks nor sources.
pub open spec fn unlinked_names(links: Seq<ConnectStmt>, names: Seq<Seq<char>>) -> Seq<Seq<char>> {
    names.filter(|name: Seq<char>| !sinks(links).contains(name) && !sources(links).contains(name))
}

/// The addresses of the instances called `names`.
pub open spec fn addresses(instances: Instances, names: Seq<Seq<char>>) -> Seq<u64> {
    names.map_values(|name: Seq<char>| instances[name].1)
}

/// Every connector that `links` name runs.
pub open spec fn connectors_known(connectors: Instances, links: Seq<ConnectStmt>) -> bool {
    forall|i: int, side: Side|
        #![trigger connector_on(side, links[i])]
        0 <= i < links.len() ==> (connector_on(side, links[i]) matches Some(name)
            ==> connectors.contains_key(name))
}

/// `addresses` lists the address of every instance once, in some order.
pub open spec fn lists_addresses(instances: Instances, addresses: Seq<u64>) -> bool {
    exists|values: Seq<(u64, u64)>|
        #![trigger lists_values(instances, values)]
        lists_values(instances, values) && addresses == values.map_values(
            |value: (u64, u64)| value.1,
        )
}

/// `found` lists the address of every connector that `links` do not name
/// once, in some order.
pub open spec fn lists_unlinked(
    connectors: Instances,
    links: Seq<ConnectStmt>,
    found: Seq<u64>,
) -> bool {
    exists|all: Seq<Seq<char>>|
        #![trigger lists_keys(connectors, all)]
        lists_keys(connectors, all) && found == addresses(connectors, unlinked_names(links, all))
}

/// `topology` gives each instance of a flow with these `links` its part.
pub open spec fn topology_of(
    topology: TopologyView,
    pipelines: Instances,
    connectors: Instances,
    links: Seq<ConnectStmt>,
) -> bool {
    &&& lists_addresses(pipelines, topology.pipelines)
    &&& topology.start_points == addresses(connectors, start_names(links))
    &&& topology.mixed_pickles == addresses(connectors, mixed_names(links))
    &&& topology.end_points == addresses(connectors, end_names(links))
    &&& lists_unlinked(connectors, links, topology.unlinked)
}

/// The texts of `ids`.
pub open spec fn names(ids: Seq<ConnectorId>) -> Seq<Seq<char>> {
    ids.map_values(|id: ConnectorId| id.0@)
}

fn has_id(ids: &Vec<ConnectorId>, id: &ConnectorId) -> (found: bool)
    ensures
        found == names(ids@).contains(id.0@),
{
    let mut i: usize = 0;
    while i < ids.len()
        invariant
            i <= ids.len(),
            forall|j: int| 0 <= j < i ==> #[trigger] names(ids@)[j] != id.0@,
        decreases ids.len() - i,
    {
        if ids[i] == *id {
            assert(names(ids@)[i as int] == id.0@);
            return true;
        }
        i = i + 1;
    }
    false
}

fn add_id(ids: &mut Vec<ConnectorId>, id: ConnectorId)
    ensures
        names(final(ids)@) == with_name(names(old(ids)@), Some(id.0@)),
{
    if !has_id(ids, &id) {
        ids.push(id);
        assert(names(ids@) =~= names(old(ids)@).push(id.0@));
    }
}

/// The connectors on this side of `links`.
fn linked_connectors(side: Side, links: &Vec<ConnectStmt>) -> (ids: Vec<ConnectorId>)
    ensures
        names(ids@) == connectors_on(side, links@),
{
    let mut ids: Vec<ConnectorId> = Vec::new();
    let mut i: usize = 0;
    assert(names(ids@) =~= connectors_on(side, links@.take(0)));
    while i < links.len()
        invariant
            i <= links.len(),
            names(ids@) == connectors_on(side, links@.take(i as int)),
        decreases links.len() - i,
    {
        assert(links@.take(i + 1).drop_last() =~= links@.take(i as int));
        match (side, &links[i]) {
            (Side::Source, ConnectStmt::ConnectorToPipeline { from, .. }) => {
                add_id(&mut ids, ConnectorId::from(from));
            },
            (Side::Sink, ConnectStmt::PipelineToConnector { to, .. }) => {
                add_id(&mut ids, ConnectorId::from(to));
            },
            _ => {},
        }
        i = i + 1;
    }
    assert(links@.take(links.len() as int) =~= links@);
    ids
}

/// All names in the registry, as names of connectors.
fn all_connectors(connectors: &Registry) -> (ids: Vec<ConnectorId>)
    ensures
        lists_keys(connectors@, names(ids@)),
{
    let keys = connectors.keys();
    let ghost all = keys@;
    let mut ids: Vec<ConnectorId> = Vec::new();
    for key in iter: keys
        invariant
            iter.seq() == all,
            names(ids@) == all.take(iter.index() as int).map_values(|name: String| name@),
    {
        let ghost before = names(ids@);
        ids.push(ConnectorId(key));
        assert(names(ids@) =~= before.push(key@));
        assert(all.take(iter.index() as int + 1) =~= all.take(iter.index() as int).push(key));
        assert(before.push(key@) =~= all.take(iter.index() as int).push(key).map_values(
            |name: String| name@,
        ));
    }
    assert(all.take(all.len() as int) =~= all);
    ids
}

/// The addresses of those of `ids` that are in `sinks` or not, as `is_sink`
/// says, and in `sources` or not, as `is_source` says.
fn addresses_where(
    connectors: &Registry,
    ids: &Vec<ConnectorId>,
    sinks: &Vec<ConnectorId>,
    is_sink: bool,
    sources: &Vec<ConnectorId>,
    is_source: bool,
) -> (found: Vec<u64>)
    requires
        forall|i: int|
            0 <= i < ids.len() ==> connectors@.contains_key(#[trigger] names(ids@)[i]),
    ensures
        found@ == addresses(
            connectors@,
            names(ids@).filter(
                |name: Seq<char>|
                    names(sinks@).contains(name) == is_sink && names(sources@).contains(name)
                        == is_source,
            ),
        ),
{
    let ghost wanted = |name: Seq<char>|
        names(sinks@).contains(name) == is_sink && names(sources@).contains(name) == is_source;
    let mut found: Vec<u64> = Vec::new();
    let mut i: usize = 0;
    proof {
        reveal(Seq::filter);
        assert(names(ids@).take(0).filter(wanted) =~= Seq::empty());
        assert(found@ =~= addresses(connectors@, names(ids@).take(0).filter(wanted)));
    }
    while i < ids.len()
        invariant
            i <= ids.len(),
            wanted == (|name: Seq<char>|
                names(sinks@).contains(name) == is_sink && names(sources@).contains(name)
                    == is_source),
            forall|j: int|
                0 <= j < ids.len() ==> connectors@.contains_key(#[trigger] names(ids@)[j]),
            found@ == addresses(connectors@, names(ids@).take(i as int).filter(wanted)),
        decreases ids.len() - i,
    {
        let ghost before = names(ids@).take(i as int);
        let ghost name = names(ids@)[i as int];
        proof {
            reveal(Seq::filter);
            assert(names(ids@).take(i + 1).drop_last() =~= before);
            assert(names(ids@).take(i + 1).last() == name);
            assert(connectors@.contains_key(name));
        }
        if has_id(sinks, &ids[i]) == is_sink && has_id(sources, &ids[i]) == is_source {
            if let Some(instance) = connectors.get(ids[i].0.as_str()) {
                found.push(*second(&instance));
                assert(found@ =~= addresses(connectors@, before.filter(wanted).push(name)));
            }
        }
        i = i + 1;
    }
    assert(names(ids@).take(ids.len() as int) =~= names(ids@));
    found
}

/// The addresses of all instances.
fn all_addresses(instances: &Registry) -> (found: Vec<u64>)
    ensures
        lists_addresses(instances@, found@),
{
    let values = instances.values();
    let mut found: Vec<u64> = Vec::new();
    let mut i: usize = 0;
    while i < values.len()
        invariant
            i <= values.len(),
            found@ == values@.take(i as int).map_values(|value: (u64, u64)| value.1),
        decreases values.len() - i,
    {
        found.push(*second(&values[i]));
        i = i + 1;
        assert(found@ =~= values@.take(i as int).map_values(|value: (u64, u64)| value.1));
    }
    assert(values@.take(values.len() as int) =~= values@);
    assert(lists_values(instances@, values@));
    found
}

impl Topology {
    /// Gives each instance of a flow with these `links` its part.
    pub fn new(pipelines: &Registry, connectors: &Registry, links: &Vec<ConnectStmt>) -> (topology:
        Topology)
        requires
            connectors_known(connectors@, links@),
        ensures
            topology_of(topology@, pipelines@, connectors@, links@),
    {
        let sinks = linked_connectors(Side::Sink, links);
        let sources = linked_connectors(Side::Source, links);
        let all = all_connectors(connectors);
        proof {
            lemma_names_known(connectors@, links@, Side::Sink);
            lemma_names_known(connectors@, links@, Side::Source);
            assert forall|i: int| 0 <= i < all.len() implies connectors@.contains_key(
                #[trigger] names(all@)[i],
            ) by {
                assert(names(all@).to_set().contains(names(all@)[i]));
            }
            lemma_same_kept(names(sources@), names(sinks@), names(sources@));
            lemma_same_kept(names(sinks@), names(sinks@), names(sources@));
            lemma_same_kept(names(all@), names(sinks@), names(sources@));
        }
        Topology {
            pipelines: all_addresses(pipelines),
            start_points: addresses_where(connectors, &sources, &sinks, false, &sources, true),
            mixed_pickles: addresses_where(connectors, &sinks, &sinks, true, &sources, true),
            end_points: addresses_where(connectors, &sinks, &sinks, true, &sources, false),
            unlinked: addresses_where(connectors, &all, &sinks, false, &sources, false),
        }
    }
}

/// What is known of a name for where it was taken from need not be asked for
/// when names are picked.
proof fn lemma_same_kept(from: Seq<Seq<char>>, sinks: Seq<Seq<char>>, sources: Seq<Seq<char>>)
    ensures
        from == sources ==> from.filter(
            |name: Seq<char>| sinks.contains(name) == false && sources.contains(name) == true,
        ) == from.filter(|name: Seq<char>| !sinks.contains(name)),
        from == sinks ==> from.filter(
            |name: Seq<char>| sinks.contains(name) == true && sources.contains(name) == true,
        ) == from.filter(|name: Seq<char>| sources.contains(name)),
        from == sinks ==> from.filter(
            |name: Seq<char>| sinks.contains(name) == true && sources.contains(name) == false,
        ) == from.filter(|name: Seq<char>| !sources.contains(name)),
        from.filter(
            |name: Seq<char>| sinks.contains(name) == false && sources.contains(name) == false,
        ) == from.filter(
            |name: Seq<char>| !sinks.contains(name) && !sources.contains(name),
        ),
{
    if from == sources {
        lemma_filters_agree(
            from,
            |name: Seq<char>| sinks.contains(name) == false && sources.contains(name) == true,
            |name: Seq<char>| !sinks.contains(name),
        );
    }
    if from == sinks {
        lemma_filters_agree(
            from,
            |name: Seq<char>| sinks.contains(name) == true && sources.contains(name) == true,
            |name: Seq<char>| sources.contains(name),
        );
        lemma_filters_agree(
            from,
            |name: Seq<char>| sinks.contains(name) == true && sources.contains(name) == false,
            |name: Seq<char>| !sources.contains(name),
        );
    }
    lemma_filters_agree(
        from,
        |name: Seq<char>| sinks.contains(name) == false && sources.contains(name) == false,
        |name: Seq<char>| !sinks.contains(name) && !sources.contains(name),
    );
}

proof fn lemma_filters_agree(
    names: Seq<Seq<char>>,
    one: spec_fn(Seq<char>) -> bool,
    other: spec_fn(Seq<char>) -> bool,
)
    requires
        forall|i: int| 0 <= i < names.len() ==> one(#[trigger] names[i]) == other(names[i]),
    ensures
        names.filter(one) == names.filter(other),
    decreases names.len(),
{
    reveal(Seq::filter);
    if names.len() > 0 {
        let rest = names.drop_last();
        assert forall|i: int| 0 <= i < rest.len() implies one(#[trigger] rest[i]) == other(
            rest[i],
        ) by {
            assert(rest[i] == names[i]);
        }
        lemma_filters_agree(rest, one, other);
        assert(one(names[names.len() - 1]) == other(names[names.len() - 1]));
    }
}

proof fn lemma_names_known(connectors: Instances, links: Seq<ConnectStmt>, side: Side)
    requires
        connectors_known(connectors, links),
    ensures
        forall|i: int|
            0 <= i < connectors_on(side, links).len() ==> connectors.contains_key(
                #[trigger] connectors_on(side, links)[i],
            ),
{
    law_linked_connectors(side, links);
    assert forall|i: int| 0 <= i < connectors_on(side, links).len() implies connectors.contains_key(
        #[trigger] connectors_on(side, links)[i],
    ) by {
        let name = connectors_on(side, links)[i];
        assert(connectors_on(side, links).contains(name));
        let j = choose|j: int|
            0 <= j < links.len() && connector_on(side, #[trigger] links[j]) == Some(name);
        assert(connector_on(side, links[j]) == Some(name));
    }
}

proof fn lemma_filtered(names: Seq<Seq<char>>, wanted: spec_fn(Seq<char>) -> bool)
    requires
        names.no_duplicates(),
    ensures
        names.filter(wanted).no_duplicates(),
        forall|name: Seq<char>| #[trigger]
            names.filter(wanted).contains(name) <==> names.contains(name) && wanted(name),
    decreases names.len(),
{
    reveal(Seq::filter);
    if names.len() > 0 {
        let rest = names.drop_last();
        let last = names.last();
        assert(rest.no_duplicates());
        lemma_filtered(rest, wanted);
        let kept = rest.filter(wanted);
        let all = names.filter(wanted);
        assert(all == if wanted(last) {
            kept.push(last)
        } else {
            kept
        });
        assert(!kept.contains(last));
        assert forall|i: int, j: int| 0 <= i < j < all.len() implies all[i] != all[j] by {
            assert(kept.contains(kept[i]));
        }
        assert forall|name: Seq<char>| #[trigger] all.contains(name) <==> names.contains(name)
            && wanted(name) by {
            if all.contains(name) {
                let k = choose|k: int| 0 <= k < all.len() && all[k] == name;
                if k < kept.len() {
                    assert(kept.contains(kept[k]));
                    let r = choose|r: int| 0 <= r < rest.len() && rest[r] == name;
                    assert(names[r] == name);
                } else {
                    assert(names[names.len() - 1] == name);
                }
            }
            if names.contains(name) && wanted(name) {
                let k = choose|k: int| 0 <= k < names.len() && names[k] == name;
                if k < rest.len() {
                    assert(rest[k] == name);
                    assert(kept.contains(name));
                    let r = choose|r: int| 0 <= r < kept.len() && kept[r] == name;
                    assert(all[r] == name);
                } else {
                    assert(all[all.len() - 1] == name);
                }
            }
        }
    }
}

/// A connector is on a side of `links` just where it is on that side of one
/// of them, and it is listed once.
pub proof fn law_linked_connectors(side: Side, links: Seq<ConnectStmt>)
    ensures
        connectors_on(side, links).no_duplicates(),
        forall|name: Seq<char>|
            #[trigger] connectors_on(side, links).contains(name) <==> exists|i: int|
                0 <= i < links.len() && connector_on(side, #[trigger] links[i]) == Some(name),
    decreases links.len(),
{
    if links.len() > 0 {
        let rest = links.drop_last();
        let all = connectors_on(side, links);
        let before = connectors_on(side, rest);
        law_linked_connectors(side, rest);
        assert forall|name: Seq<char>| #[trigger] all.contains(name) implies exists|i: int|
            0 <= i < links.len() && connector_on(side, #[trigger] links[i]) == Some(name) by {
            if before.contains(name) {
                let i = choose|i: int|
                    0 <= i < rest.len() && connector_on(side, #[trigger] rest[i]) == Some(name);
                assert(links[i] == rest[i]);
            } else {
                assert(connector_on(side, links[links.len() - 1]) == Some(name));
            }
        }
        assert forall|name: Seq<char>|
            (exists|i: int|
                0 <= i < links.len() && connector_on(side, #[trigger] links[i]) == Some(
                    name,
                )) implies #[trigger] all.contains(name) by {
            let i = choose|i: int|
                0 <= i < links.len() && connector_on(side, #[trigger] links[i]) == Some(name);
            if i < rest.len() {
                assert(rest[i] == links[i]);
                assert(before.contains(name));
                let k = choose|k: int| 0 <= k < before.len() && before[k] == name;
                assert(all[k] == name);
            } else if !before.contains(name) {
                assert(all[all.len() - 1] == name);
            }
        }
    }
}

/// Every connector plays exactly one part: a source that no link feeds is a
/// start point, a sink that feeds no link an end point, what is both is in
/// between, and what is neither stands apart. None is listed twice.
pub proof fn law_one_part_each(links: Seq<ConnectStmt>, all: Seq<Seq<char>>, name: Seq<char>)
    requires
        all.no_duplicates(),
    ensures
        start_names(links).contains(name) <==> sources(links).contains(name) && !sinks(
            links,
        ).contains(name),
        mixed_names(links).contains(name) <==> sources(links).contains(name) && sinks(
            links,
        ).contains(name),
        end_names(links).contains(name) <==> sinks(links).contains(name) && !sources(
            links,
        ).contains(name),
        unlinked_names(links, all).contains(name) <==> all.contains(name) && !sinks(
            links,
        ).contains(name) && !sources(links).contains(name),
        start_names(links).no_duplicates(),
        mixed_names(links).no_duplicates(),
        end_names(links).no_duplicates(),
        unlinked_names(links, all).no_duplicates(),
{
    law_linked_connectors(Side::Sink, links);
    law_linked_connectors(Side::Source, links);
    lemma_filtered(sources(links), |n: Seq<char>| !sinks(links).contains(n));
    lemma_filtered(sinks(links), |n: Seq<char>| sources(links).contains(n));
    lemma_filtered(sinks(links), |n: Seq<char>| !sources(links).contains(n));
    lemma_filtered(
        all,
        |n: Seq<char>| !sinks(links).contains(n) && !sources(links).contains(n),
    );
}

/// The connectors of all parts together, given those that run.
pub open spec fn all_parts(links: Seq<ConnectStmt>, all: Seq<Seq<char>>) -> Seq<Seq<char>> {
    start_names(links) + mixed_names(links) + end_names(links) + unlinked_names(links, all)
}

/// The parts together name every connector that runs, and each of them once.
pub proof fn law_parts_cover_connectors(
    connectors: Instances,
    links: Seq<ConnectStmt>,
    all: Seq<Seq<char>>,
)
    requires
        connectors_known(connectors, links),
        lists_keys(connectors, all),
    ensures
        lists_keys(connectors, all_parts(links, all)),
{
    let start = start_names(links);
    let mixed = mixed_names(links);
    let end = end_names(links);
    let unlinked = unlinked_names(links, all);
    let parts = all_parts(links, all);
    assert forall|i: int, j: int| 0 <= i < j < parts.len() implies parts[i] != parts[j] by {
        law_one_part_each(links, all, parts[i]);
        lemma_part_of(start, mixed, end, unlinked, i);
        lemma_part_of(start, mixed, end, unlinked, j);
    }
    lemma_names_known(connectors, links, Side::Sink);
    lemma_names_known(connectors, links, Side::Source);
    assert forall|name: Seq<char>| #[trigger]
        parts.to_set().contains(name) <==> connectors.dom().contains(name) by {
        law_one_part_each(links, all, name);
        if parts.contains(name) {
            let i = choose|i: int| 0 <= i < parts.len() && parts[i] == name;
            lemma_part_of(start, mixed, end, unlinked, i);
            if sources(links).contains(name) {
                let k = choose|k: int| 0 <= k < sources(links).len() && sources(links)[k] == name;
                assert(connectors.contains_key(connectors_on(Side::Source, links)[k]));
            } else if sinks(links).contains(name) {
                let k = choose|k: int| 0 <= k < sinks(links).len() && sinks(links)[k] == name;
                assert(connectors.contains_key(connectors_on(Side::Sink, links)[k]));
            } else {
                assert(all.to_set().contains(name));
            }
        }
        if connectors.dom().contains(name) {
            assert(all.to_set().contains(name));
            assert(start.contains(name) || mixed.contains(name) || end.contains(name)
                || unlinked.contains(name));
            lemma_in_parts(start, mixed, end, unlinked, name);
        }
    }
    assert(parts.to_set() =~= connectors.dom());
}

/// What stands at an index of four sequences in a row is in the sequence that
/// the index falls in.
proof fn lemma_part_of(
    a: Seq<Seq<char>>,
    b: Seq<Seq<char>>,
    c: Seq<Seq<char>>,
    d: Seq<Seq<char>>,
    i: int,
)
    requires
        0 <= i < (a + b + c + d).len(),
    ensures
        ({
            let name = (a + b + c + d)[i];
            if i < a.len() {
                a[i] == name && a.contains(name)
            } else if i < a.len() + b.len() {
                b[i - a.len()] == name && b.contains(name)
            } else if i < a.len() + b.len() + c.len() {
                c[i - a.len() - b.len()] == name && c.contains(name)
            } else {
                d[i - a.len() - b.len() - c.len()] == name && d.contains(name)
            }
        }),
{
}

/// What is in one of four sequences is in all of them in a row.
proof fn lemma_in_parts(
    a: Seq<Seq<char>>,
    b: Seq<Seq<char>>,
    c: Seq<Seq<char>>,
    d: Seq<Seq<char>>,
    name: Seq<char>,
)
    requires
        a.contains(name) || b.contains(name) || c.contains(name) || d.contains(name),
    ensures
        (a + b + c + d).contains(name),
{
    let all = a + b + c + d;
    if a.contains(name) {
        let k = choose|k: int| 0 <= k < a.len() && a[k] == name;
        assert(all[k] == name);
    } else if b.contains(name) {
        let k = choose|k: int| 0 <= k < b.len() && b[k] == name;
        assert(all[a.len() + k] == name);
    } else if c.contains(name) {
        let k = choose|k: int| 0 <= k < c.len() && c[k] == name;
        assert(all[a.len() + b.len() + k] == name);
    } else {
        let k = choose|k: int| 0 <= k < d.len() && d[k] == name;
        assert(all[a.len() + b.len() + c.len() + k] == name);
    }
}

impl TopologyView {
    /// All connectors of the flow.
    pub open spec fn connectors(self) -> Seq<u64> {
        self.start_points + self.mixed_pickles + self.end_points + self.unlinked
    }
}

/// A topology lists the address of every pipeline and of every connector that
/// runs, linked or not, and of each of them once.
pub proof fn law_topology_is_complete(
    topology: TopologyView,
    pipelines: Instances,
    connectors: Instances,
    links: Seq<ConnectStmt>,
)
    requires
        topology_of(topology, pipelines, connectors, links),
        connectors_known(connectors, links),
    ensures
        lists_addresses(pipelines, topology.pipelines),
        lists_addresses(connectors, topology.connectors()),
{
    let all = choose|all: Seq<Seq<char>>|
        #![trigger lists_keys(connectors, all)]
        lists_keys(connectors, all) && topology.unlinked == addresses(
            connectors,
            unlinked_names(links, all),
        );
    law_parts_cover_connectors(connectors, links, all);
    let parts = all_parts(links, all);
    let values = parts.map_values(|name: Seq<char>| connectors[name]);
    assert(lists_values_of(connectors, parts, values));
    assert(lists_values(connectors, values));
    assert(topology.connectors() =~= values.map_values(|value: (u64, u64)| value.1));
}

} // verus!
