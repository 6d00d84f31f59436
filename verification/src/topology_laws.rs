//! What the links of a flow say of its connectors.
use crate::flow::ConnectStmt;
use crate::registry::{lists_keys, lists_values, lists_values_of, Instances};
use crate::topology::{
    addresses, connector_on, connectors_known, end_names, law_linked_connectors,
    law_one_part_each, lists_addresses, mixed_names, sinks, sources, start_names, topology_of,
    unlinked_names, Side, Topology, TopologyView,
};
use vstd::prelude::*;

verus! {

/// The connector called `name` feeds a pipeline.
pub open spec fn feeds(links: Seq<ConnectStmt>, name: Seq<char>) -> bool {
    exists|i: int|
        0 <= i < links.len() && (#[trigger] links[i] matches ConnectStmt::ConnectorToPipeline {
            from,
            ..
        } && from.instance@ == name)
}

/// The connector called `name` is fed by a pipeline.
pub open spec fn is_fed(links: Seq<ConnectStmt>, name: Seq<char>) -> bool {
    exists|i: int|
        0 <= i < links.len() && (#[trigger] links[i] matches ConnectStmt::PipelineToConnector {
            to,
            ..
        } && to.instance@ == name)
}

/// `found` holds, once for each instance whose name is `wanted`, the second
/// handle of that instance, in the order of `names`.
pub open spec fn addresses_of(
    instances: Instances,
    wanted: spec_fn(Seq<char>) -> bool,
    found: Seq<u64>,
    names: Seq<Seq<char>>,
) -> bool {
    &&& names.no_duplicates()
    &&& forall|name: Seq<char>| #[trigger]
        names.contains(name) <==> instances.contains_key(name) && wanted(name)
    &&& found.len() == names.len()
    &&& forall|i: int| 0 <= i < found.len() ==> #[trigger] found[i] == instances[names[i]].1
}

/// `found` holds, once for each instance whose name is `wanted` and in some
/// order, the second handle of that instance.
pub open spec fn lists_group(
    instances: Instances,
    wanted: spec_fn(Seq<char>) -> bool,
    found: Seq<u64>,
) -> bool {
    exists|names: Seq<Seq<char>>| addresses_of(instances, wanted, found, names)
}

/// `found` holds, once for each instance and in some order, its second handle.
pub open spec fn lists_all(instances: Instances, found: Seq<u64>) -> bool {
    lists_group(instances, |name: Seq<char>| true, found)
}

/// Every connector that a link from a pipeline leads to is a sink and every
/// connector that a link leads from is a source, whatever the ports and
/// artefacts of the link are.
pub proof fn law_links_have_sides(links: Seq<ConnectStmt>, i: int)
    requires
        0 <= i < links.len(),
    ensures
        match links[i] {
            ConnectStmt::ConnectorToPipeline { from, .. } => sources(links).contains(
                from.instance@,
            ),
            ConnectStmt::PipelineToConnector { to, .. } => sinks(links).contains(to.instance@),
            ConnectStmt::PipelineToPipeline { .. } => true,
        },
{
    match links[i] {
        ConnectStmt::ConnectorToPipeline { from, .. } => {
            assert(feeds(links, from.instance@));
            law_sides(links, from.instance@);
        },
        ConnectStmt::PipelineToConnector { to, .. } => {
            assert(is_fed(links, to.instance@));
            law_sides(links, to.instance@);
        },
        ConnectStmt::PipelineToPipeline { .. } => {},
    }
}

/// The sources are just the connectors that feed a pipeline, and the sinks
/// just those that a pipeline feeds.
pub proof fn law_sides(links: Seq<ConnectStmt>, name: Seq<char>)
    ensures
        sources(links).contains(name) <==> feeds(links, name),
        sinks(links).contains(name) <==> is_fed(links, name),
{
    law_linked_connectors(Side::Source, links);
    law_linked_connectors(Side::Sink, links);
    if sources(links).contains(name) {
        let i = choose|i: int|
            0 <= i < links.len() && connector_on(Side::Source, #[trigger] links[i]) == Some(name);
        assert(links[i] is ConnectorToPipeline);
    }
    if feeds(links, name) {
        let i = choose|i: int|
            0 <= i < links.len() && (#[trigger] links[i] matches ConnectStmt::ConnectorToPipeline {
                from,
                ..
            } && from.instance@ == name);
        assert(connector_on(Side::Source, links[i]) == Some(name));
    }
    if sinks(links).contains(name) {
        let i = choose|i: int|
            0 <= i < links.len() && connector_on(Side::Sink, #[trigger] links[i]) == Some(name);
        assert(links[i] is PipelineToConnector);
    }
    if is_fed(links, name) {
        let i = choose|i: int|
            0 <= i < links.len() && (#[trigger] links[i] matches ConnectStmt::PipelineToConnector {
                to,
                ..
            } && to.instance@ == name);
        assert(connector_on(Side::Sink, links[i]) == Some(name));
    }
}

/// All that is asked of a flow before it is given a control task is that the
/// connectors at the ends of its links run.
pub proof fn law_connectors_known(connectors: Instances, links: Seq<ConnectStmt>)
    ensures
        connectors_known(connectors, links) <==> forall|name: Seq<char>|
            feeds(links, name) || is_fed(links, name) ==> #[trigger] connectors.contains_key(name),
{
    if connectors_known(connectors, links) {
        assert forall|name: Seq<char>|
            feeds(links, name) || is_fed(links, name) implies #[trigger] connectors.contains_key(
            name,
        ) by {
            if feeds(links, name) {
                let i = choose|i: int|
                    0 <= i < links.len() && (
                    #[trigger] links[i] matches ConnectStmt::ConnectorToPipeline { from, .. }
                        && from.instance@ == name);
                assert(connector_on(Side::Source, links[i]) == Some(name));
            } else {
                let i = choose|i: int|
                    0 <= i < links.len() && (
                    #[trigger] links[i] matches ConnectStmt::PipelineToConnector { to, .. }
                        && to.instance@ == name);
                assert(connector_on(Side::Sink, links[i]) == Some(name));
            }
        }
    }
    if forall|name: Seq<char>|
        feeds(links, name) || is_fed(links, name) ==> #[trigger] connectors.contains_key(name) {
        assert forall|i: int, side: Side|
            #![trigger connector_on(side, links[i])]
            0 <= i < links.len() implies (connector_on(side, links[i]) matches Some(name)
            ==> connectors.contains_key(name)) by {
            if let Some(name) = connector_on(side, links[i]) {
                assert(feeds(links, name) || is_fed(links, name));
            }
        }
    }
}

pub(crate) proof fn lemma_lists_all(instances: Instances, found: Seq<u64>)
    requires
        lists_addresses(instances, found),
    ensures
        lists_all(instances, found),
{
    let values = choose|values: Seq<(u64, u64)>|
        #![trigger lists_values(instances, values)]
        lists_values(instances, values) && found == values.map_values(
            |value: (u64, u64)| value.1,
        );
    let names = choose|names: Seq<Seq<char>>| lists_values_of(instances, names, values);
    assert forall|name: Seq<char>| #[trigger]
        names.contains(name) <==> instances.contains_key(name) by {
        assert(names.to_set().contains(name) <==> instances.dom().contains(name));
    }
    assert(addresses_of(instances, |name: Seq<char>| true, found, names));
}

proof fn lemma_part_of_name(
    connectors: Instances,
    links: Seq<ConnectStmt>,
    all: Seq<Seq<char>>,
    name: Seq<char>,
)
    requires
        connectors_known(connectors, links),
        lists_keys(connectors, all),
    ensures
        start_names(links).contains(name) <==> connectors.contains_key(name) && feeds(links, name)
            && !is_fed(links, name),
        mixed_names(links).contains(name) <==> connectors.contains_key(name) && feeds(links, name)
            && is_fed(links, name),
        end_names(links).contains(name) <==> connectors.contains_key(name) && !feeds(links, name)
            && is_fed(links, name),
        unlinked_names(links, all).contains(name) <==> connectors.contains_key(name) && !feeds(
            links,
            name,
        ) && !is_fed(links, name),
{
    law_connectors_known(connectors, links);
    law_one_part_each(links, all, name);
    law_sides(links, name);
    assert(all.to_set().contains(name) <==> connectors.dom().contains(name));
    if feeds(links, name) || is_fed(links, name) {
        assert(connectors.contains_key(name));
    }
}

/// Each connector that runs is asked as the links say: as a start point where
/// it feeds and is not fed, as an end point where it is fed and does not feed,
/// in between where it does both, and apart where it does neither. Each
/// pipeline that runs is asked as such. Whoever is asked is asked at its
/// address, not at its URL.
pub proof fn law_parts_follow_links(
    t: TopologyView,
    pipelines: Instances,
    connectors: Instances,
    links: Seq<ConnectStmt>,
)
    requires
        topology_of(t, pipelines, connectors, links),
        connectors_known(connectors, links),
    ensures
        lists_all(pipelines, t.pipelines),
        lists_group(
            connectors,
            |name: Seq<char>| feeds(links, name) && !is_fed(links, name),
            t.start_points,
        ),
        lists_group(
            connectors,
            |name: Seq<char>| feeds(links, name) && is_fed(links, name),
            t.mixed_pickles,
        ),
        lists_group(
            connectors,
            |name: Seq<char>| !feeds(links, name) && is_fed(links, name),
            t.end_points,
        ),
        lists_group(
            connectors,
            |name: Seq<char>| !feeds(links, name) && !is_fed(links, name),
            t.unlinked,
        ),
{
    lemma_lists_all(pipelines, t.pipelines);
    let all = choose|all: Seq<Seq<char>>|
        #![trigger lists_keys(connectors, all)]
        lists_keys(connectors, all) && t.unlinked == addresses(
            connectors,
            unlinked_names(links, all),
        );
    let start = |name: Seq<char>| feeds(links, name) && !is_fed(links, name);
    let mixed = |name: Seq<char>| feeds(links, name) && is_fed(links, name);
    let end = |name: Seq<char>| !feeds(links, name) && is_fed(links, name);
    let apart = |name: Seq<char>| !feeds(links, name) && !is_fed(links, name);
    law_one_part_each(links, all, Seq::empty());
    assert forall|name: Seq<char>| #[trigger]
        start_names(links).contains(name) <==> connectors.contains_key(name) && start(name) by {
        lemma_part_of_name(connectors, links, all, name);
    }
    assert forall|name: Seq<char>| #[trigger]
        mixed_names(links).contains(name) <==> connectors.contains_key(name) && mixed(name) by {
        lemma_part_of_name(connectors, links, all, name);
    }
    assert forall|name: Seq<char>| #[trigger]
        end_names(links).contains(name) <==> connectors.contains_key(name) && end(name) by {
        lemma_part_of_name(connectors, links, all, name);
    }
    assert forall|name: Seq<char>| #[trigger]
        unlinked_names(links, all).contains(name) <==> connectors.contains_key(name) && apart(
        name,
    ) by {
        lemma_part_of_name(connectors, links, all, name);
    }
    assert(addresses_of(connectors, start, t.start_points, start_names(links)));
    assert(addresses_of(connectors, mixed, t.mixed_pickles, mixed_names(links)));
    assert(addresses_of(connectors, end, t.end_points, end_names(links)));
    assert(addresses_of(connectors, apart, t.unlinked, unlinked_names(links, all)));
}

/// The parts of a topology are read as they are written.
pub proof fn law_parts_are_read(t: Topology)
    ensures
        t@.pipelines == t.pipelines@,
        t@.start_points == t.start_points@,
        t@.mixed_pickles == t.mixed_pickles@,
        t@.end_points == t.end_points@,
        t@.unlinked == t.unlinked@,
{
}

} // verus!
