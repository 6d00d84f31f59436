//! What comes of a deployment every step of which goes well, step by step.
use crate::error::DeployError;
use crate::flow::{DeployFlow, Query};
use crate::link::{link_plan, LinkAction};
use crate::registry::Instances;
use crate::startup::{
    connector_names, lemma_ends_known, pipeline_names, pipeline_path, untouched, Stage, StartupView,
};
use crate::startup_laws::{
    all_ends_declared, declared_before, driven, law_links_are_made_in_order,
    law_success_keeps_valid, lemma_all_requests, lemma_driven_splits, lemma_known_is_declared,
    requests, steps_before_link, succeeded,
};
use crate::task::{fresh, TaskView};
use crate::topology_laws::{
    addresses_of, feeds, is_fed, law_parts_follow_links, lists_group,
};
use vstd::prelude::*;

verus! {

/// The names that the connectors of `flow` are declared under.
pub open spec fn declared_connectors(flow: DeployFlow) -> Seq<Seq<char>> {
    Seq::new(flow.decl.connectors@.len(), |i: int| flow.decl.connectors@[i].instance_id@)
}

/// The names that the pipelines of `flow` are declared under.
pub open spec fn declared_pipelines(flow: DeployFlow) -> Seq<Seq<char>> {
    Seq::new(flow.decl.pipelines@.len(), |i: int| flow.decl.pipelines@[i].instance_id@)
}

/// Of the first `n` of `names`, the one at index `i` is the last of its kind.
pub open spec fn last_of_name(names: Seq<Seq<char>>, i: int, n: int) -> bool {
    &&& 0 <= i < n
    &&& forall|j: int| i < j < n ==> #[trigger] names[j] != names[i]
}

/// `instances` holds just the first `n` of `names`, each with the handles that
/// were given for the last declaration of that name. The handles for the
/// declaration at index `i` are those at index `from + i` of `given`.
pub open spec fn holds_given(
    instances: Instances,
    names: Seq<Seq<char>>,
    n: int,
    given: Seq<(u64, u64)>,
    from: int,
) -> bool {
    &&& forall|name: Seq<char>| #[trigger]
        instances.contains_key(name) <==> exists|i: int| 0 <= i < n && #[trigger] names[i] == name
    &&& forall|i: int| #[trigger]
        last_of_name(names, i, n) ==> instances[names[i]] == given[from + i]
}

/// How many of the declarations from index `from` on, `count` in all, are
/// spawned after `steps` steps.
pub open spec fn spawned_after(steps: int, from: int, count: int) -> int {
    if steps <= from {
        0
    } else if steps - from < count {
        steps - from
    } else {
        count
    }
}

/// The deployment of `flow` after steps in which the runtime gave the handles
/// `given`, one pair a step: the connectors come first, in the order of their
/// declarations, and the pipelines after them.
pub open spec fn keeps_given(
    m: StartupView,
    src: String,
    flow: DeployFlow,
    given: Seq<(u64, u64)>,
) -> bool {
    let connectors = flow.decl.connectors@.len() as int;
    let pipelines = flow.decl.pipelines@.len() as int;
    let steps = given.len() as int;
    &&& m.src == src
    &&& m.flow == flow
    &&& holds_given(
        m.connectors,
        declared_connectors(flow),
        spawned_after(steps, 0, connectors),
        given,
        0,
    )
    &&& holds_given(
        m.pipelines,
        declared_pipelines(flow),
        spawned_after(steps, connectors, pipelines),
        given,
        connectors,
    )
    &&& match m.stage {
        Stage::Connector(i) => i == steps && steps < connectors,
        Stage::Pipeline(i) => i == steps - connectors && connectors <= steps < connectors
            + pipelines,
        _ => connectors + pipelines <= steps,
    }
}

proof fn lemma_given_added(
    instances: Instances,
    names: Seq<Seq<char>>,
    n: int,
    given: Seq<(u64, u64)>,
    from: int,
    instance: (u64, u64),
)
    requires
        0 <= n < names.len(),
        0 <= from,
        given.len() == from + n,
        holds_given(instances, names, n, given, from),
    ensures
        holds_given(
            instances.insert(names[n], instance),
            names,
            n + 1,
            given.push(instance),
            from,
        ),
{
    let after = instances.insert(names[n], instance);
    assert forall|name: Seq<char>| #[trigger] after.contains_key(name) <==> exists|i: int|
        0 <= i < n + 1 && #[trigger] names[i] == name by {
        if instances.contains_key(name) {
            let i = choose|i: int| 0 <= i < n && #[trigger] names[i] == name;
            assert(0 <= i < n + 1 && names[i] == name);
        } else if exists|i: int| 0 <= i < n + 1 && #[trigger] names[i] == name {
            let i = choose|i: int| 0 <= i < n + 1 && #[trigger] names[i] == name;
            if i < n {
                assert(instances.contains_key(name));
            }
        }
    }
    assert forall|i: int| #[trigger] last_of_name(names, i, n + 1) implies after[names[i]]
        == given.push(instance)[from + i] by {
        if i < n {
            assert(names[n] != names[i]);
            assert(last_of_name(names, i, n));
        }
    }
}

proof fn lemma_given_stays(
    instances: Instances,
    names: Seq<Seq<char>>,
    n: int,
    given: Seq<(u64, u64)>,
    from: int,
    instance: (u64, u64),
)
    requires
        0 <= n <= names.len(),
        0 <= from,
        n == 0 || from + n <= given.len(),
        holds_given(instances, names, n, given, from),
    ensures
        holds_given(instances, names, n, given.push(instance), from),
{
    assert forall|i: int| #[trigger] last_of_name(names, i, n) implies instances[names[i]]
        == given.push(instance)[from + i] by {}
}

proof fn lemma_kept_by_step(
    m: StartupView,
    src: String,
    flow: DeployFlow,
    given: Seq<(u64, u64)>,
    instance: (u64, u64),
)
    requires
        keeps_given(m, src, flow, given),
    ensures
        keeps_given(succeeded(m, instance), src, flow, given.push(instance)),
{
    let connectors = flow.decl.connectors@.len() as int;
    let pipelines = flow.decl.pipelines@.len() as int;
    let steps = given.len() as int;
    assert(flow.decl.connectors.len() == connectors);
    assert(flow.decl.pipelines.len() == pipelines);
    let spawned = spawned_after(steps, 0, connectors);
    let spawned_pipelines = spawned_after(steps, connectors, pipelines);
    match m.stage {
        Stage::Connector(i) => {
            lemma_given_added(
                m.connectors,
                declared_connectors(flow),
                spawned,
                given,
                0,
                instance,
            );
            lemma_given_stays(
                m.pipelines,
                declared_pipelines(flow),
                spawned_pipelines,
                given,
                connectors,
                instance,
            );
            assert(declared_connectors(flow)[i as int]
                == m.connector_decls()[i as int].instance_id@);
        },
        Stage::Pipeline(i) => {
            lemma_given_stays(
                m.connectors,
                declared_connectors(flow),
                spawned,
                given,
                0,
                instance,
            );
            lemma_given_added(
                m.pipelines,
                declared_pipelines(flow),
                spawned_pipelines,
                given,
                connectors,
                instance,
            );
            assert(declared_pipelines(flow)[i as int]
                == m.pipeline_decls()[i as int].instance_id@);
        },
        _ => {
            lemma_given_stays(
                m.connectors,
                declared_connectors(flow),
                spawned,
                given,
                0,
                instance,
            );
            lemma_given_stays(
                m.pipelines,
                declared_pipelines(flow),
                spawned_pipelines,
                given,
                connectors,
                instance,
            );
        },
    }
}

proof fn lemma_kept_by_steps(
    m: StartupView,
    src: String,
    flow: DeployFlow,
    past: Seq<(u64, u64)>,
    given: Seq<(u64, u64)>,
)
    requires
        keeps_given(m, src, flow, past),
    ensures
        keeps_given(driven(m, given), src, flow, past + given),
    decreases given.len(),
{
    if given.len() == 0 {
        assert(past + given =~= past);
    } else {
        lemma_kept_by_step(m, src, flow, past, given[0]);
        lemma_kept_by_steps(
            succeeded(m, given[0]),
            src,
            flow,
            past.push(given[0]),
            given.skip(1),
        );
        assert(past.push(given[0]) + given.skip(1) =~= past + given);
    }
}

/// However far a deployment has come, it spawns the connectors one a step in
/// the order of their declarations, and the pipelines after them. Under each
/// name stand the handles that the runtime gave for the last declaration of
/// that name, the URL's first and the address second, and they stay there to
/// the end.
pub proof fn law_given_handles_are_kept(src: String, flow: DeployFlow, given: Seq<(u64, u64)>)
    ensures
        keeps_given(driven(untouched(src, flow).at_connector(0), given), src, flow, given),
{
    let begun = untouched(src, flow).at_connector(0);
    assert(flow.decl.connectors.len() == flow.decl.connectors@.len());
    assert(flow.decl.pipelines.len() == flow.decl.pipelines@.len());
    assert(keeps_given(begun, src, flow, Seq::empty()));
    lemma_kept_by_steps(begun, src, flow, Seq::empty(), given);
    assert(Seq::empty() + given =~= given);
}

proof fn lemma_within_link(m: StartupView, given: Seq<(u64, u64)>, k: int)
    requires
        m.stage == Stage::Link(k as usize, 0),
        given.len() < m.plan.len() <= 4,
    ensures
        driven(m, given) == (StartupView {
            stage: Stage::Link(k as usize, given.len() as usize),
            ..m
        }),
{
    reveal_with_fuel(driven, 5);
}

/// A deployment makes the requests of its links in the order of the links and,
/// within a link, in the order of the link's plan: nothing is left out, made
/// twice or put in between.
pub proof fn law_links_take_their_turns(
    src: String,
    flow: DeployFlow,
    k: int,
    j: int,
    given: Seq<(u64, u64)>,
)
    requires
        0 <= k < flow.decl.links@.len(),
        declared_before(flow, k + 1),
        0 <= j < requests(flow.decl.links@[k]),
        given.len() == steps_before_link(flow, k) + j,
    ensures
        ({
            let m = driven(untouched(src, flow).at_connector(0), given);
            &&& m.stage == Stage::Link(k as usize, j as usize)
            &&& m.failure is None
            &&& m.plan.len() == requests(flow.decl.links@[k])
            &&& link_plan(m.connectors, m.pipelines, flow.decl.links@[k]) == Ok::<
                Seq<LinkAction>,
                DeployError,
            >(m.plan)
        }),
{
    let n = steps_before_link(flow, k);
    lemma_all_requests(flow.decl.links@.take(k));
    assert(declared_before(flow, k));
    law_links_are_made_in_order(src, flow, k, given.take(n));
    let begun = untouched(src, flow).at_connector(0);
    lemma_driven_splits(begun, given, n);
    let m = driven(begun, given.take(n));
    lemma_known_is_declared(m, flow.decl.links@[k]);
    lemma_within_link(m, given.skip(n), k);
}

/// When the last link is made, the control task is spawned, then told to
/// start, and with that the deployment is up.
pub proof fn law_control_task_comes_last(src: String, flow: DeployFlow, given: Seq<(u64, u64)>)
    requires
        all_ends_declared(flow),
        given.len() >= steps_before_link(flow, flow.decl.links@.len() as int),
        given.len() <= steps_before_link(flow, flow.decl.links@.len() as int) + 2,
    ensures
        ({
            let m = driven(untouched(src, flow).at_connector(0), given);
            let past = given.len() - steps_before_link(flow, flow.decl.links@.len() as int);
            &&& m.failure is None
            &&& m.valid()
            &&& m.stage == if past == 0 {
                Stage::Task
            } else if past == 1 {
                Stage::Announce
            } else {
                Stage::Finished
            }
        }),
{
    let links = flow.decl.links@.len() as int;
    let n = steps_before_link(flow, links);
    lemma_all_requests(flow.decl.links@.take(links));
    law_links_are_made_in_order(src, flow, links, given.take(n));
    let begun = untouched(src, flow).at_connector(0);
    lemma_driven_splits(begun, given, n);
    let m = driven(begun, given.take(n));
    reveal_with_fuel(driven, 3);
    law_success_keeps_valid(m, given[n]);
    law_success_keeps_valid(succeeded(m, given[n]), given[n + 1]);
}

/// Where `name` is wanted, `found` holds its address.
proof fn lemma_listed(
    instances: Instances,
    wanted: spec_fn(Seq<char>) -> bool,
    found: Seq<u64>,
    name: Seq<char>,
)
    requires
        lists_group(instances, wanted, found),
        instances.contains_key(name),
        wanted(name),
    ensures
        found.contains(instances[name].1),
{
    let names = choose|names: Seq<Seq<char>>| addresses_of(instances, wanted, found, names);
    assert(names.contains(name));
    let i = choose|i: int| 0 <= i < names.len() && names[i] == name;
    assert(found[i] == instances[name].1);
}

/// The control task of a flow that has come up talks to each connector and to
/// each pipeline at the address that the runtime gave for it, and to each
/// connector in the part that the links give it.
pub proof fn law_control_task_knows_addresses(
    src: String,
    flow: DeployFlow,
    given: Seq<(u64, u64)>,
    task: TaskView,
    i: int,
)
    requires
        all_ends_declared(flow),
        given.len() == steps_before_link(flow, flow.decl.links@.len() as int),
        ({
            let m = driven(untouched(src, flow).at_connector(0), given);
            fresh(task, m.pipelines, m.connectors, flow.decl.links@)
        }),
    ensures
        last_of_name(declared_connectors(flow), i, flow.decl.connectors@.len() as int) ==> {
            let name = flow.decl.connectors@[i].instance_id@;
            let address = given[i].1;
            let links = flow.decl.links@;
            &&& feeds(links, name) && !is_fed(links, name) ==> task.topology.start_points.contains(
                address,
            )
            &&& feeds(links, name) && is_fed(links, name) ==> task.topology.mixed_pickles.contains(
                address,
            )
            &&& !feeds(links, name) && is_fed(links, name) ==> task.topology.end_points.contains(
                address,
            )
            &&& !feeds(links, name) && !is_fed(links, name) ==> task.topology.unlinked.contains(
                address,
            )
        },
        last_of_name(declared_pipelines(flow), i, flow.decl.pipelines@.len() as int)
            ==> task.topology.pipelines.contains(given[flow.decl.connectors@.len() + i].1),
{
    let links = flow.decl.links@;
    let t = task.topology;
    let connectors = flow.decl.connectors@.len() as int;
    let pipelines = flow.decl.pipelines@.len() as int;
    let m = driven(untouched(src, flow).at_connector(0), given);
    lemma_all_requests(links.take(links.len() as int));
    law_given_handles_are_kept(src, flow, given);
    law_control_task_comes_last(src, flow, given);
    lemma_ends_known(m);
    law_parts_follow_links(t, m.pipelines, m.connectors, links);
    if last_of_name(declared_connectors(flow), i, connectors) {
        let name = declared_connectors(flow)[i];
        assert(m.connectors.contains_key(name));
        assert(m.connectors[name] == given[i]);
        if feeds(links, name) && !is_fed(links, name) {
            lemma_listed(
                m.connectors,
                |name: Seq<char>| feeds(links, name) && !is_fed(links, name),
                t.start_points,
                name,
            );
        } else if feeds(links, name) && is_fed(links, name) {
            lemma_listed(
                m.connectors,
                |name: Seq<char>| feeds(links, name) && is_fed(links, name),
                t.mixed_pickles,
                name,
            );
        } else if is_fed(links, name) {
            lemma_listed(
                m.connectors,
                |name: Seq<char>| !feeds(links, name) && is_fed(links, name),
                t.end_points,
                name,
            );
        } else {
            lemma_listed(
                m.connectors,
                |name: Seq<char>| !feeds(links, name) && !is_fed(links, name),
                t.unlinked,
                name,
            );
        }
    }
    if last_of_name(declared_pipelines(flow), i, pipelines) {
        let name = declared_pipelines(flow)[i];
        assert(m.pipelines.contains_key(name));
        assert(m.pipelines[name] == given[connectors + i]);
        lemma_listed(m.pipelines, |name: Seq<char>| true, t.pipelines, name);
    }
}

/// Connectors and pipelines go by the instance ids that they are declared with.
pub proof fn law_declared_by_instance_id(flow: DeployFlow)
    ensures
        connector_names(flow.decl.connectors@) == declared_connectors(flow),
        pipeline_names(flow.decl.pipelines@) == declared_pipelines(flow),
{
    assert(connector_names(flow.decl.connectors@) =~= declared_connectors(flow));
    assert(pipeline_names(flow.decl.pipelines@) =~= declared_pipelines(flow));
}

/// The text that is read as the URL of a pipeline names the artefact and then
/// the instance, in full and between slashes.
pub proof fn law_pipeline_path_names_both(decl: Query)
    ensures
        pipeline_path(decl) == "/pipeline/"@ + decl.artifact_id@ + "/"@ + decl.instance_id@,
        pipeline_path(decl).len() == "/pipeline/"@.len() + decl.artifact_id@.len() + "/"@.len()
            + decl.instance_id@.len(),
{
}

} // verus!
