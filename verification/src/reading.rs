//! What holds of what is read: manifests, and the directories that a configuration is looked for in.

use vstd::prelude::*;

use crate::command::{ExecOptions, OptionsView};
use crate::config::{overridden, Config, ConfigView};
use crate::context::text_option;
use crate::deps::{DirStatus, DirStatusView, HostOps, RasterOps};
use crate::error::{viewed_result, AppError, ErrorView};
use crate::loading::{
    config_candidates, load_config_from_candidates, load_config_with_fallback,
    load_config_with_options, loaded_from_candidates, status_given, with_options,
};
use crate::manifest::{
    container_name, containers_of, entry, is_join_container, join_container, join_containers,
    manifest_of, names_image, pod_name, podman_container, the_join_container_is_listed, Yaml,
};
use crate::text::{joined, texts};

verus! {

/// Tags are set aside, all of them, and nothing else is.
pub proof fn tags_are_set_aside(value: Yaml)
    ensures
        !(value.untagged() is Tagged),
        !(value is Tagged) ==> value.untagged() == value,
        value is Tagged ==> value.untagged() == (*value->Tagged_0).untagged(),
    decreases value,
{
    if let Yaml::Tagged(inner) = value {
        tags_are_set_aside(*inner);
    }
}

/// A mapping, its tags aside, holds a value at one place under a text that is no key before.
pub open spec fn holds_at(value: Yaml, key: Seq<char>, found: Yaml, k: int) -> bool {
    match value.untagged() {
        Yaml::Mapping(entries) => {
            &&& 0 <= k < entries.len()
            &&& entries[k].0 == Yaml::Text(key)
            &&& entries[k].1 == found
            &&& forall|j: int| 0 <= j < k ==> (#[trigger] entries[j]).0 != Yaml::Text(key)
        },
        _ => false,
    }
}

/// A mapping, its tags aside, holds a value under a text: the first, where there is more than one.
pub open spec fn holds(value: Yaml, key: Seq<char>, found: Yaml) -> bool {
    exists|k: int| #[trigger] holds_at(value, key, found, k)
}

/// Looking up a text finds what a mapping holds under it first, and finds nothing else.
pub proof fn mappings_are_looked_up(value: Yaml, key: Seq<char>, found: Yaml)
    ensures
        value.get(key) == Some(found) <==> holds(value, key, found),
{
    if let Yaml::Mapping(entries) = value.untagged() {
        entries_are_looked_up(entries, key);
        if value.get(key) == Some(found) {
            let k = choose|k: int|
                {
                    &&& 0 <= k < entries.len()
                    &&& (#[trigger] entries[k]).0 == Yaml::Text(key)
                    &&& Some(entries[k].1) == entry(entries, key)
                    &&& forall|j: int| 0 <= j < k ==> (#[trigger] entries[j]).0 != Yaml::Text(key)
                };
            assert(holds_at(value, key, found, k));
        }
        if holds(value, key, found) {
            let k = choose|k: int| #[trigger] holds_at(value, key, found, k);
            assert(entries[k].0 == Yaml::Text(key));
            if entry(entries, key) is Some {
                let i = choose|k: int|
                    {
                        &&& 0 <= k < entries.len()
                        &&& (#[trigger] entries[k]).0 == Yaml::Text(key)
                        &&& Some(entries[k].1) == entry(entries, key)
                        &&& forall|j: int|
                            0 <= j < k ==> (#[trigger] entries[j]).0 != Yaml::Text(key)
                    };
                assert(entries[i].0 == Yaml::Text(key));
                assert(i == k);
            }
        }
    }
}

/// The first entry under a text.
proof fn entries_are_looked_up(entries: Seq<(Yaml, Yaml)>, key: Seq<char>)
    ensures
        match entry(entries, key) {
            None => forall|k: int|
                0 <= k < entries.len() ==> (#[trigger] entries[k]).0 != Yaml::Text(key),
            Some(found) => exists|k: int|
                {
                    &&& 0 <= k < entries.len()
                    &&& (#[trigger] entries[k]).0 == Yaml::Text(key)
                    &&& entries[k].1 == found
                    &&& forall|j: int| 0 <= j < k ==> (#[trigger] entries[j]).0 != Yaml::Text(key)
                },
        },
    decreases entries.len(),
{
    if entries.len() > 0 {
        let rest = entries.skip(1);
        entries_are_looked_up(rest, key);
        if entries[0].0 == Yaml::Text(key) {
        } else if let Some(found) = entry(rest, key) {
            let k = choose|k: int|
                {
                    &&& 0 <= k < rest.len()
                    &&& (#[trigger] rest[k]).0 == Yaml::Text(key)
                    &&& rest[k].1 == found
                    &&& forall|j: int| 0 <= j < k ==> (#[trigger] rest[j]).0 != Yaml::Text(key)
                };
            assert(entries[k + 1] == rest[k]);
            assert forall|j: int| 0 <= j < k + 1 implies (#[trigger] entries[j]).0 != Yaml::Text(
                key,
            ) by {
                if j > 0 {
                    assert(rest[j - 1] == entries[j]);
                }
            }
        } else {
            assert forall|k: int| 0 <= k < entries.len() implies (#[trigger] entries[k]).0
                != Yaml::Text(key) by {
                if k > 0 {
                    assert(rest[k - 1] == entries[k]);
                }
            }
        }
    }
}

/// A manifest lists these containers under `spec.containers`.
pub open spec fn lists(manifest: Yaml, containers: Seq<Yaml>) -> bool {
    exists|spec: Yaml, list: Yaml|
        {
            &&& #[trigger] holds(manifest, "spec"@, spec)
            &&& #[trigger] holds(spec, "containers"@, list)
            &&& list.untagged() == Yaml::Sequence(containers)
        }
}

/// A container has this name.
pub open spec fn is_named(container: Yaml, name: Seq<char>) -> bool {
    exists|held: Yaml|
        #[trigger] holds(container, "name"@, held) && held.untagged() == Yaml::Text(name)
}

/// A container wants to be joined: the label `run.sarus.join` is the text `true`.
pub open spec fn wants_to_be_joined(container: Yaml) -> bool {
    exists|labels: Yaml, label: Yaml|
        {
            &&& #[trigger] holds(container, "labels"@, labels)
            &&& #[trigger] holds(labels, "run.sarus.join"@, label)
            &&& label.untagged() == Yaml::Text("true"@)
        }
}

/// A manifest describes a pod with this name.
pub open spec fn describes_pod(manifest: Yaml, name: Seq<char>) -> bool {
    exists|metadata: Yaml, held: Yaml|
        {
            &&& #[trigger] holds(manifest, "metadata"@, metadata)
            &&& #[trigger] holds(metadata, "name"@, held)
            &&& held.untagged() == Yaml::Text(name)
        }
}

/// What two lookups in a row find.
proof fn looked_up_twice(value: Yaml, first: Seq<char>, second: Seq<char>)
    ensures
        forall|found: Yaml, inner: Yaml|
            #![trigger holds(value, first, found), holds(found, second, inner)]
            holds(value, first, found) && holds(found, second, inner) ==> value.get(first) == Some(
                found,
            ) && found.get(second) == Some(inner),
        value.get(first) is Some ==> holds(value, first, value.get(first)->0),
        value.get(first) is Some && (value.get(first)->0).get(second) is Some ==> holds(
            value.get(first)->0,
            second,
            (value.get(first)->0).get(second)->0,
        ),
{
    assert forall|found: Yaml, inner: Yaml|
        #![trigger holds(value, first, found), holds(found, second, inner)]
        holds(value, first, found) && holds(found, second, inner) implies value.get(first) == Some(
        found,
    ) && found.get(second) == Some(inner) by {
        mappings_are_looked_up(value, first, found);
        mappings_are_looked_up(found, second, inner);
    }
    if let Some(found) = value.get(first) {
        mappings_are_looked_up(value, first, found);
        if let Some(inner) = found.get(second) {
            mappings_are_looked_up(found, second, inner);
        }
    }
}

/// The parts of a manifest that are looked at.
pub(crate) proof fn parts_agree(manifest: Yaml, container: Yaml)
    ensures
        forall|containers: Seq<Yaml>|
            containers_of(manifest) == Some(containers) <==> #[trigger] lists(manifest, containers),
        forall|name: Seq<char>|
            container_name(container) == Some(name) <==> #[trigger] is_named(container, name),
        is_join_container(container) <==> wants_to_be_joined(container),
        forall|name: Seq<char>|
            pod_name(manifest) == Ok::<Seq<char>, ErrorView>(name) <==> #[trigger] describes_pod(
                manifest,
                name,
            ),
{
    looked_up_twice(manifest, "spec"@, "containers"@);
    looked_up_twice(container, "labels"@, "run.sarus.join"@);
    looked_up_twice(manifest, "metadata"@, "name"@);
    assert forall|name: Seq<char>|
        container_name(container) == Some(name) <==> #[trigger] is_named(container, name) by {
        if let Some(held) = container.get("name"@) {
            mappings_are_looked_up(container, "name"@, held);
        }
        if is_named(container, name) {
            let held = choose|held: Yaml|
                #[trigger] holds(container, "name"@, held) && held.untagged() == Yaml::Text(name);
            mappings_are_looked_up(container, "name"@, held);
        }
    }
}

/// A container has a name.
pub open spec fn has_name(container: Yaml) -> bool {
    exists|name: Seq<char>| #[trigger] is_named(container, name)
}

/// All listed containers have a name.
pub open spec fn all_named(containers: Seq<Yaml>) -> bool {
    forall|k: int| 0 <= k < containers.len() ==> has_name(#[trigger] containers[k])
}

/// The container at one place is the one to join: all have a name, and it is the only one that wants
/// to be joined or, where none does, the only one there is.
pub open spec fn is_the_one_to_join(containers: Seq<Yaml>, k: int) -> bool {
    &&& all_named(containers)
    &&& 0 <= k < containers.len()
    &&& wants_to_be_joined(containers[k]) || containers.len() == 1
    &&& forall|j: int|
        0 <= j < containers.len() && wants_to_be_joined(#[trigger] containers[j]) ==> j == k
}

/// A manifest has a container to join exactly where it lists containers of which one is the one to
/// join, and the name is that of this one.
pub proof fn the_one_to_join_is_joined(manifest: Yaml, name: Seq<char>)
    ensures
        join_container(manifest) == Ok::<Seq<char>, ErrorView>(name) <==> exists|
            containers: Seq<Yaml>,
            k: int,
        |
            {
                &&& #[trigger] lists(manifest, containers)
                &&& #[trigger] is_the_one_to_join(containers, k)
                &&& is_named(containers[k], name)
            },
{
    parts_agree(manifest, manifest);
    if join_container(manifest) == Ok::<Seq<char>, ErrorView>(name) {
        let k = the_join_container_is_listed(manifest, name);
        let containers = containers_of(manifest)->0;
        names_agree(containers);
        assert(lists(manifest, containers));
        assert forall|j: int|
            0 <= j < containers.len() && wants_to_be_joined(#[trigger] containers[j]) implies j
            == k by {
            parts_agree(manifest, containers[j]);
        }
        parts_agree(manifest, containers[k]);
        assert(is_the_one_to_join(containers, k));
    }
    if exists|containers: Seq<Yaml>, k: int|
        {
            &&& #[trigger] lists(manifest, containers)
            &&& #[trigger] is_the_one_to_join(containers, k)
            &&& is_named(containers[k], name)
        } {
        let (containers, k) = choose|containers: Seq<Yaml>, k: int|
            {
                &&& #[trigger] lists(manifest, containers)
                &&& #[trigger] is_the_one_to_join(containers, k)
                &&& is_named(containers[k], name)
            };
        names_agree(containers);
        parts_agree(manifest, containers[k]);
        labels_agree(containers, k);
    }
}

/// The names of containers.
proof fn names_agree(containers: Seq<Yaml>)
    ensures
        all_named(containers) <==> !(exists|k: int|
            0 <= k < containers.len() && container_name(#[trigger] containers[k]) is None),
{
    assert forall|k: int| 0 <= k < containers.len() implies (container_name(
        #[trigger] containers[k],
    ) is Some <==> has_name(containers[k])) by {
        parts_agree(containers[k], containers[k]);
        if let Some(name) = container_name(containers[k]) {
            assert(is_named(containers[k], name));
        }
    }
}

/// The list of those that want to be joined holds at most the one at a place, where no other wants
/// to.
proof fn labels_agree(containers: Seq<Yaml>, k: int)
    requires
        0 <= k < containers.len(),
        forall|j: int|
            0 <= j < containers.len() && wants_to_be_joined(#[trigger] containers[j]) ==> j == k,
    ensures
        wants_to_be_joined(containers[k]) ==> join_containers(containers) == seq![containers[k]],
        !wants_to_be_joined(containers[k]) ==> join_containers(containers).len() == 0,
    decreases containers.len(),
{
    let front = containers.drop_last();
    let last = containers.len() - 1;
    parts_agree(containers[k], containers[k]);
    parts_agree(containers[last], containers[last]);
    if k < last {
        assert forall|j: int| 0 <= j < front.len() && wants_to_be_joined(#[trigger] front[j])
            implies j == k by {
            assert(front[j] == containers[j]);
        }
        assert(front[k] == containers[k]);
        labels_agree(front, k);
    } else {
        assert forall|j: int| 0 <= j < front.len() implies !wants_to_be_joined(
            #[trigger] front[j],
        ) by {
            assert(front[j] == containers[j]);
        }
        none_labelled(front);
        assert(join_containers(containers) =~= if wants_to_be_joined(containers[k]) {
            seq![containers[k]]
        } else {
            Seq::empty()
        });
    }
}

/// Where none wants to be joined, there is no list of those that want to.
proof fn none_labelled(containers: Seq<Yaml>)
    requires
        forall|j: int| 0 <= j < containers.len() ==> !wants_to_be_joined(#[trigger] containers[j]),
    ensures
        join_containers(containers) == Seq::<Yaml>::empty(),
    decreases containers.len(),
{
    if containers.len() > 0 {
        let front = containers.drop_last();
        assert forall|j: int| 0 <= j < front.len() implies !wants_to_be_joined(
            #[trigger] front[j],
        ) by {
            assert(front[j] == containers[j]);
        }
        none_labelled(front);
        parts_agree(containers.last(), containers.last());
        assert(containers.last() == containers[containers.len() - 1]);
    }
}

/// Where more than one want to be joined, the list holds more than one.
proof fn several_labelled(containers: Seq<Yaml>, i: int, j: int)
    requires
        0 <= i < j < containers.len(),
        wants_to_be_joined(containers[i]),
        wants_to_be_joined(containers[j]),
    ensures
        join_containers(containers).len() > 1,
    decreases containers.len(),
{
    let front = containers.drop_last();
    let last = containers.len() - 1;
    assert(front[i] == containers[i]);
    parts_agree(containers[last], containers[last]);
    if j < last {
        assert(front[j] == containers[j]);
        several_labelled(front, i, j);
    } else {
        one_labelled(front, i);
    }
}

/// Where one wants to be joined, the list is not empty.
proof fn one_labelled(containers: Seq<Yaml>, i: int)
    requires
        0 <= i < containers.len(),
        wants_to_be_joined(containers[i]),
    ensures
        join_containers(containers).len() > 0,
    decreases containers.len(),
{
    let front = containers.drop_last();
    let last = containers.len() - 1;
    parts_agree(containers[last], containers[last]);
    if i < last {
        assert(front[i] == containers[i]);
        one_labelled(front, i);
    }
}

/// The reason why a manifest has no container to join: it lists none, one of those that it lists has
/// no name, more than one want to be joined, none is listed, or none of several wants to be joined.
pub proof fn manifests_without_one_to_join_are_refused(manifest: Yaml, containers: Seq<Yaml>)
    ensures
        !(exists|any: Seq<Yaml>| #[trigger] lists(manifest, any)) ==> join_container(manifest)
            == Err::<Seq<char>, ErrorView>(
            ErrorView::Yaml("YAML manifest must define spec.containers"@),
        ),
        lists(manifest, containers) && !all_named(containers) ==> join_container(manifest) == Err::<
            Seq<char>,
            ErrorView,
        >(ErrorView::Yaml("Each container in spec.containers must define a string name"@)),
        forall|i: int, j: int|
            lists(manifest, containers) && all_named(containers) && 0 <= i < j < containers.len()
                && wants_to_be_joined(#[trigger] containers[i]) && wants_to_be_joined(
                #[trigger] containers[j],
            ) ==> join_container(manifest) == Err::<Seq<char>, ErrorView>(
                ErrorView::Yaml(
                    "YAML manifest must not label more than one container with run.sarus.join=\"true\""@,
                ),
            ),
        lists(manifest, containers) && containers.len() == 0 ==> join_container(manifest) == Err::<
            Seq<char>,
            ErrorView,
        >(
            ErrorView::Yaml(
                "YAML manifest must define at least one container in spec.containers"@,
            ),
        ),
        lists(manifest, containers) && all_named(containers) && containers.len() > 1 && (forall|
            j: int,
        |
            0 <= j < containers.len() ==> !wants_to_be_joined(#[trigger] containers[j]))
            ==> join_container(manifest) == Err::<Seq<char>, ErrorView>(
            ErrorView::Yaml(
                "YAML manifest must label exactly one container with run.sarus.join=\"true\" when spec.containers has multiple containers"@,
            ),
        ),
{
    parts_agree(manifest, manifest);
    names_agree(containers);
    if containers_of(manifest) is Some {
        assert(lists(manifest, containers_of(manifest)->0));
    }
    if forall|j: int| 0 <= j < containers.len() ==> !wants_to_be_joined(#[trigger] containers[j]) {
        none_labelled(containers);
    }
    assert forall|i: int, j: int|
        lists(manifest, containers) && all_named(containers) && 0 <= i < j < containers.len()
            && wants_to_be_joined(#[trigger] containers[i]) && wants_to_be_joined(
            #[trigger] containers[j],
        ) implies join_container(manifest) == Err::<Seq<char>, ErrorView>(
        ErrorView::Yaml(
            "YAML manifest must not label more than one container with run.sarus.join=\"true\""@,
        ),
    ) by {
        several_labelled(containers, i, j);
    }
}

/// Podman knows the container to join by the names of the pod and of the container, with a hyphen
/// between them. A manifest without a container to join, or else without the name of a pod, is
/// refused.
pub proof fn containers_are_known_by_pod_and_name(manifest: Yaml, pod: Seq<char>, name: Seq<char>)
    ensures
        join_container(manifest) == Ok::<Seq<char>, ErrorView>(name) && describes_pod(
            manifest,
            pod,
        ) ==> podman_container(manifest) == Ok::<Seq<char>, ErrorView>(pod + "-"@ + name),
        join_container(manifest) is Err ==> podman_container(manifest) == join_container(manifest),
        join_container(manifest) is Ok && !(exists|any: Seq<char>| #[trigger]
            describes_pod(manifest, any)) ==> podman_container(manifest) == Err::<
            Seq<char>,
            ErrorView,
        >(ErrorView::Yaml("YAML manifest must define metadata.name as a string"@)),
{
    parts_agree(manifest, manifest);
    if let Ok(any) = pod_name(manifest) {
        assert(describes_pod(manifest, any));
    }
}

/// What stands at the end of a way through the mappings and sequences of a value.
pub open spec fn reached(value: Yaml, way: Seq<int>) -> Option<Yaml>
    decreases way.len(),
{
    if way.len() == 0 {
        Some(value)
    } else {
        match value {
            Yaml::Mapping(entries) => if 0 <= way[0] < entries.len() {
                reached(entries[way[0]].1, way.skip(1))
            } else {
                None
            },
            Yaml::Sequence(items) => if 0 <= way[0] < items.len() {
                reached(items[way[0]], way.skip(1))
            } else {
                None
            },
            _ => None,
        }
    }
}

/// At the end of a way there is a mapping that has an image as a text under the text `image`.
pub open spec fn image_stands_at(value: Yaml, way: Seq<int>, image: Seq<char>) -> bool {
    match reached(value, way) {
        Some(Yaml::Mapping(entries)) => exists|k: int|
            0 <= k < entries.len() && #[trigger] entries[k] == (
                Yaml::Text("image"@),
                Yaml::Text(image),
            ),
        _ => false,
    }
}

/// A manifest names exactly the images that stand in it, at the end of whatever way.
pub proof fn named_images_stand_in_the_manifest(value: Yaml, image: Seq<char>)
    ensures
        names_image(value, image) <==> exists|way: Seq<int>| #[trigger]
            image_stands_at(value, way, image),
{
    if names_image(value, image) {
        let way = way_to_image(value, image);
        assert(image_stands_at(value, way, image));
    }
    if exists|way: Seq<int>| #[trigger] image_stands_at(value, way, image) {
        let way = choose|way: Seq<int>| #[trigger] image_stands_at(value, way, image);
        image_is_named(value, way, image);
    }
}

/// A way to an image that is named.
proof fn way_to_image(value: Yaml, image: Seq<char>) -> (way: Seq<int>)
    requires
        names_image(value, image),
    ensures
        image_stands_at(value, way, image),
    decreases value,
{
    match value {
        Yaml::Mapping(entries) => {
            let k = choose|k: int|
                0 <= k < entries.len() && {
                    ||| (#[trigger] entries[k]).0 == Yaml::Text("image"@) && entries[k].1
                        == Yaml::Text(image)
                    ||| names_image(entries[k].1, image)
                };
            if entries[k].0 == Yaml::Text("image"@) && entries[k].1 == Yaml::Text(image) {
                assert(entries[k] == (Yaml::Text("image"@), Yaml::Text(image)));
                Seq::empty()
            } else {
                assert(decreases_to!(value => entries[k]));
                assert(decreases_to!(entries[k] => entries[k].1));
                let rest = way_to_image(entries[k].1, image);
                let way = seq![k] + rest;
                assert(way.skip(1) =~= rest);
                way
            }
        },
        Yaml::Sequence(items) => {
            let k = choose|k: int|
                0 <= k < items.len() && names_image(#[trigger] items[k], image);
            assert(decreases_to!(value => items[k]));
            let rest = way_to_image(items[k], image);
            let way = seq![k] + rest;
            assert(way.skip(1) =~= rest);
            way
        },
        _ => Seq::empty(),
    }
}

/// An image at the end of a way is named.
proof fn image_is_named(value: Yaml, way: Seq<int>, image: Seq<char>)
    requires
        image_stands_at(value, way, image),
    ensures
        names_image(value, image),
    decreases way.len(),
{
    match value {
        Yaml::Mapping(entries) => {
            if way.len() == 0 {
                let k = choose|k: int|
                    0 <= k < entries.len() && #[trigger] entries[k] == (
                        Yaml::Text("image"@),
                        Yaml::Text(image),
                    );
                assert(entries[k].0 == Yaml::Text("image"@) && entries[k].1 == Yaml::Text(image));
            } else {
                image_is_named(entries[way[0]].1, way.skip(1), image);
                assert(names_image(entries[way[0]].1, image));
            }
        },
        Yaml::Sequence(items) => {
            if way.len() > 0 {
                image_is_named(items[way[0]], way.skip(1), image);
                assert(names_image(items[way[0]], image));
            }
        },
        _ => {},
    }
}

/// What cannot be read as YAML is refused with the message of the reader, and what can is the
/// manifest.
pub proof fn documents_are_manifests(document: Result<Yaml, Seq<char>>)
    ensures
        match document {
            Ok(value) => manifest_of(document) == Ok::<Yaml, ErrorView>(value),
            Err(message) => manifest_of(document) == Err::<Yaml, ErrorView>(
                ErrorView::Yaml(message),
            ),
        },
{
}

/// The first of the candidates that is not missing, if there is one, and what it is.
pub open spec fn first_not_missing(statuses: Seq<DirStatusView>, k: int) -> bool {
    &&& statuses.len() == k + 1
    &&& !(statuses[k] is Missing)
    &&& forall|j: int| 0 <= j < k ==> (#[trigger] statuses[j]) is Missing
}

/// The host was asked what stands under a path, and answered so.
pub open spec fn looked_at<R, H>(host: H, path: Seq<char>, status: DirStatusView) -> bool where
    R: RasterOps,
    H: HostOps<R::ConfigDocument>,
 {
    exists|p: &str, r: DirStatus| #[trigger]
        call_ensures(H::dir_status, (&host, p), r) && p@ == path && r@ == status
}

/// A configuration comes from the first candidate that is there, which was loaded. No candidate after
/// it is looked at. Where it is no directory, or cannot be looked at, the error tells so; and where
/// all are missing, the error names them all.
pub proof fn configurations_come_from_the_first_directory<R, H>(
    raster: R,
    host: H,
    candidates: Seq<Seq<char>>,
    statuses: Seq<DirStatusView>,
    config: Result<ConfigView<R::ConfigDocument>, ErrorView>,
) where R: RasterOps, H: HostOps<R::ConfigDocument>
    requires
        loaded_from_candidates(raster, host, candidates, statuses, config),
    ensures
        forall|k: int|
            0 <= k < statuses.len() ==> looked_at::<R, H>(
                host,
                candidates[k],
                #[trigger] statuses[k],
            ),
        ({
            let last = statuses.len() - 1;
            ||| {
                &&& statuses.len() == candidates.len()
                &&& forall|j: int| 0 <= j < statuses.len() ==> (#[trigger] statuses[j]) is Missing
                &&& config == Err::<ConfigView<R::ConfigDocument>, ErrorView>(
                    ErrorView::ConfigLoad(
                        "Cannot find config files in "@ + joined(candidates, " or "@),
                    ),
                )
            }
            ||| {
                &&& 0 <= last < candidates.len()
                &&& first_not_missing(statuses, last)
                &&& match statuses[last] {
                    DirStatusView::Directory => exists|
                        p: &str,
                        r: Result<Config<R::ConfigDocument>, AppError>,
                    | #[trigger]
                        call_ensures(R::load_config_path, (&raster, p), r) && p@
                            == candidates[last] && config == viewed_result(r),
                    DirStatusView::NotADirectory => config == Err::<
                        ConfigView<R::ConfigDocument>,
                        ErrorView,
                    >(
                        ErrorView::ConfigLoad(
                            "Failed to access configuration directory "@ + candidates[last]
                                + ": path exists but is not a directory"@,
                        ),
                    ),
                    DirStatusView::Inaccessible(message) => config == Err::<
                        ConfigView<R::ConfigDocument>,
                        ErrorView,
                    >(
                        ErrorView::ConfigLoad(
                            "Failed to access configuration directory "@ + candidates[last] + ": "@
                                + message,
                        ),
                    ),
                    DirStatusView::Missing => false,
                }
            }
        }),
{
    let last = statuses.len() - 1;
    assert forall|k: int| 0 <= k < statuses.len() implies looked_at::<R, H>(
        host,
        candidates[k],
        #[trigger] statuses[k],
    ) by {
        assert(status_given::<R, H>(host, candidates[k], statuses[k]));
    }
    assert forall|j: int| 0 <= j < last implies (#[trigger] statuses[j]) is Missing by {
        assert(statuses.drop_last()[j] == statuses[j]);
    }
}

/// A configuration is looked for in the directory of the system, and then in that of the user, under
/// the home directory where there is one.
pub proof fn two_directories_are_searched(home: Seq<char>)
    ensures
        config_candidates(None) == seq!["/etc/sarus-suite"@],
        config_candidates(Some(home)).len() == 2,
        config_candidates(Some(home))[0] == "/etc/sarus-suite"@,
        config_candidates(Some(home))[1] == if home.len() == 0 {
            ".config/sarus-suite"@
        } else if home.last() == '/' {
            home + ".config/sarus-suite"@
        } else {
            home + "/.config/sarus-suite"@
        },
{
    reveal_strlit("/");
    reveal_strlit(".config");
    reveal_strlit("sarus-suite");
    reveal_strlit(".config/sarus-suite");
    reveal_strlit("/.config/sarus-suite");
    assert(".config"@ + "/"@ + "sarus-suite"@ =~= ".config/sarus-suite"@);
    assert(home + ".config"@ + "/"@ + "sarus-suite"@ =~= home + ".config/sarus-suite"@);
    assert(home + "/"@ + ".config"@ + "/"@ + "sarus-suite"@ =~= home + "/.config/sarus-suite"@);
    assert(".config"@.last() == 'g');
    assert((home + ".config"@).last() == 'g');
    assert((home + "/"@ + ".config"@).last() == 'g');
}

/// The configuration of the host comes from those two directories, in that order, and one that is
/// looked for in other directories from those; with options, it is what the reader of configurations
/// answers, changed by them.
pub proof fn configurations_are_looked_for<R, H>(
    raster: &R,
    host: &H,
    candidates: &Vec<String>,
    options: &ExecOptions,
    config: Result<Config<R::ConfigDocument>, AppError>,
    other: Result<Config<R::ConfigDocument>, AppError>,
    changed: Result<Config<R::ConfigDocument>, AppError>,
) where R: RasterOps, H: HostOps<R::ConfigDocument>
    requires
        call_ensures(load_config_with_fallback::<R, H>, (raster, host), config),
        call_ensures(load_config_from_candidates::<R, H>, (raster, host, candidates), other),
        call_ensures(load_config_with_options::<R>, (raster, options), changed),
    ensures
        exists|home: Option<String>, statuses: Seq<DirStatusView>|
            {
                &&& #[trigger] call_ensures(H::home_dir, (host,), home)
                &&& #[trigger] loaded_from_candidates(
                    *raster,
                    *host,
                    config_candidates(text_option(home)),
                    statuses,
                    viewed_result(config),
                )
            },
        exists|statuses: Seq<DirStatusView>| #[trigger]
            loaded_from_candidates(
                *raster,
                *host,
                texts(candidates@),
                statuses,
                viewed_result(other),
            ),
        exists|answer: Result<Config<R::ConfigDocument>, AppError>|
            {
                &&& #[trigger] call_ensures(R::load_config, (raster,), answer)
                &&& answer is Err ==> viewed_result(changed) == viewed_result(answer)
                &&& answer matches Ok(loaded) ==> viewed_result(changed) == Ok::<
                    ConfigView<R::ConfigDocument>,
                    ErrorView,
                >(
                    ConfigView {
                        parallax_imagestore: match options.parallax_imagestore {
                            Some(path) => path@,
                            None => loaded@.parallax_imagestore,
                        },
                        ..loaded@
                    },
                )
            },
{
}

/// An imagestore that the options name takes the place of the configured one, and nothing else is
/// changed. A configuration that cannot be loaded stays an error.
pub proof fn options_change_the_imagestore_alone<K>(
    loaded: ConfigView<K>,
    err: ErrorView,
    options: OptionsView,
)
    ensures
        with_options(Err::<ConfigView<K>, ErrorView>(err), options) == Err::<
            ConfigView<K>,
            ErrorView,
        >(err),
        with_options(Ok::<ConfigView<K>, ErrorView>(loaded), options) == Ok::<
            ConfigView<K>,
            ErrorView,
        >(overridden(loaded, options)),
        options.parallax_imagestore is None ==> overridden(loaded, options) == loaded,
        options.parallax_imagestore matches Some(path) ==> overridden(loaded, options)
            == (ConfigView { parallax_imagestore: path, ..loaded }),
{
}

} // verus!
