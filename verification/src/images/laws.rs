//! What holds of every description that the builder methods of `GenericImage`
//! can produce, stated over its view.

use crate::entries::{
    keys_distinct, last_writes, lemma_entries_are_map_pairs, lemma_put_all_last_write_wins,
    lemma_put_as_map, lemma_put_keys_distinct, put_all,
};
use crate::images::generic::{last_arguments, last_entrypoint, GenericImageView, Step};
use crate::wait_for::WaitForView;
use vstd::prelude::*;

verus! {

/// A new description has the identifier it was made with, and nothing else:
/// no arguments, mounts, environment or readiness conditions, and no
/// entrypoint of its own.
pub proof fn law_new(descriptor: Seq<char>)
    ensures
        GenericImageView::new(descriptor).descriptor == descriptor,
        GenericImageView::new(descriptor).arguments.len() == 0,
        GenericImageView::new(descriptor).volumes.len() == 0,
        GenericImageView::new(descriptor).env_vars.len() == 0,
        GenericImageView::new(descriptor).wait_for.len() == 0,
        GenericImageView::new(descriptor).entrypoint is None,
        GenericImageView::new(descriptor).well_formed(),
        GenericImageView::new(descriptor).volume_map() == Map::<Seq<char>, Seq<char>>::empty(),
        GenericImageView::new(descriptor).env_map() == Map::<Seq<char>, Seq<char>>::empty(),
{
    assert(GenericImageView::new(descriptor).volume_map() =~= Map::empty());
    assert(GenericImageView::new(descriptor).env_map() =~= Map::empty());
}

/// Whatever calls are made on a description, it keeps its identifier, and
/// neither its mounts nor its environment come to name a key twice.
pub proof fn law_calls_keep_descriptor_and_distinct_keys(image: GenericImageView, steps: Seq<Step>)
    requires
        image.well_formed(),
    ensures
        image.after_all(steps).descriptor == image.descriptor,
        image.after_all(steps).well_formed(),
    decreases steps.len(),
{
    if steps.len() > 0 {
        let before = image.after_all(steps.drop_last());
        law_calls_keep_descriptor_and_distinct_keys(image, steps.drop_last());
        match steps.last() {
            Step::Volume { from, dest } => {
                lemma_put_keys_distinct(before.volumes, from, dest);
            },
            Step::EnvVar { key, value } => {
                lemma_put_keys_distinct(before.env_vars, key, value);
            },
            _ => {},
        }
    }
}

/// Whatever calls are made on a new description, it has the identifier it was
/// made with.
pub proof fn law_descriptor_from_new(descriptor: Seq<char>, steps: Seq<Step>)
    ensures
        GenericImageView::new(descriptor).after_all(steps).descriptor == descriptor,
        GenericImageView::new(descriptor).after_all(steps).well_formed(),
{
    law_calls_keep_descriptor_and_distinct_keys(GenericImageView::new(descriptor), steps);
}

/// Setting a variable is an insertion into the environment: the variable has
/// the new value, every other variable has what it had, no name occurs twice,
/// and nothing but the environment changes.
pub proof fn law_with_env_var(image: GenericImageView, key: Seq<char>, value: Seq<char>)
    requires
        image.well_formed(),
    ensures
        image.with_env_var(key, value).well_formed(),
        image.with_env_var(key, value).env_map() == image.env_map().insert(key, value),
        image.with_env_var(key, value) == (GenericImageView {
            env_vars: image.with_env_var(key, value).env_vars,
            ..image
        }),
{
    lemma_put_keys_distinct(image.env_vars, key, value);
    lemma_put_as_map(image.env_vars, key, value);
}

/// Mounting a host path is an insertion into the mounts: the host path has
/// the new container path, every other host path has what it had, no host
/// path occurs twice, and nothing but the mounts changes.
pub proof fn law_with_volume(image: GenericImageView, from: Seq<char>, dest: Seq<char>)
    requires
        image.well_formed(),
    ensures
        image.with_volume(from, dest).well_formed(),
        image.with_volume(from, dest).volume_map() == image.volume_map().insert(from, dest),
        image.with_volume(from, dest) == (GenericImageView {
            volumes: image.with_volume(from, dest).volumes,
            ..image
        }),
{
    lemma_put_keys_distinct(image.volumes, from, dest);
    lemma_put_as_map(image.volumes, from, dest);
}

/// Whatever series of variables is set, the last value given for each name
/// wins: the environment then lists each name once, and its pairs are those
/// of the environment from before, overridden by the last value that the
/// series gives to each name.
pub proof fn law_env_vars_last_write_wins(
    image: GenericImageView,
    vars: Seq<(Seq<char>, Seq<char>)>,
)
    requires
        image.well_formed(),
    ensures
        image.with_env_vars(vars).well_formed(),
        image.with_env_vars(vars).env_map() == image.env_map().union_prefer_right(
            last_writes(vars),
        ),
        image.with_env_vars(vars).env_vars.to_set() == image.env_map().union_prefer_right(
            last_writes(vars),
        ).kv_pairs(),
        image.with_env_vars(vars) == (GenericImageView {
            env_vars: image.with_env_vars(vars).env_vars,
            ..image
        }),
{
    lemma_with_env_vars(image, vars);
    lemma_put_all_last_write_wins(image.env_vars, vars);
    lemma_entries_are_map_pairs(image.with_env_vars(vars).env_vars);
}

/// On a new description, the environment after a series of variables is
/// exactly what the series amounts to: each name that was given, once, with
/// the last value given for it.
pub proof fn law_env_vars_from_new(descriptor: Seq<char>, vars: Seq<(Seq<char>, Seq<char>)>)
    ensures
        keys_distinct(GenericImageView::new(descriptor).with_env_vars(vars).env_vars),
        GenericImageView::new(descriptor).with_env_vars(vars).env_map() == last_writes(vars),
        GenericImageView::new(descriptor).with_env_vars(vars).env_vars.to_set() == last_writes(
            vars,
        ).kv_pairs(),
{
    let image = GenericImageView::new(descriptor);
    law_env_vars_last_write_wins(image, vars);
    assert(image.env_map().union_prefer_right(last_writes(vars)) =~= last_writes(vars));
}

/// Whatever series of host paths is mounted, the last container path given
/// for each host path wins: the mounts then list each host path once, and
/// their pairs are those of the mounts from before, overridden by the last
/// container path that the series gives to each host path.
pub proof fn law_volumes_last_write_wins(
    image: GenericImageView,
    mounts: Seq<(Seq<char>, Seq<char>)>,
)
    requires
        image.well_formed(),
    ensures
        image.with_volumes(mounts).well_formed(),
        image.with_volumes(mounts).volume_map() == image.volume_map().union_prefer_right(
            last_writes(mounts),
        ),
        image.with_volumes(mounts).volumes.to_set() == image.volume_map().union_prefer_right(
            last_writes(mounts),
        ).kv_pairs(),
        image.with_volumes(mounts) == (GenericImageView {
            volumes: image.with_volumes(mounts).volumes,
            ..image
        }),
{
    lemma_with_volumes(image, mounts);
    lemma_put_all_last_write_wins(image.volumes, mounts);
    lemma_entries_are_map_pairs(image.with_volumes(mounts).volumes);
}

/// On a new description, the mounts after a series of mounts are exactly what
/// the series amounts to: each host path that was given, once, with the last
/// container path given for it.
pub proof fn law_volumes_from_new(descriptor: Seq<char>, mounts: Seq<(Seq<char>, Seq<char>)>)
    ensures
        keys_distinct(GenericImageView::new(descriptor).with_volumes(mounts).volumes),
        GenericImageView::new(descriptor).with_volumes(mounts).volume_map() == last_writes(mounts),
        GenericImageView::new(descriptor).with_volumes(mounts).volumes.to_set() == last_writes(
            mounts,
        ).kv_pairs(),
{
    let image = GenericImageView::new(descriptor);
    law_volumes_last_write_wins(image, mounts);
    assert(image.volume_map().union_prefer_right(last_writes(mounts)) =~= last_writes(mounts));
}

/// Readiness conditions keep their order and are never merged: after a series
/// of them has been added, the description has the conditions from before,
/// followed by the series as it was given. Nothing else changes.
pub proof fn law_wait_for_keeps_order(image: GenericImageView, conditions: Seq<WaitForView>)
    ensures
        image.with_wait_fors(conditions).wait_for == image.wait_for + conditions,
        image.with_wait_fors(conditions) == (GenericImageView {
            wait_for: image.wait_for + conditions,
            ..image
        }),
    decreases conditions.len(),
{
    if conditions.len() == 0 {
        assert(image.wait_for + conditions =~= image.wait_for);
    } else {
        let earlier = conditions.drop_last();
        law_wait_for_keeps_order(image, earlier);
        assert((image.wait_for + earlier).push(conditions.last()) =~= image.wait_for
            + conditions);
    }
}

/// On a new description, the readiness conditions after a series of them has
/// been added are that series.
pub proof fn law_wait_for_from_new(descriptor: Seq<char>, conditions: Seq<WaitForView>)
    ensures
        GenericImageView::new(descriptor).with_wait_fors(conditions).wait_for == conditions,
{
    let image = GenericImageView::new(descriptor);
    law_wait_for_keeps_order(image, conditions);
    assert(image.wait_for + conditions =~= conditions);
}

/// Giving arguments replaces the arguments given before; it does not add to
/// them.
pub proof fn law_with_args_replaces(
    image: GenericImageView,
    first: Seq<Seq<char>>,
    second: Seq<Seq<char>>,
)
    ensures
        image.with_args(first).with_args(second).arguments == second,
        image.with_args(first).with_args(second) == image.with_args(second),
{
}

/// Giving arguments changes the arguments and nothing else.
pub proof fn law_with_args_keeps_the_rest(image: GenericImageView, arguments: Seq<Seq<char>>)
    ensures
        image.with_args(arguments).arguments == arguments,
        image.with_args(arguments).descriptor == image.descriptor,
        image.with_args(arguments).volumes == image.volumes,
        image.with_args(arguments).env_vars == image.env_vars,
        image.with_args(arguments).wait_for == image.wait_for,
        image.with_args(arguments).entrypoint == image.entrypoint,
{
}

/// A description has the entrypoint that was given last: after any calls it
/// is the one that the last `with_entrypoint` among them was given, and the
/// one from before where there was no such call.
pub proof fn law_entrypoint_is_last_given(image: GenericImageView, steps: Seq<Step>)
    ensures
        image.after_all(steps).entrypoint == match last_entrypoint(steps) {
            Some(entrypoint) => Some(entrypoint),
            None => image.entrypoint,
        },
    decreases steps.len(),
{
    if steps.len() > 0 {
        law_entrypoint_is_last_given(image, steps.drop_last());
    }
}

/// A new description has no entrypoint of its own, and after any calls it has
/// the one that the last `with_entrypoint` among them was given, if there was
/// such a call.
pub proof fn law_entrypoint_from_new(descriptor: Seq<char>, steps: Seq<Step>)
    ensures
        GenericImageView::new(descriptor).entrypoint is None,
        GenericImageView::new(descriptor).after_all(steps).entrypoint == last_entrypoint(steps),
{
    law_entrypoint_is_last_given(GenericImageView::new(descriptor), steps);
}

/// A description has the arguments that were given last: after any calls they
/// are those that the last `with_args` among them was given, and those from
/// before where there was no such call.
pub proof fn law_arguments_are_last_given(image: GenericImageView, steps: Seq<Step>)
    ensures
        image.after_all(steps).arguments == match last_arguments(steps) {
            Some(arguments) => arguments,
            None => image.arguments,
        },
    decreases steps.len(),
{
    if steps.len() > 0 {
        law_arguments_are_last_given(image, steps.drop_last());
    }
}

/// A series of variables changes the environment as a series of writes
/// changes a keyed list, and changes nothing else.
proof fn lemma_with_env_vars(image: GenericImageView, vars: Seq<(Seq<char>, Seq<char>)>)
    ensures
        image.with_env_vars(vars) == (GenericImageView {
            env_vars: put_all(image.env_vars, vars),
            ..image
        }),
    decreases vars.len(),
{
    if vars.len() > 0 {
        lemma_with_env_vars(image, vars.drop_last());
    }
}

/// A series of mounts changes the mounts as a series of writes changes a
/// keyed list, and changes nothing else.
proof fn lemma_with_volumes(image: GenericImageView, mounts: Seq<(Seq<char>, Seq<char>)>)
    ensures
        image.with_volumes(mounts) == (GenericImageView {
            volumes: put_all(image.volumes, mounts),
            ..image
        }),
    decreases mounts.len(),
{
    if mounts.len() > 0 {
        lemma_with_volumes(image, mounts.drop_last());
    }
}

} // verus!
