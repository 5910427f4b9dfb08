use vstd::prelude::*;

use crate::registry::{
    lies_within, menu_items_model, removed_keys_model, removed_with, self_menu_model, shell_key, tool_items_model,
    RegistryOpModel,
};
use crate::toolbox_state::Tool;

verus! {

/// The keys below `HKEY_CURRENT_USER` that exist, each with its string values.
///
/// Windows compares key names and value names without regard to case. The
/// model therefore names every key and value by its name after `fold`, the map
/// that sends each character to the representative of its case class (the
/// functions below take it as a parameter and hold whatever it is): two names
/// that differ only in case name one key, or one value.
pub type RegistryTree = Map<Seq<char>, Map<Seq<char>, Seq<char>>>;

/// `s` with each character replaced by the representative of its case class.
pub open spec fn folded(s: Seq<char>, fold: spec_fn(char) -> char) -> Seq<char> {
    s.map_values(|c: char| fold(c))
}

/// `p` names, up to case, the key `path` or one of the keys above it (the
/// part of `path` before one of its backslashes).
pub open spec fn on_path(p: Seq<char>, path: Seq<char>, fold: spec_fn(char) -> char) -> bool {
    ||| p == folded(path, fold)
    ||| exists|i: int| 0 <= i < path.len() && path[i] == '\\' && p == #[trigger] folded(path.take(i), fold)
}

/// The values of the key named `key` (after folding); none when the key does
/// not exist.
pub open spec fn values_of(reg: RegistryTree, key: Seq<char>) -> Map<Seq<char>, Seq<char>> {
    if reg.dom().contains(key) {
        reg[key]
    } else {
        Map::empty()
    }
}

/// The registry once the key `path` and every key above it exist: those that
/// were missing are made, with no values; the others keep theirs.
pub open spec fn with_keys(reg: RegistryTree, path: Seq<char>, fold: spec_fn(char) -> char) -> RegistryTree {
    Map::new(|p: Seq<char>| reg.dom().contains(p) || on_path(p, path, fold), |p: Seq<char>| values_of(reg, p))
}

/// What a successful operation does. `CreateKey` makes the key and each
/// missing key above it, and leaves existing keys as they are. `SetValue` is
/// carried out through a handle to its key, so that key and the keys above it
/// exist; it stores `data` as the value `name`, replacing a value whose name
/// differs only in case.
pub open spec fn apply_op(reg: RegistryTree, op: RegistryOpModel, fold: spec_fn(char) -> char) -> RegistryTree {
    match op {
        RegistryOpModel::CreateKey { path, .. } => with_keys(reg, path, fold),
        RegistryOpModel::SetValue { path, name, data, .. } => {
            let r = with_keys(reg, path, fold);
            let key = folded(path, fold);
            r.insert(key, values_of(r, key).insert(folded(name, fold), data))
        },
    }
}

/// What a list of operations does when every one of them succeeds.
pub open spec fn apply_ops(reg: RegistryTree, ops: Seq<RegistryOpModel>, fold: spec_fn(char) -> char) -> RegistryTree
    decreases ops.len(),
{
    if ops.len() == 0 {
        reg
    } else {
        apply_op(apply_ops(reg, ops.drop_last(), fold), ops.last(), fold)
    }
}

/// Deleting `keys`, each with everything below it, deletes the key named `p`:
/// up to case, `p` is one of `keys` or lies below one.
pub open spec fn deleted_by(p: Seq<char>, keys: Seq<Seq<char>>, fold: spec_fn(char) -> char) -> bool {
    exists|i: int|
        0 <= i < keys.len() && (p == folded(#[trigger] keys[i], fold) || folded(keys[i] + "\\"@, fold).is_prefix_of(p))
}

/// The registry after deleting each of `keys` with everything below it; a
/// key that is not there is skipped, so this never fails.
pub open spec fn remove_trees(reg: RegistryTree, keys: Seq<Seq<char>>, fold: spec_fn(char) -> char) -> RegistryTree {
    Map::new(|p: Seq<char>| reg.dom().contains(p) && !deleted_by(p, keys, fold), |p: Seq<char>| reg[p])
}

/// Some operation in `ops` makes sure that the key named `p` exists.
pub open spec fn touches(ops: Seq<RegistryOpModel>, p: Seq<char>, fold: spec_fn(char) -> char) -> bool
    decreases ops.len(),
{
    ops.len() > 0 && (on_path(p, ops.last().path(), fold) || touches(ops.drop_last(), p, fold))
}

/// The data that the last operation in `ops` storing the value named `n` of
/// the key named `p` stores, if any does.
pub open spec fn last_value(ops: Seq<RegistryOpModel>, p: Seq<char>, n: Seq<char>, fold: spec_fn(char) -> char) -> Option<Seq<char>>
    decreases ops.len(),
{
    if ops.len() == 0 {
        None
    } else {
        match ops.last() {
            RegistryOpModel::SetValue { path, name, data, .. } => if folded(path, fold) == p && folded(name, fold) == n {
                Some(data)
            } else {
                last_value(ops.drop_last(), p, n, fold)
            },
            _ => last_value(ops.drop_last(), p, n, fold),
        }
    }
}

proof fn lemma_apply_ops_effect(reg: RegistryTree, ops: Seq<RegistryOpModel>, fold: spec_fn(char) -> char)
    ensures
        forall|p: Seq<char>|
            #[trigger] apply_ops(reg, ops, fold).dom().contains(p) == (reg.dom().contains(p) || touches(ops, p, fold)),
        forall|p: Seq<char>, n: Seq<char>|
            #[trigger] values_of(apply_ops(reg, ops, fold), p).dom().contains(n) == (values_of(reg, p).dom().contains(n)
                || last_value(ops, p, n, fold) is Some),
        forall|p: Seq<char>, n: Seq<char>|
            #[trigger] values_of(apply_ops(reg, ops, fold), p).dom().contains(n) ==> values_of(apply_ops(reg, ops, fold), p)[n]
                == (match last_value(ops, p, n, fold) {
                Some(d) => d,
                None => values_of(reg, p)[n],
            }),
    decreases ops.len(),
{
    if ops.len() > 0 {
        let init = ops.drop_last();
        lemma_apply_ops_effect(reg, init, fold);
        let r = apply_ops(reg, init, fold);
        let after = apply_ops(reg, ops, fold);
        let path = ops.last().path();
        let r1 = with_keys(r, path, fold);
        assert forall|p: Seq<char>| #[trigger] values_of(r1, p) == values_of(r, p) by {
            if r1.dom().contains(p) {
                assert(r1[p] == values_of(r, p));
            } else {
                assert(!r.dom().contains(p));
            }
        }
        assert(on_path(folded(path, fold), path, fold));
        match ops.last() {
            RegistryOpModel::CreateKey { .. } => {
                assert(after == r1);
            },
            RegistryOpModel::SetValue { name, data, .. } => {
                let key = folded(path, fold);
                assert(after == r1.insert(key, values_of(r1, key).insert(folded(name, fold), data)));
                assert(values_of(after, key) == values_of(r, key).insert(folded(name, fold), data));
                assert forall|p: Seq<char>| p != key implies #[trigger] values_of(after, p) == values_of(r, p) by {
                    assert(values_of(after, p) == values_of(r1, p));
                }
            },
        }
    }
}

/// Carrying out a list of operations a second time, with every operation
/// succeeding, leaves the registry as the first time left it.
pub proof fn lemma_apply_ops_idempotent(reg: RegistryTree, ops: Seq<RegistryOpModel>, fold: spec_fn(char) -> char)
    ensures
        apply_ops(apply_ops(reg, ops, fold), ops, fold) == apply_ops(reg, ops, fold),
{
    let once = apply_ops(reg, ops, fold);
    let twice = apply_ops(once, ops, fold);
    lemma_apply_ops_effect(reg, ops, fold);
    lemma_apply_ops_effect(once, ops, fold);
    assert forall|p: Seq<char>| #[trigger] twice.dom().contains(p) implies twice[p] =~= once[p] by {
        assert forall|n: Seq<char>| #[trigger] values_of(twice, p).dom().contains(n) == values_of(
            once,
            p,
        ).dom().contains(n) by {
            assert(values_of(once, p).dom().contains(n) == (values_of(reg, p).dom().contains(n)
                || last_value(ops, p, n, fold) is Some));
        }
        assert forall|n: Seq<char>| #[trigger] values_of(twice, p).dom().contains(n) implies values_of(twice, p)[n]
            == values_of(once, p)[n] by {
            if last_value(ops, p, n, fold) is None {
                assert(values_of(once, p).dom().contains(n));
            }
        }
        assert(values_of(twice, p) =~= values_of(once, p));
        assert(once.dom().contains(p));
    }
    assert(twice =~= once);
}

/// Carrying out two lists one after the other is carrying out their concatenation.
pub proof fn lemma_apply_ops_concat(
    reg: RegistryTree,
    first: Seq<RegistryOpModel>,
    second: Seq<RegistryOpModel>,
    fold: spec_fn(char) -> char,
)
    ensures
        apply_ops(reg, first + second, fold) == apply_ops(apply_ops(reg, first, fold), second, fold),
    decreases second.len(),
{
    if second.len() == 0 {
        assert(first + second =~= first);
    } else {
        lemma_apply_ops_concat(reg, first, second.drop_last(), fold);
        assert((first + second).drop_last() =~= first + second.drop_last());
        assert((first + second).last() == second.last());
    }
}

/// Adding the generator's own entries twice, with every write succeeding,
/// leaves the registry as adding them once does.
pub proof fn lemma_add_self_idempotent(reg: RegistryTree, generator_path: Seq<char>, fold: spec_fn(char) -> char)
    ensures
        apply_ops(apply_ops(reg, self_menu_model(generator_path), fold), self_menu_model(generator_path), fold)
            == apply_ops(reg, self_menu_model(generator_path), fold),
{
    lemma_apply_ops_idempotent(reg, self_menu_model(generator_path), fold);
}

proof fn lemma_tool_items_concat(shell: Seq<char>, a: Seq<Tool>, b: Seq<Tool>)
    ensures
        tool_items_model(shell, a + b) == tool_items_model(shell, a) + tool_items_model(shell, b),
    decreases b.len(),
{
    if b.len() == 0 {
        assert(a + b =~= a);
        assert(tool_items_model(shell, a) + tool_items_model(shell, b) =~= tool_items_model(shell, a));
    } else {
        lemma_tool_items_concat(shell, a, b.drop_last());
        assert((a + b).drop_last() =~= a + b.drop_last());
        assert((a + b).last() == b.last());
        assert(tool_items_model(shell, a + b) =~= tool_items_model(shell, a) + tool_items_model(shell, b));
    }
}

/// Filling a menu with the tools `a` followed by `b` leaves the registry as
/// filling it with `a` and then, in a second call, with `b` does, when every
/// write succeeds.
pub proof fn lemma_menu_items_concat(
    reg: RegistryTree,
    key: Seq<char>,
    a: Seq<Tool>,
    b: Seq<Tool>,
    fold: spec_fn(char) -> char,
)
    ensures
        apply_ops(reg, menu_items_model(key, a + b), fold) == apply_ops(
            apply_ops(reg, menu_items_model(key, a), fold),
            menu_items_model(key, b),
            fold,
        ),
{
    let shell = shell_key(key);
    let create = seq![RegistryOpModel::CreateKey { path: shell, parent: Some(key) }];
    lemma_tool_items_concat(shell, a, b);
    assert(menu_items_model(key, a + b) =~= menu_items_model(key, a) + tool_items_model(shell, b));
    lemma_apply_ops_concat(reg, menu_items_model(key, a), tool_items_model(shell, b), fold);
    let first = menu_items_model(key, a);
    let after_a = apply_ops(reg, first, fold);
    lemma_apply_ops_effect(reg, first, fold);
    assert(first[0] == create[0]);
    assert forall|p: Seq<char>| on_path(p, shell, fold) implies #[trigger] after_a.dom().contains(p) by {
        assert(touches(first.take(1), p, fold)) by {
            assert(first.take(1).last() == create[0]);
        }
        lemma_touches_prefix(first, 1, p, fold);
    }
    assert(create.drop_last() =~= Seq::<RegistryOpModel>::empty());
    assert(apply_ops(after_a, create.drop_last(), fold) == after_a);
    assert(apply_ops(after_a, create, fold) == with_keys(after_a, shell, fold));
    assert forall|p: Seq<char>| #[trigger] with_keys(after_a, shell, fold).dom().contains(p) implies with_keys(
        after_a,
        shell,
        fold,
    )[p] == after_a[p] by {}
    assert(with_keys(after_a, shell, fold) =~= after_a);
    lemma_apply_ops_concat(after_a, create, tool_items_model(shell, b), fold);
}

proof fn lemma_touches_prefix(ops: Seq<RegistryOpModel>, k: int, p: Seq<char>, fold: spec_fn(char) -> char)
    requires
        0 <= k <= ops.len(),
        touches(ops.take(k), p, fold),
    ensures
        touches(ops, p, fold),
    decreases ops.len() - k,
{
    if k < ops.len() {
        assert(ops.take(k + 1).drop_last() =~= ops.take(k));
        lemma_touches_prefix(ops, k + 1, p, fold);
    } else {
        assert(ops.take(k) =~= ops);
    }
}

/// Removing the menus twice leaves the registry as removing them once does.
pub proof fn lemma_removal_idempotent(reg: RegistryTree, fold: spec_fn(char) -> char)
    ensures
        remove_trees(remove_trees(reg, removed_keys_model(), fold), removed_keys_model(), fold) == remove_trees(
            reg,
            removed_keys_model(),
            fold,
        ),
{
    let keys = removed_keys_model();
    assert(remove_trees(remove_trees(reg, keys, fold), keys, fold) =~= remove_trees(reg, keys, fold));
}

/// Deleting keys and then writing again restores what the first writing
/// left: starting from a registry in which the deleted keys are absent,
/// carrying out `ops`, deleting `keys`, and carrying out `ops` once more ends
/// where carrying out `ops` once does. (The keys above a deleted key that the
/// first writing made stay, and the second writing finds them.)
pub proof fn lemma_rewrite_after_removal(
    base: RegistryTree,
    ops: Seq<RegistryOpModel>,
    keys: Seq<Seq<char>>,
    fold: spec_fn(char) -> char,
)
    requires
        remove_trees(base, keys, fold) == base,
    ensures
        apply_ops(remove_trees(apply_ops(base, ops, fold), keys, fold), ops, fold) == apply_ops(base, ops, fold),
{
    let once = apply_ops(base, ops, fold);
    let cleared = remove_trees(once, keys, fold);
    let again = apply_ops(cleared, ops, fold);
    lemma_apply_ops_effect(base, ops, fold);
    lemma_apply_ops_effect(cleared, ops, fold);
    assert forall|p: Seq<char>| base.dom().contains(p) implies !deleted_by(p, keys, fold) by {
        assert(remove_trees(base, keys, fold).dom().contains(p));
    }
    assert forall|p: Seq<char>| #[trigger] cleared.dom().contains(p) == (once.dom().contains(p) && !deleted_by(p, keys, fold)) by {}
    assert forall|p: Seq<char>| #[trigger] values_of(cleared, p) == (if deleted_by(p, keys, fold) {
        Map::empty()
    } else {
        values_of(once, p)
    }) by {
        if cleared.dom().contains(p) {
            assert(cleared[p] == once[p]);
        }
    }
    assert forall|p: Seq<char>| #[trigger] again.dom().contains(p) == once.dom().contains(p) by {}
    assert forall|p: Seq<char>| #[trigger] again.dom().contains(p) implies again[p] =~= once[p] by {
        assert forall|n: Seq<char>| #[trigger] values_of(again, p).dom().contains(n) == values_of(
            once,
            p,
        ).dom().contains(n) by {
            if deleted_by(p, keys, fold) {
                assert(!base.dom().contains(p));
                assert(values_of(base, p) == Map::<Seq<char>, Seq<char>>::empty());
            }
        }
        assert forall|n: Seq<char>| #[trigger] values_of(again, p).dom().contains(n) implies values_of(again, p)[n]
            == values_of(once, p)[n] by {
            if deleted_by(p, keys, fold) {
                assert(!base.dom().contains(p));
                assert(values_of(base, p) == Map::<Seq<char>, Seq<char>>::empty());
            }
        }
        assert(values_of(again, p) =~= values_of(once, p));
    }
    assert(again =~= once);
}

proof fn lemma_touches_witness(ops: Seq<RegistryOpModel>, p: Seq<char>, fold: spec_fn(char) -> char)
    requires
        touches(ops, p, fold),
    ensures
        exists|i: int| 0 <= i < ops.len() && on_path(p, (#[trigger] ops[i]).path(), fold),
    decreases ops.len(),
{
    if on_path(p, ops.last().path(), fold) {
        assert(on_path(p, ops[ops.len() - 1].path(), fold));
    } else {
        lemma_touches_witness(ops.drop_last(), p, fold);
        let i = choose|i: int| 0 <= i < ops.drop_last().len() && on_path(p, (#[trigger] ops.drop_last()[i]).path(), fold);
        assert(ops[i] == ops.drop_last()[i]);
    }
}

proof fn lemma_last_value_witness(ops: Seq<RegistryOpModel>, p: Seq<char>, n: Seq<char>, fold: spec_fn(char) -> char)
    requires
        last_value(ops, p, n, fold) is Some,
    ensures
        exists|i: int| 0 <= i < ops.len() && folded((#[trigger] ops[i]).path(), fold) == p,
    decreases ops.len(),
{
    let last = ops[ops.len() - 1];
    if last is SetValue && folded(last.path(), fold) == p && folded(last->name, fold) == n {
    } else {
        lemma_last_value_witness(ops.drop_last(), p, n, fold);
        let i = choose|i: int| 0 <= i < ops.drop_last().len() && folded((#[trigger] ops.drop_last()[i]).path(), fold) == p;
        assert(ops[i] == ops.drop_last()[i]);
    }
}

proof fn lemma_folded_within(path: Seq<char>, key: Seq<char>, fold: spec_fn(char) -> char)
    requires
        lies_within(path, key),
    ensures
        folded(path, fold) == folded(key, fold) || folded(key + "\\"@, fold).is_prefix_of(folded(path, fold)),
{
    if path != key {
        let k = key + "\\"@;
        assert forall|i: int| 0 <= i < k.len() implies path[i] == k[i] by {
            assert(path.subrange(0, k.len() as int)[i] == path[i]);
        }
        assert(folded(path, fold).subrange(0, k.len() as int) =~= folded(k, fold));
    }
}

/// Deleting keys undoes what was carried out below them: when every operation
/// of `ops` acts on one of `keys` or on a key below it, and the keys above them
/// that the deletion leaves in place already exist, deleting `keys` after
/// carrying out `ops` leaves the registry as deleting them before does.
pub proof fn lemma_removal_undoes_writes(
    reg: RegistryTree,
    ops: Seq<RegistryOpModel>,
    keys: Seq<Seq<char>>,
    fold: spec_fn(char) -> char,
)
    requires
        forall|i: int| 0 <= i < ops.len() ==> removed_with((#[trigger] ops[i]).path(), keys),
        forall|i: int, p: Seq<char>|
            #![trigger on_path(p, ops[i].path(), fold)]
            0 <= i < ops.len() && on_path(p, ops[i].path(), fold) && !deleted_by(p, keys, fold) ==> reg.dom().contains(p),
    ensures
        remove_trees(apply_ops(reg, ops, fold), keys, fold) == remove_trees(reg, keys, fold),
{
    let after = apply_ops(reg, ops, fold);
    lemma_apply_ops_effect(reg, ops, fold);
    assert forall|p: Seq<char>| touches(ops, p, fold) && !deleted_by(p, keys, fold) implies reg.dom().contains(p) by {
        lemma_touches_witness(ops, p, fold);
        let i = choose|i: int| 0 <= i < ops.len() && on_path(p, (#[trigger] ops[i]).path(), fold);
        assert(on_path(p, ops[i].path(), fold));
    }
    assert forall|p: Seq<char>| !deleted_by(p, keys, fold) implies #[trigger] values_of(after, p) =~= values_of(reg, p) by {
        assert forall|n: Seq<char>| #[trigger] last_value(ops, p, n, fold) is None by {
            if last_value(ops, p, n, fold) is Some {
                lemma_last_value_witness(ops, p, n, fold);
                let i = choose|i: int| 0 <= i < ops.len() && folded((#[trigger] ops[i]).path(), fold) == p;
                let path = ops[i].path();
                assert(removed_with(path, keys));
                let k = choose|k: int| 0 <= k < keys.len() && lies_within(path, #[trigger] keys[k]);
                lemma_folded_within(path, keys[k], fold);
                assert(deleted_by(p, keys, fold));
            }
        }
    }
    assert forall|p: Seq<char>| #[trigger] remove_trees(after, keys, fold).dom().contains(p) implies remove_trees(
        after,
        keys,
        fold,
    )[p] == remove_trees(reg, keys, fold)[p] by {
        assert(values_of(after, p) == values_of(reg, p));
    }
    assert(remove_trees(after, keys, fold) =~= remove_trees(reg, keys, fold));
}

/// A key that lies above `path` or is `path` itself, and that deleting `key`
/// leaves in place, lies above `key` or is `key`, when `path` lies within `key`.
pub(crate) proof fn lemma_on_path_within(p: Seq<char>, path: Seq<char>, key: Seq<char>, fold: spec_fn(char) -> char)
    requires
        lies_within(path, key),
        on_path(p, path, fold),
        !deleted_by(p, seq![key], fold),
    ensures
        on_path(p, key, fold),
{
    reveal_strlit("\\");
    let keys = seq![key];
    assert(keys[0] == key);
    let k = key + "\\"@;
    if path != key {
        assert forall|j: int| 0 <= j < k.len() implies path[j] == k[j] by {
            assert(path.subrange(0, k.len() as int)[j] == path[j]);
        }
        if p == folded(path, fold) {
            lemma_folded_within(path, key, fold);
        } else {
            let i = choose|i: int| 0 <= i < path.len() && path[i] == '\\' && p == #[trigger] folded(path.take(i), fold);
            if i < key.len() {
                assert(path.take(i) =~= key.take(i));
                assert(key[i] == k[i]);
                assert(key[i] == '\\');
            } else if i == key.len() {
                assert(path.take(i) =~= key);
            } else {
                let q = folded(path.take(i), fold);
                assert forall|j: int| 0 <= j < k.len() implies #[trigger] q.subrange(0, k.len() as int)[j]
                    == folded(k, fold)[j] by {
                    assert(path.take(i)[j] == path[j]);
                }
                assert(q.subrange(0, k.len() as int) =~= folded(k, fold));
                assert(folded(k, fold).is_prefix_of(p));
            }
        }
    }
}

} // verus!
