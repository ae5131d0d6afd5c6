use vstd::prelude::*;
use crate::identity::IdentityModel;
use crate::registry::{active_model, at_most_one_active, deactivated};
use crate::switcher::{
    Environment, apply_plan, consistent, create_plan, created, none_active, remove_all_plan,
    remove_plan, reported, switch_plan, switched,
};

verus! {

/// One orchestrator operation, as a model.
pub enum Operation {
    Create(Seq<char>, Seq<char>, (Seq<u8>, Seq<u8>)),
    SwitchTo(Seq<char>),
    Remove(Seq<char>),
}

/// The registry after one operation; a switch to or removal of an unknown
/// email fails and changes nothing.
pub open spec fn step(m: Map<Seq<char>, IdentityModel>, op: Operation) -> Map<Seq<char>, IdentityModel> {
    match op {
        Operation::Create(n, e, k) => created(m, n, e, k),
        Operation::SwitchTo(e) => if m.contains_key(e) { switched(m, e) } else { m },
        Operation::Remove(e) => if m.contains_key(e) { m.remove(e) } else { m },
    }
}

/// The external state after one operation's plan has been performed.
pub open spec fn step_env(m: Map<Seq<char>, IdentityModel>, env: Environment, op: Operation) -> Environment {
    match op {
        Operation::Create(n, e, k) => apply_plan(env, create_plan(n, e, k)),
        Operation::SwitchTo(e) => if m.contains_key(e) { apply_plan(env, switch_plan(m, e)) } else { env },
        Operation::Remove(e) => if m.contains_key(e) {
            apply_plan(env, remove_plan(m[e].active, e))
        } else {
            env
        },
    }
}

/// The registry after a sequence of operations.
pub open spec fn run(m: Map<Seq<char>, IdentityModel>, ops: Seq<Operation>) -> Map<Seq<char>, IdentityModel>
    decreases ops.len(),
{
    if ops.len() == 0 {
        m
    } else {
        run(step(m, ops[0]), ops.drop_first())
    }
}

/// The external state after a sequence of operations.
pub open spec fn run_env(m: Map<Seq<char>, IdentityModel>, env: Environment, ops: Seq<Operation>) -> Environment
    decreases ops.len(),
{
    if ops.len() == 0 {
        env
    } else {
        run_env(step(m, ops[0]), step_env(m, env, ops[0]), ops.drop_first())
    }
}

proof fn lemma_created_single(m: Map<Seq<char>, IdentityModel>, n: Seq<char>, e: Seq<char>, k: (Seq<u8>, Seq<u8>))
    ensures
        created(m, n, e, k).contains_key(e),
        created(m, n, e, k)[e] == active_model(n, k),
        forall|j: Seq<char>|
            #[trigger] created(m, n, e, k).contains_key(j) && created(m, n, e, k)[j].active ==> j == e,
{
    let c = created(m, n, e, k);
    assert forall|j: Seq<char>| #[trigger] c.contains_key(j) && c[j].active implies j == e by {
        if j != e {
            assert(c[j] == deactivated(m)[j]);
        }
    }
}

proof fn lemma_switched_single(m: Map<Seq<char>, IdentityModel>, e: Seq<char>)
    requires
        m.contains_key(e),
    ensures
        switched(m, e).contains_key(e),
        switched(m, e)[e].active,
        forall|j: Seq<char>|
            #[trigger] switched(m, e).contains_key(j) && switched(m, e)[j].active ==> j == e,
{
    let c = switched(m, e);
    assert forall|j: Seq<char>| #[trigger] c.contains_key(j) && c[j].active implies j == e by {
        if j != e {
            assert(c[j] == deactivated(m)[j]);
        }
    }
}

/// Creating an identity makes it the only active one, and once its plan is
/// performed the installed keys and the global configuration mirror it,
/// whatever state came before.
pub proof fn law_create_consistent(m: Map<Seq<char>, IdentityModel>, env: Environment, name: Seq<char>, email: Seq<char>, keys: (Seq<u8>, Seq<u8>))
    ensures
        consistent(created(m, name, email, keys), apply_plan(env, create_plan(name, email, keys))),
{
    lemma_created_single(m, name, email, keys);
    reveal_with_fuel(apply_plan, 3);
}

/// A live read right after creating an identity with a non-empty name and
/// email reports that name and email, active.
pub proof fn law_create_then_current(m: Map<Seq<char>, IdentityModel>, env: Environment, name: Seq<char>, email: Seq<char>, keys: (Seq<u8>, Seq<u8>))
    requires
        name.len() > 0,
        email.len() > 0,
    ensures
        reported(created(m, name, email, keys), apply_plan(env, create_plan(name, email, keys)))
            == Some((name, email, true)),
{
    lemma_created_single(m, name, email, keys);
    reveal_with_fuel(apply_plan, 3);
}

/// The public key stored by creating an identity is exactly the one that
/// key generation produced.
pub proof fn law_create_stores_key(m: Map<Seq<char>, IdentityModel>, name: Seq<char>, email: Seq<char>, keys: (Seq<u8>, Seq<u8>))
    ensures
        created(m, name, email, keys).contains_key(email),
        created(m, name, email, keys)[email].public_key == keys.1,
        created(m, name, email, keys)[email].private_key == keys.0,
{
    lemma_created_single(m, name, email, keys);
}

/// Switching to a registered identity makes it the only active one, and once
/// its plan is performed the installed keys and the global configuration
/// mirror it, whatever state came before.
pub proof fn law_switch_consistent(m: Map<Seq<char>, IdentityModel>, env: Environment, email: Seq<char>)
    requires
        m.contains_key(email),
    ensures
        consistent(switched(m, email), apply_plan(env, switch_plan(m, email))),
{
    lemma_switched_single(m, email);
    reveal_with_fuel(apply_plan, 3);
}

/// Removing the active identity leaves none active and, once its plan is
/// performed, no installed keys and no global configuration, so a live read
/// reports nothing.
pub proof fn law_remove_active(m: Map<Seq<char>, IdentityModel>, env: Environment, email: Seq<char>)
    requires
        consistent(m, env),
        m.contains_key(email),
        m[email].active,
    ensures
        apply_plan(env, remove_plan(true, email)).installed is None,
        apply_plan(env, remove_plan(true, email)).config is None,
        reported(m.remove(email), apply_plan(env, remove_plan(true, email))) is None,
        none_active(m.remove(email)),
        consistent(m.remove(email), apply_plan(env, remove_plan(true, email))),
{
    reveal_with_fuel(apply_plan, 4);
    let r = m.remove(email);
    assert forall|k: Seq<char>| #[trigger] r.contains_key(k) implies !r[k].active by {
        if r[k].active {
            assert(m.contains_key(k) && m[k].active && m[email].active);
        }
    }
}

/// Removing an identity that is not active leaves the installed keys, the
/// global configuration and every other identity's active flag as they were.
pub proof fn law_remove_inactive(m: Map<Seq<char>, IdentityModel>, env: Environment, email: Seq<char>)
    requires
        consistent(m, env),
        m.contains_key(email),
        !m[email].active,
    ensures
        apply_plan(env, remove_plan(false, email)) == env,
        forall|k: Seq<char>|
            k != email && #[trigger] m.contains_key(k) ==> m.remove(email).contains_key(k)
                && m.remove(email)[k] == m[k],
        consistent(m.remove(email), env),
{
    reveal_with_fuel(apply_plan, 2);
    let r = m.remove(email);
    if none_active(r) {
        assert forall|k: Seq<char>| #[trigger] m.contains_key(k) implies !m[k].active by {
            if k != email {
                assert(r.contains_key(k));
            }
        }
    }
    assert forall|k: Seq<char>| #[trigger] r.contains_key(k) && r[k].active implies env.installed
        == Some((r[k].private_key, r[k].public_key)) && env.config == Some((r[k].name, k)) by {
        assert(m.contains_key(k));
    }
}

/// Removing every identity leaves an empty registry and, once its plan is
/// performed, no installed keys and no global configuration.
pub proof fn law_remove_all(env: Environment)
    ensures
        apply_plan(env, remove_all_plan()).installed is None,
        apply_plan(env, remove_all_plan()).config is None,
        reported(Map::empty(), apply_plan(env, remove_all_plan())) is None,
        consistent(Map::empty(), apply_plan(env, remove_all_plan())),
{
    reveal_with_fuel(apply_plan, 4);
}

/// After a removal the email is gone, so a second removal of it fails and
/// changes nothing; no other identity's active flag changes.
pub proof fn law_remove_twice(m: Map<Seq<char>, IdentityModel>, email: Seq<char>)
    ensures
        !m.remove(email).contains_key(email),
        step(m.remove(email), Operation::Remove(email)) == m.remove(email),
        forall|k: Seq<char>|
            k != email && #[trigger] m.contains_key(k) ==> step(
                step(m, Operation::Remove(email)),
                Operation::Remove(email),
            )[k].active == m[k].active,
{
}

/// Every operation keeps the registry and the external state consistent.
pub proof fn law_step_consistent(m: Map<Seq<char>, IdentityModel>, env: Environment, op: Operation)
    requires
        consistent(m, env),
    ensures
        consistent(step(m, op), step_env(m, env, op)),
{
    match op {
        Operation::Create(n, e, k) => law_create_consistent(m, env, n, e, k),
        Operation::SwitchTo(e) => if m.contains_key(e) {
            law_switch_consistent(m, env, e);
        },
        Operation::Remove(e) => if m.contains_key(e) {
            if m[e].active {
                law_remove_active(m, env, e);
            } else {
                law_remove_inactive(m, env, e);
            }
        },
    }
}

/// Whatever sequence of creations, switches and removals runs from a
/// consistent state, at most one identity is active afterwards, and the
/// installed keys and global configuration mirror it.
pub proof fn law_run_consistent(m: Map<Seq<char>, IdentityModel>, env: Environment, ops: Seq<Operation>)
    requires
        consistent(m, env),
    ensures
        consistent(run(m, ops), run_env(m, env, ops)),
        at_most_one_active(run(m, ops)),
    decreases ops.len(),
{
    if ops.len() > 0 {
        law_step_consistent(m, env, ops[0]);
        law_run_consistent(step(m, ops[0]), step_env(m, env, ops[0]), ops.drop_first());
    }
}

/// An empty registry with no installed keys and no global configuration is
/// consistent; every run starts from there.
pub proof fn law_empty_consistent()
    ensures
        consistent(Map::empty(), Environment { installed: None, config: None }),
{
}

} // verus!
