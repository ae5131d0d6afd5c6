use vstd::prelude::*;
use crate::identity::{Identity, IdentityModel, KeyPair, SwitchError, text_from_bytes};
use vstd::utf8::{decode_utf8, valid_utf8};
use crate::registry::{Registry, active_model, at_most_one_active, deactivated};

verus! {

/// An external side effect that the caller performs, in order, after an
/// operation has updated the registry.
#[derive(Debug)]
pub enum Effect {
    /// Write these bytes as the installed private and public key files.
    InstallKeys(KeyPair),
    /// Delete the installed key files; missing files are no error.
    UninstallKeys,
    /// Set the global name and email.
    WriteConfig { name: String, email: String },
    /// Unset the global name and email; unset keys are no error.
    ClearConfig,
    /// Tell observers that the identity with this email was removed.
    NotifyRemoved(String),
    /// Tell observers that every identity was removed.
    NotifyAllRemoved,
}

/// The model of an effect.
pub enum EffectView {
    InstallKeys(Seq<u8>, Seq<u8>),
    UninstallKeys,
    WriteConfig(Seq<char>, Seq<char>),
    ClearConfig,
    NotifyRemoved(Seq<char>),
    NotifyAllRemoved,
}

impl View for Effect {
    type V = EffectView;

    open spec fn view(&self) -> EffectView {
        match self {
            Effect::InstallKeys(k) => EffectView::InstallKeys(k.private_key@, k.public_key@),
            Effect::UninstallKeys => EffectView::UninstallKeys,
            Effect::WriteConfig { name, email } => EffectView::WriteConfig(name@, email@),
            Effect::ClearConfig => EffectView::ClearConfig,
            Effect::NotifyRemoved(e) => EffectView::NotifyRemoved(e@),
            Effect::NotifyAllRemoved => EffectView::NotifyAllRemoved,
        }
    }
}

/// The models of a plan of effects, in order.
pub open spec fn plan_view(p: Seq<Effect>) -> Seq<EffectView> {
    p.map_values(|e: Effect| e@)
}

/// The external state that the effects act on: the installed key files
/// (private, public) and the global (name, email) configuration; `None`
/// where absent.
pub struct Environment {
    pub installed: Option<(Seq<u8>, Seq<u8>)>,
    pub config: Option<(Seq<char>, Seq<char>)>,
}

/// The external state after one effect.
pub open spec fn apply_effect(env: Environment, e: EffectView) -> Environment {
    match e {
        EffectView::InstallKeys(p, q) => Environment { installed: Some((p, q)), ..env },
        EffectView::UninstallKeys => Environment { installed: None, ..env },
        EffectView::WriteConfig(n, m) => Environment { config: Some((n, m)), ..env },
        EffectView::ClearConfig => Environment { config: None, ..env },
        EffectView::NotifyRemoved(_) => env,
        EffectView::NotifyAllRemoved => env,
    }
}

/// The external state after a plan of effects, performed in order.
pub open spec fn apply_plan(env: Environment, p: Seq<EffectView>) -> Environment
    decreases p.len(),
{
    if p.len() == 0 {
        env
    } else {
        apply_plan(apply_effect(env, p[0]), p.drop_first())
    }
}

/// No identity of `m` is active.
pub open spec fn none_active(m: Map<Seq<char>, IdentityModel>) -> bool {
    forall|k: Seq<char>| #[trigger] m.contains_key(k) ==> !m[k].active
}

/// The registry and the external state agree: at most one identity is
/// active; the installed keys and the global configuration mirror the
/// active identity where there is one, and are absent where there is none.
pub open spec fn consistent(m: Map<Seq<char>, IdentityModel>, env: Environment) -> bool {
    &&& at_most_one_active(m)
    &&& forall|k: Seq<char>|
        #[trigger] m.contains_key(k) && m[k].active ==> env.installed == Some(
            (m[k].private_key, m[k].public_key),
        ) && env.config == Some((m[k].name, k))
    &&& none_active(m) ==> env.installed is None && env.config is None
}

/// What a live read of the global configuration reports as the current
/// identity, given the name and email read (empty where unset): nothing where
/// either is empty, else the pair with the registry's active flag for that
/// email.
pub open spec fn current_of(m: Map<Seq<char>, IdentityModel>, name: Seq<char>, email: Seq<char>) -> Option<(Seq<char>, Seq<char>, bool)> {
    if name.len() == 0 || email.len() == 0 {
        None
    } else {
        Some((name, email, m.contains_key(email) && m[email].active))
    }
}

/// What a live read reports in the external state `env`.
pub open spec fn reported(m: Map<Seq<char>, IdentityModel>, env: Environment) -> Option<(Seq<char>, Seq<char>, bool)> {
    match env.config {
        None => None,
        Some((n, e)) => current_of(m, n, e),
    }
}

/// The registry after creating `email` with this name and key pair.
pub open spec fn created(m: Map<Seq<char>, IdentityModel>, name: Seq<char>, email: Seq<char>, keys: (Seq<u8>, Seq<u8>)) -> Map<Seq<char>, IdentityModel> {
    deactivated(m).insert(email, active_model(name, keys))
}

/// The effects of creating an identity.
pub open spec fn create_plan(name: Seq<char>, email: Seq<char>, keys: (Seq<u8>, Seq<u8>)) -> Seq<EffectView> {
    seq![EffectView::InstallKeys(keys.0, keys.1), EffectView::WriteConfig(name, email)]
}

/// The registry after switching to a registered `email`.
pub open spec fn switched(m: Map<Seq<char>, IdentityModel>, email: Seq<char>) -> Map<Seq<char>, IdentityModel> {
    deactivated(m).insert(email, IdentityModel { active: true, ..m[email] })
}

/// The effects of switching to a registered `email`.
pub open spec fn switch_plan(m: Map<Seq<char>, IdentityModel>, email: Seq<char>) -> Seq<EffectView> {
    seq![
        EffectView::InstallKeys(m[email].private_key, m[email].public_key),
        EffectView::WriteConfig(m[email].name, email),
    ]
}

/// The effects of removing a registered `email`: where it was active, the
/// configuration and the installed keys are cleared; observers are told last.
pub open spec fn remove_plan(was_active: bool, email: Seq<char>) -> Seq<EffectView> {
    if was_active {
        seq![EffectView::ClearConfig, EffectView::UninstallKeys, EffectView::NotifyRemoved(email)]
    } else {
        seq![EffectView::NotifyRemoved(email)]
    }
}

/// The effects of removing every identity.
pub open spec fn remove_all_plan() -> Seq<EffectView> {
    seq![EffectView::UninstallKeys, EffectView::ClearConfig, EffectView::NotifyAllRemoved]
}

/// The orchestrator: each operation updates the registry and returns the
/// external effects that bring the installed keys and the global
/// configuration in line with it.
pub struct IdentitySwitcher {
    pub registry: Registry,
}

impl IdentitySwitcher {
    pub open spec fn wf(&self) -> bool {
        self.registry.wf()
    }

    /// A switcher over an existing registry.
    pub fn new(registry: Registry) -> (r: IdentitySwitcher)
        ensures
            r.registry == registry,
    {
        IdentitySwitcher { registry }
    }

    /// Registers a new identity with the freshly generated key pair `keys`
    /// as the sole active one; the plan installs the keys and writes the
    /// name and email to the global configuration.
    pub fn create(&mut self, name: String, email: String, keys: KeyPair) -> (r: Vec<Effect>)
        requires
            old(self).wf(),
        ensures
            final(self).wf(),
            final(self).registry@ == created(old(self).registry@, name@, email@, keys.key_view()),
            plan_view(r@) == create_plan(name@, email@, keys.key_view()),
    {
        let installed = keys.duplicate();
        let config = Effect::WriteConfig { name: name.clone(), email: email.clone() };
        self.registry.upsert_active(name, email, keys);
        let r = vec![Effect::InstallKeys(installed), config];
        assert(plan_view(r@) =~= create_plan(name@, email@, keys.key_view()));
        r
    }

    /// Makes `email` the active identity; the plan installs its key pair and
    /// writes its stored name and the email to the global configuration.
    /// Fails with `NotFound`, changing nothing, where `email` is unknown.
    pub fn switch_to(&mut self, email: &String) -> (r: Result<Vec<Effect>, SwitchError>)
        requires
            old(self).wf(),
        ensures
            final(self).wf(),
            r is Ok <==> old(self).registry@.contains_key(email@),
            r is Err ==> r == Err::<Vec<Effect>, SwitchError>(SwitchError::NotFound)
                && final(self).registry@ == old(self).registry@,
            r matches Ok(p) ==> final(self).registry@ == switched(old(self).registry@, email@)
                && plan_view(p@) == switch_plan(old(self).registry@, email@),
    {
        let ghost m = self.registry@;
        match self.registry.activate(email) {
            Err(e) => Err(e),
            Ok(()) => {
                assert(self.registry@.contains_key(email@));
                let keys = match self.registry.get(email) {
                    Ok(k) => k,
                    Err(e) => { return Err(e); },
                };
                let name = match self.registry.name_of(email) {
                    Ok(n) => n,
                    Err(e) => { return Err(e); },
                };
                let r = vec![Effect::InstallKeys(keys), Effect::WriteConfig { name, email: email.clone() }];
                assert(plan_view(r@) =~= switch_plan(m, email@));
                Ok(r)
            },
        }
    }

    /// Deletes `email` with its key pair. Where it was the active identity
    /// the plan clears the global configuration and the installed keys; in
    /// every case it ends by telling observers. Fails with `NotFound`,
    /// changing nothing, where `email` is unknown.
    pub fn remove(&mut self, email: &String) -> (r: Result<Vec<Effect>, SwitchError>)
        requires
            old(self).wf(),
        ensures
            final(self).wf(),
            r is Ok <==> old(self).registry@.contains_key(email@),
            r is Err ==> r == Err::<Vec<Effect>, SwitchError>(SwitchError::NotFound)
                && final(self).registry@ == old(self).registry@,
            r matches Ok(p) ==> final(self).registry@ == old(self).registry@.remove(email@)
                && plan_view(p@) == remove_plan(old(self).registry@[email@].active, email@),
    {
        match self.registry.remove(email) {
            Err(e) => Err(e),
            Ok(was_active) => {
                let r = if was_active {
                    vec![Effect::ClearConfig, Effect::UninstallKeys, Effect::NotifyRemoved(email.clone())]
                } else {
                    vec![Effect::NotifyRemoved(email.clone())]
                };
                assert(plan_view(r@) =~= remove_plan(was_active, email@));
                Ok(r)
            },
        }
    }

    /// Deletes every identity; the plan removes the installed keys, clears
    /// the global configuration and tells observers.
    pub fn remove_all(&mut self) -> (r: Vec<Effect>)
        requires
            old(self).wf(),
        ensures
            final(self).wf(),
            final(self).registry@ == Map::<Seq<char>, IdentityModel>::empty(),
            plan_view(r@) == remove_all_plan(),
    {
        self.registry.remove_all();
        let r = vec![Effect::UninstallKeys, Effect::ClearConfig, Effect::NotifyAllRemoved];
        assert(plan_view(r@) =~= remove_all_plan());
        r
    }

    /// Unsets the global name and email, leaving the registry as it is.
    pub fn clear_current(&self) -> (r: Vec<Effect>)
        ensures
            plan_view(r@) == seq![EffectView::ClearConfig],
    {
        let r = vec![Effect::ClearConfig];
        assert(plan_view(r@) =~= seq![EffectView::ClearConfig]);
        r
    }

    /// The current identity from a live read of the global configuration
    /// (`name` and `email`, empty where unset), with the registry's active
    /// flag for that email. Fails with `NoIdentityConfigured` where either
    /// is empty.
    pub fn query_current(&self, name: String, email: String) -> (r: Result<Identity, SwitchError>)
        requires
            self.wf(),
        ensures
            r is Err <==> current_of(self.registry@, name@, email@) is None,
            r is Err ==> r == Err::<Identity, SwitchError>(SwitchError::NoIdentityConfigured),
            r matches Ok(id) ==> current_of(self.registry@, name@, email@) == Some(
                (id.name@, id.email@, id.is_active),
            ),
    {
        if name.as_str().is_empty() || email.as_str().is_empty() {
            return Err(SwitchError::NoIdentityConfigured);
        }
        let is_active = self.registry.active_flag(&email);
        Ok(Identity { email, name, is_active })
    }

    /// The public key stored under `email`, as text. Fails with `NotFound`
    /// where `email` is unknown, and with `EncodingError` where the stored
    /// bytes are not valid UTF-8.
    pub fn get_public_key(&self, email: &String) -> (r: Result<String, SwitchError>)
        requires
            self.wf(),
        ensures
            !self.registry@.contains_key(email@) ==> r == Err::<String, SwitchError>(SwitchError::NotFound),
            self.registry@.contains_key(email@) && valid_utf8(self.registry@[email@].public_key) ==> (
            r matches Ok(s) && s@ == decode_utf8(self.registry@[email@].public_key)),
            self.registry@.contains_key(email@) && !valid_utf8(self.registry@[email@].public_key) ==> r
                == Err::<String, SwitchError>(SwitchError::EncodingError),
    {
        match self.registry.get(email) {
            Err(e) => Err(e),
            Ok(keys) => match text_from_bytes(keys.public_key) {
                Some(s) => Ok(s),
                None => Err(SwitchError::EncodingError),
            },
        }
    }

    /// Every registered identity once, with its active flag.
    pub fn list(&self) -> (r: Vec<Identity>)
        requires
            self.wf(),
        ensures
            forall|i: int|
                0 <= i < r.len() ==> {
                    &&& self.registry@.contains_key(#[trigger] r[i].email@)
                    &&& r[i].name@ == self.registry@[r[i].email@].name
                    &&& r[i].is_active == self.registry@[r[i].email@].active
                },
            forall|i: int, j: int|
                0 <= i < j < r.len() ==> #[trigger] r[i].email@ != #[trigger] r[j].email@,
            forall|k: Seq<char>|
                #[trigger] self.registry@.contains_key(k) ==> exists|i: int|
                    0 <= i < r.len() && #[trigger] r[i].email@ == k,
    {
        self.registry.list()
    }
}

} // verus!
