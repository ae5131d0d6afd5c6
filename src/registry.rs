use vstd::prelude::*;
use crate::identity::{Identity, IdentityModel, KeyPair, SwitchError};

verus! {

/// One stored identity row, without its active flag.
struct Row {
    email: String,
    name: String,
    keys: KeyPair,
}

/// The durable table of known identities, keyed by email, with the key pair
/// of each and the flag that marks the active one.
///
/// Its model is a map from email to what is stored under it.
pub struct Registry {
    rows: Vec<Row>,
    flags: Vec<bool>,
    model: Ghost<Map<Seq<char>, IdentityModel>>,
}

spec fn row_model(r: Row, active: bool) -> IdentityModel {
    IdentityModel {
        name: r.name@,
        active,
        private_key: r.keys.private_key@,
        public_key: r.keys.public_key@,
    }
}

/// The same identities, none of them active.
pub open spec fn deactivated(m: Map<Seq<char>, IdentityModel>) -> Map<Seq<char>, IdentityModel> {
    Map::new(
        |k: Seq<char>| m.contains_key(k),
        |k: Seq<char>|
            IdentityModel {
                name: m[k].name,
                active: false,
                private_key: m[k].private_key,
                public_key: m[k].public_key,
            },
    )
}

/// The model of an identity registered as active with the given key pair.
pub open spec fn active_model(name: Seq<char>, keys: (Seq<u8>, Seq<u8>)) -> IdentityModel {
    IdentityModel { name, active: true, private_key: keys.0, public_key: keys.1 }
}

/// At most one identity of `m` is active.
pub open spec fn at_most_one_active(m: Map<Seq<char>, IdentityModel>) -> bool {
    forall|a: Seq<char>, b: Seq<char>|
        m.contains_key(a) && m.contains_key(b) && #[trigger] m[a].active && #[trigger] m[b].active
            ==> a == b
}

impl View for Registry {
    type V = Map<Seq<char>, IdentityModel>;

    closed spec fn view(&self) -> Map<Seq<char>, IdentityModel> {
        self.model@
    }
}

impl Registry {
    /// The representation holds exactly the identities of the model, each
    /// email once.
    pub closed spec fn wf(&self) -> bool {
        &&& self.rows.len() == self.flags.len()
        &&& forall|i: int, j: int|
            0 <= i < j < self.rows.len() ==> #[trigger] self.rows[i].email@
                != #[trigger] self.rows[j].email@
        &&& forall|i: int|
            0 <= i < self.rows.len() ==> {
                &&& self.model@.contains_key(#[trigger] self.rows[i].email@)
                &&& self.model@[self.rows[i].email@] == row_model(self.rows[i], self.flags[i])
            }
        &&& forall|k: Seq<char>|
            #[trigger] self.model@.contains_key(k) ==> exists|i: int|
                0 <= i < self.rows.len() && #[trigger] self.rows[i].email@ == k
    }

    /// An empty registry.
    pub fn new() -> (r: Registry)
        ensures
            r.wf(),
            r@ == Map::<Seq<char>, IdentityModel>::empty(),
    {
        Registry { rows: Vec::new(), flags: Vec::new(), model: Ghost(Map::empty()) }
    }

    /// The position of the row for `email`, if there is one.
    fn find(&self, email: &String) -> (r: Option<usize>)
        requires
            self.wf(),
        ensures
            r is Some <==> self@.contains_key(email@),
            r matches Some(i) ==> i < self.rows.len() && self.rows[i as int].email@ == email@,
    {
        let mut i: usize = 0;
        while i < self.rows.len()
            invariant
                self.wf(),
                i <= self.rows.len(),
                forall|j: int| 0 <= j < i ==> self.rows[j].email@ != email@,
            decreases self.rows.len() - i,
        {
            if self.rows[i].email == *email {
                return Some(i);
            }
            i = i + 1;
        }
        proof {
            if self@.contains_key(email@) {
                let j = choose|j: int| 0 <= j < self.rows.len() && self.rows[j].email@ == email@;
            }
        }
        None
    }

    /// Stores a row as it is: the identity under `email` gets this name,
    /// flag and key pair, replacing whatever was stored under it. Other
    /// identities keep their flags.
    pub fn insert_row(&mut self, email: String, name: String, active: bool, keys: KeyPair)
        requires
            old(self).wf(),
        ensures
            final(self).wf(),
            final(self)@ == old(self)@.insert(
                email@,
                IdentityModel {
                    name: name@,
                    active,
                    private_key: keys.private_key@,
                    public_key: keys.public_key@,
                },
            ),
    {
        let ghost e = email@;
        let ghost old_self = *self;
        let row = Row { email, name, keys };
        let ghost rm = row_model(row, active);
        let ghost mut pos: int = 0;
        match self.find(&row.email) {
            Some(i) => {
                self.rows.set(i, row);
                self.flags.set(i, active);
                proof {
                    pos = i as int;
                }
            },
            None => {
                proof {
                    pos = self.rows.len() as int;
                }
                self.rows.push(row);
                self.flags.push(active);
            },
        }
        self.model = Ghost(self.model@.insert(e, rm));
        assert forall|k: Seq<char>| #[trigger] self.model@.contains_key(k) implies exists|i: int|
            0 <= i < self.rows.len() && #[trigger] self.rows[i].email@ == k by {
            if k != e {
                let j = choose|j: int| 0 <= j < old_self.rows.len() && old_self.rows[j].email@ == k;
                assert(self.rows[j].email@ == k);
            } else {
                assert(self.rows[pos].email@ == e);
            }
        }
    }

    /// Marks every identity inactive.
    fn deactivate_all(&mut self)
        requires
            old(self).wf(),
        ensures
            final(self).wf(),
            final(self)@ == deactivated(old(self)@),
            final(self).rows == old(self).rows,
    {
        let ghost old_self = *self;
        let mut i: usize = 0;
        while i < self.flags.len()
            invariant
                self.rows == old_self.rows,
                self.model == old_self.model,
                self.flags.len() == old_self.flags.len(),
                old_self.wf(),
                i <= self.flags.len(),
                forall|j: int| 0 <= j < i ==> !self.flags[j],
                forall|j: int| i <= j < self.flags.len() ==> self.flags[j] == old_self.flags[j],
            decreases self.flags.len() - i,
        {
            self.flags.set(i, false);
            i = i + 1;
        }
        self.model = Ghost(deactivated(self.model@));
        assert forall|k: Seq<char>| #[trigger] self.model@.contains_key(k) implies exists|i: int|
            0 <= i < self.rows.len() && #[trigger] self.rows[i].email@ == k by {
            let j = choose|j: int| 0 <= j < old_self.rows.len() && old_self.rows[j].email@ == k;
            assert(self.rows[j].email@ == k);
        }
    }
    /// Registers `email` as the sole active identity with this name and key
    /// pair: every other identity is deactivated, and whatever was stored
    /// under `email` is replaced. This holds even where several identities
    /// were flagged active before.
    pub fn upsert_active(&mut self, name: String, email: String, keys: KeyPair)
        requires
            old(self).wf(),
        ensures
            final(self).wf(),
            final(self)@ == deactivated(old(self)@).insert(
                email@,
                active_model(name@, keys.key_view()),
            ),
    {
        self.deactivate_all();
        self.insert_row(email, name, true, keys);
    }

    /// Makes `email` the sole active identity. Fails with `NotFound`, and
    /// changes nothing, where no identity has that email.
    pub fn activate(&mut self, email: &String) -> (r: Result<(), SwitchError>)
        requires
            old(self).wf(),
        ensures
            final(self).wf(),
            r is Ok <==> old(self)@.contains_key(email@),
            r is Err ==> r == Err::<(), SwitchError>(SwitchError::NotFound) && final(self)@ == old(self)@,
            r is Ok ==> final(self)@ == deactivated(old(self)@).insert(
                email@,
                IdentityModel { active: true, ..old(self)@[email@] },
            ),
    {
        match self.find(email) {
            None => Err(SwitchError::NotFound),
            Some(i) => {
                let ghost old_self = *self;
                self.deactivate_all();
                let ghost mid = *self;
                self.flags.set(i, true);
                let ghost e = email@;
                self.model = Ghost(
                    self.model@.insert(e, IdentityModel { active: true, ..self.model@[e] }),
                );
                assert forall|j: int| 0 <= j < self.rows.len() implies {
                    &&& self.model@.contains_key(#[trigger] self.rows[j].email@)
                    &&& self.model@[self.rows[j].email@] == row_model(self.rows[j], self.flags[j])
                } by {
                    if j != i {
                        assert(mid.rows[j].email@ != mid.rows[i as int].email@);
                    }
                }
                assert forall|k: Seq<char>| #[trigger] self.model@.contains_key(k) implies exists|
                    j: int,
                | 0 <= j < self.rows.len() && #[trigger] self.rows[j].email@ == k by {
                    let j = choose|j: int| 0 <= j < mid.rows.len() && mid.rows[j].email@ == k;
                    assert(self.rows[j].email@ == k);
                }
                Ok(())
            },
        }
    }

    /// Deletes the identity under `email` with its key pair, and tells
    /// whether it was the active one. Fails with `NotFound`, and changes
    /// nothing, where no identity has that email.
    pub fn remove(&mut self, email: &String) -> (r: Result<bool, SwitchError>)
        requires
            old(self).wf(),
        ensures
            final(self).wf(),
            r is Ok <==> old(self)@.contains_key(email@),
            r is Err ==> r == Err::<bool, SwitchError>(SwitchError::NotFound) && final(self)@ == old(self)@,
            r matches Ok(was_active) ==> was_active == old(self)@[email@].active
                && final(self)@ == old(self)@.remove(email@),
    {
        match self.find(email) {
            None => Err(SwitchError::NotFound),
            Some(i) => {
                let ghost old_self = *self;
                let was_active = self.flags[i];
                let _row = self.rows.remove(i);
                let _flag = self.flags.remove(i);
                let ghost e = email@;
                self.model = Ghost(self.model@.remove(e));
                assert forall|a: int, b: int|
                    0 <= a < b < self.rows.len() implies #[trigger] self.rows[a].email@
                    != #[trigger] self.rows[b].email@ by {
                    let oa = if a < i { a } else { a + 1 };
                    let ob = if b < i { b } else { b + 1 };
                    assert(self.rows[a] == old_self.rows[oa]);
                    assert(self.rows[b] == old_self.rows[ob]);
                    assert(old_self.rows[oa].email@ != old_self.rows[ob].email@);
                }
                assert forall|j: int| 0 <= j < self.rows.len() implies {
                    &&& self.model@.contains_key(#[trigger] self.rows[j].email@)
                    &&& self.model@[self.rows[j].email@] == row_model(self.rows[j], self.flags[j])
                } by {
                    let oj = if j < i { j } else { j + 1 };
                    assert(self.rows[j] == old_self.rows[oj]);
                    assert(self.flags[j] == old_self.flags[oj]);
                    assert(old_self.rows[oj].email@ != old_self.rows[i as int].email@);
                }
                assert forall|k: Seq<char>| #[trigger] self.model@.contains_key(k) implies exists|
                    j: int,
                | 0 <= j < self.rows.len() && #[trigger] self.rows[j].email@ == k by {
                    let oj = choose|j: int|
                        0 <= j < old_self.rows.len() && old_self.rows[j].email@ == k;
                    assert(oj != i);
                    let j = if oj < i { oj } else { oj - 1 };
                    assert(self.rows[j] == old_self.rows[oj]);
                }
                Ok(was_active)
            },
        }
    }

    /// Deletes every identity and key pair.
    pub fn remove_all(&mut self)
        ensures
            final(self).wf(),
            final(self)@ == Map::<Seq<char>, IdentityModel>::empty(),
    {
        self.rows = Vec::new();
        self.flags = Vec::new();
        self.model = Ghost(Map::empty());
    }

    /// A copy of the key pair stored under `email`; `NotFound` where there
    /// is none.
    pub fn get(&self, email: &String) -> (r: Result<KeyPair, SwitchError>)
        requires
            self.wf(),
        ensures
            r is Ok <==> self@.contains_key(email@),
            r is Err ==> r == Err::<KeyPair, SwitchError>(SwitchError::NotFound),
            r matches Ok(kp) ==> kp.key_view() == (
                self@[email@].private_key,
                self@[email@].public_key,
            ),
    {
        match self.find(email) {
            None => Err(SwitchError::NotFound),
            Some(i) => Ok(self.rows[i].keys.duplicate()),
        }
    }

    /// The display name stored under `email`; `NotFound` where there is none.
    pub fn name_of(&self, email: &String) -> (r: Result<String, SwitchError>)
        requires
            self.wf(),
        ensures
            r is Ok <==> self@.contains_key(email@),
            r is Err ==> r == Err::<String, SwitchError>(SwitchError::NotFound),
            r matches Ok(n) ==> n@ == self@[email@].name,
    {
        match self.find(email) {
            None => Err(SwitchError::NotFound),
            Some(i) => Ok(self.rows[i].name.clone()),
        }
    }

    /// Whether `email` is registered and flagged active; an unknown email is
    /// not active.
    pub fn active_flag(&self, email: &String) -> (r: bool)
        requires
            self.wf(),
        ensures
            r == (self@.contains_key(email@) && self@[email@].active),
    {
        match self.find(email) {
            None => false,
            Some(i) => self.flags[i],
        }
    }

    /// Every registered identity once, in a stable order.
    pub fn list(&self) -> (r: Vec<Identity>)
        requires
            self.wf(),
        ensures
            forall|i: int|
                0 <= i < r.len() ==> {
                    &&& self@.contains_key(#[trigger] r[i].email@)
                    &&& r[i].name@ == self@[r[i].email@].name
                    &&& r[i].is_active == self@[r[i].email@].active
                },
            forall|i: int, j: int|
                0 <= i < j < r.len() ==> #[trigger] r[i].email@ != #[trigger] r[j].email@,
            forall|k: Seq<char>|
                #[trigger] self@.contains_key(k) ==> exists|i: int|
                    0 <= i < r.len() && #[trigger] r[i].email@ == k,
    {
        let mut r: Vec<Identity> = Vec::new();
        let mut i: usize = 0;
        while i < self.rows.len()
            invariant
                self.wf(),
                i <= self.rows.len(),
                r.len() == i,
                forall|j: int|
                    0 <= j < i ==> r[j].email@ == self.rows[j].email@ && r[j].name@
                        == self.rows[j].name@ && r[j].is_active == self.flags[j],
            decreases self.rows.len() - i,
        {
            r.push(
                Identity {
                    email: self.rows[i].email.clone(),
                    name: self.rows[i].name.clone(),
                    is_active: self.flags[i],
                },
            );
            i = i + 1;
        }
        assert forall|j: int| 0 <= j < r.len() implies {
            &&& self@.contains_key(#[trigger] r[j].email@)
            &&& r[j].name@ == self@[r[j].email@].name
            &&& r[j].is_active == self@[r[j].email@].active
        } by {
            assert(self.model@.contains_key(self.rows[j].email@));
        }
        assert forall|a: int, b: int| 0 <= a < b < r.len() implies #[trigger] r[a].email@
            != #[trigger] r[b].email@ by {
            assert(self.rows[a].email@ != self.rows[b].email@);
        }
        assert forall|k: Seq<char>| #[trigger] self@.contains_key(k) implies exists|j: int|
            0 <= j < r.len() && #[trigger] r[j].email@ == k by {
            let j = choose|j: int| 0 <= j < self.rows.len() && self.rows[j].email@ == k;
            assert(r[j].email@ == k);
        }
        r
    }
}

} // verus!
