//! The factory: it creates an instance of a registered code image at an
//! identity derived from the deployer and a salt, and has the instance's
//! initializer invoked in the same unit of work. The instance is recorded
//! only once the initializer has succeeded.

use vstd::prelude::*;
use crate::error::Error;
use crate::identity::{Identity, Key};
use crate::table::{Entry, Table};

verus! {

/// The identity of an instance: the deployer and the salt it was derived
/// from. Its view is the pair of their views.
#[derive(Debug, PartialEq, Eq)]
pub struct InstanceIdentity {
    pub deployer: Identity,
    pub salt: [u8; 32],
}

impl View for InstanceIdentity {
    type V = (Seq<char>, Seq<u8>);

    open spec fn view(&self) -> (Seq<char>, Seq<u8>) {
        derived(self.deployer@, self.salt@)
    }
}

/// The identity that is derived from a deployer and a salt.
pub open spec fn derived(deployer: Seq<char>, salt: Seq<u8>) -> (Seq<char>, Seq<u8>) {
    (deployer, salt)
}

/// Whether two salts hold the same bytes.
pub fn same_salt(a: &[u8; 32], b: &[u8; 32]) -> (r: bool)
    ensures
        r == (a@ == b@),
{
    let mut i: usize = 0;
    while i < 32
        invariant
            i <= 32,
            forall|j: int| 0 <= j < i ==> a@[j] == b@[j],
        decreases 32 - i,
    {
        if a[i] != b[i] {
            return false;
        }
        i += 1;
    }
    assert(a@ =~= b@);
    true
}

impl Clone for InstanceIdentity {
    fn clone(&self) -> (r: Self)
        ensures
            r == *self,
    {
        InstanceIdentity { deployer: self.deployer.clone(), salt: self.salt }
    }
}

impl Key for InstanceIdentity {
    fn same(&self, other: &Self) -> (r: bool) {
        self.deployer.same(&other.deployer) && same_salt(&self.salt, &other.salt)
    }
}

impl InstanceIdentity {
    /// Derives the identity of the instance that `deployer` creates with `salt`.
    pub fn derive(deployer: Identity, salt: [u8; 32]) -> (r: InstanceIdentity)
        ensures
            r == (InstanceIdentity { deployer, salt }),
            r@ == derived(deployer@, salt@),
    {
        InstanceIdentity { deployer, salt }
    }
}

/// A value that is handed to an initializer, or returned by one.
#[derive(Debug, PartialEq, Eq)]
pub enum Value {
    Void,
    Bool(bool),
    U32(u32),
    I128(i128),
    Text(String),
    Address(Identity),
}

/// What the factory asks to have done for a deployment: an instance of `code`
/// created at `instance`, and `function` invoked on it with `args`, both in
/// one unit of work.
#[derive(Debug, PartialEq, Eq)]
pub struct Invocation {
    pub instance: InstanceIdentity,
    pub code: [u8; 32],
    pub function: String,
    pub args: Vec<Value>,
}

/// The state of a factory: the code image of each instance that exists.
pub struct FactoryView {
    pub instances: Map<(Seq<char>, Seq<u8>), [u8; 32]>,
}

/// The state after a deployment, and what the deployment returned.
pub struct FactoryStep {
    pub state: FactoryView,
    pub result: Result<(InstanceIdentity, Value), Error>,
}

/// The first half of a deployment: the identity is derived, and the
/// deployment is refused where an instance exists at it.
pub open spec fn prepare_step(
    s: FactoryView,
    deployer: Identity,
    code: [u8; 32],
    salt: [u8; 32],
    function: String,
    args: Vec<Value>,
) -> Result<Invocation, Error> {
    if s.instances.contains_key(derived(deployer@, salt@)) {
        Err(Error::IdentityCollision)
    } else {
        Ok(Invocation { instance: InstanceIdentity { deployer, salt }, code, function, args })
    }
}

/// The second half of a deployment, given what the initializer returned: the
/// instance is recorded if the initializer succeeded, and the state stays as
/// it was if it failed.
pub open spec fn complete_step(
    s: FactoryView,
    instance: InstanceIdentity,
    code: [u8; 32],
    outcome: Result<Value, Error>,
) -> FactoryStep {
    if s.instances.contains_key(instance@) {
        FactoryStep { state: s, result: Err(Error::IdentityCollision) }
    } else {
        match outcome {
            Ok(value) => FactoryStep {
                state: FactoryView { instances: s.instances.insert(instance@, code) },
                result: Ok((instance, value)),
            },
            Err(_) => FactoryStep { state: s, result: Err(Error::InitializerFailed) },
        }
    }
}

/// A factory, with the instances that it created.
pub struct Factory {
    instances: Table<InstanceIdentity, [u8; 32]>,
}

impl View for Factory {
    type V = FactoryView;

    closed spec fn view(&self) -> FactoryView {
        FactoryView { instances: self.instances@ }
    }
}

impl Factory {
    /// The factory's invariant.
    pub closed spec fn wf(&self) -> bool {
        self.instances.wf()
    }

    /// A factory that has created nothing.
    pub fn new() -> (f: Factory)
        ensures
            f.wf(),
            f@.instances == Map::<(Seq<char>, Seq<u8>), [u8; 32]>::empty(),
    {
        Factory { instances: Table::new() }
    }

    /// The factory with the given instances, each with its code image. Where
    /// an identity is named more than once, its first record counts.
    pub fn restore(instances: Vec<Entry<InstanceIdentity, [u8; 32]>>) -> (f: Factory)
        ensures
            f.wf(),
            f@.instances == Table::<InstanceIdentity, [u8; 32]>::collected(instances@),
    {
        Factory { instances: Table::from_records(instances) }
    }

    /// Whether an instance exists at `instance`.
    pub fn instance_exists(&self, instance: &InstanceIdentity) -> (r: bool)
        requires
            self.wf(),
        ensures
            r == self@.instances.contains_key(instance@),
    {
        self.instances.get(instance).is_some()
    }

    /// The code image of the instance at `instance`, if one exists there.
    pub fn code_of(&self, instance: &InstanceIdentity) -> (r: Option<[u8; 32]>)
        requires
            self.wf(),
        ensures
            r == if self@.instances.contains_key(instance@) {
                Some(self@.instances[instance@])
            } else {
                None
            },
    {
        match self.instances.get(instance) {
            Some(code) => Some(*code),
            None => None,
        }
    }

    /// Derives the instance's identity and says what has to be invoked, or
    /// refuses the deployment because the identity is occupied.
    pub fn prepare(
        &self,
        deployer: Identity,
        code: [u8; 32],
        salt: [u8; 32],
        function: String,
        args: Vec<Value>,
    ) -> (r: Result<Invocation, Error>)
        requires
            self.wf(),
        ensures
            r == prepare_step(self@, deployer, code, salt, function, args),
    {
        let instance = InstanceIdentity::derive(deployer, salt);
        if self.instance_exists(&instance) {
            Err(Error::IdentityCollision)
        } else {
            Ok(Invocation { instance, code, function, args })
        }
    }

    /// Ends a deployment with what the initializer returned: records the
    /// instance and hands the result on, or leaves the factory as it was.
    pub fn complete(
        &mut self,
        instance: InstanceIdentity,
        code: [u8; 32],
        outcome: Result<Value, Error>,
    ) -> (r: Result<(InstanceIdentity, Value), Error>)
        requires
            old(self).wf(),
        ensures
            final(self).wf(),
            final(self)@ == complete_step(old(self)@, instance, code, outcome).state,
            r == complete_step(old(self)@, instance, code, outcome).result,
            r is Err ==> *final(self) == *old(self),
    {
        if self.instance_exists(&instance) {
            return Err(Error::IdentityCollision);
        }
        match outcome {
            Ok(value) => {
                self.instances.set(instance.clone(), code);
                Ok((instance, value))
            },
            Err(_) => Err(Error::InitializerFailed),
        }
    }

    /// Deploys an instance of `code` for `deployer` and `salt`: derives its
    /// identity, refuses if an instance exists there, and else has
    /// `initializer` invoke `function` with `args` on the new instance. The
    /// instance exists afterwards exactly if the initializer succeeded.
    pub fn deploy<F: FnOnce(Invocation) -> Result<Value, Error>>(
        &mut self,
        deployer: Identity,
        code: [u8; 32],
        salt: [u8; 32],
        function: String,
        args: Vec<Value>,
        initializer: F,
    ) -> (r: Result<(InstanceIdentity, Value), Error>)
        requires
            old(self).wf(),
            forall|invocation: Invocation| initializer.requires((invocation,)),
        ensures
            final(self).wf(),
            match prepare_step(old(self)@, deployer, code, salt, function, args) {
                Err(e) => r == Err::<(InstanceIdentity, Value), Error>(e) && *final(self) == *old(
                    self,
                ),
                Ok(invocation) => exists|outcome: Result<Value, Error>|
                    {
                        &&& initializer.ensures((invocation,), outcome)
                        &&& final(self)@ == #[trigger] complete_step(
                            old(self)@,
                            invocation.instance,
                            code,
                            outcome,
                        ).state
                        &&& r == complete_step(old(self)@, invocation.instance, code, outcome).result
                    },
            },
            r is Err ==> *final(self) == *old(self),
    {
        match self.prepare(deployer, code, salt, function, args) {
            Err(e) => Err(e),
            Ok(invocation) => {
                let instance = invocation.instance.clone();
                let outcome = initializer(invocation);
                self.complete(instance, code, outcome)
            },
        }
    }
}

} // verus!
