use vstd::prelude::*;

verus! {

/// A 32-byte on-chain object identifier.
#[derive(Clone, Copy, Debug, PartialEq, Eq)]
pub struct ObjectId {
    pub bytes: [u8; 32],
}

/// A 32-byte transaction digest; also the pagination cursor of the history API.
#[derive(Clone, Copy, Debug, PartialEq, Eq)]
pub struct TxDigest {
    pub bytes: [u8; 32],
}

/// How one transaction affected one object. Every variant carries the object's
/// identifier and the object's version after the change.
#[derive(Clone, Copy, Debug, PartialEq, Eq)]
pub enum ObjectChange {
    Published { package_id: ObjectId, version: u64 },
    Created { object_id: ObjectId, version: u64 },
    Mutated { object_id: ObjectId, version: u64 },
    Transferred { object_id: ObjectId, version: u64 },
    Deleted { object_id: ObjectId, version: u64 },
    Wrapped { object_id: ObjectId, version: u64 },
}

impl ObjectChange {
    pub open spec fn id_spec(self) -> ObjectId {
        match self {
            ObjectChange::Published { package_id, .. } => package_id,
            ObjectChange::Created { object_id, .. } => object_id,
            ObjectChange::Mutated { object_id, .. } => object_id,
            ObjectChange::Transferred { object_id, .. } => object_id,
            ObjectChange::Deleted { object_id, .. } => object_id,
            ObjectChange::Wrapped { object_id, .. } => object_id,
        }
    }

    pub open spec fn version_spec(self) -> u64 {
        match self {
            ObjectChange::Published { version, .. } => version,
            ObjectChange::Created { version, .. } => version,
            ObjectChange::Mutated { version, .. } => version,
            ObjectChange::Transferred { version, .. } => version,
            ObjectChange::Deleted { version, .. } => version,
            ObjectChange::Wrapped { version, .. } => version,
        }
    }

    /// Only publications, creations and mutations carry an object state worth
    /// fetching.
    pub open spec fn needs_fetch_spec(self) -> bool {
        match self {
            ObjectChange::Published { .. } => true,
            ObjectChange::Created { .. } => true,
            ObjectChange::Mutated { .. } => true,
            _ => false,
        }
    }

    /// The identifier of the affected object (the package, for a publication).
    pub fn object_id(&self) -> (r: ObjectId)
        ensures
            r == self.id_spec(),
    {
        match self {
            ObjectChange::Published { package_id, .. } => *package_id,
            ObjectChange::Created { object_id, .. } => *object_id,
            ObjectChange::Mutated { object_id, .. } => *object_id,
            ObjectChange::Transferred { object_id, .. } => *object_id,
            ObjectChange::Deleted { object_id, .. } => *object_id,
            ObjectChange::Wrapped { object_id, .. } => *object_id,
        }
    }

    /// The object's version after the change.
    pub fn version(&self) -> (r: u64)
        ensures
            r == self.version_spec(),
    {
        match self {
            ObjectChange::Published { version, .. } => *version,
            ObjectChange::Created { version, .. } => *version,
            ObjectChange::Mutated { version, .. } => *version,
            ObjectChange::Transferred { version, .. } => *version,
            ObjectChange::Deleted { version, .. } => *version,
            ObjectChange::Wrapped { version, .. } => *version,
        }
    }
}

/// The request for an object's state as of one version.
#[derive(Clone, Copy, Debug, PartialEq, Eq)]
pub struct PastObjectRequest {
    pub object_id: ObjectId,
    pub version: u64,
}

/// One change event flowing through the pipeline: the transaction that made the
/// change, the change itself, and, once resolved, the object's state at the
/// change's version. `O` is the object representation of the chain client.
#[derive(Clone, Debug)]
pub struct ObjectSnapshot<O> {
    pub digest: TxDigest,
    pub change: ObjectChange,
    pub object: Option<O>,
}

impl<O> ObjectSnapshot<O> {
    /// A fresh event, with no object resolved yet.
    pub fn new(digest: TxDigest, change: ObjectChange) -> (r: Self)
        ensures
            r.digest == digest,
            r.change == change,
            r.object is None,
    {
        ObjectSnapshot { digest, change, object: None }
    }

    /// The version the change produced.
    pub fn get_change_version(&self) -> (r: u64)
        ensures
            r == self.change.version_spec(),
    {
        self.change.version()
    }

    /// The request for the object's state at the change's version.
    pub fn get_past_object_request(&self) -> (r: PastObjectRequest)
        ensures
            r.object_id == self.change.id_spec(),
            r.version == self.change.version_spec(),
    {
        PastObjectRequest { object_id: self.change.object_id(), version: self.get_change_version() }
    }

    /// True for transfers, deletions and wrappings: no object state is fetched
    /// for them.
    pub fn skip_fetching_object(&self) -> (r: bool)
        ensures
            r == !self.change.needs_fetch_spec(),
    {
        match &self.change {
            ObjectChange::Published { .. } | ObjectChange::Created { .. } | ObjectChange::Mutated {
                ..
            } => false,
            _ => true,
        }
    }
}

/// Whether a stage succeeded for one item.
#[derive(Clone, Copy, Debug, PartialEq, Eq)]
pub enum StepStatus {
    Succeeded,
    Failed,
}

impl StepStatus {
    /// The status's short name, "Ok" or "Err".
    pub fn name(&self) -> (r: &'static str)
        ensures
            r@ == (if *self is Succeeded { "Ok"@ } else { "Err"@ }),
    {
        proof {
            reveal_strlit("Ok");
            reveal_strlit("Err");
        }
        match self {
            StepStatus::Succeeded => "Ok",
            StepStatus::Failed => "Err",
        }
    }
}

} // verus!
