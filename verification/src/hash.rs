//! Hash algorithms and object ids (`hash.h`).
use vstd::prelude::*;

verus! {

/// Room for the largest hash: an object id always holds this many bytes.
pub const GIT_MAX_RAWSZ: usize = 32;

/// The hash algorithms a repository may use.
#[allow(non_camel_case_types)]
#[derive(Debug, Clone, Copy, PartialEq, Eq, Structural)]
pub enum HashAlgorithm {
    SHA1,
    SHA256,
}

impl HashAlgorithm {
    /// Length of a hash in bytes.
    pub open spec fn spec_rawsz(self) -> nat {
        match self {
            HashAlgorithm::SHA1 => 20,
            HashAlgorithm::SHA256 => 32,
        }
    }

    /// Length of a hash in hexadecimal digits.
    pub open spec fn spec_hexsz(self) -> nat {
        2 * self.spec_rawsz()
    }

    /// The number git stores for this algorithm in an object id.
    pub open spec fn spec_format_id(self) -> i32 {
        match self {
            HashAlgorithm::SHA1 => 1,
            HashAlgorithm::SHA256 => 2,
        }
    }

    /// Length of a hash in bytes.
    pub fn rawsz(&self) -> (n: usize)
        ensures
            n == self.spec_rawsz(),
    {
        match self {
            HashAlgorithm::SHA1 => 20,
            HashAlgorithm::SHA256 => 32,
        }
    }

    /// Length of a hash in hexadecimal digits.
    pub fn hexsz(&self) -> (n: usize)
        ensures
            n == self.spec_hexsz(),
    {
        match self {
            HashAlgorithm::SHA1 => 40,
            HashAlgorithm::SHA256 => 64,
        }
    }

    /// The number git stores for this algorithm in an object id.
    pub fn format_id(&self) -> (id: i32)
        ensures
            id == self.spec_format_id(),
    {
        match self {
            HashAlgorithm::SHA1 => 1,
            HashAlgorithm::SHA256 => 2,
        }
    }

    /// The algorithm with the given number, if any.
    pub fn from_format_id(id: i32) -> (algo: Option<HashAlgorithm>)
        ensures
            algo matches Some(a) ==> a.spec_format_id() == id,
            algo is None <==> (id != 1 && id != 2),
    {
        if id == 1 {
            Some(HashAlgorithm::SHA1)
        } else if id == 2 {
            Some(HashAlgorithm::SHA256)
        } else {
            None
        }
    }

    /// The algorithm whose hashes have the given number of hexadecimal
    /// digits, if any.
    pub fn from_hexsz(hexsz: usize) -> (algo: Option<HashAlgorithm>)
        ensures
            algo matches Some(a) ==> a.spec_hexsz() == hexsz,
            algo is None <==> (hexsz != 40 && hexsz != 64),
    {
        if hexsz == 40 {
            Some(HashAlgorithm::SHA1)
        } else if hexsz == 64 {
            Some(HashAlgorithm::SHA256)
        } else {
            None
        }
    }

    /// The all-zero object id of this algorithm.
    pub fn null_oid(&self) -> (oid: ObjectID)
        ensures
            oid@ == spec_null_oid(*self),
    {
        let mut hash: Vec<u8> = Vec::new();
        let mut i: usize = 0;
        while i < GIT_MAX_RAWSZ
            invariant
                i <= GIT_MAX_RAWSZ,
                hash@.len() == i,
                forall|j: int| 0 <= j < i ==> hash@[j] == 0u8,
            decreases GIT_MAX_RAWSZ - i,
        {
            hash.push(0u8);
            i = i + 1;
        }
        assert(hash@ =~= Seq::new(GIT_MAX_RAWSZ as nat, |j: int| 0u8));
        ObjectID { hash, algo: *self }
    }
}

/// What an object id holds: its `GIT_MAX_RAWSZ` hash bytes and its algorithm.
pub type ObjectIDView = (Seq<u8>, HashAlgorithm);

/// The all-zero object id of an algorithm.
pub open spec fn spec_null_oid(algo: HashAlgorithm) -> ObjectIDView {
    (Seq::new(GIT_MAX_RAWSZ as nat, |i: int| 0u8), algo)
}

/// An object id in canonical form: the bytes past the algorithm's hash
/// length are zero, as git leaves them.
pub open spec fn oid_is_canonical(oid: ObjectIDView) -> bool {
    &&& oid.0.len() == GIT_MAX_RAWSZ
    &&& forall|i: int| oid.1.spec_rawsz() <= i < GIT_MAX_RAWSZ ==> oid.0[i] == 0u8
}

/// An object id (`struct object_id`): a hash buffer of `GIT_MAX_RAWSZ` bytes
/// and the algorithm that produced it.
pub struct ObjectID {
    hash: Vec<u8>,
    algo: HashAlgorithm,
}

impl View for ObjectID {
    type V = ObjectIDView;

    closed spec fn view(&self) -> ObjectIDView {
        (self.hash@, self.algo)
    }
}

impl ObjectID {
    #[verifier::type_invariant]
    spec fn inv(self) -> bool {
        self.hash@.len() == GIT_MAX_RAWSZ
    }

    /// An object id from its algorithm and a hash buffer of exactly
    /// `GIT_MAX_RAWSZ` bytes; `None` for a buffer of another length.
    pub fn from_bytes(algo: HashAlgorithm, hash: &[u8]) -> (oid: Option<ObjectID>)
        ensures
            oid is Some <==> hash@.len() == GIT_MAX_RAWSZ,
            oid matches Some(o) ==> o@ == (hash@, algo),
    {
        if hash.len() == GIT_MAX_RAWSZ {
            let v = vstd::slice::slice_to_vec(hash);
            Some(ObjectID { hash: v, algo })
        } else {
            None
        }
    }

    /// The hash buffer.
    pub fn hash_bytes(&self) -> (bytes: &[u8])
        ensures
            bytes@ == self@.0,
            bytes@.len() == GIT_MAX_RAWSZ,
    {
        proof {
            use_type_invariant(self);
        }
        self.hash.as_slice()
    }

    /// The algorithm.
    pub fn algo(&self) -> (algo: HashAlgorithm)
        ensures
            algo == self@.1,
    {
        self.algo
    }

    /// A copy of this object id.
    pub fn clone_id(&self) -> (oid: ObjectID)
        ensures
            oid@ == self@,
    {
        proof {
            use_type_invariant(self);
        }
        ObjectID { hash: self.hash.clone(), algo: self.algo }
    }

    /// Whether two object ids are the same: same algorithm, same bytes.
    pub fn same_as(&self, other: &ObjectID) -> (b: bool)
        ensures
            b == (self@ == other@),
    {
        proof {
            use_type_invariant(self);
            use_type_invariant(other);
        }
        if self.algo != other.algo {
            return false;
        }
        let mut i: usize = 0;
        while i < GIT_MAX_RAWSZ
            invariant
                i <= GIT_MAX_RAWSZ,
                self.hash@.len() == GIT_MAX_RAWSZ,
                other.hash@.len() == GIT_MAX_RAWSZ,
                forall|j: int| 0 <= j < i ==> self.hash@[j] == other.hash@[j],
            decreases GIT_MAX_RAWSZ - i,
        {
            if self.hash[i] != other.hash[i] {
                return false;
            }
            i = i + 1;
        }
        assert(self.hash@ =~= other.hash@);
        true
    }

    /// Whether this is the all-zero object id of its algorithm.
    pub fn is_null(&self) -> (b: bool)
        ensures
            b == (self@ == spec_null_oid(self@.1)),
    {
        let null = self.algo.null_oid();
        self.same_as(&null)
    }
}

} // verus!
