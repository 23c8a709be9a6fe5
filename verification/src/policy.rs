//! Policy verdicts: the kinds of violation the policy reasoner reports, and
//! the registry of signers whose keys vouch for manifests.

use vstd::prelude::*;

verus! {

/// Why a component was denied.
#[derive(Debug, Clone, Copy, PartialEq, Eq, Structural)]
pub enum ViolationKind {
    /// An import that no exporter, kernel primitive or grant provides.
    UnresolvedCapability,
    /// An effect that the component's trust level forbids.
    ForbiddenEffect,
    /// A `:dma` effect without a required and granted IOMMU.
    DmaWithoutIommu,
    /// A manifest signature that is malformed, unregistered or does not verify.
    BadSignature,
}

/// The text of each violation kind.
pub open spec fn violation_label(k: ViolationKind) -> Seq<char> {
    match k {
        ViolationKind::UnresolvedCapability => "unresolved-capability"@,
        ViolationKind::ForbiddenEffect => "forbidden-effect"@,
        ViolationKind::DmaWithoutIommu => "dma-without-iommu"@,
        ViolationKind::BadSignature => "bad-signature"@,
    }
}

impl ViolationKind {
    /// The text that names this kind of violation.
    pub fn label(self) -> (r: &'static str)
        ensures
            r@ == violation_label(self),
    {
        match self {
            ViolationKind::UnresolvedCapability => "unresolved-capability",
            ViolationKind::ForbiddenEffect => "forbidden-effect",
            ViolationKind::DmaWithoutIommu => "dma-without-iommu",
            ViolationKind::BadSignature => "bad-signature",
        }
    }
}

/// One reason a component was denied.
#[derive(Debug, Clone)]
pub struct Violation {
    pub component: String,
    pub kind: ViolationKind,
    pub message: String,
}

/// The registry of signers that manifest signatures are checked against:
/// each signer id maps to that signer's ed25519 public key, in hex.
#[derive(Debug)]
pub struct Policy {
    signers: Vec<(String, String)>,
}

/// The key registered for `signer` among the entries: the first with that id.
pub open spec fn signer_key(signers: Seq<(String, String)>, signer: Seq<char>) -> Option<Seq<char>>
    decreases signers.len(),
{
    if signers.len() == 0 {
        None
    } else if signers[0].0@ == signer {
        Some(signers[0].1@)
    } else {
        signer_key(signers.drop_first(), signer)
    }
}

/// No signer id occurs twice among the entries.
pub open spec fn ids_unique(signers: Seq<(String, String)>) -> bool {
    forall|i: int, j: int| 0 <= i < j < signers.len() ==> signers[i].0@ != signers[j].0@
}

/// The registry as a map from signer id to hex key.
pub open spec fn registry(signers: Seq<(String, String)>) -> Map<Seq<char>, Seq<char>> {
    Map::new(|n: Seq<char>| signer_key(signers, n) is Some, |n: Seq<char>| signer_key(signers, n).unwrap())
}

/// With unique ids, the entry at `i` is what its id maps to.
proof fn lemma_key_at(signers: Seq<(String, String)>, i: int)
    requires
        ids_unique(signers),
        0 <= i < signers.len(),
    ensures
        signer_key(signers, signers[i].0@) == Some(signers[i].1@),
    decreases signers.len(),
{
    if i > 0 {
        lemma_key_at(signers.drop_first(), i - 1);
    }
}

/// An id that no entry holds maps to nothing.
proof fn lemma_key_absent(signers: Seq<(String, String)>, n: Seq<char>)
    requires
        forall|i: int| 0 <= i < signers.len() ==> signers[i].0@ != n,
    ensures
        signer_key(signers, n) is None,
    decreases signers.len(),
{
    if signers.len() > 0 {
        lemma_key_absent(signers.drop_first(), n);
    }
}

/// With unique ids, an id maps to the key of the one entry that holds it.
proof fn lemma_key_of(signers: Seq<(String, String)>, n: Seq<char>)
    requires
        ids_unique(signers),
    ensures
        match signer_key(signers, n) {
            Some(k) => exists|i: int| 0 <= i < signers.len() && signers[i].0@ == n && signers[i].1@ == k,
            None => forall|i: int| 0 <= i < signers.len() ==> signers[i].0@ != n,
        },
{
    if exists|i: int| 0 <= i < signers.len() && signers[i].0@ == n {
        let i = choose|i: int| 0 <= i < signers.len() && signers[i].0@ == n;
        lemma_key_at(signers, i);
    } else {
        lemma_key_absent(signers, n);
    }
}

impl View for Policy {
    type V = Map<Seq<char>, Seq<char>>;

    closed spec fn view(&self) -> Map<Seq<char>, Seq<char>> {
        registry(self.signers@)
    }
}

impl Policy {
    #[verifier::type_invariant]
    closed spec fn unique_ids(self) -> bool {
        ids_unique(self.signers@)
    }

    /// A registry with no signer.
    pub fn new() -> (p: Self)
        ensures
            p@ == Map::<Seq<char>, Seq<char>>::empty(),
    {
        let p = Policy { signers: Vec::new() };
        assert(p@ =~= Map::<Seq<char>, Seq<char>>::empty());
        p
    }

    /// Register `key_hex` for `signer`, replacing any key it had.
    pub fn add_signer(&mut self, signer: String, key_hex: String)
        ensures
            final(self)@ == old(self)@.insert(signer@, key_hex@),
    {
        proof {
            use_type_invariant(&*self);
        }
        let ghost old_s = self.signers@;
        let mut signers: Vec<(String, String)> = Vec::new();
        std::mem::swap(&mut signers, &mut self.signers);
        let n = signers.len();
        let mut i: usize = 0;
        while i < n
            invariant
                n == signers@.len(),
                signers@ == old_s,
                i <= n,
                forall|j: int| 0 <= j < i ==> old_s[j].0@ != signer@,
            ensures
                i <= n,
                forall|j: int| 0 <= j < i ==> old_s[j].0@ != signer@,
                i < n ==> old_s[i as int].0@ == signer@,
            decreases n - i,
        {
            if crate::text::str_eq(signers[i].0.as_str(), signer.as_str()) {
                break;
            }
            i = i + 1;
        }
        let ghost found = i < n;
        if i < n {
            signers.set(i, (signer, key_hex));
        } else {
            signers.push((signer, key_hex));
        }
        proof {
            let new_s = signers@;
            assert(ids_unique(new_s)) by {
                assert forall|a: int, b: int| 0 <= a < b < new_s.len() implies new_s[a].0@ != new_s[b].0@ by {
                    if found {
                        if a != i && b != i {
                            assert(new_s[a] == old_s[a] && new_s[b] == old_s[b]);
                        } else if a == i {
                            assert(new_s[b] == old_s[b]);
                            assert(old_s[a].0@ == signer@);
                        } else {
                            assert(new_s[a] == old_s[a]);
                            assert(old_s[b].0@ == signer@);
                        }
                    } else if b == n {
                        assert(new_s[a] == old_s[a]);
                    } else {
                        assert(new_s[a] == old_s[a] && new_s[b] == old_s[b]);
                    }
                }
            }
            assert forall|m: Seq<char>| #![trigger registry(new_s).dom().contains(m)]
                registry(new_s).dom().contains(m) == registry(old_s).insert(signer@, key_hex@).dom().contains(m)
                && (registry(new_s).dom().contains(m) ==> registry(new_s)[m] == registry(old_s).insert(signer@, key_hex@)[m]) by {
                lemma_key_of(old_s, m);
                lemma_key_of(new_s, m);
                if m == signer@ {
                    let idx: int = if found { i as int } else { n as int };
                    lemma_key_at(new_s, idx);
                } else {
                    match signer_key(new_s, m) {
                        Some(k) => {
                            let j = choose|j: int| 0 <= j < new_s.len() && new_s[j].0@ == m && new_s[j].1@ == k;
                            assert(old_s[j] == new_s[j]);
                            lemma_key_at(old_s, j);
                        },
                        None => {
                            if let Some(k) = signer_key(old_s, m) {
                                let j = choose|j: int| 0 <= j < old_s.len() && old_s[j].0@ == m && old_s[j].1@ == k;
                                assert(new_s[j] == old_s[j]);
                            }
                        },
                    }
                }
            }
            assert(registry(new_s) =~= registry(old_s).insert(signer@, key_hex@));
        }
        self.signers = signers;
    }

    /// The hex key registered for `signer`, if any.
    pub fn signer_key(&self, signer: &str) -> (r: Option<&String>)
        ensures
            match r {
                Some(k) => self@.contains_key(signer@) && self@[signer@] == k@,
                None => !self@.contains_key(signer@),
            },
    {
        let n = self.signers.len();
        let mut i: usize = 0;
        assert(self.signers@.skip(0) =~= self.signers@);
        while i < n
            invariant
                n == self.signers@.len(),
                i <= n,
                signer_key(self.signers@, signer@) == signer_key(self.signers@.skip(i as int), signer@),
            decreases n - i,
        {
            assert(self.signers@.skip(i as int).drop_first() =~= self.signers@.skip(i + 1));
            if crate::text::str_eq(self.signers[i].0.as_str(), signer) {
                return Some(&self.signers[i].1);
            }
            i = i + 1;
        }
        None
    }
}

} // verus!
