//! Encoded transactions with their signatures: an immutable snapshot that signing copies
//! only when it adds a signature.
use vstd::prelude::*;

use crate::text::bytes_equal;

verus! {

/// A public key and its signature over a transaction body.
#[derive(Clone, Debug, PartialEq, Eq)]
pub struct SignaturePair {
    pub public_key: Vec<u8>,
    pub signature: Vec<u8>,
}

impl View for SignaturePair {
    type V = (Seq<u8>, Seq<u8>);

    open spec fn view(&self) -> (Seq<u8>, Seq<u8>) {
        (self.public_key@, self.signature@)
    }
}

/// The encoded body of one transaction and the signatures over it.
#[derive(Clone, Debug, PartialEq, Eq)]
pub struct SignedTransaction {
    pub body_bytes: Vec<u8>,
    pub signatures: Vec<SignaturePair>,
}

impl View for SignedTransaction {
    type V = (Seq<u8>, Seq<(Seq<u8>, Seq<u8>)>);

    open spec fn view(&self) -> (Seq<u8>, Seq<(Seq<u8>, Seq<u8>)>) {
        (self.body_bytes@, self.signatures@.map_values(|p: SignaturePair| p@))
    }
}

/// The public keys that have signed, in order.
pub open spec fn signer_keys(t: (Seq<u8>, Seq<(Seq<u8>, Seq<u8>)>)) -> Seq<Seq<u8>> {
    t.1.map_values(|p: (Seq<u8>, Seq<u8>)| p.0)
}

/// Signer `i` adds a signature: its key has not signed and no earlier signer has its key.
pub open spec fn is_new_signer(keys: Seq<Seq<u8>>, signers: Seq<Seq<u8>>, i: int) -> bool {
    &&& !keys.contains(signers[i])
    &&& forall|j: int| 0 <= j < i ==> signers[j] != signers[i]
}

/// The signers among the first `n` that add a signature, in order.
pub open spec fn new_signers_upto(keys: Seq<Seq<u8>>, signers: Seq<Seq<u8>>, n: nat) -> Seq<int>
    decreases n,
{
    if n == 0 {
        Seq::empty()
    } else if is_new_signer(keys, signers, n - 1) {
        new_signers_upto(keys, signers, (n - 1) as nat).push(n - 1)
    } else {
        new_signers_upto(keys, signers, (n - 1) as nat)
    }
}

/// The signers that add a signature, in order.
pub open spec fn new_signers(keys: Seq<Seq<u8>>, signers: Seq<Seq<u8>>) -> Seq<int> {
    new_signers_upto(keys, signers, signers.len())
}

/// The keys that have signed once the signers have signed.
pub open spec fn signed_keys(keys: Seq<Seq<u8>>, signers: Seq<Seq<u8>>) -> Seq<Seq<u8>> {
    keys + new_signers(keys, signers).map_values(|m: int| signers[m])
}

/// The public keys of a list of signers.
pub open spec fn keys_of(signers: Seq<Vec<u8>>) -> Seq<Seq<u8>> {
    signers.map_values(|v: Vec<u8>| v@)
}

/// The kind of a public key, which decides the field its signature travels in.
#[derive(Clone, Copy, Debug, PartialEq, Eq, Structural)]
pub enum KeyKind {
    Ed25519,
    Ecdsa,
}

/// The kind of a raw public key: 32 bytes are Ed25519, anything else a compressed ECDSA key.
pub fn key_kind(public_key: &Vec<u8>) -> (r: KeyKind)
    ensures
        r == (if public_key@.len() == 32 {
            KeyKind::Ed25519
        } else {
            KeyKind::Ecdsa
        }),
{
    if public_key.len() == 32 {
        KeyKind::Ed25519
    } else {
        KeyKind::Ecdsa
    }
}

/// Whether two transactions carry signatures by the same keys in the same order.
fn same_keys(a: &SignedTransaction, b: &SignedTransaction) -> (r: bool)
    ensures
        r == (signer_keys(a@) == signer_keys(b@)),
{
    let ghost ka = signer_keys(a@);
    let ghost kb = signer_keys(b@);
    if a.signatures.len() != b.signatures.len() {
        assert(ka.len() != kb.len());
        return false;
    }
    let mut k: usize = 0;
    while k < a.signatures.len()
        invariant
            ka == signer_keys(a@),
            kb == signer_keys(b@),
            a.signatures@.len() == b.signatures@.len(),
            k <= a.signatures@.len(),
            forall|m: int| 0 <= m < k ==> ka[m] == kb[m],
        decreases a.signatures@.len() - k,
    {
        assert(ka[k as int] == a.signatures@[k as int].public_key@);
        assert(kb[k as int] == b.signatures@[k as int].public_key@);
        if !bytes_equal(&a.signatures[k].public_key, &b.signatures[k].public_key) {
            return false;
        }
        k = k + 1;
    }
    assert(ka =~= kb);
    true
}

/// An immutable, shareable snapshot of encoded transactions (one per node and chunk) and
/// their signatures. Every transaction in it carries signatures by the same keys, in the
/// same order.
#[derive(Clone, Debug)]
pub struct TransactionSources {
    transactions: Vec<SignedTransaction>,
}

/// What signing a snapshot came to.
#[derive(Clone, Debug)]
pub enum SignOutcome {
    /// Every signer had signed already: the snapshot stands as it was.
    Unchanged,
    /// A new snapshot, with the added signatures.
    Signed(TransactionSources),
}

impl View for TransactionSources {
    type V = Seq<(Seq<u8>, Seq<(Seq<u8>, Seq<u8>)>)>;

    closed spec fn view(&self) -> Seq<(Seq<u8>, Seq<(Seq<u8>, Seq<u8>)>)> {
        self.transactions@.map_values(|t: SignedTransaction| t@)
    }
}

impl TransactionSources {
    pub open spec fn wf(&self) -> bool {
        &&& self@.len() > 0
        &&& forall|j: int| 0 <= j < self@.len() ==> signer_keys(#[trigger] self@[j]) == signer_keys(
            self@[0],
        )
    }

    /// The keys that have signed the snapshot.
    pub open spec fn keys(&self) -> Seq<Seq<u8>> {
        signer_keys(self@[0])
    }

    /// The signature bytes of pair `k` of transaction `j`.
    pub closed spec fn signature_at(&self, j: int, k: int) -> Vec<u8> {
        self.transactions@[j].signatures@[k].signature
    }

    /// A snapshot of the given bodies, with no signatures yet.
    pub fn from_bodies(bodies: Vec<Vec<u8>>) -> (r: TransactionSources)
        requires
            bodies@.len() > 0,
        ensures
            r.wf(),
            r@.len() == bodies@.len(),
            forall|j: int|
                0 <= j < bodies@.len() ==> (#[trigger] r@[j]).0 == bodies@[j]@ && r@[j].1.len()
                    == 0,
    {
        let mut transactions: Vec<SignedTransaction> = Vec::new();
        let mut bodies = bodies;
        let ghost all = bodies@;
        let n = bodies.len();
        let mut i: usize = 0;
        while i < n
            invariant
                n == all.len(),
                i <= n,
                bodies@ == all.subrange(i as int, n as int),
                transactions@.len() == i,
                forall|j: int|
                    0 <= j < i ==> (#[trigger] transactions@[j]).body_bytes@ == all[j]@
                        && transactions@[j].signatures@.len() == 0,
            decreases n - i,
        {
            let body = bodies.remove(0);
            transactions.push(SignedTransaction { body_bytes: body, signatures: Vec::new() });
            i = i + 1;
            assert(bodies@ =~= all.subrange(i as int, n as int));
        }
        let r = TransactionSources { transactions };
        assert forall|j: int| 0 <= j < r@.len() implies signer_keys(#[trigger] r@[j]) == signer_keys(
            r@[0],
        ) by {
            assert(signer_keys(r@[j]) =~= Seq::<Seq<u8>>::empty());
            assert(signer_keys(r@[0]) =~= Seq::<Seq<u8>>::empty());
        }
        r
    }

    /// A snapshot of transactions that already carry signatures, when there is at least one
    /// and all carry signatures by the same keys in the same order.
    pub fn new(transactions: Vec<SignedTransaction>) -> (r: Option<TransactionSources>)
        ensures
            r is Some <==> (transactions@.len() > 0 && forall|j: int|
                0 <= j < transactions@.len() ==> signer_keys(#[trigger] transactions@[j]@)
                    == signer_keys(transactions@[0]@)),
            r matches Some(s) ==> s@ == transactions@.map_values(|t: SignedTransaction| t@),
    {
        if transactions.len() == 0 {
            return None;
        }
        let mut j: usize = 1;
        while j < transactions.len()
            invariant
                1 <= j <= transactions@.len(),
                forall|t: int| 0 <= t < j ==> signer_keys(#[trigger] transactions@[t]@) == signer_keys(
                    transactions@[0]@,
                ),
            decreases transactions@.len() - j,
        {
            if !same_keys(&transactions[j], &transactions[0]) {
                return None;
            }
            j = j + 1;
        }
        let r = TransactionSources { transactions };
        assert forall|t: int| 0 <= t < r@.len() implies signer_keys(#[trigger] r@[t]) == signer_keys(
            r@[0],
        ) by {
            assert(r@[t] == r.transactions@[t]@);
        }
        Some(r)
    }

    /// The transactions of the snapshot.
    pub fn transactions(&self) -> (r: &Vec<SignedTransaction>)
        ensures
            r@.map_values(|t: SignedTransaction| t@) == self@,
    {
        &self.transactions
    }

    /// Whether `key` has signed the snapshot.
    fn has_signed(&self, key: &Vec<u8>) -> (r: bool)
        requires
            self.wf(),
        ensures
            r == self.keys().contains(key@),
    {
        let pairs = &self.transactions[0].signatures;
        let ghost keys = self.keys();
        assert(keys.len() == pairs@.len());
        let mut k: usize = 0;
        while k < pairs.len()
            invariant
                keys == self.keys(),
                keys.len() == pairs@.len(),
                pairs == &self.transactions@[0].signatures,
                forall|m: int| 0 <= m < pairs@.len() ==> keys[m] == #[trigger] pairs@[m].public_key@,
                k <= pairs@.len(),
                forall|m: int| 0 <= m < k ==> keys[m] != key@,
            decreases pairs@.len() - k,
        {
            if bytes_equal(&pairs[k].public_key, key) {
                assert(keys[k as int] == key@);
                return true;
            }
            k = k + 1;
        }
        false
    }

    /// The signers that add a signature, in order.
    fn new_signer_indices(&self, signers: &Vec<Vec<u8>>) -> (r: Vec<usize>)
        requires
            self.wf(),
        ensures
            r@.map_values(|i: usize| i as int) == new_signers(self.keys(), keys_of(signers@)),
    {
        let ghost keys = self.keys();
        let ghost sv = keys_of(signers@);
        let mut r: Vec<usize> = Vec::new();
        let mut i: usize = 0;
        while i < signers.len()
            invariant
                self.wf(),
                keys == self.keys(),
                sv == keys_of(signers@),
                i <= signers@.len(),
                r@.map_values(|i: usize| i as int) == new_signers_upto(keys, sv, i as nat),
            decreases signers@.len() - i,
        {
            let mut fresh = !self.has_signed(&signers[i]);
            assert(sv[i as int] == signers@[i as int]@);
            let mut j: usize = 0;
            while j < i
                invariant
                    i < signers@.len(),
                    sv == keys_of(signers@),
                    j <= i,
                    fresh == (!keys.contains(sv[i as int]) && forall|m: int|
                        0 <= m < j ==> sv[m] != sv[i as int]),
                decreases i - j,
            {
                assert(sv[j as int] == signers@[j as int]@ && sv[i as int] == signers@[i as int]@);
                if bytes_equal(&signers[j], &signers[i]) {
                    fresh = false;
                }
                j = j + 1;
            }
            assert(fresh == is_new_signer(keys, sv, i as int));
            if fresh {
                r.push(i);
            }
            assert(r@.map_values(|i: usize| i as int) =~= new_signers_upto(keys, sv, (i + 1) as nat));
            i = i + 1;
        }
        r
    }

    /// Signs every transaction of the snapshot with each signer whose key has not signed.
    ///
    /// `sign(i, j)` is signer `i`'s signature over the body of transaction `j`. When no
    /// signer adds a signature the snapshot is left as it is; otherwise a new snapshot holds
    /// the old signatures followed by the new ones, and this one is not touched.
    pub fn sign_with<F: Fn(usize, usize) -> Vec<u8>>(&self, signers: &Vec<Vec<u8>>, sign: F) -> (r:
        SignOutcome)
        requires
            self.wf(),
            forall|i: usize, j: usize| #[trigger] sign.requires((i, j)),
        ensures
            r is Unchanged <==> new_signers(self.keys(), keys_of(signers@)).len() == 0,
            r matches SignOutcome::Signed(s) ==> {
                let idx = new_signers(self.keys(), keys_of(signers@));
                &&& s.wf()
                &&& s@.len() == self@.len()
                &&& s.keys() == signed_keys(self.keys(), keys_of(signers@))
                &&& forall|j: int|
                    0 <= j < s@.len() ==> {
                        &&& (#[trigger] s@[j]).0 == self@[j].0
                        &&& s@[j].1.len() == self@[j].1.len() + idx.len()
                        &&& s@[j].1.subrange(0, self@[j].1.len() as int) == self@[j].1
                        &&& forall|m: int|
                            0 <= m < idx.len() ==> sign.ensures(
                                (idx[m] as usize, j as usize),
                                #[trigger] s.signature_at(j, self@[j].1.len() + m),
                            )
                    }
            },
    {
        let idx = self.new_signer_indices(signers);
        let ghost keys = self.keys();
        let ghost sv = keys_of(signers@);
        let ghost gidx = new_signers(keys, sv);
        if idx.len() == 0 {
            assert(gidx.len() == 0);
            return SignOutcome::Unchanged;
        }
        proof {
            lemma_new_signers_in_range(keys, sv, sv.len());
        }
        assert forall|m: int| 0 <= m < idx@.len() implies (#[trigger] idx@[m]) < signers@.len() by {
            assert(gidx[m] == idx@[m] as int);
        }
        let n = self.transactions.len();
        let mut out: Vec<SignedTransaction> = Vec::new();
        let mut j: usize = 0;
        while j < n
            invariant
                self.wf(),
                n == self@.len(),
                keys == self.keys(),
                sv == keys_of(signers@),
                gidx == new_signers(keys, sv),
                idx@.map_values(|i: usize| i as int) == gidx,
                forall|m: int| 0 <= m < gidx.len() ==> 0 <= #[trigger] gidx[m] < sv.len(),
                forall|m: int| 0 <= m < idx@.len() ==> (#[trigger] idx@[m]) < signers@.len(),
                forall|i: usize, j: usize| #[trigger] sign.requires((i, j)),
                j <= n,
                out@.len() == j,
                forall|t: int|
                    0 <= t < j ==> is_signed_copy(self@[t], #[trigger] out@[t], t, sv, gidx, sign),
            decreases n - j,
        {
            let t = self.signed_copy(j, signers, &idx, &sign);
            out.push(t);
            j = j + 1;
        }
        let s = TransactionSources { transactions: out };
        assert forall|t: int| 0 <= t < s@.len() implies (#[trigger] s@[t]).0 == self@[t].0 && s@[
            t
        ].1.len() == self@[t].1.len() + gidx.len() && s@[t].1.subrange(0, self@[t].1.len() as int)
            == self@[t].1 && signer_keys(s@[t]) == signed_keys(keys, sv) && forall|m: int|
            0 <= m < gidx.len() ==> sign.ensures(
                (gidx[m] as usize, t as usize),
                #[trigger] s.signature_at(t, self@[t].1.len() + m),
            ) by {
            let o = self@[t];
            let w = out@[t];
            assert(s@[t] == w@);
            assert(signer_keys(o) == keys);
            assert(signer_keys(w@) =~= signed_keys(keys, sv)) by {
                assert forall|k: int| 0 <= k < w@.1.len() implies signer_keys(w@)[k] == signed_keys(
                    keys,
                    sv,
                )[k] by {
                    if k < o.1.len() {
                        assert(w@.1[k] == w@.1.subrange(0, o.1.len() as int)[k]);
                    } else {
                        assert(w@.1[o.1.len() + (k - o.1.len())].0 == sv[gidx[k - o.1.len()]]);
                    }
                }
            }
        }
        SignOutcome::Signed(s)
    }

    /// Transaction `j` with the signatures of the given new signers added.
    fn signed_copy<F: Fn(usize, usize) -> Vec<u8>>(
        &self,
        j: usize,
        signers: &Vec<Vec<u8>>,
        idx: &Vec<usize>,
        sign: &F,
    ) -> (r: SignedTransaction)
        requires
            j < self@.len(),
            forall|m: int| 0 <= m < idx@.len() ==> (#[trigger] idx@[m]) < signers@.len(),
            forall|i: usize, j: usize| #[trigger] sign.requires((i, j)),
        ensures
            is_signed_copy(
                self@[j as int],
                r,
                j as int,
                keys_of(signers@),
                idx@.map_values(|i: usize| i as int),
                *sign,
            ),
    {
        let old = &self.transactions[j];
        let ghost ov = old@;
        let ghost sv = keys_of(signers@);
        let ghost gidx = idx@.map_values(|i: usize| i as int);
        let mut pairs: Vec<SignaturePair> = Vec::new();
        let mut k: usize = 0;
        while k < old.signatures.len()
            invariant
                ov == old@,
                ov == self@[j as int],
                k <= old.signatures@.len(),
                pairs@.map_values(|p: SignaturePair| p@) == ov.1.subrange(0, k as int),
            decreases old.signatures@.len() - k,
        {
            let p = &old.signatures[k];
            assert(ov.1[k as int] == old.signatures@[k as int]@);
            let ghost before = pairs@;
            let np = SignaturePair {
                public_key: p.public_key.clone(),
                signature: p.signature.clone(),
            };
            assert(np@ == ov.1[k as int]);
            pairs.push(np);
            assert(pairs@.map_values(|p: SignaturePair| p@) =~= before.map_values(
                |p: SignaturePair| p@,
            ).push(ov.1[k as int]));
            k = k + 1;
            assert(pairs@.map_values(|p: SignaturePair| p@) =~= ov.1.subrange(0, k as int));
        }
        let base = pairs.len();
        assert(ov.1.subrange(0, base as int) =~= ov.1);
        let mut m: usize = 0;
        while m < idx.len()
            invariant
                ov == self@[j as int],
                base == ov.1.len(),
                sv == keys_of(signers@),
                gidx == idx@.map_values(|i: usize| i as int),
                forall|m: int| 0 <= m < idx@.len() ==> (#[trigger] idx@[m]) < signers@.len(),
                forall|i: usize, j: usize| #[trigger] sign.requires((i, j)),
                m <= idx@.len(),
                pairs@.len() == base + m,
                pairs@.map_values(|p: SignaturePair| p@).subrange(0, base as int) == ov.1,
                forall|q: int|
                    0 <= q < m ==> pairs@[base + q]@.0 == sv[gidx[q]] && sign.ensures(
                        (gidx[q] as usize, j),
                        #[trigger] pairs@[base + q].signature,
                    ),
            decreases idx@.len() - m,
        {
            let i = idx[m];
            let signature = sign(i, j);
            let ghost before = pairs@;
            pairs.push(SignaturePair { public_key: signers[i].clone(), signature });
            assert(pairs@.map_values(|p: SignaturePair| p@).subrange(0, base as int) =~= before.map_values(
                |p: SignaturePair| p@,
            ).subrange(0, base as int));
            m = m + 1;
        }
        let r = SignedTransaction { body_bytes: old.body_bytes.clone(), signatures: pairs };
        assert(r@.1.subrange(0, base as int) == ov.1);
        r
    }
}

/// `new` is `old`, transaction `j`, with a signature by each new signer appended in order.
pub open spec fn is_signed_copy<F: Fn(usize, usize) -> Vec<u8>>(
    old: (Seq<u8>, Seq<(Seq<u8>, Seq<u8>)>),
    new: SignedTransaction,
    j: int,
    sv: Seq<Seq<u8>>,
    idx: Seq<int>,
    sign: F,
) -> bool {
    &&& new@.0 == old.0
    &&& new@.1.len() == old.1.len() + idx.len()
    &&& new@.1.subrange(0, old.1.len() as int) == old.1
    &&& forall|m: int|
        0 <= m < idx.len() ==> new@.1[old.1.len() + m].0 == sv[idx[m]] && sign.ensures(
            (idx[m] as usize, j as usize),
            #[trigger] new.signatures@[old.1.len() + m].signature,
        )
}

proof fn lemma_new_signers_in_range(keys: Seq<Seq<u8>>, signers: Seq<Seq<u8>>, n: nat)
    ensures
        forall|m: int|
            0 <= m < new_signers_upto(keys, signers, n).len() ==> 0 <= #[trigger] new_signers_upto(
                keys,
                signers,
                n,
            )[m] < n,
    decreases n,
{
    if n > 0 {
        lemma_new_signers_in_range(keys, signers, (n - 1) as nat);
        let prev = new_signers_upto(keys, signers, (n - 1) as nat);
        if is_new_signer(keys, signers, n - 1) {
            assert(new_signers_upto(keys, signers, n) == prev.push(n - 1));
        } else {
            assert(new_signers_upto(keys, signers, n) == prev);
        }
    }
}

proof fn lemma_new_signer_listed(keys: Seq<Seq<u8>>, signers: Seq<Seq<u8>>, n: nat, i: int)
    requires
        0 <= i < n,
        is_new_signer(keys, signers, i),
    ensures
        new_signers_upto(keys, signers, n).contains(i),
    decreases n,
{
    let prev = new_signers_upto(keys, signers, (n - 1) as nat);
    if i == n - 1 {
        assert(new_signers_upto(keys, signers, n) == prev.push(i));
        assert(prev.push(i)[prev.len() as int] == i);
    } else {
        lemma_new_signer_listed(keys, signers, (n - 1) as nat, i);
        let k = choose|k: int| 0 <= k < prev.len() && prev[k] == i;
        if is_new_signer(keys, signers, n - 1) {
            assert(prev.push(n - 1)[k] == i);
        }
    }
}

proof fn lemma_signer_in_signed_keys(keys: Seq<Seq<u8>>, signers: Seq<Seq<u8>>, i: int)
    requires
        0 <= i < signers.len(),
    ensures
        signed_keys(keys, signers).contains(signers[i]),
    decreases i,
{
    let idx = new_signers(keys, signers);
    let all = signed_keys(keys, signers);
    if keys.contains(signers[i]) {
        let k = choose|k: int| 0 <= k < keys.len() && keys[k] == signers[i];
        assert(all[k] == signers[i]);
    } else if is_new_signer(keys, signers, i) {
        lemma_new_signer_listed(keys, signers, signers.len(), i);
        let m = choose|m: int| 0 <= m < idx.len() && idx[m] == i;
        assert(all[keys.len() + m] == signers[i]);
    } else {
        let j = choose|j: int| 0 <= j < i && signers[j] == signers[i];
        lemma_signer_in_signed_keys(keys, signers, j);
    }
}

proof fn lemma_no_new_signers(keys: Seq<Seq<u8>>, signers: Seq<Seq<u8>>, n: nat)
    requires
        n <= signers.len(),
        forall|i: int| 0 <= i < n ==> keys.contains(#[trigger] signers[i]),
    ensures
        new_signers_upto(keys, signers, n).len() == 0,
    decreases n,
{
    if n > 0 {
        lemma_no_new_signers(keys, signers, (n - 1) as nat);
        assert(keys.contains(signers[n - 1]));
    }
}

/// Once a snapshot is signed by some signers, signing it again with them adds nothing: the
/// same snapshot is handed back.
pub proof fn lemma_sign_again_unchanged(keys: Seq<Seq<u8>>, signers: Seq<Seq<u8>>)
    ensures
        new_signers(signed_keys(keys, signers), signers).len() == 0,
{
    assert forall|i: int| 0 <= i < signers.len() implies signed_keys(keys, signers).contains(
        #[trigger] signers[i],
    ) by {
        lemma_signer_in_signed_keys(keys, signers, i);
    }
    lemma_no_new_signers(signed_keys(keys, signers), signers, signers.len());
}

/// Signing adds nothing exactly when every signer's key has signed already.
pub proof fn lemma_unchanged_iff_all_signed(keys: Seq<Seq<u8>>, signers: Seq<Seq<u8>>)
    ensures
        new_signers(keys, signers).len() == 0 <==> forall|i: int|
            0 <= i < signers.len() ==> keys.contains(#[trigger] signers[i]),
{
    if forall|i: int| 0 <= i < signers.len() ==> keys.contains(#[trigger] signers[i]) {
        lemma_no_new_signers(keys, signers, signers.len());
    }
    if new_signers(keys, signers).len() == 0 {
        assert forall|i: int| 0 <= i < signers.len() implies keys.contains(#[trigger] signers[i]) by {
            lemma_signer_in_signed_keys(keys, signers, i);
            assert(signed_keys(keys, signers) =~= keys);
        }
    }
}

} // verus!
