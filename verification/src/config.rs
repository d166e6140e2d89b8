//! The signer-set registry: an immutable, fixed-size record naming the
//! authorized signer group and the approval threshold.
use vstd::prelude::*;

verus! {

use crate::errors::MultisigError;
use crate::identity::Caller;
use crate::identity::IDENTITY_SIZE;
use crate::identity::Identity;
use crate::identity::lemma_identity_round_trip;
use vstd::slice::slice_index_get;
use vstd::slice::slice_subrange;

/// Largest admitted signer group.
pub const MAX_SIGNERS: usize = 10;

/// Format version this engine reads and writes for signer-set records.
pub const CONFIG_VERSION: u8 = 1;

/// Wire size of a signer-set record: three header bytes, then
/// `MAX_SIGNERS` identity slots of 32 bytes each.
pub const CONFIG_SIZE: usize = 3 + IDENTITY_SIZE * MAX_SIGNERS;

/// The mathematical content of a signer-set record.
#[verifier::ext_equal]
pub struct ConfigView {
    pub version: u8,
    pub threshold: u8,
    pub signer_count: u8,
    pub signers: Seq<Identity>,
}

impl ConfigView {
    /// The record invariant: current version, a reachable positive
    /// threshold, and a signer count within the cap.
    pub open spec fn valid(self) -> bool {
        &&& self.version == CONFIG_VERSION
        &&& 0 < self.threshold
        &&& self.threshold <= self.signer_count
        &&& self.signer_count as int <= MAX_SIGNERS as int
    }

    /// `valid`, plus the structural shape: all signer slots present.
    pub open spec fn wf(self) -> bool {
        &&& self.valid()
        &&& self.signers.len() == MAX_SIGNERS as int
    }

    /// Whether `id` is one of the first `signer_count` entries.
    pub open spec fn is_signer(self, id: Identity) -> bool {
        exists|j: int| 0 <= j < self.signer_count as int && self.signers[j] == id
    }

    /// The position of `id` in the meaningful part of the signer list.
    pub open spec fn resolve_index(self, id: Identity) -> Option<int> {
        first_index(self.signers, self.signer_count as int, id)
    }
}

/// The smallest `i < n` with `s[i] == id`, if any.
pub open spec fn first_index(s: Seq<Identity>, n: int, id: Identity) -> Option<int>
    decreases n,
{
    if n <= 0 {
        None
    } else {
        match first_index(s, n - 1, id) {
            Some(i) => Some(i),
            None => if s[n - 1] == id {
                Some(n - 1)
            } else {
                None
            },
        }
    }
}

/// What `first_index` finds is the first occurrence, and a `None` means
/// there is none.
pub proof fn lemma_first_index_props(s: Seq<Identity>, n: int, id: Identity)
    requires
        0 <= n <= s.len(),
    ensures
        match first_index(s, n, id) {
            Some(i) => 0 <= i < n && s[i] == id && forall|j: int| 0 <= j < i ==> s[j] != id,
            None => forall|j: int| 0 <= j < n ==> s[j] != id,
        },
    decreases n,
{
    if n > 0 {
        lemma_first_index_props(s, n - 1, id);
    }
}

proof fn lemma_first_index_extend(s: Seq<Identity>, m: int, n: int, id: Identity)
    requires
        0 <= m <= n,
        first_index(s, m, id) is Some,
    ensures
        first_index(s, n, id) == first_index(s, m, id),
    decreases n,
{
    if n > m {
        lemma_first_index_extend(s, m, n - 1, id);
    }
}

/// A presented caller counts toward the threshold when it is in the signer
/// set and the host authenticated it.
pub open spec fn qualifies(cfg: ConfigView, c: Caller) -> bool {
    c.authenticated && cfg.is_signer(c.identity)
}

/// Whether some entry before position `k` already qualifies under the same
/// identity as entry `k`.
pub open spec fn earlier_qualifying(cfg: ConfigView, callers: Seq<Caller>, k: int) -> bool {
    exists|j: int|
        0 <= j < k && callers[j].identity == callers[k].identity && qualifies(cfg, callers[j])
}

/// The number of distinct identities with a qualifying entry among the
/// first `n` presented callers.
pub open spec fn distinct_qualifying(cfg: ConfigView, callers: Seq<Caller>, n: int) -> int
    decreases n,
{
    if n <= 0 {
        0
    } else {
        distinct_qualifying(cfg, callers, n - 1) + if qualifies(cfg, callers[n - 1])
            && !earlier_qualifying(cfg, callers, n - 1) {
            1int
        } else {
            0
        }
    }
}

/// The 32-byte wire forms of a list of identities, concatenated.
pub open spec fn ids_bytes(s: Seq<Identity>) -> Seq<u8>
    decreases s.len(),
{
    if s.len() == 0 {
        Seq::empty()
    } else {
        ids_bytes(s.drop_last()) + s.last().bytes()
    }
}

pub proof fn lemma_ids_bytes_len(s: Seq<Identity>)
    ensures
        ids_bytes(s).len() == 32 * s.len(),
    decreases s.len(),
{
    if s.len() > 0 {
        lemma_ids_bytes_len(s.drop_last());
        lemma_identity_round_trip(s.last(), Seq::empty());
    }
}

pub proof fn lemma_ids_bytes_index(s: Seq<Identity>, j: int)
    requires
        0 <= j < s.len(),
    ensures
        ids_bytes(s).subrange(32 * j, 32 * j + 32) == s[j].bytes(),
    decreases s.len(),
{
    lemma_ids_bytes_len(s);
    lemma_ids_bytes_len(s.drop_last());
    lemma_identity_round_trip(s.last(), Seq::empty());
    if j == s.len() - 1 {
        assert(ids_bytes(s).subrange(32 * j, 32 * j + 32) =~= s.last().bytes());
    } else {
        lemma_ids_bytes_index(s.drop_last(), j);
        assert(ids_bytes(s).subrange(32 * j, 32 * j + 32) =~= ids_bytes(s.drop_last()).subrange(
            32 * j,
            32 * j + 32,
        ));
    }
}

/// The wire form of a signer-set record.
pub open spec fn spec_encode_config(v: ConfigView) -> Seq<u8> {
    seq![v.version, v.threshold, v.signer_count] + ids_bytes(v.signers)
}

/// The signer-set record a wire buffer holds.
pub open spec fn spec_decode_config(b: Seq<u8>) -> ConfigView
    recommends
        b.len() >= CONFIG_SIZE as int,
{
    ConfigView {
        version: b[0],
        threshold: b[1],
        signer_count: b[2],
        signers: Seq::new(
            MAX_SIGNERS as nat,
            |i: int| Identity::decoded(b.subrange(3 + 32 * i, 35 + 32 * i)),
        ),
    }
}

/// Encoding then decoding a well-shaped record gives it back unchanged.
pub proof fn lemma_config_round_trip(v: ConfigView)
    requires
        v.signers.len() == MAX_SIGNERS as int,
    ensures
        spec_encode_config(v).len() == CONFIG_SIZE as int,
        spec_decode_config(spec_encode_config(v)) == v,
{
    lemma_ids_bytes_len(v.signers);
    let e = spec_encode_config(v);
    let d = spec_decode_config(e);
    assert forall|i: int| 0 <= i < MAX_SIGNERS as int implies d.signers[i] == v.signers[i] by {
        lemma_ids_bytes_index(v.signers, i);
        assert(e.subrange(3 + 32 * i, 35 + 32 * i) =~= ids_bytes(v.signers).subrange(
            32 * i,
            32 * i + 32,
        ));
        lemma_identity_round_trip(v.signers[i], v.signers[i].bytes());
    }
    assert(d.signers =~= v.signers);
    assert(d =~= v);
}

/// The signer-set registry record.
///
/// `signers` always holds all `MAX_SIGNERS` slots; only the first
/// `signer_count` are meaningful, the rest hold the zero sentinel.
#[derive(Clone, Debug)]
pub struct MultisigConfig {
    /// Format version, for upgrade compatibility.
    pub version: u8,
    /// Number of required approvals.
    pub threshold: u8,
    /// Number of meaningful entries in `signers`.
    pub signer_count: u8,
    /// The signer slots.
    pub signers: Vec<Identity>,
}

impl View for MultisigConfig {
    type V = ConfigView;

    open spec fn view(&self) -> ConfigView {
        ConfigView {
            version: self.version,
            threshold: self.threshold,
            signer_count: self.signer_count,
            signers: self.signers@,
        }
    }
}

/// The arguments `MultisigConfig::new` accepts: a positive threshold no
/// larger than the group, and a group within the cap.
pub open spec fn spec_new_config_ok(threshold: u8, n: int) -> bool {
    0 < threshold && threshold as int <= n && n <= MAX_SIGNERS as int
}

impl MultisigConfig {
    /// Build a validated signer-set record, padding unused slots with the
    /// zero sentinel. Rejects with `InvalidConfig` exactly when the
    /// threshold is zero, exceeds the group, or the group exceeds the cap.
    pub fn new(threshold: u8, signers_in: &[Identity]) -> (r: Result<MultisigConfig, MultisigError>)
        ensures
            r is Ok <==> spec_new_config_ok(threshold, signers_in@.len() as int),
            match r {
                Ok(c) => {
                    &&& c@.wf()
                    &&& c@.version == CONFIG_VERSION
                    &&& c@.threshold == threshold
                    &&& c@.signer_count as int == signers_in@.len()
                    &&& forall|i: int| 0 <= i < signers_in@.len() ==> c@.signers[i] == signers_in@[i]
                    &&& forall|i: int|
                        signers_in@.len() <= i < MAX_SIGNERS as int ==> c@.signers[i]
                            == Identity::spec_zero()
                },
                Err(e) => e == MultisigError::InvalidConfig,
            },
    {
        let n = signers_in.len();
        if n > MAX_SIGNERS {
            return Err(MultisigError::InvalidConfig);
        }
        if threshold == 0 || (threshold as usize) > n {
            return Err(MultisigError::InvalidConfig);
        }
        let mut signers: Vec<Identity> = Vec::new();
        let mut i: usize = 0;
        while i < n
            invariant
                i <= n == signers_in@.len(),
                signers@.len() == i as int,
                forall|j: int| 0 <= j < i as int ==> signers@[j] == signers_in@[j],
            decreases n - i,
        {
            signers.push(*slice_index_get(signers_in, i));
            i = i + 1;
        }
        while i < MAX_SIGNERS
            invariant
                n <= i <= MAX_SIGNERS,
                n == signers_in@.len(),
                signers@.len() == i as int,
                forall|j: int| 0 <= j < n as int ==> signers@[j] == signers_in@[j],
                forall|j: int| n as int <= j < i as int ==> signers@[j] == Identity::spec_zero(),
            decreases MAX_SIGNERS - i,
        {
            signers.push(Identity::zero());
            i = i + 1;
        }
        Ok(
            MultisigConfig {
                version: CONFIG_VERSION,
                threshold,
                signer_count: n as u8,
                signers,
            },
        )
    }

    /// Whether `key` belongs to the signer group.
    pub fn is_signer(&self, key: &Identity) -> (r: bool)
        requires
            self@.signer_count as int <= self@.signers.len(),
        ensures
            r == self@.is_signer(*key),
    {
        self.resolve_index(key).is_some()
    }

    /// The position of `key` among the meaningful signer entries.
    pub fn resolve_index(&self, key: &Identity) -> (r: Option<usize>)
        requires
            self@.signer_count as int <= self@.signers.len(),
        ensures
            match r {
                Some(i) => self@.resolve_index(*key) == Some(i as int) && i < self@.signer_count,
                None => self@.resolve_index(*key) is None,
            },
            r is Some <==> self@.is_signer(*key),
    {
        let count = self.signer_count as usize;
        let mut i: usize = 0;
        while i < count
            invariant
                count == self@.signer_count as int,
                count <= self@.signers.len(),
                i <= count,
                first_index(self@.signers, i as int, *key) is None,
            decreases count - i,
        {
            if self.signers[i] == *key {
                proof {
                    assert(first_index(self@.signers, i as int + 1, *key) == Some(i as int));
                    lemma_first_index_extend(self@.signers, i as int + 1, count as int, *key);
                    assert(self@.signers[i as int] == *key);
                    assert(self@.is_signer(*key));
                }
                return Some(i);
            }
            i = i + 1;
        }
        proof {
            lemma_first_index_props(self@.signers, self@.signer_count as int, *key);
        }
        None
    }

    /// The coarse, single-call verification mode: deduplicate the presented
    /// callers by identity, count those that are signers and authenticated,
    /// and succeed exactly when that count reaches the threshold.
    pub fn verify_signatures(&self, signers: &[Caller]) -> (r: Result<(), MultisigError>)
        requires
            self@.signer_count as int <= self@.signers.len(),
        ensures
            r is Ok <==> distinct_qualifying(self@, signers@, signers@.len() as int)
                >= self@.threshold as int,
            r is Err ==> r == Err::<(), MultisigError>(MultisigError::ThresholdNotMet),
    {
        let ghost cfg = self@;
        let n = signers.len();
        let mut seen: Vec<Identity> = Vec::new();
        let mut k: usize = 0;
        while k < n
            invariant
                n == signers@.len(),
                k <= n,
                cfg == self@,
                cfg.signer_count as int <= cfg.signers.len(),
                seen@.len() == distinct_qualifying(cfg, signers@, k as int),
                forall|j: int|
                    0 <= j < k as int && qualifies(cfg, #[trigger] signers@[j]) ==> seen@.contains(
                        signers@[j].identity,
                    ),
                forall|idx: int|
                    0 <= idx < seen@.len() ==> exists|j: int|
                        0 <= j < k as int && signers@[j].identity == #[trigger] seen@[idx]
                            && qualifies(cfg, signers@[j]),
            decreases n - k,
        {
            let c = *slice_index_get(signers, k);
            let ghost k0 = k as int;
            let already = contains_identity(&seen, &c.identity);
            proof {
                if earlier_qualifying(cfg, signers@, k0) {
                    let j = choose|j: int|
                        0 <= j < k0 && signers@[j].identity == signers@[k0].identity && qualifies(
                            cfg,
                            signers@[j],
                        );
                    assert(seen@.contains(signers@[j].identity));
                    assert(already);
                }
                if already {
                    let idx = choose|idx: int| 0 <= idx < seen@.len() && seen@[idx] == c.identity;
                    let j = choose|j: int|
                        0 <= j < k0 && signers@[j].identity == seen@[idx] && qualifies(
                            cfg,
                            signers@[j],
                        );
                    assert(earlier_qualifying(cfg, signers@, k0));
                }
            }
            if !already {
                if self.is_signer(&c.identity) && c.authenticated {
                    let ghost seen_before = seen@;
                    seen.push(c.identity);
                    proof {
                        assert(seen@[seen@.len() - 1] == c.identity);
                        assert(seen@.contains(c.identity));
                        assert forall|y: Identity| seen_before.contains(y) implies seen@.contains(
                            y,
                        ) by {
                            let idx = choose|idx: int|
                                0 <= idx < seen_before.len() && seen_before[idx] == y;
                            assert(seen@[idx] == y);
                        }
                    }
                }
            }
            k = k + 1;
        }
        if seen.len() >= self.threshold as usize {
            Ok(())
        } else {
            Err(MultisigError::ThresholdNotMet)
        }
    }

    /// Serialize into the `CONFIG_SIZE`-byte wire form.
    pub fn to_bytes(&self) -> (r: Vec<u8>)
        requires
            self@.signers.len() == MAX_SIGNERS as int,
        ensures
            r@ == spec_encode_config(self@),
            r@.len() == CONFIG_SIZE as int,
    {
        let mut r: Vec<u8> = Vec::new();
        r.push(self.version);
        r.push(self.threshold);
        r.push(self.signer_count);
        proof {
            assert(self@.signers.take(0) =~= Seq::<Identity>::empty());
            assert(r@ =~= seq![self@.version, self@.threshold, self@.signer_count] + ids_bytes(
                self@.signers.take(0),
            ));
        }
        let mut i: usize = 0;
        while i < MAX_SIGNERS
            invariant
                i <= MAX_SIGNERS,
                self@.signers.len() == MAX_SIGNERS as int,
                r@ == seq![self@.version, self@.threshold, self@.signer_count] + ids_bytes(
                    self@.signers.take(i as int),
                ),
                r@.len() == 3 + 32 * i as int,
            decreases MAX_SIGNERS - i,
        {
            proof {
                lemma_ids_bytes_len(self@.signers.take(i as int));
            }
            let mut b = self.signers[i].to_le_bytes();
            r.append(&mut b);
            proof {
                let t1 = self@.signers.take(i as int + 1);
                assert(t1.drop_last() =~= self@.signers.take(i as int));
                assert(t1.last() == self@.signers[i as int]);
                assert(r@ =~= seq![self@.version, self@.threshold, self@.signer_count] + ids_bytes(
                    t1,
                ));
            }
            i = i + 1;
        }
        proof {
            assert(self@.signers.take(MAX_SIGNERS as int) =~= self@.signers);
        }
        r
    }

    /// Parse and validate a signer-set record from a storage buffer.
    /// `CorruptRecord` when the buffer cannot hold one, `InvalidConfig`
    /// when the parsed record breaks the registry invariant.
    pub fn from_bytes(data: &[u8]) -> (r: Result<MultisigConfig, MultisigError>)
        ensures
            r is Ok <==> data@.len() >= CONFIG_SIZE as int && spec_decode_config(data@).valid(),
            match r {
                Ok(c) => c@ == spec_decode_config(data@) && c@.wf(),
                Err(e) => {
                    &&& (e == MultisigError::CorruptRecord <==> data@.len() < CONFIG_SIZE as int)
                    &&& (data@.len() >= CONFIG_SIZE as int ==> e == MultisigError::InvalidConfig)
                },
            },
    {
        if data.len() < CONFIG_SIZE {
            return Err(MultisigError::CorruptRecord);
        }
        let version = *slice_index_get(data, 0);
        let threshold = *slice_index_get(data, 1);
        let signer_count = *slice_index_get(data, 2);
        let mut signers: Vec<Identity> = Vec::new();
        let mut i: usize = 0;
        while i < MAX_SIGNERS
            invariant
                i <= MAX_SIGNERS,
                data@.len() >= CONFIG_SIZE as int,
                signers@.len() == i as int,
                forall|j: int|
                    0 <= j < i as int ==> signers@[j] == Identity::decoded(
                        data@.subrange(3 + 32 * j, 35 + 32 * j),
                    ),
            decreases MAX_SIGNERS - i,
        {
            let id = Identity::from_le_bytes(slice_subrange(data, 3 + 32 * i, 35 + 32 * i));
            signers.push(id);
            i = i + 1;
        }
        let c = MultisigConfig { version, threshold, signer_count, signers };
        proof {
            assert(c@.signers =~= spec_decode_config(data@).signers);
            assert(c@ =~= spec_decode_config(data@));
        }
        if version != CONFIG_VERSION || threshold == 0 || threshold > signer_count || signer_count
            > MAX_SIGNERS as u8 {
            return Err(MultisigError::InvalidConfig);
        }
        Ok(c)
    }

    /// Whether the record carries the current version and a lawful shape;
    /// the decoded form of a record this engine would accept.
    pub fn is_initialized(&self) -> (r: bool)
        ensures
            r == self@.valid(),
    {
        self.version == CONFIG_VERSION && self.threshold > 0 && self.threshold
            <= self.signer_count && self.signer_count <= MAX_SIGNERS as u8
    }
}

/// Whether `v` holds `id`.
fn contains_identity(v: &Vec<Identity>, id: &Identity) -> (r: bool)
    ensures
        r == v@.contains(*id),
{
    let mut i: usize = 0;
    while i < v.len()
        invariant
            i <= v@.len(),
            forall|j: int| 0 <= j < i as int ==> v@[j] != *id,
        decreases v@.len() - i,
    {
        if v[i] == *id {
            return true;
        }
        i = i + 1;
    }
    false
}

} // verus!
