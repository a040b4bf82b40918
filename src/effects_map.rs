use std::collections::BTreeMap;

use vstd::prelude::*;

use crate::committee::{sat_add, EpochId, StakeUnit};
use crate::messages::{
    copy_signatures, AuthoritySignInfo, CertifiedTransactionEffects, SignedTransactionEffects,
    TransactionEffects, TransactionEffectsDigest,
};

verus! {

/// Effects are tallied by epoch and effects digest.
pub type EffectsKey = (EpochId, TransactionEffectsDigest);

/// Per key: the stake gathered, the signatures gathered, and the effects first seen.
pub type EffectsTally = (StakeUnit, Seq<AuthoritySignInfo>, TransactionEffects);

/// A certificate on effects, as plain values: effects, epoch, signatures.
pub type EffectsCertView = (TransactionEffects, EpochId, Seq<AuthoritySignInfo>);

pub open spec fn effects_key(e: SignedTransactionEffects) -> EffectsKey {
    (e.auth_sig.epoch, e.effects.digest)
}

/// The tally after one more signed effects of stake `weight`.
pub open spec fn tally_add(
    m: Map<EffectsKey, EffectsTally>,
    e: SignedTransactionEffects,
    weight: StakeUnit,
) -> Map<EffectsKey, EffectsTally> {
    let key = effects_key(e);
    let old = if m.contains_key(key) {
        m[key]
    } else {
        (0u64, Seq::<AuthoritySignInfo>::empty(), e.effects)
    };
    m.insert(key, (sat_add(old.0, weight), old.1.push(e.auth_sig), old.2))
}

/// The certificate after adding `e`: the one formed before, if any (the first key to reach a
/// quorum stays the winner); else the tally of `e`'s key once it holds `quorum` stake.
pub open spec fn cert_add(
    m: Map<EffectsKey, EffectsTally>,
    cert: Option<EffectsCertView>,
    e: SignedTransactionEffects,
    weight: StakeUnit,
    quorum: int,
) -> Option<EffectsCertView> {
    let key = effects_key(e);
    let t = tally_add(m, e, weight)[key];
    if cert is None && t.0 >= quorum {
        Some((t.2, key.0, t.1))
    } else {
        cert
    }
}

/// `c` is the certificate of the effects of `key`.
pub open spec fn cert_for(c: Option<EffectsCertView>, key: EffectsKey) -> bool {
    match c {
        Some(c) => c.1 == key.0 && c.0.digest == key.1,
        None => false,
    }
}

/// Adds each of `items` in turn.
pub open spec fn tally_add_all(
    m: Map<EffectsKey, EffectsTally>,
    items: Seq<(SignedTransactionEffects, StakeUnit)>,
) -> Map<EffectsKey, EffectsTally>
    decreases items.len(),
{
    if items.len() == 0 {
        m
    } else {
        tally_add(tally_add_all(m, items.drop_last()), items.last().0, items.last().1)
    }
}

pub open spec fn cert_add_all(
    m: Map<EffectsKey, EffectsTally>,
    cert: Option<EffectsCertView>,
    items: Seq<(SignedTransactionEffects, StakeUnit)>,
    quorum: int,
) -> Option<EffectsCertView>
    decreases items.len(),
{
    if items.len() == 0 {
        cert
    } else {
        cert_add(
            tally_add_all(m, items.drop_last()),
            cert_add_all(m, cert, items.drop_last(), quorum),
            items.last().0,
            items.last().1,
            quorum,
        )
    }
}

/// `c` is a certificate for `epoch`, with signatures `sigs` on `effects`.
pub open spec fn cert_is(
    c: Option<EffectsCertView>,
    epoch: EpochId,
    sigs: Seq<AuthoritySignInfo>,
    effects: TransactionEffects,
) -> bool {
    c == Some((effects, epoch, sigs))
}

pub open spec fn stake_total(items: Seq<(SignedTransactionEffects, StakeUnit)>) -> int
    decreases items.len(),
{
    if items.len() == 0 {
        0
    } else {
        stake_total(items.drop_last()) + items.last().1
    }
}

/// The stake, signatures and effects gathered for one key.
pub struct EffectsStakeInfo {
    pub stake: StakeUnit,
    pub effects: TransactionEffects,
    pub signatures: Vec<AuthoritySignInfo>,
}

pub open spec fn info_tally(i: EffectsStakeInfo) -> EffectsTally {
    (i.stake, i.signatures@, i.effects)
}

/// Stake gathered per distinct effects, and the first certificate formed from them.
pub struct EffectsStakeMap {
    effects_map: BTreeMap<EffectsKey, EffectsStakeInfo>,
    effects_cert: Option<CertifiedTransactionEffects>,
}

pub open spec fn cert_view(c: Option<CertifiedTransactionEffects>) -> Option<EffectsCertView> {
    match c {
        Some(c) => Some((c.effects, c.epoch, c.signatures@)),
        None => None,
    }
}

impl View for EffectsStakeMap {
    type V = Map<EffectsKey, EffectsTally>;

    /// Per key: stake, signatures and effects.
    closed spec fn view(&self) -> Map<EffectsKey, EffectsTally> {
        self.effects_map@.map_values(|i: EffectsStakeInfo| info_tally(i))
    }
}

impl EffectsStakeMap {
    pub closed spec fn wf(&self) -> bool {
        &&& forall|k: EffectsKey| #[trigger] self.effects_map@.contains_key(k) ==> self.effects_map@[k].effects.digest == k.1
        &&& (self.effects_cert matches Some(c) ==> self.effects_map@.contains_key((c.epoch, c.effects.digest)))
    }

    pub closed spec fn cert(&self) -> Option<EffectsCertView> {
        cert_view(self.effects_cert)
    }

    pub fn new() -> (r: EffectsStakeMap)
        ensures
            r.wf(),
            r@ == Map::<EffectsKey, EffectsTally>::empty(),
            r.cert() is None,
    {
        let r = EffectsStakeMap { effects_map: BTreeMap::new(), effects_cert: None };
        assert(r@ =~= Map::<EffectsKey, EffectsTally>::empty());
        r
    }

    /// Adds the stake and signature of `effects`. The first time any key holds
    /// `quorum_threshold` of stake, a certificate is formed from its signatures, and it is kept
    /// from then on. Returns whether the certificate kept is the one of `effects`' key.
    pub fn add(&mut self, effects: SignedTransactionEffects, weight: StakeUnit, quorum_threshold: StakeUnit) -> (r: bool)
        requires
            old(self).wf(),
        ensures
            final(self).wf(),
            final(self)@ == tally_add(old(self)@, effects, weight),
            final(self).cert() == cert_add(old(self)@, old(self).cert(), effects, weight, quorum_threshold as int),
            r == cert_for(final(self).cert(), effects_key(effects)),
    {
        broadcast use vstd::std_specs::btree::group_btree_axioms, vstd::laws_cmp::group_laws_cmp;

        let key: EffectsKey = (effects.auth_sig.epoch, effects.effects.digest);
        let ghost m0 = self.effects_map@;
        let mut info = match self.effects_map.remove(&key) {
            Some(i) => i,
            None => EffectsStakeInfo { stake: 0, effects: effects.effects, signatures: Vec::new() },
        };
        info.stake = info.stake.saturating_add(weight);
        info.signatures.push(effects.auth_sig);
        let stake = info.stake;
        if stake >= quorum_threshold && self.effects_cert.is_none() {
            self.effects_cert = Some(
                CertifiedTransactionEffects {
                    effects: info.effects,
                    epoch: key.0,
                    signatures: copy_signatures(&info.signatures),
                },
            );
        }
        self.effects_map.insert(key, info);
        assert(self.effects_map@ == m0.insert(key, info));
        assert(self@ =~= tally_add(old(self)@, effects, weight));
        match &self.effects_cert {
            Some(c) => c.epoch == key.0 && c.effects.digest == key.1,
            None => false,
        }
    }

    /// Number of distinct effects seen.
    pub fn len(&self) -> (r: usize)
        requires
            self.wf(),
        ensures
            r == self@.len(),
    {
        broadcast use vstd::std_specs::btree::group_btree_axioms;

        assert(self@.dom() =~= self.effects_map@.dom());
        self.effects_map.len()
    }

    /// The certificate formed, if any key has reached a quorum.
    pub fn get_cert(&self) -> (r: Option<CertifiedTransactionEffects>)
        ensures
            cert_view(r) == self.cert(),
    {
        match &self.effects_cert {
            Some(c) => Some(
                CertifiedTransactionEffects {
                    effects: c.effects,
                    epoch: c.epoch,
                    signatures: copy_signatures(&c.signatures),
                },
            ),
            None => None,
        }
    }
}

/// Adding effects of one key leaves the stake and signatures of every other key as they were:
/// no stake is counted toward a digest it was not given for.
pub proof fn lemma_add_keeps_other_keys(
    m: Map<EffectsKey, EffectsTally>,
    e: SignedTransactionEffects,
    weight: StakeUnit,
    other: EffectsKey,
)
    requires
        other != effects_key(e),
    ensures
        tally_add(m, e, weight).contains_key(other) == m.contains_key(other),
        m.contains_key(other) ==> tally_add(m, e, weight)[other] == m[other],
{
}

/// The signatures of `items`, in order.
pub open spec fn item_sigs(items: Seq<(SignedTransactionEffects, StakeUnit)>) -> Seq<AuthoritySignInfo> {
    items.map_values(|p: (SignedTransactionEffects, StakeUnit)| p.0.auth_sig)
}

/// `c` is a certificate for `key` on `effects` whose signatures are a non-empty prefix of `sigs`.
pub open spec fn first_cert(c: Option<EffectsCertView>, key: EffectsKey, effects: TransactionEffects, sigs: Seq<AuthoritySignInfo>) -> bool {
    match c {
        Some(c) => c.0 == effects && c.1 == key.0 && 1 <= c.2.len() <= sigs.len() && c.2 == sigs.take(c.2.len() as int),
        None => false,
    }
}

/// Signed effects that all carry one key, from stake that sums to at least a quorum (and fits a
/// `StakeUnit`), added to an empty tally: that key is the only one, it holds exactly their stake
/// and their signatures, and exactly one certificate is formed, for that key, signed by a prefix
/// of them.
pub proof fn lemma_same_key_reaches_quorum(
    items: Seq<(SignedTransactionEffects, StakeUnit)>,
    key: EffectsKey,
    quorum: int,
)
    requires
        items.len() > 0,
        forall|i: int| 0 <= i < items.len() ==> effects_key(#[trigger] items[i].0) == key,
        quorum <= stake_total(items) <= u64::MAX,
    ensures
        tally_add_all(Map::empty(), items).dom() == set![key],
        tally_add_all(Map::empty(), items)[key].0 == stake_total(items),
        tally_add_all(Map::empty(), items)[key].1 == item_sigs(items),
        tally_add_all(Map::empty(), items)[key].2.digest == key.1,
        first_cert(
            cert_add_all(Map::empty(), None, items, quorum),
            key,
            tally_add_all(Map::empty(), items)[key].2,
            item_sigs(items),
        ),
{
    lemma_same_key_tally(items, key);
}

proof fn lemma_same_key_tally(items: Seq<(SignedTransactionEffects, StakeUnit)>, key: EffectsKey)
    requires
        items.len() > 0,
        forall|i: int| 0 <= i < items.len() ==> effects_key(#[trigger] items[i].0) == key,
        stake_total(items) <= u64::MAX,
    ensures
        tally_add_all(Map::empty(), items).dom() == set![key],
        tally_add_all(Map::empty(), items)[key].0 == stake_total(items),
        tally_add_all(Map::empty(), items)[key].1 == item_sigs(items),
        tally_add_all(Map::empty(), items)[key].2.digest == key.1,
        forall|q: int|
            (#[trigger] cert_add_all(Map::empty(), None, items, q)) is Some <==> q <= stake_total(items),
        forall|q: int|
            q <= stake_total(items) ==> first_cert(
                #[trigger] cert_add_all(Map::empty(), None, items, q),
                key,
                tally_add_all(Map::empty(), items)[key].2,
                item_sigs(items),
            ),
    decreases items.len(),
{
    let d = items.drop_last();
    let last = items.last();
    assert(effects_key(items[items.len() - 1].0) == key);
    assert(item_sigs(items) =~= item_sigs(d).push(last.0.auth_sig));
    if d.len() == 0 {
        assert(tally_add_all(Map::empty(), d) == Map::<EffectsKey, EffectsTally>::empty());
        assert(tally_add_all(Map::empty(), items).dom() =~= set![key]);
        assert(item_sigs(d) =~= Seq::<AuthoritySignInfo>::empty());
        assert(stake_total(d) == 0);
        assert(stake_total(items) == last.1);
        assert(tally_add_all(Map::empty(), items)[key].0 == last.1);
        assert forall|q: int| (#[trigger] cert_add_all(Map::empty(), None, items, q)) is Some <==> q <= stake_total(items) by {
            assert(cert_add_all(Map::empty(), None, d, q) is None);
            assert(cert_add_all(Map::empty(), None, items, q) == cert_add(Map::empty(), None, last.0, last.1, q));
        }
        assert forall|q: int| q <= stake_total(items) implies first_cert(
            #[trigger] cert_add_all(Map::empty(), None, items, q),
            key,
            tally_add_all(Map::empty(), items)[key].2,
            item_sigs(items),
        ) by {
            assert(cert_add_all(Map::empty(), None, d, q) is None);
            assert(item_sigs(items).take(1) =~= item_sigs(items));
        }
    } else {
        assert forall|i: int| 0 <= i < d.len() implies effects_key(#[trigger] d[i].0) == key by {
            assert(d[i] == items[i]);
        }
        assert(stake_total(d) <= stake_total(items));
        lemma_same_key_tally(d, key);
        let m = tally_add_all(Map::empty(), d);
        let t = tally_add_all(Map::empty(), items)[key];
        assert(tally_add_all(Map::empty(), items).dom() =~= set![key]);
        assert(t.1 == m[key].1.push(last.0.auth_sig));
        assert(stake_total(items) == stake_total(d) + last.1);
        assert(m[key].0 == stake_total(d));
        assert forall|q: int| (#[trigger] cert_add_all(Map::empty(), None, items, q)) is Some <==> q <= stake_total(items) by {
            let cd = cert_add_all(Map::empty(), None, d, q);
            assert(cert_add_all(Map::empty(), None, items, q) == cert_add(m, cd, last.0, last.1, q));
            assert(t.0 == stake_total(items));
            assert(tally_add(m, last.0, last.1)[key] == t);
            if cd is None {
                assert(q > stake_total(d));
                assert(t.0 >= q <==> q <= stake_total(items));
            } else {
                assert(q <= stake_total(d));
            }
        }
        assert forall|q: int| q <= stake_total(items) implies first_cert(
            #[trigger] cert_add_all(Map::empty(), None, items, q),
            key,
            t.2,
            item_sigs(items),
        ) by {
            let cd = cert_add_all(Map::empty(), None, d, q);
            assert(cert_add_all(Map::empty(), None, items, q) == cert_add(m, cd, last.0, last.1, q));
            assert(tally_add(m, last.0, last.1)[key] == t);
            if cd is Some {
                assert(q <= stake_total(d));
                assert(first_cert(cd, key, m[key].2, item_sigs(d)));
                let c = cd.unwrap();
                assert(item_sigs(items).take(c.2.len() as int) =~= item_sigs(d).take(c.2.len() as int));
            } else {
                assert(item_sigs(items).take(item_sigs(items).len() as int) =~= item_sigs(items));
            }
        }
    }
}

/// The stake of key `k` after adding `items` one by one (sums clamp at the largest stake value).
pub open spec fn key_stake(items: Seq<(SignedTransactionEffects, StakeUnit)>, k: EffectsKey) -> StakeUnit
    decreases items.len(),
{
    if items.len() == 0 {
        0
    } else if effects_key(items.last().0) == k {
        sat_add(key_stake(items.drop_last(), k), items.last().1)
    } else {
        key_stake(items.drop_last(), k)
    }
}

/// The signatures of the items of key `k`, in order.
pub open spec fn key_sigs(items: Seq<(SignedTransactionEffects, StakeUnit)>, k: EffectsKey) -> Seq<AuthoritySignInfo>
    decreases items.len(),
{
    if items.len() == 0 {
        Seq::empty()
    } else if effects_key(items.last().0) == k {
        key_sigs(items.drop_last(), k).push(items.last().0.auth_sig)
    } else {
        key_sigs(items.drop_last(), k)
    }
}

/// Any sequence of additions to an empty tally: a key is present exactly when some item carries
/// it, and then it holds the stake of those items and their signatures, in order, and no other.
pub proof fn lemma_tally_per_key(items: Seq<(SignedTransactionEffects, StakeUnit)>, k: EffectsKey)
    ensures
        tally_add_all(Map::empty(), items).contains_key(k) <==> exists|i: int|
            0 <= i < items.len() && effects_key(#[trigger] items[i].0) == k,
        tally_add_all(Map::empty(), items).contains_key(k) ==> tally_add_all(Map::empty(), items)[k].0
            == key_stake(items, k) && tally_add_all(Map::empty(), items)[k].1 == key_sigs(items, k),
        !tally_add_all(Map::empty(), items).contains_key(k) ==> key_stake(items, k) == 0 && key_sigs(items, k)
            == Seq::<AuthoritySignInfo>::empty(),
    decreases items.len(),
{
    if items.len() > 0 {
        let d = items.drop_last();
        lemma_tally_per_key(d, k);
        assert(items[items.len() - 1] == items.last());
        if exists|i: int| 0 <= i < d.len() && effects_key(#[trigger] d[i].0) == k {
            let i = choose|i: int| 0 <= i < d.len() && effects_key(#[trigger] d[i].0) == k;
            assert(items[i] == d[i]);
        }
        if exists|i: int| 0 <= i < items.len() && effects_key(#[trigger] items[i].0) == k {
            let i = choose|i: int| 0 <= i < items.len() && effects_key(#[trigger] items[i].0) == k;
            if i < d.len() {
                assert(items[i] == d[i]);
            }
        }
    }
}

} // verus!
