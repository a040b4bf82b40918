use vstd::prelude::*;

verus! {

/// Voting weight of an authority.
pub type StakeUnit = u64;

pub type EpochId = u64;

/// Stable identity of a validator; ordered, so it can index stake.
pub type AuthorityName = u64;

/// floor(2 * total / 3) + 1
pub open spec fn quorum_of(total: int) -> int {
    2 * total / 3 + 1
}

/// floor(total / 3) + 1
pub open spec fn validity_of(total: int) -> int {
    total / 3 + 1
}

/// `a + b`, clamped to the largest stake value.
pub open spec fn sat_add(a: StakeUnit, b: StakeUnit) -> StakeUnit {
    if a + b > u64::MAX {
        u64::MAX
    } else {
        (a + b) as u64
    }
}

/// No authority appears twice.
pub open spec fn names_unique(s: Seq<(AuthorityName, StakeUnit)>) -> bool {
    forall|i: int, j: int| 0 <= i < j < s.len() ==> s[i].0 != s[j].0
}

pub open spec fn stake_sum(s: Seq<(AuthorityName, StakeUnit)>) -> int
    decreases s.len(),
{
    if s.len() == 0 {
        0
    } else {
        stake_sum(s.drop_last()) + s.last().1
    }
}

/// Stake of the last entry named `name`, or 0 when there is none.
pub open spec fn weight_in(s: Seq<(AuthorityName, StakeUnit)>, name: AuthorityName) -> StakeUnit
    decreases s.len(),
{
    if s.len() == 0 {
        0
    } else if s.last().0 == name {
        s.last().1
    } else {
        weight_in(s.drop_last(), name)
    }
}

pub open spec fn is_member(s: Seq<(AuthorityName, StakeUnit)>, name: AuthorityName) -> bool {
    exists|i: int| 0 <= i < s.len() && s[i].0 == name
}

pub open spec fn opt_contains(o: Option<Seq<AuthorityName>>, name: AuthorityName) -> bool {
    match o {
        Some(s) => s.contains(name),
        None => false,
    }
}

pub open spec fn opt_view(o: Option<&Vec<AuthorityName>>) -> Option<Seq<AuthorityName>> {
    match o {
        Some(v) => Some(v@),
        None => None,
    }
}

/// Whether `name` may be tried at all, and whether it falls in the preferred part (`preferred`)
/// or in the rest.
pub open spec fn shuffle_keeps(
    members: Seq<(AuthorityName, StakeUnit)>,
    preferences: Option<Seq<AuthorityName>>,
    restrict_to: Option<Seq<AuthorityName>>,
    preferred: bool,
    name: AuthorityName,
) -> bool {
    &&& is_member(members, name)
    &&& (restrict_to.is_none() || opt_contains(restrict_to, name))
    &&& opt_contains(preferences, name) == preferred
}

/// The names of `drawn` that `shuffle_keeps`, in the order drawn.
pub open spec fn shuffle_pick(
    members: Seq<(AuthorityName, StakeUnit)>,
    preferences: Option<Seq<AuthorityName>>,
    restrict_to: Option<Seq<AuthorityName>>,
    preferred: bool,
    drawn: Seq<AuthorityName>,
) -> Seq<AuthorityName>
    decreases drawn.len(),
{
    if drawn.len() == 0 {
        Seq::empty()
    } else {
        let head = shuffle_pick(members, preferences, restrict_to, preferred, drawn.drop_last());
        if shuffle_keeps(members, preferences, restrict_to, preferred, drawn.last()) {
            head.push(drawn.last())
        } else {
            head
        }
    }
}

/// The stake-weighted validator set of one epoch.
#[derive(Clone, Debug)]
pub struct Committee {
    pub epoch: EpochId,
    pub voting_rights: Vec<(AuthorityName, StakeUnit)>,
    pub total_stake: StakeUnit,
}

pub fn vec_contains(v: &Vec<AuthorityName>, x: AuthorityName) -> (r: bool)
    ensures
        r == v@.contains(x),
{
    let mut i: usize = 0;
    while i < v.len()
        invariant
            0 <= i <= v.len(),
            forall|j: int| 0 <= j < i ==> v@[j] != x,
        decreases v.len() - i,
    {
        if v[i] == x {
            return true;
        }
        i = i + 1;
    }
    false
}

fn opt_vec_contains(o: Option<&Vec<AuthorityName>>, x: AuthorityName) -> (r: bool)
    ensures
        r == opt_contains(opt_view(o), x),
{
    match o {
        Some(v) => vec_contains(v, x),
        None => false,
    }
}

impl Committee {
    pub open spec fn members(&self) -> Seq<(AuthorityName, StakeUnit)> {
        self.voting_rights@
    }

    pub open spec fn total(&self) -> StakeUnit {
        self.total_stake
    }

    pub open spec fn wf(&self) -> bool {
        &&& names_unique(self.voting_rights@)
        &&& self.total_stake == stake_sum(self.voting_rights@)
    }

    pub open spec fn weight_spec(&self, name: AuthorityName) -> StakeUnit {
        weight_in(self.voting_rights@, name)
    }

    /// A committee from each authority's stake. `None` when a name appears twice or when the
    /// total stake does not fit in a `StakeUnit`.
    pub fn new(epoch: EpochId, voting_rights: Vec<(AuthorityName, StakeUnit)>) -> (r: Option<Committee>)
        ensures
            r.is_some() <==> names_unique(voting_rights@) && stake_sum(voting_rights@) <= u64::MAX,
            r matches Some(c) ==> c.wf() && c.epoch == epoch && c.members() == voting_rights@,
    {
        let mut total: u64 = 0;
        let mut i: usize = 0;
        while i < voting_rights.len()
            invariant
                0 <= i <= voting_rights.len(),
                names_unique(voting_rights@.take(i as int)),
                total == stake_sum(voting_rights@.take(i as int)),
            decreases voting_rights.len() - i,
        {
            let ghost s = voting_rights@;
            assert(s.take(i as int + 1).drop_last() == s.take(i as int));
            let mut j: usize = 0;
            while j < i
                invariant
                    0 <= j <= i < voting_rights.len(),
                    s == voting_rights@,
                    forall|k: int| 0 <= k < j ==> s[k].0 != s[i as int].0,
                decreases i - j,
            {
                if voting_rights[j].0 == voting_rights[i].0 {
                    assert(!names_unique(s)) by {
                        assert(s[j as int].0 == s[i as int].0);
                    }
                    return None;
                }
                j = j + 1;
            }
            match total.checked_add(voting_rights[i].1) {
                Some(t) => {
                    total = t;
                },
                None => {
                    proof {
                        lemma_stake_sum_prefix_le(s, i as int + 1);
                    }
                    return None;
                },
            }
            i = i + 1;
        }
        assert(voting_rights@.take(i as int) == voting_rights@);
        Some(Committee { epoch, voting_rights, total_stake: total })
    }

    pub fn total_stake(&self) -> (r: StakeUnit)
        ensures
            r == self.total(),
    {
        self.total_stake
    }

    /// Stake of `name`; 0 for an authority outside the committee.
    pub fn weight(&self, name: AuthorityName) -> (r: StakeUnit)
        requires
            self.wf(),
        ensures
            r == self.weight_spec(name),
            is_member(self.members(), name) || r == 0,
    {
        let mut i: usize = 0;
        while i < self.voting_rights.len()
            invariant
                0 <= i <= self.voting_rights.len(),
                self.wf(),
                forall|j: int| 0 <= j < i ==> self.voting_rights@[j].0 != name,
            decreases self.voting_rights.len() - i,
        {
            if self.voting_rights[i].0 == name {
                proof {
                    lemma_weight_at(self.voting_rights@, i as int);
                }
                return self.voting_rights[i].1;
            }
            i = i + 1;
        }
        proof {
            lemma_weight_absent(self.voting_rights@, name);
        }
        0
    }

    pub fn quorum_threshold(&self) -> (r: StakeUnit)
        ensures
            r == quorum_of(self.total() as int),
    {
        let t: u128 = self.total_stake as u128;
        let q: u128 = 2 * t / 3 + 1;
        q as u64
    }

    pub fn validity_threshold(&self) -> (r: StakeUnit)
        ensures
            r == validity_of(self.total() as int),
    {
        self.total_stake / 3 + 1
    }

    /// Orders the authorities of `drawn` (a stake-weighted random permutation of the committee)
    /// for fan-out: those in `preferences` first, then the others, each part in the order drawn.
    /// Names outside the committee, and outside `restrict_to` when it is given, are left out.
    pub fn shuffle_by_stake(
        &self,
        preferences: Option<&Vec<AuthorityName>>,
        restrict_to: Option<&Vec<AuthorityName>>,
        drawn: &Vec<AuthorityName>,
    ) -> (r: Vec<AuthorityName>)
        requires
            self.wf(),
        ensures
            r@ == shuffle_pick(self.members(), opt_view(preferences), opt_view(restrict_to), true, drawn@)
                + shuffle_pick(self.members(), opt_view(preferences), opt_view(restrict_to), false, drawn@),
    {
        let ghost members = self.members();
        let ghost p = opt_view(preferences);
        let ghost rt = opt_view(restrict_to);
        let mut first: Vec<AuthorityName> = Vec::new();
        let mut rest: Vec<AuthorityName> = Vec::new();
        let mut i: usize = 0;
        while i < drawn.len()
            invariant
                0 <= i <= drawn.len(),
                self.wf(),
                members == self.members(),
                p == opt_view(preferences),
                rt == opt_view(restrict_to),
                first@ == shuffle_pick(members, p, rt, true, drawn@.take(i as int)),
                rest@ == shuffle_pick(members, p, rt, false, drawn@.take(i as int)),
            decreases drawn.len() - i,
        {
            let name = drawn[i];
            let ghost t = drawn@.take(i as int + 1);
            assert(t.drop_last() == drawn@.take(i as int));
            let member = self.is_member(name);
            let allowed = match restrict_to {
                Some(v) => vec_contains(v, name),
                None => true,
            };
            let preferred = opt_vec_contains(preferences, name);
            if member && allowed {
                if preferred {
                    first.push(name);
                } else {
                    rest.push(name);
                }
            }
            i = i + 1;
        }
        assert(drawn@.take(i as int) == drawn@);
        first.append(&mut rest);
        first
    }

    pub fn is_member(&self, name: AuthorityName) -> (r: bool)
        ensures
            r == is_member(self.members(), name),
    {
        let mut i: usize = 0;
        while i < self.voting_rights.len()
            invariant
                0 <= i <= self.voting_rights.len(),
                forall|j: int| 0 <= j < i ==> self.voting_rights@[j].0 != name,
            decreases self.voting_rights.len() - i,
        {
            if self.voting_rights[i].0 == name {
                return true;
            }
            i = i + 1;
        }
        false
    }
}

proof fn lemma_stake_sum_prefix_le(s: Seq<(AuthorityName, StakeUnit)>, n: int)
    requires
        0 <= n <= s.len(),
    ensures
        stake_sum(s.take(n)) <= stake_sum(s),
    decreases s.len(),
{
    if n < s.len() {
        assert(s.drop_last().take(n) == s.take(n));
        lemma_stake_sum_prefix_le(s.drop_last(), n);
    } else {
        assert(s.take(n) == s);
    }
}

proof fn lemma_weight_at(s: Seq<(AuthorityName, StakeUnit)>, i: int)
    requires
        names_unique(s),
        0 <= i < s.len(),
    ensures
        weight_in(s, s[i].0) == s[i].1,
    decreases s.len(),
{
    if i < s.len() - 1 {
        assert(s.last() == s[s.len() - 1]);
        assert(s.drop_last()[i] == s[i]);
        lemma_weight_at(s.drop_last(), i);
    }
}

proof fn lemma_weight_absent(s: Seq<(AuthorityName, StakeUnit)>, name: AuthorityName)
    requires
        !is_member(s, name),
    ensures
        weight_in(s, name) == 0,
    decreases s.len(),
{
    if s.len() > 0 {
        assert(!is_member(s.drop_last(), name)) by {
            if is_member(s.drop_last(), name) {
                let k = choose|k: int| 0 <= k < s.len() - 1 && s.drop_last()[k].0 == name;
                assert(s[k].0 == name);
            }
        }
        assert(s.last().0 != name) by {
            assert(s[s.len() - 1].0 == s.last().0);
        }
        lemma_weight_absent(s.drop_last(), name);
    }
}

/// Thresholds of a committee of total stake `total`: a quorum and a validity set together exceed
/// the total; the quorum is twice the validity threshold, less one or not; any two quorums share
/// at least a validity threshold of stake; any stake above two thirds of the total reaches a
/// quorum; and with byzantine stake `byzantine` below a third of the total, any set of signers
/// holding a quorum (`signers` of stake) holds more than half of the honest stake.
pub proof fn lemma_thresholds(total: int, honest: int, byzantine: int, signers: int)
    requires
        total >= 0,
    ensures
        quorum_of(total) + validity_of(total) > total,
        quorum_of(total) == 2 * validity_of(total) - 1 || quorum_of(total) == 2 * validity_of(total),
        2 * quorum_of(total) - total >= validity_of(total),
        3 * honest > 2 * total ==> honest >= quorum_of(total),
        0 <= byzantine && 3 * byzantine < total && quorum_of(total) <= signers ==> 2 * (signers - byzantine) > total
            - byzantine,
{
    let k = total / 3;
    let r = total % 3;
    assert(total == 3 * k + r && 0 <= r < 3) by (nonlinear_arith)
        requires k == total / 3, r == total % 3, total >= 0;
    assert(2 * total / 3 == 2 * k + (2 * r) / 3) by (nonlinear_arith)
        requires total == 3 * k + r, 0 <= r < 3;
}

} // verus!
