//! Classification of a snapshot into supply categories.
//!
//! One pass over the record sequence folds every balance into nine
//! aggregate counters: `total` is partitioned into `normal`, `slow_total`
//! and `donor_directed`; `slow_unlocked`/`slow_locked` refine the slow
//! part; `validator`/`validator_locked` are an overlay tag on slow-wallet
//! records that also carry a validator configuration, already counted
//! inside the slow counters.

use crate::records::{AccountAddress, AccountRecord, RecordView};
use crate::sums::{
    lemma_sum_by_le, lemma_sum_by_permutation, lemma_sum_by_split, lemma_sum_by_take_le,
    lemma_sum_by_take_succ, sum_by,
};
use vstd::prelude::*;
use vstd::seq_lib::group_to_multiset_ensures;

verus! {

/// The nine aggregate counters of one snapshot. Created zeroed, filled by
/// a single fold over the records, immutable once returned.
#[derive(Clone, Copy, Debug, PartialEq, Eq, Structural)]
#[verifier::ext_equal]
pub struct Supply {
    pub total: u64,
    pub normal: u64,
    /// Overlaps with the slow-wallet counters: overlay, not extra supply.
    pub validator: u64,
    pub validator_locked: u64,
    pub slow_total: u64,
    pub slow_locked: u64,
    pub slow_unlocked: u64,
    pub donor_directed: u64,
}

impl Default for Supply {
    fn default() -> (s: Supply)
        ensures
            s == (Supply {
                total: 0,
                normal: 0,
                validator: 0,
                validator_locked: 0,
                slow_total: 0,
                slow_locked: 0,
                slow_unlocked: 0,
                donor_directed: 0,
            }),
    {
        Supply {
            total: 0,
            normal: 0,
            validator: 0,
            validator_locked: 0,
            slow_total: 0,
            slow_locked: 0,
            slow_unlocked: 0,
            donor_directed: 0,
        }
    }
}

/// Why a classification was aborted. No partial [`Supply`] is ever
/// returned alongside one of these.
#[derive(Clone, Copy, Debug, PartialEq, Eq, Structural)]
pub enum SupplyError {
    /// No record of the snapshot carries a community-wallet list.
    MissingRegistryRecord,
    /// A registry record was found but its donor-directed list could not
    /// be read.
    MissingDonorDirectedList,
    /// Summing the balances left the unsigned 64-bit range.
    ArithmeticOverflow,
}

/// The balance a record contributes; absence of a balance means zero.
pub open spec fn amount_of(r: RecordView) -> nat {
    match r.balance_amount {
        Some(b) => b as nat,
        None => 0,
    }
}

/// The unlocked part a slow-wallet record reports, zero when the record
/// carries no slow-wallet state.
pub open spec fn unlocked_of(r: RecordView) -> nat {
    match r.slow_unlocked {
        Some(u) => u as nat,
        None => 0,
    }
}

/// A record is donor directed when its address stands in the registry's
/// donor-directed list.
pub open spec fn is_donor_directed(r: RecordView, dd: Seq<AccountAddress>) -> bool {
    dd.contains(r.address)
}

/// A record counts as a slow wallet when it carries slow-wallet state and
/// is not already claimed by the donor-directed bucket.
pub open spec fn is_slow(r: RecordView, dd: Seq<AccountAddress>) -> bool {
    !is_donor_directed(r, dd) && r.slow_unlocked is Some
}

/// A slow-wallet record has a locked part exactly when some of its
/// balance is unlocked and the balance exceeds the unlocked part.
pub open spec fn has_locked_part(r: RecordView, dd: Seq<AccountAddress>) -> bool {
    is_slow(r, dd) && unlocked_of(r) > 0 && amount_of(r) > unlocked_of(r)
}

/// The validator overlay applies to slow-wallet records with a locked
/// part whose account also carries a validator configuration.
pub open spec fn is_validator_overlay(r: RecordView, dd: Seq<AccountAddress>) -> bool {
    has_locked_part(r, dd) && r.validator_config_present
}

pub open spec fn total_m() -> spec_fn(RecordView) -> nat {
    |r: RecordView| amount_of(r)
}

pub open spec fn donor_m(dd: Seq<AccountAddress>) -> spec_fn(RecordView) -> nat {
    |r: RecordView| if is_donor_directed(r, dd) {
        amount_of(r)
    } else {
        0
    }
}

pub open spec fn slow_total_m(dd: Seq<AccountAddress>) -> spec_fn(RecordView) -> nat {
    |r: RecordView| if is_slow(r, dd) {
        amount_of(r)
    } else {
        0
    }
}

pub open spec fn slow_unlocked_m(dd: Seq<AccountAddress>) -> spec_fn(RecordView) -> nat {
    |r: RecordView| if is_slow(r, dd) && unlocked_of(r) > 0 {
        amount_of(r)
    } else {
        0
    }
}

pub open spec fn slow_locked_m(dd: Seq<AccountAddress>) -> spec_fn(RecordView) -> nat {
    |r: RecordView| if has_locked_part(r, dd) {
        (amount_of(r) - unlocked_of(r)) as nat
    } else {
        0
    }
}

pub open spec fn validator_m(dd: Seq<AccountAddress>) -> spec_fn(RecordView) -> nat {
    |r: RecordView| if is_validator_overlay(r, dd) {
        amount_of(r)
    } else {
        0
    }
}

pub open spec fn validator_locked_m(dd: Seq<AccountAddress>) -> spec_fn(RecordView) -> nat {
    |r: RecordView| if is_validator_overlay(r, dd) {
        (amount_of(r) - unlocked_of(r)) as nat
    } else {
        0
    }
}

pub open spec fn normal_m(dd: Seq<AccountAddress>) -> spec_fn(RecordView) -> nat {
    |r: RecordView| if !is_donor_directed(r, dd) && r.slow_unlocked is None {
        amount_of(r)
    } else {
        0
    }
}

pub open spec fn sum_total(s: Seq<RecordView>) -> nat {
    sum_by(s, total_m())
}

pub open spec fn sum_donor(s: Seq<RecordView>, dd: Seq<AccountAddress>) -> nat {
    sum_by(s, donor_m(dd))
}

pub open spec fn sum_slow_total(s: Seq<RecordView>, dd: Seq<AccountAddress>) -> nat {
    sum_by(s, slow_total_m(dd))
}

pub open spec fn sum_slow_unlocked(s: Seq<RecordView>, dd: Seq<AccountAddress>) -> nat {
    sum_by(s, slow_unlocked_m(dd))
}

pub open spec fn sum_slow_locked(s: Seq<RecordView>, dd: Seq<AccountAddress>) -> nat {
    sum_by(s, slow_locked_m(dd))
}

pub open spec fn sum_validator(s: Seq<RecordView>, dd: Seq<AccountAddress>) -> nat {
    sum_by(s, validator_m(dd))
}

pub open spec fn sum_validator_locked(s: Seq<RecordView>, dd: Seq<AccountAddress>) -> nat {
    sum_by(s, validator_locked_m(dd))
}

pub open spec fn sum_normal(s: Seq<RecordView>, dd: Seq<AccountAddress>) -> nat {
    sum_by(s, normal_m(dd))
}

/// The Supply the classifier owes for records `s` and donor-directed
/// list `dd`, defined whenever `sum_total(s)` fits in 64 bits.
pub open spec fn supply_spec(s: Seq<RecordView>, dd: Seq<AccountAddress>) -> Supply {
    Supply {
        total: sum_total(s) as u64,
        normal: sum_normal(s, dd) as u64,
        validator: sum_validator(s, dd) as u64,
        validator_locked: sum_validator_locked(s, dd) as u64,
        slow_total: sum_slow_total(s, dd) as u64,
        slow_locked: sum_slow_locked(s, dd) as u64,
        slow_unlocked: sum_slow_unlocked(s, dd) as u64,
        donor_directed: sum_donor(s, dd) as u64,
    }
}

/// Whether some record carries the community-wallet list.
pub open spec fn has_registry(s: Seq<RecordView>) -> bool {
    exists|i: int| 0 <= i < s.len() && (#[trigger] s[i].community_wallet_list) is Some
}

/// The donor-directed list of the first record that carries one.
pub open spec fn registry_list(s: Seq<RecordView>) -> Seq<AccountAddress>
    decreases s.len(),
{
    if s.len() == 0 {
        Seq::empty()
    } else if s[0].community_wallet_list is Some {
        s[0].community_wallet_list->Some_0
    } else {
        registry_list(s.drop_first())
    }
}

/// What the classifier returns, for every input: the exact error, or the
/// exact Supply.
pub open spec fn classify(s: Seq<RecordView>) -> Result<Supply, SupplyError> {
    if !has_registry(s) {
        Err(SupplyError::MissingRegistryRecord)
    } else if sum_total(s) > u64::MAX {
        Err(SupplyError::ArithmeticOverflow)
    } else {
        Ok(supply_spec(s, registry_list(s)))
    }
}

/// Partition identity: every record's balance lands in exactly one of the
/// `normal`, slow, and donor-directed buckets, so `total` is their sum.
/// The validator counters are an overlay and take no part in this sum.
pub proof fn lemma_supply_partition(s: Seq<RecordView>, dd: Seq<AccountAddress>)
    ensures
        sum_total(s) == sum_donor(s, dd) + sum_slow_total(s, dd) + sum_normal(s, dd),
{
    let rest = |r: RecordView| (slow_total_m(dd))(r) + (normal_m(dd))(r);
    assert forall|i: int| 0 <= i < s.len() implies (total_m())(s[i]) == (donor_m(dd))(s[i]) + rest(
        s[i],
    ) by {}
    lemma_sum_by_split(s, total_m(), donor_m(dd), rest);
    assert forall|i: int| 0 <= i < s.len() implies rest(s[i]) == (slow_total_m(dd))(s[i]) + (
    normal_m(dd))(s[i]) by {}
    lemma_sum_by_split(s, rest, slow_total_m(dd), normal_m(dd));
}

/// Bound invariants: each bucket stays within the aggregate it refines;
/// the validator overlay stays within the slow counters it tags.
pub proof fn lemma_supply_bounds(s: Seq<RecordView>, dd: Seq<AccountAddress>)
    ensures
        sum_donor(s, dd) <= sum_total(s),
        sum_slow_total(s, dd) <= sum_total(s),
        sum_normal(s, dd) <= sum_total(s),
        sum_slow_unlocked(s, dd) <= sum_slow_total(s, dd),
        sum_slow_locked(s, dd) <= sum_slow_total(s, dd),
        sum_validator(s, dd) <= sum_slow_total(s, dd),
        sum_validator_locked(s, dd) <= sum_slow_locked(s, dd),
{
    lemma_sum_by_le(s, donor_m(dd), total_m());
    lemma_sum_by_le(s, slow_total_m(dd), total_m());
    lemma_sum_by_le(s, normal_m(dd), total_m());
    lemma_sum_by_le(s, slow_unlocked_m(dd), slow_total_m(dd));
    lemma_sum_by_le(s, slow_locked_m(dd), slow_total_m(dd));
    lemma_sum_by_le(s, validator_m(dd), slow_total_m(dd));
    lemma_sum_by_le(s, validator_locked_m(dd), slow_locked_m(dd));
}

/// One fold step: every counter of the prefix one longer grows by exactly
/// the record's contribution to it.
proof fn lemma_take_succ_all(s: Seq<RecordView>, dd: Seq<AccountAddress>, i: int)
    requires
        0 <= i < s.len(),
    ensures
        sum_total(s.take(i + 1)) == sum_total(s.take(i)) + amount_of(s[i]),
        sum_donor(s.take(i + 1), dd) == sum_donor(s.take(i), dd) + (donor_m(dd))(s[i]),
        sum_slow_total(s.take(i + 1), dd) == sum_slow_total(s.take(i), dd) + (slow_total_m(dd))(
            s[i],
        ),
        sum_slow_unlocked(s.take(i + 1), dd) == sum_slow_unlocked(s.take(i), dd) + (slow_unlocked_m(
            dd,
        ))(s[i]),
        sum_slow_locked(s.take(i + 1), dd) == sum_slow_locked(s.take(i), dd) + (slow_locked_m(dd))(
            s[i],
        ),
        sum_validator(s.take(i + 1), dd) == sum_validator(s.take(i), dd) + (validator_m(dd))(s[i]),
        sum_validator_locked(s.take(i + 1), dd) == sum_validator_locked(s.take(i), dd) + (
        validator_locked_m(dd))(s[i]),
        sum_normal(s.take(i + 1), dd) == sum_normal(s.take(i), dd) + (normal_m(dd))(s[i]),
{
    lemma_sum_by_take_succ(s, total_m(), i);
    lemma_sum_by_take_succ(s, donor_m(dd), i);
    lemma_sum_by_take_succ(s, slow_total_m(dd), i);
    lemma_sum_by_take_succ(s, slow_unlocked_m(dd), i);
    lemma_sum_by_take_succ(s, slow_locked_m(dd), i);
    lemma_sum_by_take_succ(s, validator_m(dd), i);
    lemma_sum_by_take_succ(s, validator_locked_m(dd), i);
    lemma_sum_by_take_succ(s, normal_m(dd), i);
}

/// The registry list comes from position `j` when `j` is the first
/// position that carries one.
proof fn lemma_registry_list_at(s: Seq<RecordView>, j: int)
    requires
        0 <= j < s.len(),
        s[j].community_wallet_list is Some,
        forall|k: int| 0 <= k < j ==> !((#[trigger] s[k].community_wallet_list) is Some),
    ensures
        has_registry(s),
        registry_list(s) == s[j].community_wallet_list->Some_0,
    decreases j,
{
    assert(s[j].community_wallet_list is Some);
    if j > 0 {
        assert(!(s[0].community_wallet_list is Some));
        assert forall|k: int| 0 <= k < j - 1 implies !((#[trigger] s.drop_first()[k]
            .community_wallet_list) is Some) by {
            assert(s.drop_first()[k] == s[k + 1]);
        }
        assert(s.drop_first()[j - 1] == s[j]);
        lemma_registry_list_at(s.drop_first(), j - 1);
    }
}

/// A snapshot with a registry holds a record carrying exactly the list
/// `registry_list` returns.
proof fn lemma_registry_witness(s: Seq<RecordView>)
    requires
        has_registry(s),
    ensures
        exists|i: int|
            0 <= i < s.len() && (#[trigger] s[i].community_wallet_list) == Some(registry_list(s)),
    decreases s.len(),
{
    if s[0].community_wallet_list is Some {
        assert(s[0].community_wallet_list == Some(registry_list(s)));
    } else {
        let i = choose|i: int|
            0 <= i < s.len() && (#[trigger] s[i].community_wallet_list) is Some;
        assert(s.drop_first()[i - 1] == s[i]);
        assert(has_registry(s.drop_first()));
        lemma_registry_witness(s.drop_first());
        let w = choose|w: int|
            0 <= w < s.drop_first().len() && (#[trigger] s.drop_first()[w].community_wallet_list)
                == Some(registry_list(s.drop_first()));
        assert(s[w + 1] == s.drop_first()[w]);
        assert(s[w + 1].community_wallet_list == Some(registry_list(s)));
    }
}

/// Registry presence carries over to any reordering of the records.
proof fn lemma_has_registry_congruence(s1: Seq<RecordView>, s2: Seq<RecordView>)
    requires
        s1.to_multiset() == s2.to_multiset(),
        has_registry(s1),
    ensures
        has_registry(s2),
{
    broadcast use group_to_multiset_ensures;

    let i = choose|i: int| 0 <= i < s1.len() && (#[trigger] s1[i].community_wallet_list) is Some;
    assert(s1.contains(s1[i]));
    assert(s2.to_multiset().count(s1[i]) > 0);
    assert(s2.contains(s1[i]));
    let j = choose|j: int| 0 <= j < s2.len() && s2[j] == s1[i];
    assert((s2[j].community_wallet_list) is Some);
}

/// All registry records of `s` carry the same donor-directed list. The
/// classifier's result is order independent only under this condition:
/// with two registry records carrying different lists, the order decides
/// which list is used.
pub open spec fn registry_lists_agree(s: Seq<RecordView>) -> bool {
    forall|i: int, j: int|
        0 <= i < s.len() && 0 <= j < s.len() && (#[trigger] s[i].community_wallet_list) is Some
            && (#[trigger] s[j].community_wallet_list) is Some ==> s[i].community_wallet_list
            == s[j].community_wallet_list
}

/// Permutation invariance: reordering the records changes neither the
/// Supply the classifier returns nor the error it fails with.
pub proof fn lemma_classify_permutation(s1: Seq<RecordView>, s2: Seq<RecordView>)
    requires
        s1.to_multiset() == s2.to_multiset(),
        registry_lists_agree(s1),
    ensures
        classify(s1) == classify(s2),
{
    broadcast use group_to_multiset_ensures;

    if has_registry(s1) {
        lemma_has_registry_congruence(s1, s2);
    }
    if has_registry(s2) {
        lemma_has_registry_congruence(s2, s1);
    }
    lemma_sum_by_permutation(s1, s2, total_m());
    if has_registry(s1) {
        lemma_registry_witness(s1);
        lemma_registry_witness(s2);
        let i1 = choose|i: int|
            0 <= i < s1.len() && (#[trigger] s1[i].community_wallet_list) == Some(
                registry_list(s1),
            );
        let i2 = choose|i: int|
            0 <= i < s2.len() && (#[trigger] s2[i].community_wallet_list) == Some(
                registry_list(s2),
            );
        assert(s2.contains(s2[i2]));
        assert(s1.to_multiset().count(s2[i2]) > 0);
        assert(s1.contains(s2[i2]));
        let k = choose|k: int| 0 <= k < s1.len() && s1[k] == s2[i2];
        assert(s1[i1].community_wallet_list == s1[k].community_wallet_list);
        let dd = registry_list(s1);
        assert(registry_list(s2) == dd);
        lemma_sum_by_permutation(s1, s2, donor_m(dd));
        lemma_sum_by_permutation(s1, s2, slow_total_m(dd));
        lemma_sum_by_permutation(s1, s2, slow_unlocked_m(dd));
        lemma_sum_by_permutation(s1, s2, slow_locked_m(dd));
        lemma_sum_by_permutation(s1, s2, validator_m(dd));
        lemma_sum_by_permutation(s1, s2, validator_locked_m(dd));
        lemma_sum_by_permutation(s1, s2, normal_m(dd));
        if sum_total(s1) <= u64::MAX {
            assert(supply_spec(s1, registry_list(s1)) =~= supply_spec(s2, registry_list(s2)));
        }
    }
}

/// Whether `a` stands in `list`.
fn contains_address(list: &Vec<AccountAddress>, a: AccountAddress) -> (b: bool)
    ensures
        b == list@.contains(a),
{
    let n = list.len();
    let mut i: usize = 0;
    while i < n
        invariant
            i <= n,
            n == list@.len(),
            forall|k: int| 0 <= k < i ==> list@[k] != a,
        decreases n - i,
    {
        if list[i].value == a.value {
            return true;
        }
        i = i + 1;
    }
    false
}

/// Folds one record into the accumulator: the balance goes to `total` and
/// to exactly one of the donor-directed, slow, or normal buckets, with the
/// validator overlay on top; a `total` that would leave 64 bits aborts.
fn inc_supply(acc: Supply, r: &AccountRecord, dd_wallet_list: &Vec<AccountAddress>) -> (res:
    Result<Supply, SupplyError>)
    requires
        acc.donor_directed + acc.slow_total + acc.normal == acc.total,
        acc.slow_unlocked <= acc.slow_total,
        acc.slow_locked <= acc.slow_total,
        acc.validator <= acc.slow_total,
        acc.validator_locked <= acc.slow_locked,
    ensures
        match res {
            Ok(new) => {
                let rv = r.deep_view();
                let dd = dd_wallet_list@;
                &&& acc.total + amount_of(rv) <= u64::MAX
                &&& new.total == acc.total + amount_of(rv)
                &&& new.donor_directed == acc.donor_directed + (donor_m(dd))(rv)
                &&& new.slow_total == acc.slow_total + (slow_total_m(dd))(rv)
                &&& new.slow_unlocked == acc.slow_unlocked + (slow_unlocked_m(dd))(rv)
                &&& new.slow_locked == acc.slow_locked + (slow_locked_m(dd))(rv)
                &&& new.validator == acc.validator + (validator_m(dd))(rv)
                &&& new.validator_locked == acc.validator_locked + (validator_locked_m(dd))(rv)
                &&& new.normal == acc.normal + (normal_m(dd))(rv)
            },
            Err(e) => e == SupplyError::ArithmeticOverflow && acc.total + amount_of(r.deep_view())
                > u64::MAX,
        },
{
    let amount: u64 = match r.balance_amount {
        Some(b) => b,
        None => 0,
    };
    let new_total = match acc.total.checked_add(amount) {
        Some(t) => t,
        None => {
            return Err(SupplyError::ArithmeticOverflow);
        },
    };
    let mut new = acc;
    new.total = new_total;
    if contains_address(dd_wallet_list, r.address) {
        new.donor_directed = new.donor_directed + amount;
    } else if let Some(sl) = r.slow_wallet_info {
        new.slow_total = new.slow_total + amount;
        if sl.unlocked_amount > 0 {
            new.slow_unlocked = new.slow_unlocked + amount;
            if amount > sl.unlocked_amount {
                // the account may have spent from the unlocked part, so
                // the unlocked threshold can exceed the balance; only the
                // excess balance counts as locked
                let locked = amount - sl.unlocked_amount;
                new.slow_locked = new.slow_locked + locked;
                if r.validator_config_present {
                    // a validator account with slow locked balance: tag
                    // the overlay counters, already inside the slow ones
                    new.validator = new.validator + amount;
                    new.validator_locked = new.validator_locked + locked;
                }
            }
        }
    } else {
        new.normal = new.normal + amount;
    }
    Ok(new)
}

/// Iterates over the snapshot and folds every balance into a [`Supply`]:
/// the donor-directed list is taken from the first record that carries
/// one, and every record's balance is then classified in one pass.
///
/// Returns exactly `classify` of the records: the `Supply` whose counters
/// are the per-bucket balance sums whenever a registry record exists and
/// the grand total fits 64 bits, and the exact error otherwise.
#[verifier::loop_isolation(false)]
pub fn get_supply_struct(rec: &Vec<AccountRecord>) -> (r: Result<Supply, SupplyError>)
    ensures
        r == classify(rec.deep_view()),
        match r {
            Ok(sup) => sup.total == sup.normal + sup.slow_total + sup.donor_directed
                && sup.slow_locked <= sup.slow_total && sup.slow_unlocked <= sup.slow_total
                && sup.validator_locked <= sup.slow_locked && sup.validator <= sup.slow_total,
            Err(_) => true,
        },
{
    let ghost s = rec.deep_view();
    let n = rec.len();

    // locate the registry record: the first with a community-wallet list
    let mut j: usize = 0;
    while j < n && rec[j].community_wallet_list.is_none()
        invariant
            j <= n,
            forall|k: int| 0 <= k < j ==> !((#[trigger] s[k].community_wallet_list) is Some),
        decreases n - j,
    {
        j = j + 1;
    }
    if j == n {
        proof {
            if has_registry(s) {
                let i = choose|i: int|
                    0 <= i < s.len() && (#[trigger] s[i].community_wallet_list) is Some;
                assert(false);
            }
        }
        return Err(SupplyError::MissingRegistryRecord);
    }
    proof {
        lemma_registry_list_at(s, j as int);
    }
    let dd_wallet_list = match &rec[j].community_wallet_list {
        Some(l) => l,
        None => {
            return Err(SupplyError::MissingDonorDirectedList);
        },
    };
    let ghost dd = dd_wallet_list@;
    proof {
        assert(dd == registry_list(s));
    }

    let mut acc = Supply {
        total: 0,
        normal: 0,
        validator: 0,
        validator_locked: 0,
        slow_total: 0,
        slow_locked: 0,
        slow_unlocked: 0,
        donor_directed: 0,
    };
    let mut i: usize = 0;
    while i < n
        invariant
            i <= n,
            sum_total(s.take(i as int)) <= u64::MAX,
            acc.total == sum_total(s.take(i as int)),
            acc.donor_directed == sum_donor(s.take(i as int), dd),
            acc.slow_total == sum_slow_total(s.take(i as int), dd),
            acc.slow_unlocked == sum_slow_unlocked(s.take(i as int), dd),
            acc.slow_locked == sum_slow_locked(s.take(i as int), dd),
            acc.validator == sum_validator(s.take(i as int), dd),
            acc.validator_locked == sum_validator_locked(s.take(i as int), dd),
            acc.normal == sum_normal(s.take(i as int), dd),
        decreases n - i,
    {
        proof {
            lemma_supply_partition(s.take(i as int), dd);
            lemma_supply_bounds(s.take(i as int), dd);
        }
        match inc_supply(acc, &rec[i], dd_wallet_list) {
            Ok(new_acc) => {
                proof {
                    lemma_take_succ_all(s, dd, i as int);
                }
                acc = new_acc;
            },
            Err(e) => {
                proof {
                    lemma_take_succ_all(s, dd, i as int);
                    lemma_sum_by_take_le(s, total_m(), i as int + 1);
                }
                return Err(e);
            },
        }
        i = i + 1;
    }
    proof {
        assert(s.take(n as int) =~= s);
        lemma_supply_partition(s, dd);
        lemma_supply_bounds(s, dd);
        assert(acc =~= supply_spec(s, dd));
    }
    Ok(acc)
}

} // verus!
