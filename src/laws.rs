use vstd::prelude::*;

use crate::{account_key, Contract, RegistryError};

verus! {

/// Registering an identity that has no account succeeds, and registering it
/// a second time then fails with `AlreadyExists`.
pub proof fn lemma_register_once(
    c0: Contract,
    c1: Contract,
    c2: Contract,
    id: Seq<char>,
    t1: u64,
    t2: u64,
    r1: Result<(), RegistryError>,
    r2: Result<(), RegistryError>,
)
    requires
        !c0.statuses().contains_key(account_key(id)),
        Contract::reg_account_post(&c0, id, t1, &c1, r1),
        Contract::reg_account_post(&c1, id, t2, &c2, r2),
    ensures
        r1 == Ok::<(), RegistryError>(()),
        r2 == Err::<(), RegistryError>(RegistryError::AlreadyExists),
{
    assert(c1.statuses().contains_key(account_key(id)));
}

/// Deactivating a registered identity succeeds, and deactivating it again
/// succeeds too and leaves the state as the first call left it.
pub proof fn lemma_deactivate_idempotent(
    c0: Contract,
    c1: Contract,
    c2: Contract,
    id: Seq<char>,
    r1: Result<(), RegistryError>,
    r2: Result<(), RegistryError>,
)
    requires
        c0.statuses().contains_key(account_key(id)),
        Contract::deactivate_account_post(&c0, id, &c1, r1),
        Contract::deactivate_account_post(&c1, id, &c2, r2),
    ensures
        r1 == Ok::<(), RegistryError>(()),
        r2 == Ok::<(), RegistryError>(()),
        c2.same_state(&c1),
{
    let k = account_key(id);
    assert(c1.statuses().contains_key(k));
    assert(c2.statuses() =~= c1.statuses());
    assert(c2.created_at() =~= c1.created_at());
    assert(c2.updated_at() =~= c1.updated_at());
}

/// Recording for an identity that was never registered fails with
/// `InvalidAccountState`.
pub proof fn lemma_record_unregistered(
    c0: Contract,
    c1: Contract,
    id: Seq<char>,
    h: Seq<char>,
    t: u64,
    r: Result<(), RegistryError>,
)
    requires
        !c0.statuses().contains_key(account_key(id)),
        Contract::record_post(&c0, id, h, t, &c1, r),
    ensures
        r == Err::<(), RegistryError>(RegistryError::InvalidAccountState),
{
}

/// Recording for an identity just after deactivating it fails with
/// `InvalidAccountState`.
pub proof fn lemma_record_after_deactivate(
    c0: Contract,
    c1: Contract,
    c2: Contract,
    id: Seq<char>,
    h: Seq<char>,
    t: u64,
    r1: Result<(), RegistryError>,
    r2: Result<(), RegistryError>,
)
    requires
        Contract::deactivate_account_post(&c0, id, &c1, r1),
        Contract::record_post(&c1, id, h, t, &c2, r2),
    ensures
        r2 == Err::<(), RegistryError>(RegistryError::InvalidAccountState),
{
    let k = account_key(id);
    if r1 is Ok {
        assert(c1.statuses()[k] == crate::Status::DEACTIVATED);
    }
}

/// For a valid account, recording a new hash succeeds and recording the same
/// hash again fails with `DuplicateRecord`; the list grows by one entry only.
pub proof fn lemma_record_duplicate(
    c0: Contract,
    c1: Contract,
    c2: Contract,
    id: Seq<char>,
    h: Seq<char>,
    t1: u64,
    t2: u64,
    r1: Result<(), RegistryError>,
    r2: Result<(), RegistryError>,
)
    requires
        c0.is_valid(account_key(id)),
        !c0.list_of(account_key(id)).contains(h),
        Contract::record_post(&c0, id, h, t1, &c1, r1),
        Contract::record_post(&c1, id, h, t2, &c2, r2),
    ensures
        r1 == Ok::<(), RegistryError>(()),
        r2 == Err::<(), RegistryError>(RegistryError::DuplicateRecord),
        c2.list_of(account_key(id)) == c0.list_of(account_key(id)).push(h),
        c2.list_of(account_key(id)).len() == c0.list_of(account_key(id)).len() + 1,
{
    let k = account_key(id);
    let l = c0.list_of(k).push(h);
    assert(c1.list_of(k) == l);
    assert(l[l.len() - 1] == h);
}

/// An empty registry stores no time for any hash: `get_record` gives 0.
pub proof fn lemma_no_time_before_record(c: Contract, h: Seq<char>)
    requires
        c.record_times() == Map::<Seq<char>, u64>::empty(),
    ensures
        c.record_time(h) == 0,
{
}

/// Recording another hash, or a refused record of any hash, leaves the time
/// stored for `h` as it was.
pub proof fn lemma_time_kept_by_other_records(
    c0: Contract,
    c1: Contract,
    id: Seq<char>,
    h: Seq<char>,
    g: Seq<char>,
    t: u64,
    r: Result<(), RegistryError>,
)
    requires
        Contract::record_post(&c0, id, g, t, &c1, r),
        g != h || r is Err,
    ensures
        c1.record_time(h) == c0.record_time(h),
{
}

/// After a successful record of `h` at time `t`, the time stored for `h` is `t`.
pub proof fn lemma_time_after_record(
    c0: Contract,
    c1: Contract,
    id: Seq<char>,
    h: Seq<char>,
    t: u64,
)
    requires
        Contract::record_post(&c0, id, h, t, &c1, Ok::<(), RegistryError>(())),
    ensures
        c1.record_time(h) == t,
{
}

/// For a valid account with no records, recording `h1` and then a different
/// `h2` lists exactly `[h1, h2]`.
pub proof fn lemma_list_in_order(
    c0: Contract,
    c1: Contract,
    c2: Contract,
    id: Seq<char>,
    h1: Seq<char>,
    h2: Seq<char>,
    t1: u64,
    t2: u64,
    r1: Result<(), RegistryError>,
    r2: Result<(), RegistryError>,
)
    requires
        c0.is_valid(account_key(id)),
        c0.list_of(account_key(id)) == Seq::<Seq<char>>::empty(),
        h1 != h2,
        Contract::record_post(&c0, id, h1, t1, &c1, r1),
        Contract::record_post(&c1, id, h2, t2, &c2, r2),
    ensures
        r1 == Ok::<(), RegistryError>(()),
        r2 == Ok::<(), RegistryError>(()),
        c2.list_of(account_key(id)) == seq![h1, h2],
{
    let k = account_key(id);
    assert(c1.list_of(k) =~= seq![h1]);
    assert(!c1.list_of(k).contains(h2)) by {
        if c1.list_of(k).contains(h2) {
            assert(c1.list_of(k)[0] == h1);
        }
    }
    assert(c2.list_of(k) =~= seq![h1, h2]);
}

} // verus!
