use vstd::prelude::*;
use vstd::string::StringExecFns;

pub mod laws;
pub mod table;

use crate::table::Table;

verus! {

/// The state of a registered account.
#[derive(Clone, Copy, Debug, PartialEq, Eq, Structural)]
pub enum Status {
    VALID,
    DEACTIVATED,
}

/// Why an operation on the registry was refused. A refused operation changes nothing.
#[derive(Clone, Copy, Debug, PartialEq, Eq, Structural)]
pub enum RegistryError {
    /// The account already has a status entry.
    AlreadyExists,
    /// The account has no status entry.
    NotFound,
    /// The account is not registered, or has been deactivated.
    InvalidAccountState,
    /// The content hash is already in the account's list.
    DuplicateRecord,
}

/// The storage key of the account of a raw identity: `"books:"` followed by it.
pub open spec fn account_key(id: Seq<char>) -> Seq<char> {
    seq!['b', 'o', 'o', 'k', 's', ':'] + id
}

/// Derives the storage key of an account from the caller's raw identity.
pub fn gen_account(account_id: &str) -> (r: String)
    ensures
        r@ == account_key(account_id@),
{
    let mut s = String::from_str("books:");
    proof {
        reveal_strlit("books:");
        assert(s@ =~= seq!['b', 'o', 'o', 'k', 's', ':']);
    }
    s.append(account_id);
    s
}

/// The account registry and its record ledger.
pub struct Contract {
    status: Table<Status>,
    created: Table<u64>,
    updated: Table<u64>,
    records: Table<u64>,
    lists: Table<Vec<String>>,
}

impl Contract {
    /// Status of each account key that was ever registered.
    pub closed spec fn statuses(&self) -> Map<Seq<char>, Status> {
        self.status@
    }

    /// Registration time of each account key that is currently valid.
    pub closed spec fn created_at(&self) -> Map<Seq<char>, u64> {
        self.created@
    }

    /// Time of the last record of each valid account key that has recorded.
    pub closed spec fn updated_at(&self) -> Map<Seq<char>, u64> {
        self.updated@
    }

    /// Time stored for each content hash that was ever recorded.
    pub closed spec fn record_times(&self) -> Map<Seq<char>, u64> {
        self.records@
    }

    /// The list of content hashes of each account key, in the order recorded.
    pub closed spec fn record_lists(&self) -> Map<Seq<char>, Seq<Seq<char>>> {
        self.lists@.map_values(|v: Vec<String>| v.deep_view())
    }

    /// The registry's invariant: the tables are well formed, a registration
    /// time is kept exactly for valid accounts, an update time only for valid
    /// accounts, and no list holds a hash twice.
    pub closed spec fn wf(&self) -> bool {
        &&& self.status.wf()
        &&& self.created.wf()
        &&& self.updated.wf()
        &&& self.records.wf()
        &&& self.lists.wf()
        &&& forall|k: Seq<char>|
            #[trigger] self.created_at().contains_key(k) <==> self.is_valid(k)
        &&& forall|k: Seq<char>| #[trigger] self.updated_at().contains_key(k) ==> self.is_valid(k)
        &&& forall|k: Seq<char>|
            #[trigger] self.record_lists().contains_key(k) ==> self.record_lists()[k].no_duplicates()
    }

    /// Whether the account key has status VALID.
    pub open spec fn is_valid(&self, k: Seq<char>) -> bool {
        self.statuses().contains_key(k) && self.statuses()[k] == Status::VALID
    }

    /// The list of an account key; empty where it has none.
    pub open spec fn list_of(&self, k: Seq<char>) -> Seq<Seq<char>> {
        if self.record_lists().contains_key(k) {
            self.record_lists()[k]
        } else {
            Seq::empty()
        }
    }

    /// The time stored for a content hash; 0 where none is.
    pub open spec fn record_time(&self, h: Seq<char>) -> u64 {
        if self.record_times().contains_key(h) {
            self.record_times()[h]
        } else {
            0
        }
    }

    /// Two registries hold the same state.
    pub open spec fn same_state(&self, other: &Contract) -> bool {
        &&& self.statuses() == other.statuses()
        &&& self.created_at() == other.created_at()
        &&& self.updated_at() == other.updated_at()
        &&& self.record_times() == other.record_times()
        &&& self.record_lists() == other.record_lists()
    }

    /// Outcome of `reg_account` for identity `id` at time `now`.
    pub open spec fn reg_account_post(
        pre: &Contract,
        id: Seq<char>,
        now: u64,
        post: &Contract,
        r: Result<(), RegistryError>,
    ) -> bool {
        let k = account_key(id);
        if pre.statuses().contains_key(k) {
            r == Err::<(), RegistryError>(RegistryError::AlreadyExists) && post.same_state(pre)
        } else {
            &&& r == Ok::<(), RegistryError>(())
            &&& post.statuses() == pre.statuses().insert(k, Status::VALID)
            &&& post.created_at() == pre.created_at().insert(k, now)
            &&& post.updated_at() == pre.updated_at()
            &&& post.record_times() == pre.record_times()
            &&& post.record_lists() == pre.record_lists()
        }
    }

    /// Outcome of `deactivate_account` for identity `id`.
    pub open spec fn deactivate_account_post(
        pre: &Contract,
        id: Seq<char>,
        post: &Contract,
        r: Result<(), RegistryError>,
    ) -> bool {
        let k = account_key(id);
        if !pre.statuses().contains_key(k) {
            r == Err::<(), RegistryError>(RegistryError::NotFound) && post.same_state(pre)
        } else {
            &&& r == Ok::<(), RegistryError>(())
            &&& post.statuses() == pre.statuses().insert(k, Status::DEACTIVATED)
            &&& post.created_at() == pre.created_at().remove(k)
            &&& post.updated_at() == pre.updated_at().remove(k)
            &&& post.record_times() == pre.record_times()
            &&& post.record_lists() == pre.record_lists()
        }
    }

    /// Outcome of `record` of hash `h` for identity `id` at time `now`.
    pub open spec fn record_post(
        pre: &Contract,
        id: Seq<char>,
        h: Seq<char>,
        now: u64,
        post: &Contract,
        r: Result<(), RegistryError>,
    ) -> bool {
        let k = account_key(id);
        if !pre.is_valid(k) {
            r == Err::<(), RegistryError>(RegistryError::InvalidAccountState) && post.same_state(pre)
        } else if pre.list_of(k).contains(h) {
            r == Err::<(), RegistryError>(RegistryError::DuplicateRecord) && post.same_state(pre)
        } else {
            &&& r == Ok::<(), RegistryError>(())
            &&& post.statuses() == pre.statuses()
            &&& post.created_at() == pre.created_at()
            &&& post.updated_at() == pre.updated_at().insert(k, now)
            &&& post.record_times() == pre.record_times().insert(h, now)
            &&& post.record_lists() == pre.record_lists().insert(k, pre.list_of(k).push(h))
        }
    }

    /// Outcome of `get_lists` for identity `id`.
    pub open spec fn get_lists_post(
        c: &Contract,
        id: Seq<char>,
        r: Result<Seq<Seq<char>>, RegistryError>,
    ) -> bool {
        let k = account_key(id);
        if c.is_valid(k) {
            r == Ok::<Seq<Seq<char>>, RegistryError>(c.list_of(k))
        } else {
            r == Err::<Seq<Seq<char>>, RegistryError>(RegistryError::InvalidAccountState)
        }
    }

    /// An empty registry.
    pub fn new() -> (r: Contract)
        ensures
            r.wf(),
            r.statuses() == Map::<Seq<char>, Status>::empty(),
            r.created_at() == Map::<Seq<char>, u64>::empty(),
            r.updated_at() == Map::<Seq<char>, u64>::empty(),
            r.record_times() == Map::<Seq<char>, u64>::empty(),
            r.record_lists() == Map::<Seq<char>, Seq<Seq<char>>>::empty(),
    {
        let r = Contract {
            status: Table::new(),
            created: Table::new(),
            updated: Table::new(),
            records: Table::new(),
            lists: Table::new(),
        };
        assert(r.record_lists() =~= Map::<Seq<char>, Seq<Seq<char>>>::empty());
        r
    }

    /// Fails unless the account key has status VALID.
    fn check_account_status(&self, account: &String) -> (r: Result<(), RegistryError>)
        requires
            self.wf(),
        ensures
            r is Ok <==> self.is_valid(account@),
            r is Err ==> r == Err::<(), RegistryError>(RegistryError::InvalidAccountState),
    {
        match self.status.get(account) {
            Some(Status::VALID) => Ok(()),
            _ => Err(RegistryError::InvalidAccountState),
        }
    }

    /// Stamps content hash `file_hash` at time `now` and appends it to the
    /// list of the caller `account_id`, whose account must be valid and must
    /// not hold the hash yet. The stored time of the hash is overwritten.
    pub fn record(
        &mut self,
        account_id: &str,
        file_hash: String,
        now: u64,
    ) -> (r: Result<(), RegistryError>)
        requires
            old(self).wf(),
        ensures
            final(self).wf(),
            Contract::record_post(&*old(self), account_id@, file_hash@, now, &*final(self), r),
    {
        let account = gen_account(account_id);
        if let Err(e) = self.check_account_status(&account) {
            return Err(e);
        }
        let mut list: Vec<String> = match self.lists.get(&account) {
            Some(l) => copy_list(l),
            None => Vec::new(),
        };
        assert(list.deep_view() == self.list_of(account@));
        if list_contains(&list, &file_hash) {
            return Err(RegistryError::DuplicateRecord);
        }
        let ghost pre = *self;
        let ghost old_list = list.deep_view();
        self.records.insert(&file_hash, now);
        list.push(file_hash);
        assert(list.deep_view() =~= old_list.push(file_hash@));
        self.lists.insert(&account, list);
        self.updated.insert(&account, now);
        proof {
            assert(self.record_lists() =~= pre.record_lists().insert(
                account@,
                old_list.push(file_hash@),
            ));
            assert forall|k: Seq<char>| #[trigger] self.record_lists().contains_key(k) implies
                self.record_lists()[k].no_duplicates() by {
                if k == account@ {
                    assert(old_list.push(file_hash@) == self.record_lists()[k]);
                    assert forall|i: int, j: int|
                        0 <= i < j < old_list.len() + 1 implies old_list.push(file_hash@)[i]
                        != old_list.push(file_hash@)[j] by {
                        if j == old_list.len() {
                            assert(old_list[i] == old_list.push(file_hash@)[i]);
                        }
                    }
                } else {
                    assert(pre.record_lists().contains_key(k));
                }
            }
            assert forall|k: Seq<char>|
                #[trigger] self.created_at().contains_key(k) <==> self.is_valid(k) by {
                assert(pre.created_at().contains_key(k) <==> pre.is_valid(k));
            }
            assert forall|k: Seq<char>| #[trigger] self.updated_at().contains_key(k) implies
                self.is_valid(k) by {
                if k != account@ {
                    assert(pre.updated_at().contains_key(k));
                }
            }
        }
        Ok(())
    }

    /// Registers the caller `account_id` at time `now`; fails where the
    /// account already has a status entry, deactivated ones included.
    pub fn reg_account(&mut self, account_id: &str, now: u64) -> (r: Result<(), RegistryError>)
        requires
            old(self).wf(),
        ensures
            final(self).wf(),
            Contract::reg_account_post(&*old(self), account_id@, now, &*final(self), r),
    {
        let account = gen_account(account_id);
        if self.status.contains_key(&account) {
            return Err(RegistryError::AlreadyExists);
        }
        let ghost pre = *self;
        self.status.insert(&account, Status::VALID);
        self.created.insert(&account, now);
        proof {
            assert forall|k: Seq<char>|
                #[trigger] self.created_at().contains_key(k) <==> self.is_valid(k) by {
                if k != account@ {
                    assert(pre.created_at().contains_key(k) <==> pre.is_valid(k));
                }
            }
            assert forall|k: Seq<char>| #[trigger] self.updated_at().contains_key(k) implies
                self.is_valid(k) by {
                assert(pre.updated_at().contains_key(k));
            }
            assert(self.record_lists() == pre.record_lists());
        }
        Ok(())
    }

    /// Deactivates the caller `account_id`, dropping its registration and
    /// update times; fails where the account has no status entry.
    pub fn deactivate_account(&mut self, account_id: &str) -> (r: Result<(), RegistryError>)
        requires
            old(self).wf(),
        ensures
            final(self).wf(),
            Contract::deactivate_account_post(&*old(self), account_id@, &*final(self), r),
    {
        let account = gen_account(account_id);
        if !self.status.contains_key(&account) {
            return Err(RegistryError::NotFound);
        }
        let ghost pre = *self;
        self.status.insert(&account, Status::DEACTIVATED);
        self.created.remove(&account);
        self.updated.remove(&account);
        proof {
            assert forall|k: Seq<char>|
                #[trigger] self.created_at().contains_key(k) <==> self.is_valid(k) by {
                if k != account@ {
                    assert(pre.created_at().contains_key(k) <==> pre.is_valid(k));
                }
            }
            assert forall|k: Seq<char>| #[trigger] self.updated_at().contains_key(k) implies
                self.is_valid(k) by {
                assert(pre.updated_at().contains_key(k));
            }
            assert(self.record_lists() == pre.record_lists());
        }
        Ok(())
    }

    /// The list of content hashes of the caller `account_id`, in the order
    /// recorded; fails unless the account is valid.
    pub fn get_lists(&self, account_id: &str) -> (r: Result<Vec<String>, RegistryError>)
        requires
            self.wf(),
        ensures
            Contract::get_lists_post(
                self,
                account_id@,
                match r {
                    Ok(v) => Ok(v.deep_view()),
                    Err(e) => Err(e),
                },
            ),
    {
        let account = gen_account(account_id);
        if let Err(e) = self.check_account_status(&account) {
            return Err(e);
        }
        match self.lists.get(&account) {
            Some(l) => {
                assert(self.record_lists().contains_key(account@));
                Ok(copy_list(l))
            },
            None => {
                let v: Vec<String> = Vec::new();
                assert(v.deep_view() =~= Seq::<Seq<char>>::empty());
                Ok(v)
            },
        }
    }

    /// The time stored for content hash `file_hash`, or 0 where none is.
    pub fn get_record(&self, file_hash: String) -> (r: u64)
        requires
            self.wf(),
        ensures
            r == self.record_time(file_hash@),
    {
        match self.records.get(&file_hash) {
            Some(t) => *t,
            None => 0,
        }
    }
}

impl Default for Contract {
    fn default() -> (r: Contract)
        ensures
            r.wf(),
            r.statuses() == Map::<Seq<char>, Status>::empty(),
            r.created_at() == Map::<Seq<char>, u64>::empty(),
            r.updated_at() == Map::<Seq<char>, u64>::empty(),
            r.record_times() == Map::<Seq<char>, u64>::empty(),
            r.record_lists() == Map::<Seq<char>, Seq<Seq<char>>>::empty(),
    {
        Contract::new()
    }
}

/// A copy of a list of strings.
fn copy_list(v: &Vec<String>) -> (r: Vec<String>)
    ensures
        r.deep_view() == v.deep_view(),
{
    let mut r: Vec<String> = Vec::new();
    let mut i: usize = 0;
    while i < v.len()
        invariant
            i <= v.len(),
            r.len() == i,
            forall|j: int| 0 <= j < i ==> #[trigger] r[j]@ == v[j]@,
        decreases v.len() - i,
    {
        r.push(v[i].clone());
        i = i + 1;
    }
    assert(r.deep_view() =~= v.deep_view());
    r
}

/// Whether a list of strings holds `h`.
fn list_contains(v: &Vec<String>, h: &String) -> (r: bool)
    ensures
        r == v.deep_view().contains(h@),
{
    let mut i: usize = 0;
    while i < v.len()
        invariant
            i <= v.len(),
            forall|j: int| 0 <= j < i ==> v[j]@ != h@,
        decreases v.len() - i,
    {
        if v[i] == *h {
            assert(v.deep_view()[i as int] == h@);
            return true;
        }
        i = i + 1;
    }
    assert forall|j: int| 0 <= j < v.len() implies v.deep_view()[j] != h@ by {
        assert(v.deep_view()[j] == v[j]@);
    }
    false
}

} // verus!
