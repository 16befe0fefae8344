//! Storage of tasks and webhook configurations, each scoped to its owner.
//!
//! An entry is found by its owner and its id together, so that isolation is a
//! property of the data and not of a check: what another owner holds reads as
//! absent.

use vstd::prelude::*;
use vstd::string::*;

use crate::auth::identity::{opt_identity_ref, Identity, IdentityV};
use crate::json::{items, Json, JsonV};
use crate::text::{join, owned, str_eq};

verus! {

/// The principal that a stored entry belongs to. Requests without an identity
/// share one owner, whose name is empty.
#[derive(Debug, PartialEq, Eq, Hash, PartialOrd, Ord)]
pub struct OwnerId(String);

impl View for OwnerId {
    type V = Seq<char>;

    closed spec fn view(&self) -> Seq<char> {
        self.0@
    }
}

/// The name of the owner of a request's entries.
pub open spec fn owner_of(identity: Option<IdentityV>) -> Seq<char> {
    match identity {
        Some(i) => i.id,
        None => Seq::empty(),
    }
}

impl OwnerId {
    /// The owner with the given name.
    pub fn named(name: &str) -> (r: OwnerId)
        ensures
            r@ == name@,
    {
        OwnerId(owned(name))
    }

    /// The owner that requests without an identity share.
    pub fn anonymous() -> (r: OwnerId)
        ensures
            r@ == Seq::<char>::empty(),
    {
        let r = OwnerId(String::new());
        assert(r@ =~= Seq::<char>::empty());
        r
    }

    /// The owner of a request's entries.
    pub fn from_identity(identity: Option<&Identity>) -> (r: OwnerId)
        ensures
            r@ == owner_of(opt_identity_ref(identity)),
    {
        match identity {
            Some(i) => OwnerId(i.id.clone()),
            None => OwnerId::anonymous(),
        }
    }

    /// The owner's name; empty for requests without an identity.
    pub fn as_str(&self) -> (r: &str)
        ensures
            r@ == self@,
    {
        self.0.as_str()
    }

    /// Whether this is the owner that requests without an identity share.
    pub fn is_anonymous(&self) -> (r: bool)
        ensures
            r == (self@.len() == 0),
    {
        self.0.as_str().is_empty()
    }

    /// A copy of the owner.
    pub fn copy(&self) -> (r: OwnerId)
        ensures
            r@ == self@,
    {
        OwnerId(self.0.clone())
    }
}

impl Clone for OwnerId {
    fn clone(&self) -> (r: Self)
        ensures
            r@ == self@,
    {
        self.copy()
    }
}

impl Default for OwnerId {
    fn default() -> (r: OwnerId)
        ensures
            r@ == Seq::<char>::empty(),
    {
        OwnerId::anonymous()
    }
}

/// On whose behalf a store is called.
#[derive(Debug)]
pub struct CallContext {
    owner: OwnerId,
}

impl View for CallContext {
    type V = Seq<char>;

    closed spec fn view(&self) -> Seq<char> {
        self.owner@
    }
}

impl CallContext {
    /// A call on behalf of an owner.
    pub fn new(owner: OwnerId) -> (r: CallContext)
        ensures
            r@ == owner@,
    {
        CallContext { owner }
    }

    /// A call on behalf of the owner that requests without an identity share.
    pub fn anonymous() -> (r: CallContext)
        ensures
            r@ == Seq::<char>::empty(),
    {
        CallContext { owner: OwnerId::anonymous() }
    }

    /// A call on behalf of a request's principal.
    pub fn from_identity(identity: Option<&Identity>) -> (r: CallContext)
        ensures
            r@ == owner_of(opt_identity_ref(identity)),
    {
        CallContext::new(OwnerId::from_identity(identity))
    }

    /// The owner that the call is scoped to.
    pub fn owner(&self) -> (r: &OwnerId)
        ensures
            r@ == self@,
    {
        &self.owner
    }

    /// A copy of the context.
    pub fn copy(&self) -> (r: CallContext)
        ensures
            r@ == self@,
    {
        CallContext { owner: self.owner.copy() }
    }
}

impl Clone for CallContext {
    fn clone(&self) -> (r: Self)
        ensures
            r@ == self@,
    {
        self.copy()
    }
}

impl Default for CallContext {
    fn default() -> (r: CallContext)
        ensures
            r@ == Seq::<char>::empty(),
    {
        CallContext::anonymous()
    }
}

/// Options for listing tasks. There are none yet.
#[derive(Debug, Clone, Copy)]
#[non_exhaustive]
pub struct ListParams {}

impl ListParams {
    /// Every task of the caller.
    pub fn new() -> (r: ListParams) {
        ListParams {  }
    }
}

impl Default for ListParams {
    fn default() -> (r: ListParams) {
        ListParams {  }
    }
}

/// Why a store failed. That an entry is missing, or another's, is no failure.
#[derive(Debug)]
pub enum StoreError {
    /// The backing store failed.
    Backend(String),
    /// A lock was left poisoned by a panic.
    LockPoisoned,
}

/// What a store failure says.
pub open spec fn store_error_text(e: StoreError) -> Seq<char> {
    match e {
        StoreError::Backend(m) => "task store backend failure: "@ + m@,
        StoreError::LockPoisoned => "task store lock poisoned"@,
    }
}

impl StoreError {
    /// The failure of a backend, by the words of its error.
    pub fn backend(err: &str) -> (r: StoreError)
        ensures
            r matches StoreError::Backend(m) && m@ == err@,
    {
        StoreError::Backend(owned(err))
    }

    /// The failure of a backend that has only a message.
    pub fn backend_msg(msg: &str) -> (r: StoreError)
        ensures
            r matches StoreError::Backend(m) && m@ == msg@,
    {
        StoreError::Backend(owned(msg))
    }

    /// What the failure says.
    pub fn message(&self) -> (r: String)
        ensures
            r@ == store_error_text(*self),
    {
        match self {
            StoreError::Backend(m) => join("task store backend failure: ", m.as_str()),
            StoreError::LockPoisoned => owned("task store lock poisoned"),
        }
    }
}

/// What a store holds: a value for each owner and id.
pub type Contents = Map<(Seq<char>, Seq<char>), JsonV>;

/// What an owner holds under an id.
pub open spec fn held(c: Contents, owner: Seq<char>, id: Seq<char>) -> Option<JsonV> {
    if c.dom().contains((owner, id)) {
        Some(c[(owner, id)])
    } else {
        None
    }
}

/// `values` are what an owner holds, each entry once, in some order.
pub open spec fn lists(values: Seq<JsonV>, c: Contents, owner: Seq<char>) -> bool {
    exists|ids: Seq<Seq<char>>| #[trigger] lists_by(values, c, owner, ids)
}

/// `values` are what an owner holds under `ids`, and the owner holds no more.
pub open spec fn lists_by(
    values: Seq<JsonV>,
    c: Contents,
    owner: Seq<char>,
    ids: Seq<Seq<char>>,
) -> bool {
    &&& ids.no_duplicates()
    &&& ids.len() == values.len()
    &&& forall|i: int| 0 <= i < ids.len() ==> held(c, owner, #[trigger] ids[i]) == Some(values[i])
    &&& forall|id: Seq<char>| #[trigger] held(c, owner, id) is Some ==> ids.contains(id)
}

/// One entry of a store.
#[derive(Debug)]
struct Record {
    owner: OwnerId,
    id: String,
    value: Json,
}

/// Entries by owner and id, each pair at most once.
#[derive(Debug)]
struct OwnerBuckets {
    records: Vec<Record>,
}

impl OwnerBuckets {
    spec fn key(&self, i: int) -> (Seq<char>, Seq<char>) {
        (self.records[i].owner@, self.records[i].id@)
    }

    spec fn wf(&self) -> bool {
        forall|i: int, j: int|
            0 <= i < j < self.records.len() ==> #[trigger] self.key(i) != #[trigger] self.key(j)
    }

    spec fn has(&self, k: (Seq<char>, Seq<char>)) -> bool {
        exists|i: int| 0 <= i < self.records.len() && #[trigger] self.key(i) == k
    }

    spec fn contents(&self) -> Contents {
        Map::new(
            |k: (Seq<char>, Seq<char>)| self.has(k),
            |k: (Seq<char>, Seq<char>)|
                self.records[choose|i: int|
                    0 <= i < self.records.len() && #[trigger] self.key(i) == k].value@,
        )
    }

    proof fn entry(&self, i: int)
        requires
            self.wf(),
            0 <= i < self.records.len(),
        ensures
            self.contents().dom().contains(self.key(i)),
            self.contents()[self.key(i)] == self.records[i].value@,
    {
        let k = self.key(i);
        assert(self.has(k));
        let j = choose|j: int| 0 <= j < self.records.len() && #[trigger] self.key(j) == k;
        if j < i {
            assert(self.key(j) != self.key(i));
        } else if i < j {
            assert(self.key(i) != self.key(j));
        }
    }

    fn new() -> (r: OwnerBuckets)
        ensures
            r.wf(),
            r.contents() == Map::<(Seq<char>, Seq<char>), JsonV>::empty(),
    {
        let r = OwnerBuckets { records: Vec::new() };
        assert(r.contents() =~= Map::empty());
        r
    }

    fn find(&self, id: &str, ctx: &CallContext) -> (r: Option<usize>)
        ensures
            match r {
                Some(i) => i < self.records.len() && self.key(i as int) == (ctx@, id@),
                None => !self.has((ctx@, id@)),
            },
    {
        let mut i: usize = 0;
        while i < self.records.len()
            invariant
                i <= self.records.len(),
                forall|k: int| 0 <= k < i ==> #[trigger] self.key(k) != (ctx@, id@),
            decreases self.records.len() - i,
        {
            if str_eq(self.records[i].owner.as_str(), ctx.owner().as_str()) && str_eq(
                self.records[i].id.as_str(),
                id,
            ) {
                return Some(i);
            }
            i += 1;
        }
        None
    }

    fn save(&mut self, id: &str, value: Json, ctx: &CallContext)
        requires
            old(self).wf(),
        ensures
            final(self).wf(),
            final(self).contents() == old(self).contents().insert((ctx@, id@), value@),
    {
        let ghost k = (ctx@, id@);
        let ghost before = *self;
        let record = Record { owner: ctx.owner().copy(), id: owned(id), value };
        match self.find(id, ctx) {
            Some(i) => {
                self.records.set(i, record);
                proof {
                    assert forall|j: int| 0 <= j < self.records.len() implies #[trigger] self.key(j)
                        == before.key(j) by {}
                    assert(self.wf()) by {
                        assert forall|a: int, b: int|
                            0 <= a < b < self.records.len() implies #[trigger] self.key(a)
                            != #[trigger] self.key(b) by {
                            assert(before.key(a) != before.key(b));
                        }
                    }
                    assert forall|q: (Seq<char>, Seq<char>)| self.has(q) <==> before.has(q) by {
                        if self.has(q) {
                            let j = choose|j: int|
                                0 <= j < self.records.len() && #[trigger] self.key(j) == q;
                            assert(before.key(j) == q);
                        }
                        if before.has(q) {
                            let j = choose|j: int|
                                0 <= j < before.records.len() && #[trigger] before.key(j) == q;
                            assert(self.key(j) == q);
                        }
                    }
                    assert forall|q: (Seq<char>, Seq<char>)| self.has(q) implies self.contents()[q]
                        == before.contents().insert(k, value@)[q] by {
                        let j = choose|j: int|
                            0 <= j < self.records.len() && #[trigger] self.key(j) == q;
                        self.entry(j);
                        before.entry(j);
                        if q == k {
                            self.entry(i as int);
                        } else {
                            assert(j != i);
                        }
                    }
                    assert(before.has(k)) by {
                        assert(before.key(i as int) == k);
                    }
                    assert(self.contents() =~= before.contents().insert(k, value@));
                }
            },
            None => {
                self.records.push(record);
                proof {
                    let n = before.records.len() as int;
                    assert forall|j: int| 0 <= j < n implies #[trigger] self.key(j) == before.key(
                        j,
                    ) by {}
                    assert(self.key(n) == k);
                    assert(self.wf()) by {
                        assert forall|a: int, b: int|
                            0 <= a < b < self.records.len() implies #[trigger] self.key(a)
                            != #[trigger] self.key(b) by {
                            if b < n {
                                assert(before.key(a) != before.key(b));
                            } else {
                                assert(before.key(a) != k);
                            }
                        }
                    }
                    assert forall|q: (Seq<char>, Seq<char>)|
                        self.has(q) <==> before.has(q) || q == k by {
                        if self.has(q) && q != k {
                            let j = choose|j: int|
                                0 <= j < self.records.len() && #[trigger] self.key(j) == q;
                            assert(before.key(j) == q);
                        }
                        if before.has(q) {
                            let j = choose|j: int|
                                0 <= j < before.records.len() && #[trigger] before.key(j) == q;
                            assert(self.key(j) == q);
                        }
                    }
                    assert forall|q: (Seq<char>, Seq<char>)| self.has(q) implies self.contents()[q]
                        == before.contents().insert(k, value@)[q] by {
                        let j = choose|j: int|
                            0 <= j < self.records.len() && #[trigger] self.key(j) == q;
                        self.entry(j);
                        if j < n {
                            before.entry(j);
                        }
                    }
                    assert(self.contents() =~= before.contents().insert(k, value@));
                }
            },
        }
    }

    fn get(&self, id: &str, ctx: &CallContext) -> (r: Option<Json>)
        requires
            self.wf(),
        ensures
            crate::json::opt(r) == held(self.contents(), ctx@, id@),
    {
        match self.find(id, ctx) {
            Some(i) => {
                proof {
                    self.entry(i as int);
                }
                Some(self.records[i].value.copy())
            },
            None => None,
        }
    }

    fn delete(&mut self, id: &str, ctx: &CallContext)
        requires
            old(self).wf(),
        ensures
            final(self).wf(),
            final(self).contents() == old(self).contents().remove((ctx@, id@)),
    {
        let ghost k = (ctx@, id@);
        let ghost before = *self;
        match self.find(id, ctx) {
            Some(i) => {
                self.records.remove(i);
                proof {
                    assert forall|j: int| 0 <= j < self.records.len() implies #[trigger] self.key(j)
                        == before.key(
                        if j < i {
                            j
                        } else {
                            j + 1
                        },
                    ) by {}
                    assert(self.wf()) by {
                        assert forall|a: int, b: int|
                            0 <= a < b < self.records.len() implies #[trigger] self.key(a)
                            != #[trigger] self.key(b) by {
                            let a2 = if a < i {
                                a
                            } else {
                                a + 1
                            };
                            let b2 = if b < i {
                                b
                            } else {
                                b + 1
                            };
                            assert(before.key(a2) != before.key(b2));
                        }
                    }
                    assert forall|q: (Seq<char>, Seq<char>)|
                        self.has(q) <==> before.has(q) && q != k by {
                        if self.has(q) {
                            let j = choose|j: int|
                                0 <= j < self.records.len() && #[trigger] self.key(j) == q;
                            let j2 = if j < i {
                                j
                            } else {
                                j + 1
                            };
                            assert(before.key(j2) == q);
                            if j2 < i {
                                assert(before.key(j2) != before.key(i as int));
                            } else {
                                assert(before.key(i as int) != before.key(j2));
                            }
                        }
                        if before.has(q) && q != k {
                            let j = choose|j: int|
                                0 <= j < before.records.len() && #[trigger] before.key(j) == q;
                            let j2 = if j < i {
                                j
                            } else {
                                j - 1
                            };
                            assert(self.key(j2) == q);
                        }
                    }
                    assert forall|q: (Seq<char>, Seq<char>)| self.has(q) implies self.contents()[q]
                        == before.contents()[q] by {
                        let j = choose|j: int|
                            0 <= j < self.records.len() && #[trigger] self.key(j) == q;
                        self.entry(j);
                        before.entry(
                            if j < i {
                                j
                            } else {
                                j + 1
                            },
                        );
                    }
                    assert(self.contents() =~= before.contents().remove(k));
                }
            },
            None => {
                assert(self.contents() =~= before.contents().remove(k));
            },
        }
    }

    fn list(&self, ctx: &CallContext) -> (r: Vec<Json>)
        requires
            self.wf(),
        ensures
            lists(items(r@), self.contents(), ctx@),
    {
        let mut out: Vec<Json> = Vec::new();
        let ghost mut ids: Seq<Seq<char>> = Seq::empty();
        let ghost mut at: Seq<int> = Seq::empty();
        let mut i: usize = 0;
        while i < self.records.len()
            invariant
                i <= self.records.len(),
                self.wf(),
                out.len() == ids.len(),
                out.len() == at.len(),
                forall|k: int|
                    0 <= k < at.len() ==> 0 <= #[trigger] at[k] < i && self.key(at[k]) == (
                        ctx@,
                        ids[k],
                    ) && items(out@)[k] == self.records[at[k]].value@,
                forall|k: int, l: int| 0 <= k < l < at.len() ==> #[trigger] at[k] < #[trigger] at[l],
                forall|j: int|
                    0 <= j < i && (#[trigger] self.key(j)).0 == ctx@ ==> ids.contains(
                        self.key(j).1,
                    ),
            decreases self.records.len() - i,
        {
            if str_eq(self.records[i].owner.as_str(), ctx.owner().as_str()) {
                let ghost prev = out@;
                out.push(self.records[i].value.copy());
                proof {
                    let new_ids = ids.push(self.records[i as int].id@);
                    assert(items(out@) =~= items(prev).push(self.records[i as int].value@));
                    assert forall|j: int|
                        0 <= j < i + 1 && (#[trigger] self.key(j)).0
                            == ctx@ implies new_ids.contains(self.key(j).1) by {
                        if j == i {
                            assert(new_ids[new_ids.len() - 1] == self.key(j).1);
                        } else {
                            let p = choose|p: int| 0 <= p < ids.len() && ids[p] == self.key(j).1;
                            assert(new_ids[p] == self.key(j).1);
                        }
                    }
                    ids = new_ids;
                    at = at.push(i as int);
                }
            }
            i += 1;
        }
        proof {
            let c = self.contents();
            assert forall|a: int, b: int|
                0 <= a < ids.len() && 0 <= b < ids.len() && a != b implies ids[a] != ids[b] by {
                if a < b {
                    assert(at[a] < at[b]);
                    assert(self.key(at[a]) != self.key(at[b]));
                } else {
                    assert(at[b] < at[a]);
                    assert(self.key(at[b]) != self.key(at[a]));
                }
            }
            assert forall|k: int| 0 <= k < ids.len() implies held(c, ctx@, #[trigger] ids[k])
                == Some(items(out@)[k]) by {
                self.entry(at[k]);
            }
            assert forall|id: Seq<char>| #[trigger]
                held(c, ctx@, id) is Some implies ids.contains(id) by {
                assert(self.has((ctx@, id)));
                let j = choose|j: int|
                    0 <= j < self.records.len() && #[trigger] self.key(j) == (ctx@, id);
                assert(self.key(j).0 == ctx@);
            }
            assert(lists_by(items(out@), c, ctx@, ids));
        }
        out
    }

    fn is_empty(&self) -> (r: bool)
        ensures
            r == (self.contents() == Map::<(Seq<char>, Seq<char>), JsonV>::empty()),
    {
        proof {
            if self.records.len() == 0 {
                assert(self.contents() =~= Map::empty());
            } else {
                assert(self.has(self.key(0)));
                assert(self.contents().dom().contains(self.key(0)));
            }
        }
        self.records.len() == 0
    }
}

/// Tasks by owner, held in memory.
#[derive(Debug)]
pub struct InMemoryTaskStore {
    tasks: OwnerBuckets,
}

impl InMemoryTaskStore {
    /// What the store holds.
    pub closed spec fn contents(&self) -> Contents {
        self.tasks.contents()
    }

    /// No owner holds an id twice.
    pub closed spec fn wf(&self) -> bool {
        self.tasks.wf()
    }

    /// An empty store.
    pub fn new() -> (r: InMemoryTaskStore)
        ensures
            r.wf(),
            r.contents() == Map::<(Seq<char>, Seq<char>), JsonV>::empty(),
    {
        InMemoryTaskStore { tasks: OwnerBuckets::new() }
    }

    /// Store or replace a task of the caller.
    pub fn save(&mut self, task_id: &str, task: Json, ctx: &CallContext) -> (r: Result<
        (),
        StoreError,
    >)
        requires
            old(self).wf(),
        ensures
            final(self).wf(),
            r is Ok,
            final(self).contents() == old(self).contents().insert((ctx@, task_id@), task@),
    {
        self.tasks.save(task_id, task, ctx);
        Ok(())
    }

    /// A task of the caller; nothing where it does not exist or is another's.
    pub fn get(&self, task_id: &str, ctx: &CallContext) -> (r: Result<Option<Json>, StoreError>)
        requires
            self.wf(),
        ensures
            r matches Ok(t) && crate::json::opt(t) == held(self.contents(), ctx@, task_id@),
    {
        Ok(self.tasks.get(task_id, ctx))
    }

    /// Remove a task of the caller; nothing happens where there is none.
    pub fn delete(&mut self, task_id: &str, ctx: &CallContext) -> (r: Result<(), StoreError>)
        requires
            old(self).wf(),
        ensures
            final(self).wf(),
            r is Ok,
            final(self).contents() == old(self).contents().remove((ctx@, task_id@)),
    {
        self.tasks.delete(task_id, ctx);
        Ok(())
    }

    /// Every task of the caller, each once.
    pub fn list(&self, params: &ListParams, ctx: &CallContext) -> (r: Result<
        Vec<Json>,
        StoreError,
    >)
        requires
            self.wf(),
        ensures
            r matches Ok(v) && lists(items(v@), self.contents(), ctx@),
    {
        Ok(self.tasks.list(ctx))
    }

    /// Whether no owner holds anything.
    pub fn is_empty(&self) -> (r: bool)
        ensures
            r == (self.contents() == Map::<(Seq<char>, Seq<char>), JsonV>::empty()),
    {
        self.tasks.is_empty()
    }
}

impl Default for InMemoryTaskStore {
    fn default() -> (r: InMemoryTaskStore)
        ensures
            r.wf(),
            r.contents() == Map::<(Seq<char>, Seq<char>), JsonV>::empty(),
    {
        InMemoryTaskStore::new()
    }
}

/// Webhook configurations by owner, held in memory.
#[derive(Debug)]
pub struct InMemoryPushConfigStore {
    configs: OwnerBuckets,
}

impl InMemoryPushConfigStore {
    /// What the store holds.
    pub closed spec fn contents(&self) -> Contents {
        self.configs.contents()
    }

    /// No owner holds an id twice.
    pub closed spec fn wf(&self) -> bool {
        self.configs.wf()
    }

    /// An empty store.
    pub fn new() -> (r: InMemoryPushConfigStore)
        ensures
            r.wf(),
            r.contents() == Map::<(Seq<char>, Seq<char>), JsonV>::empty(),
    {
        InMemoryPushConfigStore { configs: OwnerBuckets::new() }
    }

    /// Store or replace the configuration for a task of the caller.
    pub fn save(&mut self, task_id: &str, config: Json, ctx: &CallContext) -> (r: Result<
        (),
        StoreError,
    >)
        requires
            old(self).wf(),
        ensures
            final(self).wf(),
            r is Ok,
            final(self).contents() == old(self).contents().insert((ctx@, task_id@), config@),
    {
        self.configs.save(task_id, config, ctx);
        Ok(())
    }

    /// The configuration for a task of the caller; nothing where there is none.
    pub fn get(&self, task_id: &str, ctx: &CallContext) -> (r: Result<Option<Json>, StoreError>)
        requires
            self.wf(),
        ensures
            r matches Ok(t) && crate::json::opt(t) == held(self.contents(), ctx@, task_id@),
    {
        Ok(self.configs.get(task_id, ctx))
    }

    /// Remove the configuration for a task of the caller.
    pub fn delete(&mut self, task_id: &str, ctx: &CallContext) -> (r: Result<(), StoreError>)
        requires
            old(self).wf(),
        ensures
            final(self).wf(),
            r is Ok,
            final(self).contents() == old(self).contents().remove((ctx@, task_id@)),
    {
        self.configs.delete(task_id, ctx);
        Ok(())
    }
}

impl Default for InMemoryPushConfigStore {
    fn default() -> (r: InMemoryPushConfigStore)
        ensures
            r.wf(),
            r.contents() == Map::<(Seq<char>, Seq<char>), JsonV>::empty(),
    {
        InMemoryPushConfigStore::new()
    }
}

/// What an owner stores is what that owner reads.
pub proof fn read_after_write(c: Contents, owner: Seq<char>, id: Seq<char>, value: JsonV)
    ensures
        held(c.insert((owner, id), value), owner, id) == Some(value),
        held(c.remove((owner, id)), owner, id) is None,
{
}

/// What one owner stores or removes changes nothing that another owner reads,
/// under the same id or under any other.
pub proof fn owners_are_isolated(
    c: Contents,
    owner: Seq<char>,
    id: Seq<char>,
    value: JsonV,
    other: Seq<char>,
    other_id: Seq<char>,
)
    requires
        other != owner,
    ensures
        held(c.insert((owner, id), value), other, other_id) == held(c, other, other_id),
        held(c.remove((owner, id)), other, other_id) == held(c, other, other_id),
{
}

/// A listing holds the caller's entries and no other's.
pub proof fn listing_is_scoped(values: Seq<JsonV>, c: Contents, owner: Seq<char>, i: int)
    requires
        lists(values, c, owner),
        0 <= i < values.len(),
    ensures
        exists|id: Seq<char>| #[trigger] held(c, owner, id) == Some(values[i]),
{
    let ids = choose|ids: Seq<Seq<char>>| #[trigger] lists_by(values, c, owner, ids);
    assert(held(c, owner, ids[i]) == Some(values[i]));
}

/// Every entry of the caller is in a listing.
pub proof fn listing_is_complete(
    values: Seq<JsonV>,
    c: Contents,
    owner: Seq<char>,
    id: Seq<char>,
)
    requires
        lists(values, c, owner),
        held(c, owner, id) is Some,
    ensures
        values.contains(held(c, owner, id)->0),
{
    let ids = choose|ids: Seq<Seq<char>>| #[trigger] lists_by(values, c, owner, ids);
    assert(ids.contains(id));
    let i = choose|i: int| 0 <= i < ids.len() && ids[i] == id;
    assert(values[i] == held(c, owner, id)->0);
}

/// Removing the one entry that is held leaves nothing behind.
pub proof fn emptied_store_is_empty(owner: Seq<char>, id: Seq<char>, value: JsonV)
    ensures
        Map::<(Seq<char>, Seq<char>), JsonV>::empty().insert((owner, id), value).remove((owner, id))
            == Map::<(Seq<char>, Seq<char>), JsonV>::empty(),
{
    assert(Map::<(Seq<char>, Seq<char>), JsonV>::empty().insert((owner, id), value).remove(
        (owner, id),
    ) =~= Map::<(Seq<char>, Seq<char>), JsonV>::empty());
}

/// Whose a task is, is told by the id of the identity alone; what has no identity
/// belongs to nobody.
pub proof fn owners_are_told_by_their_ids(a: IdentityV, b: IdentityV)
    ensures
        owner_of(Some(a)) == owner_of(Some(b)) <==> a.id == b.id,
        owner_of(Some(a)) == a.id,
        owner_of(None).len() == 0,
        a.id.len() > 0 ==> owner_of(Some(a)) != owner_of(None),
{
}

/// A failure of a store is told by what failed.
pub proof fn store_failures_are_told(e: StoreError)
    ensures
        e matches StoreError::Backend(m) ==> store_error_text(e) == "task store backend failure: "@
            + m@,
        e is LockPoisoned ==> store_error_text(e) == "task store lock poisoned"@,
{
}

} // verus!
