use vstd::prelude::*;

use crate::errors::Error;
use crate::event::EventModel;
use crate::inode::InodeModel;
use crate::model::{
    add_inode_spec, change_permission_spec, create_root_spec, fetch_metadata_spec, owner_list,
    unlink_inode_spec, StoreModel,
};
use crate::perm::{can_access, last_digit, Access};

verus! {

/// Root creation: a successful root creation stores exactly one inode for
/// the identity — a directory with index 0, no parent and the default
/// mode `700` — and an empty children entry keyed by its hash.
pub proof fn lemma_root_creation(
    s: StoreModel,
    did: Seq<u8>,
    hash: Seq<u8>,
    metadata: Seq<u8>,
    now: u64,
)
    requires
        create_root_spec(s, did, hash, metadata, now).1 is Ok,
    ensures
        ({
            let t = create_root_spec(s, did, hash, metadata, now).0;
            &&& t.owners.contains_key(did)
            &&& t.owners[did].len() == 1
            &&& t.owners[did][0].index == 0
            &&& t.owners[did][0].parent is None
            &&& t.owners[did][0].permission == 700
            &&& t.owners[did][0].is_dir
            &&& t.owners[did][0].hash == hash
            &&& t.owners[did][0].metadata == metadata
            &&& t.children.contains_key(hash)
            &&& t.children[hash].len() == 0
        }),
{
}

/// Round trip: fetching a freshly added entry as its owner, at the
/// reported height, returns exactly the metadata hash that was supplied —
/// and no children, since a fresh directory starts empty.
pub proof fn lemma_round_trip(
    s: StoreModel,
    did: Seq<u8>,
    metadata: Seq<u8>,
    hash: Seq<u8>,
    parent_hash: Seq<u8>,
    is_dir: bool,
    now: u64,
)
    requires
        add_inode_spec(s, did, metadata, hash, parent_hash, is_dir, now).1 is Ok,
    ensures
        ({
            let t = add_inode_spec(s, did, metadata, hash, parent_hash, is_dir, now).0;
            let height = owner_list(s, did).len();
            fetch_metadata_spec(t, did, did, height as int, hash) == Ok::<EventModel, Error>(
                EventModel::FileMetaDataFetched { meta: metadata, files: Seq::empty() },
            )
        }),
{
}

/// Permission gating: with the owner, the position and the hash all
/// valid, a fetch by the owner always succeeds, whatever the mode; a
/// fetch by anyone else succeeds exactly when the mode's last digit
/// grants reading.
pub proof fn lemma_permission_gating(
    s: StoreModel,
    caller: Seq<u8>,
    owner: Seq<u8>,
    index: int,
    hash: Seq<u8>,
)
    requires
        caller.len() <= s.max_did_len,
        owner.len() <= s.max_did_len,
        hash.len() == s.hash_len,
        s.owners.contains_key(owner),
        0 <= index < s.owners[owner].len(),
        s.owners[owner][index].hash == hash,
    ensures
        caller == owner ==> fetch_metadata_spec(s, caller, owner, index, hash) is Ok,
        caller != owner && last_digit(s.owners[owner][index].permission) < 4
            ==> fetch_metadata_spec(s, caller, owner, index, hash) == Err::<EventModel, Error>(
            Error::PermissionDenied,
        ),
        caller != owner && last_digit(s.owners[owner][index].permission) >= 4
            ==> fetch_metadata_spec(s, caller, owner, index, hash) is Ok,
{
}

/// Non-empty directory guard: unlinking a directory whose children list
/// is non-empty fails with `DirectoryNotEmpty` and leaves the whole store
/// — inode table and children index alike — unchanged.
pub proof fn lemma_nonempty_directory_guard(
    s: StoreModel,
    caller: Seq<u8>,
    owner: Seq<u8>,
    index: int,
    hash: Seq<u8>,
)
    requires
        caller.len() <= s.max_did_len,
        owner.len() <= s.max_did_len,
        hash.len() == s.hash_len,
        s.owners.contains_key(owner),
        0 <= index < s.owners[owner].len(),
        s.owners[owner][index].hash == hash,
        s.owners[owner][index].is_dir,
        s.children.contains_key(hash),
        s.children[hash].len() > 0,
    ensures
        unlink_inode_spec(s, caller, owner, index, hash).0 == s,
        can_access(owner, caller, s.owners[owner][index].permission, Access::Write)
            ==> unlink_inode_spec(s, caller, owner, index, hash).1 == Err::<EventModel, Error>(
            Error::DirectoryNotEmpty,
        ),
{
}

/// Capacity enforcement: an addition against a full owner list or a full
/// parent fails with `InodeCountOverflow`, and no partial mutation — in
/// either list — is observable afterwards.
pub proof fn lemma_capacity_enforcement(
    s: StoreModel,
    did: Seq<u8>,
    metadata: Seq<u8>,
    hash: Seq<u8>,
    parent_hash: Seq<u8>,
    is_dir: bool,
    now: u64,
)
    requires
        did.len() <= s.max_did_len,
        metadata.len() == s.hash_len,
        hash.len() == s.hash_len,
        parent_hash.len() == s.hash_len,
        s.children.contains_key(parent_hash),
        owner_list(s, did).len() >= s.max_inodes || s.children[parent_hash].len() >= s.max_inodes,
    ensures
        add_inode_spec(s, did, metadata, hash, parent_hash, is_dir, now).0 == s,
        add_inode_spec(s, did, metadata, hash, parent_hash, is_dir, now).1 == Err::<
            EventModel,
            Error,
        >(Error::InodeCountOverflow),
{
}

/// The arguments of one addition in a run under a fixed parent.
pub struct AddCall {
    pub did: Seq<u8>,
    pub metadata: Seq<u8>,
    pub hash: Seq<u8>,
    pub is_dir: bool,
    pub now: u64,
}

/// The store after a run of additions under one parent, applied in order.
pub open spec fn run_add_calls(s: StoreModel, parent: Seq<u8>, calls: Seq<AddCall>) -> StoreModel
    decreases calls.len(),
{
    if calls.len() == 0 {
        s
    } else {
        let c = calls[0];
        run_add_calls(
            add_inode_spec(s, c.did, c.metadata, c.hash, parent, c.is_dir, c.now).0,
            parent,
            calls.drop_first(),
        )
    }
}

/// Whether every addition of the run succeeds.
pub open spec fn add_calls_ok(s: StoreModel, parent: Seq<u8>, calls: Seq<AddCall>) -> bool
    decreases calls.len(),
{
    calls.len() == 0 || ({
        let c = calls[0];
        let step = add_inode_spec(s, c.did, c.metadata, c.hash, parent, c.is_dir, c.now);
        step.1 is Ok && add_calls_ok(step.0, parent, calls.drop_first())
    })
}

/// The inode that the `k`-th addition of the run appends: the last entry
/// of its identity's list right after that call.
pub open spec fn added_entry(
    s: StoreModel,
    parent: Seq<u8>,
    calls: Seq<AddCall>,
    k: int,
) -> InodeModel {
    run_add_calls(s, parent, calls.take(k + 1)).owners[calls[k].did].last()
}

proof fn lemma_run_empty(s: StoreModel, parent: Seq<u8>, calls: Seq<AddCall>)
    requires
        calls.len() == 0,
    ensures
        run_add_calls(s, parent, calls) == s,
{
}

proof fn lemma_run_one(s: StoreModel, parent: Seq<u8>, calls: Seq<AddCall>)
    requires
        calls.len() > 0,
    ensures
        run_add_calls(s, parent, calls) == run_add_calls(
            add_inode_spec(
                s,
                calls[0].did,
                calls[0].metadata,
                calls[0].hash,
                parent,
                calls[0].is_dir,
                calls[0].now,
            ).0,
            parent,
            calls.drop_first(),
        ),
{
}

/// Monotonic indexing: a run of successful additions under one parent
/// appends the hashes to the parent's children list in call order, and
/// the `k`-th addition stamps its new entry with index `L + k`, where `L`
/// is the children count before the run — so the indices are exactly
/// `0..N-1` for a parent that started empty. An addition that creates a
/// directory under the parent's own hash would reset the parent's
/// children entry, so such calls are left out.
pub proof fn lemma_monotonic_indexing(s: StoreModel, parent: Seq<u8>, calls: Seq<AddCall>)
    requires
        s.children.contains_key(parent),
        add_calls_ok(s, parent, calls),
        forall|k: int|
            0 <= k < calls.len() ==> ((#[trigger] calls[k]).is_dir ==> calls[k].hash != parent),
    ensures
        run_add_calls(s, parent, calls).children.contains_key(parent),
        run_add_calls(s, parent, calls).children[parent] == s.children[parent] + calls.map_values(
            |c: AddCall| c.hash,
        ),
        forall|k: int|
            0 <= k < calls.len() ==> (#[trigger] added_entry(s, parent, calls, k)).index
                == s.children[parent].len() + k,
        forall|k: int|
            0 <= k < calls.len() ==> (#[trigger] added_entry(s, parent, calls, k)).hash
                == calls[k].hash,
    decreases calls.len(),
{
    if calls.len() == 0 {
        assert(s.children[parent] + calls.map_values(|c: AddCall| c.hash) =~= s.children[parent]);
    } else {
        let c = calls[0];
        let t1 = add_inode_spec(s, c.did, c.metadata, c.hash, parent, c.is_dir, c.now).0;
        let rest = calls.drop_first();
        assert(t1.children.contains_key(parent));
        assert(t1.children[parent] == s.children[parent].push(c.hash));
        assert forall|k: int|
            0 <= k < rest.len() implies ((#[trigger] rest[k]).is_dir ==> rest[k].hash
            != parent) by {
            assert(rest[k] == calls[k + 1]);
        }
        lemma_monotonic_indexing(t1, parent, rest);
        assert(run_add_calls(s, parent, calls) == run_add_calls(t1, parent, rest));
        assert(s.children[parent] + calls.map_values(|c2: AddCall| c2.hash)
            =~= s.children[parent].push(c.hash) + rest.map_values(|c2: AddCall| c2.hash));
        assert forall|k: int| 0 <= k < calls.len() implies (#[trigger] added_entry(
            s,
            parent,
            calls,
            k,
        )).index == s.children[parent].len() + k && added_entry(s, parent, calls, k).hash
            == calls[k].hash by {
            if k == 0 {
                lemma_run_one(s, parent, calls.take(1));
                assert(calls.take(1)[0] == c);
                assert(calls.take(1).drop_first() =~= Seq::<AddCall>::empty());
                lemma_run_empty(t1, parent, calls.take(1).drop_first());
                assert(run_add_calls(s, parent, calls.take(1)) == t1);
                assert(t1.owners[c.did].last().index == s.children[parent].len());
            } else {
                lemma_run_one(s, parent, calls.take(k + 1));
                assert(calls.take(k + 1)[0] == c);
                assert(calls.take(k + 1).drop_first() =~= rest.take(k));
                assert(run_add_calls(s, parent, calls.take(k + 1)) == run_add_calls(
                    t1,
                    parent,
                    rest.take(k),
                ));
                assert(added_entry(s, parent, calls, k) == added_entry(t1, parent, rest, k - 1));
                assert(added_entry(t1, parent, rest, k - 1).index == t1.children[parent].len() + (k
                    - 1));
            }
        }
    }
}

/// A run of additions never touches the configured limits.
pub proof fn lemma_run_preserves_limits(s: StoreModel, parent: Seq<u8>, calls: Seq<AddCall>)
    ensures
        run_add_calls(s, parent, calls).max_inodes == s.max_inodes,
        run_add_calls(s, parent, calls).max_did_len == s.max_did_len,
        run_add_calls(s, parent, calls).hash_len == s.hash_len,
    decreases calls.len(),
{
    if calls.len() > 0 {
        let c = calls[0];
        lemma_run_preserves_limits(
            add_inode_spec(s, c.did, c.metadata, c.hash, parent, c.is_dir, c.now).0,
            parent,
            calls.drop_first(),
        );
    }
}

/// Monotonic indexing from a fresh parent: when the parent's children
/// list starts empty, N successful additions stamp the indices exactly
/// `0..N-1`, in call order, and the children list ends as the call
/// hashes, in order.
pub proof fn lemma_fresh_parent_indices(s: StoreModel, parent: Seq<u8>, calls: Seq<AddCall>)
    requires
        s.children.contains_key(parent),
        s.children[parent].len() == 0,
        add_calls_ok(s, parent, calls),
        forall|k: int|
            0 <= k < calls.len() ==> ((#[trigger] calls[k]).is_dir ==> calls[k].hash != parent),
    ensures
        run_add_calls(s, parent, calls).children[parent].len() == calls.len(),
        forall|k: int|
            0 <= k < calls.len() ==> run_add_calls(s, parent, calls).children[parent][k]
                == (#[trigger] calls[k]).hash,
        forall|k: int|
            0 <= k < calls.len() ==> (#[trigger] added_entry(s, parent, calls, k)).index == k,
{
    lemma_monotonic_indexing(s, parent, calls);
}

/// Capacity enforcement after a fill: a parent that started empty and
/// took as many children as the configuration allows refuses the next
/// addition with `InodeCountOverflow`, leaving the store unchanged.
pub proof fn lemma_fill_then_overflow(
    s: StoreModel,
    parent: Seq<u8>,
    calls: Seq<AddCall>,
    c: AddCall,
)
    requires
        s.children.contains_key(parent),
        s.children[parent].len() == 0,
        add_calls_ok(s, parent, calls),
        forall|k: int|
            0 <= k < calls.len() ==> ((#[trigger] calls[k]).is_dir ==> calls[k].hash != parent),
        calls.len() == s.max_inodes,
        c.did.len() <= s.max_did_len,
        c.metadata.len() == s.hash_len,
        c.hash.len() == s.hash_len,
        parent.len() == s.hash_len,
    ensures
        ({
            let t = run_add_calls(s, parent, calls);
            add_inode_spec(t, c.did, c.metadata, c.hash, parent, c.is_dir, c.now).1 == Err::<
                EventModel,
                Error,
            >(Error::InodeCountOverflow) && add_inode_spec(
                t,
                c.did,
                c.metadata,
                c.hash,
                parent,
                c.is_dir,
                c.now,
            ).0 == t
        }),
{
    lemma_monotonic_indexing(s, parent, calls);
    lemma_run_preserves_limits(s, parent, calls);
}

/// No partial mutation: whenever root creation reports an error, the
/// store is exactly what it was.
pub proof fn lemma_create_root_error_unchanged(
    s: StoreModel,
    did: Seq<u8>,
    hash: Seq<u8>,
    metadata: Seq<u8>,
    now: u64,
)
    ensures
        create_root_spec(s, did, hash, metadata, now).1 is Err ==> create_root_spec(
            s,
            did,
            hash,
            metadata,
            now,
        ).0 == s,
{
}

/// No partial mutation: whenever an addition reports an error, the store
/// is exactly what it was.
pub proof fn lemma_add_inode_error_unchanged(
    s: StoreModel,
    did: Seq<u8>,
    metadata: Seq<u8>,
    hash: Seq<u8>,
    parent_hash: Seq<u8>,
    is_dir: bool,
    now: u64,
)
    ensures
        add_inode_spec(s, did, metadata, hash, parent_hash, is_dir, now).1 is Err
            ==> add_inode_spec(s, did, metadata, hash, parent_hash, is_dir, now).0 == s,
{
}

/// No partial mutation: whenever an unlink reports an error, the store is
/// exactly what it was.
pub proof fn lemma_unlink_error_unchanged(
    s: StoreModel,
    caller: Seq<u8>,
    owner: Seq<u8>,
    index: int,
    hash: Seq<u8>,
)
    ensures
        unlink_inode_spec(s, caller, owner, index, hash).1 is Err ==> unlink_inode_spec(
            s,
            caller,
            owner,
            index,
            hash,
        ).0 == s,
{
}

/// No partial mutation: whenever a mode change reports an error, the
/// store is exactly what it was.
pub proof fn lemma_change_permission_error_unchanged(
    s: StoreModel,
    caller: Seq<u8>,
    owner: Seq<u8>,
    index: int,
    hash: Seq<u8>,
    mode: u32,
)
    ensures
        change_permission_spec(s, caller, owner, index, hash, mode).1 is Err
            ==> change_permission_spec(s, caller, owner, index, hash, mode).0 == s,
{
}

} // verus!
