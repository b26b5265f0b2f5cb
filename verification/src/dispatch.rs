//! The command dispatcher: one decoded command becomes exactly one
//! store operation and one reply, with no I/O of its own.

use vstd::prelude::*;
use crate::command::Command;
use crate::command::Reply;
use crate::command::unsupported_reply;
use crate::shard::Shard;
use crate::store::Store;

verus! {

/// The key space after a command has been applied to it.
pub open spec fn map_after(cmd: Command, m: Map<Seq<char>, Seq<u8>>) -> Map<Seq<char>, Seq<u8>> {
    match cmd {
        Command::Put(k, v) => m.insert(k@, v@),
        _ => m,
    }
}

/// The reply a command must produce against the key space it was
/// dispatched on: a found value comes back as `Bulk`, a missing key as
/// `Null`, a write as `Okay`, and anything unsupported as an error that
/// names the command.
pub open spec fn reply_matches(cmd: Command, m: Map<Seq<char>, Seq<u8>>, r: Reply) -> bool {
    match cmd {
        Command::Get(k) => (match r {
            Reply::Bulk(v) => m.dom().contains(k@) && v@ == m[k@],
            Reply::Null => !m.dom().contains(k@),
            _ => false,
        }),
        Command::Put(_, _) => r == Reply::Okay,
        Command::Other(name) => (match r {
            Reply::Error(msg) => msg@ == "unsupported command: "@ + name@,
            _ => false,
        }),
    }
}

/// Dispatch a command against the whole store. A write touches only
/// the shard its key routes to; everything else leaves the store as it
/// stands.
pub fn dispatch(store: &mut Store, cmd: Command) -> (r: Reply)
    requires
        old(store).wf(),
    ensures
        final(store).wf(),
        final(store).shards@.len() == old(store).shards@.len(),
        final(store)@ == map_after(cmd, old(store)@),
        reply_matches(cmd, old(store)@, r),
        (match cmd {
            Command::Put(k, _) => forall|j: int|
                0 <= j < old(store).shards@.len() && j != crate::routing::shard_of_spec(
                    k@,
                    old(store).shards@.len() as int,
                ) ==> final(store).shards@[j] == old(store).shards@[j],
            _ => *final(store) == *old(store),
        }),
{
    match cmd {
        Command::Get(k) => {
            match store.get(&k) {
                Some(v) => Reply::Bulk(v),
                None => Reply::Null,
            }
        },
        Command::Put(k, v) => {
            store.set(k, v);
            Reply::Okay
        },
        Command::Other(name) => unsupported_reply(&name),
    }
}

/// Dispatch a command against the single shard its key routes to. The
/// caller locks that shard and hands it in; commands outside the
/// supported set need no shard at all and leave this one untouched.
pub fn dispatch_on_shard(shard: &mut Shard, cmd: Command) -> (r: Reply)
    requires
        old(shard).wf(),
    ensures
        final(shard).wf(),
        final(shard)@ == map_after(cmd, old(shard)@),
        reply_matches(cmd, old(shard)@, r),
{
    match cmd {
        Command::Get(k) => {
            match shard.get(&k) {
                Some(v) => Reply::Bulk(v),
                None => Reply::Null,
            }
        },
        Command::Put(k, v) => {
            shard.set(k, v);
            Reply::Okay
        },
        Command::Other(name) => unsupported_reply(&name),
    }
}

/// Round trip: setting a key and then getting the same key yields
/// exactly the value that was set.
pub proof fn lemma_round_trip(
    m: Map<Seq<char>, Seq<u8>>,
    k1: String,
    k2: String,
    v: Vec<u8>,
    r: Reply,
)
    requires
        k1@ == k2@,
        reply_matches(Command::Get(k2), map_after(Command::Put(k1, v), m), r),
    ensures
        r matches Reply::Bulk(b) && b@ == v@,
{
}

/// Absence: getting a key that was never set yields `Null`.
pub proof fn lemma_absent(m: Map<Seq<char>, Seq<u8>>, k: String, r: Reply)
    requires
        !m.dom().contains(k@),
        reply_matches(Command::Get(k), m, r),
    ensures
        r == Reply::Null,
{
}

/// Overwrite: setting a key twice and then getting it yields the second
/// value.
pub proof fn lemma_overwrite(
    m: Map<Seq<char>, Seq<u8>>,
    k1: String,
    k2: String,
    k3: String,
    v1: Vec<u8>,
    v2: Vec<u8>,
    r: Reply,
)
    requires
        k1@ == k3@,
        k2@ == k3@,
        reply_matches(
            Command::Get(k3),
            map_after(Command::Put(k2, v2), map_after(Command::Put(k1, v1), m)),
            r,
        ),
    ensures
        r matches Reply::Bulk(b) && b@ == v2@,
{
}

/// An unsupported command leaves the key space unchanged and yields an
/// error reply that names the command.
pub proof fn lemma_unsupported(m: Map<Seq<char>, Seq<u8>>, name: String, r: Reply)
    requires
        reply_matches(Command::Other(name), m, r),
    ensures
        map_after(Command::Other(name), m) == m,
        r matches Reply::Error(msg) && msg@ == "unsupported command: "@ + name@,
{
}

} // verus!
