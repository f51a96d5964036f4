use vstd::prelude::*;

use std::collections::HashMap;

verus! {

broadcast use vstd::std_specs::hash::group_hash_axioms;

/// A chat's log after one insertion trimmed to `cap`: only the `cap` most
/// recent ids stay, in insertion order.
pub open spec fn trim_to(s: Seq<i32>, cap: nat) -> Seq<i32> {
    if s.len() > cap {
        s.skip(s.len() - cap)
    } else {
        s
    }
}

/// Up to `count` ids of a log, most recent first.
pub open spec fn most_recent_first(log: Seq<i32>, count: nat) -> Seq<i32> {
    let k = if count < log.len() {
        count
    } else {
        log.len()
    };
    Seq::new(k, |i: int| log[log.len() - 1 - i])
}

/// The log of a chat that has seen the insertions `ids`, oldest first, under
/// capacity `cap`.
pub open spec fn log_after(ids: Seq<i32>, cap: nat) -> Seq<i32>
    decreases ids.len(),
{
    if ids.len() == 0 {
        Seq::empty()
    } else {
        trim_to(log_after(ids.drop_last(), cap).push(ids.last()), cap)
    }
}

/// Ledger capacity: after `k` insertions a chat's log holds the last
/// `min(k, cap)` of them in insertion order, so a read of `cap` ids returns
/// exactly those, most recent first.
pub proof fn lemma_ledger_keeps_latest(ids: Seq<i32>, cap: nat)
    ensures
        ({
            let kept = if ids.len() < cap {
                ids.len()
            } else {
                cap
            };
            &&& log_after(ids, cap) == ids.skip(ids.len() - kept)
            &&& most_recent_first(log_after(ids, cap), cap).len() == kept
            &&& forall|i: int|
                0 <= i < kept ==> #[trigger] most_recent_first(log_after(ids, cap), cap)[i]
                    == ids[ids.len() - 1 - i]
        }),
    decreases ids.len(),
{
    if ids.len() > 0 {
        lemma_ledger_keeps_latest(ids.drop_last(), cap);
        let prev = log_after(ids.drop_last(), cap);
        let pushed = prev.push(ids.last());
        let n = ids.len();
        let kept = if n < cap {
            n
        } else {
            cap
        };
        if pushed.len() > cap {
            assert(trim_to(pushed, cap) =~= ids.skip(n - kept));
        } else {
            assert(trim_to(pushed, cap) =~= ids.skip(n - kept));
        }
    } else {
        assert(ids.skip(0) =~= ids);
    }
}

/// For each chat, the ids of its most recent messages, oldest first, never
/// more than the capacity.
pub struct Ledger {
    capacity: usize,
    chats: HashMap<i64, Vec<i32>>,
}

impl Ledger {
    /// How many ids each chat keeps.
    pub closed spec fn cap(&self) -> nat {
        self.capacity as nat
    }

    /// The ids kept for `chat`, oldest first; empty for a chat never seen.
    pub closed spec fn log(&self, chat: i64) -> Seq<i32> {
        if self.chats@.contains_key(chat) {
            self.chats@[chat]@
        } else {
            Seq::empty()
        }
    }

    /// No chat keeps more than the capacity.
    pub closed spec fn wf(&self) -> bool {
        forall|chat: i64| #[trigger] self.chats@.contains_key(chat) ==> self.chats@[chat]@.len() <= self.capacity
    }

    pub fn new(capacity: usize) -> (r: Self)
        ensures
            r.wf(),
            r.cap() == capacity,
            forall|chat: i64| #[trigger] r.log(chat) == Seq::<i32>::empty(),
    {
        Ledger { capacity, chats: HashMap::new() }
    }

    /// How many ids each chat keeps.
    pub fn capacity(&self) -> (r: usize)
        ensures
            r == self.cap(),
    {
        self.capacity
    }

    /// Records `message_id` as the newest message of `chat_id` and drops the
    /// oldest ids beyond the capacity. Other chats are untouched.
    pub fn add_message_id(&mut self, chat_id: i64, message_id: i32)
        requires
            old(self).wf(),
        ensures
            final(self).wf(),
            final(self).cap() == old(self).cap(),
            final(self).log(chat_id) == trim_to(old(self).log(chat_id).push(message_id), old(self).cap()),
            forall|chat: i64| chat != chat_id ==> #[trigger] final(self).log(chat) == old(self).log(chat),
    {
        let ids = self.chats.remove(&chat_id);
        let mut ids = match ids {
            Some(v) => v,
            None => Vec::new(),
        };
        let ghost before = ids@;
        ids.push(message_id);
        if ids.len() > self.capacity {
            ids.remove(0);
            assert(ids@ =~= trim_to(before.push(message_id), self.capacity as nat));
        }
        self.chats.insert(chat_id, ids);
        assert forall|chat: i64| #[trigger] self.chats@.contains_key(chat) implies self.chats@[chat]@.len()
            <= self.capacity by {
            if chat != chat_id {
                assert(old(self).chats@.contains_key(chat));
            }
        }
    }

    /// Up to `count` ids of `chat_id`, most recent first; fewer when the chat
    /// has fewer, none for a chat never seen.
    pub fn get_messages_id(&self, chat_id: i64, count: u32) -> (r: Vec<i32>)
        ensures
            r@ == most_recent_first(self.log(chat_id), count as nat),
    {
        let mut out: Vec<i32> = Vec::new();
        match self.chats.get(&chat_id) {
            None => {
                assert(out@ =~= most_recent_first(self.log(chat_id), count as nat));
            },
            Some(ids) => {
                let n = ids.len();
                let k: usize = if (count as usize) < n {
                    count as usize
                } else {
                    n
                };
                let mut i: usize = 0;
                while i < k
                    invariant
                        i <= k,
                        k <= n,
                        n == ids@.len(),
                        ids@ == self.log(chat_id),
                        k == most_recent_first(ids@, count as nat).len(),
                        out@ =~= most_recent_first(ids@, count as nat).take(i as int),
                    decreases k - i,
                {
                    out.push(ids[n - 1 - i]);
                    i = i + 1;
                }
                assert(out@ =~= most_recent_first(self.log(chat_id), count as nat));
            },
        }
        out
    }
}

} // verus!
