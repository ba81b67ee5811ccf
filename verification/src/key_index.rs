use vstd::prelude::*;
use crate::text::texts;

verus! {

/// The list of all keys of a bucket that the batch layer keeps beside the
/// values, so that every key can be listed: each key at most once, in the
/// order in which it was first written.
pub struct KeyIndex {
    keys: Vec<String>,
}

impl View for KeyIndex {
    type V = Seq<Seq<char>>;

    closed spec fn view(&self) -> Seq<Seq<char>> {
        texts(self.keys@)
    }
}

/// The keys of `s` after `key` is written: a new key goes at the end, a
/// known one stays where it is.
pub open spec fn with_key(s: Seq<Seq<char>>, key: Seq<char>) -> Seq<Seq<char>> {
    if s.contains(key) {
        s
    } else {
        s.push(key)
    }
}

/// A write or a deletion of a key.
pub enum KeyOp {
    Write(Seq<char>),
    Remove(Seq<char>),
}

/// The keys listed after the operations, in order, starting from `s`.
pub open spec fn replay(s: Seq<Seq<char>>, ops: Seq<KeyOp>) -> Seq<Seq<char>>
    decreases ops.len(),
{
    if ops.len() == 0 {
        s
    } else {
        match ops.last() {
            KeyOp::Write(k) => with_key(replay(s, ops.drop_last()), k),
            KeyOp::Remove(k) => without(replay(s, ops.drop_last()), k),
        }
    }
}

/// Whether `key` is written by one of the operations and not deleted by
/// any later one.
pub open spec fn written_since(ops: Seq<KeyOp>, key: Seq<char>) -> bool {
    exists|i: int|
        0 <= i < ops.len() && #[trigger] ops[i] == KeyOp::Write(key) && forall|j: int|
            i < j < ops.len() ==> #[trigger] ops[j] != KeyOp::Remove(key)
}

/// Whether none of the operations deletes `key`.
pub open spec fn never_deleted(ops: Seq<KeyOp>, key: Seq<char>) -> bool {
    forall|j: int| 0 <= j < ops.len() ==> #[trigger] ops[j] != KeyOp::Remove(key)
}

/// Whether a key is not `key`.
pub open spec fn other_than(key: Seq<char>) -> spec_fn(Seq<char>) -> bool {
    |k: Seq<char>| k != key
}

/// The keys of `s` other than `key`, in order.
pub open spec fn without(s: Seq<Seq<char>>, key: Seq<char>) -> Seq<Seq<char>> {
    s.filter(other_than(key))
}

impl KeyIndex {
    /// The index holds no key twice.
    pub closed spec fn wf(&self) -> bool {
        self@.no_duplicates()
    }

    /// An index of a bucket with no key.
    pub fn new() -> (r: KeyIndex)
        ensures
            r.wf(),
            r@ == Seq::<Seq<char>>::empty(),
    {
        let r = KeyIndex { keys: Vec::new() };
        assert(r@ =~= Seq::<Seq<char>>::empty());
        r
    }

    fn position(&self, key: &str) -> (r: Option<usize>)
        ensures
            match r {
                Some(i) => i < self@.len() && self@[i as int] == key@,
                None => !self@.contains(key@),
            },
    {
        let k = String::from_str(key);
        let mut i: usize = 0;
        while i < self.keys.len()
            invariant
                i <= self.keys@.len(),
                k@ == key@,
                self@ == texts(self.keys@),
                forall|j: int| 0 <= j < i ==> self@[j] != key@,
            decreases self.keys.len() - i,
        {
            if self.keys[i] == k {
                return Some(i);
            }
            i = i + 1;
        }
        None
    }

    /// Whether the key was written and not deleted since.
    pub fn has_key(&self, key: &str) -> (r: bool)
        ensures
            r == self@.contains(key@),
    {
        self.position(key).is_some()
    }

    /// Records that the key was written: a new key is added at the end, a
    /// known one stays where it is.
    pub fn set(&mut self, key: &str)
        requires
            old(self).wf(),
        ensures
            final(self).wf(),
            final(self)@ == with_key(old(self)@, key@),
    {
        if self.position(key).is_none() {
            let ghost before = self.keys@;
            self.keys.push(String::from_str(key));
            assert(texts(self.keys@) =~= texts(before).push(key@));
        }
    }

    /// Records that the key was deleted: it leaves the index, the others
    /// keep their order.
    pub fn delete(&mut self, key: &str)
        requires
            old(self).wf(),
        ensures
            final(self).wf(),
            final(self)@ == without(old(self)@, key@),
    {
        match self.position(key) {
            Some(i) => {
                let ghost before = self@;
                self.keys.remove(i);
                proof {
                    assert(self@ =~= before.remove(i as int));
                    lemma_remove_is_filter(before, i as int, key@);
                }
            },
            None => {
                proof {
                    lemma_filter_absent(self@, key@);
                }
            },
        }
    }

    /// Every key of the bucket, in the order in which it was first written.
    pub fn get_keys(&self) -> (r: Vec<String>)
        ensures
            texts(r@) == self@,
    {
        let mut r: Vec<String> = Vec::new();
        for i in 0..self.keys.len()
            invariant
                texts(r@) == texts(self.keys@).take(i as int),
        {
            let ghost before = r@;
            let k = self.keys[i].clone();
            assert(k@ == self.keys@[i as int]@);
            r.push(k);
            assert(texts(r@) =~= texts(before).push(k@));
            assert(texts(r@) =~= texts(self.keys@).take(i + 1));
        }
        assert(texts(self.keys@).take(self.keys@.len() as int) =~= texts(self.keys@));
        r
    }

    /// Records a batch of writes, in order.
    pub fn set_many(&mut self, keys: &Vec<String>)
        requires
            old(self).wf(),
        ensures
            final(self).wf(),
            forall|k: Seq<char>| #[trigger] final(self)@.contains(k) <==> old(self)@.contains(k) || texts(keys@).contains(k),
    {
        let ghost start = self@;
        for i in 0..keys.len()
            invariant
                self.wf(),
                forall|k: Seq<char>| #[trigger] self@.contains(k) <==> start.contains(k) || texts(keys@).take(i as int).contains(k),
        {
            let ghost before = self@;
            let key = keys[i].as_str();
            assert(key@ == keys@[i as int]@);
            self.set(key);
            proof {
                let done = texts(keys@).take(i as int);
                assert(texts(keys@).take(i + 1) =~= done.push(key@));
                assert forall|k: Seq<char>| #[trigger] self@.contains(k) <==> start.contains(k) || texts(keys@).take(i + 1).contains(k) by {
                    lemma_push_contains(done, key@, k);
                    lemma_push_contains(before, key@, k);
                }
            }
        }
        assert(texts(keys@).take(keys@.len() as int) =~= texts(keys@));
    }

    /// Records a batch of deletions.
    pub fn delete_many(&mut self, keys: &Vec<String>)
        requires
            old(self).wf(),
        ensures
            final(self).wf(),
            forall|k: Seq<char>| #[trigger] final(self)@.contains(k) <==> old(self)@.contains(k) && !texts(keys@).contains(k),
    {
        let ghost start = self@;
        for i in 0..keys.len()
            invariant
                self.wf(),
                forall|k: Seq<char>| #[trigger] self@.contains(k) <==> start.contains(k) && !texts(keys@).take(i as int).contains(k),
        {
            let ghost before = self@;
            let key = keys[i].as_str();
            assert(key@ == keys@[i as int]@);
            self.delete(key);
            proof {
                let done = texts(keys@).take(i as int);
                assert(texts(keys@).take(i + 1) =~= done.push(key@));
                assert forall|k: Seq<char>| #[trigger] self@.contains(k) <==> start.contains(k) && !texts(keys@).take(i + 1).contains(k) by {
                    lemma_filter_contains(before, key@, k);
                    lemma_push_contains(done, key@, k);
                }
            }
        }
        assert(texts(keys@).take(keys@.len() as int) =~= texts(keys@));
    }
}

/// After any sequence of writes and deletions (each step as `set` and
/// `delete` take it), the index lists every key once, and lists exactly the
/// keys written and not deleted since, together with the keys it started
/// with that were never deleted.
pub proof fn lemma_replay_lists_live_keys(s: Seq<Seq<char>>, ops: Seq<KeyOp>, key: Seq<char>)
    requires
        s.no_duplicates(),
    ensures
        replay(s, ops).no_duplicates(),
        replay(s, ops).contains(key) <==> written_since(ops, key) || (s.contains(key) && never_deleted(ops, key)),
    decreases ops.len(),
{
    if ops.len() > 0 {
        let prev = ops.drop_last();
        let r = replay(s, prev);
        lemma_replay_lists_live_keys(s, prev, key);
        let n = ops.len() - 1;
        assert forall|j: int| 0 <= j < n implies ops[j] == prev[j] by {}
        match ops.last() {
            KeyOp::Write(k) => {
                lemma_with_key(r, k, key);
                if k == key {
                    assert(ops[n] == KeyOp::Write(key));
                    assert(written_since(ops, key));
                } else {
                    lemma_same_history(ops, key);
                }
            },
            KeyOp::Remove(k) => {
                lemma_without_no_duplicates(r, k);
                lemma_filter_contains(r, k, key);
                if k == key {
                    assert(ops[n] == KeyOp::Remove(key));
                    assert(!written_since(ops, key)) by {
                        if written_since(ops, key) {
                            let i = choose|i: int|
                                0 <= i < ops.len() && #[trigger] ops[i] == KeyOp::Write(key) && forall|j: int|
                                    i < j < ops.len() ==> #[trigger] ops[j] != KeyOp::Remove(key);
                            assert(i != n);
                            assert(ops[n] != KeyOp::Remove(key));
                        }
                    }
                    assert(!never_deleted(ops, key));
                } else {
                    lemma_same_history(ops, key);
                }
            },
        }
    }
}

/// A last operation that is neither a write nor a deletion of `key` leaves
/// the history of `key` as it was.
proof fn lemma_same_history(ops: Seq<KeyOp>, key: Seq<char>)
    requires
        ops.len() > 0,
        ops.last() != KeyOp::Write(key),
        ops.last() != KeyOp::Remove(key),
    ensures
        written_since(ops, key) == written_since(ops.drop_last(), key),
        never_deleted(ops, key) == never_deleted(ops.drop_last(), key),
{
    let prev = ops.drop_last();
    let n = ops.len() - 1;
    if written_since(ops, key) {
        let i = choose|i: int|
            0 <= i < ops.len() && #[trigger] ops[i] == KeyOp::Write(key) && forall|j: int|
                i < j < ops.len() ==> #[trigger] ops[j] != KeyOp::Remove(key);
        assert(i < n);
        assert(prev[i] == KeyOp::Write(key));
        assert forall|j: int| i < j < prev.len() implies #[trigger] prev[j] != KeyOp::Remove(key) by {
            assert(ops[j] != KeyOp::Remove(key));
        }
    }
    if written_since(prev, key) {
        let i = choose|i: int|
            0 <= i < prev.len() && #[trigger] prev[i] == KeyOp::Write(key) && forall|j: int|
                i < j < prev.len() ==> #[trigger] prev[j] != KeyOp::Remove(key);
        assert(ops[i] == KeyOp::Write(key));
        assert forall|j: int| i < j < ops.len() implies #[trigger] ops[j] != KeyOp::Remove(key) by {
            if j < n {
                assert(prev[j] != KeyOp::Remove(key));
            }
        }
    }
    if never_deleted(prev, key) {
        assert forall|j: int| 0 <= j < ops.len() implies #[trigger] ops[j] != KeyOp::Remove(key) by {
            if j < n {
                assert(prev[j] != KeyOp::Remove(key));
            }
        }
    }
    if never_deleted(ops, key) {
        assert forall|j: int| 0 <= j < prev.len() implies #[trigger] prev[j] != KeyOp::Remove(key) by {
            assert(ops[j] != KeyOp::Remove(key));
        }
    }
}

proof fn lemma_push_new_no_duplicates(s: Seq<Seq<char>>, key: Seq<char>)
    requires
        s.no_duplicates(),
        !s.contains(key),
    ensures
        s.push(key).no_duplicates(),
{
    let t = s.push(key);
    assert forall|a: int, b: int| 0 <= a < t.len() && 0 <= b < t.len() && a != b implies t[a] != t[b] by {
        if a == s.len() {
            assert(s[b] == t[b]);
        } else if b == s.len() {
            assert(s[a] == t[a]);
        }
    }
}

proof fn lemma_with_key(s: Seq<Seq<char>>, key: Seq<char>, k: Seq<char>)
    requires
        s.no_duplicates(),
    ensures
        with_key(s, key).no_duplicates(),
        with_key(s, key).contains(k) <==> s.contains(k) || k == key,
{
    if !s.contains(key) {
        lemma_push_new_no_duplicates(s, key);
    }
    lemma_push_contains(s, key, k);
}

proof fn lemma_without_no_duplicates(s: Seq<Seq<char>>, key: Seq<char>)
    requires
        s.no_duplicates(),
    ensures
        without(s, key).no_duplicates(),
{
    if s.contains(key) {
        let i = choose|i: int| 0 <= i < s.len() && s[i] == key;
        lemma_remove_is_filter(s, i, key);
    } else {
        lemma_filter_absent(s, key);
    }
}

/// Deleting a key that was new when it was set leaves the index as it was
/// before the write.
pub proof fn lemma_delete_undoes_set(s: Seq<Seq<char>>, key: Seq<char>)
    requires
        s.no_duplicates(),
        !s.contains(key),
    ensures
        without(s.push(key), key) == s,
{
    let t = s.push(key);
    assert(t.no_duplicates()) by {
        assert forall|a: int, b: int| 0 <= a < t.len() && 0 <= b < t.len() && a != b implies t[a] != t[b] by {
            if a == s.len() {
                assert(s[b] == t[b]);
            } else if b == s.len() {
                assert(s[a] == t[a]);
            }
        }
    }
    lemma_remove_is_filter(t, s.len() as int, key);
    assert(t.remove(s.len() as int) =~= s);
}

proof fn lemma_push_contains(s: Seq<Seq<char>>, x: Seq<char>, k: Seq<char>)
    ensures
        s.push(x).contains(k) <==> s.contains(k) || k == x,
{
    if s.push(x).contains(k) {
        let j = choose|j: int| 0 <= j < s.push(x).len() && s.push(x)[j] == k;
        if j < s.len() {
            assert(s[j] == k);
        }
    }
    if s.contains(k) {
        let j = choose|j: int| 0 <= j < s.len() && s[j] == k;
        assert(s.push(x)[j] == k);
    }
    if k == x {
        assert(s.push(x)[s.len() as int] == k);
    }
}

proof fn lemma_filter_contains(s: Seq<Seq<char>>, key: Seq<char>, k: Seq<char>)
    ensures
        without(s, key).contains(k) <==> s.contains(k) && k != key,
{
    let f = other_than(key);
    if s.filter(f).contains(k) {
        s.lemma_filter_contains_rev(f, k);
        let j = choose|j: int| 0 <= j < s.filter(f).len() && s.filter(f)[j] == k;
        s.lemma_filter_pred(f, j);
    }
    if s.contains(k) && k != key {
        let i = choose|i: int| 0 <= i < s.len() && s[i] == k;
        s.lemma_filter_contains(f, i);
    }
}

proof fn lemma_filter_absent(s: Seq<Seq<char>>, key: Seq<char>)
    requires
        !s.contains(key),
    ensures
        without(s, key) == s,
    decreases s.len(),
{
    reveal_with_fuel(Seq::filter, 1);
    if s.len() > 0 {
        lemma_filter_absent(s.drop_last(), key);
        assert(s.drop_last().push(s.last()) =~= s);
        assert(!s.drop_last().contains(key)) by {
            if s.drop_last().contains(key) {
                let j = choose|j: int| 0 <= j < s.drop_last().len() && s.drop_last()[j] == key;
                assert(s[j] == key);
            }
        }
        assert(s[s.len() - 1] != key);
    } else {
        assert(without(s, key) =~= s);
    }
}

proof fn lemma_remove_is_filter(s: Seq<Seq<char>>, i: int, key: Seq<char>)
    requires
        s.no_duplicates(),
        0 <= i < s.len(),
        s[i] == key,
    ensures
        s.remove(i).no_duplicates(),
        s.remove(i) == without(s, key),
    decreases s.len(),
{
    reveal_with_fuel(Seq::filter, 1);
    let f = |k: Seq<char>| k != key;
    let t = s.drop_last();
    assert(t.push(s.last()) =~= s);
    assert(t.no_duplicates());
    if i == s.len() - 1 {
        assert(s.remove(i) =~= t);
        assert(!t.contains(key)) by {
            if t.contains(key) {
                let j = choose|j: int| 0 <= j < t.len() && t[j] == key;
                assert(s[j] == s[i]);
            }
        }
        lemma_filter_absent(t, key);
    } else {
        lemma_remove_is_filter(t, i, key);
        assert(s.last() != key);
        assert(s.remove(i) =~= t.remove(i).push(s.last()));
        assert(s.remove(i).no_duplicates()) by {
            let r = s.remove(i);
            assert forall|a: int, b: int| 0 <= a < r.len() && 0 <= b < r.len() && a != b implies r[a] != r[b] by {
                let ia = if a < i { a } else { a + 1 };
                let ib = if b < i { b } else { b + 1 };
                assert(r[a] == s[ia] && r[b] == s[ib]);
            }
        }
    }
}

} // verus!
