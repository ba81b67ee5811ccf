use vstd::prelude::*;

verus! {

/// Index of the first `c` in `s`, or `s.len()` when `s` holds none.
pub open spec fn first_index_of(s: Seq<char>, c: char) -> int
    decreases s.len(),
{
    if s.len() == 0 {
        0
    } else if s[0] == c {
        0
    } else {
        1 + first_index_of(s.drop_first(), c)
    }
}

/// `s` without every leading `c`.
pub open spec fn trim_leading(s: Seq<char>, c: char) -> Seq<char>
    decreases s.len(),
{
    if s.len() > 0 && s[0] == c {
        trim_leading(s.drop_first(), c)
    } else {
        s
    }
}

/// The path is everything before the first `?`; the query is what follows
/// it with every leading `?` removed, and is absent when nothing (not even
/// the `?`) follows the path.
pub open spec fn spec_path_and_query(s: Seq<char>) -> (Seq<char>, Option<Seq<char>>) {
    let i = first_index_of(s, '?');
    let path = s.take(i);
    let rest = s.skip(i);
    (path, if rest.len() == 0 { None } else { Some(trim_leading(rest, '?')) })
}

pub proof fn lemma_first_index_of(s: Seq<char>, c: char)
    ensures
        0 <= first_index_of(s, c) <= s.len(),
        first_index_of(s, c) < s.len() ==> s[first_index_of(s, c)] == c,
        forall|j: int| 0 <= j < first_index_of(s, c) ==> s[j] != c,
    decreases s.len(),
{
    if s.len() > 0 && s[0] != c {
        lemma_first_index_of(s.drop_first(), c);
        assert forall|j: int| 0 <= j < first_index_of(s, c) implies s[j] != c by {
            if j > 0 {
                assert(s[j] == s.drop_first()[j - 1]);
            }
        }
    }
}

proof fn lemma_first_index_unique(s: Seq<char>, c: char, i: int)
    requires
        0 <= i <= s.len(),
        i < s.len() ==> s[i] == c,
        forall|j: int| 0 <= j < i ==> s[j] != c,
    ensures
        first_index_of(s, c) == i,
{
    lemma_first_index_of(s, c);
    let k = first_index_of(s, c);
    if k < i {
        assert(s[k] == c);
    } else if i < k {
        assert(s[i] != c);
    }
}

proof fn lemma_trim_leading_skip(s: Seq<char>, c: char, i: int)
    requires
        0 <= i <= s.len(),
        forall|j: int| 0 <= j < i ==> s[j] == c,
    ensures
        trim_leading(s, c) == trim_leading(s.skip(i), c),
    decreases i,
{
    if i > 0 {
        assert(s.skip(1) =~= s.drop_first());
        lemma_trim_leading_skip(s.drop_first(), c, i - 1);
        assert(s.drop_first().skip(i - 1) =~= s.skip(i));
    } else {
        assert(s.skip(0) =~= s);
    }
}

/// `k` question marks.
pub open spec fn question_marks(k: nat) -> Seq<char> {
    Seq::new(k, |_j: int| '?')
}

proof fn lemma_trim_leading_count(r: Seq<char>, c: char) -> (k: int)
    ensures
        0 <= k <= r.len(),
        forall|j: int| 0 <= j < k ==> r[j] == c,
        trim_leading(r, c) == r.skip(k),
        k < r.len() ==> r[k] != c,
    decreases r.len(),
{
    if r.len() > 0 && r[0] == c {
        let k1 = lemma_trim_leading_count(r.drop_first(), c);
        assert forall|j: int| 0 <= j < k1 + 1 implies r[j] == c by {
            if j > 0 {
                assert(r[j] == r.drop_first()[j - 1]);
            }
        }
        assert(r.drop_first().skip(k1) =~= r.skip(k1 + 1));
        k1 + 1
    } else {
        assert(r.skip(0) =~= r);
        0
    }
}

/// A request target is its path, one or more `?`, and its query: the path
/// holds no `?`; a target without `?` is all path and has no query; and a
/// query never starts with `?`.
pub proof fn lemma_path_and_query_split(s: Seq<char>)
    ensures
        forall|j: int| 0 <= j < spec_path_and_query(s).0.len() ==> spec_path_and_query(s).0[j] != '?',
        spec_path_and_query(s).1 is None <==> !s.contains('?'),
        spec_path_and_query(s).1 is None ==> spec_path_and_query(s).0 == s,
        spec_path_and_query(s).1 matches Some(q) ==> (q.len() == 0 || q[0] != '?') && exists|k: int|
            1 <= k && s == spec_path_and_query(s).0 + #[trigger] question_marks(k as nat) + q,
{
    lemma_first_index_of(s, '?');
    let i = first_index_of(s, '?');
    let path = s.take(i);
    let rest = s.skip(i);
    if i < s.len() {
        assert(s.contains('?')) by {
            assert(s[i] == '?');
        }
        let k = lemma_trim_leading_count(rest, '?');
        assert(rest[0] == '?');
        let q = rest.skip(k);
        assert(s =~= path + question_marks(k as nat) + q) by {
            assert forall|j: int| 0 <= j < s.len() implies s[j] == (path + question_marks(k as nat) + q)[j] by {
                if i <= j < i + k {
                    assert(rest[j - i] == '?');
                }
            }
        }
        if q.len() > 0 {
            assert(q[0] == rest[k]);
        }
    } else {
        assert(path =~= s);
        assert(!s.contains('?')) by {
            if s.contains('?') {
                let j = choose|j: int| 0 <= j < s.len() && s[j] == '?';
                assert(s[j] != '?');
            }
        }
    }
}

/// Splits a request target into its path and its query.
pub fn path_and_query(path_with_query: &str) -> (r: (&str, Option<&str>))
    ensures
        r.0@ == spec_path_and_query(path_with_query@).0,
        match spec_path_and_query(path_with_query@).1 {
            None => r.1.is_none(),
            Some(q) => r.1.is_some() && r.1.unwrap()@ == q,
        },
{
    let n = path_with_query.unicode_len();
    let ghost s = path_with_query@;
    let mut i: usize = 0;
    while i < n && path_with_query.get_char(i) != '?'
        invariant
            n == s.len(),
            s == path_with_query@,
            i <= n,
            forall|j: int| 0 <= j < i ==> s[j] != '?',
        decreases n - i,
    {
        i = i + 1;
    }
    proof {
        lemma_first_index_unique(s, '?', i as int);
    }
    let path = path_with_query.substring_char(0, i);
    if i == n {
        assert(s.skip(i as int).len() == 0);
        return (path, None);
    }
    let mut k: usize = i;
    while k < n && path_with_query.get_char(k) == '?'
        invariant
            n == s.len(),
            s == path_with_query@,
            i <= k <= n,
            forall|j: int| i <= j < k ==> s[j] == '?',
        decreases n - k,
    {
        k = k + 1;
    }
    let query = path_with_query.substring_char(k, n);
    proof {
        let rest = s.skip(i as int);
        lemma_trim_leading_skip(rest, '?', (k - i) as int);
        assert(rest.skip((k - i) as int) =~= s.subrange(k as int, n as int));
        if k < n {
            assert(s.subrange(k as int, n as int)[0] != '?');
        }
        assert(trim_leading(s.subrange(k as int, n as int), '?') == s.subrange(k as int, n as int));
        assert(s.take(i as int) =~= s.subrange(0, i as int));
    }
    (path, Some(query))
}

} // verus!
