use vstd::prelude::*;
use crate::http_path::{first_index_of, lemma_first_index_of};

verus! {

/// The character of a decimal digit.
pub open spec fn digit_char(d: nat) -> char {
    if d == 0 { '0' }
    else if d == 1 { '1' }
    else if d == 2 { '2' }
    else if d == 3 { '3' }
    else if d == 4 { '4' }
    else if d == 5 { '5' }
    else if d == 6 { '6' }
    else if d == 7 { '7' }
    else if d == 8 { '8' }
    else { '9' }
}

/// The decimal digits of a natural number, most significant first, with no
/// leading zero.
pub open spec fn digits_of(n: nat) -> Seq<char>
    decreases n,
{
    if n < 10 {
        seq![digit_char(n)]
    } else {
        digits_of(n / 10) + seq![digit_char(n % 10)]
    }
}

/// The decimal text of an integer, as Rust's `Display` writes it.
pub open spec fn decimal_text(n: int) -> Seq<char> {
    if n < 0 {
        seq!['-'] + digits_of((-n) as nat)
    } else {
        digits_of(n as nat)
    }
}

fn digit_str(d: u64) -> (r: &'static str)
    requires
        d < 10,
    ensures
        r@ == seq![digit_char(d as nat)],
{
    proof {
        reveal_strlit("0");
        reveal_strlit("1");
        reveal_strlit("2");
        reveal_strlit("3");
        reveal_strlit("4");
        reveal_strlit("5");
        reveal_strlit("6");
        reveal_strlit("7");
        reveal_strlit("8");
        reveal_strlit("9");
    }
    if d == 0 { "0" }
    else if d == 1 { "1" }
    else if d == 2 { "2" }
    else if d == 3 { "3" }
    else if d == 4 { "4" }
    else if d == 5 { "5" }
    else if d == 6 { "6" }
    else if d == 7 { "7" }
    else if d == 8 { "8" }
    else { "9" }
}

fn append_digits(out: &mut String, n: u64)
    ensures
        final(out)@ == old(out)@ + digits_of(n as nat),
    decreases n,
{
    if n < 10 {
        out.append(digit_str(n));
    } else {
        append_digits(out, n / 10);
        out.append(digit_str(n % 10));
    }
}

/// Appends the decimal text of `n` to `out`.
pub fn append_decimal(out: &mut String, n: i64)
    ensures
        final(out)@ == old(out)@ + decimal_text(n as int),
{
    if n < 0 {
        proof {
            reveal_strlit("-");
        }
        out.append("-");
        let m: u64 = (0i128 - (n as i128)) as u64;
        append_digits(out, m);
        assert(old(out)@ + seq!['-'] + digits_of(m as nat) =~= old(out)@ + (seq!['-'] + digits_of(m as nat)));
    } else {
        append_digits(out, n as u64);
    }
}

/// The decimal text of `n`.
pub fn decimal(n: i64) -> (r: String)
    ensures
        r@ == decimal_text(n as int),
{
    let mut out = String::new();
    append_decimal(&mut out, n);
    assert(out@ =~= decimal_text(n as int));
    out
}

/// The text views of a sequence of strings.
pub open spec fn texts(v: Seq<String>) -> Seq<Seq<char>> {
    v.map_values(|x: String| x@)
}

/// The pieces of `s` between the separators `c`, as `str::split` yields
/// them: empty pieces are kept, and a text without `c` is one piece.
pub open spec fn split_text(s: Seq<char>, c: char) -> Seq<Seq<char>>
    decreases s.len(),
{
    let i = first_index_of(s, c);
    if i >= s.len() {
        seq![s]
    } else {
        proof {
            lemma_first_index_of(s, c);
        }
        seq![s.take(i)] + split_text(s.skip(i + 1), c)
    }
}

proof fn lemma_split_step(s: Seq<char>, c: char, i: int)
    requires
        0 <= i < s.len(),
        s[i] == c,
        forall|j: int| 0 <= j < i ==> s[j] != c,
    ensures
        split_text(s, c) == seq![s.take(i)] + split_text(s.skip(i + 1), c),
{
    lemma_first_index_of(s, c);
    let k = first_index_of(s, c);
    if k < i {
        assert(s[k] == c);
    }
    if i < k {
        assert(s[i] != c);
    }
}

proof fn lemma_split_none(s: Seq<char>, c: char)
    requires
        forall|j: int| 0 <= j < s.len() ==> s[j] != c,
    ensures
        split_text(s, c) == seq![s],
{
    lemma_first_index_of(s, c);
    let k = first_index_of(s, c);
    if k < s.len() {
        assert(s[k] == c);
    }
}

/// Pieces joined back together with `c` between them.
pub open spec fn join_with(pieces: Seq<Seq<char>>, c: char) -> Seq<char>
    decreases pieces.len(),
{
    if pieces.len() == 0 {
        Seq::empty()
    } else if pieces.len() == 1 {
        pieces[0]
    } else {
        pieces[0] + seq![c] + join_with(pieces.drop_first(), c)
    }
}

/// Splitting loses nothing and invents nothing: there is at least one
/// piece, no piece holds the separator, and the pieces joined with the
/// separator give the text back.
pub proof fn lemma_split_join(s: Seq<char>, c: char)
    ensures
        split_text(s, c).len() >= 1,
        forall|k: int| 0 <= k < split_text(s, c).len() ==> !(#[trigger] split_text(s, c)[k]).contains(c),
        join_with(split_text(s, c), c) == s,
    decreases s.len(),
{
    lemma_first_index_of(s, c);
    let i = first_index_of(s, c);
    if i >= s.len() {
        assert(!s.contains(c)) by {
            if s.contains(c) {
                let j = choose|j: int| 0 <= j < s.len() && s[j] == c;
                assert(s[j] != c);
            }
        }
    } else {
        let head = s.take(i);
        let tail = s.skip(i + 1);
        lemma_split_join(tail, c);
        let rest = split_text(tail, c);
        let pieces = seq![head] + rest;
        assert(split_text(s, c) == pieces);
        assert(pieces.drop_first() =~= rest);
        assert(!head.contains(c)) by {
            if head.contains(c) {
                let j = choose|j: int| 0 <= j < head.len() && head[j] == c;
                assert(s[j] != c);
            }
        }
        assert forall|k: int| 0 <= k < pieces.len() implies !(#[trigger] pieces[k]).contains(c) by {
            if k > 0 {
                assert(pieces[k] == rest[k - 1]);
            }
        }
        assert(s =~= head + seq![c] + tail);
    }
}

/// Splits `s` at every `c`, keeping empty pieces, like
/// `s.split(c).map(String::from).collect()`.
pub fn split_on(s: &str, c: char) -> (r: Vec<String>)
    ensures
        texts(r@) == split_text(s@, c),
{
    let n = s.unicode_len();
    let ghost sv = s@;
    let mut out: Vec<String> = Vec::new();
    let mut start: usize = 0;
    let mut i: usize = 0;
    assert(sv.skip(0) =~= sv);
    assert(texts(out@) =~= Seq::<Seq<char>>::empty());
    while i < n
        invariant
            n == sv.len(),
            sv == s@,
            start <= i <= n,
            forall|j: int| start <= j < i ==> sv[j] != c,
            texts(out@) + split_text(sv.skip(start as int), c) == split_text(sv, c),
        decreases n - i,
    {
        if s.get_char(i) == c {
            let piece = String::from_str(s.substring_char(start, i));
            proof {
                let rest = sv.skip(start as int);
                lemma_split_step(rest, c, (i - start) as int);
                assert(rest.take((i - start) as int) =~= piece@);
                assert(rest.skip((i - start) as int + 1) =~= sv.skip(i + 1));
            }
            let ghost before = out@;
            out.push(piece);
            proof {
                assert(texts(out@) =~= texts(before) + seq![piece@]);
                assert(texts(out@) + split_text(sv.skip(i + 1), c)
                    =~= texts(before) + (seq![piece@] + split_text(sv.skip(i + 1), c)));
            }
            start = i + 1;
        }
        i = i + 1;
    }
    let last = String::from_str(s.substring_char(start, n));
    proof {
        let rest = sv.skip(start as int);
        lemma_split_none(rest, c);
        assert(rest =~= last@);
    }
    let ghost before = out@;
    out.push(last);
    proof {
        assert(texts(out@) =~= texts(before) + seq![last@]);
    }
    out
}

} // verus!
