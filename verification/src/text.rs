//! Character-level text operations: splitting on a separator, prefix
//! stripping and decimal rendering, each with a specification over `Seq<char>`.
use vstd::prelude::*;

verus! {

/// The pieces that `str::split` yields for a one-character separator.
/// Every separator closes the current piece and opens a new, empty one,
/// so a text with `k` separators has `k + 1` pieces.
pub open spec fn split_pieces(s: Seq<char>, sep: char) -> Seq<Seq<char>>
    decreases s.len(),
{
    if s.len() == 0 {
        seq![Seq::<char>::empty()]
    } else {
        let before = split_pieces(s.drop_last(), sep);
        if s.last() == sep {
            before.push(Seq::<char>::empty())
        } else {
            before.update(before.len() - 1, before.last().push(s.last()))
        }
    }
}

/// The `n`-th piece of `s` split on `sep`, as `str::split(sep).nth(n)` gives it.
pub open spec fn nth_piece(s: Seq<char>, sep: char, n: int) -> Option<Seq<char>> {
    if 0 <= n < split_pieces(s, sep).len() {
        Some(split_pieces(s, sep)[n])
    } else {
        None
    }
}

/// The remainder of `s` after `prefix`, as `str::strip_prefix` gives it.
pub open spec fn stripped(s: Seq<char>, prefix: Seq<char>) -> Option<Seq<char>> {
    if prefix.is_prefix_of(s) {
        Some(s.skip(prefix.len() as int))
    } else {
        None
    }
}

/// `sep` does not occur in `s`.
pub open spec fn lacks(s: Seq<char>, sep: char) -> bool {
    forall|i: int| 0 <= i < s.len() ==> s[i] != sep
}

/// The character of the decimal digit `d`.
pub open spec fn digit_char(d: nat) -> char {
    if d == 0 {
        '0'
    } else if d == 1 {
        '1'
    } else if d == 2 {
        '2'
    } else if d == 3 {
        '3'
    } else if d == 4 {
        '4'
    } else if d == 5 {
        '5'
    } else if d == 6 {
        '6'
    } else if d == 7 {
        '7'
    } else if d == 8 {
        '8'
    } else {
        '9'
    }
}

/// The decimal digits of `n`, most significant first, without leading zeros.
pub open spec fn decimal(n: nat) -> Seq<char>
    decreases n,
{
    if n < 10 {
        seq![digit_char(n)]
    } else {
        decimal(n / 10).push(digit_char(n % 10))
    }
}

/// The decimal text of an integer, with a leading `-` when it is negative,
/// as `Display` writes it.
pub open spec fn signed_decimal(i: int) -> Seq<char> {
    if i < 0 {
        seq!['-'] + decimal((-i) as nat)
    } else {
        decimal(i as nat)
    }
}

pub proof fn lemma_split_pieces_len(s: Seq<char>, sep: char)
    ensures
        split_pieces(s, sep).len() >= 1,
    decreases s.len(),
{
    if s.len() > 0 {
        lemma_split_pieces_len(s.drop_last(), sep);
    }
}

/// A text without the separator is a single piece.
pub proof fn lemma_split_without_sep(s: Seq<char>, sep: char)
    requires
        lacks(s, sep),
    ensures
        split_pieces(s, sep) == seq![s],
    decreases s.len(),
{
    if s.len() > 0 {
        lemma_split_without_sep(s.drop_last(), sep);
        assert(s.drop_last().push(s.last()) =~= s);
        assert(seq![s.drop_last()].update(0, s.drop_last().push(s.last())) =~= seq![s]);
    } else {
        assert(s =~= Seq::<char>::empty());
        assert(seq![Seq::<char>::empty()] =~= seq![s]);
    }
}

/// Splitting `a`, a separator and `b` gives the pieces of `a` followed by those of `b`.
pub proof fn lemma_split_concat(a: Seq<char>, b: Seq<char>, sep: char)
    ensures
        split_pieces(a + seq![sep] + b, sep) == split_pieces(a, sep) + split_pieces(b, sep),
    decreases b.len(),
{
    let whole = a + seq![sep] + b;
    lemma_split_pieces_len(a, sep);
    lemma_split_pieces_len(b, sep);
    if b.len() == 0 {
        assert(whole.drop_last() =~= a);
        assert(split_pieces(a, sep).push(Seq::<char>::empty()) =~= split_pieces(a, sep)
            + split_pieces(b, sep));
    } else {
        lemma_split_concat(a, b.drop_last(), sep);
        assert(whole.drop_last() =~= a + seq![sep] + b.drop_last());
        assert(whole.last() == b.last());
        let pa = split_pieces(a, sep);
        let pb = split_pieces(b.drop_last(), sep);
        lemma_split_pieces_len(b.drop_last(), sep);
        if b.last() == sep {
            assert((pa + pb).push(Seq::<char>::empty()) =~= pa + pb.push(Seq::<char>::empty()));
        } else {
            assert((pa + pb).update((pa + pb).len() - 1, (pa + pb).last().push(b.last())) =~= pa
                + pb.update(pb.len() - 1, pb.last().push(b.last())));
        }
    }
}

/// The text of the decimal digit `d`.
pub fn digit_text(d: u64) -> (r: &'static str)
    requires
        d < 10,
    ensures
        r@ == seq![digit_char(d as nat)],
{
    if d == 0 {
        proof {
            reveal_strlit("0");
        }
        "0"
    } else if d == 1 {
        proof {
            reveal_strlit("1");
        }
        "1"
    } else if d == 2 {
        proof {
            reveal_strlit("2");
        }
        "2"
    } else if d == 3 {
        proof {
            reveal_strlit("3");
        }
        "3"
    } else if d == 4 {
        proof {
            reveal_strlit("4");
        }
        "4"
    } else if d == 5 {
        proof {
            reveal_strlit("5");
        }
        "5"
    } else if d == 6 {
        proof {
            reveal_strlit("6");
        }
        "6"
    } else if d == 7 {
        proof {
            reveal_strlit("7");
        }
        "7"
    } else if d == 8 {
        proof {
            reveal_strlit("8");
        }
        "8"
    } else {
        proof {
            reveal_strlit("9");
        }
        "9"
    }
}

/// Renders `n` in decimal.
pub fn decimal_text(n: u64) -> (r: String)
    ensures
        r@ == decimal(n as nat),
{
    let mut text = String::from_str(digit_text(n % 10));
    let mut rest: u64 = n / 10;
    while rest > 0
        invariant
            rest > 0 ==> decimal(n as nat) == decimal(rest as nat) + text@,
            rest == 0 ==> decimal(n as nat) == text@,
        decreases rest,
    {
        let head = String::from_str(digit_text(rest % 10));
        proof {
            assert(decimal(rest as nat) == (if rest < 10 {
                seq![digit_char(rest as nat)]
            } else {
                decimal((rest / 10) as nat).push(digit_char((rest % 10) as nat))
            }));
            if rest >= 10 {
                assert(decimal((rest / 10) as nat).push(digit_char((rest % 10) as nat)) + text@
                    =~= decimal((rest / 10) as nat) + (head@ + text@));
            } else {
                assert(rest % 10 == rest);
            }
        }
        text = head.concat(text.as_str());
        rest = rest / 10;
    }
    text
}

/// Renders `i` in decimal, with a leading `-` when it is negative.
pub fn signed_decimal_text(i: i64) -> (r: String)
    ensures
        r@ == signed_decimal(i as int),
{
    if i < 0 {
        let magnitude: u64 = if i == i64::MIN {
            9223372036854775808u64
        } else {
            (-i) as u64
        };
        let digits = decimal_text(magnitude);
        proof {
            reveal_strlit("-");
        }
        String::from_str("-").concat(digits.as_str())
    } else {
        decimal_text(i as u64)
    }
}

/// The piece `n` of `s` split on `sep`, or `None` when `s` has fewer pieces.
pub fn split_nth(s: &str, sep: char, n: usize) -> (r: Option<String>)
    ensures
        r is Some <==> nth_piece(s@, sep, n as int) is Some,
        r matches Some(p) ==> p@ == nth_piece(s@, sep, n as int)->0,
{
    let len = s.unicode_len();
    let mut i: usize = 0;
    // number of separators seen so far
    let mut count: usize = 0;
    // where the current (last) piece starts
    let mut start: usize = 0;
    // the range of piece `n` once it is closed
    let mut found_start: usize = 0;
    let mut found_end: usize = 0;
    proof {
        assert(s@.take(0) =~= Seq::<char>::empty());
    }
    while i < len
        invariant
            len == s@.len(),
            0 <= start <= i <= len,
            count <= i,
            split_pieces(s@.take(i as int), sep).len() == count + 1,
            split_pieces(s@.take(i as int), sep)[count as int] == s@.subrange(start as int, i as int),
            n < count ==> found_start <= found_end <= len,
            n < count ==> split_pieces(s@.take(i as int), sep)[n as int] == s@.subrange(
                found_start as int,
                found_end as int,
            ),
        decreases len - i,
    {
        let c = s.get_char(i);
        let ghost before = split_pieces(s@.take(i as int), sep);
        proof {
            assert(s@.take(i + 1).drop_last() =~= s@.take(i as int));
            assert(s@.take(i + 1).last() == c);
        }
        if c == sep {
            if count == n {
                found_start = start;
                found_end = i;
            }
            count = count + 1;
            start = i + 1;
            proof {
                assert(s@.subrange(start as int, (i + 1) as int) =~= Seq::<char>::empty());
            }
        } else {
            proof {
                assert(s@.subrange(start as int, i as int).push(c) =~= s@.subrange(
                    start as int,
                    (i + 1) as int,
                ));
            }
        }
        i = i + 1;
    }
    proof {
        assert(s@.take(len as int) =~= s@);
    }
    if n < count {
        Some(String::from_str(s.substring_char(found_start, found_end)))
    } else if n == count {
        Some(String::from_str(s.substring_char(start, len)))
    } else {
        None
    }
}

/// `s` without `prefix`, or `None` when `s` does not start with `prefix`.
pub fn strip_prefix(s: &str, prefix: &str) -> (r: Option<String>)
    ensures
        r is Some <==> stripped(s@, prefix@) is Some,
        r matches Some(t) ==> t@ == stripped(s@, prefix@)->0,
{
    let len = s.unicode_len();
    let plen = prefix.unicode_len();
    if plen > len {
        return None;
    }
    let mut i: usize = 0;
    while i < plen
        invariant
            len == s@.len(),
            plen == prefix@.len(),
            plen <= len,
            i <= plen,
            forall|j: int| 0 <= j < i ==> prefix@[j] == s@[j],
        decreases plen - i,
    {
        if prefix.get_char(i) != s.get_char(i) {
            return None;
        }
        i = i + 1;
    }
    proof {
        assert(s@.skip(plen as int) =~= s@.subrange(plen as int, len as int));
    }
    Some(String::from_str(s.substring_char(plen, len)))
}

/// Whether `a` and `b` are the same text.
pub fn same_text(a: &str, b: &str) -> (r: bool)
    ensures
        r == (a@ == b@),
{
    let len = a.unicode_len();
    if len != b.unicode_len() {
        return false;
    }
    let mut i: usize = 0;
    while i < len
        invariant
            len == a@.len(),
            len == b@.len(),
            i <= len,
            forall|j: int| 0 <= j < i ==> a@[j] == b@[j],
        decreases len - i,
    {
        if a.get_char(i) != b.get_char(i) {
            return false;
        }
        i = i + 1;
    }
    proof {
        assert(a@ =~= b@);
    }
    true
}

} // verus!
