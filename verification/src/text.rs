//! Character-level text helpers shared by the parsers.
use vstd::prelude::*;
use vstd::string::StrSliceExecFns;
use vstd::string::StringExecFns;

verus! {

/// `prefix` is a prefix of `s`.
pub open spec fn starts_with(s: Seq<char>, prefix: Seq<char>) -> bool {
    prefix.len() <= s.len() && s.subrange(0, prefix.len() as int) == prefix
}

/// Whether `a` and `b` hold the same characters.
pub fn same_text(a: &str, b: &str) -> (r: bool)
    ensures
        r == (a@ == b@),
{
    let n = a.unicode_len();
    if n != b.unicode_len() {
        return false;
    }
    let mut i: usize = 0;
    while i < n
        invariant
            n == a@.len(),
            n == b@.len(),
            i <= n,
            forall|k: int| 0 <= k < i ==> a@[k] == b@[k],
        decreases n - i,
    {
        if a.get_char(i) != b.get_char(i) {
            return false;
        }
        i = i + 1;
    }
    assert(a@ =~= b@);
    true
}

/// The text of `s` after `prefix`, when `s` begins with `prefix`.
pub fn strip_prefix_text(s: &str, prefix: &str) -> (r: Option<String>)
    ensures
        r is Some <==> starts_with(s@, prefix@),
        r matches Some(rest) ==> rest@ == s@.skip(prefix@.len() as int),
{
    let n = s.unicode_len();
    let m = prefix.unicode_len();
    if m > n {
        return None;
    }
    let mut i: usize = 0;
    while i < m
        invariant
            n == s@.len(),
            m == prefix@.len(),
            m <= n,
            i <= m,
            forall|k: int| 0 <= k < i ==> s@[k] == prefix@[k],
        decreases m - i,
    {
        if s.get_char(i) != prefix.get_char(i) {
            assert(s@.subrange(0, m as int)[i as int] != prefix@[i as int]);
            return None;
        }
        i = i + 1;
    }
    assert(s@.subrange(0, m as int) =~= prefix@);
    let rest = s.substring_char(m, n);
    assert(rest@ =~= s@.skip(m as int));
    Some(String::from_str(rest))
}


/// The characters that `char::is_whitespace` accepts: those with the
/// Unicode `White_Space` property.
pub open spec fn is_white(c: char) -> bool {
    ||| ('\t' <= c && c <= '\r')
    ||| c == ' '
    ||| c == '\u{85}'
    ||| c == '\u{a0}'
    ||| c == '\u{1680}'
    ||| ('\u{2000}' <= c && c <= '\u{200a}')
    ||| c == '\u{2028}'
    ||| c == '\u{2029}'
    ||| c == '\u{202f}'
    ||| c == '\u{205f}'
    ||| c == '\u{3000}'
}

/// `s` without its leading white space.
pub open spec fn trim_start(s: Seq<char>) -> Seq<char>
    decreases s.len(),
{
    if s.len() > 0 && is_white(s[0]) {
        trim_start(s.drop_first())
    } else {
        s
    }
}

/// `s` without its trailing white space.
pub open spec fn trim_end(s: Seq<char>) -> Seq<char>
    decreases s.len(),
{
    if s.len() > 0 && is_white(s.last()) {
        trim_end(s.drop_last())
    } else {
        s
    }
}

/// `s` without leading and trailing white space, as `str::trim` gives it.
pub open spec fn trim(s: Seq<char>) -> Seq<char> {
    trim_end(trim_start(s))
}

/// Whether `c` is white space in the sense of `is_white`.
pub fn is_white_char(c: char) -> (r: bool)
    ensures
        r == is_white(c),
{
    ('\t' <= c && c <= '\r') || c == ' ' || c == '\u{85}' || c == '\u{a0}' || c == '\u{1680}'
        || ('\u{2000}' <= c && c <= '\u{200a}') || c == '\u{2028}' || c == '\u{2029}' || c
        == '\u{202f}' || c == '\u{205f}' || c == '\u{3000}'
}

/// `s` without leading and trailing white space.
pub fn trim_text(s: &str) -> (r: String)
    ensures
        r@ == trim(s@),
{
    let n = s.unicode_len();
    let mut lo: usize = 0;
    assert(s@.skip(0) =~= s@);
    loop
        invariant
            n == s@.len(),
            lo <= n,
            trim_start(s@) == trim_start(s@.skip(lo as int)),
        ensures
            lo <= n,
            trim_start(s@) == s@.skip(lo as int),
        decreases n - lo,
    {
        if lo == n {
            break;
        }
        if !is_white_char(s.get_char(lo)) {
            break;
        }
        assert(s@.skip(lo as int).drop_first() =~= s@.skip(lo + 1));
        lo = lo + 1;
    }
    let mut hi: usize = n;
    assert(s@.skip(lo as int) =~= s@.subrange(lo as int, n as int));
    loop
        invariant
            n == s@.len(),
            lo <= hi <= n,
            trim(s@) == trim_end(s@.subrange(lo as int, hi as int)),
        ensures
            lo <= hi <= n,
            trim(s@) == s@.subrange(lo as int, hi as int),
        decreases hi - lo,
    {
        if hi == lo {
            break;
        }
        if !is_white_char(s.get_char(hi - 1)) {
            break;
        }
        assert(s@.subrange(lo as int, hi as int).drop_last() =~= s@.subrange(lo as int, hi - 1));
        hi = hi - 1;
    }
    String::from_str(s.substring_char(lo, hi))
}

/// The decimal digit character for `d`.
pub open spec fn digit_char(d: nat) -> char {
    if d == 0 { '0' }
    else if d == 1 { '1' }
    else if d == 2 { '2' }
    else if d == 3 { '3' }
    else if d == 4 { '4' }
    else if d == 5 { '5' }
    else if d == 6 { '6' }
    else if d == 7 { '7' }
    else if d == 8 { '8' }
    else { '9' }
}

/// The decimal notation of `n`, without sign or leading zeros, as `{}`
/// formats an unsigned integer.
pub open spec fn decimal(n: nat) -> Seq<char>
    decreases n,
{
    if n < 10 {
        seq![digit_char(n)]
    } else {
        decimal(n / 10).push(digit_char(n % 10))
    }
}

/// The value of the decimal digit `c`.
pub open spec fn digit_value(c: char) -> int {
    c as int - '0' as int
}

/// Whether `c` is one of the ten decimal digits.
pub open spec fn is_digit(c: char) -> bool {
    '0' <= c && c <= '9'
}

/// The number that the digit string `s` denotes.
pub open spec fn decimal_value(s: Seq<char>) -> int
    decreases s.len(),
{
    if s.len() == 0 {
        0
    } else {
        decimal_value(s.drop_last()) * 10 + digit_value(s.last())
    }
}

fn digit_text(d: u64) -> (r: &'static str)
    requires
        d < 10,
    ensures
        r@ == seq![digit_char(d as nat)],
{
    proof {
        reveal_strlit("0");
        reveal_strlit("1");
        reveal_strlit("2");
        reveal_strlit("3");
        reveal_strlit("4");
        reveal_strlit("5");
        reveal_strlit("6");
        reveal_strlit("7");
        reveal_strlit("8");
        reveal_strlit("9");
    }
    let r = if d == 0 {
        "0"
    } else if d == 1 {
        "1"
    } else if d == 2 {
        "2"
    } else if d == 3 {
        "3"
    } else if d == 4 {
        "4"
    } else if d == 5 {
        "5"
    } else if d == 6 {
        "6"
    } else if d == 7 {
        "7"
    } else if d == 8 {
        "8"
    } else {
        "9"
    };
    assert(r@ =~= seq![digit_char(d as nat)]);
    r
}

/// The decimal notation of `n`.
pub fn decimal_text(n: u64) -> (r: String)
    ensures
        r@ == decimal(n as nat),
    decreases n,
{
    if n < 10 {
        String::from_str(digit_text(n))
    } else {
        let mut r = decimal_text(n / 10);
        r.append(digit_text(n % 10));
        r
    }
}

proof fn lemma_digit_char(d: nat)
    requires
        d < 10,
    ensures
        is_digit(digit_char(d)),
        digit_value(digit_char(d)) == d,
        digit_char(d) == '0' <==> d == 0,
{
}

/// Decimal notation is read back as the number it was made from: every
/// character is a digit, only zero itself starts with `0`, and the digits
/// denote `n`.
pub proof fn lemma_decimal_reads_back(n: nat)
    ensures
        decimal(n).len() > 0,
        forall|i: int| 0 <= i < decimal(n).len() ==> is_digit(#[trigger] decimal(n)[i]),
        decimal(n)[0] == '0' ==> n == 0,
        decimal_value(decimal(n)) == n,
    decreases n,
{
    if n < 10 {
        lemma_digit_char(n);
        assert(decimal(n).drop_last() =~= Seq::<char>::empty());
        assert(decimal_value(Seq::<char>::empty()) == 0);
        assert(decimal(n).last() == digit_char(n));
    } else {
        lemma_digit_char(n % 10);
        lemma_decimal_reads_back(n / 10);
        let s = decimal(n);
        assert(s.drop_last() =~= decimal(n / 10));
        assert(s[0] == decimal(n / 10)[0]);
        assert(s.last() == digit_char(n % 10));
        assert(n == (n / 10) * 10 + n % 10);
        assert(decimal_value(s) == decimal_value(s.drop_last()) * 10 + digit_value(s.last()));
        assert forall|i: int| 0 <= i < s.len() implies is_digit(#[trigger] s[i]) by {
            if i < s.len() - 1 {
                assert(s[i] == decimal(n / 10)[i]);
            }
        }
    }
}


/// `trim_start(s)` is what follows some leading characters of `s`, and
/// starts with no white space.
proof fn lemma_trim_start_shape(s: Seq<char>)
    ensures
        exists|k: int|
            0 <= k <= s.len() && trim_start(s) == s.skip(k) && forall|j: int|
                0 <= j < k ==> is_white(#[trigger] s[j]),
        trim_start(s).len() > 0 ==> !is_white(trim_start(s)[0]),
    decreases s.len(),
{
    if s.len() > 0 && is_white(s[0]) {
        lemma_trim_start_shape(s.drop_first());
        let k = choose|k: int|
            0 <= k <= s.drop_first().len() && trim_start(s.drop_first()) == s.drop_first().skip(k)
                && forall|j: int| 0 <= j < k ==> is_white(#[trigger] s.drop_first()[j]);
        assert(s.drop_first().skip(k) =~= s.skip(k + 1));
        assert forall|j: int| 0 <= j < k + 1 implies is_white(#[trigger] s[j]) by {
            if j > 0 {
                assert(s[j] == s.drop_first()[j - 1]);
            }
        }
    } else {
        assert(s.skip(0) =~= s);
    }
}

/// `trim_end(s)` is some leading part of `s`, and ends with no white space.
proof fn lemma_trim_end_shape(s: Seq<char>)
    ensures
        exists|m: int|
            0 <= m <= s.len() && trim_end(s) == s.take(m) && forall|j: int|
                m <= j < s.len() ==> is_white(#[trigger] s[j]),
        trim_end(s).len() > 0 ==> !is_white(trim_end(s).last()),
    decreases s.len(),
{
    if s.len() > 0 && is_white(s.last()) {
        lemma_trim_end_shape(s.drop_last());
        let m = choose|m: int|
            0 <= m <= s.drop_last().len() && trim_end(s.drop_last()) == s.drop_last().take(m)
                && forall|j: int| m <= j < s.drop_last().len() ==> is_white(#[trigger] s.drop_last()[j]);
        assert(s.drop_last().take(m) =~= s.take(m));
        assert forall|j: int| m <= j < s.len() implies is_white(#[trigger] s[j]) by {
            if j < s.len() - 1 {
                assert(s[j] == s.drop_last()[j]);
            }
        }
    } else {
        assert(s.take(s.len() as int) =~= s);
    }
}

/// `trim(s)` holds only characters of `s`, and does not begin or end with
/// white space.
pub proof fn lemma_trim_shape(s: Seq<char>)
    ensures
        forall|i: int| 0 <= i < trim(s).len() ==> s.contains(#[trigger] trim(s)[i]),
        trim(s).len() > 0 ==> !is_white(trim(s)[0]) && !is_white(trim(s).last()),
{
    lemma_trim_is_inner_part(s);
    let (k, m) = choose|k: int, m: int|
        {
            &&& 0 <= k <= m <= s.len()
            &&& trim(s) == s.subrange(k, m)
            &&& forall|j: int| 0 <= j < k ==> is_white(#[trigger] s[j])
            &&& forall|j: int| m <= j < s.len() ==> is_white(#[trigger] s[j])
        };
    assert forall|i: int| 0 <= i < trim(s).len() implies s.contains(#[trigger] trim(s)[i]) by {
        assert(trim(s)[i] == s[k + i]);
    }
    lemma_trim_start_shape(s);
    let q = trim_start(s);
    lemma_trim_end_shape(q);
    if trim(s).len() > 0 {
        let m2 = choose|m: int|
            0 <= m <= q.len() && trim_end(q) == q.take(m) && forall|j: int|
                m <= j < q.len() ==> is_white(#[trigger] q[j]);
        assert(trim(s)[0] == q[0]);
    }
}

/// `trim(s)` is the part of `s` between white space that was cut off at
/// the start and at the end.
pub proof fn lemma_trim_is_inner_part(s: Seq<char>)
    ensures
        exists|k: int, m: int|
            {
                &&& 0 <= k <= m <= s.len()
                &&& trim(s) == s.subrange(k, m)
                &&& forall|j: int| 0 <= j < k ==> is_white(#[trigger] s[j])
                &&& forall|j: int| m <= j < s.len() ==> is_white(#[trigger] s[j])
            },
{
    lemma_trim_start_shape(s);
    let k = choose|k: int|
        0 <= k <= s.len() && trim_start(s) == s.skip(k) && forall|j: int|
            0 <= j < k ==> is_white(#[trigger] s[j]);
    let q = trim_start(s);
    lemma_trim_end_shape(q);
    let m = choose|m: int|
        0 <= m <= q.len() && trim_end(q) == q.take(m) && forall|j: int|
            m <= j < q.len() ==> is_white(#[trigger] q[j]);
    assert(trim(s) =~= s.subrange(k, k + m));
    assert forall|j: int| k + m <= j < s.len() implies is_white(#[trigger] s[j]) by {
        assert(s[j] == q[j - k]);
    }
}

/// The pieces of `s` between occurrences of `sep`, as `str::split` with a
/// character pattern yields them: empty pieces included, and one piece
/// more than `s` has separators.
pub open spec fn split_on(s: Seq<char>, sep: char) -> Seq<Seq<char>>
    decreases s.len(),
{
    if s.len() == 0 {
        seq![Seq::<char>::empty()]
    } else {
        let init = split_on(s.drop_last(), sep);
        if s.last() == sep {
            init.push(Seq::<char>::empty())
        } else {
            init.update(init.len() - 1, init.last().push(s.last()))
        }
    }
}

/// `split_on` never yields an empty list of pieces.
proof fn lemma_split_on_nonempty(s: Seq<char>, sep: char)
    ensures
        split_on(s, sep).len() >= 1,
    decreases s.len(),
{
    if s.len() > 0 {
        lemma_split_on_nonempty(s.drop_last(), sep);
    }
}

/// The pieces, each trimmed, that are not empty once trimmed, in order.
pub open spec fn trimmed_nonempty(pieces: Seq<Seq<char>>) -> Seq<Seq<char>>
    decreases pieces.len(),
{
    if pieces.len() == 0 {
        Seq::<Seq<char>>::empty()
    } else {
        let init = trimmed_nonempty(pieces.drop_last());
        let t = trim(pieces.last());
        if t.len() == 0 {
            init
        } else {
            init.push(t)
        }
    }
}

/// No piece that `split_on` yields holds the separator.
pub proof fn lemma_split_on_pieces_lack_sep(s: Seq<char>, sep: char)
    ensures
        forall|j: int| 0 <= j < split_on(s, sep).len() ==> !(#[trigger] split_on(s, sep)[j]).contains(sep),
    decreases s.len(),
{
    lemma_split_on_nonempty(s, sep);
    if s.len() > 0 {
        lemma_split_on_pieces_lack_sep(s.drop_last(), sep);
        lemma_split_on_nonempty(s.drop_last(), sep);
        let init = split_on(s.drop_last(), sep);
        let pieces = split_on(s, sep);
        if s.last() != sep {
            let grown = init.last().push(s.last());
            assert forall|x: int| 0 <= x < grown.len() implies grown[x] != sep by {
                if x < init.last().len() {
                    assert(!init[init.len() - 1].contains(sep));
                    assert(grown[x] == init.last()[x]);
                }
            }
            assert forall|j: int| 0 <= j < pieces.len() implies !(#[trigger] pieces[j]).contains(sep) by {
                if j < init.len() - 1 {
                    assert(pieces[j] == init[j]);
                } else {
                    assert(pieces[j] == grown);
                }
            }
        } else {
            assert forall|j: int| 0 <= j < pieces.len() implies !(#[trigger] pieces[j]).contains(sep) by {
                if j < init.len() {
                    assert(pieces[j] == init[j]);
                } else {
                    assert(pieces[j] =~= Seq::<char>::empty());
                }
            }
        }
    }
}

/// Every entry that `trimmed_nonempty` keeps is a non-empty trimmed piece.
proof fn lemma_trimmed_nonempty_from_pieces(pieces: Seq<Seq<char>>)
    ensures
        forall|i: int| 0 <= i < trimmed_nonempty(pieces).len() ==> exists|j: int|
            0 <= j < pieces.len() && #[trigger] trimmed_nonempty(pieces)[i] == trim(pieces[j])
                && trim(pieces[j]).len() > 0,
    decreases pieces.len(),
{
    if pieces.len() > 0 {
        lemma_trimmed_nonempty_from_pieces(pieces.drop_last());
        let init = trimmed_nonempty(pieces.drop_last());
        let out = trimmed_nonempty(pieces);
        assert forall|i: int| 0 <= i < out.len() implies exists|j: int|
            0 <= j < pieces.len() && #[trigger] out[i] == trim(pieces[j]) && trim(pieces[j]).len() > 0 by {
            if i < init.len() {
                assert(out[i] == init[i]);
                let j = choose|j: int| 0 <= j < pieces.drop_last().len() && init[i] == trim(pieces.drop_last()[j]) && trim(pieces.drop_last()[j]).len() > 0;
                assert(pieces.drop_last()[j] == pieces[j]);
            } else {
                assert(out[i] == trim(pieces[pieces.len() - 1]));
            }
        }
    }
}

/// `trimmed_nonempty` trims every piece and keeps, in order, exactly those
/// that are not empty once trimmed.
pub proof fn lemma_trimmed_nonempty_is_filter(pieces: Seq<Seq<char>>)
    ensures
        trimmed_nonempty(pieces) == pieces.map_values(|p: Seq<char>| trim(p)).filter(
            |t: Seq<char>| t.len() > 0,
        ),
    decreases pieces.len(),
{
    let f = |p: Seq<char>| trim(p);
    let keep = |t: Seq<char>| t.len() > 0;
    if pieces.len() > 0 {
        lemma_trimmed_nonempty_is_filter(pieces.drop_last());
        let mapped = pieces.map_values(f);
        assert(mapped.drop_last() =~= pieces.drop_last().map_values(f));
        assert(mapped.last() == trim(pieces.last()));
        reveal_with_fuel(Seq::<_>::filter, 1);
        assert(mapped.filter(keep) == if keep(mapped.last()) {
            mapped.drop_last().filter(keep).push(mapped.last())
        } else {
            mapped.drop_last().filter(keep)
        });
    } else {
        assert(pieces.map_values(f) =~= Seq::<Seq<char>>::empty());
    }
}

/// Every entry of `split_trimmed` is non-empty, holds no separator, and
/// does not begin or end with white space.
pub proof fn lemma_split_trimmed_entries(s: Seq<char>, sep: char)
    ensures
        forall|i: int| 0 <= i < trimmed_nonempty(split_on(s, sep)).len() ==> {
            let t = #[trigger] trimmed_nonempty(split_on(s, sep))[i];
            &&& t.len() > 0
            &&& !t.contains(sep)
            &&& !is_white(t[0])
            &&& !is_white(t.last())
        },
{
    let pieces = split_on(s, sep);
    lemma_split_on_pieces_lack_sep(s, sep);
    lemma_trimmed_nonempty_from_pieces(pieces);
    let out = trimmed_nonempty(pieces);
    assert forall|i: int| 0 <= i < out.len() implies {
        let t = #[trigger] out[i];
        &&& t.len() > 0
        &&& !t.contains(sep)
        &&& !is_white(t[0])
        &&& !is_white(t.last())
    } by {
        let j = choose|j: int| 0 <= j < pieces.len() && out[i] == trim(pieces[j]) && trim(pieces[j]).len() > 0;
        let p = pieces[j];
        lemma_trim_shape(p);
        assert(!p.contains(sep));
        if out[i].contains(sep) {
            let x = choose|x: int| 0 <= x < out[i].len() && out[i][x] == sep;
            assert(p.contains(trim(p)[x]));
        }
    }
}

/// `pieces` written one after the other with `sep` between each two.
pub open spec fn join_with(pieces: Seq<Seq<char>>, sep: char) -> Seq<char>
    decreases pieces.len(),
{
    if pieces.len() == 0 {
        Seq::<char>::empty()
    } else if pieces.len() == 1 {
        pieces[0]
    } else {
        join_with(pieces.drop_last(), sep).push(sep) + pieces.last()
    }
}

/// Splitting loses nothing: the pieces joined again with the separator give
/// back `s` (and by `lemma_split_on_pieces_lack_sep` no piece holds the
/// separator, so every separator of `s` is a cut).
pub proof fn lemma_split_on_joins_back(s: Seq<char>, sep: char)
    ensures
        join_with(split_on(s, sep), sep) == s,
    decreases s.len(),
{
    if s.len() == 0 {
        assert(split_on(s, sep) =~= seq![Seq::<char>::empty()]);
        assert(s =~= Seq::<char>::empty());
    } else {
        let prev = s.drop_last();
        let c = s.last();
        lemma_split_on_joins_back(prev, sep);
        lemma_split_on_nonempty(prev, sep);
        let init = split_on(prev, sep);
        let pieces = split_on(s, sep);
        if c == sep {
            assert(pieces.drop_last() =~= init);
            assert(pieces.last() =~= Seq::<char>::empty());
            assert(join_with(pieces, sep) =~= prev.push(sep));
        } else {
            let grown = init.last().push(c);
            if init.len() == 1 {
                assert(pieces[0] == grown);
                assert(join_with(pieces, sep) =~= prev.push(c));
            } else {
                assert(pieces.drop_last() =~= init.drop_last());
                assert(pieces.last() == grown);
                let head = join_with(init.drop_last(), sep).push(sep);
                assert(prev == head + init.last());
                assert(head + grown =~= (head + init.last()).push(c));
            }
        }
        assert(prev.push(c) =~= s);
    }
}

/// The trimmed, non-empty pieces of `s` between occurrences of `sep`.
pub fn split_trimmed(s: &str, sep: char) -> (r: Vec<String>)
    ensures
        r.deep_view() == trimmed_nonempty(split_on(s@, sep)),
{
    let n = s.unicode_len();
    let mut out: Vec<String> = Vec::new();
    let mut start: usize = 0;
    let mut i: usize = 0;
    let ghost mut done: Seq<Seq<char>> = Seq::empty();
    assert(s@.take(0) =~= Seq::<char>::empty());
    assert(s@.subrange(0, 0) =~= Seq::<char>::empty());
    while i < n
        invariant
            n == s@.len(),
            start <= i <= n,
            split_on(s@.take(i as int), sep) == done.push(s@.subrange(start as int, i as int)),
            out.deep_view() == trimmed_nonempty(done),
        decreases n - i,
    {
        let c = s.get_char(i);
        let ghost piece = s@.subrange(start as int, i as int);
        assert(s@.take(i + 1).drop_last() =~= s@.take(i as int));
        assert(s@.take(i + 1).last() == c);
        if c == sep {
            let t = trim_text(s.substring_char(start, i));
            proof {
                assert(done.push(piece).drop_last() =~= done);
            }
            if t.unicode_len() > 0 {
                out.push(t);
                assert(out.deep_view() =~= trimmed_nonempty(done.push(piece)));
            }
            proof {
                done = done.push(piece);
                assert(s@.subrange(i + 1, i + 1) =~= Seq::<char>::empty());
                assert(split_on(s@.take(i + 1), sep) =~= done.push(s@.subrange(i + 1, i + 1)));
            }
            start = i + 1;
        } else {
            proof {
                let prev = done.push(piece);
                assert(s@.subrange(start as int, i + 1) =~= piece.push(c));
                assert(prev.update(prev.len() - 1, prev.last().push(c)) =~= done.push(
                    s@.subrange(start as int, i + 1),
                ));
            }
        }
        i = i + 1;
    }
    let t = trim_text(s.substring_char(start, n));
    let ghost last = s@.subrange(start as int, n as int);
    proof {
        assert(s@.take(n as int) =~= s@);
        assert(done.push(last).drop_last() =~= done);
    }
    if t.unicode_len() > 0 {
        out.push(t);
        assert(out.deep_view() =~= trimmed_nonempty(done.push(last)));
    }
    out
}

} // verus!
