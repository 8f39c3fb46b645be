//! Character-level text helpers: trimming, splitting and decimal formatting.
use vstd::prelude::*;

verus! {

/// Unicode `White_Space` characters, the set that `char::is_whitespace` and
/// `str::trim` use.
pub open spec fn is_white_space(c: char) -> bool {
    let u = c as u32;
    (0x9 <= u && u <= 0xd) || u == 0x20 || u == 0x85 || u == 0xa0 || u == 0x1680 || (0x2000 <= u
        && u <= 0x200a) || u == 0x2028 || u == 0x2029 || u == 0x202f || u == 0x205f || u == 0x3000
}

/// Characters that pad a fixed-width text field: NUL and space.
pub open spec fn is_padding(c: char) -> bool {
    c == '\0' || c == ' '
}

/// `s` without its trailing padding characters.
pub open spec fn strip_padding(s: Seq<char>) -> Seq<char>
    decreases s.len(),
{
    if s.len() > 0 && is_padding(s.last()) {
        strip_padding(s.drop_last())
    } else {
        s
    }
}

/// `s` without its trailing white space.
pub open spec fn strip_trailing_white(s: Seq<char>) -> Seq<char>
    decreases s.len(),
{
    if s.len() > 0 && is_white_space(s.last()) {
        strip_trailing_white(s.drop_last())
    } else {
        s
    }
}

/// `s` without its leading white space.
pub open spec fn strip_leading_white(s: Seq<char>) -> Seq<char>
    decreases s.len(),
{
    if s.len() > 0 && is_white_space(s[0]) {
        strip_leading_white(s.drop_first())
    } else {
        s
    }
}

/// `s` without white space at either end.
pub open spec fn trim_white(s: Seq<char>) -> Seq<char> {
    strip_leading_white(strip_trailing_white(s))
}

/// The pieces of `s` between occurrences of `sep`, in order; an empty text is
/// one empty piece, and a separator at either end yields an empty piece there.
pub open spec fn split_pieces(s: Seq<char>, sep: char) -> Seq<Seq<char>>
    decreases s.len(),
{
    if s.len() == 0 {
        seq![Seq::<char>::empty()]
    } else {
        let rest = split_pieces(s.drop_last(), sep);
        if s.last() == sep {
            rest.push(Seq::<char>::empty())
        } else {
            rest.update(rest.len() - 1, rest.last().push(s.last()))
        }
    }
}

/// The views of a sequence of strings.
pub open spec fn texts(v: Seq<String>) -> Seq<Seq<char>> {
    v.map_values(|s: String| s@)
}

/// The character of a decimal digit.
pub open spec fn digit_char(d: nat) -> char {
    if d == 0 {
        '0'
    } else if d == 1 {
        '1'
    } else if d == 2 {
        '2'
    } else if d == 3 {
        '3'
    } else if d == 4 {
        '4'
    } else if d == 5 {
        '5'
    } else if d == 6 {
        '6'
    } else if d == 7 {
        '7'
    } else if d == 8 {
        '8'
    } else {
        '9'
    }
}

/// Whether `c` is one of `0` to `9`.
pub open spec fn is_digit(c: char) -> bool {
    '0' <= c && c <= '9'
}

/// The decimal digits of `n`, without leading zeros.
pub open spec fn decimal(n: nat) -> Seq<char>
    decreases n,
{
    if n < 10 {
        seq![digit_char(n)]
    } else {
        decimal(n / 10).push(digit_char(n % 10))
    }
}

/// The decimal form of a signed integer: a minus sign before the digits of a
/// negative one.
pub open spec fn signed_decimal(n: int) -> Seq<char> {
    if n < 0 {
        seq!['-'] + decimal((-n) as nat)
    } else {
        decimal(n as nat)
    }
}

/// Whether `c` is Unicode white space.
pub fn white_space(c: char) -> (r: bool)
    ensures
        r == is_white_space(c),
{
    let u = c as u32;
    (0x9 <= u && u <= 0xd) || u == 0x20 || u == 0x85 || u == 0xa0 || u == 0x1680 || (0x2000 <= u
        && u <= 0x200a) || u == 0x2028 || u == 0x2029 || u == 0x202f || u == 0x205f || u == 0x3000
}

/// Whether `c` pads a fixed-width field.
pub fn padding(c: char) -> (r: bool)
    ensures
        r == is_padding(c),
{
    c == '\0' || c == ' '
}

/// Removes the trailing NUL and space characters that pad a fixed-width
/// text field.
pub fn trim_null_bytes(input: String) -> (r: String)
    ensures
        r@ == strip_padding(input@),
{
    let s = input.as_str();
    let mut end = s.unicode_len();
    assert(s@.subrange(0, end as int) =~= s@);
    while end > 0 && padding(s.get_char(end - 1))
        invariant
            end <= s@.len(),
            strip_padding(s@) == strip_padding(s@.subrange(0, end as int)),
        decreases end,
    {
        assert(s@.subrange(0, end as int).drop_last() =~= s@.subrange(0, end - 1));
        end = end - 1;
    }
    assert(s@.subrange(0, end as int) == strip_padding(s@.subrange(0, end as int)));
    String::from_str(s.substring_char(0, end))
}

/// The characters of `s` between `lo` and `hi`, without white space at either
/// end.
fn trimmed_range(s: &str, lo: usize, hi: usize) -> (r: String)
    requires
        lo <= hi <= s@.len(),
    ensures
        r@ == trim_white(s@.subrange(lo as int, hi as int)),
{
    let mut end = hi;
    while end > lo && white_space(s.get_char(end - 1))
        invariant
            lo <= end <= hi <= s@.len(),
            strip_trailing_white(s@.subrange(lo as int, hi as int)) == strip_trailing_white(
                s@.subrange(lo as int, end as int),
            ),
        decreases end,
    {
        assert(s@.subrange(lo as int, end as int).drop_last() =~= s@.subrange(
            lo as int,
            end - 1,
        ));
        end = end - 1;
    }
    assert(strip_trailing_white(s@.subrange(lo as int, end as int)) == s@.subrange(
        lo as int,
        end as int,
    ));
    let mut start = lo;
    while start < end && white_space(s.get_char(start))
        invariant
            lo <= start <= end <= s@.len(),
            trim_white(s@.subrange(lo as int, hi as int)) == strip_leading_white(
                s@.subrange(start as int, end as int),
            ),
        decreases end - start,
    {
        assert(s@.subrange(start as int, end as int).drop_first() =~= s@.subrange(
            start + 1,
            end as int,
        ));
        start = start + 1;
    }
    String::from_str(s.substring_char(start, end))
}

proof fn lemma_split_pieces_nonempty(s: Seq<char>, sep: char)
    ensures
        split_pieces(s, sep).len() >= 1,
    decreases s.len(),
{
    if s.len() > 0 {
        lemma_split_pieces_nonempty(s.drop_last(), sep);
    }
}

/// Splits `input` at each `separator` and trims white space from both ends
/// of every piece.
pub fn split_string(input: String, separator: char) -> (r: Vec<String>)
    ensures
        texts(r@) == split_pieces(input@, separator).map_values(|p: Seq<char>| trim_white(p)),
{
    let s = input.as_str();
    let n = s.unicode_len();
    let mut pieces: Vec<String> = Vec::new();
    let mut start: usize = 0;
    let mut i: usize = 0;
    while i < n
        invariant
            n == s@.len(),
            start <= i <= n,
            split_pieces(s@.subrange(0, i as int), separator).len() >= 1,
            texts(pieces@) == split_pieces(s@.subrange(0, i as int), separator).drop_last().map_values(
                |p: Seq<char>| trim_white(p),
            ),
            split_pieces(s@.subrange(0, i as int), separator).last() == s@.subrange(
                start as int,
                i as int,
            ),
        decreases n - i,
    {
        let ghost prev = s@.subrange(0, i as int);
        let ghost next = s@.subrange(0, i + 1);
        assert(next.drop_last() =~= prev);
        let c = s.get_char(i);
        if c == separator {
            let piece = trimmed_range(s, start, i);
            let ghost before = pieces@;
            let ghost sp = split_pieces(prev, separator);
            assert(sp =~= sp.drop_last().push(sp.last()));
            pieces.push(piece);
            assert(texts(pieces@) =~= texts(before).push(piece@));
            assert(split_pieces(next, separator).drop_last() =~= split_pieces(prev, separator));
            assert(texts(pieces@) =~= split_pieces(next, separator).drop_last().map_values(
                |p: Seq<char>| trim_white(p),
            ));
            start = i + 1;
            assert(split_pieces(next, separator).last() =~= s@.subrange(start as int, i + 1));
        } else {
            assert(split_pieces(next, separator).drop_last() =~= split_pieces(
                prev,
                separator,
            ).drop_last());
            assert(split_pieces(next, separator).last() =~= s@.subrange(start as int, i + 1));
        }
        proof {
            lemma_split_pieces_nonempty(next, separator);
        }
        i = i + 1;
    }
    let last = trimmed_range(s, start, n);
    let ghost before = pieces@;
    pieces.push(last);
    assert(texts(pieces@) =~= texts(before).push(last@));
    assert(s@.subrange(0, n as int) =~= s@);
    let ghost all = split_pieces(s@, separator);
    assert(all =~= all.drop_last().push(all.last()));
    assert(texts(pieces@) =~= all.map_values(|p: Seq<char>| trim_white(p)));
    pieces
}

/// The character string of one decimal digit.
fn digit_text(d: u64) -> (r: &'static str)
    requires
        d < 10,
    ensures
        r@ == seq![digit_char(d as nat)],
{
    proof {
        reveal_strlit("0");
        reveal_strlit("1");
        reveal_strlit("2");
        reveal_strlit("3");
        reveal_strlit("4");
        reveal_strlit("5");
        reveal_strlit("6");
        reveal_strlit("7");
        reveal_strlit("8");
        reveal_strlit("9");
    }
    if d == 0 {
        "0"
    } else if d == 1 {
        "1"
    } else if d == 2 {
        "2"
    } else if d == 3 {
        "3"
    } else if d == 4 {
        "4"
    } else if d == 5 {
        "5"
    } else if d == 6 {
        "6"
    } else if d == 7 {
        "7"
    } else if d == 8 {
        "8"
    } else {
        "9"
    }
}

/// Appends the decimal digits of `n` to `out`.
pub fn push_decimal(out: &mut String, n: u64)
    ensures
        final(out)@ == old(out)@ + decimal(n as nat),
    decreases n,
{
    if n >= 10 {
        push_decimal(out, n / 10);
    }
    out.append(digit_text(n % 10));
    assert(old(out)@ + decimal(n as nat) =~= out@) by {
        if n >= 10 {
            assert(decimal(n as nat) == decimal((n / 10) as nat).push(digit_char((n % 10) as nat)));
        }
    }
}

/// Appends the decimal form of a signed integer to `out`.
pub fn push_signed_decimal(out: &mut String, n: i32)
    ensures
        final(out)@ == old(out)@ + signed_decimal(n as int),
{
    if n < 0 {
        proof {
            reveal_strlit("-");
        }
        out.append("-");
        let magnitude: u64 = (-(n as i64)) as u64;
        push_decimal(out, magnitude);
        assert(out@ =~= old(out)@ + signed_decimal(n as int));
    } else {
        push_decimal(out, n as u64);
    }
}

/// A copy of a list of texts.
pub fn copy_texts(v: &Vec<String>) -> (r: Vec<String>)
    ensures
        texts(r@) == texts(v@),
{
    let mut out: Vec<String> = Vec::new();
    let mut i: usize = 0;
    while i < v.len()
        invariant
            i <= v@.len(),
            out@.len() == i,
            forall|k: int| 0 <= k < i ==> out@[k]@ == v@[k]@,
        decreases v@.len() - i,
    {
        out.push(v[i].clone());
        i = i + 1;
    }
    assert(texts(out@) =~= texts(v@));
    out
}

} // verus!
