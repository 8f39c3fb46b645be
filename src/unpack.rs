//! Decoding of fixed-width text fields.
//!
//! A profile file stores text as fixed-width runs of bytes, padded with NUL
//! or blanks. A field is read as exactly `byte_width` bytes (missing bytes
//! count as NUL), decoded as UTF-8 with invalid sequences replaced, and
//! stripped of its trailing NUL and space characters. A field whose bytes are absent decodes
//! to the empty text.
use vstd::prelude::*;
use vstd::utf8::*;

use crate::text::{is_padding, strip_padding, texts, trim_null_bytes};

verus! {

/// What `String::from_utf8_lossy` makes of a byte sequence that is not valid
/// UTF-8.
pub uninterp spec fn utf8_lossy(b: Seq<u8>) -> Seq<char>;

/// The text that lossy UTF-8 decoding gives for `b`.
pub open spec fn lossy_decode(b: Seq<u8>) -> Seq<char> {
    if valid_utf8(b) {
        decode_utf8(b)
    } else {
        utf8_lossy(b)
    }
}

/// Relies on `String::from_utf8_lossy`: valid UTF-8 decodes to the characters
/// it encodes; otherwise each invalid sequence becomes one U+FFFD, so the
/// result holds that character, has no more characters than there are
/// bytes, and depends on the bytes alone.
#[verifier::external_body]
fn decode_lossy(b: &[u8]) -> (r: String)
    ensures
        valid_utf8(b@) ==> r@ == decode_utf8(b@),
        !valid_utf8(b@) ==> r@ == utf8_lossy(b@),
        !valid_utf8(b@) ==> r@.contains('\u{FFFD}'),
        r@.len() <= b@.len(),
{
    String::from_utf8_lossy(b).into_owned()
}

/// The `i`-th run of `width` bytes of `raw`; bytes past the end of `raw` are
/// NUL.
pub open spec fn chunk(raw: Seq<u8>, width: nat, i: nat) -> Seq<u8> {
    Seq::new(
        width,
        |j: int|
            if i * width + j < raw.len() {
                raw[i * width + j]
            } else {
                0u8
            },
    )
}

/// The text held in one fixed-width run of bytes.
pub open spec fn decode_fixed(bytes: Seq<u8>) -> Seq<char> {
    strip_padding(lossy_decode(bytes))
}

/// The bytes of a field that may be absent.
pub open spec fn bytes_of(raw: Option<&[u8]>) -> Option<Seq<u8>> {
    match raw {
        Some(b) => Some(b@),
        None => None,
    }
}

/// The text of a fixed-width field of `width` bytes.
pub open spec fn fixed_string(raw: Option<Seq<u8>>, width: nat) -> Seq<char> {
    match raw {
        Some(b) => decode_fixed(chunk(b, width, 0)),
        None => Seq::empty(),
    }
}

/// The texts of an array of `count` fixed-width fields of `width` bytes each.
pub open spec fn fixed_strings(raw: Option<Seq<u8>>, width: nat, count: nat) -> Seq<Seq<char>> {
    Seq::new(
        count,
        |i: int|
            match raw {
                Some(b) => decode_fixed(chunk(b, width, i as nat)),
                None => Seq::empty(),
            },
    )
}

/// The `width` bytes of `raw` from `start` on, NUL past its end.
fn chunk_bytes(raw: &[u8], start: usize, width: usize) -> (r: Vec<u8>)
    requires
        start < raw@.len(),
    ensures
        r@ == Seq::new(
            width as nat,
            |j: int|
                if start + j < raw@.len() {
                    raw@[start + j]
                } else {
                    0u8
                },
        ),
{
    let mut out: Vec<u8> = Vec::new();
    let mut j: usize = 0;
    let n = raw.len();
    let available = n - start;
    while j < width
        invariant
            j <= width,
            n == raw@.len(),
            start < raw@.len(),
            available == raw@.len() - start,
            out@.len() == j,
            forall|k: int|
                0 <= k < j ==> out@[k] == (if start + k < raw@.len() {
                    raw@[start + k]
                } else {
                    0u8
                }),
        decreases width - j,
    {
        let b: u8 = if j < available {
            raw[start + j]
        } else {
            0u8
        };
        out.push(b);
        j = j + 1;
    }
    assert(out@ =~= Seq::new(
        width as nat,
        |j: int|
            if start + j < raw@.len() {
                raw@[start + j]
            } else {
                0u8
            },
    ));
    out
}

/// The text of the `i`-th run of `width` bytes of `raw`.
fn decode_chunk(raw: &[u8], width: usize, i: usize) -> (r: String)
    ensures
        r@ == decode_fixed(chunk(raw@, width as nat, i as nat)),
        r@.len() <= width,
        width == 1 ==> (r@ == seq!['R'] <==> chunk(raw@, 1, i as nat)[0] == 0x52u8),
{
    let n = raw.len();
    match i.checked_mul(width) {
        Some(start) => {
            if start < n {
                let bytes = chunk_bytes(raw, start, width);
                assert(bytes@ =~= chunk(raw@, width as nat, i as nat));
                let text = decode_lossy(bytes.as_slice());
                let r = trim_null_bytes(text);
                proof {
                    lemma_strip_shorter(text@);
                    if width == 1 {
                        lemma_single_byte(bytes@, text@);
                    }
                }
                return r;
            }
        },
        None => {},
    }
    proof {
        lemma_chunk_past_end(raw@, width as nat, i as nat);
        if width == 1 {
            assert(chunk(raw@, 1, i as nat)[0] == 0u8);
        }
    }
    String::new()
}

/// Reads a fixed-width text field of `byte_width` bytes; an absent field is
/// the empty text.
pub fn unpack_fixed_string(raw: Option<&[u8]>, byte_width: usize) -> (r: String)
    ensures
        r@ == fixed_string(bytes_of(raw), byte_width as nat),
        r@.len() <= byte_width,
        r@.len() == 0 || !is_padding(r@.last()),
        byte_width == 1 ==> (r@ == seq!['R'] <==> first_byte_is(bytes_of(raw), 0x52u8)),
{
    let r = match raw {
        Some(b) => decode_chunk(b, byte_width, 0),
        None => String::new(),
    };
    proof {
        lemma_unpadded(r@, bytes_of(raw), byte_width as nat, 0);
    }
    r
}

/// Reads an array of `count` fixed-width text fields of `byte_width` bytes
/// each; the result always has `count` entries, all empty where the field is
/// absent.
pub fn unpack_fixed_string_array(raw: Option<&[u8]>, byte_width: usize, count: usize) -> (r: Vec<
    String,
>)
    ensures
        r@.len() == count,
        texts(r@) == fixed_strings(bytes_of(raw), byte_width as nat, count as nat),
        forall|i: int|
            0 <= i < count ==> #[trigger] r@[i]@.len() <= byte_width && (r@[i]@.len() == 0
                || !is_padding(r@[i]@.last())),
{
    let mut out: Vec<String> = Vec::new();
    let mut i: usize = 0;
    while i < count
        invariant
            i <= count,
            out@.len() == i,
            forall|k: int|
                0 <= k < i ==> out@[k]@ == fixed_strings(
                    bytes_of(raw),
                    byte_width as nat,
                    count as nat,
                )[k],
            forall|k: int|
                0 <= k < i ==> #[trigger] out@[k]@.len() <= byte_width && (out@[k]@.len() == 0
                    || !is_padding(out@[k]@.last())),
        decreases count - i,
    {
        let text = match raw {
            Some(b) => decode_chunk(b, byte_width, i),
            None => String::new(),
        };
        proof {
            lemma_unpadded(text@, bytes_of(raw), byte_width as nat, i as nat);
        }
        out.push(text);
        i = i + 1;
    }
    assert(texts(out@) =~= fixed_strings(bytes_of(raw), byte_width as nat, count as nat));
    out
}

/// Whether the bytes of a field are present and begin with `b`.
pub open spec fn first_byte_is(raw: Option<Seq<u8>>, b: u8) -> bool {
    match raw {
        Some(s) => s.len() >= 1 && s[0] == b,
        None => false,
    }
}

proof fn lemma_strip_shorter(s: Seq<char>)
    ensures
        strip_padding(s).len() <= s.len(),
        strip_padding(s).len() == 0 || !is_padding(strip_padding(s).last()),
    decreases s.len(),
{
    if s.len() > 0 && is_padding(s.last()) {
        lemma_strip_shorter(s.drop_last());
    }
}

/// The decoded text of a field never ends in padding.
proof fn lemma_unpadded(r: Seq<char>, raw: Option<Seq<u8>>, width: nat, i: nat)
    requires
        r == (match raw {
            Some(b) => decode_fixed(chunk(b, width, i)),
            None => Seq::<char>::empty(),
        }),
    ensures
        r.len() == 0 || !is_padding(r.last()),
{
    match raw {
        Some(b) => lemma_strip_shorter(lossy_decode(chunk(b, width, i))),
        None => {},
    }
}

/// The one-byte field whose decoded text is `d`, with `d` as the lossy
/// decoder describes it, reads as `R` exactly when its byte is `R`.
proof fn lemma_single_byte(bytes: Seq<u8>, d: Seq<char>)
    requires
        bytes.len() == 1,
        valid_utf8(bytes) ==> d == decode_utf8(bytes),
        !valid_utf8(bytes) ==> d.contains('\u{FFFD}'),
        d.len() <= 1,
    ensures
        strip_padding(d) == seq!['R'] <==> bytes[0] == 0x52u8,
{
    let c = bytes[0];
    if c < 0x80 {
        assert((c & 0x7f) == c) by (bit_vector)
            requires
                c < 0x80,
        ;
        assert(valid_first_scalar(bytes));
        assert(pop_first_scalar(bytes) =~= Seq::<u8>::empty());
        assert(valid_utf8(Seq::<u8>::empty()));
        assert(valid_utf8(bytes));
        assert(decode_utf8(Seq::<u8>::empty()) =~= Seq::<char>::empty());
        assert(d =~= seq![(c as u32) as char]);
        let ch = (c as u32) as char;
        assert(ch as u32 == c as u32);
        if c == 0x52u8 {
            assert(ch == 'R');
            assert(!is_padding(ch));
            assert(strip_padding(d) == d);
        } else {
            assert(ch != 'R');
            if is_padding(ch) {
                assert(d.drop_last() =~= Seq::<char>::empty());
                assert(strip_padding(Seq::<char>::empty()) == Seq::<char>::empty());
                assert(strip_padding(d) == Seq::<char>::empty());
            } else {
                assert(strip_padding(d) == d);
            }
        }
    } else {
        assert(!valid_first_scalar(bytes));
        assert(!valid_utf8(bytes));
        let k = choose|k: int| 0 <= k < d.len() && d[k] == '\u{FFFD}';
        assert(d =~= seq!['\u{FFFD}']);
        assert(!is_padding('\u{FFFD}'));
        assert(strip_padding(d) == d);
        assert(d[0] != 'R');
    }
}

proof fn lemma_encode_concat(a: Seq<char>, b: Seq<char>)
    ensures
        encode_utf8(a + b) == encode_utf8(a) + encode_utf8(b),
    decreases a.len(),
{
    if a.len() == 0 {
        assert(a + b =~= b);
        assert(encode_utf8(a) + encode_utf8(b) =~= encode_utf8(b));
    } else {
        assert((a + b).drop_first() =~= a.drop_first() + b);
        lemma_encode_concat(a.drop_first(), b);
        assert(encode_utf8(a + b) =~= encode_utf8(a) + encode_utf8(b));
    }
}

proof fn lemma_encode_nuls(k: nat)
    ensures
        encode_utf8(Seq::new(k, |i: int| '\0')) == Seq::new(k, |i: int| 0u8),
    decreases k,
{
    assert((0u32 & 0x7Fu32) == 0u32) by (bit_vector);
    if k > 0 {
        let s = Seq::new(k, |i: int| '\0');
        assert(s.drop_first() =~= Seq::new((k - 1) as nat, |i: int| '\0'));
        lemma_encode_nuls((k - 1) as nat);
        assert(encode_scalar('\0' as u32) =~= seq![0u8]);
        assert(encode_utf8(s) =~= Seq::new(k, |i: int| 0u8));
    } else {
        assert(encode_utf8(Seq::new(k, |i: int| '\0')) =~= Seq::new(k, |i: int| 0u8));
    }
}

proof fn lemma_strip_nuls(s: Seq<char>, k: nat)
    requires
        s.len() == 0 || !is_padding(s.last()),
    ensures
        strip_padding(s + Seq::new(k, |i: int| '\0')) == s,
    decreases k,
{
    let t = s + Seq::new(k, |i: int| '\0');
    if k == 0 {
        assert(t =~= s);
    } else {
        assert(t.drop_last() =~= s + Seq::new((k - 1) as nat, |i: int| '\0'));
        lemma_strip_nuls(s, (k - 1) as nat);
    }
}

proof fn lemma_chunk_past_end(raw: Seq<u8>, width: nat, i: nat)
    requires
        i * width >= raw.len(),
    ensures
        decode_fixed(chunk(raw, width, i)) == Seq::<char>::empty(),
{
    let nuls = Seq::new(width, |j: int| '\0');
    assert(chunk(raw, width, i) =~= Seq::new(width, |j: int| 0u8));
    lemma_encode_nuls(width);
    encode_utf8_valid_utf8(nuls);
    encode_utf8_decode_utf8(nuls);
    lemma_strip_nuls(Seq::empty(), width);
    assert(Seq::<char>::empty() + nuls =~= nuls);
}

/// A text of at most `width` bytes that does not end in NUL or space,
/// padded with NUL bytes to `width` bytes, reads back as itself.
pub proof fn lemma_fixed_width_round_trip(s: Seq<char>, width: nat)
    requires
        encode_utf8(s).len() <= width,
        s.len() == 0 || !is_padding(s.last()),
    ensures
        fixed_string(
            Some(encode_utf8(s) + Seq::new((width - encode_utf8(s).len()) as nat, |i: int| 0u8)),
            width,
        ) == s,
{
    let k = (width - encode_utf8(s).len()) as nat;
    let nuls = Seq::new(k, |i: int| '\0');
    let raw = encode_utf8(s) + Seq::new(k, |i: int| 0u8);
    lemma_encode_concat(s, nuls);
    lemma_encode_nuls(k);
    assert(chunk(raw, width, 0) =~= raw);
    encode_utf8_valid_utf8(s + nuls);
    encode_utf8_decode_utf8(s + nuls);
    lemma_strip_nuls(s, k);
}

} // verus!
