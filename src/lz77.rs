use crate::error::DecodeError;
use vstd::prelude::*;

verus! {

/// `out` extended by `n` bytes, each copied from `dist` bytes before the end of what is
/// there at that moment, so that a copy may overlap what it has just written.
pub open spec fn copy_back(out: Seq<u8>, dist: int, n: nat) -> Seq<u8>
    decreases n,
{
    if n == 0 {
        out
    } else {
        copy_back(out.push(out[out.len() - dist]), dist, (n - 1) as nat)
    }
}

/// The distance encoded by a back-reference pair `hi`, `lo`.
pub open spec fn pair_distance(hi: u8, lo: u8) -> int {
    ((hi as int * 256 + lo as int) / 8) % 2048
}

/// The number of bytes copied by a back-reference pair `hi`, `lo`.
pub open spec fn pair_length(hi: u8, lo: u8) -> int {
    (hi as int * 256 + lo as int) % 8 + 3
}

/// Dictionary decompression of `input` from position `pos`, with `out` produced so far.
pub open spec fn expand_from(input: Seq<u8>, pos: int, out: Seq<u8>) -> Result<Seq<u8>, DecodeError>
    decreases input.len() - pos,
{
    if pos < 0 || pos >= input.len() {
        Ok(out)
    } else {
        let b = input[pos];
        if b == 0 || (0x09 <= b && b <= 0x7f) {
            expand_from(input, pos + 1, out.push(b))
        } else if b <= 0x08 {
            if pos + 1 + b > input.len() {
                Err(DecodeError::MalformedRecord)
            } else {
                expand_from(input, pos + 1 + b, out + input.subrange(pos + 1, pos + 1 + b))
            }
        } else if b <= 0xbf {
            if pos + 2 > input.len() {
                Err(DecodeError::MalformedRecord)
            } else {
                let dist = pair_distance(b, input[pos + 1]);
                let n = pair_length(b, input[pos + 1]);
                if dist == 0 || dist > out.len() {
                    Err(DecodeError::InvalidBackReference)
                } else {
                    expand_from(input, pos + 2, copy_back(out, dist, n as nat))
                }
            }
        } else {
            expand_from(input, pos + 1, out.push(0x20u8).push((b - 0x80) as u8))
        }
    }
}

/// Dictionary decompression of a whole record.
pub open spec fn expand(input: Seq<u8>) -> Result<Seq<u8>, DecodeError> {
    expand_from(input, 0, Seq::empty())
}

/// Expands a record compressed with the dictionary (back-reference) method.
pub fn decompress(data: &[u8]) -> (r: Result<Vec<u8>, DecodeError>)
    ensures
        match r {
            Ok(v) => expand(data@) == Ok::<Seq<u8>, DecodeError>(v@),
            Err(e) => expand(data@) == Err::<Seq<u8>, DecodeError>(e),
        },
{
    let mut out: Vec<u8> = Vec::new();
    let mut i: usize = 0;
    let len = data.len();
    while i < len
        invariant
            len == data@.len(),
            i <= len,
            expand(data@) == expand_from(data@, i as int, out@),
        decreases len - i,
    {
        let b = data[i];
        if b == 0 || (0x09 <= b && b <= 0x7f) {
            out.push(b);
            i += 1;
        } else if b <= 0x08 {
            let n = b as usize;
            if len - i - 1 < n {
                return Err(DecodeError::MalformedRecord);
            }
            let ghost before = out@;
            let mut k: usize = 0;
            while k < n
                invariant
                    i + 1 + n <= len,
                    len == data@.len(),
                    k <= n,
                    out@ == before + data@.subrange(i + 1, i + 1 + k),
                decreases n - k,
            {
                out.push(data[i + 1 + k]);
                k += 1;
                assert(out@ =~= before + data@.subrange(i + 1, i + 1 + k));
            }
            i += 1 + n;
        } else if b <= 0xbf {
            if i + 1 >= len {
                return Err(DecodeError::MalformedRecord);
            }
            let lo = data[i + 1];
            let v: u32 = (b as u32) * 256 + (lo as u32);
            let dist: usize = ((v / 8) % 2048) as usize;
            let n: usize = ((v % 8) + 3) as usize;
            if dist == 0 || dist > out.len() {
                return Err(DecodeError::InvalidBackReference);
            }
            let ghost before = out@;
            let mut k: usize = 0;
            while k < n
                invariant
                    1 <= dist <= out@.len(),
                    k <= n,
                    copy_back(before, dist as int, n as nat) == copy_back(
                        out@,
                        dist as int,
                        (n - k) as nat,
                    ),
                decreases n - k,
            {
                let c = out[out.len() - dist];
                out.push(c);
                k += 1;
            }
            i += 2;
        } else {
            out.push(0x20u8);
            assert(b ^ 0x80u8 == (b - 0x80) as u8) by (bit_vector)
                requires
                    b >= 0xc0,
            ;
            out.push(b ^ 0x80u8);
            i += 1;
        }
    }
    Ok(out)
}

} // verus!

verus! {

/// One instruction of a dictionary-compressed stream, as an encoder would emit it.
pub enum Token {
    /// A byte copied as it is: 0x00, or one in 0x09 to 0x7f.
    Literal { byte: u8 },
    /// One to eight bytes copied as they are.
    Run { bytes: Seq<u8> },
    /// `length` bytes copied from `distance` bytes back in the output.
    Copy { distance: nat, length: nat },
    /// A space followed by a byte in 0x40 to 0x7f.
    Spaced { byte: u8 },
}

/// The bytes an encoder writes for one token.
pub open spec fn token_bytes(t: Token) -> Seq<u8> {
    match t {
        Token::Literal { byte } => seq![byte],
        Token::Run { bytes } => seq![bytes.len() as u8] + bytes,
        Token::Copy { distance, length } => {
            let v = 0x8000 + distance * 8 + (length - 3);
            seq![(v / 256) as u8, (v % 256) as u8]
        },
        Token::Spaced { byte } => seq![(byte + 0x80) as u8],
    }
}

/// The bytes an encoder writes for a stream of tokens.
pub open spec fn encode_tokens(ts: Seq<Token>) -> Seq<u8>
    decreases ts.len(),
{
    if ts.len() == 0 {
        Seq::empty()
    } else {
        token_bytes(ts[0]) + encode_tokens(ts.drop_first())
    }
}

/// The output after one token, given the output so far.
pub open spec fn apply_token(out: Seq<u8>, t: Token) -> Seq<u8> {
    match t {
        Token::Literal { byte } => out.push(byte),
        Token::Run { bytes } => out + bytes,
        Token::Copy { distance, length } => copy_back(out, distance as int, length),
        Token::Spaced { byte } => out.push(0x20u8).push(byte),
    }
}

/// The output after a stream of tokens, given the output so far.
pub open spec fn apply_tokens(out: Seq<u8>, ts: Seq<Token>) -> Seq<u8>
    decreases ts.len(),
{
    if ts.len() == 0 {
        out
    } else {
        apply_tokens(apply_token(out, ts[0]), ts.drop_first())
    }
}

/// A token that the format can express, after `out_len` bytes of output.
pub open spec fn token_valid(t: Token, out_len: int) -> bool {
    match t {
        Token::Literal { byte } => byte == 0 || (0x09 <= byte && byte <= 0x7f),
        Token::Run { bytes } => 1 <= bytes.len() <= 8,
        Token::Copy { distance, length } => 1 <= distance <= 2047 && distance <= out_len && 3
            <= length <= 10,
        Token::Spaced { byte } => 0x40 <= byte <= 0x7f,
    }
}

/// Every token of the stream is valid where it stands, starting from output `out`.
pub open spec fn tokens_valid(out: Seq<u8>, ts: Seq<Token>) -> bool
    decreases ts.len(),
{
    ts.len() == 0 || (token_valid(ts[0], out.len() as int) && tokens_valid(
        apply_token(out, ts[0]),
        ts.drop_first(),
    ))
}

/// Decompression reads a suffix the same way whatever comes before it.
proof fn lemma_expand_shift(p: Seq<u8>, s: Seq<u8>, pos: int, out: Seq<u8>)
    requires
        0 <= pos <= s.len(),
    ensures
        expand_from(p + s, p.len() + pos, out) == expand_from(s, pos, out),
    decreases s.len() - pos,
{
    let i = p + s;
    let q = p.len() + pos;
    if pos < s.len() {
        let b = s[pos];
        assert(i[q] == b);
        if b == 0 || (0x09 <= b && b <= 0x7f) {
            lemma_expand_shift(p, s, pos + 1, out.push(b));
        } else if b <= 0x08 {
            if pos + 1 + b <= s.len() {
                assert(i.subrange(q + 1, q + 1 + b) =~= s.subrange(pos + 1, pos + 1 + b));
                lemma_expand_shift(p, s, pos + 1 + b, out + s.subrange(pos + 1, pos + 1 + b));
            }
        } else if b <= 0xbf {
            if pos + 2 <= s.len() {
                assert(i[q + 1] == s[pos + 1]);
                let dist = pair_distance(b, s[pos + 1]);
                let n = pair_length(b, s[pos + 1]);
                if !(dist == 0 || dist > out.len()) {
                    lemma_expand_shift(p, s, pos + 2, copy_back(out, dist, n as nat));
                }
            }
        } else {
            lemma_expand_shift(p, s, pos + 1, out.push(0x20u8).push((b - 0x80) as u8));
        }
    }
}

/// Expanding an encoded stream of valid tokens yields what the tokens produce.
proof fn lemma_expand_tokens(ts: Seq<Token>, out: Seq<u8>)
    requires
        tokens_valid(out, ts),
    ensures
        expand_from(encode_tokens(ts), 0, out) == Ok::<Seq<u8>, DecodeError>(
            apply_tokens(out, ts),
        ),
    decreases ts.len(),
{
    if ts.len() > 0 {
        let t = ts[0];
        let tb = token_bytes(t);
        let rest = encode_tokens(ts.drop_first());
        let input = tb + rest;
        let next = apply_token(out, t);
        lemma_expand_tokens(ts.drop_first(), next);
        lemma_expand_shift(tb, rest, 0, next);
        match t {
            Token::Literal { byte } => {
                assert(input[0] == byte);
                assert(tb.len() + 0 == 1);
            },
            Token::Run { bytes } => {
                assert(input[0] == bytes.len() as u8);
                assert(input.subrange(1, 1 + bytes.len() as int) =~= bytes);
            },
            Token::Copy { distance, length } => {
                let v = 0x8000 + distance * 8 + (length - 3);
                let hi = (v / 256) as u8;
                let lo = (v % 256) as u8;
                assert(0x8000 <= v <= 0xbfff);
                assert(input[0] == hi && input[1] == lo);
                assert(hi as int * 256 + lo as int == v) by (nonlinear_arith)
                    requires
                        0x8000 <= v <= 0xbfff,
                        hi == (v / 256) as u8,
                        lo == (v % 256) as u8,
                ;
                assert(v / 8 == 4096 + distance) by (nonlinear_arith)
                    requires
                        v == 0x8000 + distance * 8 + (length - 3),
                        3 <= length <= 10,
                ;
                assert(pair_distance(hi, lo) == distance);
                assert(pair_length(hi, lo) == length) by (nonlinear_arith)
                    requires
                        hi as int * 256 + lo as int == v,
                        v == 0x8000 + distance * 8 + (length - 3),
                        3 <= length <= 10,
                ;
            },
            Token::Spaced { byte } => {
                assert(input[0] == (byte + 0x80) as u8);
            },
        }
    }
}

/// Round trip: for every stream of tokens that the format can express, decompressing
/// what an encoder writes for it gives back exactly the bytes the tokens stand for.
pub proof fn lemma_decompress_round_trip(ts: Seq<Token>)
    requires
        tokens_valid(Seq::empty(), ts),
    ensures
        expand(encode_tokens(ts)) == Ok::<Seq<u8>, DecodeError>(apply_tokens(Seq::empty(), ts)),
{
    lemma_expand_tokens(ts, Seq::empty());
}

/// Single control bytes: 0x08 copies the eight bytes after it as they are, whatever they
/// hold; 0x09 to 0x7f are literals; 0xc0 to 0xff give a space and the byte with its top
/// bit flipped; 0x80 to 0xbf open a back-reference, which at the start of a record has
/// nothing to copy from.
pub proof fn lemma_control_bytes(b: u8, lo: u8, run: Seq<u8>)
    ensures
        run.len() == 8 ==> expand(seq![0x08u8] + run) == Ok::<Seq<u8>, DecodeError>(run),
        0x09 <= b <= 0x7f ==> expand(seq![b]) == Ok::<Seq<u8>, DecodeError>(seq![b]),
        0xc0 <= b ==> expand(seq![b]) == Ok::<Seq<u8>, DecodeError>(seq![0x20u8, b ^ 0x80u8]),
        0x80 <= b <= 0xbf ==> expand(seq![b, lo]) == Err::<Seq<u8>, DecodeError>(
            DecodeError::InvalidBackReference,
        ),
{
    let e = Seq::<u8>::empty();
    if run.len() == 8 {
        let input = seq![0x08u8] + run;
        assert(input[0] == 0x08u8);
        assert(input.subrange(1, 9) =~= run);
        assert(e + run =~= run);
        assert(expand_from(input, 0, e) == expand_from(input, 9, run));
        assert(expand_from(input, 9, run) == Ok::<Seq<u8>, DecodeError>(run));
    }
    if 0x09 <= b <= 0x7f {
        assert(e.push(b) =~= seq![b]);
        assert(expand_from(seq![b], 0, e) == expand_from(seq![b], 1, seq![b]));
        assert(expand_from(seq![b], 1, seq![b]) == Ok::<Seq<u8>, DecodeError>(seq![b]));
    }
    if 0xc0 <= b {
        assert(b ^ 0x80u8 == (b - 0x80) as u8) by (bit_vector)
            requires
                b >= 0xc0,
        ;
        let out = e.push(0x20u8).push((b - 0x80) as u8);
        assert(out =~= seq![0x20u8, b ^ 0x80u8]);
        assert(expand_from(seq![b], 0, e) == expand_from(seq![b], 1, out));
        assert(expand_from(seq![b], 1, out) == Ok::<Seq<u8>, DecodeError>(out));
    }
    if 0x80 <= b <= 0xbf {
        assert(expand_from(seq![b, lo], 0, e) == Err::<Seq<u8>, DecodeError>(
            DecodeError::InvalidBackReference,
        ));
    }
}

/// With distance 1, a back-reference repeats the last byte `k` more times.
proof fn lemma_copy_back_repeat(x: u8, n: nat, k: nat)
    requires
        n >= 1,
    ensures
        copy_back(Seq::new(n, |i: int| x), 1, k) =~= Seq::new(n + k, |i: int| x),
    decreases k,
{
    if k > 0 {
        assert(Seq::new(n, |i: int| x).push(x) =~= Seq::new(n + 1, |i: int| x));
        lemma_copy_back_repeat(x, n + 1, (k - 1) as nat);
    }
}

/// A back-reference may overlap what it writes: with distance 1 it repeats the last byte,
/// and with distance 3 it repeats the last three bytes twice over.
pub proof fn lemma_overlapping_back_references(x: u8, a: u8, b: u8, c: u8)
    requires
        0x09 <= x <= 0x7f,
        0x09 <= a <= 0x7f,
        0x09 <= b <= 0x7f,
        0x09 <= c <= 0x7f,
    ensures
        expand(seq![x, 0x80u8, 0x08u8]) == Ok::<Seq<u8>, DecodeError>(seq![x, x, x, x]),
        expand(seq![x, 0x80u8, 0x0fu8]) == Ok::<Seq<u8>, DecodeError>(Seq::new(11, |i: int| x)),
        expand(seq![a, b, c, 0x80u8, 0x1bu8]) == Ok::<Seq<u8>, DecodeError>(
            seq![a, b, c, a, b, c, a, b, c],
        ),
{
    let e = Seq::<u8>::empty();
    let one = seq![x];
    assert(e.push(x) =~= one);
    assert(one =~= Seq::new(1, |i: int| x));
    lemma_copy_back_repeat(x, 1, 3);
    lemma_copy_back_repeat(x, 1, 10);
    assert(Seq::new(4, |i: int| x) =~= seq![x, x, x, x]);
    let i1 = seq![x, 0x80u8, 0x08u8];
    assert(pair_distance(0x80u8, 0x08u8) == 1 && pair_length(0x80u8, 0x08u8) == 3);
    assert(expand_from(i1, 0, e) == expand_from(i1, 1, one));
    assert(expand_from(i1, 1, one) == expand_from(i1, 3, copy_back(one, 1, 3)));
    assert(expand_from(i1, 3, seq![x, x, x, x]) == Ok::<Seq<u8>, DecodeError>(seq![x, x, x, x]));
    let i2 = seq![x, 0x80u8, 0x0fu8];
    assert(pair_distance(0x80u8, 0x0fu8) == 1 && pair_length(0x80u8, 0x0fu8) == 10);
    assert(expand_from(i2, 0, e) == expand_from(i2, 1, one));
    assert(expand_from(i2, 1, one) == expand_from(i2, 3, copy_back(one, 1, 10)));
    let abc = seq![a, b, c];
    let i3 = seq![a, b, c, 0x80u8, 0x1bu8];
    assert(e.push(a) =~= seq![a]);
    assert(seq![a].push(b) =~= seq![a, b]);
    assert(seq![a, b].push(c) =~= abc);
    assert(expand_from(i3, 0, e) == expand_from(i3, 1, seq![a]));
    assert(expand_from(i3, 1, seq![a]) == expand_from(i3, 2, seq![a, b]));
    assert(expand_from(i3, 2, seq![a, b]) == expand_from(i3, 3, abc));
    assert(pair_distance(0x80u8, 0x1bu8) == 3 && pair_length(0x80u8, 0x1bu8) == 6);
    assert(expand_from(i3, 3, abc) == expand_from(i3, 5, copy_back(abc, 3, 6)));
    let s4 = abc.push(a);
    let s5 = s4.push(b);
    let s6 = s5.push(c);
    let s7 = s6.push(a);
    let s8 = s7.push(b);
    let s9 = s8.push(c);
    assert(copy_back(abc, 3, 6) == copy_back(s4, 3, 5));
    assert(copy_back(s4, 3, 5) == copy_back(s5, 3, 4));
    assert(copy_back(s5, 3, 4) == copy_back(s6, 3, 3));
    assert(copy_back(s6, 3, 3) == copy_back(s7, 3, 2));
    assert(copy_back(s7, 3, 2) == copy_back(s8, 3, 1));
    assert(copy_back(s8, 3, 1) == copy_back(s9, 3, 0));
    assert(s9 =~= seq![a, b, c, a, b, c, a, b, c]);
}

} // verus!
