//! The persistent snapshot codec: a byte format for a cache snapshot, with a
//! proved round trip. Integers are little-endian and fixed-width; strings are
//! length-prefixed UTF-8; optional fields and booleans carry a tag byte; the
//! release list is count-prefixed. Decoding rejects anything the encoder
//! cannot have produced.

use vstd::prelude::*;
use vstd::utf8::decode_utf8;
use vstd::utf8::encode_utf8;
use vstd::utf8::valid_utf8;
use crate::cache::CacheSnapshot;
use crate::cache::SnapshotView;
use crate::release::Release;
use crate::release::ReleaseView;

verus! {

/// 256 to the power `n`: the number of values `n` bytes can hold.
pub open spec fn pow256(n: nat) -> nat
    decreases n,
{
    if n == 0 {
        1
    } else {
        256 * pow256((n - 1) as nat)
    }
}

proof fn lemma_pow256_8()
    ensures
        pow256(8) == 0x1_0000_0000_0000_0000,
{
    reveal_with_fuel(pow256, 9);
}

/// The `n` little-endian bytes of `v`.
pub open spec fn enc_uint(v: nat, n: nat) -> Seq<u8>
    decreases n,
{
    if n == 0 {
        Seq::empty()
    } else {
        seq![(v % 256) as u8] + enc_uint(v / 256, (n - 1) as nat)
    }
}

/// The value of the `n` little-endian bytes of `b` starting at `pos`.
pub open spec fn dec_uint(b: Seq<u8>, pos: int, n: nat) -> nat
    decreases n,
{
    if n == 0 {
        0
    } else {
        (b[pos] + 256 * dec_uint(b, pos + 1, (n - 1) as nat)) as nat
    }
}

proof fn lemma_enc_uint_len(v: nat, n: nat)
    ensures
        enc_uint(v, n).len() == n,
    decreases n,
{
    if n > 0 {
        lemma_enc_uint_len(v / 256, (n - 1) as nat);
    }
}

proof fn lemma_dec_uint_bound(b: Seq<u8>, pos: int, n: nat)
    requires
        0 <= pos,
        pos + n <= b.len(),
    ensures
        dec_uint(b, pos, n) < pow256(n),
    decreases n,
{
    if n > 0 {
        lemma_dec_uint_bound(b, pos + 1, (n - 1) as nat);
    }
}

proof fn lemma_dec_enc_uint(b: Seq<u8>, pos: int, v: nat, n: nat)
    requires
        v < pow256(n),
        0 <= pos,
        pos + n <= b.len(),
        b.subrange(pos, pos + n) =~= enc_uint(v, n),
    ensures
        dec_uint(b, pos, n) == v,
    decreases n,
{
    lemma_enc_uint_len(v, n);
    if n == 0 {
    } else {
        lemma_enc_uint_len(v / 256, (n - 1) as nat);
        assert(b[pos] == enc_uint(v, n)[0]);
        assert(enc_uint(v, n)[0] == (v % 256) as u8);
        assert(b.subrange(pos + 1, pos + n) =~= enc_uint(v / 256, (n - 1) as nat)) by {
            assert forall|i: int| 0 <= i < n - 1 implies #[trigger] b.subrange(pos + 1, pos + n)[i]
                == enc_uint(v / 256, (n - 1) as nat)[i] by {
                assert(b.subrange(pos + 1, pos + n)[i] == b[pos + 1 + i]);
                assert(b[pos + 1 + i] == b.subrange(pos, pos + n)[i + 1]);
                assert(enc_uint(v, n)[i + 1] == enc_uint(v / 256, (n - 1) as nat)[i]);
            }
        }
        assert(v / 256 < pow256((n - 1) as nat)) by {
            if v / 256 >= pow256((n - 1) as nat) {
                assert(v >= 256 * pow256((n - 1) as nat)) by (nonlinear_arith)
                    requires
                        v / 256 >= pow256((n - 1) as nat),
                ;
            }
        }
        lemma_dec_enc_uint(b, pos + 1, v / 256, (n - 1) as nat);
        assert(v % 256 + 256 * (v / 256) == v);
    }
}

/// The eight little-endian bytes of a `u64`.
pub open spec fn enc_u64(v: u64) -> Seq<u8> {
    enc_uint(v as nat, 8)
}

/// The `u64` whose eight little-endian bytes start at `pos`, and the position
/// after them; nothing when fewer than eight bytes remain.
pub open spec fn dec_u64_at(b: Seq<u8>, pos: int) -> Option<(u64, int)> {
    if 0 <= pos && pos + 8 <= b.len() {
        Option::Some(((dec_uint(b, pos, 8) as u64), pos + 8))
    } else {
        Option::None
    }
}

proof fn lemma_dec_u64(b: Seq<u8>, pos: int, v: u64)
    requires
        0 <= pos,
        pos + 8 <= b.len(),
        b.subrange(pos, pos + 8) =~= enc_u64(v),
    ensures
        dec_u64_at(b, pos) == Option::Some((v, pos + 8)),
{
    lemma_pow256_8();
    lemma_dec_enc_uint(b, pos, v as nat, 8);
}

/// Appends the eight little-endian bytes of `v`.
fn encode_u64(out: &mut Vec<u8>, v: u64)
    ensures
        final (out)@ == old(out)@ + enc_u64(v),
{
    let ghost base = old(out)@;
    let mut x: u64 = v;
    let mut i: usize = 0;
    proof {
        assert(out@.skip(base.len() as int) =~= Seq::<u8>::empty());
        assert(enc_uint(v as nat, 8) =~= Seq::<u8>::empty() + enc_uint(x as nat, 8));
    }
    while i < 8
        invariant
            0 <= i <= 8,
            out@.len() == base.len() + i,
            out@.take(base.len() as int) =~= base,
            enc_uint(v as nat, 8) =~= out@.skip(base.len() as int) + enc_uint(
                x as nat,
                (8 - i) as nat,
            ),
        decreases 8 - i,
    {
        let ghost pushed = out@.skip(base.len() as int);
        let b: u8 = (x % 256) as u8;
        out.push(b);
        proof {
            assert(enc_uint(x as nat, (8 - i) as nat) =~= seq![b] + enc_uint(
                (x as nat) / 256,
                (8 - (i + 1)) as nat,
            ));
            assert(out@.skip(base.len() as int) =~= pushed + seq![b]);
            assert(out@.take(base.len() as int) =~= base);
            assert((pushed + seq![b]) + enc_uint((x as nat) / 256, (8 - (i + 1)) as nat) =~= pushed
                + (seq![b] + enc_uint((x as nat) / 256, (8 - (i + 1)) as nat)));
        }
        x = x / 256;
        i = i + 1;
    }
    proof {
        assert(enc_uint(x as nat, 0) =~= Seq::<u8>::empty());
        assert(out@.skip(base.len() as int) + Seq::<u8>::empty() =~= out@.skip(base.len() as int));
        assert(out@ =~= base + out@.skip(base.len() as int));
    }
}

/// Reads the eight little-endian bytes starting at `pos` as a `u64`.
fn decode_u64_at(buf: &Vec<u8>, pos: usize) -> (r: Option<(u64, usize)>)
    ensures
        r matches Some((v, p)) ==> dec_u64_at(buf@, pos as int) == Option::Some((v, p as int)),
        r is None ==> dec_u64_at(buf@, pos as int) is None,
{
    if buf.len() < 8 || pos > buf.len() - 8 {
        return Option::None;
    }
    proof {
        lemma_pow256_8();
    }
    let mut x: u64 = 0;
    let mut i: usize = 8;
    while i > 0
        invariant
            0 <= i <= 8,
            pos + 8 <= buf.len(),
            x as nat == dec_uint(buf@, pos + i, (8 - i) as nat),
            x < pow256((8 - i) as nat),
            pow256(8) == 0x1_0000_0000_0000_0000,
        decreases i,
    {
        i = i - 1;
        proof {
            assert(pow256((8 - i) as nat) == 256 * pow256((8 - (i + 1)) as nat));
            assert(pow256((8 - i) as nat) <= pow256(8)) by {
                lemma_pow256_monotonic((8 - i) as nat, 8);
            }
        }
        x = x * 256 + (buf[pos + i] as u64);
        proof {
            lemma_dec_uint_bound(buf@, pos + i, (8 - i) as nat);
        }
    }
    Option::Some((x, pos + 8))
}

proof fn lemma_pow256_monotonic(m: nat, n: nat)
    requires
        m <= n,
    ensures
        pow256(m) <= pow256(n),
    decreases n,
{
    if m < n {
        lemma_pow256_monotonic(m, (n - 1) as nat);
        assert(pow256(n) == 256 * pow256((n - 1) as nat));
    }
}

/// Splitting a match against a concatenation into matches against its parts.
proof fn lemma_concat_parts(b: Seq<u8>, pos: int, x: Seq<u8>, y: Seq<u8>)
    requires
        0 <= pos,
        pos + x.len() + y.len() <= b.len(),
        b.subrange(pos, pos + x.len() + y.len()) =~= x + y,
    ensures
        b.subrange(pos, pos + x.len()) =~= x,
        b.subrange(pos + x.len(), pos + x.len() + y.len()) =~= y,
{
    assert forall|i: int| 0 <= i < x.len() implies #[trigger] b.subrange(pos, pos + x.len())[i]
        == x[i] by {
        assert(b.subrange(pos, pos + x.len() + y.len())[i] == (x + y)[i]);
    }
    assert forall|i: int| 0 <= i < y.len() implies #[trigger] b.subrange(
        pos + x.len(),
        pos + x.len() + y.len(),
    )[i] == y[i] by {
        assert(b.subrange(pos, pos + x.len() + y.len())[x.len() + i] == (x + y)[x.len() + i]);
    }
}

/// One byte: 1 for true, 0 for false.
pub open spec fn enc_bool(v: bool) -> Seq<u8> {
    if v {
        seq![1u8]
    } else {
        seq![0u8]
    }
}

/// The boolean whose byte stands at `pos`; any other byte is rejected.
pub open spec fn dec_bool_at(b: Seq<u8>, pos: int) -> Option<(bool, int)> {
    if 0 <= pos < b.len() {
        if b[pos] == 0u8 {
            Option::Some((false, pos + 1))
        } else if b[pos] == 1u8 {
            Option::Some((true, pos + 1))
        } else {
            Option::None
        }
    } else {
        Option::None
    }
}

proof fn lemma_dec_bool(b: Seq<u8>, pos: int, v: bool)
    requires
        0 <= pos,
        pos + 1 <= b.len(),
        b.subrange(pos, pos + 1) =~= enc_bool(v),
    ensures
        dec_bool_at(b, pos) == Option::Some((v, pos + 1)),
{
    assert(b[pos] == b.subrange(pos, pos + 1)[0]);
}

/// A sign byte (0 for non-negative, 1 for negative) followed by the eight
/// little-endian magnitude bytes: `v` itself when non-negative, `-1 - v`
/// when negative.
pub open spec fn enc_i64(v: i64) -> Seq<u8> {
    if v >= 0 {
        seq![0u8] + enc_uint(v as nat, 8)
    } else {
        seq![1u8] + enc_uint((-1 - v) as nat, 8)
    }
}

/// The signed value whose sign byte stands at `pos`; a magnitude out of the
/// signed range, or an unknown sign byte, is rejected.
pub open spec fn dec_i64_at(b: Seq<u8>, pos: int) -> Option<(i64, int)> {
    if 0 <= pos < b.len() {
        match dec_u64_at(b, pos + 1) {
            Option::None => Option::None,
            Option::Some((m, p)) => {
                if b[pos] == 0u8 && m <= i64::MAX as u64 {
                    Option::Some((m as i64, p))
                } else if b[pos] == 1u8 && m <= i64::MAX as u64 {
                    Option::Some(((-1 - m as int) as i64, p))
                } else {
                    Option::None
                }
            },
        }
    } else {
        Option::None
    }
}

proof fn lemma_dec_i64(b: Seq<u8>, pos: int, v: i64)
    requires
        0 <= pos,
        pos + 9 <= b.len(),
        b.subrange(pos, pos + 9) =~= enc_i64(v),
    ensures
        dec_i64_at(b, pos) == Option::Some((v, pos + 9)),
{
    lemma_pow256_8();
    let m: u64 = if v >= 0 {
        v as u64
    } else {
        (-1 - v) as u64
    };
    lemma_enc_uint_len(m as nat, 8);
    lemma_concat_parts(b, pos, enc_i64(v).subrange(0, 1), enc_uint(m as nat, 8));
    assert(b[pos] == enc_i64(v)[0]);
    assert(b.subrange(pos + 1, pos + 9) =~= enc_uint(m as nat, 8));
    lemma_dec_enc_uint(b, pos + 1, m as nat, 8);
}

/// The length of a string's UTF-8 encoding as a `u64`, followed by the
/// encoding itself.
pub open spec fn enc_string(s: Seq<char>) -> Seq<u8> {
    enc_u64(encode_utf8(s).len() as u64) + encode_utf8(s)
}

/// The string whose length-prefixed UTF-8 bytes start at `pos`; a truncated
/// or invalid encoding is rejected.
pub open spec fn dec_string_at(b: Seq<u8>, pos: int) -> Option<(Seq<char>, int)> {
    match dec_u64_at(b, pos) {
        Option::None => Option::None,
        Option::Some((n, p)) => {
            if p + n <= b.len() && valid_utf8(b.subrange(p, p + n)) {
                Option::Some((decode_utf8(b.subrange(p, p + n)), p + n))
            } else {
                Option::None
            }
        },
    }
}

proof fn lemma_dec_string(b: Seq<u8>, pos: int, s: Seq<char>)
    requires
        0 <= pos,
        encode_utf8(s).len() < 0x1_0000_0000_0000_0000,
        pos + enc_string(s).len() <= b.len(),
        b.subrange(pos, pos + enc_string(s).len()) =~= enc_string(s),
    ensures
        dec_string_at(b, pos) == Option::Some((s, pos + enc_string(s).len())),
{
    broadcast use vstd::utf8::encode_utf8_valid_utf8, vstd::utf8::encode_utf8_decode_utf8;

    lemma_pow256_8();
    let bytes = encode_utf8(s);
    let n: u64 = bytes.len() as u64;
    lemma_enc_uint_len(n as nat, 8);
    lemma_concat_parts(b, pos, enc_u64(n), bytes);
    lemma_dec_u64(b, pos, n);
    assert(b.subrange(pos + 8, pos + 8 + n) =~= bytes);
}

/// A tag byte (0 for absent, 1 for present) followed by the string, if any.
pub open spec fn enc_opt_string(v: Option<Seq<char>>) -> Seq<u8> {
    match v {
        Option::None => seq![0u8],
        Option::Some(s) => seq![1u8] + enc_string(s),
    }
}

/// The optional string whose tag byte stands at `pos`.
pub open spec fn dec_opt_string_at(b: Seq<u8>, pos: int) -> Option<(Option<Seq<char>>, int)> {
    if 0 <= pos < b.len() {
        if b[pos] == 0u8 {
            Option::Some((Option::None, pos + 1))
        } else if b[pos] == 1u8 {
            match dec_string_at(b, pos + 1) {
                Option::None => Option::None,
                Option::Some((s, p)) => Option::Some((Option::Some(s), p)),
            }
        } else {
            Option::None
        }
    } else {
        Option::None
    }
}

proof fn lemma_dec_opt_string(b: Seq<u8>, pos: int, v: Option<Seq<char>>)
    requires
        0 <= pos,
        v matches Some(s) ==> encode_utf8(s).len() < 0x1_0000_0000_0000_0000,
        pos + enc_opt_string(v).len() <= b.len(),
        b.subrange(pos, pos + enc_opt_string(v).len()) =~= enc_opt_string(v),
    ensures
        dec_opt_string_at(b, pos) == Option::Some((v, pos + enc_opt_string(v).len())),
{
    assert(b[pos] == enc_opt_string(v)[0]);
    match v {
        Option::None => {},
        Option::Some(s) => {
            lemma_concat_parts(b, pos, seq![1u8], enc_string(s));
            lemma_dec_string(b, pos + 1, s);
        },
    }
}

/// A tag byte (0 for absent, 1 for present) followed by the value, if any.
pub open spec fn enc_opt_i64(v: Option<i64>) -> Seq<u8> {
    match v {
        Option::None => seq![0u8],
        Option::Some(x) => seq![1u8] + enc_i64(x),
    }
}

/// The optional signed value whose tag byte stands at `pos`.
pub open spec fn dec_opt_i64_at(b: Seq<u8>, pos: int) -> Option<(Option<i64>, int)> {
    if 0 <= pos < b.len() {
        if b[pos] == 0u8 {
            Option::Some((Option::None, pos + 1))
        } else if b[pos] == 1u8 {
            match dec_i64_at(b, pos + 1) {
                Option::None => Option::None,
                Option::Some((x, p)) => Option::Some((Option::Some(x), p)),
            }
        } else {
            Option::None
        }
    } else {
        Option::None
    }
}

proof fn lemma_dec_opt_i64(b: Seq<u8>, pos: int, v: Option<i64>)
    requires
        0 <= pos,
        pos + enc_opt_i64(v).len() <= b.len(),
        b.subrange(pos, pos + enc_opt_i64(v).len()) =~= enc_opt_i64(v),
    ensures
        dec_opt_i64_at(b, pos) == Option::Some((v, pos + enc_opt_i64(v).len())),
{
    assert(b[pos] == enc_opt_i64(v)[0]);
    match v {
        Option::None => {},
        Option::Some(x) => {
            let m: nat = if x >= 0 {
                x as nat
            } else {
                (-1 - x) as nat
            };
            lemma_enc_uint_len(m, 8);
            lemma_concat_parts(b, pos, seq![1u8], enc_i64(x));
            lemma_dec_i64(b, pos + 1, x);
        },
    }
}

/// Whether a release's strings are short enough for their length fields.
pub open spec fn release_encodable(r: ReleaseView) -> bool {
    &&& encode_utf8(r.tag_name).len() < 0x1_0000_0000_0000_0000
    &&& (r.name matches Some(s) ==> encode_utf8(s).len() < 0x1_0000_0000_0000_0000)
    &&& (r.body matches Some(s) ==> encode_utf8(s).len() < 0x1_0000_0000_0000_0000)
    &&& encode_utf8(r.html_url).len() < 0x1_0000_0000_0000_0000
}

/// A release's fields in declaration order.
pub open spec fn enc_release(r: ReleaseView) -> Seq<u8> {
    enc_string(r.tag_name) + (enc_opt_string(r.name) + (enc_opt_string(r.body) + (enc_bool(
        r.prerelease,
    ) + (enc_bool(r.draft) + (enc_string(r.html_url) + enc_opt_i64(r.published_at))))))
}

/// The release whose encoded fields start at `pos`.
pub open spec fn dec_release_at(b: Seq<u8>, pos: int) -> Option<(ReleaseView, int)> {
    match dec_string_at(b, pos) {
        Option::None => Option::None,
        Option::Some((tag_name, p1)) => match dec_opt_string_at(b, p1) {
            Option::None => Option::None,
            Option::Some((name, p2)) => match dec_opt_string_at(b, p2) {
                Option::None => Option::None,
                Option::Some((body, p3)) => match dec_bool_at(b, p3) {
                    Option::None => Option::None,
                    Option::Some((prerelease, p4)) => match dec_bool_at(b, p4) {
                        Option::None => Option::None,
                        Option::Some((draft, p5)) => match dec_string_at(b, p5) {
                            Option::None => Option::None,
                            Option::Some((html_url, p6)) => match dec_opt_i64_at(b, p6) {
                                Option::None => Option::None,
                                Option::Some((published_at, p7)) => Option::Some(
                                    (
                                        ReleaseView {
                                            tag_name,
                                            name,
                                            body,
                                            prerelease,
                                            draft,
                                            html_url,
                                            published_at,
                                        },
                                        p7,
                                    ),
                                ),
                            },
                        },
                    },
                },
            },
        },
    }
}

#[verifier::rlimit(100)]
proof fn lemma_dec_release(b: Seq<u8>, pos: int, r: ReleaseView)
    requires
        0 <= pos,
        release_encodable(r),
        pos + enc_release(r).len() <= b.len(),
        b.subrange(pos, pos + enc_release(r).len()) =~= enc_release(r),
    ensures
        dec_release_at(b, pos) == Option::Some((r, pos + enc_release(r).len())),
{
    let e1 = enc_string(r.tag_name);
    let e2 = enc_opt_string(r.name);
    let e3 = enc_opt_string(r.body);
    let e4 = enc_bool(r.prerelease);
    let e5 = enc_bool(r.draft);
    let e6 = enc_string(r.html_url);
    let e7 = enc_opt_i64(r.published_at);
    lemma_concat_parts(b, pos, e1, e2 + (e3 + (e4 + (e5 + (e6 + e7)))));
    let p1 = pos + e1.len();
    lemma_concat_parts(b, p1, e2, e3 + (e4 + (e5 + (e6 + e7))));
    let p2 = p1 + e2.len();
    lemma_concat_parts(b, p2, e3, e4 + (e5 + (e6 + e7)));
    let p3 = p2 + e3.len();
    lemma_concat_parts(b, p3, e4, e5 + (e6 + e7));
    let p4 = p3 + e4.len();
    lemma_concat_parts(b, p4, e5, e6 + e7);
    let p5 = p4 + e5.len();
    lemma_concat_parts(b, p5, e6, e7);
    let p6 = p5 + e6.len();
    lemma_dec_string(b, pos, r.tag_name);
    lemma_dec_opt_string(b, p1, r.name);
    lemma_dec_opt_string(b, p2, r.body);
    lemma_dec_bool(b, p3, r.prerelease);
    lemma_dec_bool(b, p4, r.draft);
    lemma_dec_string(b, p5, r.html_url);
    lemma_dec_opt_i64(b, p6, r.published_at);
}

/// The releases of a list, one after the other.
pub open spec fn enc_release_list(s: Seq<ReleaseView>) -> Seq<u8>
    decreases s.len(),
{
    if s.len() == 0 {
        Seq::empty()
    } else {
        enc_release(s[0]) + enc_release_list(s.drop_first())
    }
}

/// `n` consecutive releases starting at `pos`.
pub open spec fn dec_release_list_at(b: Seq<u8>, pos: int, n: nat) -> Option<
    (Seq<ReleaseView>, int),
>
    decreases n,
{
    if n == 0 {
        Option::Some((Seq::empty(), pos))
    } else {
        match dec_release_at(b, pos) {
            Option::None => Option::None,
            Option::Some((r, p)) => match dec_release_list_at(b, p, (n - 1) as nat) {
                Option::None => Option::None,
                Option::Some((rest, p2)) => Option::Some((seq![r] + rest, p2)),
            },
        }
    }
}

proof fn lemma_dec_release_list(b: Seq<u8>, pos: int, s: Seq<ReleaseView>)
    requires
        0 <= pos,
        forall|i: int| 0 <= i < s.len() ==> release_encodable(#[trigger] s[i]),
        pos + enc_release_list(s).len() <= b.len(),
        b.subrange(pos, pos + enc_release_list(s).len()) =~= enc_release_list(s),
    ensures
        dec_release_list_at(b, pos, s.len()) == Option::Some(
            (s, pos + enc_release_list(s).len()),
        ),
    decreases s.len(),
{
    if s.len() > 0 {
        let e1 = enc_release(s[0]);
        let rest = enc_release_list(s.drop_first());
        lemma_concat_parts(b, pos, e1, rest);
        lemma_dec_release(b, pos, s[0]);
        assert forall|i: int| 0 <= i < s.drop_first().len() implies release_encodable(
            #[trigger] s.drop_first()[i],
        ) by {
            assert(s.drop_first()[i] == s[i + 1]);
        }
        lemma_dec_release_list(b, pos + e1.len(), s.drop_first());
        assert(seq![s[0]] + s.drop_first() =~= s);
    }
}

/// Whether a snapshot's counts and strings fit their length fields.
pub open spec fn snapshot_encodable(s: SnapshotView) -> bool {
    &&& s.releases.len() < 0x1_0000_0000_0000_0000
    &&& forall|i: int| 0 <= i < s.releases.len() ==> release_encodable(#[trigger] s.releases[i])
}

/// The release count as a `u64`, the releases, then the fetch time.
pub open spec fn enc_snapshot(s: SnapshotView) -> Seq<u8> {
    enc_u64(s.releases.len() as u64) + (enc_release_list(s.releases) + enc_i64(s.last_fetch_time))
}

/// The snapshot a whole buffer holds; trailing bytes are rejected.
pub open spec fn dec_snapshot(b: Seq<u8>) -> Option<SnapshotView> {
    match dec_u64_at(b, 0) {
        Option::None => Option::None,
        Option::Some((n, p)) => match dec_release_list_at(b, p, n as nat) {
            Option::None => Option::None,
            Option::Some((releases, p2)) => match dec_i64_at(b, p2) {
                Option::None => Option::None,
                Option::Some((last_fetch_time, p3)) => {
                    if p3 == b.len() {
                        Option::Some(SnapshotView { releases, last_fetch_time })
                    } else {
                        Option::None
                    }
                },
            },
        },
    }
}

/// Encoding a snapshot and decoding the bytes yields the same snapshot: the
/// same releases and the same fetch time, for any snapshot whose counts and
/// strings fit the format's length fields, the empty one included.
proof fn lemma_enc_release_list_append(s1: Seq<ReleaseView>, s2: Seq<ReleaseView>)
    ensures
        enc_release_list(s1 + s2) == enc_release_list(s1) + enc_release_list(s2),
    decreases s1.len(),
{
    if s1.len() == 0 {
        assert(s1 + s2 =~= s2);
        assert(enc_release_list(s1) + enc_release_list(s2) =~= enc_release_list(s2));
    } else {
        assert((s1 + s2).drop_first() =~= s1.drop_first() + s2);
        assert((s1 + s2)[0] == s1[0]);
        lemma_enc_release_list_append(s1.drop_first(), s2);
        assert(enc_release(s1[0]) + (enc_release_list(s1.drop_first()) + enc_release_list(s2))
            =~= (enc_release(s1[0]) + enc_release_list(s1.drop_first())) + enc_release_list(s2));
    }
}

proof fn lemma_enc_release_list_snoc(s: Seq<ReleaseView>, i: int)
    requires
        0 <= i < s.len(),
    ensures
        enc_release_list(s.take(i + 1)) == enc_release_list(s.take(i)) + enc_release(s[i]),
{
    assert(s.take(i + 1) =~= s.take(i) + seq![s[i]]);
    lemma_enc_release_list_append(s.take(i), seq![s[i]]);
    assert(seq![s[i]].drop_first() =~= Seq::<ReleaseView>::empty());
    assert(enc_release_list(Seq::<ReleaseView>::empty()) =~= Seq::<u8>::empty());
    assert(enc_release_list(seq![s[i]]) =~= enc_release(s[i]));
    assert(enc_release_list(s.take(i)) + enc_release(s[i]) =~= enc_release_list(s.take(i))
        + enc_release_list(seq![s[i]]));
}

/// Appends one byte: 1 for true, 0 for false.
fn encode_bool(out: &mut Vec<u8>, v: bool)
    ensures
        final (out)@ == old(out)@ + enc_bool(v),
{
    if v {
        out.push(1u8);
    } else {
        out.push(0u8);
    }
    proof {
        assert(out@ =~= old(out)@ + enc_bool(v));
    }
}

/// Appends a sign byte and the eight little-endian magnitude bytes.
fn encode_i64(out: &mut Vec<u8>, v: i64)
    ensures
        final (out)@ == old(out)@ + enc_i64(v),
{
    if v >= 0 {
        out.push(0u8);
        encode_u64(out, v as u64);
    } else {
        out.push(1u8);
        let m: i64 = -(v + 1);
        encode_u64(out, m as u64);
    }
    proof {
        assert(out@ =~= old(out)@ + enc_i64(v));
    }
}

/// Appends a string's UTF-8 byte length and the bytes themselves.
fn encode_string(out: &mut Vec<u8>, s: &String)
    ensures
        final (out)@ == old(out)@ + enc_string(s@),
{
    let bytes: &[u8] = s.as_str().as_bytes();
    let n: usize = bytes.len();
    encode_u64(out, n as u64);
    let mut tail: Vec<u8> = vstd::slice::slice_to_vec(bytes);
    out.append(&mut tail);
    proof {
        assert(out@ =~= old(out)@ + enc_string(s@));
    }
}

/// Appends a tag byte and, when present, the string.
fn encode_opt_string(out: &mut Vec<u8>, v: &Option<String>)
    ensures
        final (out)@ == old(out)@ + enc_opt_string(v.deep_view()),
{
    match v {
        Option::None => {
            out.push(0u8);
        },
        Option::Some(s) => {
            out.push(1u8);
            encode_string(out, s);
        },
    }
    proof {
        assert(out@ =~= old(out)@ + enc_opt_string(v.deep_view()));
    }
}

/// Appends a tag byte and, when present, the signed value.
fn encode_opt_i64(out: &mut Vec<u8>, v: Option<i64>)
    ensures
        final (out)@ == old(out)@ + enc_opt_i64(v),
{
    match v {
        Option::None => {
            out.push(0u8);
        },
        Option::Some(x) => {
            out.push(1u8);
            encode_i64(out, x);
        },
    }
    proof {
        assert(out@ =~= old(out)@ + enc_opt_i64(v));
    }
}

/// Appends a release's fields in declaration order.
#[verifier::rlimit(100)]
fn encode_release(out: &mut Vec<u8>, r: &Release)
    ensures
        final (out)@ == old(out)@ + enc_release(r.deep_view()),
{
    encode_string(out, &r.tag_name);
    encode_opt_string(out, &r.name);
    encode_opt_string(out, &r.body);
    encode_bool(out, r.prerelease);
    encode_bool(out, r.draft);
    encode_string(out, &r.html_url);
    encode_opt_i64(out, r.published_at);
    proof {
        assert(out@ =~= old(out)@ + enc_release(r.deep_view()));
    }
}

/// Encodes a cache snapshot into the codec's byte format.
pub fn encode_snapshot(snapshot: &CacheSnapshot) -> (out: Vec<u8>)
    ensures
        out@ == enc_snapshot(snapshot.deep_view()),
{
    let ghost sv: Seq<ReleaseView> = snapshot.releases.deep_view();
    let mut out: Vec<u8> = Vec::new();
    let n: usize = snapshot.releases.len();
    encode_u64(&mut out, n as u64);
    let ghost head: Seq<u8> = out@;
    let mut i: usize = 0;
    proof {
        assert(out@ =~= head + enc_release_list(sv.take(0)));
    }
    while i < n
        invariant
            0 <= i <= n,
            n == snapshot.releases.len(),
            sv == snapshot.releases.deep_view(),
            out@ =~= head + enc_release_list(sv.take(i as int)),
        decreases n - i,
    {
        encode_release(&mut out, &snapshot.releases[i]);
        proof {
            lemma_enc_release_list_snoc(sv, i as int);
            assert((head + enc_release_list(sv.take(i as int))) + enc_release(sv[i as int]) =~= head
                + enc_release_list(sv.take(i + 1)));
        }
        i = i + 1;
    }
    proof {
        assert(sv.take(n as int) =~= sv);
    }
    encode_i64(&mut out, snapshot.last_fetch_time);
    proof {
        assert(out@ =~= enc_snapshot(snapshot.deep_view()));
    }
    out
}

/// Relies on String::from_utf8: it accepts exactly the byte sequences that
/// are valid UTF-8 and decodes them without change.
#[verifier::external_body]
fn string_from_utf8(bytes: Vec<u8>) -> (r: Option<String>)
    ensures
        r is Some <==> valid_utf8(bytes@),
        r matches Some(s) ==> s@ == decode_utf8(bytes@),
{
    match String::from_utf8(bytes) {
        Ok(s) => Option::Some(s),
        Err(_) => Option::None,
    }
}

/// Reads the boolean byte at `pos`.
fn decode_bool_at(buf: &Vec<u8>, pos: usize) -> (r: Option<(bool, usize)>)
    ensures
        r matches Some((v, p)) ==> dec_bool_at(buf@, pos as int) == Option::Some((v, p as int)),
        r is None ==> dec_bool_at(buf@, pos as int) is None,
{
    if pos >= buf.len() {
        return Option::None;
    }
    let b = buf[pos];
    if b == 0u8 {
        Option::Some((false, pos + 1))
    } else if b == 1u8 {
        Option::Some((true, pos + 1))
    } else {
        Option::None
    }
}

/// Reads the sign byte and magnitude at `pos` as an `i64`.
fn decode_i64_at(buf: &Vec<u8>, pos: usize) -> (r: Option<(i64, usize)>)
    ensures
        r matches Some((v, p)) ==> dec_i64_at(buf@, pos as int) == Option::Some((v, p as int)),
        r is None ==> dec_i64_at(buf@, pos as int) is None,
{
    if pos >= buf.len() {
        return Option::None;
    }
    let tag = buf[pos];
    match decode_u64_at(buf, pos + 1) {
        Option::None => Option::None,
        Option::Some((m, p)) => {
            if tag == 0u8 && m <= i64::MAX as u64 {
                Option::Some((m as i64, p))
            } else if tag == 1u8 && m <= i64::MAX as u64 {
                Option::Some((-(m as i64) - 1, p))
            } else {
                Option::None
            }
        },
    }
}

/// Reads the length-prefixed UTF-8 string at `pos`.
fn decode_string_at(buf: &Vec<u8>, pos: usize) -> (r: Option<(String, usize)>)
    ensures
        r matches Some((s, p)) ==> dec_string_at(buf@, pos as int) == Option::Some((s@, p as int)),
        r is None ==> dec_string_at(buf@, pos as int) is None,
{
    let blen: usize = buf.len();
    match decode_u64_at(buf, pos) {
        Option::None => Option::None,
        Option::Some((n64, p)) => {
            if n64 > (usize::MAX as u64) {
                proof {
                    assert(p + n64 > blen);
                }
                return Option::None;
            }
            let n = n64 as usize;
            if n > buf.len() - p {
                return Option::None;
            }
            let mut bytes: Vec<u8> = Vec::new();
            let mut i: usize = 0;
            while i < n
                invariant
                    0 <= i <= n,
                    p + n <= buf.len(),
                    bytes@ =~= buf@.subrange(p as int, p + i),
                decreases n - i,
            {
                bytes.push(buf[p + i]);
                proof {
                    assert(buf@.subrange(p as int, p + i + 1) =~= buf@.subrange(p as int, p + i).push(
                        buf@[p + i],
                    ));
                }
                i = i + 1;
            }
            match string_from_utf8(bytes) {
                Option::Some(s) => Option::Some((s, p + n)),
                Option::None => Option::None,
            }
        },
    }
}

/// Reads the tagged optional string at `pos`.
fn decode_opt_string_at(buf: &Vec<u8>, pos: usize) -> (r: Option<(Option<String>, usize)>)
    ensures
        r matches Some((v, p)) ==> dec_opt_string_at(buf@, pos as int) == Option::Some(
            (v.deep_view(), p as int),
        ),
        r is None ==> dec_opt_string_at(buf@, pos as int) is None,
{
    if pos >= buf.len() {
        return Option::None;
    }
    let tag = buf[pos];
    if tag == 0u8 {
        Option::Some((Option::None, pos + 1))
    } else if tag == 1u8 {
        match decode_string_at(buf, pos + 1) {
            Option::None => Option::None,
            Option::Some((s, p)) => Option::Some((Option::Some(s), p)),
        }
    } else {
        Option::None
    }
}

/// Reads the tagged optional signed value at `pos`.
fn decode_opt_i64_at(buf: &Vec<u8>, pos: usize) -> (r: Option<(Option<i64>, usize)>)
    ensures
        r matches Some((v, p)) ==> dec_opt_i64_at(buf@, pos as int) == Option::Some(
            (v, p as int),
        ),
        r is None ==> dec_opt_i64_at(buf@, pos as int) is None,
{
    if pos >= buf.len() {
        return Option::None;
    }
    let tag = buf[pos];
    if tag == 0u8 {
        Option::Some((Option::None, pos + 1))
    } else if tag == 1u8 {
        match decode_i64_at(buf, pos + 1) {
            Option::None => Option::None,
            Option::Some((x, p)) => Option::Some((Option::Some(x), p)),
        }
    } else {
        Option::None
    }
}

/// Reads one encoded release at `pos`.
#[verifier::rlimit(100)]
fn decode_release_at(buf: &Vec<u8>, pos: usize) -> (r: Option<(Release, usize)>)
    ensures
        r matches Some((rel, p)) ==> dec_release_at(buf@, pos as int) == Option::Some(
            (rel.deep_view(), p as int),
        ),
        r is None ==> dec_release_at(buf@, pos as int) is None,
{
    let Option::Some((tag_name, p1)) = decode_string_at(buf, pos) else {
        return Option::None;
    };
    let Option::Some((name, p2)) = decode_opt_string_at(buf, p1) else {
        return Option::None;
    };
    let Option::Some((body, p3)) = decode_opt_string_at(buf, p2) else {
        return Option::None;
    };
    let Option::Some((prerelease, p4)) = decode_bool_at(buf, p3) else {
        return Option::None;
    };
    let Option::Some((draft, p5)) = decode_bool_at(buf, p4) else {
        return Option::None;
    };
    let Option::Some((html_url, p6)) = decode_string_at(buf, p5) else {
        return Option::None;
    };
    let Option::Some((published_at, p7)) = decode_opt_i64_at(buf, p6) else {
        return Option::None;
    };
    Option::Some(
        (Release { tag_name, name, body, prerelease, draft, html_url, published_at }, p7),
    )
}

/// Reads `n` consecutive releases starting at `pos`.
fn decode_release_list_at(buf: &Vec<u8>, pos: usize, n: u64) -> (r: Option<(Vec<Release>, usize)>)
    ensures
        r matches Some((rels, p)) ==> dec_release_list_at(buf@, pos as int, n as nat)
            == Option::Some((rels.deep_view(), p as int)),
        r is None ==> dec_release_list_at(buf@, pos as int, n as nat) is None,
{
    let mut acc: Vec<Release> = Vec::new();
    let mut cur: usize = pos;
    let mut k: u64 = 0;
    proof {
        assert(acc.deep_view() =~= Seq::<ReleaseView>::empty());
    }
    while k < n
        invariant
            0 <= k <= n,
            forall|rest: Seq<ReleaseView>, pe: int|
                dec_release_list_at(buf@, cur as int, (n - k) as nat) == Option::Some(
                    (rest, pe),
                ) ==> dec_release_list_at(buf@, pos as int, n as nat) == Option::Some(
                    (acc.deep_view() + rest, pe),
                ),
            dec_release_list_at(buf@, cur as int, (n - k) as nat) is None ==> dec_release_list_at(
                buf@,
                pos as int,
                n as nat,
            ) is None,
        decreases n - k,
    {
        let ghost acc0: Seq<ReleaseView> = acc.deep_view();
        match decode_release_at(buf, cur) {
            Option::None => {
                return Option::None;
            },
            Option::Some((rel, p)) => {
                let ghost rv = rel.deep_view();
                acc.push(rel);
                proof {
                    assert(acc.deep_view() =~= acc0.push(rv));
                    assert forall|rest: Seq<ReleaseView>, pe: int|
                        dec_release_list_at(buf@, p as int, (n - (k + 1)) as nat) == Option::Some(
                            (rest, pe),
                        ) implies dec_release_list_at(buf@, pos as int, n as nat) == Option::Some(
                        (acc.deep_view() + rest, pe),
                    ) by {
                        assert(dec_release_list_at(buf@, cur as int, (n - k) as nat)
                            == Option::Some((seq![rv] + rest, pe)));
                        assert(acc0 + (seq![rv] + rest) =~= acc0.push(rv) + rest);
                    }
                }
                cur = p;
            },
        }
        k = k + 1;
    }
    proof {
        assert(dec_release_list_at(buf@, cur as int, 0) == Option::Some(
            (Seq::<ReleaseView>::empty(), cur as int),
        ));
        assert(acc.deep_view() + Seq::<ReleaseView>::empty() =~= acc.deep_view());
    }
    Option::Some((acc, cur))
}

/// Decodes a whole buffer as a cache snapshot; any truncation, corruption or
/// trailing data yields nothing.
pub fn decode_snapshot(buf: &Vec<u8>) -> (r: Option<CacheSnapshot>)
    ensures
        r matches Some(s) ==> dec_snapshot(buf@) == Option::Some(s.deep_view()),
        r is None ==> dec_snapshot(buf@) is None,
{
    let Option::Some((n, p1)) = decode_u64_at(buf, 0) else {
        return Option::None;
    };
    let Option::Some((releases, p2)) = decode_release_list_at(buf, p1, n) else {
        return Option::None;
    };
    let Option::Some((last_fetch_time, p3)) = decode_i64_at(buf, p2) else {
        return Option::None;
    };
    if p3 != buf.len() {
        return Option::None;
    }
    Option::Some(CacheSnapshot { releases, last_fetch_time })
}

#[verifier::rlimit(100)]
pub proof fn lemma_snapshot_round_trip(s: SnapshotView)
    requires
        snapshot_encodable(s),
    ensures
        dec_snapshot(enc_snapshot(s)) == Option::Some(s),
{
    lemma_pow256_8();
    let b = enc_snapshot(s);
    let e1 = enc_u64(s.releases.len() as u64);
    let e2 = enc_release_list(s.releases);
    let e3 = enc_i64(s.last_fetch_time);
    lemma_enc_uint_len(s.releases.len(), 8);
    let m: nat = if s.last_fetch_time >= 0 {
        s.last_fetch_time as nat
    } else {
        (-1 - s.last_fetch_time) as nat
    };
    lemma_enc_uint_len(m, 8);
    assert(b.subrange(0, b.len() as int) =~= b);
    lemma_concat_parts(b, 0, e1, e2 + e3);
    lemma_concat_parts(b, e1.len() as int, e2, e3);
    lemma_dec_u64(b, 0, s.releases.len() as u64);
    lemma_dec_release_list(b, 8, s.releases);
    lemma_dec_i64(b, 8 + e2.len() as int, s.last_fetch_time);
}

} // verus!
