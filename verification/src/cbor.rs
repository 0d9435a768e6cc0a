//! Deterministic CBOR writing (RFC 8949, section 4.2): every head in its
//! shortest form and definite lengths only. Signed records are laid out in
//! these bytes before they are signed or checked.

use vstd::prelude::*;
use vstd::utf8::encode_utf8;

verus! {

/// The low `k` bytes of `n`, most significant first.
pub open spec fn be_bytes(n: nat, k: nat) -> Seq<u8>
    decreases k,
{
    if k == 0 {
        seq![]
    } else {
        be_bytes(n / 256, (k - 1) as nat).push((n % 256) as u8)
    }
}

/// The head of a data item of major type `major` whose argument is `n`,
/// in its shortest form.
pub open spec fn head(major: u8, n: u64) -> Seq<u8> {
    let m = major as int * 32;
    if n < 24 {
        seq![(m + n) as u8]
    } else if n < 0x100 {
        seq![(m + 24) as u8] + be_bytes(n as nat, 1)
    } else if n < 0x1_0000 {
        seq![(m + 25) as u8] + be_bytes(n as nat, 2)
    } else if n < 0x1_0000_0000 {
        seq![(m + 26) as u8] + be_bytes(n as nat, 4)
    } else {
        seq![(m + 27) as u8] + be_bytes(n as nat, 8)
    }
}

/// An unsigned integer.
pub open spec fn uint_item(n: u64) -> Seq<u8> {
    head(0, n)
}

/// A signed integer: major type 0 for `n >= 0`, major type 1 carrying
/// `-1 - n` otherwise.
pub open spec fn int_item(n: i64) -> Seq<u8> {
    if n >= 0 {
        head(0, n as u64)
    } else {
        head(1, (-1 - n) as u64)
    }
}

/// A byte string.
pub open spec fn bytes_item(b: Seq<u8>) -> Seq<u8> {
    head(2, b.len() as u64) + b
}

/// A text string: its UTF-8 bytes behind a major-type-3 head.
pub open spec fn text_item(s: Seq<char>) -> Seq<u8> {
    head(3, encode_utf8(s).len() as u64) + encode_utf8(s)
}

/// The text strings of `ss`, one after another.
pub open spec fn text_items(ss: Seq<Seq<char>>) -> Seq<u8>
    decreases ss.len(),
{
    if ss.len() == 0 {
        seq![]
    } else {
        text_items(ss.drop_last()) + text_item(ss.last())
    }
}

/// Appends the low `k` bytes of `n`, most significant first.
fn push_be(out: &mut Vec<u8>, n: u64, k: usize)
    requires
        k <= 8,
    ensures
        final(out)@ == old(out)@ + be_bytes(n as nat, k as nat),
    decreases k,
{
    if k > 0 {
        push_be(out, n / 256, k - 1);
        out.push((n % 256) as u8);
        assert(out@ =~= old(out)@ + be_bytes(n as nat, k as nat)) by {
            assert(be_bytes(n as nat, k as nat) == be_bytes((n / 256) as nat, (k - 1) as nat).push(
                (n % 256) as u8,
            ));
        }
    } else {
        assert(old(out)@ + be_bytes(n as nat, k as nat) =~= old(out)@);
    }
}

/// Appends the head of a data item of major type `major` with argument `n`.
pub fn push_head(out: &mut Vec<u8>, major: u8, n: u64)
    requires
        major < 8,
    ensures
        final(out)@ == old(out)@ + head(major, n),
{
    let m: u8 = major * 32;
    if n < 24 {
        out.push(m + n as u8);
        assert(out@ =~= old(out)@ + head(major, n));
    } else {
        let (extra, k): (u8, usize) = if n < 0x100 {
            (24, 1)
        } else if n < 0x1_0000 {
            (25, 2)
        } else if n < 0x1_0000_0000 {
            (26, 4)
        } else {
            (27, 8)
        };
        out.push(m + extra);
        push_be(out, n, k);
        assert(out@ =~= old(out)@ + head(major, n));
    }
}

/// Appends the bytes of `b`, in order.
pub fn push_bytes(out: &mut Vec<u8>, b: &[u8])
    ensures
        final(out)@ == old(out)@ + b@,
{
    let mut i: usize = 0;
    while i < b.len()
        invariant
            i <= b@.len(),
            out@ == old(out)@ + b@.take(i as int),
        decreases b@.len() - i,
    {
        out.push(b[i]);
        i += 1;
        assert(b@.take(i as int) =~= b@.take((i - 1) as int).push(b@[i - 1]));
        assert(out@ =~= old(out)@ + b@.take(i as int));
    }
    assert(b@.take(b@.len() as int) =~= b@);
}

/// Appends an unsigned integer.
pub fn push_uint(out: &mut Vec<u8>, n: u64)
    ensures
        final(out)@ == old(out)@ + uint_item(n),
{
    push_head(out, 0, n);
}

/// Appends a signed integer.
pub fn push_int(out: &mut Vec<u8>, n: i64)
    ensures
        final(out)@ == old(out)@ + int_item(n),
{
    if n >= 0 {
        push_head(out, 0, n as u64);
    } else {
        let m: u64 = (-1 - (n as i128)) as u64;
        push_head(out, 1, m);
    }
}

/// Appends a byte string.
pub fn push_byte_string(out: &mut Vec<u8>, b: &[u8])
    ensures
        final(out)@ == old(out)@ + bytes_item(b@),
{
    push_head(out, 2, b.len() as u64);
    push_bytes(out, b);
    assert(out@ =~= old(out)@ + bytes_item(b@));
}

/// Appends a text string.
pub fn push_text(out: &mut Vec<u8>, s: &str)
    ensures
        final(out)@ == old(out)@ + text_item(s@),
{
    let b = s.as_bytes();
    push_head(out, 3, b.len() as u64);
    push_bytes(out, b);
    assert(out@ =~= old(out)@ + text_item(s@));
}

/// Appends the text strings of `ss`, one after another.
pub fn push_texts(out: &mut Vec<u8>, ss: &Vec<String>)
    ensures
        final(out)@ == old(out)@ + text_items(ss@.map_values(|s: String| s@)),
{
    let ghost views = ss@.map_values(|s: String| s@);
    let mut i: usize = 0;
    while i < ss.len()
        invariant
            i <= ss@.len(),
            views == ss@.map_values(|s: String| s@),
            out@ == old(out)@ + text_items(views.take(i as int)),
        decreases ss@.len() - i,
    {
        push_text(out, ss[i].as_str());
        i += 1;
        assert(views.take(i as int).drop_last() =~= views.take((i - 1) as int));
        assert(out@ =~= old(out)@ + text_items(views.take(i as int)));
    }
    assert(views.take(ss@.len() as int) =~= views);
}

/// `256^k`.
pub open spec fn pow256(k: nat) -> nat
    decreases k,
{
    if k == 0 {
        1
    } else {
        256 * pow256((k - 1) as nat)
    }
}

/// The number whose big-endian bytes are `b`.
pub open spec fn be_value(b: Seq<u8>) -> nat
    decreases b.len(),
{
    if b.len() == 0 {
        0
    } else {
        be_value(b.drop_last()) * 256 + b.last() as nat
    }
}

proof fn lemma_be_bytes(n: nat, k: nat)
    requires
        n < pow256(k),
    ensures
        be_bytes(n, k).len() == k,
        be_value(be_bytes(n, k)) == n,
    decreases k,
{
    if k > 0 {
        let p = pow256((k - 1) as nat);
        assert(n / 256 < p) by (nonlinear_arith)
            requires
                n < 256 * p,
        ;
        lemma_be_bytes(n / 256, (k - 1) as nat);
        let b = be_bytes(n, k);
        assert(b.drop_last() =~= be_bytes(n / 256, (k - 1) as nat));
        assert((n / 256) * 256 + n % 256 == n) by (nonlinear_arith);
    }
}

proof fn lemma_pow256_values()
    ensures
        pow256(1) == 0x100,
        pow256(2) == 0x1_0000,
        pow256(4) == 0x1_0000_0000,
        pow256(8) == 0x1_0000_0000_0000_0000,
{
    reveal_with_fuel(pow256, 9);
}

/// Law: a head is self-delimiting. When a head followed by some bytes equals
/// another head followed by other bytes, the two heads carry the same major
/// type and argument, and the bytes that follow are the same.
pub proof fn lemma_head_unique(m1: u8, n1: u64, r1: Seq<u8>, m2: u8, n2: u64, r2: Seq<u8>)
    requires
        m1 < 8,
        m2 < 8,
        head(m1, n1) + r1 == head(m2, n2) + r2,
    ensures
        m1 == m2,
        n1 == n2,
        r1 == r2,
{
    lemma_pow256_values();
    let h1 = head(m1, n1);
    let h2 = head(m2, n2);
    let s = h1 + r1;
    assert(s == h2 + r2);
    let a1: int = if n1 < 24 {
        n1 as int
    } else if n1 < 0x100 {
        24
    } else if n1 < 0x1_0000 {
        25
    } else if n1 < 0x1_0000_0000 {
        26
    } else {
        27
    };
    let a2: int = if n2 < 24 {
        n2 as int
    } else if n2 < 0x100 {
        24
    } else if n2 < 0x1_0000 {
        25
    } else if n2 < 0x1_0000_0000 {
        26
    } else {
        27
    };
    let k1: nat = if a1 < 24 {
        0
    } else if a1 == 24 {
        1
    } else if a1 == 25 {
        2
    } else if a1 == 26 {
        4
    } else {
        8
    };
    let k2: nat = if a2 < 24 {
        0
    } else if a2 == 24 {
        1
    } else if a2 == 25 {
        2
    } else if a2 == 26 {
        4
    } else {
        8
    };
    if k1 > 0 {
        lemma_be_bytes(n1 as nat, k1);
    }
    if k2 > 0 {
        lemma_be_bytes(n2 as nat, k2);
    }
    assert(h1[0] as int == m1 * 32 + a1);
    assert(h2[0] as int == m2 * 32 + a2);
    assert(s[0] == h1[0]);
    assert(s[0] == h2[0]);
    assert(m1 == m2 && a1 == a2) by (nonlinear_arith)
        requires
            m1 * 32 + a1 == m2 * 32 + a2,
            0 <= a1 < 32,
            0 <= a2 < 32,
    ;
    assert(h1.len() == 1 + k1);
    assert(h2.len() == 1 + k2);
    assert(h1 =~= s.take(h1.len() as int));
    assert(h2 =~= s.take(h2.len() as int));
    assert(r1 =~= s.skip(h1.len() as int));
    assert(r2 =~= s.skip(h2.len() as int));
    if k1 > 0 {
        assert(h1.skip(1) =~= be_bytes(n1 as nat, k1));
        assert(h2.skip(1) =~= be_bytes(n2 as nat, k2));
    }
}

/// Law: a text string item is self-delimiting: equal bytes mean the same text
/// and the same bytes after it.
pub proof fn lemma_text_item_unique(s1: Seq<char>, r1: Seq<u8>, s2: Seq<char>, r2: Seq<u8>)
    requires
        encode_utf8(s1).len() < 0x1_0000_0000_0000_0000,
        encode_utf8(s2).len() < 0x1_0000_0000_0000_0000,
        text_item(s1) + r1 == text_item(s2) + r2,
    ensures
        s1 == s2,
        r1 == r2,
{
    let e1 = encode_utf8(s1);
    let e2 = encode_utf8(s2);
    assert(text_item(s1) + r1 =~= head(3, e1.len() as u64) + (e1 + r1));
    assert(text_item(s2) + r2 =~= head(3, e2.len() as u64) + (e2 + r2));
    lemma_head_unique(3, e1.len() as u64, e1 + r1, 3, e2.len() as u64, e2 + r2);
    assert(e1 =~= (e1 + r1).take(e1.len() as int));
    assert(e2 =~= (e2 + r2).take(e2.len() as int));
    assert(r1 =~= (e1 + r1).skip(e1.len() as int));
    assert(r2 =~= (e2 + r2).skip(e2.len() as int));
    vstd::utf8::encode_utf8_decode_utf8(s1);
    vstd::utf8::encode_utf8_decode_utf8(s2);
}

/// Law: a byte string item is self-delimiting.
pub proof fn lemma_bytes_item_unique(b1: Seq<u8>, r1: Seq<u8>, b2: Seq<u8>, r2: Seq<u8>)
    requires
        b1.len() < 0x1_0000_0000_0000_0000,
        b2.len() < 0x1_0000_0000_0000_0000,
        bytes_item(b1) + r1 == bytes_item(b2) + r2,
    ensures
        b1 == b2,
        r1 == r2,
{
    assert(bytes_item(b1) + r1 =~= head(2, b1.len() as u64) + (b1 + r1));
    assert(bytes_item(b2) + r2 =~= head(2, b2.len() as u64) + (b2 + r2));
    lemma_head_unique(2, b1.len() as u64, b1 + r1, 2, b2.len() as u64, b2 + r2);
    assert(b1 =~= (b1 + r1).take(b1.len() as int));
    assert(b2 =~= (b2 + r2).take(b2.len() as int));
    assert(r1 =~= (b1 + r1).skip(b1.len() as int));
    assert(r2 =~= (b2 + r2).skip(b2.len() as int));
}

/// Law: a signed integer item is self-delimiting.
pub proof fn lemma_int_item_unique(n1: i64, r1: Seq<u8>, n2: i64, r2: Seq<u8>)
    requires
        int_item(n1) + r1 == int_item(n2) + r2,
    ensures
        n1 == n2,
        r1 == r2,
{
    let m1: u8 = if n1 >= 0 {
        0
    } else {
        1
    };
    let v1: u64 = if n1 >= 0 {
        n1 as u64
    } else {
        (-1 - n1) as u64
    };
    let m2: u8 = if n2 >= 0 {
        0
    } else {
        1
    };
    let v2: u64 = if n2 >= 0 {
        n2 as u64
    } else {
        (-1 - n2) as u64
    };
    assert(int_item(n1) == head(m1, v1));
    assert(int_item(n2) == head(m2, v2));
    lemma_head_unique(m1, v1, r1, m2, v2, r2);
}

/// `text_items` read from the front: the first text, then the rest.
proof fn lemma_text_items_front(ss: Seq<Seq<char>>)
    requires
        ss.len() > 0,
    ensures
        text_items(ss) == text_item(ss[0]) + text_items(ss.drop_first()),
    decreases ss.len(),
{
    if ss.len() == 1 {
        assert(ss.drop_last() =~= Seq::<Seq<char>>::empty());
        assert(ss.drop_first() =~= Seq::<Seq<char>>::empty());
        assert(text_items(ss) =~= text_item(ss[0]) + text_items(ss.drop_first()));
    } else {
        lemma_text_items_front(ss.drop_last());
        assert(ss.drop_last().drop_first() =~= ss.drop_first().drop_last());
        assert(ss.drop_first().last() == ss.last());
        assert(text_items(ss) =~= text_item(ss[0]) + text_items(ss.drop_first()));
    }
}

/// Every text of `ss` has a UTF-8 encoding whose length a head can carry.
pub open spec fn texts_sized(ss: Seq<Seq<char>>) -> bool {
    forall|i: int| 0 <= i < ss.len() ==> encode_utf8(#[trigger] ss[i]).len() < 0x1_0000_0000_0000_0000
}

/// Law: equally many text items read the same way: equal bytes mean equal
/// texts and the same bytes after them.
pub proof fn lemma_text_items_unique(
    ss1: Seq<Seq<char>>,
    r1: Seq<u8>,
    ss2: Seq<Seq<char>>,
    r2: Seq<u8>,
)
    requires
        ss1.len() == ss2.len(),
        texts_sized(ss1),
        texts_sized(ss2),
        text_items(ss1) + r1 == text_items(ss2) + r2,
    ensures
        ss1 == ss2,
        r1 == r2,
    decreases ss1.len(),
{
    if ss1.len() == 0 {
        assert(text_items(ss1) + r1 =~= r1);
        assert(text_items(ss2) + r2 =~= r2);
        assert(ss1 =~= ss2);
    } else {
        lemma_text_items_front(ss1);
        lemma_text_items_front(ss2);
        let t1 = text_items(ss1.drop_first()) + r1;
        let t2 = text_items(ss2.drop_first()) + r2;
        assert(text_items(ss1) + r1 =~= text_item(ss1[0]) + t1);
        assert(text_items(ss2) + r2 =~= text_item(ss2[0]) + t2);
        lemma_text_item_unique(ss1[0], t1, ss2[0], t2);
        assert(texts_sized(ss1.drop_first())) by {
            assert forall|i: int| 0 <= i < ss1.drop_first().len() implies encode_utf8(
                #[trigger] ss1.drop_first()[i],
            ).len() < 0x1_0000_0000_0000_0000 by {
                assert(ss1.drop_first()[i] == ss1[i + 1]);
            }
        }
        assert(texts_sized(ss2.drop_first())) by {
            assert forall|i: int| 0 <= i < ss2.drop_first().len() implies encode_utf8(
                #[trigger] ss2.drop_first()[i],
            ).len() < 0x1_0000_0000_0000_0000 by {
                assert(ss2.drop_first()[i] == ss2[i + 1]);
            }
        }
        lemma_text_items_unique(ss1.drop_first(), r1, ss2.drop_first(), r2);
        assert(ss1 =~= seq![ss1[0]] + ss1.drop_first());
        assert(ss2 =~= seq![ss2[0]] + ss2.drop_first());
    }
}

/// Equal bytes after an equal prefix.
pub proof fn lemma_cancel_prefix(p: Seq<u8>, x: Seq<u8>, y: Seq<u8>)
    requires
        p + x == p + y,
    ensures
        x == y,
{
    assert(x =~= (p + x).skip(p.len() as int));
    assert(y =~= (p + y).skip(p.len() as int));
}

/// Twelve pieces concatenated left to right equal the same pieces nested to
/// the right.
pub proof fn lemma_reassociate12(
    x1: Seq<u8>,
    x2: Seq<u8>,
    x3: Seq<u8>,
    x4: Seq<u8>,
    x5: Seq<u8>,
    x6: Seq<u8>,
    x7: Seq<u8>,
    x8: Seq<u8>,
    x9: Seq<u8>,
    x10: Seq<u8>,
    x11: Seq<u8>,
    x12: Seq<u8>,
)
    ensures
        x1 + x2 + x3 + x4 + x5 + x6 + x7 + x8 + x9 + x10 + x11 + x12 == x1 + (x2 + (x3 + (x4 + (x5
            + (x6 + (x7 + (x8 + (x9 + (x10 + (x11 + x12)))))))))),
{
    let r11 = x11 + x12;
    let r10 = x10 + r11;
    let r9 = x9 + r10;
    let r8 = x8 + r9;
    let r7 = x7 + r8;
    let r6 = x6 + r7;
    let r5 = x5 + r6;
    let r4 = x4 + r5;
    let r3 = x3 + r4;
    let r2 = x2 + r3;
    let l2 = x1 + x2;
    let l3 = l2 + x3;
    let l4 = l3 + x4;
    let l5 = l4 + x5;
    let l6 = l5 + x6;
    let l7 = l6 + x7;
    let l8 = l7 + x8;
    let l9 = l8 + x9;
    let l10 = l9 + x10;
    vstd::seq_lib::lemma_concat_associative(l10, x11, x12);
    vstd::seq_lib::lemma_concat_associative(l9, x10, r11);
    vstd::seq_lib::lemma_concat_associative(l8, x9, r10);
    vstd::seq_lib::lemma_concat_associative(l7, x8, r9);
    vstd::seq_lib::lemma_concat_associative(l6, x7, r8);
    vstd::seq_lib::lemma_concat_associative(l5, x6, r7);
    vstd::seq_lib::lemma_concat_associative(l4, x5, r6);
    vstd::seq_lib::lemma_concat_associative(l3, x4, r5);
    vstd::seq_lib::lemma_concat_associative(l2, x3, r4);
    vstd::seq_lib::lemma_concat_associative(x1, x2, r3);
}

} // verus!
