use vstd::prelude::*;

verus! {

/// A 256-bit word held as four 64-bit limbs, most significant limb first.
///
/// It stands for every fixed-width 32-byte value the ledger handles: deposit
/// hashes, master secrets, salts, public keys, token amounts and padded
/// addresses. Its byte view is the big-endian encoding of the word.
#[derive(Clone, Copy, Debug, PartialEq, Eq, Structural, Hash)]
pub struct B256 {
    pub w0: u64,
    pub w1: u64,
    pub w2: u64,
    pub w3: u64,
}

/// Byte `j` of a 64-bit limb, big-endian: byte 0 is the most significant.
pub open spec fn limb_byte(x: u64, j: int) -> u8 {
    if j == 0 {
        (((x >> 56u64) & 0xff) as u8)
    } else if j == 1 {
        (((x >> 48u64) & 0xff) as u8)
    } else if j == 2 {
        (((x >> 40u64) & 0xff) as u8)
    } else if j == 3 {
        (((x >> 32u64) & 0xff) as u8)
    } else if j == 4 {
        (((x >> 24u64) & 0xff) as u8)
    } else if j == 5 {
        (((x >> 16u64) & 0xff) as u8)
    } else if j == 6 {
        (((x >> 8u64) & 0xff) as u8)
    } else {
        ((x & 0xff) as u8)
    }
}

/// The 64-bit limb built from eight bytes, most significant first.
pub open spec fn pack8(b0: u8, b1: u8, b2: u8, b3: u8, b4: u8, b5: u8, b6: u8, b7: u8) -> u64 {
    ((b0 as u64) << 56u64) | ((b1 as u64) << 48u64) | ((b2 as u64) << 40u64)
        | ((b3 as u64) << 32u64) | ((b4 as u64) << 24u64) | ((b5 as u64) << 16u64)
        | ((b6 as u64) << 8u64) | (b7 as u64)
}

impl B256 {
    /// Limb `k` counted from the most significant end.
    pub open spec fn limb(&self, k: int) -> u64 {
        if k == 0 {
            self.w0
        } else if k == 1 {
            self.w1
        } else if k == 2 {
            self.w2
        } else {
            self.w3
        }
    }

    /// The all-zero word.
    pub fn zero() -> (r: B256)
        ensures
            r == (B256 { w0: 0, w1: 0, w2: 0, w3: 0 }),
    {
        B256 { w0: 0, w1: 0, w2: 0, w3: 0 }
    }

    /// Big-endian byte encoding of the word.
    pub fn to_bytes_be(&self) -> (r: Vec<u8>)
        ensures
            r@ == self@,
            r@.len() == 32,
    {
        let mut out: Vec<u8> = Vec::new();
        push_u64_be(&mut out, self.w0);
        push_u64_be(&mut out, self.w1);
        push_u64_be(&mut out, self.w2);
        push_u64_be(&mut out, self.w3);
        proof {
            assert(out@ =~= self@);
        }
        out
    }

    /// Rebuilds the word from its big-endian byte encoding.
    pub fn from_bytes_be(v: &Vec<u8>) -> (r: B256)
        requires
            v@.len() == 32,
        ensures
            r@ == v@,
    {
        let w0 = read_limb_be(v, 0);
        let w1 = read_limb_be(v, 8);
        let w2 = read_limb_be(v, 16);
        let w3 = read_limb_be(v, 24);
        let r = B256 { w0, w1, w2, w3 };
        proof {
            assert(r@ =~= v@);
        }
        r
    }
}

impl View for B256 {
    type V = Seq<u8>;

    open spec fn view(&self) -> Seq<u8> {
        Seq::new(32, |i: int| limb_byte(self.limb(i / 8), i % 8))
    }
}

/// The eight big-endian bytes of a 64-bit integer.
pub open spec fn be8(x: u64) -> Seq<u8> {
    Seq::new(8, |j: int| limb_byte(x, j))
}

/// The word whose big-endian encoding is the 32-byte sequence `s`.
pub open spec fn b256_of_bytes(s: Seq<u8>) -> B256 {
    B256 {
        w0: pack8(s[0], s[1], s[2], s[3], s[4], s[5], s[6], s[7]),
        w1: pack8(s[8], s[9], s[10], s[11], s[12], s[13], s[14], s[15]),
        w2: pack8(s[16], s[17], s[18], s[19], s[20], s[21], s[22], s[23]),
        w3: pack8(s[24], s[25], s[26], s[27], s[28], s[29], s[30], s[31]),
    }
}

/// Packing 32 bytes into a word and reading them back is the identity.
pub proof fn lemma_b256_of_bytes(s: Seq<u8>)
    requires
        s.len() == 32,
    ensures
        b256_of_bytes(s)@ == s,
{
    lemma_pack8_bytes(s[0], s[1], s[2], s[3], s[4], s[5], s[6], s[7]);
    lemma_pack8_bytes(s[8], s[9], s[10], s[11], s[12], s[13], s[14], s[15]);
    lemma_pack8_bytes(s[16], s[17], s[18], s[19], s[20], s[21], s[22], s[23]);
    lemma_pack8_bytes(s[24], s[25], s[26], s[27], s[28], s[29], s[30], s[31]);
    assert(b256_of_bytes(s)@ =~= s);
}

/// A limb equals its own bytes packed back together.
proof fn lemma_pack_unpack(x: u64)
    by (bit_vector)
    ensures
        pack8(
            ((x >> 56u64) & 0xff) as u8,
            ((x >> 48u64) & 0xff) as u8,
            ((x >> 40u64) & 0xff) as u8,
            ((x >> 32u64) & 0xff) as u8,
            ((x >> 24u64) & 0xff) as u8,
            ((x >> 16u64) & 0xff) as u8,
            ((x >> 8u64) & 0xff) as u8,
            (x & 0xff) as u8,
        ) == x,
{
}

/// Two limbs with the same big-endian bytes are the same limb.
proof fn lemma_limb_bytes_injective(x: u64, y: u64)
    requires
        forall|j: int| 0 <= j < 8 ==> limb_byte(x, j) == limb_byte(y, j),
    ensures
        x == y,
{
    assert(limb_byte(x, 0) == limb_byte(y, 0));
    assert(limb_byte(x, 1) == limb_byte(y, 1));
    assert(limb_byte(x, 2) == limb_byte(y, 2));
    assert(limb_byte(x, 3) == limb_byte(y, 3));
    assert(limb_byte(x, 4) == limb_byte(y, 4));
    assert(limb_byte(x, 5) == limb_byte(y, 5));
    assert(limb_byte(x, 6) == limb_byte(y, 6));
    assert(limb_byte(x, 7) == limb_byte(y, 7));
    lemma_pack_unpack(x);
    lemma_pack_unpack(y);
}

/// One limb of a word is determined by the word's byte view.
proof fn lemma_limb_eq_from_view(a: B256, b: B256, k: int)
    requires
        a@ == b@,
        0 <= k < 4,
    ensures
        a.limb(k) == b.limb(k),
{
    assert forall|j: int| 0 <= j < 8 implies limb_byte(a.limb(k), j) == limb_byte(b.limb(k), j)
        by {
        let i = 8 * k + j;
        assert(i / 8 == k && i % 8 == j) by (nonlinear_arith)
            requires
                0 <= j < 8,
                0 <= k < 4,
                i == 8 * k + j,
        ;
        assert(a@[i] == limb_byte(a.limb(k), j));
        assert(b@[i] == limb_byte(b.limb(k), j));
    }
    lemma_limb_bytes_injective(a.limb(k), b.limb(k));
}

/// Two words with the same byte view are the same word.
pub proof fn lemma_view_injective(a: B256, b: B256)
    requires
        a@ == b@,
    ensures
        a == b,
{
    lemma_limb_eq_from_view(a, b, 0);
    lemma_limb_eq_from_view(a, b, 1);
    lemma_limb_eq_from_view(a, b, 2);
    lemma_limb_eq_from_view(a, b, 3);
}

/// Appends the eight big-endian bytes of one limb.
pub(crate) fn push_u64_be(out: &mut Vec<u8>, x: u64)
    ensures
        final(out)@ == old(out)@ + be8(x),
{
    out.push(((x >> 56u64) & 0xff) as u8);
    out.push(((x >> 48u64) & 0xff) as u8);
    out.push(((x >> 40u64) & 0xff) as u8);
    out.push(((x >> 32u64) & 0xff) as u8);
    out.push(((x >> 24u64) & 0xff) as u8);
    out.push(((x >> 16u64) & 0xff) as u8);
    out.push(((x >> 8u64) & 0xff) as u8);
    out.push((x & 0xff) as u8);
    proof {
        assert(out@ =~= old(out)@ + be8(x));
    }
}

/// Reads one big-endian limb from eight bytes starting at `at`.
fn read_limb_be(v: &Vec<u8>, at: usize) -> (r: u64)
    requires
        v@.len() == 32,
        at + 8 <= 32,
    ensures
        forall|j: int| 0 <= j < 8 ==> limb_byte(r, j) == v@[at + j],
{
    let r = ((v[at] as u64) << 56u64) | ((v[at + 1] as u64) << 48u64)
        | ((v[at + 2] as u64) << 40u64) | ((v[at + 3] as u64) << 32u64)
        | ((v[at + 4] as u64) << 24u64) | ((v[at + 5] as u64) << 16u64)
        | ((v[at + 6] as u64) << 8u64) | (v[at + 7] as u64);
    proof {
        lemma_pack8_bytes(
            v@[at as int],
            v@[at + 1],
            v@[at + 2],
            v@[at + 3],
            v@[at + 4],
            v@[at + 5],
            v@[at + 6],
            v@[at + 7],
        );
    }
    r
}

/// Each big-endian byte of a packed limb is the byte it was packed from.
proof fn lemma_pack8_bytes(b0: u8, b1: u8, b2: u8, b3: u8, b4: u8, b5: u8, b6: u8, b7: u8)
    by (bit_vector)
    ensures
        ((pack8(b0, b1, b2, b3, b4, b5, b6, b7) >> 56u64) & 0xff) as u8 == b0,
        ((pack8(b0, b1, b2, b3, b4, b5, b6, b7) >> 48u64) & 0xff) as u8 == b1,
        ((pack8(b0, b1, b2, b3, b4, b5, b6, b7) >> 40u64) & 0xff) as u8 == b2,
        ((pack8(b0, b1, b2, b3, b4, b5, b6, b7) >> 32u64) & 0xff) as u8 == b3,
        ((pack8(b0, b1, b2, b3, b4, b5, b6, b7) >> 24u64) & 0xff) as u8 == b4,
        ((pack8(b0, b1, b2, b3, b4, b5, b6, b7) >> 16u64) & 0xff) as u8 == b5,
        ((pack8(b0, b1, b2, b3, b4, b5, b6, b7) >> 8u64) & 0xff) as u8 == b6,
        (pack8(b0, b1, b2, b3, b4, b5, b6, b7) & 0xff) as u8 == b7,
{
}

/// Big-endian bytes of a 256-bit token amount, as the contract layer takes them.
pub fn u256_as_bytes_be(u256: &B256) -> (r: Vec<u8>)
    ensures
        r@ == u256@,
        r@.len() == 32,
{
    u256.to_bytes_be()
}

} // verus!
