//! Huffman decoding of the spectral samples (part3 of the main_data).
//!
//! The format uses 32 table slots for the big_values regions (slots 4 and 14
//! are unused placeholders, and the slots from 16 upward share two
//! underlying tables distinguished only by their linbits count), plus two
//! small tables for the count1 quadruples. The codeword tables themselves
//! are data from the ISO specification; this module models a table as a
//! binary prefix-code tree and verifies the walk that decodes one codeword,
//! as well as the loop that fills a granule's 576 spectral samples.
//!
//! Samples are produced as signed integer magnitudes (the decoded value,
//! with the linbits extension added and the sign applied). Requantization
//! later maps a magnitude `m` to `sign(m) * |m|^(4/3)` scaled; keeping the
//! integer here keeps the verified decoder free of floating point.

use vstd::arithmetic::power2::lemma2_to64;
use vstd::prelude::*;

use crate::bits::{lemma_bits_val_bound, spec_bit, spec_bits_val, BitReader};
use crate::error::Error;
use crate::sideinfo::GranuleChannel;
use crate::tables::LINBITS;

verus! {

/// One node of a prefix-code tree. A branch child of 0 marks a code space
/// that no codeword covers (the root is node 0 and can never be a child).
#[derive(Clone, Copy, Debug, PartialEq, Eq, Structural)]
pub enum CbNode {
    /// A decoded value.
    Leaf(u16),
    /// Children for a 0 bit and a 1 bit, as indices into the node list.
    Branch(usize, usize),
}

/// Child indices always point forward in the node list, so every walk makes
/// progress.
pub open spec fn spec_nodes_wf(nodes: Seq<CbNode>) -> bool {
    forall|i: int|
        0 <= i < nodes.len() ==> match #[trigger] nodes[i] {
            CbNode::Branch(l, r) => (l == 0 || i < l < nodes.len()) && (r == 0 || i < r
                < nodes.len()),
            CbNode::Leaf(_) => true,
        }
}

/// The result of walking the tree from node `idx`, consuming bits of `s`
/// MSB-first from bit `pos`: the decoded value and the number of bits
/// consumed, or `None` when the walk reaches uncovered code space.
pub open spec fn spec_walk(nodes: Seq<CbNode>, s: Seq<u8>, pos: int, idx: int) -> Option<
    (u16, int),
>
    decreases nodes.len() - idx,
{
    if 0 <= idx < nodes.len() {
        match nodes[idx] {
            CbNode::Leaf(v) => Some((v, 0int)),
            CbNode::Branch(l, r) => {
                let nxt = if spec_bit(s, pos) {
                    r as int
                } else {
                    l as int
                };
                if idx < nxt < nodes.len() {
                    match spec_walk(nodes, s, pos + 1, nxt) {
                        Some((v, d)) => Some((v, d + 1)),
                        None => None,
                    }
                } else {
                    None
                }
            },
        }
    } else {
        None
    }
}

/// The result of walking the tree from node `idx` along the bits of the
/// codeword `code` of bit length `len`, the next bit being bit `k`
/// (MSB-first): the value of the leaf reached after exactly the remaining
/// `len - k` bits, or `None` when the walk ends early, late or in
/// uncovered code space.
pub open spec fn spec_walk_code(
    nodes: Seq<CbNode>,
    code: u32,
    len: int,
    k: int,
    idx: int,
) -> Option<u16>
    decreases nodes.len() - idx,
{
    if 0 <= idx < nodes.len() {
        match nodes[idx] {
            CbNode::Leaf(v) => if k == len {
                Some(v)
            } else {
                None
            },
            CbNode::Branch(l, r) => {
                if k >= len {
                    None
                } else {
                    let bit = (code >> ((len - 1 - k) as u32)) & 1 == 1;
                    let nxt = if bit {
                        r as int
                    } else {
                        l as int
                    };
                    if idx < nxt < nodes.len() {
                        spec_walk_code(nodes, code, len, k + 1, nxt)
                    } else {
                        None
                    }
                }
            },
        }
    } else {
        None
    }
}

/// A codeword the tree resolves is decoded by [`spec_walk`] from any bit
/// source that carries the codeword's bits: walking by the data and
/// walking by the code agree.
pub proof fn lemma_walk_of_code(
    nodes: Seq<CbNode>,
    s: Seq<u8>,
    pos: int,
    code: u32,
    len: int,
    k: int,
    idx: int,
)
    requires
        0 <= k <= len,
        spec_walk_code(nodes, code, len, k, idx) is Some,
        forall|j: int|
            k <= j < len ==> (#[trigger] spec_bit(s, pos + (j - k))) == ((code >> ((len - 1 - j)
                as u32)) & 1 == 1),
    ensures
        spec_walk(nodes, s, pos, idx) == Some(
            (spec_walk_code(nodes, code, len, k, idx)->Some_0, len - k),
        ),
    decreases nodes.len() - idx,
{
    if 0 <= idx < nodes.len() {
        match nodes[idx] {
            CbNode::Leaf(_) => {},
            CbNode::Branch(l, r) => {
                let bit = (code >> ((len - 1 - k) as u32)) & 1 == 1;
                assert(spec_bit(s, pos + (k - k)) == bit);
                assert(spec_bit(s, pos) == bit);
                let nxt = if bit {
                    r as int
                } else {
                    l as int
                };
                assert forall|j: int|
                    k + 1 <= j < len implies (#[trigger] spec_bit(s, (pos + 1) + (j - (k + 1))))
                    == ((code >> ((len - 1 - j) as u32)) & 1 == 1) by {
                    assert(spec_bit(s, pos + (j - k)) == ((code >> ((len - 1 - j) as u32)) & 1
                        == 1));
                }
                lemma_walk_of_code(nodes, s, pos + 1, code, len, k + 1, nxt);
            },
        }
    }
}

/// A completed walk consumes a non-negative number of bits.
pub proof fn lemma_walk_depth_nonneg(nodes: Seq<CbNode>, s: Seq<u8>, pos: int, idx: int)
    ensures
        spec_walk(nodes, s, pos, idx) matches Some((v, d)) ==> d >= 0,
    decreases nodes.len() - idx,
{
    if 0 <= idx < nodes.len() {
        match nodes[idx] {
            CbNode::Leaf(_) => {},
            CbNode::Branch(l, r) => {
                let nxt = if spec_bit(s, pos) {
                    r as int
                } else {
                    l as int
                };
                if idx < nxt < nodes.len() {
                    lemma_walk_depth_nonneg(nodes, s, pos + 1, nxt);
                }
            },
        }
    }
}

/// One big_values magnitude processed from bit `p`, given its 4-bit part
/// `m`: the signed sample value written and the next bit position. A
/// saturated magnitude (15) is first extended by `linbits` extra bits; a
/// non-zero magnitude is followed by a sign bit (1 = negative); a zero
/// magnitude consumes nothing and stays zero.
pub open spec fn spec_bv_sample(s: Seq<u8>, p: int, m: int, linbits: int) -> (int, int) {
    if m == 0 {
        (0int, p)
    } else {
        let q = if m == 15 && linbits > 0 {
            p + linbits
        } else {
            p
        };
        let mag: int = if m == 15 && linbits > 0 {
            15 + spec_bits_val(s, p, linbits as nat) as int
        } else {
            m
        };
        if spec_bit(s, q) {
            (-mag, q + 1)
        } else {
            (mag, q + 1)
        }
    }
}

/// Decodes `count` big_values samples (an even number) from bit `p`: each
/// codeword yields the magnitudes x (bits 7..4) and y (bits 3..0), each
/// processed by [`spec_bv_sample`]. Yields the samples in order and the
/// final bit position, or `None` when a codeword walk leaves covered code
/// space.
pub open spec fn spec_region_decode(
    nodes: Seq<CbNode>,
    linbits: int,
    s: Seq<u8>,
    p: int,
    count: nat,
) -> Option<(Seq<int>, int)>
    decreases count,
{
    if count < 2 {
        Some((Seq::empty(), p))
    } else {
        match spec_walk(nodes, s, p, 0) {
            None => None,
            Some((v, d)) => {
                let x = ((v as u32) >> 4u32) & 0xf;
                let y = (v as u32) & 0xf;
                let (xv, p1) = spec_bv_sample(s, p + d, x as int, linbits);
                let (yv, p2) = spec_bv_sample(s, p1, y as int, linbits);
                match spec_region_decode(nodes, linbits, s, p2, (count - 2) as nat) {
                    None => None,
                    Some((rest, pf)) => Some((seq![xv, yv] + rest, pf)),
                }
            },
        }
    }
}

/// A big_values region whose table slot is empty is all zeros and consumes
/// nothing; otherwise it decodes as [`spec_region_decode`].
pub open spec fn spec_region_or_zero(
    nodes: Seq<CbNode>,
    linbits: int,
    s: Seq<u8>,
    p: int,
    count: nat,
) -> Option<(Seq<int>, int)> {
    if nodes.len() == 0 {
        Some((Seq::new(count, |k: int| 0int), p))
    } else {
        spec_region_decode(nodes, linbits, s, p, count)
    }
}

/// One count1 sample from bit `p`: a set magnitude bit is followed by a
/// sign bit and yields plus or minus one; a clear bit consumes nothing and
/// stays zero.
pub open spec fn spec_c1_sample(s: Seq<u8>, p: int, set: bool) -> (int, int) {
    if set {
        (
            if spec_bit(s, p) {
                -1int
            } else {
                1int
            },
            p + 1,
        )
    } else {
        (0int, p)
    }
}

/// Decodes count1 quadruples from bit `p` at sample index `i`, as long as
/// `i <= 572` and the position is still below `part3_end`: each codeword
/// yields four one-bit magnitudes v, w, x, y (bits 3..0). Yields the
/// samples in order, the final bit position and the final sample index, or
/// `None` when a codeword walk leaves covered code space.
pub open spec fn spec_count1_decode(
    nodes: Seq<CbNode>,
    s: Seq<u8>,
    p: int,
    i: int,
    part3_end: int,
) -> Option<(Seq<int>, int, int)>
    decreases 576 - i,
{
    if !(i <= 572 && p < part3_end) {
        Some((Seq::empty(), p, i))
    } else {
        match spec_walk(nodes, s, p, 0) {
            None => None,
            Some((v, d)) => {
                let (s0, q0) = spec_c1_sample(s, p + d, v & 0x8 != 0);
                let (s1, q1) = spec_c1_sample(s, q0, v & 0x4 != 0);
                let (s2, q2) = spec_c1_sample(s, q1, v & 0x2 != 0);
                let (s3, q3) = spec_c1_sample(s, q2, v & 0x1 != 0);
                match spec_count1_decode(nodes, s, q3, i + 4, part3_end) {
                    None => None,
                    Some((rest, pf, fi)) => Some((seq![s0, s1, s2, s3] + rest, pf, fi)),
                }
            },
        }
    }
}

/// A successful region decode yields exactly `count` samples (for even
/// `count`) and never moves the position backwards.
pub proof fn lemma_region_decode_props(
    nodes: Seq<CbNode>,
    linbits: int,
    s: Seq<u8>,
    p: int,
    count: nat,
)
    requires
        count % 2 == 0,
        linbits >= 0,
    ensures
        spec_region_decode(nodes, linbits, s, p, count) matches Some((vals, pf)) ==> vals.len()
            == count && pf >= p,
    decreases count,
{
    if count >= 2 {
        match spec_walk(nodes, s, p, 0) {
            None => {},
            Some((v, d)) => {
                lemma_walk_depth_nonneg(nodes, s, p, 0);
                let x = ((v as u32) >> 4u32) & 0xf;
                let y = (v as u32) & 0xf;
                let (xv, p1) = spec_bv_sample(s, p + d, x as int, linbits);
                let (yv, p2) = spec_bv_sample(s, p1, y as int, linbits);
                lemma_region_decode_props(nodes, linbits, s, p2, (count - 2) as nat);
            },
        }
    }
}

/// A successful count1 decode yields one sample per index stepped over,
/// in whole quadruples, and never moves the position backwards.
pub proof fn lemma_count1_decode_props(
    nodes: Seq<CbNode>,
    s: Seq<u8>,
    p: int,
    i: int,
    part3_end: int,
)
    ensures
        spec_count1_decode(nodes, s, p, i, part3_end) matches Some((vals, pf, fi)) ==> fi >= i
            && (fi - i) % 4 == 0 && (fi - i) % 2 == 0 && vals.len() == fi - i && pf >= p && (i
            <= 576 ==> fi <= 576),
    decreases 576 - i,
{
    if i <= 572 && p < part3_end {
        match spec_walk(nodes, s, p, 0) {
            None => {},
            Some((v, d)) => {
                lemma_walk_depth_nonneg(nodes, s, p, 0);
                let (s0, q0) = spec_c1_sample(s, p + d, v & 0x8 != 0);
                let (s1, q1) = spec_c1_sample(s, q0, v & 0x4 != 0);
                let (s2, q2) = spec_c1_sample(s, q1, v & 0x2 != 0);
                let (s3, q3) = spec_c1_sample(s, q2, v & 0x1 != 0);
                lemma_count1_decode_props(nodes, s, q3, i + 4, part3_end);
            },
        }
    }
}

/// A Huffman table, stored as a binary prefix-code tree.
#[derive(Debug)]
pub struct Codebook {
    nodes: Vec<CbNode>,
}

impl Codebook {
    /// The walk is well defined from every node.
    #[verifier::type_invariant]
    pub closed spec fn inv(self) -> bool {
        spec_nodes_wf(self.nodes@)
    }

    /// The tree seen as a node sequence.
    pub closed spec fn spec_nodes(self) -> Seq<CbNode> {
        self.nodes@
    }

    /// An empty table: decoding through it always fails, and the sample
    /// loop zero-fills regions that select one.
    pub fn empty() -> (r: Codebook)
        ensures
            r.spec_nodes().len() == 0,
    {
        Codebook { nodes: Vec::new() }
    }

    /// Returns true when the table holds no codewords.
    pub fn is_empty(&self) -> (r: bool)
        ensures
            r == (self.spec_nodes().len() == 0),
    {
        self.nodes.len() == 0
    }

    /// Builds a table from explicit nodes, validating that every branch
    /// child points forward; returns `None` when one does not.
    pub fn from_nodes(nodes: Vec<CbNode>) -> (r: Option<Codebook>)
        ensures
            spec_nodes_wf(nodes@) ==> (r matches Some(cb) && cb.spec_nodes() == nodes@),
            !spec_nodes_wf(nodes@) ==> r is None,
    {
        let n = nodes.len();
        let mut i: usize = 0;
        while i < n
            invariant
                i <= n,
                n == nodes@.len(),
                forall|j: int|
                    0 <= j < i ==> match #[trigger] nodes@[j] {
                        CbNode::Branch(l, r) => (l == 0 || j < l < n) && (r == 0 || j < r < n),
                        CbNode::Leaf(_) => true,
                    },
            decreases n - i,
        {
            match nodes[i] {
                CbNode::Branch(l, r) => {
                    if !(l == 0 || (l > i && l < n)) || !(r == 0 || (r > i && r < n)) {
                        return None;
                    }
                },
                CbNode::Leaf(_) => (),
            }
            i = i + 1;
        }
        Some(Codebook { nodes })
    }

    /// Walks the tree along the bits of one codeword and reports whether it
    /// ends exactly at a leaf holding `value`.
    #[verifier::loop_isolation(false)]
    fn check_code(nodes: &Vec<CbNode>, code: u32, len: u8, value: u16) -> (r: bool)
        requires
            spec_nodes_wf(nodes@),
            0 < len <= 24,
        ensures
            r == (spec_walk_code(nodes@, code, len as int, 0, 0) == Some(value)),
    {
        let mut idx: usize = 0;
        let mut k: u8 = 0;
        loop
            invariant
                k <= len,
                idx < nodes@.len() || nodes@.len() == 0,
                spec_walk_code(nodes@, code, len as int, 0, 0) == spec_walk_code(
                    nodes@,
                    code,
                    len as int,
                    k as int,
                    idx as int,
                ),
            decreases nodes@.len() - idx,
        {
            if nodes.len() == 0 {
                return false;
            }
            match nodes[idx] {
                CbNode::Leaf(v) => {
                    return k == len && v == value;
                },
                CbNode::Branch(l, r) => {
                    if k >= len {
                        return false;
                    }
                    let bit = (code >> ((len - 1 - k) as u32)) & 1 == 1;
                    let nxt = if bit {
                        r
                    } else {
                        l
                    };
                    if nxt <= idx || nxt >= nodes.len() {
                        return false;
                    }
                    idx = nxt;
                    k = k + 1;
                },
            }
        }
    }

    /// Builds a table from a list of codewords `(code, len, value)`, where
    /// `code` holds `len` bits MSB-first. Returns `None` when a codeword is
    /// empty, longer than 24 bits, or conflicts with an earlier one.
    ///
    /// On success every listed codeword resolves in the built tree: walking
    /// it by the code's bits ([`spec_walk_code`]) yields its value, and so,
    /// through [`lemma_walk_of_code`], does [`spec_walk`] on any bit source
    /// carrying those bits.
    pub fn from_codes(codes: &Vec<(u32, u8, u16)>) -> (r: Option<Codebook>)
        ensures
            r matches Some(cb) ==> (cb.spec_nodes().len() == 0 <==> codes@.len() == 0),
            r matches Some(cb) ==> (forall|c: int|
                0 <= c < codes@.len() ==> spec_walk_code(
                    cb.spec_nodes(),
                    (#[trigger] codes@[c]).0,
                    codes@[c].1 as int,
                    0,
                    0,
                ) == Some(codes@[c].2)),
    {
        let mut nodes: Vec<CbNode> = Vec::new();
        if codes.len() == 0 {
            return Some(Codebook { nodes });
        }
        nodes.push(CbNode::Branch(0, 0));
        let mut c: usize = 0;
        while c < codes.len()
            invariant
                nodes@.len() >= 1,
                spec_nodes_wf(nodes@),
                nodes@.len() <= 0xffff,
                nodes@[0] is Branch,
            decreases codes@.len() - c,
        {
            let (code, len, value) = codes[c];
            if len == 0 || len > 24 {
                return None;
            }
            let mut idx: usize = 0;
            let mut k: u8 = 0;
            // Walk the existing tree, growing branches as needed, to the
            // leaf position of this codeword.
            while k < len
                invariant
                    k <= len,
                    0 < len <= 24,
                    idx < nodes@.len(),
                    spec_nodes_wf(nodes@),
                    nodes@.len() <= 0xffff,
                    nodes@[0] is Branch,
                    nodes@[idx as int] is Branch,
                decreases len - k,
            {
                let bit = (code >> ((len - 1 - k) as u32)) & 1 == 1;
                let (l0, r0) = match nodes[idx] {
                    CbNode::Branch(l, r) => (l, r),
                    CbNode::Leaf(_) => {
                        return None;
                    },
                };
                let child = if bit {
                    r0
                } else {
                    l0
                };
                if k + 1 == len {
                    // The last bit: attach the value as a fresh leaf.
                    if child != 0 {
                        // The code space is already taken.
                        return None;
                    }
                    let leaf = nodes.len();
                    if leaf >= 0xffff {
                        return None;
                    }
                    nodes.push(CbNode::Leaf(value));
                    let node = if bit {
                        CbNode::Branch(l0, leaf)
                    } else {
                        CbNode::Branch(leaf, r0)
                    };
                    nodes.set(idx, node);
                    k = k + 1;
                } else {
                    if child == 0 {
                        // Grow an empty branch to walk into.
                        let fresh = nodes.len();
                        if fresh >= 0xffff {
                            return None;
                        }
                        nodes.push(CbNode::Branch(0, 0));
                        let node = if bit {
                            CbNode::Branch(l0, fresh)
                        } else {
                            CbNode::Branch(fresh, r0)
                        };
                        nodes.set(idx, node);
                        idx = fresh;
                    } else {
                        match nodes[child] {
                            CbNode::Branch(_, _) => (),
                            CbNode::Leaf(_) => {
                                // A shorter codeword already ends here.
                                return None;
                            },
                        }
                        idx = child;
                    }
                    k = k + 1;
                }
            }
            c = c + 1;
        }

        // Every codeword must resolve in the finished tree; a list the
        // insertion loop accepted always does.
        let mut c: usize = 0;
        while c < codes.len()
            invariant
                spec_nodes_wf(nodes@),
                nodes@.len() >= 1,
                forall|j: int|
                    0 <= j < c ==> spec_walk_code(
                        nodes@,
                        (#[trigger] codes@[j]).0,
                        codes@[j].1 as int,
                        0,
                        0,
                    ) == Some(codes@[j].2),
            decreases codes@.len() - c,
        {
            let (code, len, value) = codes[c];
            if len == 0 || len > 24 {
                return None;
            }
            if !Self::check_code(&nodes, code, len, value) {
                return None;
            }
            c = c + 1;
        }
        Some(Codebook { nodes })
    }

    /// Decodes one codeword, consuming its bits from the reader.
    ///
    /// On success the value and bit count are exactly what [`spec_walk`]
    /// yields from the root. Fails with `InvalidHuffmanCode` when the walk
    /// leaves covered code space or would consume more than `budget` bits,
    /// and with `BitstreamExhausted` when the data ends first.
    #[verifier::loop_isolation(false)]
    #[verifier::rlimit(100)]
    pub fn decode(&self, bs: &mut BitReader, budget: u32) -> (r: Result<(u16, u32), Error>)
        requires
            old(bs).wf(),
        ensures
            final(bs).wf(),
            final(bs).data() == old(bs).data(),
            r matches Ok((v, d)) ==> spec_walk(
                self.spec_nodes(),
                old(bs).data(),
                old(bs).spec_pos(),
                0,
            ) == Some((v, d as int)) && d <= budget && final(bs).spec_pos() == old(bs).spec_pos()
                + d,
            r matches Err(e) ==> (e == Error::InvalidHuffmanCode || e
                == Error::BitstreamExhausted),
            spec_walk(self.spec_nodes(), old(bs).data(), old(bs).spec_pos(), 0) matches Some(
                (v, d),
            ) ==> (d <= budget && old(bs).spec_pos() + d <= old(bs).data().len() * 8 ==> r == Ok::<
                (u16, u32),
                Error,
            >((v, d as u32))),
    {
        proof {
            use_type_invariant(&*self);
        }
        let ghost s = old(bs).data();
        let ghost p0 = old(bs).spec_pos();
        let mut idx: usize = 0;
        let mut d: u32 = 0;
        loop
            invariant
                bs.wf(),
                bs.data() == s,
                bs.spec_pos() == p0 + d,
                d <= budget,
                idx < self.nodes@.len() || self.nodes@.len() == 0,
                ({
                    let root = spec_walk(self.nodes@, s, p0, 0);
                    self.nodes@.len() > 0 ==> match spec_walk(self.nodes@, s, p0 + d, idx as int) {
                        Some((v, k)) => root == Some((v, k + d)),
                        None => root is None,
                    }
                }),
            decreases self.nodes@.len() - idx,
        {
            if self.nodes.len() == 0 {
                return Err(Error::InvalidHuffmanCode);
            }
            match self.nodes[idx] {
                CbNode::Leaf(v) => {
                    proof {
                        assert(spec_walk(self.nodes@, s, p0 + d, idx as int) == Some(
                            (v, 0int),
                        ));
                    }
                    return Ok((v, d));
                },
                CbNode::Branch(l, r) => {
                    proof {
                        lemma_walk_depth_nonneg(
                            self.nodes@,
                            s,
                            p0 + d + 1,
                            if spec_bit(s, p0 + d) {
                                r as int
                            } else {
                                l as int
                            },
                        );
                        assert(spec_walk(self.nodes@, s, p0 + d, idx as int) == ({
                            let nxt2 = if spec_bit(s, p0 + d) {
                                r as int
                            } else {
                                l as int
                            };
                            if idx < nxt2 < self.nodes@.len() {
                                match spec_walk(self.nodes@, s, p0 + d + 1, nxt2) {
                                    Some((v2, k)) => Some((v2, k + 1)),
                                    None => None::<(u16, int)>,
                                }
                            } else {
                                None::<(u16, int)>
                            }
                        }));
                    }
                    if d >= budget {
                        return Err(Error::InvalidHuffmanCode);
                    }
                    let bit = match bs.read_bit() {
                        Ok(b) => b,
                        Err(e) => {
                            return Err(e);
                        },
                    };
                    let nxt = if bit {
                        r
                    } else {
                        l
                    };
                    if nxt <= idx || nxt >= self.nodes.len() {
                        return Err(Error::InvalidHuffmanCode);
                    }
                    idx = nxt;
                    d = d + 1;
                },
            }
        }
    }
}

/// The Huffman tables of one decoder instance: the 32 big_values slots and
/// the two count1 quadruple tables. The codeword lists themselves are data
/// from the ISO specification, supplied by the integration; slots 4 and 14
/// are placeholders and stay empty.
#[derive(Debug)]
pub struct HuffmanTables {
    big: Vec<Codebook>,
    quad_a: Codebook,
    quad_b: Codebook,
}

impl HuffmanTables {
    /// There is exactly one table per slot.
    #[verifier::type_invariant]
    pub closed spec fn inv(self) -> bool {
        self.big@.len() == 32
    }

    /// The prefix tree in big_values slot `i`.
    pub closed spec fn spec_big(self, i: int) -> Seq<CbNode> {
        self.big@[i].spec_nodes()
    }

    /// The count1 table: B when `select` is set, A otherwise.
    pub closed spec fn spec_quad(self, select: bool) -> Seq<CbNode> {
        if select {
            self.quad_b.spec_nodes()
        } else {
            self.quad_a.spec_nodes()
        }
    }

    /// Assembles the table set; `big` must hold exactly 32 entries.
    pub fn new(big: Vec<Codebook>, quad_a: Codebook, quad_b: Codebook) -> (r: Option<
        HuffmanTables,
    >)
        ensures
            big@.len() == 32 <==> r is Some,
    {
        if big.len() == 32 {
            Some(HuffmanTables { big, quad_a, quad_b })
        } else {
            None
        }
    }
}

/// The big_values partition of one channel decoded from bit `p0`: three
/// regions bounded by the (clamped) region starts, each decoded by
/// [`spec_region_or_zero`] with its slot's linbits. Yields the
/// `2 * big_values` samples and the final bit position.
#[verifier::opaque]
pub open spec fn spec_big_values_decode(
    t: HuffmanTables,
    ch: GranuleChannel,
    s: Seq<u8>,
    p0: int,
) -> Option<(Seq<int>, int)> {
    let bvl = 2 * ch.big_values as int;
    let e0 = if ch.region1_start < bvl {
        ch.region1_start as int
    } else {
        bvl
    };
    let e1 = if ch.region2_start < bvl {
        ch.region2_start as int
    } else {
        bvl
    };
    let ts0 = ch.table_select[0] as int;
    let ts1 = ch.table_select[1] as int;
    let ts2 = ch.table_select[2] as int;
    match spec_region_or_zero(t.spec_big(ts0), LINBITS[ts0] as int, s, p0, e0 as nat) {
        None => None,
        Some((v0, p1)) => match spec_region_or_zero(
            t.spec_big(ts1),
            LINBITS[ts1] as int,
            s,
            p1,
            (e1 - e0) as nat,
        ) {
            None => None,
            Some((v1, p2)) => match spec_region_or_zero(
                t.spec_big(ts2),
                LINBITS[ts2] as int,
                s,
                p2,
                (bvl - e1) as nat,
            ) {
                None => None,
                Some((v2, p3)) => Some((v0 + v1 + v2, p3)),
            },
        },
    }
}

/// The complete part3 decode of one channel from bit `p0` with the budget
/// ending at `part3_end`: the big_values partition, the count1 partition,
/// the zero tail, and the closing step — skipping the stuffing bits when
/// fewer than the budget were consumed, or erasing the last over-read
/// quadruple when the count1 partition ran past it. Yields the 576 samples,
/// `rzero` and the final bit position.
#[verifier::opaque]
pub open spec fn spec_huffman_decode(
    t: HuffmanTables,
    ch: GranuleChannel,
    s: Seq<u8>,
    p0: int,
    part3_end: int,
) -> Option<(Seq<int>, int, int)> {
    let bvl = 2 * ch.big_values as int;
    match spec_big_values_decode(t, ch, s, p0) {
        None => None,
        Some((vbig, p3)) => match spec_count1_decode(
            t.spec_quad(ch.count1table_select),
            s,
            p3,
            bvl,
            part3_end,
        ) {
            None => None,
            Some((vc, p4, i4)) => {
                let raw = vbig + vc + Seq::new((576 - i4) as nat, |k: int| 0int);
                if p4 < part3_end {
                    Some((raw, i4, part3_end))
                } else if p4 == part3_end {
                    Some((raw, i4, p4))
                } else {
                    let rz: int = if i4 >= 4 {
                        i4 - 4
                    } else {
                        0int
                    };
                    Some(
                        (
                            raw.update(rz, 0).update(rz + 1, 0).update(rz + 2, 0).update(
                                rz + 3,
                                0,
                            ),
                            rz,
                            p4,
                        ),
                    )
                }
            },
        },
    }
}

/// The part3 mirror reads only the big_values bookkeeping of a channel:
/// two channels that agree on it decode identically, whatever their scale
/// factors or `rzero` hold.
pub proof fn lemma_huffman_decode_ignores_sf(
    t: HuffmanTables,
    a: GranuleChannel,
    b: GranuleChannel,
    s: Seq<u8>,
    p0: int,
    part3_end: int,
)
    requires
        a.big_values == b.big_values,
        a.region1_start == b.region1_start,
        a.region2_start == b.region2_start,
        a.table_select == b.table_select,
        a.count1table_select == b.count1table_select,
    ensures
        spec_huffman_decode(t, a, s, p0, part3_end) == spec_huffman_decode(t, b, s, p0, part3_end),
{
    reveal(spec_huffman_decode);
    reveal(spec_big_values_decode);
}

/// The largest sample magnitude the decoder can produce: a saturated 4-bit
/// value of 15 extended by up to 13 linbits.
pub const MAX_SAMPLE_MAGNITUDE: i32 = 8206;

/// Decodes one big_values codeword and writes its two samples at `i` and
/// `i + 1`, exactly as [`spec_walk`] and [`spec_bv_sample`] describe.
#[verifier::loop_isolation(false)]
#[verifier::rlimit(100)]
#[verifier::spinoff_prover]
fn read_bv_pair(
    bs: &mut BitReader,
    cb: &Codebook,
    linbits: u32,
    part3_end: usize,
    buf: &mut Vec<i32>,
    i: usize,
) -> (r: Result<(), Error>)
    requires
        old(bs).wf(),
        old(buf)@.len() == 576,
        i + 1 < 576,
        linbits <= 13,
        old(buf)@[i as int] == 0,
        old(buf)@[i + 1] == 0,
    ensures
        final(bs).wf(),
        final(bs).data() == old(bs).data(),
        final(buf)@.len() == 576,
        forall|k: int| 0 <= k < 576 && k != i && k != i + 1 ==> final(buf)@[k] == old(buf)@[k],
        -8206 <= final(buf)@[i as int] <= 8206,
        -8206 <= final(buf)@[i + 1] <= 8206,
        r is Ok ==> ({
            let s = old(bs).data();
            let p = old(bs).spec_pos();
            match spec_walk(cb.spec_nodes(), s, p, 0) {
                Some((v, d)) => {
                    let x = ((v as u32) >> 4u32) & 0xf;
                    let y = (v as u32) & 0xf;
                    let (xv, p1) = spec_bv_sample(s, p + d, x as int, linbits as int);
                    let (yv, p2) = spec_bv_sample(s, p1, y as int, linbits as int);
                    &&& final(buf)@[i as int] as int == xv
                    &&& final(buf)@[i + 1] as int == yv
                    &&& final(bs).spec_pos() == p2
                },
                None => false,
            }
        }),
        r matches Err(e) ==> (e == Error::InvalidHuffmanCode || e == Error::BitstreamExhausted),
{
    let ghost s = old(bs).data();
    let pos = bs.pos();
    let budget: u32 = if part3_end > pos {
        if part3_end - pos > 0xffff_ffff {
            0xffff_ffff
        } else {
            (part3_end - pos) as u32
        }
    } else {
        0
    };
    // Decode the next codeword: two samples, x and y, each 4 bits.
    let (value, _clen) = match cb.decode(bs, budget) {
        Ok(v) => v,
        Err(e) => {
            return Err(e);
        },
    };
    let mut x: u32 = ((value as u32) >> 4u32) & 0xf;
    let mut y: u32 = (value as u32) & 0xf;
    proof {
        assert(((value as u32) >> 4u32) & 0xf <= 15) by (bit_vector);
        assert((value as u32) & 0xf <= 15) by (bit_vector);
    }

    if x > 0 {
        // A saturated magnitude is extended by linbits extra bits.
        if x == 15 && linbits > 0 {
            proof {
                lemma2_to64();
                lemma_bits_val_bound(s, bs.spec_pos(), linbits as nat);
                if (linbits as nat) < 13 {
                    vstd::arithmetic::power2::lemma_pow2_strictly_increases(linbits as nat, 13nat);
                }
            }
            let extra = match bs.read_bits_leq32(linbits) {
                Ok(v) => v,
                Err(e) => {
                    return Err(e);
                },
            };
            x = x + extra;
        }
        // The next bit is the sign bit.
        let sign = match bs.read_bit() {
            Ok(b) => b,
            Err(e) => {
                return Err(e);
            },
        };
        buf.set(i, if sign {
            -(x as i32)
        } else {
            (x as i32)
        });
    }

    if y > 0 {
        if y == 15 && linbits > 0 {
            proof {
                lemma2_to64();
                lemma_bits_val_bound(s, bs.spec_pos(), linbits as nat);
                if (linbits as nat) < 13 {
                    vstd::arithmetic::power2::lemma_pow2_strictly_increases(linbits as nat, 13nat);
                }
            }
            let extra = match bs.read_bits_leq32(linbits) {
                Ok(v) => v,
                Err(e) => {
                    return Err(e);
                },
            };
            y = y + extra;
        }
        let sign = match bs.read_bit() {
            Ok(b) => b,
            Err(e) => {
                return Err(e);
            },
        };
        buf.set(i + 1, if sign {
            -(y as i32)
        } else {
            (y as i32)
        });
    }
    Ok(())
}

/// Decodes one big_values region into `buf[start..end)`: pairs of samples,
/// one codeword each, exactly as [`spec_region_decode`] describes.
#[verifier::loop_isolation(false)]
#[verifier::rlimit(100)]
#[verifier::spinoff_prover]
fn read_big_values_region(
    bs: &mut BitReader,
    cb: &Codebook,
    linbits: u32,
    part3_end: usize,
    buf: &mut Vec<i32>,
    start: usize,
    end: usize,
) -> (r: Result<(), Error>)
    requires
        old(bs).wf(),
        old(buf)@.len() == 576,
        start <= end <= 576,
        start % 2 == 0,
        end % 2 == 0,
        linbits <= 13,
        forall|k: int| 0 <= k < 576 ==> -8206 <= #[trigger] old(buf)@[k] <= 8206,
        forall|k: int| start <= k < 576 ==> old(buf)@[k] == 0,
    ensures
        final(bs).wf(),
        final(bs).data() == old(bs).data(),
        final(buf)@.len() == 576,
        forall|k: int| 0 <= k < start ==> final(buf)@[k] == old(buf)@[k],
        forall|k: int| end <= k < 576 ==> final(buf)@[k] == 0,
        forall|k: int| 0 <= k < 576 ==> -8206 <= #[trigger] final(buf)@[k] <= 8206,
        r is Ok ==> ({
            match spec_region_decode(
                cb.spec_nodes(),
                linbits as int,
                old(bs).data(),
                old(bs).spec_pos(),
                (end - start) as nat,
            ) {
                Some((vals, pf)) => final(bs).spec_pos() == pf && (forall|k: int|
                    0 <= k < end - start ==> (#[trigger] final(buf)@[start + k]) as int
                        == vals[k]),
                None => false,
            }
        }),
        r matches Err(e) ==> (e == Error::InvalidHuffmanCode || e == Error::BitstreamExhausted),
{
    let ghost s = old(bs).data();
    let ghost p0 = old(bs).spec_pos();
    let ghost lin = linbits as int;
    let ghost nodes = cb.spec_nodes();
    proof {
        lemma_region_decode_props(nodes, lin, s, p0, (end - start) as nat);
    }
    let mut i = start;
    while i < end
        invariant
            bs.wf(),
            bs.data() == s,
            buf@.len() == 576,
            start <= i <= end,
            i % 2 == 0,
            forall|k: int| 0 <= k < start ==> buf@[k] == old(buf)@[k],
            forall|k: int| i <= k < 576 ==> buf@[k] == 0,
            forall|k: int| 0 <= k < 576 ==> -8206 <= #[trigger] buf@[k] <= 8206,
            ({
                match spec_region_decode(nodes, lin, s, bs.spec_pos(), (end - i) as nat) {
                    Some((rest, pf)) => match spec_region_decode(
                        nodes,
                        lin,
                        s,
                        p0,
                        (end - start) as nat,
                    ) {
                        Some((vals, pf2)) => pf2 == pf && vals.len() == end - start && rest.len()
                            == end - i && (forall|k: int|
                            0 <= k < i - start ==> (#[trigger] buf@[start + k]) as int
                                == vals[k]) && (forall|k: int|
                            0 <= k < end - i ==> (#[trigger] rest[k]) == vals[(i - start) + k]),
                        None => false,
                    },
                    None => spec_region_decode(nodes, lin, s, p0, (end - start) as nat) is None,
                }
            }),
        decreases end - i,
    {
        let ghost pos_before = bs.spec_pos();
        let ghost rem_before = spec_region_decode(nodes, lin, s, pos_before, (end - i) as nat);
        match read_bv_pair(bs, cb, linbits, part3_end, buf, i) {
            Ok(()) => (),
            Err(e) => {
                return Err(e);
            },
        };
        proof {
            // One unfolding of the remaining decode matches the pair just
            // read.
            lemma_region_decode_props(nodes, lin, s, pos_before, (end - i) as nat);
            match spec_walk(nodes, s, pos_before, 0) {
                Some((v, d)) => {
                    let x = ((v as u32) >> 4u32) & 0xf;
                    let y = (v as u32) & 0xf;
                    let (xv, p1) = spec_bv_sample(s, pos_before + d, x as int, lin);
                    let (yv, p2) = spec_bv_sample(s, p1, y as int, lin);
                    lemma_region_decode_props(nodes, lin, s, p2, (end - i - 2) as nat);
                    assert(rem_before == (match spec_region_decode(
                        nodes,
                        lin,
                        s,
                        p2,
                        (end - i - 2) as nat,
                    ) {
                        None => None::<(Seq<int>, int)>,
                        Some((rest2, pf)) => Some((seq![xv, yv] + rest2, pf)),
                    }));
                    match (
                        rem_before,
                        spec_region_decode(nodes, lin, s, p2, (end - i - 2) as nat),
                        spec_region_decode(nodes, lin, s, p0, (end - start) as nat),
                    ) {
                        (Some((rest, pfa)), Some((rest2, pfb)), Some((vals, pfc))) => {
                            assert(rest == seq![xv, yv] + rest2);
                            assert(rest[0] == xv && rest[1] == yv);
                            assert(vals[(i - start) as int] == xv);
                            assert(vals[(i - start) + 1] == yv);
                            assert(buf@[i as int] as int == xv);
                            assert(buf@[i + 1] as int == yv);
                            assert forall|k: int| 0 <= k < end - i - 2 implies #[trigger] rest2[k]
                                == vals[(i - start) + 2 + k] by {
                                assert(seq![xv, yv].len() == 2);
                                assert((seq![xv, yv] + rest2)[k + 2] == rest2[k]);
                                assert(rest[k + 2] == vals[(i - start) + (k + 2)]);
                            }
                        },
                        _ => {},
                    }
                },
                None => {
                    assert(false);
                },
            }
        }
        i = i + 2;
    }
    Ok(())
}

/// Decodes one count1 codeword and writes its four samples at `i..i + 4`,
/// exactly as [`spec_walk`] and [`spec_c1_sample`] describe.
#[verifier::loop_isolation(false)]
#[verifier::rlimit(100)]
#[verifier::spinoff_prover]
fn read_c1_quad(
    bs: &mut BitReader,
    cb: &Codebook,
    part3_end: usize,
    buf: &mut Vec<i32>,
    i: usize,
) -> (r: Result<(), Error>)
    requires
        old(bs).wf(),
        old(buf)@.len() == 576,
        i + 3 < 576,
        part3_end <= 0x8000_2000,
        old(bs).spec_pos() < part3_end,
        forall|k: int| i <= k < i + 4 ==> old(buf)@[k] == 0,
    ensures
        final(bs).wf(),
        final(bs).data() == old(bs).data(),
        final(buf)@.len() == 576,
        forall|k: int| 0 <= k < 576 && !(i <= k < i + 4) ==> final(buf)@[k] == old(buf)@[k],
        forall|k: int| i <= k < i + 4 ==> -1 <= #[trigger] final(buf)@[k] <= 1,
        r is Ok ==> ({
            let s = old(bs).data();
            let p = old(bs).spec_pos();
            match spec_walk(cb.spec_nodes(), s, p, 0) {
                Some((v, d)) => {
                    let (s0, q0) = spec_c1_sample(s, p + d, v & 0x8 != 0);
                    let (s1, q1) = spec_c1_sample(s, q0, v & 0x4 != 0);
                    let (s2, q2) = spec_c1_sample(s, q1, v & 0x2 != 0);
                    let (s3, q3) = spec_c1_sample(s, q2, v & 0x1 != 0);
                    &&& final(buf)@[i as int] as int == s0
                    &&& final(buf)@[i + 1] as int == s1
                    &&& final(buf)@[i + 2] as int == s2
                    &&& final(buf)@[i + 3] as int == s3
                    &&& final(bs).spec_pos() == q3
                },
                None => false,
            }
        }),
        r matches Err(e) ==> (e == Error::InvalidHuffmanCode || e == Error::BitstreamExhausted),
{
    let pos = bs.pos();
    // Allow a few bits over the budget: encoders commonly mis-stuff the
    // final codeword, and the caller erases an over-read quadruple.
    let over = part3_end - pos + 8;
    let budget: u32 = if over > 0xffff_ffff {
        0xffff_ffff
    } else {
        over as u32
    };
    let (value, _clen) = match cb.decode(bs, budget) {
        Ok(v) => v,
        Err(e) => {
            return Err(e);
        },
    };

    // The four magnitudes v, w, x, y sit in bits 3..0.
    if value & 0x8 != 0 {
        let sign = match bs.read_bit() {
            Ok(b) => b,
            Err(e) => {
                return Err(e);
            },
        };
        buf.set(i, if sign {
            -1
        } else {
            1
        });
    }
    if value & 0x4 != 0 {
        let sign = match bs.read_bit() {
            Ok(b) => b,
            Err(e) => {
                return Err(e);
            },
        };
        buf.set(i + 1, if sign {
            -1
        } else {
            1
        });
    }
    if value & 0x2 != 0 {
        let sign = match bs.read_bit() {
            Ok(b) => b,
            Err(e) => {
                return Err(e);
            },
        };
        buf.set(i + 2, if sign {
            -1
        } else {
            1
        });
    }
    if value & 0x1 != 0 {
        let sign = match bs.read_bit() {
            Ok(b) => b,
            Err(e) => {
                return Err(e);
            },
        };
        buf.set(i + 3, if sign {
            -1
        } else {
            1
        });
    }
    Ok(())
}

/// Decodes the count1 partition from `buf[start..]`: quadruples of one-bit
/// samples until sample 572 or `part3_end` is reached, exactly as
/// [`spec_count1_decode`] describes. Returns the next unwritten sample
/// index.
#[verifier::loop_isolation(false)]
#[verifier::rlimit(100)]
#[verifier::spinoff_prover]
fn read_count1(
    bs: &mut BitReader,
    cb: &Codebook,
    part3_end: usize,
    buf: &mut Vec<i32>,
    start: usize,
) -> (r: Result<usize, Error>)
    requires
        old(bs).wf(),
        old(buf)@.len() == 576,
        start <= 576,
        part3_end <= 0x8000_2000,
        forall|k: int| 0 <= k < 576 ==> -8206 <= #[trigger] old(buf)@[k] <= 8206,
        forall|k: int| start <= k < 576 ==> old(buf)@[k] == 0,
    ensures
        final(bs).wf(),
        final(bs).data() == old(bs).data(),
        final(buf)@.len() == 576,
        forall|k: int| 0 <= k < start ==> final(buf)@[k] == old(buf)@[k],
        forall|k: int| 0 <= k < 576 ==> -8206 <= #[trigger] final(buf)@[k] <= 8206,
        r matches Ok(i) ==> (start <= i <= 576 && (forall|k: int|
            i <= k < 576 ==> final(buf)@[k] == 0)),
        r matches Ok(i) ==> ({
            match spec_count1_decode(
                cb.spec_nodes(),
                old(bs).data(),
                old(bs).spec_pos(),
                start as int,
                part3_end as int,
            ) {
                Some((vals, pf, fi)) => i == fi && final(bs).spec_pos() == pf && (forall|k: int|
                    0 <= k < fi - start ==> (#[trigger] final(buf)@[start + k]) as int
                        == vals[k]),
                None => false,
            }
        }),
        r matches Err(e) ==> (e == Error::InvalidHuffmanCode || e == Error::BitstreamExhausted),
{
    let ghost s = old(bs).data();
    let ghost p0 = old(bs).spec_pos();
    let ghost nodes = cb.spec_nodes();
    proof {
        lemma_count1_decode_props(nodes, s, p0, start as int, part3_end as int);
    }
    let mut i = start;
    while i <= 572 && bs.pos() < part3_end
        invariant
            bs.wf(),
            bs.data() == s,
            buf@.len() == 576,
            start <= i <= 576,
            forall|k: int| 0 <= k < start ==> buf@[k] == old(buf)@[k],
            forall|k: int| i <= k < 576 ==> buf@[k] == 0,
            forall|k: int| 0 <= k < 576 ==> -8206 <= #[trigger] buf@[k] <= 8206,
            ({
                match spec_count1_decode(nodes, s, bs.spec_pos(), i as int, part3_end as int) {
                    Some((rest, pf, fi)) => match spec_count1_decode(
                        nodes,
                        s,
                        p0,
                        start as int,
                        part3_end as int,
                    ) {
                        Some((vals, pf2, fi2)) => pf2 == pf && fi2 == fi && vals.len() == fi
                            - start && rest.len() == fi - i && (forall|k: int|
                            0 <= k < i - start ==> (#[trigger] buf@[start + k]) as int
                                == vals[k]) && (forall|k: int|
                            0 <= k < fi - i ==> (#[trigger] rest[k]) == vals[(i - start) + k]),
                        None => false,
                    },
                    None => spec_count1_decode(nodes, s, p0, start as int, part3_end as int)
                        is None,
                }
            }),
        decreases 576 - i,
    {
        let ghost pos_before = bs.spec_pos();
        let ghost rem_before = spec_count1_decode(
            nodes,
            s,
            pos_before,
            i as int,
            part3_end as int,
        );
        match read_c1_quad(bs, cb, part3_end, buf, i) {
            Ok(()) => (),
            Err(e) => {
                return Err(e);
            },
        };
        proof {
            // One unfolding of the remaining decode matches the quadruple
            // just read.
            match spec_walk(nodes, s, pos_before, 0) {
                Some((v, d)) => {
                    let (s0, q0) = spec_c1_sample(s, pos_before + d, v & 0x8 != 0);
                    let (s1, q1) = spec_c1_sample(s, q0, v & 0x4 != 0);
                    let (s2, q2) = spec_c1_sample(s, q1, v & 0x2 != 0);
                    let (s3, q3) = spec_c1_sample(s, q2, v & 0x1 != 0);
                    assert(rem_before == (match spec_count1_decode(
                        nodes,
                        s,
                        q3,
                        i + 4,
                        part3_end as int,
                    ) {
                        None => None::<(Seq<int>, int, int)>,
                        Some((rest2, pf, fi)) => Some((seq![s0, s1, s2, s3] + rest2, pf, fi)),
                    }));
                    match (
                        rem_before,
                        spec_count1_decode(nodes, s, q3, i + 4, part3_end as int),
                        spec_count1_decode(nodes, s, p0, start as int, part3_end as int),
                    ) {
                        (Some((rest, pfa, fia)), Some((rest2, pfb, fib)), Some(
                            (vals, pfc, fic),
                        )) => {
                            lemma_count1_decode_props(nodes, s, q3, i + 4, part3_end as int);
                            assert(rest == seq![s0, s1, s2, s3] + rest2);
                            assert(rest[0] == s0 && rest[1] == s1 && rest[2] == s2 && rest[3]
                                == s3);
                            assert(vals[(i - start) as int] == s0);
                            assert(vals[(i - start) + 1] == s1);
                            assert(vals[(i - start) + 2] == s2);
                            assert(vals[(i - start) + 3] == s3);
                            assert forall|k: int| 0 <= k < fia - (i + 4) implies (
                            #[trigger] rest2[k]) == vals[(i - start) + 4 + k] by {
                                assert(seq![s0, s1, s2, s3].len() == 4);
                                assert((seq![s0, s1, s2, s3] + rest2)[k + 4] == rest2[k]);
                                assert(rest[k + 4] == vals[(i - start) + (k + 4)]);
                            }
                        },
                        _ => {},
                    }
                },
                None => {
                    assert(false);
                },
            }
        }
        i = i + 4;
    }
    proof {
        // The loop guard failing is exactly the decode's base case.
        assert(spec_count1_decode(nodes, s, bs.spec_pos(), i as int, part3_end as int) == Some(
            (Seq::<int>::empty(), bs.spec_pos(), i as int),
        ));
    }
    Ok(i)
}

/// Decodes one big_values region through table slot `ts` into
/// `buf[start..end)`, exactly as [`spec_region_or_zero`] describes: a
/// region whose slot holds no codewords stays zero and consumes nothing.
#[verifier::loop_isolation(false)]
#[verifier::rlimit(100)]
#[verifier::spinoff_prover]
fn read_one_region(
    bs: &mut BitReader,
    tables: &HuffmanTables,
    ts: usize,
    part3_end: usize,
    buf: &mut Vec<i32>,
    start: usize,
    end: usize,
) -> (r: Result<(), Error>)
    requires
        old(bs).wf(),
        ts < 32,
        old(buf)@.len() == 576,
        start <= end <= 576,
        start % 2 == 0,
        end % 2 == 0,
        forall|k: int| 0 <= k < 576 ==> -8206 <= #[trigger] old(buf)@[k] <= 8206,
        forall|k: int| start <= k < 576 ==> old(buf)@[k] == 0,
    ensures
        final(bs).wf(),
        final(bs).data() == old(bs).data(),
        final(buf)@.len() == 576,
        forall|k: int| 0 <= k < start ==> final(buf)@[k] == old(buf)@[k],
        forall|k: int| end <= k < 576 ==> final(buf)@[k] == 0,
        forall|k: int| 0 <= k < 576 ==> -8206 <= #[trigger] final(buf)@[k] <= 8206,
        r is Ok ==> ({
            match spec_region_or_zero(
                tables.spec_big(ts as int),
                LINBITS[ts as int] as int,
                old(bs).data(),
                old(bs).spec_pos(),
                (end - start) as nat,
            ) {
                Some((v, pf)) => final(bs).spec_pos() == pf && v.len() == end - start && (forall|
                    j: int,
                |
                    start <= j < end ==> (#[trigger] final(buf)@[j]) as int == v[j - start]),
                None => false,
            }
        }),
        r matches Err(e) ==> (e == Error::InvalidHuffmanCode || e == Error::BitstreamExhausted),
{
    proof {
        use_type_invariant(&*tables);
        assert(forall|j: int| 0 <= j < 32 ==> #[trigger] LINBITS[j] <= 13);
    }
    let ghost s = old(bs).data();
    let ghost p = old(bs).spec_pos();
    let cb = &tables.big[ts];
    if cb.is_empty() {
        // The whole region is zero and no bits are consumed.
        proof {
            assert(spec_region_or_zero(
                tables.spec_big(ts as int),
                LINBITS[ts as int] as int,
                s,
                p,
                (end - start) as nat,
            ) == Some((Seq::new((end - start) as nat, |k: int| 0int), p)));
        }
        Ok(())
    } else {
        match read_big_values_region(bs, cb, LINBITS[ts], part3_end, buf, start, end) {
            Ok(()) => (),
            Err(e) => {
                return Err(e);
            },
        };
        proof {
            lemma_region_decode_props(
                cb.spec_nodes(),
                LINBITS[ts as int] as int,
                s,
                p,
                (end - start) as nat,
            );
            match spec_region_or_zero(
                tables.spec_big(ts as int),
                LINBITS[ts as int] as int,
                s,
                p,
                (end - start) as nat,
            ) {
                Some((v, pf)) => {
                    assert forall|j: int| start <= j < end implies (#[trigger] buf@[j]) as int
                        == v[j - start] by {
                        assert(buf@[start + (j - start)] as int == v[j - start]);
                    }
                },
                None => {
                    assert(false);
                },
            }
        }
        Ok(())
    }
}

/// Decodes the whole big_values partition into `buf[0 .. 2 * big_values)`,
/// region by region, exactly as [`spec_big_values_decode`] describes.
#[verifier::loop_isolation(false)]
#[verifier::rlimit(100)]
#[verifier::spinoff_prover]
fn read_big_values(
    bs: &mut BitReader,
    channel: &GranuleChannel,
    tables: &HuffmanTables,
    part3_end: usize,
    buf: &mut Vec<i32>,
) -> (r: Result<(), Error>)
    requires
        old(bs).wf(),
        channel.wf(),
        old(buf)@.len() == 576,
        forall|k: int| 0 <= k < 576 ==> old(buf)@[k] == 0,
    ensures
        final(bs).wf(),
        final(bs).data() == old(bs).data(),
        final(buf)@.len() == 576,
        forall|k: int| 2 * channel.big_values <= k < 576 ==> final(buf)@[k] == 0,
        forall|k: int| 0 <= k < 576 ==> -8206 <= #[trigger] final(buf)@[k] <= 8206,
        r is Ok ==> ({
            match spec_big_values_decode(*tables, *channel, old(bs).data(), old(bs).spec_pos()) {
                Some((vbig, p3)) => final(bs).spec_pos() == p3 && vbig.len() == 2
                    * channel.big_values && (forall|k: int|
                    0 <= k < 2 * channel.big_values ==> (#[trigger] final(buf)@[k]) as int
                        == vbig[k]),
                None => false,
            }
        }),
        r matches Err(e) ==> (e == Error::InvalidHuffmanCode || e == Error::BitstreamExhausted),
{
    let ghost s = old(bs).data();
    let ghost p0g = old(bs).spec_pos();
    let big_values_len = 2 * (channel.big_values as usize);

    // The sample index bounding each of the three regions, clamped to the
    // big_values partition.
    let e0 = if (channel.region1_start as usize) < big_values_len {
        channel.region1_start as usize
    } else {
        big_values_len
    };
    let e1 = if (channel.region2_start as usize) < big_values_len {
        channel.region2_start as usize
    } else {
        big_values_len
    };
    let e2 = big_values_len;

    let ts0 = channel.table_select[0] as usize;
    let ts1 = channel.table_select[1] as usize;
    let ts2 = channel.table_select[2] as usize;
    let ghost w0 = spec_region_or_zero(
        tables.spec_big(ts0 as int),
        LINBITS[ts0 as int] as int,
        s,
        p0g,
        e0 as nat,
    );
    match read_one_region(bs, tables, ts0, part3_end, buf, 0, e0) {
        Ok(()) => (),
        Err(e) => {
            return Err(e);
        },
    };
    let ghost pos1 = bs.spec_pos();
    proof {
        assert(w0 matches Some((v0, p1)) && p1 == pos1 && v0.len() == e0 && (forall|j: int|
            0 <= j < e0 ==> (#[trigger] buf@[j]) as int == v0[j]));
    }

    let ghost w1 = spec_region_or_zero(
        tables.spec_big(ts1 as int),
        LINBITS[ts1 as int] as int,
        s,
        pos1,
        (e1 - e0) as nat,
    );
    match read_one_region(bs, tables, ts1, part3_end, buf, e0, e1) {
        Ok(()) => (),
        Err(e) => {
            return Err(e);
        },
    };
    let ghost pos2 = bs.spec_pos();
    proof {
        assert(w1 matches Some((v1, p2)) && p2 == pos2 && v1.len() == e1 - e0 && (forall|j: int|
            e0 <= j < e1 ==> (#[trigger] buf@[j]) as int == v1[j - e0]));
        assert(w0 matches Some((v0, p1)) && (forall|j: int|
            0 <= j < e0 ==> (#[trigger] buf@[j]) as int == v0[j]));
    }

    let ghost w2 = spec_region_or_zero(
        tables.spec_big(ts2 as int),
        LINBITS[ts2 as int] as int,
        s,
        pos2,
        (e2 - e1) as nat,
    );
    match read_one_region(bs, tables, ts2, part3_end, buf, e1, e2) {
        Ok(()) => (),
        Err(e) => {
            return Err(e);
        },
    };
    let ghost pos3 = bs.spec_pos();
    proof {
        assert(w2 matches Some((v2, p3)) && p3 == pos3 && v2.len() == e2 - e1 && (forall|j: int|
            e1 <= j < e2 ==> (#[trigger] buf@[j]) as int == v2[j - e1]));
        assert(w0 matches Some((v0, p1)) && (forall|j: int|
            0 <= j < e0 ==> (#[trigger] buf@[j]) as int == v0[j]));
        assert(w1 matches Some((v1, p2)) && (forall|j: int|
            e0 <= j < e1 ==> (#[trigger] buf@[j]) as int == v1[j - e0]));
        reveal(spec_big_values_decode);
        match (w0, w1, w2) {
            (Some((v0, _)), Some((v1, _)), Some((v2, _))) => {
                let vbig = v0 + v1 + v2;
                assert(spec_big_values_decode(*tables, *channel, s, p0g) == Some((vbig, pos3)));
                assert(vbig.len() == e2);
                assert forall|j: int| 0 <= j < e2 implies (#[trigger] buf@[j]) as int
                    == vbig[j] by {
                    if j < e0 {
                        assert(vbig[j] == v0[j]);
                    } else if j < e1 {
                        assert(vbig[j] == v1[j - e0]);
                    } else {
                        assert(vbig[j] == v2[j - e1]);
                    }
                }
            },
            _ => {
                assert(false);
            },
        }
    }
    Ok(())
}

/// Reads the Huffman-coded spectral samples of one channel of one granule.
///
/// `part3_bits` is the bit budget of the Huffman partition
/// (`part2_3_length` minus the scale-factor bits). The result is the
/// 576-sample buffer of signed integer magnitudes and `rzero`, the start of
/// the all-zero tail:
///
/// - when `part3_bits` is zero the call always succeeds with an all-zero
///   buffer and `rzero == 0`, consuming nothing;
/// - otherwise, on success the samples, `rzero` and the reader's final
///   position are exactly what [`spec_huffman_decode`] yields: the
///   big_values regions decoded codeword by codeword (zero where a table
///   slot is empty), count1 quadruples of -1, 0 or 1, the zero tail, and
///   the stuffing or count1-overrun closing step;
/// - at least `part3_bits` bits are consumed on success, exactly that many
///   unless the count1 partition over-read the budget — then the last
///   quadruple is erased (not an error) and the caller must re-seat its
///   bitstream from the accumulated `part2_3_length` total;
/// - `rzero <= 576` is even, every sample at or past `rzero` is zero, and
///   every magnitude fits the requantizer's table
///   (`|sample| <= MAX_SAMPLE_MAGNITUDE`);
/// - an error is always `InvalidHuffmanCode` (a codeword that is truncated,
///   over budget or not in its table) or `BitstreamExhausted`.
#[verifier::rlimit(100)]
#[verifier::spinoff_prover]
pub fn l3_read_huffman_samples(
    bs: &mut BitReader,
    channel: &GranuleChannel,
    part3_bits: u32,
    tables: &HuffmanTables,
) -> (r: Result<(Vec<i32>, usize), Error>)
    requires
        old(bs).wf(),
        channel.wf(),
        part3_bits < 4096,
    ensures
        final(bs).wf(),
        final(bs).data() == old(bs).data(),
        part3_bits == 0 ==> (r matches Ok((buf, rz)) && rz == 0 && final(bs).spec_pos() == old(
            bs,
        ).spec_pos()),
        r matches Ok((buf, rz)) ==> {
            &&& buf@.len() == 576
            &&& rz <= 576
            &&& rz % 2 == 0
            &&& (forall|k: int| rz <= k < 576 ==> buf@[k] == 0)
            &&& (forall|k: int| 0 <= k < 576 ==> -8206 <= #[trigger] buf@[k] <= 8206)
        },
        r matches Ok((buf, rz)) ==> (part3_bits > 0 ==> ({
            match spec_huffman_decode(
                *tables,
                *channel,
                old(bs).data(),
                old(bs).spec_pos(),
                old(bs).spec_pos() + part3_bits,
            ) {
                Some((vals, rzf, pf)) => rz == rzf && final(bs).spec_pos() == pf && (forall|k: int|
                    0 <= k < 576 ==> (#[trigger] buf@[k]) as int == vals[k]),
                None => false,
            }
        })),
        r is Ok ==> final(bs).spec_pos() >= old(bs).spec_pos() + part3_bits,
        r matches Ok((buf, rz)) ==> (final(bs).spec_pos() == old(bs).spec_pos() + part3_bits
            ==> rz >= 2 * channel.big_values || part3_bits == 0),
        r matches Err(e) ==> (e == Error::InvalidHuffmanCode || e == Error::BitstreamExhausted),
{
    // Start from a cleared buffer: regions with no codes and the rzero
    // tail stay zero.
    let mut buf: Vec<i32> = Vec::new();
    let mut z: usize = 0;
    while z < 576
        invariant
            buf@.len() == z,
            z <= 576,
            forall|k: int| 0 <= k < z ==> buf@[k] == 0,
        decreases 576 - z,
    {
        buf.push(0);
        z = z + 1;
    }

    // If there are no Huffman code bits, all samples are zero.
    if part3_bits == 0 {
        return Ok((buf, 0));
    }

    let ghost s = old(bs).data();
    let pos0 = bs.pos();
    let ghost p0g = pos0 as int;
    let part3_end = pos0 + part3_bits as usize;
    let ghost p3e = part3_end as int;
    let e2 = 2 * (channel.big_values as usize);

    // The big_values partition: three regions of codeword pairs.
    let ghost wb = spec_big_values_decode(*tables, *channel, s, p0g);
    match read_big_values(bs, channel, tables, part3_end, &mut buf) {
        Ok(()) => (),
        Err(e) => {
            return Err(e);
        },
    };
    let ghost pos3 = bs.spec_pos();

    // The count1 partition: quadruples of one-bit samples until the bit
    // budget runs out.
    proof {
        use_type_invariant(&*tables);
    }
    let quad = if channel.count1table_select {
        &tables.quad_b
    } else {
        &tables.quad_a
    };
    let ghost wq = spec_count1_decode(
        tables.spec_quad(channel.count1table_select),
        s,
        pos3,
        e2 as int,
        p3e,
    );
    let mut rzero = match read_count1(bs, quad, part3_end, &mut buf, e2) {
        Ok(v) => v,
        Err(e) => {
            return Err(e);
        },
    };
    let ghost pos4 = bs.spec_pos();
    proof {
        lemma_count1_decode_props(
            tables.spec_quad(channel.count1table_select),
            s,
            pos3,
            e2 as int,
            p3e,
        );
        assert(wq matches Some((vc, p4, i4)) && p4 == pos4 && i4 == rzero && vc.len() == rzero
            - e2 && (forall|k: int|
            0 <= k < rzero - e2 ==> (#[trigger] buf@[e2 + k]) as int == vc[k]));
        assert(wb matches Some((vbig, p3)) && vbig.len() == e2 && (forall|k: int|
            0 <= k < e2 ==> (#[trigger] buf@[k]) as int == vbig[k]));
    }

    // The whole decode so far equals the mirror's raw result.
    let ghost raw = (match (wb, wq) {
        (Some((vbig, _)), Some((vc, _, i4))) => vbig + vc + Seq::new(
            (576 - i4) as nat,
            |k: int| 0int,
        ),
        _ => Seq::empty(),
    });
    proof {
        match (wb, wq) {
            (Some((vbig, _)), Some((vc, _, i4))) => {
                assert(raw.len() == 576);
                assert forall|k: int| 0 <= k < 576 implies (#[trigger] buf@[k]) as int
                    == raw[k] by {
                    if k < e2 {
                        assert(raw[k] == vbig[k]);
                    } else if k < rzero {
                        assert(raw[k] == vc[k - e2]);
                        assert(buf@[e2 + (k - e2)] as int == vc[k - e2]);
                    } else {
                        assert(raw[k] == 0int);
                    }
                }
            },
            _ => {
                assert(false);
            },
        }
    }

    let pos = bs.pos();
    if pos < part3_end {
        // Skip the remaining stuffing bits.
        match bs.ignore_bits((part3_end - pos) as u32) {
            Ok(()) => (),
            Err(e) => {
                return Err(e);
            },
        };
    } else if pos > part3_end {
        // The encoder mis-stuffed the final codeword and the count1 loop
        // read one quadruple too many: erase it. The caller re-seats its
        // bitstream from the part2_3_length totals.
        rzero = if rzero >= 4 {
            rzero - 4
        } else {
            0
        };
        buf.set(rzero, 0);
        buf.set(rzero + 1, 0);
        buf.set(rzero + 2, 0);
        buf.set(rzero + 3, 0);
    }

    proof {
        reveal(spec_huffman_decode);
        let full = spec_huffman_decode(*tables, *channel, s, p0g, p3e);
        match (wb, wq) {
            (Some((vbig, _)), Some((vc, p4, i4))) => {
                if pos4 > p3e {
                    let rz: int = if i4 >= 4 {
                        i4 - 4
                    } else {
                        0int
                    };
                    let updated = raw.update(rz, 0int).update(rz + 1, 0int).update(
                        rz + 2,
                        0int,
                    ).update(rz + 3, 0int);
                    assert(full == Some((updated, rz, p4)));
                    assert forall|k: int| 0 <= k < 576 implies (#[trigger] buf@[k]) as int
                        == updated[k] by {
                        if rz <= k < rz + 4 {
                            assert(buf@[k] == 0);
                        } else {
                            assert(updated[k] == raw[k]);
                        }
                    }
                } else {
                    assert(full == Some(
                        (
                            raw,
                            i4,
                            if pos4 < p3e {
                                p3e
                            } else {
                                pos4
                            },
                        ),
                    ));
                }
                assert(e2 % 2 == 0);
                assert(i4 % 2 == 0);
            },
            _ => {
                assert(false);
            },
        }
    }

    Ok((buf, rzero))
}

} // verus!
