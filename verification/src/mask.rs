//! Modifier masks: which keys are currently held.

use vstd::prelude::*;
use crate::keysym::Keysym;

verus! {

/// Whether bit `i` of `raw` is set. Bits are counted from the least
/// significant one; a `u32` has none at `i >= 32`.
pub open spec fn bit_is_set(raw: u32, i: nat) -> bool {
    i < 32 && (raw >> (i as u32)) & 1 == 1
}

/// The positions of the bits that are set in `raw`.
pub open spec fn bits(raw: u32) -> Set<nat> {
    Set::new(|i: nat| bit_is_set(raw, i))
}

/// A set of held keys, kept as the bitwise union of their codes.
///
/// Any key can be folded in, not only the traditional modifiers. Every `u32`
/// is a valid mask, and the mask holds nothing but its bits.
#[derive(Debug, Clone, Copy, PartialEq, Eq, Structural)]
pub struct ModMask(pub u32);

impl View for ModMask {
    type V = Set<nat>;

    /// The mask as the set of its bit positions.
    open spec fn view(&self) -> Set<nat> {
        bits(self.0)
    }
}

impl ModMask {
    /// The mask with no bit set.
    pub open spec fn spec_empty() -> ModMask {
        ModMask(0)
    }

    pub open spec fn spec_is_empty(&self) -> bool {
        self.0 == 0
    }

    pub open spec fn spec_union(self, key: Keysym) -> ModMask {
        ModMask(self.0 | key.0)
    }

    pub open spec fn spec_intersect(self, key: Keysym) -> ModMask {
        ModMask(self.0 & key.0)
    }

    pub open spec fn spec_intersect_mask(self, other: ModMask) -> ModMask {
        ModMask(self.0 & other.0)
    }

    pub open spec fn spec_complement(self) -> ModMask {
        ModMask(!self.0)
    }

    /// The mask with `key` taken out: the intersection with the key's
    /// complement.
    pub open spec fn spec_without(self, key: Keysym) -> ModMask {
        self.spec_intersect(key.spec_complement())
    }

    /// The mask in which no key is held.
    #[verifier::when_used_as_spec(spec_empty)]
    pub fn empty() -> (m: ModMask)
        ensures
            m == ModMask::spec_empty(),
    {
        ModMask(0)
    }

    /// Whether no key is held.
    #[verifier::when_used_as_spec(spec_is_empty)]
    pub fn is_empty(&self) -> (b: bool)
        ensures
            b == self.spec_is_empty(),
    {
        self.0 == 0
    }

    /// The mask with the bits of `key` added.
    #[verifier::when_used_as_spec(spec_union)]
    pub fn union(self, key: Keysym) -> (m: ModMask)
        ensures
            m == self.spec_union(key),
    {
        ModMask(self.0 | key.0)
    }

    /// The mask restricted to the bits of `key`.
    #[verifier::when_used_as_spec(spec_intersect)]
    pub fn intersect(self, key: Keysym) -> (m: ModMask)
        ensures
            m == self.spec_intersect(key),
    {
        ModMask(self.0 & key.0)
    }

    /// The bits that both masks have.
    #[verifier::when_used_as_spec(spec_intersect_mask)]
    pub fn intersect_mask(self, other: ModMask) -> (m: ModMask)
        ensures
            m == self.spec_intersect_mask(other),
    {
        ModMask(self.0 & other.0)
    }

    /// The mask with every bit flipped.
    #[verifier::when_used_as_spec(spec_complement)]
    pub fn complement(self) -> (m: ModMask)
        ensures
            m == self.spec_complement(),
    {
        ModMask(!self.0)
    }

    /// The mask with the bits of `key` cleared.
    #[verifier::when_used_as_spec(spec_without)]
    pub fn without(self, key: Keysym) -> (m: ModMask)
        ensures
            m == self.spec_without(key),
    {
        self.intersect(key.complement())
    }

    /// Adds the bits of `key` in place.
    pub fn union_assign(&mut self, key: Keysym)
        ensures
            *final(self) == old(self).spec_union(key),
    {
        *self = self.union(key);
    }

    /// Restricts the mask in place to the bits of `key`.
    pub fn intersect_assign(&mut self, key: Keysym)
        ensures
            *final(self) == old(self).spec_intersect(key),
    {
        *self = self.intersect(key);
    }
}

/// The `n` lowest bits of `raw`.
spec fn low_bits(raw: u32, n: u32) -> u32 {
    if n >= 32 {
        raw
    } else {
        raw & !(0xffff_ffffu32 << n)
    }
}

/// Two words that agree on each of their `n` lowest bits have the same `n`
/// lowest bits.
proof fn lemma_low_bits_agree(a: u32, b: u32, n: u32)
    requires
        n <= 32,
        forall|i: nat| i < n ==> bit_is_set(a, i) == bit_is_set(b, i),
    ensures
        low_bits(a, n) == low_bits(b, n),
    decreases n,
{
    if n == 0 {
        assert(a & !(0xffff_ffffu32 << 0u32) == b & !(0xffff_ffffu32 << 0u32)) by (bit_vector);
    } else {
        let m = (n - 1) as u32;
        lemma_low_bits_agree(a, b, m);
        assert(bit_is_set(a, m as nat) == bit_is_set(b, m as nat));
        if n == 32 {
            assert(a == b) by (bit_vector)
                requires
                    a & !(0xffff_ffffu32 << 31u32) == b & !(0xffff_ffffu32 << 31u32),
                    ((a >> 31u32) & 1 == 1) == ((b >> 31u32) & 1 == 1),
            ;
        } else {
            assert(a & !(0xffff_ffffu32 << n) == b & !(0xffff_ffffu32 << n)) by (bit_vector)
                requires
                    m < 31,
                    n == m + 1,
                    a & !(0xffff_ffffu32 << m) == b & !(0xffff_ffffu32 << m),
                    ((a >> m) & 1 == 1) == ((b >> m) & 1 == 1),
            ;
        }
    }
}

/// A mask is nothing but its bits: two masks with the same bits are the same
/// mask.
pub proof fn lemma_view_determines_mask(a: ModMask, b: ModMask)
    requires
        a@ == b@,
    ensures
        a == b,
{
    assert forall|i: nat| i < 32 implies bit_is_set(a.0, i) == bit_is_set(b.0, i) by {
        assert(bits(a.0).contains(i) == bits(b.0).contains(i));
    }
    lemma_low_bits_agree(a.0, b.0, 32);
}

/// The empty mask has no bit, and it is the only mask without one.
pub proof fn lemma_empty_is_unique(m: ModMask)
    ensures
        ModMask::empty()@ == Set::<nat>::empty(),
        m.is_empty() <==> m == ModMask::empty(),
        m.is_empty() <==> m@ == Set::<nat>::empty(),
{
    assert forall|i: nat| !bit_is_set(0u32, i) by {
        if i < 32 {
            let j = i as u32;
            assert((0u32 >> j) & 1 != 1) by (bit_vector);
        }
    }
    assert(ModMask::empty()@ == Set::<nat>::empty());
    if m@ == Set::<nat>::empty() {
        lemma_view_determines_mask(m, ModMask::empty());
    }
}

/// The bits of a union are those of the mask together with those of the key.
pub proof fn lemma_union_view(m: ModMask, key: Keysym)
    ensures
        m.union(key)@ == m@.union(bits(key.0)),
{
    let (a, b) = (m.0, key.0);
    assert forall|i: nat| bit_is_set(a | b, i) == (bit_is_set(a, i) || bit_is_set(b, i)) by {
        if i < 32 {
            let j = i as u32;
            assert((((a | b) >> j) & 1 == 1) == (((a >> j) & 1 == 1) || ((b >> j) & 1 == 1)))
                by (bit_vector);
        }
    }
    assert(m.union(key)@ =~= m@.union(bits(key.0)));
}

/// The bits of an intersection are those that the mask and the key share.
pub proof fn lemma_intersect_view(m: ModMask, key: Keysym)
    ensures
        m.intersect(key)@ == m@.intersect(bits(key.0)),
        m.intersect_mask(ModMask(key.0)) == m.intersect(key),
{
    let (a, b) = (m.0, key.0);
    assert forall|i: nat| bit_is_set(a & b, i) == (bit_is_set(a, i) && bit_is_set(b, i)) by {
        if i < 32 {
            let j = i as u32;
            assert((((a & b) >> j) & 1 == 1) == (((a >> j) & 1 == 1) && ((b >> j) & 1 == 1)))
                by (bit_vector);
        }
    }
    assert(m.intersect(key)@ =~= m@.intersect(bits(key.0)));
}

/// The bits of a complement are, of the 32 positions, those that the mask
/// lacks.
pub proof fn lemma_complement_view(m: ModMask)
    ensures
        forall|i: nat| m.complement()@.contains(i) <==> i < 32 && !m@.contains(i),
        m.complement().complement() == m,
{
    let a = m.0;
    assert forall|i: nat| bit_is_set(!a, i) == (i < 32 && !bit_is_set(a, i)) by {
        if i < 32 {
            let j = i as u32;
            assert((((!a) >> j) & 1 == 1) == !((a >> j) & 1 == 1)) by (bit_vector)
                requires
                    j < 32,
            ;
        }
    }
    assert(!!a == a) by (bit_vector);
}

/// Taking a key out of a mask removes the key's bits and no others.
pub proof fn lemma_without_view(m: ModMask, key: Keysym)
    ensures
        m.without(key)@ == m@.difference(bits(key.0)),
{
    let rest = ModMask(key.0).complement();
    lemma_intersect_view(m, key.complement());
    lemma_complement_view(ModMask(key.0));
    assert forall|i: nat| m.without(key)@.contains(i) == m@.difference(bits(key.0)).contains(
        i,
    ) by {
        assert(rest@.contains(i) <==> i < 32 && !ModMask(key.0)@.contains(i));
    }
    assert(m.without(key)@ =~= m@.difference(bits(key.0)));
}

/// Keys can be added to a mask in any order, and adding one twice is adding it
/// once.
pub proof fn lemma_union_commutes(m: ModMask, a: Keysym, b: Keysym)
    ensures
        m.union(a).union(b) == m.union(b).union(a),
        m.union(a).union(a) == m.union(a),
        ModMask::empty().union(a).union(b) == ModMask::empty().union(b).union(a),
{
    let (x, p, q) = (m.0, a.0, b.0);
    assert((x | p) | q == (x | q) | p) by (bit_vector);
    assert((x | p) | p == x | p) by (bit_vector);
    assert((0u32 | p) | q == (0u32 | q) | p) by (bit_vector);
}

/// Adding keys one after the other is adding their combined bits at once.
pub proof fn lemma_union_associates(m: ModMask, a: Keysym, b: Keysym)
    ensures
        m.union(a).union(b) == m.union(Keysym(a.0 | b.0)),
        m.union(a).union(b)@ == m@.union(bits(a.0).union(bits(b.0))),
{
    let (x, p, q) = (m.0, a.0, b.0);
    assert((x | p) | q == x | (p | q)) by (bit_vector);
    lemma_union_view(m, a);
    lemma_union_view(m.union(a), b);
    assert(m@.union(bits(a.0)).union(bits(b.0)) =~= m@.union(bits(a.0).union(bits(b.0))));
}

/// Intersection of masks is commutative, associative and idempotent.
pub proof fn lemma_intersect_mask_laws(a: ModMask, b: ModMask, c: ModMask)
    ensures
        a.intersect_mask(b) == b.intersect_mask(a),
        a.intersect_mask(b).intersect_mask(c) == a.intersect_mask(b.intersect_mask(c)),
        a.intersect_mask(a) == a,
{
    let (x, y, z) = (a.0, b.0, c.0);
    assert(x & y == y & x) by (bit_vector);
    assert((x & y) & z == x & (y & z)) by (bit_vector);
    assert(x & x == x) by (bit_vector);
}

/// Restricting a mask to keys can be done in any order.
pub proof fn lemma_intersect_commutes(m: ModMask, a: Keysym, b: Keysym)
    ensures
        m.intersect(a).intersect(b) == m.intersect(b).intersect(a),
        m.intersect(a).intersect(b) == m.intersect(Keysym(a.0 & b.0)),
{
    let (x, p, q) = (m.0, a.0, b.0);
    assert((x & p) & q == (x & q) & p) by (bit_vector);
    assert((x & p) & q == x & (p & q)) by (bit_vector);
}

/// Adding a key and taking it out again clears the key's bits; the mask comes
/// back as it was exactly when it shared no bit with the key.
pub proof fn lemma_union_then_without(m: ModMask, key: Keysym)
    ensures
        m.union(key).without(key) == m.without(key),
        m.union(key).without(key) == m <==> m.intersect(key).is_empty(),
        m.without(key).intersect(key).is_empty(),
{
    let (x, p) = (m.0, key.0);
    assert((x | p) & !p == x & !p) by (bit_vector);
    assert((x & !p == x) == (x & p == 0)) by (bit_vector);
    assert((x & !p) & p == 0) by (bit_vector);
}

/// A hotkey's modifier mask absorbs a key exactly when it holds every bit of
/// the key.
pub proof fn lemma_absorbs_is_subset(m: ModMask, key: Keysym)
    ensures
        m.union(key) == m <==> bits(key.0).subset_of(m@),
{
    lemma_union_view(m, key);
    if bits(key.0).subset_of(m@) {
        assert(m@.union(bits(key.0)) =~= m@);
        lemma_view_determines_mask(m.union(key), m);
    }
    if m.union(key) == m {
        assert(m@.union(bits(key.0)) == m@);
        assert forall|i: nat| bits(key.0).contains(i) implies m@.contains(i) by {
            assert(m@.union(bits(key.0)).contains(i));
        }
    }
}

impl Default for ModMask {
    fn default() -> (m: ModMask)
        ensures
            m == ModMask::spec_empty(),
    {
        ModMask(0)
    }
}

} // verus!
