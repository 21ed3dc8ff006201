//! Elements of the BLS12-381 scalar field, held in their canonical
//! little-endian encoding.
use dusk_plonk::prelude::BlsScalar;
use vstd::prelude::*;

verus! {

/// Size in bytes of the canonical encoding of a scalar.
pub const SCALAR_BYTES: usize = 32;

/// The order of the BLS12-381 scalar field.
pub open spec fn modulus() -> nat {
    0x73eda753299d7d483339d80809a1d805 * 0x1_0000_0000_0000_0000 * 0x1_0000_0000_0000_0000
        + 0x53bda402fffe5bfeffffffff00000001
}

/// The integer that a little-endian byte sequence encodes.
pub open spec fn le_value(b: Seq<u8>) -> nat
    decreases b.len(),
{
    if b.len() == 0 {
        0
    } else {
        b[0] as nat + 256 * le_value(b.drop_first())
    }
}

/// Field addition on values.
pub open spec fn fadd(a: nat, b: nat) -> nat {
    (a + b) % modulus()
}

/// Field subtraction on values.
pub open spec fn fsub(a: nat, b: nat) -> nat {
    ((a - b) % (modulus() as int)) as nat
}

/// A field element, held as its 32-byte little-endian encoding. It is
/// well-formed when that encoding is canonical, i.e. below the modulus.
#[derive(Clone, Copy, Debug)]
pub struct Scalar {
    pub bytes: [u8; 32],
}

impl Scalar {
    /// The field element that this scalar stands for.
    pub open spec fn value(&self) -> nat {
        le_value(self.bytes@)
    }

    /// The encoding is canonical.
    pub open spec fn wf(&self) -> bool {
        self.value() < modulus()
    }
}

/// Two byte sequences of one length that encode the same integer are equal.
pub proof fn lemma_le_value_injective(a: Seq<u8>, b: Seq<u8>)
    requires
        a.len() == b.len(),
        le_value(a) == le_value(b),
    ensures
        a == b,
    decreases a.len(),
{
    if a.len() > 0 {
        let x = a[0] as int;
        let y = b[0] as int;
        let va = le_value(a.drop_first()) as int;
        let vb = le_value(b.drop_first()) as int;
        assert(x == y && va == vb) by (nonlinear_arith)
            requires
                0 <= x < 256,
                0 <= y < 256,
                0 <= va,
                0 <= vb,
                x + 256 * va == y + 256 * vb,
        ;
        lemma_le_value_injective(a.drop_first(), b.drop_first());
        assert(a =~= seq![a[0]] + a.drop_first());
        assert(b =~= seq![b[0]] + b.drop_first());
    } else {
        assert(a =~= b);
    }
}

/// A sequence of zero bytes encodes zero.
pub proof fn lemma_le_value_zeros(b: Seq<u8>)
    requires
        forall|i: int| 0 <= i < b.len() ==> b[i] == 0,
    ensures
        le_value(b) == 0,
    decreases b.len(),
{
    if b.len() > 0 {
        lemma_le_value_zeros(b.drop_first());
    }
}

/// Subtracting what was added gives back a canonical value.
pub proof fn lemma_sub_add_cancel(k: nat, w: nat)
    requires
        w < modulus(),
    ensures
        fsub(fadd(k, w), k) == w,
{
    let p = modulus() as int;
    let x = (k + w) as int;
    let q = x / p;
    vstd::arithmetic::div_mod::lemma_fundamental_div_mod(x, p);
    assert(fadd(k, w) == x % p);
    assert(x % p - k == p * (-q) + w) by (nonlinear_arith)
        requires
            x == p * q + x % p,
            x == k + w,
    ;
    vstd::arithmetic::div_mod::lemma_mod_multiples_vanish(-q, w as int, p);
    vstd::arithmetic::div_mod::lemma_small_mod(w, p as nat);
}

/// Relies on `BlsScalar::from_bytes`: it accepts exactly the encodings whose
/// little-endian value is below the modulus.
#[verifier::external_body]
fn is_canonical(b: &[u8; 32]) -> (r: bool)
    ensures
        r == (le_value(b@) < modulus()),
{
    bool::from(BlsScalar::from_bytes(b).is_some())
}

impl Scalar {
    /// The additive identity.
    pub fn zero() -> (r: Scalar)
        ensures
            r.wf(),
            r.value() == 0,
    {
        let r = Scalar { bytes: [0u8; 32] };
        proof {
            lemma_le_value_zeros(r.bytes@);
        }
        r
    }

    /// Reads a scalar from its 32-byte little-endian encoding; `None` when
    /// the encoding is not canonical.
    pub fn from_bytes(b: &[u8; 32]) -> (r: Option<Scalar>)
        ensures
            r is Some <==> le_value(b@) < modulus(),
            r matches Some(s) ==> s.bytes == *b && s.wf(),
    {
        if is_canonical(b) {
            Some(Scalar { bytes: *b })
        } else {
            None
        }
    }

    /// The canonical 32-byte little-endian encoding.
    pub fn to_bytes(&self) -> (r: [u8; 32])
        ensures
            r == self.bytes,
    {
        self.bytes
    }
}


/// Relies on `BlsScalar::from(u64)`: the field element equal to the integer.
/// `to_bytes` gives its canonical encoding back.
#[verifier::external_body]
fn scalar_from_u64(n: u64) -> (r: Scalar)
    ensures
        r.value() == n as nat,
{
    Scalar { bytes: BlsScalar::from(n).to_bytes() }
}

/// Relies on `BlsScalar`'s `+`: the sum modulo the field order. The operands
/// are read with `from_bytes` and the sum written back with `to_bytes`.
#[verifier::external_body]
fn field_add(a: &Scalar, b: &Scalar) -> (r: Scalar)
    requires
        a.wf(),
        b.wf(),
    ensures
        r.value() == fadd(a.value(), b.value()),
{
    let x = BlsScalar::from_bytes(&a.bytes).unwrap();
    let y = BlsScalar::from_bytes(&b.bytes).unwrap();
    Scalar { bytes: (x + y).to_bytes() }
}

/// Relies on `BlsScalar`'s `-`: the difference modulo the field order. The
/// operands are read with `from_bytes` and the result written back with
/// `to_bytes`.
#[verifier::external_body]
fn field_sub(a: &Scalar, b: &Scalar) -> (r: Scalar)
    requires
        a.wf(),
        b.wf(),
    ensures
        r.value() == fsub(a.value(), b.value()),
{
    let x = BlsScalar::from_bytes(&a.bytes).unwrap();
    let y = BlsScalar::from_bytes(&b.bytes).unwrap();
    Scalar { bytes: (x - y).to_bytes() }
}

impl Scalar {
    /// The field element equal to `n`.
    pub fn from_u64(n: u64) -> (r: Scalar)
        ensures
            r.wf(),
            r.value() == n as nat,
    {
        scalar_from_u64(n)
    }

    /// Field addition.
    pub fn add(&self, o: &Scalar) -> (r: Scalar)
        requires
            self.wf(),
            o.wf(),
        ensures
            r.wf(),
            r.value() == fadd(self.value(), o.value()),
    {
        field_add(self, o)
    }

    /// Field subtraction.
    pub fn sub(&self, o: &Scalar) -> (r: Scalar)
        requires
            self.wf(),
            o.wf(),
        ensures
            r.wf(),
            r.value() == fsub(self.value(), o.value()),
    {
        field_sub(self, o)
    }
}

impl PartialEq for Scalar {
    fn eq(&self, o: &Scalar) -> (r: bool) {
        let mut i: usize = 0;
        while i < SCALAR_BYTES
            invariant
                i <= SCALAR_BYTES,
                forall|j: int| 0 <= j < i ==> self.bytes@[j] == o.bytes@[j],
            decreases SCALAR_BYTES - i,
        {
            if self.bytes[i] != o.bytes[i] {
                return false;
            }
            i = i + 1;
        }
        assert(self.bytes@ =~= o.bytes@);
        true
    }
}

impl vstd::std_specs::cmp::PartialEqSpecImpl for Scalar {
    open spec fn obeys_eq_spec() -> bool {
        true
    }

    open spec fn eq_spec(&self, o: &Scalar) -> bool {
        self.bytes@ == o.bytes@
    }
}

impl Eq for Scalar {
}

} // verus!
