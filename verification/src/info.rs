//! Scalar constants and structural type fingerprints.

use vstd::prelude::*;

use core::cmp::Ordering;

use crate::hash::fnv1a_bytes;
use crate::hash::fnv1a_str;
use crate::hash::hash_bytes;
use crate::hash::hash_str;

verus! {

/// A scalar value standing for one const-style generic parameter.
///
/// The declared variant order is significant: two values of different
/// variants order by this declaration order, never by any numeric rule.
#[derive(Debug, Clone, Copy, PartialEq, Eq, PartialOrd, Ord, Hash)]
pub enum ConstGeneric {
    Bool(bool),
    Char(char),
    U8(u8),
    U16(u16),
    U32(u32),
    U64(u64),
    U128(u128),
    USize(usize),
    I8(i8),
    I16(i16),
    I32(i32),
    I64(i64),
    I128(i128),
    ISize(isize),
}

/// Position of a scalar's variant in the declared order.
pub open spec fn variant_rank(c: ConstGeneric) -> int {
    match c {
        ConstGeneric::Bool(_) => 0,
        ConstGeneric::Char(_) => 1,
        ConstGeneric::U8(_) => 2,
        ConstGeneric::U16(_) => 3,
        ConstGeneric::U32(_) => 4,
        ConstGeneric::U64(_) => 5,
        ConstGeneric::U128(_) => 6,
        ConstGeneric::USize(_) => 7,
        ConstGeneric::I8(_) => 8,
        ConstGeneric::I16(_) => 9,
        ConstGeneric::I32(_) => 10,
        ConstGeneric::I64(_) => 11,
        ConstGeneric::I128(_) => 12,
        ConstGeneric::ISize(_) => 13,
    }
}

/// The wrapped value as an unbounded integer: `false` before `true`, a
/// character by its code point, an integer by its value.
pub open spec fn wrapped_value(c: ConstGeneric) -> int {
    match c {
        ConstGeneric::Bool(v) => if v {
            1
        } else {
            0
        },
        ConstGeneric::Char(v) => v as int,
        ConstGeneric::U8(v) => v as int,
        ConstGeneric::U16(v) => v as int,
        ConstGeneric::U32(v) => v as int,
        ConstGeneric::U64(v) => v as int,
        ConstGeneric::U128(v) => v as int,
        ConstGeneric::USize(v) => v as int,
        ConstGeneric::I8(v) => v as int,
        ConstGeneric::I16(v) => v as int,
        ConstGeneric::I32(v) => v as int,
        ConstGeneric::I64(v) => v as int,
        ConstGeneric::I128(v) => v as int,
        ConstGeneric::ISize(v) => v as int,
    }
}

/// Three-way comparison of two unbounded integers.
pub open spec fn ord_of(a: int, b: int) -> Ordering {
    if a < b {
        Ordering::Less
    } else if a == b {
        Ordering::Equal
    } else {
        Ordering::Greater
    }
}

/// Scalar equality: the same variant wrapping equal values; any cross-variant
/// pair is unequal, with no numeric coercion.
pub open spec fn const_generic_eq(a: ConstGeneric, b: ConstGeneric) -> bool {
    variant_rank(a) == variant_rank(b) && wrapped_value(a) == wrapped_value(b)
}

/// Scalar ordering: equal variants compare their wrapped values; different
/// variants resolve by the declared variant order, whatever they wrap.
pub open spec fn const_generic_cmp(a: ConstGeneric, b: ConstGeneric) -> Ordering {
    if variant_rank(a) == variant_rank(b) {
        ord_of(wrapped_value(a), wrapped_value(b))
    } else {
        ord_of(variant_rank(a), variant_rank(b))
    }
}

/// Scalars of two different variants order by the declared variant order
/// alone, whatever values they wrap, and are never equal.
pub proof fn lemma_cross_variant_order(a: ConstGeneric, b: ConstGeneric)
    requires
        variant_rank(a) != variant_rank(b),
    ensures
        const_generic_cmp(a, b) == ord_of(variant_rank(a), variant_rank(b)),
        !const_generic_eq(a, b),
        (const_generic_cmp(a, b) == Ordering::Less) == (variant_rank(a) < variant_rank(b)),
        (const_generic_cmp(a, b) == Ordering::Greater) == (variant_rank(a) > variant_rank(b)),
{
}

/// Three-way comparison of two unsigned values.
fn cmp_unsigned(a: u128, b: u128) -> (r: Ordering)
    ensures
        r == ord_of(a as int, b as int),
{
    if a < b {
        Ordering::Less
    } else if a == b {
        Ordering::Equal
    } else {
        Ordering::Greater
    }
}

/// Three-way comparison of two signed values.
fn cmp_signed(a: i128, b: i128) -> (r: Ordering)
    ensures
        r == ord_of(a as int, b as int),
{
    if a < b {
        Ordering::Less
    } else if a == b {
        Ordering::Equal
    } else {
        Ordering::Greater
    }
}

impl ConstGeneric {
    /// Position of this scalar's variant in the declared order.
    fn variant_order(&self) -> (r: u32)
        ensures
            r as int == variant_rank(*self),
    {
        match self {
            ConstGeneric::Bool(_) => 0,
            ConstGeneric::Char(_) => 1,
            ConstGeneric::U8(_) => 2,
            ConstGeneric::U16(_) => 3,
            ConstGeneric::U32(_) => 4,
            ConstGeneric::U64(_) => 5,
            ConstGeneric::U128(_) => 6,
            ConstGeneric::USize(_) => 7,
            ConstGeneric::I8(_) => 8,
            ConstGeneric::I16(_) => 9,
            ConstGeneric::I32(_) => 10,
            ConstGeneric::I64(_) => 11,
            ConstGeneric::I128(_) => 12,
            ConstGeneric::ISize(_) => 13,
        }
    }

    /// Returns whether `self` and `other` are the same variant wrapping equal
    /// values; any cross-variant pair is unequal.
    pub fn const_eq(&self, other: &Self) -> (r: bool)
        ensures
            r == const_generic_eq(*self, *other),
    {
        match (self, other) {
            (Self::Bool(lhs), Self::Bool(rhs)) => *lhs == *rhs,
            (Self::Char(lhs), Self::Char(rhs)) => *lhs as u32 == *rhs as u32,
            (Self::U8(lhs), Self::U8(rhs)) => *lhs == *rhs,
            (Self::U16(lhs), Self::U16(rhs)) => *lhs == *rhs,
            (Self::U32(lhs), Self::U32(rhs)) => *lhs == *rhs,
            (Self::U64(lhs), Self::U64(rhs)) => *lhs == *rhs,
            (Self::U128(lhs), Self::U128(rhs)) => *lhs == *rhs,
            (Self::USize(lhs), Self::USize(rhs)) => *lhs == *rhs,
            (Self::I8(lhs), Self::I8(rhs)) => *lhs == *rhs,
            (Self::I16(lhs), Self::I16(rhs)) => *lhs == *rhs,
            (Self::I32(lhs), Self::I32(rhs)) => *lhs == *rhs,
            (Self::I64(lhs), Self::I64(rhs)) => *lhs == *rhs,
            (Self::I128(lhs), Self::I128(rhs)) => *lhs == *rhs,
            (Self::ISize(lhs), Self::ISize(rhs)) => *lhs == *rhs,
            _ => false,
        }
    }

    /// Returns the ordering between `self` and `other`: equal variants
    /// compare their values, different variants follow the declared order.
    pub fn const_cmp(&self, other: &Self) -> (r: Ordering)
        ensures
            r == const_generic_cmp(*self, *other),
    {
        match (self, other) {
            (Self::Bool(lhs), Self::Bool(rhs)) => cmp_unsigned(
                if *lhs {
                    1
                } else {
                    0
                },
                if *rhs {
                    1
                } else {
                    0
                },
            ),
            (Self::Char(lhs), Self::Char(rhs)) => cmp_unsigned(
                (*lhs as u32) as u128,
                (*rhs as u32) as u128,
            ),
            (Self::U8(lhs), Self::U8(rhs)) => cmp_unsigned(*lhs as u128, *rhs as u128),
            (Self::U16(lhs), Self::U16(rhs)) => cmp_unsigned(*lhs as u128, *rhs as u128),
            (Self::U32(lhs), Self::U32(rhs)) => cmp_unsigned(*lhs as u128, *rhs as u128),
            (Self::U64(lhs), Self::U64(rhs)) => cmp_unsigned(*lhs as u128, *rhs as u128),
            (Self::U128(lhs), Self::U128(rhs)) => cmp_unsigned(*lhs, *rhs),
            (Self::USize(lhs), Self::USize(rhs)) => cmp_unsigned(*lhs as u128, *rhs as u128),
            (Self::I8(lhs), Self::I8(rhs)) => cmp_signed(*lhs as i128, *rhs as i128),
            (Self::I16(lhs), Self::I16(rhs)) => cmp_signed(*lhs as i128, *rhs as i128),
            (Self::I32(lhs), Self::I32(rhs)) => cmp_signed(*lhs as i128, *rhs as i128),
            (Self::I64(lhs), Self::I64(rhs)) => cmp_signed(*lhs as i128, *rhs as i128),
            (Self::I128(lhs), Self::I128(rhs)) => cmp_signed(*lhs, *rhs),
            (Self::ISize(lhs), Self::ISize(rhs)) => cmp_signed(*lhs as i128, *rhs as i128),
            _ => {
                let ra = self.variant_order();
                let rb = other.variant_order();
                if ra < rb {
                    Ordering::Less
                } else {
                    Ordering::Greater
                }
            },
        }
    }
}

/// Little-endian encoding of a non-negative value into `n` bytes.
pub open spec fn le_bytes(v: int, n: nat) -> Seq<u8>
    decreases n,
{
    if n == 0 {
        Seq::empty()
    } else {
        seq![(v % 256) as u8] + le_bytes(v / 256, (n - 1) as nat)
    }
}

/// Appends the `n`-byte little-endian encoding of `v` to `out`.
fn push_le_bytes(out: &mut Vec<u8>, v: u128, n: usize)
    ensures
        final(out)@ == old(out)@ + le_bytes(v as int, n as nat),
{
    let mut x = v;
    let mut k = n;
    while k > 0
        invariant
            out@ + le_bytes(x as int, k as nat) == old(out)@ + le_bytes(v as int, n as nat),
        decreases k,
    {
        let ghost x0: int = x as int;
        let ghost k0: nat = k as nat;
        let ghost sofar: Seq<u8> = out@;
        let b: u8 = (x % 256) as u8;
        out.push(b);
        x = x / 256;
        k = k - 1;
        proof {
            assert(le_bytes(x0, k0) == seq![(x0 % 256) as u8] + le_bytes(x0 / 256, (k0 - 1) as nat));
            assert(x as int == x0 / 256);
            assert(out@ + le_bytes(x as int, k as nat) =~= sofar + le_bytes(x0, k0));
        }
    }
    proof {
        assert(out@ + le_bytes(x as int, 0) =~= out@);
    }
}

/// Big-endian encoding of a 32-bit value into four bytes.
pub open spec fn be_bytes_u32(v: u32) -> Seq<u8> {
    seq![(v >> 24) as u8, (v >> 16) as u8, (v >> 8) as u8, v as u8]
}

/// The four big-endian bytes of `v`.
fn be_bytes_u32_exec(v: u32) -> (r: Vec<u8>)
    ensures
        r@ == be_bytes_u32(v),
{
    let mut out: Vec<u8> = Vec::new();
    out.push(#[verifier::truncate] ((v >> 24) as u8));
    out.push(#[verifier::truncate] ((v >> 16) as u8));
    out.push(#[verifier::truncate] ((v >> 8) as u8));
    out.push(#[verifier::truncate] (v as u8));
    proof {
        assert(out@ =~= be_bytes_u32(v));
    }
    out
}

/// The byte encoding hashed for one scalar parameter: bool and char as a
/// single byte, integers as their natural width in little-endian order,
/// signed values by their two's-complement bits, pointer-sized values as
/// eight bytes.
pub open spec fn const_generic_bytes(c: ConstGeneric) -> Seq<u8> {
    match c {
        ConstGeneric::Bool(v) => le_bytes(
            if v {
                1
            } else {
                0
            },
            1,
        ),
        ConstGeneric::Char(v) => le_bytes((v as u32) as int, 1),
        ConstGeneric::U8(v) => le_bytes(v as int, 1),
        ConstGeneric::U16(v) => le_bytes(v as int, 2),
        ConstGeneric::U32(v) => le_bytes(v as int, 4),
        ConstGeneric::U64(v) => le_bytes(v as int, 8),
        ConstGeneric::U128(v) => le_bytes(v as int, 16),
        ConstGeneric::USize(v) => le_bytes(v as int, 8),
        ConstGeneric::I8(v) => le_bytes((v as u8) as int, 1),
        ConstGeneric::I16(v) => le_bytes((v as u16) as int, 2),
        ConstGeneric::I32(v) => le_bytes((v as u32) as int, 4),
        ConstGeneric::I64(v) => le_bytes((v as u64) as int, 8),
        ConstGeneric::I128(v) => le_bytes((v as u128) as int, 16),
        ConstGeneric::ISize(v) => le_bytes(((v as i64) as u64) as int, 8),
    }
}

/// The byte encoding of one scalar parameter.
fn const_generic_le_bytes(c: &ConstGeneric) -> (r: Vec<u8>)
    ensures
        r@ == const_generic_bytes(*c),
{
    let mut out: Vec<u8> = Vec::new();
    match c {
        ConstGeneric::Bool(v) => push_le_bytes(
            &mut out,
            if *v {
                1
            } else {
                0
            },
            1,
        ),
        ConstGeneric::Char(v) => push_le_bytes(&mut out, (*v as u32) as u128, 1),
        ConstGeneric::U8(v) => push_le_bytes(&mut out, *v as u128, 1),
        ConstGeneric::U16(v) => push_le_bytes(&mut out, *v as u128, 2),
        ConstGeneric::U32(v) => push_le_bytes(&mut out, *v as u128, 4),
        ConstGeneric::U64(v) => push_le_bytes(&mut out, *v as u128, 8),
        ConstGeneric::U128(v) => push_le_bytes(&mut out, *v, 16),
        ConstGeneric::USize(v) => push_le_bytes(&mut out, (*v as u64) as u128, 8),
        ConstGeneric::I8(v) => push_le_bytes(
            &mut out,
            (#[verifier::truncate] (*v as u8)) as u128,
            1,
        ),
        ConstGeneric::I16(v) => push_le_bytes(
            &mut out,
            (#[verifier::truncate] (*v as u16)) as u128,
            2,
        ),
        ConstGeneric::I32(v) => push_le_bytes(
            &mut out,
            (#[verifier::truncate] (*v as u32)) as u128,
            4,
        ),
        ConstGeneric::I64(v) => push_le_bytes(
            &mut out,
            (#[verifier::truncate] (*v as u64)) as u128,
            8,
        ),
        ConstGeneric::I128(v) => push_le_bytes(&mut out, #[verifier::truncate] (*v as u128), 16),
        ConstGeneric::ISize(v) => push_le_bytes(
            &mut out,
            (#[verifier::truncate] ((*v as i64) as u64)) as u128,
            8,
        ),
    }
    proof {
        assert(out@ =~= const_generic_bytes(*c));
    }
    out
}

/// XOR of every value in the sequence.
pub open spec fn xor_all(s: Seq<u64>) -> u64
    decreases s.len(),
{
    if s.len() == 0 {
        0
    } else {
        xor_all(s.drop_last()) ^ s.last()
    }
}

/// XOR is associative.
proof fn lemma_xor_assoc(a: u64, b: u64, c: u64)
    ensures
        (a ^ b) ^ c == a ^ (b ^ c),
{
    assert((a ^ b) ^ c == a ^ (b ^ c)) by (bit_vector);
}

/// XOR by zero changes nothing.
proof fn lemma_xor_zero(a: u64)
    ensures
        a ^ 0u64 == a,
{
    assert(a ^ 0u64 == a) by (bit_vector);
}

/// A structural fingerprint of one concrete type instantiation: its source
/// coordinates, declared name, the fingerprints of its type parameters and
/// the scalar values of its const parameters, in declaration order.
///
/// The `hash` field is a cache computed once at construction; it always
/// equals the recomputation from the other fields and never decides equality
/// on its own.
#[derive(Debug, PartialEq, Eq, PartialOrd, Ord, Hash)]
pub struct TypeInfo {
    pub file: String,
    pub line: u32,
    pub column: u32,
    pub name: String,
    pub type_generics: Vec<TypeInfo>,
    pub const_generics: Vec<ConstGeneric>,
    /// The cached combining hash. [`TypeInfo::new`] computes it from the
    /// other fields; a value built by hand bypasses that guarantee.
    pub hash: u64,
}

impl TypeInfo {
    /// The memoized combining hash.
    pub open spec fn spec_hash(self) -> u64 {
        self.hash
    }
}

/// Memoized hashes of a list of nested fingerprints, in order.
pub open spec fn nested_hashes(s: Seq<TypeInfo>) -> Seq<u64> {
    s.map_values(|t: TypeInfo| t.spec_hash())
}

/// Hashes of the byte encodings of a list of scalar parameters, in order.
pub open spec fn scalar_hashes(s: Seq<ConstGeneric>) -> Seq<u64> {
    s.map_values(|c: ConstGeneric| fnv1a_bytes(const_generic_bytes(c)))
}

/// The combining hash of a fingerprint: the hash of the file, of the
/// big-endian line and column bytes, and of the name, XORed with every
/// nested fingerprint's memoized hash and every encoded scalar's hash.
pub open spec fn hash_spec(
    file: Seq<char>,
    line: u32,
    column: u32,
    name: Seq<char>,
    tg: Seq<TypeInfo>,
    cg: Seq<ConstGeneric>,
) -> u64 {
    fnv1a_str(file) ^ fnv1a_bytes(be_bytes_u32(line)) ^ fnv1a_bytes(be_bytes_u32(column))
        ^ fnv1a_str(name) ^ xor_all(nested_hashes(tg)) ^ xor_all(scalar_hashes(cg))
}

/// The cached hash agrees with its recomputation from the other fields.
pub open spec fn hash_consistent(t: TypeInfo) -> bool {
    t.spec_hash() == hash_spec(t.file@, t.line, t.column, t.name@, t.type_generics@, t.const_generics@)
}

/// The two fingerprints declare the same arity at every level. Comparing
/// fingerprints of different declared arity is a caller error, not a handled
/// case.
pub open spec fn compatible(a: TypeInfo, b: TypeInfo) -> bool
    decreases a,
{
    &&& a.type_generics@.len() == b.type_generics@.len()
    &&& a.const_generics@.len() == b.const_generics@.len()
    &&& forall|i: int|
        0 <= i < a.type_generics@.len() ==> compatible(
            #[trigger] a.type_generics@[i],
            b.type_generics@[i],
        )
}

/// Structural fingerprint equality: memoized hashes, source coordinates,
/// file, name, and every nested fingerprint and scalar parameter pairwise.
/// All must agree; hash equality alone is never sufficient.
pub open spec fn eq_spec(a: TypeInfo, b: TypeInfo) -> bool
    decreases a,
{
    &&& a.spec_hash() == b.spec_hash()
    &&& a.line == b.line
    &&& a.column == b.column
    &&& a.file@ == b.file@
    &&& a.name@ == b.name@
    &&& forall|i: int|
        0 <= i < a.type_generics@.len() ==> eq_spec(
            #[trigger] a.type_generics@[i],
            b.type_generics@[i],
        )
    &&& forall|i: int|
        0 <= i < a.const_generics@.len() ==> const_generic_eq(
            #[trigger] a.const_generics@[i],
            b.const_generics@[i],
        )
}

/// Lexicographic comparison of two character sequences by code point; a
/// strict prefix is the smaller sequence.
pub open spec fn cmp_chars(a: Seq<char>, b: Seq<char>) -> Ordering
    decreases a.len(),
{
    if a.len() == 0 && b.len() == 0 {
        Ordering::Equal
    } else if a.len() == 0 {
        Ordering::Less
    } else if b.len() == 0 {
        Ordering::Greater
    } else if (a[0] as u32) < (b[0] as u32) {
        Ordering::Less
    } else if (a[0] as u32) > (b[0] as u32) {
        Ordering::Greater
    } else {
        cmp_chars(a.drop_first(), b.drop_first())
    }
}

/// Pairwise three-way comparison of two equally long lists of nested
/// fingerprints; the first difference decides.
pub open spec fn cmp_tg(a: Seq<TypeInfo>, b: Seq<TypeInfo>) -> Ordering
    decreases a,
{
    if a.len() == 0 || b.len() == 0 {
        Ordering::Equal
    } else {
        let c = cmp_spec(a[0], b[0]);
        if c == Ordering::Equal {
            cmp_tg(a.drop_first(), b.drop_first())
        } else {
            c
        }
    }
}

/// Pairwise three-way comparison of two equally long lists of scalar
/// parameters; the first difference decides.
pub open spec fn cmp_cg(a: Seq<ConstGeneric>, b: Seq<ConstGeneric>) -> Ordering
    decreases a.len(),
{
    if a.len() == 0 || b.len() == 0 {
        Ordering::Equal
    } else {
        let c = const_generic_cmp(a[0], b[0]);
        if c == Ordering::Equal {
            cmp_cg(a.drop_first(), b.drop_first())
        } else {
            c
        }
    }
}

/// Three-way comparison of two fingerprints over the same fields, in the
/// same order, as equality; the first field that differs decides.
pub open spec fn cmp_spec(a: TypeInfo, b: TypeInfo) -> Ordering
    decreases a,
{
    if a.spec_hash() != b.spec_hash() {
        ord_of(a.spec_hash() as int, b.spec_hash() as int)
    } else if a.line != b.line {
        ord_of(a.line as int, b.line as int)
    } else if a.column != b.column {
        ord_of(a.column as int, b.column as int)
    } else if cmp_chars(a.file@, b.file@) != Ordering::Equal {
        cmp_chars(a.file@, b.file@)
    } else if cmp_chars(a.name@, b.name@) != Ordering::Equal {
        cmp_chars(a.name@, b.name@)
    } else {
        let c = cmp_tg(a.type_generics@, b.type_generics@);
        if c == Ordering::Equal {
            cmp_cg(a.const_generics@, b.const_generics@)
        } else {
            c
        }
    }
}

/// Lexicographic three-way comparison of two strings by character.
fn cmp_str(a: &str, b: &str) -> (r: Ordering)
    ensures
        r == cmp_chars(a@, b@),
{
    let a_len = a.unicode_len();
    let b_len = b.unicode_len();
    let mut i: usize = 0;
    proof {
        assert(a@.skip(0) =~= a@);
        assert(b@.skip(0) =~= b@);
    }
    while i < a_len
        invariant
            0 <= i <= a_len,
            i <= b_len,
            a_len == a@.len(),
            b_len == b@.len(),
            cmp_chars(a@, b@) == cmp_chars(a@.skip(i as int), b@.skip(i as int)),
        decreases a_len - i,
    {
        if i >= b_len {
            proof {
                assert(b@.skip(i as int).len() == 0);
                assert(a@.skip(i as int).len() > 0);
            }
            return Ordering::Greater;
        }
        let ca = a.get_char(i);
        let cb = b.get_char(i);
        proof {
            assert(a@.skip(i as int)[0] == a@[i as int]);
            assert(b@.skip(i as int)[0] == b@[i as int]);
        }
        if (ca as u32) < (cb as u32) {
            return Ordering::Less;
        }
        if (ca as u32) > (cb as u32) {
            return Ordering::Greater;
        }
        proof {
            assert(a@.skip(i as int).drop_first() =~= a@.skip(i + 1));
            assert(b@.skip(i as int).drop_first() =~= b@.skip(i + 1));
        }
        i += 1;
    }
    if i < b_len {
        proof {
            assert(a@.skip(i as int).len() == 0);
            assert(b@.skip(i as int).len() > 0);
        }
        return Ordering::Less;
    }
    proof {
        assert(a@.skip(i as int).len() == 0);
        assert(b@.skip(i as int).len() == 0);
    }
    Ordering::Equal
}

impl TypeInfo {
    /// The memoized combining hash, as cached at construction.
    pub fn const_hash(&self) -> (r: u64)
        ensures
            r == self.spec_hash(),
    {
        self.hash
    }

    /// Builds a fingerprint, computing its memoized hash from every other
    /// field.
    pub fn new(
        file: String,
        line: u32,
        column: u32,
        name: String,
        type_generics: Vec<TypeInfo>,
        const_generics: Vec<ConstGeneric>,
    ) -> (r: TypeInfo)
        ensures
            r.file@ == file@,
            r.line == line,
            r.column == column,
            r.name@ == name@,
            r.type_generics@ == type_generics@,
            r.const_generics@ == const_generics@,
            r.spec_hash() == hash_spec(file@, line, column, name@, type_generics@, const_generics@),
            hash_consistent(r),
    {
        let mut hash = hash_str(file.as_str());
        let line_bytes = be_bytes_u32_exec(line);
        hash = hash ^ hash_bytes(line_bytes.as_slice());
        let column_bytes = be_bytes_u32_exec(column);
        hash = hash ^ hash_bytes(column_bytes.as_slice());
        hash = hash ^ hash_str(name.as_str());

        let ghost base_tg: u64 = hash;
        let ghost th: Seq<u64> = nested_hashes(type_generics@);
        proof {
            assert(th.take(0) =~= Seq::<u64>::empty());
            lemma_xor_zero(base_tg);
        }
        let mut i: usize = 0;
        while i < type_generics.len()
            invariant
                0 <= i <= type_generics.len(),
                th == nested_hashes(type_generics@),
                th.len() == type_generics@.len(),
                hash == base_tg ^ xor_all(th.take(i as int)),
            decreases type_generics.len() - i,
        {
            hash = hash ^ type_generics[i].const_hash();
            proof {
                assert(th[i as int] == type_generics@[i as int].spec_hash());
                assert(th.take(i + 1).drop_last() =~= th.take(i as int));
                assert(th.take(i + 1).last() == th[i as int]);
                lemma_xor_assoc(base_tg, xor_all(th.take(i as int)), th[i as int]);
            }
            i += 1;
        }
        proof {
            assert(th.take(th.len() as int) =~= th);
        }

        let ghost base_cg: u64 = hash;
        let ghost ch: Seq<u64> = scalar_hashes(const_generics@);
        proof {
            assert(ch.take(0) =~= Seq::<u64>::empty());
            lemma_xor_zero(base_cg);
        }
        let mut j: usize = 0;
        while j < const_generics.len()
            invariant
                0 <= j <= const_generics.len(),
                ch == scalar_hashes(const_generics@),
                ch.len() == const_generics@.len(),
                hash == base_cg ^ xor_all(ch.take(j as int)),
            decreases const_generics.len() - j,
        {
            let bytes = const_generic_le_bytes(&const_generics[j]);
            hash = hash ^ hash_bytes(bytes.as_slice());
            proof {
                assert(ch[j as int] == fnv1a_bytes(const_generic_bytes(const_generics@[j as int])));
                assert(ch.take(j + 1).drop_last() =~= ch.take(j as int));
                assert(ch.take(j + 1).last() == ch[j as int]);
                lemma_xor_assoc(base_cg, xor_all(ch.take(j as int)), ch[j as int]);
            }
            j += 1;
        }
        proof {
            assert(ch.take(ch.len() as int) =~= ch);
        }

        TypeInfo { file, line, column, name, type_generics, const_generics, hash }
    }

    /// Structural equality with `other`, checked cheapest field first:
    /// memoized hashes, line, column, file, name, then every nested
    /// fingerprint and every scalar parameter pairwise. All must agree; the
    /// cached hash alone never decides. Both fingerprints must declare the
    /// same arity.
    pub fn const_eq(&self, other: &Self) -> (r: bool)
        requires
            compatible(*self, *other),
        ensures
            r == eq_spec(*self, *other),
        decreases *self,
    {
        if self.hash != other.hash {
            return false;
        }
        if self.line != other.line {
            return false;
        }
        if self.column != other.column {
            return false;
        }
        if !(self.file == other.file) {
            return false;
        }
        if !(self.name == other.name) {
            return false;
        }

        let n = self.type_generics.len();
        let mut i: usize = 0;
        while i < n
            invariant
                0 <= i <= n,
                n == self.type_generics@.len(),
                compatible(*self, *other),
                other.type_generics@.len() == n,
                forall|k: int|
                    0 <= k < i ==> eq_spec(
                        #[trigger] self.type_generics@[k],
                        other.type_generics@[k],
                    ),
            decreases n - i,
        {
            if !self.type_generics[i].const_eq(&other.type_generics[i]) {
                return false;
            }
            i += 1;
        }

        let m = self.const_generics.len();
        let mut j: usize = 0;
        while j < m
            invariant
                0 <= j <= m,
                m == self.const_generics@.len(),
                compatible(*self, *other),
                other.const_generics@.len() == m,
                forall|k: int|
                    0 <= k < n ==> eq_spec(
                        #[trigger] self.type_generics@[k],
                        other.type_generics@[k],
                    ),
                n == self.type_generics@.len(),
                self.hash == other.hash,
                self.line == other.line,
                self.column == other.column,
                self.file@ == other.file@,
                self.name@ == other.name@,
                forall|k: int|
                    0 <= k < j ==> const_generic_eq(
                        #[trigger] self.const_generics@[k],
                        other.const_generics@[k],
                    ),
            decreases m - j,
        {
            if !self.const_generics[j].const_eq(&other.const_generics[j]) {
                return false;
            }
            j += 1;
        }

        true
    }

    /// Three-way comparison with `other` over the same fields, in the same
    /// order, as equality; the first field that differs decides. Both
    /// fingerprints must declare the same arity.
    pub fn const_cmp(&self, other: &Self) -> (r: Ordering)
        requires
            compatible(*self, *other),
        ensures
            r == cmp_spec(*self, *other),
        decreases *self,
    {
        if self.hash != other.hash {
            return if self.hash < other.hash {
                Ordering::Less
            } else {
                Ordering::Greater
            };
        }
        if self.line != other.line {
            return if self.line < other.line {
                Ordering::Less
            } else {
                Ordering::Greater
            };
        }
        if self.column != other.column {
            return if self.column < other.column {
                Ordering::Less
            } else {
                Ordering::Greater
            };
        }
        let file_cmp = cmp_str(self.file.as_str(), other.file.as_str());
        match file_cmp {
            Ordering::Equal => {},
            _ => {
                return file_cmp;
            },
        }
        let name_cmp = cmp_str(self.name.as_str(), other.name.as_str());
        match name_cmp {
            Ordering::Equal => {},
            _ => {
                return name_cmp;
            },
        }

        let ghost t1: Seq<TypeInfo> = self.type_generics@;
        let ghost t2: Seq<TypeInfo> = other.type_generics@;
        proof {
            assert(t1.skip(0) =~= t1);
            assert(t2.skip(0) =~= t2);
        }
        let n = self.type_generics.len();
        let mut i: usize = 0;
        while i < n
            invariant
                0 <= i <= n,
                n == t1.len(),
                t2.len() == n,
                t1 == self.type_generics@,
                t2 == other.type_generics@,
                compatible(*self, *other),
                self.hash == other.hash,
                self.line == other.line,
                self.column == other.column,
                cmp_chars(self.file@, other.file@) == Ordering::Equal,
                cmp_chars(self.name@, other.name@) == Ordering::Equal,
                cmp_tg(t1, t2) == cmp_tg(t1.skip(i as int), t2.skip(i as int)),
            decreases n - i,
        {
            proof {
                assert(t1.skip(i as int)[0] == t1[i as int]);
                assert(t2.skip(i as int)[0] == t2[i as int]);
                assert(t1.skip(i as int).drop_first() =~= t1.skip(i + 1));
                assert(t2.skip(i as int).drop_first() =~= t2.skip(i + 1));
            }
            let c = self.type_generics[i].const_cmp(&other.type_generics[i]);
            match c {
                Ordering::Equal => {},
                _ => {
                    return c;
                },
            }
            i += 1;
        }
        proof {
            assert(t1.skip(n as int).len() == 0);
        }

        let ghost c1: Seq<ConstGeneric> = self.const_generics@;
        let ghost c2: Seq<ConstGeneric> = other.const_generics@;
        proof {
            assert(c1.skip(0) =~= c1);
            assert(c2.skip(0) =~= c2);
        }
        let m = self.const_generics.len();
        let mut j: usize = 0;
        while j < m
            invariant
                0 <= j <= m,
                m == c1.len(),
                c2.len() == m,
                c1 == self.const_generics@,
                c2 == other.const_generics@,
                self.hash == other.hash,
                self.line == other.line,
                self.column == other.column,
                cmp_chars(self.file@, other.file@) == Ordering::Equal,
                cmp_chars(self.name@, other.name@) == Ordering::Equal,
                cmp_tg(self.type_generics@, other.type_generics@) == Ordering::Equal,
                cmp_cg(c1, c2) == cmp_cg(c1.skip(j as int), c2.skip(j as int)),
            decreases m - j,
        {
            proof {
                assert(c1.skip(j as int)[0] == c1[j as int]);
                assert(c2.skip(j as int)[0] == c2[j as int]);
                assert(c1.skip(j as int).drop_first() =~= c1.skip(j + 1));
                assert(c2.skip(j as int).drop_first() =~= c2.skip(j + 1));
            }
            let c = self.const_generics[j].const_cmp(&other.const_generics[j]);
            match c {
                Ordering::Equal => {},
                _ => {
                    return c;
                },
            }
            j += 1;
        }
        proof {
            assert(c1.skip(m as int).len() == 0);
        }
        Ordering::Equal
    }
}

/// Every fingerprint is compatible with itself.
pub proof fn lemma_compatible_reflexive(a: TypeInfo)
    ensures
        compatible(a, a),
    decreases a,
{
    assert forall|i: int| 0 <= i < a.type_generics@.len() implies compatible(
        #[trigger] a.type_generics@[i],
        a.type_generics@[i],
    ) by {
        lemma_compatible_reflexive(a.type_generics@[i]);
    }
}

/// Character comparison of a sequence with itself is an equality.
proof fn lemma_cmp_chars_refl(s: Seq<char>)
    ensures
        cmp_chars(s, s) == Ordering::Equal,
    decreases s.len(),
{
    if s.len() > 0 {
        lemma_cmp_chars_refl(s.drop_first());
    }
}

/// Comparing a list of nested fingerprints with itself is an equality.
proof fn lemma_cmp_tg_refl(s: Seq<TypeInfo>)
    ensures
        cmp_tg(s, s) == Ordering::Equal,
    decreases s,
{
    if s.len() > 0 {
        lemma_fingerprint_reflexive(s[0]);
        lemma_cmp_tg_refl(s.drop_first());
    }
}

/// Comparing a list of scalar parameters with itself is an equality.
proof fn lemma_cmp_cg_refl(s: Seq<ConstGeneric>)
    ensures
        cmp_cg(s, s) == Ordering::Equal,
    decreases s.len(),
{
    if s.len() > 0 {
        lemma_cmp_cg_refl(s.drop_first());
    }
}

/// Every fingerprint equals itself, and comparing it with itself is an
/// equality.
pub proof fn lemma_fingerprint_reflexive(a: TypeInfo)
    ensures
        eq_spec(a, a),
        cmp_spec(a, a) == Ordering::Equal,
    decreases a,
{
    assert forall|i: int| 0 <= i < a.type_generics@.len() implies eq_spec(
        #[trigger] a.type_generics@[i],
        a.type_generics@[i],
    ) by {
        lemma_fingerprint_reflexive(a.type_generics@[i]);
    }
    lemma_cmp_chars_refl(a.file@);
    lemma_cmp_chars_refl(a.name@);
    lemma_cmp_tg_refl(a.type_generics@);
    lemma_cmp_cg_refl(a.const_generics@);
}

/// Two fingerprints that differ in their line are unequal and compare as
/// unequal, even when their memoized hashes collide: equality never
/// short-circuits on the hash alone.
pub proof fn lemma_line_discriminates(a: TypeInfo, b: TypeInfo)
    requires
        a.line != b.line,
    ensures
        !eq_spec(a, b),
        cmp_spec(a, b) != Ordering::Equal,
{
}

/// Marks a type whose structural fingerprint is available ahead of time.
///
/// Implementations must build the fingerprint through [`TypeInfo::new`] from
/// the type's own declaration site, so that two distinct declarations never
/// share a fingerprint.
pub trait ConstIdentify {
    /// The fingerprint describing this type.
    fn type_info() -> TypeInfo;
}

} // verus!
