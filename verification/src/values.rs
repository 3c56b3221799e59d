use vstd::prelude::*;

verus! {

/// A primitive Iceberg type. Floating-point columns are tracked by type only;
/// their values are carried as IEEE-754 bit patterns (see [`PrimitiveLiteral`]).
#[derive(Debug, Clone, Copy, PartialEq, Eq, Structural)]
pub enum PrimitiveType {
    /// True or false.
    Boolean,
    /// 32-bit signed integer.
    Int,
    /// 64-bit signed integer.
    Long,
    /// 32-bit IEEE-754 floating point.
    Float,
    /// 64-bit IEEE-754 floating point.
    Double,
    /// Fixed-point decimal with precision and scale; values are unscaled 128-bit integers.
    Decimal {
        /// Number of significant digits.
        precision: u32,
        /// Number of digits after the decimal point.
        scale: u32,
    },
    /// Days since the Unix epoch.
    Date,
    /// Microseconds since midnight.
    Time,
    /// Microseconds since the Unix epoch, without a time zone.
    Timestamp,
    /// Microseconds since the Unix epoch, UTC-adjusted.
    Timestamptz,
    /// Nanoseconds since the Unix epoch, without a time zone.
    TimestampNs,
    /// Nanoseconds since the Unix epoch, UTC-adjusted.
    TimestamptzNs,
    /// UTF-8 character sequence.
    String,
    /// 128-bit universally unique identifier.
    Uuid,
    /// Fixed-length byte array of the given length.
    Fixed(u64),
    /// Variable-length byte array.
    Binary,
}

/// An untyped primitive value. Float and double values are their IEEE-754 bit
/// patterns, so that all reasoning stays on integers; NaN tests and ordering
/// are defined on the bits.
#[derive(Debug, Clone, PartialEq, Eq)]
pub enum PrimitiveLiteral {
    /// A boolean value.
    Boolean(bool),
    /// A 32-bit integer; also carries dates.
    Int(i32),
    /// A 64-bit integer; also carries times and timestamps.
    Long(i64),
    /// The IEEE-754 bit pattern of a 32-bit float.
    Float(u32),
    /// The IEEE-754 bit pattern of a 64-bit float.
    Double(u64),
    /// A UTF-8 string.
    String(String),
    /// Raw bytes; also carries fixed-length arrays.
    Binary(Vec<u8>),
    /// A 128-bit signed integer: the unscaled value of a decimal.
    Int128(i128),
    /// A 128-bit unsigned integer: the value of a UUID.
    UInt128(u128),
}

/// The mathematical value of a literal: strings and byte arrays become
/// sequences, everything else keeps its scalar.
#[verifier::ext_equal]
pub enum LitV {
    /// A boolean value.
    Boolean(bool),
    /// A 32-bit integer.
    Int(i32),
    /// A 64-bit integer.
    Long(i64),
    /// A 32-bit float bit pattern.
    Float(u32),
    /// A 64-bit float bit pattern.
    Double(u64),
    /// The characters of a string.
    Str(Seq<char>),
    /// The bytes of a byte array.
    Bytes(Seq<u8>),
    /// A 128-bit signed integer.
    Int128(i128),
    /// A 128-bit unsigned integer.
    UInt128(u128),
}

impl View for PrimitiveLiteral {
    type V = LitV;

    open spec fn view(&self) -> LitV {
        match self {
            PrimitiveLiteral::Boolean(b) => LitV::Boolean(*b),
            PrimitiveLiteral::Int(v) => LitV::Int(*v),
            PrimitiveLiteral::Long(v) => LitV::Long(*v),
            PrimitiveLiteral::Float(v) => LitV::Float(*v),
            PrimitiveLiteral::Double(v) => LitV::Double(*v),
            PrimitiveLiteral::String(s) => LitV::Str(s@),
            PrimitiveLiteral::Binary(b) => LitV::Bytes(b@),
            PrimitiveLiteral::Int128(v) => LitV::Int128(*v),
            PrimitiveLiteral::UInt128(v) => LitV::UInt128(*v),
        }
    }
}

/// The view of a list of bound pairs: each datum replaced by its value.
pub open spec fn spec_bounds_view(s: Seq<(i32, Datum)>) -> Seq<(i32, DatumV)> {
    s.map(|i: int, p: (i32, Datum)| (p.0, p.1@))
}

/// The view of an optional literal.
pub open spec fn opt_lit_view(o: Option<PrimitiveLiteral>) -> Option<LitV> {
    match o {
        Some(l) => Some(l@),
        None => None,
    }
}

impl PrimitiveLiteral {
    /// A copy of this literal with the same value.
    pub fn dup(&self) -> (r: PrimitiveLiteral)
        ensures
            r@ == self@,
    {
        match self {
            PrimitiveLiteral::Boolean(b) => PrimitiveLiteral::Boolean(*b),
            PrimitiveLiteral::Int(v) => PrimitiveLiteral::Int(*v),
            PrimitiveLiteral::Long(v) => PrimitiveLiteral::Long(*v),
            PrimitiveLiteral::Float(v) => PrimitiveLiteral::Float(*v),
            PrimitiveLiteral::Double(v) => PrimitiveLiteral::Double(*v),
            PrimitiveLiteral::String(s) => PrimitiveLiteral::String(s.clone()),
            PrimitiveLiteral::Binary(b) => {
                let mut out: Vec<u8> = Vec::new();
                let mut i: usize = 0;
                let n = b.len();
                while i < n
                    invariant
                        i <= n,
                        n == b@.len(),
                        out@ =~= b@.subrange(0, i as int),
                    decreases n - i,
                {
                    out.push(b[i]);
                    i = i + 1;
                }
                proof {
                    assert(out@ =~= b@);
                }
                PrimitiveLiteral::Binary(out)
            },
            PrimitiveLiteral::Int128(v) => PrimitiveLiteral::Int128(*v),
            PrimitiveLiteral::UInt128(v) => PrimitiveLiteral::UInt128(*v),
        }
    }
}

/// Whether a literal's shape fits a primitive type: the check the partition
/// aggregator and the partition decoder apply before accepting a value.
pub open spec fn spec_compatible(ty: PrimitiveType, lit: LitV) -> bool {
    match lit {
        LitV::Boolean(_) => ty == PrimitiveType::Boolean,
        LitV::Int(_) => ty == PrimitiveType::Int || ty == PrimitiveType::Date,
        LitV::Long(_) => ty == PrimitiveType::Long || ty == PrimitiveType::Time
            || ty == PrimitiveType::Timestamp || ty == PrimitiveType::Timestamptz
            || ty == PrimitiveType::TimestampNs || ty == PrimitiveType::TimestamptzNs,
        LitV::Float(_) => ty == PrimitiveType::Float,
        LitV::Double(_) => ty == PrimitiveType::Double,
        LitV::Str(_) => ty == PrimitiveType::String,
        LitV::Bytes(_) => ty == PrimitiveType::Binary || ty matches PrimitiveType::Fixed(_),
        LitV::Int128(_) => ty matches PrimitiveType::Decimal { .. },
        LitV::UInt128(_) => ty == PrimitiveType::Uuid,
    }
}

impl PrimitiveType {
    /// Whether a literal's shape fits this type.
    pub fn compatible(&self, lit: &PrimitiveLiteral) -> (r: bool)
        ensures
            r == spec_compatible(*self, lit@),
    {
        match lit {
            PrimitiveLiteral::Boolean(_) => matches!(self, PrimitiveType::Boolean),
            PrimitiveLiteral::Int(_) => matches!(self, PrimitiveType::Int | PrimitiveType::Date),
            PrimitiveLiteral::Long(_) => matches!(
                self,
                PrimitiveType::Long | PrimitiveType::Time | PrimitiveType::Timestamp
                    | PrimitiveType::Timestamptz | PrimitiveType::TimestampNs
                    | PrimitiveType::TimestamptzNs
            ),
            PrimitiveLiteral::Float(_) => matches!(self, PrimitiveType::Float),
            PrimitiveLiteral::Double(_) => matches!(self, PrimitiveType::Double),
            PrimitiveLiteral::String(_) => matches!(self, PrimitiveType::String),
            PrimitiveLiteral::Binary(_) => matches!(self, PrimitiveType::Binary | PrimitiveType::Fixed(_)),
            PrimitiveLiteral::Int128(_) => matches!(self, PrimitiveType::Decimal { .. }),
            PrimitiveLiteral::UInt128(_) => matches!(self, PrimitiveType::Uuid),
        }
    }
}

/// The bit pattern of a 32-bit IEEE-754 NaN: all exponent bits set and a
/// nonzero mantissa.
pub open spec fn spec_f32_is_nan(bits: u32) -> bool {
    (bits >> 23) & 0xff == 0xff && bits & 0x7fffff != 0
}

/// The bit pattern of a 64-bit IEEE-754 NaN.
pub open spec fn spec_f64_is_nan(bits: u64) -> bool {
    (bits >> 52) & 0x7ff == 0x7ff && bits & 0xf_ffff_ffff_ffff != 0
}

/// Whether a 32-bit float bit pattern is a NaN.
pub fn f32_bits_is_nan(bits: u32) -> (r: bool)
    ensures
        r == spec_f32_is_nan(bits),
{
    (bits >> 23) & 0xff == 0xff && bits & 0x7fffff != 0
}

/// Whether a 64-bit float bit pattern is a NaN.
pub fn f64_bits_is_nan(bits: u64) -> (r: bool)
    ensures
        r == spec_f64_is_nan(bits),
{
    (bits >> 52) & 0x7ff == 0x7ff && bits & 0xf_ffff_ffff_ffff != 0
}

/// A monotone key for the order of 32-bit floats: negative bit patterns are
/// flipped, positive ones are lifted above them. On non-NaN patterns, comparing
/// keys agrees with the IEEE-754 order (with negative zero below positive zero).
pub open spec fn spec_f32_order_key(bits: u32) -> u32 {
    if bits & 0x8000_0000 != 0 {
        !bits
    } else {
        bits | 0x8000_0000
    }
}

/// A monotone key for the order of 64-bit floats; see [`spec_f32_order_key`].
pub open spec fn spec_f64_order_key(bits: u64) -> u64 {
    if bits & 0x8000_0000_0000_0000 != 0 {
        !bits
    } else {
        bits | 0x8000_0000_0000_0000
    }
}

/// The order key of a 32-bit float bit pattern.
pub fn f32_order_key(bits: u32) -> (r: u32)
    ensures
        r == spec_f32_order_key(bits),
{
    if bits & 0x8000_0000 != 0 {
        !bits
    } else {
        bits | 0x8000_0000
    }
}

/// The order key of a 64-bit float bit pattern.
pub fn f64_order_key(bits: u64) -> (r: u64)
    ensures
        r == spec_f64_order_key(bits),
{
    if bits & 0x8000_0000_0000_0000 != 0 {
        !bits
    } else {
        bits | 0x8000_0000_0000_0000
    }
}

/// Lexicographic strict order on character sequences.
pub open spec fn spec_chars_lt(a: Seq<char>, b: Seq<char>) -> bool
    decreases a.len(),
{
    if b.len() == 0 {
        false
    } else if a.len() == 0 {
        true
    } else if a[0] != b[0] {
        (a[0] as u32) < (b[0] as u32)
    } else {
        spec_chars_lt(a.drop_first(), b.drop_first())
    }
}

/// Lexicographic strict order on byte sequences.
pub open spec fn spec_bytes_lt(a: Seq<u8>, b: Seq<u8>) -> bool
    decreases a.len(),
{
    if b.len() == 0 {
        false
    } else if a.len() == 0 {
        true
    } else if a[0] != b[0] {
        a[0] < b[0]
    } else {
        spec_bytes_lt(a.drop_first(), b.drop_first())
    }
}

/// Strict order between two literals of the same shape. Float and double
/// patterns are ordered by their monotone keys; strings and binaries
/// lexicographically.
pub open spec fn spec_lit_lt(a: LitV, b: LitV) -> bool {
    match (a, b) {
        (LitV::Boolean(x), LitV::Boolean(y)) => !x && y,
        (LitV::Int(x), LitV::Int(y)) => x < y,
        (LitV::Long(x), LitV::Long(y)) => x < y,
        (LitV::Float(x), LitV::Float(y)) => spec_f32_order_key(x) < spec_f32_order_key(y),
        (LitV::Double(x), LitV::Double(y)) => spec_f64_order_key(x) < spec_f64_order_key(y),
        (LitV::Str(x), LitV::Str(y)) => spec_chars_lt(x, y),
        (LitV::Bytes(x), LitV::Bytes(y)) => spec_bytes_lt(x, y),
        (LitV::Int128(x), LitV::Int128(y)) => x < y,
        (LitV::UInt128(x), LitV::UInt128(y)) => x < y,
        _ => false,
    }
}

/// Compare two strings lexicographically by characters.
fn chars_lt(a: &str, b: &str) -> (r: bool)
    ensures
        r == spec_chars_lt(a@, b@),
{
    let a_len = a.unicode_len();
    let b_len = b.unicode_len();
    let mut i: usize = 0;
    proof {
        assert(a@.skip(0) =~= a@);
        assert(b@.skip(0) =~= b@);
    }
    loop
        invariant
            i <= a_len,
            i <= b_len,
            a_len == a@.len(),
            b_len == b@.len(),
            a@.subrange(0, i as int) =~= b@.subrange(0, i as int),
            spec_chars_lt(a@, b@) == spec_chars_lt(
                a@.skip(i as int),
                b@.skip(i as int),
            ),
        decreases a_len - i,
    {
        if i == b_len {
            return false;
        }
        if i == a_len {
            assert(a@.skip(i as int).len() == 0);
            assert(b@.skip(i as int).len() > 0);
            return true;
        }
        let ca = a.get_char(i);
        let cb = b.get_char(i);
        assert(ca == a@.skip(i as int)[0]);
        assert(cb == b@.skip(i as int)[0]);
        if ca != cb {
            return (ca as u32) < (cb as u32);
        }
        proof {
            assert(a@.skip(i as int).drop_first() =~= a@.skip(i + 1));
            assert(b@.skip(i as int).drop_first() =~= b@.skip(i + 1));
            assert(a@.subrange(0, i + 1) =~= a@.subrange(0, i as int).push(ca));
            assert(b@.subrange(0, i + 1) =~= b@.subrange(0, i as int).push(cb));
        }
        i = i + 1;
    }
}

/// Compare two byte vectors lexicographically.
fn bytes_lt(a: &Vec<u8>, b: &Vec<u8>) -> (r: bool)
    ensures
        r == spec_bytes_lt(a@, b@),
{
    let mut i: usize = 0;
    proof {
        assert(a@.skip(0) =~= a@);
        assert(b@.skip(0) =~= b@);
    }
    loop
        invariant
            i <= a.len(),
            i <= b.len(),
            a@.subrange(0, i as int) =~= b@.subrange(0, i as int),
            spec_bytes_lt(a@, b@) == spec_bytes_lt(
                a@.skip(i as int),
                b@.skip(i as int),
            ),
        decreases a.len() - i,
    {
        if i == b.len() {
            return false;
        }
        if i == a.len() {
            assert(a@.skip(i as int).len() == 0);
            assert(b@.skip(i as int).len() > 0);
            return true;
        }
        let ca = a[i];
        let cb = b[i];
        assert(ca == a@.skip(i as int)[0]);
        assert(cb == b@.skip(i as int)[0]);
        if ca != cb {
            return ca < cb;
        }
        proof {
            assert(a@.skip(i as int).drop_first() =~= a@.skip(i + 1));
            assert(b@.skip(i as int).drop_first() =~= b@.skip(i + 1));
            assert(a@.subrange(0, i + 1) =~= a@.subrange(0, i as int).push(ca));
            assert(b@.subrange(0, i + 1) =~= b@.subrange(0, i as int).push(cb));
        }
        i = i + 1;
    }
}

/// Strict order between two literals of the same shape.
pub fn lit_lt(a: &PrimitiveLiteral, b: &PrimitiveLiteral) -> (r: bool)
    ensures
        r == spec_lit_lt(a@, b@),
{
    match (a, b) {
        (PrimitiveLiteral::Boolean(x), PrimitiveLiteral::Boolean(y)) => !*x && *y,
        (PrimitiveLiteral::Int(x), PrimitiveLiteral::Int(y)) => *x < *y,
        (PrimitiveLiteral::Long(x), PrimitiveLiteral::Long(y)) => *x < *y,
        (PrimitiveLiteral::Float(x), PrimitiveLiteral::Float(y)) => f32_order_key(*x)
            < f32_order_key(*y),
        (PrimitiveLiteral::Double(x), PrimitiveLiteral::Double(y)) => f64_order_key(*x)
            < f64_order_key(*y),
        (PrimitiveLiteral::String(x), PrimitiveLiteral::String(y)) => chars_lt(
            x.as_str(),
            y.as_str(),
        ),
        (PrimitiveLiteral::Binary(x), PrimitiveLiteral::Binary(y)) => bytes_lt(x, y),
        (PrimitiveLiteral::Int128(x), PrimitiveLiteral::Int128(y)) => *x < *y,
        (PrimitiveLiteral::UInt128(x), PrimitiveLiteral::UInt128(y)) => *x < *y,
        _ => false,
    }
}

/// Whether a literal is a floating-point NaN.
pub open spec fn spec_lit_is_nan(lit: LitV) -> bool {
    match lit {
        LitV::Float(bits) => spec_f32_is_nan(bits),
        LitV::Double(bits) => spec_f64_is_nan(bits),
        _ => false,
    }
}

/// A typed primitive scalar: a literal together with the primitive type it
/// belongs to. Bound values and partition summaries carry these.
#[derive(Debug, Clone, PartialEq, Eq)]
pub struct Datum {
    /// The primitive type the literal belongs to.
    pub ty: PrimitiveType,
    /// The untyped value.
    pub lit: PrimitiveLiteral,
}

/// The mathematical value of a datum: its type and the view of its literal.
#[verifier::ext_equal]
pub struct DatumV {
    /// The primitive type.
    pub ty: PrimitiveType,
    /// The literal value.
    pub lit: LitV,
}

impl View for Datum {
    type V = DatumV;

    open spec fn view(&self) -> DatumV {
        DatumV { ty: self.ty, lit: self.lit@ }
    }
}

impl Datum {
    /// Whether the literal fits the type.
    pub open spec fn wf(&self) -> bool {
        spec_compatible(self.ty, self.lit@)
    }

    /// Pair a type with a literal of a fitting shape.
    pub fn new(ty: PrimitiveType, lit: PrimitiveLiteral) -> (r: Datum)
        requires
            spec_compatible(ty, lit@),
        ensures
            r@ == (DatumV { ty, lit: lit@ }),
            r.wf(),
    {
        Datum { ty, lit }
    }

    /// A copy of this datum with the same value.
    pub fn dup(&self) -> (r: Datum)
        ensures
            r@ == self@,
    {
        Datum { ty: self.ty, lit: self.lit.dup() }
    }

    /// The primitive type of this value.
    pub fn ty(&self) -> (r: &PrimitiveType)
        ensures
            r == self.ty,
    {
        &self.ty
    }

    /// The untyped literal of this value.
    pub fn literal(&self) -> (r: &PrimitiveLiteral)
        ensures
            r == self.lit,
    {
        &self.lit
    }

        /// Whether this value is a floating-point NaN.
    pub fn is_nan(&self) -> (r: bool)
        ensures
            r == spec_lit_is_nan(self.lit@),
    {
        match &self.lit {
            PrimitiveLiteral::Float(bits) => f32_bits_is_nan(*bits),
            PrimitiveLiteral::Double(bits) => f64_bits_is_nan(*bits),
            _ => false,
        }
    }

    /// Strict order between two datums of the same type.
    pub fn lt(&self, other: &Datum) -> (r: bool)
        ensures
            r == spec_lit_lt(self.lit@, other.lit@),
    {
        lit_lt(&self.lit, &other.lit)
    }

    /// A boolean datum.
    pub fn bool(v: bool) -> (r: Datum)
        ensures
            r@ == (DatumV { ty: PrimitiveType::Boolean, lit: LitV::Boolean(v) }),
    {
        Datum { ty: PrimitiveType::Boolean, lit: PrimitiveLiteral::Boolean(v) }
    }

    /// A 32-bit integer datum.
    pub fn int32(v: i32) -> (r: Datum)
        ensures
            r@ == (DatumV { ty: PrimitiveType::Int, lit: LitV::Int(v) }),
    {
        Datum { ty: PrimitiveType::Int, lit: PrimitiveLiteral::Int(v) }
    }

    /// A 64-bit integer datum.
    pub fn long(v: i64) -> (r: Datum)
        ensures
            r@ == (DatumV { ty: PrimitiveType::Long, lit: LitV::Long(v) }),
    {
        Datum { ty: PrimitiveType::Long, lit: PrimitiveLiteral::Long(v) }
    }

    /// A 32-bit float datum, given as its IEEE-754 bit pattern.
    pub fn float_bits(bits: u32) -> (r: Datum)
        ensures
            r@ == (DatumV { ty: PrimitiveType::Float, lit: LitV::Float(bits) }),
    {
        Datum { ty: PrimitiveType::Float, lit: PrimitiveLiteral::Float(bits) }
    }

    /// A 64-bit float datum, given as its IEEE-754 bit pattern.
    pub fn double_bits(bits: u64) -> (r: Datum)
        ensures
            r@ == (DatumV { ty: PrimitiveType::Double, lit: LitV::Double(bits) }),
    {
        Datum { ty: PrimitiveType::Double, lit: PrimitiveLiteral::Double(bits) }
    }

    /// A string datum.
    pub fn string(v: &str) -> (r: Datum)
        ensures
            r@ == (DatumV { ty: PrimitiveType::String, lit: LitV::Str(v@) }),
    {
        Datum { ty: PrimitiveType::String, lit: PrimitiveLiteral::String(v.to_owned()) }
    }

    /// A date datum: days since the Unix epoch.
    pub fn date(v: i32) -> (r: Datum)
        ensures
            r@ == (DatumV { ty: PrimitiveType::Date, lit: LitV::Int(v) }),
    {
        Datum { ty: PrimitiveType::Date, lit: PrimitiveLiteral::Int(v) }
    }

    /// A binary datum.
    pub fn binary(v: Vec<u8>) -> (r: Datum)
        ensures
            r@ == (DatumV { ty: PrimitiveType::Binary, lit: LitV::Bytes(v@) }),
    {
        Datum { ty: PrimitiveType::Binary, lit: PrimitiveLiteral::Binary(v) }
    }
}

} // verus!
