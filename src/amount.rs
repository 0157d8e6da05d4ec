use vstd::prelude::*;

verus! {

/// Largest magnitude of a mantissa: `2^96 - 1`.
pub const MAX_MANTISSA: i128 = 79228162514264337593543950335;

/// Largest number of digits after the decimal point.
pub const MAX_SCALE: u32 = 28;

/// `10^n`.
pub open spec fn pow10(n: nat) -> int
    decreases n,
{
    if n == 0 {
        1
    } else {
        10 * pow10((n - 1) as nat)
    }
}

pub open spec fn mantissa_fits(m: int) -> bool {
    -MAX_MANTISSA <= m <= MAX_MANTISSA
}

proof fn lemma_pow10_positive(n: nat)
    ensures
        pow10(n) >= 1,
    decreases n,
{
    if n > 0 {
        lemma_pow10_positive((n - 1) as nat);
    }
}

proof fn lemma_pow10_add(a: nat, b: nat)
    ensures
        pow10((a + b) as nat) == pow10(a) * pow10(b),
    decreases a,
{
    if a > 0 {
        lemma_pow10_add((a - 1) as nat, b);
        assert(pow10((a + b) as nat) == 10 * pow10((a - 1 + b) as nat));
        vstd::arithmetic::mul::lemma_mul_is_associative(10, pow10((a - 1) as nat), pow10(b));
    }
}

proof fn lemma_pow10_bound(n: nat)
    requires
        n <= 28,
    ensures
        1 <= pow10(n) <= 10000000000000000000000000000,
{
    reveal_with_fuel(pow10, 29);
    assert(pow10(28) == 10000000000000000000000000000);
    lemma_pow10_add(n, (28 - n) as nat);
    lemma_pow10_positive(n);
    lemma_pow10_positive((28 - n) as nat);
    let p = pow10(n);
    let q = pow10((28 - n) as nat);
    assert(p <= p * q) by (nonlinear_arith)
        requires
            p >= 1,
            q >= 1,
    ;
}

/// Moving a mantissa from scale `from` to scale `to` keeps its value.
proof fn lemma_rescaled_atoms(m: int, from: nat, to: nat)
    requires
        from <= to <= 28,
    ensures
        m * pow10((28 - from) as nat) == (m * pow10((to - from) as nat)) * pow10((28 - to) as nat),
{
    lemma_pow10_add((to - from) as nat, (28 - to) as nat);
    assert((((to - from) as nat) + ((28 - to) as nat)) as nat == (28 - from) as nat);
    vstd::arithmetic::mul::lemma_mul_is_associative(
        m,
        pow10((to - from) as nat),
        pow10((28 - to) as nat),
    );
}

/// `10^n` for `n <= 28`.
fn pow10_exec(n: u32) -> (r: i128)
    requires
        n <= MAX_SCALE,
    ensures
        r == pow10(n as nat),
{
    let mut r: i128 = 1;
    let mut i: u32 = 0;
    while i < n
        invariant
            i <= n <= 28,
            r == pow10(i as nat),
        decreases n - i,
    {
        proof {
            lemma_pow10_bound((i + 1) as nat);
        }
        r = r * 10;
        i = i + 1;
    }
    r
}

/// `m * 10^k`, or `None` where that leaves the range of `i128`.
fn rescale(m: i128, k: u32) -> (r: Option<i128>)
    requires
        k <= MAX_SCALE,
    ensures
        r == (if i128::MIN <= m * pow10(k as nat) <= i128::MAX {
            Some((m * pow10(k as nat)) as i128)
        } else {
            None::<i128>
        }),
{
    let p = pow10_exec(k);
    m.checked_mul(p)
}

/// The character of a decimal digit.
pub open spec fn digit_char(d: int) -> char {
    if d == 0 {
        '0'
    } else if d == 1 {
        '1'
    } else if d == 2 {
        '2'
    } else if d == 3 {
        '3'
    } else if d == 4 {
        '4'
    } else if d == 5 {
        '5'
    } else if d == 6 {
        '6'
    } else if d == 7 {
        '7'
    } else if d == 8 {
        '8'
    } else {
        '9'
    }
}

/// The decimal digits of `n`, most significant first; none for zero.
pub open spec fn digits_of(n: nat) -> Seq<char>
    decreases n,
{
    if n == 0 {
        Seq::empty()
    } else {
        digits_of(n / 10).push(digit_char((n % 10) as int))
    }
}

/// `d` with zeros in front up to `width` characters.
pub open spec fn zero_padded(d: Seq<char>, width: nat) -> Seq<char> {
    if d.len() >= width {
        d
    } else {
        Seq::new((width - d.len()) as nat, |i: int| '0') + d
    }
}

/// The text of the decimal `mantissa / 10^scale`: a `-` for a negative
/// mantissa, the whole part (`0` where it is empty), and where the scale is
/// positive a point and exactly `scale` digits.
pub open spec fn decimal_text(mantissa: int, scale: nat) -> Seq<char> {
    let magnitude = if mantissa < 0 {
        -mantissa
    } else {
        mantissa
    };
    let d = zero_padded(digits_of(magnitude as nat), scale);
    let whole = d.subrange(0, d.len() - scale);
    let whole_text = if whole.len() == 0 {
        seq!['0']
    } else {
        whole
    };
    let body = if scale == 0 {
        whole_text
    } else {
        whole_text + seq!['.'] + d.subrange(d.len() - scale, d.len() as int)
    };
    if mantissa < 0 {
        seq!['-'] + body
    } else {
        body
    }
}

/// The mantissa and scale of the decimal that rust_decimal reads from a text,
/// or `None` where it reads none.
pub uninterp spec fn decimal_parts(text: Seq<char>) -> Option<(i128, u32)>;

/// Relies on `rust_decimal::Decimal::from_i128_with_scale` to build the decimal
/// (it panics outside the range that `requires` states) and on its `Display`
/// impl to write it as `decimal_text` says, a text that rust_decimal's
/// `FromStr` reads back to the same mantissa and scale.
#[verifier::external_body]
fn write_decimal(mantissa: i128, scale: u32) -> (r: String)
    requires
        mantissa_fits(mantissa as int),
        scale <= MAX_SCALE,
    ensures
        r@ == decimal_text(mantissa as int, scale as nat),
        decimal_parts(r@) == Some((mantissa, scale)),
{
    rust_decimal::Decimal::from_i128_with_scale(mantissa, scale).to_string()
}

/// Relies on rust_decimal's `FromStr` impl for `Decimal`, whose result is
/// taken apart with `mantissa` and `scale`.
#[verifier::external_body]
fn read_decimal(text: &str) -> (r: Option<(i128, u32)>)
    ensures
        r == decimal_parts(text@),
{
    match text.parse::<rust_decimal::Decimal>() {
        Ok(d) => Some((d.mantissa(), d.scale())),
        Err(_) => None,
    }
}

/// An exact decimal number, `mantissa / 10^scale`, in the range of a 96-bit
/// mantissa and at most 28 digits after the point.
#[derive(Clone, Copy, Debug)]
pub struct Amount {
    mantissa: i128,
    scale: u32,
}

impl Amount {
    #[verifier::type_invariant]
    spec fn inv(self) -> bool {
        self.scale <= MAX_SCALE && mantissa_fits(self.mantissa as int)
    }

    pub closed spec fn mantissa_spec(self) -> int {
        self.mantissa as int
    }

    pub closed spec fn scale_spec(self) -> nat {
        self.scale as nat
    }

    /// The value in units of `10^-28`: every amount is a whole number of them.
    pub open spec fn atoms(self) -> int {
        self.mantissa_spec() * pow10((MAX_SCALE - self.scale_spec()) as nat)
    }

    pub closed spec fn zero_spec() -> Amount {
        Amount { mantissa: 0, scale: 0 }
    }

    /// The exact sum, written at the larger of the two scales; `None` where
    /// that scale is over 28 or the mantissa leaves the 96-bit range.
    pub closed spec fn sum_spec(self, other: Amount) -> Option<Amount> {
        let s = if self.scale >= other.scale {
            self.scale
        } else {
            other.scale
        };
        let m = self.mantissa * pow10((s - self.scale) as nat) + other.mantissa * pow10(
            (s - other.scale) as nat,
        );
        if s <= MAX_SCALE && mantissa_fits(m) {
            Some(Amount { mantissa: m as i128, scale: s })
        } else {
            None
        }
    }

    /// The exact difference, written at the larger of the two scales; `None`
    /// where that scale is over 28 or the mantissa leaves the 96-bit range.
    pub closed spec fn difference_spec(self, other: Amount) -> Option<Amount> {
        let s = if self.scale >= other.scale {
            self.scale
        } else {
            other.scale
        };
        let m = self.mantissa * pow10((s - self.scale) as nat) - other.mantissa * pow10(
            (s - other.scale) as nat,
        );
        if s <= MAX_SCALE && mantissa_fits(m) {
            Some(Amount { mantissa: m as i128, scale: s })
        } else {
            None
        }
    }

    /// The amount that a text holds, where the parts that rust_decimal reads
    /// from it are in range.
    pub closed spec fn parsed_spec(text: Seq<char>) -> Option<Amount> {
        match decimal_parts(text) {
            Some((m, s)) => if s <= MAX_SCALE && mantissa_fits(m as int) {
                Some(Amount { mantissa: m, scale: s })
            } else {
                None
            },
            None => None,
        }
    }

    /// How a stored amount is read: a text that holds no decimal counts as zero.
    pub open spec fn stored_spec(text: Seq<char>) -> Amount {
        match Self::parsed_spec(text) {
            Some(a) => a,
            None => Self::zero_spec(),
        }
    }

    pub proof fn lemma_zero()
        ensures
            Self::zero_spec().atoms() == 0,
            Self::zero_spec().mantissa_spec() == 0,
            Self::zero_spec().scale_spec() == 0,
    {
    }

    /// When the sum exists, and what it is.
    pub proof fn lemma_sum(self, other: Amount)
        ensures
            ({
                let s = if self.scale_spec() >= other.scale_spec() {
                    self.scale_spec()
                } else {
                    other.scale_spec()
                };
                let m = self.mantissa_spec() * pow10((s - self.scale_spec()) as nat)
                    + other.mantissa_spec() * pow10((s - other.scale_spec()) as nat);
                &&& self.sum_spec(other) is Some <==> s <= MAX_SCALE && mantissa_fits(m)
                &&& self.sum_spec(other) matches Some(c) ==> {
                    &&& c.mantissa_spec() == m
                    &&& c.scale_spec() == s
                    &&& c.atoms() == self.atoms() + other.atoms()
                }
            }),
    {
        let s = if self.scale >= other.scale {
            self.scale
        } else {
            other.scale
        };
        if s <= MAX_SCALE {
            let x = self.mantissa * pow10((s - self.scale) as nat);
            let y = other.mantissa * pow10((s - other.scale) as nat);
            let p = pow10((28 - s) as nat);
            lemma_rescaled_atoms(self.mantissa as int, self.scale as nat, s as nat);
            lemma_rescaled_atoms(other.mantissa as int, other.scale as nat, s as nat);
            vstd::arithmetic::mul::lemma_mul_is_distributive_add_other_way(p, x, y);
        }
    }

    /// When the difference exists, and what it is.
    pub proof fn lemma_difference(self, other: Amount)
        ensures
            ({
                let s = if self.scale_spec() >= other.scale_spec() {
                    self.scale_spec()
                } else {
                    other.scale_spec()
                };
                let m = self.mantissa_spec() * pow10((s - self.scale_spec()) as nat)
                    - other.mantissa_spec() * pow10((s - other.scale_spec()) as nat);
                &&& self.difference_spec(other) is Some <==> s <= MAX_SCALE && mantissa_fits(m)
                &&& self.difference_spec(other) matches Some(c) ==> {
                    &&& c.mantissa_spec() == m
                    &&& c.scale_spec() == s
                    &&& c.atoms() == self.atoms() - other.atoms()
                }
            }),
    {
        let s = if self.scale >= other.scale {
            self.scale
        } else {
            other.scale
        };
        if s <= MAX_SCALE {
            let x = self.mantissa * pow10((s - self.scale) as nat);
            let y = other.mantissa * pow10((s - other.scale) as nat);
            let p = pow10((28 - s) as nat);
            lemma_rescaled_atoms(self.mantissa as int, self.scale as nat, s as nat);
            lemma_rescaled_atoms(other.mantissa as int, other.scale as nat, s as nat);
            vstd::arithmetic::mul::lemma_mul_is_distributive_sub_other_way(p, x, y);
        }
    }

    /// What a text is read as.
    pub proof fn lemma_parsed(text: Seq<char>)
        ensures
            Self::parsed_spec(text) is Some <==> (decimal_parts(text) matches Some((m, s)) && s
                <= MAX_SCALE && mantissa_fits(m as int)),
            Self::parsed_spec(text) matches Some(a) ==> decimal_parts(text) == Some(
                (a.mantissa_spec() as i128, a.scale_spec() as u32),
            ),
    {
    }

    /// `num / 10^scale`.
    pub fn new(num: i64, scale: u32) -> (r: Amount)
        requires
            scale <= MAX_SCALE,
        ensures
            r.mantissa_spec() == num,
            r.scale_spec() == scale,
    {
        Amount { mantissa: num as i128, scale }
    }

    /// The amount `mantissa / 10^scale`, where the parts are in range.
    pub fn from_parts(mantissa: i128, scale: u32) -> (r: Option<Amount>)
        ensures
            r is Some <==> scale <= MAX_SCALE && mantissa_fits(mantissa as int),
            r matches Some(a) ==> a.mantissa_spec() == mantissa && a.scale_spec() == scale,
    {
        if scale <= MAX_SCALE && -MAX_MANTISSA <= mantissa && mantissa <= MAX_MANTISSA {
            Some(Amount { mantissa, scale })
        } else {
            None
        }
    }

    /// The text under which the amount is stored.
    pub fn to_text(&self) -> (r: String)
        ensures
            r@ == decimal_text(self.mantissa_spec(), self.scale_spec()),
            Self::stored_spec(r@) == *self,
    {
        proof {
            use_type_invariant(self);
        }
        write_decimal(self.mantissa, self.scale)
    }

    /// The amount that a text holds.
    pub fn parse(text: &str) -> (r: Option<Amount>)
        ensures
            r == Self::parsed_spec(text@),
    {
        match read_decimal(text) {
            Some((m, s)) => Self::from_parts(m, s),
            None => None,
        }
    }

    /// A stored amount, read as zero where the text holds no decimal.
    pub fn from_stored_text(text: &str) -> (r: Amount)
        ensures
            r == Self::stored_spec(text@),
    {
        match Self::parse(text) {
            Some(a) => a,
            None => Self::zero(),
        }
    }

    pub fn zero() -> (r: Amount)
        ensures
            r == Self::zero_spec(),
    {
        Amount { mantissa: 0, scale: 0 }
    }

    pub fn mantissa(&self) -> (r: i128)
        ensures
            r == self.mantissa_spec(),
    {
        self.mantissa
    }

    pub fn scale(&self) -> (r: u32)
        ensures
            r == self.scale_spec(),
    {
        self.scale
    }

    pub fn is_zero(&self) -> (r: bool)
        ensures
            r == (self.atoms() == 0),
    {
        proof {
            use_type_invariant(self);
            lemma_pow10_positive((MAX_SCALE - self.scale) as nat);
            vstd::arithmetic::mul::lemma_mul_nonzero(
                self.mantissa as int,
                pow10((MAX_SCALE - self.scale) as nat),
            );
        }
        self.mantissa == 0
    }

    /// The same amount with the opposite sign.
    pub fn negated(&self) -> (r: Amount)
        ensures
            r.mantissa_spec() == -self.mantissa_spec(),
            r.scale_spec() == self.scale_spec(),
            r.atoms() == -self.atoms(),
    {
        proof {
            use_type_invariant(self);
            vstd::arithmetic::mul::lemma_mul_unary_negation(
                self.mantissa as int,
                pow10((MAX_SCALE - self.scale) as nat),
            );
        }
        Amount { mantissa: -self.mantissa, scale: self.scale }
    }

    /// Whether the two amounts are the same number (`1.5` and `1.50` are).
    pub fn same_value(&self, other: &Amount) -> (r: bool)
        ensures
            r == (self.atoms() == other.atoms()),
    {
        proof {
            use_type_invariant(self);
            use_type_invariant(other);
        }
        if self.scale <= other.scale {
            Self::same_at_scale(self, other)
        } else {
            Self::same_at_scale(other, self)
        }
    }

    fn same_at_scale(a: &Amount, b: &Amount) -> (r: bool)
        requires
            a.scale <= b.scale <= MAX_SCALE,
            mantissa_fits(a.mantissa as int),
            mantissa_fits(b.mantissa as int),
        ensures
            r == (a.atoms() == b.atoms()),
    {
        let k = b.scale - a.scale;
        let ghost x = a.mantissa * pow10(k as nat);
        let ghost p = pow10((28 - b.scale) as nat);
        proof {
            lemma_rescaled_atoms(a.mantissa as int, a.scale as nat, b.scale as nat);
            lemma_rescaled_atoms(b.mantissa as int, b.scale as nat, b.scale as nat);
            assert(pow10(0) == 1);
            lemma_pow10_positive((28 - b.scale) as nat);
            assert(a.atoms() == x * p);
            assert(b.atoms() == b.mantissa * p);
            assert((x * p == b.mantissa * p) <==> (x == b.mantissa)) by (nonlinear_arith)
                requires
                    p >= 1,
            ;
        }
        match rescale(a.mantissa, k) {
            Some(m) => m == b.mantissa,
            None => false,
        }
    }

    /// The exact sum (see `sum_spec`).
    pub fn checked_add(&self, other: &Amount) -> (r: Option<Amount>)
        ensures
            r == self.sum_spec(*other),
    {
        proof {
            use_type_invariant(self);
            use_type_invariant(other);
            assert(pow10(0) == 1);
        }
        let s = if self.scale >= other.scale {
            self.scale
        } else {
            other.scale
        };
        let x = match rescale(self.mantissa, s - self.scale) {
            Some(x) => x,
            None => {
                return None;
            },
        };
        let y = match rescale(other.mantissa, s - other.scale) {
            Some(y) => y,
            None => {
                return None;
            },
        };
        let m = match x.checked_add(y) {
            Some(m) => m,
            None => {
                return None;
            },
        };
        if -MAX_MANTISSA <= m && m <= MAX_MANTISSA {
            Some(Amount { mantissa: m, scale: s })
        } else {
            None
        }
    }

    /// The exact difference (see `difference_spec`).
    pub fn checked_sub(&self, other: &Amount) -> (r: Option<Amount>)
        ensures
            r == self.difference_spec(*other),
    {
        proof {
            use_type_invariant(self);
            use_type_invariant(other);
        }
        let n = other.negated();
        let r = self.checked_add(&n);
        proof {
            let s = if self.scale >= other.scale {
                self.scale
            } else {
                other.scale
            };
            vstd::arithmetic::mul::lemma_mul_unary_negation(
                other.mantissa as int,
                pow10((s - other.scale) as nat),
            );
        }
        r
    }
}

/// The running sum of the amounts, in order; `None` where a step leaves the
/// range.
pub open spec fn total_of(s: Seq<Amount>) -> Option<Amount>
    decreases s.len(),
{
    if s.len() == 0 {
        Some(Amount::zero_spec())
    } else {
        match total_of(s.drop_last()) {
            Some(t) => t.sum_spec(s.last()),
            None => None,
        }
    }
}

/// The exact sum of the amounts, in units of `10^-28`.
pub open spec fn sum_atoms(s: Seq<Amount>) -> int
    decreases s.len(),
{
    if s.len() == 0 {
        0
    } else {
        sum_atoms(s.drop_last()) + s.last().atoms()
    }
}

/// Where the running sum exists it is exact.
pub proof fn lemma_total_is_exact(s: Seq<Amount>)
    ensures
        total_of(s) matches Some(t) ==> t.atoms() == sum_atoms(s),
    decreases s.len(),
{
    if s.len() == 0 {
        Amount::lemma_zero();
    } else {
        lemma_total_is_exact(s.drop_last());
        if let Some(t) = total_of(s.drop_last()) {
            t.lemma_sum(s.last());
        }
    }
}

/// The sum of the amounts, or `None` where it leaves the range.
pub fn total(amounts: &Vec<Amount>) -> (r: Option<Amount>)
    ensures
        r == total_of(amounts@),
{
    let mut acc = Amount::zero();
    let mut i: usize = 0;
    while i < amounts.len()
        invariant
            i <= amounts@.len(),
            total_of(amounts@.subrange(0, i as int)) == Some(acc),
        decreases amounts@.len() - i,
    {
        assert(amounts@.subrange(0, i + 1).drop_last() == amounts@.subrange(0, i as int));
        match acc.checked_add(&amounts[i]) {
            Some(t) => {
                acc = t;
            },
            None => {
                proof {
                    lemma_total_none_stays(amounts@, i as int + 1);
                }
                return None;
            },
        }
        i = i + 1;
    }
    assert(amounts@.subrange(0, amounts@.len() as int) == amounts@);
    Some(acc)
}

/// Once the running sum has left the range it stays out.
proof fn lemma_total_none_stays(s: Seq<Amount>, k: int)
    requires
        0 <= k <= s.len(),
        total_of(s.subrange(0, k)) is None,
    ensures
        total_of(s) is None,
    decreases s.len() - k,
{
    if k < s.len() {
        assert(s.subrange(0, k + 1).drop_last() == s.subrange(0, k));
        lemma_total_none_stays(s, k + 1);
    } else {
        assert(s.subrange(0, k) == s);
    }
}

impl PartialEq for Amount {
    fn eq(&self, other: &Amount) -> (r: bool) {
        self.same_value(other)
    }
}

impl vstd::std_specs::cmp::PartialEqSpecImpl for Amount {
    open spec fn obeys_eq_spec() -> bool {
        true
    }

    open spec fn eq_spec(&self, other: &Amount) -> bool {
        self.atoms() == other.atoms()
    }
}

} // verus!
