//! A fixed-capacity string kept in an `N`-byte array: its text runs up to the
//! first zero byte, or fills the whole array when there is none.
use vstd::prelude::*;
use vstd::string::StringSliceAdditionalSpecFns;
use vstd::utf8::valid_utf8;

verus! {

pub struct StackString<const N: usize> {
    bytes: [u8; N],
}

impl<const N: usize> View for StackString<N> {
    type V = Seq<u8>;

    /// All `N` bytes, the zero padding included.
    closed spec fn view(&self) -> Seq<u8> {
        self.bytes@
    }
}

/// A string's view holds all `N` bytes.
pub broadcast proof fn lemma_view_len<const N: usize>(s: StackString<N>)
    ensures
        #[trigger] s@.len() == N,
{
}

/// The position of the first zero byte of `s` at or after `i`, or `s.len()`.
pub open spec fn first_zero_from(s: Seq<u8>, i: int) -> int
    decreases s.len() - i,
{
    if i >= s.len() {
        s.len() as int
    } else if s[i] == 0 {
        i
    } else {
        first_zero_from(s, i + 1)
    }
}

/// The length of the text held in `s`: the position of its first zero byte.
pub open spec fn text_len(s: Seq<u8>) -> int {
    first_zero_from(s, 0)
}

/// The text held in `s`.
pub open spec fn text_of(s: Seq<u8>) -> Seq<u8> {
    s.take(text_len(s))
}

/// Clears trailing spaces and newlines, scanning down from position `i`: zero bytes
/// are passed over, a space or newline is replaced by zero, and any other byte stops
/// the scan.
pub open spec fn trim_from(s: Seq<u8>, i: int) -> Seq<u8>
    decreases i + 1,
{
    if i < 0 || i >= s.len() {
        s
    } else if s[i] == 0 {
        trim_from(s, i - 1)
    } else if s[i] == 32 || s[i] == 10 {
        trim_from(s.update(i, 0), i - 1)
    } else {
        s
    }
}

/// ASCII lower-casing of one byte: `A` to `Z` become `a` to `z`, all else stays.
pub open spec fn ascii_lower(b: u8) -> u8 {
    if 65 <= b <= 90 {
        (b + 32) as u8
    } else {
        b
    }
}

/// The number of decimal digits of `n`.
pub open spec fn decimal_len(n: nat) -> nat
    decreases n,
{
    if n < 10 {
        1
    } else {
        1 + decimal_len(n / 10)
    }
}

/// The ASCII decimal digits of `n`, most significant first, without leading zeros.
pub open spec fn decimal_digits(n: nat) -> Seq<u8>
    decreases n,
{
    if n < 10 {
        seq![(48 + n) as u8]
    } else {
        decimal_digits(n / 10).push((48 + n % 10) as u8)
    }
}

/// `std::str::from_utf8`: the bytes as a string slice when they are valid UTF-8.
#[verifier::external_body]
fn str_from_utf8(bytes: &[u8]) -> (r: Option<&str>)
    ensures
        r is Some <==> valid_utf8(bytes@),
        r matches Some(s) ==> s.spec_bytes() == bytes@,
{
    std::str::from_utf8(bytes).ok()
}

impl<const N: usize> StackString<N> {
    /// The text: the bytes before the first zero byte.
    pub open spec fn text(&self) -> Seq<u8> {
        text_of(self@)
    }

    /// An empty string: all bytes zero.
    pub fn new() -> (s: Self)
        ensures
            s@ == Seq::new(N as nat, |i: int| 0u8),
    {
        let s = Self { bytes: [0u8; N] };
        assert(s@ =~= Seq::new(N as nat, |i: int| 0u8));
        s
    }

    /// Appends `s` after the text.  The result must leave at least one zero byte.
    pub fn add(self, s: &str) -> (r: Self)
        requires
            text_len(self@) + s.spec_bytes().len() < N,
        ensures
            r@ == self@.take(text_len(self@)) + s.spec_bytes() + self@.skip(
                text_len(self@) + s.spec_bytes().len(),
            ),
    {
        let mut this = self;
        let source = s.as_bytes();
        let len = this.len();
        let new_len = len + source.len();
        let ghost before = this@;
        let mut k: usize = 0;
        while k < source.len()
            invariant
                len == text_len(before),
                new_len == len + source@.len(),
                new_len < N,
                k <= source@.len(),
                this.bytes@.len() == N,
                before.len() == N,
                forall|j: int| 0 <= j < len ==> this.bytes@[j] == before[j],
                forall|j: int| 0 <= j < k ==> this.bytes@[len + j] == source@[j],
                forall|j: int| len + k <= j < N ==> this.bytes@[j] == before[j],
            decreases source@.len() - k,
        {
            this.bytes[len + k] = source[k];
            k += 1;
        }
        assert(this@ =~= before.take(len as int) + source@ + before.skip(new_len as int));
        this
    }

    /// The length of the text: the position of the first zero byte, or `N`.
    pub fn len(&self) -> (n: usize)
        ensures
            n == text_len(self@),
            n <= N,
    {
        let mut i: usize = 0;
        while i < N
            invariant
                i <= N,
                self.bytes@.len() == N,
                first_zero_from(self@, 0) == first_zero_from(self@, i as int),
            decreases N - i,
        {
            if self.bytes[i] == 0 {
                return i;
            }
            i += 1;
        }
        N
    }

    /// Clears the spaces and newlines that end the text.
    pub fn trim_end(self) -> (r: Self)
        ensures
            r@ == trim_from(self@, N - 1),
    {
        let mut this = self;
        let ghost before = self@;
        let mut i: usize = N;
        while i > 0
            invariant
                i <= N,
                this.bytes@.len() == N,
                before.len() == N,
                before == self@,
                trim_from(before, N - 1) == trim_from(this@, i - 1),
            decreases i,
        {
            let k = i - 1;
            if this.bytes[k] != 0 {
                if this.bytes[k] == 32 || this.bytes[k] == 10 {
                    this.bytes[k] = 0;
                } else {
                    assert(trim_from(this@, k as int) == this@);
                    return this;
                }
            }
            i = k;
        }
        this
    }

    /// Lower-cases every ASCII letter.
    pub fn into_lowercase(self) -> (r: Self)
        ensures
            r@ == self@.map_values(|b: u8| ascii_lower(b)),
    {
        let mut this = self;
        let ghost before = self@;
        let mut i: usize = 0;
        while i < N
            invariant
                i <= N,
                this.bytes@.len() == N,
                before.len() == N,
                forall|j: int| 0 <= j < i ==> this.bytes@[j] == ascii_lower(before[j]),
                forall|j: int| i <= j < N ==> this.bytes@[j] == before[j],
            decreases N - i,
        {
            let c = this.bytes[i];
            if 65 <= c && c <= 90 {
                this.bytes[i] = c + 32;
            }
            i += 1;
        }
        assert(this@ =~= before.map_values(|b: u8| ascii_lower(b)));
        this
    }

    /// The text as a string slice; it must be valid UTF-8.
    pub fn as_str(&self) -> (s: &str)
        requires
            valid_utf8(self.text()),
        ensures
            s.spec_bytes() == self.text(),
    {
        let len = self.len();
        let all = self.bytes.as_slice();
        let prefix = vstd::slice::slice_subrange(all, 0, len);
        assert(prefix@ =~= self.text());
        match str_from_utf8(prefix) {
            Some(s) => s,
            None => {
                assert(false);
                ""
            },
        }
    }

    /// The text as bytes.
    pub fn as_bytes(&self) -> (b: &[u8])
        ensures
            b@ == self.text(),
    {
        let len = self.len();
        let all = self.bytes.as_slice();
        let prefix = vstd::slice::slice_subrange(all, 0, len);
        assert(prefix@ =~= self.text());
        prefix
    }

    /// The string holding `s`, which must leave at least one zero byte.
    pub fn from_text(s: &str) -> (r: Self)
        requires
            s.spec_bytes().len() < N,
        ensures
            r@ == s.spec_bytes() + Seq::new((N - s.spec_bytes().len()) as nat, |i: int| 0u8),
    {
        let empty = Self::new();
        assert(text_len(empty@) == 0) by {
            if N > 0 {
                assert(empty@[0] == 0);
            }
        }
        let r = empty.add(s);
        proof {
            let b = s.spec_bytes();
            assert(r@ =~= b + Seq::new((N - b.len()) as nat, |i: int| 0u8));
        }
        r
    }

    /// The decimal digits of `n`.
    pub fn from_u8(n: u8) -> (r: Self)
        requires
            decimal_len(n as nat) <= N,
        ensures
            r@ == decimal_digits(n as nat) + Seq::new(
                (N - decimal_len(n as nat)) as nat,
                |i: int| 0u8,
            ),
    {
        Self::from(number_to_base_10_bytes::<N>(n as u32))
    }

    /// The decimal digits of `n`.
    pub fn from_u32(n: u32) -> (r: Self)
        requires
            decimal_len(n as nat) <= N,
        ensures
            r@ == decimal_digits(n as nat) + Seq::new(
                (N - decimal_len(n as nat)) as nat,
                |i: int| 0u8,
            ),
    {
        Self::from(number_to_base_10_bytes::<N>(n))
    }
}

impl<const N: usize> From<[u8; N]> for StackString<N> {
    fn from(bytes: [u8; N]) -> (s: Self)
        ensures
            s@ == bytes@,
    {
        Self { bytes }
    }
}

impl<const N: usize> vstd::std_specs::convert::FromSpecImpl<[u8; N]> for StackString<N> {
    open spec fn obeys_from_spec() -> bool {
        true
    }

    closed spec fn from_spec(v: [u8; N]) -> StackString<N> {
        StackString { bytes: v }
    }
}

/// The string whose bytes are `v` (of length `N`).
pub closed spec fn stack_string_of<const N: usize>(v: Seq<u8>) -> StackString<N> {
    choose|s: StackString<N>| s@ == v
}

/// A string is determined by its bytes.
pub broadcast proof fn lemma_stack_string_of_view<const N: usize>(s: StackString<N>)
    ensures
        #[trigger] stack_string_of::<N>(s@) == s,
{
    let t = stack_string_of::<N>(s@);
    assert(t@ == s@);
    assert(t.bytes =~= s.bytes);
}

/// The text of bytes `b` followed by `pad` zero bytes is `b`, when `b` holds no zero.
pub proof fn lemma_text_of_padded(b: Seq<u8>, pad: nat)
    requires
        forall|i: int| 0 <= i < b.len() ==> b[i] != 0,
    ensures
        text_of(b + Seq::new(pad, |i: int| 0u8)) == b,
{
    let s = b + Seq::new(pad, |i: int| 0u8);
    lemma_first_zero_skips(s, 0, b.len() as int);
    assert(s.take(b.len() as int) =~= b);
}

/// `first_zero_from` passes over a stretch of non-zero bytes, and stops at a zero.
pub proof fn lemma_first_zero_skips(s: Seq<u8>, i: int, j: int)
    requires
        0 <= i <= j <= s.len(),
        forall|k: int| i <= k < j ==> s[k] != 0,
        j == s.len() || s[j] == 0,
    ensures
        first_zero_from(s, i) == j,
    decreases j - i,
{
    if i < j {
        lemma_first_zero_skips(s, i + 1, j);
    }
}

/// The ASCII decimal digits of `n`, followed by zero bytes up to `N`.
pub fn number_to_base_10_bytes<const N: usize>(n: u32) -> (buffer: [u8; N])
    requires
        decimal_len(n as nat) <= N,
    ensures
        buffer@ == decimal_digits(n as nat) + Seq::new(
            (N - decimal_len(n as nat)) as nat,
            |i: int| 0u8,
        ),
{
    // The number of digits.
    let mut l: usize = 1;
    let mut m: u32 = n;
    proof {
        lemma_decimal_len_bound(n as nat);
    }
    while m >= 10
        invariant
            1 <= l,
            decimal_len(n as nat) == l - 1 + decimal_len(m as nat),
            decimal_len(n as nat) <= 10,
        decreases m,
    {
        m /= 10;
        l += 1;
    }
    let ghost digits = decimal_digits(n as nat);
    proof {
        lemma_decimal_digits_len(n as nat);
    }
    let mut buffer = [0u8; N];
    assert(buffer@ =~= Seq::new(N as nat, |i: int| 0u8));
    let mut rest: u32 = n;
    let mut i: usize = l;
    if rest == 0 {
        i -= 1;
        buffer[i] = 48;
        proof {
            assert(buffer@ =~= digits + Seq::new((N - l) as nat, |i: int| 0u8));
        }
    } else {
        assert(digits.take(i as int) =~= digits);
        while rest > 0 && i > 0
            invariant
                l == decimal_len(n as nat),
                l <= N,
                i <= l,
                buffer@.len() == N,
                digits == decimal_digits(n as nat),
                digits.len() == l,
                rest == 0 ==> i == 0,
                i > 0 ==> rest > 0,
                i > 0 ==> decimal_digits(rest as nat) == digits.take(i as int),
                forall|j: int| i <= j < l ==> buffer@[j] == digits[j],
                forall|j: int| l <= j < N ==> buffer@[j] == 0,
            decreases i,
        {
            let ghost old_rest = rest as nat;
            let ghost old_i = i as int;
            proof {
                lemma_decimal_split(old_rest);
                lemma_decimal_digits_len(old_rest);
                assert(digits.take(old_i).len() == old_i);
            }
            i -= 1;
            buffer[i] = 48 + (rest % 10) as u8;
            rest /= 10;
            proof {
                assert(decimal_digits(old_rest)[old_i - 1] == (48 + old_rest % 10) as u8);
                assert(digits.take(old_i)[old_i - 1] == digits[old_i - 1]);
                if i > 0 {
                    assert(old_rest >= 10);
                    assert(decimal_digits(rest as nat) =~= decimal_digits(old_rest).drop_last());
                    assert(digits.take(old_i).drop_last() =~= digits.take(i as int));
                }
            }
        }
        proof {
            assert(buffer@ =~= digits + Seq::new((N - l) as nat, |i: int| 0u8));
        }
    }
    buffer
}

/// A `u32` has at most ten decimal digits.
pub proof fn lemma_decimal_len_bound(n: nat)
    requires
        n < 4294967296,
    ensures
        decimal_len(n) <= 10,
{
    reveal_with_fuel(decimal_len, 11);
}

/// The digits of `n >= 10` are those of `n / 10` followed by its last digit.
proof fn lemma_decimal_split(n: nat)
    requires
        n > 0,
    ensures
        n >= 10 ==> decimal_len(n) == decimal_len(n / 10) + 1,
        n >= 10 ==> decimal_digits(n) == decimal_digits(n / 10).push((48 + n % 10) as u8),
        n < 10 ==> decimal_len(n) == 1,
        n < 10 ==> decimal_digits(n) == seq![(48 + n) as u8],
        decimal_digits(n).len() == decimal_len(n),
{
    lemma_decimal_digits_len(n);
}

/// There is one digit per decimal place.
pub proof fn lemma_decimal_digits_len(n: nat)
    ensures
        decimal_digits(n).len() == decimal_len(n),
        forall|i: int| 0 <= i < decimal_digits(n).len() ==> 48 <= #[trigger] decimal_digits(n)[i] <= 57,
    decreases n,
{
    if n >= 10 {
        lemma_decimal_digits_len(n / 10);
    }
}

} // verus!
