//! Decimal numbers as ASCII text.
use crate::text::{ascii_chars, is_whitespace, trim, trim_start, trimmed};
use crate::text::{from_utf8, lemma_ascii_text};
use vstd::arithmetic::div_mod::{lemma_add_mod_noop, lemma_mul_mod_noop_left};
use vstd::prelude::*;
use vstd::std_specs::convert::FromSpecImpl;
use vstd::string::StringSliceAdditionalSpecFns;
use vstd::utf8::encode_utf8_decode_utf8;

verus! {

/// Carriage return.
pub const CR: u8 = 13;

/// Line feed.
pub const LF: u8 = 10;

/// Space.
pub const SP: u8 = 32;

/// Colon.
pub const COLON: u8 = 58;

/// The digit zero.
pub const ZERO: u8 = 48;

/// True of the bytes `0` to `9`.
pub open spec fn is_digit(b: u8) -> bool {
    48 <= b <= 57
}

/// True when every byte of `s` is a decimal digit.
pub open spec fn all_digits(s: Seq<u8>) -> bool {
    forall|i: int| 0 <= i < s.len() ==> is_digit(#[trigger] s[i])
}

/// The number that a string of decimal digits denotes.
pub open spec fn decimal_value(s: Seq<u8>) -> nat
    decreases s.len(),
{
    if s.len() == 0 {
        0
    } else {
        decimal_value(s.drop_last()) * 10 + (s.last() - 48) as nat
    }
}

/// What `atoi` makes of `s`: nothing unless `s` is a non-empty string of
/// digits whose length fits 32 bits, and else its value, reduced modulo 2^32.
pub open spec fn unsigned_of(s: Seq<u8>) -> Option<u32> {
    if s.len() == 0 || s.len() > u32::MAX || !all_digits(s) {
        None
    } else {
        Some((decimal_value(s) % 0x1_0000_0000) as u32)
    }
}

/// Reads an unsigned decimal number. Input that is empty, or that holds any
/// byte but digits, gives nothing. A value beyond 32 bits wraps around.
pub fn atoi(data: &[u8]) -> (r: Option<u32>)
    ensures
        r == unsigned_of(data@),
        r is None <==> data@.len() == 0 || data@.len() > u32::MAX || !all_digits(data@),
{
    if data.len() == 0 || data.len() > u32::MAX as usize {
        return None;
    }
    let mut val: u32 = 0;
    let mut i: usize = 0;
    while i < data.len()
        invariant
            i <= data@.len(),
            forall|j: int| 0 <= j < i ==> is_digit(#[trigger] data@[j]),
            val == decimal_value(data@.subrange(0, i as int)) % 0x1_0000_0000,
        decreases data@.len() - i,
    {
        let d = data[i];
        if d < 48 || d > 57 {
            return None;
        }
        let ghost before = decimal_value(data@.subrange(0, i as int));
        proof {
            let next = data@.subrange(0, i + 1);
            assert(next.drop_last() =~= data@.subrange(0, i as int));
            assert(decimal_value(next) == before * 10 + (d - 48));
            let m = 0x1_0000_0000int;
            let b = before as int;
            let x = (d - 48) as int;
            assert((b % m) * 10 % m == b * 10 % m) by {
                lemma_mul_mod_noop_left(b, 10, m);
            }
            assert(((b * 10) % m + x) % m == (b * 10 + x) % m) by {
                lemma_add_mod_noop(b * 10, x, m);
            }
        }
        val = val.wrapping_mul(10).wrapping_add((d - 48) as u32);
        i += 1;
    }
    assert(data@.subrange(0, i as int) =~= data@);
    Some(val)
}

/// The shortest decimal representation of `n`.
pub open spec fn digits(n: nat) -> Seq<u8>
    decreases n,
{
    if n < 10 {
        seq![(48 + n) as u8]
    } else {
        digits(n / 10).push((48 + n % 10) as u8)
    }
}

/// `text` at the right end of a field of 20 cells, with spaces before it.
pub open spec fn padded(text: Seq<u8>) -> Seq<u8> {
    Seq::new((20 - text.len()) as nat, |i: int| SP) + text
}

/// 10 to the power `k`.
pub open spec fn ten_to(k: nat) -> nat
    decreases k,
{
    if k == 0 {
        1
    } else {
        10 * ten_to((k - 1) as nat)
    }
}

/// What `digits` writes is a string of digits that denotes the number.
pub proof fn lemma_digits(n: nat)
    ensures
        digits(n).len() >= 1,
        all_digits(digits(n)),
        decimal_value(digits(n)) == n,
    decreases n,
{
    if n < 10 {
        assert(digits(n).drop_last() =~= Seq::<u8>::empty());
        assert(decimal_value(digits(n).drop_last()) == 0);
    } else {
        lemma_digits(n / 10);
        assert(digits(n).drop_last() =~= digits(n / 10));
    }
}

/// A number below 10^k has at most k digits.
pub proof fn lemma_digits_len(n: nat, k: nat)
    requires
        k >= 1,
        n < ten_to(k),
    ensures
        digits(n).len() <= k,
    decreases k,
{
    if n >= 10 {
        assert(ten_to(1) == 10) by {
            reveal_with_fuel(ten_to, 2);
        }
        lemma_digits_len(n / 10, (k - 1) as nat);
    }
}

/// A 64-bit number has at most 20 digits.
pub proof fn lemma_digits_of_u64(n: u64)
    ensures
        1 <= digits(n as nat).len() <= 20,
{
    assert(ten_to(20) == 100_000_000_000_000_000_000) by {
        reveal_with_fuel(ten_to, 21);
    }
    lemma_digits_len(n as nat, 20);
    lemma_digits(n as nat);
}

/// Reading back the decimal representation of a number gives the number,
/// reduced modulo 2^32: every number of 32 bits, and so every number of up to
/// nine digits, is read back unchanged.
pub proof fn lemma_read_back(n: u64)
    ensures
        unsigned_of(digits(n as nat)) == Some((n % 0x1_0000_0000) as u32),
        n <= u32::MAX ==> unsigned_of(digits(n as nat)) == Some(n as u32),
{
    lemma_digits(n as nat);
    lemma_digits_of_u64(n);
}

proof fn lemma_trim_start_spaces(k: nat, t: Seq<char>)
    requires
        t.len() > 0,
        !is_whitespace(t.first()),
    ensures
        trim_start(Seq::new(k, |i: int| ' ') + t) == t,
    decreases k,
{
    let s = Seq::new(k, |i: int| ' ') + t;
    if k == 0 {
        assert(s =~= t);
    } else {
        assert(s.first() == ' ');
        assert(s.drop_first() =~= Seq::new((k - 1) as nat, |i: int| ' ') + t);
        lemma_trim_start_spaces((k - 1) as nat, t);
    }
}

/// Trimming a padded number leaves its digits.
proof fn lemma_trim_padded(text: Seq<u8>)
    requires
        1 <= text.len() <= 20,
        all_digits(text),
    ensures
        trimmed(ascii_chars(padded(text))) == ascii_chars(text),
{
    let t = ascii_chars(text);
    let k = (20 - text.len()) as nat;
    assert(is_digit(text[0]));
    assert(is_digit(text[text.len() - 1]));
    assert(ascii_chars(padded(text)) =~= Seq::new(k, |i: int| ' ') + t);
    lemma_trim_start_spaces(k, t);
    assert(!is_whitespace(t.last()));
}

/// An unsigned number as decimal text, right-justified in 20 cells.
pub struct AsciiInt {
    cells: [u8; 20],
    number: Ghost<nat>,
}

impl AsciiInt {
    #[verifier::type_invariant]
    spec fn well_formed(self) -> bool {
        &&& self.number@ <= u64::MAX
        &&& self.cells@ == padded(digits(self.number@))
    }

    /// The number that the text denotes.
    pub closed spec fn value(self) -> nat {
        self.number@
    }

    /// The 20 cells.
    pub closed spec fn cells(self) -> Seq<u8> {
        self.cells@
    }

    /// The digits, without the padding.
    pub fn as_str(&self) -> (r: &str)
        ensures
            r.spec_bytes() == digits(self.value()),
            r@ == ascii_chars(digits(self.value())),
    {
        proof {
            use_type_invariant(self);
            lemma_digits(self.number@);
            lemma_digits_of_u64(self.number@ as u64);
            lemma_trim_padded(digits(self.number@));
            assert(forall|i: int|
                0 <= i < self.cells@.len() ==> #[trigger] self.cells@[i] < 128) by {
                assert(forall|i: int|
                    0 <= i < digits(self.number@).len() ==> is_digit(
                        #[trigger] digits(self.number@)[i],
                    ));
            }
            lemma_ascii_text(self.cells@);
            lemma_ascii_text(digits(self.number@));
        }
        match from_utf8(self.cells.as_slice()) {
            Some(s) => {
                proof {
                    encode_utf8_decode_utf8(s@);
                }
                trim(s)
            },
            // never: the cells hold ASCII
            None => "",
        }
    }
}

impl From<u64> for AsciiInt {
    /// The decimal representation of `value`, at the right end of the cells.
    fn from(value: u64) -> (r: AsciiInt)
        ensures
            r.value() == value,
            r.cells() == padded(digits(value as nat)),
    {
        let mut cells = [SP; 20];
        let mut rest = value;
        let mut at: usize = 20;
        proof {
            lemma_digits_of_u64(value);
            assert(cells@.subrange(20, 20) =~= Seq::<u8>::empty());
            assert(digits(rest as nat) + cells@.subrange(20, 20) =~= digits(rest as nat));
        }
        loop
            invariant_except_break
                digits(value as nat) == digits(rest as nat) + cells@.subrange(at as int, 20),
            invariant
                at <= 20,
                digits(value as nat).len() <= 20,
                forall|i: int| 0 <= i < at ==> cells@[i] == SP,
            ensures
                digits(value as nat) == cells@.subrange(at as int, 20),
            decreases at,
        {
            proof {
                lemma_digits(rest as nat);
            }
            let ghost before = cells@;
            let d = (rest % 10) as u8;
            at -= 1;
            cells[at] = d + ZERO;
            assert(cells@.subrange(at as int, 20) =~= seq![(48 + d) as u8] + before.subrange(
                at + 1,
                20,
            ));
            if rest < 10 {
                break ;
            }
            rest = rest / 10;
            assert(digits(value as nat) =~= digits(rest as nat) + cells@.subrange(at as int, 20));
        }
        assert(cells@ =~= padded(digits(value as nat)));
        AsciiInt { cells, number: Ghost(value as nat) }
    }
}

impl FromSpecImpl<u64> for AsciiInt {
    open spec fn obeys_from_spec() -> bool {
        false
    }

    open spec fn from_spec(value: u64) -> Self {
        arbitrary()
    }
}

} // verus!
