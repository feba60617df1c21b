use vstd::prelude::*;

verus! {

// ---------------------------------------------------------------------------
// Decimal numerals.
// ---------------------------------------------------------------------------

pub open spec fn is_dec_digit(b: u8) -> bool {
    48 <= b <= 57
}

pub open spec fn dec_val(b: u8) -> int {
    b - 48
}

pub open spec fn dec_digit(d: int) -> u8 {
    (48 + d) as u8
}

/// The minimal decimal numeral of a non-negative number.
pub open spec fn dec_text(n: int) -> Seq<u8>
    decreases n,
{
    if n < 10 {
        seq![dec_digit(n)]
    } else {
        dec_text(n / 10) + seq![dec_digit(n % 10)]
    }
}

/// The number named by an all-digit string.
pub open spec fn dec_of(s: Seq<u8>) -> int
    decreases s.len(),
{
    if s.len() == 0 {
        0
    } else {
        dec_of(s.drop_last()) * 10 + dec_val(s.last())
    }
}

pub open spec fn all_dec_digits(s: Seq<u8>) -> bool {
    forall|i: int| 0 <= i < s.len() ==> is_dec_digit(#[trigger] s[i])
}

/// The canonical decimal numeral of a value up to `max`: nonempty, digits
/// only, no leading zero, in range.
pub open spec fn is_canon_dec(s: Seq<u8>, max: int) -> bool {
    &&& s.len() > 0
    &&& all_dec_digits(s)
    &&& (s.len() > 1 ==> s[0] != 48)
    &&& dec_of(s) <= max
}

pub open spec fn parse_dec(s: Seq<u8>, max: int) -> Option<int> {
    if is_canon_dec(s, max) {
        Some(dec_of(s))
    } else {
        None
    }
}

pub proof fn lemma_dec_text_props(n: int)
    requires
        0 <= n,
    ensures
        dec_text(n).len() >= 1,
        all_dec_digits(dec_text(n)),
        dec_of(dec_text(n)) == n,
        n >= 1 ==> dec_text(n)[0] != 48,
        dec_text(n).len() > 1 ==> dec_text(n)[0] != 48,
    decreases n,
{
    if n < 10 {
        let s = seq![dec_digit(n)];
        assert(s.drop_last() =~= Seq::<u8>::empty());
        assert(dec_of(Seq::<u8>::empty()) == 0);
        assert(s.last() == dec_digit(n));
        assert(dec_of(s) == dec_val(dec_digit(n)));
        assert(dec_text(n).len() == 1);
    } else {
        lemma_dec_text_props(n / 10);
        vstd::arithmetic::div_mod::lemma_fundamental_div_mod(n, 10);
        let a = dec_text(n / 10);
        let s = a + seq![dec_digit(n % 10)];
        assert(s.drop_last() =~= a);
        assert(s.last() == dec_digit(n % 10));
        assert(dec_of(s) == dec_of(a) * 10 + dec_val(dec_digit(n % 10)));
        assert(all_dec_digits(s)) by {
            assert(forall|i: int| 0 <= i < a.len() ==> s[i] == a[i]);
            assert(s[a.len() as int] == dec_digit(n % 10));
        }
        assert(s[0] == a[0]);
    }
}

pub proof fn lemma_dec_of_nonneg(s: Seq<u8>)
    requires
        all_dec_digits(s),
    ensures
        dec_of(s) >= 0,
    decreases s.len(),
{
    if s.len() > 0 {
        assert(all_dec_digits(s.drop_last())) by {
            assert(forall|i: int| 0 <= i < s.len() - 1 ==> s.drop_last()[i] == s[i]);
        }
        lemma_dec_of_nonneg(s.drop_last());
    }
}

/// A longer numeral never names a smaller number: the value of any prefix
/// is a lower bound.
pub proof fn lemma_dec_of_prefix(s: Seq<u8>, k: int)
    requires
        all_dec_digits(s),
        0 <= k <= s.len(),
    ensures
        dec_of(s.take(k)) <= dec_of(s),
    decreases s.len() - k,
{
    if k < s.len() {
        lemma_dec_of_prefix(s, k + 1);
        assert(s.take(k + 1).drop_last() =~= s.take(k));
        assert(s.take(k + 1).last() == s[k]);
        assert(all_dec_digits(s.take(k))) by {
            assert(forall|i: int| 0 <= i < k ==> s.take(k)[i] == s[i]);
        }
        lemma_dec_of_nonneg(s.take(k));
        assert(dec_of(s.take(k + 1)) == dec_of(s.take(k)) * 10 + dec_val(s[k]));
    } else {
        assert(s.take(k) =~= s);
    }
}

// ---------------------------------------------------------------------------
// Hexadecimal numerals (lowercase).
// ---------------------------------------------------------------------------

pub open spec fn is_hex_digit(b: u8) -> bool {
    (48 <= b <= 57) || (97 <= b <= 102)
}

pub open spec fn hex_val(b: u8) -> int {
    if b <= 57 {
        b - 48
    } else {
        b - 87
    }
}

pub open spec fn hex_digit(d: int) -> u8 {
    if d < 10 {
        (48 + d) as u8
    } else {
        (87 + d) as u8
    }
}

/// The minimal lowercase hexadecimal numeral of a non-negative number.
pub open spec fn hex_text(n: int) -> Seq<u8>
    decreases n,
{
    if n < 16 {
        seq![hex_digit(n)]
    } else {
        hex_text(n / 16) + seq![hex_digit(n % 16)]
    }
}

pub open spec fn hex_of(s: Seq<u8>) -> int
    decreases s.len(),
{
    if s.len() == 0 {
        0
    } else {
        hex_of(s.drop_last()) * 16 + hex_val(s.last())
    }
}

pub open spec fn all_hex_digits(s: Seq<u8>) -> bool {
    forall|i: int| 0 <= i < s.len() ==> is_hex_digit(#[trigger] s[i])
}

pub open spec fn is_canon_hex(s: Seq<u8>, max: int) -> bool {
    &&& s.len() > 0
    &&& all_hex_digits(s)
    &&& (s.len() > 1 ==> s[0] != 48)
    &&& hex_of(s) <= max
}

pub open spec fn parse_hex(s: Seq<u8>, max: int) -> Option<int> {
    if is_canon_hex(s, max) {
        Some(hex_of(s))
    } else {
        None
    }
}

pub proof fn lemma_hex_text_props(n: int)
    requires
        0 <= n,
    ensures
        hex_text(n).len() >= 1,
        all_hex_digits(hex_text(n)),
        hex_of(hex_text(n)) == n,
        n >= 1 ==> hex_text(n)[0] != 48,
        hex_text(n).len() > 1 ==> hex_text(n)[0] != 48,
    decreases n,
{
    if n < 16 {
        let s = seq![hex_digit(n)];
        assert(s.drop_last() =~= Seq::<u8>::empty());
        assert(hex_of(Seq::<u8>::empty()) == 0);
        assert(s.last() == hex_digit(n));
        assert(hex_of(s) == hex_val(hex_digit(n)));
        assert(hex_text(n).len() == 1);
    } else {
        lemma_hex_text_props(n / 16);
        vstd::arithmetic::div_mod::lemma_fundamental_div_mod(n, 16);
        let a = hex_text(n / 16);
        let s = a + seq![hex_digit(n % 16)];
        assert(s.drop_last() =~= a);
        assert(s.last() == hex_digit(n % 16));
        assert(hex_of(s) == hex_of(a) * 16 + hex_val(hex_digit(n % 16)));
        assert(all_hex_digits(s)) by {
            assert(forall|i: int| 0 <= i < a.len() ==> s[i] == a[i]);
            assert(s[a.len() as int] == hex_digit(n % 16));
        }
        assert(s[0] == a[0]);
    }
}

pub proof fn lemma_hex_of_nonneg(s: Seq<u8>)
    requires
        all_hex_digits(s),
    ensures
        hex_of(s) >= 0,
    decreases s.len(),
{
    if s.len() > 0 {
        assert(all_hex_digits(s.drop_last())) by {
            assert(forall|i: int| 0 <= i < s.len() - 1 ==> s.drop_last()[i] == s[i]);
        }
        lemma_hex_of_nonneg(s.drop_last());
    }
}

pub proof fn lemma_hex_of_prefix(s: Seq<u8>, k: int)
    requires
        all_hex_digits(s),
        0 <= k <= s.len(),
    ensures
        hex_of(s.take(k)) <= hex_of(s),
    decreases s.len() - k,
{
    if k < s.len() {
        lemma_hex_of_prefix(s, k + 1);
        assert(s.take(k + 1).drop_last() =~= s.take(k));
        assert(s.take(k + 1).last() == s[k]);
        assert(all_hex_digits(s.take(k))) by {
            assert(forall|i: int| 0 <= i < k ==> s.take(k)[i] == s[i]);
        }
        lemma_hex_of_nonneg(s.take(k));
        assert(hex_of(s.take(k + 1)) == hex_of(s.take(k)) * 16 + hex_val(s[k]));
    } else {
        assert(s.take(k) =~= s);
    }
}

/// A string of digits cannot contain a non-digit byte.
pub proof fn lemma_digits_no_byte(s: Seq<u8>, b: u8)
    requires
        all_dec_digits(s),
        !is_dec_digit(b),
    ensures
        !s.contains(b),
{
    if s.contains(b) {
        let i = choose|i: int| 0 <= i < s.len() && s[i] == b;
        assert(is_dec_digit(s[i]));
    }
}

pub proof fn lemma_hex_no_byte(s: Seq<u8>, b: u8)
    requires
        all_hex_digits(s),
        !is_hex_digit(b),
    ensures
        !s.contains(b),
{
    if s.contains(b) {
        let i = choose|i: int| 0 <= i < s.len() && s[i] == b;
        assert(is_hex_digit(s[i]));
    }
}

// ---------------------------------------------------------------------------
// Finding a separator.
// ---------------------------------------------------------------------------

/// Index of the first occurrence of `b`, or -1.
pub open spec fn find_byte(s: Seq<u8>, b: u8) -> int
    decreases s.len(),
{
    if s.len() == 0 {
        -1
    } else if s[0] == b {
        0
    } else {
        let r = find_byte(s.drop_first(), b);
        if r < 0 {
            -1
        } else {
            r + 1
        }
    }
}

pub proof fn lemma_find_byte_here(s: Seq<u8>, b: u8, k: int)
    requires
        0 <= k < s.len(),
        s[k] == b,
        forall|j: int| 0 <= j < k ==> s[j] != b,
    ensures
        find_byte(s, b) == k,
    decreases k,
{
    if k > 0 {
        assert(forall|j: int| 0 <= j < k - 1 ==> s.drop_first()[j] == s[j + 1]);
        assert(s.drop_first()[k - 1] == s[k]);
        lemma_find_byte_here(s.drop_first(), b, k - 1);
    }
}

pub proof fn lemma_find_byte_none(s: Seq<u8>, b: u8)
    requires
        forall|j: int| 0 <= j < s.len() ==> s[j] != b,
    ensures
        find_byte(s, b) == -1,
    decreases s.len(),
{
    if s.len() > 0 {
        assert(forall|j: int| 0 <= j < s.len() - 1 ==> s.drop_first()[j] == s[j + 1]);
        lemma_find_byte_none(s.drop_first(), b);
    }
}

// ---------------------------------------------------------------------------
// Executable counterparts.
// ---------------------------------------------------------------------------

/// Append the minimal decimal numeral of `n`.
pub fn push_dec(buf: &mut Vec<u8>, n: u32)
    ensures
        final(buf)@ == old(buf)@ + dec_text(n as int),
    decreases n,
{
    if n < 10 {
        buf.push((48 + n) as u8);
        assert(buf@ =~= old(buf)@ + dec_text(n as int));
    } else {
        push_dec(buf, n / 10);
        buf.push((48 + n % 10) as u8);
        assert(buf@ =~= old(buf)@ + dec_text(n as int)) by {
            assert(dec_text(n as int) =~= dec_text(n as int / 10) + seq![
                dec_digit(n as int % 10),
            ]);
        }
    }
}

/// Append the minimal lowercase hexadecimal numeral of `n`.
pub fn push_hex(buf: &mut Vec<u8>, n: u16)
    ensures
        final(buf)@ == old(buf)@ + hex_text(n as int),
    decreases n,
{
    if n < 16 {
        let d: u8 = if n < 10 {
            (48 + n) as u8
        } else {
            (87 + n) as u8
        };
        buf.push(d);
        assert(buf@ =~= old(buf)@ + hex_text(n as int));
    } else {
        push_hex(buf, n / 16);
        let m = n % 16;
        let d: u8 = if m < 10 {
            (48 + m) as u8
        } else {
            (87 + m) as u8
        };
        buf.push(d);
        assert(buf@ =~= old(buf)@ + hex_text(n as int)) by {
            assert(hex_text(n as int) =~= hex_text(n as int / 16) + seq![
                hex_digit(n as int % 16),
            ]);
        }
    }
}

/// First index of `b`, as `find_byte` names it.
pub fn find_byte_in(s: &[u8], b: u8) -> (r: Option<usize>)
    ensures
        r matches Some(k) ==> k == find_byte(s@, b) && k < s@.len() && s@[k as int] == b,
        r is None ==> find_byte(s@, b) == -1,
{
    let mut i: usize = 0;
    while i < s.len()
        invariant
            i <= s@.len(),
            forall|j: int| 0 <= j < i ==> s@[j] != b,
        decreases s@.len() - i,
    {
        if s[i] == b {
            proof {
                lemma_find_byte_here(s@, b, i as int);
            }
            return Some(i);
        }
        i = i + 1;
    }
    proof {
        lemma_find_byte_none(s@, b);
    }
    None
}

/// Parse a canonical decimal numeral bounded by `max`.
pub fn parse_dec_in(s: &[u8], max: u32) -> (r: Option<u32>)
    ensures
        match parse_dec(s@, max as int) {
            Option::Some(v) => r matches Some(x) && x == v,
            Option::None => r is None,
        },
{
    if s.len() == 0 {
        return None;
    }
    if s.len() > 1 && s[0] == 48 {
        return None;
    }
    let mut acc: u32 = 0;
    let mut i: usize = 0;
    while i < s.len()
        invariant
            i <= s@.len(),
            s@.len() >= 1,
            s@.len() > 1 ==> s@[0] != 48,
            acc as int == dec_of(s@.take(i as int)),
            acc <= max,
            forall|j: int| 0 <= j < i ==> is_dec_digit(#[trigger] s@[j]),
        decreases s@.len() - i,
    {
        let c = s[i];
        if !(48 <= c && c <= 57) {
            assert(!all_dec_digits(s@));
            return None;
        }
        let wide: u64 = acc as u64 * 10 + (c - 48) as u64;
        proof {
            assert(s@.take(i + 1).drop_last() =~= s@.take(i as int));
            assert(s@.take(i + 1).last() == s@[i as int]);
            assert(dec_of(s@.take(i + 1)) == acc as int * 10 + dec_val(s@[i as int]));
        }
        if wide > max as u64 {
            proof {
                if all_dec_digits(s@) {
                    lemma_dec_of_prefix(s@, i + 1);
                    assert(dec_of(s@) > max as int);
                }
            }
            return None;
        }
        acc = wide as u32;
        i = i + 1;
    }
    proof {
        assert(s@.take(s@.len() as int) =~= s@);
        assert(is_canon_dec(s@, max as int));
    }
    Some(acc)
}

/// Parse a canonical lowercase hexadecimal numeral bounded by `max`.
pub fn parse_hex_in(s: &[u8], max: u16) -> (r: Option<u16>)
    ensures
        match parse_hex(s@, max as int) {
            Option::Some(v) => r matches Some(x) && x == v,
            Option::None => r is None,
        },
{
    if s.len() == 0 {
        return None;
    }
    if s.len() > 1 && s[0] == 48 {
        return None;
    }
    let mut acc: u16 = 0;
    let mut i: usize = 0;
    while i < s.len()
        invariant
            i <= s@.len(),
            s@.len() >= 1,
            s@.len() > 1 ==> s@[0] != 48,
            acc as int == hex_of(s@.take(i as int)),
            acc <= max,
            forall|j: int| 0 <= j < i ==> is_hex_digit(#[trigger] s@[j]),
        decreases s@.len() - i,
    {
        let c = s[i];
        let d: u16 = if 48 <= c && c <= 57 {
            (c - 48) as u16
        } else if 97 <= c && c <= 102 {
            (c - 87) as u16
        } else {
            assert(!all_hex_digits(s@));
            return None;
        };
        let wide: u32 = acc as u32 * 16 + d as u32;
        proof {
            assert(s@.take(i + 1).drop_last() =~= s@.take(i as int));
            assert(s@.take(i + 1).last() == s@[i as int]);
            assert(hex_of(s@.take(i + 1)) == acc as int * 16 + hex_val(s@[i as int]));
        }
        if wide > max as u32 {
            proof {
                if all_hex_digits(s@) {
                    lemma_hex_of_prefix(s@, i + 1);
                    assert(hex_of(s@) > max as int);
                }
            }
            return None;
        }
        acc = wide as u16;
        i = i + 1;
    }
    proof {
        assert(s@.take(s@.len() as int) =~= s@);
        assert(is_canon_hex(s@, max as int));
    }
    Some(acc)
}

} // verus!
