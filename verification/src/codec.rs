//! The canonical cache text encoding: fixed-width decimal numbers,
//! length-prefixed strings, one-character tags for booleans and options.
//! Every encoder comes with a decoder proved to invert it, which is what
//! makes a cached value round-trip through the backend unchanged.

use vstd::prelude::*;

verus! {

/// Width, in characters, of every encoded number: enough for any `u64`.
pub const NAT_WIDTH: usize = 20;

/// The character for one decimal digit.
pub open spec fn spec_digit_char(d: u64) -> char {
    match d {
        0 => '0',
        1 => '1',
        2 => '2',
        3 => '3',
        4 => '4',
        5 => '5',
        6 => '6',
        7 => '7',
        8 => '8',
        _ => '9',
    }
}

/// The decimal digit a character stands for, if any.
pub open spec fn spec_char_digit(c: char) -> Option<u64> {
    match c {
        '0' => Some(0u64),
        '1' => Some(1u64),
        '2' => Some(2u64),
        '3' => Some(3u64),
        '4' => Some(4u64),
        '5' => Some(5u64),
        '6' => Some(6u64),
        '7' => Some(7u64),
        '8' => Some(8u64),
        '9' => Some(9u64),
        _ => None,
    }
}

proof fn lemma_digit_char_inverts(d: u64)
    requires
        d < 10,
    ensures
        spec_char_digit(spec_digit_char(d)) == Some(d),
{
}

/// `n` written as exactly `width` decimal digits, most significant first,
/// zero-padded.
pub open spec fn spec_enc_nat(n: u64, width: nat) -> Seq<char>
    decreases width,
{
    if width == 0 {
        Seq::<char>::empty()
    } else {
        spec_enc_nat(n / 10, (width - 1) as nat).push(spec_digit_char(n % 10))
    }
}

/// The number a run of decimal digits stands for, if every character is a
/// digit and the value fits in a `u64`.
pub open spec fn spec_dec_nat(s: Seq<char>) -> Option<u64>
    decreases s.len(),
{
    if s.len() == 0 {
        Some(0u64)
    } else {
        match (spec_dec_nat(s.drop_last()), spec_char_digit(s.last())) {
            (Some(acc), Some(d)) => if acc <= (u64::MAX - d) / 10 {
                Some((acc * 10 + d) as u64)
            } else {
                None
            },
            _ => None,
        }
    }
}

/// Ten to the `width`.
pub open spec fn spec_pow10(width: nat) -> int
    decreases width,
{
    if width == 0 {
        1
    } else {
        10 * spec_pow10((width - 1) as nat)
    }
}

/// A fixed-width encoding has exactly its width.
pub proof fn lemma_enc_nat_len(n: u64, width: nat)
    ensures
        spec_enc_nat(n, width).len() == width,
    decreases width,
{
    if width > 0 {
        lemma_enc_nat_len(n / 10, (width - 1) as nat);
    }
}

/// Fixed-width decimal encoding round-trips: decoding the `width` digits
/// of `n` gives back `n`, whenever `n` fits in `width` digits.
pub proof fn lemma_enc_dec_nat(n: u64, width: nat)
    requires
        n < spec_pow10(width),
    ensures
        spec_enc_nat(n, width).len() == width,
        spec_dec_nat(spec_enc_nat(n, width)) == Some(n),
    decreases width,
{
    if width == 0 {
    } else {
        let q = n / 10;
        let d = n % 10;
        assert(q < spec_pow10((width - 1) as nat) && d < 10 && q * 10 + d == n && q <= (u64::MAX
            - d) / 10) by (nonlinear_arith)
            requires
                n < spec_pow10(width),
                spec_pow10(width) == 10 * spec_pow10((width - 1) as nat),
                q == n / 10,
                d == n % 10,
                n <= u64::MAX,
        {}
        lemma_enc_dec_nat(q, (width - 1) as nat);
        let enc = spec_enc_nat(n, width);
        assert(enc.drop_last() =~= spec_enc_nat(q, (width - 1) as nat));
        assert(enc.last() == spec_digit_char(d));
        lemma_digit_char_inverts(d);
    }
}

/// Every `u64` fits in `NAT_WIDTH` digits.
pub proof fn lemma_u64_fits_nat_width(n: u64)
    ensures
        n < spec_pow10(NAT_WIDTH as nat),
{
    reveal_with_fuel(spec_pow10, 21);
    assert(spec_pow10(20) == 100000000000000000000);
}

/// A single digit as a one-character string.
fn digit_str(d: u64) -> (s: &'static str)
    requires
        d < 10,
    ensures
        s@ =~= seq![spec_digit_char(d)],
{
    proof {
        reveal_strlit("0");
        reveal_strlit("1");
        reveal_strlit("2");
        reveal_strlit("3");
        reveal_strlit("4");
        reveal_strlit("5");
        reveal_strlit("6");
        reveal_strlit("7");
        reveal_strlit("8");
        reveal_strlit("9");
    }
    match d {
        0 => "0",
        1 => "1",
        2 => "2",
        3 => "3",
        4 => "4",
        5 => "5",
        6 => "6",
        7 => "7",
        8 => "8",
        _ => "9",
    }
}

/// Append `n` as exactly `width` decimal digits onto `out`.
pub fn push_nat_width(out: &mut String, n: u64, width: usize)
    ensures
        final (out)@ == old(out)@ + spec_enc_nat(n, width as nat),
    decreases width,
{
    if width == 0 {
        proof {
            assert(old(out)@ + spec_enc_nat(n, 0) =~= old(out)@);
        }
    } else {
        push_nat_width(out, n / 10, width - 1);
        out.append(digit_str(n % 10));
        proof {
            assert(old(out)@ + spec_enc_nat(n / 10, (width - 1) as nat) + seq![
                spec_digit_char(n % 10),
            ] =~= old(out)@ + spec_enc_nat(n, width as nat));
        }
    }
}

/// Append `n` in the canonical fixed-width form.
pub fn push_nat(out: &mut String, n: u64)
    ensures
        final (out)@ == old(out)@ + spec_enc_nat(n, NAT_WIDTH as nat),
{
    push_nat_width(out, n, NAT_WIDTH);
}

/// A failed decode of a prefix dooms the whole run of digits.
proof fn lemma_dec_nat_fail_prefix(s: Seq<char>, k: int)
    requires
        0 <= k <= s.len(),
        spec_dec_nat(s.take(k)) is None,
    ensures
        spec_dec_nat(s) is None,
    decreases s.len() - k,
{
    if k < s.len() {
        assert(s.take(k + 1).drop_last() =~= s.take(k));
        lemma_dec_nat_fail_prefix(s, k + 1);
    } else {
        assert(s.take(k) =~= s);
    }
}

/// `n` in ordinary decimal, without padding.
pub open spec fn spec_decimal(n: u64) -> Seq<char>
    decreases n,
{
    if n < 10 {
        seq![spec_digit_char(n)]
    } else {
        spec_decimal(n / 10).push(spec_digit_char(n % 10))
    }
}

/// Append `n` in ordinary decimal.
pub fn push_decimal(out: &mut String, n: u64)
    ensures
        final (out)@ == old(out)@ + spec_decimal(n),
    decreases n,
{
    if n < 10 {
        out.append(digit_str(n));
        proof {
            assert(final (out)@ =~= old(out)@ + spec_decimal(n));
        }
    } else {
        push_decimal(out, n / 10);
        out.append(digit_str(n % 10));
        proof {
            assert(final (out)@ =~= old(out)@ + spec_decimal(n));
        }
    }
}

/// Decode the fixed-width number at character position `pos` of `s`,
/// yielding the value and the position after it.
pub open spec fn spec_dec_nat_at(s: Seq<char>, pos: int) -> Option<(u64, int)> {
    if 0 <= pos && pos + NAT_WIDTH <= s.len() {
        match spec_dec_nat(s.subrange(pos, pos + NAT_WIDTH)) {
            Some(n) => Some((n, pos + NAT_WIDTH)),
            None => None,
        }
    } else {
        None
    }
}

/// Read the fixed-width number at `pos`.
pub fn read_nat(s: &str, len: usize, pos: usize) -> (r: Option<(u64, usize)>)
    requires
        len == s@.len(),
    ensures
        match r {
            Some((n, next)) => spec_dec_nat_at(s@, pos as int) == Some((n, next as int)),
            None => spec_dec_nat_at(s@, pos as int) is None,
        },
{
    if pos > len || len - pos < NAT_WIDTH {
        return None;
    }
    let mut acc: u64 = 0;
    let mut j: usize = 0;
    proof {
        assert(s@.subrange(pos as int, pos as int) =~= Seq::<char>::empty());
    }
    while j < NAT_WIDTH
        invariant
            j <= NAT_WIDTH,
            pos + NAT_WIDTH <= len,
            len == s@.len(),
            spec_dec_nat(s@.subrange(pos as int, pos + j)) == Some(acc),
        decreases NAT_WIDTH - j,
    {
        let c = s.get_char(pos + j);
        proof {
            assert(s@.subrange(pos as int, pos + j + 1).drop_last() =~= s@.subrange(
                pos as int,
                pos + j,
            ));
            assert(s@.subrange(pos as int, pos + j + 1).last() == s@[pos + j]);
        }
        let d: u64 = match c {
            '0' => 0,
            '1' => 1,
            '2' => 2,
            '3' => 3,
            '4' => 4,
            '5' => 5,
            '6' => 6,
            '7' => 7,
            '8' => 8,
            '9' => 9,
            _ => {
                proof {
                    let full = s@.subrange(pos as int, pos + NAT_WIDTH);
                    assert(full.take(j + 1) =~= s@.subrange(pos as int, pos + j + 1));
                    lemma_dec_nat_fail_prefix(full, j + 1);
                }
                return None;
            },
        };
        if acc > (u64::MAX - d) / 10 {
            proof {
                let full = s@.subrange(pos as int, pos + NAT_WIDTH);
                assert(full.take(j + 1) =~= s@.subrange(pos as int, pos + j + 1));
                lemma_dec_nat_fail_prefix(full, j + 1);
            }
            return None;
        }
        acc = acc * 10 + d;
        j = j + 1;
    }
    Some((acc, pos + NAT_WIDTH))
}

/// Decoding the fixed-width digits of `n` embedded in `s` at `pos` yields
/// `n` and the position after it.
pub proof fn lemma_dec_nat_at(s: Seq<char>, pos: int, n: u64)
    requires
        0 <= pos,
        pos + NAT_WIDTH <= s.len(),
        s.subrange(pos, pos + NAT_WIDTH) == spec_enc_nat(n, NAT_WIDTH as nat),
    ensures
        spec_dec_nat_at(s, pos) == Some((n, pos + NAT_WIDTH)),
{
    lemma_u64_fits_nat_width(n);
    lemma_enc_dec_nat(n, NAT_WIDTH as nat);
}

/// A string field: its character count, then its characters.
pub open spec fn spec_enc_str(t: Seq<char>) -> Seq<char> {
    spec_enc_nat(t.len() as u64, NAT_WIDTH as nat) + t
}

/// Decode the string field at `pos`: a character count followed by that
/// many characters.
pub open spec fn spec_dec_str_at(s: Seq<char>, pos: int) -> Option<(Seq<char>, int)> {
    match spec_dec_nat_at(s, pos) {
        Some((n, j)) => if j + n <= s.len() {
            Some((s.subrange(j, j + n), j + n))
        } else {
            None
        },
        None => None,
    }
}

/// Decoding an embedded string field yields the encoded string.
pub proof fn lemma_dec_str_at(s: Seq<char>, pos: int, t: Seq<char>)
    requires
        0 <= pos,
        t.len() <= u64::MAX,
        pos + NAT_WIDTH + t.len() <= s.len(),
        s.subrange(pos, pos + NAT_WIDTH + t.len()) == spec_enc_str(t),
    ensures
        spec_dec_str_at(s, pos) == Some((t, pos + NAT_WIDTH + t.len())),
{
    lemma_enc_nat_len(t.len() as u64, NAT_WIDTH as nat);
    let whole = s.subrange(pos, pos + NAT_WIDTH + t.len());
    assert(s.subrange(pos, pos + NAT_WIDTH) =~= whole.subrange(0, NAT_WIDTH as int));
    assert(whole.subrange(0, NAT_WIDTH as int) =~= spec_enc_nat(
        t.len() as u64,
        NAT_WIDTH as nat,
    ));
    lemma_dec_nat_at(s, pos, t.len() as u64);
    assert forall|i: int| 0 <= i < t.len() implies s.subrange(
        pos + NAT_WIDTH,
        pos + NAT_WIDTH + t.len(),
    )[i] == t[i] by {
        assert(whole[NAT_WIDTH + i] == t[i]);
        assert(s.subrange(pos + NAT_WIDTH, pos + NAT_WIDTH + t.len())[i] == s[pos + NAT_WIDTH
            + i]);
        assert(whole[NAT_WIDTH + i] == s[pos + NAT_WIDTH + i]);
    }
    assert(s.subrange(pos + NAT_WIDTH, pos + NAT_WIDTH + t.len()) =~= t);
}

/// Append a string field: its character count, then its characters.
pub fn push_str_field(out: &mut String, v: &str)
    ensures
        final (out)@ == old(out)@ + spec_enc_str(v@),
{
    let n = v.unicode_len();
    push_nat(out, n as u64);
    out.append(v);
    proof {
        assert(old(out)@ + spec_enc_nat(v@.len() as u64, NAT_WIDTH as nat) + v@ =~= old(out)@
            + spec_enc_str(v@));
    }
}

/// Read the string field at `pos`.
pub fn read_str_field(s: &str, len: usize, pos: usize) -> (r: Option<(String, usize)>)
    requires
        len == s@.len(),
    ensures
        match r {
            Some((t, next)) => spec_dec_str_at(s@, pos as int) == Some((t@, next as int)),
            None => spec_dec_str_at(s@, pos as int) is None,
        },
{
    match read_nat(s, len, pos) {
        None => None,
        Some((n, j)) => {
            if n <= (len - j) as u64 {
                let next = j + (n as usize);
                let t = s.substring_char(j, next);
                Some((t.to_owned(), next))
            } else {
                None
            }
        },
    }
}

/// A boolean: a single tag character.
pub open spec fn spec_enc_bool(b: bool) -> Seq<char> {
    if b {
        seq!['T']
    } else {
        seq!['F']
    }
}

/// Decode the boolean tag at `pos`.
pub open spec fn spec_dec_bool_at(s: Seq<char>, pos: int) -> Option<(bool, int)> {
    if 0 <= pos < s.len() {
        if s[pos] == 'T' {
            Some((true, pos + 1))
        } else if s[pos] == 'F' {
            Some((false, pos + 1))
        } else {
            None
        }
    } else {
        None
    }
}

/// Append a boolean tag.
pub fn push_bool(out: &mut String, b: bool)
    ensures
        final (out)@ == old(out)@ + spec_enc_bool(b),
{
    proof {
        reveal_strlit("T");
        reveal_strlit("F");
    }
    if b {
        out.append("T");
    } else {
        out.append("F");
    }
    proof {
        assert(final (out)@ =~= old(out)@ + spec_enc_bool(b));
    }
}

/// Read the boolean tag at `pos`.
pub fn read_bool(s: &str, len: usize, pos: usize) -> (r: Option<(bool, usize)>)
    requires
        len == s@.len(),
    ensures
        match r {
            Some((b, next)) => spec_dec_bool_at(s@, pos as int) == Some((b, next as int)),
            None => spec_dec_bool_at(s@, pos as int) is None,
        },
{
    if pos < len {
        let c = s.get_char(pos);
        if c == 'T' {
            Some((true, pos + 1))
        } else if c == 'F' {
            Some((false, pos + 1))
        } else {
            None
        }
    } else {
        None
    }
}

/// An equality of one stretch of `s` with a concatenation splits into
/// equalities of the two halves.
pub proof fn lemma_split_concat(s: Seq<char>, pos: int, a: Seq<char>, b: Seq<char>)
    requires
        0 <= pos,
        pos + a.len() + b.len() <= s.len(),
        s.subrange(pos, pos + a.len() + b.len()) == a + b,
    ensures
        s.subrange(pos, pos + a.len()) == a,
        s.subrange(pos + a.len(), pos + a.len() + b.len()) == b,
{
    let whole = s.subrange(pos, pos + a.len() + b.len());
    assert forall|i: int| 0 <= i < a.len() implies s.subrange(pos, pos + a.len())[i] == a[i] by {
        assert(whole[i] == (a + b)[i]);
        assert(s.subrange(pos, pos + a.len())[i] == s[pos + i]);
        assert(whole[i] == s[pos + i]);
    }
    assert(s.subrange(pos, pos + a.len()) =~= a);
    assert forall|i: int| 0 <= i < b.len() implies s.subrange(
        pos + a.len(),
        pos + a.len() + b.len(),
    )[i] == b[i] by {
        assert(whole[a.len() + i] == (a + b)[a.len() + i]);
        assert(s.subrange(pos + a.len(), pos + a.len() + b.len())[i] == s[pos + a.len() + i]);
        assert(whole[a.len() + i] == s[pos + a.len() + i]);
    }
    assert(s.subrange(pos + a.len(), pos + a.len() + b.len()) =~= b);
}

/// A value that can stand as one field of an encoded record: it appends
/// itself to a growing encoding, and reads itself back from a position,
/// with reading proved to recover the appended value's abstract content
/// (its deep view).
pub trait FieldCodec: Sized + DeepView {
    /// The canonical characters of this field.
    spec fn spec_enc_field(self) -> Seq<char>;

    /// Decode one such field at `pos`, yielding its content and the
    /// position after it.
    spec fn spec_dec_field_at(s: Seq<char>, pos: int) -> Option<(Self::V, int)>;

    /// The sizes a machine value always has: every length involved fits
    /// the encoding's counters. Every value exec code can build satisfies
    /// this.
    spec fn spec_field_wf(self) -> bool;

    /// Decoding finds exactly the encoded field wherever it is embedded.
    proof fn lemma_field_round_trip(self, s: Seq<char>, pos: int)
        requires
            self.spec_field_wf(),
            0 <= pos,
            pos + self.spec_enc_field().len() <= s.len(),
            s.subrange(pos, pos + self.spec_enc_field().len()) == self.spec_enc_field(),
        ensures
            Self::spec_dec_field_at(s, pos) == Some(
                (self.deep_view(), pos + self.spec_enc_field().len()),
            ),
    ;

    fn push_field(&self, out: &mut String)
        ensures
            final (out)@ == old(out)@ + self.spec_enc_field(),
    ;

    fn read_field(s: &str, len: usize, pos: usize) -> (r: Option<(Self, usize)>)
        requires
            len == s@.len(),
        ensures
            match r {
                Some((v, next)) => next <= len && Self::spec_dec_field_at(s@, pos as int) == Some(
                    (v.deep_view(), next as int),
                ),
                None => Self::spec_dec_field_at(s@, pos as int) is None,
            },
    ;
}

impl FieldCodec for u64 {
    open spec fn spec_enc_field(self) -> Seq<char> {
        spec_enc_nat(self, NAT_WIDTH as nat)
    }

    open spec fn spec_dec_field_at(s: Seq<char>, pos: int) -> Option<(u64, int)> {
        spec_dec_nat_at(s, pos)
    }

    open spec fn spec_field_wf(self) -> bool {
        true
    }

    proof fn lemma_field_round_trip(self, s: Seq<char>, pos: int) {
        lemma_enc_nat_len(self, NAT_WIDTH as nat);
        lemma_dec_nat_at(s, pos, self);
    }

    fn push_field(&self, out: &mut String) {
        push_nat(out, *self);
    }

    fn read_field(s: &str, len: usize, pos: usize) -> (r: Option<(u64, usize)>) {
        read_nat(s, len, pos)
    }
}

impl FieldCodec for u32 {
    open spec fn spec_enc_field(self) -> Seq<char> {
        spec_enc_nat(self as u64, NAT_WIDTH as nat)
    }

    open spec fn spec_dec_field_at(s: Seq<char>, pos: int) -> Option<(u32, int)> {
        match spec_dec_nat_at(s, pos) {
            Some((n, j)) => if n <= u32::MAX {
                Some((n as u32, j))
            } else {
                None
            },
            None => None,
        }
    }

    open spec fn spec_field_wf(self) -> bool {
        true
    }

    proof fn lemma_field_round_trip(self, s: Seq<char>, pos: int) {
        lemma_enc_nat_len(self as u64, NAT_WIDTH as nat);
        lemma_dec_nat_at(s, pos, self as u64);
    }

    fn push_field(&self, out: &mut String) {
        push_nat(out, *self as u64);
    }

    fn read_field(s: &str, len: usize, pos: usize) -> (r: Option<(u32, usize)>) {
        match read_nat(s, len, pos) {
            Some((n, j)) => if n <= u32::MAX as u64 {
                Some((n as u32, j))
            } else {
                None
            },
            None => None,
        }
    }
}

impl FieldCodec for bool {
    open spec fn spec_enc_field(self) -> Seq<char> {
        spec_enc_bool(self)
    }

    open spec fn spec_dec_field_at(s: Seq<char>, pos: int) -> Option<(bool, int)> {
        spec_dec_bool_at(s, pos)
    }

    open spec fn spec_field_wf(self) -> bool {
        true
    }

    proof fn lemma_field_round_trip(self, s: Seq<char>, pos: int) {
        assert(s[pos] == self.spec_enc_field()[0]);
    }

    fn push_field(&self, out: &mut String) {
        push_bool(out, *self);
    }

    fn read_field(s: &str, len: usize, pos: usize) -> (r: Option<(bool, usize)>) {
        read_bool(s, len, pos)
    }
}

impl FieldCodec for String {
    open spec fn spec_enc_field(self) -> Seq<char> {
        spec_enc_str(self@)
    }

    open spec fn spec_dec_field_at(s: Seq<char>, pos: int) -> Option<(Seq<char>, int)> {
        spec_dec_str_at(s, pos)
    }

    open spec fn spec_field_wf(self) -> bool {
        self@.len() <= u64::MAX
    }

    proof fn lemma_field_round_trip(self, s: Seq<char>, pos: int) {
        lemma_enc_nat_len(self@.len() as u64, NAT_WIDTH as nat);
        lemma_dec_str_at(s, pos, self@);
    }

    fn push_field(&self, out: &mut String) {
        push_str_field(out, self.as_str());
    }

    fn read_field(s: &str, len: usize, pos: usize) -> (r: Option<(String, usize)>) {
        read_str_field(s, len, pos)
    }
}

impl<A: FieldCodec, B: FieldCodec> FieldCodec for (A, B) {
    open spec fn spec_enc_field(self) -> Seq<char> {
        self.0.spec_enc_field() + self.1.spec_enc_field()
    }

    open spec fn spec_dec_field_at(s: Seq<char>, pos: int) -> Option<((A::V, B::V), int)> {
        match A::spec_dec_field_at(s, pos) {
            Some((a, j)) => match B::spec_dec_field_at(s, j) {
                Some((b, k)) => Some(((a, b), k)),
                None => None,
            },
            None => None,
        }
    }

    open spec fn spec_field_wf(self) -> bool {
        self.0.spec_field_wf() && self.1.spec_field_wf()
    }

    proof fn lemma_field_round_trip(self, s: Seq<char>, pos: int) {
        let ea = self.0.spec_enc_field();
        let eb = self.1.spec_enc_field();
        lemma_split_concat(s, pos, ea, eb);
        self.0.lemma_field_round_trip(s, pos);
        self.1.lemma_field_round_trip(s, pos + ea.len());
    }

    fn push_field(&self, out: &mut String) {
        self.0.push_field(out);
        self.1.push_field(out);
        proof {
            assert(final (out)@ =~= old(out)@ + (self.0.spec_enc_field()
                + self.1.spec_enc_field()));
        }
    }

    fn read_field(s: &str, len: usize, pos: usize) -> (r: Option<((A, B), usize)>) {
        match A::read_field(s, len, pos) {
            Some((a, j)) => match B::read_field(s, len, j) {
                Some((b, k)) => Some(((a, b), k)),
                None => None,
            },
            None => None,
        }
    }
}

impl<T: FieldCodec> FieldCodec for Option<T> {
    open spec fn spec_enc_field(self) -> Seq<char> {
        match self {
            None => seq!['N'],
            Some(v) => seq!['S'] + v.spec_enc_field(),
        }
    }

    open spec fn spec_dec_field_at(s: Seq<char>, pos: int) -> Option<(Option<T::V>, int)> {
        if 0 <= pos < s.len() {
            if s[pos] == 'N' {
                Some((None, pos + 1))
            } else if s[pos] == 'S' {
                match T::spec_dec_field_at(s, pos + 1) {
                    Some((v, j)) => Some((Some(v), j)),
                    None => None,
                }
            } else {
                None
            }
        } else {
            None
        }
    }

    open spec fn spec_field_wf(self) -> bool {
        match self {
            None => true,
            Some(v) => v.spec_field_wf(),
        }
    }

    proof fn lemma_field_round_trip(self, s: Seq<char>, pos: int) {
        match self {
            None => {
                assert(s[pos] == self.spec_enc_field()[0]);
            },
            Some(v) => {
                let whole = s.subrange(pos, pos + self.spec_enc_field().len());
                assert(whole[0] == s[pos]);
                assert(s[pos] == self.spec_enc_field()[0]);
                let ev = v.spec_enc_field();
                assert forall|i: int| 0 <= i < ev.len() implies s.subrange(
                    pos + 1,
                    pos + 1 + ev.len(),
                )[i] == ev[i] by {
                    assert(whole[1 + i] == self.spec_enc_field()[1 + i]);
                    assert(whole[1 + i] == s[pos + 1 + i]);
                    assert(s.subrange(pos + 1, pos + 1 + ev.len())[i] == s[pos + 1 + i]);
                }
                assert(s.subrange(pos + 1, pos + 1 + ev.len()) =~= ev);
                v.lemma_field_round_trip(s, pos + 1);
            },
        }
    }

    fn push_field(&self, out: &mut String) {
        proof {
            reveal_strlit("N");
            reveal_strlit("S");
        }
        match self {
            None => {
                out.append("N");
                proof {
                    assert(final (out)@ =~= old(out)@ + self.spec_enc_field());
                }
            },
            Some(v) => {
                out.append("S");
                v.push_field(out);
                proof {
                    assert(final (out)@ =~= old(out)@ + self.spec_enc_field());
                }
            },
        }
    }

    fn read_field(s: &str, len: usize, pos: usize) -> (r: Option<(Option<T>, usize)>) {
        if pos < len {
            let c = s.get_char(pos);
            if c == 'N' {
                Some((None, pos + 1))
            } else if c == 'S' {
                match T::read_field(s, len, pos + 1) {
                    Some((v, j)) => Some((Some(v), j)),
                    None => None,
                }
            } else {
                None
            }
        } else {
            None
        }
    }
}

/// The concatenated encodings of a sequence of elements.
pub open spec fn spec_enc_elems<T: FieldCodec>(elems: Seq<T>) -> Seq<char>
    decreases elems.len(),
{
    if elems.len() == 0 {
        Seq::<char>::empty()
    } else {
        elems[0].spec_enc_field() + spec_enc_elems(elems.drop_first())
    }
}

/// Decode `count` consecutive elements starting at `pos`.
pub open spec fn spec_dec_elems_at<T: FieldCodec>(s: Seq<char>, pos: int, count: nat) -> Option<
    (Seq<T::V>, int),
>
    decreases count,
{
    if count == 0 {
        Some((Seq::<T::V>::empty(), pos))
    } else {
        match T::spec_dec_field_at(s, pos) {
            Some((v, j)) => match spec_dec_elems_at::<T>(s, j, (count - 1) as nat) {
                Some((rest, k)) => Some((seq![v] + rest, k)),
                None => None,
            },
            None => None,
        }
    }
}

/// Appending one element extends the concatenated encoding at its end.
proof fn lemma_enc_elems_snoc<T: FieldCodec>(elems: Seq<T>, e: T)
    ensures
        spec_enc_elems(elems.push(e)) == spec_enc_elems(elems) + e.spec_enc_field(),
    decreases elems.len(),
{
    let pushed = elems.push(e);
    if elems.len() == 0 {
        assert(pushed[0] == e);
        assert(pushed.drop_first() =~= Seq::<T>::empty());
        assert(spec_enc_elems(pushed) == pushed[0].spec_enc_field() + spec_enc_elems(
            pushed.drop_first(),
        ));
        assert(spec_enc_elems(pushed.drop_first()) == Seq::<char>::empty());
        assert(spec_enc_elems(elems) == Seq::<char>::empty());
        assert(spec_enc_elems(pushed) =~= spec_enc_elems(elems) + e.spec_enc_field());
    } else {
        assert(pushed[0] == elems[0]);
        assert(pushed.drop_first() =~= elems.drop_first().push(e));
        lemma_enc_elems_snoc(elems.drop_first(), e);
        assert(spec_enc_elems(pushed) == pushed[0].spec_enc_field() + spec_enc_elems(
            pushed.drop_first(),
        ));
        assert(spec_enc_elems(pushed.drop_first()) == spec_enc_elems(elems.drop_first())
            + e.spec_enc_field());
        assert(spec_enc_elems(elems) == elems[0].spec_enc_field() + spec_enc_elems(
            elems.drop_first(),
        ));
        assert(elems[0].spec_enc_field() + (spec_enc_elems(elems.drop_first())
            + e.spec_enc_field()) =~= (elems[0].spec_enc_field() + spec_enc_elems(
            elems.drop_first(),
        )) + e.spec_enc_field());
    }
}

/// Decoding the concatenated encodings of `elems` embedded in `s` yields
/// their contents in order.
proof fn lemma_dec_elems<T: FieldCodec>(elems: Seq<T>, s: Seq<char>, pos: int)
    requires
        forall|i: int| 0 <= i < elems.len() ==> (#[trigger] elems[i]).spec_field_wf(),
        0 <= pos,
        pos + spec_enc_elems(elems).len() <= s.len(),
        s.subrange(pos, pos + spec_enc_elems(elems).len()) == spec_enc_elems(elems),
    ensures
        spec_dec_elems_at::<T>(s, pos, elems.len() as nat) == Some(
            (
                Seq::new(elems.len() as nat, |i: int| elems[i].deep_view()),
                pos + spec_enc_elems(elems).len(),
            ),
        ),
    decreases elems.len(),
{
    if elems.len() == 0 {
        assert(Seq::new(0, |i: int| elems[i].deep_view()) =~= Seq::<T::V>::empty());
    } else {
        let head = elems[0];
        let tail = elems.drop_first();
        let e0 = head.spec_enc_field();
        let erest = spec_enc_elems(tail);
        lemma_split_concat(s, pos, e0, erest);
        head.lemma_field_round_trip(s, pos);
        assert(forall|i: int|
            0 <= i < tail.len() ==> (#[trigger] tail[i]).spec_field_wf() && tail[i] == elems[i
                + 1]);
        lemma_dec_elems(tail, s, pos + e0.len());
        let restdv = Seq::new(tail.len() as nat, |i: int| tail[i].deep_view());
        assert(seq![head.deep_view()] + restdv =~= Seq::new(
            elems.len() as nat,
            |i: int| elems[i].deep_view(),
        ));
    }
}

impl<T: FieldCodec> FieldCodec for Vec<T> {
    open spec fn spec_enc_field(self) -> Seq<char> {
        spec_enc_nat(self@.len() as u64, NAT_WIDTH as nat) + spec_enc_elems(self@)
    }

    open spec fn spec_dec_field_at(s: Seq<char>, pos: int) -> Option<(Seq<T::V>, int)> {
        match spec_dec_nat_at(s, pos) {
            Some((n, j)) => spec_dec_elems_at::<T>(s, j, n as nat),
            None => None,
        }
    }

    open spec fn spec_field_wf(self) -> bool {
        self@.len() <= u64::MAX && (forall|i: int|
            0 <= i < self@.len() ==> (#[trigger] self@[i]).spec_field_wf())
    }

    proof fn lemma_field_round_trip(self, s: Seq<char>, pos: int) {
        let ecount = spec_enc_nat(self@.len() as u64, NAT_WIDTH as nat);
        let ebody = spec_enc_elems(self@);
        lemma_enc_nat_len(self@.len() as u64, NAT_WIDTH as nat);
        lemma_split_concat(s, pos, ecount, ebody);
        lemma_dec_nat_at(s, pos, self@.len() as u64);
        lemma_dec_elems(self@, s, pos + NAT_WIDTH);
        assert(self.deep_view() =~= Seq::new(self@.len() as nat, |i: int| self@[i].deep_view()));
    }

    fn push_field(&self, out: &mut String) {
        let n = self.len();
        push_nat(out, n as u64);
        let mut i: usize = 0;
        proof {
            assert(self@.take(0) =~= Seq::<T>::empty());
            assert(old(out)@ + spec_enc_nat(n as u64, NAT_WIDTH as nat) + spec_enc_elems(
                self@.take(0),
            ) =~= old(out)@ + spec_enc_nat(n as u64, NAT_WIDTH as nat));
        }
        while i < n
            invariant
                i <= n,
                n == self@.len(),
                out@ == old(out)@ + spec_enc_nat(n as u64, NAT_WIDTH as nat) + spec_enc_elems(
                    self@.take(i as int),
                ),
            decreases n - i,
        {
            self[i].push_field(out);
            proof {
                assert(self@.take(i + 1) =~= self@.take(i as int).push(self@[i as int]));
                lemma_enc_elems_snoc(self@.take(i as int), self@[i as int]);
                assert(old(out)@ + spec_enc_nat(n as u64, NAT_WIDTH as nat) + spec_enc_elems(
                    self@.take(i as int),
                ) + self@[i as int].spec_enc_field() =~= old(out)@ + spec_enc_nat(
                    n as u64,
                    NAT_WIDTH as nat,
                ) + spec_enc_elems(self@.take(i + 1)));
            }
            i = i + 1;
        }
        proof {
            assert(self@.take(n as int) =~= self@);
            assert(old(out)@ + spec_enc_nat(n as u64, NAT_WIDTH as nat) + spec_enc_elems(self@)
                =~= old(out)@ + self.spec_enc_field());
        }
    }

    fn read_field(s: &str, len: usize, pos: usize) -> (r: Option<(Vec<T>, usize)>) {
        let counted = read_nat(s, len, pos);
        match counted {
            None => None,
            Some((n, start)) => {
                let mut acc: Vec<T> = Vec::new();
                let mut cur: usize = start;
                let mut k: u64 = 0;
                proof {
                    assert(acc.deep_view() =~= Seq::<T::V>::empty());
                }
                while k < n
                    invariant
                        k <= n,
                        len == s@.len(),
                        cur <= len,
                        acc.deep_view().len() == k,
                        spec_dec_nat_at(s@, pos as int) == Some((n, start as int)),
                        match spec_dec_elems_at::<T>(s@, cur as int, (n - k) as nat) {
                            Some((rest, end)) => spec_dec_elems_at::<T>(
                                s@,
                                start as int,
                                n as nat,
                            ) == Some((acc.deep_view() + rest, end)),
                            None => spec_dec_elems_at::<T>(s@, start as int, n as nat) is None,
                        },
                    decreases n - k,
                {
                    match T::read_field(s, len, cur) {
                        None => {
                            return None;
                        },
                        Some((v, j)) => {
                            let ghost prior = acc.deep_view();
                            acc.push(v);
                            proof {
                                assert(acc.deep_view() =~= prior + seq![v.deep_view()]);
                                match spec_dec_elems_at::<T>(s@, j as int, (n - k - 1) as nat) {
                                    Some((rest2, end2)) => {
                                        assert(prior + (seq![v.deep_view()] + rest2) =~= (prior
                                            + seq![v.deep_view()]) + rest2);
                                    },
                                    None => {},
                                }
                            }
                            cur = j;
                            k = k + 1;
                        },
                    }
                }
                proof {
                    assert(spec_dec_elems_at::<T>(s@, cur as int, 0) == Some(
                        (Seq::<T::V>::empty(), cur as int),
                    ));
                    assert(acc.deep_view() + Seq::<T::V>::empty() =~= acc.deep_view());
                }
                Some((acc, cur))
            },
        }
    }
}

impl<T: FieldCodec> crate::cacheable::CacheCodec for T {
    open spec fn spec_encode(self) -> Seq<char> {
        self.spec_enc_field()
    }

    open spec fn spec_decode_model(text: Seq<char>) -> Option<T::V> {
        match T::spec_dec_field_at(text, 0) {
            Some((m, j)) => if j == text.len() {
                Some(m)
            } else {
                None
            },
            None => None,
        }
    }

    open spec fn spec_codec_wf(self) -> bool {
        self.spec_field_wf()
    }

    proof fn lemma_encode_decode(self) {
        let enc = self.spec_enc_field();
        assert(enc.subrange(0, enc.len() as int) =~= enc);
        self.lemma_field_round_trip(enc, 0);
    }

    fn encode(&self) -> (s: String) {
        let mut out = String::new();
        self.push_field(&mut out);
        proof {
            assert(out@ =~= self.spec_enc_field());
        }
        out
    }

    fn decode(text: &str) -> (r: Option<T>) {
        let len = text.unicode_len();
        match T::read_field(text, len, 0) {
            Some((v, j)) => if j == len {
                Some(v)
            } else {
                None
            },
            None => None,
        }
    }
}

} // verus!
