use crate::algorithm::{mac_len, mac_of, Algorithm};
use crate::codec::{base32_decode, base32_decoded, base32_encode, base32_of};
use crate::error::{Error, ErrorView};
use crate::text::{contains_char, decimal_digits, digit_str, has_char};
use vstd::prelude::*;
use vstd::utf8::encode_utf8_decode_utf8;

verus! {

/// The counter as eight bytes, most significant first.
pub open spec fn counter_bytes(c: u64) -> Seq<u8> {
    seq![
        (c >> 56u64) as u8,
        (c >> 48u64) as u8,
        (c >> 40u64) as u8,
        (c >> 32u64) as u8,
        (c >> 24u64) as u8,
        (c >> 16u64) as u8,
        (c >> 8u64) as u8,
        c as u8,
    ]
}

/// Dynamic truncation: the four bytes at the offset named by the low nibble
/// of the last byte, read big-endian, with the top bit cleared.
pub open spec fn truncated(mac: Seq<u8>) -> nat {
    let off = (mac.last() % 16) as int;
    ((mac[off] % 128) as nat) * 16777216 + (mac[off + 1] as nat) * 65536 + (mac[off + 2] as nat)
        * 256 + (mac[off + 3] as nat)
}

/// Ten to the power `n`.
pub open spec fn pow10(n: nat) -> nat
    decreases n,
{
    if n == 0 {
        1
    } else {
        10 * pow10((n - 1) as nat)
    }
}

/// The last `width` decimal digits of `v`, zeros on the left.
pub open spec fn padded_decimal(v: nat, width: nat) -> Seq<char>
    decreases width,
{
    if width == 0 {
        Seq::empty()
    } else {
        padded_decimal(v / 10, (width - 1) as nat).push(decimal_digits()[(v % 10) as int])
    }
}

/// The number of characters of a code of `digits` digits: a code of no
/// digits is still written as one `0`.
pub open spec fn code_width(digits: nat) -> nat {
    if digits == 0 {
        1
    } else {
        digits
    }
}

/// The HOTP code of a counter: `digits` decimal digits of the truncated MAC.
pub open spec fn hotp_code(alg: Algorithm, key: Seq<u8>, digits: nat, counter: u64) -> Seq<char> {
    padded_decimal(
        truncated(mac_of(alg, key, counter_bytes(counter))) % pow10(digits),
        code_width(digits),
    )
}

/// Configuration and secret of one TOTP account.
///
/// Two values are equal when their secrets are, whatever the other fields hold.
#[derive(Debug, Clone)]
pub struct TOTP {
    /// The keyed hash; SHA-1 is what most authenticators support.
    pub algorithm: Algorithm,
    /// The length of a code, 6 to 8.
    pub digits: usize,
    /// How many steps before and after the current one a check accepts.
    pub skew: u8,
    /// The length of a step in seconds.
    pub step: u64,
    /// The shared secret, at least 16 bytes. Sensitive.
    pub secret: Vec<u8>,
    /// The account name, without a colon.
    pub account_name: String,
    /// The name of the service, without a colon.
    pub issuer: Option<String>,
}

/// The fields of a [`TOTP`], with texts and bytes as sequences.
pub struct TotpView {
    pub algorithm: Algorithm,
    pub digits: usize,
    pub skew: u8,
    pub step: u64,
    pub secret: Seq<u8>,
    pub account_name: Seq<char>,
    pub issuer: Option<Seq<char>>,
}

/// An optional text seen as an optional character sequence.
pub open spec fn opt_text(o: Option<String>) -> Option<Seq<char>> {
    match o {
        Some(s) => Some(s@),
        None => None,
    }
}

impl View for TOTP {
    type V = TotpView;

    open spec fn view(&self) -> TotpView {
        TotpView {
            algorithm: self.algorithm,
            digits: self.digits,
            skew: self.skew,
            step: self.step,
            secret: self.secret@,
            account_name: self.account_name@,
            issuer: opt_text(self.issuer),
        }
    }
}

/// A result of building a TOTP, seen through the views.
pub open spec fn result_view(r: Result<TOTP, Error>) -> Result<TotpView, ErrorView> {
    match r {
        Ok(t) => Ok(t@),
        Err(e) => Err(e@),
    }
}

/// What `TOTP::new` yields for these fields: the first failed check, in the
/// order digits, secret length, account name, issuer; else the fields unchanged.
pub open spec fn new_spec(f: TotpView) -> Result<TotpView, ErrorView> {
    if !(6 <= f.digits <= 8) {
        Err(ErrorView::InvalidDigits(f.digits))
    } else if f.secret.len() < 16 {
        Err(ErrorView::SecretTooSmall((f.secret.len() * 8) as usize))
    } else if has_char(f.account_name, ':') {
        Err(ErrorView::AccountName(f.account_name))
    } else if f.issuer matches Some(i) && has_char(i, ':') {
        Err(ErrorView::Issuer(f.issuer.unwrap()))
    } else {
        Ok(f)
    }
}

impl TOTP {
    /// The conditions that `new` checks.
    pub open spec fn wf(&self) -> bool {
        &&& 6 <= self.digits <= 8
        &&& self.secret@.len() >= 16
        &&& !has_char(self.account_name@, ':')
        &&& (self.issuer matches Some(i) ==> !has_char(i@, ':'))
    }

    /// The code for the step that holds `time`.
    pub open spec fn code_at(&self, time: u64) -> Seq<char> {
        hotp_code(self.algorithm, self.secret@, self.digits as nat, time / self.step)
    }

    /// Whether step number `s` lies in the window that a check at `time`
    /// accepts, and its first second fits in 64 bits.
    pub open spec fn in_window(&self, time: u64, s: int) -> bool {
        &&& (time / self.step) as int - self.skew as int <= s
        &&& s <= (time / self.step) as int + self.skew as int
        &&& 0 <= s
        &&& s * self.step <= u64::MAX
    }

    /// The code of step number `s`.
    pub open spec fn step_code(&self, s: u64) -> Seq<char> {
        hotp_code(self.algorithm, self.secret@, self.digits as nat, s)
    }

    /// Whether `token` is the code of some step in the window around `time`.
    pub open spec fn accepts(&self, token: Seq<char>, time: u64) -> bool {
        exists|s: int| #[trigger] self.in_window(time, s) && token == self.step_code(s as u64)
    }

    /// Seconds left, at `now`, in the step that holds it.
    pub open spec fn ttl_of(&self, now: u64) -> int {
        self.step - now % self.step
    }

    /// The first second of the step after the one that holds `time`.
    pub open spec fn next_step_of(&self, time: u64) -> int {
        ((time / self.step) as int + 1) * self.step
    }

    /// Builds a TOTP from its fields, checking each; nothing is normalised.
    pub fn new(
        algorithm: Algorithm,
        digits: usize,
        skew: u8,
        step: u64,
        secret: Vec<u8>,
        account_name: String,
        issuer: Option<String>,
    ) -> (r: Result<TOTP, Error>)
        ensures
            result_view(r) == new_spec(
                TotpView {
                    algorithm,
                    digits,
                    skew,
                    step,
                    secret: secret@,
                    account_name: account_name@,
                    issuer: opt_text(issuer),
                },
            ),
            !(6 <= digits <= 8) ==> r == Err::<TOTP, Error>(Error::InvalidDigits(digits)),
            6 <= digits <= 8 && secret@.len() < 16 ==> r == Err::<TOTP, Error>(
                Error::SecretTooSmall((secret@.len() * 8) as usize),
            ),
            6 <= digits <= 8 && secret@.len() >= 16 && has_char(account_name@, ':') ==> (r
                matches Err(Error::AccountName(a)) && a@ == account_name@),
            6 <= digits <= 8 && secret@.len() >= 16 && !has_char(account_name@, ':') && (
            issuer matches Some(i) && has_char(i@, ':')) ==> (r matches Err(Error::Issuer(a))
                && a@ == issuer.unwrap()@),
            r is Ok <==> (6 <= digits <= 8 && secret@.len() >= 16 && !has_char(
                account_name@,
                ':',
            ) && !(issuer matches Some(i) && has_char(i@, ':'))),
            r matches Ok(t) ==> t.wf() && t.algorithm == algorithm && t.digits == digits && t.skew
                == skew && t.step == step && t.secret@ == secret@ && t.account_name@
                == account_name@ && t.issuer == issuer,
    {
        if digits < 6 || digits > 8 {
            return Err(Error::InvalidDigits(digits));
        }
        if secret.len() < 16 {
            return Err(Error::SecretTooSmall(secret.len() * 8));
        }
        if contains_char(account_name.as_str(), ':') {
            return Err(Error::AccountName(account_name));
        }
        if let Some(i) = &issuer {
            if contains_char(i.as_str(), ':') {
                return Err(Error::Issuer(i.clone()));
            }
        }
        Ok(TOTP { algorithm, digits, skew, step, secret, account_name, issuer })
    }

    /// The MAC of the step counter `time / step`.
    pub fn sign(&self, time: u64) -> (r: Vec<u8>)
        requires
            self.step > 0,
        ensures
            r@ == mac_of(self.algorithm, self.secret@, counter_bytes(time / self.step)),
            r@.len() == mac_len(self.algorithm),
    {
        let counter = counter_be_bytes(time / self.step);
        self.algorithm.sign(self.secret.as_slice(), counter.as_slice())
    }

    /// The code for the step that holds `time`: exactly `digits` decimal
    /// digits (a single `0` when `digits` is zero).
    pub fn generate(&self, time: u64) -> (r: String)
        requires
            self.step > 0,
            self.digits <= 9,
        ensures
            r@ == self.code_at(time),
            r@.len() == code_width(self.digits as nat),
            self.digits >= 1 ==> r@.len() == self.digits,
    {
        let mac = self.sign(time);
        let last = mac[mac.len() - 1];
        let off = (last & 15u8) as usize;
        assert((last & 15u8) == last % 16) by (bit_vector);
        let b0 = mac[off];
        let high = b0 & 0x7fu8;
        assert((b0 & 0x7fu8) == b0 % 128) by (bit_vector);
        let value: u32 = (high as u32) * 16777216 + (mac[off + 1] as u32) * 65536 + (mac[off
            + 2] as u32) * 256 + (mac[off + 3] as u32);
        let mut modulus: u32 = 1;
        let mut i: usize = 0;
        while i < self.digits
            invariant
                i <= self.digits <= 9,
                modulus == pow10(i as nat),
                1 <= modulus,
                pow10(i as nat) <= 1000000000,
            decreases self.digits - i,
        {
            proof {
                lemma_pow10_bound((i + 1) as nat);
            }
            modulus = modulus * 10;
            i = i + 1;
        }
        let width: usize = if self.digits == 0 {
            1
        } else {
            self.digits
        };
        proof {
            lemma_padded_decimal_len((value % modulus) as nat, width as nat);
        }
        padded_decimal_string(value % modulus, width)
    }

    /// The first second of the step after the one that holds `time`.
    pub fn next_step(&self, time: u64) -> (r: u64)
        requires
            self.step > 0,
            self.next_step_of(time) <= u64::MAX,
        ensures
            r == self.next_step_of(time),
    {
        let q = time / self.step;
        assert(q + 1 <= u64::MAX) by (nonlinear_arith)
            requires
                self.step >= 1,
                (q + 1) * self.step <= u64::MAX,
        ;
        (q + 1) * self.step
    }

    /// Seconds left in the step that holds `now`.
    pub fn ttl_at(&self, now: u64) -> (r: u64)
        requires
            self.step > 0,
        ensures
            r == self.ttl_of(now),
            r + now % self.step == self.step,
    {
        self.step - now % self.step
    }

    /// Whether `token` is the code of one of the `2 * skew + 1` steps centred
    /// on the step that holds `time` (steps before the epoch or past the last
    /// 64-bit second are left out). Each comparison runs in constant time.
    pub fn check(&self, token: &str, time: u64) -> (r: bool)
        requires
            self.step > 0,
            self.digits <= 9,
        ensures
            r == self.accepts(token@, time),
    {
        let step = self.step;
        let skew = self.skew as u64;
        let base = time / step;
        let top = u64::MAX / step;
        proof {
            lemma_div_mul_bound(time, step);
        }
        let lo: u64 = if base >= skew {
            base - skew
        } else {
            0
        };
        let hi: u64 = if top - base >= skew {
            base + skew
        } else {
            top
        };
        let n: u64 = hi - lo;
        let mut k: u64 = 0;
        while k <= n
            invariant
                self.step == step,
                step > 0,
                self.digits <= 9,
                lo <= hi <= top,
                top == u64::MAX / step,
                n == hi - lo,
                n <= 2 * 255,
                base == time / step,
                lo == (if base >= skew { base - skew } else { 0 }),
                hi == (if top - base >= skew { (base + skew) as u64 } else { top }),
                skew == self.skew,
                forall|s: u64| lo <= s < lo + k ==> token@ != #[trigger] self.step_code(s),
            decreases n + 1 - k,
        {
            let s = lo + k;
            proof {
                lemma_mul_div_cancel(s, step);
            }
            let candidate = self.generate(s * step);
            if ct_eq_str(candidate.as_str(), token) {
                assert(self.in_window(time, s as int));
                return true;
            }
            k = k + 1;
        }
        assert forall|s: int| #[trigger] self.in_window(time, s) implies token@ != self.step_code(
            s as u64,
        ) by {
            lemma_mul_le_max(s, step as int);
            assert(lo <= s <= hi);
            assert(token@ != self.step_code(s as u64));
        }
        false
    }

    /// The first second of the step after the current one, by the system clock.
    pub fn next_step_current(&self) -> (r: Result<u64, Error>)
        requires
            self.step > 0,
        ensures
            r matches Ok(n) ==> exists|t: u64| n == self.next_step_of(t),
            r matches Err(e) ==> e is Time || (e matches Error::Overflow(t) && self.next_step_of(
                t,
            ) > u64::MAX),
    {
        match system_time() {
            Ok(t) => self.next_step_checked(t),
            Err(e) => Err(Error::Time(e)),
        }
    }

    /// The first second of the step after the one that holds `t`, or
    /// `Overflow(t)` when that second does not fit in 64 bits.
    pub fn next_step_checked(&self, t: u64) -> (r: Result<u64, Error>)
        requires
            self.step > 0,
        ensures
            self.next_step_of(t) <= u64::MAX ==> r == Ok::<u64, Error>(self.next_step_of(t) as u64),
            self.next_step_of(t) > u64::MAX ==> (r matches Err(Error::Overflow(x)) && x == t),
    {
        if t / self.step < u64::MAX / self.step {
            proof {
                lemma_next_step_fits(t, self.step);
            }
            Ok(self.next_step(t))
        } else {
            proof {
                lemma_next_step_overflows(t, self.step);
            }
            Err(Error::Overflow(t))
        }
    }

    /// Seconds left in the current step, by the system clock.
    pub fn ttl(&self) -> (r: Result<u64, Error>)
        requires
            self.step > 0,
        ensures
            r matches Ok(v) ==> exists|t: u64| v == #[trigger] self.ttl_of(t),
            r matches Err(e) ==> e is Time,
    {
        match system_time() {
            Ok(t) => Ok(self.ttl_at(t)),
            Err(e) => Err(Error::Time(e)),
        }
    }

    /// The code for the current step, by the system clock.
    pub fn generate_current(&self) -> (r: Result<String, Error>)
        requires
            self.step > 0,
            self.digits <= 9,
        ensures
            r matches Ok(c) ==> exists|t: u64| c@ == self.code_at(t),
            r matches Err(e) ==> e is Time,
    {
        match system_time() {
            Ok(t) => Ok(self.generate(t)),
            Err(e) => Err(Error::Time(e)),
        }
    }

    /// Whether `token` is accepted now, by the system clock.
    pub fn check_current(&self, token: &str) -> (r: Result<bool, Error>)
        requires
            self.step > 0,
            self.digits <= 9,
        ensures
            r matches Ok(b) ==> exists|t: u64| b == self.accepts(token@, t),
            r matches Err(e) ==> e is Time,
    {
        match system_time() {
            Ok(t) => Ok(self.check(token, t)),
            Err(e) => Err(Error::Time(e)),
        }
    }

    /// The secret as unpadded RFC 4648 base32 text.
    pub fn to_secret_base32(&self) -> (r: String)
        ensures
            r@ == base32_of(self.secret@),
    {
        base32_encode(self.secret.as_slice())
    }

    /// A TOTP with this base32 secret, SHA-1, 6 digits, skew 1, a 30-second
    /// step, an empty account name and no issuer.
    pub fn from_secret_base32(secret: &str) -> (r: Result<TOTP, Error>)
        ensures
            result_view(r) == match base32_decoded(secret@) {
                None => Err(ErrorView::Secret(secret@)),
                Some(b) => new_spec(
                    TotpView {
                        algorithm: Algorithm::SHA1,
                        digits: 6,
                        skew: 1,
                        step: 30,
                        secret: b,
                        account_name: Seq::empty(),
                        issuer: None,
                    },
                ),
            },
    {
        match base32_decode(secret) {
            None => Err(Error::Secret(secret.to_owned())),
            Some(b) => TOTP::new(Algorithm::SHA1, 6, 1, 30, b, String::new(), None),
        }
    }
}

/// The counter as eight big-endian bytes.
fn counter_be_bytes(c: u64) -> (r: Vec<u8>)
    ensures
        r@ == counter_bytes(c),
{
    let mut v: Vec<u8> = Vec::new();
    v.push((c >> 56u64) as u8);
    v.push((c >> 48u64) as u8);
    v.push((c >> 40u64) as u8);
    v.push((c >> 32u64) as u8);
    v.push((c >> 24u64) as u8);
    v.push((c >> 16u64) as u8);
    v.push((c >> 8u64) as u8);
    v.push(c as u8);
    assert(v@ =~= counter_bytes(c));
    v
}

/// The last `width` decimal digits of `v`, zeros on the left.
fn padded_decimal_string(v: u32, width: usize) -> (r: String)
    ensures
        r@ == padded_decimal(v as nat, width as nat),
    decreases width,
{
    if width == 0 {
        String::new()
    } else {
        let mut s = padded_decimal_string(v / 10, width - 1);
        s.append(digit_str((v % 10) as usize));
        assert(s@ =~= padded_decimal(v as nat, width as nat));
        s
    }
}

/// Ten to a power of at most nine fits in 32 bits.
proof fn lemma_pow10_bound(n: nat)
    requires
        n <= 9,
    ensures
        pow10(n) <= 1000000000,
{
    reveal_with_fuel(pow10, 10);
}

/// A padded decimal has exactly `width` characters.
pub proof fn lemma_padded_decimal_len(v: nat, width: nat)
    ensures
        padded_decimal(v, width).len() == width,
    decreases width,
{
    if width > 0 {
        lemma_padded_decimal_len(v / 10, (width - 1) as nat);
    }
}

/// Generation depends on the secret, algorithm, digits, step and time
/// alone: two TOTPs that agree on those give the same code, of exactly
/// `digits` characters when there is at least one digit.
pub proof fn lemma_generate_deterministic(a: TOTP, b: TOTP, time: u64)
    requires
        a.algorithm == b.algorithm,
        a.secret@ == b.secret@,
        a.digits == b.digits,
        a.step == b.step,
    ensures
        a.code_at(time) == b.code_at(time),
        a.digits >= 1 ==> a.code_at(time).len() == a.digits,
{
    lemma_padded_decimal_len(
        truncated(mac_of(a.algorithm, a.secret@, counter_bytes(time / a.step))) % pow10(
            a.digits as nat,
        ),
        code_width(a.digits as nat),
    );
}

/// A check at `time` accepts exactly the codes that generation gives at the
/// first second of each step in the window of `2 * skew + 1` steps centred on
/// the step that holds `time` (steps that no 64-bit time reaches left out).
pub proof fn lemma_check_is_window_of_generate(t: TOTP, token: Seq<char>, time: u64)
    requires
        t.step > 0,
    ensures
        t.accepts(token, time) <==> exists|s: int|
            #[trigger] t.in_window(time, s) && token == t.code_at((s * t.step) as u64),
{
    assert forall|s: int| #[trigger] t.in_window(time, s) implies t.code_at((s * t.step) as u64)
        == t.step_code(s as u64) by {
        lemma_mul_le_max(s, t.step as int);
        lemma_mul_div_cancel(s as u64, t.step);
    }
}

/// The next step starts after `time`, on a multiple of the step, and no
/// multiple of the step after `time` comes before it.
pub proof fn lemma_next_step_is_least(t: TOTP, time: u64, m: int)
    requires
        t.step > 0,
    ensures
        t.next_step_of(time) > time,
        t.next_step_of(time) % (t.step as int) == 0,
        m > time && m % (t.step as int) == 0 ==> m >= t.next_step_of(time),
{
    let step = t.step as int;
    let q = (time / t.step) as int;
    assert(t.next_step_of(time) == (q + 1) * step);
    vstd::arithmetic::div_mod::lemma_fundamental_div_mod(time as int, step);
    assert(time == q * step + time % t.step);
    assert((q + 1) * step > time) by (nonlinear_arith)
        requires
            step > 0,
            time == q * step + time % t.step,
            time % t.step < step,
    ;
    assert(((q + 1) * step) % step == 0) by (nonlinear_arith)
        requires
            step > 0,
    ;
    if m > time && m % step == 0 {
        let k = m / step;
        assert(m == k * step) by (nonlinear_arith)
            requires
                step > 0,
                m % step == 0,
                k == m / step,
        ;
        assert(k >= q + 1) by (nonlinear_arith)
            requires
                step > 0,
                m == k * step,
                m > time,
                time == q * step + time % t.step,
                0 <= time % t.step,
        ;
        assert(m >= (q + 1) * step) by (nonlinear_arith)
            requires
                step > 0,
                m == k * step,
                k >= q + 1,
        ;
    }
}

proof fn lemma_div_mul_bound(time: u64, step: u64)
    requires
        step > 0,
    ensures
        time / step <= u64::MAX / step,
{
    assert(time / step <= u64::MAX / step) by (nonlinear_arith)
        requires
            step > 0,
            time <= u64::MAX,
    ;
}

proof fn lemma_mul_div_cancel(s: u64, step: u64)
    requires
        step > 0,
        s <= u64::MAX / step,
    ensures
        s * step <= u64::MAX,
        ((s * step) as u64) / step == s,
{
    assert(s * step <= u64::MAX) by (nonlinear_arith)
        requires
            step > 0,
            s <= u64::MAX / step,
    ;
    assert(((s * step) as u64) / step == s) by (nonlinear_arith)
        requires
            step > 0,
            s * step <= u64::MAX,
    ;
}

proof fn lemma_mul_le_max(s: int, step: int)
    requires
        step > 0,
        0 <= s,
        s * step <= u64::MAX,
    ensures
        s <= (u64::MAX as int) / step,
{
    assert(s <= (u64::MAX as int) / step) by (nonlinear_arith)
        requires
            step > 0,
            0 <= s,
            s * step <= u64::MAX,
    ;
}

proof fn lemma_next_step_fits(t: u64, step: u64)
    requires
        step > 0,
        t / step < u64::MAX / step,
    ensures
        ((t / step) as int + 1) * step <= u64::MAX,
{
    let q = t / step;
    assert((q + 1) * step <= u64::MAX) by (nonlinear_arith)
        requires
            step > 0,
            q < u64::MAX / step,
    ;
}

proof fn lemma_next_step_overflows(t: u64, step: u64)
    requires
        step > 0,
        t / step >= u64::MAX / step,
    ensures
        ((t / step) as int + 1) * step > u64::MAX,
{
    let q = t / step;
    assert((q + 1) * step > u64::MAX) by (nonlinear_arith)
        requires
            step > 0,
            q >= u64::MAX / step,
    ;
}

/// Relies on `std::time::SystemTime::now` and `duration_since(UNIX_EPOCH)`:
/// whole seconds since the epoch, or the error of a clock set before it.
#[verifier::external_body]
fn system_time() -> (r: Result<u64, std::time::SystemTimeError>) {
    std::time::SystemTime::now().duration_since(std::time::UNIX_EPOCH).map(|d| d.as_secs())
}

/// Relies on `constant_time_eq::constant_time_eq`: true exactly when both
/// slices have the same length and the same bytes.
#[verifier::external_body]
fn ct_eq(a: &[u8], b: &[u8]) -> (r: bool)
    ensures
        r == (a@ == b@),
{
    constant_time_eq::constant_time_eq(a, b)
}

/// Compares two strings in constant time for strings of equal length.
fn ct_eq_str(a: &str, b: &str) -> (r: bool)
    ensures
        r == (a@ == b@),
{
    proof {
        encode_utf8_decode_utf8(a@);
        encode_utf8_decode_utf8(b@);
    }
    ct_eq(a.as_bytes(), b.as_bytes())
}

impl Drop for TOTP {
    /// Relies on `zeroize::Zeroize` for `Vec<u8>`: the secret's bytes are
    /// overwritten with zeros before its memory is released.
    #[verifier::external_body]
    fn drop(&mut self)
        opens_invariants none
        no_unwind
    {
        zeroize::Zeroize::zeroize(&mut self.secret);
    }
}

impl PartialEq for TOTP {
    fn eq(&self, other: &TOTP) -> (r: bool)
        ensures
            r == (self.secret@ == other.secret@),
    {
        ct_eq(self.secret.as_slice(), other.secret.as_slice())
    }
}

impl vstd::std_specs::cmp::PartialEqSpecImpl for TOTP {
    open spec fn obeys_eq_spec() -> bool {
        true
    }

    open spec fn eq_spec(&self, other: &TOTP) -> bool {
        self.secret@ == other.secret@
    }
}

} // verus!
