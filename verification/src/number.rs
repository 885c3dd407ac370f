//! Numbers as text: decimal digits, byte counts and spans of time.

use vstd::prelude::*;

verus! {

/// The decimal digit `d`.
pub open spec fn digit(d: nat) -> char {
    (48 + d) as char
}

/// `n` in decimal digits, without leading zeros.
pub open spec fn decimal(n: nat) -> Seq<char>
    decreases n,
{
    if n < 10 {
        seq![digit(n)]
    } else {
        decimal(n / 10).push(digit(n % 10))
    }
}

/// `n` in decimal digits, with zeros in front up to `width` digits.
pub open spec fn padded(n: nat, width: nat) -> Seq<char> {
    let d = decimal(n);
    if d.len() < width {
        Seq::new((width - d.len()) as nat, |i: int| '0') + d
    } else {
        d
    }
}

/// `n` in decimal digits, after a minus sign where it is negative.
pub open spec fn signed_decimal(n: int) -> Seq<char> {
    if n < 0 {
        seq!['-'] + decimal((-n) as nat)
    } else {
        decimal(n as nat)
    }
}

/// The decimal digit `d`.
fn digit_char(d: u8) -> (r: char)
    requires
        d < 10,
    ensures
        r == digit(d as nat),
{
    (48 + d) as char
}

/// `n` in decimal digits.
pub fn decimal_text(n: u128) -> (r: String)
    ensures
        r@ == decimal(n as nat),
    decreases n,
{
    let mut r = if n < 10 {
        String::new()
    } else {
        decimal_text(n / 10)
    };
    r.push(digit_char((n % 10) as u8));
    assert(n < 10 ==> r@ =~= seq![digit(n as nat)]);
    r
}

/// `n` in decimal digits, after a minus sign where it is negative.
pub fn signed_text(n: i32) -> (r: String)
    ensures
        r@ == signed_decimal(n as int),
{
    if n < 0 {
        let mut r = String::new();
        r.push('-');
        let d = decimal_text((-(n as i128)) as u128);
        r.append(d.as_str());
        assert(r@ =~= seq!['-'] + d@);
        r
    } else {
        decimal_text(n as u128)
    }
}

/// `n` in decimal digits, with zeros in front up to `width` digits.
pub fn padded_text(n: u128, width: usize) -> (r: String)
    ensures
        r@ == padded(n as nat, width as nat),
{
    let d = decimal_text(n);
    let len = d.as_str().unicode_len();
    let mut r = String::new();
    let mut i: usize = len;
    while i < width
        invariant
            len == d@.len(),
            len <= i,
            i <= width || i == len,
            r@ == Seq::new((i - len) as nat, |k: int| '0'),
        decreases width - i,
    {
        r.push('0');
        i = i + 1;
        assert(r@ =~= Seq::new((i - len) as nat, |k: int| '0'));
    }
    r.append(d.as_str());
    assert(r@ =~= padded(n as nat, width as nat));
    r
}

/// The value of a sequence of decimal digits.
pub open spec fn value_of(s: Seq<char>) -> nat
    decreases s.len(),
{
    if s.len() == 0 {
        0
    } else {
        (10 * value_of(s.drop_last()) + (s.last() as nat - 48)) as nat
    }
}

/// Reading the decimal digits of a number gives the number back.
pub proof fn decimal_reads_back(n: nat)
    ensures
        value_of(decimal(n)) == n,
        decimal(n).len() >= 1,
        forall|i: int| 0 <= i < decimal(n).len() ==> '0' <= #[trigger] decimal(n)[i] <= '9',
    decreases n,
{
    if n < 10 {
        assert(seq![digit(n)].drop_last() =~= Seq::<char>::empty());
        assert(value_of(Seq::<char>::empty()) == 0);
        assert(value_of(seq![digit(n)]) == n);
    } else {
        decimal_reads_back(n / 10);
        assert(decimal(n).drop_last() =~= decimal(n / 10));
    }
}

/// `a / b`, rounded to the nearest whole number; halfway between two, to the even one.
pub open spec fn round_half_even(a: nat, b: nat) -> nat {
    let whole = a / b;
    let rest = a % b;
    if 2 * rest < b || (2 * rest == b && whole % 2 == 0) {
        whole
    } else {
        whole + 1
    }
}

fn rounded(a: u128, b: u128) -> (r: u128)
    requires
        0 < b < 0x1_0000_0000_0000_0000,
        a < 0x1_0000_0000_0000_0000_0000,
    ensures
        r == round_half_even(a as nat, b as nat),
        r <= a + 1,
{
    let whole: u128 = a / b;
    let rest: u128 = a % b;
    assert(whole <= a) by (nonlinear_arith)
        requires
            whole == a / b,
            0 < b,
    ;
    if 2 * rest < b || (2 * rest == b && whole % 2 == 0) {
        whole
    } else {
        whole + 1
    }
}

/// The spacing of the double-precision numbers around a 64-bit `n`.
pub open spec fn double_step(n: nat) -> nat {
    if n < 0x20000000000000 {
        1
    } else if n < 0x40000000000000 {
        2
    } else if n < 0x80000000000000 {
        4
    } else if n < 0x100000000000000 {
        8
    } else if n < 0x200000000000000 {
        16
    } else if n < 0x400000000000000 {
        32
    } else if n < 0x800000000000000 {
        64
    } else if n < 0x1000000000000000 {
        128
    } else if n < 0x2000000000000000 {
        256
    } else if n < 0x4000000000000000 {
        512
    } else if n < 0x8000000000000000 {
        1024
    } else {
        2048
    }
}

/// The double-precision number nearest to a 64-bit `n`.
pub open spec fn nearest_double(n: nat) -> nat {
    round_half_even(n, double_step(n)) * double_step(n)
}

fn step_of(n: u64) -> (r: u128)
    ensures
        r == double_step(n as nat),
        1 <= r <= 2048,
{
    if n < 0x20000000000000 {
        1
    } else if n < 0x40000000000000 {
        2
    } else if n < 0x80000000000000 {
        4
    } else if n < 0x100000000000000 {
        8
    } else if n < 0x200000000000000 {
        16
    } else if n < 0x400000000000000 {
        32
    } else if n < 0x800000000000000 {
        64
    } else if n < 0x1000000000000000 {
        128
    } else if n < 0x2000000000000000 {
        256
    } else if n < 0x4000000000000000 {
        512
    } else if n < 0x8000000000000000 {
        1024
    } else {
        2048
    }
}

fn as_double(n: u64) -> (r: u128)
    ensures
        r == nearest_double(n as nat),
        r <= 0x1000_0000_0000_0000_0000,
{
    let step: u128 = step_of(n);
    let q: u128 = rounded(n as u128, step);
    assert(q * step <= 0x1000_0000_0000_0000_0000) by (nonlinear_arith)
        requires
            q <= 0x1_0000_0000_0000_0000,
            step <= 2048,
    ;
    q * step
}

/// The number of bytes in one unit of the given rank: bytes, then KiB to TiB.
pub open spec fn unit_size(rank: nat) -> nat {
    if rank == 0 {
        1
    } else if rank == 1 {
        1024
    } else if rank == 2 {
        0x10_0000
    } else if rank == 3 {
        0x4000_0000
    } else {
        0x100_0000_0000
    }
}

/// The rank of the largest unit that fits into `bytes`.
pub open spec fn unit_rank(bytes: nat) -> nat {
    if bytes < unit_size(1) {
        0
    } else if bytes < unit_size(2) {
        1
    } else if bytes < unit_size(3) {
        2
    } else if bytes < unit_size(4) {
        3
    } else {
        4
    }
}

/// The name of the unit of the given rank.
pub open spec fn unit_name(rank: nat) -> Seq<char> {
    if rank == 0 {
        "B"@
    } else if rank == 1 {
        "KiB"@
    } else if rank == 2 {
        "MiB"@
    } else if rank == 3 {
        "GiB"@
    } else {
        "TiB"@
    }
}

/// A byte count as it is shown: whole bytes below 1024, and above that the double-precision
/// count in the largest unit that fits, rounded to tenths.
pub open spec fn bytes_text(bytes: nat) -> Seq<char> {
    let rank = unit_rank(bytes);
    if rank == 0 {
        decimal(bytes) + " "@ + unit_name(0)
    } else {
        let tenths = round_half_even(10 * nearest_double(bytes), unit_size(rank));
        decimal(tenths / 10) + "."@ + seq![digit(tenths % 10)] + " "@ + unit_name(rank)
    }
}

/// A byte count as it is shown.
pub fn human_bytes(bytes: u64) -> (r: String)
    ensures
        r@ == bytes_text(bytes as nat),
{
    if bytes < 1024 {
        return decimal_text(bytes as u128).concat(" ").concat("B");
    }
    let (size, name): (u128, &str) = if bytes < 0x10_0000 {
        (1024, "KiB")
    } else if bytes < 0x4000_0000 {
        (0x10_0000, "MiB")
    } else if bytes < 0x100_0000_0000 {
        (0x4000_0000, "GiB")
    } else {
        (0x100_0000_0000, "TiB")
    };
    let tenths: u128 = rounded(10 * as_double(bytes), size);
    let mut r = decimal_text(tenths / 10).concat(".");
    r.push(digit_char((tenths % 10) as u8));
    let r = r.concat(" ").concat(name);
    assert(r@ =~= bytes_text(bytes as nat));
    r
}

/// The time that a download still takes, in hours and minutes, minutes and seconds, or seconds.
pub open spec fn eta_text(secs: nat) -> Seq<char> {
    if secs >= 3600 {
        decimal(secs / 3600) + "h"@ + padded((secs % 3600) / 60, 2) + "m"@
    } else if secs >= 60 {
        decimal(secs / 60) + "m"@ + padded(secs % 60, 2) + "s"@
    } else {
        decimal(secs) + "s"@
    }
}

/// The time that a download still takes, as it is shown.
pub fn fmt_eta(secs: u64) -> (r: String)
    ensures
        r@ == eta_text(secs as nat),
{
    if secs >= 3600 {
        let rest = padded_text(((secs % 3600) / 60) as u128, 2);
        decimal_text((secs / 3600) as u128).concat("h").concat(rest.as_str()).concat("m")
    } else if secs >= 60 {
        let rest = padded_text((secs % 60) as u128, 2);
        decimal_text((secs / 60) as u128).concat("m").concat(rest.as_str()).concat("s")
    } else {
        decimal_text(secs as u128).concat("s")
    }
}

/// The length of a medium of `total` seconds as a clock shows it; unknown without a length.
pub open spec fn duration_text(total: Option<nat>) -> Seq<char> {
    match total {
        None => "Unknown"@,
        Some(t) => if t >= 3600 {
            decimal(t / 3600) + ":"@ + padded((t % 3600) / 60, 2) + ":"@ + padded(t % 60, 2)
        } else {
            decimal(t / 60) + ":"@ + padded(t % 60, 2)
        },
    }
}

/// The length of a medium of `total` whole seconds as it is shown.
pub fn format_duration(total: Option<u64>) -> (r: String)
    ensures
        r@ == duration_text(
            match total {
                Some(t) => Some(t as nat),
                None => None,
            },
        ),
{
    match total {
        None => String::from_str("Unknown"),
        Some(t) => {
            let secs = padded_text((t % 60) as u128, 2);
            if t >= 3600 {
                let minutes = padded_text(((t % 3600) / 60) as u128, 2);
                decimal_text((t / 3600) as u128).concat(":").concat(minutes.as_str()).concat(
                    ":",
                ).concat(secs.as_str())
            } else {
                decimal_text((t / 60) as u128).concat(":").concat(secs.as_str())
            }
        },
    }
}

/// Whether a text is made of decimal digits, at least one.
pub open spec fn is_digits(s: Seq<char>) -> bool {
    s.len() > 0 && forall|i: int| 0 <= i < s.len() ==> '0' <= #[trigger] s[i] <= '9'
}

/// Whether a text is a number in decimal digits without needless zeros in front.
pub open spec fn is_number(s: Seq<char>) -> bool {
    is_digits(s) && (s.len() > 1 ==> s[0] != '0')
}

/// The digits of a number are a number that reads back.
pub proof fn lemma_decimal(n: nat)
    ensures
        is_number(decimal(n)),
        value_of(decimal(n)) == n,
        n >= 1 ==> decimal(n)[0] != '0',
    decreases n,
{
    decimal_reads_back(n);
    if n >= 10 {
        lemma_decimal(n / 10);
        assert(decimal(n)[0] == decimal(n / 10)[0]);
    }
}

proof fn lemma_zeros(k: nat, d: Seq<char>)
    ensures
        value_of(Seq::new(k, |i: int| '0') + d) == value_of(d),
    decreases k + d.len(),
{
    let z = Seq::new(k, |i: int| '0');
    let s = z + d;
    if d.len() > 0 {
        lemma_zeros(k, d.drop_last());
        assert(s.drop_last() =~= z + d.drop_last());
    } else if k > 0 {
        let fewer = Seq::new((k - 1) as nat, |i: int| '0');
        lemma_zeros((k - 1) as nat, d);
        assert(s.drop_last() =~= fewer + d);
    } else {
        assert(s =~= d);
    }
}

/// A padded number is made of digits, reads back, and has at least the wanted width.
pub proof fn lemma_padded(n: nat, width: nat)
    ensures
        is_digits(padded(n, width)),
        value_of(padded(n, width)) == n,
        padded(n, width).len() >= width,
        padded(n, width).len() > width ==> is_number(padded(n, width)),
{
    lemma_decimal(n);
    let d = decimal(n);
    if d.len() < width {
        lemma_zeros((width - d.len()) as nat, d);
    }
}

/// A number below 100 that is padded to two digits has two digits and reads back.
pub proof fn lemma_two_digits(n: nat)
    requires
        n < 100,
    ensures
        padded(n, 2).len() == 2,
        is_digits(padded(n, 2)),
        value_of(padded(n, 2)) == n,
{
    lemma_padded(n, 2);
    reveal_with_fuel(decimal, 3);
}

/// A number that is written reads back: it has no needless zeros in front, or zeros up to the
/// wanted width, and a minus sign exactly where it is negative.
pub proof fn written_numbers_read_back(
    n: u128,
    width: usize,
    signed: i32,
    plain: String,
    wide: String,
    with_sign: String,
)
    requires
        call_ensures(decimal_text, (n,), plain),
        call_ensures(padded_text, (n, width), wide),
        call_ensures(signed_text, (signed,), with_sign),
    ensures
        is_number(plain@) && value_of(plain@) == n,
        is_digits(wide@) && value_of(wide@) == n,
        wide@.len() >= width,
        wide@.len() > width ==> wide@ == plain@,
        signed >= 0 ==> is_number(with_sign@) && value_of(with_sign@) == signed,
        signed < 0 ==> with_sign@[0] == '-' && is_number(with_sign@.skip(1)) && value_of(
            with_sign@.skip(1),
        ) == -signed,
{
    lemma_decimal(n as nat);
    lemma_padded(n as nat, width as nat);
    if signed < 0 {
        lemma_decimal((-signed) as nat);
        assert(with_sign@.skip(1) =~= decimal((-signed) as nat));
    } else {
        lemma_decimal(signed as nat);
    }
}

/// The number of seconds that a clock time stands for: the numbers between its colons count
/// sixties of the next.
pub open spec fn clock_value(s: Seq<char>) -> nat
    decreases s.len(),
{
    match s.index_of_last(':') {
        Some(at) => if 0 <= at < s.len() {
            60 * clock_value(s.take(at)) + value_of(s.skip(at + 1))
        } else {
            0
        },
        None => value_of(s),
    }
}

proof fn lemma_clock_part(front: Seq<char>, part: Seq<char>)
    requires
        is_digits(part),
    ensures
        clock_value(front + ":"@ + part) == 60 * clock_value(front) + value_of(part),
{
    reveal_strlit(":");
    let s = front + ":"@ + part;
    let at = front.len() as int;
    s.index_of_last_ensures(':');
    assert(s[at] == ':');
    assert forall|i: int| at < i < s.len() implies s[i] != ':' by {
        assert(s[i] == part[i - at - 1]);
    }
    assert(s.contains(':'));
    assert(s.take(at) =~= front);
    assert(s.skip(at + 1) =~= part);
}

proof fn lemma_clock_number(s: Seq<char>)
    requires
        is_digits(s),
    ensures
        clock_value(s) == value_of(s),
{
    s.index_of_last_ensures(':');
}

/// Whether a text is a clock time: a number, and behind colons up to `parts` pairs of digits
/// below sixty.
pub open spec fn is_clock(s: Seq<char>, parts: nat) -> bool
    decreases parts,
{
    if parts == 0 {
        is_number(s)
    } else {
        let n = s.len() as int;
        &&& n > 3
        &&& s[n - 3] == ':'
        &&& is_digits(s.skip(n - 2))
        &&& value_of(s.skip(n - 2)) < 60
        &&& is_clock(s.take(n - 3), (parts - 1) as nat)
    }
}

proof fn lemma_is_clock(front: Seq<char>, n: nat, parts: nat)
    requires
        is_clock(front, parts),
        front.len() > 0,
        n < 60,
    ensures
        is_clock(front + ":"@ + padded(n, 2), parts + 1),
        clock_value(front + ":"@ + padded(n, 2)) == 60 * clock_value(front) + n,
{
    reveal_strlit(":");
    lemma_two_digits(n);
    lemma_clock_part(front, padded(n, 2));
    let s = front + ":"@ + padded(n, 2);
    assert(s.skip(s.len() - 2) =~= padded(n, 2));
    assert(s.take(s.len() - 3) =~= front);
}

/// The label of a known length reads back: it is a clock time, with hours exactly where there are
/// any, and its parts add up to the number of seconds.
pub proof fn duration_reads_back(total: u64, label: String)
    requires
        call_ensures(format_duration, (Some(total),), label),
    ensures
        clock_value(label@) == total,
        is_clock(
            label@,
            if total >= 3600 {
                2
            } else {
                1
            },
        ),
{
    lemma_duration(total as nat);
}

/// The text of a known length is a clock time that reads back.
pub proof fn lemma_duration(t: nat)
    ensures
        clock_value(duration_text(Some(t))) == t,
        is_clock(
            duration_text(Some(t)),
            if t >= 3600 {
                2
            } else {
                1
            },
        ),
{
    if t >= 3600 {
        let hours = decimal(t / 3600);
        lemma_decimal(t / 3600);
        lemma_clock_number(hours);
        assert(is_clock(hours, 0));
        lemma_is_clock(hours, (t % 3600) / 60, 0);
        lemma_is_clock(hours + ":"@ + padded((t % 3600) / 60, 2), t % 60, 1);
        assert(60 * (60 * (t / 3600) + (t % 3600) / 60) + t % 60 == t);
    } else {
        let minutes = decimal(t / 60);
        lemma_decimal(t / 60);
        lemma_clock_number(minutes);
        assert(is_clock(minutes, 0));
        lemma_is_clock(minutes, t % 60, 0);
    }
}

/// Two different lengths never have the same label, and an unknown length has a label of its own.
pub proof fn durations_differ(
    total: u64,
    other: u64,
    label: String,
    other_label: String,
    unknown: String,
)
    requires
        call_ensures(format_duration, (Some(total),), label),
        call_ensures(format_duration, (Some(other),), other_label),
        call_ensures(format_duration, (None,), unknown),
    ensures
        label@ == other_label@ <==> total == other,
        unknown@ == "Unknown"@,
        label@ != unknown@,
{
    duration_reads_back(total, label);
    duration_reads_back(other, other_label);
    reveal_strlit("Unknown");
    let n = label@.len() as int;
    if label@ == unknown@ {
        assert("Unknown"@[4] == 'o');
        assert(label@[n - 3] == ':');
    }
}

/// The time left reads back, in its two largest units: whole seconds below an hour, whole minutes
/// above it.
pub proof fn time_left_reads_back(secs: u64, text: String)
    requires
        call_ensures(fmt_eta, (secs,), text),
    ensures
        exists|first: Seq<char>, second: Seq<char>|
            {
                let a = value_of(first);
                let b = value_of(second);
                is_number(first) && is_digits(second) && second.len() == 2 && b < 60 && {
                    ||| text@ == #[trigger] (first + "h"@ + second + "m"@) && a >= 1 && 3600 * a + 60
                        * b <= secs < 3600 * a + 60 * b + 60
                    ||| text@ == first + "m"@ + second + "s"@ && 1 <= a < 60 && 60 * a + b == secs
                    ||| text@ == first + "s"@ && a < 60 && a == secs
                }
            },
{
    let t = secs as nat;
    if t >= 3600 {
        let (first, second) = (decimal(t / 3600), padded((t % 3600) / 60, 2));
        lemma_decimal(t / 3600);
        lemma_two_digits((t % 3600) / 60);
        assert(text@ == first + "h"@ + second + "m"@);
        assert(3600 * (t / 3600) + 60 * ((t % 3600) / 60) <= t);
        assert(t < 3600 * (t / 3600) + 60 * ((t % 3600) / 60) + 60);
    } else if t >= 60 {
        let (first, second) = (decimal(t / 60), padded(t % 60, 2));
        lemma_decimal(t / 60);
        lemma_two_digits(t % 60);
        let other = first + "h"@ + second + "m"@;
        assert(text@ == first + "m"@ + second + "s"@);
        assert(60 * (t / 60) + t % 60 == t);
    } else {
        let (first, second) = (decimal(t), padded(0, 2));
        lemma_decimal(t);
        lemma_two_digits(0);
        let other = first + "h"@ + second + "m"@;
        assert(text@ == first + "s"@);
    }
}

proof fn lemma_round_half_even(a: nat, b: nat)
    requires
        b > 0,
    ensures
        2 * (round_half_even(a, b) * b) <= 2 * a + b,
        2 * a <= 2 * (round_half_even(a, b) * b) + b,
{
    let whole = a / b;
    let rest = a % b;
    assert(a == whole * b + rest && rest < b) by (nonlinear_arith)
        requires
            whole == a / b,
            rest == a % b,
            b > 0,
    ;
    assert((whole + 1) * b == whole * b + b) by (nonlinear_arith);
}

/// Whether a text shows a number of tenths in units of the given name.
pub open spec fn shows_tenths(
    text: Seq<char>,
    whole: Seq<char>,
    tenth: char,
    tenths: nat,
    unit: Seq<char>,
) -> bool {
    &&& is_number(whole)
    &&& '0' <= tenth <= '9'
    &&& tenths == 10 * value_of(whole) + (tenth as nat - 48)
    &&& text == whole + "."@ + seq![tenth] + " "@ + unit
}

/// Whether `size` is the number of bytes in the unit of the given name.
pub open spec fn is_unit(unit: Seq<char>, size: nat) -> bool {
    ||| unit == "KiB"@ && size == 1024
    ||| unit == "MiB"@ && size == 1024 * 1024
    ||| unit == "GiB"@ && size == 1024 * 1024 * 1024
    ||| unit == "TiB"@ && size == 1024 * 1024 * 1024 * 1024
}

/// A byte count is shown in whole bytes below 1024, and else in the largest unit that fits, off by
/// at most half a tenth of it; counts of 2^53 bytes and more are first rounded to
/// double-precision numbers, which lie at most 2048 apart.
pub proof fn size_is_shown_to_tenths(bytes: u64, text: String)
    requires
        call_ensures(human_bytes, (bytes,), text),
    ensures
        bytes < 1024 ==> exists|n: Seq<char>|
            is_number(n) && value_of(n) == bytes && text@ == #[trigger] (n + " "@ + "B"@),
        bytes >= 1024 ==> exists|whole: Seq<char>, tenth: char, tenths: nat, unit: Seq<char>, size: nat|
            {
                &&& #[trigger] shows_tenths(text@, whole, tenth, tenths, unit)
                &&& #[trigger] is_unit(unit, size)
                &&& size <= bytes
                &&& unit != "TiB"@ ==> bytes < 1024 * size
                &&& {
                    let slack: nat = if bytes < 0x20000000000000 {
                        0
                    } else {
                        10 * 2048
                    };
                    2 * (tenths * size) <= 20 * bytes + size + slack && 20 * bytes <= 2 * (tenths
                        * size) + size + slack
                }
            },
{
    let n = bytes as nat;
    if n < 1024 {
        lemma_decimal(n);
        assert(text@ == decimal(n) + " "@ + "B"@);
    } else {
        let size = unit_size(unit_rank(n));
        let unit = unit_name(unit_rank(n));
        let d = nearest_double(n);
        let tenths = round_half_even(10 * d, size);
        lemma_round_half_even(n, double_step(n));
        lemma_round_half_even(10 * d, size);
        assert(n < 0x20000000000000 ==> d == n);
        lemma_decimal(tenths / 10);
        let whole = decimal(tenths / 10);
        let tenth = digit(tenths % 10);
        assert(shows_tenths(text@, whole, tenth, tenths, unit));
        reveal_strlit("KiB");
        reveal_strlit("MiB");
        reveal_strlit("GiB");
        reveal_strlit("TiB");
        assert("KiB"@[0] != "TiB"@[0] && "MiB"@[0] != "TiB"@[0] && "GiB"@[0] != "TiB"@[0]);
        assert(is_unit(unit, size));
    }
}

} // verus!
