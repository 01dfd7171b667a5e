//! Plain ASCII text as bytes: decimal numbers, digit grouping, centering.

use vstd::prelude::*;

verus! {

/// ASCII `0`.
pub const ZERO: u8 = 48;

/// ASCII space.
pub const SPACE: u8 = 32;

/// ASCII comma.
pub const COMMA: u8 = 44;

/// ASCII line feed.
pub const LINE_FEED: u8 = 10;

/// ASCII `-`.
pub const MINUS: u8 = 45;

/// ASCII `+`.
pub const PLUS: u8 = 43;

/// The ASCII digit for `d` (for `d < 10`).
pub open spec fn digit(d: nat) -> u8 {
    (ZERO + d) as u8
}

/// `n` in decimal, without leading zeros; `0` for zero.
pub open spec fn digits_of(n: nat) -> Seq<u8>
    decreases n,
{
    if n < 10 {
        seq![digit(n)]
    } else {
        digits_of(n / 10).push(digit(n % 10))
    }
}

/// The last three decimal digits of `n`, zeros included.
pub open spec fn three_digits(n: nat) -> Seq<u8> {
    seq![digit(n / 100 % 10), digit(n / 10 % 10), digit(n % 10)]
}

/// `v` in decimal with a comma before the last three digits and, from a
/// million on, another before the three preceding them. Digits above the
/// millions are not grouped further.
pub open spec fn grouped(v: nat) -> Seq<u8> {
    if v >= 1_000_000 {
        digits_of(v / 1_000_000) + seq![COMMA] + three_digits(v / 1_000 % 1_000) + seq![COMMA]
            + three_digits(v % 1_000)
    } else if v >= 1_000 {
        digits_of(v / 1_000) + seq![COMMA] + three_digits(v % 1_000)
    } else {
        digits_of(v)
    }
}

/// `n` spaces.
pub open spec fn spaces(n: nat) -> Seq<u8> {
    Seq::new(n, |i: int| SPACE)
}

/// `s` centered in a field of `width` bytes: cut to `width` where it is
/// longer, else padded with spaces on both sides, the odd space going to
/// the right.
pub open spec fn centered(s: Seq<u8>, width: nat) -> Seq<u8> {
    if s.len() >= width {
        s.take(width as int)
    } else {
        let pad = ((width - s.len()) / 2) as nat;
        spaces(pad) + s + spaces((width - pad - s.len()) as nat)
    }
}

/// Appends `v` in decimal to `out`.
pub fn push_decimal(out: &mut Vec<u8>, v: u64)
    ensures
        final(out)@ == old(out)@ + digits_of(v as nat),
    decreases v,
{
    if v >= 10 {
        push_decimal(out, v / 10);
    }
    out.push(ZERO + (v % 10) as u8);
    assert(out@ =~= old(out)@ + digits_of(v as nat));
}

/// Appends the last three decimal digits of `v` to `out`.
fn push_three_digits(out: &mut Vec<u8>, v: u64)
    ensures
        final(out)@ == old(out)@ + three_digits(v as nat),
{
    out.push(ZERO + (v / 100 % 10) as u8);
    out.push(ZERO + (v / 10 % 10) as u8);
    out.push(ZERO + (v % 10) as u8);
    assert(out@ =~= old(out)@ + three_digits(v as nat));
}

/// Appends `n` spaces to `out`.
fn push_spaces(out: &mut Vec<u8>, n: usize)
    ensures
        final(out)@ == old(out)@ + spaces(n as nat),
{
    let ghost before = out@;
    let mut i: usize = 0;
    while i < n
        invariant
            i <= n,
            out@ == before + spaces(i as nat),
        decreases n - i,
    {
        out.push(SPACE);
        i = i + 1;
        assert(out@ =~= before + spaces(i as nat));
    }
}

/// Appends `s[..upto]` to `out`.
fn push_bytes(out: &mut Vec<u8>, s: &[u8], upto: usize)
    requires
        upto <= s.len(),
    ensures
        final(out)@ == old(out)@ + s@.take(upto as int),
{
    let ghost before = out@;
    let mut i: usize = 0;
    while i < upto
        invariant
            i <= upto <= s.len(),
            out@ == before + s@.take(i as int),
        decreases upto - i,
    {
        out.push(s[i]);
        i = i + 1;
        assert(out@ =~= before + s@.take(i as int));
    }
}

/// `v` in decimal with thousands separators; see [`grouped`].
pub fn format_int(v: u64) -> (out: Vec<u8>)
    ensures
        out@ == grouped(v as nat),
{
    let mut out: Vec<u8> = Vec::new();
    if v >= 1_000_000 {
        push_decimal(&mut out, v / 1_000_000);
        out.push(COMMA);
        push_three_digits(&mut out, v / 1_000 % 1_000);
        out.push(COMMA);
        push_three_digits(&mut out, v % 1_000);
    } else if v >= 1_000 {
        push_decimal(&mut out, v / 1_000);
        out.push(COMMA);
        push_three_digits(&mut out, v % 1_000);
    } else {
        push_decimal(&mut out, v);
    }
    assert(out@ =~= grouped(v as nat));
    out
}

/// Centers `s` in a field of `width` bytes; see [`centered`].
pub fn center_pad(s: &[u8], width: usize) -> (out: Vec<u8>)
    ensures
        out@ == centered(s@, width as nat),
        out@.len() == width,
{
    let mut out: Vec<u8> = Vec::new();
    if s.len() >= width {
        push_bytes(&mut out, s, width);
        assert(out@ =~= s@.take(width as int));
        return out;
    }
    let pad: usize = (width - s.len()) / 2;
    push_spaces(&mut out, pad);
    push_bytes(&mut out, s, s.len());
    push_spaces(&mut out, width - pad - s.len());
    assert(s@.take(s.len() as int) =~= s@);
    assert(out@ =~= centered(s@, width as nat));
    out
}

// ---------------------------------------------------------------------------
// Reading integers
// ---------------------------------------------------------------------------

/// ASCII whitespace: space, tab, line feed, vertical tab, form feed,
/// carriage return.
pub open spec fn is_space(b: u8) -> bool {
    b == 32 || 9 <= b <= 13
}

/// An ASCII decimal digit.
pub open spec fn is_digit(b: u8) -> bool {
    48 <= b <= 57
}

/// `s` without its leading whitespace.
pub open spec fn trim_start(s: Seq<u8>) -> Seq<u8>
    decreases s.len(),
{
    if s.len() > 0 && is_space(s[0]) {
        trim_start(s.drop_first())
    } else {
        s
    }
}

/// `s` without its trailing whitespace.
pub open spec fn trim_end(s: Seq<u8>) -> Seq<u8>
    decreases s.len(),
{
    if s.len() > 0 && is_space(s.last()) {
        trim_end(s.drop_last())
    } else {
        s
    }
}

/// Every byte of `s` is a digit.
pub open spec fn all_digits(s: Seq<u8>) -> bool {
    forall|i: int| 0 <= i < s.len() ==> is_digit(#[trigger] s[i])
}

/// The number that the digits `s` write in decimal.
pub open spec fn number(s: Seq<u8>) -> nat
    decreases s.len(),
{
    if s.len() == 0 {
        0
    } else {
        (number(s.drop_last()) * 10 + (s.last() - ZERO)) as nat
    }
}

/// The integer that `s` writes: an optional sign, then one or more digits
/// and nothing else.
pub open spec fn signed(s: Seq<u8>) -> Option<int> {
    let negative = s.len() > 0 && s[0] == MINUS;
    let body = if s.len() > 0 && (s[0] == MINUS || s[0] == PLUS) { s.drop_first() } else { s };
    if body.len() > 0 && all_digits(body) {
        Some(if negative { -(number(body) as int) } else { number(body) as int })
    } else {
        None
    }
}

/// The integer that `text` holds: the one it writes once surrounding
/// whitespace is dropped, if it writes one and that fits 32 bits.
pub open spec fn integer_in(text: Seq<u8>) -> Option<i32> {
    match signed(trim_end(trim_start(text))) {
        Some(v) => if i32::MIN <= v <= i32::MAX { Some(v as i32) } else { None },
        None => None,
    }
}

proof fn trim_start_skips(s: Seq<u8>, k: int)
    requires
        0 <= k <= s.len(),
        forall|i: int| 0 <= i < k ==> is_space(#[trigger] s[i]),
        k < s.len() ==> !is_space(s[k]),
    ensures
        trim_start(s) == s.subrange(k, s.len() as int),
    decreases k,
{
    if k == 0 {
        assert(s.subrange(0, s.len() as int) =~= s);
    } else {
        let rest = s.drop_first();
        assert(is_space(s[0]));
        assert forall|i: int| 0 <= i < k - 1 implies is_space(#[trigger] rest[i]) by {
            assert(rest[i] == s[i + 1]);
        }
        trim_start_skips(rest, k - 1);
        assert(rest.subrange(k - 1, rest.len() as int) =~= s.subrange(k, s.len() as int));
    }
}

proof fn trim_end_skips(s: Seq<u8>, k: int)
    requires
        0 <= k <= s.len(),
        forall|i: int| k <= i < s.len() ==> is_space(#[trigger] s[i]),
        k > 0 ==> !is_space(s[k - 1]),
    ensures
        trim_end(s) == s.take(k),
    decreases s.len() - k,
{
    if k == s.len() {
        assert(s.take(k) =~= s);
    } else {
        let rest = s.drop_last();
        assert(is_space(s[s.len() - 1]));
        trim_end_skips(rest, k);
        assert(rest.take(k) =~= s.take(k));
    }
}

/// A number grows with every digit appended to it.
proof fn number_of_prefix(s: Seq<u8>, k: int)
    requires
        0 <= k <= s.len(),
        all_digits(s),
    ensures
        number(s.take(k)) <= number(s),
    decreases s.len() - k,
{
    if k == s.len() {
        assert(s.take(k) =~= s);
    } else {
        number_of_prefix(s, k + 1);
        assert(s.take(k + 1).drop_last() =~= s.take(k));
        assert(is_digit(s[k]));
        assert(s.take(k + 1).last() == s[k]);
    }
}

/// The integer written by the digits `body` under the given sign.
spec fn reading(negative: bool, body: Seq<u8>) -> Option<i32> {
    if body.len() > 0 && all_digits(body) {
        let v = if negative { -(number(body) as int) } else { number(body) as int };
        if i32::MIN <= v <= i32::MAX { Some(v as i32) } else { None }
    } else {
        None
    }
}

/// Whether `b` is ASCII whitespace.
fn is_space_byte(b: u8) -> (r: bool)
    ensures
        r == is_space(b),
{
    b == 32 || (9 <= b && b <= 13)
}

/// The decimal digits of `n` are digits, at least one, and write `n`.
pub proof fn digits_write_their_number(n: nat)
    ensures
        digits_of(n).len() >= 1,
        all_digits(digits_of(n)),
        number(digits_of(n)) == n,
    decreases n,
{
    let d = digits_of(n);
    if n < 10 {
        assert(d.drop_last().len() == 0);
        assert(number(d.drop_last()) == 0);
    } else {
        let head = digits_of(n / 10);
        digits_write_their_number(n / 10);
        assert(d.drop_last() =~= head);
        assert forall|i: int| 0 <= i < d.len() implies is_digit(#[trigger] d[i]) by {
            if i < head.len() {
                assert(d[i] == head[i]);
            }
        }
    }
}

/// Finds the bounds of `text[from..to]` without its surrounding
/// whitespace.
pub fn trim_bounds(text: &[u8], from: usize, to: usize) -> (bounds: (usize, usize))
    requires
        from <= to <= text.len(),
    ensures
        from <= bounds.0 <= bounds.1 <= to,
        text@.subrange(bounds.0 as int, bounds.1 as int) == trim_end(
            trim_start(text@.subrange(from as int, to as int)),
        ),
{
    let ghost field = text@.subrange(from as int, to as int);
    let mut start: usize = from;
    while start < to && is_space_byte(text[start])
        invariant
            from <= start <= to <= text.len(),
            forall|i: int| from <= i < start ==> is_space(#[trigger] text@[i]),
        decreases to - start,
    {
        start = start + 1;
    }
    let mut end: usize = to;
    while end > start && is_space_byte(text[end - 1])
        invariant
            start <= end <= to <= text.len(),
            forall|i: int| end <= i < to ==> is_space(#[trigger] text@[i]),
        decreases end,
    {
        end = end - 1;
    }
    proof {
        let led = text@.subrange(start as int, to as int);
        assert forall|i: int| 0 <= i < start - from implies is_space(#[trigger] field[i]) by {
            assert(field[i] == text@[i + from]);
        }
        trim_start_skips(field, start - from);
        assert(field.subrange(start - from, field.len() as int) =~= led);
        assert forall|i: int| end - start <= i < led.len() implies is_space(#[trigger] led[i]) by {
            assert(led[i] == text@[i + start]);
        }
        trim_end_skips(led, end - start);
        assert(led.take(end - start) =~= text@.subrange(start as int, end as int));
    }
    (start, end)
}

/// Index of the first `stop` in `s`, or the length of `s` where it holds
/// none.
pub open spec fn first_at(s: Seq<u8>, stop: u8) -> nat
    decreases s.len(),
{
    if s.len() == 0 || s[0] == stop {
        0
    } else {
        1 + first_at(s.drop_first(), stop)
    }
}

proof fn first_at_is(s: Seq<u8>, stop: u8, k: int)
    requires
        0 <= k <= s.len(),
        forall|i: int| 0 <= i < k ==> #[trigger] s[i] != stop,
        k < s.len() ==> s[k] == stop,
    ensures
        first_at(s, stop) == k,
    decreases k,
{
    if k > 0 {
        let rest = s.drop_first();
        assert(s[0] != stop);
        assert forall|i: int| 0 <= i < k - 1 implies #[trigger] rest[i] != stop by {
            assert(rest[i] == s[i + 1]);
        }
        first_at_is(rest, stop, k - 1);
    }
}

/// Finds the first `stop` in `text[from..to]`; `to` where it holds none.
pub fn find_byte(text: &[u8], from: usize, to: usize, stop: u8) -> (k: usize)
    requires
        from <= to <= text.len(),
    ensures
        from <= k <= to,
        k - from == first_at(text@.subrange(from as int, to as int), stop),
        k < to ==> text@[k as int] == stop,
{
    let mut k: usize = from;
    while k < to && text[k] != stop
        invariant
            from <= k <= to <= text.len(),
            forall|i: int| from <= i < k ==> #[trigger] text@[i] != stop,
        decreases to - k,
    {
        k = k + 1;
    }
    proof {
        let field = text@.subrange(from as int, to as int);
        assert forall|i: int| 0 <= i < k - from implies #[trigger] field[i] != stop by {
            assert(field[i] == text@[i + from]);
        }
        first_at_is(field, stop, k - from);
    }
    k
}

/// A copy of `text[from..to]`.
pub fn copy_range(text: &[u8], from: usize, to: usize) -> (out: Vec<u8>)
    requires
        from <= to <= text.len(),
    ensures
        out@ == text@.subrange(from as int, to as int),
{
    let mut out: Vec<u8> = Vec::new();
    let mut i: usize = from;
    while i < to
        invariant
            from <= i <= to <= text.len(),
            out@ == text@.subrange(from as int, i as int),
        decreases to - i,
    {
        out.push(text[i]);
        i = i + 1;
        assert(out@ =~= text@.subrange(from as int, i as int));
    }
    out
}

/// Reads the integer that `text` holds; see [`integer_in`]. `None` stands
/// for a text that holds no 32-bit integer.
pub fn parse_i32(text: &[u8]) -> (r: Option<i32>)
    ensures
        r == integer_in(text@),
{
    let n: usize = text.len();
    let (start, end): (usize, usize) = trim_bounds(text, 0, n);
    let ghost core = text@.subrange(start as int, end as int);
    assert(text@.subrange(0, n as int) =~= text@);
    let mut pos: usize = start;
    let mut negative: bool = false;
    if pos < end && text[pos] == MINUS {
        negative = true;
        pos = pos + 1;
    } else if pos < end && text[pos] == PLUS {
        pos = pos + 1;
    }
    let ghost body = text@.subrange(pos as int, end as int);
    proof {
        if pos > start {
            assert(core.drop_first() =~= body);
        } else {
            assert(core =~= body);
        }
    }
    assert(integer_in(text@) == reading(negative, body));
    if pos == end {
        return None;
    }
    let mut acc: u64 = 0;
    let mut i: usize = pos;
    while i < end
        invariant
            pos <= i <= end <= n,
            n == text.len(),
            body == text@.subrange(pos as int, end as int),
            integer_in(text@) == reading(negative, body),
            all_digits(body.take(i - pos)),
            acc == number(body.take(i - pos)),
            acc <= 0x8000_0000,
        decreases end - i,
    {
        let b: u8 = text[i];
        if b < ZERO || b > 57 {
            assert(!is_digit(body[i - pos]));
            return None;
        }
        let next: u64 = acc * 10 + (b - ZERO) as u64;
        proof {
            assert(body.take(i - pos + 1).drop_last() =~= body.take(i - pos));
            assert(body.take(i - pos + 1).last() == b);
            assert forall|j: int| 0 <= j < i - pos + 1 implies is_digit(
                #[trigger] body.take(i - pos + 1)[j],
            ) by {
                if j < i - pos {
                    assert(body.take(i - pos)[j] == body.take(i - pos + 1)[j]);
                }
            }
        }
        if next > 0x8000_0000 {
            proof {
                if all_digits(body) {
                    number_of_prefix(body, i - pos + 1);
                }
            }
            return None;
        }
        acc = next;
        i = i + 1;
    }
    assert(body.take(end - pos) =~= body);
    if negative {
        Some((-(acc as i64)) as i32)
    } else if acc <= 0x7FFF_FFFF {
        Some(acc as i32)
    } else {
        None
    }
}

} // verus!
