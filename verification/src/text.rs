use vstd::prelude::*;
use vstd::string::StringSliceAdditionalSpecFns;

verus! {

/// Approximate number of UTF-8 bytes that one model token covers.
pub const APPROX_BYTES_PER_TOKEN: usize = 4;

/// Token estimate for a text of `bytes` UTF-8 bytes: one token per started
/// group of `APPROX_BYTES_PER_TOKEN` bytes.
pub open spec fn tokens_for_bytes(bytes: nat) -> nat {
    (bytes + 3) / 4
}

/// Byte length of the UTF-8 encoding of a character sequence.
pub open spec fn utf8_len(chars: Seq<char>) -> nat {
    vstd::utf8::encode_utf8(chars).len()
}

pub fn approx_token_count(text: &str) -> (count: usize)
    ensures
        count == tokens_for_bytes(text.spec_bytes().len()),
{
    let len = text.as_bytes().len();
    let whole = len / 4;
    proof {
        let l = len as int;
        assert((l + 3) / 4 == l / 4 + (if l % 4 == 0 { 0int } else { 1int })) by (nonlinear_arith)
            requires l >= 0;
    }
    if len % 4 == 0 {
        whole
    } else {
        whole + 1
    }
}

pub open spec fn digit_char(d: nat) -> char {
    if d == 0 { '0' }
    else if d == 1 { '1' }
    else if d == 2 { '2' }
    else if d == 3 { '3' }
    else if d == 4 { '4' }
    else if d == 5 { '5' }
    else if d == 6 { '6' }
    else if d == 7 { '7' }
    else if d == 8 { '8' }
    else { '9' }
}

/// Decimal rendering of a natural number, most significant digit first.
pub open spec fn decimal_chars(n: nat) -> Seq<char>
    decreases n,
{
    if n < 10 {
        seq![digit_char(n)]
    } else {
        decimal_chars(n / 10).push(digit_char(n % 10))
    }
}

fn digit_str(d: usize) -> (s: &'static str)
    requires
        d < 10,
    ensures
        s@ == seq![digit_char(d as nat)],
{
    if d == 0 { proof { reveal_strlit("0"); } "0" }
    else if d == 1 { proof { reveal_strlit("1"); } "1" }
    else if d == 2 { proof { reveal_strlit("2"); } "2" }
    else if d == 3 { proof { reveal_strlit("3"); } "3" }
    else if d == 4 { proof { reveal_strlit("4"); } "4" }
    else if d == 5 { proof { reveal_strlit("5"); } "5" }
    else if d == 6 { proof { reveal_strlit("6"); } "6" }
    else if d == 7 { proof { reveal_strlit("7"); } "7" }
    else if d == 8 { proof { reveal_strlit("8"); } "8" }
    else { proof { reveal_strlit("9"); } "9" }
}

/// Appends the decimal rendering of `n` to `out`.
pub fn push_decimal(out: &mut String, n: u64)
    ensures
        final(out)@ == old(out)@ + decimal_chars(n as nat),
    decreases n,
{
    if n >= 10 {
        push_decimal(out, n / 10);
    }
    out.append(digit_str((n % 10) as usize));
}

pub fn decimal_string(n: u64) -> (s: String)
    ensures
        s@ == decimal_chars(n as nat),
{
    let mut s = String::new();
    push_decimal(&mut s, n);
    s
}

} // verus!

verus! {

/// Largest char boundary of `b` that is at most `i` (0 when `i <= 0`).
pub open spec fn floor_boundary(b: Seq<u8>, i: int) -> int
    decreases i,
{
    if i <= 0 {
        0
    } else if vstd::utf8::is_char_boundary(b, i) {
        i
    } else {
        floor_boundary(b, i - 1)
    }
}

/// Smallest char boundary of `b` that is at least `i` (the length when `i` is past it).
pub open spec fn ceil_boundary(b: Seq<u8>, i: int) -> int
    decreases b.len() - i,
{
    if i >= b.len() {
        b.len() as int
    } else if vstd::utf8::is_char_boundary(b, i) {
        i
    } else {
        ceil_boundary(b, i + 1)
    }
}

pub proof fn lemma_floor_boundary(b: Seq<u8>, i: int)
    requires
        vstd::utf8::valid_utf8(b),
        i <= b.len(),
    ensures
        0 <= floor_boundary(b, i),
        i >= 0 ==> floor_boundary(b, i) <= i,
        vstd::utf8::is_char_boundary(b, floor_boundary(b, i)),
        forall|j: int| floor_boundary(b, i) < j <= i ==> !vstd::utf8::is_char_boundary(b, j),
    decreases i,
{
    broadcast use vstd::utf8::is_char_boundary_start_end_of_seq;
    if i > 0 && !vstd::utf8::is_char_boundary(b, i) {
        lemma_floor_boundary(b, i - 1);
    }
}

pub proof fn lemma_ceil_boundary(b: Seq<u8>, i: int)
    requires
        vstd::utf8::valid_utf8(b),
        0 <= i,
    ensures
        ceil_boundary(b, i) <= b.len(),
        i <= b.len() ==> i <= ceil_boundary(b, i),
        vstd::utf8::is_char_boundary(b, ceil_boundary(b, i)),
        forall|j: int| i <= j < ceil_boundary(b, i) ==> !vstd::utf8::is_char_boundary(b, j),
    decreases b.len() - i,
{
    broadcast use vstd::utf8::is_char_boundary_start_end_of_seq;
    if i < b.len() && !vstd::utf8::is_char_boundary(b, i) {
        lemma_ceil_boundary(b, i + 1);
    }
}

/// The longest prefix of `text` that is at most `max_bytes` long and ends on a char boundary.
pub fn take_prefix_at_char_boundary(text: &str, max_bytes: usize) -> (prefix: &str)
    ensures
        prefix.spec_bytes() == text.spec_bytes().subrange(
            0,
            floor_boundary(text.spec_bytes(), vstd::math::min(max_bytes as int, text.spec_bytes().len() as int)),
        ),
{
    broadcast use vstd::utf8::encode_utf8_valid_utf8, vstd::utf8::is_char_boundary_start_end_of_seq;
    let ghost b = text.spec_bytes();
    let len = text.as_bytes().len();
    if max_bytes >= len {
        assert(b.subrange(0, b.len() as int) =~= b);
        return text;
    }
    let mut end = max_bytes;
    while end > 0 && !text.is_char_boundary(end)
        invariant
            b == text.spec_bytes(),
            vstd::utf8::valid_utf8(b),
            end <= max_bytes < b.len(),
            floor_boundary(b, end as int) == floor_boundary(b, max_bytes as int),
        decreases end,
    {
        end -= 1;
    }
    text.split_at(end).0
}

/// The longest suffix of `text` that is at most `max_bytes` long and starts on a char boundary.
pub fn take_suffix_at_char_boundary(text: &str, max_bytes: usize) -> (suffix: &str)
    ensures
        max_bytes >= text.spec_bytes().len() ==> suffix.spec_bytes() == text.spec_bytes(),
        max_bytes < text.spec_bytes().len() ==> suffix.spec_bytes() == text.spec_bytes().subrange(
            ceil_boundary(text.spec_bytes(), text.spec_bytes().len() - max_bytes),
            text.spec_bytes().len() as int,
        ),
{
    broadcast use vstd::utf8::encode_utf8_valid_utf8, vstd::utf8::is_char_boundary_start_end_of_seq;
    let ghost b = text.spec_bytes();
    let len = text.as_bytes().len();
    if max_bytes >= len {
        return text;
    }
    let mut start = len - max_bytes;
    while start < len && !text.is_char_boundary(start)
        invariant
            b == text.spec_bytes(),
            len == b.len(),
            vstd::utf8::valid_utf8(b),
            len - max_bytes <= start <= len,
            ceil_boundary(b, start as int) == ceil_boundary(b, len - max_bytes),
        decreases len - start,
    {
        start += 1;
    }
    text.split_at(start).1
}

} // verus!

verus! {

/// The notice that replaces the omitted middle of a truncated text.
pub open spec fn marker_chars(omitted: nat, original: nat) -> Seq<char> {
    "\n\n[truncated: omitted "@ + decimal_chars(omitted) + " of "@ + decimal_chars(original)
        + " bytes]\n\n"@
}

pub fn truncation_marker(omitted_bytes: usize, original_bytes: usize) -> (marker: String)
    ensures
        marker@ == marker_chars(omitted_bytes as nat, original_bytes as nat),
{
    let mut marker = String::new();
    marker.append("\n\n[truncated: omitted ");
    push_decimal(&mut marker, omitted_bytes as u64);
    marker.append(" of ");
    push_decimal(&mut marker, original_bytes as u64);
    marker.append(" bytes]\n\n");
    assert(marker@ =~= marker_chars(omitted_bytes as nat, original_bytes as nat));
    marker
}

/// The text whose UTF-8 encoding is `b`.
pub open spec fn chars_of(b: Seq<u8>) -> Seq<char> {
    vstd::utf8::decode_utf8(b)
}

/// Keeps a head and a tail of the UTF-8 text `b` whose sizes add up to at most
/// `body_bytes`, cut on char boundaries, with a notice in between that says how
/// many bytes were left out.
pub open spec fn middle_truncated(b: Seq<u8>, body_bytes: nat) -> Seq<char> {
    let n = b.len();
    if n <= body_bytes {
        chars_of(b)
    } else if body_bytes == 0 {
        marker_chars(n, n)
    } else {
        let head_budget = body_bytes / 2;
        let tail_budget = body_bytes - head_budget;
        let end = floor_boundary(b, head_budget as int);
        let start = ceil_boundary(b, n - tail_budget);
        chars_of(b.subrange(0, end)) + marker_chars((start - end) as nat, n) + chars_of(
            b.subrange(start, n as int),
        )
    }
}

pub fn middle_truncate(text: &str, body_bytes: usize) -> (truncated: String)
    ensures
        truncated@ == middle_truncated(text.spec_bytes(), body_bytes as nat),
{
    broadcast use vstd::utf8::encode_utf8_valid_utf8, vstd::utf8::encode_utf8_decode_utf8;
    let ghost b = text.spec_bytes();
    let len = text.as_bytes().len();
    if len <= body_bytes {
        return text.to_owned();
    }
    if body_bytes == 0 {
        return truncation_marker(len, len);
    }
    let head_budget = body_bytes / 2;
    let tail_budget = body_bytes - head_budget;
    let head = take_prefix_at_char_boundary(text, head_budget);
    let tail = take_suffix_at_char_boundary(text, tail_budget);
    let head_len = head.as_bytes().len();
    let tail_len = tail.as_bytes().len();
    proof {
        lemma_floor_boundary(b, head_budget as int);
        lemma_ceil_boundary(b, len - tail_budget);
        assert(head@ == chars_of(head.spec_bytes()));
        assert(tail@ == chars_of(tail.spec_bytes()));
    }
    let omitted = len - head_len - tail_len;
    let marker = truncation_marker(omitted, len);
    let mut truncated = head.to_owned();
    truncated.append(marker.as_str());
    truncated.append(tail);
    truncated
}

/// Tokens reserved for the truncation notice: one and a half times the tokens of
/// the longest notice a text of `n` bytes can get, rounded up.
pub open spec fn notice_reserve_tokens(n: nat) -> nat {
    let notice = tokens_for_bytes(utf8_len(marker_chars(n, n)));
    (sat_mul(notice, 3) + 1) / 2
}

pub open spec fn sat_mul(a: nat, b: nat) -> nat {
    if a * b > usize::MAX { usize::MAX as nat } else { a * b }
}

pub open spec fn sat_sub(a: nat, b: nat) -> nat {
    if a >= b { (a - b) as nat } else { 0 }
}

/// Body bytes left for a text of `n` bytes that must fit `token_budget` tokens
/// including its notice.
pub open spec fn budget_body_bytes(n: nat, token_budget: nat) -> nat {
    sat_mul(sat_sub(token_budget, notice_reserve_tokens(n)), APPROX_BYTES_PER_TOKEN as nat)
}

pub fn saturating_mul(a: usize, b: usize) -> (product: usize)
    ensures
        product == sat_mul(a as nat, b as nat),
{
    match a.checked_mul(b) {
        Some(product) => product,
        None => usize::MAX,
    }
}

pub fn budget_body_size(len: usize, token_budget: usize) -> (body: usize)
    ensures
        body == budget_body_bytes(len as nat, token_budget as nat),
{
    let max_notice = truncation_marker(len, len);
    let notice_tokens = approx_token_count(max_notice.as_str());
    let reserve3 = saturating_mul(notice_tokens, 3);
    let reserve = reserve3 / 2 + reserve3 % 2;
    proof {
        let r = reserve3 as int;
        assert(r / 2 + r % 2 == (r + 1) / 2) by (nonlinear_arith) requires r >= 0;
    }
    let body_tokens = token_budget.saturating_sub(reserve);
    saturating_mul(body_tokens, APPROX_BYTES_PER_TOKEN)
}

} // verus!

verus! {

/// The Unicode `White_Space` property, as `char::is_whitespace` implements it.
pub open spec fn is_space(c: char) -> bool {
    ('\t' <= c <= '\r') || c == ' ' || c == '\u{85}' || c == '\u{a0}' || c == '\u{1680}' || (
    '\u{2000}' <= c <= '\u{200a}') || c == '\u{2028}' || c == '\u{2029}' || c == '\u{202f}'
        || c == '\u{205f}' || c == '\u{3000}'
}

pub fn is_whitespace(c: char) -> (b: bool)
    ensures
        b == is_space(c),
{
    ('\t' <= c && c <= '\r') || c == ' ' || c == '\u{85}' || c == '\u{a0}' || c == '\u{1680}' || (
    '\u{2000}' <= c && c <= '\u{200a}') || c == '\u{2028}' || c == '\u{2029}' || c == '\u{202f}'
        || c == '\u{205f}' || c == '\u{3000}'
}

/// Number of leading whitespace characters of `s`.
pub open spec fn leading_space(s: Seq<char>) -> nat
    decreases s.len(),
{
    if s.len() > 0 && is_space(s[0]) {
        1 + leading_space(s.drop_first())
    } else {
        0
    }
}

/// Number of trailing whitespace characters of `s`.
pub open spec fn trailing_space(s: Seq<char>) -> nat
    decreases s.len(),
{
    if s.len() > 0 && is_space(s.last()) {
        1 + trailing_space(s.drop_last())
    } else {
        0
    }
}

/// `s` without trailing whitespace (`str::trim_end`).
pub open spec fn trim_end_chars(s: Seq<char>) -> Seq<char> {
    s.subrange(0, s.len() - trailing_space(s))
}

/// `s` without leading whitespace (`str::trim_start`).
pub open spec fn trim_start_chars(s: Seq<char>) -> Seq<char> {
    s.subrange(leading_space(s) as int, s.len() as int)
}

/// `s` without leading and trailing whitespace (`str::trim`).
pub open spec fn trim_chars(s: Seq<char>) -> Seq<char> {
    trim_end_chars(trim_start_chars(s))
}

/// `s` holds nothing but whitespace.
pub open spec fn is_blank(s: Seq<char>) -> bool {
    forall|i: int| 0 <= i < s.len() ==> is_space(#[trigger] s[i])
}

pub proof fn lemma_leading_space(s: Seq<char>)
    ensures
        leading_space(s) <= s.len(),
        forall|i: int| 0 <= i < leading_space(s) ==> is_space(#[trigger] s[i]),
        leading_space(s) < s.len() ==> !is_space(s[leading_space(s) as int]),
    decreases s.len(),
{
    if s.len() > 0 && is_space(s[0]) {
        lemma_leading_space(s.drop_first());
        assert forall|i: int| 0 <= i < leading_space(s) implies is_space(#[trigger] s[i]) by {
            if i > 0 {
                assert(s[i] == s.drop_first()[i - 1]);
            }
        }
    }
}

pub proof fn lemma_trailing_space(s: Seq<char>)
    ensures
        trailing_space(s) <= s.len(),
        forall|i: int| s.len() - trailing_space(s) <= i < s.len() ==> is_space(#[trigger] s[i]),
        trailing_space(s) < s.len() ==> !is_space(s[s.len() - trailing_space(s) - 1]),
    decreases s.len(),
{
    if s.len() > 0 && is_space(s.last()) {
        lemma_trailing_space(s.drop_last());
        assert forall|i: int| s.len() - trailing_space(s) <= i < s.len() implies is_space(
            #[trigger] s[i],
        ) by {
            if i < s.len() - 1 {
                assert(s[i] == s.drop_last()[i]);
            }
        }
    }
}

pub proof fn lemma_blank_iff_trim_empty(s: Seq<char>)
    ensures
        is_blank(s) <==> trim_chars(s).len() == 0,
        is_blank(s) <==> leading_space(s) == s.len(),
{
    lemma_leading_space(s);
    let t = trim_start_chars(s);
    lemma_trailing_space(t);
    if !is_blank(s) {
        let i = choose|i: int| 0 <= i < s.len() && !is_space(#[trigger] s[i]);
        assert(leading_space(s) <= i);
        if trailing_space(t) == t.len() && t.len() > 0 {
            assert(is_space(t[0]));
        }
    }
}

/// The characters of `text`, in order.
pub fn chars_of_str(text: &str) -> (chars: Vec<char>)
    ensures
        chars@ == text@,
{
    let mut chars: Vec<char> = Vec::new();
    for c in it: text.chars()
        invariant
            chars@ == it.seq().take(it.index() as int),
            it.seq() == text@,
    {
        chars.push(c);
    }
    chars
}

} // verus!

verus! {

fn count_leading_space(chars: &Vec<char>) -> (count: usize)
    ensures
        count == leading_space(chars@),
{
    proof { lemma_leading_space(chars@); }
    let mut i: usize = 0;
    while i < chars.len() && is_whitespace(chars[i])
        invariant
            i <= chars@.len(),
            forall|k: int| 0 <= k < i ==> is_space(#[trigger] chars@[k]),
            i <= leading_space(chars@),
            leading_space(chars@) <= chars@.len(),
            forall|k: int| 0 <= k < leading_space(chars@) ==> is_space(#[trigger] chars@[k]),
            leading_space(chars@) < chars@.len() ==> !is_space(chars@[leading_space(chars@) as int]),
        decreases chars.len() - i,
    {
        i += 1;
    }
    i
}

fn count_trailing_space(chars: &Vec<char>, floor: usize) -> (count: usize)
    requires
        floor <= chars@.len(),
    ensures
        count == trailing_space(chars@.subrange(floor as int, chars@.len() as int)),
        count <= chars@.len() - floor,
{
    let ghost t = chars@.subrange(floor as int, chars@.len() as int);
    proof { lemma_trailing_space(t); }
    let mut k: usize = 0;
    while k < chars.len() - floor && is_whitespace(chars[chars.len() - 1 - k])
        invariant
            floor <= chars@.len(),
            t == chars@.subrange(floor as int, chars@.len() as int),
            k <= t.len(),
            forall|j: int| t.len() - k <= j < t.len() ==> is_space(#[trigger] t[j]),
            k <= trailing_space(t),
            trailing_space(t) <= t.len(),
            forall|j: int| t.len() - trailing_space(t) <= j < t.len() ==> is_space(#[trigger] t[j]),
            trailing_space(t) < t.len() ==> !is_space(t[t.len() - trailing_space(t) - 1]),
        decreases chars.len() - floor - k,
    {
        assert(t[t.len() - k - 1] == chars@[chars@.len() - 1 - k]);
        k += 1;
    }
    proof {
        if k < t.len() {
            assert(t[t.len() - k - 1] == chars@[chars@.len() - 1 - k]);
        }
    }
    k
}

/// `str::trim`.
pub fn trim(text: &str) -> (trimmed: String)
    ensures
        trimmed@ == trim_chars(text@),
{
    let chars = chars_of_str(text);
    let start = count_leading_space(&chars);
    proof { lemma_leading_space(chars@); }
    let end_count = count_trailing_space(&chars, start);
    let end = chars.len() - end_count;
    let trimmed = text.substring_char(start, end).to_owned();
    assert(trimmed@ =~= trim_chars(text@));
    trimmed
}

/// `str::trim_end`.
pub fn trim_end(text: &str) -> (trimmed: String)
    ensures
        trimmed@ == trim_end_chars(text@),
{
    let chars = chars_of_str(text);
    let end_count = count_trailing_space(&chars, 0);
    assert(chars@.subrange(0, chars@.len() as int) =~= chars@);
    let end = chars.len() - end_count;
    text.substring_char(0, end).to_owned()
}

/// `str::trim().is_empty()`.
pub fn is_blank_str(text: &str) -> (blank: bool)
    ensures
        blank == is_blank(text@),
{
    let chars = chars_of_str(text);
    proof { lemma_blank_iff_trim_empty(text@); }
    count_leading_space(&chars) == chars.len()
}

} // verus!

verus! {

pub open spec fn is_digit(c: char) -> bool {
    '0' <= c <= '9'
}

pub open spec fn all_digits(s: Seq<char>) -> bool {
    forall|i: int| 0 <= i < s.len() ==> is_digit(#[trigger] s[i])
}

/// The number that a string of decimal digits denotes.
pub open spec fn digits_value(s: Seq<char>) -> nat
    decreases s.len(),
{
    if s.len() == 0 {
        0
    } else {
        digits_value(s.drop_last()) * 10 + ((s.last() as nat) - ('0' as nat)) as nat
    }
}

/// The digits of an unsigned number in the grammar of `u64::from_str`: one
/// optional leading `+`.
pub open spec fn unsigned_digits(s: Seq<char>) -> Seq<char> {
    if s.len() > 0 && s[0] == '+' {
        s.drop_first()
    } else {
        s
    }
}

/// The value of `s` as an unsigned number no larger than `max`, as
/// `u64::from_str` reads it (with `max` the type's largest value).
pub open spec fn parse_unsigned_spec(s: Seq<char>, max: nat) -> Option<nat> {
    let digits = unsigned_digits(s);
    if digits.len() > 0 && all_digits(digits) && digits_value(digits) <= max {
        Some(digits_value(digits))
    } else {
        None
    }
}

proof fn lemma_digits_value_prefix(s: Seq<char>, i: int)
    requires
        0 <= i <= s.len(),
        all_digits(s),
    ensures
        digits_value(s.take(i)) <= digits_value(s),
    decreases s.len() - i,
{
    if i < s.len() {
        lemma_digits_value_prefix(s, i + 1);
        assert(s.take(i + 1).drop_last() =~= s.take(i));
    } else {
        assert(s.take(i) =~= s);
    }
}

pub fn parse_unsigned(text: &str, max: u64) -> (value: Option<u64>)
    ensures
        value matches Some(v) ==> parse_unsigned_spec(text@, max as nat) == Some(v as nat),
        value is None ==> parse_unsigned_spec(text@, max as nat) is None,
{
    let chars = chars_of_str(text);
    let mut start: usize = 0;
    if chars.len() > 0 && chars[0] == '+' {
        start = 1;
    }
    let ghost digits = unsigned_digits(text@);
    assert(digits =~= chars@.subrange(start as int, chars@.len() as int));
    if start == chars.len() {
        return None;
    }
    let mut value: u64 = 0;
    let mut i = start;
    while i < chars.len()
        invariant
            chars@ == text@,
            start <= i <= chars@.len(),
            digits == chars@.subrange(start as int, chars@.len() as int),
            digits == unsigned_digits(text@),
            all_digits(digits.take(i - start)),
            value as nat == digits_value(digits.take(i - start)),
            value <= max,
        decreases chars.len() - i,
    {
        let c = chars[i];
        if !('0' <= c && c <= '9') {
            assert(!is_digit(digits[i - start]));
            assert(!all_digits(digits));
            return None;
        }
        let d = (c as u32 - '0' as u32) as u64;
        let ghost next = digits.take(i - start + 1);
        assert(next.drop_last() =~= digits.take(i - start));
        assert(next.last() == c);
        let scaled = match value.checked_mul(10) {
            Some(scaled) => scaled,
            None => {
                proof {
                    assert(all_digits(next));
                    assert(digits_value(next) == digits_value(digits.take(i - start)) * 10 + (d as nat));
                    assert(digits_value(next) > max);
                    if all_digits(digits) {
                        lemma_digits_value_prefix(digits, i - start + 1);
                    }
                }
                return None;
            },
        };
        let sum = match scaled.checked_add(d) {
            Some(sum) => sum,
            None => {
                proof {
                    assert(all_digits(next));
                    if all_digits(digits) {
                        lemma_digits_value_prefix(digits, i - start + 1);
                    }
                }
                return None;
            },
        };
        if sum > max {
            proof {
                assert(all_digits(next));
                if all_digits(digits) {
                    lemma_digits_value_prefix(digits, i - start + 1);
                }
            }
            return None;
        }
        value = sum;
        i += 1;
    }
    assert(digits.take(i - start) =~= digits);
    Some(value)
}

} // verus!

verus! {

pub open spec fn ascii_lower(c: char) -> char {
    if 'A' <= c <= 'Z' {
        (((c as u32) + 32) as u8) as char
    } else {
        c
    }
}

/// `s` with ASCII upper-case letters made lower-case (`str::to_ascii_lowercase`).
pub open spec fn ascii_lowercase(s: Seq<char>) -> Seq<char> {
    s.map_values(|c: char| ascii_lower(c))
}

pub fn to_ascii_lower(c: char) -> (lower: char)
    ensures
        lower == ascii_lower(c),
{
    if 'A' <= c && c <= 'Z' {
        (((c as u32) + 32) as u8) as char
    } else {
        c
    }
}

/// Whether the ASCII lower-case form of `chars` is `word`.
pub fn lowercase_equals(chars: &Vec<char>, word: &str) -> (equal: bool)
    ensures
        equal == (ascii_lowercase(chars@) == word@),
{
    let word_chars = chars_of_str(word);
    if chars.len() != word_chars.len() {
        assert(ascii_lowercase(chars@).len() != word@.len());
        return false;
    }
    let mut i: usize = 0;
    while i < chars.len()
        invariant
            chars@.len() == word_chars@.len(),
            word_chars@ == word@,
            i <= chars@.len(),
            forall|k: int| 0 <= k < i ==> ascii_lower(#[trigger] chars@[k]) == word@[k],
        decreases chars.len() - i,
    {
        if to_ascii_lower(chars[i]) != word_chars[i] {
            assert(ascii_lowercase(chars@)[i as int] != word@[i as int]);
            return false;
        }
        i += 1;
    }
    assert(ascii_lowercase(chars@) =~= word@);
    true
}

/// Whether `a` and `b` hold the same characters.
pub fn string_equals(a: &String, b: &str) -> (equal: bool)
    ensures
        equal == (a@ == b@),
{
    let owned = b.to_owned();
    *a == owned
}

/// `String::push`.
#[verifier::external_body]
pub(crate) fn push_char(text: &mut String, c: char)
    ensures
        final(text)@ == old(text)@.push(c),
{
    text.push(c)
}

/// The UTF-8 encoding of `c`.
pub fn char_utf8(c: char) -> (bytes: Vec<u8>)
    ensures
        bytes@ == vstd::utf8::encode_scalar(c as u32),
{
    let mut text = String::new();
    push_char(&mut text, c);
    let encoded = text.as_str().as_bytes();
    proof {
        assert(text@ =~= seq![c]);
        assert(text@.drop_first() =~= Seq::<char>::empty());
        assert(vstd::utf8::encode_utf8(Seq::<char>::empty()) =~= Seq::<u8>::empty());
        assert(vstd::utf8::encode_utf8(text@) == vstd::utf8::encode_scalar(text@[0] as u32) + vstd::utf8::encode_utf8(
            text@.drop_first(),
        ));
        assert(vstd::utf8::encode_utf8(text@) =~= vstd::utf8::encode_scalar(c as u32));
    }
    let mut bytes = Vec::new();
    append_bytes(&mut bytes, encoded);
    bytes
}

/// Appends `bytes` to `out`.
pub fn append_bytes(out: &mut Vec<u8>, bytes: &[u8])
    ensures
        final(out)@ == old(out)@ + bytes@,
{
    let mut i: usize = 0;
    while i < bytes.len()
        invariant
            i <= bytes@.len(),
            out@ == old(out)@ + bytes@.take(i as int),
        decreases bytes.len() - i,
    {
        out.push(bytes[i]);
        assert(bytes@.take(i + 1) =~= bytes@.take(i as int).push(bytes@[i as int]));
        i += 1;
    }
    assert(bytes@.take(i as int) =~= bytes@);
}

/// `parts` joined by `sep`.
pub open spec fn joined_with(parts: Seq<Seq<char>>, sep: Seq<char>) -> Seq<char>
    decreases parts.len(),
{
    if parts.len() == 0 {
        Seq::empty()
    } else if parts.len() == 1 {
        parts[0]
    } else {
        joined_with(parts.drop_last(), sep) + sep + parts.last()
    }
}

pub open spec fn string_views(parts: Seq<String>) -> Seq<Seq<char>> {
    parts.map_values(|part: String| part@)
}

/// The texts joined by `sep`.
pub fn join_with(parts: &Vec<String>, sep: &str) -> (joined: String)
    ensures
        joined@ == joined_with(string_views(parts@), sep@),
{
    let mut joined = String::new();
    let mut i: usize = 0;
    while i < parts.len()
        invariant
            i <= parts@.len(),
            joined@ == joined_with(string_views(parts@.take(i as int)), sep@),
        decreases parts.len() - i,
    {
        if i > 0 {
            joined.append(sep);
        }
        joined.append(parts[i].as_str());
        proof {
            let next = string_views(parts@.take(i + 1));
            assert(next.drop_last() =~= string_views(parts@.take(i as int)));
            if i == 0 {
                assert(string_views(parts@.take(0)) =~= Seq::<Seq<char>>::empty());
                assert(next.len() == 1);
            }
        }
        i += 1;
    }
    assert(parts@.take(i as int) =~= parts@);
    joined
}

/// Decimal rendering of an integer, with a leading `-` when it is negative.
pub open spec fn integer_chars(n: int) -> Seq<char> {
    if n < 0 {
        "-"@ + decimal_chars((-n) as nat)
    } else {
        decimal_chars(n as nat)
    }
}

} // verus!

verus! {

/// The UTF-8 length of a concatenation is the sum of the lengths.
pub proof fn lemma_utf8_len_concat(a: Seq<char>, b: Seq<char>)
    ensures
        utf8_len(a + b) == utf8_len(a) + utf8_len(b),
    decreases a.len(),
{
    if a.len() == 0 {
        assert(a + b =~= b);
    } else {
        assert((a + b)[0] == a[0]);
        assert((a + b).drop_first() =~= a.drop_first() + b);
        lemma_utf8_len_concat(a.drop_first(), b);
    }
}

/// Digits are ASCII.
proof fn lemma_decimal_ascii(n: nat)
    ensures
        vstd::utf8::is_ascii_chars(decimal_chars(n)),
    decreases n,
{
    if n >= 10 {
        lemma_decimal_ascii(n / 10);
        let s = decimal_chars(n);
        assert(s == decimal_chars(n / 10).push(digit_char(n % 10)));
        assert forall|i| 0 <= i < s.len() implies '\0' <= #[trigger] s[i] <= '\u{7f}' by {
            if i < s.len() - 1 {
                assert(s[i] == decimal_chars(n / 10)[i]);
            }
        }
    }
}

/// A larger number has no fewer digits.
proof fn lemma_decimal_len_monotone(a: nat, b: nat)
    requires
        a <= b,
    ensures
        decimal_chars(a).len() <= decimal_chars(b).len(),
    decreases b,
{
    if b >= 10 && a >= 10 {
        lemma_decimal_len_monotone(a / 10, b / 10);
    } else if b >= 10 {
        assert(decimal_chars(b).len() == decimal_chars(b / 10).len() + 1);
    }
}

pub open spec fn pow10(k: nat) -> nat
    decreases k,
{
    if k == 0 { 1 } else { 10 * pow10((k - 1) as nat) }
}

/// A number below `10^k` has at most `k` digits.
proof fn lemma_decimal_len_below(n: nat, k: nat)
    requires
        k >= 1,
        n < pow10(k),
    ensures
        decimal_chars(n).len() <= k,
    decreases k,
{
    if n >= 10 {
        assert(k >= 2) by {
            if k == 1 {
                assert(pow10(1) == 10 * pow10(0));
            }
        }
        assert(n / 10 < pow10((k - 1) as nat)) by {
            assert(pow10(k) == 10 * pow10((k - 1) as nat));
        }
        lemma_decimal_len_below(n / 10, (k - 1) as nat);
    }
}

/// The byte length of a truncation notice.
pub proof fn lemma_marker_len(omitted: nat, original: nat)
    ensures
        utf8_len(marker_chars(omitted, original)) == 35 + decimal_chars(omitted).len() + decimal_chars(original).len(),
{
    reveal_strlit("\n\n[truncated: omitted ");
    reveal_strlit(" of ");
    reveal_strlit(" bytes]\n\n");
    lemma_decimal_ascii(omitted);
    lemma_decimal_ascii(original);
    let m = marker_chars(omitted, original);
    assert(vstd::utf8::is_ascii_chars(m)) by {
        let d1 = decimal_chars(omitted);
        let d2 = decimal_chars(original);
        let p1 = "\n\n[truncated: omitted "@;
        let p2 = " of "@;
        let p3 = " bytes]\n\n"@;
        assert forall|i| 0 <= i < m.len() implies '\0' <= #[trigger] m[i] <= '\u{7f}' by {
            if i < p1.len() {
                assert(m[i] == p1[i]);
            } else if i < p1.len() + d1.len() {
                assert(m[i] == d1[i - p1.len()]);
            } else if i < p1.len() + d1.len() + p2.len() {
                assert(m[i] == p2[i - p1.len() - d1.len()]);
            } else if i < p1.len() + d1.len() + p2.len() + d2.len() {
                assert(m[i] == d2[i - p1.len() - d1.len() - p2.len()]);
            } else {
                assert(m[i] == p3[i - p1.len() - d1.len() - p2.len() - d2.len()]);
            }
        }
    }
    vstd::utf8::is_ascii_chars_encode_utf8(m);
}

/// A notice for a text of at most `u64::MAX` bytes is at most 75 bytes long,
/// and no longer than that of a text whose bytes were all omitted.
pub proof fn lemma_marker_bounds(omitted: nat, original: nat)
    requires
        omitted <= original,
        original <= u64::MAX,
    ensures
        utf8_len(marker_chars(omitted, original)) <= utf8_len(marker_chars(original, original)),
        utf8_len(marker_chars(original, original)) <= 75,
{
    lemma_marker_len(omitted, original);
    lemma_marker_len(original, original);
    lemma_decimal_len_monotone(omitted, original);
    assert(pow10(20) == 100000000000000000000nat) by {
        reveal_with_fuel(pow10, 21);
    }
    lemma_decimal_len_below(original, 20);
}

/// The text of the bytes before, or from, a char boundary has as many UTF-8
/// bytes as that part.
pub proof fn lemma_boundary_parts(b: Seq<u8>, i: int)
    requires
        vstd::utf8::valid_utf8(b),
        vstd::utf8::is_char_boundary(b, i),
        0 <= i <= b.len(),
    ensures
        utf8_len(chars_of(b.subrange(0, i))) == i,
        utf8_len(chars_of(b.subrange(i, b.len() as int))) == b.len() - i,
{
    vstd::utf8::valid_utf8_split(b, i);
    vstd::utf8::decode_utf8_encode_utf8(b.subrange(0, i));
    vstd::utf8::decode_utf8_encode_utf8(b.subrange(i, b.len() as int));
}

/// The size of a middle truncation: the whole text where it fits the body,
/// else at most the body and the longest notice.
pub proof fn lemma_middle_truncated_len(b: Seq<u8>, body_bytes: nat)
    requires
        vstd::utf8::valid_utf8(b),
        b.len() <= u64::MAX,
    ensures
        b.len() <= body_bytes ==> utf8_len(middle_truncated(b, body_bytes)) == b.len(),
        b.len() > body_bytes ==> utf8_len(middle_truncated(b, body_bytes)) <= body_bytes + utf8_len(
            marker_chars(b.len(), b.len()),
        ),
{
    let n = b.len();
    if n <= body_bytes {
        vstd::utf8::decode_utf8_encode_utf8(b);
    } else if body_bytes == 0 {
    } else {
        let head_budget = body_bytes / 2;
        let tail_budget = body_bytes - head_budget;
        let end = floor_boundary(b, head_budget as int);
        let start = ceil_boundary(b, n - tail_budget);
        lemma_floor_boundary(b, head_budget as int);
        lemma_ceil_boundary(b, n - tail_budget);
        lemma_boundary_parts(b, end);
        lemma_boundary_parts(b, start);
        let head = chars_of(b.subrange(0, end));
        let marker = marker_chars((start - end) as nat, n);
        let tail = chars_of(b.subrange(start, n as int));
        lemma_utf8_len_concat(head, marker);
        lemma_utf8_len_concat(head + marker, tail);
        lemma_marker_bounds((start - end) as nat, n);
    }
}

/// `a` comes before `b` in the order of strings: character by character, a
/// proper prefix first (the order of `String`, whose UTF-8 bytes compare as
/// their characters do).
pub open spec fn chars_less(a: Seq<char>, b: Seq<char>) -> bool
    decreases a.len(),
{
    if a.len() == 0 {
        b.len() > 0
    } else if b.len() == 0 {
        false
    } else if a[0] != b[0] {
        a[0] < b[0]
    } else {
        chars_less(a.drop_first(), b.drop_first())
    }
}

/// Of two different strings, one comes first, and never both.
pub proof fn lemma_chars_less_total(a: Seq<char>, b: Seq<char>)
    ensures
        a != b ==> chars_less(a, b) || chars_less(b, a),
        !(chars_less(a, b) && chars_less(b, a)),
        !chars_less(a, a),
    decreases a.len(),
{
    if a.len() > 0 && b.len() > 0 && a[0] == b[0] {
        lemma_chars_less_total(a.drop_first(), b.drop_first());
        if a != b {
            assert(a.drop_first() != b.drop_first()) by {
                if a.drop_first() == b.drop_first() {
                    assert(a.len() == b.len());
                    assert forall|i: int| 0 <= i < a.len() implies a[i] == b[i] by {
                        if i > 0 {
                            assert(a[i] == a.drop_first()[i - 1]);
                            assert(b[i] == b.drop_first()[i - 1]);
                        }
                    }
                    assert(a =~= b);
                }
            }
        }
    } else if a.len() > 0 && b.len() > 0 {
    } else if a.len() == 0 && b.len() == 0 {
        assert(a =~= b);
    }
    if a.len() > 0 {
        lemma_chars_less_total(a.drop_first(), a.drop_first());
    }
}

/// The order of strings is transitive.
pub proof fn lemma_chars_less_transitive(a: Seq<char>, b: Seq<char>, c: Seq<char>)
    requires
        chars_less(a, b),
        chars_less(b, c),
    ensures
        chars_less(a, c),
    decreases a.len(),
{
    if a.len() > 0 && b.len() > 0 && c.len() > 0 && a[0] == b[0] && b[0] == c[0] {
        lemma_chars_less_transitive(a.drop_first(), b.drop_first(), c.drop_first());
    }
}

/// Whether `a` comes before `b` in the order of strings.
pub fn string_less(a: &str, b: &str) -> (less: bool)
    ensures
        less == chars_less(a@, b@),
{
    let x = chars_of_str(a);
    let y = chars_of_str(b);
    let mut i: usize = 0;
    assert(x@.skip(0) =~= x@ && y@.skip(0) =~= y@);
    while i < x.len() && i < y.len()
        invariant
            i <= x@.len(),
            i <= y@.len(),
            x@ == a@,
            y@ == b@,
            chars_less(x@, y@) == chars_less(x@.skip(i as int), y@.skip(i as int)),
        decreases x.len() - i,
    {
        if x[i] != y[i] {
            assert(x@.skip(i as int)[0] == x@[i as int] && y@.skip(i as int)[0] == y@[i as int]);
            return x[i] < y[i];
        }
        assert(x@.skip(i as int).drop_first() =~= x@.skip(i + 1));
        assert(y@.skip(i as int).drop_first() =~= y@.skip(i + 1));
        i += 1;
    }
    assert(x@.skip(i as int).len() == x@.len() - i && y@.skip(i as int).len() == y@.len() - i);
    x.len() < y.len()
}

} // verus!
