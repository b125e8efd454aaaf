//! Text: trimming, searching, and numbers in and out.
use vstd::prelude::*;
use vstd::slice::slice_subrange;

verus! {

/// `String::push`: the character goes onto the end.
pub assume_specification[ String::push ](s: &mut String, c: char)
    ensures
        final(s)@ == old(s)@.push(c),
;

/// `String::pop`: the last character comes off the end, if there is one.
pub assume_specification[ String::pop ](s: &mut String) -> (r: Option<char>)
    ensures
        match r {
            Some(c) => old(s)@.len() > 0 && c == old(s)@.last() && final(s)@ == old(s)@.drop_last(),
            None => old(s)@.len() == 0 && final(s)@ == old(s)@,
        },
;

/// What `str::to_lowercase` makes of a text.
pub uninterp spec fn lowercase(s: Seq<char>) -> Seq<char>;

/// What `String::from_utf8_lossy` makes of a run of bytes.
pub uninterp spec fn lossy_text(bytes: Seq<u8>) -> Seq<char>;

/// What `{:?}` makes of a text: quoted, with what would not print escaped.
pub uninterp spec fn quoted(s: Seq<char>) -> Seq<char>;

/// `str::to_lowercase`. Its result is named, not described: it follows the Unicode
/// tables.
#[verifier::external_body]
pub(crate) fn to_lowercase(s: &str) -> (r: String)
    ensures
        r@ == lowercase(s@),
{
    s.to_lowercase()
}

/// `String::from_utf8_lossy`. Valid UTF-8 comes back as the text it encodes; what
/// stands for anything else is named, not described.
#[verifier::external_body]
pub(crate) fn from_utf8_lossy(bytes: &[u8]) -> (r: String)
    ensures
        r@ == lossy_text(bytes@),
        vstd::utf8::valid_utf8(bytes@) ==> r@ == vstd::utf8::decode_utf8(bytes@),
{
    String::from_utf8_lossy(bytes).into_owned()
}

/// The `Debug` form of a text. Its result is named, not described: what it escapes
/// follows the Unicode tables.
#[verifier::external_body]
pub(crate) fn debug_quoted(s: &str) -> (r: String)
    ensures
        r@ == quoted(s@),
{
    format!("{:?}", s)
}

/// Unicode's control characters.
pub open spec fn is_control(c: char) -> bool {
    c as int <= 0x1f || 0x7f <= c as int <= 0x9f
}

/// Unicode's white space.
pub open spec fn is_space(c: char) -> bool {
    let x = c as int;
    ||| 0x09 <= x <= 0x0d
    ||| x == 0x20
    ||| x == 0x85
    ||| x == 0xa0
    ||| x == 0x1680
    ||| 0x2000 <= x <= 0x200a
    ||| 0x2028 <= x <= 0x2029
    ||| x == 0x202f
    ||| x == 0x205f
    ||| x == 0x3000
}

/// A text without the white space it starts with.
pub open spec fn trimmed_start(s: Seq<char>) -> Seq<char>
    decreases s.len(),
{
    if s.len() > 0 && is_space(s[0]) {
        trimmed_start(s.skip(1))
    } else {
        s
    }
}

/// A text without the white space it ends with.
pub open spec fn trimmed_end(s: Seq<char>) -> Seq<char>
    decreases s.len(),
{
    if s.len() > 0 && is_space(s.last()) {
        trimmed_end(s.drop_last())
    } else {
        s
    }
}

/// A text without the white space around it.
pub open spec fn trimmed(s: Seq<char>) -> Seq<char> {
    trimmed_end(trimmed_start(s))
}

/// `needle` occurs somewhere in `s`.
pub open spec fn occurs_in(s: Seq<char>, needle: Seq<char>) -> bool {
    exists|i: int|
        0 <= i <= s.len() - needle.len() && #[trigger] s.subrange(i, i + needle.len()) == needle
}

/// The number of a character.
fn code_point(c: char) -> (r: u32)
    ensures
        r == c as int,
{
    c as u32
}

pub(crate) fn is_control_char(c: char) -> (r: bool)
    ensures
        r == is_control(c),
{
    let x: u32 = c as u32;
    x <= 0x1f || (0x7f <= x && x <= 0x9f)
}

pub(crate) fn is_space_char(c: char) -> (r: bool)
    ensures
        r == is_space(c),
{
    let x: u32 = c as u32;
    (0x09 <= x && x <= 0x0d) || x == 0x20 || x == 0x85 || x == 0xa0 || x == 0x1680 || (0x2000 <= x
        && x <= 0x200a) || (0x2028 <= x && x <= 0x2029) || x == 0x202f || x == 0x205f || x
        == 0x3000
}

/// The characters of a text.
pub(crate) fn chars_of(s: &str) -> (r: Vec<char>)
    ensures
        r@ == s@,
{
    let mut r: Vec<char> = Vec::new();
    for c in it: s.chars()
        invariant
            it.seq() == s@,
            r@ == s@.take(it.index() as int),
    {
        r.push(c);
    }
    assert(r@ =~= s@);
    r
}

/// Puts characters onto the end of a text.
pub(crate) fn push_chars(out: &mut String, cs: &[char])
    ensures
        final(out)@ == old(out)@ + cs@,
{
    let mut i: usize = 0;
    while i < cs.len()
        invariant
            i <= cs@.len(),
            out@ == old(out)@ + cs@.take(i as int),
        decreases cs@.len() - i,
    {
        assert(cs@.take(i + 1) =~= cs@.take(i as int).push(cs@[i as int]));
        out.push(cs[i]);
        assert(out@ =~= old(out)@ + cs@.take(i + 1));
        i = i + 1;
    }
    assert(cs@.take(i as int) =~= cs@);
    assert(out@ =~= old(out)@ + cs@);
}

/// Whether two texts are the same.
pub(crate) fn same(a: &str, b: &str) -> (r: bool)
    ensures
        r == (a@ == b@),
{
    let left = chars_of(a);
    let right = chars_of(b);
    if left.len() != right.len() {
        return false;
    }
    let mut i: usize = 0;
    while i < left.len()
        invariant
            left@ == a@,
            right@ == b@,
            i <= left@.len(),
            left@.len() == right@.len(),
            forall|k: int| 0 <= k < i ==> left@[k] == right@[k],
        decreases left@.len() - i,
    {
        if left[i] != right[i] {
            assert(a@[i as int] != b@[i as int]);
            return false;
        }
        i = i + 1;
    }
    assert(a@ =~= b@);
    true
}

/// Trims from the left, step by step.
proof fn lemma_trimmed_start_from(s: Seq<char>, i: int)
    requires
        0 <= i <= s.len(),
        forall|k: int| 0 <= k < i ==> is_space(#[trigger] s[k]),
    ensures
        trimmed_start(s) == trimmed_start(s.skip(i)),
    decreases i,
{
    if i > 0 {
        assert(is_space(s[0]));
        let t = s.skip(1);
        assert forall|k: int| 0 <= k < i - 1 implies is_space(#[trigger] t[k]) by {
            assert(t[k] == s[k + 1]);
        }
        lemma_trimmed_start_from(t, i - 1);
        assert(t.skip(i - 1) =~= s.skip(i));
    } else {
        assert(s.skip(0) =~= s);
    }
}

/// Trims from the right, step by step.
proof fn lemma_trimmed_end_from(s: Seq<char>, j: int)
    requires
        0 <= j <= s.len(),
        forall|k: int| j <= k < s.len() ==> is_space(#[trigger] s[k]),
    ensures
        trimmed_end(s) == trimmed_end(s.take(j)),
    decreases s.len() - j,
{
    if j < s.len() {
        assert(is_space(s.last()));
        let t = s.drop_last();
        assert forall|k: int| j <= k < t.len() implies is_space(#[trigger] t[k]) by {
            assert(t[k] == s[k]);
        }
        lemma_trimmed_end_from(t, j);
        assert(t.take(j) =~= s.take(j));
    } else {
        assert(s.take(j) =~= s);
    }
}

/// A text without the white space around it, as characters.
pub(crate) fn trim_chars(cs: &Vec<char>) -> (r: Vec<char>)
    ensures
        r@ == trimmed(cs@),
{
    let mut i: usize = 0;
    while i < cs.len() && is_space_char(cs[i])
        invariant
            i <= cs@.len(),
            forall|k: int| 0 <= k < i ==> is_space(#[trigger] cs@[k]),
        decreases cs@.len() - i,
    {
        i = i + 1;
    }
    let ghost front = cs@.skip(i as int);
    proof {
        lemma_trimmed_start_from(cs@, i as int);
        assert(front.len() > 0 ==> front[0] == cs@[i as int]);
        assert(trimmed_start(cs@) == front);
    }
    let mut j: usize = cs.len();
    while j > i && is_space_char(cs[j - 1])
        invariant
            i <= j <= cs@.len(),
            forall|k: int| j <= k < cs@.len() ==> is_space(#[trigger] cs@[k]),
        decreases j,
    {
        j = j - 1;
    }
    let mut r: Vec<char> = Vec::new();
    r.extend_from_slice(slice_subrange(cs.as_slice(), i, j));
    proof {
        assert forall|k: int| j - i <= k < front.len() implies is_space(#[trigger] front[k]) by {
            assert(front[k] == cs@[k + i]);
        }
        lemma_trimmed_end_from(front, j - i);
        let mid = front.take(j - i);
        assert(mid =~= cs@.subrange(i as int, j as int));
        assert(mid.len() > 0 ==> mid.last() == cs@[j - 1]);
        assert(trimmed_end(front) == mid);
        assert(r@ =~= mid);
    }
    r
}

/// A text without the white space around it.
pub(crate) fn trim(s: &str) -> (r: String)
    ensures
        r@ == trimmed(s@),
{
    let cs = chars_of(s);
    let inner = trim_chars(&cs);
    let mut r = String::new();
    push_chars(&mut r, inner.as_slice());
    assert(r@ =~= trimmed(s@));
    r
}

/// Whether there is nothing in a text but white space.
pub(crate) fn is_blank(s: &str) -> (r: bool)
    ensures
        r == (trimmed(s@).len() == 0),
{
    let cs = chars_of(s);
    trim_chars(&cs).len() == 0
}

/// Whether `needle` stands at position `at`.
fn matches_at(s: &Vec<char>, needle: &Vec<char>, at: usize) -> (r: bool)
    requires
        at + needle@.len() <= s@.len(),
    ensures
        r == (s@.subrange(at as int, at + needle@.len()) == needle@),
{
    let ghost here = s@.subrange(at as int, at + needle@.len());
    let len: usize = s.len();
    let mut k: usize = 0;
    while k < needle.len()
        invariant
            len == s@.len(),
            k <= needle@.len(),
            at + needle@.len() <= s@.len(),
            here == s@.subrange(at as int, at + needle@.len()),
            forall|m: int| 0 <= m < k ==> here[m] == needle@[m],
        decreases needle@.len() - k,
    {
        if s[at + k] != needle[k] {
            assert(here[k as int] != needle@[k as int]);
            return false;
        }
        k = k + 1;
    }
    assert(here =~= needle@);
    true
}

/// Whether `needle` occurs somewhere in `s`.
pub(crate) fn contains(s: &str, needle: &str) -> (r: bool)
    ensures
        r == occurs_in(s@, needle@),
{
    let text = chars_of(s);
    let part = chars_of(needle);
    if part.len() > text.len() {
        return false;
    }
    let last: usize = text.len() - part.len();
    let mut i: usize = 0;
    loop
        invariant
            text@ == s@,
            part@ == needle@,
            i <= last,
            last == s@.len() - needle@.len(),
            forall|k: int|
                0 <= k < i ==> #[trigger] s@.subrange(k, k + needle@.len()) != needle@,
        decreases last - i,
    {
        if matches_at(&text, &part, i) {
            return true;
        }
        if i == last {
            return false;
        }
        i = i + 1;
    }
}

/// One decimal digit.
pub open spec fn digit(d: int) -> char {
    (48 + d) as char
}

/// A natural number in decimal.
pub open spec fn decimal(n: nat) -> Seq<char>
    decreases n,
{
    if n < 10 {
        seq![digit(n as int)]
    } else {
        decimal(n / 10).push(digit((n % 10) as int))
    }
}

/// A number in decimal, with its sign if it is below zero.
pub open spec fn signed_decimal(n: int) -> Seq<char> {
    if n < 0 {
        seq!['-'] + decimal((-n) as nat)
    } else {
        decimal(n as nat)
    }
}

fn digit_char(d: u64) -> (r: char)
    requires
        d < 10,
    ensures
        r == digit(d as int),
{
    (48u8 + d as u8) as char
}

/// Puts a number onto the end of a text, in decimal.
pub(crate) fn push_decimal(out: &mut String, n: u64)
    ensures
        final(out)@ == old(out)@ + decimal(n as nat),
    decreases n,
{
    if n >= 10 {
        push_decimal(out, n / 10);
    }
    out.push(digit_char(n % 10));
    assert(out@ =~= old(out)@ + decimal(n as nat));
}

/// Puts a number onto the end of a text, in decimal, with its sign if it is below
/// zero.
pub(crate) fn push_signed(out: &mut String, n: i64)
    ensures
        final(out)@ == old(out)@ + signed_decimal(n as int),
{
    if n < 0 {
        out.push('-');
        let m: u64 = (-(n as i128)) as u64;
        push_decimal(out, m);
        assert(out@ =~= old(out)@ + signed_decimal(n as int));
    } else {
        push_decimal(out, n as u64);
    }
}

/// A decimal digit.
pub open spec fn is_digit(c: char) -> bool {
    48 <= c as int <= 57
}

pub(crate) fn is_digit_char(c: char) -> (r: bool)
    ensures
        r == is_digit(c),
{
    let x: u32 = code_point(c);
    48 <= x && x <= 57
}

/// What a run of digits stands for.
pub open spec fn digits_value(s: Seq<char>) -> nat
    decreases s.len(),
{
    if s.len() == 0 {
        0
    } else {
        10 * digits_value(s.drop_last()) + (s.last() as int - 48) as nat
    }
}

/// At least one digit, and nothing else.
pub open spec fn is_number(s: Seq<char>) -> bool {
    s.len() > 0 && forall|i: int| 0 <= i < s.len() ==> is_digit(#[trigger] s[i])
}

/// The number a text stands for: digits, after a `+` if there is one and, for a
/// signed type, after a `-` if there is one.
pub open spec fn number_in(s: Seq<char>, signed: bool) -> Option<int> {
    if s.len() > 0 && s[0] == '+' {
        if is_number(s.skip(1)) {
            Some(digits_value(s.skip(1)) as int)
        } else {
            None
        }
    } else if signed && s.len() > 0 && s[0] == '-' {
        if is_number(s.skip(1)) {
            Some(-digits_value(s.skip(1)))
        } else {
            None
        }
    } else if is_number(s) {
        Some(digits_value(s) as int)
    } else {
        None
    }
}

/// The number a text stands for, if it is one that lies in a range.
pub open spec fn number_within(s: Seq<char>, signed: bool, min: int, max: int) -> Option<int> {
    match number_in(s, signed) {
        Some(n) => if min <= n <= max {
            Some(n)
        } else {
            None
        },
        None => None,
    }
}

/// Where values are cut off while digits are read: beyond any range asked for.
const CUTOFF: u64 = 0x1_0000_0000;

/// The value of the digits from `from` on, cut off at [`CUTOFF`].
fn read_digits(cs: &Vec<char>, from: usize) -> (r: Option<u64>)
    requires
        from <= cs@.len(),
    ensures
        match r {
            Some(v) => {
                &&& is_number(cs@.skip(from as int))
                &&& v <= CUTOFF
                &&& v < CUTOFF ==> v == digits_value(cs@.skip(from as int))
                &&& v == CUTOFF ==> digits_value(cs@.skip(from as int)) >= CUTOFF
            },
            None => !is_number(cs@.skip(from as int)),
        },
{
    let ghost s = cs@.skip(from as int);
    if from == cs.len() {
        return None;
    }
    let mut v: u64 = 0;
    let mut i: usize = from;
    assert(s.take(0) =~= Seq::empty());
    while i < cs.len()
        invariant
            from <= i <= cs@.len(),
            s == cs@.skip(from as int),
            v <= CUTOFF,
            v < CUTOFF ==> v == digits_value(s.take(i - from)),
            v == CUTOFF ==> digits_value(s.take(i - from)) >= CUTOFF,
            forall|k: int| 0 <= k < i - from ==> is_digit(#[trigger] s[k]),
        decreases cs@.len() - i,
    {
        let x: u32 = code_point(cs[i]);
        assert(s[i - from] == cs@[i as int]);
        if x < 48 || x > 57 {
            assert(!is_digit(s[i - from]));
            return None;
        }
        let ghost before = s.take(i - from);
        let ghost after = s.take(i + 1 - from);
        assert(after.drop_last() =~= before);
        assert(after.last() == s[i - from]);
        let next: u64 = v * 10 + (x - 48) as u64;
        v = if next < CUTOFF {
            next
        } else {
            CUTOFF
        };
        i = i + 1;
    }
    assert(s.take(i - from) =~= s);
    Some(v)
}

/// Reads a number that lies in a range.
pub(crate) fn parse_within(s: &str, signed: bool, min: i64, max: i64) -> (r: Option<i64>)
    requires
        -0x8000_0000 <= min <= max <= 0xffff_ffff,
    ensures
        match r {
            Some(n) => number_within(s@, signed, min as int, max as int) == Some(n as int),
            None => number_within(s@, signed, min as int, max as int) is None,
        },
{
    let cs = chars_of(s);
    let mut from: usize = 0;
    let mut negative = false;
    if cs.len() > 0 {
        if cs[0] == '+' {
            from = 1;
        } else if signed && cs[0] == '-' {
            from = 1;
            negative = true;
        }
    }
    assert(cs@.skip(0) =~= cs@);
    match read_digits(&cs, from) {
        Some(v) => {
            let n: i64 = if negative {
                -(v as i64)
            } else {
                v as i64
            };
            if min <= n && n <= max {
                Some(n)
            } else {
                None
            }
        },
        None => None,
    }
}

/// Trimming takes nothing but white space away, and leaves none at the ends.
pub proof fn law_trimmed_has_no_white_space_around_it(s: Seq<char>)
    ensures
        trimmed(s).len() <= s.len(),
        trimmed(s).len() > 0 ==> !is_space(trimmed(s)[0]) && !is_space(trimmed(s).last()),
        trimmed(trimmed(s)) == trimmed(s),
{
    let t = trimmed_start(s);
    lemma_trimmed_start_shape(s);
    lemma_trimmed_end_shape(t);
}

proof fn lemma_trimmed_start_shape(s: Seq<char>)
    ensures
        trimmed_start(s).len() <= s.len(),
        trimmed_start(s).len() > 0 ==> !is_space(trimmed_start(s)[0]),
    decreases s.len(),
{
    if s.len() > 0 && is_space(s[0]) {
        lemma_trimmed_start_shape(s.skip(1));
    }
}

proof fn lemma_trimmed_end_shape(s: Seq<char>)
    ensures
        trimmed_end(s).len() <= s.len(),
        trimmed_end(s).len() > 0 ==> !is_space(trimmed_end(s).last()),
        trimmed_end(s) == s.take(trimmed_end(s).len() as int),
    decreases s.len(),
{
    if s.len() > 0 && is_space(s.last()) {
        let t = s.drop_last();
        lemma_trimmed_end_shape(t);
        assert(t.take(trimmed_end(t).len() as int) =~= s.take(trimmed_end(t).len() as int));
    } else {
        assert(s.take(s.len() as int) =~= s);
    }
}

/// A number survives being written down and read back.
pub proof fn law_decimal_round_trip(n: nat)
    ensures
        is_number(decimal(n)),
        digits_value(decimal(n)) == n,
        number_in(decimal(n), true) == Some(n as int),
        number_in(decimal(n), false) == Some(n as int),
    decreases n,
{
    if n < 10 {
        let s = decimal(n);
        assert(s.drop_last() =~= Seq::empty());
        assert(digits_value(s.drop_last()) == 0);
    } else {
        law_decimal_round_trip(n / 10);
        let s = decimal(n);
        let t = decimal(n / 10);
        assert(s.drop_last() =~= t);
        assert forall|i: int| 0 <= i < s.len() implies is_digit(#[trigger] s[i]) by {
            assert(i < t.len() ==> s[i] == t[i]);
        }
    }
    assert(is_digit(decimal(n)[0]));
}

proof fn lemma_leading_spaces(a: Seq<char>, s: Seq<char>)
    requires
        forall|i: int| 0 <= i < a.len() ==> is_space(#[trigger] a[i]),
    ensures
        trimmed_start(a + s) == trimmed_start(s),
    decreases a.len(),
{
    if a.len() == 0 {
        assert(a + s =~= s);
    } else {
        assert((a + s)[0] == a[0]);
        assert((a + s).skip(1) =~= a.skip(1) + s);
        lemma_leading_spaces(a.skip(1), s);
    }
}

proof fn lemma_trailing_spaces(s: Seq<char>, b: Seq<char>)
    requires
        forall|i: int| 0 <= i < b.len() ==> is_space(#[trigger] b[i]),
    ensures
        trimmed_end(s + b) == trimmed_end(s),
    decreases b.len(),
{
    if b.len() == 0 {
        assert(s + b =~= s);
    } else {
        assert((s + b).last() == b.last());
        assert((s + b).drop_last() =~= s + b.drop_last());
        lemma_trailing_spaces(s, b.drop_last());
    }
}

/// Trimming takes away the white space around a text, however much there is, and leaves
/// everything between its first and its last other character as it was.
pub proof fn law_trimming_takes_the_white_space_around(
    before: Seq<char>,
    core: Seq<char>,
    after: Seq<char>,
)
    requires
        forall|i: int| 0 <= i < before.len() ==> is_space(#[trigger] before[i]),
        forall|i: int| 0 <= i < after.len() ==> is_space(#[trigger] after[i]),
        core.len() > 0 ==> !is_space(core[0]) && !is_space(core.last()),
    ensures
        trimmed(before + core + after) == core,
{
    assert(before + core + after =~= before + (core + after));
    lemma_leading_spaces(before, core + after);
    if core.len() == 0 {
        assert(core + after =~= after);
        lemma_leading_spaces(after, Seq::empty());
        assert(after + Seq::<char>::empty() =~= after);
        assert(trimmed_start(after).len() == 0);
        assert(trimmed_start(after) =~= core);
    } else {
        assert((core + after)[0] == core[0]);
        assert(trimmed_start(core + after) == core + after);
        lemma_trailing_spaces(core, after);
    }
}

/// Among plain characters, white space is the blank and the five from tab to carriage
/// return, control characters are those below the blank and the last one, and digits are
/// the ten of them.
pub proof fn law_plain_characters(c: char)
    requires
        c as int <= 0x7f,
    ensures
        is_space(c) <==> c as int == 0x20 || 0x09 <= c as int <= 0x0d,
        is_control(c) <==> (c as int) < 0x20 || c as int == 0x7f,
        is_digit(c) <==> 0x30 <= c as int <= 0x39,
{
}

/// A number may carry a plus, and a minus where it may be negative; a text that holds
/// anything but digits behind that is no number; and a number counts only within the
/// range asked for.
pub proof fn law_what_is_read_as_a_number(n: nat, s: Seq<char>, signed: bool, min: int, max: int)
    ensures
        number_in(seq!['+'] + decimal(n), signed) == Some(n as int),
        number_in(seq!['-'] + decimal(n), true) == Some(-n),
        number_in(seq!['-'] + decimal(n), false) is None,
        number_in(Seq::empty(), signed) is None,
        n > 0 ==> decimal(n)[0] != '0',
        n < 10 ==> decimal(n).len() == 1,
        forall|i: int|
            1 <= i < s.len() && !is_digit(#[trigger] s[i]) ==> number_in(s, signed) is None,
        number_within(s, signed, min, max) == match number_in(s, signed) {
            Some(x) => if min <= x && x <= max {
                Some(x)
            } else {
                None
            },
            None => None,
        },
    decreases n,
{
    law_decimal_round_trip(n);
    let plus = seq!['+'] + decimal(n);
    let minus = seq!['-'] + decimal(n);
    assert(plus.skip(1) =~= decimal(n));
    assert(minus.skip(1) =~= decimal(n));
    assert(plus[0] == '+' && minus[0] == '-');
    assert(!is_digit(minus[0]));
    assert(is_number(minus) ==> is_digit(minus[0]));
    if n >= 10 {
        law_what_is_read_as_a_number(n / 10, Seq::empty(), signed, min, max);
        assert(decimal(n)[0] == decimal(n / 10)[0]);
    }
    assert forall|i: int| 1 <= i < s.len() && !is_digit(#[trigger] s[i]) implies number_in(
        s,
        signed,
    ) is None by {
        assert(s.skip(1)[i - 1] == s[i]);
        assert(is_number(s.skip(1)) ==> is_digit(s.skip(1)[i - 1]));
        assert(is_number(s) ==> is_digit(s[i]));
    }
}

/// What trimming leaves is a piece of what was there.
pub proof fn lemma_trimmed_is_a_piece(s: Seq<char>)
    ensures
        forall|i: int| 0 <= i < trimmed(s).len() ==> s.contains(#[trigger] trimmed(s)[i]),
{
    let t = trimmed_start(s);
    lemma_trimmed_start_is_a_piece(s);
    lemma_trimmed_end_shape(t);
    assert forall|i: int| 0 <= i < trimmed(s).len() implies s.contains(#[trigger] trimmed(s)[i]) by {
        assert(trimmed(s)[i] == t[i]);
        assert(s.contains(t[i]));
    }
}

proof fn lemma_trimmed_start_is_a_piece(s: Seq<char>)
    ensures
        forall|i: int| 0 <= i < trimmed_start(s).len() ==> s.contains(#[trigger] trimmed_start(s)[i]),
    decreases s.len(),
{
    if s.len() > 0 && is_space(s[0]) {
        let rest = s.skip(1);
        lemma_trimmed_start_is_a_piece(rest);
        assert forall|i: int| 0 <= i < trimmed_start(s).len() implies s.contains(
            #[trigger] trimmed_start(s)[i],
        ) by {
            assert(rest.contains(trimmed_start(rest)[i]));
            let k = choose|k: int| 0 <= k < rest.len() && rest[k] == trimmed_start(rest)[i];
            assert(s[k + 1] == rest[k]);
        }
    }
}

/// A negative number is written with a minus in front, any other as it is.
pub proof fn law_a_minus_goes_in_front(n: nat)
    ensures
        n > 0 ==> signed_decimal(-n) == seq!['-'] + decimal(n),
        signed_decimal(n as int) == decimal(n),
{
}

} // verus!
