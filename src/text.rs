//! Character-level helpers: whitespace splitting and recognition of
//! floating-point literals.
use vstd::prelude::*;
use vstd::string::StrSliceExecFns;

verus! {

/// The characters with the Unicode `White_Space` property, which delimit words.
pub open spec fn is_ws(c: char) -> bool {
    c == '\t' || c == '\n' || c == '\u{0B}' || c == '\u{0C}' || c == '\r' || c == ' '
        || c == '\u{85}' || c == '\u{A0}' || c == '\u{1680}' || ('\u{2000}' <= c
        && c <= '\u{200A}') || c == '\u{2028}' || c == '\u{2029}' || c == '\u{202F}'
        || c == '\u{205F}' || c == '\u{3000}'
}

pub fn is_ws_char(c: char) -> (r: bool)
    ensures
        r == is_ws(c),
{
    c == '\t' || c == '\n' || c == '\u{0B}' || c == '\u{0C}' || c == '\r' || c == ' '
        || c == '\u{85}' || c == '\u{A0}' || c == '\u{1680}' || ('\u{2000}' <= c
        && c <= '\u{200A}') || c == '\u{2028}' || c == '\u{2029}' || c == '\u{202F}'
        || c == '\u{205F}' || c == '\u{3000}'
}

/// Words completed within the first `n` characters of `s`, and the word still open
/// after them.
pub open spec fn words_upto(s: Seq<char>, n: nat) -> (Seq<Seq<char>>, Seq<char>)
    recommends
        n <= s.len(),
    decreases n,
{
    if n == 0 {
        (Seq::empty(), Seq::empty())
    } else {
        let (done, open) = words_upto(s, (n - 1) as nat);
        let c = s[n - 1];
        if is_ws(c) {
            if open.len() > 0 {
                (done.push(open), Seq::empty())
            } else {
                (done, open)
            }
        } else {
            (done, open.push(c))
        }
    }
}

/// The maximal runs of non-whitespace characters of `s`, in order.
pub open spec fn words(s: Seq<char>) -> Seq<Seq<char>> {
    let (done, open) = words_upto(s, s.len());
    if open.len() > 0 {
        done.push(open)
    } else {
        done
    }
}

pub open spec fn string_views(v: Seq<String>) -> Seq<Seq<char>> {
    v.map_values(|t: String| t@)
}

proof fn lemma_open_word(s: Seq<char>, n: nat)
    requires
        n <= s.len(),
    ensures
        words_upto(s, n).1.len() <= n,
        words_upto(s, n).1 == s.subrange(n - words_upto(s, n).1.len(), n as int),
        forall|k: int|
            0 <= k < words_upto(s, n).1.len() ==> !is_ws(#[trigger] words_upto(s, n).1[k]),
    decreases n,
{
    if n > 0 {
        lemma_open_word(s, (n - 1) as nat);
        let open = words_upto(s, (n - 1) as nat).1;
        let c = s[n - 1];
        if !is_ws(c) {
            assert(open.push(c) =~= s.subrange(n - open.len() - 1, n as int));
        } else {
            assert(Seq::<char>::empty() =~= s.subrange(n as int, n as int));
        }
    } else {
        assert(Seq::<char>::empty() =~= s.subrange(0, 0));
    }
}

/// Splits `s` on whitespace, as `str::split_whitespace` does.
pub fn split_words(s: &str) -> (r: Vec<String>)
    ensures
        string_views(r@) == words(s@),
{
    let n = s.unicode_len();
    let mut out: Vec<String> = Vec::new();
    let mut start: usize = 0;
    let mut i: usize = 0;
    while i < n
        invariant
            n == s@.len(),
            start <= i <= n,
            string_views(out@) == words_upto(s@, i as nat).0,
            words_upto(s@, i as nat).1 == s@.subrange(start as int, i as int),
        decreases n - i,
    {
        proof {
            lemma_open_word(s@, i as nat);
        }
        let c = s.get_char(i);
        if is_ws_char(c) {
            if start < i {
                let w = s.substring_char(start, i).to_owned();
                out.push(w);
                assert(string_views(out@) =~= words_upto(s@, i as nat).0.push(
                    s@.subrange(start as int, i as int),
                ));
            }
            start = i + 1;
            assert(Seq::<char>::empty() =~= s@.subrange(i + 1, i + 1));
        } else {
            assert(s@.subrange(start as int, i + 1) =~= s@.subrange(start as int, i as int).push(
                c,
            ));
        }
        i = i + 1;
    }
    if start < n {
        let w = s.substring_char(start, n).to_owned();
        out.push(w);
        assert(string_views(out@) =~= words_upto(s@, n as nat).0.push(
            s@.subrange(start as int, n as int),
        ));
    }
    out
}

pub open spec fn is_digit(c: char) -> bool {
    '0' <= c && c <= '9'
}

pub open spec fn is_sign(c: char) -> bool {
    c == '+' || c == '-'
}

pub open spec fn is_exp_mark(c: char) -> bool {
    c == 'e' || c == 'E'
}

/// `c` is the lower-case letter `w`, or its ASCII upper-case form.
pub open spec fn same_letter(c: char, w: char) -> bool {
    c == w || ('A' <= c && c <= 'Z' && (c as u32) + 32 == (w as u32))
}

/// `t` without one leading sign character, if it has one.
pub open spec fn unsigned(t: Seq<char>) -> Seq<char> {
    if t.len() > 0 && is_sign(t[0]) {
        t.drop_first()
    } else {
        t
    }
}

/// `t` equals the lower-case word `w` when ASCII letters are compared without case.
pub open spec fn same_word(t: Seq<char>, w: Seq<char>) -> bool {
    t.len() == w.len() && forall|i: int| 0 <= i < t.len() ==> same_letter(#[trigger] t[i], w[i])
}

pub open spec fn is_special_value(t: Seq<char>) -> bool {
    same_word(t, "inf"@) || same_word(t, "infinity"@) || same_word(t, "nan"@)
}

/// Digits with at most one decimal point, and at least one digit:
/// `Digit+ | Digit+ '.' Digit* | Digit* '.' Digit+`.
pub open spec fn is_mantissa(m: Seq<char>) -> bool {
    &&& forall|i: int| 0 <= i < m.len() ==> is_digit(#[trigger] m[i]) || m[i] == '.'
    &&& forall|i: int, j: int| 0 <= i < j < m.len() ==> !(#[trigger] m[i] == '.' && #[trigger] m[j] == '.')
    &&& exists|i: int| 0 <= i < m.len() && is_digit(#[trigger] m[i])
}

/// `Sign? Digit+`
pub open spec fn is_exponent(x: Seq<char>) -> bool {
    let u = unsigned(x);
    u.len() > 0 && forall|i: int| 0 <= i < u.len() ==> is_digit(#[trigger] u[i])
}

/// `Mantissa (('e' | 'E') Exponent)?`
pub open spec fn is_number(t: Seq<char>) -> bool {
    ||| (forall|i: int| 0 <= i < t.len() ==> !is_exp_mark(#[trigger] t[i])) && is_mantissa(t)
    ||| exists|k: int|
        0 <= k < t.len() && is_exp_mark(#[trigger] t[k]) && is_mantissa(t.take(k))
            && is_exponent(t.skip(k + 1))
}

/// The text accepted as a floating-point literal when parsing an `f64`:
/// an optional sign, then `inf`, `infinity` or `nan` in any case, or a decimal
/// number with an optional exponent.
pub open spec fn is_float_literal(t: Seq<char>) -> bool {
    is_special_value(unsigned(t)) || is_number(unsigned(t))
}

fn is_digit_char(c: char) -> (r: bool)
    ensures
        r == is_digit(c),
{
    '0' <= c && c <= '9'
}

fn letter_matches(c: char, w: char) -> (r: bool)
    ensures
        r == same_letter(c, w),
{
    c == w || ('A' <= c && c <= 'Z' && (c as u32) + 32 == (w as u32))
}

fn chars_of(s: &str) -> (r: Vec<char>)
    ensures
        r@ == s@,
{
    let n = s.unicode_len();
    let mut out: Vec<char> = Vec::new();
    let mut i: usize = 0;
    while i < n
        invariant
            n == s@.len(),
            i <= n,
            out@ == s@.take(i as int),
        decreases n - i,
    {
        out.push(s.get_char(i));
        i = i + 1;
        assert(out@ =~= s@.take(i as int));
    }
    assert(out@ =~= s@);
    out
}

fn word_matches(t: &Vec<char>, lo: usize, w: &str) -> (r: bool)
    requires
        lo <= t@.len(),
    ensures
        r == same_word(t@.skip(lo as int), w@),
{
    let wc = chars_of(w);
    if t.len() - lo != wc.len() {
        return false;
    }
    let mut i: usize = 0;
    while i < wc.len()
        invariant
            t@.len() == t.len(),
            lo <= t@.len(),
            lo + wc@.len() == t@.len(),
            wc@ == w@,
            i <= wc@.len(),
            forall|j: int| 0 <= j < i ==> same_letter(#[trigger] t@.skip(lo as int)[j], wc@[j]),
        decreases wc.len() - i,
    {
        if !letter_matches(t[lo + i], wc[i]) {
            assert(!same_letter(t@.skip(lo as int)[i as int], w@[i as int]));
            return false;
        }
        i = i + 1;
    }
    true
}

fn mantissa_ok(t: &Vec<char>, lo: usize, hi: usize) -> (r: bool)
    requires
        lo <= hi <= t@.len(),
    ensures
        r == is_mantissa(t@.subrange(lo as int, hi as int)),
{
    let ghost m = t@.subrange(lo as int, hi as int);
    let mut dots: usize = 0;
    let mut digit_at: Option<usize> = None;
    let mut i: usize = lo;
    while i < hi
        invariant
            lo <= i <= hi <= t@.len(),
            m == t@.subrange(lo as int, hi as int),
            dots <= 1,
            forall|j: int| 0 <= j < i - lo ==> is_digit(#[trigger] m[j]) || m[j] == '.',
            dots == 0 ==> forall|j: int| 0 <= j < i - lo ==> #[trigger] m[j] != '.',
            dots == 1 ==> exists|j: int| 0 <= j < i - lo && #[trigger] m[j] == '.',
            forall|a: int, b: int| 0 <= a < b < i - lo ==> !(#[trigger] m[a] == '.' && #[trigger] m[b] == '.'),
            digit_at matches Some(d) ==> lo <= d < i && is_digit(m[d - lo]),
            digit_at is None ==> forall|j: int| 0 <= j < i - lo ==> !is_digit(#[trigger] m[j]),
        decreases hi - i,
    {
        let c = t[i];
        assert(c == m[i - lo]);
        if c == '.' {
            if dots == 1 {
                let ghost j = choose|j: int| 0 <= j < i - lo && #[trigger] m[j] == '.';
                assert(m[j] == '.' && m[i - lo] == '.');
                return false;
            }
            dots = 1;
        } else if is_digit_char(c) {
            digit_at = Some(i);
        } else {
            return false;
        }
        i = i + 1;
    }
    match digit_at {
        Some(d) => {
            assert(is_digit(m[d - lo]));
            true
        },
        None => false,
    }
}

fn exponent_ok(t: &Vec<char>, lo: usize) -> (r: bool)
    requires
        lo <= t@.len(),
    ensures
        r == is_exponent(t@.skip(lo as int)),
{
    let ghost x = t@.skip(lo as int);
    let mut i: usize = lo;
    if i < t.len() && (t[i] == '+' || t[i] == '-') {
        i = i + 1;
    }
    let start = i;
    assert(unsigned(x) =~= t@.skip(start as int));
    if start == t.len() {
        assert(unsigned(x).len() == 0);
        return false;
    }
    while i < t.len()
        invariant
            lo <= start <= i <= t@.len(),
            x == t@.skip(lo as int),
            unsigned(x) == t@.skip(start as int),
            forall|j: int| 0 <= j < i - start ==> is_digit(#[trigger] unsigned(x)[j]),
        decreases t.len() - i,
    {
        if !is_digit_char(t[i]) {
            assert(!is_digit(unsigned(x)[i - start]));
            return false;
        }
        i = i + 1;
    }
    true
}

fn number_ok(t: &Vec<char>, lo: usize) -> (r: bool)
    requires
        lo <= t@.len(),
    ensures
        r == is_number(t@.skip(lo as int)),
{
    let ghost u = t@.skip(lo as int);
    let mut k: usize = lo;
    while k < t.len() && !(t[k] == 'e' || t[k] == 'E')
        invariant
            lo <= k <= t@.len(),
            u == t@.skip(lo as int),
            forall|j: int| 0 <= j < k - lo ==> !is_exp_mark(#[trigger] u[j]),
        decreases t.len() - k,
    {
        k = k + 1;
    }
    if k == t.len() {
        assert(t@.subrange(lo as int, k as int) =~= u);
        let r = mantissa_ok(t, lo, k);
        if !r {
            assert forall|k2: int| 0 <= k2 < u.len() && is_exp_mark(#[trigger] u[k2]) implies !(
            is_mantissa(u.take(k2)) && is_exponent(u.skip(k2 + 1))) by {}
        }
        r
    } else {
        let ghost kk = k - lo;
        assert(t@.subrange(lo as int, k as int) =~= u.take(kk));
        assert(t@.skip(k + 1) =~= u.skip(kk + 1));
        let r = mantissa_ok(t, lo, k) && exponent_ok(t, k + 1);
        assert(is_exp_mark(u[kk]));
        if !r {
            assert forall|k2: int| 0 <= k2 < u.len() && is_exp_mark(#[trigger] u[k2]) implies !(
            is_mantissa(u.take(k2)) && is_exponent(u.skip(k2 + 1))) by {
                if k2 > kk {
                    assert(u.take(k2)[kk] == u[kk]);
                } else if k2 < kk {
                    assert(!is_exp_mark(u[k2]));
                }
            }
        }
        r
    }
}

/// Tells whether `s` is a floating-point literal.
pub fn is_float_text(s: &str) -> (r: bool)
    ensures
        r == is_float_literal(s@),
{
    let t = chars_of(s);
    let lo: usize = if t.len() > 0 && (t[0] == '+' || t[0] == '-') {
        1
    } else {
        0
    };
    assert(unsigned(s@) =~= t@.skip(lo as int));
    word_matches(&t, lo, "inf") || word_matches(&t, lo, "infinity") || word_matches(
        &t,
        lo,
        "nan",
    ) || number_ok(&t, lo)
}

} // verus!
