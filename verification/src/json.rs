//! Canonical JSON text for the persisted documents: rendering and
//! parsing of the primitive pieces (strings with escapes, integers,
//! optional values, string arrays), with round-trip proofs. The
//! document shapes themselves are composed in the codec module.

use vstd::prelude::*;
use crate::text::{matches_at, string_to_chars, chars_to_string, push_str_chars};

verus! {

// ---------------------------------------------------------------
// characters and escaping
// ---------------------------------------------------------------

/// The escape sequence a character renders as inside a JSON string.
pub open spec fn esc_char(c: char) -> Seq<char> {
    if c == '"' {
        seq!['\\', '"']
    } else if c == '\\' {
        seq!['\\', '\\']
    } else if c == '\n' {
        seq!['\\', 'n']
    } else if c == '\r' {
        seq!['\\', 'r']
    } else if c == '\t' {
        seq!['\\', 't']
    } else {
        seq![c]
    }
}

/// The character an escape letter stands for, if it is a known one.
pub open spec fn unesc_char(c: char) -> Option<char> {
    if c == '"' {
        Some('"')
    } else if c == '\\' {
        Some('\\')
    } else if c == 'n' {
        Some('\n')
    } else if c == 'r' {
        Some('\r')
    } else if c == 't' {
        Some('\t')
    } else {
        None
    }
}

/// The body of a JSON string: every character escaped.
pub open spec fn esc(s: Seq<char>) -> Seq<char>
    decreases s.len(),
{
    if s.len() == 0 {
        Seq::empty()
    } else {
        esc_char(s[0]) + esc(s.drop_first())
    }
}

/// Escaping distributes over concatenation.
pub proof fn lemma_esc_concat(a: Seq<char>, b: Seq<char>)
    ensures
        esc(a + b) == esc(a) + esc(b),
    decreases a.len(),
{
    if a.len() == 0 {
        assert(a + b =~= b);
        assert(esc(a) + esc(b) =~= esc(b));
    } else {
        assert((a + b).len() > 0);
        assert((a + b)[0] == a[0]);
        assert((a + b).drop_first() =~= a.drop_first() + b);
        lemma_esc_concat(a.drop_first(), b);
        assert(esc_char(a[0]) + (esc(a.drop_first()) + esc(b)) =~= (esc_char(a[0]) + esc(
            a.drop_first(),
        )) + esc(b));
    }
}

/// The rendering of a JSON string: quoted, escaped body.
pub open spec fn render_string(s: Seq<char>) -> Seq<char> {
    seq!['"'] + esc(s) + seq!['"']
}

// ---------------------------------------------------------------
// literal and string parsing
// ---------------------------------------------------------------

/// Consumes the exact text `lit` at position `i`.
pub open spec fn parse_lit(s: Seq<char>, i: int, lit: Seq<char>) -> Option<int> {
    if matches_at(s, lit, i) {
        Some(i + lit.len())
    } else {
        None
    }
}

/// Consumes the body of a JSON string up to and including the closing
/// quote, unescaping as it goes.
pub open spec fn parse_string_body(s: Seq<char>, i: int) -> Option<(Seq<char>, int)>
    decreases s.len() - i,
{
    if i < 0 || i >= s.len() {
        None
    } else if s[i] == '"' {
        Some((Seq::empty(), i + 1))
    } else if s[i] == '\\' {
        if i + 1 >= s.len() {
            None
        } else {
            match unesc_char(s[i + 1]) {
                None => None,
                Some(c) => match parse_string_body(s, i + 2) {
                    None => None,
                    Some((t, j)) => Some((seq![c] + t, j)),
                },
            }
        }
    } else {
        match parse_string_body(s, i + 1) {
            None => None,
            Some((t, j)) => Some((seq![s[i]] + t, j)),
        }
    }
}

/// Consumes a quoted JSON string at position `i`.
pub open spec fn parse_string(s: Seq<char>, i: int) -> Option<(Seq<char>, int)> {
    if 0 <= i < s.len() && s[i] == '"' {
        parse_string_body(s, i + 1)
    } else {
        None
    }
}

/// A successful string-body parse ends after its start, within bounds.
pub proof fn lemma_parse_body_bounds(s: Seq<char>, i: int)
    ensures
        parse_string_body(s, i) matches Some((t, j)) ==> i < j <= s.len(),
    decreases s.len() - i,
{
    if 0 <= i < s.len() {
        lemma_parse_body_bounds(s, i + 1);
        if i + 1 < s.len() {
            lemma_parse_body_bounds(s, i + 2);
        }
    }
}

/// A successful string parse ends after its start, within bounds.
pub proof fn lemma_parse_string_advances(s: Seq<char>, i: int)
    ensures
        parse_string(s, i) matches Some((t, j)) ==> i < j <= s.len(),
{
    lemma_parse_body_bounds(s, i + 1);
}

/// Splitting a matched concatenation into its two matched halves.
pub proof fn lemma_matches_split(s: Seq<char>, i: int, a: Seq<char>, b: Seq<char>)
    requires
        matches_at(s, a + b, i),
    ensures
        matches_at(s, a, i),
        matches_at(s, b, i + a.len()),
{
    let ab = a + b;
    assert(s.subrange(i, i + a.len()) =~= a) by {
        assert forall|k: int| 0 <= k < a.len() implies s.subrange(i, i + a.len())[k] == a[k] by {
            assert(s.subrange(i, i + ab.len())[k] == ab[k]);
        }
    }
    assert(s.subrange(i + a.len(), i + a.len() + b.len()) =~= b) by {
        assert forall|k: int|
            0 <= k < b.len() implies s.subrange(i + a.len(), i + a.len() + b.len())[k] == b[k] by {
            assert(s.subrange(i, i + ab.len())[a.len() + k] == ab[a.len() + k]);
        }
    }
}

/// Parsing the body rendering of `v` followed by a closing quote gives
/// back exactly `v`.
pub proof fn lemma_parse_body_render(s: Seq<char>, i: int, v: Seq<char>)
    requires
        matches_at(s, esc(v) + seq!['"'], i),
    ensures
        parse_string_body(s, i) == Some((v, i + esc(v).len() + 1)),
    decreases v.len(),
{
    let whole = esc(v) + seq!['"'];
    if v.len() == 0 {
        assert(esc(v) =~= Seq::<char>::empty());
        assert(s.subrange(i, i + 1) =~= seq!['"']) by {
            assert(s.subrange(i, i + whole.len() as int) =~= whole);
        }
        assert(s[i] == '"') by {
            assert(s.subrange(i, i + 1)[0] == s[i]);
        }
        assert(parse_string_body(s, i) == Some((Seq::<char>::empty(), i + 1)));
        assert(v =~= Seq::<char>::empty());
    } else {
        let c = v[0];
        let rest = v.drop_first();
        assert(v =~= seq![c] + rest);
        lemma_esc_concat(seq![c], rest);
        assert(esc(seq![c]) =~= esc_char(c)) by {
            assert(seq![c].drop_first() =~= Seq::<char>::empty());
            assert(esc_char(c) + esc(Seq::<char>::empty()) =~= esc_char(c));
        }
        assert(esc(v) == esc_char(c) + esc(rest));
        assert(whole =~= esc_char(c) + (esc(rest) + seq!['"']));
        lemma_matches_split(s, i, esc_char(c), esc(rest) + seq!['"']);
        let tail_at = i + esc_char(c).len();
        lemma_parse_body_render(s, tail_at, rest);
        if c == '"' || c == '\\' || c == '\n' || c == '\r' || c == '\t' {
            // two-character escape: backslash plus the escape letter
            assert(s[i] == '\\' && unesc_char(s[i + 1]) == Some(c)) by {
                assert(s.subrange(i, i + 2) =~= esc_char(c));
                assert(s.subrange(i, i + 2)[0] == s[i]);
                assert(s.subrange(i, i + 2)[1] == s[i + 1]);
            }
            assert(i + 2 <= s.len());
            assert(parse_string_body(s, i) == Some((seq![c] + rest, i + esc(v).len() + 1)));
            assert(seq![c] + rest =~= v);
        } else {
            assert(s[i] == c) by {
                assert(s.subrange(i, i + 1) =~= esc_char(c));
                assert(s.subrange(i, i + 1)[0] == s[i]);
            }
            assert(parse_string_body(s, i) == Some((seq![s[i]] + rest, i + esc(v).len() + 1)));
            assert(seq![s[i]] + rest =~= v);
        }
    }
}

// ---------------------------------------------------------------
// integers
// ---------------------------------------------------------------

/// Whether a character is a decimal digit.
pub open spec fn is_digit(c: char) -> bool {
    48 <= c as int <= 57
}

/// The digit character for a value below ten.
pub open spec fn digit_char(d: int) -> char {
    ((48 + d) as u8) as char
}

/// The value of a digit character.
pub open spec fn digit_val(c: char) -> int {
    c as int - 48
}

/// The magnitude one past `i64::MAX`: the largest magnitude a parsed
/// number may reach, and only with a minus sign.
pub open spec fn i64_min_abs() -> nat {
    0x8000_0000_0000_0000
}

/// The decimal rendering of an unsigned value, most significant digit
/// first, no leading zeros.
pub open spec fn render_u64(n: nat) -> Seq<char>
    decreases n,
{
    if n < 10 {
        seq![digit_char(n as int)]
    } else {
        render_u64((n / 10) as nat).push(digit_char((n % 10) as int))
    }
}

/// The decimal rendering of a signed value.
pub open spec fn render_i64(v: int) -> Seq<char> {
    if v < 0 {
        seq!['-'] + render_u64((-v) as nat)
    } else {
        render_u64(v as nat)
    }
}

/// Consumes decimal digits greedily, accumulating onto `acc`, refusing
/// magnitudes beyond what a signed 64-bit value can carry.
pub open spec fn parse_digits(s: Seq<char>, i: int, acc: nat) -> Option<(nat, int)>
    decreases s.len() - i,
{
    if 0 <= i < s.len() && is_digit(s[i]) {
        let acc2 = acc * 10 + digit_val(s[i]);
        if acc2 > i64_min_abs() {
            None
        } else {
            parse_digits(s, i + 1, acc2 as nat)
        }
    } else {
        Some((acc, i))
    }
}

/// Consumes a signed decimal number that fits in 64 bits.
pub open spec fn parse_i64(s: Seq<char>, i: int) -> Option<(i64, int)> {
    if 0 <= i < s.len() && s[i] == '-' {
        if i + 1 < s.len() && is_digit(s[i + 1]) {
            match parse_digits(s, i + 1, 0) {
                None => None,
                Some((m, j)) => Some(((-(m as int)) as i64, j)),
            }
        } else {
            None
        }
    } else if 0 <= i < s.len() && is_digit(s[i]) {
        match parse_digits(s, i, 0) {
            None => None,
            Some((m, j)) => if m < i64_min_abs() {
                Some((m as i64, j))
            } else {
                None
            },
        }
    } else {
        None
    }
}

/// Ten to the `k`.
pub open spec fn pow10(k: nat) -> nat
    decreases k,
{
    if k == 0 {
        1
    } else {
        10 * pow10((k - 1) as nat)
    }
}

/// The value of a digit string, most significant digit first.
pub open spec fn digits_val(t: Seq<char>) -> nat
    decreases t.len(),
{
    if t.len() == 0 {
        0
    } else {
        (digits_val(t.drop_last()) * 10 + digit_val(t.last())) as nat
    }
}

/// Whether every character of `t` is a digit.
pub open spec fn all_digits(t: Seq<char>) -> bool {
    forall|k: int| 0 <= k < t.len() ==> is_digit(t[k])
}

/// The value of a digit string, taken apart at the front.
pub proof fn lemma_val_front(t: Seq<char>)
    requires
        t.len() > 0,
        all_digits(t),
    ensures
        digits_val(t) == digit_val(t[0]) * pow10((t.len() - 1) as nat) + digits_val(
            t.drop_first(),
        ),
    decreases t.len(),
{
    if t.len() == 1 {
        assert(t.drop_last() =~= Seq::<char>::empty());
        assert(t.drop_first() =~= Seq::<char>::empty());
        assert(pow10(0) == 1);
        assert(digit_val(t[0]) * 1 == digit_val(t[0])) by (nonlinear_arith);
    } else {
        let u = t.drop_last();
        assert(u.len() > 0);
        assert(all_digits(u)) by {
            assert(forall|k: int| 0 <= k < u.len() ==> u[k] == t[k]);
        }
        lemma_val_front(u);
        let d0 = digit_val(t[0]);
        let p = (u.len() - 1) as nat;
        assert(t.drop_first().drop_last() =~= u.drop_first());
        assert(t.drop_first().len() > 0);
        assert(t.drop_first().last() == t.last());
        // digits_val(t) unfolds over the last digit; regroup the front
        // digit's power of ten.
        assert(digits_val(t) == (digits_val(u) * 10 + digit_val(t.last())) as nat);
        assert(digits_val(u) == d0 * pow10(p) + digits_val(u.drop_first()));
        assert((d0 * pow10(p) + digits_val(u.drop_first())) * 10 == d0 * (pow10(p) * 10)
            + digits_val(u.drop_first()) * 10) by (nonlinear_arith);
        assert(pow10(p) * 10 == pow10((p + 1) as nat)) by {
            assert(pow10((p + 1) as nat) == 10 * pow10(p));
        }
        assert(digits_val(t.drop_first()) == (digits_val(u.drop_first()) * 10 + digit_val(
            t.last(),
        )) as nat);
        assert((t.len() - 1) as nat == (p + 1) as nat);
    }
}

/// What the decimal rendering of `n` is made of, and that it reads
/// back as `n`.
pub proof fn lemma_render_u64_digits(n: nat)
    ensures
        render_u64(n).len() >= 1,
        all_digits(render_u64(n)),
        digits_val(render_u64(n)) == n,
    decreases n,
{
    if n < 10 {
        let t = render_u64(n);
        assert(t.len() == 1);
        assert(t.drop_last() =~= Seq::<char>::empty());
        assert(digits_val(t.drop_last()) == 0);
        assert(t.last() == digit_char(n as int));
        assert(is_digit(digit_char(n as int)));
        assert(digit_val(digit_char(n as int)) == n);
        assert(digits_val(t) == (0 * 10 + digit_val(t.last())) as nat);
    } else {
        lemma_render_u64_digits((n / 10) as nat);
        let u = render_u64((n / 10) as nat);
        let t = render_u64(n);
        assert(t =~= u.push(digit_char((n % 10) as int)));
        assert(t.drop_last() =~= u);
        assert(t.last() == digit_char((n % 10) as int));
        assert(is_digit(t.last()));
        assert(all_digits(t)) by {
            assert(forall|k: int| 0 <= k < u.len() ==> t[k] == u[k]);
        }
        assert(digit_val(digit_char((n % 10) as int)) == n % 10);
        assert(digits_val(t) == ((n / 10) * 10 + n % 10) as nat);
        assert((n / 10) * 10 + n % 10 == n) by (nonlinear_arith)
            requires
                n >= 0,
        ;
    }
}

/// Parsing a block of digits delimited on the right accumulates its
/// value onto `acc`, scaled by the block's width.
pub proof fn lemma_parse_digits_block(s: Seq<char>, i: int, j: int, acc: nat)
    requires
        0 <= i <= j <= s.len(),
        forall|k: int| i <= k < j ==> is_digit(s[k]),
        j == s.len() || !is_digit(s[j]),
        acc * pow10((j - i) as nat) + digits_val(s.subrange(i, j)) <= i64_min_abs(),
    ensures
        parse_digits(s, i, acc) == Some(
            ((acc * pow10((j - i) as nat) + digits_val(s.subrange(i, j))) as nat, j),
        ),
    decreases j - i,
{
    let block = s.subrange(i, j);
    if i == j {
        assert(block =~= Seq::<char>::empty());
        assert(pow10(0) == 1);
        assert(acc * 1 == acc) by (nonlinear_arith);
        assert(parse_digits(s, i, acc) == Some((acc, i)));
    } else {
        assert(is_digit(s[i]));
        assert(all_digits(block)) by {
            assert(forall|k: int| 0 <= k < block.len() ==> block[k] == s[i + k]);
        }
        lemma_val_front(block);
        assert(block[0] == s[i]);
        assert(block.drop_first() =~= s.subrange(i + 1, j));
        let d = digit_val(s[i]);
        let w = (j - i - 1) as nat;
        assert(digits_val(block) == d * pow10(w) + digits_val(s.subrange(i + 1, j)));
        let acc2 = (acc * 10 + d) as nat;
        // acc2 scaled by the remaining width equals acc scaled by the
        // full width plus the block's front digit contribution.
        assert(acc2 * pow10(w) == acc * (10 * pow10(w)) + d * pow10(w)) by (nonlinear_arith)
            requires
                acc2 == acc * 10 + d,
        ;
        assert(10 * pow10(w) == pow10((w + 1) as nat)) by {
            assert(pow10((w + 1) as nat) == 10 * pow10(w));
        }
        assert((j - i) as nat == (w + 1) as nat);
        assert(acc2 * pow10(w) + digits_val(s.subrange(i + 1, j)) == acc * pow10((j - i) as nat)
            + digits_val(block));
        // the accumulated front value never exceeds the bound, because
        // the remaining digits only add on top of its scaling
        lemma_pow10_pos(w);
        assert(acc2 <= acc2 * pow10(w)) by (nonlinear_arith)
            requires
                pow10(w) >= 1,
        ;
        assert(acc2 <= i64_min_abs());
        lemma_parse_digits_block(s, i + 1, j, acc2);
    }
}

/// A digit parse never moves backwards.
pub proof fn lemma_parse_digits_lo(s: Seq<char>, i: int, acc: nat)
    ensures
        parse_digits(s, i, acc) matches Some((m, j)) ==> j >= i,
    decreases s.len() - i,
{
    if 0 <= i < s.len() && is_digit(s[i]) {
        let acc2 = acc * 10 + digit_val(s[i]);
        if acc2 <= i64_min_abs() {
            lemma_parse_digits_lo(s, i + 1, acc2 as nat);
        }
    }
}

/// A digit parse stays within bounds.
pub proof fn lemma_parse_digits_hi(s: Seq<char>, i: int, acc: nat)
    ensures
        parse_digits(s, i, acc) matches Some((m, j)) ==> (0 <= i <= s.len() ==> i <= j <= s.len()),
    decreases s.len() - i,
{
    if 0 <= i < s.len() && is_digit(s[i]) {
        let acc2 = acc * 10 + digit_val(s[i]);
        if acc2 <= i64_min_abs() {
            lemma_parse_digits_hi(s, i + 1, acc2 as nat);
            lemma_parse_digits_lo(s, i + 1, acc2 as nat);
        }
    }
}

/// A successful number parse ends after its start, within bounds.
pub proof fn lemma_parse_i64_bounds(s: Seq<char>, i: int)
    ensures
        parse_i64(s, i) matches Some((v, j)) ==> i < j <= s.len(),
{
    if 0 <= i < s.len() && s[i] == '-' {
        if i + 1 < s.len() && is_digit(s[i + 1]) {
            lemma_parse_digits_lo(s, i + 1, 0);
            lemma_parse_digits_hi(s, i + 1, 0);
        }
    } else if 0 <= i < s.len() && is_digit(s[i]) {
        let d = digit_val(s[i]);
        lemma_parse_digits_lo(s, i + 1, d as nat);
        lemma_parse_digits_hi(s, i, 0);
    }
}

/// A successful optional-string parse ends after its start.
pub proof fn lemma_parse_opt_string_bounds(s: Seq<char>, i: int)
    ensures
        parse_opt_string(s, i) matches Some((v, j)) ==> i < j <= s.len(),
{
    reveal_strlit("null");
    lemma_parse_string_advances(s, i);
}

/// A successful optional-number parse ends after its start.
pub proof fn lemma_parse_opt_i64_bounds(s: Seq<char>, i: int)
    ensures
        parse_opt_i64(s, i) matches Some((v, j)) ==> i < j <= s.len(),
{
    reveal_strlit("null");
    lemma_parse_i64_bounds(s, i);
}

/// A successful item-list parse ends after its start, within bounds.
pub proof fn lemma_parse_str_items_bounds(s: Seq<char>, i: int)
    ensures
        parse_str_items(s, i) matches Some((a, j)) ==> i < j <= s.len(),
    decreases s.len() - i,
{
    lemma_parse_string_advances(s, i);
    match parse_string(s, i) {
        None => {},
        Some((v, j)) => {
            if matches_at(s, ", "@, j) && j + 2 <= s.len() {
                lemma_parse_str_items_bounds(s, j + 2);
            }
        },
    }
}

/// A successful string-array parse ends after its start, within bounds.
pub proof fn lemma_parse_str_array_bounds(s: Seq<char>, i: int)
    ensures
        parse_str_array(s, i) matches Some((a, j)) ==> i < j <= s.len(),
{
    reveal_strlit("[]");
    reveal_strlit("[");
    if !matches_at(s, "[]"@, i) {
        match parse_lit(s, i, "["@) {
            None => {},
            Some(j) => {
                lemma_parse_str_items_bounds(s, j);
            },
        }
    }
}

/// A successful optional-array parse ends after its start.
pub proof fn lemma_parse_opt_str_array_bounds(s: Seq<char>, i: int)
    ensures
        parse_opt_str_array(s, i) matches Some((a, j)) ==> i < j <= s.len(),
{
    reveal_strlit("null");
    lemma_parse_str_array_bounds(s, i);
}

/// Powers of ten are positive.
pub proof fn lemma_pow10_pos(k: nat)
    ensures
        pow10(k) >= 1,
    decreases k,
{
    if k > 0 {
        lemma_pow10_pos((k - 1) as nat);
    }
}

/// Parsing the rendering of a signed value, delimited on the right by
/// a non-digit, gives back exactly that value.
pub proof fn lemma_parse_i64_render(s: Seq<char>, i: int, v: i64)
    requires
        matches_at(s, render_i64(v as int), i),
        i + render_i64(v as int).len() == s.len() || !is_digit(
            s[i + render_i64(v as int).len()],
        ),
    ensures
        parse_i64(s, i) == Some((v, i + render_i64(v as int).len())),
{
    let r = render_i64(v as int);
    if v < 0 {
        let m = (-(v as int)) as nat;
        lemma_render_u64_digits(m);
        let u = render_u64(m);
        assert(r =~= seq!['-'] + u);
        lemma_matches_split(s, i, seq!['-'], u);
        assert(s[i] == '-') by {
            assert(s.subrange(i, i + 1) =~= seq!['-']);
            assert(s.subrange(i, i + 1)[0] == s[i]);
        }
        let a = i + 1;
        let b = a + u.len();
        assert(s.subrange(a, b) =~= u);
        assert(forall|k: int| a <= k < b ==> s[k] == u[k - a] && is_digit(s[k])) by {
            assert(forall|k: int| a <= k < b ==> s.subrange(a, b)[k - a] == s[k]);
        }
        assert(is_digit(s[i + 1]));
        assert(digits_val(s.subrange(a, b)) == m);
        assert(0 * pow10((b - a) as nat) == 0) by (nonlinear_arith);
        assert(m <= i64_min_abs());
        lemma_parse_digits_block(s, a, b, 0);
        assert(parse_digits(s, a, 0) == Some((m, b)));
        assert((-(m as int)) as i64 == v);
    } else {
        let m = v as nat;
        lemma_render_u64_digits(m);
        let u = render_u64(m);
        assert(r == u);
        let b = i + u.len();
        assert(s.subrange(i, b) =~= u);
        assert(forall|k: int| i <= k < b ==> s[k] == u[k - i] && is_digit(s[k])) by {
            assert(forall|k: int| i <= k < b ==> s.subrange(i, b)[k - i] == s[k]);
        }
        assert(is_digit(s[i]));
        assert(!(s[i] == '-'));
        assert(digits_val(s.subrange(i, b)) == m);
        assert(0 * pow10((b - i) as nat) == 0) by (nonlinear_arith);
        assert(m < i64_min_abs());
        lemma_parse_digits_block(s, i, b, 0);
        assert(parse_digits(s, i, 0) == Some((m, b)));
        assert(m as i64 == v);
    }
}

/// Parsing the rendering of a string gives back exactly that string.
pub proof fn lemma_parse_string_render(s: Seq<char>, i: int, v: Seq<char>)
    requires
        matches_at(s, render_string(v), i),
    ensures
        parse_string(s, i) == Some((v, i + render_string(v).len())),
{
    assert(render_string(v) =~= seq!['"'] + (esc(v) + seq!['"']));
    lemma_matches_split(s, i, seq!['"'], esc(v) + seq!['"']);
    assert(s[i] == '"') by {
        assert(s.subrange(i, i + 1) =~= seq!['"']);
        assert(s.subrange(i, i + 1)[0] == s[i]);
    }
    lemma_parse_body_render(s, i + 1, v);
}

// ---------------------------------------------------------------
// optional values
// ---------------------------------------------------------------

/// The rendering of an optional string: `null` or the quoted string.
pub open spec fn render_opt_string(o: Option<Seq<char>>) -> Seq<char> {
    match o {
        None => "null"@,
        Some(s) => render_string(s),
    }
}

/// Consumes `null` or a quoted string.
pub open spec fn parse_opt_string(s: Seq<char>, i: int) -> Option<(Option<Seq<char>>, int)> {
    if 0 <= i < s.len() && s[i] == '"' {
        match parse_string(s, i) {
            None => None,
            Some((v, j)) => Some((Some(v), j)),
        }
    } else {
        match parse_lit(s, i, "null"@) {
            None => None,
            Some(j) => Some((None, j)),
        }
    }
}

/// Parsing the rendering of an optional string gives it back.
pub proof fn lemma_parse_opt_string_render(s: Seq<char>, i: int, o: Option<Seq<char>>)
    requires
        matches_at(s, render_opt_string(o), i),
    ensures
        parse_opt_string(s, i) == Some((o, i + render_opt_string(o).len())),
{
    reveal_strlit("null");
    match o {
        None => {
            assert(s[i] == 'n') by {
                assert(s.subrange(i, i + 4)["null"@.len() - 4] == "null"@[0]);
            }
        },
        Some(v) => {
            assert(render_string(v) =~= seq!['"'] + (esc(v) + seq!['"']));
            lemma_matches_split(s, i, seq!['"'], esc(v) + seq!['"']);
            assert(s[i] == '"') by {
                assert(s.subrange(i, i + 1) =~= seq!['"']);
                assert(s.subrange(i, i + 1)[0] == s[i]);
            }
            lemma_parse_string_render(s, i, v);
        },
    }
}

/// The rendering of an optional signed value: `null` or its decimal.
pub open spec fn render_opt_i64(o: Option<i64>) -> Seq<char> {
    match o {
        None => "null"@,
        Some(v) => render_i64(v as int),
    }
}

/// Consumes `null` or a signed decimal number.
pub open spec fn parse_opt_i64(s: Seq<char>, i: int) -> Option<(Option<i64>, int)> {
    if 0 <= i < s.len() && (s[i] == '-' || is_digit(s[i])) {
        match parse_i64(s, i) {
            None => None,
            Some((v, j)) => Some((Some(v), j)),
        }
    } else {
        match parse_lit(s, i, "null"@) {
            None => None,
            Some(j) => Some((None, j)),
        }
    }
}

/// Parsing the rendering of an optional signed value gives it back.
pub proof fn lemma_parse_opt_i64_render(s: Seq<char>, i: int, o: Option<i64>)
    requires
        matches_at(s, render_opt_i64(o), i),
        i + render_opt_i64(o).len() == s.len() || !is_digit(s[i + render_opt_i64(o).len()]),
    ensures
        parse_opt_i64(s, i) == Some((o, i + render_opt_i64(o).len())),
{
    reveal_strlit("null");
    match o {
        None => {
            assert(s[i] == 'n') by {
                assert(s.subrange(i, i + 4)[0] == "null"@[0]);
            }
            assert(!is_digit('n'));
        },
        Some(v) => {
            let r = render_i64(v as int);
            if v < 0 {
                assert(r =~= seq!['-'] + render_u64((-(v as int)) as nat));
                assert(s[i] == '-') by {
                    assert(s.subrange(i, i + r.len() as int)[0] == r[0]);
                }
            } else {
                lemma_render_u64_digits(v as nat);
                assert(is_digit(s[i])) by {
                    assert(s.subrange(i, i + r.len() as int)[0] == r[0]);
                    assert(is_digit(r[0]));
                }
            }
            lemma_parse_i64_render(s, i, v);
        },
    }
}

// ---------------------------------------------------------------
// string arrays
// ---------------------------------------------------------------

/// The renderings of the items of a string array, separated by commas.
pub open spec fn render_str_items(a: Seq<Seq<char>>) -> Seq<char>
    decreases a.len(),
{
    if a.len() == 0 {
        Seq::empty()
    } else if a.len() == 1 {
        render_string(a[0])
    } else {
        render_string(a[0]) + ", "@ + render_str_items(a.drop_first())
    }
}

/// The rendering of a string array.
pub open spec fn render_str_array(a: Seq<Seq<char>>) -> Seq<char> {
    if a.len() == 0 {
        "[]"@
    } else {
        "["@ + render_str_items(a) + "]"@
    }
}

/// Consumes the items of a non-empty string array up to and including
/// the closing bracket.
pub open spec fn parse_str_items(s: Seq<char>, i: int) -> Option<(Seq<Seq<char>>, int)>
    decreases s.len() - i,
{
    match parse_string(s, i) {
        None => None,
        Some((v, j)) => {
            if matches_at(s, ", "@, j) && j + 2 <= s.len() {
                proof {
                    lemma_parse_string_advances(s, i);
                }
                match parse_str_items(s, j + 2) {
                    None => None,
                    Some((rest, e)) => Some((seq![v] + rest, e)),
                }
            } else if j < s.len() && s[j] == ']' {
                Some((seq![v], j + 1))
            } else {
                None
            }
        },
    }
}

/// Consumes a string array.
pub open spec fn parse_str_array(s: Seq<char>, i: int) -> Option<(Seq<Seq<char>>, int)> {
    if matches_at(s, "[]"@, i) {
        Some((Seq::empty(), i + 2))
    } else {
        match parse_lit(s, i, "["@) {
            None => None,
            Some(j) => parse_str_items(s, j),
        }
    }
}

/// Parsing the rendered items of a non-empty array, delimited by the
/// closing bracket, gives back exactly those items.
pub proof fn lemma_parse_str_items_render(s: Seq<char>, i: int, a: Seq<Seq<char>>)
    requires
        a.len() >= 1,
        matches_at(s, render_str_items(a), i),
        i + render_str_items(a).len() < s.len(),
        s[i + render_str_items(a).len()] == ']',
    ensures
        parse_str_items(s, i) == Some((a, i + render_str_items(a).len() + 1)),
    decreases a.len(),
{
    reveal_strlit(", ");
    if a.len() == 1 {
        lemma_parse_string_render(s, i, a[0]);
        let j = i + render_string(a[0]).len();
        assert(s[j] == ']');
        assert(!matches_at(s, ", "@, j)) by {
            if matches_at(s, ", "@, j) {
                assert(s.subrange(j, j + 2)[0] == ", "@[0]);
            }
        }
        assert(seq![a[0]] =~= a);
    } else {
        let head = render_string(a[0]);
        let tail = render_str_items(a.drop_first());
        assert(render_str_items(a) =~= head + (", "@ + tail));
        lemma_matches_split(s, i, head, ", "@ + tail);
        lemma_matches_split(s, i + head.len(), ", "@, tail);
        lemma_parse_string_render(s, i, a[0]);
        let j = i + head.len();
        assert(matches_at(s, ", "@, j));
        lemma_parse_str_items_render(s, j + 2, a.drop_first());
        assert(seq![a[0]] + a.drop_first() =~= a);
    }
}

/// Parsing the rendering of a string array gives it back.
pub proof fn lemma_parse_str_array_render(s: Seq<char>, i: int, a: Seq<Seq<char>>)
    requires
        matches_at(s, render_str_array(a), i),
    ensures
        parse_str_array(s, i) == Some((a, i + render_str_array(a).len())),
{
    reveal_strlit("[]");
    reveal_strlit("[");
    reveal_strlit("]");
    if a.len() == 0 {
        assert(a =~= Seq::<Seq<char>>::empty());
    } else {
        let items = render_str_items(a);
        assert(render_str_array(a) =~= "["@ + (items + "]"@));
        lemma_matches_split(s, i, "["@, items + "]"@);
        lemma_matches_split(s, i + 1, items, "]"@);
        assert(items.len() >= 1) by {
            assert(render_string(a[0]).len() >= 2);
            if a.len() > 1 {
                assert(items == render_string(a[0]) + ", "@ + render_str_items(a.drop_first()));
            }
        }
        assert(s[i + 1] == '"') by {
            assert(s.subrange(i + 1, i + 1 + items.len() as int)[0] == items[0]);
            if a.len() == 1 {
                assert(items[0] == render_string(a[0])[0]);
            } else {
                assert(items[0] == (render_string(a[0]) + ", "@ + render_str_items(
                    a.drop_first(),
                ))[0]);
                assert(items[0] == render_string(a[0])[0]);
            }
            assert(render_string(a[0])[0] == '"');
        }
        assert(!matches_at(s, "[]"@, i)) by {
            if matches_at(s, "[]"@, i) {
                assert(s.subrange(i, i + 2)[1] == "[]"@[1]);
                assert(s.subrange(i + 1, i + 1 + items.len() as int)[0] == items[0]);
            }
        }
        let e = i + 1 + items.len();
        assert(s[e] == ']') by {
            assert(s.subrange(e, e + 1)[0] == "]"@[0]);
        }
        lemma_parse_str_items_render(s, i + 1, a);
    }
}

/// The rendering of an optional string array: `null` or the array.
pub open spec fn render_opt_str_array(o: Option<Seq<Seq<char>>>) -> Seq<char> {
    match o {
        None => "null"@,
        Some(a) => render_str_array(a),
    }
}

/// Consumes `null` or a string array.
pub open spec fn parse_opt_str_array(s: Seq<char>, i: int) -> Option<
    (Option<Seq<Seq<char>>>, int),
> {
    if 0 <= i < s.len() && s[i] == '[' {
        match parse_str_array(s, i) {
            None => None,
            Some((a, j)) => Some((Some(a), j)),
        }
    } else {
        match parse_lit(s, i, "null"@) {
            None => None,
            Some(j) => Some((None, j)),
        }
    }
}

// ---------------------------------------------------------------
// executable rendering
// ---------------------------------------------------------------

/// Appends the quoted, escaped rendering of `s`.
pub fn push_json_string(out: &mut Vec<char>, s: &String)
    ensures
        final(out)@ == old(out)@ + render_string(s@),
{
    let cs = string_to_chars(s.as_str());
    out.push('"');
    let n = cs.len();
    let mut k: usize = 0;
    proof {
        assert(esc(s@.subrange(0, 0)) =~= Seq::<char>::empty());
        assert(out@ =~= old(out)@ + seq!['"'] + esc(s@.subrange(0, 0)));
    }
    while k < n
        invariant
            k <= n == s@.len(),
            cs@ == s@,
            out@ == old(out)@ + seq!['"'] + esc(s@.subrange(0, k as int)),
        decreases n - k,
    {
        let c = cs[k];
        if c == '"' {
            out.push('\\');
            out.push('"');
        } else if c == '\\' {
            out.push('\\');
            out.push('\\');
        } else if c == '\n' {
            out.push('\\');
            out.push('n');
        } else if c == '\r' {
            out.push('\\');
            out.push('r');
        } else if c == '\t' {
            out.push('\\');
            out.push('t');
        } else {
            out.push(c);
        }
        k = k + 1;
        proof {
            let pre = s@.subrange(0, k - 1);
            let post = s@.subrange(0, k as int);
            assert(post =~= pre + seq![s@[k - 1]]);
            lemma_esc_concat(pre, seq![s@[k - 1]]);
            assert(esc(seq![s@[k - 1]]) =~= esc_char(s@[k - 1])) by {
                assert(seq![s@[k - 1]].drop_first() =~= Seq::<char>::empty());
                assert(esc_char(s@[k - 1]) + esc(Seq::<char>::empty()) =~= esc_char(s@[k - 1]));
            }
            assert(out@ =~= old(out)@ + seq!['"'] + esc(post));
        }
    }
    proof {
        assert(s@.subrange(0, n as int) =~= s@);
    }
    out.push('"');
    proof {
        assert(out@ =~= old(out)@ + render_string(s@));
    }
}

/// Appends the decimal rendering of an unsigned value.
pub fn push_decimal_u64(out: &mut Vec<char>, n: u64)
    ensures
        final(out)@ == old(out)@ + render_u64(n as nat),
    decreases n,
{
    if n < 10 {
        let d: u8 = 48 + (n as u8);
        out.push(d as char);
        proof {
            assert(out@ =~= old(out)@ + render_u64(n as nat));
        }
    } else {
        push_decimal_u64(out, n / 10);
        let d: u8 = 48 + ((n % 10) as u8);
        out.push(d as char);
        proof {
            assert(out@ =~= old(out)@ + render_u64(n as nat));
        }
    }
}

/// Appends the decimal rendering of a signed value.
pub fn push_decimal_i64(out: &mut Vec<char>, v: i64)
    ensures
        final(out)@ == old(out)@ + render_i64(v as int),
{
    if v >= 0 {
        push_decimal_u64(out, v as u64);
    } else {
        out.push('-');
        let mag: u64 = ((-(v + 1)) as u64) + 1;
        proof {
            assert(mag as nat == (-(v as int)) as nat);
        }
        push_decimal_u64(out, mag);
        proof {
            assert(out@ =~= old(out)@ + render_i64(v as int));
        }
    }
}

/// Appends `null` or the quoted rendering of the string.
pub fn push_opt_string(out: &mut Vec<char>, o: &Option<String>)
    ensures
        final(out)@ == old(out)@ + render_opt_string(o.deep_view()),
{
    match o {
        None => push_str_chars(out, "null"),
        Some(s) => push_json_string(out, s),
    }
}

/// Appends `null` or the decimal rendering of the value.
pub fn push_opt_i64(out: &mut Vec<char>, o: Option<i64>)
    ensures
        final(out)@ == old(out)@ + render_opt_i64(o),
{
    match o {
        None => push_str_chars(out, "null"),
        Some(v) => push_decimal_i64(out, v),
    }
}

/// Comma-separated items distribute over splitting the item list.
pub proof fn lemma_items_concat(x: Seq<Seq<char>>, y: Seq<Seq<char>>)
    requires
        x.len() > 0,
        y.len() > 0,
    ensures
        render_str_items(x + y) == render_str_items(x) + ", "@ + render_str_items(y),
    decreases x.len(),
{
    let xy = x + y;
    assert(xy.len() >= 2);
    assert(xy[0] == x[0]);
    if x.len() == 1 {
        assert(xy.drop_first() =~= y);
    } else {
        assert(xy.drop_first() =~= x.drop_first() + y);
        lemma_items_concat(x.drop_first(), y);
        assert(render_string(x[0]) + ", "@ + (render_str_items(x.drop_first()) + ", "@
            + render_str_items(y)) =~= (render_string(x[0]) + ", "@ + render_str_items(
            x.drop_first(),
        )) + ", "@ + render_str_items(y));
    }
}

/// Appends the rendering of a string array.
pub fn push_str_array(out: &mut Vec<char>, a: &Vec<String>)
    ensures
        final(out)@ == old(out)@ + render_str_array(a.deep_view()),
{
    let n = a.len();
    if n == 0 {
        push_str_chars(out, "[]");
        return ;
    }
    push_str_chars(out, "[");
    push_json_string(out, &a[0]);
    proof {
        assert(a.deep_view().subrange(0, 1) =~= seq![a.deep_view()[0]]);
        assert(render_str_items(a.deep_view().subrange(0, 1)) == render_string(a.deep_view()[0]));
        assert(out@ =~= old(out)@ + "["@ + render_str_items(a.deep_view().subrange(0, 1)));
    }
    let mut k: usize = 1;
    while k < n
        invariant
            1 <= k <= n == a@.len(),
            out@ == old(out)@ + "["@ + render_str_items(a.deep_view().subrange(0, k as int)),
        decreases n - k,
    {
        push_str_chars(out, ", ");
        push_json_string(out, &a[k]);
        k = k + 1;
        proof {
            let pre = a.deep_view().subrange(0, k - 1);
            let single = a.deep_view().subrange(k - 1, k as int);
            let post = a.deep_view().subrange(0, k as int);
            assert(post =~= pre + single);
            assert(single =~= seq![a.deep_view()[k - 1]]);
            assert(render_str_items(single) == render_string(a.deep_view()[k - 1]));
            lemma_items_concat(pre, single);
            assert(out@ =~= old(out)@ + "["@ + render_str_items(post));
        }
    }
    proof {
        assert(a.deep_view().subrange(0, n as int) =~= a.deep_view());
    }
    push_str_chars(out, "]");
    proof {
        assert(out@ =~= old(out)@ + render_str_array(a.deep_view()));
    }
}

/// Appends `null` or the rendering of the string array.
pub fn push_opt_str_array(out: &mut Vec<char>, a: &Option<Vec<String>>)
    ensures
        final(out)@ == old(out)@ + render_opt_str_array(a.deep_view()),
{
    match a {
        None => push_str_chars(out, "null"),
        Some(v) => push_str_array(out, v),
    }
}

// ---------------------------------------------------------------
// executable parsing
// ---------------------------------------------------------------

/// The numeric value of a digit character, if it is one.
pub fn digit_of(c: char) -> (r: Option<u64>)
    ensures
        match r {
            Some(d) => is_digit(c) && d == digit_val(c),
            None => !is_digit(c),
        },
{
    if c == '0' {
        Some(0)
    } else if c == '1' {
        Some(1)
    } else if c == '2' {
        Some(2)
    } else if c == '3' {
        Some(3)
    } else if c == '4' {
        Some(4)
    } else if c == '5' {
        Some(5)
    } else if c == '6' {
        Some(6)
    } else if c == '7' {
        Some(7)
    } else if c == '8' {
        Some(8)
    } else if c == '9' {
        Some(9)
    } else {
        None
    }
}

/// Consumes the exact text `lit` at position `i`.
pub fn parse_lit_exec(s: &Vec<char>, i: usize, lit: &str) -> (r: Option<usize>)
    ensures
        match r {
            Some(j) => parse_lit(s@, i as int, lit@) == Some(j as int) && i <= j <= s@.len(),
            None => parse_lit(s@, i as int, lit@) is None,
        },
{
    let n = lit.unicode_len();
    if n > s.len() || i > s.len() - n {
        proof {
            assert(!matches_at(s@, lit@, i as int));
        }
        return None;
    }
    let mut k: usize = 0;
    while k < n
        invariant
            k <= n == lit@.len(),
            i + n <= s@.len(),
            s@.len() <= usize::MAX,
            s@.subrange(i as int, i + k) == lit@.subrange(0, k as int),
        decreases n - k,
    {
        if s[i + k] != lit.get_char(k) {
            proof {
                if matches_at(s@, lit@, i as int) {
                    assert(s@.subrange(i as int, i + lit@.len())[k as int] == lit@[k as int]);
                }
            }
            return None;
        }
        k = k + 1;
        proof {
            assert(s@.subrange(i as int, i + k) =~= lit@.subrange(0, k as int));
        }
    }
    proof {
        assert(s@.subrange(i as int, i + n) =~= lit@);
        assert(matches_at(s@, lit@, i as int));
    }
    Some(i + n)
}

/// Consumes a quoted JSON string.
pub fn parse_string_exec(s: &Vec<char>, i: usize) -> (r: Option<(String, usize)>)
    ensures
        match r {
            Some((v, j)) => parse_string(s@, i as int) == Some((v@, j as int)) && i < j <= s@.len(),
            None => parse_string(s@, i as int) is None,
        },
{
    if i >= s.len() || s[i] != '"' {
        return None;
    }
    let start = i + 1;
    let mut cur: usize = start;
    let mut acc: Vec<char> = Vec::new();
    proof {
        assert(acc@ =~= Seq::<char>::empty());
    }
    loop
        invariant
            start <= cur <= s@.len(),
            start == i + 1,
            i < s@.len(),
            s@[i as int] == '"',
            forall|t: Seq<char>, j: int|
                parse_string_body(s@, cur as int) == Some((t, j)) ==> parse_string_body(
                    s@,
                    start as int,
                ) == Some((acc@ + t, j)),
            parse_string_body(s@, cur as int) is None ==> parse_string_body(s@, start as int)
                is None,
        decreases s@.len() - cur,
    {
        if cur >= s.len() {
            return None;
        }
        let c = s[cur];
        if c == '"' {
            proof {
                assert(parse_string_body(s@, cur as int) == Some((Seq::<char>::empty(), cur + 1)));
                assert(acc@ + Seq::<char>::empty() =~= acc@);
            }
            let v = chars_to_string(&acc);
            proof {
                lemma_parse_body_bounds(s@, start as int);
            }
            return Some((v, cur + 1));
        } else if c == '\\' {
            if cur + 1 >= s.len() {
                return None;
            }
            let e = s[cur + 1];
            let ch: char = if e == '"' {
                '"'
            } else if e == '\\' {
                '\\'
            } else if e == 'n' {
                '\n'
            } else if e == 'r' {
                '\r'
            } else if e == 't' {
                '\t'
            } else {
                return None;
            };
            proof {
                assert(unesc_char(s@[cur + 1]) == Some(ch));
            }
            let ghost acc0 = acc@;
            acc.push(ch);
            let ghost oldcur = cur as int;
            cur = cur + 2;
            proof {
                assert forall|t: Seq<char>, j: int|
                    parse_string_body(s@, cur as int) == Some((t, j)) implies parse_string_body(
                    s@,
                    start as int,
                ) == Some((acc@ + t, j)) by {
                    assert(parse_string_body(s@, oldcur) == Some((seq![ch] + t, j)));
                    assert(acc0 + (seq![ch] + t) =~= acc@ + t);
                }
            }
        } else {
            let ghost acc0 = acc@;
            acc.push(c);
            let ghost oldcur = cur as int;
            cur = cur + 1;
            proof {
                assert forall|t: Seq<char>, j: int|
                    parse_string_body(s@, cur as int) == Some((t, j)) implies parse_string_body(
                    s@,
                    start as int,
                ) == Some((acc@ + t, j)) by {
                    assert(parse_string_body(s@, oldcur) == Some((seq![c] + t, j)));
                    assert(acc0 + (seq![c] + t) =~= acc@ + t);
                }
            }
        }
    }
}

/// Consumes decimal digits, accumulating onto `acc`.
pub fn parse_digits_exec(s: &Vec<char>, i: usize, acc: u64) -> (r: Option<(u64, usize)>)
    requires
        acc <= 0x8000_0000_0000_0000,
    ensures
        match r {
            Some((m, j)) => parse_digits(s@, i as int, acc as nat) == Some((m as nat, j as int))
                && m <= 0x8000_0000_0000_0000 && i <= j && (i <= s@.len() ==> j <= s@.len()),
            None => parse_digits(s@, i as int, acc as nat) is None,
        },
{
    if i >= s.len() {
        proof {
            assert(parse_digits(s@, i as int, acc as nat) == Some((acc as nat, i as int)));
        }
        return Some((acc, i));
    }
    let mut cur: usize = i;
    let mut a: u64 = acc;
    loop
        invariant
            i <= cur <= s@.len(),
            a <= 0x8000_0000_0000_0000,
            parse_digits(s@, i as int, acc as nat) == parse_digits(s@, cur as int, a as nat),
        ensures
            i <= cur <= s@.len(),
            a <= 0x8000_0000_0000_0000,
            parse_digits(s@, i as int, acc as nat) == parse_digits(s@, cur as int, a as nat),
            cur == s@.len() || !is_digit(s@[cur as int]),
        decreases s@.len() - cur,
    {
        if cur >= s.len() {
            break ;
        }
        let d: u64 = match digit_of(s[cur]) {
            None => {
                break ;
            },
            Some(d) => d,
        };
        let limit: u64 = 0x8000_0000_0000_0000;
        if a > (limit - d) / 10 {
            proof {
                assert(a * 10 + d > limit) by (nonlinear_arith)
                    requires
                        a > (limit - d) / 10,
                        0 <= d <= 9,
                        limit == 0x8000_0000_0000_0000,
                        a >= 0,
                ;
            }
            return None;
        }
        proof {
            assert(a * 10 + d <= limit) by (nonlinear_arith)
                requires
                    a <= (limit - d) / 10,
                    0 <= d <= 9,
                    limit == 0x8000_0000_0000_0000,
                    a >= 0,
            ;
        }
        a = a * 10 + d;
        cur = cur + 1;
    }
    proof {
        assert(parse_digits(s@, cur as int, a as nat) == Some((a as nat, cur as int)));
    }
    Some((a, cur))
}

/// Consumes a signed decimal number that fits in 64 bits.
pub fn parse_i64_exec(s: &Vec<char>, i: usize) -> (r: Option<(i64, usize)>)
    ensures
        match r {
            Some((v, j)) => parse_i64(s@, i as int) == Some((v, j as int)) && i < j <= s@.len(),
            None => parse_i64(s@, i as int) is None,
        },
{
    if i >= s.len() {
        return None;
    }
    let c0 = s[i];
    if c0 == '-' {
        if i + 1 >= s.len() {
            return None;
        }
        if digit_of(s[i + 1]).is_none() {
            return None;
        }
        match parse_digits_exec(s, i + 1, 0) {
            None => None,
            Some((m, j)) => {
                let v: i64 = if m == 0x8000_0000_0000_0000 {
                    i64::MIN
                } else {
                    -(m as i64)
                };
                proof {
                    assert(v == (-(m as int)) as i64);
                    assert(j > i);
                }
                Some((v, j))
            },
        }
    } else {
        if digit_of(c0).is_none() {
            return None;
        }
        match parse_digits_exec(s, i, 0) {
            None => None,
            Some((m, j)) => {
                if m < 0x8000_0000_0000_0000 {
                    proof {
                        let d = digit_val(s@[i as int]);
                        lemma_parse_digits_lo(s@, i + 1, d as nat);
                        assert(j > i);
                    }
                    Some((m as i64, j))
                } else {
                    None
                }
            },
        }
    }
}

/// Consumes `null` or a quoted string.
pub fn parse_opt_string_exec(s: &Vec<char>, i: usize) -> (r: Option<(Option<String>, usize)>)
    ensures
        match r {
            Some((v, j)) => parse_opt_string(s@, i as int) == Some((v.deep_view(), j as int)) && i
                < j <= s@.len(),
            None => parse_opt_string(s@, i as int) is None,
        },
{
    if i < s.len() && s[i] == '"' {
        match parse_string_exec(s, i) {
            None => None,
            Some((v, j)) => Some((Some(v), j)),
        }
    } else {
        proof {
            reveal_strlit("null");
        }
        match parse_lit_exec(s, i, "null") {
            None => None,
            Some(j) => Some((None, j)),
        }
    }
}

/// Consumes `null` or a signed decimal number.
pub fn parse_opt_i64_exec(s: &Vec<char>, i: usize) -> (r: Option<(Option<i64>, usize)>)
    ensures
        match r {
            Some((v, j)) => parse_opt_i64(s@, i as int) == Some((v, j as int)) && i < j <= s@.len(),
            None => parse_opt_i64(s@, i as int) is None,
        },
{
    if i < s.len() && (s[i] == '-' || digit_of(s[i]).is_some()) {
        match parse_i64_exec(s, i) {
            None => None,
            Some((v, j)) => Some((Some(v), j)),
        }
    } else {
        proof {
            if i < s@.len() {
                assert(!(s@[i as int] == '-' || is_digit(s@[i as int])));
            }
            reveal_strlit("null");
        }
        match parse_lit_exec(s, i, "null") {
            None => None,
            Some(j) => Some((None, j)),
        }
    }
}

/// Consumes a string array.
pub fn parse_str_array_exec(s: &Vec<char>, i: usize) -> (r: Option<(Vec<String>, usize)>)
    ensures
        match r {
            Some((v, j)) => parse_str_array(s@, i as int) == Some((v.deep_view(), j as int)) && i
                < j <= s@.len(),
            None => parse_str_array(s@, i as int) is None,
        },
{
    proof {
        reveal_strlit("[]");
        reveal_strlit("[");
    }
    match parse_lit_exec(s, i, "[]") {
        Some(j) => {
            let empty: Vec<String> = Vec::new();
            proof {
                assert(empty.deep_view() =~= Seq::<Seq<char>>::empty());
            }
            return Some((empty, j));
        },
        None => {},
    }
    let start = match parse_lit_exec(s, i, "[") {
        None => {
            return None;
        },
        Some(j) => j,
    };
    let mut acc: Vec<String> = Vec::new();
    let mut cur: usize = start;
    proof {
        assert(acc.deep_view() =~= Seq::<Seq<char>>::empty());
    }
    loop
        invariant
            i < start <= cur <= s@.len(),
            parse_str_array(s@, i as int) == (match parse_str_items(s@, cur as int) {
                Some((rest, e)) => Some(((acc.deep_view() + rest), e)),
                None => None::<(Seq<Seq<char>>, int)>,
            }),
        decreases s@.len() - cur,
    {
        let item = match parse_string_exec(s, cur) {
            None => {
                return None;
            },
            Some(p) => p,
        };
        let v = item.0;
        let nx = item.1;
        proof {
            reveal_strlit(", ");
            reveal_strlit("]");
        }
        match parse_lit_exec(s, nx, ", ") {
            Some(k) => {
                let ghost acc0 = acc.deep_view();
                acc.push(v);
                proof {
                    assert(acc.deep_view() =~= acc0.push(v@));
                    assert forall|rest: Seq<Seq<char>>, e: int|
                        parse_str_items(s@, k as int) == Some((rest, e)) implies parse_str_items(
                        s@,
                        cur as int,
                    ) == Some((seq![v@] + rest, e)) by {}
                    assert forall|rest: Seq<Seq<char>>, e: int|
                        parse_str_items(s@, k as int) == Some((rest, e)) implies acc0 + (seq![v@]
                        + rest) =~= acc.deep_view() + rest by {}
                }
                cur = k;
            },
            None => {
                if nx < s.len() && s[nx] == ']' {
                    proof {
                        assert(parse_str_items(s@, cur as int) == Some(
                            (seq![v@], nx + 1 as int),
                        ));
                        let ghost acc0 = acc.deep_view();
                        assert(acc0 + seq![v@] =~= acc0.push(v@));
                    }
                    let ghost acc0 = acc.deep_view();
                    acc.push(v);
                    proof {
                        assert(acc.deep_view() =~= acc0.push(v@));
                    }
                    return Some((acc, nx + 1));
                } else {
                    proof {
                        assert(parse_str_items(s@, cur as int) is None);
                    }
                    return None;
                }
            },
        }
    }
}

/// Consumes `null` or a string array.
pub fn parse_opt_str_array_exec(s: &Vec<char>, i: usize) -> (r: Option<
    (Option<Vec<String>>, usize),
>)
    ensures
        match r {
            Some((v, j)) => parse_opt_str_array(s@, i as int) == Some((v.deep_view(), j as int))
                && i < j <= s@.len(),
            None => parse_opt_str_array(s@, i as int) is None,
        },
{
    if i < s.len() && s[i] == '[' {
        match parse_str_array_exec(s, i) {
            None => None,
            Some((v, j)) => Some((Some(v), j)),
        }
    } else {
        proof {
            reveal_strlit("null");
        }
        match parse_lit_exec(s, i, "null") {
            None => None,
            Some(j) => Some((None, j)),
        }
    }
}

/// Parsing the rendering of an optional string array gives it back.
pub proof fn lemma_parse_opt_str_array_render(s: Seq<char>, i: int, o: Option<Seq<Seq<char>>>)
    requires
        matches_at(s, render_opt_str_array(o), i),
    ensures
        parse_opt_str_array(s, i) == Some((o, i + render_opt_str_array(o).len())),
{
    reveal_strlit("null");
    reveal_strlit("[]");
    reveal_strlit("[");
    match o {
        None => {
            assert(s[i] == 'n') by {
                assert(s.subrange(i, i + 4)[0] == "null"@[0]);
            }
        },
        Some(a) => {
            let r = render_str_array(a);
            assert(s[i] == '[') by {
                assert(s.subrange(i, i + r.len() as int)[0] == r[0]);
                if a.len() == 0 {
                } else {
                    assert(r == "["@ + render_str_items(a) + "]"@);
                    assert(r[0] == "["@[0]);
                }
            }
            lemma_parse_str_array_render(s, i, a);
        },
    }
}

} // verus!
