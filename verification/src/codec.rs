//! The structured-text codec the crate persists with: a small JSON-shaped
//! grammar covering strings (with escapes), booleans, numbers and the two
//! document shapes (stored tokens and configurations). The encoders and
//! parsers are verified against one spec-level grammar, and parsing an
//! encoded document is proved to give the original value back.

use vstd::prelude::*;

verus! {

/// Relies on `String::push`: appends the given character to the end of the
/// string.
#[verifier::external_body]
pub fn push_char(out: &mut String, c: char)
    ensures
        final(out)@ == old(out)@.push(c),
{
    out.push(c);
}

// ---- the spec-level grammar: encoders ----

/// How one character is written inside a quoted string.
pub open spec fn esc_char(c: char) -> Seq<char> {
    if c == '"' {
        seq!['\\', '"']
    } else if c == '\\' {
        seq!['\\', '\\']
    } else {
        seq![c]
    }
}

/// How a character sequence is written inside a quoted string.
pub open spec fn esc(s: Seq<char>) -> Seq<char>
    decreases s.len(),
{
    if s.len() == 0 {
        Seq::empty()
    } else {
        esc_char(s[0]) + esc(s.drop_first())
    }
}

/// A quoted, escaped string.
pub open spec fn enc_string(s: Seq<char>) -> Seq<char> {
    seq!['"'] + esc(s) + seq!['"']
}

/// An optional string: the string, or the word `null`.
pub open spec fn enc_opt_string(o: Option<Seq<char>>) -> Seq<char> {
    match o {
        Some(s) => enc_string(s),
        None => "null"@,
    }
}

/// A boolean, written `true` or `false`.
pub open spec fn enc_bool(b: bool) -> Seq<char> {
    if b {
        "true"@
    } else {
        "false"@
    }
}

/// The digit character for one decimal digit.
pub open spec fn digit_char(d: int) -> char {
    if d == 0 {
        '0'
    } else if d == 1 {
        '1'
    } else if d == 2 {
        '2'
    } else if d == 3 {
        '3'
    } else if d == 4 {
        '4'
    } else if d == 5 {
        '5'
    } else if d == 6 {
        '6'
    } else if d == 7 {
        '7'
    } else if d == 8 {
        '8'
    } else {
        '9'
    }
}

/// A non-negative number in decimal.
pub open spec fn enc_u32(n: int) -> Seq<char>
    decreases n,
{
    if n < 10 {
        seq![digit_char(n)]
    } else {
        enc_u32(n / 10) + seq![digit_char(n % 10)]
    }
}

// ---- the spec-level grammar: parsers ----

/// Whether this character is a decimal digit.
pub open spec fn is_digit(c: char) -> bool {
    '0' <= c <= '9'
}

/// The numeric value of a digit character.
pub open spec fn digit_val(c: char) -> int {
    c as int - '0' as int
}

/// Parses the remainder of a quoted string after the opening quote:
/// returns the unescaped content and how many characters were consumed,
/// the closing quote included.
pub open spec fn sp_string_body(t: Seq<char>) -> Option<(Seq<char>, int)>
    decreases t.len(),
{
    if t.len() == 0 {
        None
    } else if t[0] == '"' {
        Some((Seq::empty(), 1))
    } else if t[0] == '\\' {
        if t.len() < 2 {
            None
        } else if t[1] == '"' || t[1] == '\\' {
            match sp_string_body(t.skip(2)) {
                Some((s, n)) => Some((seq![t[1]] + s, n + 2)),
                None => None,
            }
        } else {
            None
        }
    } else {
        match sp_string_body(t.skip(1)) {
            Some((s, n)) => Some((seq![t[0]] + s, n + 1)),
            None => None,
        }
    }
}

/// Parses a quoted string.
pub open spec fn sp_string(t: Seq<char>) -> Option<(Seq<char>, int)> {
    if t.len() > 0 && t[0] == '"' {
        match sp_string_body(t.skip(1)) {
            Some((s, n)) => Some((s, n + 1)),
            None => None,
        }
    } else {
        None
    }
}

/// Parses exactly this literal text.
pub open spec fn sp_lit(t: Seq<char>, lit: Seq<char>) -> Option<int> {
    if t.len() >= lit.len() && t.take(lit.len() as int) == lit {
        Some(lit.len() as int)
    } else {
        None
    }
}

/// Parses an optional string: the word `null`, or a quoted string.
pub open spec fn sp_opt_string(t: Seq<char>) -> Option<(Option<Seq<char>>, int)> {
    match sp_lit(t, "null"@) {
        Some(n) => Some((None, n)),
        None => match sp_string(t) {
            Some((s, n)) => Some((Some(s), n)),
            None => None,
        },
    }
}

/// Parses `true` or `false`.
pub open spec fn sp_bool(t: Seq<char>) -> Option<(bool, int)> {
    match sp_lit(t, "true"@) {
        Some(n) => Some((true, n)),
        None => match sp_lit(t, "false"@) {
            Some(n) => Some((false, n)),
            None => None,
        },
    }
}

/// The length of the digit prefix of `t`.
pub open spec fn digits_len(t: Seq<char>) -> int
    decreases t.len(),
{
    if t.len() > 0 && is_digit(t[0]) {
        1 + digits_len(t.drop_first())
    } else {
        0
    }
}

/// The value of a digit sequence.
pub open spec fn digits_val(ds: Seq<char>) -> int
    decreases ds.len(),
{
    if ds.len() == 0 {
        0
    } else {
        digits_val(ds.drop_last()) * 10 + digit_val(ds.last())
    }
}

/// Parses a decimal number that fits a `u32`.
pub open spec fn sp_u32(t: Seq<char>) -> Option<(int, int)> {
    let k = digits_len(t);
    if k == 0 {
        None
    } else if digits_val(t.take(k)) <= u32::MAX as int {
        Some((digits_val(t.take(k)), k))
    } else {
        None
    }
}

// ---- lemmas: parsing an encoding yields the value back ----

/// Escaping distributes over concatenation.
pub proof fn lemma_esc_append(a: Seq<char>, b: Seq<char>)
    ensures
        esc(a + b) == esc(a) + esc(b),
    decreases a.len(),
{
    if a.len() == 0 {
        assert(a + b =~= b);
        assert(esc(a) + esc(b) =~= esc(b));
    } else {
        lemma_esc_append(a.drop_first(), b);
        assert((a + b).drop_first() =~= a.drop_first() + b);
        assert(esc(a + b) =~= esc(a) + esc(b));
    }
}

/// The string body parser undoes escaping: after `esc(s)` and the closing
/// quote, it returns `s` and stops exactly past the quote.
pub proof fn lemma_sp_body_esc(s: Seq<char>, rest: Seq<char>)
    ensures
        sp_string_body(esc(s) + seq!['"'] + rest) == Some::<(Seq<char>, int)>(
            (s, esc(s).len() + 1 as int),
        ),
    decreases s.len(),
{
    let t = esc(s) + seq!['"'] + rest;
    if s.len() == 0 {
        assert(esc(s) =~= Seq::<char>::empty());
        assert(t[0] == '"');
    } else {
        let c = s[0];
        let s1 = s.drop_first();
        lemma_sp_body_esc(s1, rest);
        assert(esc(s) == esc_char(c) + esc(s1));
        if c == '"' || c == '\\' {
            assert(t[0] == '\\');
            assert(t[1] == c);
            assert(t.skip(2) =~= esc(s1) + seq!['"'] + rest);
            assert(seq![t[1]] + s1 =~= s);
        } else {
            assert(t[0] == c);
            assert(t[0] != '"' && t[0] != '\\');
            assert(t.skip(1) =~= esc(s1) + seq!['"'] + rest);
            assert(seq![t[0]] + s1 =~= s);
        }
    }
}

/// The string parser undoes the string encoder.
pub proof fn lemma_sp_string_enc(s: Seq<char>, rest: Seq<char>)
    ensures
        sp_string(enc_string(s) + rest) == Some::<(Seq<char>, int)>((s, enc_string(s).len() as int)),
{
    let t = enc_string(s) + rest;
    assert(t[0] == '"');
    assert(t.skip(1) =~= esc(s) + seq!['"'] + rest);
    lemma_sp_body_esc(s, rest);
}

/// The literal parser accepts its literal.
pub proof fn lemma_sp_lit(lit: Seq<char>, rest: Seq<char>)
    ensures
        sp_lit(lit + rest, lit) == Some(lit.len() as int),
{
    assert((lit + rest).take(lit.len() as int) =~= lit);
}

/// The optional-string parser undoes the optional-string encoder.
pub proof fn lemma_sp_opt_string_enc(o: Option<Seq<char>>, rest: Seq<char>)
    ensures
        sp_opt_string(enc_opt_string(o) + rest) == Some::<(Option<Seq<char>>, int)>(
            (o, enc_opt_string(o).len() as int),
        ),
{
    let t = enc_opt_string(o) + rest;
    reveal_strlit("null");
    match o {
        Some(s) => {
            assert(t[0] == '"');
            if sp_lit(t, "null"@) is Some {
                assert(t.take(4)[0] == 'n');
                assert(false);
            }
            lemma_sp_string_enc(s, rest);
        },
        None => {
            lemma_sp_lit("null"@, rest);
        },
    }
}

/// The boolean parser undoes the boolean encoder.
pub proof fn lemma_sp_bool_enc(b: bool, rest: Seq<char>)
    ensures
        sp_bool(enc_bool(b) + rest) == Some::<(bool, int)>((b, enc_bool(b).len() as int)),
{
    reveal_strlit("true");
    reveal_strlit("false");
    let t = enc_bool(b) + rest;
    if b {
        lemma_sp_lit("true"@, rest);
    } else {
        lemma_sp_lit("false"@, rest);
        if sp_lit(t, "true"@) is Some {
            assert(t.take(4)[0] == 't');
            assert(false);
        }
    }
}

/// Every character a number encodes to is a digit, and the encoding is
/// never empty.
pub proof fn lemma_enc_u32_digits(n: int)
    requires
        n >= 0,
    ensures
        enc_u32(n).len() >= 1,
        forall|k: int| 0 <= k < enc_u32(n).len() ==> is_digit(#[trigger] enc_u32(n)[k]),
    decreases n,
{
    if n < 10 {
    } else {
        lemma_enc_u32_digits(n / 10);
        assert(forall|k: int|
            0 <= k < enc_u32(n / 10).len() ==> is_digit(#[trigger] enc_u32(n)[k]));
        assert(is_digit(enc_u32(n)[enc_u32(n).len() - 1]));
    }
}

/// The digit value of an encoded number is the number.
pub proof fn lemma_digits_val_enc(n: int)
    requires
        n >= 0,
    ensures
        digits_val(enc_u32(n)) == n,
    decreases n,
{
    if n < 10 {
        assert(enc_u32(n) == seq![digit_char(n)]);
        assert(enc_u32(n).len() == 1);
        assert(digits_val(enc_u32(n)) == digits_val(enc_u32(n).drop_last()) * 10 + digit_val(
            enc_u32(n).last(),
        ));
        assert(enc_u32(n).drop_last() =~= Seq::<char>::empty());
        assert(digits_val(Seq::<char>::empty()) == 0);
        assert(enc_u32(n).last() == digit_char(n));
        assert(digit_val(digit_char(n)) == n);
    } else {
        lemma_digits_val_enc(n / 10);
        assert(enc_u32(n).drop_last() =~= enc_u32(n / 10));
        assert(enc_u32(n).last() == digit_char(n % 10));
        assert(0 <= n % 10 < 10);
        assert(digit_val(digit_char(n % 10)) == n % 10);
        assert(n / 10 * 10 + n % 10 == n);
    }
}

/// The digit prefix of an encoded number followed by a non-digit is
/// exactly the encoding.
pub proof fn lemma_digits_len_concat(ds: Seq<char>, rest: Seq<char>)
    requires
        forall|k: int| 0 <= k < ds.len() ==> is_digit(#[trigger] ds[k]),
        rest.len() == 0 || !is_digit(rest[0]),
    ensures
        digits_len(ds + rest) == ds.len(),
    decreases ds.len(),
{
    let t = ds + rest;
    if ds.len() == 0 {
        assert(t =~= rest);
    } else {
        assert(is_digit(t[0]));
        lemma_digits_len_concat(ds.drop_first(), rest);
        assert(t.drop_first() =~= ds.drop_first() + rest);
    }
}

/// The number parser undoes the number encoder, provided what follows does
/// not begin with a digit.
pub proof fn lemma_sp_u32_enc(n: int, rest: Seq<char>)
    requires
        0 <= n <= u32::MAX as int,
        rest.len() == 0 || !is_digit(rest[0]),
    ensures
        sp_u32(enc_u32(n) + rest) == Some::<(int, int)>((n, enc_u32(n).len() as int)),
{
    let ds = enc_u32(n);
    let t = ds + rest;
    lemma_enc_u32_digits(n);
    lemma_digits_len_concat(ds, rest);
    assert(t.take(ds.len() as int) =~= ds);
    lemma_digits_val_enc(n);
}

// ---- executable encoders ----

/// Appends the escaped form of `s`.
fn write_escaped(out: &mut String, s: &str)
    ensures
        final(out)@ == old(out)@ + esc(s@),
{
    let ghost out0 = out@;
    let len = s.unicode_len();
    let mut i: usize = 0;
    proof {
        assert(esc(s@.take(0)) =~= Seq::<char>::empty());
        assert(out@ =~= out0 + esc(s@.take(0)));
    }
    while i < len
        invariant
            0 <= i <= len,
            len == s@.len(),
            out@ == out0 + esc(s@.take(i as int)),
        decreases len - i,
    {
        let c = s.get_char(i);
        if c == '"' || c == '\\' {
            push_char(out, '\\');
            push_char(out, c);
        } else {
            push_char(out, c);
        }
        proof {
            lemma_esc_append(s@.take(i as int), seq![s@[i as int]]);
            assert(s@.take(i as int) + seq![s@[i as int]] =~= s@.take(i + 1));
            assert(seq![s@[i as int]].drop_first() =~= Seq::<char>::empty());
            assert(esc(Seq::<char>::empty()) =~= Seq::<char>::empty());
            assert(esc(seq![s@[i as int]]) =~= esc_char(s@[i as int]));
            assert(out@ =~= out0 + esc(s@.take(i + 1)));
        }
        i = i + 1;
    }
    proof {
        assert(s@.take(len as int) =~= s@);
    }
}

/// Appends a quoted, escaped string.
fn write_string(out: &mut String, s: &str)
    ensures
        final(out)@ == old(out)@ + enc_string(s@),
{
    push_char(out, '"');
    write_escaped(out, s);
    push_char(out, '"');
    proof {
        assert(out@ =~= old(out)@ + enc_string(s@));
    }
}

/// Appends an optional string, `null` when absent.
fn write_opt_string(out: &mut String, o: &Option<String>)
    ensures
        final(out)@ == old(out)@ + enc_opt_string(o.deep_view()),
{
    match o {
        Some(s) => write_string(out, s.as_str()),
        None => {
            out.append("null");
        },
    }
}

/// Appends `true` or `false`.
fn write_bool(out: &mut String, b: bool)
    ensures
        final(out)@ == old(out)@ + enc_bool(b),
{
    if b {
        out.append("true");
    } else {
        out.append("false");
    }
}

/// The character for one decimal digit.
fn digit_to_char(d: u32) -> (r: char)
    requires
        d < 10,
    ensures
        r == digit_char(d as int),
{
    match d {
        0 => '0',
        1 => '1',
        2 => '2',
        3 => '3',
        4 => '4',
        5 => '5',
        6 => '6',
        7 => '7',
        8 => '8',
        _ => '9',
    }
}

/// Appends a number in decimal.
pub fn write_u32(out: &mut String, n: u32)
    ensures
        final(out)@ == old(out)@ + enc_u32(n as int),
    decreases n,
{
    if n < 10 {
        push_char(out, digit_to_char(n));
        proof {
            assert(out@ =~= old(out)@ + enc_u32(n as int));
        }
    } else {
        write_u32(out, n / 10);
        push_char(out, digit_to_char(n % 10));
        proof {
            assert(out@ =~= old(out)@ + enc_u32(n as int));
        }
    }
}

// ---- executable parsers ----

/// Parses a quoted string starting at `i`.
fn p_string(s: &str, i: usize) -> (r: Option<(String, usize)>)
    requires
        i <= s@.len(),
    ensures
        r is None <==> sp_string(s@.skip(i as int)) is None,
        r matches Some((v, j)) ==> sp_string(s@.skip(i as int)) matches Some(pair) && v@ == pair.0
            && i + pair.1 == j && i <= j <= s@.len(),
{
    let ghost t = s@.skip(i as int);
    let len = s.unicode_len();
    if i >= len || s.get_char(i) != '"' {
        return None;
    }
    let mut acc = String::new();
    let mut j = i + 1;
    proof {
        assert(t.skip(1) =~= s@.skip(i + 1));
    }
    while j < len
        invariant
            i + 1 <= j <= len,
            len == s@.len(),
            i < len,
            s@[i as int] == '"',
            t == s@.skip(i as int),
            t.len() == len - i,
            t[0] == '"',
            (match sp_string_body(s@.skip(j as int)) {
                Some(pair) => sp_string_body(t.skip(1)) == Some::<(Seq<char>, int)>(
                    (acc@ + pair.0, j - (i + 1) + pair.1),
                ),
                None => sp_string_body(t.skip(1)) is None,
            }),
        decreases len - j,
    {
        let ghost tj = s@.skip(j as int);
        let c = s.get_char(j);
        proof {
            assert(tj[0] == s@[j as int]);
        }
        if c == '"' {
            proof {
                assert(sp_string_body(tj) == Some::<(Seq<char>, int)>((Seq::empty(), 1)));
                assert(acc@ + Seq::<char>::empty() =~= acc@);
            }
            return Some((acc, j + 1));
        } else if c == '\\' {
            if j + 1 >= len {
                proof {
                    assert(tj.len() < 2);
                    assert(sp_string_body(tj) is None);
                }
                return None;
            }
            let c2 = s.get_char(j + 1);
            proof {
                assert(tj[1] == s@[j + 1]);
            }
            if c2 == '"' || c2 == '\\' {
                let ghost acc0 = acc@;
                push_char(&mut acc, c2);
                proof {
                    assert(tj.skip(2) =~= s@.skip(j + 2));
                    match sp_string_body(s@.skip(j + 2)) {
                        Some(pair) => {
                            assert(sp_string_body(tj) == Some::<(Seq<char>, int)>(
                                (seq![c2] + pair.0, pair.1 + 2),
                            ));
                            assert(acc0 + (seq![c2] + pair.0) =~= acc@ + pair.0);
                        },
                        None => {},
                    }
                }
                j = j + 2;
            } else {
                proof {
                    assert(sp_string_body(tj) is None);
                }
                return None;
            }
        } else {
            let ghost acc0 = acc@;
            push_char(&mut acc, c);
            proof {
                assert(tj.skip(1) =~= s@.skip(j + 1));
                match sp_string_body(s@.skip(j + 1)) {
                    Some(pair) => {
                        assert(sp_string_body(tj) == Some::<(Seq<char>, int)>(
                            (seq![c] + pair.0, pair.1 + 1),
                        ));
                        assert(acc0 + (seq![c] + pair.0) =~= acc@ + pair.0);
                    },
                    None => {},
                }
            }
            j = j + 1;
        }
    }
    proof {
        assert(s@.skip(j as int).len() == 0);
        assert(sp_string_body(s@.skip(j as int)) is None);
    }
    None
}

/// Parses exactly the literal `lit` at position `i`.
fn p_lit(s: &str, i: usize, lit: &str) -> (r: Option<usize>)
    requires
        i <= s@.len(),
    ensures
        r is None <==> sp_lit(s@.skip(i as int), lit@) is None,
        r matches Some(j) ==> sp_lit(s@.skip(i as int), lit@) is Some && j == i + lit@.len()
            && i <= j <= s@.len(),
{
    let ghost t = s@.skip(i as int);
    let len = s.unicode_len();
    let litlen = lit.unicode_len();
    if len - i < litlen {
        return None;
    }
    let mut k: usize = 0;
    while k < litlen
        invariant
            0 <= k <= litlen,
            i <= len,
            litlen <= len - i,
            len == s@.len(),
            litlen == lit@.len(),
            t == s@.skip(i as int),
            forall|m: int| 0 <= m < k ==> t[m] == lit@[m],
        decreases litlen - k,
    {
        if s.get_char(i + k) != lit.get_char(k) {
            proof {
                assert(t.take(lit@.len() as int)[k as int] != lit@[k as int]);
            }
            return None;
        }
        proof {
            assert(t[k as int] == s@[i + k]);
        }
        k = k + 1;
    }
    proof {
        assert(t.take(lit@.len() as int) =~= lit@);
    }
    Some(i + litlen)
}

/// Parses `true` or `false` at position `i`.
fn p_bool(s: &str, i: usize) -> (r: Option<(bool, usize)>)
    requires
        i <= s@.len(),
    ensures
        r is None <==> sp_bool(s@.skip(i as int)) is None,
        r matches Some((v, j)) ==> sp_bool(s@.skip(i as int)) matches Some(pair) && v == pair.0
            && i + pair.1 == j && i <= j <= s@.len(),
{
    proof {
        reveal_strlit("true");
        reveal_strlit("false");
    }
    match p_lit(s, i, "true") {
        Some(j) => Some((true, j)),
        None => match p_lit(s, i, "false") {
            Some(j) => Some((false, j)),
            None => None,
        },
    }
}

/// Parses `null` or a quoted string at position `i`.
fn p_opt_string(s: &str, i: usize) -> (r: Option<(Option<String>, usize)>)
    requires
        i <= s@.len(),
    ensures
        r is None <==> sp_opt_string(s@.skip(i as int)) is None,
        r matches Some((v, j)) ==> sp_opt_string(s@.skip(i as int)) matches Some(pair)
            && v.deep_view() == pair.0 && i + pair.1 == j && i <= j <= s@.len(),
{
    proof {
        reveal_strlit("null");
    }
    match p_lit(s, i, "null") {
        Some(j) => Some((None, j)),
        None => match p_string(s, i) {
            Some((v, j)) => Some((Some(v), j)),
            None => None,
        },
    }
}

/// Digit sequences have non-negative value.
proof fn lemma_digits_val_nonneg(ds: Seq<char>)
    requires
        forall|k: int| 0 <= k < ds.len() ==> is_digit(#[trigger] ds[k]),
    ensures
        digits_val(ds) >= 0,
    decreases ds.len(),
{
    if ds.len() > 0 {
        lemma_digits_val_nonneg(ds.drop_last());
    }
}

/// The digit prefix ends exactly where the first non-digit stands.
proof fn lemma_digits_len_exact(t: Seq<char>, k: int)
    requires
        0 <= k <= t.len(),
        forall|m: int| 0 <= m < k ==> is_digit(#[trigger] t[m]),
        k == t.len() || !is_digit(t[k]),
    ensures
        digits_len(t) == k,
    decreases t.len(),
{
    if t.len() > 0 && is_digit(t[0]) {
        assert(forall|m: int|
            0 <= m < k - 1 ==> is_digit(#[trigger] t.drop_first()[m]));
        lemma_digits_len_exact(t.drop_first(), k - 1);
    }
}

/// Whether the character at `j` is a decimal digit.
fn digit_at(s: &str, j: usize) -> (r: bool)
    requires
        j < s@.len(),
    ensures
        r == is_digit(s@[j as int]),
{
    let c = s.get_char(j);
    c as u32 >= 0x30 && c as u32 <= 0x39
}

/// Parses a decimal number that fits a `u32` at position `i`.
fn p_u32(s: &str, i: usize) -> (r: Option<(u32, usize)>)
    requires
        i <= s@.len(),
    ensures
        r is None <==> sp_u32(s@.skip(i as int)) is None,
        r matches Some((v, j)) ==> sp_u32(s@.skip(i as int)) matches Some(pair) && v as int
            == pair.0 && i + pair.1 == j && i <= j <= s@.len(),
{
    let ghost t = s@.skip(i as int);
    let len = s.unicode_len();
    let mut j = i;
    let mut val: u64 = 0;
    let mut too_big = false;
    while j < len && digit_at(s, j)
        invariant
            i <= j <= len,
            len == s@.len(),
            t == s@.skip(i as int),
            forall|m: int| 0 <= m < j - i ==> is_digit(#[trigger] t[m]),
            !too_big ==> val as int == digits_val(t.take(j - i)) && val <= u32::MAX as u64,
            too_big ==> digits_val(t.take(j - i)) > u32::MAX as int,
        decreases len - j,
    {
        let c = s.get_char(j);
        let d: u32 = c as u32 - 0x30;
        proof {
            assert(t[j - i] == s@[j as int]);
            assert(is_digit(s@[j as int]));
            assert(t.take(j - i + 1).drop_last() =~= t.take(j - i));
            assert(t.take(j - i + 1).last() == t[j - i]);
            assert(digit_val(s@[j as int]) == d as int);
            assert(forall|m: int| 0 <= m < j - i + 1 ==> is_digit(#[trigger] t[m]));
            lemma_digits_val_nonneg(t.take(j - i));
        }
        if too_big {
            proof {
                lemma_digits_val_nonneg(t.take(j - i + 1).drop_last());
            }
        } else if val > (u32::MAX as u64 - d as u64) / 10 {
            too_big = true;
            proof {
                assert(digits_val(t.take(j - i + 1)) == val as int * 10 + d as int);
            }
        } else {
            val = val * 10 + d as u64;
            proof {
                assert(val as int == digits_val(t.take(j - i + 1)));
            }
        }
        j = j + 1;
    }
    proof {
        if j < len {
            assert(t[j - i] == s@[j as int]);
            assert(!is_digit(s@[j as int]));
        }
        lemma_digits_len_exact(t, j - i);
    }
    if j == i {
        return None;
    }
    if too_big {
        return None;
    }
    Some((val as u32, j))
}

// ---- the stored-token document ----

/// The persisted form of a stored token: one object with the access token
/// and the optional refresh token.
pub open spec fn enc_stored_token(t: crate::token::SpecStoredToken) -> Seq<char> {
    "{\"access_token\":"@ + enc_string(t.access_token) + ",\"refresh_token\":"@ + enc_opt_string(
        t.refresh_token,
    ) + "}"@
}

/// Parses a stored-token document, returning the token and how much was
/// consumed.
pub open spec fn sp_stored_token(t: Seq<char>) -> Option<(crate::token::SpecStoredToken, int)> {
    match sp_lit(t, "{\"access_token\":"@) {
        None => None,
        Some(n1) => match sp_string(t.skip(n1)) {
            None => None,
            Some((access, n2)) => match sp_lit(t.skip(n1 + n2), ",\"refresh_token\":"@) {
                None => None,
                Some(n3) => match sp_opt_string(t.skip(n1 + n2 + n3)) {
                    None => None,
                    Some((refresh, n4)) => match sp_lit(t.skip(n1 + n2 + n3 + n4), "}"@) {
                        None => None,
                        Some(n5) => Some(
                            (
                                crate::token::SpecStoredToken {
                                    access_token: access,
                                    refresh_token: refresh,
                                },
                                n1 + n2 + n3 + n4 + n5,
                            ),
                        ),
                    },
                },
            },
        },
    }
}

/// A stored-token document parsed whole, or nothing.
pub open spec fn spec_parse_stored_token(t: Seq<char>) -> Option<crate::token::SpecStoredToken> {
    match sp_stored_token(t) {
        Some((v, n)) => if n == t.len() {
            Some(v)
        } else {
            None
        },
        None => None,
    }
}

/// Parsing an encoded stored token yields the token back, whole.
pub proof fn lemma_stored_token_round_trip(tok: crate::token::SpecStoredToken)
    ensures
        spec_parse_stored_token(enc_stored_token(tok)) == Some(tok),
{
    let lit1 = "{\"access_token\":"@;
    let lit2 = ",\"refresh_token\":"@;
    let lit3 = "}"@;
    let ea = enc_string(tok.access_token);
    let er = enc_opt_string(tok.refresh_token);
    let t = enc_stored_token(tok);
    let rest1 = ea + lit2 + er + lit3;
    assert(t =~= lit1 + rest1);
    lemma_sp_lit(lit1, rest1);
    let n1 = lit1.len() as int;
    assert(t.skip(n1) =~= rest1);
    let rest2 = lit2 + er + lit3;
    assert(rest1 =~= ea + rest2);
    lemma_sp_string_enc(tok.access_token, rest2);
    let n2 = ea.len() as int;
    assert(t.skip(n1 + n2) =~= rest2);
    let rest3 = er + lit3;
    assert(rest2 =~= lit2 + rest3);
    lemma_sp_lit(lit2, rest3);
    let n3 = lit2.len() as int;
    assert(t.skip(n1 + n2 + n3) =~= rest3);
    lemma_sp_opt_string_enc(tok.refresh_token, lit3);
    let n4 = er.len() as int;
    assert(t.skip(n1 + n2 + n3 + n4) =~= lit3);
    assert(lit3 =~= lit3 + Seq::<char>::empty());
    lemma_sp_lit(lit3, Seq::empty());
    let n5 = lit3.len() as int;
    assert(sp_lit(t.skip(n1 + n2 + n3 + n4), lit3) == Some(n5));
    assert(t.len() == n1 + n2 + n3 + n4 + n5);
}

/// Writes a stored token in its persisted form.
pub fn encode_stored_token(t: &crate::token::StoredToken) -> (r: String)
    ensures
        r@ == enc_stored_token(t.deep_view()),
{
    let mut out = String::new();
    out.append("{\"access_token\":");
    write_string(&mut out, t.access_token.as_str());
    out.append(",\"refresh_token\":");
    write_opt_string(&mut out, &t.refresh_token);
    out.append("}");
    proof {
        assert(out@ =~= enc_stored_token(t.deep_view()));
    }
    out
}

/// Reads a stored token from its persisted form; the whole text must be
/// one well-formed document.
pub fn parse_stored_token(s: &str) -> (r: Option<crate::token::StoredToken>)
    ensures
        r.deep_view() == spec_parse_stored_token(s@),
{
    proof {
        assert(s@.skip(0) =~= s@);
    }
    let j1 = match p_lit(s, 0, "{\"access_token\":") {
        Some(j) => j,
        None => {
            return None;
        },
    };
    let (access, j2) = match p_string(s, j1) {
        Some(p) => p,
        None => {
            return None;
        },
    };
    let j3 = match p_lit(s, j2, ",\"refresh_token\":") {
        Some(j) => j,
        None => {
            return None;
        },
    };
    let (refresh, j4) = match p_opt_string(s, j3) {
        Some(p) => p,
        None => {
            return None;
        },
    };
    let j5 = match p_lit(s, j4, "}") {
        Some(j) => j,
        None => {
            return None;
        },
    };
    if j5 != s.unicode_len() {
        return None;
    }
    Some(crate::token::StoredToken { access_token: access, refresh_token: refresh })
}

// ---- the configuration document ----

/// The persisted form of one profile.
pub open spec fn enc_profile(p: crate::config::SpecProfile) -> Seq<char> {
    "{\"name\":"@ + enc_string(p.name) + ",\"twitch_user_id\":"@ + enc_opt_string(
        p.twitch_user_id,
    ) + "}"@
}

/// The persisted form of a profile list, comma separated.
pub open spec fn enc_profiles(ps: Seq<crate::config::SpecProfile>) -> Seq<char>
    decreases ps.len(),
{
    if ps.len() == 0 {
        Seq::empty()
    } else if ps.len() == 1 {
        enc_profile(ps[0])
    } else {
        enc_profile(ps[0]) + seq![','] + enc_profiles(ps.drop_first())
    }
}

/// Parses one profile.
pub open spec fn sp_profile(t: Seq<char>) -> Option<(crate::config::SpecProfile, int)> {
    match sp_lit(t, "{\"name\":"@) {
        None => None,
        Some(n1) => match sp_string(t.skip(n1)) {
            None => None,
            Some((name, n2)) => match sp_lit(t.skip(n1 + n2), ",\"twitch_user_id\":"@) {
                None => None,
                Some(n3) => match sp_opt_string(t.skip(n1 + n2 + n3)) {
                    None => None,
                    Some((id, n4)) => match sp_lit(t.skip(n1 + n2 + n3 + n4), "}"@) {
                        None => None,
                        Some(n5) => Some(
                            (
                                crate::config::SpecProfile { name: name, twitch_user_id: id },
                                n1 + n2 + n3 + n4 + n5,
                            ),
                        ),
                    },
                },
            },
        },
    }
}

/// Parses one or more comma-separated profiles.
pub open spec fn sp_profiles(t: Seq<char>) -> Option<(Seq<crate::config::SpecProfile>, int)>
    decreases t.len(),
{
    match sp_profile(t) {
        None => None,
        Some((p, n)) => if 0 < n && n < t.len() && t[n] == ',' {
            match sp_profiles(t.skip(n + 1)) {
                None => None,
                Some((ps, m)) => Some((seq![p] + ps, n + 1 + m)),
            }
        } else {
            Some((seq![p], n))
        },
    }
}

/// The persisted form of a configuration. The concatenation is grouped to
/// the right, so that each parsing step peels one part off the front.
pub open spec fn enc_config(c: crate::config::SpecConfig) -> Seq<char> {
    "{\"client_id\":"@ + (enc_opt_string(c.client_id) + (",\"client_secret\":"@ + (enc_opt_string(
        c.client_secret,
    ) + (",\"enable_cjk_font\":"@ + (enc_bool(c.enable_cjk_font) + (",\"font_size\":"@ + (enc_u32(
        c.font_size as int,
    ) + (",\"emote_size\":"@ + (enc_u32(c.emote_size as int) + (",\"show_timestamps\":"@
        + (enc_bool(c.show_timestamps) + (",\"collapse_emotes\":"@ + (enc_bool(c.collapse_emotes)
        + (",\"profiles\":["@ + (enc_profiles(c.profiles) + ("],\"active_profile_name\":"@
        + (enc_opt_string(c.active_profile_name) + "}"@)))))))))))))))))
}

/// Parses the profile block and what follows it: either an empty list or a
/// comma-separated one, then the closing bracket and the active-name key.
pub open spec fn sp_profile_block(t: Seq<char>) -> Option<(Seq<crate::config::SpecProfile>, int)> {
    match sp_lit(t, "],\"active_profile_name\":"@) {
        Some(n) => Some((Seq::empty(), n)),
        None => match sp_profiles(t) {
            None => None,
            Some((ps, n)) => match sp_lit(t.skip(n), "],\"active_profile_name\":"@) {
                None => None,
                Some(m) => Some((ps, n + m)),
            },
        },
    }
}

/// Parses a configuration document, returning it and how much was
/// consumed.
pub open spec fn sp_config(t: Seq<char>) -> Option<(crate::config::SpecConfig, int)> {
    match sp_lit(t, "{\"client_id\":"@) {
        None => None,
        Some(a) => match sp_opt_string(t.skip(a)) {
            None => None,
            Some((client_id, b)) => match sp_lit(t.skip(a + b), ",\"client_secret\":"@) {
                None => None,
                Some(c_) => match sp_opt_string(t.skip(a + b + c_)) {
                    None => None,
                    Some((client_secret, d)) => match sp_lit(
                        t.skip(a + b + c_ + d),
                        ",\"enable_cjk_font\":"@,
                    ) {
                        None => None,
                        Some(e) => match sp_bool(t.skip(a + b + c_ + d + e)) {
                            None => None,
                            Some((cjk, f)) => match sp_lit(
                                t.skip(a + b + c_ + d + e + f),
                                ",\"font_size\":"@,
                            ) {
                                None => None,
                                Some(g) => match sp_u32(t.skip(a + b + c_ + d + e + f + g)) {
                                    None => None,
                                    Some((font, h)) => sp_config_rest(
                                        t,
                                        a + b + c_ + d + e + f + g + h,
                                        client_id,
                                        client_secret,
                                        cjk,
                                        font,
                                    ),
                                },
                            },
                        },
                    },
                },
            },
        },
    }
}

/// The second half of the configuration grammar, from the emote-size key.
pub open spec fn sp_config_rest(
    t: Seq<char>,
    pos: int,
    client_id: Option<Seq<char>>,
    client_secret: Option<Seq<char>>,
    cjk: bool,
    font: int,
) -> Option<(crate::config::SpecConfig, int)> {
    match sp_lit(t.skip(pos), ",\"emote_size\":"@) {
        None => None,
        Some(a) => match sp_u32(t.skip(pos + a)) {
            None => None,
            Some((emote, b)) => match sp_lit(t.skip(pos + a + b), ",\"show_timestamps\":"@) {
                None => None,
                Some(c_) => match sp_bool(t.skip(pos + a + b + c_)) {
                    None => None,
                    Some((ts, d)) => match sp_lit(
                        t.skip(pos + a + b + c_ + d),
                        ",\"collapse_emotes\":"@,
                    ) {
                        None => None,
                        Some(e) => match sp_bool(t.skip(pos + a + b + c_ + d + e)) {
                            None => None,
                            Some((collapse, f)) => match sp_lit(
                                t.skip(pos + a + b + c_ + d + e + f),
                                ",\"profiles\":["@,
                            ) {
                                None => None,
                                Some(g) => match sp_profile_block(
                                    t.skip(pos + a + b + c_ + d + e + f + g),
                                ) {
                                    None => None,
                                    Some((profiles, h)) => match sp_opt_string(
                                        t.skip(pos + a + b + c_ + d + e + f + g + h),
                                    ) {
                                        None => None,
                                        Some((active, i_)) => match sp_lit(
                                            t.skip(pos + a + b + c_ + d + e + f + g + h + i_),
                                            "}"@,
                                        ) {
                                            None => None,
                                            Some(j_) => Some(
                                                (
                                                    crate::config::SpecConfig {
                                                        client_id,
                                                        client_secret,
                                                        enable_cjk_font: cjk,
                                                        font_size: font as u32,
                                                        emote_size: emote as u32,
                                                        show_timestamps: ts,
                                                        collapse_emotes: collapse,
                                                        profiles,
                                                        active_profile_name: active,
                                                    },
                                                    pos + a + b + c_ + d + e + f + g + h + i_ + j_,
                                                ),
                                            ),
                                        },
                                    },
                                },
                            },
                        },
                    },
                },
            },
        },
    }
}

/// A configuration document parsed whole, or nothing.
pub open spec fn spec_parse_config(t: Seq<char>) -> Option<crate::config::SpecConfig> {
    match sp_config(t) {
        Some((v, n)) => if n == t.len() {
            Some(v)
        } else {
            None
        },
        None => None,
    }
}

/// Parsing an encoded profile yields the profile back.
proof fn lemma_sp_profile_enc(p: crate::config::SpecProfile, rest: Seq<char>)
    ensures
        sp_profile(enc_profile(p) + rest) == Some::<(crate::config::SpecProfile, int)>(
            (p, enc_profile(p).len() as int),
        ),
        enc_profile(p).len() >= 1,
        enc_profile(p)[0] == '{',
{
    reveal_strlit("{\"name\":");
    let lit1 = "{\"name\":"@;
    let lit2 = ",\"twitch_user_id\":"@;
    let lit3 = "}"@;
    let en = enc_string(p.name);
    let eid = enc_opt_string(p.twitch_user_id);
    let t = enc_profile(p) + rest;
    let rest1 = en + lit2 + eid + lit3 + rest;
    assert(t =~= lit1 + rest1);
    lemma_sp_lit(lit1, rest1);
    let n1 = lit1.len() as int;
    assert(t.skip(n1) =~= rest1);
    let rest2 = lit2 + eid + lit3 + rest;
    assert(rest1 =~= en + rest2);
    lemma_sp_string_enc(p.name, rest2);
    let n2 = en.len() as int;
    assert(t.skip(n1 + n2) =~= rest2);
    let rest3 = eid + lit3 + rest;
    assert(rest2 =~= lit2 + rest3);
    lemma_sp_lit(lit2, rest3);
    let n3 = lit2.len() as int;
    assert(t.skip(n1 + n2 + n3) =~= rest3);
    let rest4 = lit3 + rest;
    assert(rest3 =~= eid + rest4);
    lemma_sp_opt_string_enc(p.twitch_user_id, rest4);
    let n4 = eid.len() as int;
    assert(t.skip(n1 + n2 + n3 + n4) =~= rest4);
    lemma_sp_lit(lit3, rest);
    assert(enc_profile(p)[0] == lit1[0]);
}

/// Parsing an encoded, non-empty profile list yields the list back, as
/// long as what follows does not begin with a comma.
#[verifier::rlimit(60)]
proof fn lemma_sp_profiles_enc(ps: Seq<crate::config::SpecProfile>, rest: Seq<char>)
    requires
        ps.len() >= 1,
        rest.len() == 0 || rest[0] != ',',
    ensures
        sp_profiles(enc_profiles(ps) + rest) == Some::<(Seq<crate::config::SpecProfile>, int)>(
            (ps, enc_profiles(ps).len() as int),
        ),
    decreases ps.len(),
{
    let t = enc_profiles(ps) + rest;
    if ps.len() == 1 {
        assert(enc_profiles(ps) == enc_profile(ps[0]));
        lemma_sp_profile_enc(ps[0], rest);
        let n = enc_profile(ps[0]).len() as int;
        if n < t.len() {
            assert(t[n] == rest[0]);
        }
        assert(seq![ps[0]] =~= ps);
    } else {
        let head = enc_profile(ps[0]);
        let tail = enc_profiles(ps.drop_first());
        assert(enc_profiles(ps) == head + seq![','] + tail);
        let rest1 = seq![','] + tail + rest;
        assert(t =~= head + rest1);
        lemma_sp_profile_enc(ps[0], rest1);
        let n = head.len() as int;
        assert(t[n] == rest1[0]);
        assert(t[n] == ',');
        assert(0 < n < t.len());
        assert(t.skip(n + 1) =~= tail + rest);
        lemma_sp_profiles_enc(ps.drop_first(), rest);
        assert(seq![ps[0]] + ps.drop_first() =~= ps);
    }
}

/// Parsing an encoded profile block yields the profiles back and stops
/// past the closing bracket and the active-name key.
proof fn lemma_sp_profile_block_enc(ps: Seq<crate::config::SpecProfile>, rest: Seq<char>)
    ensures
        sp_profile_block(enc_profiles(ps) + "],\"active_profile_name\":"@ + rest)
            == Some::<(Seq<crate::config::SpecProfile>, int)>(
            (ps, (enc_profiles(ps).len() + "],\"active_profile_name\":"@.len()) as int),
        ),
{
    reveal_strlit("],\"active_profile_name\":");
    let lit = "],\"active_profile_name\":"@;
    let t = enc_profiles(ps) + lit + rest;
    if ps.len() == 0 {
        assert(enc_profiles(ps) =~= Seq::<char>::empty());
        assert(t =~= lit + rest);
        lemma_sp_lit(lit, rest);
    } else {
        let restp = lit + rest;
        assert(t =~= enc_profiles(ps) + restp);
        assert(restp[0] == ']');
        lemma_sp_profiles_enc(ps, restp);
        let n = enc_profiles(ps).len() as int;
        lemma_sp_profile_enc(ps[0], Seq::empty());
        if ps.len() == 1 {
            assert(t[0] == enc_profile(ps[0])[0]);
        } else {
            assert(enc_profiles(ps) == enc_profile(ps[0]) + seq![','] + enc_profiles(
                ps.drop_first(),
            ));
            assert(t[0] == enc_profile(ps[0])[0]);
        }
        assert(t[0] == '{');
        if sp_lit(t, lit) is Some {
            assert(t.take(lit.len() as int)[0] == lit[0]);
            assert(false);
        }
        assert(t.skip(n) =~= restp);
        lemma_sp_lit(lit, rest);
    }
}

/// Skipping past the first part of a decomposed remainder lands on the
/// second part.
proof fn lemma_skip_concat(t: Seq<char>, pos: int, a: Seq<char>, b: Seq<char>)
    requires
        0 <= pos <= t.len(),
        t.skip(pos) == a + b,
    ensures
        pos + a.len() <= t.len(),
        t.skip(pos + a.len()) == b,
{
    assert(t.skip(pos).len() == t.len() - pos);
    assert forall|k: int| 0 <= k < b.len() implies t.skip(pos + a.len())[k] == b[k] by {
        assert((a + b)[a.len() + k] == b[k]);
        assert(t.skip(pos)[a.len() + k] == t[pos + a.len() + k]);
        assert(t.skip(pos + a.len())[k] == t[pos + a.len() + k]);
    }
    assert(t.skip(pos + a.len()) =~= b);
}

/// One parsing step: a literal at the front of the remaining text.
proof fn lemma_step_lit(t: Seq<char>, pos: int, lit: Seq<char>, rest: Seq<char>)
    requires
        0 <= pos <= t.len(),
        t.skip(pos) == lit + rest,
    ensures
        sp_lit(t.skip(pos), lit) == Some(lit.len() as int),
        pos + lit.len() <= t.len(),
        t.skip(pos + lit.len()) == rest,
{
    lemma_sp_lit(lit, rest);
    lemma_skip_concat(t, pos, lit, rest);
}

/// One parsing step: an encoded optional string at the front.
proof fn lemma_step_opt_string(t: Seq<char>, pos: int, o: Option<Seq<char>>, rest: Seq<char>)
    requires
        0 <= pos <= t.len(),
        t.skip(pos) == enc_opt_string(o) + rest,
    ensures
        sp_opt_string(t.skip(pos)) == Some::<(Option<Seq<char>>, int)>(
            (o, enc_opt_string(o).len() as int),
        ),
        pos + enc_opt_string(o).len() <= t.len(),
        t.skip(pos + enc_opt_string(o).len()) == rest,
{
    lemma_sp_opt_string_enc(o, rest);
    lemma_skip_concat(t, pos, enc_opt_string(o), rest);
}

/// One parsing step: an encoded boolean at the front.
proof fn lemma_step_bool(t: Seq<char>, pos: int, b: bool, rest: Seq<char>)
    requires
        0 <= pos <= t.len(),
        t.skip(pos) == enc_bool(b) + rest,
    ensures
        sp_bool(t.skip(pos)) == Some::<(bool, int)>((b, enc_bool(b).len() as int)),
        pos + enc_bool(b).len() <= t.len(),
        t.skip(pos + enc_bool(b).len()) == rest,
{
    lemma_sp_bool_enc(b, rest);
    lemma_skip_concat(t, pos, enc_bool(b), rest);
}

/// One parsing step: an encoded number at the front, not followed by a
/// digit.
proof fn lemma_step_u32(t: Seq<char>, pos: int, n: int, rest: Seq<char>)
    requires
        0 <= pos <= t.len(),
        0 <= n <= u32::MAX as int,
        rest.len() == 0 || !is_digit(rest[0]),
        t.skip(pos) == enc_u32(n) + rest,
    ensures
        sp_u32(t.skip(pos)) == Some::<(int, int)>((n, enc_u32(n).len() as int)),
        pos + enc_u32(n).len() <= t.len(),
        t.skip(pos + enc_u32(n).len()) == rest,
{
    lemma_sp_u32_enc(n, rest);
    lemma_skip_concat(t, pos, enc_u32(n), rest);
}

/// One parsing step: the encoded profile block at the front.
proof fn lemma_step_profile_block(
    t: Seq<char>,
    pos: int,
    ps: Seq<crate::config::SpecProfile>,
    rest: Seq<char>,
)
    requires
        0 <= pos <= t.len(),
        t.skip(pos) == enc_profiles(ps) + ("],\"active_profile_name\":"@ + rest),
    ensures
        sp_profile_block(t.skip(pos)) == Some::<(Seq<crate::config::SpecProfile>, int)>(
            (ps, (enc_profiles(ps).len() + "],\"active_profile_name\":"@.len()) as int),
        ),
        pos + enc_profiles(ps).len() + "],\"active_profile_name\":"@.len() <= t.len(),
        t.skip(pos + enc_profiles(ps).len() + "],\"active_profile_name\":"@.len()) == rest,
{
    assert(enc_profiles(ps) + ("],\"active_profile_name\":"@ + rest) =~= enc_profiles(ps)
        + "],\"active_profile_name\":"@ + rest);
    lemma_sp_profile_block_enc(ps, rest);
    lemma_skip_concat(t, pos, enc_profiles(ps) + "],\"active_profile_name\":"@, rest);
    assert(t.skip(pos + (enc_profiles(ps) + "],\"active_profile_name\":"@).len()) == rest);
}

/// The tail of the configuration round trip, from the emote-size key.
#[verifier::rlimit(100)]
proof fn lemma_config_round_trip_rest(c: crate::config::SpecConfig, t: Seq<char>, pos: int)
    requires
        0 <= pos <= t.len(),
        t.skip(pos) == ",\"emote_size\":"@ + (enc_u32(c.emote_size as int)
            + (",\"show_timestamps\":"@ + (enc_bool(c.show_timestamps)
            + (",\"collapse_emotes\":"@ + (enc_bool(c.collapse_emotes) + (",\"profiles\":["@
            + (enc_profiles(c.profiles) + ("],\"active_profile_name\":"@
            + (enc_opt_string(c.active_profile_name) + "}"@))))))))),
    ensures
        sp_config_rest(
            t,
            pos,
            c.client_id,
            c.client_secret,
            c.enable_cjk_font,
            c.font_size as int,
        ) == Some::<(crate::config::SpecConfig, int)>((c, t.len() as int)),
{
    reveal_strlit(",\"show_timestamps\":");
    let lit_e = ",\"emote_size\":"@;
    let lit_f = ",\"show_timestamps\":"@;
    let lit_g = ",\"collapse_emotes\":"@;
    let lit_h = ",\"profiles\":["@;
    let lit_i = "],\"active_profile_name\":"@;
    let lit_j = "}"@;
    let e5 = enc_u32(c.emote_size as int);
    let e6 = enc_bool(c.show_timestamps);
    let e7 = enc_bool(c.collapse_emotes);
    let e8 = enc_profiles(c.profiles);
    let e9 = enc_opt_string(c.active_profile_name);
    let r18 = e9 + lit_j;
    let r17 = lit_i + r18;
    let r16 = e8 + r17;
    let r15 = lit_h + r16;
    let r14 = e7 + r15;
    let r13 = lit_g + r14;
    let r12 = e6 + r13;
    let r11 = lit_f + r12;
    let r10 = e5 + r11;
    lemma_step_lit(t, pos, lit_e, r10);
    let p9 = pos + lit_e.len();
    assert(r11[0] == ',');
    lemma_step_u32(t, p9, c.emote_size as int, r11);
    let p10 = p9 + e5.len();
    lemma_step_lit(t, p10, lit_f, r12);
    let p11 = p10 + lit_f.len();
    lemma_step_bool(t, p11, c.show_timestamps, r13);
    let p12 = p11 + e6.len();
    lemma_step_lit(t, p12, lit_g, r14);
    let p13 = p12 + lit_g.len();
    lemma_step_bool(t, p13, c.collapse_emotes, r15);
    let p14 = p13 + e7.len();
    lemma_step_lit(t, p14, lit_h, r16);
    let p15 = p14 + lit_h.len();
    lemma_step_profile_block(t, p15, c.profiles, r18);
    let p16 = p15 + e8.len() + lit_i.len();
    lemma_step_opt_string(t, p16, c.active_profile_name, lit_j);
    let p17 = p16 + e9.len();
    assert(t.skip(p17) =~= lit_j + Seq::<char>::empty());
    lemma_step_lit(t, p17, lit_j, Seq::empty());
    let p18 = p17 + lit_j.len();
    assert(t.skip(p18).len() == 0);
    assert(t.len() == p18);
    let parsed = sp_config_rest(
        t,
        pos,
        c.client_id,
        c.client_secret,
        c.enable_cjk_font,
        c.font_size as int,
    );
    assert(parsed matches Some(pair) && pair.0 =~= c && pair.1 == t.len());
}

/// Parsing an encoded configuration yields the configuration back, whole:
/// the profile list in order, every field intact.
#[verifier::rlimit(100)]
pub proof fn lemma_config_round_trip(c: crate::config::SpecConfig)
    ensures
        spec_parse_config(enc_config(c)) == Some(c),
{
    reveal_strlit(",\"emote_size\":");
    let lit_a = "{\"client_id\":"@;
    let lit_b = ",\"client_secret\":"@;
    let lit_c = ",\"enable_cjk_font\":"@;
    let lit_d = ",\"font_size\":"@;
    let lit_e = ",\"emote_size\":"@;
    let e1 = enc_opt_string(c.client_id);
    let e2 = enc_opt_string(c.client_secret);
    let e3 = enc_bool(c.enable_cjk_font);
    let e4 = enc_u32(c.font_size as int);
    let e5 = enc_u32(c.emote_size as int);
    let e6 = enc_bool(c.show_timestamps);
    let e7 = enc_bool(c.collapse_emotes);
    let e8 = enc_profiles(c.profiles);
    let e9 = enc_opt_string(c.active_profile_name);
    let t = enc_config(c);
    let r18 = e9 + "}"@;
    let r17 = "],\"active_profile_name\":"@ + r18;
    let r16 = e8 + r17;
    let r15 = ",\"profiles\":["@ + r16;
    let r14 = e7 + r15;
    let r13 = ",\"collapse_emotes\":"@ + r14;
    let r12 = e6 + r13;
    let r11 = ",\"show_timestamps\":"@ + r12;
    let r10 = e5 + r11;
    let r9 = lit_e + r10;
    let r8 = e4 + r9;
    let r7 = lit_d + r8;
    let r6 = e3 + r7;
    let r5 = lit_c + r6;
    let r4 = e2 + r5;
    let r3 = lit_b + r4;
    let r2 = e1 + r3;
    assert(t.skip(0) =~= lit_a + r2);
    lemma_step_lit(t, 0, lit_a, r2);
    let p1 = lit_a.len() as int;
    lemma_step_opt_string(t, p1, c.client_id, r3);
    let p2 = p1 + e1.len();
    lemma_step_lit(t, p2, lit_b, r4);
    let p3 = p2 + lit_b.len();
    lemma_step_opt_string(t, p3, c.client_secret, r5);
    let p4 = p3 + e2.len();
    lemma_step_lit(t, p4, lit_c, r6);
    let p5 = p4 + lit_c.len();
    lemma_step_bool(t, p5, c.enable_cjk_font, r7);
    let p6 = p5 + e3.len();
    lemma_step_lit(t, p6, lit_d, r8);
    let p7 = p6 + lit_d.len();
    assert(r9[0] == ',');
    lemma_step_u32(t, p7, c.font_size as int, r9);
    let p8 = p7 + e4.len();
    lemma_config_round_trip_rest(c, t, p8);
    let parsed = sp_config(t);
    assert(parsed matches Some(pair) && pair.0 == c && pair.1 == t.len());
}

/// Writes one profile in its persisted form.
fn write_profile(out: &mut String, p: &crate::config::Profile)
    ensures
        final(out)@ == old(out)@ + enc_profile(p.deep_view()),
{
    out.append("{\"name\":");
    write_string(out, p.name.as_str());
    out.append(",\"twitch_user_id\":");
    write_opt_string(out, &p.twitch_user_id);
    out.append("}");
    proof {
        assert(out@ =~= old(out)@ + enc_profile(p.deep_view()));
    }
}

/// Writes a profile list, comma separated.
fn write_profiles(out: &mut String, ps: &Vec<crate::config::Profile>, from: usize)
    requires
        from <= ps.len(),
    ensures
        final(out)@ == old(out)@ + enc_profiles(ps.deep_view().skip(from as int)),
    decreases ps.len() - from,
{
    let ghost tail = ps.deep_view().skip(from as int);
    if from == ps.len() {
        proof {
            assert(tail =~= Seq::<crate::config::SpecProfile>::empty());
            assert(out@ =~= old(out)@ + enc_profiles(tail));
        }
    } else {
        write_profile(out, &ps[from]);
        proof {
            assert(tail[0] == ps.deep_view()[from as int]);
        }
        if from + 1 == ps.len() {
            proof {
                assert(tail.len() == 1);
                assert(out@ =~= old(out)@ + enc_profiles(tail));
            }
        } else {
            push_char(out, ',');
            write_profiles(out, ps, from + 1);
            proof {
                assert(tail.drop_first() =~= ps.deep_view().skip(from + 1));
                assert(tail.len() >= 2);
                assert(enc_profiles(tail) == enc_profile(tail[0]) + seq![','] + enc_profiles(
                    tail.drop_first(),
                ));
                assert(out@ =~= old(out)@ + enc_profiles(tail));
            }
        }
    }
}

/// The configuration encoding, regrouped to the left as a writer builds
/// it.
#[verifier::rlimit(100)]
proof fn lemma_enc_config_parts(c: crate::config::SpecConfig)
    ensures
        enc_config(c) == "{\"client_id\":"@ + enc_opt_string(c.client_id)
            + ",\"client_secret\":"@ + enc_opt_string(c.client_secret)
            + ",\"enable_cjk_font\":"@ + enc_bool(c.enable_cjk_font) + ",\"font_size\":"@
            + enc_u32(c.font_size as int) + ",\"emote_size\":"@ + enc_u32(c.emote_size as int)
            + ",\"show_timestamps\":"@ + enc_bool(c.show_timestamps) + ",\"collapse_emotes\":"@
            + enc_bool(c.collapse_emotes) + ",\"profiles\":["@ + enc_profiles(c.profiles)
            + "],\"active_profile_name\":"@ + enc_opt_string(c.active_profile_name) + "}"@,
{
    let a1 = "{\"client_id\":"@;
    let a2 = enc_opt_string(c.client_id);
    let a3 = ",\"client_secret\":"@;
    let a4 = enc_opt_string(c.client_secret);
    let a5 = ",\"enable_cjk_font\":"@;
    let a6 = enc_bool(c.enable_cjk_font);
    let a7 = ",\"font_size\":"@;
    let a8 = enc_u32(c.font_size as int);
    let a9 = ",\"emote_size\":"@;
    let a10 = enc_u32(c.emote_size as int);
    let a11 = ",\"show_timestamps\":"@;
    let a12 = enc_bool(c.show_timestamps);
    let a13 = ",\"collapse_emotes\":"@;
    let a14 = enc_bool(c.collapse_emotes);
    let a15 = ",\"profiles\":["@;
    let a16 = enc_profiles(c.profiles);
    let a17 = "],\"active_profile_name\":"@;
    let a18 = enc_opt_string(c.active_profile_name);
    let a19 = "}"@;
    let r19 = a19;
    let r18 = a18 + r19;
    let r17 = a17 + r18;
    let r16 = a16 + r17;
    let r15 = a15 + r16;
    let r14 = a14 + r15;
    let r13 = a13 + r14;
    let r12 = a12 + r13;
    let r11 = a11 + r12;
    let r10 = a10 + r11;
    let r9 = a9 + r10;
    let r8 = a8 + r9;
    let r7 = a7 + r8;
    let r6 = a6 + r7;
    let r5 = a5 + r6;
    let r4 = a4 + r5;
    let r3 = a3 + r4;
    let r2 = a2 + r3;
    assert(enc_config(c) == a1 + r2);
    vstd::seq_lib::lemma_concat_associative(a1, a2, r3);
    vstd::seq_lib::lemma_concat_associative(a1 + a2, a3, r4);
    vstd::seq_lib::lemma_concat_associative(a1 + a2 + a3, a4, r5);
    vstd::seq_lib::lemma_concat_associative(a1 + a2 + a3 + a4, a5, r6);
    vstd::seq_lib::lemma_concat_associative(a1 + a2 + a3 + a4 + a5, a6, r7);
    vstd::seq_lib::lemma_concat_associative(a1 + a2 + a3 + a4 + a5 + a6, a7, r8);
    vstd::seq_lib::lemma_concat_associative(a1 + a2 + a3 + a4 + a5 + a6 + a7, a8, r9);
    vstd::seq_lib::lemma_concat_associative(a1 + a2 + a3 + a4 + a5 + a6 + a7 + a8, a9, r10);
    vstd::seq_lib::lemma_concat_associative(a1 + a2 + a3 + a4 + a5 + a6 + a7 + a8 + a9, a10, r11);
    vstd::seq_lib::lemma_concat_associative(
        a1 + a2 + a3 + a4 + a5 + a6 + a7 + a8 + a9 + a10,
        a11,
        r12,
    );
    vstd::seq_lib::lemma_concat_associative(
        a1 + a2 + a3 + a4 + a5 + a6 + a7 + a8 + a9 + a10 + a11,
        a12,
        r13,
    );
    vstd::seq_lib::lemma_concat_associative(
        a1 + a2 + a3 + a4 + a5 + a6 + a7 + a8 + a9 + a10 + a11 + a12,
        a13,
        r14,
    );
    vstd::seq_lib::lemma_concat_associative(
        a1 + a2 + a3 + a4 + a5 + a6 + a7 + a8 + a9 + a10 + a11 + a12 + a13,
        a14,
        r15,
    );
    vstd::seq_lib::lemma_concat_associative(
        a1 + a2 + a3 + a4 + a5 + a6 + a7 + a8 + a9 + a10 + a11 + a12 + a13 + a14,
        a15,
        r16,
    );
    vstd::seq_lib::lemma_concat_associative(
        a1 + a2 + a3 + a4 + a5 + a6 + a7 + a8 + a9 + a10 + a11 + a12 + a13 + a14 + a15,
        a16,
        r17,
    );
    vstd::seq_lib::lemma_concat_associative(
        a1 + a2 + a3 + a4 + a5 + a6 + a7 + a8 + a9 + a10 + a11 + a12 + a13 + a14 + a15 + a16,
        a17,
        r18,
    );
    vstd::seq_lib::lemma_concat_associative(
        a1 + a2 + a3 + a4 + a5 + a6 + a7 + a8 + a9 + a10 + a11 + a12 + a13 + a14 + a15 + a16 + a17,
        a18,
        r19,
    );
}

/// Writes a configuration in its persisted form.
pub fn encode_config(c: &crate::config::Config) -> (r: String)
    ensures
        r@ == enc_config(c.deep_view()),
{
    let mut out = String::new();
    out.append("{\"client_id\":");
    write_opt_string(&mut out, &c.client_id);
    out.append(",\"client_secret\":");
    write_opt_string(&mut out, &c.client_secret);
    out.append(",\"enable_cjk_font\":");
    write_bool(&mut out, c.enable_cjk_font);
    out.append(",\"font_size\":");
    write_u32(&mut out, c.font_size);
    out.append(",\"emote_size\":");
    write_u32(&mut out, c.emote_size);
    out.append(",\"show_timestamps\":");
    write_bool(&mut out, c.show_timestamps);
    out.append(",\"collapse_emotes\":");
    write_bool(&mut out, c.collapse_emotes);
    out.append(",\"profiles\":[");
    write_profiles(&mut out, &c.profiles, 0);
    out.append("],\"active_profile_name\":");
    write_opt_string(&mut out, &c.active_profile_name);
    out.append("}");
    proof {
        assert(c.profiles.deep_view().skip(0) =~= c.profiles.deep_view());
        lemma_enc_config_parts(c.deep_view());
    }
    out
}

/// Parses one profile at position `i`.
fn p_profile(s: &str, i: usize) -> (r: Option<(crate::config::Profile, usize)>)
    requires
        i <= s@.len(),
    ensures
        r is None <==> sp_profile(s@.skip(i as int)) is None,
        r matches Some((v, j)) ==> sp_profile(s@.skip(i as int)) matches Some(pair)
            && v.deep_view() == pair.0 && i + pair.1 == j && i < j <= s@.len(),
{
    let ghost t = s@.skip(i as int);
    let j1 = match p_lit(s, i, "{\"name\":") {
        Some(j) => j,
        None => {
            return None;
        },
    };
    proof {
        assert(t.skip(j1 - i) =~= s@.skip(j1 as int));
    }
    let (name, j2) = match p_string(s, j1) {
        Some(p) => p,
        None => {
            return None;
        },
    };
    proof {
        assert(t.skip(j2 - i) =~= s@.skip(j2 as int));
    }
    let j3 = match p_lit(s, j2, ",\"twitch_user_id\":") {
        Some(j) => j,
        None => {
            return None;
        },
    };
    proof {
        assert(t.skip(j3 - i) =~= s@.skip(j3 as int));
    }
    let (id, j4) = match p_opt_string(s, j3) {
        Some(p) => p,
        None => {
            return None;
        },
    };
    proof {
        assert(t.skip(j4 - i) =~= s@.skip(j4 as int));
    }
    let j5 = match p_lit(s, j4, "}") {
        Some(j) => j,
        None => {
            return None;
        },
    };
    proof {
        reveal_strlit("{\"name\":");
    }
    Some((crate::config::Profile { name: name, twitch_user_id: id }, j5))
}

/// Parses one or more comma-separated profiles at position `i`.
fn p_profiles(s: &str, i: usize) -> (r: Option<(Vec<crate::config::Profile>, usize)>)
    requires
        i <= s@.len(),
    ensures
        r is None <==> sp_profiles(s@.skip(i as int)) is None,
        r matches Some((v, j)) ==> sp_profiles(s@.skip(i as int)) matches Some(pair)
            && v.deep_view() == pair.0 && i + pair.1 == j && i < j <= s@.len(),
    decreases s@.len() - i,
{
    let ghost t = s@.skip(i as int);
    let (p, j) = match p_profile(s, i) {
        Some(pr) => pr,
        None => {
            return None;
        },
    };
    let len = s.unicode_len();
    let more = j < len && {
        let c = s.get_char(j);
        c == ','
    };
    proof {
        if j < len {
            assert(t[j - i] == s@[j as int]);
        }
    }
    if more {
        match p_profiles(s, j + 1) {
            Some((mut ps, m)) => {
                let ghost before = ps.deep_view();
                let ghost pv = p.deep_view();
                ps.insert(0, p);
                proof {
                    assert(t.skip(j - i + 1) =~= s@.skip(j + 1));
                    let pair = sp_profiles(s@.skip(j + 1))->Some_0;
                    assert(ps.deep_view() =~= seq![pv] + before);
                    assert(ps.deep_view() =~= seq![sp_profile(t)->Some_0.0] + pair.0);
                }
                Some((ps, m))
            },
            None => {
                proof {
                    assert(t.skip(j - i + 1) =~= s@.skip(j + 1));
                }
                None
            },
        }
    } else {
        let mut ps: Vec<crate::config::Profile> = Vec::new();
        ps.push(p);
        proof {
            assert(ps.deep_view() =~= seq![sp_profile(t)->Some_0.0]);
        }
        Some((ps, j))
    }
}

/// Parses the profile block at position `i`: an empty list, or profiles,
/// then the closing bracket and the active-name key.
fn p_profile_block(s: &str, i: usize) -> (r: Option<(Vec<crate::config::Profile>, usize)>)
    requires
        i <= s@.len(),
    ensures
        r is None <==> sp_profile_block(s@.skip(i as int)) is None,
        r matches Some((v, j)) ==> sp_profile_block(s@.skip(i as int)) matches Some(pair)
            && v.deep_view() == pair.0 && i + pair.1 == j && j <= s@.len(),
{
    match p_lit(s, i, "],\"active_profile_name\":") {
        Some(j) => {
            let ps: Vec<crate::config::Profile> = Vec::new();
            proof {
                assert(ps.deep_view() =~= Seq::<crate::config::SpecProfile>::empty());
            }
            Some((ps, j))
        },
        None => match p_profiles(s, i) {
            Some((ps, j)) => {
                proof {
                    assert(s@.skip(i as int).skip(j - i) =~= s@.skip(j as int));
                }
                match p_lit(s, j, "],\"active_profile_name\":") {
                    Some(j2) => Some((ps, j2)),
                    None => None,
                }
            },
            None => None,
        },
    }
}

/// Reads a configuration from its persisted form; the whole text must be
/// one well-formed document.
pub fn parse_config(s: &str) -> (r: Option<crate::config::Config>)
    ensures
        r.deep_view() == spec_parse_config(s@),
{
    proof {
        assert(s@.skip(0) =~= s@);
    }
    let j1 = match p_lit(s, 0, "{\"client_id\":") {
        Some(j) => j,
        None => {
            return None;
        },
    };
    let (client_id, j2) = match p_opt_string(s, j1) {
        Some(p) => p,
        None => {
            return None;
        },
    };
    let j3 = match p_lit(s, j2, ",\"client_secret\":") {
        Some(j) => j,
        None => {
            return None;
        },
    };
    let (client_secret, j4) = match p_opt_string(s, j3) {
        Some(p) => p,
        None => {
            return None;
        },
    };
    let j5 = match p_lit(s, j4, ",\"enable_cjk_font\":") {
        Some(j) => j,
        None => {
            return None;
        },
    };
    let (cjk, j6) = match p_bool(s, j5) {
        Some(p) => p,
        None => {
            return None;
        },
    };
    let j7 = match p_lit(s, j6, ",\"font_size\":") {
        Some(j) => j,
        None => {
            return None;
        },
    };
    let (font, j8) = match p_u32(s, j7) {
        Some(p) => p,
        None => {
            return None;
        },
    };
    let j9 = match p_lit(s, j8, ",\"emote_size\":") {
        Some(j) => j,
        None => {
            return None;
        },
    };
    let (emote, j10) = match p_u32(s, j9) {
        Some(p) => p,
        None => {
            return None;
        },
    };
    let j11 = match p_lit(s, j10, ",\"show_timestamps\":") {
        Some(j) => j,
        None => {
            return None;
        },
    };
    let (ts, j12) = match p_bool(s, j11) {
        Some(p) => p,
        None => {
            return None;
        },
    };
    let j13 = match p_lit(s, j12, ",\"collapse_emotes\":") {
        Some(j) => j,
        None => {
            return None;
        },
    };
    let (collapse, j14) = match p_bool(s, j13) {
        Some(p) => p,
        None => {
            return None;
        },
    };
    let j15 = match p_lit(s, j14, ",\"profiles\":[") {
        Some(j) => j,
        None => {
            return None;
        },
    };
    let (profiles, j16) = match p_profile_block(s, j15) {
        Some(p) => p,
        None => {
            return None;
        },
    };
    let (active, j17) = match p_opt_string(s, j16) {
        Some(p) => p,
        None => {
            return None;
        },
    };
    let j18 = match p_lit(s, j17, "}") {
        Some(j) => j,
        None => {
            return None;
        },
    };
    if j18 != s.unicode_len() {
        return None;
    }
    Some(
        crate::config::Config {
            client_id,
            client_secret,
            enable_cjk_font: cjk,
            font_size: font,
            emote_size: emote,
            show_timestamps: ts,
            collapse_emotes: collapse,
            profiles,
            active_profile_name: active,
        },
    )
}

} // verus!
