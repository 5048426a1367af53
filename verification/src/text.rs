//! Character- and string-level building blocks: C identifier sanitising,
//! decimal rendering, joining, lexicographic order of names, and the two
//! Unicode case conversions that come from std.
use vstd::prelude::*;

verus! {

/// Appends one character to a `String` (std's `String::push`).
/// Trusted: `String::push` appends the given `char` to the end of the string.
#[verifier::external_body]
pub(crate) fn push_char(s: &mut String, c: char)
    ensures
        final(s)@ == old(s)@.push(c),
{
    s.push(c);
}

/// What std's `str::to_uppercase` returns for a string: the Unicode upper-case
/// mapping, which can change the length of the string.
pub uninterp spec fn unicode_upper(s: Seq<char>) -> Seq<char>;

/// What std's `str::to_lowercase` returns for a string: the Unicode lower-case
/// mapping, which can change the length of the string.
pub uninterp spec fn unicode_lower(s: Seq<char>) -> Seq<char>;

/// Trusted: std's `str::to_uppercase`. Its result depends on the string alone;
/// the contract names that result and says nothing more of it.
#[verifier::external_body]
pub(crate) fn to_upper(s: &str) -> (r: String)
    ensures
        r@ == unicode_upper(s@),
{
    s.to_uppercase()
}

/// Trusted: std's `str::to_lowercase`. Its result depends on the string alone;
/// the contract names that result and says nothing more of it.
#[verifier::external_body]
pub(crate) fn to_lower(s: &str) -> (r: String)
    ensures
        r@ == unicode_lower(s@),
{
    s.to_lowercase()
}

// ---------------------------------------------------------------------------
// ASCII classification of characters
// ---------------------------------------------------------------------------

/// `char::is_ascii_alphanumeric`: `'A'..='Z'`, `'a'..='z'` or `'0'..='9'`.
pub open spec fn ascii_alphanumeric(c: char) -> bool {
    ('A' <= c && c <= 'Z') || ('a' <= c && c <= 'z') || ('0' <= c && c <= '9')
}

/// `char::to_ascii_uppercase`: `'a'..='z'` map to `'A'..='Z'`, all else is unchanged.
pub open spec fn ascii_upper(c: char) -> char {
    if 'a' <= c && c <= 'z' {
        ((c as u32) - 32) as char
    } else {
        c
    }
}

/// A character that may stand in a C identifier as this library writes them.
pub open spec fn c_ident_char(c: char) -> bool {
    ascii_alphanumeric(c) || c == '_'
}

/// Whether `c` is ASCII alphanumeric.
pub fn is_ascii_alphanumeric(c: char) -> (r: bool)
    ensures
        r == ascii_alphanumeric(c),
{
    ('A' <= c && c <= 'Z') || ('a' <= c && c <= 'z') || ('0' <= c && c <= '9')
}

/// The ASCII upper-case form of `c`.
pub fn to_ascii_uppercase(c: char) -> (r: char)
    ensures
        r == ascii_upper(c),
{
    if 'a' <= c && c <= 'z' {
        ((c as u8) - 32) as char
    } else {
        c
    }
}

// ---------------------------------------------------------------------------
// C identifiers
// ---------------------------------------------------------------------------

/// The C identifier made of a Rust type name: every character that is not
/// ASCII alphanumeric or `_` is dropped, and letters are upper-cased.
pub open spec fn c_name_of(s: Seq<char>) -> Seq<char>
    decreases s.len(),
{
    if s.len() == 0 {
        Seq::empty()
    } else if c_ident_char(s.last()) {
        c_name_of(s.drop_last()).push(ascii_upper(s.last()))
    } else {
        c_name_of(s.drop_last())
    }
}

/// The same map written as the match on character ranges used by the header
/// generator: `'a'..='z' | 'A'..='Z' | '0'..='9' | '_'` are kept, upper-cased.
pub open spec fn sanitized_of(s: Seq<char>) -> Seq<char>
    decreases s.len(),
{
    if s.len() == 0 {
        Seq::empty()
    } else {
        let c = s.last();
        let keep = ('a' <= c && c <= 'z') || ('A' <= c && c <= 'Z') || ('0' <= c && c <= '9')
            || c == '_';
        if keep {
            sanitized_of(s.drop_last()).push(ascii_upper(c))
        } else {
            sanitized_of(s.drop_last())
        }
    }
}

/// A character that can appear in what `c_name` returns.
pub open spec fn c_output_char(c: char) -> bool {
    ('A' <= c && c <= 'Z') || ('0' <= c && c <= '9') || c == '_'
}

/// Turn a Rust type name (e.g. `Option<Vec2>`) into a valid C identifier (`OPTIONVEC2`).
pub fn c_name(name: &str) -> (r: String)
    ensures
        r@ == c_name_of(name@),
{
    let mut out = String::new();
    for c in it: name.chars()
        invariant
            it.seq() == name@,
            out@ == c_name_of(name@.take(it.index() as int)),
    {
        proof {
            assert(name@.take(it.index() + 1).drop_last() =~= name@.take(it.index() as int));
        }
        if is_ascii_alphanumeric(c) || c == '_' {
            push_char(&mut out, to_ascii_uppercase(c));
        }
    }
    proof {
        assert(name@.take(name@.len() as int) =~= name@);
    }
    out
}

/// Turn a Rust type name like `Option<Vec2>` into a valid C identifier like `OPTIONVEC2`.
pub fn sanitize_c_name(name: &str) -> (r: String)
    ensures
        r@ == sanitized_of(name@),
{
    let mut out = String::new();
    for c in it: name.chars()
        invariant
            it.seq() == name@,
            out@ == sanitized_of(name@.take(it.index() as int)),
    {
        proof {
            assert(name@.take(it.index() + 1).drop_last() =~= name@.take(it.index() as int));
        }
        let keep = match c {
            'a'..='z' | 'A'..='Z' | '0'..='9' | '_' => true,
            _ => false,
        };
        if keep {
            push_char(&mut out, to_ascii_uppercase(c));
        }
    }
    proof {
        assert(name@.take(name@.len() as int) =~= name@);
    }
    out
}

/// The two sanitisers of type names agree on every input.
pub proof fn lemma_sanitize_is_c_name(s: Seq<char>)
    ensures
        sanitized_of(s) == c_name_of(s),
    decreases s.len(),
{
    if s.len() > 0 {
        lemma_sanitize_is_c_name(s.drop_last());
    }
}

/// A sanitised name holds only `A`-`Z`, `0`-`9` and `_`.
pub proof fn lemma_c_name_chars(s: Seq<char>)
    ensures
        forall|i: int| 0 <= i < c_name_of(s).len() ==> c_output_char(#[trigger] c_name_of(s)[i]),
    decreases s.len(),
{
    if s.len() > 0 {
        lemma_c_name_chars(s.drop_last());
        let c = s.last();
        if c_ident_char(c) {
            if 'a' <= c && c <= 'z' {
                let u = (c as u32) - 32;
                assert(65 <= u <= 90);
                assert((u as u32) as char as u32 == u);
                assert('A' <= ascii_upper(c) && ascii_upper(c) <= 'Z');
            }
            assert(c_output_char(ascii_upper(c)));
            let t = c_name_of(s);
            assert forall|i: int| 0 <= i < t.len() implies c_output_char(#[trigger] t[i]) by {
                if i < t.len() - 1 {
                    assert(t[i] == c_name_of(s.drop_last())[i]);
                }
            }
        }
    }
}

/// Sanitising a sanitised name changes nothing.
pub proof fn lemma_c_name_idempotent(s: Seq<char>)
    ensures
        c_name_of(c_name_of(s)) == c_name_of(s),
{
    lemma_c_name_chars(s);
    lemma_c_name_fixes_output(c_name_of(s));
}

/// A name made of output characters only is its own C name.
pub proof fn lemma_c_name_fixes_output(t: Seq<char>)
    requires
        forall|i: int| 0 <= i < t.len() ==> c_output_char(#[trigger] t[i]),
    ensures
        c_name_of(t) == t,
    decreases t.len(),
{
    if t.len() > 0 {
        assert forall|i: int| 0 <= i < t.drop_last().len() implies c_output_char(
            #[trigger] t.drop_last()[i],
        ) by {
            assert(t.drop_last()[i] == t[i]);
        }
        lemma_c_name_fixes_output(t.drop_last());
        assert(c_output_char(t[t.len() - 1]));
        assert(t.drop_last().push(t.last()) =~= t);
    }
}

/// A character a C name keeps, told by its code point: `_` (95), the digits
/// (48 to 57) and the ASCII letters (65 to 90 and 97 to 122).
pub open spec fn kept_code_point(c: char) -> bool {
    let u = c as u32;
    u == 95 || (48 <= u && u <= 57) || (65 <= u && u <= 90) || (97 <= u && u <= 122)
}

/// `ascii_alphanumeric` holds of exactly the digits and the ASCII letters, by code point.
pub proof fn lemma_ascii_alphanumeric_code_points(c: char)
    ensures
        ascii_alphanumeric(c) <==> ((48 <= c as u32 && c as u32 <= 57) || (65 <= c as u32 && c
            as u32 <= 90) || (97 <= c as u32 && c as u32 <= 122)),
        c_ident_char(c) <==> kept_code_point(c),
{
    assert('_' as u32 == 95);
}

/// The C name of a one-character name: a lower-case ASCII letter becomes
/// its upper-case letter (32 code points lower), an upper-case letter, a
/// digit or `_` stays, and every other character is dropped.
pub proof fn lemma_c_name_of_char(c: char)
    ensures
        97 <= c as u32 && c as u32 <= 122 ==> c_name_of(seq![c]).len() == 1 && c_name_of(
            seq![c],
        )[0] as u32 == c as u32 - 32,
        kept_code_point(c) && !(97 <= c as u32 && c as u32 <= 122) ==> c_name_of(seq![c]) == seq![c],
        !kept_code_point(c) ==> c_name_of(seq![c]).len() == 0,
{
    let s = seq![c];
    lemma_ascii_alphanumeric_code_points(c);
    assert(s.drop_last() =~= Seq::<char>::empty());
    assert(c_name_of(s.drop_last()) =~= Seq::<char>::empty());
    assert(s.last() == c);
    if 97 <= c as u32 && c as u32 <= 122 {
        let u = (c as u32) - 32;
        assert((u as u32) as char as u32 == u);
    }
}

/// The C name of two names one after the other is their C names one after
/// the other: each character is kept or dropped on its own.
pub proof fn lemma_c_name_of_append(s: Seq<char>, t: Seq<char>)
    ensures
        c_name_of(s + t) == c_name_of(s) + c_name_of(t),
    decreases t.len(),
{
    if t.len() == 0 {
        assert(s + t =~= s);
        assert(c_name_of(s) + c_name_of(t) =~= c_name_of(s));
    } else {
        assert((s + t).drop_last() =~= s + t.drop_last());
        assert((s + t).last() == t.last());
        lemma_c_name_of_append(s, t.drop_last());
        if c_ident_char(t.last()) {
            assert(c_name_of(s) + c_name_of(t) =~= (c_name_of(s) + c_name_of(t.drop_last())).push(
                ascii_upper(t.last()),
            ));
        }
    }
}

/// The number of characters of `s` that a C name keeps.
pub open spec fn kept_count(s: Seq<char>) -> nat
    decreases s.len(),
{
    if s.len() == 0 {
        0
    } else {
        kept_count(s.drop_last()) + if kept_code_point(s.last()) {
            1nat
        } else {
            0nat
        }
    }
}

/// A C name has one character for each kept character of the name.
pub proof fn lemma_c_name_of_len(s: Seq<char>)
    ensures
        c_name_of(s).len() == kept_count(s),
    decreases s.len(),
{
    if s.len() > 0 {
        lemma_c_name_of_len(s.drop_last());
        lemma_ascii_alphanumeric_code_points(s.last());
    }
}

// ---------------------------------------------------------------------------
// Decimal numbers
// ---------------------------------------------------------------------------

/// The decimal digit for `d < 10`.
pub open spec fn digit_char(d: nat) -> char {
    ((48 + d) as u32) as char
}

/// The decimal rendering of `n`, as `format!("{}", n)` writes it.
pub open spec fn decimal(n: nat) -> Seq<char>
    decreases n,
{
    if n < 10 {
        seq![digit_char(n)]
    } else {
        decimal(n / 10).push(digit_char(n % 10))
    }
}

/// The number that a string of decimal digits stands for.
pub open spec fn digits_value(d: Seq<char>) -> int
    decreases d.len(),
{
    if d.len() == 0 {
        0
    } else {
        digits_value(d.drop_last()) * 10 + (d.last() as u32 - 48)
    }
}

/// The decimal rendering of `n` is made of digits (code points 48 to 57),
/// starts with `0` only when it is `0`, and reads back as `n`.
pub proof fn lemma_decimal_reads_back(n: nat)
    ensures
        decimal(n).len() > 0,
        forall|i: int|
            0 <= i < decimal(n).len() ==> 48 <= #[trigger] decimal(n)[i] as u32 && decimal(n)[i] as u32
                <= 57,
        n > 0 ==> decimal(n)[0] != '0',
        digits_value(decimal(n)) == n,
    decreases n,
{
    if n < 10 {
        let u = (48 + n) as u32;
        assert(u == 48 + n);
        assert(u as char as u32 == u);
        assert(digit_char(n) as u32 == 48 + n);
        assert(decimal(n) =~= seq![digit_char(n)]);
        assert(decimal(n)[0] as u32 == 48 + n);
        assert(decimal(n).drop_last() =~= Seq::<char>::empty());
        assert(digits_value(decimal(n).drop_last()) == 0);
    } else {
        lemma_decimal_reads_back(n / 10);
        let u = (48 + n % 10) as u32;
        assert(u == 48 + n % 10);
        assert(u as char as u32 == u);
        assert(digit_char(n % 10) as u32 == 48 + n % 10);
        let d = decimal(n);
        assert(d.drop_last() =~= decimal(n / 10));
        assert(d[0] == decimal(n / 10)[0]);
        assert forall|i: int| 0 <= i < d.len() implies 48 <= #[trigger] d[i] as u32 && d[i] as u32
            <= 57 by {
            if i < d.len() - 1 {
                assert(d[i] == decimal(n / 10)[i]);
            }
        }
        assert(n == (n / 10) * 10 + n % 10);
    }
}

/// Appends the decimal rendering of `n`.
pub fn push_decimal(out: &mut String, n: usize)
    ensures
        final(out)@ == old(out)@ + decimal(n as nat),
    decreases n,
{
    if n >= 10 {
        push_decimal(out, n / 10);
    }
    let d = (n % 10) as u8;
    let c = (48u8 + d) as char;
    push_char(out, c);
    proof {
        if n >= 10 {
            assert(old(out)@ + decimal(n as nat) =~= old(out)@ + decimal((n / 10) as nat) + seq![c]);
        } else {
            assert(old(out)@ + decimal(n as nat) =~= old(out)@ + seq![c]);
        }
    }
}

// ---------------------------------------------------------------------------
// Joining pieces of text
// ---------------------------------------------------------------------------

/// All pieces, one after another.
pub open spec fn concat(pieces: Seq<Seq<char>>) -> Seq<char>
    decreases pieces.len(),
{
    if pieces.len() == 0 {
        Seq::empty()
    } else {
        concat(pieces.drop_last()) + pieces.last()
    }
}

/// The pieces with `sep` between each two, as `join(sep)` does.
pub open spec fn join(pieces: Seq<Seq<char>>, sep: Seq<char>) -> Seq<char>
    decreases pieces.len(),
{
    if pieces.len() == 0 {
        Seq::empty()
    } else if pieces.len() == 1 {
        pieces[0]
    } else {
        join(pieces.drop_last(), sep) + sep + pieces.last()
    }
}

// ---------------------------------------------------------------------------
// Lexicographic order of names
// ---------------------------------------------------------------------------

/// Lexicographic order on strings, character by character. For UTF-8 text it
/// is the order `Ord for str` uses (byte order and code point order agree).
pub open spec fn lex_lt(a: Seq<char>, b: Seq<char>) -> bool
    decreases a.len(),
{
    if a.len() == 0 {
        b.len() > 0
    } else if b.len() == 0 {
        false
    } else if a[0] < b[0] {
        true
    } else if a[0] == b[0] {
        lex_lt(a.drop_first(), b.drop_first())
    } else {
        false
    }
}

/// `lex_lt` is irreflexive.
pub proof fn lemma_lex_irreflexive(a: Seq<char>)
    ensures
        !lex_lt(a, a),
    decreases a.len(),
{
    if a.len() > 0 {
        lemma_lex_irreflexive(a.drop_first());
    }
}

/// `lex_lt` is transitive.
pub proof fn lemma_lex_transitive(a: Seq<char>, b: Seq<char>, c: Seq<char>)
    requires
        lex_lt(a, b),
        lex_lt(b, c),
    ensures
        lex_lt(a, c),
    decreases a.len(),
{
    if a.len() > 0 && b.len() > 0 && c.len() > 0 {
        if a[0] == b[0] && b[0] == c[0] {
            lemma_lex_transitive(a.drop_first(), b.drop_first(), c.drop_first());
        }
    }
}

/// Any two strings are equal or ordered one way or the other.
pub proof fn lemma_lex_total(a: Seq<char>, b: Seq<char>)
    ensures
        lex_lt(a, b) || lex_lt(b, a) || a == b,
    decreases a.len(),
{
    if a.len() > 0 && b.len() > 0 {
        if a[0] == b[0] {
            lemma_lex_total(a.drop_first(), b.drop_first());
            if a.drop_first() == b.drop_first() {
                assert(a =~= seq![a[0]] + a.drop_first());
                assert(b =~= seq![b[0]] + b.drop_first());
            }
        }
    } else if a.len() == 0 && b.len() == 0 {
        assert(a =~= b);
    }
}

/// The characters of a string, in a vector.
pub fn chars_of(s: &str) -> (r: Vec<char>)
    ensures
        r@ == s@,
{
    let mut out: Vec<char> = Vec::new();
    for c in it: s.chars()
        invariant
            it.seq() == s@,
            out@ == s@.take(it.index() as int),
    {
        proof {
            assert(s@.take(it.index() + 1) =~= s@.take(it.index() as int).push(c));
        }
        out.push(c);
    }
    proof {
        assert(s@.take(s@.len() as int) =~= s@);
    }
    out
}

/// Compares two strings in lexicographic order: `true` exactly when `a < b`.
pub fn str_lt(a: &str, b: &str) -> (r: bool)
    ensures
        r == lex_lt(a@, b@),
{
    let va = chars_of(a);
    let vb = chars_of(b);
    let mut i: usize = 0;
    proof {
        assert(a@.skip(0) =~= a@);
        assert(b@.skip(0) =~= b@);
    }
    while i < va.len() && i < vb.len()
        invariant
            va@ == a@,
            vb@ == b@,
            i <= va.len(),
            i <= vb.len(),
            forall|k: int| 0 <= k < i ==> va@[k] == vb@[k],
            lex_lt(a@, b@) == lex_lt(a@.skip(i as int), b@.skip(i as int)),
        decreases va.len() - i,
    {
        if va[i] < vb[i] {
            proof {
                assert(lex_lt(a@.skip(i as int), b@.skip(i as int)));
            }
            return true;
        }
        if va[i] != vb[i] {
            proof {
                assert(!lex_lt(a@.skip(i as int), b@.skip(i as int)));
            }
            return false;
        }
        proof {
            assert(a@.skip(i as int).drop_first() =~= a@.skip(i + 1));
            assert(b@.skip(i as int).drop_first() =~= b@.skip(i + 1));
        }
        i = i + 1;
    }
    i == va.len() && i < vb.len()
}

} // verus!
