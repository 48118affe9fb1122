//! Character-level helpers: conversions between `str`/`String` and `Vec<char>`,
//! comparisons, and the character classes the rest of the library uses.
//!
//! Text is modelled as `Seq<char>` (the view of `str`, `String` and
//! `Vec<char>`); the executable helpers work on `Vec<char>`.

use vstd::prelude::*;
use vstd::string::{StrSliceExecFns, StringExecFns};

verus! {

// ---------------------------------------------------------------------------
// Character classes
// ---------------------------------------------------------------------------

pub open spec fn is_digit(c: char) -> bool {
    '0' <= c && c <= '9'
}

pub open spec fn is_upper(c: char) -> bool {
    'A' <= c && c <= 'Z'
}

pub open spec fn is_lower(c: char) -> bool {
    'a' <= c && c <= 'z'
}

/// `char::is_ascii_alphanumeric`.
pub open spec fn is_alnum(c: char) -> bool {
    is_digit(c) || is_upper(c) || is_lower(c)
}

/// `char::to_ascii_lowercase`.
pub open spec fn lower_char(c: char) -> char {
    if is_upper(c) {
        ((c as u32) + 32) as char
    } else {
        c
    }
}

/// `str::to_ascii_lowercase` on the character sequence.
pub open spec fn lower_ascii(s: Seq<char>) -> Seq<char> {
    Seq::new(s.len(), |i: int| lower_char(s[i]))
}

/// `str::eq_ignore_ascii_case`.
pub open spec fn eq_ignore_case(a: Seq<char>, b: Seq<char>) -> bool {
    lower_ascii(a) == lower_ascii(b)
}

/// `char::is_whitespace`: the Unicode `White_Space` property.
pub open spec fn is_white(c: char) -> bool {
    ||| '\u{9}' <= c && c <= '\u{d}'
    ||| c == ' '
    ||| c == '\u{85}'
    ||| c == '\u{a0}'
    ||| c == '\u{1680}'
    ||| '\u{2000}' <= c && c <= '\u{200a}'
    ||| c == '\u{2028}'
    ||| c == '\u{2029}'
    ||| c == '\u{202f}'
    ||| c == '\u{205f}'
    ||| c == '\u{3000}'
}

pub fn is_white_exec(c: char) -> (r: bool)
    ensures
        r == is_white(c),
{
    ('\u{9}' <= c && c <= '\u{d}') || c == ' ' || c == '\u{85}' || c == '\u{a0}' || c
        == '\u{1680}' || ('\u{2000}' <= c && c <= '\u{200a}') || c == '\u{2028}' || c
        == '\u{2029}' || c == '\u{202f}' || c == '\u{205f}' || c == '\u{3000}'
}

pub fn is_alnum_exec(c: char) -> (r: bool)
    ensures
        r == is_alnum(c),
{
    ('0' <= c && c <= '9') || ('A' <= c && c <= 'Z') || ('a' <= c && c <= 'z')
}

pub fn lower_char_exec(c: char) -> (r: char)
    ensures
        r == lower_char(c),
{
    if 'A' <= c && c <= 'Z' {
        let b: u8 = c as u8;
        assert(b as u32 == c as u32);
        ((b + 32) as char)
    } else {
        c
    }
}

// ---------------------------------------------------------------------------
// Trimming, splitting, joining
// ---------------------------------------------------------------------------

/// `str::trim_start`.
pub open spec fn trim_start(s: Seq<char>) -> Seq<char>
    decreases s.len(),
{
    if s.len() > 0 && is_white(s[0]) {
        trim_start(s.drop_first())
    } else {
        s
    }
}

/// `str::trim_end`.
pub open spec fn trim_end(s: Seq<char>) -> Seq<char>
    decreases s.len(),
{
    if s.len() > 0 && is_white(s.last()) {
        trim_end(s.drop_last())
    } else {
        s
    }
}

/// `str::trim`.
pub open spec fn trim(s: Seq<char>) -> Seq<char> {
    trim_end(trim_start(s))
}

/// `str::split` on one character: the pieces between separators, in order.
/// There is always at least one piece.
pub open spec fn split(s: Seq<char>, sep: char) -> Seq<Seq<char>>
    decreases s.len(),
{
    if s.len() == 0 {
        seq![Seq::<char>::empty()]
    } else {
        let p = split(s.drop_last(), sep);
        if s.last() == sep {
            p.push(Seq::<char>::empty())
        } else {
            p.update(p.len() - 1, p.last().push(s.last()))
        }
    }
}

/// `<[S]>::join` with a one-character separator.
pub open spec fn join(pieces: Seq<Seq<char>>, sep: char) -> Seq<char>
    decreases pieces.len(),
{
    if pieces.len() == 0 {
        Seq::<char>::empty()
    } else if pieces.len() == 1 {
        pieces[0]
    } else {
        join(pieces.drop_last(), sep).push(sep) + pieces.last()
    }
}

/// The views of a sequence of character vectors.
pub open spec fn views(vs: Seq<Vec<char>>) -> Seq<Seq<char>> {
    Seq::new(vs.len(), |i: int| vs[i]@)
}

// ---------------------------------------------------------------------------
// Decimal numbers
// ---------------------------------------------------------------------------

pub open spec fn digit_char(d: nat) -> char {
    if d == 0 {
        '0'
    } else if d == 1 {
        '1'
    } else if d == 2 {
        '2'
    } else if d == 3 {
        '3'
    } else if d == 4 {
        '4'
    } else if d == 5 {
        '5'
    } else if d == 6 {
        '6'
    } else if d == 7 {
        '7'
    } else if d == 8 {
        '8'
    } else {
        '9'
    }
}

/// Decimal digits of `n` without leading zeros (what `Display` prints).
pub open spec fn decimal(n: nat) -> Seq<char>
    decreases n,
{
    if n < 10 {
        seq![digit_char(n)]
    } else {
        decimal(n / 10).push(digit_char(n % 10))
    }
}

/// What `Display` prints for a signed integer.
pub open spec fn signed_decimal(n: int) -> Seq<char> {
    if n < 0 {
        seq!['-'] + decimal((-n) as nat)
    } else {
        decimal(n as nat)
    }
}

pub open spec fn digit_value(c: char) -> nat {
    ((c as u32) - ('0' as u32)) as nat
}

pub open spec fn all_digits(s: Seq<char>) -> bool {
    forall|i: int| 0 <= i < s.len() ==> is_digit(#[trigger] s[i])
}

/// The number a run of decimal digits denotes.
pub open spec fn digits_value(s: Seq<char>) -> nat
    decreases s.len(),
{
    if s.len() == 0 {
        0
    } else {
        digits_value(s.drop_last()) * 10 + digit_value(s.last())
    }
}

/// The digits after an optional leading `+`.
pub open spec fn unsigned_digits(s: Seq<char>) -> Seq<char> {
    if s.len() > 0 && s[0] == '+' {
        s.drop_first()
    } else {
        s
    }
}

/// `str::parse::<u64>`: an optional `+`, then at least one decimal digit,
/// denoting a value that fits.
pub open spec fn parse_u64(s: Seq<char>) -> Option<u64> {
    let d = unsigned_digits(s);
    if d.len() > 0 && all_digits(d) && digits_value(d) <= u64::MAX {
        Some(digits_value(d) as u64)
    } else {
        None
    }
}

/// `str::parse::<i64>`: an optional sign, then at least one decimal digit,
/// denoting a value in range.
pub open spec fn parse_i64(s: Seq<char>) -> Option<i64> {
    if s.len() > 0 && s[0] == '-' {
        let d = s.drop_first();
        if d.len() > 0 && all_digits(d) && digits_value(d) <= 0x8000_0000_0000_0000 {
            Some((0 - digits_value(d)) as i64)
        } else {
            None
        }
    } else {
        let d = unsigned_digits(s);
        if d.len() > 0 && all_digits(d) && digits_value(d) <= i64::MAX {
            Some(digits_value(d) as i64)
        } else {
            None
        }
    }
}

pub proof fn lemma_digits_value_prefix(s: Seq<char>, j: int)
    requires
        0 <= j <= s.len(),
    ensures
        digits_value(s.take(j)) <= digits_value(s),
    decreases s.len(),
{
    if j < s.len() {
        lemma_digits_value_prefix(s.drop_last(), j);
        assert(s.drop_last().take(j) =~= s.take(j));
    } else {
        assert(s.take(j) =~= s);
    }
}

proof fn lemma_digits_value_step(s: Seq<char>, k: int)
    requires
        0 <= k < s.len(),
    ensures
        digits_value(s.take(k + 1)) == digits_value(s.take(k)) * 10 + digit_value(s[k]),
{
    assert(s.take(k + 1).drop_last() =~= s.take(k));
}

proof fn lemma_digit_char(d: nat)
    requires
        d < 10,
    ensures
        is_digit(digit_char(d)),
        digit_value(digit_char(d)) == d,
{
}

/// The digits `Display` prints for `n` read back as `n`.
pub proof fn lemma_decimal_reads_back(n: nat)
    ensures
        decimal(n).len() > 0,
        all_digits(decimal(n)),
        digits_value(decimal(n)) == n,
    decreases n,
{
    if n < 10 {
        lemma_digit_char(n);
        assert(decimal(n).drop_last() =~= Seq::<char>::empty());
        assert(digits_value(Seq::<char>::empty()) == 0);
        assert(digits_value(decimal(n)) == digits_value(decimal(n).drop_last()) * 10 + digit_value(
            decimal(n).last(),
        ));
    } else {
        lemma_decimal_reads_back(n / 10);
        lemma_digit_char(n % 10);
        let d = decimal(n);
        assert(d.drop_last() =~= decimal(n / 10));
        assert(d.last() == digit_char(n % 10));
        assert(digits_value(d) == digits_value(decimal(n / 10)) * 10 + digit_value(digit_char(n % 10)));
        assert(all_digits(d)) by {
            assert forall|i: int| 0 <= i < d.len() implies is_digit(#[trigger] d[i]) by {
                if i < d.len() - 1 {
                    assert(d[i] == decimal(n / 10)[i]);
                }
            }
        }
    }
}

/// `str::parse::<u64>` reads back what `Display` prints.
pub proof fn lemma_parse_decimal(n: u64)
    ensures
        parse_u64(decimal(n as nat)) == Some(n),
        n <= i64::MAX ==> parse_i64(decimal(n as nat)) == Some(n as i64),
{
    lemma_decimal_reads_back(n as nat);
    let d = decimal(n as nat);
    assert(is_digit(d[0]));
    assert(unsigned_digits(d) == d);
}

/// The characters of `decimal(n)` are all digits.
pub proof fn lemma_decimal_digit_at(n: nat, i: int)
    requires
        0 <= i < decimal(n).len(),
    ensures
        is_digit(decimal(n)[i]),
{
    lemma_decimal_reads_back(n);
}

/// A piece of `a` is a piece of `a + b`.
pub proof fn lemma_infix_left(a: Seq<char>, b: Seq<char>, p: Seq<char>)
    requires
        has_infix(a, p),
    ensures
        has_infix(a + b, p),
{
    let i = choose|i: int| 0 <= i && i + p.len() <= a.len() && #[trigger] a.subrange(i, i + p.len()) == p;
    assert((a + b).subrange(i, i + p.len()) =~= a.subrange(i, i + p.len()));
}

/// A piece of `b` is a piece of `a + b`.
pub proof fn lemma_infix_right(a: Seq<char>, b: Seq<char>, p: Seq<char>)
    requires
        has_infix(b, p),
    ensures
        has_infix(a + b, p),
{
    let i = choose|i: int| 0 <= i && i + p.len() <= b.len() && #[trigger] b.subrange(i, i + p.len()) == p;
    assert((a + b).subrange(a.len() + i, a.len() + i + p.len()) =~= b.subrange(i, i + p.len()));
}

/// Every text is a piece of itself.
pub proof fn lemma_infix_self(p: Seq<char>)
    ensures
        has_infix(p, p),
{
    assert(p.subrange(0, 0 + p.len() as int) =~= p);
}

/// Every piece joined is a piece of the joined text.
pub proof fn lemma_join_holds_pieces(pieces: Seq<Seq<char>>, sep: char, j: int)
    requires
        0 <= j < pieces.len(),
    ensures
        has_infix(join(pieces, sep), pieces[j]),
    decreases pieces.len(),
{
    if pieces.len() == 1 {
        lemma_infix_self(pieces[0]);
    } else {
        let front = join(pieces.drop_last(), sep);
        assert(front.push(sep) =~= front + seq![sep]);
        if j == pieces.len() - 1 {
            lemma_infix_self(pieces.last());
            lemma_infix_right(front.push(sep), pieces.last(), pieces[j]);
        } else {
            lemma_join_holds_pieces(pieces.drop_last(), sep, j);
            assert(pieces.drop_last()[j] == pieces[j]);
            lemma_infix_left(front, seq![sep], pieces[j]);
            lemma_infix_left(front.push(sep), pieces.last(), pieces[j]);
        }
    }
}

// ---------------------------------------------------------------------------
// Executable helpers
// ---------------------------------------------------------------------------

/// Appends one character (std `String::push`).
#[verifier::external_body]
pub(crate) fn push_char(s: &mut String, c: char)
    ensures
        final(s)@ == old(s)@.push(c),
{
    s.push(c);
}

/// The characters of `s`, in order.
pub fn chars_of(s: &str) -> (v: Vec<char>)
    ensures
        v@ == s@,
{
    let mut v: Vec<char> = Vec::new();
    for c in it: s.chars()
        invariant
            v@ == it.seq().take(it.index() as int),
            it.seq() == s@,
    {
        v.push(c);
    }
    v
}

/// A `String` holding the given characters.
pub fn string_of(v: &Vec<char>) -> (s: String)
    ensures
        s@ == v@,
{
    let mut s = String::new();
    for i in 0..v.len()
        invariant
            s@ == v@.take(i as int),
    {
        push_char(&mut s, v[i]);
        assert(v@.take(i + 1) =~= v@.take(i as int).push(v@[i as int]));
    }
    assert(v@.take(v.len() as int) =~= v@);
    s
}

pub fn seq_eq(a: &Vec<char>, b: &Vec<char>) -> (r: bool)
    ensures
        r == (a@ == b@),
{
    if a.len() != b.len() {
        return false;
    }
    for i in 0..a.len()
        invariant
            a.len() == b.len(),
            forall|j: int| 0 <= j < i ==> a@[j] == b@[j],
    {
        if a[i] != b[i] {
            return false;
        }
    }
    assert(a@ =~= b@);
    true
}

/// Whether the characters equal those of a string literal.
pub fn eq_str(a: &Vec<char>, lit: &str) -> (r: bool)
    ensures
        r == (a@ == lit@),
{
    let b = chars_of(lit);
    seq_eq(a, &b)
}

/// `v[from..to]` as a new vector.
pub fn subvec(v: &Vec<char>, from: usize, to: usize) -> (r: Vec<char>)
    requires
        from <= to <= v.len(),
    ensures
        r@ == v@.subrange(from as int, to as int),
{
    let mut r: Vec<char> = Vec::new();
    let mut i = from;
    while i < to
        invariant
            from <= i <= to <= v.len(),
            r@ == v@.subrange(from as int, i as int),
        decreases to - i,
    {
        r.push(v[i]);
        assert(v@.subrange(from as int, i + 1) =~= v@.subrange(from as int, i as int).push(
            v@[i as int],
        ));
        i = i + 1;
    }
    r
}

/// `str::contains` with a string: `p` occurs in `s` at some position.
pub open spec fn has_infix(s: Seq<char>, p: Seq<char>) -> bool {
    exists|i: int| 0 <= i && i + p.len() <= s.len() && #[trigger] s.subrange(i, i + p.len()) == p
}

/// Whether `p` occurs in `v`.
pub fn contains_vec(v: &Vec<char>, p: &Vec<char>) -> (r: bool)
    ensures
        r == has_infix(v@, p@),
{
    if p.len() == 0 {
        assert(v@.subrange(0, 0 + p@.len() as int) =~= p@);
        return true;
    }
    if p.len() > v.len() {
        return false;
    }
    let last = v.len() - p.len();
    let mut i: usize = 0;
    while i <= last
        invariant
            1 <= p.len() <= v.len(),
            last == v.len() - p.len(),
            i <= last + 1,
            forall|j: int| 0 <= j < i ==> #[trigger] v@.subrange(j, j + p.len()) != p@,
        decreases last + 1 - i,
    {
        let piece = subvec(v, i, i + p.len());
        if seq_eq(&piece, p) {
            return true;
        }
        i = i + 1;
    }
    false
}

/// Appends `src` to `dst`.
pub fn extend(dst: &mut Vec<char>, src: &Vec<char>)
    ensures
        final(dst)@ == old(dst)@ + src@,
{
    for i in 0..src.len()
        invariant
            dst@ == old(dst)@ + src@.take(i as int),
    {
        dst.push(src[i]);
        assert(src@.take(i + 1) =~= src@.take(i as int).push(src@[i as int]));
    }
    assert(src@.take(src.len() as int) =~= src@);
}

/// Appends the characters of a literal.
pub fn extend_str(dst: &mut Vec<char>, lit: &str)
    ensures
        final(dst)@ == old(dst)@ + lit@,
{
    let src = chars_of(lit);
    extend(dst, &src);
}

/// Whether `v` starts with the literal `lit`.
pub fn starts_with_str(v: &Vec<char>, lit: &str) -> (r: bool)
    ensures
        r == (lit@.len() <= v@.len() && v@.take(lit@.len() as int) == lit@),
{
    let p = chars_of(lit);
    if p.len() > v.len() {
        return false;
    }
    for i in 0..p.len()
        invariant
            p@ == lit@,
            p.len() <= v.len(),
            forall|j: int| 0 <= j < i ==> v@[j] == p@[j],
    {
        if v[i] != p[i] {
            return false;
        }
    }
    assert(v@.take(p.len() as int) =~= p@);
    true
}

/// Whether `v` ends with the literal `lit`.
pub fn ends_with_str(v: &Vec<char>, lit: &str) -> (r: bool)
    ensures
        r == (lit@.len() <= v@.len() && v@.skip(v@.len() - lit@.len()) == lit@),
{
    let p = chars_of(lit);
    if p.len() > v.len() {
        return false;
    }
    let off = v.len() - p.len();
    for i in 0..p.len()
        invariant
            p@ == lit@,
            p.len() <= v.len(),
            off == v.len() - p.len(),
            forall|j: int| 0 <= j < i ==> v@[off + j] == p@[j],
    {
        if v[off + i] != p[i] {
            assert(v@.skip(off as int)[i as int] == v@[off + i]);
            return false;
        }
    }
    assert(v@.skip(off as int) =~= p@);
    true
}

/// `str::to_ascii_lowercase`.
pub fn lower_ascii_vec(v: &Vec<char>) -> (r: Vec<char>)
    ensures
        r@ == lower_ascii(v@),
{
    let mut r: Vec<char> = Vec::new();
    for i in 0..v.len()
        invariant
            r@ =~= lower_ascii(v@.take(i as int)),
    {
        r.push(lower_char_exec(v[i]));
        assert(lower_ascii(v@.take(i + 1)) =~= lower_ascii(v@.take(i as int)).push(
            lower_char(v@[i as int]),
        ));
    }
    assert(v@.take(v.len() as int) =~= v@);
    r
}

/// `str::eq_ignore_ascii_case` against a literal.
pub fn eq_ignore_case_str(v: &Vec<char>, lit: &str) -> (r: bool)
    ensures
        r == eq_ignore_case(v@, lit@),
{
    let a = lower_ascii_vec(v);
    let p = chars_of(lit);
    let b = lower_ascii_vec(&p);
    seq_eq(&a, &b)
}

proof fn lemma_trim_start_skip(s: Seq<char>, i: int)
    requires
        0 <= i <= s.len(),
        forall|j: int| 0 <= j < i ==> is_white(s[j]),
    ensures
        trim_start(s) == trim_start(s.skip(i)),
    decreases i,
{
    if i > 0 {
        assert(s.skip(1) =~= s.drop_first());
        lemma_trim_start_skip(s.drop_first(), i - 1);
        assert(s.drop_first().skip(i - 1) =~= s.skip(i));
    } else {
        assert(s.skip(0) =~= s);
    }
}

proof fn lemma_trim_end_take(s: Seq<char>, k: int)
    requires
        0 <= k <= s.len(),
        forall|j: int| k <= j < s.len() ==> is_white(s[j]),
    ensures
        trim_end(s) == trim_end(s.take(k)),
    decreases s.len() - k,
{
    if k < s.len() {
        lemma_trim_end_take(s.drop_last(), k);
        assert(s.drop_last().take(k) =~= s.take(k));
    } else {
        assert(s.take(k) =~= s);
    }
}

/// `str::trim`.
pub fn trim_vec(v: &Vec<char>) -> (r: Vec<char>)
    ensures
        r@ == trim(v@),
{
    let mut lo: usize = 0;
    while lo < v.len() && is_white_exec(v[lo])
        invariant
            lo <= v.len(),
            forall|j: int| 0 <= j < lo ==> is_white(v@[j]),
        decreases v.len() - lo,
    {
        lo = lo + 1;
    }
    proof {
        lemma_trim_start_skip(v@, lo as int);
        assert(trim_start(v@.skip(lo as int)) == v@.skip(lo as int));
    }
    let mut hi: usize = v.len();
    while hi > lo && is_white_exec(v[hi - 1])
        invariant
            lo <= hi <= v.len(),
            forall|j: int| hi <= j < v.len() ==> is_white(v@[j]),
        decreases hi,
    {
        hi = hi - 1;
    }
    let ghost t = v@.skip(lo as int);
    proof {
        lemma_trim_end_take(t, hi - lo);
        assert(t.take(hi - lo) =~= v@.subrange(lo as int, hi as int));
    }
    subvec(v, lo, hi)
}

/// `str::split` on one character.
pub fn split_vec(v: &Vec<char>, sep: char) -> (r: Vec<Vec<char>>)
    ensures
        views(r@) == split(v@, sep),
        r@.len() >= 1,
{
    let mut pieces: Vec<Vec<char>> = Vec::new();
    let mut cur: Vec<char> = Vec::new();
    for i in 0..v.len()
        invariant
            views(pieces@).push(cur@) =~= split(v@.take(i as int), sep),
    {
        let c = v[i];
        let ghost pre = v@.take(i as int);
        assert(v@.take(i + 1).drop_last() =~= pre);
        if c == sep {
            pieces.push(cur);
            cur = Vec::new();
            assert(views(pieces@).push(cur@) =~= split(pre, sep).push(Seq::<char>::empty()));
        } else {
            cur.push(c);
        }
    }
    assert(v@.take(v.len() as int) =~= v@);
    pieces.push(cur);
    pieces
}

/// Joins pieces with a one-character separator.
pub fn join_vec(pieces: &Vec<Vec<char>>, sep: char) -> (r: Vec<char>)
    ensures
        r@ == join(views(pieces@), sep),
{
    let mut r: Vec<char> = Vec::new();
    for i in 0..pieces.len()
        invariant
            r@ == join(views(pieces@).take(i as int), sep),
    {
        let ghost pre = views(pieces@).take(i as int);
        assert(views(pieces@).take(i + 1).drop_last() =~= pre);
        if i > 0 {
            r.push(sep);
        }
        extend(&mut r, &pieces[i]);
        if i == 0 {
            assert(views(pieces@).take(1)[0] == pieces@[0]@);
            assert(r@ =~= pieces@[0]@);
        }
    }
    assert(views(pieces@).take(pieces.len() as int) =~= views(pieces@));
    r
}

fn digit_char_exec(d: u128) -> (c: char)
    requires
        d < 10,
    ensures
        c == digit_char(d as nat),
{
    if d == 0 {
        '0'
    } else if d == 1 {
        '1'
    } else if d == 2 {
        '2'
    } else if d == 3 {
        '3'
    } else if d == 4 {
        '4'
    } else if d == 5 {
        '5'
    } else if d == 6 {
        '6'
    } else if d == 7 {
        '7'
    } else if d == 8 {
        '8'
    } else {
        '9'
    }
}

/// Decimal digits of `n`, as `Display` prints an unsigned integer.
pub fn decimal_vec(n: u128) -> (r: Vec<char>)
    ensures
        r@ == decimal(n as nat),
    decreases n,
{
    if n < 10 {
        let mut r: Vec<char> = Vec::new();
        r.push(digit_char_exec(n));
        assert(r@ =~= seq![digit_char(n as nat)]);
        r
    } else {
        let mut r = decimal_vec(n / 10);
        r.push(digit_char_exec(n % 10));
        r
    }
}

/// What `i64::to_string` prints.
pub fn signed_decimal_vec(n: i64) -> (r: Vec<char>)
    ensures
        r@ == signed_decimal(n as int),
{
    if n < 0 {
        let m: u64 = if n == i64::MIN {
            0x8000_0000_0000_0000u64
        } else {
            (-n) as u64
        };
        let d = decimal_vec(m as u128);
        let mut r: Vec<char> = Vec::new();
        r.push('-');
        extend(&mut r, &d);
        assert(r@ =~= seq!['-'] + decimal((-n) as nat));
        r
    } else {
        decimal_vec(n as u128)
    }
}

/// Reads a run of digits `v[from..]`; `None` when a character is not a
/// digit, the run is empty, or the value exceeds `max`.
fn digits_at_most(v: &Vec<char>, from: usize, max: u64) -> (r: Option<u64>)
    requires
        from <= v.len(),
        max >= 9,
    ensures
        ({
            let d = v@.skip(from as int);
            match r {
                Some(x) => d.len() > 0 && all_digits(d) && digits_value(d) <= max && x
                    == digits_value(d),
                None => !(d.len() > 0 && all_digits(d) && digits_value(d) <= max),
            }
        }),
{
    let ghost d = v@.skip(from as int);
    if from == v.len() {
        return None;
    }
    let mut acc: u64 = 0;
    let mut i = from;
    while i < v.len()
        invariant
            from <= i <= v.len(),
            d == v@.skip(from as int),
            all_digits(d.take(i - from)),
            acc as nat == digits_value(d.take(i - from)),
            acc <= max,
            max >= 9,
        decreases v.len() - i,
    {
        let c = v[i];
        proof {
            assert(d[i - from] == c);
        }
        if !('0' <= c && c <= '9') {
            assert(!all_digits(d));
            return None;
        }
        assert((c as u32) >= ('0' as u32) && (c as u32) <= ('9' as u32));
        let dv: u64 = ((c as u32) - ('0' as u32)) as u64;
        assert(dv <= 9);
        proof {
            lemma_digits_value_step(d, i - from);
        }
        if acc > (max - dv) / 10 {
            proof {
                lemma_digits_value_prefix(d, i - from + 1);
            }
            return None;
        }
        acc = acc * 10 + dv;
        proof {
            assert forall|j: int| 0 <= j < i + 1 - from implies is_digit(
                #[trigger] d.take(i + 1 - from)[j],
            ) by {
                if j < i - from {
                    assert(d.take(i + 1 - from)[j] == d.take(i - from)[j]);
                }
            }
        }
        i = i + 1;
    }
    assert(d.take(i - from) =~= d);
    Some(acc)
}

/// `str::parse::<u64>`.
pub fn parse_u64_vec(v: &Vec<char>) -> (r: Option<u64>)
    ensures
        r == parse_u64(v@),
{
    let from: usize = if v.len() > 0 && v[0] == '+' {
        1
    } else {
        0
    };
    assert(v@.skip(from as int) =~= unsigned_digits(v@));
    digits_at_most(v, from, u64::MAX)
}

/// `str::parse::<i64>`.
pub fn parse_i64_vec(v: &Vec<char>) -> (r: Option<i64>)
    ensures
        r == parse_i64(v@),
{
    if v.len() > 0 && v[0] == '-' {
        assert(v@.skip(1) =~= v@.drop_first());
        match digits_at_most(v, 1, 0x8000_0000_0000_0000u64) {
            Some(x) => {
                if x == 0x8000_0000_0000_0000u64 {
                    Some(i64::MIN)
                } else {
                    Some(-(x as i64))
                }
            },
            None => None,
        }
    } else {
        let from: usize = if v.len() > 0 && v[0] == '+' {
            1
        } else {
            0
        };
        assert(v@.skip(from as int) =~= unsigned_digits(v@));
        match digits_at_most(v, from, i64::MAX as u64) {
            Some(x) => Some(x as i64),
            None => None,
        }
    }
}

} // verus!

verus! {

/// The views of a sequence of strings.
pub open spec fn string_views(vs: Seq<String>) -> Seq<Seq<char>> {
    Seq::new(vs.len(), |i: int| vs[i]@)
}

/// The views of a sequence of string slices.
pub open spec fn str_views(vs: Seq<&str>) -> Seq<Seq<char>> {
    Seq::new(vs.len(), |i: int| vs[i]@)
}

/// Appends owned copies of the given slices.
pub fn push_strs(args: &mut Vec<String>, items: &[&str])
    ensures
        string_views(final(args)@) == string_views(old(args)@) + str_views(items@),
{
    for i in 0..items.len()
        invariant
            string_views(args@) =~= string_views(old(args)@) + str_views(items@.take(i as int)),
    {
        let ghost before = args@;
        args.push(String::from_str(items[i]));
        assert(string_views(args@) =~= string_views(before).push(items@[i as int]@));
        assert(str_views(items@.take(i + 1)) =~= str_views(items@.take(i as int)).push(
            items@[i as int]@,
        ));
    }
    assert(items@.take(items.len() as int) =~= items@);
}

/// Appends one owned string.
pub fn push_string(args: &mut Vec<String>, item: String)
    ensures
        string_views(final(args)@) == string_views(old(args)@).push(item@),
{
    let ghost before = args@;
    args.push(item);
    assert(string_views(args@) =~= string_views(before).push(item@));
}

} // verus!


verus! {

/// Whether `s` ends with `suf` (`str::ends_with`).
pub open spec fn has_suffix(s: Seq<char>, suf: Seq<char>) -> bool {
    suf.len() <= s.len() && s.skip(s.len() - suf.len()) == suf
}

/// Whether `s` starts with `pre` (`str::starts_with`).
pub open spec fn has_prefix(s: Seq<char>, pre: Seq<char>) -> bool {
    pre.len() <= s.len() && s.take(pre.len() as int) == pre
}

/// Appends the decimal digits of `n`.
pub fn extend_decimal(dst: &mut Vec<char>, n: u128)
    ensures
        final(dst)@ == old(dst)@ + decimal(n as nat),
{
    let d = decimal_vec(n);
    extend(dst, &d);
}

/// Appends what `Display` prints for `n`.
pub fn extend_signed(dst: &mut Vec<char>, n: i64)
    ensures
        final(dst)@ == old(dst)@ + signed_decimal(n as int),
{
    let d = signed_decimal_vec(n);
    extend(dst, &d);
}

} // verus!

verus! {

/// Index of the first `c` in `s`, or -1.
pub open spec fn find(s: Seq<char>, c: char) -> int
    decreases s.len(),
{
    if s.len() == 0 {
        -1
    } else {
        let k = find(s.drop_last(), c);
        if k >= 0 {
            k
        } else if s.last() == c {
            s.len() - 1
        } else {
            -1
        }
    }
}

pub proof fn lemma_find(s: Seq<char>, c: char)
    ensures
        -1 <= find(s, c) < s.len(),
        find(s, c) >= 0 ==> s[find(s, c)] == c,
        forall|j: int| 0 <= j < s.len() && (find(s, c) < 0 || j < find(s, c)) ==> s[j] != c,
    decreases s.len(),
{
    if s.len() > 0 {
        lemma_find(s.drop_last(), c);
        assert forall|j: int| 0 <= j < s.len() && (find(s, c) < 0 || j < find(s, c)) implies s[j]
            != c by {
            if j < s.len() - 1 {
                assert(s.drop_last()[j] == s[j]);
            }
        }
    }
}

pub proof fn lemma_find_at(s: Seq<char>, c: char, k: int)
    requires
        -1 <= k < s.len(),
        k >= 0 ==> s[k] == c,
        forall|j: int| 0 <= j < s.len() && (k < 0 || j < k) ==> s[j] != c,
    ensures
        find(s, c) == k,
{
    lemma_find(s, c);
    if find(s, c) >= 0 && k >= 0 && find(s, c) != k {
        if find(s, c) < k {
            assert(s[find(s, c)] != c);
        } else {
            assert(s[k] != c);
        }
    }
    if find(s, c) >= 0 && k < 0 {
        assert(s[find(s, c)] != c);
    }
    if find(s, c) < 0 && k >= 0 {
        assert(s[k] != c);
    }
}

/// `str::split_once` on one character: the text before and after the first
/// `c`.
pub open spec fn split_once(s: Seq<char>, c: char) -> Option<(Seq<char>, Seq<char>)> {
    let k = find(s, c);
    if k >= 0 {
        Some((s.take(k), s.skip(k + 1)))
    } else {
        None
    }
}

/// Index of the first `c` at or after `from`, if any.
pub fn find_from(v: &Vec<char>, c: char, from: usize) -> (r: Option<usize>)
    requires
        from <= v.len(),
    ensures
        match r {
            Some(k) => from <= k < v.len() && v@[k as int] == c && forall|j: int|
                from <= j < k ==> v@[j] != c,
            None => forall|j: int| from <= j < v.len() ==> v@[j] != c,
        },
{
    let mut i = from;
    while i < v.len()
        invariant
            from <= i <= v.len(),
            forall|j: int| from <= j < i ==> v@[j] != c,
        decreases v.len() - i,
    {
        if v[i] == c {
            return Some(i);
        }
        i = i + 1;
    }
    None
}

/// The index of the first `c`, as `find` describes it.
pub fn find_vec(v: &Vec<char>, c: char) -> (r: Option<usize>)
    ensures
        match r {
            Some(k) => find(v@, c) == k as int && k < v.len(),
            None => find(v@, c) == -1,
        },
{
    let r = find_from(v, c, 0);
    proof {
        match r {
            Some(k) => lemma_find_at(v@, c, k as int),
            None => lemma_find_at(v@, c, -1),
        }
    }
    r
}

/// `str::split_once` on one character.
pub fn split_once_vec(v: &Vec<char>, c: char) -> (r: Option<(Vec<char>, Vec<char>)>)
    ensures
        match r {
            Some((a, b)) => split_once(v@, c) == Some((a@, b@)),
            None => split_once(v@, c) is None,
        },
{
    match find_vec(v, c) {
        Some(k) => {
            let a = subvec(v, 0, k);
            let b = subvec(v, k + 1, v.len());
            assert(a@ =~= v@.take(k as int));
            assert(b@ =~= v@.skip(k + 1));
            Some((a, b))
        },
        None => None,
    }
}

/// Whether `c` occurs in `v` (`str::contains` with a character).
pub fn contains_char(v: &Vec<char>, c: char) -> (r: bool)
    ensures
        r == v@.contains(c),
{
    match find_from(v, c, 0) {
        Some(k) => {
            assert(v@[k as int] == c);
            true
        },
        None => false,
    }
}

/// `str::strip_prefix` with a literal.
pub fn strip_prefix_str(v: &Vec<char>, lit: &str) -> (r: Option<Vec<char>>)
    ensures
        match r {
            Some(rest) => has_prefix(v@, lit@) && rest@ == v@.skip(lit@.len() as int),
            None => !has_prefix(v@, lit@),
        },
{
    if starts_with_str(v, lit) {
        let n = lit.unicode_len();
        Some(subvec(v, n, v.len()))
    } else {
        None
    }
}

/// `str::strip_prefix` with another text.
pub fn strip_prefix_vec(v: &Vec<char>, pre: &Vec<char>) -> (r: Option<Vec<char>>)
    ensures
        match r {
            Some(rest) => has_prefix(v@, pre@) && rest@ == v@.skip(pre@.len() as int),
            None => !has_prefix(v@, pre@),
        },
{
    if pre.len() > v.len() {
        return None;
    }
    let head = subvec(v, 0, pre.len());
    if seq_eq(&head, pre) {
        Some(subvec(v, pre.len(), v.len()))
    } else {
        None
    }
}

/// The pieces of `s` between runs of whitespace, without empty pieces
/// (`str::split_whitespace`).
pub open spec fn words(s: Seq<char>) -> Seq<Seq<char>>
    decreases s.len(),
{
    if s.len() == 0 {
        Seq::<Seq<char>>::empty()
    } else {
        let w = words(s.drop_last());
        let c = s.last();
        if is_white(c) {
            w
        } else if s.len() >= 2 && !is_white(s[s.len() - 2]) {
            w.update(w.len() - 1, w.last().push(c))
        } else {
            w.push(seq![c])
        }
    }
}

/// `str::split_whitespace`.
pub fn words_vec(v: &Vec<char>) -> (r: Vec<Vec<char>>)
    ensures
        views(r@) == words(v@),
{
    let mut r: Vec<Vec<char>> = Vec::new();
    for i in 0..v.len()
        invariant
            views(r@) == words(v@.take(i as int)),
            i > 0 && !is_white(v@[i - 1]) ==> r@.len() > 0,
    {
        let c = v[i];
        let ghost pre = v@.take(i as int);
        let ghost before = r@;
        assert(v@.take(i + 1).drop_last() =~= pre);
        assert(v@.take(i + 1).last() == c);
        if is_white_exec(c) {
        } else if i >= 1 && !is_white_exec(v[i - 1]) {
            assert(v@.take(i + 1)[i - 1] == v@[i - 1]);
            let last = r.len() - 1;
            let mut w = r[last].clone();
            assert(w@ == before[last as int]@);
            w.push(c);
            r.set(last, w);
            assert(views(r@) =~= views(before).update(last as int, views(before)[last as int].push(c)));
        } else {
            if i >= 1 {
                assert(v@.take(i + 1)[i - 1] == v@[i - 1]);
            }
            let mut w: Vec<char> = Vec::new();
            w.push(c);
            r.push(w);
            assert(views(r@) =~= views(before).push(seq![c]));
        }
    }
    assert(v@.take(v.len() as int) =~= v@);
    r
}

/// Index of the first `\r\n` at or after position 0, or -1.
pub open spec fn find_crlf(s: Seq<char>) -> int
    decreases s.len(),
{
    if s.len() < 2 {
        -1
    } else {
        let k = find_crlf(s.drop_last());
        if k >= 0 {
            k
        } else if s[s.len() - 2] == '\r' && s.last() == '\n' {
            s.len() - 2
        } else {
            -1
        }
    }
}

/// `str::split("\r\n")`: the lines of an HTTP header block.
pub open spec fn split_crlf(s: Seq<char>) -> Seq<Seq<char>>
    decreases s.len(),
{
    let k = find_crlf(s);
    if 0 <= k && k + 2 <= s.len() {
        seq![s.take(k)] + split_crlf(s.skip(k + 2))
    } else {
        seq![s]
    }
}

} // verus!

verus! {

proof fn lemma_split_nonempty(s: Seq<char>, sep: char)
    ensures
        split(s, sep).len() >= 1,
    decreases s.len(),
{
    if s.len() > 0 {
        lemma_split_nonempty(s.drop_last(), sep);
    }
}

/// The first piece of a split ends at the first separator.
pub proof fn lemma_split_first(s: Seq<char>, sep: char)
    ensures
        find(s, sep) >= 0 ==> split(s, sep) == seq![s.take(find(s, sep))] + split(
            s.skip(find(s, sep) + 1),
            sep,
        ),
        find(s, sep) < 0 ==> split(s, sep) == seq![s],
    decreases s.len(),
{
    if s.len() == 0 {
        assert(s =~= Seq::<char>::empty());
        assert(split(s, sep) =~= seq![s]);
    } else {
        let d = s.drop_last();
        lemma_split_first(d, sep);
        lemma_find(d, sep);
        lemma_find(s, sep);
        let k = find(s, sep);
        if find(d, sep) >= 0 {
            let kd = find(d, sep);
            assert(k == kd);
            let t = s.skip(k + 1);
            assert(t.len() > 0);
            assert(t.drop_last() =~= d.skip(k + 1));
            assert(t.last() == s.last());
            lemma_split_nonempty(d.skip(k + 1), sep);
            assert(d.take(k) =~= s.take(k));
            let b = split(d.skip(k + 1), sep);
            if s.last() == sep {
                assert(split(s, sep) =~= (seq![s.take(k)] + b).push(Seq::<char>::empty()));
                assert(split(t, sep) =~= b.push(Seq::<char>::empty()));
            } else {
                assert(split(s, sep) =~= (seq![s.take(k)] + b).update(
                    b.len() as int,
                    b.last().push(s.last()),
                ));
                assert(split(t, sep) =~= b.update(b.len() - 1, b.last().push(s.last())));
            }
            assert(split(s, sep) =~= seq![s.take(k)] + split(t, sep));
        } else if s.last() == sep {
            assert(k == s.len() - 1);
            assert(s.take(k) =~= d);
            assert(s.skip(k + 1) =~= Seq::<char>::empty());
            assert(split(s, sep) =~= seq![d].push(Seq::<char>::empty()));
            assert(split(s.skip(k + 1), sep) =~= seq![Seq::<char>::empty()]);
        } else {
            assert(k < 0);
            assert(split(s, sep) =~= seq![d.push(s.last())]);
            assert(d.push(s.last()) =~= s);
        }
    }
}

} // verus!

verus! {

pub proof fn lemma_find_crlf(s: Seq<char>)
    ensures
        -1 <= find_crlf(s),
        find_crlf(s) >= 0 ==> find_crlf(s) + 2 <= s.len() && s[find_crlf(s)] == '\r' && s[find_crlf(s)
            + 1] == '\n',
        forall|j: int|
            0 <= j && j + 1 < s.len() && (find_crlf(s) < 0 || j < find_crlf(s)) ==> !(#[trigger] s[j]
                == '\r' && s[j + 1] == '\n'),
    decreases s.len(),
{
    if s.len() >= 2 {
        let d = s.drop_last();
        lemma_find_crlf(d);
        assert forall|j: int|
            0 <= j && j + 1 < s.len() && (find_crlf(s) < 0 || j < find_crlf(s)) implies !(
            #[trigger] s[j] == '\r' && s[j + 1] == '\n') by {
            if j + 1 < d.len() {
                assert(d[j] == s[j] && d[j + 1] == s[j + 1]);
            }
        }
    }
}

pub proof fn lemma_find_crlf_at(s: Seq<char>, k: int)
    requires
        -1 <= k,
        k >= 0 ==> k + 2 <= s.len() && s[k] == '\r' && s[k + 1] == '\n',
        forall|j: int|
            0 <= j && j + 1 < s.len() && (k < 0 || j < k) ==> !(#[trigger] s[j] == '\r' && s[j + 1]
                == '\n'),
    ensures
        find_crlf(s) == k,
{
    lemma_find_crlf(s);
    let f = find_crlf(s);
    if f >= 0 && k >= 0 && f < k {
        assert(!(s[f] == '\r' && s[f + 1] == '\n'));
    }
    if f >= 0 && k >= 0 && k < f {
        assert(!(s[k] == '\r' && s[k + 1] == '\n'));
    }
    if f >= 0 && k < 0 {
        assert(!(s[f] == '\r' && s[f + 1] == '\n'));
    }
    if f < 0 && k >= 0 {
        assert(!(s[k] == '\r' && s[k + 1] == '\n'));
    }
}

/// `str::split("\r\n")`.
pub fn split_crlf_vec(v: &Vec<char>) -> (r: Vec<Vec<char>>)
    ensures
        views(r@) == split_crlf(v@),
        r@.len() >= 1,
{
    let mut r: Vec<Vec<char>> = Vec::new();
    let mut start: usize = 0;
    assert(v@.skip(0) =~= v@);
    loop
        invariant
            start <= v.len(),
            split_crlf(v@) == views(r@) + split_crlf(v@.skip(start as int)),
        decreases v.len() - start,
    {
        let ghost rest = v@.skip(start as int);
        let mut k = start;
        while k < v.len() && k + 1 < v.len() && !(v[k] == '\r' && v[k + 1] == '\n')
            invariant
                start <= k <= v.len(),
                forall|j: int| start <= j < k ==> !(#[trigger] v@[j] == '\r' && v@[j + 1] == '\n'),
            decreases v.len() - k,
        {
            k = k + 1;
        }
        let ghost before = r@;
        if k < v.len() && k + 1 < v.len() {
            proof {
                lemma_find_crlf_at(rest, k - start);
                assert(rest.skip(k - start + 2) =~= v@.skip(k + 2));
                assert(rest.take(k - start) =~= v@.subrange(start as int, k as int));
            }
            r.push(subvec(v, start, k));
            assert(views(r@) =~= views(before).push(v@.subrange(start as int, k as int)));
            start = k + 2;
        } else {
            proof {
                lemma_find_crlf_at(rest, -1);
                assert(rest =~= v@.subrange(start as int, v.len() as int));
            }
            r.push(subvec(v, start, v.len()));
            assert(views(r@) =~= views(before).push(rest));
            return r;
        }
    }
}

} // verus!
