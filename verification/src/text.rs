//! Character-level text utilities: Unicode whitespace, trimming, the
//! whitespace-collapsing normal form used for inline text, joining and
//! decimal formatting of integers.

use vstd::prelude::*;
use vstd::utf8::encode_utf8;

verus! {

/// The Unicode `White_Space` property, which `char::is_whitespace` tests.
pub open spec fn is_ws(c: char) -> bool {
    let u = c as u32;
    ||| 0x09 <= u <= 0x0d
    ||| u == 0x20
    ||| u == 0x85
    ||| u == 0xa0
    ||| u == 0x1680
    ||| 0x2000 <= u <= 0x200a
    ||| u == 0x2028
    ||| u == 0x2029
    ||| u == 0x202f
    ||| u == 0x205f
    ||| u == 0x3000
}

/// Whitespace test on one character.
pub fn char_is_whitespace(c: char) -> (r: bool)
    ensures
        r == is_ws(c),
{
    let u = c as u32;
    (0x09 <= u && u <= 0x0d) || u == 0x20 || u == 0x85 || u == 0xa0 || u == 0x1680 || (0x2000
        <= u && u <= 0x200a) || u == 0x2028 || u == 0x2029 || u == 0x202f || u == 0x205f || u
        == 0x3000
}

/// The characters of a string slice, in order.
pub fn chars_of(s: &str) -> (r: Vec<char>)
    ensures
        r@ == s@,
{
    let mut out: Vec<char> = Vec::new();
    for c in it: s.chars()
        invariant
            it.seq() == s@,
            out@ == it.seq().take(it.index() as int),
    {
        out.push(c);
    }
    out
}


/// A `String` holding exactly the given characters.
#[verifier::external_body]
pub(crate) fn string_from_chars(v: &Vec<char>) -> (r: String)
    ensures
        r@ == v@,
{
    String::from_iter(v.iter())
}

/// Appends the characters of `s` to `out`.
pub fn push_str(out: &mut Vec<char>, s: &str)
    ensures
        final(out)@ == old(out)@ + s@,
{
    for c in it: s.chars()
        invariant
            it.seq() == s@,
            out@ == old(out)@ + it.seq().take(it.index() as int),
    {
        out.push(c);
    }
    assert(s@.take(s@.len() as int) == s@);
}

/// Appends a sequence of characters to `out`.
pub fn push_chars(out: &mut Vec<char>, s: &Vec<char>)
    ensures
        final(out)@ == old(out)@ + s@,
{
    let mut i: usize = 0;
    while i < s.len()
        invariant
            i <= s.len(),
            out@ == old(out)@ + s@.take(i as int),
        decreases s.len() - i,
    {
        out.push(s[i]);
        i = i + 1;
        assert(s@.take(i as int) == s@.take(i - 1) + seq![s@[i - 1]]);
    }
    assert(s@.take(s@.len() as int) == s@);
}

/// Whether two strings hold the same characters.
pub fn str_eq(a: &str, b: &str) -> (r: bool)
    ensures
        r == (a@ == b@),
{
    let x = chars_of(a);
    let y = chars_of(b);
    chars_eq(&x, &y)
}

/// Whether two character sequences are equal.
pub fn chars_eq(x: &Vec<char>, y: &Vec<char>) -> (r: bool)
    ensures
        r == (x@ == y@),
{
    if x.len() != y.len() {
        return false;
    }
    let mut i: usize = 0;
    while i < x.len()
        invariant
            x.len() == y.len(),
            i <= x.len(),
            forall|k: int| 0 <= k < i ==> x@[k] == y@[k],
        decreases x.len() - i,
    {
        if x[i] != y[i] {
            return false;
        }
        i = i + 1;
    }
    assert(x@ =~= y@);
    true
}

/// `s` with leading whitespace removed.
pub open spec fn trim_start(s: Seq<char>) -> Seq<char>
    decreases s.len(),
{
    if s.len() > 0 && is_ws(s[0]) {
        trim_start(s.drop_first())
    } else {
        s
    }
}

/// `s` with trailing whitespace removed.
pub open spec fn trim_end(s: Seq<char>) -> Seq<char>
    decreases s.len(),
{
    if s.len() > 0 && is_ws(s.last()) {
        trim_end(s.drop_last())
    } else {
        s
    }
}

/// `s` with leading and trailing whitespace removed (`str::trim`).
pub open spec fn trim(s: Seq<char>) -> Seq<char> {
    trim_end(trim_start(s))
}

/// The characters of `s` from `lo` up to, not including, `hi`.
pub fn copy_range(s: &Vec<char>, lo: usize, hi: usize) -> (r: Vec<char>)
    requires
        lo <= hi <= s.len(),
    ensures
        r@ == s@.subrange(lo as int, hi as int),
{
    let mut out: Vec<char> = Vec::new();
    let mut i: usize = lo;
    while i < hi
        invariant
            lo <= i <= hi <= s.len(),
            out@ == s@.subrange(lo as int, i as int),
        decreases hi - i,
    {
        out.push(s[i]);
        i = i + 1;
        assert(s@.subrange(lo as int, i as int) == s@.subrange(lo as int, i - 1) + seq![s@[i - 1]]);
    }
    out
}

/// `s` without leading and trailing whitespace.
pub fn trim_chars(s: &Vec<char>) -> (r: Vec<char>)
    ensures
        r@ == trim(s@),
{
    let mut i: usize = 0;
    assert(s@.skip(0) == s@);
    while i < s.len() && char_is_whitespace(s[i])
        invariant
            i <= s.len(),
            trim_start(s@) == trim_start(s@.skip(i as int)),
        decreases s.len() - i,
    {
        assert(s@.skip(i as int).drop_first() == s@.skip(i + 1));
        i = i + 1;
    }
    assert(trim_start(s@.skip(i as int)) == s@.skip(i as int));
    let mut j: usize = s.len();
    while j > i && char_is_whitespace(s[j - 1])
        invariant
            i <= j <= s.len(),
            trim_end(s@.skip(i as int)) == trim_end(s@.subrange(i as int, j as int)),
        decreases j,
    {
        assert(s@.subrange(i as int, j as int).drop_last() == s@.subrange(i as int, j - 1));
        j = j - 1;
    }
    assert(s@.skip(i as int) == s@.subrange(i as int, s.len() as int));
    copy_range(s, i, j)
}

/// `str::trim` on a string slice, as characters.
pub fn trim_str(s: &str) -> (r: Vec<char>)
    ensures
        r@ == trim(s@),
{
    let c = chars_of(s);
    trim_chars(&c)
}

/// The longest prefix of `s` without whitespace.
pub open spec fn word_prefix(s: Seq<char>) -> Seq<char>
    decreases s.len(),
{
    if s.len() == 0 || is_ws(s[0]) {
        seq![]
    } else {
        seq![s[0]] + word_prefix(s.drop_first())
    }
}

/// The maximal runs of non-whitespace characters of `s`, in order
/// (`str::split_whitespace`).
pub open spec fn words(s: Seq<char>) -> Seq<Seq<char>>
    decreases s.len(),
{
    if s.len() == 0 {
        seq![]
    } else if is_ws(s[0]) {
        words(s.drop_first())
    } else {
        let w = word_prefix(s);
        proof {
            lemma_word_prefix_len(s);
        }
        seq![w] + words(s.skip(w.len() as int))
    }
}

/// The parts joined with `sep` between each two neighbours.
pub open spec fn join(parts: Seq<Seq<char>>, sep: Seq<char>) -> Seq<char>
    decreases parts.len(),
{
    if parts.len() == 0 {
        seq![]
    } else if parts.len() == 1 {
        parts[0]
    } else {
        join(parts.drop_last(), sep) + sep + parts.last()
    }
}

/// Inline text normal form: the words of `s` joined by single spaces.
pub open spec fn clean_inline(s: Seq<char>) -> Seq<char> {
    join(words(s), seq![' '])
}

pub proof fn lemma_word_prefix_len(s: Seq<char>)
    ensures
        word_prefix(s).len() <= s.len(),
        s.len() > 0 && !is_ws(s[0]) ==> word_prefix(s).len() >= 1,
    decreases s.len(),
{
    if s.len() > 0 && !is_ws(s[0]) {
        lemma_word_prefix_len(s.drop_first());
    }
}

proof fn lemma_word_prefix(s: Seq<char>, k: int)
    requires
        0 <= k <= s.len(),
        forall|m: int| 0 <= m < k ==> !is_ws(s[m]),
        k == s.len() || is_ws(s[k]),
    ensures
        word_prefix(s) == s.take(k),
    decreases s.len(),
{
    if s.len() == 0 || is_ws(s[0]) {
        assert(k == 0);
    } else {
        lemma_word_prefix(s.drop_first(), k - 1);
        assert(s.take(k) == seq![s[0]] + s.drop_first().take(k - 1));
    }
}

proof fn lemma_join_push(parts: Seq<Seq<char>>, w: Seq<char>, sep: Seq<char>)
    ensures
        join(parts.push(w), sep) == if parts.len() == 0 {
            w
        } else {
            join(parts, sep) + sep + w
        },
{
    assert(parts.push(w).drop_last() == parts);
}

/// The words of the characters, joined by single spaces.
pub fn clean_inline_chars(s: &Vec<char>) -> (r: Vec<char>)
    ensures
        r@ == clean_inline(s@),
{
    let mut out: Vec<char> = Vec::new();
    let ghost mut done: Seq<Seq<char>> = seq![];
    let mut i: usize = 0;
    assert(s@.skip(0) == s@);
    while i < s.len()
        invariant
            i <= s.len(),
            words(s@) == done + words(s@.skip(i as int)),
            out@ == join(done, seq![' ']),
            done.len() == 0 <==> out@.len() == 0,
        decreases s.len() - i,
    {
        if char_is_whitespace(s[i]) {
            assert(s@.skip(i as int).drop_first() == s@.skip(i + 1));
            i = i + 1;
        } else {
            let mut j: usize = i;
            while j < s.len() && !char_is_whitespace(s[j])
                invariant
                    i <= j <= s.len(),
                    forall|m: int| i <= m < j ==> !is_ws(s@[m]),
                decreases s.len() - j,
            {
                j = j + 1;
            }
            let w = copy_range(s, i, j);
            proof {
                let t = s@.skip(i as int);
                lemma_word_prefix(t, j - i);
                assert(t.take(j - i) == s@.subrange(i as int, j as int));
                assert(t.skip(j - i) == s@.skip(j as int));
                lemma_join_push(done, w@, seq![' ']);
                assert(w@.len() >= 1);
                assert(done + words(t) == done.push(w@) + words(s@.skip(j as int)));
                done = done.push(w@);
            }
            if out.len() > 0 {
                out.push(' ');
            }
            push_chars(&mut out, &w);
            i = j;
        }
    }
    assert(words(s@.skip(i as int)) == Seq::<Seq<char>>::empty());
    assert(done + Seq::<Seq<char>>::empty() == done);
    out
}


/// The ASCII digit for a value below ten.
pub open spec fn digit_char(d: nat) -> char {
    if d == 0 {
        '0'
    } else if d == 1 {
        '1'
    } else if d == 2 {
        '2'
    } else if d == 3 {
        '3'
    } else if d == 4 {
        '4'
    } else if d == 5 {
        '5'
    } else if d == 6 {
        '6'
    } else if d == 7 {
        '7'
    } else if d == 8 {
        '8'
    } else {
        '9'
    }
}

/// Whether `c` is one of the ASCII digits `0` to `9`.
pub open spec fn is_digit(c: char) -> bool {
    '0' <= c <= '9'
}

/// The value of an ASCII digit.
pub open spec fn digit_value(c: char) -> nat {
    (c as u32 - '0' as u32) as nat
}

/// The decimal notation of a natural number, without leading zeros.
pub open spec fn dec_nat(n: nat) -> Seq<char>
    decreases n,
{
    if n < 10 {
        seq![digit_char(n)]
    } else {
        dec_nat(n / 10) + seq![digit_char(n % 10)]
    }
}

/// The decimal notation of an integer, with a leading `-` when negative
/// (the `Display` form of Rust integers).
pub open spec fn dec_int(i: int) -> Seq<char> {
    if i < 0 {
        seq!['-'] + dec_nat((-i) as nat)
    } else {
        dec_nat(i as nat)
    }
}

fn digit(d: u64) -> (c: char)
    requires
        d < 10,
    ensures
        c == digit_char(d as nat),
{
    if d == 0 {
        '0'
    } else if d == 1 {
        '1'
    } else if d == 2 {
        '2'
    } else if d == 3 {
        '3'
    } else if d == 4 {
        '4'
    } else if d == 5 {
        '5'
    } else if d == 6 {
        '6'
    } else if d == 7 {
        '7'
    } else if d == 8 {
        '8'
    } else {
        '9'
    }
}

/// Appends the decimal notation of `n`.
pub fn push_decimal_u64(out: &mut Vec<char>, n: u64)
    ensures
        final(out)@ == old(out)@ + dec_nat(n as nat),
    decreases n,
{
    if n >= 10 {
        push_decimal_u64(out, n / 10);
    }
    out.push(digit(n % 10));
}

/// Appends the decimal notation of `n`, signed.
pub fn push_decimal_i64(out: &mut Vec<char>, n: i64)
    ensures
        final(out)@ == old(out)@ + dec_int(n as int),
{
    if n < 0 {
        out.push('-');
        let m: u64 = if n == i64::MIN {
            9223372036854775808u64
        } else {
            (-n) as u64
        };
        push_decimal_u64(out, m);
    } else {
        push_decimal_u64(out, n as u64);
    }
}

/// The view of a list of character vectors.
pub open spec fn chars_view(v: Seq<Vec<char>>) -> Seq<Seq<char>> {
    v.map_values(|x: Vec<char>| x@)
}

/// The parts joined with `sep`.
pub fn join_chars(parts: &Vec<Vec<char>>, sep: &Vec<char>) -> (r: Vec<char>)
    ensures
        r@ == join(chars_view(parts@), sep@),
{
    let mut out: Vec<char> = Vec::new();
    let mut i: usize = 0;
    while i < parts.len()
        invariant
            i <= parts.len(),
            out@ == join(chars_view(parts@).take(i as int), sep@),
        decreases parts.len() - i,
    {
        proof {
            let pv = chars_view(parts@);
            lemma_join_push(pv.take(i as int), pv[i as int], sep@);
            assert(pv.take(i as int).push(pv[i as int]) == pv.take(i + 1));
        }
        if i > 0 {
            push_chars(&mut out, sep);
        }
        push_chars(&mut out, &parts[i]);
        i = i + 1;
    }
    assert(chars_view(parts@).take(parts.len() as int) == chars_view(parts@));
    out
}

/// Strings joined with `sep`, as characters.
pub fn join_strings(parts: &Vec<String>, sep: &str) -> (r: Vec<char>)
    ensures
        r@ == join(parts.deep_view(), sep@),
{
    let mut out: Vec<char> = Vec::new();
    let mut i: usize = 0;
    while i < parts.len()
        invariant
            i <= parts.len(),
            out@ == join(parts.deep_view().take(i as int), sep@),
        decreases parts.len() - i,
    {
        proof {
            lemma_join_push(parts.deep_view().take(i as int), parts.deep_view()[i as int], sep@);
            assert(parts.deep_view().take(i as int).push(parts.deep_view()[i as int])
                == parts.deep_view().take(i + 1));
        }
        if i > 0 {
            push_str(&mut out, sep);
        }
        push_str(&mut out, parts[i].as_str());
        i = i + 1;
    }
    assert(parts.deep_view().take(parts.len() as int) == parts.deep_view());
    out
}

/// `clean_inline` of the fragments joined by single spaces.
pub fn clean_fragments(parts: &Vec<String>) -> (r: Vec<char>)
    ensures
        r@ == clean_inline(join(parts.deep_view(), seq![' '])),
{
    let joined = join_strings(parts, " ");
    proof {
        reveal_strlit(" ");
        assert(" "@ =~= seq![' ']);
    }
    clean_inline_chars(&joined)
}

/// Whether `p` is a prefix of `s`.
pub open spec fn has_prefix(s: Seq<char>, p: Seq<char>) -> bool {
    p.len() <= s.len() && s.take(p.len() as int) == p
}

/// Prefix test on characters.
pub fn starts_with_chars(s: &Vec<char>, p: &str) -> (r: bool)
    ensures
        r == has_prefix(s@, p@),
{
    let pc = chars_of(p);
    if pc.len() > s.len() {
        return false;
    }
    let mut i: usize = 0;
    while i < pc.len()
        invariant
            pc.len() <= s.len(),
            pc@ == p@,
            i <= pc.len(),
            forall|k: int| 0 <= k < i ==> s@[k] == pc@[k],
        decreases pc.len() - i,
    {
        if s[i] != pc[i] {
            proof {
                let t = s@.take(pc@.len() as int);
                assert(s@[i as int] != pc@[i as int]);
                assert(t[i as int] == s@[i as int]);
                assert(t[i as int] != pc@[i as int]);
                assert(t != pc@);
                assert(!has_prefix(s@, p@));
            }
            return false;
        }
        i = i + 1;
    }
    assert(s@.take(pc@.len() as int) =~= pc@);
    true
}

/// Whether the character occurs in the sequence.
pub fn contains_char(s: &Vec<char>, c: char) -> (r: bool)
    ensures
        r == s@.contains(c),
{
    let mut i: usize = 0;
    while i < s.len()
        invariant
            i <= s.len(),
            forall|k: int| 0 <= k < i ==> s@[k] != c,
        decreases s.len() - i,
    {
        if s[i] == c {
            assert(s@[i as int] == c);
            return true;
        }
        i = i + 1;
    }
    false
}

/// Whether every character is an ASCII digit (true of the empty sequence).
pub fn all_digits(s: &Vec<char>) -> (r: bool)
    ensures
        r == (forall|k: int| 0 <= k < s@.len() ==> is_digit(#[trigger] s@[k])),
{
    let mut i: usize = 0;
    while i < s.len()
        invariant
            i <= s.len(),
            forall|k: int| 0 <= k < i ==> is_digit(#[trigger] s@[k]),
        decreases s.len() - i,
    {
        if !('0' <= s[i] && s[i] <= '9') {
            return false;
        }
        i = i + 1;
    }
    true
}


/// Length in bytes of the UTF-8 encoding (`str::len`).
pub open spec fn utf8_len(s: Seq<char>) -> nat {
    encode_utf8(s).len()
}

/// Byte length of a string slice.
pub fn byte_len(s: &str) -> (r: usize)
    ensures
        r == utf8_len(s@) as usize,
{
    s.len()
}


/// Whether the text holds no line feed.
pub open spec fn no_lf(s: Seq<char>) -> bool {
    forall|k: int| 0 <= k < s.len() ==> s[k] != '\n'
}

/// The number of line feeds in a text.
pub open spec fn count_lf(s: Seq<char>) -> nat
    decreases s.len(),
{
    if s.len() == 0 {
        0
    } else {
        count_lf(s.drop_last()) + if s.last() == '\n' { 1nat } else { 0nat }
    }
}

/// Texts without line feeds concatenate into one without.
pub proof fn lemma_no_lf_concat(a: Seq<char>, b: Seq<char>)
    requires
        no_lf(a),
        no_lf(b),
    ensures
        no_lf(a + b),
{
    assert forall|k: int| 0 <= k < (a + b).len() implies (a + b)[k] != '\n' by {
        if k < a.len() {
            assert((a + b)[k] == a[k]);
        } else {
            assert((a + b)[k] == b[k - a.len()]);
        }
    }
}

/// Parts and separator without line feeds join into a text without.
pub proof fn lemma_no_lf_join(parts: Seq<Seq<char>>, sep: Seq<char>)
    requires
        forall|i: int| 0 <= i < parts.len() ==> no_lf(#[trigger] parts[i]),
        no_lf(sep),
    ensures
        no_lf(join(parts, sep)),
    decreases parts.len(),
{
    if parts.len() == 1 {
        assert(no_lf(parts[0]));
    } else if parts.len() > 1 {
        lemma_no_lf_join(parts.drop_last(), sep);
        assert(no_lf(parts[parts.len() - 1]));
        lemma_no_lf_concat(join(parts.drop_last(), sep), sep);
        lemma_no_lf_concat(join(parts.drop_last(), sep) + sep, parts.last());
    }
}

/// Decimal notation holds no line feed.
pub proof fn lemma_dec_no_lf(n: nat)
    ensures
        no_lf(dec_nat(n)),
    decreases n,
{
    if n >= 10 {
        lemma_dec_no_lf(n / 10);
        lemma_no_lf_concat(dec_nat(n / 10), seq![digit_char(n % 10)]);
    }
}

/// Signed decimal notation holds no line feed.
pub proof fn lemma_dec_int_no_lf(i: int)
    ensures
        no_lf(dec_int(i)),
{
    if i < 0 {
        lemma_dec_no_lf((-i) as nat);
        lemma_no_lf_concat(seq!['-'], dec_nat((-i) as nat));
    } else {
        lemma_dec_no_lf(i as nat);
    }
}

/// Line feeds add up over concatenation.
pub proof fn lemma_count_lf_concat(a: Seq<char>, b: Seq<char>)
    ensures
        count_lf(a + b) == count_lf(a) + count_lf(b),
    decreases b.len(),
{
    if b.len() > 0 {
        assert((a + b).drop_last() == a + b.drop_last());
        lemma_count_lf_concat(a, b.drop_last());
    } else {
        assert(a + b == a);
    }
}

/// A text without line feeds counts none.
pub proof fn lemma_count_lf_none(s: Seq<char>)
    requires
        no_lf(s),
    ensures
        count_lf(s) == 0,
    decreases s.len(),
{
    if s.len() > 0 {
        lemma_count_lf_none(s.drop_last());
    }
}

/// A word: non-empty, without whitespace.
pub open spec fn is_word(w: Seq<char>) -> bool {
    w.len() > 0 && forall|k: int| 0 <= k < w.len() ==> !is_ws(#[trigger] w[k])
}

proof fn lemma_word_prefix_chars(s: Seq<char>)
    ensures
        word_prefix(s).len() <= s.len(),
        forall|k: int| 0 <= k < word_prefix(s).len() ==> #[trigger] word_prefix(s)[k] == s[k] && !is_ws(s[k]),
    decreases s.len(),
{
    if s.len() > 0 && !is_ws(s[0]) {
        lemma_word_prefix_chars(s.drop_first());
        let w = word_prefix(s);
        assert forall|k: int| 0 <= k < w.len() implies #[trigger] w[k] == s[k] && !is_ws(s[k]) by {
            if k > 0 {
                assert(w[k] == word_prefix(s.drop_first())[k - 1]);
            }
        }
    }
}

proof fn lemma_words_are_words(s: Seq<char>)
    ensures
        forall|i: int| 0 <= i < words(s).len() ==> is_word(#[trigger] words(s)[i]),
    decreases s.len(),
{
    if s.len() > 0 {
        if is_ws(s[0]) {
            lemma_words_are_words(s.drop_first());
            assert(words(s) == words(s.drop_first()));
        } else {
            let w = word_prefix(s);
            lemma_word_prefix_len(s);
            lemma_word_prefix_chars(s);
            lemma_words_are_words(s.skip(w.len() as int));
            let rest = words(s.skip(w.len() as int));
            assert(words(s) == seq![w] + rest);
            assert forall|i: int| 0 <= i < words(s).len() implies is_word(#[trigger] words(s)[i]) by {
                if i == 0 {
                    assert(words(s)[0] == w);
                    assert forall|k: int| 0 <= k < w.len() implies !is_ws(#[trigger] w[k]) by {
                        assert(w[k] == s[k] && !is_ws(s[k]));
                    }
                } else {
                    assert(words(s)[i] == rest[i - 1]);
                }
            }
        }
    }
}

proof fn lemma_join_front(parts: Seq<Seq<char>>, sep: Seq<char>)
    requires
        parts.len() >= 2,
    ensures
        join(parts, sep) == parts[0] + sep + join(parts.drop_first(), sep),
    decreases parts.len(),
{
    let dl = parts.drop_last();
    let df = parts.drop_first();
    assert(join(parts, sep) == join(dl, sep) + sep + parts.last());
    if parts.len() == 2 {
        assert(join(dl, sep) == dl[0]);
        assert(join(df, sep) == df[0]);
        assert(df[0] == parts.last());
    } else {
        lemma_join_front(dl, sep);
        assert(dl.drop_first() == df.drop_last());
        assert(df.last() == parts.last());
        assert(join(df, sep) == join(df.drop_last(), sep) + sep + df.last());
        assert(join(parts, sep) =~= parts[0] + sep + join(df, sep));
    }
}

proof fn lemma_words_of_join(parts: Seq<Seq<char>>)
    requires
        forall|i: int| 0 <= i < parts.len() ==> is_word(#[trigger] parts[i]),
    ensures
        words(join(parts, seq![' '])) == parts,
    decreases parts.len(),
{
    if parts.len() == 0 {
        assert(words(join(parts, seq![' '])) =~= parts);
    } else if parts.len() == 1 {
        let w = parts[0];
        assert(is_word(w));
        lemma_word_prefix(w, w.len() as int);
        assert(w.take(w.len() as int) == w);
        assert(w.skip(w.len() as int) =~= Seq::<char>::empty());
        assert(!is_ws(w[0]));
        assert(words(w) == seq![word_prefix(w)] + words(w.skip(w.len() as int)));
        assert(words(w.skip(w.len() as int)) =~= Seq::<Seq<char>>::empty());
        assert(words(w) =~= seq![w]);
        assert(parts =~= seq![w]);
    } else {
        let w = parts[0];
        let rest = parts.drop_first();
        assert(is_word(w));
        assert forall|i: int| 0 <= i < rest.len() implies is_word(#[trigger] rest[i]) by {
            assert(rest[i] == parts[i + 1]);
        }
        lemma_words_of_join(rest);
        lemma_join_front(parts, seq![' ']);
        let j = join(rest, seq![' ']);
        let t = w + seq![' '] + j;
        assert(t[w.len() as int] == ' ');
        assert(is_ws(' '));
        assert forall|m: int| 0 <= m < w.len() implies !is_ws(t[m]) by {
            assert(t[m] == w[m]);
        }
        lemma_word_prefix(t, w.len() as int);
        assert(t.take(w.len() as int) == w);
        let u = t.skip(w.len() as int);
        assert(u =~= seq![' '] + j);
        assert(u.drop_first() =~= j);
        assert(words(u) == words(j));
        assert(!is_ws(t[0]));
        assert(words(t) == seq![w] + words(u));
        assert(parts =~= seq![w] + rest);
    }
}

proof fn lemma_join_shape(parts: Seq<Seq<char>>)
    requires
        forall|i: int| 0 <= i < parts.len() ==> is_word(#[trigger] parts[i]),
    ensures
        ({
            let r = join(parts, seq![' ']);
            &&& (r.len() == 0) == (parts.len() == 0)
            &&& r.len() > 0 ==> !is_ws(r[0]) && !is_ws(r.last())
            &&& forall|k: int| 0 <= k < r.len() && is_ws(#[trigger] r[k]) ==> r[k] == ' '
            &&& forall|k: int| 0 <= k < r.len() - 1 && #[trigger] r[k] == ' ' ==> r[k + 1] != ' '
        }),
    decreases parts.len(),
{
    assert(is_ws(' '));
    if parts.len() == 1 {
        assert(is_word(parts[0]));
    } else if parts.len() > 1 {
        let init = parts.drop_last();
        assert forall|i: int| 0 <= i < init.len() implies is_word(#[trigger] init[i]) by {
            assert(init[i] == parts[i]);
        }
        lemma_join_shape(init);
        let j = join(init, seq![' ']);
        let w = parts.last();
        assert(is_word(parts[parts.len() - 1]));
        let r = join(parts, seq![' ']);
        assert(r == j + seq![' '] + w);
        assert(r[0] == j[0]);
        assert(r.last() == w.last());
        assert forall|k: int| 0 <= k < r.len() && is_ws(#[trigger] r[k]) implies r[k] == ' ' by {
            if k < j.len() {
                assert(r[k] == j[k]);
            } else if k > j.len() {
                assert(r[k] == w[k - j.len() - 1]);
            }
        }
        assert forall|k: int| 0 <= k < r.len() - 1 && #[trigger] r[k] == ' ' implies r[k + 1] != ' ' by {
            if k < j.len() - 1 {
                assert(r[k] == j[k]);
                assert(r[k + 1] == j[k + 1]);
            } else if k == j.len() - 1 {
                assert(r[k] == j.last());
            } else if k == j.len() {
                assert(r[k + 1] == w[0]);
            } else {
                assert(r[k] == w[k - j.len() - 1]);
            }
        }
    }
}

/// The inline normal form has no whitespace at either end, no whitespace but
/// single spaces between words, the same words as the text it came from,
/// and is its own normal form.
pub proof fn lemma_clean_inline_normal(s: Seq<char>)
    ensures
        ({
            let r = clean_inline(s);
            &&& r.len() > 0 ==> !is_ws(r[0]) && !is_ws(r.last())
            &&& forall|k: int| 0 <= k < r.len() && is_ws(#[trigger] r[k]) ==> r[k] == ' '
            &&& forall|k: int| 0 <= k < r.len() - 1 && #[trigger] r[k] == ' ' ==> r[k + 1] != ' '
            &&& words(r) == words(s)
            &&& clean_inline(r) == r
        }),
{
    lemma_words_are_words(s);
    lemma_join_shape(words(s));
    lemma_words_of_join(words(s));
}

} // verus!
