//! Text helpers: whitespace, trimming, decimal numbers and string building.
use vstd::prelude::*;

verus! {

/// The Unicode `White_Space` property, the set that `char::is_whitespace` tests.
pub open spec fn is_white_space(c: char) -> bool {
    let u = c as u32;
    ||| 0x9 <= u <= 0xD
    ||| u == 0x20
    ||| u == 0x85
    ||| u == 0xA0
    ||| u == 0x1680
    ||| 0x2000 <= u <= 0x200A
    ||| u == 0x2028
    ||| u == 0x2029
    ||| u == 0x202F
    ||| u == 0x205F
    ||| u == 0x3000
}

/// Whether `c` has the `White_Space` property.
pub fn is_whitespace(c: char) -> (res: bool)
    ensures
        res == is_white_space(c),
{
    let u = c as u32;
    (0x9 <= u && u <= 0xD) || u == 0x20 || u == 0x85 || u == 0xA0 || u == 0x1680 || (0x2000 <= u
        && u <= 0x200A) || u == 0x2028 || u == 0x2029 || u == 0x202F || u == 0x205F || u == 0x3000
}

/// `s` with every white-space character removed.
pub open spec fn without_white_space(s: Seq<char>) -> Seq<char> {
    s.filter(|c: char| !is_white_space(c))
}

/// Removing white space leaves none, and doing it again changes nothing.
pub proof fn law_no_white_space_left(s: Seq<char>)
    ensures
        forall|i: int|
            0 <= i < without_white_space(s).len() ==> !is_white_space(
                #[trigger] without_white_space(s)[i],
            ),
        without_white_space(without_white_space(s)) == without_white_space(s),
{
    let pred = |c: char| !is_white_space(c);
    let t = s.filter(pred);
    assert forall|i: int| 0 <= i < t.len() implies pred(#[trigger] t[i]) by {
        s.lemma_filter_pred(pred, i);
    }
    lemma_filter_all_true(t, pred);
}

/// Among ASCII characters exactly space, tab, line feed, vertical tab, form
/// feed and carriage return are white space.
pub proof fn law_ascii_white_space(c: char)
    requires
        (c as u32) < 0x80,
    ensures
        is_white_space(c) <==> (c == ' ' || c == '\t' || c == '\n' || c == '\u{b}' || c == '\u{c}'
            || c == '\r'),
{
}

/// No letter, digit or punctuation mark of ASCII is white space.
pub proof fn law_graphic_ascii_not_white_space(c: char)
    requires
        0x21 <= (c as u32) <= 0x7E,
    ensures
        !is_white_space(c),
{
}

/// Beyond ASCII, white space is next line, no-break space, the Ogham space
/// mark, the spaces from en quad to hair space, the line and paragraph
/// separators, the narrow no-break space, the medium mathematical space and
/// the ideographic space.
pub proof fn law_non_ascii_white_space(c: char)
    requires
        0x80 <= (c as u32),
    ensures
        is_white_space(c) <==> (c == '\u{85}' || c == '\u{a0}' || c == '\u{1680}' || ('\u{2000}'
            <= c && c <= '\u{200a}') || c == '\u{2028}' || c == '\u{2029}' || c == '\u{202f}'
            || c == '\u{205f}' || c == '\u{3000}'),
{
}

/// Removing white space works character by character: from two texts one
/// after the other it removes what it removes from each, a white-space
/// character goes and any other stays.
pub proof fn law_without_white_space_pieces(a: Seq<char>, b: Seq<char>, c: char)
    ensures
        without_white_space(a + b) == without_white_space(a) + without_white_space(b),
        without_white_space(seq![c]) == (if is_white_space(c) {
            Seq::<char>::empty()
        } else {
            seq![c]
        }),
{
    let pred = |x: char| !is_white_space(x);
    Seq::filter_distributes_over_add(a, b, pred);
    reveal_with_fuel(Seq::<_>::filter, 2);
    assert(seq![c].drop_last() =~= Seq::<char>::empty());
    assert(Seq::<char>::empty().filter(pred) =~= Seq::<char>::empty());
    if pred(c) {
        assert(Seq::<char>::empty().push(c) =~= seq![c]);
    }
}

/// A text without white space comes through whole, also with white space
/// typed around it: a name typed on a line is the name itself.
pub proof fn law_without_white_space_keeps_text(pre: Seq<char>, s: Seq<char>, post: Seq<char>)
    requires
        forall|i: int| 0 <= i < s.len() ==> !is_white_space(#[trigger] s[i]),
        forall|i: int| 0 <= i < pre.len() ==> is_white_space(#[trigger] pre[i]),
        forall|i: int| 0 <= i < post.len() ==> is_white_space(#[trigger] post[i]),
    ensures
        without_white_space(pre + s + post) == s,
{
    let pred = |x: char| !is_white_space(x);
    Seq::filter_distributes_over_add(pre + s, post, pred);
    Seq::filter_distributes_over_add(pre, s, pred);
    lemma_filter_all_true(s, pred);
    lemma_filter_all_false(pre, pred);
    lemma_filter_all_false(post, pred);
    assert(Seq::<char>::empty() + s + Seq::<char>::empty() =~= s);
}

/// Filtering a sequence whose elements all fail leaves nothing.
proof fn lemma_filter_all_false(t: Seq<char>, pred: spec_fn(char) -> bool)
    requires
        forall|i: int| 0 <= i < t.len() ==> !pred(#[trigger] t[i]),
    ensures
        t.filter(pred) == Seq::<char>::empty(),
    decreases t.len(),
{
    reveal_with_fuel(Seq::<_>::filter, 1);
    if t.len() > 0 {
        lemma_filter_all_false(t.drop_last(), pred);
    } else {
        assert(t.filter(pred) =~= Seq::<char>::empty());
    }
}

/// Filtering a sequence whose elements all pass keeps it whole.
proof fn lemma_filter_all_true(t: Seq<char>, pred: spec_fn(char) -> bool)
    requires
        forall|i: int| 0 <= i < t.len() ==> pred(#[trigger] t[i]),
    ensures
        t.filter(pred) == t,
    decreases t.len(),
{
    reveal_with_fuel(Seq::<_>::filter, 1);
    if t.len() > 0 {
        lemma_filter_all_true(t.drop_last(), pred);
        assert(t.drop_last().push(t.last()) =~= t);
    }
}

/// `String::push`: appends one character.
#[verifier::external_body]
pub(crate) fn push_char(s: &mut String, c: char)
    ensures
        final(s)@ == old(s)@.push(c),
{
    s.push(c)
}

/// Removes every white-space character from `s`, keeping the others in order.
pub fn remove_whitespace(s: &mut String)
    ensures
        final(s)@ == without_white_space(old(s)@),
{
    let mut out = String::new();
    let ghost orig = s@;
    for c in it: s.chars()
        invariant
            it.seq() == orig,
            out@ == without_white_space(orig.take(it.index() as int)),
    {
        proof {
            assert(orig.take(it.index() + 1).drop_last() =~= orig.take(it.index() as int));
            reveal_with_fuel(Seq::<_>::filter, 1);
        }
        if !is_whitespace(c) {
            push_char(&mut out, c);
        }
    }
    proof {
        assert(orig.take(orig.len() as int) =~= orig);
    }
    *s = out;
}


/// `s` with its leading white space removed.
pub open spec fn trim_start_ws(s: Seq<char>) -> Seq<char>
    decreases s.len(),
{
    if s.len() > 0 && is_white_space(s[0]) {
        trim_start_ws(s.drop_first())
    } else {
        s
    }
}

/// `s` with its trailing white space removed.
pub open spec fn trim_end_ws(s: Seq<char>) -> Seq<char>
    decreases s.len(),
{
    if s.len() > 0 && is_white_space(s.last()) {
        trim_end_ws(s.drop_last())
    } else {
        s
    }
}

/// `s` with leading and trailing white space removed.
pub open spec fn trimmed(s: Seq<char>) -> Seq<char> {
    trim_end_ws(trim_start_ws(s))
}

/// Where the leading white space of `s` ends.
proof fn lemma_trim_start_at(s: Seq<char>) -> (a: int)
    ensures
        0 <= a <= s.len(),
        trim_start_ws(s) == s.skip(a),
        forall|k: int| 0 <= k < a ==> is_white_space(#[trigger] s[k]),
        a < s.len() ==> !is_white_space(s[a]),
    decreases s.len(),
{
    if s.len() > 0 && is_white_space(s[0]) {
        let r = lemma_trim_start_at(s.drop_first());
        assert(s.drop_first().skip(r) =~= s.skip(r + 1));
        assert forall|k: int| 0 <= k < r + 1 implies is_white_space(#[trigger] s[k]) by {
            if k > 0 {
                assert(s[k] == s.drop_first()[k - 1]);
            }
        }
        r + 1
    } else {
        assert(s.skip(0) =~= s);
        0
    }
}

/// Where the trailing white space of `s` starts.
proof fn lemma_trim_end_at(s: Seq<char>) -> (b: int)
    ensures
        0 <= b <= s.len(),
        trim_end_ws(s) == s.take(b),
        forall|k: int| b <= k < s.len() ==> is_white_space(#[trigger] s[k]),
        b > 0 ==> !is_white_space(s[b - 1]),
    decreases s.len(),
{
    if s.len() > 0 && is_white_space(s.last()) {
        let r = lemma_trim_end_at(s.drop_last());
        assert(s.drop_last().take(r) =~= s.take(r));
        assert forall|k: int| r <= k < s.len() implies is_white_space(#[trigger] s[k]) by {
            if k < s.len() - 1 {
                assert(s[k] == s.drop_last()[k]);
            }
        }
        r
    } else {
        assert(s.take(s.len() as int) =~= s);
        s.len() as int
    }
}

/// Trimming takes a middle piece of `s`: all that goes before it and after
/// it is white space, and the piece neither starts nor ends with white
/// space (when all of `s` is white space the piece is empty).
pub proof fn law_trimmed_parts(s: Seq<char>)
    ensures
        exists|a: int, b: int|
            {
                &&& 0 <= a <= b <= s.len()
                &&& trimmed(s) == #[trigger] s.subrange(a, b)
                &&& forall|k: int| 0 <= k < a ==> is_white_space(#[trigger] s[k])
                &&& forall|k: int| b <= k < s.len() ==> is_white_space(#[trigger] s[k])
                &&& a < b ==> !is_white_space(s[a]) && !is_white_space(s[b - 1])
            },
{
    let a = lemma_trim_start_at(s);
    let t = s.skip(a);
    let c = lemma_trim_end_at(t);
    let b = a + c;
    assert(t.take(c) =~= s.subrange(a, b));
    assert forall|k: int| b <= k < s.len() implies is_white_space(#[trigger] s[k]) by {
        assert(s[k] == t[k - a]);
    }
    if a < b {
        assert(s[b - 1] == t[c - 1]);
    }
}

/// `str::trim`: the documentation says it returns the string with leading and
/// trailing characters of the `White_Space` property removed; that is what
/// the contract states.
#[verifier::external_body]
pub(crate) fn trim(s: &str) -> (res: &str)
    ensures
        res@ == trimmed(s@),
{
    s.trim()
}

/// Whether every character of `s` is an ASCII decimal digit.
pub open spec fn all_decimal_digits(s: Seq<char>) -> bool {
    forall|i: int| 0 <= i < s.len() ==> '0' <= #[trigger] s[i] <= '9'
}

/// The value of the decimal digits `s`, most significant first.
pub open spec fn decimal_value(s: Seq<char>) -> nat
    decreases s.len(),
{
    if s.len() == 0 {
        0
    } else {
        decimal_value(s.drop_last()) * 10 + ((s.last() as u32) - ('0' as u32)) as nat
    }
}

/// The digits part of an unsigned integer literal: one leading `+` is dropped.
pub open spec fn unsigned_digits(s: Seq<char>) -> Seq<char> {
    if s.len() > 0 && s[0] == '+' {
        s.drop_first()
    } else {
        s
    }
}

/// Whether `s` is an unsigned decimal literal (an optional `+`, then one or
/// more ASCII digits) whose value fits in a `usize`.
pub open spec fn is_usize_literal(s: Seq<char>) -> bool {
    let d = unsigned_digits(s);
    &&& d.len() > 0
    &&& all_decimal_digits(d)
    &&& decimal_value(d) <= usize::MAX
}

/// The text of the error that `usize`'s `FromStr` reports for `s`.
pub uninterp spec fn usize_parse_error_text(s: Seq<char>) -> Seq<char>;

/// `str::parse::<usize>`, with the error turned into its message.
/// The documentation of `from_str_radix` says the input must be an optional
/// `+` followed by digits only, and that a value out of range is an error;
/// the contract states that. The error text is only named: it is a function
/// of the input alone.
#[verifier::external_body]
pub(crate) fn parse_usize(s: &str) -> (res: Result<usize, String>)
    ensures
        res is Ok <==> is_usize_literal(s@),
        res matches Ok(n) ==> n as nat == decimal_value(unsigned_digits(s@)),
        res matches Err(m) ==> m@ == usize_parse_error_text(s@),
{
    match s.parse::<usize>() {
        Ok(n) => Ok(n),
        Err(e) => Err(e.to_string()),
    }
}

/// Unicode lower-case mapping of `s`, as `str::to_lowercase` computes it.
pub uninterp spec fn lowercase(s: Seq<char>) -> Seq<char>;

/// `str::to_lowercase`: the Unicode lower-case mapping, which depends on the
/// text alone; the contract names it and says nothing more of it.
#[verifier::external_body]
pub(crate) fn to_lowercase(s: &str) -> (res: String)
    ensures
        res@ == lowercase(s@),
{
    s.to_lowercase()
}

/// The text of the error that `String::from_utf8` reports for `bytes`.
pub uninterp spec fn utf8_error_text(bytes: Seq<u8>) -> Seq<char>;

/// `String::from_utf8`, with the error turned into its message. The
/// documentation says it succeeds exactly on valid UTF-8 and then holds the
/// characters those bytes encode; the error text is only named.
#[verifier::external_body]
pub(crate) fn string_from_utf8(bytes: Vec<u8>) -> (res: Result<String, String>)
    ensures
        res is Ok <==> vstd::utf8::valid_utf8(bytes@),
        res matches Ok(s) ==> s@ == vstd::utf8::decode_utf8(bytes@),
        res matches Err(m) ==> m@ == utf8_error_text(bytes@),
{
    match String::from_utf8(bytes) {
        Ok(s) => Ok(s),
        Err(e) => Err(e.to_string()),
    }
}

/// The ASCII digit for `d < 10`.
pub open spec fn digit_char(d: nat) -> char {
    ((d + 48) as u32) as char
}

/// The decimal representation of `n`, without leading zeros.
pub open spec fn decimal_text(n: nat) -> Seq<char>
    decreases n,
{
    if n < 10 {
        seq![digit_char(n)]
    } else {
        decimal_text(n / 10).push(digit_char(n % 10))
    }
}

/// The decimal representation of `n` is made of digits only, reads back as
/// `n`, and starts with a zero only when it is the single digit of zero.
pub proof fn law_decimal_text_reads_back(n: nat)
    ensures
        decimal_text(n).len() > 0,
        all_decimal_digits(decimal_text(n)),
        decimal_value(decimal_text(n)) == n,
        decimal_text(n)[0] == '0' ==> n == 0,
    decreases n,
{
    if n >= 10 {
        law_decimal_text_reads_back(n / 10);
        let t = decimal_text(n / 10);
        assert(decimal_text(n).drop_last() =~= t);
        assert(digit_char(n % 10) as u32 == n % 10 + 48);
        assert((n / 10) * 10 + n % 10 == n);
        assert(decimal_text(n).last() == digit_char(n % 10));
        assert(('0' as u32) == 48);
        assert(decimal_value(decimal_text(n)) == decimal_value(t) * 10 + n % 10);
        assert(decimal_text(n)[0] == t[0]);
        assert forall|i: int| 0 <= i < decimal_text(n).len() implies '0' <= #[trigger] decimal_text(
            n,
        )[i] <= '9' by {
            if i < t.len() {
                assert(decimal_text(n)[i] == t[i]);
            }
        }
    } else {
        assert(decimal_text(n).drop_last() =~= Seq::<char>::empty());
        assert(decimal_value(decimal_text(n).drop_last()) == 0);
        assert(digit_char(n) as u32 == n + 48);
        assert(('0' as u32) == 48);
        assert(decimal_text(n).last() == digit_char(n));
    }
}

/// Appends the decimal representation of `n` to `out` (what `{}` prints for it).
pub fn push_decimal(out: &mut String, n: u64)
    ensures
        final(out)@ == old(out)@ + decimal_text(n as nat),
    decreases n,
{
    if n >= 10 {
        push_decimal(out, n / 10);
    }
    let d: u64 = n % 10;
    let c: char = (d as u8 + 48u8) as char;
    proof {
        assert(c == digit_char((n % 10) as nat));
    }
    push_char(out, c);
    proof {
        if n >= 10 {
            assert(decimal_text(n as nat) == decimal_text((n / 10) as nat).push(digit_char((n % 10) as nat)));
        }
    }
}

} // verus!
