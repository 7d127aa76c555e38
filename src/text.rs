//! Character-level helpers shared by the parsers and renderers: splitting on
//! a separator, decimal numerals, and conversions between text and
//! character sequences.
use vstd::prelude::*;
use vstd::string::*;

verus! {

/// The fields of `s` between occurrences of `sep`; always at least one field.
pub open spec fn split_on(s: Seq<char>, sep: char) -> Seq<Seq<char>>
    decreases s.len(),
{
    if s.len() == 0 {
        seq![Seq::<char>::empty()]
    } else {
        let init = split_on(s.drop_last(), sep);
        if s.last() == sep {
            init.push(Seq::<char>::empty())
        } else {
            init.update(init.len() - 1, init.last().push(s.last()))
        }
    }
}

pub proof fn lemma_split_on_nonempty(s: Seq<char>, sep: char)
    ensures
        split_on(s, sep).len() >= 1,
    decreases s.len(),
{
    if s.len() > 0 {
        lemma_split_on_nonempty(s.drop_last(), sep);
    }
}

pub open spec fn is_digit(c: char) -> bool {
    '0' <= c && c <= '9'
}

pub open spec fn digit_value(c: char) -> nat {
    (c as u32 - '0' as u32) as nat
}

pub open spec fn all_digits(s: Seq<char>) -> bool {
    forall|i: int| 0 <= i < s.len() ==> is_digit(#[trigger] s[i])
}

/// The number that a string of decimal digits denotes.
pub open spec fn decimal_value(s: Seq<char>) -> nat
    decreases s.len(),
{
    if s.len() == 0 {
        0
    } else {
        decimal_value(s.drop_last()) * 10 + digit_value(s.last())
    }
}

/// The characters of `s`, in order.
pub fn chars_of(s: &str) -> (r: Vec<char>)
    ensures
        r@ == s@,
{
    let n = s.unicode_len();
    let mut r: Vec<char> = Vec::new();
    let mut i: usize = 0;
    while i < n
        invariant
            n == s@.len(),
            i <= n,
            r@ == s@.take(i as int),
        decreases n - i,
    {
        let c = s.get_char(i);
        r.push(c);
        i = i + 1;
        assert(r@ =~= s@.take(i as int));
    }
    assert(r@ =~= s@);
    r
}

/// Relies on `FromIterator<char> for String`: the string holds exactly the
/// given characters, in order.
#[verifier::external_body]
pub(crate) fn string_from_chars(chars: &Vec<char>) -> (r: String)
    ensures
        r@ == chars@,
{
    chars.iter().collect()
}

/// The fields of `s` between occurrences of `sep`.
pub fn split_chars(s: &Vec<char>, sep: char) -> (r: Vec<Vec<char>>)
    ensures
        r.len() == split_on(s@, sep).len(),
        forall|i: int| 0 <= i < r.len() ==> (#[trigger] r[i])@ == split_on(s@, sep)[i],
{
    let mut fields: Vec<Vec<char>> = Vec::new();
    let mut cur: Vec<char> = Vec::new();
    let mut i: usize = 0;
    while i < s.len()
        invariant
            i <= s.len(),
            fields.len() + 1 == split_on(s@.take(i as int), sep).len(),
            forall|j: int|
                0 <= j < fields.len() ==> (#[trigger] fields[j])@ == split_on(
                    s@.take(i as int),
                    sep,
                )[j],
            cur@ == split_on(s@.take(i as int), sep).last(),
        decreases s.len() - i,
    {
        let c = s[i];
        assert(s@.take(i + 1).drop_last() =~= s@.take(i as int));
        proof {
            lemma_split_on_nonempty(s@.take(i as int), sep);
        }
        if c == sep {
            fields.push(cur);
            cur = Vec::new();
            assert(cur@ =~= Seq::<char>::empty());
        } else {
            cur.push(c);
        }
        i = i + 1;
    }
    assert(s@.take(s.len() as int) =~= s@);
    fields.push(cur);
    fields
}

/// `Some(v)` exactly when `s` is a non-empty run of decimal digits whose
/// value `v` is at most `max`.
pub fn parse_decimal(s: &Vec<char>, max: u32) -> (r: Option<u32>)
    ensures
        match r {
            Some(v) => s@.len() > 0 && all_digits(s@) && v == decimal_value(s@) && v <= max,
            None => !(s@.len() > 0 && all_digits(s@) && decimal_value(s@) <= max),
        },
{
    if s.len() == 0 {
        return None;
    }
    let mut val: u64 = 0;
    let mut i: usize = 0;
    while i < s.len()
        invariant
            i <= s.len(),
            all_digits(s@.take(i as int)),
            val <= max as u64 + 1,
            val <= max ==> val == decimal_value(s@.take(i as int)),
            val == max as u64 + 1 ==> decimal_value(s@.take(i as int)) > max,
        decreases s.len() - i,
    {
        let c = s[i];
        if !('0' <= c && c <= '9') {
            assert(!all_digits(s@)) by {
                assert(!is_digit(s@[i as int]));
            }
            return None;
        }
        let d = (c as u32 - '0' as u32) as u64;
        assert(s@.take(i + 1).drop_last() =~= s@.take(i as int));
        assert(s@.take(i + 1).last() == c);
        let next = val * 10 + d;
        if next > max as u64 {
            val = max as u64 + 1;
        } else {
            val = next;
        }
        i = i + 1;
        assert(all_digits(s@.take(i as int))) by {
            assert forall|j: int| 0 <= j < i implies is_digit(#[trigger] s@.take(i as int)[j]) by {
                if j < i - 1 {
                    assert(s@.take(i as int)[j] == s@.take(i - 1)[j]);
                }
            }
        }
    }
    assert(s@.take(s.len() as int) =~= s@);
    if val <= max as u64 {
        Some(val as u32)
    } else {
        None
    }
}


/// What `String::from_utf8_lossy` makes of a byte string: valid UTF-8 is
/// decoded, each invalid sequence becomes U+FFFD.
pub uninterp spec fn lossy_text(b: Seq<u8>) -> Seq<char>;

/// Whether every byte is ASCII.
pub open spec fn ascii_bytes(b: Seq<u8>) -> bool {
    forall|i: int| 0 <= i < b.len() ==> #[trigger] b[i] < 128
}

/// Relies on `String::from_utf8_lossy`: valid UTF-8 comes back unchanged,
/// so an ASCII byte string becomes the same characters.
#[verifier::external_body]
pub(crate) fn text_from_bytes(b: &[u8]) -> (r: String)
    ensures
        r@ == lossy_text(b@),
        ascii_bytes(b@) ==> r@ == Seq::new(b@.len(), |i: int| b@[i] as char),
{
    String::from_utf8_lossy(b).into_owned()
}

/// The Unicode `White_Space` characters.
pub open spec fn is_white(c: char) -> bool {
    ||| '\t' <= c <= '\r'
    ||| c == ' '
    ||| c == '\u{85}'
    ||| c == '\u{a0}'
    ||| c == '\u{1680}'
    ||| '\u{2000}' <= c <= '\u{200a}'
    ||| c == '\u{2028}'
    ||| c == '\u{2029}'
    ||| c == '\u{202f}'
    ||| c == '\u{205f}'
    ||| c == '\u{3000}'
}

pub open spec fn trim_start(s: Seq<char>) -> Seq<char>
    decreases s.len(),
{
    if s.len() > 0 && is_white(s[0]) {
        trim_start(s.drop_first())
    } else {
        s
    }
}

pub open spec fn trim_end(s: Seq<char>) -> Seq<char>
    decreases s.len(),
{
    if s.len() > 0 && is_white(s.last()) {
        trim_end(s.drop_last())
    } else {
        s
    }
}

/// `s` without leading and trailing white space.
pub open spec fn trimmed(s: Seq<char>) -> Seq<char> {
    trim_end(trim_start(s))
}

pub fn char_is_white(c: char) -> (r: bool)
    ensures
        r == is_white(c),
{
    ('\t' <= c && c <= '\r') || c == ' ' || c == '\u{85}' || c == '\u{a0}' || c == '\u{1680}'
        || ('\u{2000}' <= c && c <= '\u{200a}') || c == '\u{2028}' || c == '\u{2029}' || c
        == '\u{202f}' || c == '\u{205f}' || c == '\u{3000}'
}

/// The characters of `s` without leading and trailing white space.
pub fn trim_chars(s: &Vec<char>) -> (r: Vec<char>)
    ensures
        r@ == trimmed(s@),
{
    let mut i: usize = 0;
    assert(s@.subrange(0, s@.len() as int) =~= s@);
    while i < s.len() && char_is_white(s[i])
        invariant
            i <= s.len(),
            trim_start(s@) == trim_start(s@.subrange(i as int, s@.len() as int)),
        decreases s.len() - i,
    {
        assert(s@.subrange(i as int, s@.len() as int).drop_first() =~= s@.subrange(
            i + 1,
            s@.len() as int,
        ));
        i = i + 1;
    }
    assert(trim_start(s@) == s@.subrange(i as int, s@.len() as int));
    let mut j: usize = s.len();
    while j > i && char_is_white(s[j - 1])
        invariant
            i <= j <= s.len(),
            trimmed(s@) == trim_end(s@.subrange(i as int, j as int)),
        decreases j,
    {
        assert(s@.subrange(i as int, j as int).drop_last() =~= s@.subrange(i as int, j - 1));
        j = j - 1;
    }
    let mut r: Vec<char> = Vec::new();
    let mut k: usize = i;
    while k < j
        invariant
            i <= k <= j,
            j <= s.len(),
            r@ == s@.subrange(i as int, k as int),
        decreases j - k,
    {
        r.push(s[k]);
        k = k + 1;
        assert(r@ =~= s@.subrange(i as int, k as int));
    }
    r
}

/// Appends the characters of `t` to `v`.
pub fn push_str_chars(v: &mut Vec<char>, t: &str)
    ensures
        final(v)@ == old(v)@ + t@,
{
    let tc = chars_of(t);
    let mut k: usize = 0;
    let ghost start = v@;
    while k < tc.len()
        invariant
            k <= tc.len(),
            tc@ == t@,
            v@ == start + tc@.take(k as int),
        decreases tc.len() - k,
    {
        v.push(tc[k]);
        k = k + 1;
        assert(v@ =~= start + tc@.take(k as int));
    }
    assert(tc@.take(tc.len() as int) =~= tc@);
}

/// The strings of `parts` joined by `sep`.
pub open spec fn joined(parts: Seq<Seq<char>>, sep: Seq<char>) -> Seq<char>
    decreases parts.len(),
{
    if parts.len() == 0 {
        Seq::empty()
    } else if parts.len() == 1 {
        parts[0]
    } else {
        joined(parts.drop_last(), sep) + sep + parts.last()
    }
}

/// Joins `parts` with `sep` between them.
pub fn join_strings(parts: &Vec<String>, sep: &str) -> (r: String)
    ensures
        r@ == joined(parts@.map_values(|p: String| p@), sep@),
{
    let ghost views = parts@.map_values(|p: String| p@);
    let mut out: Vec<char> = Vec::new();
    let mut k: usize = 0;
    while k < parts.len()
        invariant
            k <= parts.len(),
            views == parts@.map_values(|p: String| p@),
            out@ == joined(views.take(k as int), sep@),
        decreases parts.len() - k,
    {
        assert(views.take(k + 1).drop_last() =~= views.take(k as int));
        if k > 0 {
            push_str_chars(&mut out, sep);
        }
        push_str_chars(&mut out, parts[k].as_str());
        k = k + 1;
        assert(k == 1 ==> out@ =~= joined(views.take(k as int), sep@));
    }
    assert(views.take(parts.len() as int) =~= views);
    string_from_chars(&out)
}


/// Whether the characters are those of `b`.
pub fn chars_equal(a: &Vec<char>, b: &str) -> (r: bool)
    ensures
        r == (a@ == b@),
{
    let bc = chars_of(b);
    if a.len() != bc.len() {
        return false;
    }
    let mut k: usize = 0;
    while k < a.len()
        invariant
            k <= a.len(),
            a.len() == bc.len(),
            bc@ == b@,
            a@.take(k as int) == bc@.take(k as int),
        decreases a.len() - k,
    {
        if a[k] != bc[k] {
            assert(a@[k as int] != bc@[k as int]);
            return false;
        }
        k = k + 1;
        assert(a@.take(k as int) =~= bc@.take(k as int));
    }
    assert(a@ =~= a@.take(a.len() as int));
    assert(bc@ =~= bc@.take(bc.len() as int));
    true
}

/// What `str::to_lowercase` makes of a string (Unicode lowercase mapping).
pub uninterp spec fn lower_of(s: Seq<char>) -> Seq<char>;

/// Relies on `str::to_lowercase`: the result depends on the characters
/// alone, and the empty string stays empty.
#[verifier::external_body]
pub(crate) fn lowercase(s: &str) -> (r: String)
    ensures
        r@ == lower_of(s@),
        s@.len() == 0 ==> r@.len() == 0,
{
    s.to_lowercase()
}

} // verus!
