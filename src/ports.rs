//! Port lists: parsing `22,80,1000-1010` into an ascending list without
//! duplicates, and rendering a list back into its compact range form.
use vstd::prelude::*;
use crate::text::{
    is_digit, digit_value, trim_start, trim_end, lemma_split_on_nonempty,
    split_on, all_digits, decimal_value, trimmed, joined, chars_of, split_chars, trim_chars,
    parse_decimal, string_from_chars, join_strings,
};

verus! {

pub open spec fn strictly_ascending(s: Seq<u16>) -> bool {
    forall|i: int, j: int| 0 <= i < j < s.len() ==> s[i] < s[j]
}

/// What `u16::from_str` accepts: an optional `+`, then decimal digits
/// denoting at most 65535.
pub open spec fn port_number(s: Seq<char>) -> Option<nat> {
    let digits = if s.len() > 0 && s[0] == '+' {
        s.drop_first()
    } else {
        s
    };
    if digits.len() > 0 && all_digits(digits) && decimal_value(digits) <= 65535 {
        Some(decimal_value(digits))
    } else {
        None
    }
}

/// Whether one comma-separated token names port `p`: a number, or a range
/// `start-end` that holds it. A token that parses as neither names nothing.
pub open spec fn token_covers(t: Seq<char>, p: nat) -> bool {
    let f = split_on(t, '-');
    if f.len() == 1 {
        port_number(trimmed(t)) == Some(p)
    } else if f.len() == 2 {
        let a = port_number(trimmed(f[0]));
        let b = port_number(trimmed(f[1]));
        a is Some && b is Some && a->0 <= p <= b->0
    } else {
        false
    }
}

/// Whether one of the first `k` tokens names `p`.
pub open spec fn covered_by_first(parts: Seq<Seq<char>>, k: int, p: nat) -> bool {
    exists|i: int| 0 <= i < k && #[trigger] token_covers(parts[i], p)
}

/// Whether the port list text names port `p`.
pub open spec fn in_port_list(s: Seq<char>, p: nat) -> bool {
    covered_by_first(split_on(s, ','), split_on(s, ',').len() as int, p)
}

/// `r` is the ascending list, without duplicates, of the ports `s` names.
pub open spec fn is_port_list_of(r: Seq<u16>, s: Seq<char>) -> bool {
    &&& strictly_ascending(r)
    &&& forall|p: u16| r.contains(p) <==> in_port_list(s, p as nat)
}

/// Parses a port number the way `u16::from_str` does.
pub fn parse_port_number(t: &Vec<char>) -> (r: Option<u16>)
    ensures
        match r {
            Some(v) => port_number(t@) == Some(v as nat),
            None => port_number(t@) is None,
        },
{
    if t.len() > 0 && t[0] == '+' {
        let mut digits: Vec<char> = Vec::new();
        let mut k: usize = 1;
        while k < t.len()
            invariant
                1 <= k <= t.len(),
                digits@ == t@.subrange(1, k as int),
            decreases t.len() - k,
        {
            digits.push(t[k]);
            k = k + 1;
            assert(digits@ =~= t@.subrange(1, k as int));
        }
        assert(digits@ =~= t@.drop_first());
        match parse_decimal(&digits, 65535) {
            Some(v) => Some(v as u16),
            None => None,
        }
    } else {
        match parse_decimal(t, 65535) {
            Some(v) => Some(v as u16),
            None => None,
        }
    }
}

/// The inclusive bounds of the ports a token names, or `None` when it
/// names none.
pub fn token_bounds(t: &Vec<char>) -> (r: Option<(u16, u16)>)
    ensures
        match r {
            Some((a, b)) => forall|p: nat| #[trigger] token_covers(t@, p) <==> a <= p <= b,
            None => forall|p: nat| !#[trigger] token_covers(t@, p),
        },
{
    let f = split_chars(t, '-');
    if f.len() == 1 {
        let tt = trim_chars(t);
        match parse_port_number(&tt) {
            Some(v) => Some((v, v)),
            None => None,
        }
    } else if f.len() == 2 {
        let a = parse_port_number(&trim_chars(&f[0]));
        let b = parse_port_number(&trim_chars(&f[1]));
        match (a, b) {
            (Some(x), Some(y)) => Some((x, y)),
            _ => None,
        }
    } else {
        None
    }
}

/// Parses a comma-separated list of ports and `start-end` ranges into the
/// ascending list of the ports named, each once. Tokens that parse as
/// neither are skipped; a range whose start exceeds its end names nothing.
pub fn parse_ports(s: &str) -> (r: Vec<u16>)
    ensures
        is_port_list_of(r@, s@),
{
    let chars = chars_of(s);
    let parts = split_chars(&chars, ',');
    let ghost ps = split_on(s@, ',');
    let mut marks: Vec<bool> = Vec::new();
    let mut q: u32 = 0;
    while q < 65536
        invariant
            q <= 65536,
            marks.len() == q,
            forall|p: int| 0 <= p < q ==> !(#[trigger] marks[p]),
        decreases 65536 - q,
    {
        marks.push(false);
        q = q + 1;
    }
    let mut k: usize = 0;
    while k < parts.len()
        invariant
            k <= parts.len(),
            parts.len() == ps.len(),
            forall|j: int| 0 <= j < parts.len() ==> (#[trigger] parts[j])@ == ps[j],
            marks.len() == 65536,
            forall|p: int| 0 <= p < 65536 ==> (#[trigger] marks[p] <==> covered_by_first(ps, k as int, p as nat)),
        decreases parts.len() - k,
    {
        let bounds = token_bounds(&parts[k]);
        let ghost before = marks@;
        match bounds {
            Some((a, b)) => {
                let mut q: u32 = a as u32;
                while q <= b as u32
                    invariant
                        a <= q,
                        a <= b ==> q <= b as u32 + 1,
                        a > b ==> q == a,
                        marks.len() == 65536,
                        forall|p: int| 0 <= p < 65536 ==> (#[trigger] marks[p] <==> (before[p] || (a <= p < q))),
                    decreases b as u32 + 1 - q,
                {
                    marks.set(q as usize, true);
                    q = q + 1;
                }
            },
            None => {},
        }
        proof {
            assert forall|p: int| 0 <= p < 65536 implies (#[trigger] marks[p] <==> covered_by_first(ps, k + 1, p as nat)) by {
                if covered_by_first(ps, k + 1, p as nat) && !covered_by_first(ps, k as int, p as nat) {
                    assert(token_covers(ps[k as int], p as nat));
                }
                if token_covers(ps[k as int], p as nat) {
                    assert(covered_by_first(ps, k + 1, p as nat));
                }
                if covered_by_first(ps, k as int, p as nat) {
                    let i = choose|i: int| 0 <= i < k && #[trigger] token_covers(ps[i], p as nat);
                    assert(covered_by_first(ps, k + 1, p as nat));
                }
            }
        }
        k = k + 1;
    }
    let mut r: Vec<u16> = Vec::new();
    let mut p: u32 = 0;
    while p < 65536
        invariant
            p <= 65536,
            marks.len() == 65536,
            forall|x: int| 0 <= x < 65536 ==> (#[trigger] marks[x] <==> in_port_list(s@, x as nat)),
            strictly_ascending(r@),
            forall|i: int| 0 <= i < r.len() ==> r[i] < p,
            forall|x: u16| x < p ==> (r@.contains(x) <==> marks[x as int]),
        decreases 65536 - p,
    {
        if marks[p as usize] {
            let ghost before = r@;
            r.push(p as u16);
            assert forall|x: u16| x < p + 1 implies (r@.contains(x) <==> marks[x as int]) by {
                if x < p && before.contains(x) {
                    let i = choose|i: int| 0 <= i < before.len() && before[i] == x;
                    assert(r@[i] == x);
                }
                if x == p {
                    assert(r@[r.len() - 1] == x);
                }
            }
        }
        p = p + 1;
    }
    r
}

/// The decimal numeral of `n`, without leading zeros.
pub open spec fn decimal_text(n: nat) -> Seq<char>
    decreases n,
{
    if n < 10 {
        seq![digit_char(n)]
    } else {
        decimal_text(n / 10).push(digit_char(n % 10))
    }
}

pub open spec fn digit_char(d: nat) -> char {
    ((48 + d) as u8) as char
}

fn digit_of(d: u64) -> (r: char)
    requires
        d < 10,
    ensures
        r == digit_char(d as nat),
{
    ((48 + d) as u8) as char
}

/// Writes `n` in decimal.
pub fn decimal_chars(n: u64) -> (r: Vec<char>)
    ensures
        r@ == decimal_text(n as nat),
    decreases n,
{
    if n < 10 {
        let mut r: Vec<char> = Vec::new();
        r.push(digit_of(n));
        assert(r@ =~= decimal_text(n as nat));
        r
    } else {
        let mut r = decimal_chars(n / 10);
        r.push(digit_of(n % 10));
        r
    }
}

/// The maximal runs of consecutive values, in order, as inclusive bounds.
pub open spec fn runs(s: Seq<u16>) -> Seq<(u16, u16)>
    decreases s.len(),
{
    if s.len() == 0 {
        Seq::empty()
    } else {
        let r = runs(s.drop_last());
        let x = s.last();
        if r.len() > 0 && x == r.last().1 + 1 {
            r.update(r.len() - 1, (r.last().0, x))
        } else {
            r.push((x, x))
        }
    }
}

/// One run: `a` alone, or `a-b`.
pub open spec fn range_text(a: u16, b: u16) -> Seq<char> {
    if a == b {
        decimal_text(a as nat)
    } else {
        decimal_text(a as nat) + seq!['-'] + decimal_text(b as nat)
    }
}

/// The compact text of a port list: its runs, comma-separated.
pub open spec fn port_ranges_text(ports: Seq<u16>) -> Seq<char> {
    joined(runs(ports).map_values(|r: (u16, u16)| range_text(r.0, r.1)), ","@)
}

/// The runs of consecutive ports, in order.
pub fn port_runs(ports: &[u16]) -> (r: Vec<(u16, u16)>)
    ensures
        r@ == runs(ports@),
{
    let mut r: Vec<(u16, u16)> = Vec::new();
    let mut k: usize = 0;
    while k < ports.len()
        invariant
            k <= ports@.len(),
            r@ == runs(ports@.take(k as int)),
        decreases ports@.len() - k,
    {
        let x = ports[k];
        assert(ports@.take(k + 1).drop_last() =~= ports@.take(k as int));
        assert(ports@.take(k + 1).last() == x);
        let n = r.len();
        if n > 0 && x as u32 == r[n - 1].1 as u32 + 1 {
            let first = r[n - 1].0;
            r.set(n - 1, (first, x));
        } else {
            r.push((x, x));
        }
        k = k + 1;
    }
    assert(ports@.take(ports@.len() as int) =~= ports@);
    r
}

/// Renders one run.
fn range_string(a: u16, b: u16) -> (r: String)
    ensures
        r@ == range_text(a, b),
{
    let mut t = decimal_chars(a as u64);
    if a != b {
        t.push('-');
        let mut tail = decimal_chars(b as u64);
        t.append(&mut tail);
    }
    string_from_chars(&t)
}

/// Renders a sorted port list compactly, e.g. `1-5,7,9-11`.
pub fn format_port_ranges(ports: &[u16]) -> (r: String)
    ensures
        r@ == port_ranges_text(ports@),
{
    let rs = port_runs(ports);
    let mut texts: Vec<String> = Vec::new();
    let mut k: usize = 0;
    while k < rs.len()
        invariant
            k <= rs.len(),
            texts@.map_values(|t: String| t@) == rs@.take(k as int).map_values(
                |r: (u16, u16)| range_text(r.0, r.1),
            ),
        decreases rs.len() - k,
    {
        let t = range_string(rs[k].0, rs[k].1);
        let ghost before = texts@;
        let ghost tv = t@;
        texts.push(t);
        assert(texts@.map_values(|t: String| t@) =~= before.map_values(|t: String| t@).push(tv));
        assert(rs@.take(k + 1) =~= rs@.take(k as int).push(rs@[k as int]));
        k = k + 1;
        assert(texts@.map_values(|t: String| t@) =~= rs@.take(k as int).map_values(
            |r: (u16, u16)| range_text(r.0, r.1),
        ));
    }
    assert(rs@.take(rs.len() as int) =~= rs@);
    join_strings(&texts, ",")
}

/// Appending text free of the separator extends the last field.
proof fn lemma_split_append_plain(x: Seq<char>, y: Seq<char>, sep: char)
    requires
        forall|i: int| 0 <= i < y.len() ==> y[i] != sep,
    ensures
        split_on(x + y, sep) == split_on(x, sep).update(
            split_on(x, sep).len() - 1,
            split_on(x, sep).last() + y,
        ),
    decreases y.len(),
{
    lemma_split_on_nonempty(x, sep);
    if y.len() == 0 {
        assert(x + y =~= x);
        assert(split_on(x, sep).last() + y =~= split_on(x, sep).last());
        assert(split_on(x, sep).update(split_on(x, sep).len() - 1, split_on(x, sep).last())
            =~= split_on(x, sep));
    } else {
        let z = x + y;
        assert(z.drop_last() =~= x + y.drop_last());
        assert(z.last() == y.last());
        lemma_split_append_plain(x, y.drop_last(), sep);
        assert(split_on(x, sep).last() + y.drop_last() + seq![y.last()] =~= split_on(x, sep).last() + y);
        assert((split_on(x, sep).last() + y.drop_last()).push(y.last()) =~= split_on(x, sep).last() + y);
        assert(split_on(z, sep) =~= split_on(x, sep).update(
            split_on(x, sep).len() - 1,
            split_on(x, sep).last() + y,
        ));
    }
}

/// Fields joined by a separator that none of them holds split back into
/// those fields.
proof fn lemma_split_joined(texts: Seq<Seq<char>>, sep: char)
    requires
        texts.len() >= 1,
        forall|k: int, i: int| 0 <= k < texts.len() && 0 <= i < texts[k].len() ==> #[trigger] texts[k][i] != sep,
    ensures
        split_on(joined(texts, seq![sep]), sep) == texts,
    decreases texts.len(),
{
    if texts.len() == 1 {
        let t = texts[0];
        assert forall|i: int| 0 <= i < t.len() implies t[i] != sep by {
            assert(texts[0][i] != sep);
        }
        lemma_split_append_plain(Seq::empty(), t, sep);
        assert(Seq::<char>::empty() + t =~= t);
        assert(split_on(Seq::<char>::empty(), sep) == seq![Seq::<char>::empty()]);
        assert(split_on(t, sep) =~= texts);
    } else {
        let init = texts.drop_last();
        let last = texts.last();
        assert forall|k: int, i: int| 0 <= k < init.len() && 0 <= i < init[k].len() implies #[trigger] init[k][i] != sep by {
            assert(texts[k][i] != sep);
        }
        assert forall|i: int| 0 <= i < last.len() implies last[i] != sep by {
            assert(texts[texts.len() - 1][i] != sep);
        }
        lemma_split_joined(init, sep);
        let a = joined(init, seq![sep]);
        assert(joined(texts, seq![sep]) == a + seq![sep] + last);
        assert(a + seq![sep] =~= a.push(sep));
        assert(a.push(sep).drop_last() =~= a);
        lemma_split_append_plain(a.push(sep), last, sep);
        assert(split_on(a.push(sep), sep) == init.push(Seq::<char>::empty()));
        assert(Seq::<char>::empty() + last =~= last);
        assert(init.push(Seq::<char>::empty()).update(init.len() as int, last) =~= texts);
    }
}

/// A decimal numeral is digits denoting its number.
proof fn lemma_decimal_text(n: nat)
    ensures
        decimal_text(n).len() >= 1,
        all_digits(decimal_text(n)),
        decimal_value(decimal_text(n)) == n,
    decreases n,
{
    if n < 10 {
        assert(seq![digit_char(n)].drop_last() =~= Seq::<char>::empty());
        assert(digit_value(digit_char(n)) == n);
        assert(decimal_value(seq![digit_char(n)]) == decimal_value(Seq::<char>::empty()) * 10
            + digit_value(digit_char(n)));
    } else {
        lemma_decimal_text(n / 10);
        let s = decimal_text(n / 10);
        let t = s.push(digit_char(n % 10));
        assert(t.drop_last() =~= s);
        assert(digit_value(digit_char(n % 10)) == n % 10);
        assert(decimal_value(t) == decimal_value(s) * 10 + n % 10);
        vstd::arithmetic::div_mod::lemma_fundamental_div_mod(n as int, 10);
        assert forall|i: int| 0 <= i < t.len() implies is_digit(#[trigger] t[i]) by {
            if i < s.len() {
                assert(t[i] == s[i]);
            }
        }
    }
}

/// Trimming leaves text that starts and ends with a digit unchanged.
proof fn lemma_trimmed_digits(s: Seq<char>)
    requires
        s.len() >= 1,
        is_digit(s[0]),
        is_digit(s.last()),
    ensures
        trimmed(s) == s,
{
    assert(trim_start(s) == s);
    assert(trim_end(s) == s);
}

/// A run's text names exactly the ports of the run.
proof fn lemma_range_text_covers(a: u16, b: u16, p: nat)
    requires
        a <= b,
    ensures
        token_covers(range_text(a, b), p) <==> a <= p <= b,
        forall|i: int| 0 <= i < range_text(a, b).len() ==> #[trigger] range_text(a, b)[i] != ',',
{
    lemma_decimal_text(a as nat);
    lemma_decimal_text(b as nat);
    let da = decimal_text(a as nat);
    let db = decimal_text(b as nat);
    assert(is_digit(da[0]));
    assert(is_digit(da.last()));
    assert(is_digit(db[0]));
    assert(is_digit(db.last()));
    lemma_trimmed_digits(da);
    lemma_trimmed_digits(db);
    assert(port_number(da) == Some(a as nat));
    assert(port_number(db) == Some(b as nat));
    if a == b {
        assert forall|k: int, i: int| 0 <= k < seq![da].len() && 0 <= i < seq![da][k].len() implies #[trigger] seq![da][k][i] != '-' by {
            assert(is_digit(da[i]));
        }
        lemma_split_joined(seq![da], '-');
        assert(joined(seq![da], seq!['-']) == da);
        assert forall|i: int| 0 <= i < range_text(a, b).len() implies #[trigger] range_text(a, b)[i] != ',' by {
            assert(is_digit(da[i]));
        }
    } else {
        let texts = seq![da, db];
        assert forall|k: int, i: int| 0 <= k < texts.len() && 0 <= i < texts[k].len() implies #[trigger] texts[k][i] != '-' by {
            if k == 0 {
                assert(is_digit(da[i]));
            } else {
                assert(is_digit(db[i]));
            }
        }
        lemma_split_joined(texts, '-');
        assert(texts.drop_last() =~= seq![da]);
        assert(joined(seq![da], seq!['-']) == da);
        assert(texts.last() == db);
        assert(joined(texts, seq!['-']) == joined(texts.drop_last(), seq!['-']) + seq!['-'] + db);
        assert(joined(texts, seq!['-']) == da + seq!['-'] + db);
        let t = range_text(a, b);
        assert forall|i: int| 0 <= i < t.len() implies #[trigger] t[i] != ',' by {
            if i < da.len() {
                assert(t[i] == da[i]);
                assert(is_digit(da[i]));
            } else if i > da.len() {
                assert(t[i] == db[i - da.len() - 1]);
                assert(is_digit(db[i - da.len() - 1]));
            }
        }
    }
}

/// Whether one of the runs holds `p`.
pub open spec fn in_runs(rs: Seq<(u16, u16)>, p: nat) -> bool {
    exists|k: int| 0 <= k < rs.len() && (#[trigger] rs[k]).0 <= p <= rs[k].1
}

/// The runs of an ascending list hold exactly its values.
proof fn lemma_runs_cover(s: Seq<u16>)
    requires
        strictly_ascending(s),
    ensures
        forall|k: int| 0 <= k < runs(s).len() ==> (#[trigger] runs(s)[k]).0 <= runs(s)[k].1,
        forall|p: u16| s.contains(p) <==> in_runs(runs(s), p as nat),
        s.len() > 0 ==> runs(s).len() > 0 && runs(s).last().1 == s.last(),
        forall|k: int| 0 <= k < runs(s).len() ==> (#[trigger] runs(s)[k]).1 <= s.last(),
    decreases s.len(),
{
    if s.len() > 0 {
        let init = s.drop_last();
        let x = s.last();
        assert(strictly_ascending(init));
        lemma_runs_cover(init);
        let r = runs(init);
        assert forall|p: u16| s.contains(p) <==> (init.contains(p) || p == x) by {
            if s.contains(p) {
                let i = choose|i: int| 0 <= i < s.len() && s[i] == p;
                if i < s.len() - 1 {
                    assert(init[i] == p);
                }
            }
            if init.contains(p) {
                let i = choose|i: int| 0 <= i < init.len() && init[i] == p;
                assert(s[i] == p);
            }
            if p == x {
                assert(s[s.len() - 1] == p);
            }
        }
        if init.len() > 0 {
            assert(init.last() < x);
        }
        assert forall|k: int| 0 <= k < r.len() implies (#[trigger] r[k]).1 < x by {
            assert(r[k].1 <= init.last());
        }
        if r.len() > 0 && x == r.last().1 + 1 {
            let rs = runs(s);
            assert forall|p: u16| in_runs(rs, p as nat) <==> (in_runs(r, p as nat) || p == x) by {
                if in_runs(rs, p as nat) {
                    let k = choose|k: int| 0 <= k < rs.len() && (#[trigger] rs[k]).0 <= p <= rs[k].1;
                    if k < rs.len() - 1 {
                        assert(rs[k] == r[k]);
                    } else if p < x {
                        assert(r[k].0 <= p <= r[k].1);
                    }
                }
                if in_runs(r, p as nat) {
                    let k = choose|k: int| 0 <= k < r.len() && (#[trigger] r[k]).0 <= p <= r[k].1;
                    assert(rs[k].0 <= p <= rs[k].1);
                }
                if p == x {
                    assert(rs[rs.len() - 1].0 <= p <= rs[rs.len() - 1].1);
                }
            }
        } else {
            let rs = runs(s);
            assert forall|p: u16| in_runs(rs, p as nat) <==> (in_runs(r, p as nat) || p == x) by {
                if in_runs(rs, p as nat) {
                    let k = choose|k: int| 0 <= k < rs.len() && (#[trigger] rs[k]).0 <= p <= rs[k].1;
                    if k < rs.len() - 1 {
                        assert(rs[k] == r[k]);
                    }
                }
                if in_runs(r, p as nat) {
                    let k = choose|k: int| 0 <= k < r.len() && (#[trigger] r[k]).0 <= p <= r[k].1;
                    assert(rs[k].0 <= p <= rs[k].1);
                }
                if p == x {
                    assert(rs[rs.len() - 1].0 <= p <= rs[rs.len() - 1].1);
                }
            }
        }
    }
}

/// Two ascending lists with the same values are equal.
proof fn lemma_ascending_unique(a: Seq<u16>, b: Seq<u16>)
    requires
        strictly_ascending(a),
        strictly_ascending(b),
        forall|p: u16| a.contains(p) <==> b.contains(p),
    ensures
        a == b,
    decreases a.len() + b.len(),
{
    if a.len() == 0 {
        if b.len() > 0 {
            assert(b.contains(b[0]));
        }
        assert(a =~= b);
    } else if b.len() == 0 {
        assert(a.contains(a[0]));
    } else {
        assert(a.contains(a[0]));
        assert(b.contains(b[0]));
        let i = choose|i: int| 0 <= i < b.len() && b[i] == a[0];
        let j = choose|j: int| 0 <= j < a.len() && a[j] == b[0];
        assert(a[0] == b[0]) by {
            if a[0] < b[0] {
                assert(b[i] >= b[0]);
            } else if a[0] > b[0] {
                assert(a[j] >= a[0]);
            }
        }
        let a1 = a.drop_first();
        let b1 = b.drop_first();
        assert forall|p: u16| a1.contains(p) <==> b1.contains(p) by {
            if a1.contains(p) {
                let k = choose|k: int| 0 <= k < a1.len() && a1[k] == p;
                assert(a[k + 1] == p && p > a[0]);
                assert(a.contains(p));
                let m = choose|m: int| 0 <= m < b.len() && b[m] == p;
                assert(m > 0);
                assert(b1[m - 1] == p);
            }
            if b1.contains(p) {
                let k = choose|k: int| 0 <= k < b1.len() && b1[k] == p;
                assert(b[k + 1] == p && p > b[0]);
                assert(b.contains(p));
                let m = choose|m: int| 0 <= m < a.len() && a[m] == p;
                assert(m > 0);
                assert(a1[m - 1] == p);
            }
        }
        lemma_ascending_unique(a1, b1);
        assert(a =~= seq![a[0]] + a1);
        assert(b =~= seq![b[0]] + b1);
    }
}

/// The compact text of an ascending list names exactly its ports.
proof fn lemma_ranges_text_names(ports: Seq<u16>, p: nat)
    requires
        strictly_ascending(ports),
    ensures
        in_port_list(port_ranges_text(ports), p) <==> in_runs(runs(ports), p),
{
    lemma_runs_cover(ports);
    let rs = runs(ports);
    let texts = rs.map_values(|r: (u16, u16)| range_text(r.0, r.1));
    reveal_strlit(",");
    assert(","@ =~= seq![',']);
    if rs.len() == 0 {
        assert(port_ranges_text(ports) == Seq::<char>::empty());
        let parts = split_on(Seq::<char>::empty(), ',');
        assert(parts == seq![Seq::<char>::empty()]);
        assert(split_on(Seq::<char>::empty(), '-') == seq![Seq::<char>::empty()]);
        assert(trim_start(Seq::<char>::empty()) == Seq::<char>::empty());
        assert(trimmed(Seq::<char>::empty()) == Seq::<char>::empty());
        assert(!token_covers(parts[0], p));
    } else {
        assert forall|k: int, i: int| 0 <= k < texts.len() && 0 <= i < texts[k].len() implies #[trigger] texts[k][i] != ',' by {
            lemma_range_text_covers(rs[k].0, rs[k].1, p);
        }
        lemma_split_joined(texts, ',');
        let parts = split_on(port_ranges_text(ports), ',');
        assert(parts == texts);
        if in_runs(rs, p) {
            let k = choose|k: int| 0 <= k < rs.len() && (#[trigger] rs[k]).0 <= p <= rs[k].1;
            lemma_range_text_covers(rs[k].0, rs[k].1, p);
            assert(token_covers(parts[k], p));
        }
        if in_port_list(port_ranges_text(ports), p) {
            let k = choose|k: int| 0 <= k < parts.len() && #[trigger] token_covers(parts[k], p);
            lemma_range_text_covers(rs[k].0, rs[k].1, p);
            assert(rs[k].0 <= p <= rs[k].1);
        }
    }
}

/// Re-expanding the compact text of an ascending port list without
/// duplicates yields that same list.
pub proof fn lemma_port_ranges_round_trip(ports: Seq<u16>, reparsed: Seq<u16>)
    requires
        strictly_ascending(ports),
        is_port_list_of(reparsed, port_ranges_text(ports)),
    ensures
        reparsed == ports,
{
    lemma_runs_cover(ports);
    assert forall|p: u16| reparsed.contains(p) <==> ports.contains(p) by {
        lemma_ranges_text_names(ports, p as nat);
    }
    lemma_ascending_unique(reparsed, ports);
}

} // verus!
