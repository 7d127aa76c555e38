//! The protocol failure report: failures grouped by protocol, with the
//! ports where each protocol failed, rendered as CSV rows.
use vstd::prelude::*;
use crate::ports::{decimal_text, decimal_chars};
use crate::service::ServiceDetectionResult;
use crate::text::{chars_of, push_str_chars, string_from_chars};

verus! {

/// Each failure of each result, as (protocol name, port), in order.
pub open spec fn failure_pairs(rs: Seq<ServiceDetectionResult>) -> Seq<(Seq<char>, u16)>
    decreases rs.len(),
{
    if rs.len() == 0 {
        Seq::empty()
    } else {
        failure_pairs(rs.drop_last()) + rs.last().failure_names().map_values(
            |n: Seq<char>| (n, rs.last().port),
        )
    }
}

/// The protocol names of the pairs, each once, in order of first appearance.
pub open spec fn first_names(ps: Seq<(Seq<char>, u16)>) -> Seq<Seq<char>>
    decreases ps.len(),
{
    if ps.len() == 0 {
        Seq::empty()
    } else {
        let init = first_names(ps.drop_last());
        if init.contains(ps.last().0) {
            init
        } else {
            init.push(ps.last().0)
        }
    }
}

/// The ports paired with `name`, in order.
pub open spec fn ports_named(ps: Seq<(Seq<char>, u16)>, name: Seq<char>) -> Seq<u16>
    decreases ps.len(),
{
    if ps.len() == 0 {
        Seq::empty()
    } else {
        let init = ports_named(ps.drop_last(), name);
        if ps.last().0 == name {
            init.push(ps.last().1)
        } else {
            init
        }
    }
}

/// One protocol's line of the report.
#[derive(Debug, Clone)]
pub struct FailureRow {
    pub protocol: String,
    pub ports: Vec<u16>,
}

/// The report's rows for the results: one per protocol that failed
/// somewhere, in order of first failure, with the ports where it failed.
pub open spec fn failure_rows(rs: Seq<ServiceDetectionResult>) -> Seq<(Seq<char>, Seq<u16>)> {
    let ps = failure_pairs(rs);
    first_names(ps).map_values(|n: Seq<char>| (n, ports_named(ps, n)))
}

pub open spec fn row_view(r: FailureRow) -> (Seq<char>, Seq<u16>) {
    (r.protocol@, r.ports@)
}

fn collect_pairs(results: &[ServiceDetectionResult]) -> (r: (Vec<String>, Vec<u16>))
    ensures
        r.0.len() == r.1.len(),
        failure_pairs(results@) == Seq::new(r.0.len() as nat, |i: int| (r.0[i]@, r.1[i])),
{
    let mut names: Vec<String> = Vec::new();
    let mut ports: Vec<u16> = Vec::new();
    let mut k: usize = 0;
    while k < results.len()
        invariant
            k <= results@.len(),
            names.len() == ports.len(),
            failure_pairs(results@.take(k as int)) == Seq::new(
                names.len() as nat,
                |i: int| (names[i]@, ports[i]),
            ),
        decreases results@.len() - k,
    {
        assert(results@.take(k + 1).drop_last() =~= results@.take(k as int));
        let res = &results[k];
        let ghost base = names.len();
        let ghost before = failure_pairs(results@.take(k as int));
        let mut j: usize = 0;
        while j < res.protocol_failures.len()
            invariant
                j <= res.protocol_failures.len(),
                names.len() == ports.len(),
                names.len() == base + j,
                Seq::new(names.len() as nat, |i: int| (names[i]@, ports[i])) == before
                    + res.failure_names().take(j as int).map_values(|n: Seq<char>| (n, res.port)),
            decreases res.protocol_failures.len() - j,
        {
            let ghost prev_names = names@;
            let ghost prev_ports = ports@;
            names.push(res.protocol_failures[j].clone());
            ports.push(res.port);
            j = j + 1;
            assert(Seq::new(names.len() as nat, |i: int| (names[i]@, ports[i])) =~= Seq::new(
                prev_names.len(),
                |i: int| (prev_names[i]@, prev_ports[i]),
            ).push((names[names.len() - 1]@, res.port)));
            assert(res.failure_names().take(j as int) =~= res.failure_names().take(j - 1).push(
                res.failure_names()[j - 1],
            ));
            assert(before + res.failure_names().take(j as int).map_values(|n: Seq<char>| (n, res.port))
                =~= (before + res.failure_names().take(j - 1).map_values(
                |n: Seq<char>| (n, res.port),
            )).push((res.failure_names()[j - 1], res.port)));
        }
        assert(res.failure_names().take(res.protocol_failures.len() as int) =~= res.failure_names());
        k = k + 1;
    }
    assert(results@.take(results@.len() as int) =~= results@);
    (names, ports)
}

/// Groups the failures of the results by protocol.
pub fn summarize_failures(results: &[ServiceDetectionResult]) -> (r: Vec<FailureRow>)
    ensures
        r@.map_values(|row: FailureRow| row_view(row)) == failure_rows(results@),
{
    let (names, ports) = collect_pairs(results);
    let ghost ps = failure_pairs(results@);
    let mut distinct: Vec<String> = Vec::new();
    let mut k: usize = 0;
    while k < names.len()
        invariant
            k <= names.len(),
            names.len() == ports.len(),
            ps == Seq::new(names.len() as nat, |i: int| (names[i]@, ports[i])),
            distinct@.map_values(|s: String| s@) == first_names(ps.take(k as int)),
        decreases names.len() - k,
    {
        assert(ps.take(k + 1).drop_last() =~= ps.take(k as int));
        assert(ps.take(k + 1).last() == (names[k as int]@, ports[k as int]));
        let ghost seen = distinct@.map_values(|s: String| s@);
        let mut found = false;
        let mut j: usize = 0;
        while j < distinct.len()
            invariant
                j <= distinct.len(),
                k < names.len(),
                seen == distinct@.map_values(|s: String| s@),
                found <==> exists|i: int| 0 <= i < j && seen[i] == names[k as int]@,
            decreases distinct.len() - j,
        {
            let same = distinct[j] == names[k];
            assert(seen[j as int] == distinct[j as int]@);
            if same {
                found = true;
            }
            j = j + 1;
            assert(found <==> exists|i: int| 0 <= i < j && seen[i] == names[k as int]@) by {
                if exists|i: int| 0 <= i < j && seen[i] == names[k as int]@ {
                    let i = choose|i: int| 0 <= i < j && seen[i] == names[k as int]@;
                    if i < j - 1 {
                        assert(exists|i2: int| 0 <= i2 < j - 1 && seen[i2] == names[k as int]@);
                    }
                }
            }
        }
        assert(found <==> seen.contains(names[k as int]@)) by {
            if seen.contains(names[k as int]@) {
                let i = choose|i: int| 0 <= i < seen.len() && seen[i] == names[k as int]@;
                assert(0 <= i < j && seen[i] == names[k as int]@);
            }
        }
        if !found {
            distinct.push(names[k].clone());
            assert(distinct@.map_values(|s: String| s@) =~= seen.push(names[k as int]@));
        }
        k = k + 1;
    }
    assert(ps.take(names.len() as int) =~= ps);
    let mut rows: Vec<FailureRow> = Vec::new();
    let mut d: usize = 0;
    let ghost firsts = first_names(ps);
    while d < distinct.len()
        invariant
            d <= distinct.len(),
            names.len() == ports.len(),
            ps == Seq::new(names.len() as nat, |i: int| (names[i]@, ports[i])),
            distinct@.map_values(|s: String| s@) == firsts,
            firsts == first_names(ps),
            rows@.map_values(|row: FailureRow| row_view(row)) == firsts.take(d as int).map_values(
                |n: Seq<char>| (n, ports_named(ps, n)),
            ),
        decreases distinct.len() - d,
    {
        let name = &distinct[d];
        assert(name@ == firsts[d as int]);
        let mut ps_of: Vec<u16> = Vec::new();
        let mut k: usize = 0;
        while k < names.len()
            invariant
                k <= names.len(),
                names.len() == ports.len(),
                ps == Seq::new(names.len() as nat, |i: int| (names[i]@, ports[i])),
                ps_of@ == ports_named(ps.take(k as int), name@),
            decreases names.len() - k,
        {
            assert(ps.take(k + 1).drop_last() =~= ps.take(k as int));
            assert(ps.take(k + 1).last() == (names[k as int]@, ports[k as int]));
            if names[k] == *name {
                ps_of.push(ports[k]);
            }
            k = k + 1;
        }
        assert(ps.take(names.len() as int) =~= ps);
        let ghost before = rows@.map_values(|row: FailureRow| row_view(row));
        let row = FailureRow { protocol: name.clone(), ports: ps_of };
        rows.push(row);
        assert(rows@.map_values(|row: FailureRow| row_view(row)) =~= before.push(row_view(row)));
        assert(firsts.take(d + 1) =~= firsts.take(d as int).push(firsts[d as int]));
        d = d + 1;
    }
    assert(firsts.take(distinct.len() as int) =~= firsts);
    rows
}

/// The report's header line.
pub open spec fn csv_header() -> Seq<char> {
    "Timestamp,Target,Protocol,FailCount,Ports"@
}

/// Ports separated by commas.
pub open spec fn port_list_text(ps: Seq<u16>) -> Seq<char>
    decreases ps.len(),
{
    if ps.len() == 0 {
        Seq::empty()
    } else if ps.len() == 1 {
        decimal_text(ps[0] as nat)
    } else {
        port_list_text(ps.drop_last()) + seq![','] + decimal_text(ps.last() as nat)
    }
}

/// `<timestamp>,<target>,<protocol>,<count>,"<ports>"`.
pub open spec fn csv_row_text(timestamp: Seq<char>, target: Seq<char>, row: (Seq<char>, Seq<u16>)) -> Seq<char> {
    timestamp + seq![','] + target + seq![','] + row.0 + seq![','] + decimal_text(row.1.len())
        + seq![',', '"'] + port_list_text(row.1) + seq!['"']
}

/// Renders one row of the report.
pub fn csv_row(timestamp: &str, target: &str, row: &FailureRow) -> (r: String)
    ensures
        r@ == csv_row_text(timestamp@, target@, row_view(*row)),
{
    let mut t = chars_of(timestamp);
    t.push(',');
    push_str_chars(&mut t, target);
    t.push(',');
    push_str_chars(&mut t, row.protocol.as_str());
    t.push(',');
    let mut n = decimal_chars(row.ports.len() as u64);
    t.append(&mut n);
    t.push(',');
    t.push('"');
    let ghost before = t@;
    let mut k: usize = 0;
    while k < row.ports.len()
        invariant
            k <= row.ports.len(),
            t@ == before + port_list_text(row.ports@.take(k as int)),
        decreases row.ports.len() - k,
    {
        assert(row.ports@.take(k + 1).drop_last() =~= row.ports@.take(k as int));
        if k > 0 {
            t.push(',');
        }
        let mut d = decimal_chars(row.ports[k] as u64);
        t.append(&mut d);
        k = k + 1;
        assert(t@ =~= before + port_list_text(row.ports@.take(k as int)));
    }
    assert(row.ports@.take(row.ports.len() as int) =~= row.ports@);
    t.push('"');
    assert(t@ =~= csv_row_text(timestamp@, target@, row_view(*row)));
    string_from_chars(&t)
}

/// The header line of the report.
pub fn csv_header_line() -> (r: &'static str)
    ensures
        r@ == csv_header(),
{
    "Timestamp,Target,Protocol,FailCount,Ports"
}

} // verus!
