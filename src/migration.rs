//! Forward-only schema migrations: naming, planning, and the engine
//! version check that precedes them.

use vstd::prelude::*;
use vstd::string::StrSliceExecFns;

verus! {

/// One migration script compiled into the program.
#[derive(Debug, Clone, PartialEq)]
pub struct Migration {
    pub version: u32,
    pub description: String,
    pub sql: String,
}

pub open spec fn is_digit(c: char) -> bool {
    '0' <= c && c <= '9'
}

pub open spec fn digit_value(c: char) -> nat {
    (c as u32 - '0' as u32) as nat
}

/// The number that a run of decimal digits denotes.
pub open spec fn digits_value(d: Seq<char>) -> nat
    decreases d.len(),
{
    if d.len() == 0 {
        0
    } else {
        digits_value(d.drop_last()) * 10 + digit_value(d.last())
    }
}

pub open spec fn all_digits(d: Seq<char>) -> bool {
    forall|i: int| 0 <= i < d.len() ==> is_digit(#[trigger] d[i])
}

/// A decimal number that fits in 32 bits, or nothing.
pub open spec fn number_of(d: Seq<char>) -> Option<u32> {
    if d.len() > 0 && all_digits(d) && digits_value(d) <= u32::MAX {
        Some(digits_value(d) as u32)
    } else {
        None
    }
}

/// Reads the decimal number in `s[start..end]`.
pub fn parse_number(s: &str, start: usize, end: usize) -> (r: Option<u32>)
    requires
        start <= end <= s@.len(),
    ensures
        r == number_of(s@.subrange(start as int, end as int)),
{
    let ghost d = s@.subrange(start as int, end as int);
    if start == end {
        return None;
    }
    let mut v: u64 = 0;
    let mut i: usize = start;
    assert(d.subrange(0, 0) =~= Seq::<char>::empty());
    while i < end
        invariant
            start <= i <= end <= s@.len(),
            d == s@.subrange(start as int, end as int),
            all_digits(d.subrange(0, i - start)),
            v as nat == digits_value(d.subrange(0, i - start)),
            v <= u32::MAX,
        decreases end - i,
    {
        let c = s.get_char(i);
        let ghost prefix = d.subrange(0, i - start);
        let ghost next = d.subrange(0, i + 1 - start);
        assert(next.drop_last() =~= prefix);
        assert(next.last() == c);
        if !('0' <= c && c <= '9') {
            assert(!all_digits(d)) by {
                assert(d[i - start] == c);
            }
            return None;
        }
        let dv = (c as u32 - '0' as u32) as u64;
        assert(digits_value(next) == digits_value(prefix) * 10 + dv);
        assert(v * 10 + dv <= u32::MAX * 10 + 9) by (nonlinear_arith)
            requires
                v <= u32::MAX,
                dv <= 9,
        ;
        let nv = v * 10 + dv;
        if nv > u32::MAX as u64 {
            proof {
                lemma_prefix_value_grows(d, (i + 1 - start) as int);
            }
            return None;
        }
        v = nv;
        i = i + 1;
    }
    assert(d.subrange(0, end - start) =~= d);
    Some(v as u32)
}

pub open spec fn pow10(n: nat) -> nat
    decreases n,
{
    if n == 0 {
        1
    } else {
        10 * pow10((n - 1) as nat)
    }
}

/// `n` digits denote less than `10^n`.
proof fn lemma_digits_value_bound(d: Seq<char>)
    requires
        all_digits(d),
    ensures
        digits_value(d) < pow10(d.len()),
    decreases d.len(),
{
    if d.len() > 0 {
        let p = d.drop_last();
        assert(all_digits(p)) by {
            assert forall|i: int| 0 <= i < p.len() implies is_digit(#[trigger] p[i]) by {
                assert(p[i] == d[i]);
            }
        }
        lemma_digits_value_bound(p);
        let a = digits_value(p);
        let b = pow10(p.len());
        let c = digit_value(d.last());
        assert(is_digit(d[d.len() - 1]));
        assert(c <= 9);
        assert(a * 10 + c < 10 * b) by (nonlinear_arith)
            requires
                a < b,
                c <= 9,
        ;
    }
}

/// The value of a digit run is at least the value of each of its prefixes.
proof fn lemma_prefix_value_grows(d: Seq<char>, k: int)
    requires
        0 <= k <= d.len(),
        all_digits(d.subrange(0, k)),
    ensures
        all_digits(d) ==> digits_value(d) >= digits_value(d.subrange(0, k)),
    decreases d.len() - k,
{
    if k < d.len() && all_digits(d) {
        assert(d.subrange(0, k + 1).drop_last() =~= d.subrange(0, k));
        lemma_prefix_value_grows(d, k + 1);
        assert(digits_value(d.subrange(0, k + 1)) >= digits_value(d.subrange(0, k)));
    } else if k == d.len() {
        assert(d.subrange(0, k) =~= d);
    }
}

/// A migration file name `VVVV_description.sql`: a 4-digit version, an
/// underscore, the description and the `.sql` extension.
pub open spec fn migration_name_ok(s: Seq<char>) -> bool {
    &&& s.len() >= 9
    &&& all_digits(s.subrange(0, 4))
    &&& s[4] == '_'
    &&& s.subrange(s.len() - 4, s.len() as int) == seq!['.', 's', 'q', 'l']
}

/// Builds the migration record for file `name` holding `sql`; none when the
/// name does not have the migration form.
pub fn migration_from_file(name: &str, sql: String) -> (r: Option<Migration>)
    ensures
        r is Some == migration_name_ok(name@),
        r is Some ==> r->Some_0.version as nat == digits_value(name@.subrange(0, 4))
            && r->Some_0.description@ == name@.subrange(5, name@.len() - 4) && r->Some_0.sql == sql,
{
    let n = name.unicode_len();
    if n < 9 {
        return None;
    }
    proof {
        if all_digits(name@.subrange(0, 4)) {
            lemma_digits_value_bound(name@.subrange(0, 4));
            assert(pow10(0) == 1);
            assert(pow10(1) == 10);
            assert(pow10(2) == 100);
            assert(pow10(3) == 1000);
            assert(pow10(4) == 10000);
        }
    }
    let version = match parse_number(name, 0, 4) {
        Some(v) => v,
        None => { return None; },
    };
    if name.get_char(4) != '_' || name.get_char(n - 4) != '.' || name.get_char(n - 3) != 's'
        || name.get_char(n - 2) != 'q' || name.get_char(n - 1) != 'l' {
        proof {
            let tail = name@.subrange(n - 4, n as int);
            if tail == seq!['.', 's', 'q', 'l'] {
                assert(tail[0] == name@[n - 4]);
                assert(tail[1] == name@[n - 3]);
                assert(tail[2] == name@[n - 2]);
                assert(tail[3] == name@[n - 1]);
            }
        }
        return None;
    }
    proof {
        assert(name@.subrange(n - 4, n as int) =~= seq!['.', 's', 'q', 'l']);
        assert(digits_value(name@.subrange(0, 4)) <= u32::MAX);
    }
    let description = name.substring_char(5, n - 4).to_string();
    Some(Migration { version, description, sql })
}

/// Versions strictly ascending: the order in which migrations apply.
pub open spec fn versions_ascending(ms: Seq<Migration>) -> bool {
    forall|i: int, j: int| 0 <= i < j < ms.len() ==> #[trigger] ms[i].version < #[trigger] ms[j].version
}

pub open spec fn versions_of(ms: Seq<Migration>) -> Seq<u32> {
    Seq::new(ms.len(), |i: int| ms[i].version)
}

/// Positions, ascending, among the first `n` migrations of those whose
/// version is not recorded in `applied`.
pub open spec fn pending_upto(ms: Seq<Migration>, applied: Seq<u32>, n: int) -> Seq<usize>
    decreases n,
{
    if n <= 0 {
        Seq::empty()
    } else {
        let rest = pending_upto(ms, applied, n - 1);
        if applied.contains(ms[n - 1].version) {
            rest
        } else {
            rest.push((n - 1) as usize)
        }
    }
}

/// The migrations still to run, by position, in the order they run.
pub open spec fn pending(ms: Seq<Migration>, applied: Seq<u32>) -> Seq<usize> {
    pending_upto(ms, applied, ms.len() as int)
}

/// Whether `v` is among the recorded versions.
fn is_recorded(applied: &Vec<u32>, v: u32) -> (r: bool)
    ensures
        r == applied@.contains(v),
{
    let mut i: usize = 0;
    while i < applied.len()
        invariant
            i <= applied@.len(),
            forall|k: int| 0 <= k < i ==> applied@[k] != v,
        decreases applied@.len() - i,
    {
        if applied[i] == v {
            assert(applied@[i as int] == v);
            return true;
        }
        i = i + 1;
    }
    false
}

/// The positions of the migrations that are not yet recorded as applied,
/// in ascending version order.
pub fn pending_migrations(migrations: &Vec<Migration>, applied: &Vec<u32>) -> (r: Vec<usize>)
    requires
        versions_ascending(migrations@),
    ensures
        r@ == pending(migrations@, applied@),
{
    let mut out: Vec<usize> = Vec::new();
    let mut i: usize = 0;
    while i < migrations.len()
        invariant
            i <= migrations@.len(),
            out@ == pending_upto(migrations@, applied@, i as int),
        decreases migrations@.len() - i,
    {
        if !is_recorded(applied, migrations[i].version) {
            out.push(i);
        }
        i = i + 1;
    }
    out
}

/// The position of the first `.` in `s` at or after `from`, or the length.
pub open spec fn dot_from(s: Seq<char>, from: int) -> int
    decreases s.len() - from,
{
    if from >= s.len() {
        s.len() as int
    } else if s[from] == '.' {
        from
    } else {
        dot_from(s, from + 1)
    }
}

/// An engine version text `major.minor[.patch]` names a release older than
/// 3.35, the first able to drop columns. Text whose first two components
/// are not numbers raises no warning.
pub open spec fn version_outdated(s: Seq<char>) -> bool {
    let major_end = dot_from(s, 0);
    if major_end >= s.len() {
        false
    } else {
        let minor_end = dot_from(s, major_end + 1);
        match (number_of(s.subrange(0, major_end)), number_of(s.subrange(major_end + 1, minor_end))) {
            (Some(major), Some(minor)) => major < 3 || (major == 3 && minor < 35),
            _ => false,
        }
    }
}

proof fn lemma_dot_from_bounds(s: Seq<char>, from: int)
    requires
        0 <= from <= s.len(),
    ensures
        from <= dot_from(s, from) <= s.len(),
    decreases s.len() - from,
{
    if from < s.len() && s[from] != '.' {
        lemma_dot_from_bounds(s, from + 1);
    }
}

fn find_dot(s: &str, from: usize) -> (r: usize)
    requires
        from <= s@.len(),
    ensures
        r as int == dot_from(s@, from as int),
        from <= r <= s@.len(),
{
    let n = s.unicode_len();
    let mut i = from;
    proof {
        lemma_dot_from_bounds(s@, from as int);
    }
    while i < n && s.get_char(i) != '.'
        invariant
            from <= i <= n,
            n == s@.len(),
            dot_from(s@, i as int) == dot_from(s@, from as int),
        decreases n - i,
    {
        i = i + 1;
    }
    i
}

/// Whether the engine reporting `version` is older than the migrations
/// need, so that startup should warn.
pub fn engine_version_outdated(version: &str) -> (r: bool)
    ensures
        r == version_outdated(version@),
{
    let n = version.unicode_len();
    let major_end = find_dot(version, 0);
    if major_end >= n {
        return false;
    }
    let minor_end = find_dot(version, major_end + 1);
    match (parse_number(version, 0, major_end), parse_number(version, major_end + 1, minor_end)) {
        (Some(major), Some(minor)) => major < 3 || (major == 3 && minor < 35),
        _ => false,
    }
}

} // verus!
