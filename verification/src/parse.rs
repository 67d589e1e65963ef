//! The cron expression grammar and its parser.
//!
//! An expression is six fields separated by single spaces: seconds,
//! minutes, hours, day of month, month, day of week. A field is `*` or a
//! comma-separated list of items; an item is a value or an inclusive range
//! `a-b`; a value is one or two decimal digits within the field's bounds
//! (seconds and minutes 0-59, hours 0-23, day of month 1-31, month 1-12,
//! day of week 0-6 with 0 meaning Sunday).

use vstd::prelude::*;

use crate::cron::CronExpr;

verus! {

pub open spec fn is_digit(c: char) -> bool {
    '0' <= c && c <= '9'
}

pub open spec fn digit_val(c: char) -> int {
    c as int - 48
}

/// The first position in `[i, j)` holding `sep`, or `j` if there is none.
pub open spec fn find_in(s: Seq<char>, i: int, j: int, sep: char) -> int
    decreases j - i,
{
    if i < 0 || i >= j {
        j
    } else if s[i] == sep {
        i
    } else {
        find_in(s, i + 1, j, sep)
    }
}

/// `find_in`, clamped into `[i, j]` so that recursion over pieces is
/// visibly well-founded.
pub open spec fn sep_at(s: Seq<char>, i: int, j: int, sep: char) -> int {
    let k = find_in(s, i, j, sep);
    if k < i {
        i
    } else if k > j {
        j
    } else {
        k
    }
}

/// `[i, j)` holds one or two decimal digits.
pub open spec fn num_ok(s: Seq<char>, i: int, j: int) -> bool {
    &&& (j - i == 1 || j - i == 2)
    &&& forall|k: int| i <= k < j ==> is_digit(s[k])
}

pub open spec fn num_val(s: Seq<char>, i: int, j: int) -> int {
    if j - i == 1 {
        digit_val(s[i])
    } else {
        10 * digit_val(s[i]) + digit_val(s[j - 1])
    }
}

/// `[i, j)` is a single value or a range `a-b`, with every value inside
/// `[lo, hi]` and ranges not inverted.
pub open spec fn item_ok(s: Seq<char>, i: int, j: int, lo: int, hi: int) -> bool {
    let k = sep_at(s, i, j, '-');
    if k == j {
        num_ok(s, i, j) && lo <= num_val(s, i, j) <= hi
    } else {
        &&& num_ok(s, i, k) && num_ok(s, k + 1, j)
        &&& lo <= num_val(s, i, k) <= hi
        &&& lo <= num_val(s, k + 1, j) <= hi
        &&& num_val(s, i, k) <= num_val(s, k + 1, j)
    }
}

/// The values the item `[i, j)` permits.
pub open spec fn item_admits(s: Seq<char>, i: int, j: int, v: int) -> bool {
    let k = sep_at(s, i, j, '-');
    if k == j {
        num_ok(s, i, j) && v == num_val(s, i, j)
    } else {
        num_val(s, i, k) <= v <= num_val(s, k + 1, j)
    }
}

/// `[i, j)` is a non-empty comma-separated list of valid items.
pub open spec fn items_ok(s: Seq<char>, i: int, j: int, lo: int, hi: int) -> bool
    decreases j - i,
{
    let k = sep_at(s, i, j, ',');
    if k >= j {
        item_ok(s, i, j, lo, hi)
    } else {
        item_ok(s, i, k, lo, hi) && items_ok(s, k + 1, j, lo, hi)
    }
}

/// The values the item list `[i, j)` permits: those some item permits.
pub open spec fn items_admit(s: Seq<char>, i: int, j: int, v: int) -> bool
    decreases j - i,
{
    let k = sep_at(s, i, j, ',');
    if k >= j {
        item_admits(s, i, j, v)
    } else {
        item_admits(s, i, k, v) || items_admit(s, k + 1, j, v)
    }
}

/// `[i, j)` is a valid field for bounds `[lo, hi]`: `*` or an item list.
pub open spec fn field_ok(s: Seq<char>, i: int, j: int, lo: int, hi: int) -> bool {
    if j - i == 1 && s[i] == '*' {
        true
    } else {
        items_ok(s, i, j, lo, hi)
    }
}

/// The values the field `[i, j)` permits.
pub open spec fn field_admits(s: Seq<char>, i: int, j: int, lo: int, hi: int, v: int) -> bool {
    if j - i == 1 && s[i] == '*' {
        lo <= v <= hi
    } else {
        items_admit(s, i, j, v)
    }
}

/// Positions of the five separating spaces (each `== s.len()` if missing).
pub open spec fn sep1(s: Seq<char>) -> int {
    sep_at(s, 0, s.len() as int, ' ')
}

pub open spec fn sep2(s: Seq<char>) -> int {
    sep_at(s, sep1(s) + 1, s.len() as int, ' ')
}

pub open spec fn sep3(s: Seq<char>) -> int {
    sep_at(s, sep2(s) + 1, s.len() as int, ' ')
}

pub open spec fn sep4(s: Seq<char>) -> int {
    sep_at(s, sep3(s) + 1, s.len() as int, ' ')
}

pub open spec fn sep5(s: Seq<char>) -> int {
    sep_at(s, sep4(s) + 1, s.len() as int, ' ')
}

/// The whole string is a valid six-field cron expression.
pub open spec fn expr_ok(s: Seq<char>) -> bool {
    let n = s.len() as int;
    &&& sep1(s) < n
    &&& sep2(s) < n
    &&& sep3(s) < n
    &&& sep4(s) < n
    &&& sep5(s) < n
    &&& sep_at(s, sep5(s) + 1, n, ' ') == n
    &&& field_ok(s, 0, sep1(s), 0, 59)
    &&& field_ok(s, sep1(s) + 1, sep2(s), 0, 59)
    &&& field_ok(s, sep2(s) + 1, sep3(s), 0, 23)
    &&& field_ok(s, sep3(s) + 1, sep4(s), 1, 31)
    &&& field_ok(s, sep4(s) + 1, sep5(s), 1, 12)
    &&& field_ok(s, sep5(s) + 1, n, 0, 6)
}

/// The parsed tables say, entry by entry, which values each textual field
/// permits.
pub open spec fn expr_denotes(s: Seq<char>, e: &CronExpr) -> bool {
    let n = s.len() as int;
    &&& e.wf()
    &&& forall|v: int| 0 <= v < 60 ==> e.seconds@[v] == field_admits(s, 0, sep1(s), 0, 59, v)
    &&& forall|v: int|
        0 <= v < 60 ==> e.minutes@[v] == field_admits(s, sep1(s) + 1, sep2(s), 0, 59, v)
    &&& forall|v: int| 0 <= v < 24 ==> e.hours@[v] == field_admits(s, sep2(s) + 1, sep3(s), 0, 23, v)
    &&& forall|v: int|
        0 <= v < 32 ==> e.days_of_month@[v] == field_admits(s, sep3(s) + 1, sep4(s), 1, 31, v)
    &&& forall|v: int| 0 <= v < 13 ==> e.months@[v] == field_admits(s, sep4(s) + 1, sep5(s), 1, 12, v)
    &&& forall|v: int| 0 <= v < 7 ==> e.days_of_week@[v] == field_admits(s, sep5(s) + 1, n, 0, 6, v)
}

/// Two expressions denoting the same string hold the same tables.
pub proof fn lemma_denotes_unique(s: Seq<char>, e1: &CronExpr, e2: &CronExpr)
    requires
        expr_denotes(s, e1),
        expr_denotes(s, e2),
    ensures
        e1.seconds@ == e2.seconds@,
        e1.minutes@ == e2.minutes@,
        e1.hours@ == e2.hours@,
        e1.days_of_month@ == e2.days_of_month@,
        e1.months@ == e2.months@,
        e1.days_of_week@ == e2.days_of_week@,
{
    assert(e1.seconds@ =~= e2.seconds@);
    assert(e1.minutes@ =~= e2.minutes@);
    assert(e1.hours@ =~= e2.hours@);
    assert(e1.days_of_month@ =~= e2.days_of_month@);
    assert(e1.months@ =~= e2.months@);
    assert(e1.days_of_week@ =~= e2.days_of_week@);
}

/// Finds the first `sep` in `[i, j)`, or returns `j`.
fn find_ch(s: &str, i: usize, j: usize, sep: char) -> (k: usize)
    requires
        i <= j,
        j <= s@.len(),
    ensures
        i <= k <= j,
        k == find_in(s@, i as int, j as int, sep),
        k == sep_at(s@, i as int, j as int, sep),
        k < j ==> s@[k as int] == sep,
{
    let mut cur: usize = i;
    while cur < j
        invariant
            i <= cur <= j <= s@.len(),
            find_in(s@, i as int, j as int, sep) == find_in(s@, cur as int, j as int, sep),
        decreases j - cur,
    {
        if s.get_char(cur) == sep {
            return cur;
        }
        cur = cur + 1;
    }
    cur
}

/// Parses the one- or two-digit value in `[i, j)`, accepted only inside
/// `[lo, hi]`.
fn parse_num(s: &str, i: usize, j: usize, lo: u8, hi: u8) -> (r: Option<u8>)
    requires
        i <= j,
        j <= s@.len(),
    ensures
        r is Some <==> num_ok(s@, i as int, j as int) && lo <= num_val(s@, i as int, j as int)
            <= hi,
        r matches Some(v) ==> v == num_val(s@, i as int, j as int),
{
    if j - i != 1 && j - i != 2 {
        return None;
    }
    let c0 = s.get_char(i);
    if !('0' <= c0 && c0 <= '9') {
        return None;
    }
    let mut v: u8 = (c0 as u8) - 48;
    if j - i == 2 {
        let c1 = s.get_char(i + 1);
        if !('0' <= c1 && c1 <= '9') {
            return None;
        }
        v = 10 * v + ((c1 as u8) - 48);
    }
    if lo <= v && v <= hi {
        Some(v)
    } else {
        None
    }
}

/// Parses the item in `[i, j)` and marks the values it permits in `table`.
fn parse_item(s: &str, i: usize, j: usize, lo: u8, hi: u8, table: &mut Vec<bool>) -> (ok: bool)
    requires
        i <= j,
        j <= s@.len(),
        lo <= hi,
        hi < 64,
        (hi as int) < old(table)@.len(),
    ensures
        ok == item_ok(s@, i as int, j as int, lo as int, hi as int),
        final(table)@.len() == old(table)@.len(),
        ok ==> forall|v: int|
            0 <= v < final(table)@.len() ==> final(table)@[v] == (old(table)@[v] || item_admits(
                s@,
                i as int,
                j as int,
                v,
            )),
{
    let k = find_ch(s, i, j, '-');
    if k == j {
        match parse_num(s, i, j, lo, hi) {
            Some(v) => {
                table.set(v as usize, true);
                true
            },
            None => false,
        }
    } else {
        let a = parse_num(s, i, k, lo, hi);
        let b = parse_num(s, k + 1, j, lo, hi);
        match (a, b) {
            (Some(va), Some(vb)) => {
                if va <= vb {
                    let mut v: u8 = va;
                    while v <= vb
                        invariant
                            va <= v,
                            v <= vb + 1,
                            vb <= hi,
                            hi < 64,
                            (hi as int) < table@.len(),
                            table@.len() == old(table)@.len(),
                            forall|w: int|
                                0 <= w < table@.len() ==> table@[w] == (old(table)@[w] || (va <= w
                                    < v)),
                        decreases vb + 1 - v,
                    {
                        table.set(v as usize, true);
                        v = v + 1;
                    }
                    true
                } else {
                    false
                }
            },
            _ => false,
        }
    }
}

/// Parses the field in `[i, j)` into a table of `size` entries, of which
/// entry `v` says whether the field permits value `v`.
fn parse_field(s: &str, i: usize, j: usize, lo: u8, hi: u8, size: usize) -> (r: Option<Vec<bool>>)
    requires
        i <= j,
        j <= s@.len(),
        lo <= hi,
        hi < 64,
        (hi as int) < size,
    ensures
        r is Some <==> field_ok(s@, i as int, j as int, lo as int, hi as int),
        r matches Some(t) ==> t@.len() == size && forall|v: int|
            0 <= v < size ==> t@[v] == field_admits(s@, i as int, j as int, lo as int, hi as int, v),
{
    let mut table: Vec<bool> = Vec::new();
    let mut z: usize = 0;
    while z < size
        invariant
            table@.len() == z,
            z <= size,
            forall|v: int| 0 <= v < z ==> !table@[v],
        decreases size - z,
    {
        table.push(false);
        z = z + 1;
    }
    if j - i == 1 && s.get_char(i) == '*' {
        let mut v: u8 = lo;
        while v <= hi
            invariant
                lo <= v,
                v <= hi + 1,
                hi < 64,
                (hi as int) < table@.len(),
                table@.len() == size,
                forall|w: int| 0 <= w < size ==> table@[w] == (lo <= w < v),
            decreases hi + 1 - v,
        {
            table.set(v as usize, true);
            v = v + 1;
        }
        return Some(table);
    }
    let ghost i0 = i as int;
    let mut cur: usize = i;
    loop
        invariant
            i <= cur <= j <= s@.len(),
            lo <= hi,
            hi < 64,
            (hi as int) < size,
            table@.len() == size,
            !(j - i0 == 1 && s@[i0] == '*'),
            i0 == i as int,
            items_ok(s@, i0, j as int, lo as int, hi as int) == items_ok(
                s@,
                cur as int,
                j as int,
                lo as int,
                hi as int,
            ),
            forall|v: int|
                0 <= v < size ==> items_admit(s@, i0, j as int, v) == (table@[v] || items_admit(
                    s@,
                    cur as int,
                    j as int,
                    v,
                )),
        decreases j - cur,
    {
        let ghost table0 = table@;
        let ghost prev = cur as int;
        let k = find_ch(s, cur, j, ',');
        proof {
            assert(sep_at(s@, prev, j as int, ',') == k as int);
        }
        let ok = parse_item(s, cur, k, lo, hi, &mut table);
        if !ok {
            proof {
                if k as int == j as int {
                    assert(!items_ok(s@, prev, j as int, lo as int, hi as int));
                } else {
                    assert(!items_ok(s@, prev, j as int, lo as int, hi as int));
                }
            }
            return None;
        }
        if k == j {
            proof {
                assert forall|v: int| 0 <= v < size implies table@[v] == items_admit(
                    s@,
                    i0,
                    j as int,
                    v,
                ) by {
                    assert(items_admit(s@, i0, j as int, v) == (table0[v] || items_admit(
                        s@,
                        prev,
                        j as int,
                        v,
                    )));
                    assert(items_admit(s@, prev, j as int, v) == item_admits(
                        s@,
                        prev,
                        j as int,
                        v,
                    ));
                    assert(table@[v] == (table0[v] || item_admits(s@, prev, j as int, v)));
                }
                assert(items_ok(s@, i0, j as int, lo as int, hi as int));
            }
            return Some(table);
        }
        cur = k + 1;
        proof {
            assert(items_ok(s@, prev, j as int, lo as int, hi as int) == items_ok(
                s@,
                cur as int,
                j as int,
                lo as int,
                hi as int,
            ));
            assert forall|v: int| 0 <= v < size implies items_admit(s@, i0, j as int, v) == (
            table@[v] || items_admit(s@, cur as int, j as int, v)) by {
                assert(items_admit(s@, i0, j as int, v) == (table0[v] || items_admit(
                    s@,
                    prev,
                    j as int,
                    v,
                )));
                assert(items_admit(s@, prev, j as int, v) == (item_admits(s@, prev, k as int, v)
                    || items_admit(s@, cur as int, j as int, v)));
                assert(table@[v] == (table0[v] || item_admits(s@, prev, k as int, v)));
            }
        }
    }
}

/// Parses a six-field cron expression; yields `None` exactly when the
/// string is not in the grammar.
pub fn parse_cron(s: &str) -> (r: Option<CronExpr>)
    ensures
        r is Some <==> expr_ok(s@),
        r matches Some(e) ==> expr_denotes(s@, &e),
{
    let n = s.unicode_len();
    let a1 = find_ch(s, 0, n, ' ');
    if a1 == n {
        return None;
    }
    let a2 = find_ch(s, a1 + 1, n, ' ');
    if a2 == n {
        return None;
    }
    let a3 = find_ch(s, a2 + 1, n, ' ');
    if a3 == n {
        return None;
    }
    let a4 = find_ch(s, a3 + 1, n, ' ');
    if a4 == n {
        return None;
    }
    let a5 = find_ch(s, a4 + 1, n, ' ');
    if a5 == n {
        return None;
    }
    if find_ch(s, a5 + 1, n, ' ') != n {
        return None;
    }
    let seconds = match parse_field(s, 0, a1, 0, 59, 60) {
        Some(t) => t,
        None => {
            return None;
        },
    };
    let minutes = match parse_field(s, a1 + 1, a2, 0, 59, 60) {
        Some(t) => t,
        None => {
            return None;
        },
    };
    let hours = match parse_field(s, a2 + 1, a3, 0, 23, 24) {
        Some(t) => t,
        None => {
            return None;
        },
    };
    let days_of_month = match parse_field(s, a3 + 1, a4, 1, 31, 32) {
        Some(t) => t,
        None => {
            return None;
        },
    };
    let months = match parse_field(s, a4 + 1, a5, 1, 12, 13) {
        Some(t) => t,
        None => {
            return None;
        },
    };
    let days_of_week = match parse_field(s, a5 + 1, n, 0, 6, 7) {
        Some(t) => t,
        None => {
            return None;
        },
    };
    Some(
        CronExpr {
            seconds,
            minutes,
            hours,
            days_of_month,
            months,
            days_of_week,
        },
    )
}

/// Decides whether the expression permits every instant, as
/// `* * * * * *` does.
pub fn is_every_instant(e: &CronExpr) -> (b: bool)
    requires
        e.wf(),
    ensures
        b == e.every_instant(),
{
    let mut v: usize = 0;
    let mut all: bool = true;
    while v < 60
        invariant
            v <= 60,
            e.wf(),
            all == (forall|w: int| 0 <= w < v ==> e.seconds@[w] && e.minutes@[w]),
        decreases 60 - v,
    {
        all = all && e.seconds[v] && e.minutes[v];
        v = v + 1;
    }
    let mut v2: usize = 0;
    while v2 < 24
        invariant
            v2 <= 24,
            e.wf(),
            all == ((forall|w: int| 0 <= w < 60 ==> e.seconds@[w] && e.minutes@[w]) && (forall|
                w: int,
            | 0 <= w < v2 ==> e.hours@[w])),
        decreases 24 - v2,
    {
        all = all && e.hours[v2];
        v2 = v2 + 1;
    }
    let mut v3: usize = 1;
    while v3 < 32
        invariant
            1 <= v3 <= 32,
            e.wf(),
            all == ((forall|w: int| 0 <= w < 60 ==> e.seconds@[w] && e.minutes@[w]) && (forall|
                w: int,
            | 0 <= w < 24 ==> e.hours@[w]) && (forall|w: int| 1 <= w < v3 ==> e.days_of_month@[w])),
        decreases 32 - v3,
    {
        all = all && e.days_of_month[v3];
        v3 = v3 + 1;
    }
    let mut v4: usize = 1;
    while v4 < 13
        invariant
            1 <= v4 <= 13,
            e.wf(),
            all == ((forall|w: int| 0 <= w < 60 ==> e.seconds@[w] && e.minutes@[w]) && (forall|
                w: int,
            | 0 <= w < 24 ==> e.hours@[w]) && (forall|w: int| 1 <= w < 32 ==> e.days_of_month@[w])
                && (forall|w: int| 1 <= w < v4 ==> e.months@[w])),
        decreases 13 - v4,
    {
        all = all && e.months[v4];
        v4 = v4 + 1;
    }
    let mut v5: usize = 0;
    while v5 < 7
        invariant
            v5 <= 7,
            e.wf(),
            all == ((forall|w: int| 0 <= w < 60 ==> e.seconds@[w] && e.minutes@[w]) && (forall|
                w: int,
            | 0 <= w < 24 ==> e.hours@[w]) && (forall|w: int| 1 <= w < 32 ==> e.days_of_month@[w])
                && (forall|w: int| 1 <= w < 13 ==> e.months@[w]) && (forall|w: int|
                0 <= w < v5 ==> e.days_of_week@[w])),
        decreases 7 - v5,
    {
        all = all && e.days_of_week[v5];
        v5 = v5 + 1;
    }
    all
}

} // verus!
