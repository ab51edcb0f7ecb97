//! Network byte counters from the text of `/proc/net/dev`: the received and transmitted bytes
//! of every interface but loopback, summed.
use vstd::prelude::*;
use crate::text::{chars_of, is_whitespace, is_whitespace_char, trim_front};

verus! {

/// Reads the decimal digits `d` onto `acc`; `None` at a character that is not a digit or
/// once the value passes `u64::MAX`.
pub open spec fn accumulate_u64(d: Seq<char>, acc: int) -> Option<u64>
    decreases d.len(),
{
    if d.len() == 0 {
        Some(acc as u64)
    } else if '0' <= d[0] && d[0] <= '9' {
        let next = acc * 10 + (d[0] as int - '0' as int);
        if next > u64::MAX {
            None
        } else {
            accumulate_u64(d.drop_first(), next)
        }
    } else {
        None
    }
}

/// What `s.parse::<u64>()` gives, `Ok` as `Some`: decimal digits after an optional `+`.
pub open spec fn parse_u64_of(s: Seq<char>) -> Option<u64> {
    if s.len() == 0 {
        None
    } else if s.len() == 1 && (s[0] == '+' || s[0] == '-') {
        None
    } else if s[0] == '+' {
        accumulate_u64(s.drop_first(), 0)
    } else {
        accumulate_u64(s, 0)
    }
}

/// The number of leading characters of `s` that are not whitespace.
pub open spec fn word_len(s: Seq<char>) -> nat
    decreases s.len(),
{
    if s.len() == 0 || is_whitespace(s[0]) {
        0
    } else {
        1 + word_len(s.drop_first())
    }
}

/// The whitespace-separated fields of `l`, as `str::split_whitespace` yields them.
pub open spec fn fields(l: Seq<char>) -> Seq<Seq<char>>
    decreases l.len(),
{
    let t = trim_front(l);
    if t.len() == 0 {
        Seq::empty()
    } else {
        let w = word_len(t);
        if w == 0 || w > t.len() || t.len() > l.len() {
            Seq::empty()
        } else {
            seq![t.take(w as int)] + fields(t.skip(w as int))
        }
    }
}

/// The number of characters of `s` before its first `'\n'`.
pub open spec fn line_len(s: Seq<char>) -> nat
    decreases s.len(),
{
    if s.len() == 0 || s[0] == '\n' {
        0
    } else {
        1 + line_len(s.drop_first())
    }
}

/// A line without the `'\r'` of a `"\r\n"` ending.
pub open spec fn strip_cr(l: Seq<char>) -> Seq<char> {
    if l.len() > 0 && l.last() == '\r' {
        l.drop_last()
    } else {
        l
    }
}

/// The lines of `s`, as `str::lines` yields them: split at `'\n'`, a `'\r'` before the `'\n'`
/// dropped, and no empty line after a final line ending.
pub open spec fn lines_of(s: Seq<char>) -> Seq<Seq<char>>
    decreases s.len(),
{
    if s.len() == 0 {
        Seq::empty()
    } else {
        let n = line_len(s);
        if n < s.len() {
            seq![strip_cr(s.take(n as int))] + lines_of(s.skip(n as int + 1))
        } else {
            seq![s]
        }
    }
}

/// The received and transmitted byte counts of one line of `/proc/net/dev`: the second and
/// tenth fields, read as numbers, except on the loopback interface's line.
pub open spec fn line_counts(l: Seq<char>) -> (Option<u64>, Option<u64>) {
    let f = fields(l);
    if f.len() == 0 || (f[0].len() >= 3 && f[0].take(3) == seq!['l', 'o', ':']) {
        (None, None)
    } else {
        (
            if f.len() >= 2 {
                parse_u64_of(f[1])
            } else {
                None
            },
            if f.len() >= 10 {
                parse_u64_of(f[9])
            } else {
                None
            },
        )
    }
}

/// `a + b`, or `u64::MAX` where that overflows.
pub open spec fn sat_add(a: u64, b: Option<u64>) -> u64 {
    match b {
        Some(x) => if a + x > u64::MAX {
            u64::MAX
        } else {
            (a + x) as u64
        },
        None => a,
    }
}

/// The byte totals of the interface lines `ls`, each added with saturation.
pub open spec fn net_sum(ls: Seq<Seq<char>>) -> (u64, u64)
    decreases ls.len(),
{
    if ls.len() == 0 {
        (0, 0)
    } else {
        let (rx, tx) = net_sum(ls.drop_last());
        let (r, t) = line_counts(ls.last());
        (sat_add(rx, r), sat_add(tx, t))
    }
}

/// The received and transmitted byte totals of the text of `/proc/net/dev`: its two header
/// lines skipped, every other line's counts added.
pub open spec fn net_totals_of(s: Seq<char>) -> (u64, u64) {
    let ls = lines_of(s);
    if ls.len() <= 2 {
        (0, 0)
    } else {
        net_sum(ls.skip(2))
    }
}

/// Parses `v[from..to]` as `str::parse::<u64>`, `Ok` as `Some`.
fn parse_u64_in(v: &Vec<char>, from: usize, to: usize) -> (r: Option<u64>)
    requires
        from <= to <= v@.len(),
    ensures
        r == parse_u64_of(v@.subrange(from as int, to as int)),
{
    let ghost s = v@.subrange(from as int, to as int);
    if from == to {
        return None;
    }
    if to - from == 1 && (v[from] == '+' || v[from] == '-') {
        return None;
    }
    let start = if v[from] == '+' {
        from + 1
    } else {
        from
    };
    assert(parse_u64_of(s) == accumulate_u64(v@.subrange(start as int, to as int), 0)) by {
        if v@[from as int] == '+' {
            assert(s.drop_first() =~= v@.subrange(start as int, to as int));
        } else {
            assert(s =~= v@.subrange(start as int, to as int));
        }
    }
    let mut acc: u64 = 0;
    let mut k = start;
    while k < to
        invariant
            from <= start <= k <= to <= v@.len(),
            s == v@.subrange(from as int, to as int),
            parse_u64_of(s) == accumulate_u64(v@.subrange(k as int, to as int), acc as int),
        decreases to - k,
    {
        let c = v[k];
        let ghost rest = v@.subrange(k as int, to as int);
        assert(rest[0] == c);
        assert(rest.drop_first() =~= v@.subrange(k + 1, to as int));
        if '0' <= c && c <= '9' {
            let dv = (c as u64) - ('0' as u64);
            let next: u128 = (acc as u128) * 10 + (dv as u128);
            if next > 0xffff_ffff_ffff_ffff {
                return None;
            }
            acc = next as u64;
        } else {
            return None;
        }
        k = k + 1;
    }
    assert(v@.subrange(k as int, to as int) =~= Seq::<char>::empty());
    Some(acc)
}

/// Skipping leading whitespace of `v[i..to]` and then its leading word.
proof fn lemma_fields_step(v: Seq<char>, i: int, i2: int, j: int, to: int)
    requires
        0 <= i <= i2 <= j <= to <= v.len(),
        trim_front(v.subrange(i, to)) == v.subrange(i2, to),
        i2 < to,
        word_len(v.subrange(i2, to)) == j - i2,
        j > i2,
    ensures
        fields(v.subrange(i, to)) == seq![v.subrange(i2, j)] + fields(v.subrange(j, to)),
{
    let t = v.subrange(i2, to);
    assert(t.take(j - i2) =~= v.subrange(i2, j));
    assert(t.skip(j - i2) =~= v.subrange(j, to));
}

/// The bounds of the first, second and tenth whitespace-separated fields of `v[from..to]`,
/// and the number of its fields (counted up to eleven).
fn field_bounds(v: &Vec<char>, from: usize, to: usize) -> (r: (usize, [(usize, usize); 3]))
    requires
        from <= to <= v@.len(),
    ensures
        ({
            let f = fields(v@.subrange(from as int, to as int));
            &&& r.0 == (if f.len() > 10 { 10 } else { f.len() })
            &&& r.0 >= 1 ==> from <= r.1[0].0 <= r.1[0].1 <= to && v@.subrange(r.1[0].0 as int, r.1[0].1 as int) == f[0]
            &&& r.0 >= 2 ==> from <= r.1[1].0 <= r.1[1].1 <= to && v@.subrange(r.1[1].0 as int, r.1[1].1 as int) == f[1]
            &&& r.0 >= 10 ==> from <= r.1[2].0 <= r.1[2].1 <= to && v@.subrange(r.1[2].0 as int, r.1[2].1 as int) == f[9]
        }),
{
    let ghost whole = fields(v@.subrange(from as int, to as int));
    let mut bounds: [(usize, usize); 3] = [(from, from), (from, from), (from, from)];
    let mut count: usize = 0;
    let mut i = from;
    let ghost mut done: Seq<Seq<char>> = Seq::empty();
    while i < to && count < 10
        invariant
            from <= i <= to <= v@.len(),
            count == done.len(),
            count <= 10,
            whole == fields(v@.subrange(from as int, to as int)),
            whole == done + fields(v@.subrange(i as int, to as int)),
            count >= 1 ==> from <= bounds[0].0 <= bounds[0].1 <= to && v@.subrange(bounds[0].0 as int, bounds[0].1 as int) == done[0],
            count >= 2 ==> from <= bounds[1].0 <= bounds[1].1 <= to && v@.subrange(bounds[1].0 as int, bounds[1].1 as int) == done[1],
            count >= 10 ==> from <= bounds[2].0 <= bounds[2].1 <= to && v@.subrange(bounds[2].0 as int, bounds[2].1 as int) == done[9],
        decreases to - i,
    {
        let mut i2 = i;
        while i2 < to && is_whitespace_char(v[i2])
            invariant
                i <= i2 <= to <= v@.len(),
                trim_front(v@.subrange(i as int, to as int)) == trim_front(v@.subrange(i2 as int, to as int)),
            decreases to - i2,
        {
            assert(v@.subrange(i2 as int, to as int).drop_first() =~= v@.subrange(i2 + 1, to as int));
            i2 = i2 + 1;
        }
        assert(trim_front(v@.subrange(i2 as int, to as int)) == v@.subrange(i2 as int, to as int));
        if i2 == to {
            assert(fields(v@.subrange(i as int, to as int)) =~= Seq::<Seq<char>>::empty());
            assert(v@.subrange(to as int, to as int) =~= Seq::<char>::empty());
            assert(fields(v@.subrange(to as int, to as int)) =~= Seq::<Seq<char>>::empty());
            i = to;
            assert(whole =~= done + fields(v@.subrange(i as int, to as int)));
        } else {
            let mut j = i2;
            while j < to && !is_whitespace_char(v[j])
                invariant
                    i2 <= j <= to <= v@.len(),
                    word_len(v@.subrange(i2 as int, to as int)) == (j - i2) + word_len(v@.subrange(j as int, to as int)),
                decreases to - j,
            {
                assert(v@.subrange(j as int, to as int).drop_first() =~= v@.subrange(j + 1, to as int));
                j = j + 1;
            }
            proof {
                lemma_fields_step(v@, i as int, i2 as int, j as int, to as int);
            }
            let ghost field = v@.subrange(i2 as int, j as int);
            if count == 0 {
                bounds[0] = (i2, j);
            } else if count == 1 {
                bounds[1] = (i2, j);
            } else if count == 9 {
                bounds[2] = (i2, j);
            }
            proof {
                done = done.push(field);
                assert(whole =~= done + fields(v@.subrange(j as int, to as int)));
            }
            count = count + 1;
            i = j;
        }
    }
    proof {
        if i >= to {
            assert(v@.subrange(i as int, to as int) =~= Seq::<char>::empty());
            assert(fields(v@.subrange(i as int, to as int)) =~= Seq::<Seq<char>>::empty());
            assert(whole =~= done);
        }
        assert forall|k: int| 0 <= k < done.len() implies whole[k] == done[k] by {
            assert((done + fields(v@.subrange(i as int, to as int)))[k] == done[k]);
        }
    }
    (count, bounds)
}

/// The received and transmitted byte counts of the line `v[from..to]`, as `line_counts`.
fn counts_of_line(v: &Vec<char>, from: usize, to: usize) -> (r: (Option<u64>, Option<u64>))
    requires
        from <= to <= v@.len(),
    ensures
        r == line_counts(v@.subrange(from as int, to as int)),
{
    let (count, bounds) = field_bounds(v, from, to);
    let ghost f = fields(v@.subrange(from as int, to as int));
    if count == 0 {
        return (None, None);
    }
    let (s0, e0) = bounds[0];
    let loopback = e0 - s0 >= 3 && v[s0] == 'l' && v[s0 + 1] == 'o' && v[s0 + 2] == ':';
    proof {
        if e0 - s0 >= 3 {
            if loopback {
                assert(f[0].take(3) =~= seq!['l', 'o', ':']);
            } else {
                assert(f[0].take(3)[0] == v@[s0 as int]);
                assert(f[0].take(3)[1] == v@[s0 + 1]);
                assert(f[0].take(3)[2] == v@[s0 + 2]);
            }
        }
    }
    if loopback {
        return (None, None);
    }
    let rx = if count >= 2 {
        parse_u64_in(v, bounds[1].0, bounds[1].1)
    } else {
        None
    };
    let tx = if count >= 10 {
        parse_u64_in(v, bounds[2].0, bounds[2].1)
    } else {
        None
    };
    (rx, tx)
}

/// Adds `b`, if there is one, to `a`, saturating at `u64::MAX`.
fn add_count(a: u64, b: Option<u64>) -> (r: u64)
    ensures
        r == sat_add(a, b),
{
    match b {
        Some(x) => a.saturating_add(x),
        None => a,
    }
}

/// Sums the received and transmitted bytes of every non-loopback interface in the text of
/// `/proc/net/dev`, as `net_totals_of`.
pub fn net_totals(content: &str) -> (r: (u64, u64))
    ensures
        r == net_totals_of(content@),
{
    let v = chars_of(content);
    let n = v.len();
    let ghost all = lines_of(v@);
    let ghost mut done: Seq<Seq<char>> = Seq::empty();
    let mut rx: u64 = 0;
    let mut tx: u64 = 0;
    let mut k: usize = 0;
    let mut p: usize = 0;
    proof {
        assert(v@.skip(0) =~= v@);
    }
    while p < n
        invariant
            v@ == content@,
            n == v@.len(),
            p <= n,
            all == lines_of(v@),
            all == done + lines_of(v@.skip(p as int)),
            k == done.len(),
            k <= p,
            (rx, tx) == (if done.len() <= 2 { (0u64, 0u64) } else { net_sum(done.skip(2)) }),
        decreases n - p,
    {
        let ghost rest = v@.skip(p as int);
        let mut e = p;
        while e < n && v[e] != '\n'
            invariant
                p <= e <= n,
                n == v@.len(),
                line_len(v@.skip(p as int)) == (e - p) + line_len(v@.skip(e as int)),
            decreases n - e,
        {
            assert(v@.skip(e as int).drop_first() =~= v@.skip(e + 1));
            e = e + 1;
        }
        assert(line_len(v@.skip(e as int)) == 0);
        let ghost line = if e < n {
            strip_cr(v@.subrange(p as int, e as int))
        } else {
            rest
        };
        let le = if e < n && e > p && v[e - 1] == '\r' {
            e - 1
        } else {
            e
        };
        proof {
            if e < n {
                assert(rest.take(e - p) =~= v@.subrange(p as int, e as int));
                assert(rest.skip(e - p + 1) =~= v@.skip(e + 1));
                assert(line =~= v@.subrange(p as int, le as int));
                assert(lines_of(rest) == seq![line] + lines_of(v@.skip(e + 1)));
            } else {
                assert(rest =~= v@.subrange(p as int, e as int));
                assert(line =~= v@.subrange(p as int, le as int));
                assert(lines_of(rest) == seq![line]);
                assert(v@.skip(n as int) =~= Seq::<char>::empty());
                assert(lines_of(v@.skip(n as int)) =~= Seq::<Seq<char>>::empty());
            }
        }
        if k >= 2 {
            let (a, b) = counts_of_line(&v, p, le);
            proof {
                let d2 = done.push(line);
                assert(d2.skip(2).drop_last() =~= done.skip(2));
                assert(d2.skip(2).last() == line);
                if done.len() == 2 {
                    assert(done.skip(2) =~= Seq::<Seq<char>>::empty());
                    assert(net_sum(done.skip(2)) == (0u64, 0u64));
                }
                assert(net_sum(d2.skip(2)) == (sat_add(rx, a), sat_add(tx, b)));
            }
            rx = add_count(rx, a);
            tx = add_count(tx, b);
        }
        proof {
            done = done.push(line);
            if e < n {
                assert(all =~= done + lines_of(v@.skip(e + 1)));
            } else {
                assert(all =~= done + lines_of(v@.skip(n as int)));
            }
        }
        k = k + 1;
        p = if e < n {
            e + 1
        } else {
            n
        };
    }
    proof {
        assert(v@.skip(n as int) =~= Seq::<char>::empty());
        assert(lines_of(v@.skip(n as int)) =~= Seq::<Seq<char>>::empty());
        assert(all =~= done);
    }
    (rx, tx)
}

} // verus!
