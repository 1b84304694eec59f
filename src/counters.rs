use vstd::prelude::*;
use vstd::arithmetic::div_mod::lemma_fundamental_div_mod;

verus! {

/// The three tallies kept for one device.
#[derive(Clone, Copy, Debug, PartialEq, Eq, Structural)]
pub struct Counters {
    pub reboots: u64,
    pub bps: u64,
    pub temps: u64,
}

/// Which of the three tallies a line of the counter file holds.
#[derive(Clone, Copy, Debug, PartialEq, Eq, Structural)]
pub enum Tally {
    Reboots,
    Bps,
    Temps,
}

pub open spec fn tally_key(t: Tally) -> Seq<u8> {
    match t {
        Tally::Reboots => seq![82u8, 101u8, 98u8, 111u8, 111u8, 116u8, 115u8, 58u8, 32u8],  // "Reboots: "
        Tally::Bps => seq![83u8, 117u8, 99u8, 99u8, 101u8, 115u8, 115u8, 102u8, 117u8, 108u8, 32u8, 66u8, 80u8, 32u8, 116u8, 101u8, 115u8, 116u8, 115u8, 58u8, 32u8],  // "Successful BP tests: "
        Tally::Temps => seq![83u8, 117u8, 99u8, 99u8, 101u8, 115u8, 115u8, 102u8, 117u8, 108u8, 32u8, 116u8, 101u8, 109u8, 112u8, 32u8, 116u8, 101u8, 115u8, 116u8, 115u8, 58u8, 32u8],  // "Successful temp tests: "
    }
}

/// The bytes that open the line of a tally.
pub fn tally_key_bytes(t: Tally) -> (r: Vec<u8>)
    ensures
        r@ == tally_key(t),
{
    let r = match t {
        Tally::Reboots => vec![82u8, 101u8, 98u8, 111u8, 111u8, 116u8, 115u8, 58u8, 32u8],  // "Reboots: "
        Tally::Bps => vec![83u8, 117u8, 99u8, 99u8, 101u8, 115u8, 115u8, 102u8, 117u8, 108u8, 32u8, 66u8, 80u8, 32u8, 116u8, 101u8, 115u8, 116u8, 115u8, 58u8, 32u8],  // "Successful BP tests: "
        Tally::Temps => vec![83u8, 117u8, 99u8, 99u8, 101u8, 115u8, 115u8, 102u8, 117u8, 108u8, 32u8, 116u8, 101u8, 109u8, 112u8, 32u8, 116u8, 101u8, 115u8, 116u8, 115u8, 58u8, 32u8],  // "Successful temp tests: "
    };
    assert(r@ =~= tally_key(t));
    r
}

pub open spec fn is_digit(b: u8) -> bool {
    48 <= b <= 57
}

pub open spec fn all_digits(s: Seq<u8>) -> bool {
    forall|i: int| 0 <= i < s.len() ==> is_digit(#[trigger] s[i])
}

/// The decimal text of a number, without leading zeros.
pub open spec fn dec(n: nat) -> Seq<u8>
    decreases n,
{
    if n < 10 {
        seq![(48 + n) as u8]
    } else {
        dec(n / 10).push((48 + n % 10) as u8)
    }
}

/// The number that a string of decimal digits stands for.
pub open spec fn digits_value(s: Seq<u8>) -> nat
    decreases s.len(),
{
    if s.len() == 0 {
        0
    } else {
        digits_value(s.drop_last()) * 10 + (s.last() - 48) as nat
    }
}

pub open spec fn is_space(b: u8) -> bool {
    b == 32 || b == 9 || b == 13 || b == 11 || b == 12
}

/// The first position at or after `i` that holds no white space.
pub open spec fn skip_spaces(t: Seq<u8>, i: int) -> int
    decreases t.len() - i,
{
    if 0 <= i < t.len() && is_space(t[i]) {
        skip_spaces(t, i + 1)
    } else {
        i
    }
}

/// The end of `t` down to `j` without its trailing white space, never below `lo`.
pub open spec fn back_spaces(t: Seq<u8>, lo: int, j: int) -> int
    decreases j - lo,
{
    if lo < j <= t.len() && is_space(t[j - 1]) {
        back_spaces(t, lo, j - 1)
    } else {
        j
    }
}

/// `t` without leading and trailing white space.
pub open spec fn trim(t: Seq<u8>) -> Seq<u8> {
    let a = skip_spaces(t, 0);
    t.subrange(a, back_spaces(t, a, t.len() as int))
}

/// The number that the value part of a line holds, if it is one that fits in a `u64`.
pub open spec fn value_of(t: Seq<u8>) -> Option<u64> {
    let u = trim(t);
    if u.len() > 0 && all_digits(u) && digits_value(u) <= u64::MAX {
        Some(digits_value(u) as u64)
    } else {
        None
    }
}

pub open spec fn starts_with(s: Seq<u8>, p: Seq<u8>) -> bool {
    p.len() <= s.len() && s.subrange(0, p.len() as int) == p
}

pub open spec fn set_tally(c: Counters, t: Tally, v: u64) -> Counters {
    match t {
        Tally::Reboots => Counters { reboots: v, ..c },
        Tally::Bps => Counters { bps: v, ..c },
        Tally::Temps => Counters { temps: v, ..c },
    }
}

/// The counters after one line of the file is read: a line that opens with a
/// tally's key and holds a number sets that tally; any other line changes nothing.
pub open spec fn apply_line(line: Seq<u8>, c: Counters) -> Counters {
    if starts_with(line, tally_key(Tally::Reboots)) {
        apply_value(line, Tally::Reboots, c)
    } else if starts_with(line, tally_key(Tally::Bps)) {
        apply_value(line, Tally::Bps, c)
    } else if starts_with(line, tally_key(Tally::Temps)) {
        apply_value(line, Tally::Temps, c)
    } else {
        c
    }
}

pub open spec fn apply_value(line: Seq<u8>, t: Tally, c: Counters) -> Counters {
    match value_of(line.subrange(tally_key(t).len() as int, line.len() as int)) {
        Some(v) => set_tally(c, t, v),
        None => c,
    }
}

/// The lines of a text, split at each newline; the last one may be empty.
pub open spec fn lines(s: Seq<u8>) -> Seq<Seq<u8>>
    decreases s.len(),
{
    if s.len() == 0 {
        seq![Seq::empty()]
    } else {
        let r = lines(s.drop_last());
        if s.last() == 10 {
            r.push(Seq::empty())
        } else {
            r.update(r.len() - 1, r.last().push(s.last()))
        }
    }
}

pub open spec fn apply_lines(ls: Seq<Seq<u8>>, c: Counters) -> Counters
    decreases ls.len(),
{
    if ls.len() == 0 {
        c
    } else {
        apply_line(ls.last(), apply_lines(ls.drop_last(), c))
    }
}

/// The counters read from the text of a counter file, starting from `prior`.
pub open spec fn parse_spec(text: Seq<u8>, prior: Counters) -> Counters {
    apply_lines(lines(text), prior)
}

pub open spec fn tally_line(t: Tally, v: u64) -> Seq<u8> {
    tally_key(t) + dec(v as nat) + seq![10u8]
}

/// The text of the counter file for `c`.
pub open spec fn render_spec(c: Counters) -> Seq<u8> {
    tally_line(Tally::Reboots, c.reboots) + tally_line(Tally::Bps, c.bps) + tally_line(
        Tally::Temps,
        c.temps,
    )
}

/// Appends the decimal text of `n` to `out`.
fn push_dec(out: &mut Vec<u8>, n: u64)
    ensures
        final(out)@ == old(out)@ + dec(n as nat),
    decreases n,
{
    if n >= 10 {
        push_dec(out, n / 10);
    }
    out.push((48 + n % 10) as u8);
    assert(final(out)@ =~= old(out)@ + dec(n as nat));
}

fn push_all(out: &mut Vec<u8>, b: &Vec<u8>)
    ensures
        final(out)@ == old(out)@ + b@,
{
    let mut i: usize = 0;
    while i < b.len()
        invariant
            i <= b.len(),
            out@ == old(out)@ + b@.subrange(0, i as int),
        decreases b.len() - i,
    {
        out.push(b[i]);
        i = i + 1;
        assert(out@ =~= old(out)@ + b@.subrange(0, i as int));
    }
    assert(b@.subrange(0, b@.len() as int) =~= b@);
}

fn push_tally_line(out: &mut Vec<u8>, t: Tally, v: u64)
    ensures
        final(out)@ == old(out)@ + tally_line(t, v),
{
    let key = tally_key_bytes(t);
    push_all(out, &key);
    push_dec(out, v);
    out.push(10u8);
    assert(final(out)@ =~= old(out)@ + tally_line(t, v));
}

/// The text of the counter file for `c`: one line per tally, each ending in a newline.
pub fn render(c: &Counters) -> (r: Vec<u8>)
    ensures
        r@ == render_spec(*c),
{
    let mut out: Vec<u8> = Vec::new();
    push_tally_line(&mut out, Tally::Reboots, c.reboots);
    push_tally_line(&mut out, Tally::Bps, c.bps);
    push_tally_line(&mut out, Tally::Temps, c.temps);
    assert(out@ =~= render_spec(*c));
    out
}

proof fn lemma_digits_value_grows(s: Seq<u8>, i: int, j: int)
    requires
        0 <= i <= j <= s.len(),
        all_digits(s),
    ensures
        digits_value(s.subrange(0, i)) <= digits_value(s.subrange(0, j)),
    decreases j - i,
{
    if i < j {
        lemma_digits_value_grows(s, i, j - 1);
        assert(s.subrange(0, j).drop_last() =~= s.subrange(0, j - 1));
    }
}

/// The number held by `t` after white space is trimmed, if it is a number
/// that fits in a `u64`.
pub fn parse_value(t: &[u8]) -> (r: Option<u64>)
    ensures
        r == value_of(t@),
{
    let mut a: usize = 0;
    while a < t.len() && (t[a] == 32 || t[a] == 9 || t[a] == 13 || t[a] == 11 || t[a] == 12)
        invariant
            a <= t.len(),
            skip_spaces(t@, a as int) == skip_spaces(t@, 0),
        decreases t.len() - a,
    {
        a = a + 1;
    }
    let mut e: usize = t.len();
    while e > a && (t[e - 1] == 32 || t[e - 1] == 9 || t[e - 1] == 13 || t[e - 1] == 11 || t[e
        - 1] == 12)
        invariant
            a <= e <= t.len(),
            a as int == skip_spaces(t@, 0),
            back_spaces(t@, a as int, e as int) == back_spaces(t@, a as int, t.len() as int),
        decreases e - a,
    {
        e = e - 1;
    }
    let ghost u = t@.subrange(a as int, e as int);
    assert(u == trim(t@));
    if a == e {
        return None;
    }
    let mut i: usize = a;
    let mut acc: u64 = 0;
    while i < e
        invariant
            a <= i <= e <= t.len(),
            u == t@.subrange(a as int, e as int),
            u == trim(t@),
            all_digits(u.subrange(0, i - a)),
            acc as nat == digits_value(u.subrange(0, i - a)),
        decreases e - i,
    {
        let b = t[i];
        assert(u.subrange(0, i + 1 - a).drop_last() =~= u.subrange(0, i - a));
        if b < 48 || b > 57 {
            assert(u[i - a] == t@[i as int]);
            assert(!is_digit(u[i - a]));
            return None;
        }
        let d: u64 = (b - 48) as u64;
        if acc > (u64::MAX - d) / 10 {
            proof {
                assert(acc * 10 + d > u64::MAX) by (nonlinear_arith)
                    requires
                        acc > (u64::MAX - d) / 10,
                        d <= 9,
                ;
                if all_digits(u) {
                    lemma_digits_value_grows(u, i + 1 - a, u.len() as int);
                    assert(u.subrange(0, u.len() as int) =~= u);
                }
            }
            return None;
        }
        proof {
            assert(acc * 10 + d <= u64::MAX) by (nonlinear_arith)
                requires
                    acc <= (u64::MAX - d) / 10,
                    d <= 9,
            ;
        }
        acc = acc * 10 + d;
        i = i + 1;
        assert(all_digits(u.subrange(0, i - a))) by {
            assert forall|k: int| 0 <= k < i - a implies is_digit(
                #[trigger] u.subrange(0, i - a)[k],
            ) by {
                if k < i - 1 - a {
                    assert(u.subrange(0, i - a)[k] == u.subrange(0, i - 1 - a)[k]);
                }
            }
        }
    }
    assert(u.subrange(0, u.len() as int) =~= u);
    Some(acc)
}

fn tail(s: &[u8], from: usize) -> (r: Vec<u8>)
    requires
        from <= s@.len(),
    ensures
        r@ == s@.subrange(from as int, s@.len() as int),
{
    let mut out: Vec<u8> = Vec::new();
    let mut i: usize = from;
    while i < s.len()
        invariant
            from <= i <= s.len(),
            out@ == s@.subrange(from as int, i as int),
        decreases s.len() - i,
    {
        out.push(s[i]);
        i = i + 1;
        assert(out@ =~= s@.subrange(from as int, i as int));
    }
    out
}

fn starts_with_key(line: &[u8], t: Tally) -> (r: bool)
    ensures
        r == starts_with(line@, tally_key(t)),
{
    let key = tally_key_bytes(t);
    if key.len() > line.len() {
        return false;
    }
    let mut i: usize = 0;
    while i < key.len()
        invariant
            key@ == tally_key(t),
            key.len() <= line.len(),
            i <= key.len(),
            forall|k: int| 0 <= k < i ==> line@[k] == key@[k],
        decreases key.len() - i,
    {
        if line[i] != key[i] {
            assert(line@.subrange(0, key@.len() as int)[i as int] != key@[i as int]);
            return false;
        }
        i = i + 1;
    }
    assert(line@.subrange(0, key@.len() as int) =~= key@);
    true
}

fn read_value(line: &[u8], t: Tally, c: Counters) -> (r: Counters)
    requires
        starts_with(line@, tally_key(t)),
    ensures
        r == apply_value(line@, t, c),
{
    let key = tally_key_bytes(t);
    let rest = tail(line, key.len());
    match parse_value(rest.as_slice()) {
        Some(v) => match t {
            Tally::Reboots => Counters { reboots: v, ..c },
            Tally::Bps => Counters { bps: v, ..c },
            Tally::Temps => Counters { temps: v, ..c },
        },
        None => c,
    }
}

/// The counters after one line of the counter file is read.
pub fn read_line(line: &[u8], c: Counters) -> (r: Counters)
    ensures
        r == apply_line(line@, c),
{
    if starts_with_key(line, Tally::Reboots) {
        read_value(line, Tally::Reboots, c)
    } else if starts_with_key(line, Tally::Bps) {
        read_value(line, Tally::Bps, c)
    } else if starts_with_key(line, Tally::Temps) {
        read_value(line, Tally::Temps, c)
    } else {
        c
    }
}

proof fn lemma_lines_nonempty(s: Seq<u8>)
    ensures
        lines(s).len() >= 1,
    decreases s.len(),
{
    if s.len() > 0 {
        lemma_lines_nonempty(s.drop_last());
    }
}

/// The counters read from the text of a counter file, starting from `prior`:
/// each line that opens with a tally's key and holds a number sets that tally,
/// and a line that does not leaves the counters as they were.
pub fn parse(text: &[u8], prior: Counters) -> (r: Counters)
    ensures
        r == parse_spec(text@, prior),
{
    let mut c = prior;
    let mut cur: Vec<u8> = Vec::new();
    let mut i: usize = 0;
    while i < text.len()
        invariant
            i <= text.len(),
            lines(text@.subrange(0, i as int)).len() >= 1,
            cur@ == lines(text@.subrange(0, i as int)).last(),
            c == apply_lines(lines(text@.subrange(0, i as int)).drop_last(), prior),
        decreases text.len() - i,
    {
        let ghost before = lines(text@.subrange(0, i as int));
        assert(text@.subrange(0, i + 1).drop_last() =~= text@.subrange(0, i as int));
        if text[i] == 10 {
            c = read_line(cur.as_slice(), c);
            cur = Vec::new();
            proof {
                let after = lines(text@.subrange(0, i + 1));
                assert(after == before.push(Seq::empty()));
                assert(after.drop_last() =~= before);
                assert(before.drop_last().push(before.last()) =~= before);
                assert(cur@ =~= after.last());
            }
        } else {
            cur.push(text[i]);
            proof {
                let after = lines(text@.subrange(0, i + 1));
                assert(after.drop_last() =~= before.drop_last());
            }
        }
        i = i + 1;
    }
    let r = read_line(cur.as_slice(), c);
    proof {
        let ls = lines(text@.subrange(0, text@.len() as int));
        assert(text@.subrange(0, text@.len() as int) =~= text@);
        assert(ls.drop_last().push(ls.last()) =~= ls);
    }
    r
}

proof fn lemma_dec(n: nat)
    ensures
        dec(n).len() >= 1,
        all_digits(dec(n)),
        digits_value(dec(n)) == n,
    decreases n,
{
    if n >= 10 {
        lemma_dec(n / 10);
        let d = dec(n);
        assert(d.drop_last() =~= dec(n / 10));
        lemma_fundamental_div_mod(n as int, 10);
        assert forall|i: int| 0 <= i < d.len() implies is_digit(#[trigger] d[i]) by {
            if i < d.len() - 1 {
                assert(d[i] == dec(n / 10)[i]);
            }
        }
    } else {
        assert(digits_value(dec(n).drop_last()) == 0);
    }
}

proof fn lemma_value_of_dec(n: u64)
    ensures
        value_of(dec(n as nat)) == Some(n),
{
    let d = dec(n as nat);
    lemma_dec(n as nat);
    assert(!is_space(d[0]));
    assert(skip_spaces(d, 0) == 0);
    assert(!is_space(d[d.len() - 1]));
    assert(back_spaces(d, 0, d.len() as int) == d.len());
    assert(d.subrange(0, d.len() as int) =~= d);
}

proof fn lemma_key_line(t: Tally, v: u64, c: Counters)
    ensures
        apply_line(tally_key(t) + dec(v as nat), c) == set_tally(c, t, v),
{
    let k = tally_key(t);
    let line = k + dec(v as nat);
    lemma_dec(v as nat);
    assert(line.subrange(0, k.len() as int) =~= k);
    assert(line.subrange(k.len() as int, line.len() as int) =~= dec(v as nat));
    lemma_value_of_dec(v);
    let kr = tally_key(Tally::Reboots);
    let kb = tally_key(Tally::Bps);
    if t != Tally::Reboots {
        assert(line.subrange(0, kr.len() as int)[0] != kr[0]);
    }
    if t == Tally::Temps {
        assert(line.subrange(0, kb.len() as int)[11] != kb[11]);
    }
}

proof fn lemma_lines_append(x: Seq<u8>, y: Seq<u8>)
    requires
        forall|i: int| 0 <= i < y.len() ==> y[i] != 10,
    ensures
        lines(x + y) == lines(x).update(lines(x).len() - 1, lines(x).last() + y),
    decreases y.len(),
{
    lemma_lines_nonempty(x);
    if y.len() == 0 {
        assert(x + y =~= x);
        assert(lines(x).last() + y =~= lines(x).last());
        assert(lines(x).update(lines(x).len() - 1, lines(x).last()) =~= lines(x));
    } else {
        let y1 = y.drop_last();
        lemma_lines_append(x, y1);
        assert((x + y).drop_last() =~= x + y1);
        assert((lines(x).last() + y1).push(y.last()) =~= lines(x).last() + y);
        assert(lines(x + y) =~= lines(x).update(lines(x).len() - 1, lines(x).last() + y));
    }
}

proof fn lemma_lines_line(x: Seq<u8>, t: Tally, v: u64)
    requires
        lines(x).len() >= 1,
        lines(x).last() == Seq::<u8>::empty(),
    ensures
        lines(x + tally_line(t, v)) == lines(x).drop_last().push(tally_key(t) + dec(v as nat)).push(
            Seq::empty(),
        ),
{
    let k = tally_key(t) + dec(v as nat);
    lemma_dec(v as nat);
    assert forall|i: int| 0 <= i < k.len() implies k[i] != 10 by {
        if i >= tally_key(t).len() {
            assert(is_digit(dec(v as nat)[i - tally_key(t).len()]));
        }
    }
    lemma_lines_append(x, k);
    assert(x + tally_line(t, v) =~= (x + k).push(10u8));
    assert((x + tally_line(t, v)).drop_last() =~= x + k);
    assert(Seq::<u8>::empty() + k =~= k);
    assert(lines(x).update(lines(x).len() - 1, k) =~= lines(x).drop_last().push(k));
}

/// Reading back the text written for some counters gives those counters,
/// whatever the counters were before the read.
pub proof fn lemma_parse_render(c: Counters, prior: Counters)
    ensures
        parse_spec(render_spec(c), prior) == c,
{
    let e = Seq::<u8>::empty();
    let la = tally_key(Tally::Reboots) + dec(c.reboots as nat);
    let lb = tally_key(Tally::Bps) + dec(c.bps as nat);
    let lc = tally_key(Tally::Temps) + dec(c.temps as nat);
    let s1 = e + tally_line(Tally::Reboots, c.reboots);
    let s2 = s1 + tally_line(Tally::Bps, c.bps);
    let s3 = s2 + tally_line(Tally::Temps, c.temps);
    assert(lines(e) == seq![e]);
    lemma_lines_line(e, Tally::Reboots, c.reboots);
    assert(lines(s1) =~= seq![la, e]);
    lemma_lines_line(s1, Tally::Bps, c.bps);
    assert(lines(s2) =~= seq![la, lb, e]);
    lemma_lines_line(s2, Tally::Temps, c.temps);
    assert(lines(s3) =~= seq![la, lb, lc, e]);
    assert(s3 =~= render_spec(c));
    let ls = seq![la, lb, lc, e];
    assert(ls.drop_last() =~= seq![la, lb, lc]);
    assert(seq![la, lb, lc].drop_last() =~= seq![la, lb]);
    assert(seq![la, lb].drop_last() =~= seq![la]);
    assert(seq![la].drop_last() =~= Seq::<Seq<u8>>::empty());
    lemma_key_line(Tally::Reboots, c.reboots, prior);
    let c1 = set_tally(prior, Tally::Reboots, c.reboots);
    lemma_key_line(Tally::Bps, c.bps, c1);
    let c2 = set_tally(c1, Tally::Bps, c.bps);
    lemma_key_line(Tally::Temps, c.temps, c2);
    let c3 = set_tally(c2, Tally::Temps, c.temps);
    assert(c3 == c);
    assert(apply_lines(Seq::<Seq<u8>>::empty(), prior) == prior);
    assert(apply_lines(seq![la], prior) == c1);
    assert(apply_lines(seq![la, lb], prior) == c2);
    assert(apply_lines(seq![la, lb, lc], prior) == c3);
    assert(apply_line(e, c) == c);
    assert(apply_lines(ls, prior) == c);
}

} // verus!
