//! Verified building blocks for working with text: character sequences,
//! substring search, replacement, line splitting and decimal formatting.
use vstd::prelude::*;

verus! {

/// Number of characters in `s` equal to `c`.
pub open spec fn count_char(s: Seq<char>, c: char) -> nat
    decreases s.len(),
{
    if s.len() == 0 {
        0
    } else {
        count_char(s.drop_last(), c) + if s.last() == c { 1nat } else { 0nat }
    }
}

/// Collect the characters of a string slice into a vector.
pub fn str_chars(s: &str) -> (v: Vec<char>)
    ensures
        v@ == s@,
{
    let n = s.unicode_len();
    let mut v: Vec<char> = Vec::new();
    let mut i: usize = 0;
    while i < n
        invariant
            i <= n,
            n == s@.len(),
            v@ == s@.take(i as int),
        decreases n - i,
    {
        v.push(s.get_char(i));
        proof {
            assert(v@ =~= s@.take(i + 1));
        }
        i = i + 1;
    }
    proof {
        assert(s@.take(n as int) =~= s@);
    }
    v
}

/// Count the characters equal to `c` among the first `upto` characters of `s`.
pub fn count_char_upto(s: &Vec<char>, c: char, upto: usize) -> (n: usize)
    requires
        upto <= s@.len(),
    ensures
        n == count_char(s@.take(upto as int), c),
{
    let mut n: usize = 0;
    let mut i: usize = 0;
    while i < upto
        invariant
            i <= upto <= s@.len(),
            n == count_char(s@.take(i as int), c),
            n <= i,
        decreases upto - i,
    {
        proof {
            assert(s@.take(i + 1).drop_last() =~= s@.take(i as int));
            assert(s@.take(i + 1).last() == s@[i as int]);
        }
        if s[i] == c {
            n = n + 1;
        }
        i = i + 1;
    }
    n
}

} // verus!

verus! {

/// Relies on `String::push` from std: appends exactly the given character.
#[verifier::external_body]
pub fn push_char(s: &mut String, c: char)
    ensures
        final(s)@ == old(s)@.push(c),
{
    s.push(c);
}

/// The character for a single decimal digit.
pub open spec fn digit_char(d: nat) -> char
    recommends
        d < 10,
{
    if d == 0 {
        '0'
    } else if d == 1 {
        '1'
    } else if d == 2 {
        '2'
    } else if d == 3 {
        '3'
    } else if d == 4 {
        '4'
    } else if d == 5 {
        '5'
    } else if d == 6 {
        '6'
    } else if d == 7 {
        '7'
    } else if d == 8 {
        '8'
    } else {
        '9'
    }
}

/// The decimal representation of `n`, without leading zeros
/// (except for `0` itself).
pub open spec fn decimal(n: nat) -> Seq<char>
    decreases n,
{
    if n < 10 {
        seq![digit_char(n)]
    } else {
        decimal(n / 10).push(digit_char(n % 10))
    }
}

/// Render `n` in decimal.
pub fn u64_string(n: u64) -> (s: String)
    ensures
        s@ == decimal(n as nat),
    decreases n,
{
    if n < 10 {
        let mut s = String::new();
        let c = match n {
            0 => '0',
            1 => '1',
            2 => '2',
            3 => '3',
            4 => '4',
            5 => '5',
            6 => '6',
            7 => '7',
            8 => '8',
            _ => '9',
        };
        push_char(&mut s, c);
        proof {
            assert(s@ =~= decimal(n as nat));
        }
        s
    } else {
        let mut s = u64_string(n / 10);
        let d = n % 10;
        let c = match d {
            0 => '0',
            1 => '1',
            2 => '2',
            3 => '3',
            4 => '4',
            5 => '5',
            6 => '6',
            7 => '7',
            8 => '8',
            _ => '9',
        };
        push_char(&mut s, c);
        proof {
            assert(s@ =~= decimal(n as nat));
        }
        s
    }
}

/// The pattern `p` occurs in `t` starting at position `i`.
pub open spec fn occurs_at(t: Seq<char>, p: Seq<char>, i: int) -> bool {
    &&& 0 <= i
    &&& i + p.len() <= t.len()
    &&& t.subrange(i, i + p.len()) == p
}

/// The pattern `p` occurs somewhere in `t`.
pub open spec fn occurs(t: Seq<char>, p: Seq<char>) -> bool {
    exists|i: int| occurs_at(t, p, i)
}

/// Compare `t[at .. at + p.len()]` with `p`.
pub fn matches_at(t: &Vec<char>, p: &Vec<char>, at: usize) -> (r: bool)
    requires
        at + p@.len() <= t@.len(),
    ensures
        r == occurs_at(t@, p@, at as int),
{
    let m = p.len();
    let n = t.len();
    let mut j: usize = 0;
    while j < m
        invariant
            j <= m,
            m == p@.len(),
            n == t@.len(),
            at + m <= n,
            forall|k: int| 0 <= k < j ==> t@[at + k] == p@[k],
        decreases m - j,
    {
        if t[at + j] != p[j] {
            assert(t@.subrange(at as int, at + m) != p@) by {
                assert(t@.subrange(at as int, at + m)[j as int] != p@[j as int]);
            }
            return false;
        }
        j = j + 1;
    }
    proof {
        assert(t@.subrange(at as int, at + m) =~= p@);
    }
    true
}

/// Position of the first occurrence of `p` in `t`, if any.
pub fn find_first(t: &Vec<char>, p: &Vec<char>) -> (r: Option<usize>)
    ensures
        match r {
            Some(i) => occurs_at(t@, p@, i as int) && forall|j: int|
                0 <= j < i ==> !occurs_at(t@, p@, j),
            None => !occurs(t@, p@),
        },
{
    if p.len() == 0 {
        proof {
            assert(t@.subrange(0, 0) =~= p@);
        }
        return Some(0);
    }
    if p.len() > t.len() {
        assert(forall|j: int| !occurs_at(t@, p@, j));
        return None;
    }
    let last = t.len() - p.len();
    let mut i: usize = 0;
    while i <= last
        invariant
            last == t@.len() - p@.len(),
            1 <= p@.len() <= t@.len(),
            i <= last + 1,
            last + 1 <= t@.len(),
            t@.len() <= usize::MAX,
            forall|j: int| 0 <= j < i ==> !occurs_at(t@, p@, j),
        decreases last + 1 - i,
    {
        if matches_at(t, p, i) {
            return Some(i);
        }
        i = i + 1;
    }
    assert(forall|j: int| !occurs_at(t@, p@, j)) by {
        assert(forall|j: int| j > last ==> !occurs_at(t@, p@, j));
    }
    None
}

/// `t` with every occurrence of `p` (leftmost first, non-overlapping)
/// replaced by `r`. An empty pattern leaves the text unchanged.
pub open spec fn replaced(t: Seq<char>, p: Seq<char>, r: Seq<char>) -> Seq<char>
    decreases t.len(),
{
    if p.len() == 0 || t.len() < p.len() {
        t
    } else if t.subrange(0, p.len() as int) == p {
        r + replaced(t.skip(p.len() as int), p, r)
    } else {
        seq![t[0]] + replaced(t.skip(1), p, r)
    }
}

/// Replace every occurrence of `from` in `text` by `to`.
pub fn replace_all(text: &str, from: &str, to: &str) -> (out: String)
    ensures
        out@ == replaced(text@, from@, to@),
{
    let tc = str_chars(text);
    let fc = str_chars(from);
    let m = fc.len();
    if m == 0 {
        let out = text.to_owned();
        return out;
    }
    let n = tc.len();
    let mut out = String::new();
    proof {
        assert(text@.skip(0) =~= text@);
        assert(Seq::<char>::empty() + replaced(text@, from@, to@) =~= replaced(text@, from@, to@));
    }
    let mut i: usize = 0;
    while i < n
        invariant
            i <= n,
            n == tc@.len(),
            m == fc@.len(),
            m >= 1,
            tc@ == text@,
            fc@ == from@,
            replaced(text@, from@, to@) == out@ + replaced(text@.skip(i as int), from@, to@),
        decreases n - i,
    {
        let ghost out0 = out@;
        let ghost t1 = text@.skip(i as int);
        if m <= n - i && matches_at(&tc, &fc, i) {
            proof {
                assert(t1.subrange(0, m as int) =~= text@.subrange(i as int, i + m));
                assert(t1.skip(m as int) =~= text@.skip(i + m));
                assert(replaced(t1, from@, to@) == to@ + replaced(text@.skip(i + m), from@, to@));
            }
            out.append(to);
            proof {
                assert(out@ + replaced(text@.skip(i + m), from@, to@) =~= out0 + replaced(
                    t1,
                    from@,
                    to@,
                ));
            }
            i = i + m;
        } else {
            proof {
                if m <= n - i {
                    assert(t1.subrange(0, m as int) =~= text@.subrange(i as int, i + m));
                }
                assert(t1.skip(1) =~= text@.skip(i + 1));
                assert(t1[0] == text@[i as int]);
                assert(seq![t1[0]] + replaced(t1.skip(1), from@, to@) == replaced(
                    t1,
                    from@,
                    to@,
                ));
            }
            let c = tc[i];
            push_char(&mut out, c);
            proof {
                assert(out@ + replaced(text@.skip(i + 1), from@, to@) =~= out0 + replaced(
                    t1,
                    from@,
                    to@,
                ));
            }
            i = i + 1;
        }
    }
    proof {
        assert(text@.skip(n as int) =~= Seq::<char>::empty());
        assert(out@ + replaced(text@.skip(n as int), from@, to@) =~= out@);
    }
    out
}

} // verus!

verus! {

/// Build a `String` holding exactly the given characters.
pub fn chars_to_string(v: &Vec<char>) -> (s: String)
    ensures
        s@ == v@,
{
    let mut s = String::new();
    let n = v.len();
    let mut i: usize = 0;
    while i < n
        invariant
            i <= n,
            n == v@.len(),
            s@ == v@.take(i as int),
        decreases n - i,
    {
        push_char(&mut s, v[i]);
        proof {
            assert(s@ =~= v@.take(i + 1));
        }
        i = i + 1;
    }
    proof {
        assert(v@.take(n as int) =~= v@);
    }
    s
}

/// Whether two string slices hold the same characters.
pub fn str_eq(a: &str, b: &str) -> (r: bool)
    ensures
        r == (a@ == b@),
{
    let na = a.unicode_len();
    let nb = b.unicode_len();
    if na != nb {
        return false;
    }
    let mut i: usize = 0;
    while i < na
        invariant
            i <= na,
            na == a@.len(),
            na == b@.len(),
            forall|k: int| 0 <= k < i ==> a@[k] == b@[k],
        decreases na - i,
    {
        if a.get_char(i) != b.get_char(i) {
            return false;
        }
        i = i + 1;
    }
    proof {
        assert(a@ =~= b@);
    }
    true
}

/// `l` without a trailing carriage return.
pub open spec fn strip_cr(l: Seq<char>) -> Seq<char> {
    if l.len() > 0 && l.last() == '\r' {
        l.drop_last()
    } else {
        l
    }
}

/// `s` split at every separator character (those satisfying `sep`); the
/// separators are consumed and the result always has one piece more
/// than `s` has separators.
pub open spec fn split_when(s: Seq<char>, sep: spec_fn(char) -> bool) -> Seq<Seq<char>>
    decreases s.len(),
{
    if s.len() == 0 {
        seq![Seq::<char>::empty()]
    } else if sep(s[0]) {
        seq![Seq::<char>::empty()] + split_when(s.skip(1), sep)
    } else {
        let rest = split_when(s.skip(1), sep);
        seq![seq![s[0]] + rest[0]] + rest.skip(1)
    }
}

pub proof fn lemma_split_when_len(s: Seq<char>, sep: spec_fn(char) -> bool)
    ensures
        split_when(s, sep).len() >= 1,
    decreases s.len(),
{
    if s.len() == 0 {
    } else {
        lemma_split_when_len(s.skip(1), sep);
    }
}

/// `s` split at every newline character.
pub open spec fn split_nl(s: Seq<char>) -> Seq<Seq<char>> {
    split_when(s, |c: char| c == '\n')
}

pub proof fn lemma_split_nl_len(s: Seq<char>)
    ensures
        split_nl(s).len() >= 1,
{
    lemma_split_when_len(s, |c: char| c == '\n');
}

/// Appending one character to the text extends the last piece of the
/// split, or starts a fresh empty piece when the character is a
/// separator.
pub proof fn lemma_split_when_push(s: Seq<char>, c: char, sep: spec_fn(char) -> bool)
    ensures
        sep(c) ==> split_when(s.push(c), sep) =~~= split_when(s, sep).push(Seq::<char>::empty()),
        !sep(c) ==> split_when(s.push(c), sep) =~~= split_when(s, sep).update(
            split_when(s, sep).len() - 1,
            split_when(s, sep).last().push(c),
        ),
    decreases s.len(),
{
    lemma_split_when_len(s, sep);
    let t = s.push(c);
    assert(t.len() == s.len() + 1);
    if s.len() == 0 {
        assert(t[0] == c);
        assert(t.skip(1) =~= Seq::<char>::empty());
        assert(split_when(Seq::<char>::empty(), sep) == seq![Seq::<char>::empty()]);
        if sep(c) {
            assert(split_when(t, sep) == seq![Seq::<char>::empty()] + split_when(t.skip(1), sep));
            assert(split_when(t, sep) =~~= split_when(s, sep).push(Seq::<char>::empty()));
        } else {
            let rest = split_when(t.skip(1), sep);
            assert(rest == seq![Seq::<char>::empty()]);
            assert(split_when(t, sep) == seq![seq![t[0]] + rest[0]] + rest.skip(1));
            assert(split_when(t, sep) =~~= split_when(s, sep).update(
                split_when(s, sep).len() - 1,
                split_when(s, sep).last().push(c),
            ));
        }
    } else {
        lemma_split_when_len(s.skip(1), sep);
        lemma_split_when_push(s.skip(1), c, sep);
        assert(t[0] == s[0]);
        assert(t.skip(1) =~= s.skip(1).push(c));
        if sep(s[0]) {
            assert(split_when(t, sep) == seq![Seq::<char>::empty()] + split_when(
                s.skip(1).push(c),
                sep,
            ));
            assert(split_when(s, sep) == seq![Seq::<char>::empty()] + split_when(s.skip(1), sep));
            if sep(c) {
                assert(split_when(t, sep) =~~= split_when(s, sep).push(Seq::<char>::empty()));
            } else {
                assert(split_when(t, sep) =~~= split_when(s, sep).update(
                    split_when(s, sep).len() - 1,
                    split_when(s, sep).last().push(c),
                ));
            }
        } else {
            let rest0 = split_when(s.skip(1), sep);
            let rest1 = split_when(s.skip(1).push(c), sep);
            assert(split_when(t, sep) == seq![seq![t[0]] + rest1[0]] + rest1.skip(1));
            assert(split_when(s, sep) == seq![seq![s[0]] + rest0[0]] + rest0.skip(1));
            if sep(c) {
                assert(rest1 =~~= rest0.push(Seq::<char>::empty()));
                assert(rest1[0] == rest0[0]);
                assert(rest1.skip(1) =~~= rest0.skip(1).push(Seq::<char>::empty()));
                assert(split_when(t, sep) =~~= split_when(s, sep).push(Seq::<char>::empty()));
            } else {
                assert(rest1 =~~= rest0.update(rest0.len() - 1, rest0.last().push(c)));
                if rest0.len() == 1 {
                    assert(split_when(t, sep) =~~= split_when(s, sep).update(
                        split_when(s, sep).len() - 1,
                        split_when(s, sep).last().push(c),
                    ));
                } else {
                    assert(rest1[0] == rest0[0]);
                    assert(rest1.skip(1) =~~= rest0.skip(1).update(
                        rest0.skip(1).len() - 1,
                        rest0.skip(1).last().push(c),
                    ));
                    assert(split_when(t, sep) =~~= split_when(s, sep).update(
                        split_when(s, sep).len() - 1,
                        split_when(s, sep).last().push(c),
                    ));
                }
            }
        }
    }
}

pub proof fn lemma_split_nl_push(s: Seq<char>, c: char)
    ensures
        c == '\n' ==> split_nl(s.push(c)) =~~= split_nl(s).push(Seq::<char>::empty()),
        c != '\n' ==> split_nl(s.push(c)) =~~= split_nl(s).update(
            split_nl(s).len() - 1,
            split_nl(s).last().push(c),
        ),
{
    lemma_split_when_push(s, c, |x: char| x == '\n');
}

/// The lines of `s`, as `str::lines` yields them: split at `'\n'`, a
/// trailing carriage return removed from each line, and no final empty
/// line when `s` ends with a newline.
pub open spec fn spec_lines(s: Seq<char>) -> Seq<Seq<char>> {
    if s.len() == 0 {
        Seq::empty()
    } else {
        let raw = if s.last() == '\n' {
            split_nl(s).drop_last()
        } else {
            split_nl(s)
        };
        raw.map_values(|l: Seq<char>| strip_cr(l))
    }
}

/// Split `text` into its lines.
pub fn lines_of(text: &str) -> (r: Vec<String>)
    ensures
        r@.map_values(|l: String| l@) == spec_lines(text@),
{
    let tc = str_chars(text);
    let n = tc.len();
    let mut out: Vec<String> = Vec::new();
    let mut cur: Vec<char> = Vec::new();
    if n == 0 {
        proof {
            assert(out@.map_values(|l: String| l@) =~= spec_lines(text@));
        }
        return out;
    }
    let mut i: usize = 0;
    proof {
        assert(text@.take(0) =~= Seq::<char>::empty());
    }
    while i < n
        invariant
            i <= n,
            n == tc@.len(),
            tc@ == text@,
            split_nl(text@.take(i as int)).drop_last().map_values(|l: Seq<char>| strip_cr(l))
                =~~= out@.map_values(|l: String| l@),
            cur@ == split_nl(text@.take(i as int)).last(),
        decreases n - i,
    {
        proof {
            lemma_split_nl_len(text@.take(i as int));
            assert(text@.take(i + 1) =~= text@.take(i as int).push(text@[i as int]));
            lemma_split_nl_push(text@.take(i as int), text@[i as int]);
        }
        let ghost out0 = out@.map_values(|l: String| l@);
        let c = tc[i];
        if c == '\n' {
            let mut done = cur;
            if done.len() > 0 && done[done.len() - 1] == '\r' {
                done.pop();
            }
            proof {
                assert(done@ =~= strip_cr(split_nl(text@.take(i as int)).last()));
            }
            let line = chars_to_string(&done);
            out.push(line);
            cur = Vec::new();
            proof {
                let prev = split_nl(text@.take(i as int));
                let now = split_nl(text@.take(i + 1));
                assert(now =~~= prev.push(Seq::<char>::empty()));
                assert(now.drop_last() =~~= prev);
                assert(out@.map_values(|l: String| l@) =~~= out0.push(done@));
                assert(prev.map_values(|l: Seq<char>| strip_cr(l)) =~~= prev.drop_last().map_values(
                    |l: Seq<char>| strip_cr(l),
                ).push(strip_cr(prev.last())));
                assert(now.drop_last().map_values(|l: Seq<char>| strip_cr(l)) =~~= out@.map_values(
                    |l: String| l@,
                ));
            }
        } else {
            cur.push(c);
            proof {
                let prev = split_nl(text@.take(i as int));
                let now = split_nl(text@.take(i + 1));
                assert(now =~~= prev.update(prev.len() - 1, prev.last().push(c)));
                assert(now.drop_last() =~~= prev.drop_last());
                assert(now.drop_last().map_values(|l: Seq<char>| strip_cr(l)) =~~= out@.map_values(
                    |l: String| l@,
                ));
                assert(cur@ == now.last());
            }
        }
        i = i + 1;
    }
    proof {
        assert(text@.take(n as int) =~= text@);
        lemma_split_nl_len(text@);
    }
    if tc[n - 1] != '\n' {
        let mut done = cur;
        if done.len() > 0 && done[done.len() - 1] == '\r' {
            done.pop();
        }
        proof {
            assert(done@ =~= strip_cr(split_nl(text@).last()));
        }
        let ghost out0 = out@.map_values(|l: String| l@);
        let line = chars_to_string(&done);
        out.push(line);
        proof {
            let whole = split_nl(text@);
            assert(out@.map_values(|l: String| l@) =~~= out0.push(done@));
            assert(whole.map_values(|l: Seq<char>| strip_cr(l)) =~~= whole.drop_last().map_values(
                |l: Seq<char>| strip_cr(l),
            ).push(strip_cr(whole.last())));
            assert(whole.map_values(|l: Seq<char>| strip_cr(l)) =~~= out@.map_values(
                |l: String| l@,
            ));
        }
    } else {
        proof {
            assert(text@.last() == '\n');
        }
    }
    out
}

/// The pieces joined with `sep` between consecutive pieces.
pub open spec fn join_with(parts: Seq<Seq<char>>, sep: Seq<char>) -> Seq<char>
    decreases parts.len(),
{
    if parts.len() == 0 {
        Seq::empty()
    } else if parts.len() == 1 {
        parts[0]
    } else {
        parts[0] + sep + join_with(parts.skip(1), sep)
    }
}

pub proof fn lemma_join_with_push(parts: Seq<Seq<char>>, sep: Seq<char>, p: Seq<char>)
    ensures
        parts.len() == 0 ==> join_with(parts.push(p), sep) == p,
        parts.len() > 0 ==> join_with(parts.push(p), sep) =~= join_with(parts, sep) + sep + p,
    decreases parts.len(),
{
    if parts.len() == 0 {
        assert(parts.push(p)[0] == p);
    } else {
        lemma_join_with_push(parts.skip(1), sep, p);
        assert(parts.push(p).skip(1) =~~= parts.skip(1).push(p));
        if parts.len() == 1 {
            assert(join_with(parts.push(p), sep) =~= join_with(parts, sep) + sep + p);
        } else {
            assert(join_with(parts.push(p), sep) =~= join_with(parts, sep) + sep + p);
        }
    }
}

/// Concatenate the items with `sep` between consecutive items.
pub fn join(items: &Vec<String>, sep: &str) -> (r: String)
    ensures
        r@ == join_with(items@.map_values(|s: String| s@), sep@),
{
    let mut out = String::new();
    let n = items.len();
    let mut i: usize = 0;
    while i < n
        invariant
            i <= n,
            n == items@.len(),
            out@ == join_with(items@.map_values(|s: String| s@).take(i as int), sep@),
        decreases n - i,
    {
        proof {
            let parts = items@.map_values(|s: String| s@);
            assert(parts.take(i + 1) =~~= parts.take(i as int).push(parts[i as int]));
            lemma_join_with_push(parts.take(i as int), sep@, parts[i as int]);
        }
        if i > 0 {
            out.append(sep);
        }
        out.append(items[i].as_str());
        i = i + 1;
    }
    proof {
        let parts = items@.map_values(|s: String| s@);
        assert(parts.take(n as int) =~~= parts);
    }
    out
}

} // verus!

verus! {

/// Every line of `s`, indented by four spaces and joined with newlines.
pub open spec fn spec_indent(s: Seq<char>) -> Seq<char> {
    join_with(spec_lines(s).map_values(|l: Seq<char>| "    "@ + l), "\n"@)
}

/// Indent every line in `text` by four spaces.
pub fn indent(text: &str) -> (r: String)
    ensures
        r@ == spec_indent(text@),
{
    let ls = lines_of(text);
    let mut padded: Vec<String> = Vec::new();
    let n = ls.len();
    let mut i: usize = 0;
    while i < n
        invariant
            i <= n,
            n == ls@.len(),
            ls@.map_values(|l: String| l@) == spec_lines(text@),
            padded@.map_values(|l: String| l@) =~~= ls@.map_values(|l: String| l@).take(
                i as int,
            ).map_values(|l: Seq<char>| "    "@ + l),
        decreases n - i,
    {
        let ghost p0 = padded@.map_values(|l: String| l@);
        let mut line = String::from_str("    ");
        line.append(ls[i].as_str());
        padded.push(line);
        proof {
            let lsv = ls@.map_values(|l: String| l@);
            assert(padded@.map_values(|l: String| l@) =~~= p0.push("    "@ + lsv[i as int]));
            assert(lsv.take(i + 1).map_values(|l: Seq<char>| "    "@ + l) =~~= lsv.take(
                i as int,
            ).map_values(|l: Seq<char>| "    "@ + l).push("    "@ + lsv[i as int]));
        }
        i = i + 1;
    }
    proof {
        let lsv = ls@.map_values(|l: String| l@);
        assert(lsv.take(n as int) =~~= lsv);
    }
    join(&padded, "\n")
}

/// The carriage-return/newline pair.
pub open spec fn crlf() -> Seq<char> {
    seq!['\r', '\n']
}

/// `s` with every carriage-return/newline pair replaced by a newline.
pub open spec fn normalized(s: Seq<char>) -> Seq<char> {
    replaced(s, crlf(), seq!['\n'])
}

/// Normalize line boundaries from "\r\n" to "\n", so that `^` and `$`
/// in a multi-line pattern match them on every platform.
pub fn normalize_line_endings(text: &str) -> (r: String)
    ensures
        r@ == normalized(text@),
{
    proof {
        reveal_strlit("\r\n");
        reveal_strlit("\n");
        assert("\r\n"@ =~= crlf());
        assert("\n"@ =~= seq!['\n']);
    }
    replace_all(text, "\r\n", "\n")
}

/// No carriage return occurs in `s`.
pub open spec fn has_no_cr(s: Seq<char>) -> bool {
    forall|i: int| 0 <= i < s.len() ==> s[i] != '\r'
}

/// Replacement of a pattern that never occurs leaves the text unchanged.
proof fn lemma_replaced_absent(t: Seq<char>, p: Seq<char>, r: Seq<char>)
    requires
        !occurs(t, p),
        p.len() > 0,
    ensures
        replaced(t, p, r) == t,
    decreases t.len(),
{
    if t.len() < p.len() {
    } else {
        assert(!occurs_at(t, p, 0));
        assert(t.subrange(0, p.len() as int) != p);
        assert(!occurs(t.skip(1), p)) by {
            if occurs(t.skip(1), p) {
                let i = choose|i: int| occurs_at(t.skip(1), p, i);
                assert(t.subrange(i + 1, i + 1 + p.len()) =~= t.skip(1).subrange(i, i + p.len()));
                assert(occurs_at(t, p, i + 1));
            }
        }
        lemma_replaced_absent(t.skip(1), p, r);
        assert(seq![t[0]] + t.skip(1) =~= t);
    }
}

/// Every carriage return in `s` is immediately followed by a newline.
pub open spec fn cr_always_paired(s: Seq<char>) -> bool {
    forall|i: int| 0 <= i < s.len() && #[trigger] s[i] == '\r' ==> i + 1 < s.len() && s[i + 1]
        == '\n'
}

proof fn lemma_normalized_no_cr(s: Seq<char>)
    requires
        cr_always_paired(s),
    ensures
        has_no_cr(normalized(s)),
    decreases s.len(),
{
    if s.len() < 2 {
        assert(forall|i: int| 0 <= i < s.len() ==> s[i] != '\r');
    } else if s.subrange(0, 2) == crlf() {
        assert(cr_always_paired(s.skip(2))) by {
            assert(forall|i: int|
                0 <= i < s.skip(2).len() && s.skip(2)[i] == '\r' ==> s[i + 2] == '\r');
        }
        lemma_normalized_no_cr(s.skip(2));
        assert(normalized(s) == seq!['\n'] + normalized(s.skip(2)));
    } else {
        assert(s[0] != '\r') by {
            if s[0] == '\r' {
                assert(s[1] == '\n');
                assert(s.subrange(0, 2) =~= crlf());
            }
        }
        assert(cr_always_paired(s.skip(1))) by {
            assert(forall|i: int|
                0 <= i < s.skip(1).len() && s.skip(1)[i] == '\r' ==> s[i + 1] == '\r' && i + 2
                    < s.len() && s[i + 2] == '\n');
        }
        lemma_normalized_no_cr(s.skip(1));
        assert(normalized(s) == seq![s[0]] + normalized(s.skip(1)));
    }
}

/// Normalizing line endings is idempotent: on text whose every carriage
/// return comes immediately before a newline, one pass removes every
/// carriage return, and a second pass changes nothing.
pub proof fn lemma_normalized_idempotent(s: Seq<char>)
    requires
        cr_always_paired(s),
    ensures
        has_no_cr(normalized(s)),
        normalized(normalized(s)) == normalized(s),
{
    lemma_normalized_no_cr(s);
    let t = normalized(s);
    assert(!occurs(t, crlf())) by {
        if occurs(t, crlf()) {
            let i = choose|i: int| occurs_at(t, crlf(), i);
            assert(t.subrange(i, i + 2)[0] == t[i]);
            assert(t[i] == '\r');
        }
    }
    lemma_replaced_absent(t, crlf(), seq!['\n']);
}

/// 1-based line number of the position right after `prefix`: one more
/// than the number of newlines in `prefix`.
pub open spec fn line_after(prefix: Seq<char>) -> nat {
    count_char(prefix, '\n') + 1
}

} // verus!

verus! {

/// Whether two character vectors hold the same characters.
pub fn vec_eq(a: &Vec<char>, b: &Vec<char>) -> (r: bool)
    ensures
        r == (a@ == b@),
{
    let na = a.len();
    let nb = b.len();
    if na != nb {
        return false;
    }
    let mut i: usize = 0;
    while i < na
        invariant
            i <= na,
            na == a@.len(),
            na == b@.len(),
            forall|k: int| 0 <= k < i ==> a@[k] == b@[k],
        decreases na - i,
    {
        if a[i] != b[i] {
            return false;
        }
        i = i + 1;
    }
    proof {
        assert(a@ =~= b@);
    }
    true
}

} // verus!
