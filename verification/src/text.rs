//! Text operations with the meaning of `str::replace` and `str::split` for a
//! non-empty pattern, stated over character sequences.

use vstd::prelude::*;

verus! {

/// `pat` occurs in `s` at position `i`.
pub open spec fn occurs_at(s: Seq<char>, i: int, pat: Seq<char>) -> bool {
    0 <= i && i + pat.len() <= s.len() && s.subrange(i, i + pat.len()) == pat
}

/// Every non-overlapping occurrence of `pat`, scanning from the left, replaced by `to`.
pub open spec fn replaced(s: Seq<char>, pat: Seq<char>, to: Seq<char>) -> Seq<char>
    decreases s.len(),
{
    if s.len() == 0 {
        s
    } else if pat.len() > 0 && occurs_at(s, 0, pat) {
        to + replaced(s.skip(pat.len() as int), pat, to)
    } else {
        seq![s[0]] + replaced(s.skip(1), pat, to)
    }
}

/// Puts `c` in front of the first segment of `segs`.
pub open spec fn prepend_first(c: Seq<char>, segs: Seq<Seq<char>>) -> Seq<Seq<char>> {
    segs.update(0, c + segs[0])
}

/// The segments of `s` between the non-overlapping occurrences of `pat`, from the left.
pub open spec fn split_on(s: Seq<char>, pat: Seq<char>) -> Seq<Seq<char>>
    decreases s.len(),
{
    if s.len() == 0 {
        seq![Seq::<char>::empty()]
    } else if pat.len() > 0 && occurs_at(s, 0, pat) {
        seq![Seq::<char>::empty()] + split_on(s.skip(pat.len() as int), pat)
    } else {
        prepend_first(seq![s[0]], split_on(s.skip(1), pat))
    }
}

/// The views of a sequence of strings.
pub open spec fn string_views(v: Seq<String>) -> Seq<Seq<char>> {
    v.map_values(|s: String| s@)
}

pub proof fn lemma_split_nonempty(s: Seq<char>, pat: Seq<char>)
    ensures
        split_on(s, pat).len() >= 1,
    decreases s.len(),
{
    if s.len() == 0 {
    } else if pat.len() > 0 && occurs_at(s, 0, pat) {
        lemma_split_nonempty(s.skip(pat.len() as int), pat);
    } else {
        lemma_split_nonempty(s.skip(1), pat);
    }
}

/// The characters of `s`, one per element.
pub fn char_vec(s: &str) -> (v: Vec<char>)
    ensures
        v@ == s@,
{
    let n = s.unicode_len();
    let mut v: Vec<char> = Vec::new();
    for i in 0..n
        invariant
            n == s@.len(),
            v@ == s@.take(i as int),
    {
        let c = s.get_char(i);
        v.push(c);
        assert(v@ =~= s@.take(i + 1));
    }
    assert(v@ =~= s@);
    v
}

/// Whether `pat` occurs in `text` at position `i`.
pub fn occurs_at_exec(text: &Vec<char>, i: usize, pat: &Vec<char>) -> (r: bool)
    ensures
        r == occurs_at(text@, i as int, pat@),
{
    if pat.len() > text.len() || i > text.len() - pat.len() {
        return false;
    }
    let mut j: usize = 0;
    while j < pat.len()
        invariant
            i + pat@.len() <= text.len(),
            j <= pat@.len(),
            forall|k: int| 0 <= k < j ==> text@[i + k] == pat@[k],
        decreases pat@.len() - j,
    {
        if text[i + j] != pat[j] {
            assert(text@.subrange(i as int, i + pat@.len())[j as int] != pat@[j as int]);
            return false;
        }
        j = j + 1;
    }
    assert(text@.subrange(i as int, i + pat@.len()) =~= pat@);
    true
}

/// `s` with every non-overlapping occurrence of `pat` replaced by `to`, as `str::replace` does.
pub fn replace_all(s: &str, pat: &str, to: &str) -> (res: String)
    requires
        pat@.len() > 0,
    ensures
        res@ == replaced(s@, pat@, to@),
{
    let text = char_vec(s);
    let p = char_vec(pat);
    let n = text.len();
    let m = p.len();
    let mut res = String::new();
    let mut i: usize = 0;
    assert(s@.skip(0) =~= s@);
    while i < n
        invariant
            text@ == s@,
            p@ == pat@,
            n == s@.len(),
            m == pat@.len(),
            m > 0,
            i <= n,
            replaced(s@, pat@, to@) == res@ + replaced(s@.skip(i as int), pat@, to@),
        decreases n - i,
    {
        let rest: Ghost<Seq<char>> = Ghost(s@.skip(i as int));
        if occurs_at_exec(&text, i, &p) {
            assert(rest@.subrange(0, m as int) =~= s@.subrange(i as int, i + m));
            assert(occurs_at(rest@, 0, pat@));
            assert(rest@.skip(m as int) =~= s@.skip(i + m));
            res.append(to);
            i = i + m;
        } else {
            assert(!occurs_at(rest@, 0, pat@)) by {
                if occurs_at(rest@, 0, pat@) {
                    assert(rest@.subrange(0, m as int) =~= s@.subrange(i as int, i + m));
                }
            }
            assert(rest@.skip(1) =~= s@.skip(i + 1));
            let one = s.substring_char(i, i + 1);
            assert(one@ =~= seq![rest@[0]]);
            res.append(one);
            i = i + 1;
        }
        assert(res@ + replaced(s@.skip(i as int), pat@, to@) =~= replaced(s@, pat@, to@));
    }
    assert(s@.skip(n as int) =~= Seq::<char>::empty());
    assert(res@ =~= replaced(s@, pat@, to@));
    res
}

/// The segments of `s` separated by `pat`, as `str::split` yields them.
pub fn split_by(s: &str, pat: &str) -> (parts: Vec<String>)
    requires
        pat@.len() > 0,
    ensures
        string_views(parts@) == split_on(s@, pat@),
{
    let text = char_vec(s);
    let p = char_vec(pat);
    let n = text.len();
    let m = p.len();
    let mut parts: Vec<String> = Vec::new();
    let mut start: usize = 0;
    let mut i: usize = 0;
    assert(s@.skip(0) =~= s@);
    assert(s@.subrange(0, 0) =~= Seq::<char>::empty());
    proof {
        lemma_split_nonempty(s@, pat@);
        assert(prepend_first(Seq::<char>::empty(), split_on(s@, pat@)) =~= split_on(s@, pat@));
    }
    while i < n
        invariant
            text@ == s@,
            p@ == pat@,
            n == s@.len(),
            m == pat@.len(),
            m > 0,
            start <= i <= n,
            split_on(s@, pat@) == string_views(parts@) + prepend_first(
                s@.subrange(start as int, i as int),
                split_on(s@.skip(i as int), pat@),
            ),
        decreases n - i,
    {
        let ghost rest = s@.skip(i as int);
        let ghost cur = s@.subrange(start as int, i as int);
        let ghost before = string_views(parts@);
        proof {
            lemma_split_nonempty(rest, pat@);
        }
        if occurs_at_exec(&text, i, &p) {
            assert(rest.subrange(0, m as int) =~= s@.subrange(i as int, i + m));
            assert(occurs_at(rest, 0, pat@));
            assert(rest.skip(m as int) =~= s@.skip(i + m));
            let piece = String::from_str(s.substring_char(start, i));
            parts.push(piece);
            i = i + m;
            start = i;
            proof {
                let tail = split_on(s@.skip(i as int), pat@);
                lemma_split_nonempty(s@.skip(i as int), pat@);
                assert(s@.subrange(start as int, i as int) =~= Seq::<char>::empty());
                assert(prepend_first(Seq::<char>::empty(), tail) =~= tail);
                assert(string_views(parts@) =~= before.push(cur));
                assert(prepend_first(cur, seq![Seq::<char>::empty()] + tail) =~= seq![cur] + tail);
                assert(before + (seq![cur] + tail) =~= before.push(cur) + tail);
            }
        } else {
            assert(!occurs_at(rest, 0, pat@)) by {
                if occurs_at(rest, 0, pat@) {
                    assert(rest.subrange(0, m as int) =~= s@.subrange(i as int, i + m));
                }
            }
            assert(rest.skip(1) =~= s@.skip(i + 1));
            i = i + 1;
            proof {
                let tail = split_on(s@.skip(i as int), pat@);
                lemma_split_nonempty(s@.skip(i as int), pat@);
                assert(s@.subrange(start as int, i as int) =~= cur + seq![rest[0]]);
                assert(cur + (seq![rest[0]] + tail[0]) =~= (cur + seq![rest[0]]) + tail[0]);
                assert(prepend_first(cur, prepend_first(seq![rest[0]], tail)) =~= prepend_first(
                    cur + seq![rest[0]],
                    tail,
                ));
            }
        }
    }
    let last = String::from_str(s.substring_char(start, n));
    let ghost before = string_views(parts@);
    parts.push(last);
    proof {
        assert(s@.skip(n as int) =~= Seq::<char>::empty());
        assert(prepend_first(s@.subrange(start as int, n as int), seq![Seq::<char>::empty()])
            =~= seq![s@.subrange(start as int, n as int)]);
        assert(string_views(parts@) =~= before.push(s@.subrange(start as int, n as int)));
    }
    parts
}

} // verus!
