//! Text primitives over character sequences: joining, splitting, replacing.
use vstd::prelude::*;

verus! {

/// The character sequences that a list of strings holds.
pub open spec fn views(v: Seq<String>) -> Seq<Seq<char>> {
    v.map_values(|s: String| s@)
}

/// `parts` with `sep` between each two consecutive ones.
pub open spec fn joined(parts: Seq<Seq<char>>, sep: Seq<char>) -> Seq<char>
    decreases parts.len(),
{
    if parts.len() == 0 {
        Seq::empty()
    } else if parts.len() == 1 {
        parts[0]
    } else {
        joined(parts.drop_last(), sep) + sep + parts.last()
    }
}

/// Whether `pat` occurs in `s` starting at position `i`.
pub open spec fn occurs_at(s: Seq<char>, pat: Seq<char>, i: int) -> bool {
    0 <= i && i + pat.len() <= s.len() && s.subrange(i, i + pat.len()) == pat
}

/// `s` from position `i` on, with each leftmost non-overlapping occurrence of `pat`
/// replaced by `rep`.
pub open spec fn replaced_from(s: Seq<char>, pat: Seq<char>, rep: Seq<char>, i: int) -> Seq<char>
    decreases s.len() - i,
{
    if i < 0 || i >= s.len() || pat.len() == 0 {
        s.subrange(if 0 <= i <= s.len() { i } else { s.len() as int }, s.len() as int)
    } else if occurs_at(s, pat, i) {
        rep + replaced_from(s, pat, rep, i + pat.len())
    } else {
        seq![s[i]] + replaced_from(s, pat, rep, i + 1)
    }
}

/// `s` with each leftmost non-overlapping occurrence of a non-empty `pat` replaced by
/// `rep`.
pub open spec fn replaced(s: Seq<char>, pat: Seq<char>, rep: Seq<char>) -> Seq<char> {
    replaced_from(s, pat, rep, 0)
}

/// The pieces of `s` from position `i` on, cut at each leftmost non-overlapping
/// occurrence of `sep`; `cur` is the piece begun before `i`.
pub open spec fn split_from(s: Seq<char>, sep: Seq<char>, i: int, cur: Seq<char>) -> Seq<
    Seq<char>,
>
    decreases s.len() - i,
{
    if i < 0 || i >= s.len() || sep.len() == 0 {
        seq![cur]
    } else if occurs_at(s, sep, i) {
        seq![cur] + split_from(s, sep, i + sep.len(), Seq::empty())
    } else {
        split_from(s, sep, i + 1, cur.push(s[i]))
    }
}

/// The pieces of `s` between the leftmost non-overlapping occurrences of a non-empty
/// `sep`; there is always at least one.
pub open spec fn split(s: Seq<char>, sep: Seq<char>) -> Seq<Seq<char>> {
    split_from(s, sep, 0, Seq::empty())
}

/// The decimal digit for `d` below ten.
pub open spec fn digit_char(d: nat) -> char {
    if d == 0 {
        '0'
    } else if d == 1 {
        '1'
    } else if d == 2 {
        '2'
    } else if d == 3 {
        '3'
    } else if d == 4 {
        '4'
    } else if d == 5 {
        '5'
    } else if d == 6 {
        '6'
    } else if d == 7 {
        '7'
    } else if d == 8 {
        '8'
    } else {
        '9'
    }
}

/// The decimal numeral of `n`, without leading zeros.
pub open spec fn decimal(n: nat) -> Seq<char>
    decreases n,
{
    if n < 10 {
        seq![digit_char(n)]
    } else {
        decimal(n / 10).push(digit_char(n % 10))
    }
}

proof fn lemma_joined_step(parts: Seq<String>, sep: Seq<char>, i: int)
    requires
        0 <= i < parts.len(),
    ensures
        joined(views(parts.take(i + 1)), sep) == if i == 0 {
            parts[0]@
        } else {
            joined(views(parts.take(i)), sep) + sep + parts[i]@
        },
{
    assert(views(parts.take(i + 1)).drop_last() =~= views(parts.take(i)));
}

/// `parts` joined with `sep` between each two consecutive ones.
pub fn join(parts: &Vec<String>, sep: &str) -> (r: String)
    ensures
        r@ == joined(views(parts@), sep@),
{
    let mut r = String::new();
    let mut i: usize = 0;
    while i < parts.len()
        invariant
            i <= parts.len(),
            r@ == joined(views(parts@.take(i as int)), sep@),
        decreases parts.len() - i,
    {
        proof {
            lemma_joined_step(parts@, sep@, i as int);
        }
        if i > 0 {
            r.append(sep);
        }
        r.append(parts[i].as_str());
        i += 1;
    }
    assert(parts@.take(parts.len() as int) =~= parts@);
    r
}

/// Whether `pat` occurs in `s` at character position `i`.
pub fn matches_at(s: &str, pat: &str, i: usize) -> (r: bool)
    ensures
        r == occurs_at(s@, pat@, i as int),
{
    let n = s.unicode_len();
    let m = pat.unicode_len();
    if i > n || m > n - i {
        return false;
    }
    let mut k: usize = 0;
    while k < m
        invariant
            i + m <= n == s@.len(),
            m == pat@.len(),
            k <= m,
            forall|j: int| 0 <= j < k ==> s@[i + j] == pat@[j],
        decreases m - k,
    {
        if s.get_char(i + k) != pat.get_char(k) {
            assert(s@.subrange(i as int, i + m)[k as int] != pat@[k as int]);
            return false;
        }
        k += 1;
    }
    assert(s@.subrange(i as int, i + m) =~= pat@);
    true
}

/// `s` with each leftmost non-overlapping occurrence of `pat` replaced by `rep`.
pub fn replace_all(s: &str, pat: &str, rep: &str) -> (r: String)
    requires
        pat@.len() > 0,
    ensures
        r@ == replaced(s@, pat@, rep@),
{
    let n = s.unicode_len();
    let m = pat.unicode_len();
    let mut r = String::new();
    let mut i: usize = 0;
    while i < n
        invariant
            n == s@.len(),
            m == pat@.len() > 0,
            i <= n,
            r@ + replaced_from(s@, pat@, rep@, i as int) == replaced(s@, pat@, rep@),
        decreases n - i,
    {
        if matches_at(s, pat, i) {
            r.append(rep);
            assert(r@ + replaced_from(s@, pat@, rep@, (i + m) as int) =~= replaced(s@, pat@, rep@));
            i = i + m;
        } else {
            r.append(s.substring_char(i, i + 1));
            assert(r@ + replaced_from(s@, pat@, rep@, (i + 1) as int) =~= replaced(s@, pat@, rep@));
            i = i + 1;
        }
    }
    assert(replaced_from(s@, pat@, rep@, i as int) =~= Seq::<char>::empty());
    assert(r@ =~= replaced(s@, pat@, rep@));
    r
}

/// The pieces of `s` between the leftmost non-overlapping occurrences of `sep`.
pub fn split_on(s: &str, sep: &str) -> (r: Vec<String>)
    requires
        sep@.len() > 0,
    ensures
        views(r@) == split(s@, sep@),
{
    let n = s.unicode_len();
    let m = sep.unicode_len();
    let mut r: Vec<String> = Vec::new();
    let mut cur = String::new();
    let mut i: usize = 0;
    while i < n
        invariant
            n == s@.len(),
            m == sep@.len() > 0,
            i <= n,
            views(r@) + split_from(s@, sep@, i as int, cur@) == split(s@, sep@),
        decreases n - i,
    {
        if matches_at(s, sep, i) {
            let ghost before = views(r@);
            let ghost piece = cur@;
            r.push(cur);
            cur = String::new();
            assert(views(r@) =~= before.push(piece));
            assert(views(r@) + split_from(s@, sep@, (i + m) as int, cur@) =~= before + split_from(
                s@,
                sep@,
                i as int,
                piece,
            ));
            i = i + m;
        } else {
            let ghost piece = cur@;
            cur.append(s.substring_char(i, i + 1));
            assert(cur@ =~= piece.push(s@[i as int]));
            i = i + 1;
        }
    }
    let ghost before = views(r@);
    let ghost piece = cur@;
    r.push(cur);
    assert(views(r@) =~= before.push(piece));
    assert(views(r@) =~= before + split_from(s@, sep@, i as int, piece));
    r
}

/// Whether `s` begins with `prefix`.
pub fn starts_with(s: &str, prefix: &str) -> (r: bool)
    ensures
        r == (prefix@.len() <= s@.len() && s@.subrange(0, prefix@.len() as int) == prefix@),
{
    matches_at(s, prefix, 0)
}

/// The decimal digit for `d`.
fn digit_text(d: usize) -> (r: &'static str)
    requires
        d < 10,
    ensures
        r@ == seq![digit_char(d as nat)],
{
    let digits = "0123456789";
    proof {
        reveal_strlit("0123456789");
    }
    digits.substring_char(d, d + 1)
}

/// The decimal numeral of `n`, as `usize::to_string` writes it.
pub fn decimal_text(n: usize) -> (r: String)
    ensures
        r@ == decimal(n as nat),
    decreases n,
{
    if n < 10 {
        String::from_str(digit_text(n))
    } else {
        let mut r = decimal_text(n / 10);
        r.append(digit_text(n % 10));
        r
    }
}

/// The character sequence an optional string holds, if any.
pub open spec fn opt_view(o: Option<String>) -> Option<Seq<char>> {
    match o {
        Some(s) => Some(s@),
        None => None,
    }
}

/// A copy of a list of strings.
pub fn clone_strings(v: &Vec<String>) -> (r: Vec<String>)
    ensures
        views(r@) == views(v@),
{
    let mut r: Vec<String> = Vec::new();
    let mut i: usize = 0;
    while i < v.len()
        invariant
            i <= v.len(),
            views(r@) == views(v@.take(i as int)),
        decreases v.len() - i,
    {
        let ghost before = r@;
        let s = v[i].clone();
        r.push(s);
        assert(views(r@) =~= views(before).push(v@[i as int]@));
        assert(views(r@) =~= views(v@.take(i + 1)));
        i += 1;
    }
    assert(v@.take(v.len() as int) =~= v@);
    r
}

/// A copy of an optional string.
pub fn clone_option(o: &Option<String>) -> (r: Option<String>)
    ensures
        opt_view(r) == opt_view(*o),
{
    match o {
        Some(s) => Some(s.clone()),
        None => None,
    }
}

/// `parent` with `name` appended.
pub fn child_path(parent: &Vec<String>, name: String) -> (r: Vec<String>)
    ensures
        views(r@) == views(parent@).push(name@),
{
    let mut r = clone_strings(parent);
    let ghost before = r@;
    r.push(name);
    assert(views(r@) =~= views(before).push(name@));
    r
}

/// Whether the character `c` occurs in none of `parts`.
pub open spec fn free_of(parts: Seq<Seq<char>>, c: char) -> bool {
    forall|i: int, j: int| 0 <= i < parts.len() && 0 <= j < parts[i].len() ==> #[trigger] parts[i][j] != c
}

proof fn lemma_split_over_word(s: Seq<char>, sep: Seq<char>, i: int, cur: Seq<char>, w: Seq<char>)
    requires
        sep.len() > 0,
        0 <= i,
        i + w.len() <= s.len(),
        s.subrange(i, i + w.len()) == w,
        forall|j: int| 0 <= j < w.len() ==> #[trigger] w[j] != sep[0],
    ensures
        split_from(s, sep, i, cur) == split_from(s, sep, i + w.len(), cur + w),
    decreases w.len(),
{
    if w.len() == 0 {
        assert(cur + w =~= cur);
    } else {
        assert(s[i] == s.subrange(i, i + w.len())[0]);
        if occurs_at(s, sep, i) {
            assert(s.subrange(i, i + sep.len())[0] == s[i]);
        }
        assert(s.subrange(i + 1, i + w.len()) =~= w.drop_first());
        lemma_split_over_word(s, sep, i + 1, cur.push(s[i]), w.drop_first());
        assert(cur.push(s[i]) + w.drop_first() =~= cur + w);
    }
}

proof fn lemma_joined_front(parts: Seq<Seq<char>>, sep: Seq<char>)
    requires
        parts.len() >= 2,
    ensures
        joined(parts, sep) == parts[0] + sep + joined(parts.drop_first(), sep),
    decreases parts.len(),
{
    if parts.len() == 2 {
        assert(joined(parts.drop_last(), sep) == parts[0]);
        assert(joined(parts.drop_first(), sep) == parts[1]);
        assert(parts.last() == parts[1]);
    } else {
        lemma_joined_front(parts.drop_last(), sep);
        assert(parts.drop_last().drop_first() =~= parts.drop_first().drop_last());
        assert(parts.drop_first().last() == parts.last());
        assert(parts.drop_last()[0] == parts[0]);
        assert(joined(parts.drop_first(), sep) == joined(parts.drop_first().drop_last(), sep) + sep
            + parts.drop_first().last());
        assert(parts[0] + sep + joined(parts.drop_last().drop_first(), sep) + sep + parts.last()
            =~= parts[0] + sep + (joined(parts.drop_first().drop_last(), sep) + sep
            + parts.drop_first().last()));
    }
}

proof fn lemma_split_joined_from(s: Seq<char>, sep: Seq<char>, i: int, parts: Seq<Seq<char>>)
    requires
        sep.len() > 0,
        parts.len() >= 1,
        free_of(parts, sep[0]),
        0 <= i <= s.len(),
        s.subrange(i, s.len() as int) == joined(parts, sep),
    ensures
        split_from(s, sep, i, Seq::empty()) == parts,
    decreases parts.len(),
{
    let w = parts[0];
    assert forall|j: int| 0 <= j < w.len() implies #[trigger] w[j] != sep[0] by {
        assert(parts[0][j] != sep[0]);
    }
    if parts.len() == 1 {
        assert(s.subrange(i, i + w.len()) =~= w);
        lemma_split_over_word(s, sep, i, Seq::empty(), w);
        assert(Seq::<char>::empty() + w =~= w);
        assert(parts =~= seq![w]);
    } else {
        lemma_joined_front(parts, sep);
        let rest = joined(parts.drop_first(), sep);
        let tail = s.subrange(i, s.len() as int);
        assert(tail == w + sep + rest);
        assert(s.subrange(i, i + w.len()) =~= tail.subrange(0, w.len() as int));
        assert(tail.subrange(0, w.len() as int) =~= w);
        lemma_split_over_word(s, sep, i, Seq::empty(), w);
        let j = i + w.len();
        assert(s.subrange(j, j + sep.len()) =~= tail.subrange(w.len() as int, (w.len() + sep.len()) as int));
        assert(tail.subrange(w.len() as int, (w.len() + sep.len()) as int) =~= sep);
        assert(occurs_at(s, sep, j));
        assert(Seq::<char>::empty() + w =~= w);
        assert(s.subrange(j + sep.len(), s.len() as int) =~= tail.subrange(
            (w.len() + sep.len()) as int,
            tail.len() as int,
        ));
        assert(tail.subrange((w.len() + sep.len()) as int, tail.len() as int) =~= rest);
        assert forall|a: int, b: int|
            0 <= a < parts.drop_first().len() && 0 <= b < parts.drop_first()[a].len() implies #[trigger] parts.drop_first()[a][b]
            != sep[0] by {
            assert(parts.drop_first()[a] == parts[a + 1]);
            assert(parts[a + 1][b] != sep[0]);
        }
        lemma_split_joined_from(s, sep, j + sep.len(), parts.drop_first());
        assert(seq![w] + parts.drop_first() =~= parts);
    }
}

/// Splitting a non-empty list of parts joined with `sep` gives the parts back, when
/// no part holds the first character of `sep`.
pub proof fn lemma_split_joined(parts: Seq<Seq<char>>, sep: Seq<char>)
    requires
        sep.len() > 0,
        parts.len() >= 1,
        free_of(parts, sep[0]),
    ensures
        split(joined(parts, sep), sep) == parts,
{
    let s = joined(parts, sep);
    assert(s.subrange(0, s.len() as int) =~= s);
    lemma_split_joined_from(s, sep, 0, parts);
}

} // verus!
