//! Small verified string utilities: prefix tests, whitespace tokenization,
//! trimming, repeated prefix stripping and separator splitting.
//!
//! All specifications are stated over `Seq<char>` views.

use vstd::prelude::*;

verus! {

/// The whitespace characters recognized when splitting words.
pub open spec fn is_ws_char(c: char) -> bool {
    c == ' ' || c == '\t' || c == '\n' || c == '\r'
}

/// Whether `p` is a prefix of `s`.
pub open spec fn spec_has_prefix(s: Seq<char>, p: Seq<char>) -> bool {
    p.len() <= s.len() && s.subrange(0, p.len() as int) == p
}

/// Executable whitespace test, matching `is_ws_char`.
pub fn is_ws(c: char) -> (r: bool)
    ensures
        r == is_ws_char(c),
{
    c == ' ' || c == '\t' || c == '\n' || c == '\r'
}

/// Whether the string `s` starts with `p`.
pub fn has_prefix(s: &str, p: &str) -> (r: bool)
    ensures
        r == spec_has_prefix(s@, p@),
{
    let n: usize = s.unicode_len();
    let pn: usize = p.unicode_len();
    if pn > n {
        return false;
    }
    let mut i: usize = 0;
    while i < pn
        invariant
            i <= pn <= n,
            n == s@.len(),
            pn == p@.len(),
            forall|j: int| 0 <= j < i ==> s@[j] == p@[j],
        decreases pn - i,
    {
        if s.get_char(i) != p.get_char(i) {
            assert(s@.subrange(0, pn as int)[i as int] != p@[i as int]);
            return false;
        }
        i += 1;
    }
    assert(s@.subrange(0, pn as int) =~= p@);
    true
}

/// Length of the leading run of non-whitespace characters.
pub open spec fn run_len(s: Seq<char>) -> int
    decreases s.len(),
{
    if s.len() == 0 || is_ws_char(s[0]) {
        0
    } else {
        1 + run_len(s.drop_first())
    }
}

/// Length of the leading run of whitespace characters.
pub open spec fn ws_run_len(s: Seq<char>) -> int
    decreases s.len(),
{
    if s.len() == 0 || !is_ws_char(s[0]) {
        0
    } else {
        1 + ws_run_len(s.drop_first())
    }
}

pub proof fn lemma_run_len_bounds(s: Seq<char>)
    ensures
        0 <= run_len(s) <= s.len(),
        forall|i: int| 0 <= i < run_len(s) ==> !is_ws_char(s[i]),
        run_len(s) < s.len() ==> is_ws_char(s[run_len(s)]),
    decreases s.len(),
{
    if s.len() == 0 || is_ws_char(s[0]) {
    } else {
        lemma_run_len_bounds(s.drop_first());
        assert forall|i: int| 0 <= i < run_len(s) implies !is_ws_char(s[i]) by {
            if i > 0 {
                assert(s.drop_first()[i - 1] == s[i]);
            }
        }
        if run_len(s) < s.len() {
            assert(s.drop_first()[run_len(s) - 1] == s[run_len(s)]);
        }
    }
}

/// `run_len` is determined by any witness index `d` that bounds the run.
pub proof fn lemma_run_len_is(s: Seq<char>, d: int)
    requires
        0 <= d <= s.len(),
        forall|i: int| 0 <= i < d ==> !is_ws_char(s[i]),
        d < s.len() ==> is_ws_char(s[d]),
    ensures
        run_len(s) == d,
    decreases s.len(),
{
    if s.len() == 0 || is_ws_char(s[0]) {
    } else {
        assert(d >= 1);
        assert forall|i: int| 0 <= i < d - 1 implies !is_ws_char(s.drop_first()[i]) by {
            assert(s.drop_first()[i] == s[i + 1]);
        }
        if d - 1 < s.drop_first().len() {
            assert(s.drop_first()[d - 1] == s[d]);
        }
        lemma_run_len_is(s.drop_first(), d - 1);
    }
}

pub proof fn lemma_ws_run_len_is(s: Seq<char>, d: int)
    requires
        0 <= d <= s.len(),
        forall|i: int| 0 <= i < d ==> is_ws_char(s[i]),
        d < s.len() ==> !is_ws_char(s[d]),
    ensures
        ws_run_len(s) == d,
    decreases s.len(),
{
    if s.len() == 0 || !is_ws_char(s[0]) {
    } else {
        assert(d >= 1);
        assert forall|i: int| 0 <= i < d - 1 implies is_ws_char(s.drop_first()[i]) by {
            assert(s.drop_first()[i] == s[i + 1]);
        }
        if d - 1 < s.drop_first().len() {
            assert(s.drop_first()[d - 1] == s[d]);
        }
        lemma_ws_run_len_is(s.drop_first(), d - 1);
    }
}

/// The whitespace-separated words of `s`, in order, without empties.
pub open spec fn spec_tokens(s: Seq<char>) -> Seq<Seq<char>>
    decreases s.len(),
    via spec_tokens_decreases
{
    if s.len() == 0 {
        Seq::empty()
    } else if is_ws_char(s[0]) {
        spec_tokens(s.drop_first())
    } else {
        seq![s.take(run_len(s))] + spec_tokens(s.skip(run_len(s)))
    }
}

#[via_fn]
proof fn spec_tokens_decreases(s: Seq<char>) {
    if s.len() > 0 && !is_ws_char(s[0]) {
        lemma_run_len_bounds(s.drop_first());
    }
}

/// Tokenization ignores a leading whitespace character.
proof fn lemma_tokens_skip_ws(s: Seq<char>, i: int)
    requires
        0 <= i < s.len(),
        is_ws_char(s[i]),
    ensures
        spec_tokens(s.skip(i)) == spec_tokens(s.skip(i + 1)),
{
    assert(s.skip(i)[0] == s[i]);
    assert(s.skip(i).drop_first() =~= s.skip(i + 1));
}

/// Tokenization at a non-whitespace position takes the whole word.
proof fn lemma_tokens_take_word(s: Seq<char>, i: int, j: int)
    requires
        0 <= i < j <= s.len(),
        forall|k: int| i <= k < j ==> !is_ws_char(s[k]),
        j < s.len() ==> is_ws_char(s[j]),
    ensures
        spec_tokens(s.skip(i)) == seq![s.subrange(i, j)] + spec_tokens(s.skip(j)),
{
    let t = s.skip(i);
    assert forall|k: int| 0 <= k < j - i implies !is_ws_char(t[k]) by {
        assert(t[k] == s[i + k]);
    }
    if j - i < t.len() {
        assert(t[j - i] == s[j]);
    }
    lemma_run_len_is(t, j - i);
    assert(!is_ws_char(t[0]));
    assert(t.take(j - i) =~= s.subrange(i, j));
    assert(t.skip(j - i) =~= s.skip(j));
}

/// Split `s` into its whitespace-separated words.
pub fn split_tokens(s: &str) -> (v: Vec<String>)
    ensures
        v.deep_view() == spec_tokens(s@),
{
    let n: usize = s.unicode_len();
    let mut v: Vec<String> = Vec::new();
    let mut i: usize = 0;
    proof {
        assert(s@.skip(0) =~= s@);
        assert(v.deep_view() =~= Seq::<Seq<char>>::empty());
        assert(v.deep_view() + spec_tokens(s@) =~= spec_tokens(s@));
    }
    while i < n
        invariant
            i <= n,
            n == s@.len(),
            spec_tokens(s@) == v.deep_view() + spec_tokens(s@.skip(i as int)),
        decreases n - i,
    {
        let c = s.get_char(i);
        if is_ws(c) {
            proof {
                lemma_tokens_skip_ws(s@, i as int);
            }
            i += 1;
        } else {
            let mut j: usize = i + 1;
            assert(forall|k: int| i <= k < i + 1 ==> !is_ws_char(s@[k]));
            loop
                invariant_except_break
                    i < j <= n,
                    n == s@.len(),
                    forall|k: int| i <= k < j ==> !is_ws_char(s@[k]),
                ensures
                    i < j <= n,
                    forall|k: int| i <= k < j ==> !is_ws_char(s@[k]),
                    j < n ==> is_ws_char(s@[j as int]),
                decreases n - j,
            {
                if j == n {
                    break;
                }
                if is_ws(s.get_char(j)) {
                    break;
                }
                j += 1;
            }
            let word = s.substring_char(i, j);
            proof {
                lemma_tokens_take_word(s@, i as int, j as int);
            }
            let ghost old_v = v.deep_view();
            v.push(String::from_str(word));
            proof {
                assert(v.deep_view() =~= old_v.push(s@.subrange(i as int, j as int)));
                assert(v.deep_view() + spec_tokens(s@.skip(j as int)) =~= old_v + (seq![
                    s@.subrange(i as int, j as int),
                ] + spec_tokens(s@.skip(j as int))));
            }
            i = j;
        }
    }
    proof {
        assert(s@.skip(n as int) =~= Seq::<char>::empty());
        assert(v.deep_view() =~= v.deep_view() + spec_tokens(s@.skip(n as int)));
    }
    v
}

/// The word at index `n` of `s`, if there are more than `n` words.
pub fn nth_token(s: &str, n: usize) -> (r: Option<String>)
    ensures
        r is Some <==> n < spec_tokens(s@).len(),
        r is Some ==> r->Some_0@ == spec_tokens(s@)[n as int],
{
    let toks = split_tokens(s);
    if n < toks.len() {
        let t = toks[n].clone();
        assert(t@ == toks.deep_view()[n as int]);
        Some(t)
    } else {
        None
    }
}

/// `s` with leading and trailing whitespace removed.
pub open spec fn spec_trim(s: Seq<char>) -> Seq<char> {
    let a = ws_run_len(s);
    if a == s.len() {
        Seq::empty()
    } else {
        s.subrange(a, s.len() - trailing_ws_len(s))
    }
}

/// Length of the trailing run of whitespace characters.
pub open spec fn trailing_ws_len(s: Seq<char>) -> int
    decreases s.len(),
{
    if s.len() == 0 || !is_ws_char(s[s.len() - 1]) {
        0
    } else {
        1 + trailing_ws_len(s.drop_last())
    }
}

pub proof fn lemma_trailing_ws_len_is(s: Seq<char>, d: int)
    requires
        0 <= d <= s.len(),
        forall|i: int| s.len() - d <= i < s.len() ==> is_ws_char(s[i]),
        d < s.len() ==> !is_ws_char(s[s.len() - 1 - d]),
    ensures
        trailing_ws_len(s) == d,
    decreases s.len(),
{
    if s.len() == 0 || !is_ws_char(s[s.len() - 1]) {
    } else {
        assert(d >= 1);
        let t = s.drop_last();
        assert forall|i: int| t.len() - (d - 1) <= i < t.len() implies is_ws_char(t[i]) by {
            assert(t[i] == s[i]);
        }
        if d - 1 < t.len() {
            assert(t[t.len() - 1 - (d - 1)] == s[s.len() - 1 - d]);
        }
        lemma_trailing_ws_len_is(t, d - 1);
    }
}

/// Remove leading and trailing whitespace.
pub fn trim(s: &str) -> (r: String)
    ensures
        r@ == spec_trim(s@),
{
    let n: usize = s.unicode_len();
    let mut a: usize = 0;
    loop
        invariant_except_break
            a <= n,
            n == s@.len(),
            forall|i: int| 0 <= i < a ==> is_ws_char(s@[i]),
        ensures
            a <= n,
            n == s@.len(),
            forall|i: int| 0 <= i < a ==> is_ws_char(s@[i]),
            a < n ==> !is_ws_char(s@[a as int]),
        decreases n - a,
    {
        if a == n {
            break;
        }
        if !is_ws(s.get_char(a)) {
            break;
        }
        a += 1;
    }
    if a == n {
        proof {
            lemma_ws_run_len_is(s@, n as int);
        }
        return String::new();
    }
    proof {
        lemma_ws_run_len_is(s@, a as int);
    }
    let mut b: usize = n;
    loop
        invariant_except_break
            a < b <= n,
            n == s@.len(),
            forall|i: int| b <= i < n ==> is_ws_char(s@[i]),
            !is_ws_char(s@[a as int]),
        ensures
            a < b <= n,
            forall|i: int| b <= i < n ==> is_ws_char(s@[i]),
            !is_ws_char(s@[(b - 1) as int]),
        decreases b,
    {
        if !is_ws(s.get_char(b - 1)) {
            break;
        }
        if b - 1 == a {
            assert(is_ws_char(s@[a as int]));
            break;
        }
        b -= 1;
    }
    proof {
        lemma_trailing_ws_len_is(s@, (n - b) as int);
    }
    String::from_str(s.substring_char(a, b))
}

/// `s` with every leading copy of `p` removed, repeatedly.
pub open spec fn spec_strip_repeated(s: Seq<char>, p: Seq<char>) -> Seq<char>
    decreases s.len(),
{
    if p.len() > 0 && spec_has_prefix(s, p) {
        spec_strip_repeated(s.skip(p.len() as int), p)
    } else {
        s
    }
}

/// Remove every leading copy of `p` from `s`, repeatedly.
pub fn strip_prefix_repeated(s: &str, p: &str) -> (r: String)
    ensures
        r@ == spec_strip_repeated(s@, p@),
{
    let pn: usize = p.unicode_len();
    let mut cur: String = String::from_str(s);
    if pn == 0 {
        return cur;
    }
    while has_prefix(cur.as_str(), p)
        invariant
            pn == p@.len(),
            pn > 0,
            spec_strip_repeated(s@, p@) == spec_strip_repeated(cur@, p@),
        decreases cur@.len(),
    {
        let cn: usize = cur.as_str().unicode_len();
        let next = String::from_str(cur.as_str().substring_char(pn, cn));
        assert(next@ == cur@.skip(pn as int));
        cur = next;
    }
    cur
}

/// One character with an ASCII capital lowered; any other character stays.
pub open spec fn lower_char(c: char) -> char {
    if 'A' <= c && c <= 'Z' {
        (c as u8 + 32) as char
    } else {
        c
    }
}

/// `s` with every ASCII upper-case letter lowered.
pub open spec fn spec_lower(s: Seq<char>) -> Seq<char> {
    s.map_values(|c: char| lower_char(c))
}

/// Lower one character, if it is an ASCII capital.
fn lower_one(c: char) -> (r: char)
    ensures
        r == lower_char(c),
{
    if 'A' <= c && c <= 'Z' {
        (c as u8 + 32) as char
    } else {
        c
    }
}

/// Compare two strings up to ASCII case.
pub fn eq_ignore_case(a: &str, b: &str) -> (r: bool)
    ensures
        r == (spec_lower(a@) == spec_lower(b@)),
{
    let an: usize = a.unicode_len();
    let bn: usize = b.unicode_len();
    if an != bn {
        assert(spec_lower(a@).len() != spec_lower(b@).len());
        return false;
    }
    let mut i: usize = 0;
    while i < an
        invariant
            i <= an,
            an == a@.len() == b@.len(),
            forall|j: int| 0 <= j < i ==> lower_char(a@[j]) == lower_char(b@[j]),
        decreases an - i,
    {
        if lower_one(a.get_char(i)) != lower_one(b.get_char(i)) {
            assert(spec_lower(a@)[i as int] != spec_lower(b@)[i as int]);
            return false;
        }
        i += 1;
    }
    assert(spec_lower(a@) =~= spec_lower(b@));
    true
}

/// Whether two strings hold the same characters.
pub fn str_eq(a: &str, b: &str) -> (r: bool)
    ensures
        r == (a@ == b@),
{
    let sa = String::from_str(a);
    let sb = String::from_str(b);
    sa == sb
}

/// The items joined by the separator, in order.
pub open spec fn spec_join(items: Seq<Seq<char>>, sep: Seq<char>) -> Seq<char>
    decreases items.len(),
{
    if items.len() == 0 {
        Seq::empty()
    } else if items.len() == 1 {
        items[0]
    } else {
        items[0] + sep + spec_join(items.drop_first(), sep)
    }
}

proof fn lemma_join_take_succ(items: Seq<Seq<char>>, sep: Seq<char>, i: int)
    requires
        1 <= i < items.len(),
    ensures
        spec_join(items.take(i + 1), sep) == spec_join(items.take(i), sep) + sep + items[i],
    decreases i,
{
    if i == 1 {
        assert(items.take(2)[0] == items[0]);
        assert(items.take(2).drop_first() =~= seq![items[1]]);
        assert(items.take(1)[0] == items[0]);
        assert(seq![items[1]].len() == 1 && seq![items[1]][0] == items[1]);
        assert(spec_join(seq![items[1]], sep) == items[1]);
        assert(spec_join(items.take(2), sep) =~= spec_join(items.take(1), sep) + sep + items[1]);
    } else {
        let t = items.drop_first();
        lemma_join_take_succ(t, sep, i - 1);
        assert(items.take(i + 1).drop_first() =~= t.take(i));
        assert(items.take(i).drop_first() =~= t.take(i - 1));
        assert(items.take(i + 1)[0] == items[0]);
        assert(items.take(i)[0] == items[0]);
        assert(t[i - 1] == items[i]);
        assert(items.take(i + 1).len() >= 2);
        assert(items.take(i).len() >= 2);
        assert(spec_join(items.take(i + 1), sep) =~= spec_join(items.take(i), sep) + sep
            + items[i]);
    }
}

/// Join the strings with the separator, in order.
pub fn join_strings(v: &Vec<String>, sep: &str) -> (r: String)
    ensures
        r@ == spec_join(v.deep_view(), sep@),
{
    let ghost items = v.deep_view();
    if v.len() == 0 {
        return String::new();
    }
    let mut s = v[0].clone();
    proof {
        assert(items[0] == v@[0]@);
        assert(items.take(1)[0] == items[0]);
        assert(s@ == spec_join(items.take(1), sep@));
    }
    let mut i: usize = 1;
    while i < v.len()
        invariant
            1 <= i <= v.len(),
            items == v.deep_view(),
            items.len() == v.len(),
            s@ == spec_join(items.take(i as int), sep@),
        decreases v.len() - i,
    {
        s.append(sep);
        s.append(v[i].as_str());
        proof {
            lemma_join_take_succ(items, sep@, i as int);
            assert(items[i as int] == v@[i as int]@);
            assert(s@ =~= spec_join(items.take(i as int), sep@) + sep@ + items[i as int]);
        }
        i += 1;
    }
    proof {
        assert(items.take(v.len() as int) =~= items);
    }
    s
}

/// Length of the leading run of characters other than `sep`.
pub open spec fn sep_run_len(s: Seq<char>, sep: char) -> int
    decreases s.len(),
{
    if s.len() == 0 || s[0] == sep {
        0
    } else {
        1 + sep_run_len(s.drop_first(), sep)
    }
}

pub proof fn lemma_sep_run_len_is(s: Seq<char>, sep: char, d: int)
    requires
        0 <= d <= s.len(),
        forall|i: int| 0 <= i < d ==> s[i] != sep,
        d < s.len() ==> s[d] == sep,
    ensures
        sep_run_len(s, sep) == d,
    decreases s.len(),
{
    if s.len() == 0 || s[0] == sep {
    } else {
        assert(d >= 1);
        assert forall|i: int| 0 <= i < d - 1 implies s.drop_first()[i] != sep by {
            assert(s.drop_first()[i] == s[i + 1]);
        }
        if d - 1 < s.drop_first().len() {
            assert(s.drop_first()[d - 1] == s[d]);
        }
        lemma_sep_run_len_is(s.drop_first(), sep, d - 1);
    }
}

pub proof fn lemma_sep_run_len_bounds(s: Seq<char>, sep: char)
    ensures
        0 <= sep_run_len(s, sep) <= s.len(),
    decreases s.len(),
{
    if s.len() == 0 || s[0] == sep {
    } else {
        lemma_sep_run_len_bounds(s.drop_first(), sep);
    }
}

/// The fields of `s` split on `sep`, keeping empty fields, as `str::split` does.
pub open spec fn spec_split(s: Seq<char>, sep: char) -> Seq<Seq<char>>
    decreases s.len(),
    via spec_split_decreases
{
    let k = sep_run_len(s, sep);
    if k == s.len() {
        seq![s]
    } else {
        seq![s.take(k)] + spec_split(s.skip(k + 1), sep)
    }
}

#[via_fn]
proof fn spec_split_decreases(s: Seq<char>, sep: char) {
    lemma_sep_run_len_bounds(s, sep);
}

/// Splitting steps over the first field and its separator.
proof fn lemma_split_step(s: Seq<char>, sep: char, i: int, j: int)
    requires
        0 <= i <= j <= s.len(),
        forall|k: int| i <= k < j ==> s[k] != sep,
        j < s.len() ==> s[j] == sep,
    ensures
        j == s.len() ==> spec_split(s.skip(i), sep) == seq![s.subrange(i, j)],
        j < s.len() ==> spec_split(s.skip(i), sep) == seq![s.subrange(i, j)] + spec_split(
            s.skip(j + 1),
            sep,
        ),
{
    let t = s.skip(i);
    assert forall|k: int| 0 <= k < j - i implies t[k] != sep by {
        assert(t[k] == s[i + k]);
    }
    if j - i < t.len() {
        assert(t[j - i] == s[j]);
    }
    lemma_sep_run_len_is(t, sep, j - i);
    assert(t.take(j - i) =~= s.subrange(i, j));
    if j == s.len() {
    } else {
        assert(t.skip(j - i + 1) =~= s.skip(j + 1));
    }
}

/// Split `s` on `sep`, keeping empty fields.
pub fn split_on(s: &str, sep: char) -> (v: Vec<String>)
    ensures
        v.deep_view() == spec_split(s@, sep),
        v.len() >= 1,
{
    let n: usize = s.unicode_len();
    let mut v: Vec<String> = Vec::new();
    let mut i: usize = 0;
    proof {
        assert(s@.skip(0) =~= s@);
        assert(v.deep_view() =~= Seq::<Seq<char>>::empty());
        assert(v.deep_view() + spec_split(s@, sep) =~= spec_split(s@, sep));
    }
    loop
        invariant_except_break
            i <= n,
            n == s@.len(),
            spec_split(s@, sep) == v.deep_view() + spec_split(s@.skip(i as int), sep),
        ensures
            v.deep_view() == spec_split(s@, sep),
            v.len() >= 1,
        decreases n - i,
    {
        let mut j: usize = i;
        loop
            invariant_except_break
                i <= j <= n,
                n == s@.len(),
                forall|k: int| i <= k < j ==> s@[k] != sep,
            ensures
                i <= j <= n,
                forall|k: int| i <= k < j ==> s@[k] != sep,
                j < n ==> s@[j as int] == sep,
            decreases n - j,
        {
            if j == n {
                break;
            }
            if s.get_char(j) == sep {
                break;
            }
            j += 1;
        }
        let field = String::from_str(s.substring_char(i, j));
        proof {
            lemma_split_step(s@, sep, i as int, j as int);
        }
        let ghost old_v = v.deep_view();
        v.push(field);
        proof {
            assert(v.deep_view() =~= old_v.push(s@.subrange(i as int, j as int)));
        }
        if j == n {
            proof {
                assert(s@.skip(i as int) =~= s@.subrange(i as int, j as int));
                assert(v.deep_view() =~= old_v + seq![s@.subrange(i as int, j as int)]);
            }
            break;
        }
        proof {
            assert(v.deep_view() + spec_split(s@.skip(j + 1), sep) =~= old_v + (seq![
                s@.subrange(i as int, j as int),
            ] + spec_split(s@.skip(j + 1), sep)));
        }
        i = j + 1;
    }
    v
}

} // verus!
