//! Verified helpers over the character content of strings.

use vstd::prelude::*;

verus! {

/// Does `s` contain a newline?
pub open spec fn has_nl(s: Seq<char>) -> bool {
    exists|k: int| 0 <= k < s.len() && s[k] == '\n'
}

/// Number of newlines in `s`.
pub open spec fn count_nl(s: Seq<char>) -> nat
    decreases s.len(),
{
    if s.len() == 0 {
        0
    } else {
        count_nl(s.drop_last()) + if s.last() == '\n' { 1nat } else { 0nat }
    }
}

/// Is `c` horizontal whitespace?
pub open spec fn is_hws(c: char) -> bool {
    c == ' ' || c == '\t'
}

/// `s` without its leading spaces and tabs.
pub open spec fn trim_start_ws(s: Seq<char>) -> Seq<char>
    decreases s.len(),
{
    if s.len() > 0 && is_hws(s[0]) {
        trim_start_ws(s.drop_first())
    } else {
        s
    }
}

/// `s` without its leading occurrences of `c`.
pub open spec fn drop_leading(s: Seq<char>, c: char) -> Seq<char>
    decreases s.len(),
{
    if s.len() > 0 && s[0] == c {
        drop_leading(s.drop_first(), c)
    } else {
        s
    }
}

/// The segments of `s` between its newlines, in order; one segment more
/// than there are newlines, so a trailing newline yields an empty final
/// segment.
pub open spec fn spec_lines(s: Seq<char>) -> Seq<Seq<char>>
    decreases s.len(),
{
    if s.len() == 0 {
        seq![Seq::<char>::empty()]
    } else if s[0] == '\n' {
        seq![Seq::<char>::empty()] + spec_lines(s.drop_first())
    } else {
        let rest = spec_lines(s.drop_first());
        seq![seq![s[0]] + rest[0]] + rest.drop_first()
    }
}

/// Position of the first newline of `s`; meaningful only when one exists.
pub open spec fn first_nl(s: Seq<char>) -> int {
    choose|k: int|
        0 <= k < s.len() && s[k] == '\n' && forall|j: int| 0 <= j < k ==> s[j] != '\n'
}

pub proof fn lemma_lines_no_nl(s: Seq<char>)
    requires
        !has_nl(s),
    ensures
        spec_lines(s) == seq![s],
    decreases s.len(),
{
    if s.len() == 0 {
        assert(spec_lines(s) =~~= seq![s]);
    } else {
        assert(s[0] != '\n');
        let t = s.drop_first();
        assert(!has_nl(t)) by {
            if has_nl(t) {
                let k = choose|k: int| 0 <= k < t.len() && t[k] == '\n';
                assert(s[k + 1] == '\n');
            }
        }
        lemma_lines_no_nl(t);
        assert(seq![s[0]] + t =~= s);
        assert(spec_lines(s) =~~= seq![s]);
    }
}

pub proof fn lemma_lines_split(s: Seq<char>)
    requires
        has_nl(s),
    ensures
        spec_lines(s) == seq![s.subrange(0, first_nl(s))] + spec_lines(
            s.subrange(first_nl(s) + 1, s.len() as int),
        ),
    decreases s.len(),
{
    lemma_first_nl(s);
    let k = first_nl(s);
    if k == 0 {
        assert(s[0] == '\n');
        assert(s.subrange(0, 0) =~= Seq::<char>::empty());
        assert(s.subrange(1, s.len() as int) =~= s.drop_first());
        assert(spec_lines(s) =~~= seq![s.subrange(0, 0)] + spec_lines(
            s.subrange(1, s.len() as int),
        ));
    } else {
        assert(s[0] != '\n');
        let t = s.drop_first();
        assert(t[k - 1] == '\n');
        assert(has_nl(t));
        lemma_first_nl(t);
        let f = first_nl(t);
        assert(f == k - 1) by {
            if f < k - 1 {
                assert(t[f] == s[f + 1]);
            }
            if f > k - 1 {
                assert(t[k - 1] != '\n');
            }
        }
        lemma_lines_split(t);
        let rest = spec_lines(t);
        assert(rest[0] == t.subrange(0, k - 1));
        assert(rest.drop_first() =~~= spec_lines(t.subrange(k, t.len() as int)));
        assert(seq![s[0]] + t.subrange(0, k - 1) =~= s.subrange(0, k));
        assert(t.subrange(k, t.len() as int) =~= s.subrange(k + 1, s.len() as int));
        assert(spec_lines(s) =~~= seq![s.subrange(0, k)] + spec_lines(
            s.subrange(k + 1, s.len() as int),
        ));
    }
}

proof fn lemma_first_nl(s: Seq<char>)
    requires
        has_nl(s),
    ensures
        0 <= first_nl(s) < s.len(),
        s[first_nl(s)] == '\n',
        forall|j: int| 0 <= j < first_nl(s) ==> s[j] != '\n',
    decreases s.len(),
{
    let w = choose|k: int| 0 <= k < s.len() && s[k] == '\n';
    if s[0] == '\n' {
        assert(0 <= 0 < s.len() && s[0] == '\n' && forall|j: int| 0 <= j < 0 ==> s[j] != '\n');
    } else {
        let t = s.drop_first();
        assert(t[w - 1] == '\n');
        lemma_first_nl(t);
        let k = first_nl(t) + 1;
        assert(s[k] == '\n');
        assert(forall|j: int| 1 <= j < k ==> s[j] == t[j - 1] && t[j - 1] != '\n');
        assert(0 <= k < s.len() && s[k] == '\n' && forall|j: int| 0 <= j < k ==> s[j] != '\n');
    }
}

proof fn lemma_trim_skip(s: Seq<char>, i: int)
    requires
        0 <= i <= s.len(),
        forall|j: int| 0 <= j < i ==> is_hws(#[trigger] s[j]),
        i < s.len() ==> !is_hws(s[i]),
    ensures
        trim_start_ws(s) == s.subrange(i, s.len() as int),
    decreases i,
{
    if i == 0 {
        assert(s =~= s.subrange(0, s.len() as int));
    } else {
        let t = s.drop_first();
        lemma_trim_skip(t, i - 1);
        assert(t.subrange(i - 1, t.len() as int) =~= s.subrange(i, s.len() as int));
    }
}

proof fn lemma_drop_skip(s: Seq<char>, c: char, i: int)
    requires
        0 <= i <= s.len(),
        forall|j: int| 0 <= j < i ==> #[trigger] s[j] == c,
        i < s.len() ==> s[i] != c,
    ensures
        drop_leading(s, c) == s.subrange(i, s.len() as int),
    decreases i,
{
    if i == 0 {
        assert(s =~= s.subrange(0, s.len() as int));
    } else {
        let t = s.drop_first();
        lemma_drop_skip(t, c, i - 1);
        assert(t.subrange(i - 1, t.len() as int) =~= s.subrange(i, s.len() as int));
    }
}

/// Is `c` ASCII whitespace?
pub open spec fn is_aws(c: char) -> bool {
    c == ' ' || c == '\t' || c == '\n' || c == '\r' || c == '\u{c}'
}

/// The maximal runs of non-whitespace characters of `s`, in order.
pub open spec fn spec_words(s: Seq<char>) -> Seq<Seq<char>>
    decreases s.len(),
{
    if s.len() == 0 {
        Seq::empty()
    } else {
        let rest = spec_words(s.drop_first());
        if is_aws(s[0]) {
            rest
        } else if s.len() >= 2 && !is_aws(s[1]) {
            seq![seq![s[0]] + rest[0]] + rest.drop_first()
        } else {
            seq![seq![s[0]]] + rest
        }
    }
}

pub proof fn lemma_words_skip_ws(s: Seq<char>, i: int)
    requires
        0 <= i <= s.len(),
        forall|j: int| 0 <= j < i ==> is_aws(#[trigger] s[j]),
    ensures
        spec_words(s) == spec_words(s.subrange(i, s.len() as int)),
    decreases i,
{
    if i == 0 {
        assert(s =~= s.subrange(0, s.len() as int));
    } else {
        let t = s.drop_first();
        lemma_words_skip_ws(t, i - 1);
        assert(t.subrange(i - 1, t.len() as int) =~= s.subrange(i, s.len() as int));
    }
}

pub proof fn lemma_words_take_word(s: Seq<char>, i: int)
    requires
        0 < i <= s.len(),
        forall|j: int| 0 <= j < i ==> !is_aws(#[trigger] s[j]),
        i < s.len() ==> is_aws(s[i]),
    ensures
        spec_words(s) == seq![s.subrange(0, i)] + spec_words(s.subrange(i, s.len() as int)),
    decreases i,
{
    let t = s.drop_first();
    if i == 1 {
        if s.len() == 1 {
            assert(spec_words(s) =~~= seq![s.subrange(0, 1)] + spec_words(
                s.subrange(1, s.len() as int),
            ));
        } else {
            assert(is_aws(s[1]));
            assert(t =~= s.subrange(1, s.len() as int));
            assert(seq![s[0]] =~= s.subrange(0, 1));
            assert(spec_words(s) =~~= seq![s.subrange(0, 1)] + spec_words(
                s.subrange(1, s.len() as int),
            ));
        }
    } else {
        assert(!is_aws(s[1]));
        lemma_words_take_word(t, i - 1);
        let rest = spec_words(t);
        assert(rest[0] == t.subrange(0, i - 1));
        assert(rest.drop_first() =~~= spec_words(t.subrange(i - 1, t.len() as int)));
        assert(seq![s[0]] + t.subrange(0, i - 1) =~= s.subrange(0, i));
        assert(t.subrange(i - 1, t.len() as int) =~= s.subrange(i, s.len() as int));
        assert(spec_words(s) =~~= seq![s.subrange(0, i)] + spec_words(
            s.subrange(i, s.len() as int),
        ));
    }
}

/// The maximal runs of non-whitespace characters of `s`, in order.
#[verifier::rlimit(60)]
pub fn str_split_words(s: &str) -> (r: Vec<String>)
    ensures
        r@.map_values(|x: String| x@) == spec_words(s@),
{
    let n = s.unicode_len();
    let mut r: Vec<String> = Vec::new();
    let mut i: usize = 0;
    proof {
        assert(s@.subrange(0, n as int) =~= s@);
        assert(r@.map_values(|x: String| x@) =~~= Seq::<Seq<char>>::empty());
    }
    while i < n
        invariant
            i <= n,
            n == s@.len(),
            spec_words(s@) == r@.map_values(|x: String| x@) + spec_words(
                s@.subrange(i as int, n as int),
            ),
        decreases n - i,
    {
        let c = s.get_char(i);
        if c == ' ' || c == '\t' || c == '\n' || c == '\r' || c == '\u{c}' {
            proof {
                let tail = s@.subrange(i as int, n as int);
                assert(tail[0] == s@[i as int] && is_aws(tail[0]));
                lemma_words_skip_ws(tail, 1);
                assert(tail.subrange(1, tail.len() as int) =~= s@.subrange(i + 1, n as int));
            }
            i = i + 1;
        } else {
            let start = i;
            let mut done = false;
            while i < n && !done
                invariant
                    start <= i <= n,
                    n == s@.len(),
                    forall|j: int| start <= j < i ==> !is_aws(#[trigger] s@[j]),
                    done ==> i < n && is_aws(s@[i as int]),
                decreases n - i, if done { 0int } else { 1int },
            {
                let c2 = s.get_char(i);
                if c2 == ' ' || c2 == '\t' || c2 == '\n' || c2 == '\r' || c2 == '\u{c}' {
                    done = true;
                } else {
                    i = i + 1;
                }
            }
            let piece = s.substring_char(start, i).to_owned();
            proof {
                let tail = s@.subrange(start as int, n as int);
                assert(forall|j: int| 0 <= j < i - start ==> !is_aws(#[trigger] tail[j]));
                assert(tail[0] == s@[start as int]);
                assert(i - start > 0);
                if i < n {
                    assert(tail[i - start] == s@[i as int] && is_aws(tail[i - start]));
                }
                lemma_words_take_word(tail, i - start);
                assert(tail.subrange(0, i - start) =~= s@.subrange(start as int, i as int));
                assert(tail.subrange(i - start, tail.len() as int) =~= s@.subrange(
                    i as int,
                    n as int,
                ));
                let rm = r@.map_values(|x: String| x@);
                let rm2 = r@.push(piece).map_values(|x: String| x@);
                assert(rm2 =~~= rm + seq![piece@]);
                assert(rm2 + spec_words(s@.subrange(i as int, n as int)) =~~= rm + spec_words(
                    s@.subrange(start as int, n as int),
                ));
            }
            r.push(piece);
        }
    }
    proof {
        assert(s@.subrange(i as int, n as int).len() == 0);
        assert(spec_words(s@.subrange(i as int, n as int)) =~~= Seq::<Seq<char>>::empty());
        assert(r@.map_values(|x: String| x@) =~~= r@.map_values(|x: String| x@) + Seq::<
            Seq<char>,
        >::empty());
    }
    r
}

/// The number of segments `spec_lines` yields is one more than the newline
/// count, so never zero.
pub proof fn lemma_lines_len(s: Seq<char>)
    ensures
        spec_lines(s).len() >= 1,
    decreases s.len(),
{
    if s.len() == 0 {
    } else if s[0] == '\n' {
        lemma_lines_len(s.drop_first());
    } else {
        lemma_lines_len(s.drop_first());
    }
}

/// Does `s` contain a newline?
pub fn str_has_nl(s: &str) -> (b: bool)
    ensures
        b == has_nl(s@),
{
    let n = s.unicode_len();
    let mut i: usize = 0;
    while i < n
        invariant
            i <= n,
            n == s@.len(),
            forall|k: int| 0 <= k < i ==> s@[k] != '\n',
        decreases n - i,
    {
        if s.get_char(i) == '\n' {
            proof {
                assert(s@[i as int] == '\n');
            }
            return true;
        }
        i = i + 1;
    }
    false
}

/// Number of newlines in `s`.
pub fn str_count_nl(s: &str) -> (c: usize)
    ensures
        c as nat == count_nl(s@),
{
    let n = s.unicode_len();
    let mut i: usize = 0;
    let mut c: usize = 0;
    while i < n
        invariant
            i <= n,
            n == s@.len(),
            c <= i,
            c as nat == count_nl(s@.subrange(0, i as int)),
        decreases n - i,
    {
        proof {
            assert(s@.subrange(0, i + 1).drop_last() =~= s@.subrange(0, i as int));
            assert(s@.subrange(0, i + 1).last() == s@[i as int]);
        }
        if s.get_char(i) == '\n' {
            c = c + 1;
        }
        i = i + 1;
    }
    proof {
        assert(s@.subrange(0, n as int) =~= s@);
    }
    c
}

/// Is `s` empty?
pub fn str_is_empty(s: &str) -> (b: bool)
    ensures
        b == (s@.len() == 0),
{
    s.unicode_len() == 0
}

/// Does `s` start with the character `c`?
pub fn starts_with_char(s: &str, c: char) -> (b: bool)
    ensures
        b == (s@.len() > 0 && s@[0] == c),
{
    if s.unicode_len() == 0 {
        false
    } else {
        s.get_char(0) == c
    }
}

/// Does `s` end with the character `c`?
pub fn ends_with_char(s: &str, c: char) -> (b: bool)
    ensures
        b == (s@.len() > 0 && s@[s@.len() - 1] == c),
{
    let n = s.unicode_len();
    if n == 0 {
        false
    } else {
        s.get_char(n - 1) == c
    }
}

/// `s` without its leading spaces and tabs.
pub fn str_trim_start_ws(s: &str) -> (r: String)
    ensures
        r@ == trim_start_ws(s@),
{
    let n = s.unicode_len();
    let mut i: usize = 0;
    let mut done = false;
    while i < n && !done
        invariant
            i <= n,
            n == s@.len(),
            forall|j: int| 0 <= j < i ==> is_hws(#[trigger] s@[j]),
            done ==> i < n && !is_hws(s@[i as int]),
        decreases n - i, if done { 0int } else { 1int },
    {
        let c = s.get_char(i);
        if c == ' ' || c == '\t' {
            i = i + 1;
        } else {
            done = true;
        }
    }
    proof {
        lemma_trim_skip(s@, i as int);
    }
    s.substring_char(i, n).to_owned()
}

/// `s` without its leading occurrences of `c`.
pub fn str_drop_leading(s: &str, c: char) -> (r: String)
    ensures
        r@ == drop_leading(s@, c),
{
    let n = s.unicode_len();
    let mut i: usize = 0;
    let mut done = false;
    while i < n && !done
        invariant
            i <= n,
            n == s@.len(),
            forall|j: int| 0 <= j < i ==> #[trigger] s@[j] == c,
            done ==> i < n && s@[i as int] != c,
        decreases n - i, if done { 0int } else { 1int },
    {
        if s.get_char(i) == c {
            i = i + 1;
        } else {
            done = true;
        }
    }
    proof {
        lemma_drop_skip(s@, c, i as int);
    }
    s.substring_char(i, n).to_owned()
}

/// The segments of `s` between its newlines.
#[verifier::rlimit(60)]
pub fn str_split_lines(s: &str) -> (r: Vec<String>)
    ensures
        r@.map_values(|x: String| x@) == spec_lines(s@),
{
    let n = s.unicode_len();
    let mut r: Vec<String> = Vec::new();
    let mut start: usize = 0;
    let mut i: usize = 0;
    proof {
        assert(s@.subrange(0, n as int) =~= s@);
        assert(r@.map_values(|x: String| x@) =~~= Seq::<Seq<char>>::empty());
    }
    while i < n
        invariant
            start <= i <= n,
            n == s@.len(),
            forall|k: int| start <= k < i ==> s@[k] != '\n',
            spec_lines(s@) == r@.map_values(|x: String| x@) + spec_lines(
                s@.subrange(start as int, n as int),
            ),
        decreases n - i,
    {
        if s.get_char(i) == '\n' {
            let piece = s.substring_char(start, i).to_owned();
            proof {
                let tail = s@.subrange(start as int, n as int);
                assert(tail[i - start] == '\n');
                assert(has_nl(tail));
                lemma_first_nl(tail);
                assert(forall|j: int| 0 <= j < i - start ==> tail[j] == s@[start + j]);
                assert(first_nl(tail) == i - start) by {
                    if first_nl(tail) < i - start {
                        assert(tail[first_nl(tail)] == s@[start + first_nl(tail)]);
                    }
                }
                lemma_lines_split(tail);
                assert(tail.subrange(0, i - start) =~= s@.subrange(start as int, i as int));
                assert(tail.subrange(i - start + 1, tail.len() as int) =~= s@.subrange(
                    i + 1,
                    n as int,
                ));
                let rm = r@.map_values(|x: String| x@);
                let rm2 = r@.push(piece).map_values(|x: String| x@);
                assert(rm2 =~~= rm + seq![piece@]);
                assert(rm2 + spec_lines(s@.subrange(i + 1, n as int)) =~~= rm + spec_lines(
                    s@.subrange(start as int, n as int),
                ));
            }
            r.push(piece);
            start = i + 1;
        }
        i = i + 1;
    }
    let piece = s.substring_char(start, n).to_owned();
    proof {
        let tail = s@.subrange(start as int, n as int);
        assert(forall|j: int| 0 <= j < tail.len() ==> tail[j] == s@[start + j]);
        assert(!has_nl(tail)) by {
            if has_nl(tail) {
                let k = choose|k: int| 0 <= k < tail.len() && tail[k] == '\n';
                assert(s@[start + k] == '\n');
            }
        }
        lemma_lines_no_nl(tail);
        let rm = r@.map_values(|x: String| x@);
        let rm2 = r@.push(piece).map_values(|x: String| x@);
        assert(rm2 =~~= rm + seq![piece@]);
        assert(rm2 =~~= rm + spec_lines(tail));
    }
    r.push(piece);
    r
}

} // verus!
