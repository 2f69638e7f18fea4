//! Source normalisation for clone comparison.
use vstd::prelude::*;
use crate::text::{chars_of, has_substring, is_space, is_space_char, occurs_at, string_of};

verus! {

/// What follows the first `*/` of `t` (nothing when there is none).
pub open spec fn after_block_comment(t: Seq<char>) -> Seq<char>
    decreases t.len(),
{
    if t.len() < 2 {
        Seq::empty()
    } else if t[0] == '*' && t[1] == '/' {
        t.subrange(2, t.len() as int)
    } else {
        after_block_comment(t.drop_first())
    }
}

/// `t` from its first newline on (nothing when there is none).
pub open spec fn from_newline(t: Seq<char>) -> Seq<char>
    decreases t.len(),
{
    if t.len() == 0 {
        Seq::empty()
    } else if t[0] == '\n' {
        t
    } else {
        from_newline(t.drop_first())
    }
}

pub proof fn lemma_after_block_shorter(t: Seq<char>)
    ensures
        after_block_comment(t).len() <= t.len(),
    decreases t.len(),
{
    if t.len() >= 2 && !(t[0] == '*' && t[1] == '/') {
        lemma_after_block_shorter(t.drop_first());
    }
}

pub proof fn lemma_from_newline_shorter(t: Seq<char>)
    ensures
        from_newline(t).len() <= t.len(),
    decreases t.len(),
{
    if t.len() > 0 && t[0] != '\n' {
        lemma_from_newline_shorter(t.drop_first());
    }
}

/// `s` with each block comment `/* ... */` replaced by a space and each line
/// comment `// ...` removed up to (not including) its newline; an unclosed
/// block comment runs to the end.
pub open spec fn strip_comments(s: Seq<char>) -> Seq<char>
    decreases s.len(),
{
    if s.len() == 0 {
        Seq::empty()
    } else if s[0] == '/' && s.len() > 1 && s[1] == '*' {
        proof { lemma_after_block_shorter(s.subrange(2, s.len() as int)); }
        seq![' '] + strip_comments(after_block_comment(s.subrange(2, s.len() as int)))
    } else if s[0] == '/' && s.len() > 1 && s[1] == '/' {
        proof { lemma_from_newline_shorter(s.drop_first()); }
        strip_comments(from_newline(s.drop_first()))
    } else {
        seq![s[0]] + strip_comments(s.drop_first())
    }
}

/// After reading the first `n` characters of `s`: the white-space separated
/// words completed so far and the word being read.
pub open spec fn words_state(s: Seq<char>, n: int) -> (Seq<Seq<char>>, Seq<char>)
    decreases n,
{
    if n <= 0 {
        (Seq::empty(), Seq::empty())
    } else {
        let (done, cur) = words_state(s, n - 1);
        if is_space(s[n - 1]) {
            if cur.len() > 0 { (done.push(cur), Seq::empty()) } else { (done, cur) }
        } else {
            (done, cur.push(s[n - 1]))
        }
    }
}

/// The white-space separated words of `s` (`str::split_whitespace`).
pub open spec fn words(s: Seq<char>) -> Seq<Seq<char>> {
    let (done, cur) = words_state(s, s.len() as int);
    if cur.len() > 0 { done.push(cur) } else { done }
}

/// The words joined by single spaces.
pub open spec fn join_words(w: Seq<Seq<char>>) -> Seq<char>
    decreases w.len(),
{
    if w.len() == 0 {
        Seq::empty()
    } else if w.len() == 1 {
        w[0]
    } else {
        join_words(w.drop_last()) + seq![' '] + w.last()
    }
}

/// Comments stripped, then white space collapsed to single spaces and trimmed.
pub open spec fn normalized(s: Seq<char>) -> Seq<char> {
    join_words(words(strip_comments(s)))
}

fn strip(s: &Vec<char>) -> (res: Vec<char>)
    ensures
        res@ == strip_comments(s@),
{
    let n = s.len();
    let mut out: Vec<char> = Vec::new();
    let mut i: usize = 0;
    assert(s@.subrange(0, n as int) =~= s@);
    while i < n
        invariant
            n == s.len(),
            i <= n,
            strip_comments(s@) == out@ + strip_comments(s@.subrange(i as int, n as int)),
        decreases n - i,
    {
        let rest = Ghost(s@.subrange(i as int, n as int));
        let c = s[i];
        if c == '/' && i + 1 < n && s[i + 1] == '*' {
            let mut j = i + 2;
            assert(s@.subrange(j as int, n as int) =~= rest@.subrange(2, rest@.len() as int));
            while j < n && !(s[j] == '*' && j + 1 < n && s[j + 1] == '/')
                invariant
                    n == s.len(),
                    i + 2 <= j <= n,
                    after_block_comment(rest@.subrange(2, rest@.len() as int))
                        == after_block_comment(s@.subrange(j as int, n as int)),
                decreases n - j,
            {
                assert(s@.subrange(j as int, n as int).drop_first() =~= s@.subrange(j + 1, n as int));
                j = j + 1;
            }
            let next = if j < n { j + 2 } else { n };
            proof {
                if j < n {
                    assert(s@.subrange(j as int, n as int).subrange(2, n - j) =~= s@.subrange(j + 2, n as int));
                } else {
                    assert(s@.subrange(next as int, n as int) =~= Seq::<char>::empty());
                }
            }
            out.push(' ');
            assert(out@ + strip_comments(s@.subrange(next as int, n as int))
                =~= (out@.drop_last() + seq![' ']) + strip_comments(s@.subrange(next as int, n as int)));
            i = next;
        } else if c == '/' && i + 1 < n && s[i + 1] == '/' {
            let mut j = i + 1;
            assert(s@.subrange(j as int, n as int) =~= rest@.drop_first());
            while j < n && s[j] != '\n'
                invariant
                    n == s.len(),
                    i + 1 <= j <= n,
                    from_newline(rest@.drop_first()) == from_newline(s@.subrange(j as int, n as int)),
                decreases n - j,
            {
                assert(s@.subrange(j as int, n as int).drop_first() =~= s@.subrange(j + 1, n as int));
                j = j + 1;
            }
            proof {
                if j == n {
                    assert(s@.subrange(j as int, n as int) =~= Seq::<char>::empty());
                }
            }
            i = j;
        } else {
            out.push(c);
            assert(rest@.drop_first() =~= s@.subrange(i + 1, n as int));
            assert(out@ + strip_comments(s@.subrange(i + 1, n as int))
                =~= (out@.drop_last() + seq![c]) + strip_comments(s@.subrange(i + 1, n as int)));
            i = i + 1;
        }
    }
    assert(s@.subrange(n as int, n as int) =~= Seq::<char>::empty());
    assert(out@ + Seq::<char>::empty() =~= out@);
    out
}

fn collapse(s: &Vec<char>) -> (res: Vec<char>)
    ensures
        res@ == join_words(words(s@)),
{
    let mut out: Vec<char> = Vec::new();
    let mut count: usize = 0;
    let mut cur: Vec<char> = Vec::new();
    let ghost mut done: Seq<Seq<char>> = Seq::empty();
    let mut i: usize = 0;
    while i < s.len()
        invariant
            i <= s.len(),
            words_state(s@, i as int) == (done, cur@),
            out@ == join_words(done),
            count == done.len(),
            count <= i,
        decreases s.len() - i,
    {
        let c = s[i];
        if is_space_char(c) {
            if cur.len() > 0 {
                if count > 0 {
                    out.push(' ');
                }
                let mut k: usize = 0;
                let ghost base = out@;
                while k < cur.len()
                    invariant
                        k <= cur.len(),
                        out@ == base + cur@.take(k as int),
                    decreases cur.len() - k,
                {
                    out.push(cur[k]);
                    k = k + 1;
                    assert(out@ =~= base + cur@.take(k as int));
                }
                assert(cur@.take(cur.len() as int) =~= cur@);
                proof {
                    let nd = done.push(cur@);
                    assert(nd.drop_last() =~= done);
                    if done.len() == 0 {
                        assert(base =~= Seq::<char>::empty());
                        assert(out@ =~= nd[0]);
                    } else {
                        assert(out@ =~= join_words(done) + seq![' '] + cur@);
                    }
                    done = nd;
                }
                count = count + 1;
                cur = Vec::new();
            }
        } else {
            cur.push(c);
        }
        i = i + 1;
    }
    if cur.len() > 0 {
        if count > 0 {
            out.push(' ');
        }
        let mut k: usize = 0;
        let ghost base = out@;
        while k < cur.len()
            invariant
                k <= cur.len(),
                out@ == base + cur@.take(k as int),
            decreases cur.len() - k,
        {
            out.push(cur[k]);
            k = k + 1;
            assert(out@ =~= base + cur@.take(k as int));
        }
        assert(cur@.take(cur.len() as int) =~= cur@);
        proof {
            let nd = done.push(cur@);
            assert(nd.drop_last() =~= done);
            if done.len() == 0 {
                assert(base =~= Seq::<char>::empty());
                assert(out@ =~= nd[0]);
            } else {
                assert(out@ =~= join_words(done) + seq![' '] + cur@);
            }
        }
    }
    out
}

/// Strips comments and collapses white space, for clone comparison.
pub fn normalize(source: &str) -> (res: String)
    ensures
        res@ == normalized(source@),
{
    let cs = chars_of(source);
    let stripped = strip(&cs);
    let collapsed = collapse(&stripped);
    string_of(collapsed.as_slice())
}

/// No `/` in `t` is followed by `/` or `*`: `t` holds no comment opener.
pub open spec fn no_comment_opener(t: Seq<char>) -> bool {
    forall|i: int| 0 <= i < t.len() - 1 ==> !((#[trigger] t[i]) == '/' && (t[i + 1] == '/' || t[i + 1] == '*'))
}

proof fn lemma_from_newline_start(t: Seq<char>)
    ensures
        from_newline(t).len() > 0 ==> from_newline(t)[0] == '\n',
    decreases t.len(),
{
    if t.len() > 0 && t[0] != '\n' {
        lemma_from_newline_start(t.drop_first());
    }
}

proof fn lemma_strip_start(s: Seq<char>)
    ensures
        strip_comments(s).len() > 0 ==> strip_comments(s)[0] != '/' || (s.len() > 0 && s[0] == '/'),
        s.len() > 0 && s[0] != '/' ==> strip_comments(s).len() > 0 && strip_comments(s)[0] == s[0],
    decreases s.len(),
{
    if s.len() > 0 && s[0] == '/' && s.len() > 1 && s[1] == '/' {
        lemma_from_newline_shorter(s.drop_first());
        let rest = from_newline(s.drop_first());
        lemma_from_newline_start(s.drop_first());
        lemma_strip_start(rest);
    }
}

/// Stripping comments leaves no comment opener.
proof fn lemma_strip_leaves_no_opener(s: Seq<char>)
    ensures
        no_comment_opener(strip_comments(s)),
    decreases s.len(),
{
    if s.len() == 0 {
    } else if s[0] == '/' && s.len() > 1 && s[1] == '*' {
        lemma_after_block_shorter(s.subrange(2, s.len() as int));
        let rest = after_block_comment(s.subrange(2, s.len() as int));
        lemma_strip_leaves_no_opener(rest);
        let out = strip_comments(s);
        assert(out == seq![' '] + strip_comments(rest));
        assert forall|i: int| 0 <= i < out.len() - 1 implies !((#[trigger] out[i]) == '/' && (out[i + 1] == '/' || out[i + 1] == '*')) by {
            if i > 0 {
                assert(out[i] == strip_comments(rest)[i - 1]);
                assert(out[i + 1] == strip_comments(rest)[i]);
            }
        }
    } else if s[0] == '/' && s.len() > 1 && s[1] == '/' {
        lemma_from_newline_shorter(s.drop_first());
        lemma_strip_leaves_no_opener(from_newline(s.drop_first()));
    } else {
        let rest = s.drop_first();
        lemma_strip_leaves_no_opener(rest);
        lemma_strip_start(rest);
        let out = strip_comments(s);
        assert(out == seq![s[0]] + strip_comments(rest));
        assert forall|i: int| 0 <= i < out.len() - 1 implies !((#[trigger] out[i]) == '/' && (out[i + 1] == '/' || out[i + 1] == '*')) by {
            if i > 0 {
                assert(out[i] == strip_comments(rest)[i - 1]);
                assert(out[i + 1] == strip_comments(rest)[i]);
            } else {
                assert(out[1] == strip_comments(rest)[0]);
            }
        }
    }
}

/// Splitting into words keeps each word free of comment openers, and the
/// word being read ends with the last character read.
proof fn lemma_words_no_opener(s: Seq<char>, n: int)
    requires
        no_comment_opener(s),
        0 <= n <= s.len(),
    ensures
        forall|k: int| 0 <= k < words_state(s, n).0.len() ==> no_comment_opener(#[trigger] words_state(s, n).0[k]),
        no_comment_opener(words_state(s, n).1),
        words_state(s, n).1.len() > 0 ==> n > 0 && words_state(s, n).1.last() == s[n - 1],
    decreases n,
{
    if n > 0 {
        lemma_words_no_opener(s, n - 1);
        let (done, cur) = words_state(s, n - 1);
        if !is_space(s[n - 1]) {
            let nc = cur.push(s[n - 1]);
            assert forall|i: int| 0 <= i < nc.len() - 1 implies !((#[trigger] nc[i]) == '/' && (nc[i + 1] == '/' || nc[i + 1] == '*')) by {
                if i < nc.len() - 2 {
                    assert(nc[i] == cur[i] && nc[i + 1] == cur[i + 1]);
                } else {
                    assert(nc[i] == cur.last());
                    assert(cur.last() == s[n - 2]);
                    assert(s[n - 2] == s[(n - 2) as int]);
                }
            }
        } else if cur.len() > 0 {
            let nd = done.push(cur);
            assert forall|k: int| 0 <= k < nd.len() implies no_comment_opener(#[trigger] nd[k]) by {
                if k < done.len() {
                    assert(nd[k] == done[k]);
                }
            }
        }
    }
}

proof fn lemma_join_no_opener(w: Seq<Seq<char>>)
    requires
        forall|k: int| 0 <= k < w.len() ==> no_comment_opener(#[trigger] w[k]),
    ensures
        no_comment_opener(join_words(w)),
    decreases w.len(),
{
    if w.len() > 1 {
        let front = w.drop_last();
        assert forall|k: int| 0 <= k < front.len() implies no_comment_opener(#[trigger] front[k]) by {
            assert(front[k] == w[k]);
        }
        lemma_join_no_opener(front);
        let a = join_words(front);
        let b = w.last();
        assert(no_comment_opener(b)) by {
            assert(b == w[w.len() - 1]);
        }
        let out = join_words(w);
        assert(out == a + seq![' '] + b);
        assert forall|i: int| 0 <= i < out.len() - 1 implies !((#[trigger] out[i]) == '/' && (out[i + 1] == '/' || out[i + 1] == '*')) by {
            if i < a.len() - 1 {
                assert(out[i] == a[i] && out[i + 1] == a[i + 1]);
            } else if i == a.len() - 1 {
                assert(out[i + 1] == ' ');
            } else if i == a.len() {
                assert(out[i] == ' ');
            } else {
                assert(out[i] == b[i - a.len() - 1] && out[i + 1] == b[i - a.len()]);
            }
        }
    } else if w.len() == 1 {
        assert(join_words(w) == w[0]);
    }
}

proof fn lemma_normalized_no_opener(source: Seq<char>)
    ensures
        no_comment_opener(normalized(source)),
{
    let t = strip_comments(source);
    lemma_strip_leaves_no_opener(source);
    lemma_words_no_opener(t, t.len() as int);
    let (done, cur) = words_state(t, t.len() as int);
    let ws = words(t);
    assert forall|k: int| 0 <= k < ws.len() implies no_comment_opener(#[trigger] ws[k]) by {
        if cur.len() > 0 && k == done.len() {
            assert(ws[k] == cur);
        } else {
            assert(ws[k] == done[k]);
        }
    }
    lemma_join_no_opener(ws);
}

/// A normalised source holds neither `//` nor `/*`: every comment is gone.
pub proof fn lemma_normalized_has_no_comments(source: Seq<char>)
    ensures
        !has_substring(normalized(source), "//"@),
        !has_substring(normalized(source), "/*"@),
{
    lemma_normalized_no_opener(source);
    let out = normalized(source);
    reveal_strlit("//");
    reveal_strlit("/*");
    if has_substring(out, "//"@) {
        let i = choose|i: int| occurs_at(out, "//"@, i);
        assert(out.subrange(i, i + 2)[0] == out[i]);
        assert(out.subrange(i, i + 2)[1] == out[i + 1]);
    }
    if has_substring(out, "/*"@) {
        let i = choose|i: int| occurs_at(out, "/*"@, i);
        assert(out.subrange(i, i + 2)[0] == out[i]);
        assert(out.subrange(i, i + 2)[1] == out[i + 1]);
    }
}

/// A word: one or more characters, none of them white space.
pub open spec fn is_word(w: Seq<char>) -> bool {
    w.len() > 0 && forall|i: int| 0 <= i < w.len() ==> !is_space(#[trigger] w[i])
}

proof fn lemma_words_state_are_words(s: Seq<char>, n: int)
    requires
        0 <= n <= s.len(),
    ensures
        forall|k: int| 0 <= k < words_state(s, n).0.len() ==> is_word(#[trigger] words_state(s, n).0[k]),
        forall|i: int| 0 <= i < words_state(s, n).1.len() ==> !is_space(#[trigger] words_state(s, n).1[i]),
    decreases n,
{
    if n > 0 {
        lemma_words_state_are_words(s, n - 1);
        let (done, cur) = words_state(s, n - 1);
        if is_space(s[n - 1]) {
            if cur.len() > 0 {
                let nd = done.push(cur);
                assert forall|k: int| 0 <= k < nd.len() implies is_word(#[trigger] nd[k]) by {
                    if k < done.len() {
                        assert(nd[k] == done[k]);
                    }
                }
            }
        } else {
            let nc = cur.push(s[n - 1]);
            assert forall|i: int| 0 <= i < nc.len() implies !is_space(#[trigger] nc[i]) by {
                if i < cur.len() {
                    assert(nc[i] == cur[i]);
                }
            }
        }
    }
}

/// The words of a text are words.
proof fn lemma_words_are_words(s: Seq<char>)
    ensures
        forall|k: int| 0 <= k < words(s).len() ==> is_word(#[trigger] words(s)[k]),
{
    lemma_words_state_are_words(s, s.len() as int);
    let (done, cur) = words_state(s, s.len() as int);
    let ws = words(s);
    assert forall|k: int| 0 <= k < ws.len() implies is_word(#[trigger] ws[k]) by {
        if cur.len() > 0 && k == done.len() {
            assert(ws[k] == cur);
        } else {
            assert(ws[k] == done[k]);
        }
    }
}

/// The state after `n` characters depends on those characters alone.
proof fn lemma_words_state_prefix(a: Seq<char>, b: Seq<char>, n: int)
    requires
        0 <= n <= a.len(),
        n <= b.len(),
        a.take(n) == b.take(n),
    ensures
        words_state(a, n) == words_state(b, n),
    decreases n,
{
    if n > 0 {
        assert(a.take(n - 1) =~= a.take(n).take(n - 1));
        assert(b.take(n - 1) =~= b.take(n).take(n - 1));
        lemma_words_state_prefix(a, b, n - 1);
        assert(a[n - 1] == a.take(n)[n - 1]);
        assert(b[n - 1] == b.take(n)[n - 1]);
    }
}

/// Reading `k` characters that are not white space extends the current word.
proof fn lemma_words_state_within_word(s: Seq<char>, n: int, k: int)
    requires
        0 <= n,
        0 <= k,
        n + k <= s.len(),
        forall|i: int| n <= i < n + k ==> !is_space(#[trigger] s[i]),
    ensures
        words_state(s, n + k) == (words_state(s, n).0, words_state(s, n).1 + s.subrange(n, n + k)),
    decreases k,
{
    if k == 0 {
        assert(words_state(s, n).1 + s.subrange(n, n) =~= words_state(s, n).1);
    } else {
        lemma_words_state_within_word(s, n, k - 1);
        assert(!is_space(s[n + k - 1]));
        assert(words_state(s, n).1 + s.subrange(n, n + k - 1) + seq![s[n + k - 1]]
            =~= words_state(s, n).1 + s.subrange(n, n + k));
    }
}

proof fn lemma_words_state_of_join(w: Seq<Seq<char>>)
    requires
        w.len() > 0,
        forall|k: int| 0 <= k < w.len() ==> is_word(#[trigger] w[k]),
    ensures
        words_state(join_words(w), join_words(w).len() as int) == (w.drop_last(), w.last()),
    decreases w.len(),
{
    let j = join_words(w);
    if w.len() == 1 {
        assert(j == w[0]);
        assert forall|i: int| 0 <= i < j.len() implies !is_space(#[trigger] j[i]) by {
            assert(is_word(w[0]));
        }
        lemma_words_state_within_word(j, 0, j.len() as int);
        assert(Seq::<char>::empty() + j.subrange(0, j.len() as int) =~= w.last());
        assert(w.drop_last() =~= Seq::<Seq<char>>::empty());
    } else {
        let front = w.drop_last();
        assert forall|k: int| 0 <= k < front.len() implies is_word(#[trigger] front[k]) by {
            assert(front[k] == w[k]);
        }
        lemma_words_state_of_join(front);
        let a = join_words(front);
        let b = w.last();
        assert(is_word(b)) by { assert(b == w[w.len() - 1]); }
        assert(j == a + seq![' '] + b);
        assert(j.take(a.len() as int) =~= a.take(a.len() as int));
        lemma_words_state_prefix(j, a, a.len() as int);
        assert(front.last() == front[front.len() - 1]);
        assert(is_word(front.last()));
        assert(j[a.len() as int] == ' ');
        assert(is_space(' '));
        assert(front.drop_last().push(front.last()) =~= front);
        assert(words_state(j, a.len() + 1int) == (front, Seq::<char>::empty()));
        assert forall|i: int| a.len() + 1 <= i < a.len() + 1 + b.len() implies !is_space(#[trigger] j[i]) by {
            assert(j[i] == b[i - a.len() - 1]);
        }
        lemma_words_state_within_word(j, a.len() + 1int, b.len() as int);
        assert(j.subrange(a.len() + 1int, a.len() + 1int + b.len()) =~= b);
        assert(Seq::<char>::empty() + b =~= b);
    }
}

/// Splitting words joined by single spaces gives the words back.
pub proof fn lemma_words_of_join(w: Seq<Seq<char>>)
    requires
        forall|k: int| 0 <= k < w.len() ==> is_word(#[trigger] w[k]),
    ensures
        words(join_words(w)) == w,
{
    if w.len() == 0 {
        assert(join_words(w) =~= Seq::<char>::empty());
    } else {
        lemma_words_state_of_join(w);
        assert(w.last() == w[w.len() - 1]);
        assert(w.drop_last().push(w.last()) =~= w);
    }
}

/// Text with no comment opener has no comment to strip.
proof fn lemma_strip_without_opener(t: Seq<char>)
    requires
        no_comment_opener(t),
    ensures
        strip_comments(t) == t,
    decreases t.len(),
{
    if t.len() > 0 {
        if t.len() > 1 {
            assert(!(t[0] == '/' && (t[1] == '/' || t[1] == '*')));
        }
        let rest = t.drop_first();
        assert forall|i: int| 0 <= i < rest.len() - 1 implies !((#[trigger] rest[i]) == '/' && (rest[i + 1] == '/' || rest[i + 1] == '*')) by {
            assert(rest[i] == t[i + 1] && rest[i + 1] == t[i + 2]);
        }
        lemma_strip_without_opener(rest);
        assert(seq![t[0]] + rest =~= t);
    }
}

/// A normalised text is already in collapsed form: its words joined by
/// single spaces give it back, with no white space at either end and no two
/// spaces in a row. A text with no `/` is normalised by collapsing its white
/// space alone.
pub proof fn lemma_normalized_is_collapsed(source: Seq<char>)
    ensures
        join_words(words(normalized(source))) == normalized(source),
        (forall|i: int| 0 <= i < source.len() ==> #[trigger] source[i] != '/')
            ==> normalized(source) == join_words(words(source)),
{
    let w = words(strip_comments(source));
    lemma_words_are_words(strip_comments(source));
    lemma_words_of_join(w);
    if forall|i: int| 0 <= i < source.len() ==> #[trigger] source[i] != '/' {
        assert forall|i: int| 0 <= i < source.len() - 1 implies !((#[trigger] source[i]) == '/'
            && (source[i + 1] == '/' || source[i + 1] == '*')) by {}
        lemma_strip_without_opener(source);
    }
}

/// Normalising twice is normalising once.
pub proof fn lemma_normalize_idempotent(source: Seq<char>)
    ensures
        normalized(normalized(source)) == normalized(source),
{
    let n = normalized(source);
    lemma_normalized_no_opener(source);
    lemma_strip_without_opener(n);
    lemma_normalized_is_collapsed(source);
}

} // verus!
