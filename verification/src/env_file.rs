//! `.env` files: splitting text into lines the way `str::lines` does, and
//! inserting or updating a `KEY=VALUE` assignment.
use vstd::prelude::*;
use crate::text::{chars_of, string_from_chars};

verus! {

/// The number of characters before the first `'\n'` of `s` (all of them
/// when there is none).
pub open spec fn line_len(s: Seq<char>) -> nat
    decreases s.len(),
{
    if s.len() == 0 || s[0] == '\n' {
        0
    } else {
        1 + line_len(s.drop_first())
    }
}

/// `l` without one trailing carriage return.
pub open spec fn strip_cr(l: Seq<char>) -> Seq<char> {
    if l.len() > 0 && l.last() == '\r' {
        l.drop_last()
    } else {
        l
    }
}

/// The lines of `s` as `str::lines` yields them: split after each `'\n'`,
/// the `'\n'` and one `'\r'` before it removed, and no empty line after a
/// final `'\n'`.
pub open spec fn lines(s: Seq<char>) -> Seq<Seq<char>>
    decreases s.len(),
{
    if s.len() == 0 {
        seq![]
    } else {
        let k = line_len(s);
        if k < s.len() {
            seq![strip_cr(s.take(k as int))] + lines(s.skip((k + 1) as int))
        } else {
            seq![s]
        }
    }
}

/// The lines joined with `'\n'` between them, as `join("\n")` does.
pub open spec fn join_lines(ls: Seq<Seq<char>>) -> Seq<char>
    decreases ls.len(),
{
    if ls.len() == 0 {
        seq![]
    } else if ls.len() == 1 {
        ls[0]
    } else {
        ls[0] + seq!['\n'] + join_lines(ls.drop_first())
    }
}

pub open spec fn starts_with(s: Seq<char>, p: Seq<char>) -> bool {
    p.len() <= s.len() && s.take(p.len() as int) == p
}

/// The line `KEY=VALUE`.
pub open spec fn assignment(key: Seq<char>, value: Seq<char>) -> Seq<char> {
    key + seq!['='] + value
}

/// Whether `line` assigns `key`, that is, starts with `KEY=`.
pub open spec fn assigns(line: Seq<char>, key: Seq<char>) -> bool {
    starts_with(line, key.push('='))
}

pub open spec fn has_assignment(ls: Seq<Seq<char>>, key: Seq<char>) -> bool {
    exists|i: int| 0 <= i < ls.len() && assigns(#[trigger] ls[i], key)
}

/// Every line that assigns `key` replaced by `KEY=VALUE`.
pub open spec fn reassigned(ls: Seq<Seq<char>>, key: Seq<char>, value: Seq<char>) -> Seq<
    Seq<char>,
> {
    ls.map_values(|l: Seq<char>| if assigns(l, key) { assignment(key, value) } else { l })
}

pub open spec fn ensure_newline(s: Seq<char>) -> Seq<char> {
    if s.len() > 0 && s.last() == '\n' {
        s
    } else {
        s.push('\n')
    }
}

/// The `.env` text after setting `key` to `value` in `existing`: where some
/// line assigns the key, the lines are rejoined with every such line
/// replaced; otherwise `KEY=VALUE` is appended after a `'\n'`. Either way
/// the text is made to end with `'\n'`.
pub open spec fn upserted(existing: Seq<char>, key: Seq<char>, value: Seq<char>) -> Seq<char> {
    let ls = lines(existing);
    ensure_newline(
        if has_assignment(ls, key) {
            join_lines(reassigned(ls, key, value))
        } else {
            existing + seq!['\n'] + assignment(key, value)
        },
    )
}

proof fn lemma_line_len_facts(s: Seq<char>)
    ensures
        line_len(s) <= s.len(),
        forall|j: int| 0 <= j < line_len(s) ==> s[j] != '\n',
        line_len(s) < s.len() ==> s[line_len(s) as int] == '\n',
    decreases s.len(),
{
    if s.len() > 0 && s[0] != '\n' {
        lemma_line_len_facts(s.drop_first());
        assert forall|j: int| 0 <= j < line_len(s) implies s[j] != '\n' by {
            if j > 0 {
                assert(s[j] == s.drop_first()[j - 1]);
            }
        }
    }
}

/// `line_len` is the position of the first `'\n'`.
proof fn lemma_line_len_is(s: Seq<char>, k: int)
    requires
        0 <= k <= s.len(),
        forall|j: int| 0 <= j < k ==> s[j] != '\n',
        k == s.len() || s[k] == '\n',
    ensures
        line_len(s) == k,
    decreases k,
{
    if k > 0 {
        assert forall|j: int| 0 <= j < k - 1 implies s.drop_first()[j] != '\n' by {
            assert(s[j + 1] != '\n');
        }
        lemma_line_len_is(s.drop_first(), k - 1);
    }
}

/// The texts held by a vector of character vectors.
pub open spec fn texts(ls: Seq<Vec<char>>) -> Seq<Seq<char>> {
    ls.map_values(|l: Vec<char>| l@)
}

fn strip_cr_vec(l: &mut Vec<char>)
    ensures
        final(l)@ == strip_cr(old(l)@),
{
    let n = l.len();
    if n > 0 && l[n - 1] == '\r' {
        l.pop();
    }
}

/// Splits text into lines as `str::lines` does.
pub fn split_lines(s: &Vec<char>) -> (ls: Vec<Vec<char>>)
    ensures
        texts(ls@) == lines(s@),
{
    let n = s.len();
    let mut ls: Vec<Vec<char>> = Vec::new();
    let mut cur: Vec<char> = Vec::new();
    let mut start: usize = 0;
    let mut i: usize = 0;
    assert(s@.skip(0) =~= s@);
    while i < n
        invariant
            start <= i <= n == s@.len(),
            lines(s@) == texts(ls@) + lines(s@.skip(start as int)),
            cur@ == s@.subrange(start as int, i as int),
            forall|j: int| start <= j < i ==> s@[j] != '\n',
        decreases n - i,
    {
        if s[i] == '\n' {
            let ghost t = s@.skip(start as int);
            proof {
                lemma_line_len_is(t, i - start);
                assert(t.take(i - start) =~= cur@);
                assert(t.skip(i - start + 1) =~= s@.skip(i + 1));
            }
            let mut line = cur;
            strip_cr_vec(&mut line);
            let ghost before = texts(ls@);
            ls.push(line);
            assert(texts(ls@) =~= before.push(strip_cr(t.take(i - start))));
            cur = Vec::new();
            start = i + 1;
        } else {
            cur.push(s[i]);
        }
        i = i + 1;
    }
    if start < n {
        let ghost t = s@.skip(start as int);
        proof {
            lemma_line_len_is(t, n - start);
            assert(cur@ =~= t);
        }
        let ghost before = texts(ls@);
        ls.push(cur);
        assert(texts(ls@) =~= before.push(t));
    } else {
        assert(s@.skip(start as int) =~= Seq::<char>::empty());
    }
    ls
}

proof fn lemma_join_push(xs: Seq<Seq<char>>, x: Seq<char>)
    requires
        xs.len() > 0,
    ensures
        join_lines(xs.push(x)) == join_lines(xs) + seq!['\n'] + x,
    decreases xs.len(),
{
    if xs.len() == 1 {
        assert(xs.push(x).drop_first() =~= seq![x]);
        assert(join_lines(seq![x]) == x);
        assert(join_lines(xs) == xs[0]);
    } else {
        lemma_join_push(xs.drop_first(), x);
        assert(xs.push(x).drop_first() =~= xs.drop_first().push(x));
        assert(join_lines(xs.push(x)) =~= join_lines(xs) + seq!['\n'] + x);
    }
}

/// Appends the characters of `src` to `dst`.
pub fn append_chars(dst: &mut Vec<char>, src: &Vec<char>)
    ensures
        final(dst)@ == old(dst)@ + src@,
{
    let ghost start = dst@;
    let mut i: usize = 0;
    while i < src.len()
        invariant
            i <= src@.len(),
            dst@ == start + src@.take(i as int),
        decreases src.len() - i,
    {
        dst.push(src[i]);
        i = i + 1;
    }
    assert(src@.take(src@.len() as int) =~= src@);
}

/// Whether `s` starts with `p`.
pub fn starts_with_chars(s: &Vec<char>, p: &Vec<char>) -> (b: bool)
    ensures
        b == starts_with(s@, p@),
{
    if p.len() > s.len() {
        return false;
    }
    let mut i: usize = 0;
    while i < p.len()
        invariant
            p@.len() <= s@.len(),
            i <= p@.len(),
            forall|j: int| 0 <= j < i ==> s@[j] == p@[j],
        decreases p.len() - i,
    {
        if s[i] != p[i] {
            assert(s@.take(p@.len() as int)[i as int] != p@[i as int]);
            return false;
        }
        i = i + 1;
    }
    assert(s@.take(p@.len() as int) =~= p@);
    true
}

/// Inserts or updates the line `KEY=VALUE` in the text of a `.env` file.
pub fn upsert_env_content(existing: &str, key: &str, value: &str) -> (r: String)
    ensures
        r@ == upserted(existing@, key@, value@),
{
    let cs = chars_of(existing);
    let ls = split_lines(&cs);
    let mut prefix = chars_of(key);
    prefix.push('=');
    let mut new_line: Vec<char> = Vec::new();
    append_chars(&mut new_line, &prefix);
    let vcs = chars_of(value);
    append_chars(&mut new_line, &vcs);
    assert(new_line@ =~= assignment(key@, value@));
    let ghost all = texts(ls@);
    let ghost k = key@;
    let ghost v = value@;
    let mut out: Vec<char> = Vec::new();
    let mut found = false;
    let mut i: usize = 0;
    while i < ls.len()
        invariant
            i <= ls@.len(),
            all == texts(ls@),
            prefix@ == k.push('='),
            new_line@ == assignment(k, v),
            out@ == join_lines(reassigned(all.take(i as int), k, v)),
            found == has_assignment(all.take(i as int), k),
        decreases ls.len() - i,
    {
        let ghost before = reassigned(all.take(i as int), k, v);
        let ghost line = all[i as int];
        assert(reassigned(all.take(i + 1), k, v) =~= before.push(
            if assigns(line, k) { assignment(k, v) } else { line },
        ));
        if i > 0 {
            out.push('\n');
        }
        let hit = starts_with_chars(&ls[i], &prefix);
        if hit {
            append_chars(&mut out, &new_line);
            found = true;
        } else {
            append_chars(&mut out, &ls[i]);
        }
        proof {
            if i > 0 {
                lemma_join_push(before, if assigns(line, k) { assignment(k, v) } else { line });
            } else {
                assert(before.len() == 0);
            }
            let t = all.take(i + 1);
            if hit {
                assert(t[i as int] == line);
                assert(has_assignment(t, k));
            } else if found {
                let w = choose|w: int| 0 <= w < i && assigns(#[trigger] all.take(i as int)[w], k);
                assert(t[w] == all.take(i as int)[w]);
                assert(has_assignment(t, k));
            } else {
                assert forall|w: int| 0 <= w < t.len() implies !assigns(#[trigger] t[w], k) by {
                    if w < i {
                        assert(t[w] == all.take(i as int)[w]);
                    }
                }
            }
        }
        i = i + 1;
    }
    assert(all.take(ls@.len() as int) =~= all);
    let mut content: Vec<char>;
    if found {
        content = out;
    } else {
        content = cs;
        content.push('\n');
        append_chars(&mut content, &new_line);
    }
    let n = content.len();
    if !(n > 0 && content[n - 1] == '\n') {
        content.push('\n');
    }
    string_from_chars(content.as_slice())
}

pub open spec fn no_break(s: Seq<char>) -> bool {
    forall|j: int| 0 <= j < s.len() ==> s[j] != '\n'
}

pub open spec fn no_line_break(s: Seq<char>) -> bool {
    forall|j: int| 0 <= j < s.len() ==> s[j] != '\n' && s[j] != '\r'
}

proof fn lemma_first_line(a: Seq<char>, t: Seq<char>)
    requires
        no_break(a),
    ensures
        lines(a + seq!['\n'] + t) == seq![strip_cr(a)] + lines(t),
{
    let s = a + seq!['\n'] + t;
    lemma_line_len_is(s, a.len() as int);
    assert(s.take(a.len() as int) =~= a);
    assert(s.skip(a.len() + 1int) =~= t);
}

/// The lines of `x` followed by `'\n'`.
proof fn lemma_lines_newline(x: Seq<char>)
    ensures
        lines(x.push('\n')) == if x.len() == 0 {
            seq![Seq::<char>::empty()]
        } else if x.last() == '\n' {
            lines(x).push(Seq::<char>::empty())
        } else {
            lines(x).drop_last().push(strip_cr(lines(x).last()))
        },
    decreases x.len(),
{
    lemma_line_len_facts(x);
    let k = line_len(x);
    if k == x.len() {
        lemma_first_line(x, Seq::<char>::empty());
        assert(x + seq!['\n'] + Seq::<char>::empty() =~= x.push('\n'));
        assert(lines(Seq::<char>::empty()) =~= Seq::<Seq<char>>::empty());
        assert(lines(x.push('\n')) =~= seq![strip_cr(x)]);
        if x.len() == 0 {
            assert(strip_cr(x) =~= Seq::<char>::empty());
        } else {
            assert(x.last() != '\n');
            assert(lines(x) =~= seq![x]);
            assert(lines(x).drop_last().push(strip_cr(lines(x).last())) =~= seq![strip_cr(x)]);
        }
    } else {
        let a = x.take(k as int);
        let y = x.skip(k + 1int);
        assert(no_break(a));
        assert(x =~= a + seq!['\n'] + y);
        lemma_first_line(a, y);
        lemma_first_line(a, y.push('\n'));
        assert(x.push('\n') =~= a + seq!['\n'] + y.push('\n'));
        lemma_lines_newline(y);
        if y.len() == 0 {
            assert(lines(y) =~= Seq::<Seq<char>>::empty());
        } else {
            assert(x.last() == y.last());
            assert(lines(y).len() > 0);
        }
        let sa = seq![strip_cr(a)];
        if y.len() == 0 {
            assert(x.last() == '\n');
            assert(lines(x.push('\n')) =~= lines(x).push(Seq::<char>::empty()));
        } else if y.last() == '\n' {
            assert(lines(x.push('\n')) =~= lines(x).push(Seq::<char>::empty()));
        } else {
            assert(lines(x).drop_last() =~= sa + lines(y).drop_last());
            assert(lines(x).last() == lines(y).last());
            assert(lines(x.push('\n')) =~= lines(x).drop_last().push(strip_cr(lines(x).last())));
        }
    }
}

/// Lines split at a `'\n'` are the lines before it and the lines after it.
proof fn lemma_lines_split(x: Seq<char>, t: Seq<char>)
    ensures
        lines(x + seq!['\n'] + t) == lines(x.push('\n')) + lines(t),
    decreases x.len(),
{
    lemma_line_len_facts(x);
    let k = line_len(x);
    if k == x.len() {
        lemma_first_line(x, t);
        lemma_first_line(x, Seq::<char>::empty());
        assert(x + seq!['\n'] + Seq::<char>::empty() =~= x.push('\n'));
        assert(lines(Seq::<char>::empty()) =~= Seq::<Seq<char>>::empty());
        assert(seq![strip_cr(x)] + Seq::<Seq<char>>::empty() =~= seq![strip_cr(x)]);
    } else {
        let a = x.take(k as int);
        let y = x.skip(k + 1int);
        assert(no_break(a));
        assert(x + seq!['\n'] + t =~= a + seq!['\n'] + (y + seq!['\n'] + t));
        assert(x.push('\n') =~= a + seq!['\n'] + y.push('\n'));
        lemma_first_line(a, y + seq!['\n'] + t);
        lemma_first_line(a, y.push('\n'));
        lemma_lines_split(y, t);
        assert(lines(x + seq!['\n'] + t) =~= lines(x.push('\n')) + lines(t));
    }
}

/// No line holds a `'\n'`.
proof fn lemma_lines_no_break(s: Seq<char>)
    ensures
        forall|i: int| 0 <= i < lines(s).len() ==> no_break(#[trigger] lines(s)[i]),
    decreases s.len(),
{
    if s.len() > 0 {
        lemma_line_len_facts(s);
        let k = line_len(s);
        if k < s.len() {
            lemma_lines_no_break(s.skip(k + 1int));
            let a = s.take(k as int);
            assert(no_break(strip_cr(a)));
            assert forall|i: int| 0 <= i < lines(s).len() implies no_break(#[trigger] lines(s)[i]) by {
                if i > 0 {
                    assert(lines(s)[i] == lines(s.skip(k + 1int))[i - 1]);
                }
            }
        }
    }
}

/// Joining lines that hold no `'\n'` and ending with `'\n'` gives back
/// those lines, each without one trailing `'\r'`.
proof fn lemma_lines_join(m: Seq<Seq<char>>)
    requires
        m.len() > 0,
        forall|i: int| 0 <= i < m.len() ==> no_break(#[trigger] m[i]),
    ensures
        lines(join_lines(m).push('\n')) == m.map_values(|l: Seq<char>| strip_cr(l)),
    decreases m.len(),
{
    assert(no_break(m[0]));
    if m.len() == 1 {
        lemma_first_line(m[0], Seq::<char>::empty());
        assert(m[0] + seq!['\n'] + Seq::<char>::empty() =~= m[0].push('\n'));
        assert(lines(Seq::<char>::empty()) =~= Seq::<Seq<char>>::empty());
        assert(lines(join_lines(m).push('\n')) =~= m.map_values(|l: Seq<char>| strip_cr(l)));
    } else {
        let rest = m.drop_first();
        assert forall|i: int| 0 <= i < rest.len() implies no_break(#[trigger] rest[i]) by {
            assert(rest[i] == m[i + 1]);
        }
        lemma_lines_join(rest);
        assert(join_lines(m).push('\n') =~= m[0] + seq!['\n'] + join_lines(rest).push('\n'));
        lemma_first_line(m[0], join_lines(rest).push('\n'));
        assert(lines(join_lines(m).push('\n')) =~= m.map_values(|l: Seq<char>| strip_cr(l)));
    }
}

proof fn lemma_strip_cr_assigns(l: Seq<char>, key: Seq<char>)
    ensures
        assigns(strip_cr(l), key) ==> assigns(l, key),
        strip_cr(l).len() <= l.len(),
{
    if assigns(strip_cr(l), key) {
        let p = key.push('=');
        assert(l.take(p.len() as int) =~= strip_cr(l).take(p.len() as int));
    }
}

/// The lines of the updated text, in terms of the lines of the old one.
proof fn lemma_upserted_lines(existing: Seq<char>, key: Seq<char>, value: Seq<char>)
    requires
        no_break(key),
        no_line_break(value),
    ensures
        ({
            let ls = lines(existing);
            let m = reassigned(ls, key, value);
            let kept = if m.len() >= 2 && m.last().len() == 0 {
                m.drop_last()
            } else {
                m
            };
            lines(upserted(existing, key, value)) == if has_assignment(ls, key) {
                kept.map_values(|l: Seq<char>| strip_cr(l))
            } else {
                lines(existing.push('\n')).push(assignment(key, value))
            }
        }),
{
    let ls = lines(existing);
    let nl = assignment(key, value);
    let m = reassigned(ls, key, value);
    assert(no_break(nl)) by {
        assert forall|j: int| 0 <= j < nl.len() implies nl[j] != '\n' by {
            if j < key.len() {
                assert(nl[j] == key[j]);
            } else if j > key.len() {
                assert(nl[j] == value[j - key.len() - 1]);
            }
        }
    }
    assert(nl.len() > 0 && nl.last() != '\n' && nl.last() != '\r') by {
        if value.len() > 0 {
            assert(nl.last() == value.last());
        }
    }
    assert(strip_cr(nl) == nl);
    if has_assignment(ls, key) {
        lemma_lines_no_break(existing);
        assert forall|i: int| 0 <= i < m.len() implies no_break(#[trigger] m[i]) by {
            assert(no_break(ls[i]));
        }
        let joined = join_lines(m);
        if m.len() >= 2 && m.last().len() == 0 {
            let front = m.drop_last();
            assert(m =~= front.push(m.last()));
            lemma_join_push(front, m.last());
            assert(joined =~= join_lines(front).push('\n'));
            assert forall|i: int| 0 <= i < front.len() implies no_break(#[trigger] front[i]) by {
                assert(front[i] == m[i]);
            }
            lemma_lines_join(front);
        } else {
            if m.len() == 1 {
                assert(joined == m[0]);
                if joined.len() > 0 {
                    assert(no_break(m[0]));
                    assert(joined.last() == m[0][m[0].len() - 1]);
                }
            } else {
                let front = m.drop_last();
                assert(m =~= front.push(m.last()));
                lemma_join_push(front, m.last());
                assert(no_break(m.last()));
                assert(joined.last() == m.last()[m.last().len() - 1]);
            }
            assert(ensure_newline(joined) == joined.push('\n'));
            lemma_lines_join(m);
        }
    } else {
        let content = existing + seq!['\n'] + nl;
        assert(content.last() == nl.last());
        assert(ensure_newline(content) =~= existing + seq!['\n'] + nl.push('\n'));
        lemma_lines_split(existing, nl.push('\n'));
        lemma_first_line(nl, Seq::<char>::empty());
        assert(nl + seq!['\n'] + Seq::<char>::empty() =~= nl.push('\n'));
        assert(lines(Seq::<char>::empty()) =~= Seq::<Seq<char>>::empty());
        assert(lines(nl.push('\n')) =~= seq![nl]);
        assert(lines(upserted(existing, key, value)) =~= lines(existing.push('\n')).push(nl));
    }
}

/// Setting a key always leaves text that ends with a line break.
pub proof fn law_upsert_ends_with_newline(existing: Seq<char>, key: Seq<char>, value: Seq<char>)
    ensures
        upserted(existing, key, value).len() > 0,
        upserted(existing, key, value).last() == '\n',
{
}

/// After setting a key (neither the key nor the value holding a line break),
/// the file has the line `KEY=VALUE`.
pub proof fn law_upsert_sets_key(existing: Seq<char>, key: Seq<char>, value: Seq<char>)
    requires
        no_break(key),
        no_line_break(value),
    ensures
        lines(upserted(existing, key, value)).contains(assignment(key, value)),
{
    lemma_upserted_lines(existing, key, value);
    let ls = lines(existing);
    let nl = assignment(key, value);
    let m = reassigned(ls, key, value);
    let u = lines(upserted(existing, key, value));
    if has_assignment(ls, key) {
        let i = choose|i: int| 0 <= i < ls.len() && assigns(#[trigger] ls[i], key);
        assert(m[i] == nl);
        assert(nl.len() > 0);
        assert(strip_cr(nl) == nl) by {
            if value.len() > 0 {
                assert(nl.last() == value.last());
            }
        }
        assert(u[i] == nl);
    } else {
        assert(u[u.len() - 1] == nl);
    }
}

/// After setting a key, every line that assigns it assigns the new value:
/// no earlier value is left behind.
pub proof fn law_upsert_replaces_old_values(
    existing: Seq<char>,
    key: Seq<char>,
    value: Seq<char>,
)
    requires
        no_break(key),
        no_line_break(value),
    ensures
        forall|j: int|
            0 <= j < lines(upserted(existing, key, value)).len() && assigns(
                #[trigger] lines(upserted(existing, key, value))[j],
                key,
            ) ==> lines(upserted(existing, key, value))[j] == assignment(key, value),
{
    lemma_upserted_lines(existing, key, value);
    let ls = lines(existing);
    let nl = assignment(key, value);
    let m = reassigned(ls, key, value);
    let u = lines(upserted(existing, key, value));
    assert(strip_cr(nl) == nl) by {
        if value.len() > 0 {
            assert(nl.last() == value.last());
        }
    }
    assert forall|j: int| 0 <= j < u.len() && assigns(#[trigger] u[j], key) implies u[j] == nl by {
        if has_assignment(ls, key) {
            lemma_strip_cr_assigns(m[j], key);
            if !assigns(ls[j], key) {
                assert(m[j] == ls[j]);
            }
        } else {
            lemma_lines_newline(existing);
            if j < u.len() - 1 {
                let w = lines(existing.push('\n'));
                assert(u[j] == w[j]);
                if existing.len() == 0 {
                    assert(w[j].len() == 0);
                } else if existing.last() == '\n' {
                    if j < ls.len() {
                        assert(w[j] == ls[j]);
                    } else {
                        assert(w[j].len() == 0);
                    }
                } else if j < ls.len() - 1 {
                    assert(w[j] == ls[j]);
                } else {
                    lemma_strip_cr_assigns(ls[j], key);
                }
            }
        }
    }
}

/// After setting a key, every other nonempty line of the old text (one not
/// ending in a carriage return) is still a line of the file.
pub proof fn law_upsert_keeps_other_lines(
    existing: Seq<char>,
    key: Seq<char>,
    value: Seq<char>,
    line: Seq<char>,
)
    requires
        no_break(key),
        no_line_break(value),
        lines(existing).contains(line),
        !assigns(line, key),
        line.len() > 0,
        line.last() != '\r',
    ensures
        lines(upserted(existing, key, value)).contains(line),
{
    lemma_upserted_lines(existing, key, value);
    let ls = lines(existing);
    let m = reassigned(ls, key, value);
    let u = lines(upserted(existing, key, value));
    let i = choose|i: int| 0 <= i < ls.len() && ls[i] == line;
    if has_assignment(ls, key) {
        assert(m[i] == line);
        assert(u[i] == line);
    } else {
        lemma_lines_newline(existing);
        let w = lines(existing.push('\n'));
        if existing.last() == '\n' || i < ls.len() - 1 {
            assert(w[i] == line);
            assert(u[i] == line);
        } else {
            assert(w[i] == strip_cr(line));
            assert(u[i] == line);
        }
    }
}

pub open spec fn no_cr(s: Seq<char>) -> bool {
    forall|j: int| 0 <= j < s.len() ==> s[j] != '\r'
}

/// Whether `s` ends with an empty line, that is, with `"\n\n"`.
pub open spec fn ends_with_blank_line(s: Seq<char>) -> bool {
    s.len() >= 2 && s[s.len() - 1] == '\n' && s[s.len() - 2] == '\n'
}

/// Lines of text without carriage returns have none either.
proof fn lemma_lines_no_cr(s: Seq<char>)
    requires
        no_cr(s),
    ensures
        forall|i: int| 0 <= i < lines(s).len() ==> no_cr(#[trigger] lines(s)[i]),
    decreases s.len(),
{
    if s.len() > 0 {
        lemma_line_len_facts(s);
        let k = line_len(s);
        if k < s.len() {
            let y = s.skip(k + 1int);
            assert(no_cr(y)) by {
                assert forall|j: int| 0 <= j < y.len() implies y[j] != '\r' by {
                    assert(y[j] == s[j + k + 1]);
                }
            }
            lemma_lines_no_cr(y);
            let a = s.take(k as int);
            assert(no_cr(strip_cr(a)));
            assert forall|i: int| 0 <= i < lines(s).len() implies no_cr(#[trigger] lines(s)[i]) by {
                if i > 0 {
                    assert(lines(s)[i] == lines(y)[i - 1]);
                }
            }
        }
    }
}

/// Text that does not end with `'\n'` ends with a nonempty line.
proof fn lemma_last_line_nonempty(s: Seq<char>)
    requires
        s.len() > 0,
        s.last() != '\n',
    ensures
        lines(s).len() > 0,
        lines(s).last().len() > 0,
    decreases s.len(),
{
    lemma_line_len_facts(s);
    let k = line_len(s);
    if k < s.len() {
        let y = s.skip(k + 1int);
        assert(y.len() > 0 && y.last() == s.last());
        lemma_last_line_nonempty(y);
        assert(lines(s).last() == lines(y).last());
    }
}

/// Text without carriage returns, ended with `'\n'`, is its lines joined.
proof fn lemma_join_lines_newline(x: Seq<char>)
    requires
        no_cr(x),
    ensures
        lines(x.push('\n')).len() > 0,
        join_lines(lines(x.push('\n'))) == x,
    decreases x.len(),
{
    lemma_line_len_facts(x);
    let k = line_len(x);
    if k == x.len() {
        lemma_first_line(x, Seq::<char>::empty());
        assert(x + seq!['\n'] + Seq::<char>::empty() =~= x.push('\n'));
        assert(lines(Seq::<char>::empty()) =~= Seq::<Seq<char>>::empty());
        assert(strip_cr(x) == x);
        assert(lines(x.push('\n')) =~= seq![x]);
    } else {
        let a = x.take(k as int);
        let y = x.skip(k + 1int);
        assert(no_break(a));
        assert(no_cr(y)) by {
            assert forall|j: int| 0 <= j < y.len() implies y[j] != '\r' by {
                assert(y[j] == x[j + k + 1]);
            }
        }
        assert(x.push('\n') =~= a + seq!['\n'] + y.push('\n'));
        lemma_first_line(a, y.push('\n'));
        assert(strip_cr(a) == a) by {
            if a.len() > 0 {
                assert(a.last() == x[k - 1]);
            }
        }
        lemma_join_lines_newline(y);
        let rest = lines(y.push('\n'));
        let all = lines(x.push('\n'));
        assert(all =~= seq![a] + rest);
        assert(all.drop_first() =~= rest);
        assert(join_lines(all) =~= a + seq!['\n'] + y);
        assert(x =~= a + seq!['\n'] + y);
    }
}

/// Where every line that assigns `key` already assigns `value`, setting the
/// key again changes no line.
proof fn lemma_reassigned_fixed(ls: Seq<Seq<char>>, key: Seq<char>, value: Seq<char>)
    requires
        forall|i: int| 0 <= i < ls.len() && assigns(#[trigger] ls[i], key) ==> ls[i] == assignment(key, value),
    ensures
        reassigned(ls, key, value) == ls,
{
    assert(reassigned(ls, key, value) =~= ls);
}

/// Setting a key twice to the same value gives the same text as setting it
/// once, for text without carriage returns that does not end with an empty
/// line, and a key and value without line breaks.
pub proof fn law_upsert_idempotent(existing: Seq<char>, key: Seq<char>, value: Seq<char>)
    requires
        no_cr(existing),
        !ends_with_blank_line(existing),
        no_line_break(key),
        no_line_break(value),
    ensures
        upserted(upserted(existing, key, value), key, value) == upserted(existing, key, value),
{
    assert(no_break(key));
    let c1 = upserted(existing, key, value);
    let ls = lines(existing);
    let nl = assignment(key, value);
    let m = reassigned(ls, key, value);
    lemma_upserted_lines(existing, key, value);
    law_upsert_sets_key(existing, key, value);
    law_upsert_replaces_old_values(existing, key, value);
    let l1 = lines(c1);
    let i = choose|i: int| 0 <= i < l1.len() && l1[i] == nl;
    assert(assigns(nl, key)) by {
        assert(nl.take(key.push('=').len() as int) =~= key.push('='));
    }
    assert(has_assignment(l1, key)) by {
        assert(assigns(l1[i], key));
    }
    lemma_reassigned_fixed(l1, key, value);
    assert(no_cr(nl) && (nl.len() > 0 && nl.last() != '\n')) by {
        assert forall|j: int| 0 <= j < nl.len() implies nl[j] != '\r' by {
            if j > key.len() {
                assert(nl[j] == value[j - key.len() - 1]);
            } else if j < key.len() {
                assert(nl[j] == key[j]);
            }
        }
        if value.len() > 0 {
            assert(nl.last() == value.last());
        }
    }
    lemma_lines_no_cr(existing);
    if has_assignment(ls, key) {
        // The lines come back unchanged, so the second pass rejoins the same lines.
        assert forall|j: int| 0 <= j < m.len() implies no_cr(#[trigger] m[j]) by {
            assert(no_cr(ls[j]));
        }
        if m.len() >= 2 {
            assert(existing.len() > 0);
            if existing.last() != '\n' {
                lemma_last_line_nonempty(existing);
            } else {
                let x = existing.drop_last();
                assert(existing =~= x.push('\n'));
                lemma_lines_newline(x);
                if x.len() > 0 {
                    assert(x.last() != '\n');
                    assert(no_cr(x));
                    lemma_last_line_nonempty(x);
                    lemma_lines_no_cr(x);
                    assert(no_cr(lines(x).last()));
                    assert(lines(x).last().last() != '\r');
                    assert(ls.last() == strip_cr(lines(x).last()));
                }
            }
            assert(ls.last().len() > 0);
            assert(m.last().len() > 0);
        }
        assert(l1 =~= m) by {
            assert forall|j: int| 0 <= j < m.len() implies strip_cr(#[trigger] m[j]) == m[j] by {
                assert(no_cr(m[j]));
                if m[j].len() > 0 {
                    assert(m[j].last() != '\r');
                }
            }
        }
    } else {
        let x = existing + seq!['\n'] + nl;
        assert(c1 =~= x.push('\n'));
        assert(no_cr(x)) by {
            assert forall|j: int| 0 <= j < x.len() implies x[j] != '\r' by {
                if j > existing.len() {
                    assert(x[j] == nl[j - existing.len() - 1]);
                } else if j < existing.len() {
                    assert(x[j] == existing[j]);
                }
            }
        }
        lemma_join_lines_newline(x);
        assert(x.last() == nl.last());
    }
}

} // verus!
