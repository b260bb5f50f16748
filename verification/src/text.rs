//! Text as sequences of characters: scanning, trimming, joining.

use vstd::prelude::*;

verus! {

/// `String::push` appends the character at the end.
pub assume_specification[ String::push ](s: &mut String, c: char)
    ensures
        final(s)@ == old(s)@.push(c),
;

/// The texts that a sequence of strings holds.
pub open spec fn texts(strings: Seq<String>) -> Seq<Seq<char>> {
    strings.map_values(|s: String| s@)
}

/// Pushing a string pushes its text.
pub(crate) proof fn lemma_texts_push(strings: Seq<String>, s: String)
    ensures
        texts(strings.push(s)) == texts(strings).push(s@),
{
    assert(texts(strings.push(s)) =~= texts(strings).push(s@));
}

/// The parts one after the other, with `sep` between any two neighbours.
pub open spec fn join(parts: Seq<Seq<char>>, sep: Seq<char>) -> Seq<char>
    decreases parts.len(),
{
    if parts.len() == 0 {
        Seq::empty()
    } else {
        let gap = if parts.len() == 1 { Seq::empty() } else { sep };
        join(parts.drop_last(), sep) + gap + parts.last()
    }
}

/// Whether `c` has Unicode's White_Space property.
pub open spec fn is_white(c: char) -> bool {
    ||| '\u{9}' <= c && c <= '\u{d}'
    ||| c == ' '
    ||| c == '\u{85}'
    ||| c == '\u{a0}'
    ||| c == '\u{1680}'
    ||| '\u{2000}' <= c && c <= '\u{200a}'
    ||| c == '\u{2028}'
    ||| c == '\u{2029}'
    ||| c == '\u{202f}'
    ||| c == '\u{205f}'
    ||| c == '\u{3000}'
}

/// The predicate that accepts white space.
pub open spec fn white() -> spec_fn(char) -> bool {
    |c: char| is_white(c)
}

/// The predicate that accepts `c` alone.
pub open spec fn only(c: char) -> spec_fn(char) -> bool {
    |d: char| d == c
}

/// `s` without the longest run at its start of characters that `p` accepts.
pub open spec fn trim_start(s: Seq<char>, p: spec_fn(char) -> bool) -> Seq<char>
    decreases s.len(),
{
    if s.len() > 0 && p(s.first()) {
        trim_start(s.drop_first(), p)
    } else {
        s
    }
}

/// `s` without the longest run at its end of characters that `p` accepts.
pub open spec fn trim_end(s: Seq<char>, p: spec_fn(char) -> bool) -> Seq<char>
    decreases s.len(),
{
    if s.len() > 0 && p(s.last()) {
        trim_end(s.drop_last(), p)
    } else {
        s
    }
}

/// `s` without the white space around it.
pub open spec fn trim(s: Seq<char>) -> Seq<char> {
    trim_end(trim_start(s, white()), white())
}

/// `s` without the run of `c` at its start.
pub open spec fn without_leading(s: Seq<char>, c: char) -> Seq<char> {
    trim_start(s, only(c))
}

/// `s` without the run of `c` at its end.
pub open spec fn without_trailing(s: Seq<char>, c: char) -> Seq<char> {
    trim_end(s, only(c))
}

/// How far trimming at the start reaches.
pub(crate) proof fn lemma_trim_start(s: Seq<char>, p: spec_fn(char) -> bool, k: int)
    requires
        0 <= k <= s.len(),
        forall|i: int| 0 <= i < k ==> p(#[trigger] s[i]),
        k < s.len() ==> !p(s[k]),
    ensures
        trim_start(s, p) == s.skip(k),
    decreases k,
{
    if k > 0 {
        assert(p(s[0]));
        lemma_trim_start(s.drop_first(), p, k - 1);
        assert(s.drop_first().skip(k - 1) == s.skip(k));
    } else {
        assert(s.skip(0) == s);
    }
}

proof fn lemma_trim_end(s: Seq<char>, p: spec_fn(char) -> bool, k: int)
    requires
        0 <= k <= s.len(),
        forall|i: int| k <= i < s.len() ==> p(#[trigger] s[i]),
        k > 0 ==> !p(s[k - 1]),
    ensures
        trim_end(s, p) == s.take(k),
    decreases s.len(),
{
    if k < s.len() {
        assert(p(s[s.len() - 1]));
        lemma_trim_end(s.drop_last(), p, k);
        assert(s.drop_last().take(k) == s.take(k));
    } else {
        assert(s.take(k) == s);
    }
}

/// Tests for Unicode's White_Space property.
pub fn is_white_space(c: char) -> (r: bool)
    ensures
        r == is_white(c),
{
    ('\u{9}' <= c && c <= '\u{d}') || c == ' ' || c == '\u{85}' || c == '\u{a0}' || c == '\u{1680}'
        || ('\u{2000}' <= c && c <= '\u{200a}') || c == '\u{2028}' || c == '\u{2029}' || c == '\u{202f}'
        || c == '\u{205f}' || c == '\u{3000}'
}

/// Removes the white space around `s`.
pub fn trim_white(s: &str) -> (r: String)
    ensures
        r@ == trim(s@),
{
    let cs = characters(s);
    let mut from: usize = 0;
    while from < cs.len() && is_white_space(cs[from])
        invariant
            from <= cs@.len(),
            forall|i: int| 0 <= i < from ==> is_white(#[trigger] cs@[i]),
        decreases cs@.len() - from,
    {
        from += 1;
    }
    let mut to: usize = cs.len();
    while to > from && is_white_space(cs[to - 1])
        invariant
            from <= to <= cs@.len(),
            forall|i: int| to <= i < cs@.len() ==> is_white(#[trigger] cs@[i]),
        decreases to,
    {
        to -= 1;
    }
    proof {
        lemma_trim_start(cs@, white(), from as int);
        let rest = cs@.skip(from as int);
        lemma_trim_end(rest, white(), to - from);
        assert(rest.take(to - from) == cs@.subrange(from as int, to as int));
    }
    substring(&cs, from, to)
}

/// Removes the white space at the end of `s`.
pub fn trim_end_white(s: &str) -> (r: String)
    ensures
        r@ == trim_end(s@, white()),
{
    let cs = characters(s);
    let mut to: usize = cs.len();
    while to > 0 && is_white_space(cs[to - 1])
        invariant
            to <= cs@.len(),
            forall|i: int| to <= i < cs@.len() ==> is_white(#[trigger] cs@[i]),
        decreases to,
    {
        to -= 1;
    }
    proof {
        lemma_trim_end(cs@, white(), to as int);
    }
    substring(&cs, 0, to)
}

/// Removes the run of `c` at the start of `s`.
pub fn trim_leading(s: &str, c: char) -> (r: String)
    ensures
        r@ == without_leading(s@, c),
{
    let cs = characters(s);
    let mut from: usize = 0;
    while from < cs.len() && cs[from] == c
        invariant
            from <= cs@.len(),
            forall|i: int| 0 <= i < from ==> #[trigger] cs@[i] == c,
        decreases cs@.len() - from,
    {
        from += 1;
    }
    proof {
        lemma_trim_start(cs@, only(c), from as int);
    }
    substring(&cs, from, cs.len())
}

/// Removes the run of `c` at the end of `s`.
pub fn trim_trailing(s: &str, c: char) -> (r: String)
    ensures
        r@ == without_trailing(s@, c),
{
    let cs = characters(s);
    let mut to: usize = cs.len();
    while to > 0 && cs[to - 1] == c
        invariant
            to <= cs@.len(),
            forall|i: int| to <= i < cs@.len() ==> #[trigger] cs@[i] == c,
        decreases to,
    {
        to -= 1;
    }
    proof {
        lemma_trim_end(cs@, only(c), to as int);
    }
    substring(&cs, 0, to)
}

/// The characters of a string, in order.
pub fn characters(s: &str) -> (r: Vec<char>)
    ensures
        r@ == s@,
{
    let mut r: Vec<char> = Vec::new();
    for c in it: s.chars()
        invariant
            it.seq() == s@,
            r@ == s@.take(it.index() as int),
    {
        r.push(c);
    }
    r
}

/// The string that holds the characters from `from` up to `to`.
pub fn substring(cs: &Vec<char>, from: usize, to: usize) -> (r: String)
    requires
        from <= to <= cs@.len(),
    ensures
        r@ == cs@.subrange(from as int, to as int),
{
    let mut r = String::new();
    let mut i: usize = from;
    while i < to
        invariant
            from <= i <= to <= cs@.len(),
            r@ == cs@.subrange(from as int, i as int),
        decreases to - i,
    {
        r.push(cs[i]);
        i += 1;
    }
    r
}

/// Whether `s` stands in `cs` at position `at`.
pub open spec fn occurs_at(cs: Seq<char>, at: int, s: Seq<char>) -> bool {
    at + s.len() <= cs.len() && cs.subrange(at, at + s.len()) == s
}

/// Tests whether `s` stands in `cs` at position `at`.
pub fn stands_at(cs: &Vec<char>, at: usize, s: &str) -> (r: bool)
    requires
        at <= cs@.len(),
    ensures
        r == occurs_at(cs@, at as int, s@),
{
    let wanted = characters(s);
    let len = cs.len();
    if wanted.len() > len - at {
        return false;
    }
    let mut i: usize = 0;
    while i < wanted.len()
        invariant
            i <= wanted@.len() <= cs@.len() - at,
            cs@.len() == len,
            wanted@ == s@,
            forall|j: int| 0 <= j < i ==> cs@[at + j] == #[trigger] wanted@[j],
        decreases wanted@.len() - i,
    {
        if cs[at + i] != wanted[i] {
            assert(cs@.subrange(at as int, at + s@.len())[i as int] != s@[i as int]);
            return false;
        }
        i += 1;
    }
    assert(cs@.subrange(at as int, at + s@.len()) == s@);
    true
}

/// Joins the parts with `sep` between any two neighbours.
pub fn join_strings(parts: &[String], sep: &str) -> (r: String)
    ensures
        r@ == join(texts(parts@), sep@),
{
    let mut r = String::new();
    let mut i: usize = 0;
    while i < parts.len()
        invariant
            i <= parts@.len(),
            r@ == join(texts(parts@).take(i as int), sep@),
        decreases parts@.len() - i,
    {
        let ghost next = texts(parts@).take(i + 1);
        assert(next.drop_last() == texts(parts@).take(i as int));
        assert(next.last() == parts@[i as int]@);
        if i > 0 {
            r.append(sep);
        }
        r.append(parts[i].as_str());
        i += 1;
    }
    assert(texts(parts@).take(i as int) == texts(parts@));
    r
}

/// Every string has its text, in its place.
pub proof fn law_texts_are_kept(strings: Seq<String>)
    ensures
        texts(strings).len() == strings.len(),
        forall|i: int| 0 <= i < strings.len() ==> texts(strings)[i] == (#[trigger] strings[i])@,
{
}

proof fn lemma_join_adds(a: Seq<Seq<char>>, b: Seq<Seq<char>>, sep: Seq<char>)
    requires
        a.len() > 0,
        b.len() > 0,
    ensures
        join(a + b, sep) == join(a, sep) + sep + join(b, sep),
    decreases b.len(),
{
    assert((a + b).drop_last() =~= a + b.drop_last());
    if b.len() == 1 {
        assert(a + b.drop_last() =~= a);
        assert(join(b.drop_last(), sep) =~= Seq::<char>::empty());
        assert(join(b, sep) =~= b.last());
    } else {
        lemma_join_adds(a, b.drop_last(), sep);
    }
    assert(join(a + b, sep) =~= join(a, sep) + sep + join(b, sep));
}

/// Joining puts the separator between neighbours and nowhere else: one part is
/// left as it is, and two lists of parts join into their joints with one
/// separator between them.
pub proof fn law_parts_are_joined_in_order(
    a: Seq<Seq<char>>,
    b: Seq<Seq<char>>,
    part: Seq<char>,
    sep: Seq<char>,
)
    ensures
        join(Seq::empty(), sep) == Seq::<char>::empty(),
        join(seq![part], sep) == part,
        a.len() > 0 && b.len() > 0 ==> join(a + b, sep) == join(a, sep) + sep + join(b, sep),
{
    assert(seq![part].drop_last() =~= Seq::<Seq<char>>::empty());
    assert(join(seq![part].drop_last(), sep) =~= Seq::<char>::empty());
    assert(join(seq![part], sep) =~= part);
    if a.len() > 0 && b.len() > 0 {
        lemma_join_adds(a, b, sep);
    }
}

/// Trimming at the start cuts off accepted characters only, and leaves a text
/// that begins with another one.
pub proof fn law_start_is_trimmed(s: Seq<char>, p: spec_fn(char) -> bool)
    ensures
        trim_start(s, p).len() <= s.len(),
        trim_start(s, p) == s.skip(s.len() - trim_start(s, p).len()),
        forall|i: int| 0 <= i < s.len() - trim_start(s, p).len() ==> p(#[trigger] s[i]),
        trim_start(s, p).len() > 0 ==> !p(trim_start(s, p).first()),
    decreases s.len(),
{
    if s.len() > 0 && p(s.first()) {
        let rest = s.drop_first();
        law_start_is_trimmed(rest, p);
        let cut = s.len() - trim_start(s, p).len();
        assert(rest.skip(cut - 1) =~= s.skip(cut));
        assert forall|i: int| 0 <= i < cut implies p(#[trigger] s[i]) by {
            if i > 0 {
                assert(rest[i - 1] == s[i]);
            }
        }
    } else {
        assert(s.skip(0) =~= s);
    }
}

/// Trimming at the end cuts off accepted characters only, and leaves a text
/// that ends with another one.
pub proof fn law_end_is_trimmed(s: Seq<char>, p: spec_fn(char) -> bool)
    ensures
        trim_end(s, p).len() <= s.len(),
        trim_end(s, p) == s.take(trim_end(s, p).len() as int),
        forall|i: int| trim_end(s, p).len() <= i < s.len() ==> p(#[trigger] s[i]),
        trim_end(s, p).len() > 0 ==> !p(trim_end(s, p).last()),
    decreases s.len(),
{
    if s.len() > 0 && p(s.last()) {
        let rest = s.drop_last();
        law_end_is_trimmed(rest, p);
        let kept = trim_end(s, p).len() as int;
        assert(rest.take(kept) =~= s.take(kept));
        assert forall|i: int| kept <= i < s.len() implies p(#[trigger] s[i]) by {
            if i < rest.len() {
                assert(rest[i] == s[i]);
            }
        }
    } else {
        assert(s.take(s.len() as int) =~= s);
    }
}

/// Only white space is cut off around a text, and all of it.
pub proof fn law_white_space_is_trimmed(before: Seq<char>, core: Seq<char>, after: Seq<char>)
    requires
        forall|i: int| 0 <= i < before.len() ==> is_white(#[trigger] before[i]),
        forall|i: int| 0 <= i < after.len() ==> is_white(#[trigger] after[i]),
        core.len() > 0 ==> !is_white(core.first()) && !is_white(core.last()),
    ensures
        trim(before + core + after) == core,
{
    let s = before + core + after;
    let p = white();
    if core.len() > 0 {
        assert forall|i: int| 0 <= i < before.len() implies p(#[trigger] s[i]) by {
            assert(s[i] == before[i]);
        }
        assert(s[before.len() as int] == core[0]);
        lemma_trim_start(s, p, before.len() as int);
        let rest = s.skip(before.len() as int);
        assert(rest =~= core + after);
        assert forall|i: int| core.len() <= i < rest.len() implies p(#[trigger] rest[i]) by {
            assert(rest[i] == after[i - core.len()]);
        }
        assert(rest[core.len() - 1] == core.last());
        lemma_trim_end(rest, p, core.len() as int);
        assert(rest.take(core.len() as int) =~= core);
    } else {
        assert forall|i: int| 0 <= i < s.len() implies p(#[trigger] s[i]) by {
            if i < before.len() {
                assert(s[i] == before[i]);
            } else {
                assert(s[i] == after[i - before.len()]);
            }
        }
        lemma_trim_start(s, p, s.len() as int);
        assert(s.skip(s.len() as int) =~= core);
    }
}

/// A run of a character is cut off at the start, or at the end, and nothing
/// else.
pub proof fn law_runs_are_trimmed(run: Seq<char>, c: char, core: Seq<char>)
    requires
        forall|i: int| 0 <= i < run.len() ==> #[trigger] run[i] == c,
    ensures
        core.len() == 0 || core.first() != c ==> without_leading(run + core, c) == core,
        core.len() == 0 || core.last() != c ==> without_trailing(core + run, c) == core,
{
    let p = only(c);
    if core.len() == 0 || core.first() != c {
        let s = run + core;
        assert forall|i: int| 0 <= i < run.len() implies p(#[trigger] s[i]) by {
            assert(s[i] == run[i]);
        }
        lemma_trim_start(s, p, run.len() as int);
        assert(s.skip(run.len() as int) =~= core);
    }
    if core.len() == 0 || core.last() != c {
        let s = core + run;
        assert forall|i: int| core.len() <= i < s.len() implies p(#[trigger] s[i]) by {
            assert(s[i] == run[i - core.len()]);
        }
        lemma_trim_end(s, p, core.len() as int);
        assert(s.take(core.len() as int) =~= core);
    }
}

/// A text stands where as many characters come before it.
pub proof fn law_text_stands_between(before: Seq<char>, s: Seq<char>, after: Seq<char>, cs: Seq<char>)
    ensures
        occurs_at(before + s + after, before.len() as int, s),
        occurs_at(cs, before.len() as int, s) ==> before.len() + s.len() <= cs.len() && forall|i: int|
            0 <= i < s.len() ==> cs[before.len() + i] == #[trigger] s[i],
{
    let all = before + s + after;
    assert(all.subrange(before.len() as int, (before.len() + s.len()) as int) =~= s);
    if occurs_at(cs, before.len() as int, s) {
        assert forall|i: int| 0 <= i < s.len() implies cs[before.len() + i] == #[trigger] s[i] by {
            assert(cs.subrange(before.len() as int, (before.len() + s.len()) as int)[i] == s[i]);
        }
    }
}

} // verus!
