//! Searching, trimming and replacing in sequences of characters.

use vstd::prelude::*;

verus! {

/// `String::push` appends one character to the end of the string.
pub assume_specification[ std::string::String::push ](string: &mut std::string::String, ch: char)
    ensures
        final(string)@ == old(string)@.push(ch),
;

/// Whether `pattern` stands in `text` at position `at`.
pub open spec fn occurs_at(text: Seq<char>, pattern: Seq<char>, at: int) -> bool {
    &&& 0 <= at
    &&& at + pattern.len() <= text.len()
    &&& text.subrange(at, at + pattern.len()) == pattern
}

/// Whether `pattern` stands anywhere in `text`.
pub open spec fn occurs(text: Seq<char>, pattern: Seq<char>) -> bool {
    exists|at: int| occurs_at(text, pattern, at)
}

/// Whether `at` is the first position at which `pattern` stands in `text`.
pub open spec fn first_at(text: Seq<char>, pattern: Seq<char>, at: int) -> bool {
    &&& occurs_at(text, pattern, at)
    &&& forall|earlier: int| 0 <= earlier < at ==> !occurs_at(text, pattern, earlier)
}

/// What stands before and what stands after the first occurrence of `pattern`
/// in `text`.
pub open spec fn split_once(text: Seq<char>, pattern: Seq<char>) -> Option<(Seq<char>, Seq<char>)> {
    if occurs(text, pattern) {
        let at = choose|at: int| first_at(text, pattern, at);
        Some((text.take(at), text.skip(at + pattern.len())))
    } else {
        None
    }
}

/// `text` without any `suffix` at its end, however often it is repeated there.
pub open spec fn trim_end_matches(text: Seq<char>, suffix: Seq<char>) -> Seq<char>
    decreases text.len(),
{
    if suffix.len() > 0 && occurs_at(text, suffix, text.len() - suffix.len()) {
        trim_end_matches(text.take(text.len() - suffix.len()), suffix)
    } else {
        text
    }
}

/// `text` with every `from` replaced by `to`.
pub open spec fn replace(text: Seq<char>, from: char, to: Seq<char>) -> Seq<char>
    decreases text.len(),
{
    if text.len() == 0 {
        Seq::empty()
    } else {
        replace(text.drop_last(), from, to) + (if text.last() == from {
            to
        } else {
            seq![text.last()]
        })
    }
}

/// The first position of a pattern that occurs is where the text is split.
pub(crate) proof fn lemma_split_at_first(text: Seq<char>, pattern: Seq<char>, at: int)
    requires
        first_at(text, pattern, at),
    ensures
        split_once(text, pattern) == Some((text.take(at), text.skip(at + pattern.len()))),
{
    assert(occurs(text, pattern));
    let chosen = choose|at: int| first_at(text, pattern, at);
    assert(first_at(text, pattern, chosen));
    assert(chosen == at) by {
        if chosen < at {
            assert(!occurs_at(text, pattern, chosen));
        }
        if at < chosen {
            assert(!occurs_at(text, pattern, at));
        }
    }
}

/// A pattern that occurs has a first position.
pub(crate) proof fn lemma_first_exists(text: Seq<char>, pattern: Seq<char>, at: int) -> (first: int)
    requires
        occurs_at(text, pattern, at),
    ensures
        first <= at,
        first_at(text, pattern, first),
    decreases at,
{
    if exists|earlier: int| 0 <= earlier < at && occurs_at(text, pattern, earlier) {
        let earlier = choose|earlier: int|
            0 <= earlier < at && occurs_at(text, pattern, earlier);
        lemma_first_exists(text, pattern, earlier)
    } else {
        at
    }
}

/// Replacing a character by text without it leaves none of it.
pub(crate) proof fn lemma_replace_removes(text: Seq<char>, from: char, to: Seq<char>)
    requires
        !to.contains(from),
    ensures
        !replace(text, from, to).contains(from),
    decreases text.len(),
{
    if text.len() > 0 {
        lemma_replace_removes(text.drop_last(), from, to);
        let head = replace(text.drop_last(), from, to);
        let tail = if text.last() == from {
            to
        } else {
            seq![text.last()]
        };
        assert forall|i: int| 0 <= i < (head + tail).len() implies (head + tail)[i] != from by {
            if i < head.len() {
                assert(head.contains(head[i]));
            } else {
                assert(tail.contains(tail[i - head.len()]));
            }
        }
    }
}

/// Replacing a character that does not occur changes nothing.
pub(crate) proof fn lemma_replace_absent(text: Seq<char>, from: char, to: Seq<char>)
    requires
        !text.contains(from),
    ensures
        replace(text, from, to) == text,
    decreases text.len(),
{
    if text.len() > 0 {
        assert forall|i: int| 0 <= i < text.drop_last().len() implies text.drop_last()[i]
            != from by {
            assert(text.contains(text[i]));
        }
        lemma_replace_absent(text.drop_last(), from, to);
        assert(text.contains(text.last()));
        assert(text.drop_last().push(text.last()) =~= text);
    }
}

/// The characters of `text`.
pub(crate) fn chars_of(text: &str) -> (chars: Vec<char>)
    ensures
        chars@ == text@,
{
    let mut chars: Vec<char> = Vec::new();
    for ch in iter: text.chars()
        invariant
            iter.seq() == text@,
            chars@ == text@.take(iter.index() as int),
    {
        chars.push(ch);
        assert(text@.take(iter.index() as int).push(ch) =~= text@.take(iter.index() + 1));
    }
    assert(text@.take(text@.len() as int) =~= text@);
    chars
}

/// The characters `from..to` of `chars`, as a string.
pub(crate) fn string_of(chars: &Vec<char>, from: usize, to: usize) -> (text: String)
    requires
        from <= to <= chars@.len(),
    ensures
        text@ == chars@.subrange(from as int, to as int),
{
    let mut text = String::new();
    let mut i: usize = from;
    while i < to
        invariant
            from <= i <= to <= chars@.len(),
            text@ == chars@.subrange(from as int, i as int),
        decreases to - i,
    {
        text.push(chars[i]);
        assert(chars@.subrange(from as int, i as int).push(chars@[i as int]) =~= chars@.subrange(
            from as int,
            i + 1,
        ));
        i += 1;
    }
    text
}

/// Whether `pattern` stands in `text` at `at`.
pub(crate) fn matches_at(text: &Vec<char>, pattern: &Vec<char>, at: usize) -> (found: bool)
    requires
        at + pattern@.len() <= text@.len(),
    ensures
        found == occurs_at(text@, pattern@, at as int),
{
    let len: usize = text.len();
    let mut i: usize = 0;
    while i < pattern.len()
        invariant
            len == text@.len(),
            at + pattern@.len() <= len,
            i <= pattern@.len(),
            forall|j: int| 0 <= j < i ==> text@[at + j] == pattern@[j],
        decreases pattern@.len() - i,
    {
        if text[at + i] != pattern[i] {
            assert(text@.subrange(at as int, at + pattern@.len())[i as int] != pattern@[i as int]);
            return false;
        }
        i += 1;
    }
    assert(text@.subrange(at as int, at + pattern@.len()) =~= pattern@);
    true
}

/// The first position, from `start` on, at which `pattern` stands in `text`.
pub(crate) fn find_from(text: &Vec<char>, pattern: &Vec<char>, start: usize) -> (at: Option<usize>)
    requires
        start <= text@.len(),
    ensures
        match at {
            Some(at) => start <= at && first_at(
                text@.skip(start as int),
                pattern@,
                at - start,
            ) && at + pattern@.len() <= text@.len(),
            None => !occurs(text@.skip(start as int), pattern@),
        },
{
    let ghost rest = text@.skip(start as int);
    let mut at: usize = start;
    while at <= text.len() && pattern.len() <= text.len() - at
        invariant
            start <= text@.len(),
            start <= at <= text@.len() + 1,
            rest == text@.skip(start as int),
            forall|j: int| 0 <= j < at - start ==> !occurs_at(rest, pattern@, j),
        decreases text@.len() + 1 - at,
    {
        assert(occurs_at(text@, pattern@, at as int) == occurs_at(rest, pattern@, at - start)) by {
            assert(text@.subrange(at as int, at + pattern@.len()) =~= rest.subrange(
                at - start,
                at - start + pattern@.len(),
            ));
        }
        if matches_at(text, pattern, at) {
            return Some(at);
        }
        if at == text.len() {
            return None;
        }
        at += 1;
    }
    None
}

/// Where `text[start..]` ends once every `suffix` at its end is cut off.
pub(crate) fn trimmed_len(text: &Vec<char>, start: usize, suffix: &Vec<char>) -> (end: usize)
    requires
        start <= text@.len(),
        suffix@.len() > 0,
    ensures
        start <= end <= text@.len(),
        text@.subrange(start as int, end as int) == trim_end_matches(
            text@.skip(start as int),
            suffix@,
        ),
{
    let mut end: usize = text.len();
    assert(text@.subrange(start as int, end as int) =~= text@.skip(start as int));
    while suffix.len() <= end - start
        invariant
            suffix@.len() > 0,
            start <= end <= text@.len(),
            trim_end_matches(text@.subrange(start as int, end as int), suffix@)
                == trim_end_matches(text@.skip(start as int), suffix@),
        ensures
            start <= end <= text@.len(),
            text@.subrange(start as int, end as int) == trim_end_matches(
                text@.skip(start as int),
                suffix@,
            ),
        decreases end,
    {
        let at: usize = end - suffix.len();
        let ghost part = text@.subrange(start as int, end as int);
        assert(text@.subrange(at as int, end as int) =~= part.subrange(
            at - start,
            part.len() as int,
        ));
        if !matches_at(text, suffix, at) {
            break;
        }
        assert(part.take(part.len() - suffix@.len()) =~= text@.subrange(start as int, at as int));
        end = at;
    }
    end
}

/// Appends the characters `from..to` of `chars` to `out`, with `to_text` in
/// place of every `replaced`.
pub(crate) fn push_replaced(
    out: &mut String,
    chars: &Vec<char>,
    from: usize,
    to: usize,
    replaced: char,
    to_text: &Vec<char>,
)
    requires
        from <= to <= chars@.len(),
    ensures
        final(out)@ == old(out)@ + replace(
            chars@.subrange(from as int, to as int),
            replaced,
            to_text@,
        ),
{
    let ghost before = out@;
    let mut i: usize = from;
    assert(out@ =~= before + replace(chars@.subrange(from as int, from as int), replaced, to_text@));
    while i < to
        invariant
            from <= i <= to <= chars@.len(),
            out@ == before + replace(chars@.subrange(from as int, i as int), replaced, to_text@),
        decreases to - i,
    {
        let ghost next = chars@.subrange(from as int, i + 1);
        let ghost so_far = out@;
        assert(next.drop_last() =~= chars@.subrange(from as int, i as int));
        if chars[i] == replaced {
            let mut k: usize = 0;
            while k < to_text.len()
                invariant
                    k <= to_text@.len(),
                    out@ == so_far + to_text@.take(k as int),
                decreases to_text@.len() - k,
            {
                out.push(to_text[k]);
                assert(to_text@.take(k as int).push(to_text@[k as int]) =~= to_text@.take(k + 1));
                assert((so_far + to_text@.take(k as int)).push(to_text@[k as int]) =~= so_far
                    + to_text@.take(k + 1));
                k += 1;
            }
            assert(to_text@.take(to_text@.len() as int) =~= to_text@);
        } else {
            out.push(chars[i]);
            assert(out@ =~= so_far + seq![chars@[i as int]]);
        }
        assert(out@ =~= before + replace(next, replaced, to_text@));
        i += 1;
    }
}

/// The parts with `between` between each two of them.
pub open spec fn joined(parts: Seq<Seq<char>>, between: Seq<char>) -> Seq<char>
    decreases parts.len(),
{
    if parts.len() == 0 {
        Seq::empty()
    } else if parts.len() == 1 {
        parts[0]
    } else {
        joined(parts.drop_last(), between) + between + parts.last()
    }
}

/// The unit so many times over.
pub open spec fn repeated(unit: Seq<char>, times: nat) -> Seq<char>
    decreases times,
{
    if times == 0 {
        Seq::empty()
    } else {
        repeated(unit, (times - 1) as nat) + unit
    }
}

/// A text is split at the first place where the pattern stands in it: the two parts
/// with the pattern between them are the text, and nowhere earlier does the pattern
/// stand. A text that is not split has the pattern nowhere.
pub proof fn law_split_at_the_first(text: Seq<char>, pattern: Seq<char>)
    ensures
        match split_once(text, pattern) {
            Some((before, after)) => {
                &&& text == before + pattern + after
                &&& forall|i: int|
                    0 <= i < before.len() ==> #[trigger] text.subrange(i, i + pattern.len())
                        != pattern
            },
            None => forall|i: int|
                0 <= i <= text.len() - pattern.len() ==> #[trigger] text.subrange(
                    i,
                    i + pattern.len(),
                ) != pattern,
        },
{
    if occurs(text, pattern) {
        let some = choose|at: int| occurs_at(text, pattern, at);
        let at = lemma_first_exists(text, pattern, some);
        lemma_split_at_first(text, pattern, at);
        assert(text =~= text.take(at) + pattern + text.skip(at + pattern.len())) by {
            assert(text =~= text.take(at) + text.subrange(at, at + pattern.len()) + text.skip(
                at + pattern.len(),
            ));
        }
        assert forall|i: int| 0 <= i < at implies #[trigger] text.subrange(i, i + pattern.len())
            != pattern by {
            assert(!occurs_at(text, pattern, i));
        }
    } else {
        assert forall|i: int| 0 <= i <= text.len() - pattern.len() implies #[trigger] text.subrange(
            i,
            i + pattern.len(),
        ) != pattern by {
            assert(!occurs_at(text, pattern, i));
        }
    }
}

/// However often the suffix is repeated after a text that does not end in it, trimming
/// gives back the text.
pub proof fn law_trimming_ends_at_the_stem(stem: Seq<char>, suffix: Seq<char>, times: nat)
    requires
        suffix.len() > 0,
        stem.len() >= suffix.len() ==> stem.skip(stem.len() - suffix.len()) != suffix,
    ensures
        trim_end_matches(stem + repeated(suffix, times), suffix) == stem,
    decreases times,
{
    let text = stem + repeated(suffix, times);
    if times == 0 {
        assert(text =~= stem);
        if stem.len() >= suffix.len() {
            assert(stem.subrange(stem.len() - suffix.len(), stem.len() as int) =~= stem.skip(
                stem.len() - suffix.len(),
            ));
        }
    } else {
        let fewer = repeated(suffix, (times - 1) as nat);
        assert(text =~= stem + fewer + suffix);
        assert(text.subrange(text.len() - suffix.len(), text.len() as int) =~= suffix);
        assert(text.take(text.len() - suffix.len()) =~= stem + fewer);
        law_trimming_ends_at_the_stem(stem, suffix, (times - 1) as nat);
    }
}

/// What replaces a character between two texts stands between what replacing makes of
/// the texts.
proof fn lemma_replace_between(before: Seq<char>, after: Seq<char>, from: char, to: Seq<char>)
    ensures
        replace(before + after, from, to) == replace(before, from, to) + replace(after, from, to),
    decreases after.len(),
{
    if after.len() == 0 {
        assert(before + after =~= before);
        assert(replace(before, from, to) + replace(after, from, to) =~= replace(before, from, to));
    } else {
        lemma_replace_between(before, after.drop_last(), from, to);
        assert((before + after).drop_last() =~= before + after.drop_last());
        assert((before + after).last() == after.last());
        assert(replace(before + after, from, to) =~= replace(before, from, to) + replace(
            after,
            from,
            to,
        ));
    }
}

/// Replacing the separator of a text replaces nothing else: the parts that it separates
/// stay as they are, with the new separator between them.
pub proof fn law_replacing_keeps_the_parts(parts: Seq<Seq<char>>, from: char, to: Seq<char>)
    requires
        forall|i: int| 0 <= i < parts.len() ==> !(#[trigger] parts[i]).contains(from),
    ensures
        replace(joined(parts, seq![from]), from, to) == joined(parts, to),
    decreases parts.len(),
{
    if parts.len() == 1 {
        lemma_replace_absent(parts[0], from, to);
    } else if parts.len() > 1 {
        let front = parts.drop_last();
        assert forall|i: int| 0 <= i < front.len() implies !(#[trigger] front[i]).contains(
            from,
        ) by {
            assert(front[i] == parts[i]);
        }
        law_replacing_keeps_the_parts(front, from, to);
        let head = joined(front, seq![from]);
        assert(parts.last() == parts[parts.len() - 1]);
        lemma_replace_absent(parts.last(), from, to);
        assert(replace(seq![from], from, to) =~= to) by {
            assert(seq![from].drop_last() =~= Seq::<char>::empty());
            assert(replace(Seq::<char>::empty(), from, to) =~= Seq::<char>::empty());
        }
        lemma_replace_between(head, seq![from], from, to);
        lemma_replace_between(head + seq![from], parts.last(), from, to);
    }
}

/// Replacing one character by another changes it wherever it stands and nothing else.
pub proof fn law_replacing_by_one_character(text: Seq<char>, from: char, to: char)
    ensures
        replace(text, from, seq![to]).len() == text.len(),
        forall|i: int|
            0 <= i < text.len() ==> #[trigger] replace(text, from, seq![to])[i] == (if text[i]
                == from {
                to
            } else {
                text[i]
            }),
    decreases text.len(),
{
    if text.len() > 0 {
        law_replacing_by_one_character(text.drop_last(), from, to);
    }
}

} // verus!
