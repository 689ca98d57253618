//! Fuzzy matching: a query matches a target that holds its characters in
//! order, and scores higher for runs and for word starts.

use vstd::prelude::*;

use crate::text::chars_of;

verus! {

/// `char::is_alphanumeric`.
pub uninterp spec fn char_is_alphanumeric(c: char) -> bool;

/// `char::is_uppercase`.
pub uninterp spec fn char_is_uppercase(c: char) -> bool;

/// `char::is_lowercase`.
pub uninterp spec fn char_is_lowercase(c: char) -> bool;

/// `char::is_alphanumeric` depends on the character alone.
pub assume_specification[ char::is_alphanumeric ](c: char) -> (r: bool)
    ensures
        r == char_is_alphanumeric(c),
;

/// `char::is_uppercase` depends on the character alone.
pub assume_specification[ char::is_uppercase ](c: char) -> (r: bool)
    ensures
        r == char_is_uppercase(c),
;

/// `char::is_lowercase` depends on the character alone.
pub assume_specification[ char::is_lowercase ](c: char) -> (r: bool)
    ensures
        r == char_is_lowercase(c),
;

/// What scoring needs to know of a target's character.
#[derive(Clone, Copy, PartialEq, Eq, Structural, Debug)]
pub struct CharClass {
    pub alphanumeric: bool,
    pub uppercase: bool,
    pub lowercase: bool,
}

/// The longest query whose score is sure to fit in 32 bits; the score of a
/// longer one wraps around.
pub const MAX_QUERY_CHARS: usize = 153_391_689;

/// The score of one matched character.
pub const MATCH_SCORE: i32 = 1;

/// Added where a word starts.
pub const BOUNDARY_BONUS: i32 = 8;

/// Added right behind the previous match.
pub const CONSECUTIVE_BONUS: i32 = 5;

/// The class of a character.
pub open spec fn class_of(c: char) -> CharClass {
    CharClass {
        alphanumeric: char_is_alphanumeric(c),
        uppercase: char_is_uppercase(c),
        lowercase: char_is_lowercase(c),
    }
}

/// `A` to `Z` become `a` to `z`; every other character stays.
pub open spec fn lower(c: char) -> char {
    if 'A' <= c && c <= 'Z' {
        (c as u32 + 32) as char
    } else {
        c
    }
}

/// The first index from `from` on at which the target has the character in
/// either case, or the target's length.
pub open spec fn find_from(target: Seq<char>, c: char, from: int) -> int
    decreases target.len() - from,
{
    if from >= target.len() || lower(target[from]) == lower(c) {
        from
    } else {
        find_from(target, c, from + 1)
    }
}

/// A word starts at the index: it is the first, or follows a separator, or is a
/// capital behind a small letter.
pub open spec fn is_word_start(classes: Seq<CharClass>, i: int) -> bool {
    i == 0 || !classes[i - 1].alphanumeric || classes[i].uppercase && classes[i - 1].lowercase
}

/// The score of a match at index `i`, where the previous one ended at `from`
/// (0 before the first match).
pub open spec fn step_score(classes: Seq<CharClass>, from: int, i: int) -> int {
    MATCH_SCORE + (if is_word_start(classes, i) {
        BOUNDARY_BONUS as int
    } else {
        0
    }) + (if from > 0 && i == from {
        CONSECUTIVE_BONUS as int
    } else {
        0
    })
}

/// The score of a query that is matched, each character as early as possible,
/// from index `from` on; `None` where it does not match.
pub open spec fn score_from(
    query: Seq<char>,
    target: Seq<char>,
    classes: Seq<CharClass>,
    from: int,
) -> Option<int>
    decreases query.len(),
{
    if query.len() == 0 {
        Some(0)
    } else {
        let i = find_from(target, query[0], from);
        if i >= target.len() {
            None
        } else {
            match score_from(query.drop_first(), target, classes, i + 1) {
                Some(rest) => Some(step_score(classes, from, i) + rest),
                None => None,
            }
        }
    }
}

/// The score of a query against a target.
pub open spec fn fuzzy(query: Seq<char>, target: Seq<char>) -> Option<int> {
    score_from(query, target, target.map_values(|c: char| class_of(c)), 0)
}

/// A number wrapped around into 32 bits.
pub open spec fn wrap32(n: int) -> i32 {
    ((n + 0x8000_0000) % 0x1_0000_0000 - 0x8000_0000) as i32
}

/// A score wrapped around into 32 bits.
pub open spec fn wrapped(score: Option<int>) -> Option<i32> {
    match score {
        Some(s) => Some(wrap32(s)),
        None => None,
    }
}

/// The score of a query against a target, in 32 bits.
pub open spec fn fuzzy_i32(query: Seq<char>, target: Seq<char>) -> Option<i32> {
    wrapped(fuzzy(query, target))
}

/// The small letter of an ASCII capital.
pub fn ascii_lower(c: char) -> (r: char)
    ensures
        r == lower(c),
{
    if 'A' <= c && c <= 'Z' {
        let small: u8 = c as u8 + 32;
        small as char
    } else {
        c
    }
}

/// The classes of the characters of a target.
fn classes_of(target: &Vec<char>) -> (classes: Vec<CharClass>)
    ensures
        classes@ == target@.map_values(|c: char| class_of(c)),
{
    let mut classes: Vec<CharClass> = Vec::new();
    let mut i: usize = 0;
    while i < target.len()
        invariant
            i <= target@.len(),
            classes@.len() == i,
            forall|j: int| 0 <= j < i ==> classes@[j] == class_of(target@[j]),
        decreases target@.len() - i,
    {
        let c = target[i];
        classes.push(
            CharClass {
                alphanumeric: c.is_alphanumeric(),
                uppercase: c.is_uppercase(),
                lowercase: c.is_lowercase(),
            },
        );
        i += 1;
    }
    classes
}

/// The score of a query against a target whose character classes are given.
pub fn score_classes(query: &Vec<char>, target: &Vec<char>, classes: &Vec<CharClass>) -> (r: Option<
    i32,
>)
    requires
        classes@.len() == target@.len(),
    ensures
        r == wrapped(score_from(query@, target@, classes@, 0)),
{
    let ghost mut sum: int = 0;
    let mut score: i32 = 0;
    let mut from: usize = 0;
    let mut q: usize = 0;
    assert(query@.skip(0) == query@);
    while q < query.len()
        invariant
            q <= query@.len(),
            from <= target@.len() == classes@.len(),
            score == wrap32(sum),
            score_from(query@, target@, classes@, 0) == (match score_from(
                query@.skip(q as int),
                target@,
                classes@,
                from as int,
            ) {
                Some(rest) => Some(sum + rest),
                None => None,
            }),
        decreases query@.len() - q,
    {
        let wanted = ascii_lower(query[q]);
        let start: usize = from;
        while from < target.len() && ascii_lower(target[from]) != wanted
            invariant
                start <= from <= target@.len(),
                wanted == lower(query@[q as int]),
                find_from(target@, query@[q as int], start as int) == find_from(
                    target@,
                    query@[q as int],
                    from as int,
                ),
            decreases target@.len() - from,
        {
            from += 1;
        }
        assert(query@.skip(q as int).drop_first() == query@.skip(q + 1));
        if from == target.len() {
            return None;
        }
        let word_start = from == 0 || !classes[from - 1].alphanumeric || (classes[from].uppercase
            && classes[from - 1].lowercase);
        let mut step: i32 = MATCH_SCORE;
        if word_start {
            step += BOUNDARY_BONUS;
        }
        if start > 0 && from == start {
            step += CONSECUTIVE_BONUS;
        }
        score = score.wrapping_add(step);
        proof {
            sum = sum + step;
        }
        from += 1;
        q += 1;
    }
    Some(score)
}

/// The score of a query that occurs in a target, its characters in order and in
/// either case; higher is a better match.
pub fn fuzzy_match(query: &str, target: &str) -> (r: Option<i32>)
    ensures
        r == fuzzy_i32(query@, target@),
{
    let target_chars = chars_of(target);
    let classes = classes_of(&target_chars);
    let query_chars = chars_of(query);
    score_classes(&query_chars, &target_chars, &classes)
}

/// The query's characters stand in the target at these indices, in order.
pub open spec fn occurs_at(query: Seq<char>, target: Seq<char>, at: Seq<int>) -> bool {
    &&& at.len() == query.len()
    &&& forall|i: int|
        0 <= i < at.len() ==> 0 <= #[trigger] at[i] < target.len() && lower(target[at[i]]) == lower(
            query[i],
        )
    &&& forall|i: int, j: int| 0 <= i < j < at.len() ==> at[i] < at[j]
}

/// The query is a subsequence of the target, up to the case of ASCII letters.
pub open spec fn is_subsequence(query: Seq<char>, target: Seq<char>) -> bool {
    exists|at: Seq<int>| occurs_at(query, target, at)
}

/// What `find_from` finds.
proof fn lemma_find_from(target: Seq<char>, c: char, from: int)
    requires
        0 <= from <= target.len(),
    ensures
        from <= find_from(target, c, from) <= target.len(),
        find_from(target, c, from) < target.len() ==> lower(
            target[find_from(target, c, from)],
        ) == lower(c),
        forall|i: int|
            from <= i < find_from(target, c, from) ==> lower(#[trigger] target[i]) != lower(c),
    decreases target.len() - from,
{
    if from < target.len() && lower(target[from]) != lower(c) {
        lemma_find_from(target, c, from + 1);
    }
}

/// A score means that the query occurs from `from` on.
proof fn lemma_scored_occurs(
    query: Seq<char>,
    target: Seq<char>,
    classes: Seq<CharClass>,
    from: int,
) -> (at: Seq<int>)
    requires
        0 <= from <= target.len(),
        score_from(query, target, classes, from) is Some,
    ensures
        occurs_at(query, target, at),
        forall|i: int| 0 <= i < at.len() ==> from <= #[trigger] at[i],
    decreases query.len(),
{
    if query.len() == 0 {
        Seq::empty()
    } else {
        let i = find_from(target, query[0], from);
        lemma_find_from(target, query[0], from);
        let rest = lemma_scored_occurs(query.drop_first(), target, classes, i + 1);
        let at = seq![i] + rest;
        assert forall|k: int| 0 <= k < at.len() implies 0 <= #[trigger] at[k] < target.len()
            && lower(target[at[k]]) == lower(query[k]) by {
            if k > 0 {
                assert(at[k] == rest[k - 1]);
                assert(query[k] == query.drop_first()[k - 1]);
            }
        }
        at
    }
}

/// A query that occurs from `from` on has a score.
proof fn lemma_occurs_scored(
    query: Seq<char>,
    target: Seq<char>,
    classes: Seq<CharClass>,
    from: int,
    at: Seq<int>,
)
    requires
        0 <= from <= target.len(),
        occurs_at(query, target, at),
        forall|i: int| 0 <= i < at.len() ==> from <= #[trigger] at[i],
    ensures
        score_from(query, target, classes, from) is Some,
    decreases query.len(),
{
    if query.len() > 0 {
        lemma_find_from(target, query[0], from);
        assert(from <= at[0]);
        let rest = at.drop_first();
        assert forall|i: int| 0 <= i < rest.len() implies 0 <= #[trigger] rest[i] < target.len()
            && lower(target[rest[i]]) == lower(query.drop_first()[i]) && find_from(
            target,
            query[0],
            from,
        ) + 1 <= rest[i] by {
            assert(rest[i] == at[i + 1]);
            assert(at[0] < at[i + 1]);
        }
        lemma_occurs_scored(
            query.drop_first(),
            target,
            classes,
            find_from(target, query[0], from) + 1,
            rest,
        );
    }
}

/// A query matches exactly the targets of which it is a subsequence, up to the
/// case of ASCII letters.
pub proof fn law_matches_subsequences(query: Seq<char>, target: Seq<char>)
    ensures
        fuzzy(query, target) is Some <==> is_subsequence(query, target),
{
    let classes = target.map_values(|c: char| class_of(c));
    if fuzzy(query, target) is Some {
        let at = lemma_scored_occurs(query, target, classes, 0);
        assert(occurs_at(query, target, at));
    }
    if is_subsequence(query, target) {
        let at = choose|at: Seq<int>| occurs_at(query, target, at);
        lemma_occurs_scored(query, target, classes, 0, at);
    }
}

/// The empty query matches everything, with a score of 0.
pub proof fn law_empty_query(target: Seq<char>)
    ensures
        fuzzy(Seq::empty(), target) == Some(0int),
{
}

proof fn lemma_score_bounds(
    query: Seq<char>,
    target: Seq<char>,
    classes: Seq<CharClass>,
    from: int,
)
    ensures
        score_from(query, target, classes, from) matches Some(s) ==> query.len() <= s <= 14
            * query.len() && (from == 0 && query.len() > 0 ==> s <= 14 * query.len() - 5),
    decreases query.len(),
{
    if query.len() > 0 {
        lemma_score_bounds(
            query.drop_first(),
            target,
            classes,
            find_from(target, query[0], from) + 1,
        );
    }
}

/// Every character of the query adds between 1 and 14 to the score, and the first
/// one, which continues nothing, at most 9.
pub proof fn law_score_bounds(query: Seq<char>, target: Seq<char>)
    ensures
        fuzzy(query, target) matches Some(s) ==> query.len() <= s <= 14 * query.len() && (
        query.len() > 0 ==> s <= 14 * query.len() - 5),
        query.len() <= MAX_QUERY_CHARS ==> (fuzzy_i32(query, target) matches Some(s) ==> fuzzy(
            query,
            target,
        ) == Some(s as int)),
{
    lemma_score_bounds(query, target, target.map_values(|c: char| class_of(c)), 0);
}

proof fn lemma_same_find(target: Seq<char>, c: char, d: char, from: int)
    requires
        lower(c) == lower(d),
    ensures
        find_from(target, c, from) == find_from(target, d, from),
    decreases target.len() - from,
{
    if from < target.len() {
        lemma_same_find(target, c, d, from + 1);
    }
}

proof fn lemma_same_score(
    a: Seq<char>,
    b: Seq<char>,
    target: Seq<char>,
    classes: Seq<CharClass>,
    from: int,
)
    requires
        a.map_values(|c: char| lower(c)) == b.map_values(|c: char| lower(c)),
    ensures
        score_from(a, target, classes, from) == score_from(b, target, classes, from),
    decreases a.len(),
{
    let f = |c: char| lower(c);
    assert(a.map_values(f).len() == b.map_values(f).len());
    if a.len() > 0 {
        assert(a.map_values(f)[0] == b.map_values(f)[0]);
        lemma_same_find(target, a[0], b[0], from);
        assert(a.drop_first().map_values(f) == a.map_values(f).drop_first());
        assert(b.drop_first().map_values(f) == b.map_values(f).drop_first());
        lemma_same_score(
            a.drop_first(),
            b.drop_first(),
            target,
            classes,
            find_from(target, a[0], from) + 1,
        );
    }
}

/// The case of the query's ASCII letters does not matter.
pub proof fn law_query_case_is_ignored(a: Seq<char>, b: Seq<char>, target: Seq<char>)
    requires
        a.map_values(|c: char| lower(c)) == b.map_values(|c: char| lower(c)),
    ensures
        fuzzy(a, target) == fuzzy(b, target),
{
    lemma_same_score(a, b, target, target.map_values(|c: char| class_of(c)), 0);
}

/// A match at a word start scores higher than a match of the same character
/// elsewhere, wherever the previous match ended.
pub proof fn law_word_start_scores_higher(
    classes: Seq<CharClass>,
    from: int,
    i: int,
    other_from: int,
    j: int,
)
    requires
        is_word_start(classes, i),
        !is_word_start(classes, j),
    ensures
        step_score(classes, from, i) > step_score(classes, other_from, j),
{
}

/// Two characters count as the same exactly where they are equal, or are the capital
/// and the small form of one of the letters from `a` to `z`.
pub proof fn law_case_of_ascii_letters_is_ignored(a: char, b: char)
    ensures
        lower(a) == lower(b) <==> {
            ||| a == b
            ||| 'A' <= a && a <= 'Z' && b as u32 == a as u32 + 32
            ||| 'A' <= b && b <= 'Z' && a as u32 == b as u32 + 32
        },
{
    lemma_lower(a);
    lemma_lower(b);
}

proof fn lemma_lower(c: char)
    ensures
        'A' <= c && c <= 'Z' ==> lower(c) as u32 == c as u32 + 32,
        !('A' <= c && c <= 'Z') ==> lower(c) == c,
{
    if 'A' <= c && c <= 'Z' {
        let n = (c as u32 + 32) as u32;
        vstd::utf8::char_u32_cast(n as char, n);
    }
}

/// The query stands in the target at these indices, each of them the first one behind
/// the one before at which the target has the query's character.
pub open spec fn first_at(query: Seq<char>, target: Seq<char>, from: int, at: Seq<int>) -> bool {
    &&& at.len() == query.len()
    &&& forall|k: int| 0 <= k < at.len() ==> #[trigger] match_at(query, target, from, at, k)
}

/// The query's character `k` stands at the first place behind the match before it.
pub open spec fn match_at(
    query: Seq<char>,
    target: Seq<char>,
    from: int,
    at: Seq<int>,
    k: int,
) -> bool {
    first_behind(
        query[k],
        target,
        if k == 0 {
            from
        } else {
            at[k - 1] + 1
        },
        at[k],
    )
}

/// The first index from `from` on at which the target has the character, in either
/// case.
pub open spec fn first_behind(c: char, target: Seq<char>, from: int, i: int) -> bool {
    &&& 0 <= from <= i < target.len()
    &&& lower(target[i]) == lower(c)
    &&& forall|j: int| from <= j < i ==> lower(#[trigger] target[j]) != lower(c)
}

proof fn lemma_find_is(target: Seq<char>, c: char, from: int, i: int)
    requires
        first_behind(c, target, from, i),
    ensures
        find_from(target, c, from) == i,
    decreases i - from,
{
    if from < i {
        assert(lower(target[from]) != lower(c));
        lemma_find_is(target, c, from + 1, i);
    }
}

proof fn lemma_one_more(
    query: Seq<char>,
    c: char,
    target: Seq<char>,
    classes: Seq<CharClass>,
    from: int,
    at: Seq<int>,
    i: int,
)
    requires
        first_at(query, target, from, at),
        first_behind(
            c,
            target,
            if query.len() == 0 {
                from
            } else {
                at.last() + 1
            },
            i,
        ),
    ensures
        score_from(query, target, classes, from) is Some,
        score_from(query.push(c), target, classes, from) == Some(
            score_from(query, target, classes, from)->0 + step_score(
                classes,
                if query.len() == 0 {
                    from
                } else {
                    at.last() + 1
                },
                i,
            ),
        ),
    decreases query.len(),
{
    let longer = query.push(c);
    if query.len() == 0 {
        lemma_find_is(target, c, from, i);
        assert(longer.drop_first() =~= Seq::<char>::empty());
        assert(score_from(longer.drop_first(), target, classes, i + 1) == Some(0int));
    } else {
        assert(match_at(query, target, from, at, 0));
        lemma_find_is(target, query[0], from, at[0]);
        let (rest, rest_at) = (query.drop_first(), at.drop_first());
        assert(longer.drop_first() =~= rest.push(c));
        assert forall|k: int| 0 <= k < rest_at.len() implies #[trigger] match_at(
            rest,
            target,
            at[0] + 1,
            rest_at,
            k,
        ) by {
            assert(match_at(query, target, from, at, k + 1));
        }
        lemma_one_more(rest, c, target, classes, at[0] + 1, rest_at, i);
    }
}

/// What one more character of the query adds to the score of a target whose character
/// classes are given. Each character is matched at the first place behind the match
/// before it. It adds 1; 8 more where a word starts: at the first character, behind
/// one that is not alphanumeric, or at a capital behind a small letter; and 5 more right
/// behind the match before it.
pub proof fn law_class_scores_add_up(
    query: Seq<char>,
    c: char,
    target: Seq<char>,
    classes: Seq<CharClass>,
    at: Seq<int>,
    i: int,
)
    requires
        classes.len() == target.len(),
        first_at(query, target, 0, at),
        first_behind(
            c,
            target,
            if query.len() == 0 {
                0
            } else {
                at.last() + 1
            },
            i,
        ),
    ensures
        score_from(Seq::empty(), target, classes, 0) == Some(0int),
        score_from(query, target, classes, 0) is Some,
        score_from(query.push(c), target, classes, 0) == Some(
            score_from(query, target, classes, 0)->0 + 1 + (if i == 0
                || !classes[i - 1].alphanumeric || (classes[i].uppercase
                && classes[i - 1].lowercase) {
                8int
            } else {
                0int
            }) + (if query.len() > 0 && i == at.last() + 1 {
                5int
            } else {
                0int
            }),
        ),
{
    lemma_one_more(query, c, target, classes, 0, at, i);
    if query.len() > 0 {
        assert(match_at(query, target, 0, at, query.len() - 1));
    }
}

/// What one more character of the query adds to the score. Each character is matched
/// at the first place behind the match before it, up to the case of ASCII letters. It
/// adds 1; 8 more where a word starts: at the first character, behind one that is not
/// alphanumeric, whatever follows, or at a capital behind a small letter; and 5 more
/// right behind the match before it. The empty query scores 0, so that this tells the
/// score of every query.
pub proof fn law_scores_add_up(
    query: Seq<char>,
    c: char,
    target: Seq<char>,
    at: Seq<int>,
    i: int,
)
    requires
        first_at(query, target, 0, at),
        first_behind(
            c,
            target,
            if query.len() == 0 {
                0
            } else {
                at.last() + 1
            },
            i,
        ),
    ensures
        fuzzy(query, target) is Some,
        fuzzy(query.push(c), target) == Some(
            fuzzy(query, target)->0 + 1 + (if i == 0 || !char_is_alphanumeric(target[i - 1]) || (
            char_is_uppercase(target[i]) && char_is_lowercase(target[i - 1])) {
                8int
            } else {
                0int
            }) + (if query.len() > 0 && i == at.last() + 1 {
                5int
            } else {
                0int
            }),
        ),
{
    law_class_scores_add_up(query, c, target, target.map_values(|c: char| class_of(c)), at, i);
}

/// A query of one character scores 9 where the first occurrence of the character
/// starts a word, and 1 otherwise.
pub proof fn law_one_character_score(c: char, target: Seq<char>, i: int)
    requires
        first_behind(c, target, 0, i),
    ensures
        fuzzy_i32(seq![c], target) == Some(
            if i == 0 || !char_is_alphanumeric(target[i - 1]) || (char_is_uppercase(target[i])
                && char_is_lowercase(target[i - 1])) {
                9i32
            } else {
                1i32
            },
        ),
{
    law_empty_query(target);
    law_scores_add_up(Seq::empty(), c, target, Seq::empty(), i);
    assert(Seq::<char>::empty().push(c) =~= seq![c]);
}

/// The score that is handed out is the sum itself, as far as 32 bits hold it, and
/// there is one exactly where the query is a subsequence of the target.
pub proof fn law_score_is_handed_out(query: Seq<char>, target: Seq<char>)
    ensures
        fuzzy_i32(query, target) is Some <==> is_subsequence(query, target),
        query.len() <= MAX_QUERY_CHARS ==> (fuzzy_i32(query, target) matches Some(s) ==> fuzzy(
            query,
            target,
        ) == Some(s as int)),
        fuzzy_i32(query, target) matches Some(s) ==> exists|turns: int|
            fuzzy(query, target)->0 == s + #[trigger] (turns * 0x1_0000_0000),
{
    law_matches_subsequences(query, target);
    law_score_bounds(query, target);
    if let Some(s) = fuzzy_i32(query, target) {
        let sum = fuzzy(query, target)->0;
        let turns = (sum + 0x8000_0000) / 0x1_0000_0000;
        assert(sum == s + turns * 0x1_0000_0000);
    }
}

/// Every text matches itself.
pub proof fn law_whole_target_matches(target: Seq<char>)
    ensures
        fuzzy(target, target) is Some,
{
    let at = Seq::new(target.len(), |i: int| i);
    assert(occurs_at(target, target, at));
    law_matches_subsequences(target, target);
}

/// A query that is not too long scores at most 14 for each character, and 5 less for the
/// first one: for the longest such query, this is still a number of 32 bits, and for a
/// longer one it is not.
pub proof fn law_longest_query_that_does_not_wrap()
    ensures
        14 * MAX_QUERY_CHARS - 5 <= i32::MAX < 14 * (MAX_QUERY_CHARS + 1) - 5,
        MATCH_SCORE + BOUNDARY_BONUS + CONSECUTIVE_BONUS == 14,
{
}

} // verus!
