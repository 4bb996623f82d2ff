//! A minimal file-name pattern language: `*`, `*.suffix`, or an exact name.
use vstd::prelude::*;

verus! {

/// Whether the pattern has the `*.suffix` shape.
pub open spec fn is_suffix_pattern(pattern: Seq<char>) -> bool {
    pattern.len() >= 2 && pattern[0] == '*' && pattern[1] == '.'
}

/// Whether `text` ends with `suffix`.
pub open spec fn ends_with(text: Seq<char>, suffix: Seq<char>) -> bool {
    suffix.len() <= text.len() && text.subrange(text.len() - suffix.len(), text.len() as int)
        == suffix
}

/// `*` matches every name, `*.x` every name ending in `x`, anything else only itself.
pub open spec fn glob_matches(text: Seq<char>, pattern: Seq<char>) -> bool {
    if pattern == seq!['*'] {
        true
    } else if is_suffix_pattern(pattern) {
        ends_with(text, pattern.subrange(2, pattern.len() as int))
    } else {
        text == pattern
    }
}

/// A name matches a pattern set when the set is empty or one of its patterns matches.
pub open spec fn patterns_match(name: Seq<char>, patterns: Seq<Seq<char>>) -> bool {
    patterns.len() == 0 || exists|i: int| 0 <= i < patterns.len() && glob_matches(name, #[trigger] patterns[i])
}

/// Whether the characters of `text` from `start` on equal those of `pattern` from `from` on.
fn tail_equal(text: &str, start: usize, pattern: &str, from: usize) -> (r: bool)
    requires
        start <= text@.len(),
        from <= pattern@.len(),
        text@.len() - start == pattern@.len() - from,
    ensures
        r == (text@.subrange(start as int, text@.len() as int) == pattern@.subrange(
            from as int,
            pattern@.len() as int,
        )),
{
    let tl = text.unicode_len();
    let pl = pattern.unicode_len();
    let mut i: usize = 0;
    while i < tl - start
        invariant
            tl == text@.len(),
            pl == pattern@.len(),
            start <= tl,
            from <= pl,
            tl - start == pl - from,
            i <= tl - start,
            forall|j: int|
                0 <= j < i ==> #[trigger] text@[start + j] == pattern@[from + j],
        decreases tl - start - i,
    {
        if text.get_char(start + i) != pattern.get_char(from + i) {
            assert(text@.subrange(start as int, tl as int)[i as int] != pattern@.subrange(
                from as int,
                pl as int,
            )[i as int]);
            return false;
        }
        i = i + 1;
    }
    assert forall|k: int| 0 <= k < tl - start implies text@.subrange(start as int, tl as int)[k]
        == pattern@.subrange(from as int, pl as int)[k] by {
        assert(text@[start + k] == pattern@[from + k]);
    }
    assert(text@.subrange(start as int, tl as int) =~= pattern@.subrange(from as int, pl as int));
    true
}

/// Evaluates a file name against one pattern.
pub fn matches_glob(text: &str, pattern: &str) -> (r: bool)
    ensures
        r == glob_matches(text@, pattern@),
{
    let tl = text.unicode_len();
    let pl = pattern.unicode_len();
    if pl == 1 && pattern.get_char(0) == '*' {
        assert(pattern@ =~= seq!['*']);
        return true;
    }
    assert(pattern@ != seq!['*']);
    if pl >= 2 && pattern.get_char(0) == '*' && pattern.get_char(1) == '.' {
        let ext_len = pl - 2;
        if ext_len > tl {
            return false;
        }
        return tail_equal(text, tl - ext_len, pattern, 2);
    }
    if tl != pl {
        return false;
    }
    let same = tail_equal(text, 0, pattern, 0);
    assert(text@.subrange(0, tl as int) =~= text@);
    assert(pattern@.subrange(0, pl as int) =~= pattern@);
    same
}

/// Evaluates a file name against a category's pattern set.
pub fn matches_pattern(name: &str, patterns: &Vec<String>) -> (r: bool)
    ensures
        r == patterns_match(name@, patterns.deep_view()),
{
    if patterns.len() == 0 {
        return true;
    }
    let mut i: usize = 0;
    while i < patterns.len()
        invariant
            i <= patterns.len(),
            patterns.len() > 0,
            forall|j: int| 0 <= j < i ==> !glob_matches(name@, #[trigger] patterns.deep_view()[j]),
        decreases patterns.len() - i,
    {
        if matches_glob(name, patterns[i].as_str()) {
            assert(glob_matches(name@, patterns.deep_view()[i as int]));
            return true;
        }
        i = i + 1;
    }
    false
}

} // verus!
