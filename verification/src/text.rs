//! Character-level text operations: case folding, substring search, line
//! splitting and match positions.
//!
//! Texts are modelled as `Seq<char>`. Everything but the Unicode case mapping is
//! computed here and proved against a short mathematical definition.

use vstd::prelude::*;

verus! {

/// The lower-case form of a text, as `str::to_lowercase` computes it.
pub uninterp spec fn lowercase(s: Seq<char>) -> Seq<char>;

/// `needle` stands in `hay` at offset `i`.
pub open spec fn occurs_at(needle: Seq<char>, hay: Seq<char>, i: int) -> bool {
    0 <= i && i + needle.len() <= hay.len() && hay.subrange(i, i + needle.len()) == needle
}

/// `needle` stands somewhere in `hay`. The empty text stands in every text.
pub open spec fn is_substring(needle: Seq<char>, hay: Seq<char>) -> bool {
    exists|i: int| occurs_at(needle, hay, i)
}

/// A text matches a query when the query is empty or when its lower-case form
/// stands in the lower-case form of the text.
pub open spec fn matches_query(text: Seq<char>, query: Seq<char>) -> bool {
    query.len() == 0 || is_substring(lowercase(query), lowercase(text))
}

/// The views of the elements of a sequence, in order.
pub open spec fn views<T: View>(items: Seq<T>) -> Seq<T::V> {
    Seq::new(items.len(), |i: int| items[i]@)
}

/// The offset of the first line feed of `s` at or after `from`, or the length
/// of `s` when there is none.
pub open spec fn line_end(s: Seq<char>, from: int) -> int
    decreases s.len() - from,
{
    if from < 0 || from >= s.len() {
        s.len() as int
    } else if s[from] == '\n' {
        from
    } else {
        line_end(s, from + 1)
    }
}

/// A line without the carriage return that may precede its line feed.
pub open spec fn strip_cr(line: Seq<char>) -> Seq<char> {
    if line.len() > 0 && line.last() == '\r' {
        line.drop_last()
    } else {
        line
    }
}

/// The lines of `s` from offset `from` on. A line ends at a line feed, which
/// is left out together with a carriage return right before it. What follows
/// the last line feed is a line of its own unless it is empty.
pub open spec fn lines_from(s: Seq<char>, from: int) -> Seq<Seq<char>>
    decreases s.len() - from,
{
    if from < 0 || from >= s.len() {
        Seq::empty()
    } else {
        let end = line_end(s, from);
        if from <= end < s.len() {
            seq![strip_cr(s.subrange(from, end))] + lines_from(s, end + 1)
        } else {
            seq![s.subrange(from, s.len() as int)]
        }
    }
}

/// The lines of a text.
pub open spec fn lines(s: Seq<char>) -> Seq<Seq<char>> {
    lines_from(s, 0)
}

/// The index of the first line at or after `from` in which `needle` stands.
pub open spec fn first_line_with(all: Seq<Seq<char>>, needle: Seq<char>, from: int) -> Option<int>
    decreases all.len() - from,
{
    if from < 0 || from >= all.len() {
        None
    } else if is_substring(needle, lowercase(all[from])) {
        Some(from)
    } else {
        first_line_with(all, needle, from + 1)
    }
}

/// The start offsets of the occurrences of `needle` in `hay` that a scan from
/// `from` to the right finds, where the scan goes on behind each occurrence,
/// so that no two of them overlap. An empty needle has no occurrences.
pub open spec fn match_starts(needle: Seq<char>, hay: Seq<char>, from: int) -> Seq<int>
    decreases hay.len() - from,
{
    if needle.len() == 0 || from < 0 || from + needle.len() > hay.len() {
        Seq::empty()
    } else if occurs_at(needle, hay, from) {
        seq![from] + match_starts(needle, hay, from + needle.len())
    } else {
        match_starts(needle, hay, from + 1)
    }
}

/// Machine offsets as mathematical integers.
pub open spec fn starts_of(offsets: Seq<usize>) -> Seq<int> {
    Seq::new(offsets.len(), |i: int| offsets[i] as int)
}

/// `String::push` appends one character.
pub assume_specification[ String::push ](s: &mut String, ch: char)
    ensures
        final(s)@ == old(s)@.push(ch),
;

/// `String::pop` removes the last character and returns it, or returns `None`
/// and leaves the string as it is when it is empty.
pub assume_specification[ String::pop ](s: &mut String) -> (r: Option<char>)
    ensures
        old(s)@.len() == 0 ==> r is None && final(s)@ == old(s)@,
        old(s)@.len() > 0 ==> r == Some(old(s)@.last()) && final(s)@ == old(s)@.drop_last(),
;

/// Two string slices are equal when they hold the same characters.
pub assume_specification[ <str as PartialEq>::eq ](a: &str, b: &str) -> (r: bool)
    ensures
        r == (a@ == b@),
;

/// Calls `str::to_lowercase`. The result is the value that [`lowercase`] names:
/// the Unicode lower-case mapping depends on the characters of `s` alone.
#[verifier::external_body]
pub(crate) fn to_lowercase(s: &str) -> (r: String)
    ensures
        r@ == lowercase(s@),
{
    s.to_lowercase()
}

/// The characters of `s`, in order.
pub fn to_chars(s: &str) -> (r: Vec<char>)
    ensures
        r@ == s@,
{
    let mut out: Vec<char> = Vec::new();
    for c in it: s.chars()
        invariant
            out@ == it.seq().take(it.index() as int),
    {
        out.push(c);
    }
    out
}

/// The string made of the characters of `chars`, in order.
pub fn from_chars(chars: &Vec<char>) -> (r: String)
    ensures
        r@ == chars@,
{
    let mut out = String::new();
    let mut i: usize = 0;
    while i < chars.len()
        invariant
            i <= chars.len(),
            out@ == chars@.take(i as int),
        decreases chars.len() - i,
    {
        out.push(chars[i]);
        i += 1;
    }
    out
}

/// The characters of the lower-case form of `s`.
pub fn lower_chars(s: &str) -> (r: Vec<char>)
    ensures
        r@ == lowercase(s@),
{
    let lowered = to_lowercase(s);
    to_chars(lowered.as_str())
}

/// Whether two texts hold the same characters.
pub fn same_text(a: &str, b: &str) -> (r: bool)
    ensures
        r == (a@ == b@),
{
    a.eq(b)
}

/// Whether `needle` stands in `hay` at offset `at`.
pub fn matches_at(hay: &Vec<char>, needle: &Vec<char>, at: usize) -> (r: bool)
    ensures
        r == occurs_at(needle@, hay@, at as int),
{
    if needle.len() > hay.len() || at > hay.len() - needle.len() {
        return false;
    }
    let mut k: usize = 0;
    while k < needle.len()
        invariant
            k <= needle.len(),
            at + needle.len() <= hay.len(),
            forall|j: int| 0 <= j < k ==> hay@[at + j] == needle@[j],
        decreases needle.len() - k,
    {
        if hay[at + k] != needle[k] {
            assert(hay@.subrange(at as int, at + needle.len())[k as int] != needle@[k as int]);
            return false;
        }
        k += 1;
    }
    assert(hay@.subrange(at as int, at + needle.len()) =~= needle@);
    true
}

/// Whether `needle` stands somewhere in `hay`.
pub fn contains(hay: &Vec<char>, needle: &Vec<char>) -> (r: bool)
    ensures
        r == is_substring(needle@, hay@),
{
    if needle.len() == 0 {
        assert(occurs_at(needle@, hay@, 0)) by {
            assert(hay@.subrange(0, 0) =~= needle@);
        }
        return true;
    }
    if needle.len() > hay.len() {
        return false;
    }
    let last: usize = hay.len() - needle.len();
    let mut i: usize = 0;
    while i <= last
        invariant
            i <= last + 1,
            last < hay.len(),
            last == hay.len() - needle.len(),
            forall|k: int| 0 <= k < i ==> !occurs_at(needle@, hay@, k),
        decreases last + 1 - i,
    {
        if matches_at(hay, needle, i) {
            return true;
        }
        i += 1;
    }
    false
}

/// What `line_end` is, stated without recursion: the offset `end` when no line
/// feed stands in `from..end` and `end` is a line feed or the end of the text.
pub proof fn lemma_line_end(s: Seq<char>, from: int, end: int)
    requires
        0 <= from <= end <= s.len(),
        forall|k: int| from <= k < end ==> s[k] != '\n',
        end == s.len() || s[end] == '\n',
    ensures
        line_end(s, from) == end,
    decreases end - from,
{
    if from < end {
        lemma_line_end(s, from + 1, end);
    }
}

/// What `first_line_with` is, stated without recursion: the first index at or
/// after `from` of a line that holds `needle`, or none where no line does.
pub proof fn lemma_first_line_with(all: Seq<Seq<char>>, needle: Seq<char>, from: int)
    requires
        0 <= from,
    ensures
        match first_line_with(all, needle, from) {
            Some(i) => {
                &&& from <= i < all.len()
                &&& is_substring(needle, lowercase(all[i]))
                &&& forall|j: int|
                    from <= j < i ==> !is_substring(needle, lowercase(#[trigger] all[j]))
            },
            None => forall|j: int|
                from <= j < all.len() ==> !is_substring(needle, lowercase(#[trigger] all[j])),
        },
    decreases all.len() - from,
{
    if from < all.len() && !is_substring(needle, lowercase(all[from])) {
        lemma_first_line_with(all, needle, from + 1);
    }
}

/// The lines of a text, each as a vector of characters.
pub fn split_lines(s: &Vec<char>) -> (r: Vec<Vec<char>>)
    ensures
        views(r@) == lines(s@),
{
    let mut out: Vec<Vec<char>> = Vec::new();
    let mut from: usize = 0;
    while from < s.len()
        invariant
            from <= s.len(),
            views(out@) + lines_from(s@, from as int) == lines(s@),
        decreases s.len() - from,
    {
        let mut line: Vec<char> = Vec::new();
        let mut end: usize = from;
        while end < s.len() && s[end] != '\n'
            invariant
                from <= end <= s.len(),
                forall|k: int| from <= k < end ==> s@[k] != '\n',
                line@ == s@.subrange(from as int, end as int),
            decreases s.len() - end,
        {
            line.push(s[end]);
            end += 1;
        }
        proof {
            lemma_line_end(s@, from as int, end as int);
        }
        let ghost before = views(out@);
        let ghost rest = lines_from(s@, from as int);
        if end < s.len() {
            if line.len() > 0 && line[line.len() - 1] == '\r' {
                line.pop();
            }
            assert(line@ == strip_cr(s@.subrange(from as int, end as int)));
            out.push(line);
            from = end + 1;
        } else {
            out.push(line);
            from = end;
        }
        assert(views(out@) =~= before + seq![line@]);
        assert(rest == seq![line@] + lines_from(s@, from as int));
        assert(views(out@) + lines_from(s@, from as int) =~= before + rest);
    }
    assert(views(out@) + lines_from(s@, from as int) =~= views(out@));
    out
}

/// The index of the first of `all` in whose lower-case form `needle` stands.
pub fn first_line_containing(all: &Vec<Vec<char>>, needle: &Vec<char>) -> (r: Option<usize>)
    ensures
        match r {
            Some(i) => first_line_with(views(all@), needle@, 0) == Some(i as int),
            None => first_line_with(views(all@), needle@, 0) is None,
        },
{
    let mut i: usize = 0;
    while i < all.len()
        invariant
            i <= all.len(),
            first_line_with(views(all@), needle@, 0) == first_line_with(
                views(all@),
                needle@,
                i as int,
            ),
        decreases all.len() - i,
    {
        let line = from_chars(&all[i]);
        let lowered = lower_chars(line.as_str());
        assert(views(all@)[i as int] == all@[i as int]@);
        if contains(&lowered, needle) {
            return Some(i);
        }
        i += 1;
    }
    None
}

/// Every start that `match_starts` lists is an occurrence at or after `from`,
/// and each start lies behind the occurrence before it.
pub proof fn lemma_match_starts(needle: Seq<char>, hay: Seq<char>, from: int)
    requires
        0 <= from,
    ensures
        forall|k: int|
            0 <= k < match_starts(needle, hay, from).len() ==> from <= #[trigger] match_starts(
                needle,
                hay,
                from,
            )[k] && occurs_at(needle, hay, match_starts(needle, hay, from)[k]),
        forall|k: int|
            0 < k < match_starts(needle, hay, from).len() ==> match_starts(needle, hay, from)[k
                - 1] + needle.len() <= #[trigger] match_starts(needle, hay, from)[k],
    decreases hay.len() - from,
{
    let all = match_starts(needle, hay, from);
    if needle.len() == 0 || from + needle.len() > hay.len() {
        assert(all.len() == 0);
    } else if occurs_at(needle, hay, from) {
        lemma_match_starts(needle, hay, from + needle.len());
        let rest = match_starts(needle, hay, from + needle.len());
        assert(all == seq![from] + rest);
        assert forall|k: int| 0 <= k < all.len() implies from <= #[trigger] all[k] && occurs_at(
            needle,
            hay,
            all[k],
        ) by {
            if k > 0 {
                assert(all[k] == rest[k - 1]);
            }
        }
        assert forall|k: int| 0 < k < all.len() implies all[k - 1] + needle.len()
            <= #[trigger] all[k] by {
            assert(all[k] == rest[k - 1]);
            if k > 1 {
                assert(all[k - 1] == rest[k - 2]);
            }
        }
    } else {
        lemma_match_starts(needle, hay, from + 1);
        let rest = match_starts(needle, hay, from + 1);
        assert(all == rest);
        assert forall|k: int| 0 <= k < all.len() implies from <= #[trigger] all[k] && occurs_at(
            needle,
            hay,
            all[k],
        ) by {
            assert(from + 1 <= rest[k]);
        }
        assert forall|k: int| 0 < k < all.len() implies all[k - 1] + needle.len()
            <= #[trigger] all[k] by {
            assert(rest[k - 1] + needle.len() <= rest[k]);
        }
    }
}

/// The start offsets of the occurrences of `needle` in `hay`, left to right and
/// without overlap.
pub fn find_matches(hay: &Vec<char>, needle: &Vec<char>) -> (r: Vec<usize>)
    ensures
        starts_of(r@) == match_starts(needle@, hay@, 0),
{
    let mut out: Vec<usize> = Vec::new();
    if needle.len() == 0 || needle.len() > hay.len() {
        assert(starts_of(out@) =~= match_starts(needle@, hay@, 0));
        return out;
    }
    let last: usize = hay.len() - needle.len();
    let mut from: usize = 0;
    while from <= last
        invariant
            needle.len() > 0,
            last == hay.len() - needle.len(),
            from <= hay.len(),
            starts_of(out@) + match_starts(needle@, hay@, from as int) == match_starts(
                needle@,
                hay@,
                0,
            ),
        decreases hay.len() - from,
    {
        let ghost before = starts_of(out@);
        let ghost rest = match_starts(needle@, hay@, from as int);
        if matches_at(hay, needle, from) {
            out.push(from);
            assert(starts_of(out@) =~= before + seq![from as int]);
            from = from + needle.len();
            assert(rest == seq![out@.last() as int] + match_starts(needle@, hay@, from as int));
        } else {
            from = from + 1;
        }
        assert(starts_of(out@) + match_starts(needle@, hay@, from as int) =~= before + rest);
    }
    assert(starts_of(out@) + match_starts(needle@, hay@, from as int) =~= starts_of(out@));
    out
}

} // verus!
