//! Reading what the version-control commands print: the list of paths that
//! changed between two revisions.
use vstd::prelude::*;

verus! {

/// Whether `c` is white space: what `char::is_whitespace` gives for it.
pub uninterp spec fn white_space(c: char) -> bool;

/// `char::is_whitespace` of the standard library: whether the character has
/// the Unicode property White_Space. The contract gives the answer a name
/// and claims no more of it than that it depends on the character alone.
#[verifier::external_body]
fn is_white_space(c: char) -> (b: bool)
    ensures
        b == white_space(c),
{
    c.is_whitespace()
}

/// The number of white-space characters at the start of `text`.
pub open spec fn leading_space(text: Seq<char>) -> nat
    decreases text.len(),
{
    if text.len() > 0 && white_space(text.first()) {
        1 + leading_space(text.drop_first())
    } else {
        0
    }
}

/// The number of white-space characters at the end of `text`.
pub open spec fn trailing_space(text: Seq<char>) -> nat
    decreases text.len(),
{
    if text.len() > 0 && white_space(text.last()) {
        1 + trailing_space(text.drop_last())
    } else {
        0
    }
}

/// `text` without the white space at its two ends.
pub open spec fn trimmed(text: Seq<char>) -> Seq<char> {
    if leading_space(text) == text.len() {
        Seq::empty()
    } else {
        text.subrange(leading_space(text) as int, text.len() - trailing_space(text))
    }
}

/// Where the first character that is not white space stands, the white
/// space at the start ends.
proof fn lemma_leading_space(text: Seq<char>, start: int)
    requires
        0 <= start <= text.len(),
        forall|k: int| 0 <= k < start ==> white_space(#[trigger] text[k]),
        start < text.len() ==> !white_space(text[start]),
    ensures
        leading_space(text) == start,
    decreases text.len(),
{
    if start > 0 {
        let rest = text.drop_first();
        assert(white_space(text[0]));
        assert forall|k: int| 0 <= k < start - 1 implies white_space(#[trigger] rest[k]) by {
            assert(rest[k] == text[k + 1]);
        }
        if start - 1 < rest.len() {
            assert(rest[start - 1] == text[start]);
        }
        lemma_leading_space(rest, start - 1);
    }
}

/// Behind the last character that is not white space, the white space at
/// the end begins.
proof fn lemma_trailing_space(text: Seq<char>, end: int)
    requires
        0 <= end <= text.len(),
        forall|k: int| end <= k < text.len() ==> white_space(#[trigger] text[k]),
        end > 0 ==> !white_space(text[end - 1]),
    ensures
        trailing_space(text) == text.len() - end,
    decreases text.len(),
{
    if end < text.len() {
        let rest = text.drop_last();
        assert(white_space(text[text.len() - 1]));
        assert forall|k: int| end <= k < rest.len() implies white_space(#[trigger] rest[k]) by {
            assert(rest[k] == text[k]);
        }
        if end > 0 {
            assert(rest[end - 1] == text[end - 1]);
        }
        lemma_trailing_space(rest, end);
    }
}

/// Every character of `text` is white space.
pub open spec fn all_space(text: Seq<char>) -> bool {
    forall|k: int| 0 <= k < text.len() ==> white_space(#[trigger] text[k])
}

/// A text of white space alone is trimmed to nothing. Any other text is
/// trimmed to the part between its white space at the start and its white
/// space at the end, and that part starts and ends with a character that is
/// not white space.
pub proof fn lemma_trimmed(text: Seq<char>)
    ensures
        all_space(text) <==> trimmed(text).len() == 0,
        !all_space(text) ==> {
            &&& leading_space(text) + trailing_space(text) < text.len()
            &&& text == text.take(leading_space(text) as int) + trimmed(text) + text.skip(
                text.len() - trailing_space(text),
            )
            &&& !white_space(trimmed(text).first())
            &&& !white_space(trimmed(text).last())
        },
        all_space(text.take(leading_space(text) as int)),
        all_space(text.skip(text.len() - trailing_space(text))),
{
    lemma_space_at_the_ends(text);
    let lead = leading_space(text) as int;
    let trail = trailing_space(text) as int;
    if lead < text.len() {
        assert(!white_space(text[lead]));
        assert(lead < text.len() - trail);
        assert(trimmed(text).first() == text[lead]);
        assert(trimmed(text).last() == text[text.len() - trail - 1]);
        assert(text =~= text.take(lead) + trimmed(text) + text.skip(text.len() - trail));
    }
}

/// The characters that `leading_space` and `trailing_space` count are white
/// space, and the characters next to them are not.
proof fn lemma_space_at_the_ends(text: Seq<char>)
    ensures
        leading_space(text) <= text.len(),
        trailing_space(text) <= text.len(),
        forall|k: int| 0 <= k < leading_space(text) ==> white_space(#[trigger] text[k]),
        leading_space(text) < text.len() ==> !white_space(text[leading_space(text) as int]),
        forall|k: int|
            text.len() - trailing_space(text) <= k < text.len() ==> white_space(#[trigger] text[k]),
        trailing_space(text) < text.len() ==> !white_space(
            text[text.len() - trailing_space(text) - 1],
        ),
    decreases text.len(),
{
    if text.len() > 0 {
        if white_space(text.first()) {
            let rest = text.drop_first();
            lemma_space_at_the_ends(rest);
            assert forall|k: int| 0 <= k < leading_space(text) implies white_space(
                #[trigger] text[k],
            ) by {
                if k > 0 {
                    assert(text[k] == rest[k - 1]);
                }
            }
            if leading_space(text) < text.len() {
                assert(text[leading_space(text) as int] == rest[leading_space(rest) as int]);
            }
        }
        if white_space(text.last()) {
            let rest = text.drop_last();
            lemma_space_at_the_ends(rest);
            assert forall|k: int|
                text.len() - trailing_space(text) <= k < text.len() implies white_space(
                #[trigger] text[k],
            ) by {
                if k < rest.len() {
                    assert(text[k] == rest[k]);
                }
            }
            if trailing_space(text) < text.len() {
                assert(text[text.len() - trailing_space(text) - 1] == rest[rest.len()
                    - trailing_space(rest) - 1]);
            }
        }
    }
}

/// The text without the white space at its two ends.
pub fn trim(text: &str) -> (result: &str)
    ensures
        result@ == trimmed(text@),
{
    let n = text.unicode_len();
    let ghost chars = text@;
    let mut start: usize = 0;
    let mut end: usize = 0;
    let mut seen = false;
    let mut i: usize = 0;
    for c in it: text.chars()
        invariant
            it.seq() == chars,
            chars == text@,
            n == chars.len(),
            i == it.index(),
            i <= n,
            !seen ==> start == i && end == 0,
            seen ==> start < end <= i && !white_space(chars[start as int]) && !white_space(
                chars[end - 1],
            ),
            forall|k: int| 0 <= k < start ==> white_space(#[trigger] chars[k]),
            forall|k: int| end <= k < i && seen ==> white_space(#[trigger] chars[k]),
    {
        if is_white_space(c) {
            if !seen {
                start = i + 1;
            }
        } else {
            if !seen {
                seen = true;
                start = i;
            }
            end = i + 1;
        }
        i = i + 1;
    }
    if !seen {
        proof {
            lemma_leading_space(chars, n as int);
        }
        let nothing = text.substring_char(0, 0);
        assert(nothing@ =~= Seq::<char>::empty());
        nothing
    } else {
        proof {
            lemma_leading_space(chars, start as int);
            lemma_trailing_space(chars, end as int);
        }
        text.substring_char(start, end)
    }
}

/// The pieces into which the line feeds cut `text`. A text without a line
/// feed is one piece, and a line feed at the end leaves an empty last piece.
pub open spec fn split_lines(text: Seq<char>) -> Seq<Seq<char>>
    decreases text.len(),
{
    if text.len() == 0 {
        seq![Seq::<char>::empty()]
    } else {
        let before = split_lines(text.drop_last());
        if text.last() == '\n' {
            before.push(Seq::<char>::empty())
        } else {
            before.drop_last().push(before.last().push(text.last()))
        }
    }
}

/// The paths that a listing names, one on each line. An empty listing names
/// none.
pub open spec fn listed_files(listing: Seq<char>) -> Seq<Seq<char>> {
    if listing.len() == 0 {
        Seq::empty()
    } else {
        split_lines(listing)
    }
}

/// The pieces joined by line feeds.
pub open spec fn joined_lines(pieces: Seq<Seq<char>>) -> Seq<char>
    decreases pieces.len(),
{
    if pieces.len() == 0 {
        Seq::empty()
    } else if pieces.len() == 1 {
        pieces[0]
    } else {
        joined_lines(pieces.drop_last()) + seq!['\n'] + pieces.last()
    }
}

/// The pieces of `split_lines` are never none, hold no line feed, and,
/// joined by line feeds, give the text back.
pub proof fn lemma_split_lines(text: Seq<char>)
    ensures
        split_lines(text).len() >= 1,
        forall|i: int, j: int|
            0 <= i < split_lines(text).len() && 0 <= j < split_lines(text)[i].len()
                ==> #[trigger] split_lines(text)[i][j] != '\n',
        joined_lines(split_lines(text)) == text,
    decreases text.len(),
{
    if text.len() > 0 {
        let front = text.drop_last();
        lemma_split_lines(front);
        let before = split_lines(front);
        let all = split_lines(text);
        if text.last() == '\n' {
            assert(all.drop_last() =~= before);
            assert(joined_lines(all) =~= text);
        } else {
            let grown = before.last().push(text.last());
            assert(all.last() == grown);
            assert(all.drop_last() =~= before.drop_last());
            assert(all.len() == before.len());
            if before.len() == 1 {
                assert(all[0] == grown);
                assert(joined_lines(before) == before[0]);
                assert(joined_lines(all) =~= front.push(text.last()));
            } else {
                let head = joined_lines(before.drop_last()) + seq!['\n'];
                assert(joined_lines(before) == head + before.last());
                assert(joined_lines(all) == head + grown);
                assert(head + grown =~= (head + before.last()).push(text.last()));
            }
            assert(front.push(text.last()) =~= text);
        }
        assert forall|i: int, j: int| 0 <= i < all.len() && 0 <= j < all[i].len() implies #[trigger]
            all[i][j] != '\n' by {
            if i < all.len() - 1 {
                assert(all[i] == before[i]);
            } else if text.last() != '\n' {
                if j < before.last().len() {
                    assert(all[i][j] == before[i][j]);
                }
            }
        }
    } else {
        assert(joined_lines(split_lines(text)) =~= text);
    }
}

/// The paths that a listing names, one on each line.
pub fn file_list(listing: &str) -> (files: Vec<String>)
    ensures
        files.deep_view() == listed_files(listing@),
{
    let n = listing.unicode_len();
    let mut files: Vec<String> = Vec::new();
    if n == 0 {
        assert(files.deep_view() =~= Seq::<Seq<char>>::empty());
        return files;
    }
    let ghost text = listing@;
    let mut start: usize = 0;
    let mut i: usize = 0;
    proof {
        assert(text.take(0) =~= Seq::<char>::empty());
        assert(text.subrange(0, 0) =~= Seq::<char>::empty());
        assert(files.deep_view().push(text.subrange(0, 0)) =~= split_lines(text.take(0)));
    }
    for c in it: listing.chars()
        invariant
            it.seq() == text,
            text == listing@,
            n == text.len(),
            i == it.index(),
            start <= i <= n,
            split_lines(text.take(i as int)) == files.deep_view().push(
                text.subrange(start as int, i as int),
            ),
    {
        let ghost before = files.deep_view();
        let ghost piece = text.subrange(start as int, i as int);
        proof {
            assert(text.take(i + 1).drop_last() =~= text.take(i as int));
            assert(text.take(i + 1).last() == c);
            assert(before.push(piece).drop_last() =~= before);
        }
        if c == '\n' {
            let line = listing.substring_char(start, i);
            files.push(String::from_str(line));
            start = i + 1;
            proof {
                assert(files.deep_view() =~= before.push(piece));
                assert(text.subrange(start as int, i + 1) =~= Seq::<char>::empty());
            }
        } else {
            assert(text.subrange(start as int, i + 1) =~= piece.push(c));
        }
        i = i + 1;
    }
    let ghost before = files.deep_view();
    let line = listing.substring_char(start, n);
    files.push(String::from_str(line));
    proof {
        assert(text.take(n as int) =~= text);
        assert(files.deep_view() =~= before.push(text.subrange(start as int, n as int)));
    }
    files
}

/// The paths that a version-control command printed: its output without
/// the white space at the ends, one path on each line.
pub fn parse_file_list(output: &str) -> (files: Vec<String>)
    ensures
        files.deep_view() == listed_files(trimmed(output@)),
{
    file_list(trim(output))
}

/// `text` ends in `suffix`.
pub open spec fn has_suffix(text: Seq<char>, suffix: Seq<char>) -> bool {
    text.len() >= suffix.len() && text.subrange(text.len() - suffix.len(), text.len() as int)
        == suffix
}

/// The test "the path ends in `.rs`".
pub open spec fn rust_path() -> spec_fn(Seq<char>) -> bool {
    |path: Seq<char>| has_suffix(path, ".rs"@)
}

/// Whether the path is that of a Rust source file: whether it ends in `.rs`.
pub fn is_rust_file(path: &str) -> (b: bool)
    ensures
        b == has_suffix(path@, ".rs"@),
{
    proof {
        reveal_strlit(".rs");
    }
    let n = path.unicode_len();
    if n < 3 {
        return false;
    }
    let b = path.get_char(n - 3) == '.' && path.get_char(n - 2) == 'r' && path.get_char(n - 1)
        == 's';
    proof {
        let tail = path@.subrange(n - 3, n as int);
        assert(tail.len() == 3);
        if b {
            assert(tail =~= ".rs"@);
        } else {
            assert(tail[0] == path@[n - 3] && tail[1] == path@[n - 2] && tail[2] == path@[n - 1]);
        }
    }
    b
}

/// The Rust source files among `files`, in order.
pub fn rust_files(files: &Vec<String>) -> (kept: Vec<String>)
    ensures
        kept.deep_view() == files.deep_view().filter(rust_path()),
{
    let ghost paths = files.deep_view();
    let mut kept: Vec<String> = Vec::new();
    let mut i: usize = 0;
    proof {
        reveal(Seq::filter);
        assert(paths.take(0) =~= Seq::<Seq<char>>::empty());
        assert(kept.deep_view() =~= Seq::<Seq<char>>::empty());
    }
    while i < files.len()
        invariant
            i <= files.len(),
            paths == files.deep_view(),
            kept.deep_view() == paths.take(i as int).filter(rust_path()),
        decreases files.len() - i,
    {
        let ghost before = kept.deep_view();
        proof {
            paths.take(i as int).lemma_filter_push(paths[i as int], rust_path());
            assert(paths.take(i as int).push(paths[i as int]) =~= paths.take(i + 1));
        }
        if is_rust_file(files[i].as_str()) {
            kept.push(files[i].clone());
            assert(kept.deep_view() =~= before.push(paths[i as int]));
        }
        i = i + 1;
    }
    assert(paths.take(i as int) =~= paths);
    kept
}

} // verus!
