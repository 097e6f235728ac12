//! How splitting, joining, trimming and case work together.

use vstd::prelude::*;

use crate::text::{
    ascii_lower, ascii_lowercase, char_is_alphanumeric, char_is_whitespace, decimal, is_ascii_text,
    join_with_space, nonempty, split, trim, trim_end, trim_start, words, Separator,
};

verus! {

/// `pred` holds of every character.
pub open spec fn all_chars(s: Seq<char>, pred: spec_fn(char) -> bool) -> bool {
    forall|i: int| 0 <= i < s.len() ==> pred(#[trigger] s[i])
}

/// `pred` holds of every character of every piece.
pub open spec fn all_pieces(parts: Seq<Seq<char>>, pred: spec_fn(char) -> bool) -> bool {
    forall|k: int| 0 <= k < parts.len() ==> all_chars(#[trigger] parts[k], pred)
}

/// Pieces that hold at least one character, and no separator.
pub open spec fn are_words(parts: Seq<Seq<char>>, sep: Separator) -> bool {
    &&& forall|k: int| 0 <= k < parts.len() ==> (#[trigger] parts[k]).len() > 0
    &&& all_pieces(parts, |c: char| !sep.splits(c))
}

/// Whitespace is single spaces between other characters.
pub open spec fn is_single_spaced(s: Seq<char>) -> bool {
    forall|i: int|
        0 <= i < s.len() && char_is_whitespace(#[trigger] s[i]) ==> s[i] == ' ' && 0 < i < s.len()
            - 1 && !char_is_whitespace(s[i - 1]) && !char_is_whitespace(s[i + 1])
}

/// The pieces hold no separator, and no character that the text does not hold.
proof fn split_pieces(s: Seq<char>, sep: Separator, pred: spec_fn(char) -> bool)
    requires
        all_chars(s, pred),
    ensures
        split(s, sep).len() > 0,
        all_pieces(split(s, sep), pred),
        all_pieces(split(s, sep), |c: char| !sep.splits(c)),
    decreases s.len(),
{
    if s.len() > 0 {
        let rest = s.drop_last();
        assert forall|i: int| 0 <= i < rest.len() implies pred(#[trigger] rest[i]) by {
            assert(rest[i] == s[i]);
        }
        split_pieces(rest, sep, pred);
        let before = split(rest, sep);
        let parts = split(s, sep);
        let whole = |c: char| !sep.splits(c);
        assert(pred(s[s.len() - 1]));
        assert forall|k: int| 0 <= k < parts.len() implies all_chars(#[trigger] parts[k], pred)
            && all_chars(parts[k], whole) by {
            if k < before.len() {
                assert(all_chars(before[k], pred));
                assert(all_chars(before[k], whole));
            }
            assert forall|i: int| 0 <= i < parts[k].len() implies pred(#[trigger] parts[k][i])
                && whole(parts[k][i]) by {
                if !sep.splits(s.last()) && k == before.len() - 1 {
                    if i < before[k].len() {
                        assert(parts[k][i] == before[k][i]);
                    }
                }
            }
        }
    }
}

proof fn nonempty_pieces(parts: Seq<Seq<char>>, pred: spec_fn(char) -> bool)
    requires
        all_pieces(parts, pred),
    ensures
        all_pieces(nonempty(parts), pred),
        forall|k: int|
            0 <= k < nonempty(parts).len() ==> (#[trigger] nonempty(parts)[k]).len() > 0,
    decreases parts.len(),
{
    if parts.len() > 0 {
        let rest = parts.drop_last();
        assert forall|k: int| 0 <= k < rest.len() implies all_chars(#[trigger] rest[k], pred) by {
            assert(all_chars(parts[k], pred));
        }
        nonempty_pieces(rest, pred);
        assert(all_chars(parts[parts.len() - 1], pred));
        let before = nonempty(rest);
        let out = nonempty(parts);
        assert forall|k: int| 0 <= k < out.len() implies all_chars(#[trigger] out[k], pred)
            && out[k].len() > 0 by {
            if k < before.len() {
                assert(all_chars(before[k], pred));
                assert(out[k] == before[k]);
            }
        }
    }
}

/// The words of a text are words, and hold no character that the text does not
/// hold.
pub proof fn words_are_words(s: Seq<char>, sep: Separator, pred: spec_fn(char) -> bool)
    requires
        all_chars(s, pred),
    ensures
        are_words(words(s, sep), sep),
        all_pieces(words(s, sep), pred),
{
    split_pieces(s, sep, pred);
    nonempty_pieces(split(s, sep), pred);
    nonempty_pieces(split(s, sep), |c: char| !sep.splits(c));
}

/// Joining adds no characters but spaces.
pub proof fn joined_chars(parts: Seq<Seq<char>>, pred: spec_fn(char) -> bool)
    requires
        all_pieces(parts, pred),
        pred(' '),
    ensures
        all_chars(join_with_space(parts), pred),
    decreases parts.len(),
{
    if parts.len() == 1 {
        assert(all_chars(parts[0], pred));
    } else if parts.len() > 1 {
        let rest = parts.drop_last();
        assert forall|k: int| 0 <= k < rest.len() implies all_chars(#[trigger] rest[k], pred) by {
            assert(all_chars(parts[k], pred));
        }
        joined_chars(rest, pred);
        let last = parts[parts.len() - 1];
        assert(all_chars(last, pred));
        let before = join_with_space(rest);
        let out = join_with_space(parts);
        assert forall|i: int| 0 <= i < out.len() implies pred(#[trigger] out[i]) by {
            if i < before.len() {
                assert(out[i] == before[i]);
            } else if i > before.len() {
                assert(out[i] == last[i - before.len() - 1]);
            }
        }
    }
}

/// Joined words are single-spaced, and begin with the first word.
pub proof fn joined_words(parts: Seq<Seq<char>>)
    requires
        are_words(parts, Separator::Whitespace),
    ensures
        is_single_spaced(join_with_space(parts)),
        parts.len() > 0 ==> join_with_space(parts).len() > 0 && join_with_space(parts)[0]
            == parts[0][0],
        parts.len() > 0 ==> !char_is_whitespace(join_with_space(parts).last()),
    decreases parts.len(),
{
    let sep = Separator::Whitespace;
    let whole = |c: char| !sep.splits(c);
    let out = join_with_space(parts);
    if parts.len() == 1 {
        assert(all_chars(parts[0], whole));
        assert forall|i: int| 0 <= i < out.len() implies !char_is_whitespace(#[trigger] out[i]) by {
            assert(whole(parts[0][i]));
        }
    } else if parts.len() > 1 {
        let rest = parts.drop_last();
        assert forall|k: int| 0 <= k < rest.len() implies all_chars(#[trigger] rest[k], whole)
            && rest[k].len() > 0 by {
            assert(all_chars(parts[k], whole));
        }
        joined_words(rest);
        let last = parts[parts.len() - 1];
        assert(all_chars(last, whole));
        assert forall|i: int| 0 <= i < last.len() implies !char_is_whitespace(
            #[trigger] last[i],
        ) by {
            assert(whole(last[i]));
        }
        let before = join_with_space(rest);
        let n = before.len() as int;
        assert(rest[0] == parts[0]);
        assert(out[0] == before[0]);
        assert(out.last() == last.last());
        assert(out[n] == ' ');
        assert(out[n - 1] == before.last());
        assert(out[n + 1] == last[0]);
        assert forall|i: int|
            0 <= i < out.len() && char_is_whitespace(#[trigger] out[i]) implies out[i] == ' ' && 0
            < i < out.len() - 1 && !char_is_whitespace(out[i - 1]) && !char_is_whitespace(
            out[i + 1],
        ) by {
            if i < n {
                assert(out[i] == before[i]);
                assert(out[i - 1] == before[i - 1]);
                assert(out[i + 1] == before[i + 1]);
            } else if i > n {
                assert(out[i] == last[i - n - 1]);
            }
        }
    }
}

proof fn nonempty_of_words(parts: Seq<Seq<char>>)
    requires
        forall|k: int| 0 <= k < parts.len() ==> (#[trigger] parts[k]).len() > 0,
    ensures
        nonempty(parts) == parts,
    decreases parts.len(),
{
    if parts.len() > 0 {
        let rest = parts.drop_last();
        assert forall|k: int| 0 <= k < rest.len() implies (#[trigger] rest[k]).len() > 0 by {
            assert(parts[k].len() > 0);
        }
        nonempty_of_words(rest);
        assert(parts[parts.len() - 1].len() > 0);
        assert(rest.push(parts.last()) =~= parts);
    }
}

proof fn no_words_in_nothing()
    ensures
        words(Seq::empty(), Separator::Whitespace) == Seq::<Seq<char>>::empty(),
{
    let none = Seq::<char>::empty();
    let parts = split(none, Separator::Whitespace);
    assert(parts =~= seq![none]);
    assert(parts.drop_last() =~= Seq::<Seq<char>>::empty());
    assert(nonempty(parts.drop_last()) =~= Seq::<Seq<char>>::empty());
    assert(nonempty(parts) == nonempty(parts.drop_last()));
}

proof fn join_longer(parts: Seq<Seq<char>>, c: char)
    requires
        parts.len() > 0,
    ensures
        join_with_space(parts.drop_last().push(parts.last().push(c))) == join_with_space(
            parts,
        ).push(c),
{
    let rest = parts.drop_last();
    let longer = rest.push(parts.last().push(c));
    assert(longer.drop_last() =~= rest);
    assert(join_with_space(longer) =~= join_with_space(parts).push(c));
}

proof fn join_of_split(s: Seq<char>)
    requires
        forall|i: int| 0 <= i < s.len() && char_is_whitespace(#[trigger] s[i]) ==> s[i] == ' ',
    ensures
        join_with_space(split(s, Separator::Whitespace)) == s,
        split(s, Separator::Whitespace).len() > 0,
    decreases s.len(),
{
    let sep = Separator::Whitespace;
    if s.len() > 0 {
        let rest = s.drop_last();
        assert forall|i: int| 0 <= i < rest.len() && char_is_whitespace(#[trigger] rest[i]) implies
            rest[i] == ' ' by {
            assert(rest[i] == s[i]);
        }
        join_of_split(rest);
        let before = split(rest, sep);
        let c = s[s.len() - 1];
        assert(rest.push(c) =~= s);
        if sep.splits(c) {
            let none = Seq::<char>::empty();
            assert(before.push(none).drop_last() =~= before);
            assert(join_with_space(before.push(none)) =~= join_with_space(before).push(' '));
        } else {
            join_longer(before, c);
        }
    } else {
        assert(join_with_space(split(s, sep)) =~= s);
    }
}

/// No piece of a single-spaced text is empty, but that behind a space at its
/// end.
proof fn pieces_between_single_spaces(s: Seq<char>)
    requires
        s.len() > 0,
        !char_is_whitespace(s[0]),
        forall|i: int|
            0 < i < s.len() && char_is_whitespace(#[trigger] s[i]) ==> !char_is_whitespace(
                s[i - 1],
            ),
    ensures
        ({
            let parts = split(s, Separator::Whitespace);
            &&& parts.len() > 0
            &&& forall|k: int| 0 <= k < parts.len() - 1 ==> (#[trigger] parts[k]).len() > 0
            &&& parts.last().len() == 0 <==> char_is_whitespace(s.last())
        }),
    decreases s.len(),
{
    let sep = Separator::Whitespace;
    let parts = split(s, sep);
    let rest = s.drop_last();
    let before = split(rest, sep);
    if s.len() == 1 {
        assert(before =~= seq![Seq::<char>::empty()]);
    } else {
        assert forall|i: int| 0 < i < rest.len() && char_is_whitespace(#[trigger] rest[i]) implies
            !char_is_whitespace(rest[i - 1]) by {
            assert(rest[i] == s[i]);
        }
        pieces_between_single_spaces(rest);
        if sep.splits(s.last()) {
            assert(char_is_whitespace(s[s.len() - 1]));
            assert(rest.last() == s[s.len() - 2]);
            assert(before.last().len() > 0);
        }
        assert forall|k: int| 0 <= k < parts.len() - 1 implies (#[trigger] parts[k]).len() > 0 by {
            assert(parts[k] == before[k]);
        }
    }
}

/// A single-spaced text is its words, joined.
pub proof fn single_spaced_text_is_its_words(s: Seq<char>)
    requires
        is_single_spaced(s),
    ensures
        join_with_space(words(s, Separator::Whitespace)) == s,
{
    let sep = Separator::Whitespace;
    if s.len() == 0 {
        no_words_in_nothing();
        assert(s =~= Seq::empty());
    } else {
        assert(!char_is_whitespace(s[0]));
        assert(!char_is_whitespace(s[s.len() - 1]));
        pieces_between_single_spaces(s);
        let parts = split(s, sep);
        assert forall|k: int| 0 <= k < parts.len() implies (#[trigger] parts[k]).len() > 0 by {}
        nonempty_of_words(parts);
        join_of_split(s);
    }
}

proof fn first_piece(s: Seq<char>, sep: Separator)
    requires
        s.len() > 0,
        !sep.splits(s[0]),
    ensures
        split(s, sep).len() > 0,
        split(s, sep)[0].len() > 0,
        split(s, sep)[0][0] == s[0],
    decreases s.len(),
{
    let rest = s.drop_last();
    if s.len() == 1 {
        assert(split(rest, sep) =~= seq![Seq::<char>::empty()]);
    } else {
        first_piece(rest, sep);
    }
}

proof fn first_nonempty(parts: Seq<Seq<char>>)
    requires
        parts.len() > 0,
        parts[0].len() > 0,
    ensures
        nonempty(parts).len() > 0,
        nonempty(parts)[0] == parts[0],
    decreases parts.len(),
{
    if parts.len() > 1 {
        first_nonempty(parts.drop_last());
    } else {
        assert(nonempty(parts.drop_last()).len() == 0);
    }
}

/// A text that does not begin with a separator begins with its first word.
pub proof fn first_word(s: Seq<char>, sep: Separator)
    requires
        s.len() > 0,
        !sep.splits(s[0]),
    ensures
        words(s, sep).len() > 0,
        words(s, sep)[0].len() > 0,
        words(s, sep)[0][0] == s[0],
{
    first_piece(s, sep);
    first_nonempty(split(s, sep));
}

proof fn trim_start_chars(s: Seq<char>, pred: spec_fn(char) -> bool)
    requires
        all_chars(s, pred),
    ensures
        all_chars(trim_start(s), pred),
    decreases s.len(),
{
    if s.len() > 0 && char_is_whitespace(s[0]) {
        assert forall|i: int| 0 <= i < s.drop_first().len() implies pred(
            #[trigger] s.drop_first()[i],
        ) by {
            assert(s.drop_first()[i] == s[i + 1]);
        }
        trim_start_chars(s.drop_first(), pred);
    }
}

proof fn trim_end_chars(s: Seq<char>, pred: spec_fn(char) -> bool)
    requires
        all_chars(s, pred),
    ensures
        all_chars(trim_end(s), pred),
    decreases s.len(),
{
    if s.len() > 0 && char_is_whitespace(s.last()) {
        assert forall|i: int| 0 <= i < s.drop_last().len() implies pred(
            #[trigger] s.drop_last()[i],
        ) by {
            assert(s.drop_last()[i] == s[i]);
        }
        trim_end_chars(s.drop_last(), pred);
    }
}

/// Trimming adds no characters.
pub proof fn trimmed_chars(s: Seq<char>, pred: spec_fn(char) -> bool)
    requires
        all_chars(s, pred),
    ensures
        all_chars(trim(s), pred),
{
    trim_start_chars(s, pred);
    trim_end_chars(trim_start(s), pred);
}

/// What kind of character a letter is does not depend on its case.
pub proof fn case_keeps_kind(c: char)
    ensures
        char_is_whitespace(ascii_lower(c)) == char_is_whitespace(c),
        char_is_alphanumeric(ascii_lower(c)) == char_is_alphanumeric(c),
        ascii_lower(c) == '\u{a7}' <==> c == '\u{a7}',
        ascii_lower(c) <= '\u{7f}' <==> c <= '\u{7f}',
        ascii_lower(ascii_lower(c)) == ascii_lower(c),
        !('A' <= ascii_lower(c) <= 'Z'),
{
}

/// The lower case of an ASCII text is one, and its own lower case.
pub proof fn lowercase_of_ascii(s: Seq<char>)
    ensures
        is_ascii_text(ascii_lowercase(s)) <==> is_ascii_text(s),
        ascii_lowercase(ascii_lowercase(s)) == ascii_lowercase(s),
{
    let low = ascii_lowercase(s);
    assert forall|i: int| 0 <= i < s.len() implies (low[i] <= '\u{7f}' <==> #[trigger] s[i]
        <= '\u{7f}') && ascii_lower(low[i]) == low[i] by {
        case_keeps_kind(s[i]);
    }
    if is_ascii_text(low) {
        assert forall|i: int| 0 <= i < s.len() implies #[trigger] s[i] <= '\u{7f}' by {
            assert(low[i] <= '\u{7f}');
        }
    }
    assert(ascii_lowercase(low) =~= low);
}

/// The pieces with every ASCII letter in lower case.
pub open spec fn lower_pieces(parts: Seq<Seq<char>>) -> Seq<Seq<char>> {
    Seq::new(parts.len(), |k: int| ascii_lowercase(parts[k]))
}

proof fn trim_start_ignores_case(s: Seq<char>)
    ensures
        trim_start(ascii_lowercase(s)) == ascii_lowercase(trim_start(s)),
    decreases s.len(),
{
    if s.len() > 0 {
        case_keeps_kind(s[0]);
        if char_is_whitespace(s[0]) {
            trim_start_ignores_case(s.drop_first());
            assert(ascii_lowercase(s).drop_first() =~= ascii_lowercase(s.drop_first()));
        }
    }
}

proof fn trim_end_ignores_case(s: Seq<char>)
    ensures
        trim_end(ascii_lowercase(s)) == ascii_lowercase(trim_end(s)),
    decreases s.len(),
{
    if s.len() > 0 {
        case_keeps_kind(s.last());
        if char_is_whitespace(s.last()) {
            trim_end_ignores_case(s.drop_last());
            assert(ascii_lowercase(s).drop_last() =~= ascii_lowercase(s.drop_last()));
        }
    }
}

/// Trimming does not depend on case.
pub proof fn trim_ignores_case(s: Seq<char>)
    ensures
        trim(ascii_lowercase(s)) == ascii_lowercase(trim(s)),
{
    trim_start_ignores_case(s);
    trim_end_ignores_case(trim_start(s));
}

proof fn split_ignores_case(s: Seq<char>)
    ensures
        split(ascii_lowercase(s), Separator::Whitespace) == lower_pieces(
            split(s, Separator::Whitespace),
        ),
        split(s, Separator::Whitespace).len() > 0,
    decreases s.len(),
{
    let sep = Separator::Whitespace;
    let low = ascii_lowercase(s);
    if s.len() > 0 {
        let rest = s.drop_last();
        split_ignores_case(rest);
        case_keeps_kind(s.last());
        assert(low.drop_last() =~= ascii_lowercase(rest));
        let before = split(rest, sep);
        let none = Seq::<char>::empty();
        if sep.splits(s.last()) {
            assert(ascii_lowercase(none) =~= none);
            assert(lower_pieces(before).push(none) =~= lower_pieces(before.push(none)));
        } else {
            let longer = before.last().push(s.last());
            assert(ascii_lowercase(before.last()).push(low.last()) =~= ascii_lowercase(longer));
            assert(lower_pieces(before).drop_last().push(ascii_lowercase(longer))
                =~= lower_pieces(before.drop_last().push(longer)));
        }
    } else {
        assert(low =~= s);
        assert(ascii_lowercase(split(s, sep)[0]) =~= split(s, sep)[0]);
        assert(lower_pieces(split(s, sep)) =~= split(s, sep));
    }
}

proof fn nonempty_ignores_case(parts: Seq<Seq<char>>)
    ensures
        nonempty(lower_pieces(parts)) == lower_pieces(nonempty(parts)),
    decreases parts.len(),
{
    if parts.len() > 0 {
        let rest = parts.drop_last();
        nonempty_ignores_case(rest);
        assert(lower_pieces(parts).drop_last() =~= lower_pieces(rest));
        if parts.last().len() > 0 {
            assert(lower_pieces(nonempty(rest)).push(ascii_lowercase(parts.last()))
                =~= lower_pieces(nonempty(rest).push(parts.last())));
        }
    } else {
        assert(lower_pieces(parts) =~= parts);
    }
}

proof fn join_ignores_case(parts: Seq<Seq<char>>)
    ensures
        join_with_space(lower_pieces(parts)) == ascii_lowercase(join_with_space(parts)),
    decreases parts.len(),
{
    if parts.len() > 1 {
        let rest = parts.drop_last();
        join_ignores_case(rest);
        assert(lower_pieces(parts).drop_last() =~= lower_pieces(rest));
        let before = join_with_space(rest);
        assert(ascii_lowercase(before).push(' ') + ascii_lowercase(parts.last())
            =~= ascii_lowercase(before.push(' ') + parts.last()));
    } else if parts.len() == 0 {
        assert(join_with_space(lower_pieces(parts)) =~= ascii_lowercase(join_with_space(parts)));
    }
}

/// Where the words of a text begin and end does not depend on case.
pub proof fn joined_words_ignore_case(s: Seq<char>)
    ensures
        join_with_space(words(ascii_lowercase(s), Separator::Whitespace)) == ascii_lowercase(
            join_with_space(words(s, Separator::Whitespace)),
        ),
{
    split_ignores_case(s);
    nonempty_ignores_case(split(s, Separator::Whitespace));
    join_ignores_case(words(s, Separator::Whitespace));
}

/// Trimming takes all whitespace from either end and nothing else.
pub proof fn trimming_takes_surrounding_whitespace(
    before: Seq<char>,
    s: Seq<char>,
    after: Seq<char>,
)
    requires
        all_chars(before, |c: char| char_is_whitespace(c)),
        all_chars(after, |c: char| char_is_whitespace(c)),
        s.len() > 0 ==> !char_is_whitespace(s[0]) && !char_is_whitespace(s.last()),
    ensures
        trim(before + s + after) == s,
{
    let blank = |c: char| char_is_whitespace(c);
    if s.len() == 0 {
        let all = before + s + after;
        assert forall|i: int| 0 <= i < all.len() implies blank(#[trigger] all[i]) by {
            if i < before.len() {
                assert(blank(before[i]));
            } else {
                assert(blank(after[i - before.len()]));
            }
        }
        blanks_are_trimmed(all);
        assert(s =~= Seq::empty());
    } else {
        trim_start_behind_blanks(before, s + after);
        assert(before + s + after =~= before + (s + after));
        assert((s + after)[0] == s[0]);
        trim_end_before_blanks(s, after);
    }
}

proof fn blanks_are_trimmed(s: Seq<char>)
    requires
        all_chars(s, |c: char| char_is_whitespace(c)),
    ensures
        trim(s) == Seq::<char>::empty(),
    decreases s.len(),
{
    let blank = |c: char| char_is_whitespace(c);
    if s.len() > 0 {
        assert(blank(s[0]));
        let rest = s.drop_first();
        assert forall|i: int| 0 <= i < rest.len() implies blank(#[trigger] rest[i]) by {
            assert(blank(s[i + 1]));
        }
        blanks_are_trimmed(rest);
    } else {
        assert(s =~= Seq::empty());
    }
}

proof fn trim_start_behind_blanks(before: Seq<char>, s: Seq<char>)
    requires
        all_chars(before, |c: char| char_is_whitespace(c)),
        s.len() > 0,
        !char_is_whitespace(s[0]),
    ensures
        trim_start(before + s) == s,
    decreases before.len(),
{
    let blank = |c: char| char_is_whitespace(c);
    if before.len() > 0 {
        assert(blank(before[0]));
        let rest = before.drop_first();
        assert forall|i: int| 0 <= i < rest.len() implies blank(#[trigger] rest[i]) by {
            assert(blank(before[i + 1]));
        }
        assert((before + s)[0] == before[0]);
        assert((before + s).drop_first() =~= rest + s);
        trim_start_behind_blanks(rest, s);
    } else {
        assert(before + s =~= s);
    }
}

proof fn trim_end_before_blanks(s: Seq<char>, after: Seq<char>)
    requires
        all_chars(after, |c: char| char_is_whitespace(c)),
        s.len() > 0,
        !char_is_whitespace(s.last()),
    ensures
        trim_end(s + after) == s,
    decreases after.len(),
{
    let blank = |c: char| char_is_whitespace(c);
    if after.len() > 0 {
        assert(blank(after[after.len() - 1]));
        let rest = after.drop_last();
        assert forall|i: int| 0 <= i < rest.len() implies blank(#[trigger] rest[i]) by {
            assert(blank(after[i]));
        }
        assert((s + after).last() == after.last());
        assert((s + after).drop_last() =~= s + rest);
        trim_end_before_blanks(s, rest);
    } else {
        assert(s + after =~= s);
    }
}

/// A separator parts a text: its words are those before it and those behind it.
pub proof fn separators_part_words(a: Seq<char>, c: char, b: Seq<char>, sep: Separator)
    requires
        sep.splits(c),
    ensures
        split(a.push(c) + b, sep) == split(a, sep) + split(b, sep),
        words(a.push(c) + b, sep) == words(a, sep) + words(b, sep),
{
    split_at_separator(a, c, b, sep);
    nonempty_of_both(split(a, sep), split(b, sep));
}

proof fn split_at_separator(a: Seq<char>, c: char, b: Seq<char>, sep: Separator)
    requires
        sep.splits(c),
    ensures
        split(a.push(c) + b, sep) == split(a, sep) + split(b, sep),
        split(b, sep).len() > 0,
    decreases b.len(),
{
    let all = a.push(c) + b;
    if b.len() == 0 {
        assert(all =~= a.push(c));
        assert(a.push(c).drop_last() =~= a);
        assert(split(all, sep) =~= split(a, sep) + split(b, sep));
    } else {
        let rest = b.drop_last();
        split_at_separator(a, c, rest, sep);
        assert(all.drop_last() =~= a.push(c) + rest);
        assert(all.last() == b.last());
        let before = split(a, sep) + split(rest, sep);
        assert(before.last() == split(rest, sep).last());
        assert(before.drop_last() =~= split(a, sep) + split(rest, sep).drop_last());
        assert(split(all, sep) =~= split(a, sep) + split(b, sep));
    }
}

proof fn nonempty_of_both(a: Seq<Seq<char>>, b: Seq<Seq<char>>)
    ensures
        nonempty(a + b) == nonempty(a) + nonempty(b),
    decreases b.len(),
{
    if b.len() == 0 {
        assert(a + b =~= a);
        assert(nonempty(a) + nonempty(b) =~= nonempty(a));
    } else {
        let rest = b.drop_last();
        nonempty_of_both(a, rest);
        assert((a + b).drop_last() =~= a + rest);
        assert((a + b).last() == b.last());
        assert(nonempty(a + b) =~= nonempty(a) + nonempty(b));
    }
}

/// A text without separators is one piece, and a word unless it is empty.
pub proof fn unparted_texts_are_one_word(s: Seq<char>, sep: Separator)
    requires
        forall|i: int| 0 <= i < s.len() ==> !sep.splits(#[trigger] s[i]),
    ensures
        split(s, sep) == seq![s],
        s.len() > 0 ==> words(s, sep) == seq![s],
        s.len() == 0 ==> words(s, sep).len() == 0,
    decreases s.len(),
{
    if s.len() > 0 {
        let rest = s.drop_last();
        assert forall|i: int| 0 <= i < rest.len() implies !sep.splits(#[trigger] rest[i]) by {
            assert(rest[i] == s[i]);
        }
        unparted_texts_are_one_word(rest, sep);
        assert(rest.push(s.last()) =~= s);
        assert(!sep.splits(s[s.len() - 1]));
        assert(split(s, sep) =~= seq![s]);
    } else {
        assert(s =~= Seq::empty());
        assert(split(s, sep) =~= seq![s]);
    }
    assert(seq![s].drop_last() =~= Seq::empty());
    assert(nonempty(seq![s].drop_last()) =~= Seq::empty());
    assert(s.len() > 0 ==> nonempty(seq![s]) =~= seq![s]);
}

/// The number that decimal digits spell.
pub open spec fn spelled(digits: Seq<char>) -> nat
    decreases digits.len(),
{
    if digits.len() == 0 {
        0
    } else {
        10 * spelled(digits.drop_last()) + (digits.last() as nat - '0' as nat) as nat
    }
}

/// A number is spelled by its decimal digits, without a leading zero.
pub proof fn decimals_spell_their_number(n: u64)
    ensures
        spelled(decimal(n)) == n,
        decimal(n).len() > 0,
        n > 0 ==> decimal(n)[0] != '0',
        forall|i: int| 0 <= i < decimal(n).len() ==> '0' <= #[trigger] decimal(n)[i] <= '9',
    decreases n,
{
    if n < 10 {
        assert(decimal(n).drop_last() =~= Seq::empty());
        assert(spelled(decimal(n).drop_last()) == 0);
    } else {
        decimals_spell_their_number(n / 10);
        assert(decimal(n).drop_last() =~= decimal(n / 10));
    }
}

} // verus!
