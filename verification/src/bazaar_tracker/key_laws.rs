//! What the key of an item is like, and which names share one.

use vstd::prelude::*;
use vstd::string::*;

use crate::bazaar_tracker::item_key::{
    formatting_behind_prefix, full_gem_name, gem_names_are_spelled_out, gem_tiers, gem_types,
    identity_start, is_short_gem_name, match_key, plain_name, short_gem_name,
    symbols_before_identity, without_formatting,
};
use crate::listing::Entries;
use crate::text::{
    ascii_lowercase, char_is_alphanumeric, char_is_whitespace, is_ascii_text,
    join_with_space, lowercase_text, trim, words, Separator,
};
use crate::text_laws::{
    all_chars, case_keeps_kind, first_word, is_single_spaced, joined_chars, joined_words,
    joined_words_ignore_case, lowercase_of_ascii, single_spaced_text_is_its_words, trim_ignores_case,
    trimmed_chars, words_are_words,
};

verus! {

/// A text without section signs, with single spaces between other characters
/// as its only whitespace, that begins with a letter or a digit if it holds one.
pub open spec fn reads_plain(s: Seq<char>) -> bool {
    &&& is_single_spaced(s)
    &&& forall|i: int| 0 <= i < s.len() ==> #[trigger] s[i] != '\u{a7}'
    &&& forall|i: int|
        0 <= i < s.len() && char_is_alphanumeric(#[trigger] s[i]) ==> char_is_alphanumeric(s[0])
}

/// Lower case leaves the plain name plain, and is its own lower case.
pub open spec fn lowercase_settles(name: Seq<char>) -> bool {
    let low = lowercase_text(plain_name(name));
    lowercase_text(low) == low && plain_name(low) == low
}

/// Lower case does not depend on the case of ASCII letters in the plain name.
pub open spec fn lowercase_folds_ascii(name: Seq<char>) -> bool {
    lowercase_text(ascii_lowercase(plain_name(name))) == lowercase_text(plain_name(name))
}

/// `key` is the key of `name`, for which lower case settles.
pub open spec fn is_key_of(key: Seq<char>, name: Seq<char>) -> bool {
    key == match_key(name) && lowercase_settles(name)
}

/// `key` is the key of a name for which lower case settles.
pub open spec fn is_item_key(key: Seq<char>) -> bool {
    exists|name: Seq<char>| #[trigger] is_key_of(key, name)
}

/// Every entry is filed under the key of a name.
pub open spec fn is_filed_by_key<T>(entries: Entries<T>) -> bool {
    forall|i: int| 0 <= i < entries.len() ==> is_item_key((#[trigger] entries[i]).0)
}

/// No character is an upper-case letter of ASCII.
pub open spec fn has_no_ascii_upper(s: Seq<char>) -> bool {
    forall|i: int| 0 <= i < s.len() ==> !('A' <= #[trigger] s[i] <= 'Z')
}

proof fn unformatted_has_no_sign(s: Seq<char>, pred: spec_fn(char) -> bool)
    requires
        all_chars(s, pred),
    ensures
        all_chars(without_formatting(s), |c: char| c != '\u{a7}'),
        all_chars(without_formatting(s), pred),
    decreases s.len(),
{
    if s.len() > 0 {
        if s[0] == '\u{a7}' {
            if s.len() > 1 {
                assert forall|i: int| 0 <= i < s.skip(2).len() implies pred(
                    #[trigger] s.skip(2)[i],
                ) by {
                    assert(s.skip(2)[i] == s[i + 2]);
                }
                unformatted_has_no_sign(s.skip(2), pred);
            }
        } else {
            let rest = s.drop_first();
            assert forall|i: int| 0 <= i < rest.len() implies pred(#[trigger] rest[i]) by {
                assert(rest[i] == s[i + 1]);
            }
            unformatted_has_no_sign(rest, pred);
            let out = without_formatting(s);
            let tail = without_formatting(rest);
            let clean = |c: char| c != '\u{a7}';
            assert forall|i: int| 0 <= i < out.len() implies clean(#[trigger] out[i]) && pred(
                out[i],
            ) by {
                if i > 0 {
                    assert(out[i] == tail[i - 1]);
                    assert(clean(tail[i - 1]) && pred(tail[i - 1]));
                } else {
                    assert(pred(s[0]));
                }
            }
        }
    }
}

/// The first alphanumeric character stands behind the symbols.
proof fn identity_behind_symbols(s: Seq<char>)
    ensures
        symbols_before_identity(s) <= s.len(),
        symbols_before_identity(s) < s.len() ==> char_is_alphanumeric(
            s[symbols_before_identity(s) as int],
        ),
        forall|i: int| 0 <= i < symbols_before_identity(s) ==> !char_is_alphanumeric(#[trigger] s[i]),
    decreases s.len(),
{
    if s.len() > 0 && !char_is_alphanumeric(s[0]) {
        let rest = s.drop_first();
        identity_behind_symbols(rest);
        assert forall|i: int| 0 <= i < symbols_before_identity(s) implies !char_is_alphanumeric(
            #[trigger] s[i],
        ) by {
            if i > 0 {
                assert(s[i] == rest[i - 1]);
            }
        }
    }
}

/// `pred` holds of every character of a plain name where it holds of every
/// character of the name and of a space.
proof fn plain_name_chars(name: Seq<char>, pred: spec_fn(char) -> bool)
    requires
        all_chars(name, pred),
        pred(' '),
    ensures
        all_chars(plain_name(name), pred),
{
    trimmed_chars(name, pred);
    unformatted_has_no_sign(trim(name), pred);
    trimmed_chars(without_formatting(trim(name)), pred);
    let shown = trim(without_formatting(trim(name)));
    identity_behind_symbols(shown);
    let identity = shown.skip(identity_start(shown));
    assert forall|i: int| 0 <= i < identity.len() implies pred(#[trigger] identity[i]) by {
        assert(identity[i] == shown[i + identity_start(shown)]);
    }
    words_are_words(identity, Separator::Whitespace, pred);
    joined_chars(words(identity, Separator::Whitespace), pred);
}

/// A plain name reads plain.
proof fn plain_name_reads_plain(name: Seq<char>)
    ensures
        reads_plain(plain_name(name)),
{
    let sep = Separator::Whitespace;
    let any = |c: char| true;
    let clean = |c: char| c != '\u{a7}';
    unformatted_has_no_sign(trim(name), any);
    trimmed_chars(without_formatting(trim(name)), clean);
    let shown = trim(without_formatting(trim(name)));
    identity_behind_symbols(shown);
    let start = identity_start(shown);
    let identity = shown.skip(start);
    assert forall|i: int| 0 <= i < identity.len() implies clean(#[trigger] identity[i]) by {
        assert(identity[i] == shown[i + start]);
    }
    words_are_words(identity, sep, clean);
    let found = words(identity, sep);
    let plain = join_with_space(found);
    joined_words(found);
    joined_chars(found, clean);
    assert forall|i: int| 0 <= i < plain.len() implies #[trigger] plain[i] != '\u{a7}' by {
        assert(clean(plain[i]));
    }
    if symbols_before_identity(shown) < shown.len() {
        assert(identity[0] == shown[start]);
        first_word(identity, sep);
        assert(char_is_alphanumeric(plain[0]));
    } else {
        let symbol = |c: char| !char_is_alphanumeric(c);
        assert forall|i: int| 0 <= i < identity.len() implies symbol(#[trigger] identity[i]) by {
            assert(identity[i] == shown[i]);
        }
        words_are_words(identity, sep, symbol);
        joined_chars(found, symbol);
        assert forall|i: int| 0 <= i < plain.len() implies !char_is_alphanumeric(
            #[trigger] plain[i],
        ) by {
            assert(symbol(plain[i]));
        }
    }
}

/// A text that reads plain is its own plain name.
pub proof fn plain_text_is_its_plain_name(s: Seq<char>)
    requires
        reads_plain(s),
    ensures
        plain_name(s) == s,
{
    if s.len() > 0 {
        assert(!char_is_whitespace(s[0]));
        assert(!char_is_whitespace(s[s.len() - 1]));
    }
    assert(trim(s) == s);
    formatting_behind_prefix(s, Seq::empty());
    assert(s + Seq::<char>::empty() =~= s);
    assert(without_formatting(Seq::<char>::empty()) =~= Seq::<char>::empty());
    assert(without_formatting(s) == s);
    identity_behind_symbols(s);
    assert(identity_start(s) == 0);
    assert(s.skip(0) =~= s);
    single_spaced_text_is_its_words(s);
}

/// Plain names hold no section sign, no whitespace but single spaces between
/// other characters, and begin with a letter or a digit if they hold one. A
/// plain name is its own plain name.
pub proof fn plain_names_are_settled(name: Seq<char>)
    ensures
        reads_plain(plain_name(name)),
        plain_name(plain_name(name)) == plain_name(name),
{
    plain_name_reads_plain(name);
    plain_text_is_its_plain_name(plain_name(name));
}

/// A word of lower-case letters of ASCII.
spec fn is_lower_word(s: Seq<char>) -> bool {
    s.len() > 0 && forall|i: int| 0 <= i < s.len() ==> 'a' <= #[trigger] s[i] <= 'z'
}

proof fn gem_tiers_are_words(i: int)
    requires
        0 <= i < gem_tiers().len(),
    ensures
        is_lower_word(gem_tiers()[i]),
{
    reveal_strlit("rough");
    reveal_strlit("flawed");
    reveal_strlit("fine");
    reveal_strlit("flawless");
    reveal_strlit("perfect");
    assert(is_lower_word("rough"@));
    assert(is_lower_word("flawed"@));
    assert(is_lower_word("fine"@));
    assert(is_lower_word("flawless"@));
    assert(is_lower_word("perfect"@));
}

proof fn gem_types_are_words(i: int)
    requires
        0 <= i < gem_types().len(),
    ensures
        is_lower_word(gem_types()[i]),
{
    reveal_strlit("amber");
    reveal_strlit("amethyst");
    reveal_strlit("aquamarine");
    reveal_strlit("citrine");
    reveal_strlit("jade");
    reveal_strlit("jasper");
    reveal_strlit("onyx");
    reveal_strlit("opal");
    reveal_strlit("peridot");
    reveal_strlit("ruby");
    reveal_strlit("sapphire");
    reveal_strlit("topaz");
    assert(is_lower_word("amber"@));
    assert(is_lower_word("amethyst"@));
    assert(is_lower_word("aquamarine"@));
    assert(is_lower_word("citrine"@));
    assert(is_lower_word("jade"@));
    assert(is_lower_word("jasper"@));
    assert(is_lower_word("onyx"@));
    assert(is_lower_word("opal"@));
    assert(is_lower_word("peridot"@));
    assert(is_lower_word("ruby"@));
    assert(is_lower_word("sapphire"@));
    assert(is_lower_word("topaz"@));
}

/// Three lower-case words with a space between each two are a plain name in
/// lower case.
proof fn lower_words_are_settled(a: Seq<char>, b: Seq<char>, tail: Seq<char>)
    requires
        is_lower_word(a),
        is_lower_word(b),
        tail.len() > 1,
        tail[0] == ' ',
        is_lower_word(tail.drop_first()),
    ensures
        ({
            let s = a + " "@ + b + tail;
            plain_name(s) == s && lowercase_text(s) == s
        }),
{
    reveal_strlit(" ");
    let s = a + " "@ + b + tail;
    let m = a.len() as int;
    let n = m + 1 + b.len();
    let last = tail.drop_first();
    assert forall|i: int| 0 <= i < s.len() implies #[trigger] s[i] == ' ' && (i == m || i == n)
        || 'a' <= s[i] <= 'z' && i != m && i != n by {
        if i < m {
            assert(s[i] == a[i]);
        } else if m < i < n {
            assert(s[i] == b[i - m - 1]);
        } else if i > n {
            assert(s[i] == last[i - n - 1]);
        }
    }
    assert(s[0] == a[0]);
    assert(reads_plain(s));
    plain_text_is_its_plain_name(s);
    assert(ascii_lowercase(s) =~= s);
}

/// The short and the full name of a gemstone have one key, the full name.
pub proof fn short_and_full_gem_names_match(i: int, j: int)
    requires
        0 <= i < gem_tiers().len(),
        0 <= j < gem_types().len(),
    ensures
        match_key(short_gem_name(gem_tiers()[i], gem_types()[j])) == full_gem_name(
            gem_tiers()[i],
            gem_types()[j],
        ),
        match_key(full_gem_name(gem_tiers()[i], gem_types()[j])) == full_gem_name(
            gem_tiers()[i],
            gem_types()[j],
        ),
{
    gem_tiers_are_words(i);
    gem_types_are_words(j);
    reveal_strlit(" gem");
    reveal_strlit(" gemstone");
    assert(is_lower_word(" gem"@.drop_first()));
    assert(is_lower_word(" gemstone"@.drop_first()));
    lower_words_are_settled(gem_tiers()[i], gem_types()[j], " gem"@);
    lower_words_are_settled(gem_tiers()[i], gem_types()[j], " gemstone"@);
    gem_names_are_spelled_out(i, j);
}

/// However a gemstone is displayed, with its short or with its full name, its
/// key is the full name. Any other name keeps its own words.
pub proof fn displayed_gem_names_match(name: Seq<char>, i: int, j: int)
    requires
        0 <= i < gem_tiers().len(),
        0 <= j < gem_types().len(),
    ensures
        ({
            let low = lowercase_text(plain_name(name));
            let short = short_gem_name(gem_tiers()[i], gem_types()[j]);
            let full = full_gem_name(gem_tiers()[i], gem_types()[j]);
            &&& low == short || low == full ==> match_key(name) == full
            &&& !is_short_gem_name(low) ==> match_key(name) == low
        }),
{
    gem_names_are_spelled_out(i, j);
}

/// The key of a name is its own key, and reads plain, where lower case settles.
pub proof fn key_is_its_own_key(name: Seq<char>)
    requires
        lowercase_settles(name),
    ensures
        match_key(match_key(name)) == match_key(name),
        reads_plain(match_key(name)),
{
    let low = lowercase_text(plain_name(name));
    plain_name_reads_plain(low);
    if is_short_gem_name(low) {
        let (i, j) = choose|i: int, j: int|
            0 <= i < gem_tiers().len() && 0 <= j < gem_types().len() && low
                == #[trigger] short_gem_name(gem_tiers()[i], gem_types()[j]);
        gem_names_are_spelled_out(i, j);
        short_and_full_gem_names_match(i, j);
        let full = full_gem_name(gem_tiers()[i], gem_types()[j]);
        gem_tiers_are_words(i);
        gem_types_are_words(j);
        reveal_strlit(" gemstone");
        assert(is_lower_word(" gemstone"@.drop_first()));
        lower_words_are_settled(gem_tiers()[i], gem_types()[j], " gemstone"@);
        plain_name_reads_plain(full);
    }
}

/// Lower case settles for every name that is plain ASCII but for formatting and
/// the symbols before it, and does not depend on the case of its letters. The
/// key of such a name is its own key, reads plain and holds no upper-case
/// letter.
pub proof fn ascii_names_are_settled(name: Seq<char>)
    requires
        is_ascii_text(plain_name(name)),
    ensures
        lowercase_settles(name),
        lowercase_folds_ascii(name),
        match_key(match_key(name)) == match_key(name),
        reads_plain(match_key(name)),
        has_no_ascii_upper(match_key(name)),
{
    let p = plain_name(name);
    let low = ascii_lowercase(p);
    plain_name_reads_plain(name);
    lowercase_of_ascii(p);
    lowercase_of_ascii(low);
    assert(lowercase_text(p) == low);
    assert(lowercase_text(low) == low);
    plain_name_ignores_case(p);
    plain_text_is_its_plain_name(p);
    assert(plain_name(low) == low);
    key_is_its_own_key(name);
    assert forall|i: int| 0 <= i < low.len() implies !('A' <= #[trigger] low[i] <= 'Z') by {
        case_keeps_kind(p[i]);
    }
    reveal_strlit("stone");
}

/// An ASCII name has an ASCII plain name.
pub proof fn ascii_names_stay_ascii(name: Seq<char>)
    requires
        is_ascii_text(name),
    ensures
        is_ascii_text(plain_name(name)),
{
    let ascii = |c: char| c <= '\u{7f}';
    assert forall|i: int| 0 <= i < name.len() implies ascii(#[trigger] name[i]) by {}
    plain_name_chars(name, ascii);
    assert forall|i: int| 0 <= i < plain_name(name).len() implies #[trigger] plain_name(name)[i]
        <= '\u{7f}' by {
        assert(ascii(plain_name(name)[i]));
    }
}

proof fn formatting_ignores_case(s: Seq<char>)
    ensures
        without_formatting(ascii_lowercase(s)) == ascii_lowercase(without_formatting(s)),
    decreases s.len(),
{
    let low = ascii_lowercase(s);
    if s.len() > 0 {
        case_keeps_kind(s[0]);
        if s[0] == '\u{a7}' {
            if s.len() > 1 {
                formatting_ignores_case(s.skip(2));
                assert(low.skip(2) =~= ascii_lowercase(s.skip(2)));
            } else {
                assert(without_formatting(low) =~= ascii_lowercase(without_formatting(s)));
            }
        } else {
            let rest = s.drop_first();
            formatting_ignores_case(rest);
            assert(low.drop_first() =~= ascii_lowercase(rest));
            assert(seq![low[0]] + ascii_lowercase(without_formatting(rest)) =~= ascii_lowercase(
                seq![s[0]] + without_formatting(rest),
            ));
        }
    }
}

proof fn identity_ignores_case(s: Seq<char>)
    ensures
        symbols_before_identity(ascii_lowercase(s)) == symbols_before_identity(s),
    decreases s.len(),
{
    if s.len() > 0 {
        case_keeps_kind(s[0]);
        if !char_is_alphanumeric(s[0]) {
            identity_ignores_case(s.drop_first());
            assert(ascii_lowercase(s).drop_first() =~= ascii_lowercase(s.drop_first()));
        }
    }
}

/// What is plain in a name does not depend on case.
pub proof fn plain_name_ignores_case(name: Seq<char>)
    ensures
        plain_name(ascii_lowercase(name)) == ascii_lowercase(plain_name(name)),
{
    trim_ignores_case(name);
    formatting_ignores_case(trim(name));
    trim_ignores_case(without_formatting(trim(name)));
    let shown = trim(without_formatting(trim(name)));
    identity_ignores_case(shown);
    identity_behind_symbols(shown);
    let start = identity_start(shown);
    assert(ascii_lowercase(shown).skip(start) =~= ascii_lowercase(shown.skip(start)));
    joined_words_ignore_case(shown.skip(start));
}

/// Names that differ in the case of ASCII letters alone have the same key,
/// where lower case does not depend on that case.
pub proof fn key_ignores_ascii_case(name: Seq<char>, other: Seq<char>)
    requires
        ascii_lowercase(name) == ascii_lowercase(other),
        lowercase_folds_ascii(name),
        lowercase_folds_ascii(other),
    ensures
        match_key(name) == match_key(other),
{
    plain_name_ignores_case(name);
    plain_name_ignores_case(other);
}

/// Names that are plain ASCII but for formatting and the symbols before them,
/// and that differ in case alone, have the same key.
pub proof fn ascii_names_ignore_case(name: Seq<char>, other: Seq<char>)
    requires
        ascii_lowercase(name) == ascii_lowercase(other),
        is_ascii_text(plain_name(name)),
    ensures
        match_key(name) == match_key(other),
{
    plain_name_ignores_case(name);
    plain_name_ignores_case(other);
    lowercase_of_ascii(plain_name(name));
    lowercase_of_ascii(plain_name(other));
    ascii_names_are_settled(name);
    ascii_names_are_settled(other);
    key_ignores_ascii_case(name, other);
}

/// A formatting code goes wherever it stands, with the character behind it; a
/// section sign at the very end goes alone.
pub proof fn format_codes_are_dropped_anywhere(before: Seq<char>, code: char, after: Seq<char>)
    requires
        forall|i: int| 0 <= i < before.len() ==> #[trigger] before[i] != '\u{a7}',
    ensures
        without_formatting(before + seq!['\u{a7}', code] + after) == before + without_formatting(
            after,
        ),
        without_formatting(before.push('\u{a7}')) == before,
{
    let sign = seq!['\u{a7}', code] + after;
    assert(before + seq!['\u{a7}', code] + after =~= before + sign);
    formatting_behind_prefix(before, sign);
    assert(sign.skip(2) =~= after);
    let last = seq!['\u{a7}'];
    assert(before.push('\u{a7}') =~= before + last);
    formatting_behind_prefix(before, last);
    assert(before + Seq::<char>::empty() =~= before);
}

/// The gemstones whose names are spelled out: five tiers of twelve gems.
pub proof fn all_gems_of_all_tiers_are_known()
    ensures
        gem_tiers().len() == 5,
        gem_tiers().contains("rough"@),
        gem_tiers().contains("flawed"@),
        gem_tiers().contains("fine"@),
        gem_tiers().contains("flawless"@),
        gem_tiers().contains("perfect"@),
        gem_types().len() == 12,
        gem_types().contains("amber"@),
        gem_types().contains("amethyst"@),
        gem_types().contains("aquamarine"@),
        gem_types().contains("citrine"@),
        gem_types().contains("jade"@),
        gem_types().contains("jasper"@),
        gem_types().contains("onyx"@),
        gem_types().contains("opal"@),
        gem_types().contains("peridot"@),
        gem_types().contains("ruby"@),
        gem_types().contains("sapphire"@),
        gem_types().contains("topaz"@),
{
    assert(gem_tiers()[0] == "rough"@);
    assert(gem_tiers()[1] == "flawed"@);
    assert(gem_tiers()[2] == "fine"@);
    assert(gem_tiers()[3] == "flawless"@);
    assert(gem_tiers()[4] == "perfect"@);
    assert(gem_types()[0] == "amber"@);
    assert(gem_types()[1] == "amethyst"@);
    assert(gem_types()[2] == "aquamarine"@);
    assert(gem_types()[3] == "citrine"@);
    assert(gem_types()[4] == "jade"@);
    assert(gem_types()[5] == "jasper"@);
    assert(gem_types()[6] == "onyx"@);
    assert(gem_types()[7] == "opal"@);
    assert(gem_types()[8] == "peridot"@);
    assert(gem_types()[9] == "ruby"@);
    assert(gem_types()[10] == "sapphire"@);
    assert(gem_types()[11] == "topaz"@);
}

} // verus!
