//! The key under which an item is matched, however its name is displayed.

use vstd::prelude::*;
use vstd::string::*;

use crate::text::{
    chars_of, copy_range, join_words, same_text, split_words, text_of, trim_chars, Separator,
};

verus! {

/// `s` without formatting codes: each section sign goes, and with it the
/// character that follows.
pub open spec fn without_formatting(s: Seq<char>) -> Seq<char>
    decreases s.len(),
{
    if s.len() == 0 {
        s
    } else if s[0] == '\u{a7}' {
        if s.len() == 1 {
            Seq::<char>::empty()
        } else {
            without_formatting(s.skip(2))
        }
    } else {
        seq![s[0]] + without_formatting(s.drop_first())
    }
}

/// How many characters stand before the first alphanumeric one; 0 where there
/// is none.
pub open spec fn identity_start(s: Seq<char>) -> int {
    let n = symbols_before_identity(s);
    if n < s.len() {
        n as int
    } else {
        0
    }
}

/// How many characters `s` begins with that are not alphanumeric.
pub open spec fn symbols_before_identity(s: Seq<char>) -> nat
    decreases s.len(),
{
    if s.len() == 0 || crate::text::char_is_alphanumeric(s[0]) {
        0
    } else {
        1 + symbols_before_identity(s.drop_first())
    }
}

/// The name without formatting, leading symbols and surplus whitespace.
pub open spec fn plain_name(name: Seq<char>) -> Seq<char> {
    let shown = crate::text::trim(without_formatting(crate::text::trim(name)));
    crate::text::join_with_space(
        crate::text::words(shown.skip(identity_start(shown)), Separator::Whitespace),
    )
}

pub open spec fn gem_tiers() -> Seq<Seq<char>> {
    seq!["rough"@, "flawed"@, "fine"@, "flawless"@, "perfect"@]
}

pub open spec fn gem_types() -> Seq<Seq<char>> {
    seq![
        "amber"@,
        "amethyst"@,
        "aquamarine"@,
        "citrine"@,
        "jade"@,
        "jasper"@,
        "onyx"@,
        "opal"@,
        "peridot"@,
        "ruby"@,
        "sapphire"@,
        "topaz"@,
    ]
}

/// The short name of a gemstone.
pub open spec fn short_gem_name(tier: Seq<char>, gem: Seq<char>) -> Seq<char> {
    tier + " "@ + gem + " gem"@
}

/// The full name of a gemstone.
pub open spec fn full_gem_name(tier: Seq<char>, gem: Seq<char>) -> Seq<char> {
    tier + " "@ + gem + " gemstone"@
}

/// `s` is the short name of a gemstone of a known tier and type.
pub open spec fn is_short_gem_name(s: Seq<char>) -> bool {
    exists|i: int, j: int|
        0 <= i < gem_tiers().len() && 0 <= j < gem_types().len() && s == #[trigger] short_gem_name(
            gem_tiers()[i],
            gem_types()[j],
        )
}

/// The short names of gemstones are written out.
pub open spec fn with_full_gem_name(s: Seq<char>) -> Seq<char> {
    if is_short_gem_name(s) {
        s + "stone"@
    } else {
        s
    }
}

/// The key of the item that is displayed as `name`.
pub open spec fn match_key(name: Seq<char>) -> Seq<char> {
    with_full_gem_name(crate::text::lowercase_text(plain_name(name)))
}

fn strip_formatting(chars: &Vec<char>) -> (r: Vec<char>)
    ensures
        r@ == without_formatting(chars@),
{
    let mut out: Vec<char> = Vec::new();
    let mut i: usize = 0;
    assert(chars@.skip(0) == chars@);
    while i < chars.len()
        invariant
            i <= chars.len(),
            out@ + without_formatting(chars@.skip(i as int)) == without_formatting(chars@),
        decreases chars.len() - i,
    {
        let ghost rest = chars@.skip(i as int);
        if chars[i] == '\u{a7}' {
            if i + 1 < chars.len() {
                assert(rest.skip(2) == chars@.skip(i + 2));
                i = i + 2;
            } else {
                assert(rest.len() == 1);
                assert(without_formatting(chars@.skip(i + 1)) == Seq::<char>::empty());
                i = i + 1;
            }
        } else {
            out.push(chars[i]);
            assert(rest.drop_first() == chars@.skip(i + 1));
            i = i + 1;
        }
    }
    assert(without_formatting(chars@.skip(i as int)) == Seq::<char>::empty());
    out
}

fn find_identity(chars: &Vec<char>) -> (r: usize)
    ensures
        r == identity_start(chars@),
        r <= chars.len(),
{
    let mut i: usize = 0;
    assert(chars@.skip(0) == chars@);
    while i < chars.len()
        invariant
            i <= chars.len(),
            symbols_before_identity(chars@) == i + symbols_before_identity(chars@.skip(i as int)),
        decreases chars.len() - i,
    {
        if chars[i].is_alphanumeric() {
            return i;
        }
        assert(chars@.skip(i as int).drop_first() == chars@.skip(i + 1));
        i = i + 1;
    }
    0
}

fn gem_tier(i: usize) -> (r: &'static str)
    requires
        i < 5,
    ensures
        r@ == gem_tiers()[i as int],
{
    match i {
        0 => "rough",
        1 => "flawed",
        2 => "fine",
        3 => "flawless",
        _ => "perfect",
    }
}

fn gem_type(i: usize) -> (r: &'static str)
    requires
        i < 12,
    ensures
        r@ == gem_types()[i as int],
{
    match i {
        0 => "amber",
        1 => "amethyst",
        2 => "aquamarine",
        3 => "citrine",
        4 => "jade",
        5 => "jasper",
        6 => "onyx",
        7 => "opal",
        8 => "peridot",
        9 => "ruby",
        10 => "sapphire",
        _ => "topaz",
    }
}

fn spell_out_gem(name: String) -> (r: String)
    ensures
        r@ == with_full_gem_name(name@),
{
    let mut i: usize = 0;
    while i < 5
        invariant
            i <= 5,
            forall|a: int, b: int|
                0 <= a < i && 0 <= b < 12 ==> name@ != #[trigger] short_gem_name(
                    gem_tiers()[a],
                    gem_types()[b],
                ),
        decreases 5 - i,
    {
        let mut j: usize = 0;
        while j < 12
            invariant
                i < 5,
                j <= 12,
                forall|a: int, b: int|
                    0 <= a < i && 0 <= b < 12 ==> name@ != #[trigger] short_gem_name(
                        gem_tiers()[a],
                        gem_types()[b],
                    ),
                forall|b: int|
                    0 <= b < j ==> name@ != #[trigger] short_gem_name(
                        gem_tiers()[i as int],
                        gem_types()[b],
                    ),
            decreases 12 - j,
        {
            let mut short = gem_tier(i).to_string();
            short.append(" ");
            short.append(gem_type(j));
            short.append(" gem");
            assert(short@ == short_gem_name(gem_tiers()[i as int], gem_types()[j as int]));
            if same_text(name.as_str(), short.as_str()) {
                let mut full = name;
                full.append("stone");
                return full;
            }
            j = j + 1;
        }
        i = i + 1;
    }
    name
}

/// The key of the item that is displayed as `name`: formatting codes, symbols
/// before the name, surplus whitespace and case do not matter, and gemstones
/// have one name.
pub fn normalize_for_match(name: &str) -> (r: String)
    ensures
        r@ == match_key(name@),
{
    let trimmed = trim_chars(&chars_of(name));
    let shown = trim_chars(&strip_formatting(&trimmed));
    let start = find_identity(&shown);
    let identity = copy_range(&shown, start, shown.len());
    assert(identity@ == shown@.skip(start as int));
    let found = split_words(text_of(&identity).as_str(), Separator::Whitespace);
    let plain = join_words(&found);
    spell_out_gem(plain.as_str().to_lowercase())
}

/// The key of an item name, for callers that compare names of their own.
pub fn normalize_for_match_pub(name: &str) -> (r: String)
    ensures
        r@ == match_key(name@),
{
    normalize_for_match(name)
}

/// Writing a gemstone's short name out gives its full name.
pub proof fn gem_names_are_spelled_out(i: int, j: int)
    requires
        0 <= i < gem_tiers().len(),
        0 <= j < gem_types().len(),
    ensures
        with_full_gem_name(short_gem_name(gem_tiers()[i], gem_types()[j])) == full_gem_name(
            gem_tiers()[i],
            gem_types()[j],
        ),
        with_full_gem_name(full_gem_name(gem_tiers()[i], gem_types()[j])) == full_gem_name(
            gem_tiers()[i],
            gem_types()[j],
        ),
{
    let full = full_gem_name(gem_tiers()[i], gem_types()[j]);
    reveal_strlit(" gem");
    reveal_strlit("stone");
    reveal_strlit(" gemstone");
    assert(short_gem_name(gem_tiers()[i], gem_types()[j]) + "stone"@ =~= full);
    if is_short_gem_name(full) {
        let (a, b) = choose|a: int, b: int|
            0 <= a < gem_tiers().len() && 0 <= b < gem_types().len() && full
                == #[trigger] short_gem_name(gem_tiers()[a], gem_types()[b]);
        let short = short_gem_name(gem_tiers()[a], gem_types()[b]);
        assert(short.last() == " gem"@.last());
        assert(full.last() == " gemstone"@.last());
        assert(false);
    }
}

/// A formatting code before a name does not matter.
pub proof fn leading_format_code_is_dropped(code: char, s: Seq<char>)
    ensures
        without_formatting(seq!['\u{a7}', code] + s) == without_formatting(s),
{
    assert((seq!['\u{a7}', code] + s).skip(2) =~= s);
}

/// A prefix without section signs stays as it is.
pub proof fn formatting_behind_prefix(prefix: Seq<char>, s: Seq<char>)
    requires
        forall|i: int| 0 <= i < prefix.len() ==> #[trigger] prefix[i] != '\u{a7}',
    ensures
        without_formatting(prefix + s) == prefix + without_formatting(s),
    decreases prefix.len(),
{
    if prefix.len() == 0 {
        assert(prefix + s =~= s);
        assert(prefix + without_formatting(s) =~= without_formatting(s));
    } else {
        let rest = prefix.drop_first();
        assert forall|i: int| 0 <= i < rest.len() implies #[trigger] rest[i] != '\u{a7}' by {
            assert(rest[i] == prefix[i + 1]);
        }
        formatting_behind_prefix(rest, s);
        assert((prefix + s).drop_first() =~= rest + s);
        assert((prefix + s)[0] == prefix[0]);
        assert(seq![prefix[0]] + (rest + without_formatting(s)) =~= prefix + without_formatting(s));
    }
}

proof fn trim_end_behind_prefix(prefix: Seq<char>, s: Seq<char>)
    requires
        s.len() > 0,
        !crate::text::char_is_whitespace(s[0]),
    ensures
        crate::text::trim_end(prefix + s) == prefix + crate::text::trim_end(s),
        crate::text::trim_end(s).len() > 0,
        crate::text::trim_end(s)[0] == s[0],
    decreases s.len(),
{
    assert((prefix + s).last() == s.last());
    if crate::text::char_is_whitespace(s.last()) {
        assert(s.len() > 1);
        trim_end_behind_prefix(prefix, s.drop_last());
        assert((prefix + s).drop_last() =~= prefix + s.drop_last());
    }
}

proof fn identity_behind_prefix(prefix: Seq<char>, s: Seq<char>)
    requires
        forall|i: int|
            0 <= i < prefix.len() ==> !crate::text::char_is_alphanumeric(#[trigger] prefix[i]),
        s.len() > 0,
        crate::text::char_is_alphanumeric(s[0]),
    ensures
        symbols_before_identity(prefix + s) == prefix.len(),
    decreases prefix.len(),
{
    if prefix.len() == 0 {
        assert(prefix + s =~= s);
    } else {
        let rest = prefix.drop_first();
        assert forall|i: int| 0 <= i < rest.len() implies !crate::text::char_is_alphanumeric(
            #[trigger] rest[i],
        ) by {
            assert(rest[i] == prefix[i + 1]);
        }
        identity_behind_prefix(rest, s);
        assert((prefix + s)[0] == prefix[0]);
        assert((prefix + s).drop_first() =~= rest + s);
    }
}

/// Symbols that the bazaar displays before a name do not matter: a name that
/// begins with a letter or a digit has the same key with and without them.
pub proof fn displayed_prefix_does_not_matter(prefix: Seq<char>, name: Seq<char>)
    requires
        prefix.len() > 0,
        !crate::text::char_is_whitespace(prefix[0]),
        forall|i: int|
            0 <= i < prefix.len() ==> #[trigger] prefix[i] != '\u{a7}'
                && !crate::text::char_is_alphanumeric(prefix[i]),
        name.len() > 0,
        name[0] != '\u{a7}',
        crate::text::char_is_alphanumeric(name[0]),
        !crate::text::char_is_whitespace(name.last()),
    ensures
        match_key(prefix + name) == match_key(name),
{
    let w = without_formatting(name);
    let v = crate::text::trim_end(w);
    assert((prefix + name)[0] == prefix[0]);
    assert((prefix + name).last() == name.last());
    assert(crate::text::trim(prefix + name) == prefix + name);
    assert(crate::text::trim(name) == name);
    formatting_behind_prefix(prefix, name);
    assert(w[0] == name[0]);
    trim_end_behind_prefix(prefix, w);
    assert((prefix + w)[0] == prefix[0]);
    assert(crate::text::trim(prefix + w) == prefix + v);
    assert(crate::text::trim(w) == v);
    assert forall|i: int| 0 <= i < prefix.len() implies !crate::text::char_is_alphanumeric(
        #[trigger] prefix[i],
    ) by {}
    identity_behind_prefix(prefix, v);
    assert((prefix + v).skip(prefix.len() as int) =~= v);
    assert(v.skip(0) =~= v);
}

} // verus!
