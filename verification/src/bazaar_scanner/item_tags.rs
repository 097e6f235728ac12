//! Display names of bazaar product tags.

use vstd::prelude::*;
use vstd::string::*;

use crate::text::{
    chars_of, has_prefix, join_words, same_text, split_parts, split_words, text_of, to_ascii_lower,
    to_ascii_upper, copy_range, Separator,
};

verus! {

/// A word with its first letter in upper case and the others in lower case;
/// only ASCII letters change.
pub open spec fn capitalized(word: Seq<char>) -> Seq<char> {
    Seq::new(
        word.len(),
        |i: int|
            if i == 0 {
                crate::text::ascii_upper(word[i])
            } else {
                crate::text::ascii_lower(word[i])
            },
    )
}

/// The words of a tag, capitalized, with one space between each two.
pub open spec fn title_case(tag: Seq<char>) -> Seq<char> {
    crate::text::join_with_space(
        crate::text::words(tag, Separator::Underscore).map_values(
            |w: Seq<char>| capitalized(w),
        ),
    )
}

/// The tiers that a gemstone tag can begin with.
pub open spec fn is_gem_tier_tag(tier: Seq<char>) -> bool {
    tier == "ROUGH"@ || tier == "FLAWED"@ || tier == "FINE"@ || tier == "FLAWLESS"@ || tier
        == "PERFECT"@
}

/// The name of a tag of the form `<tier>_<gem>_GEM`; `None` for any other tag.
pub open spec fn gemstone_name(tag: Seq<char>) -> Option<Seq<char>> {
    let parts = crate::text::split(tag, Separator::Underscore);
    if parts.len() == 3 && parts[2] == "GEM"@ && is_gem_tier_tag(parts[0]) {
        Some(title_case(parts[0]) + " "@ + title_case(parts[1]) + " Gemstone"@)
    } else {
        None
    }
}

/// The names of the products whose tag does not spell them.
pub open spec fn renamed_product(tag: Seq<char>) -> Option<Seq<char>> {
    if tag == "WATER_LILY"@ {
        Some("Lily Pad"@)
    } else if tag == "ENCHANTED_WATER_LILY"@ {
        Some("Enchanted Lily Pad"@)
    } else if tag == "RAW_FISH"@ {
        Some("Raw Cod"@)
    } else if tag == "SHARD_COD"@ {
        Some("Cod Shard"@)
    } else if tag == "SHARD_VORACIOUS_SPIDER"@ {
        Some("Voracious Spider Shard"@)
    } else {
        None
    }
}

/// The name under which the bazaar shows the product `tag`.
pub open spec fn product_name(tag: Seq<char>) -> Seq<char> {
    match gemstone_name(tag) {
        Some(name) => name,
        None => match renamed_product(tag) {
            Some(name) => name,
            None => if crate::text::begins_with(tag, "ESSENCE_"@) {
                title_case(tag.skip("ESSENCE_"@.len() as int)) + " Essence"@
            } else {
                title_case(tag)
            },
        },
    }
}

/// Whether the local order search finds the product: enchantments and essences
/// are not listed under the name that their tag spells.
pub open spec fn searchable(tag: Seq<char>) -> bool {
    !crate::text::begins_with(tag, "ENCHANTMENT_"@) && !crate::text::begins_with(tag, "ESSENCE_"@)
}

fn capitalize(word: &str) -> (r: String)
    ensures
        r@ == capitalized(word@),
{
    let chars = chars_of(word);
    let mut out = String::new();
    let mut i: usize = 0;
    while i < chars.len()
        invariant
            i <= chars.len(),
            chars@ == word@,
            out@ == capitalized(word@).take(i as int),
        decreases chars.len() - i,
    {
        if i == 0 {
            out.push(to_ascii_upper(chars[i]));
        } else {
            out.push(to_ascii_lower(chars[i]));
        }
        assert(capitalized(word@).take(i + 1) == capitalized(word@).take(i as int).push(
            capitalized(word@)[i as int],
        ));
        i = i + 1;
    }
    assert(capitalized(word@).take(i as int) == capitalized(word@));
    out
}

/// The words of `tag`, capitalized, with one space between each two.
pub fn title_case_tag(tag: &str) -> (r: String)
    ensures
        r@ == title_case(tag@),
{
    let found = split_words(tag, Separator::Underscore);
    let mut names: Vec<String> = Vec::new();
    let mut i: usize = 0;
    let ghost all = crate::text::texts(found@).map_values(|w: Seq<char>| capitalized(w));
    while i < found.len()
        invariant
            i <= found.len(),
            all == crate::text::texts(found@).map_values(|w: Seq<char>| capitalized(w)),
            crate::text::texts(names@) == all.take(i as int),
        decreases found.len() - i,
    {
        let ghost before = crate::text::texts(names@);
        names.push(capitalize(found[i].as_str()));
        assert(crate::text::texts(names@) == before.push(all[i as int]));
        assert(all.take(i + 1) == all.take(i as int).push(all[i as int]));
        i = i + 1;
    }
    assert(all.take(i as int) == all);
    join_words(&names)
}

/// The name of a gemstone tag such as `FINE_RUBY_GEM`, or `None` where `tag`
/// is not of the form `<tier>_<gem>_GEM`.
pub fn gemstone_tag_to_name(tag: &str) -> (r: Option<String>)
    ensures
        match r {
            Some(name) => gemstone_name(tag@) == Some(name@),
            None => gemstone_name(tag@) is None,
        },
{
    let parts = split_parts(tag, Separator::Underscore);
    assert(crate::text::texts(parts@).len() == parts@.len());
    if parts.len() != 3 {
        return None;
    }
    assert(crate::text::texts(parts@)[0] == parts@[0]@);
    assert(crate::text::texts(parts@)[1] == parts@[1]@);
    assert(crate::text::texts(parts@)[2] == parts@[2]@);
    if !same_text(parts[2].as_str(), "GEM") {
        return None;
    }
    let tier = parts[0].as_str();
    if !(same_text(tier, "ROUGH") || same_text(tier, "FLAWED") || same_text(tier, "FINE")
        || same_text(tier, "FLAWLESS") || same_text(tier, "PERFECT")) {
        return None;
    }
    let mut name = title_case_tag(tier);
    name.append(" ");
    name.append(title_case_tag(parts[1].as_str()).as_str());
    name.append(" Gemstone");
    Some(name)
}

/// The name under which the bazaar shows the product `tag`.
pub fn item_tag_to_name(tag: &str) -> (r: String)
    ensures
        r@ == product_name(tag@),
{
    if let Some(name) = gemstone_tag_to_name(tag) {
        return name;
    }
    if same_text(tag, "WATER_LILY") {
        return "Lily Pad".to_string();
    }
    if same_text(tag, "ENCHANTED_WATER_LILY") {
        return "Enchanted Lily Pad".to_string();
    }
    if same_text(tag, "RAW_FISH") {
        return "Raw Cod".to_string();
    }
    if same_text(tag, "SHARD_COD") {
        return "Cod Shard".to_string();
    }
    if same_text(tag, "SHARD_VORACIOUS_SPIDER") {
        return "Voracious Spider Shard".to_string();
    }
    if has_prefix(tag, "ESSENCE_") {
        let chars = chars_of(tag);
        let ghost n = "ESSENCE_"@.len();
        proof {
            reveal_strlit("ESSENCE_");
        }
        let rest = copy_range(&chars, 8, chars.len());
        assert(rest@ == tag@.skip(8));
        let mut name = title_case_tag(text_of(&rest).as_str());
        name.append(" Essence");
        return name;
    }
    title_case_tag(tag)
}

/// Whether the local order search finds the product `tag`.
pub fn is_local_order_search_supported(tag: &str) -> (r: bool)
    ensures
        r == searchable(tag@),
{
    !has_prefix(tag, "ENCHANTMENT_") && !has_prefix(tag, "ESSENCE_")
}

/// A capitalized word has its first letter in upper case, its others in lower
/// case, and keeps its length; capitalizing it again changes nothing.
pub proof fn capitalized_words_keep_their_length(word: Seq<char>, i: int)
    ensures
        capitalized(word).len() == word.len(),
        word.len() > 0 ==> capitalized(word)[0] == crate::text::ascii_upper(word[0]),
        0 < i < word.len() ==> capitalized(word)[i] == crate::text::ascii_lower(word[i]),
        capitalized(capitalized(word)) == capitalized(word),
{
    assert(capitalized(capitalized(word)) =~= capitalized(word));
}

/// An essence is named after what follows the prefix of its tag, unless it is
/// renamed; the renamed products go by their own names; a gemstone by its tier,
/// its gem and the word gemstone; all others by the words of their tags.
pub proof fn products_are_named_by_their_tags(tag: Seq<char>, rest: Seq<char>)
    ensures
        gemstone_name(tag) is Some ==> product_name(tag) == gemstone_name(tag)->0,
        gemstone_name(tag) is None && tag == "WATER_LILY"@ ==> product_name(tag) == "Lily Pad"@,
        gemstone_name(tag) is None && tag == "ENCHANTED_WATER_LILY"@ && tag != "WATER_LILY"@
            ==> product_name(tag) == "Enchanted Lily Pad"@,
        gemstone_name(tag) is None && renamed_product(tag) is None && !crate::text::begins_with(
            tag,
            "ESSENCE_"@,
        ) ==> product_name(tag) == title_case(tag),
        tag == "ESSENCE_"@ + rest && gemstone_name(tag) is None && renamed_product(tag) is None
            ==> product_name(tag) == title_case(rest) + " Essence"@,
{
    if tag == "ESSENCE_"@ + rest {
        assert(tag.skip("ESSENCE_"@.len() as int) =~= rest);
        assert(tag.take("ESSENCE_"@.len() as int) =~= "ESSENCE_"@);
    }
}

/// A gemstone tag has three parts: one of the five tiers, the gem and the word
/// `GEM`.
pub proof fn gemstone_tags_have_three_parts(tag: Seq<char>)
    ensures
        ({
            let parts = crate::text::split(tag, Separator::Underscore);
            gemstone_name(tag) is Some <==> {
                &&& parts.len() == 3
                &&& parts[2] == "GEM"@
                &&& {
                    ||| parts[0] == "ROUGH"@
                    ||| parts[0] == "FLAWED"@
                    ||| parts[0] == "FINE"@
                    ||| parts[0] == "FLAWLESS"@
                    ||| parts[0] == "PERFECT"@
                }
            }
        }),
        gemstone_name(tag) is Some ==> gemstone_name(tag)->0 == title_case(
            crate::text::split(tag, Separator::Underscore)[0],
        ) + " "@ + title_case(crate::text::split(tag, Separator::Underscore)[1]) + " Gemstone"@,
{
}

} // verus!
