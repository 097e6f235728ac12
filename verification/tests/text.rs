use purse_pilot::bazaar_tracker::{normalize_for_match, normalize_for_match_pub};
use purse_pilot::clock::{reading_timestamp, unix_timestamp};
use purse_pilot::listing::Listing;
use purse_pilot::text::{
    decimal_text, has_prefix, join_words, same_text, split_parts, split_words, to_ascii_upper_text,
    trim_text, Separator,
};

#[test]
fn keys_ignore_formatting_symbols_case_and_whitespace() {
    assert_eq!(normalize_for_match("\u{a7}6\u{a7}lCoal"), "coal");
    assert_eq!(normalize_for_match("Coal\u{a7}"), "coal");
    assert_eq!(normalize_for_match("  Enchanted \t Coal\u{2003}Block "), "enchanted coal block");
    assert_eq!(normalize_for_match("\u{270e} \u{c4}pfel"), "\u{e4}pfel");
    assert_eq!(normalize_for_match("\u{2620}\u{270e}"), "\u{2620}\u{270e}");
    assert_eq!(normalize_for_match(""), "");
    assert_eq!(normalize_for_match_pub("Fine RUBY gem"), "fine ruby gemstone");
    assert_eq!(normalize_for_match("Shiny Ruby Gem"), "shiny ruby gem");
    assert_eq!(normalize_for_match("Fine Ruby Gemstone"), "fine ruby gemstone");
}

#[test]
fn texts_are_split_joined_and_trimmed() {
    assert_eq!(split_parts("A__B_", Separator::Underscore), vec!["A", "", "B", ""]);
    assert_eq!(split_words("A__B_", Separator::Underscore), vec!["A", "B"]);
    assert_eq!(split_words(" a\u{a0}b ", Separator::Whitespace), vec!["a", "b"]);
    assert_eq!(join_words(&vec!["a".to_string(), "b".to_string()]), "a b");
    assert_eq!(trim_text(" \n a b\t"), "a b");
    assert_eq!(to_ascii_upper_text("a\u{e4}z{"), "A\u{e4}Z{");
    assert!(has_prefix("ESSENCE_X", "ESSENCE_") && !has_prefix("ESS", "ESSENCE_"));
    assert!(same_text("a", "a") && !same_text("a", "b") && !same_text("a", "ab"));
}

#[test]
fn numbers_are_written_in_decimal() {
    assert_eq!(decimal_text(0), "0");
    assert_eq!(decimal_text(90), "90");
    assert_eq!(decimal_text(1234567890), "1234567890");
    assert_eq!(decimal_text(u64::MAX), "18446744073709551615");
}

#[test]
fn listings_keep_the_order_of_their_names() {
    let mut listing: Listing<u64> = Listing::new();
    listing.insert("b".to_string(), 1);
    listing.insert("a".to_string(), 2);
    listing.insert("b".to_string(), 3);
    assert_eq!(listing.len(), 2);
    assert_eq!((listing.name_at(0).as_str(), *listing.value_at(0)), ("b", 3));
    assert_eq!(listing.get("a"), Some(&2));
    assert_eq!(listing.get("c"), None);
    assert!(listing.contains_key("a"));
    assert_eq!(listing.remove("b"), Some(3));
    assert_eq!(listing.remove("b"), None);
    assert_eq!(listing.find("a"), 0);
    *listing.value_at_mut(0) = 9;
    assert_eq!(listing.get("a"), Some(&9));
}

#[test]
fn the_clock_runs() {
    // Some time after 2020.
    assert!(unix_timestamp() > 1_577_836_800);
}

#[test]
fn clock_readings_become_whole_seconds() {
    let second = std::time::Duration::from_secs(1);
    assert_eq!(reading_timestamp(Ok(std::time::Duration::new(12, 999_999_999))), 12);
    assert_eq!(reading_timestamp(Ok(std::time::Duration::from_millis(999))), 0);
    assert_eq!(reading_timestamp(Ok(std::time::Duration::new(u64::MAX, 0))), u64::MAX);
    let epoch = std::time::UNIX_EPOCH;
    assert_eq!(reading_timestamp((epoch + second).duration_since(epoch)), 1);
    // A clock that stands before the epoch.
    let before = epoch.duration_since(epoch + second);
    assert!(before.is_err());
    assert_eq!(reading_timestamp(before), 0);
}

#[test]
fn a_key_is_its_own_key() {
    for name in [
        "\u{a7}a\u{270e} Flawless  SAPPHIRE Gemstone",
        " Enchanted\u{a0}Coal\t",
        "-- 7th Sin --",
        "***",
        "\u{a7}",
        "",
        "Fine Ruby Gem",
        "\u{c9}clair \u{3a3}",
    ] {
        let key = normalize_for_match(name);
        assert_eq!(normalize_for_match(&key), key);
        assert!(!key.contains('\u{a7}') && !key.contains("  ") && key.trim() == key);
        assert_eq!(normalize_for_match(&name.to_ascii_uppercase()), key);
        assert_eq!(normalize_for_match(&name.to_ascii_lowercase()), key);
    }
    assert_eq!(normalize_for_match("-- 7th Sin --"), "7th sin --");
    assert_eq!(normalize_for_match("* *  *"), "* * *");
}

#[test]
fn short_and_full_gem_names_have_one_key() {
    let types = [
        "amber", "amethyst", "aquamarine", "citrine", "jade", "jasper", "onyx", "opal", "peridot",
        "ruby", "sapphire", "topaz",
    ];
    for tier in ["rough", "flawed", "fine", "flawless", "perfect"] {
        for gem in types {
            let full = format!("{tier} {gem} gemstone");
            assert_eq!(normalize_for_match(&format!("{tier} {gem} gem")), full);
            assert_eq!(normalize_for_match(&full), full);
            let loud = format!("\u{2738} {tier} {gem} GEM").replace(tier, &tier.to_uppercase());
            assert_eq!(normalize_for_match(&loud), full);
        }
    }
    assert_eq!(normalize_for_match("Strange Gem"), "strange gem");
    assert_eq!(normalize_for_match("Fine Ruby Gems"), "fine ruby gems");
}

#[test]
fn characters_are_of_the_kinds_that_are_stated() {
    for n in 0..=0x10ffffu32 {
        let Some(c) = char::from_u32(n) else {
            continue;
        };
        let listed = matches!(
            c,
            '\u{9}'..='\u{d}'
                | ' '
                | '\u{85}'
                | '\u{a0}'
                | '\u{1680}'
                | '\u{2000}'..='\u{200a}'
                | '\u{2028}'
                | '\u{2029}'
                | '\u{202f}'
                | '\u{205f}'
                | '\u{3000}'
        );
        assert_eq!(trim_text(c.to_string().as_str()).is_empty(), listed);
        assert!(!(listed && c.is_alphanumeric()));
        if n <= 0x7f {
            assert_eq!(c.is_alphanumeric(), c.is_ascii_alphanumeric());
            let key = normalize_for_match(format!("a{c}b").as_str());
            if !listed {
                assert_eq!(key, format!("a{}b", c.to_ascii_lowercase()));
            } else {
                assert_eq!(key, "a b");
            }
        }
    }
}
