use handwriting::latin::LatinPolicy;
use handwriting::myanmar::MyanmarPolicy;
use handwriting::number::double;
use handwriting::outline::{Outline, PathEl, Point};
use handwriting::policy::{GlyphProbe, ScriptPolicy};
use handwriting::segment::{
    detect_script_run, gather_graphemes, majority_script, piece_script, segment_text, Script,
};
use unicode_segmentation::UnicodeSegmentation;

#[test]
fn test_myanmar() {
    let text = "မင်္ဂလာပါ";
    let clusters = segment_text(text);
    assert_eq!(clusters.len(), 5);
    for cl in &clusters {
        assert_eq!(cl.script, Script::Myanmar);
    }
}

#[test]
fn test_cluster_joining() {
    let policy = MyanmarPolicy;
    let graphemes: Vec<&str> = UnicodeSegmentation::graphemes("မင်္ဂလာ", true).collect();
    let clusters = policy.cluster_join_rule(&graphemes);
    assert!(clusters.len() < graphemes.len());
    assert!(clusters[0].text.contains("မ"));
    assert!(clusters[0].text.contains("င်"));
}

#[test]
fn a_cluster_is_a_grapheme_with_its_script() {
    let clusters = segment_text("e\u{301}🇩🇪я");
    let texts: Vec<&str> = clusters.iter().map(|c| c.text.as_str()).collect();
    assert_eq!(texts, ["e\u{301}", "🇩🇪", "я"]);
    assert_eq!(clusters[0].script, Script::Latin);
    assert_eq!(clusters[1].script, Script::from_tag(0x5A79_7979));
    assert_eq!(clusters[2].script, Script::Other { tag: 0x4379_726C });
    assert!(segment_text("").is_empty());
}

#[test]
fn clusters_put_together_are_the_text() {
    for text in ["", "a", "မင်္ဂလာပါ", "ာab", "שלום world", "a\r\nb"] {
        let whole: String = segment_text(text).iter().map(|c| c.text.clone()).collect();
        assert_eq!(whole, text);
    }
}

#[test]
fn the_most_frequent_script_wins() {
    assert_eq!(detect_script_run("abc မ"), Script::Latin);
    assert_eq!(detect_script_run("သလ a"), Script::Myanmar);
    assert_eq!(detect_script_run("سلام a"), Script::Arabic);
    assert_eq!(detect_script_run("ܐܒ a"), Script::Syriac);
    assert_eq!(detect_script_run("ދިވެހި"), Script::Thaana);
    assert_eq!(detect_script_run(""), Script::Unknown);
    assert_eq!(detect_script_run("\u{10FFFF}\u{10FFFE}"), Script::Unknown);
    let tied = detect_script_run("aမ");
    assert!(tied == Script::Latin || tied == Script::Myanmar);
    assert_eq!(majority_script(&segment_text("ab\u{10FFFF}\u{10FFFE}\u{10FFFD}")), Script::Latin);
}

#[test]
fn tags_survive_the_way_to_a_script_and_back() {
    for tag in [0x4172_6162, 0x4C61_746E, 0x4D79_6D72, 0x5379_7263, 0x5468_6161, 0x5A7A_7A7A, 7] {
        assert_eq!(Script::from_tag(tag).tag(), tag);
    }
    assert_eq!(piece_script("мир").tag(), 0x4379_726C);
    assert_eq!(piece_script(""), Script::Unknown);
}

#[test]
fn latin_joins_nothing() {
    let policy = LatinPolicy::default();
    let clusters = policy.cluster_join_rule(&["a", "", "မ", "ာ"]);
    let found: Vec<(&str, Script)> = clusters.iter().map(|c| (c.text.as_str(), c.script)).collect();
    assert_eq!(
        found,
        [
            ("a", Script::Latin),
            ("", Script::Unknown),
            ("မ", Script::Myanmar),
            ("ာ", Script::Myanmar),
        ]
    );
    let segmented = segment_text("héllo မာ");
    let pieces: Vec<&str> = segmented.iter().map(|c| c.text.as_str()).collect();
    assert_eq!(policy.cluster_join_rule(&pieces), segmented);
    assert_eq!(policy.contextual_shaping("abc").text, "abc");
}

#[test]
fn myanmar_joins_signs_medials_and_silenced_finals() {
    let policy = MyanmarPolicy::default();
    let join = |pieces: &[&str]| -> Vec<String> {
        policy
            .cluster_join_rule(pieces)
            .into_iter()
            .map(|c| c.text)
            .collect()
    };
    assert_eq!(join(&["က", "ြ", "ာ", "း"]), ["ကြား"]);
    assert_eq!(join(&["က", "န်", "မ"]), ["ကန်", "မ"]);
    assert_eq!(join(&["ာ", "က"]), ["ာ", "က"]);
    assert_eq!(join(&["က", "", "ာ"]), ["က", "ာ"]);
    assert_eq!(join(&["က", "မ"]), ["က", "မ"]);
    assert!(join(&[]).is_empty());
    assert_eq!(policy.contextual_shaping("မ").text, "မ");
    assert_eq!(
        policy.join_myanmar_clusters(&["a", "ာ"])[0].script,
        Script::Latin
    );
    assert_eq!(join(&["a", "\u{1014}\u{103A}"]), ["a", "\u{1014}\u{103A}"]);
}

#[test]
fn joined_clusters_stay_as_they_are() {
    let policy = MyanmarPolicy::default();
    for text in ["ာမြန်မာစာ လှတယ် ကြီး", "မင်္ဂလာပါ a\u{1014}\u{103A}", "", "ေက"] {
        let graphemes: Vec<&str> = UnicodeSegmentation::graphemes(text, true).collect();
        let once = policy.cluster_join_rule(&graphemes);
        let texts: Vec<&str> = once.iter().map(|c| c.text.as_str()).collect();
        assert_eq!(policy.cluster_join_rule(&texts), once);
    }
    let cut = policy.cluster_join_rule(&["က", "န", "\u{103A}"]);
    assert_eq!(cut.len(), 2);
    let texts: Vec<&str> = cut.iter().map(|c| c.text.as_str()).collect();
    assert_eq!(policy.cluster_join_rule(&texts).len(), 1);
}

#[test]
fn myanmar_characters_fall_into_their_classes() {
    assert!(MyanmarPolicy::is_myanmar_char('\u{1000}'));
    assert!(MyanmarPolicy::is_myanmar_char('\u{109F}'));
    assert!(MyanmarPolicy::is_myanmar_char('\u{AA60}'));
    assert!(MyanmarPolicy::is_myanmar_char('\u{A9FF}'));
    assert!(!MyanmarPolicy::is_myanmar_char('\u{10A0}'));
    assert!(!MyanmarPolicy::is_myanmar_char('a'));
    assert!(MyanmarPolicy::is_dependent_sign('\u{102B}'));
    assert!(MyanmarPolicy::is_dependent_sign('\u{1031}'));
    assert!(MyanmarPolicy::is_dependent_sign('\u{1037}'));
    assert!(MyanmarPolicy::is_dependent_sign('\u{1038}'));
    assert!(!MyanmarPolicy::is_dependent_sign('\u{102A}'));
    assert!(!MyanmarPolicy::is_dependent_sign('\u{1039}'));
    assert!(MyanmarPolicy::is_dependent_sign('\u{103A}'));
    assert!(MyanmarPolicy::is_dependent_sign('\u{103B}'));
    assert!(MyanmarPolicy::is_dependent_sign('\u{103F}'));
    assert!(!MyanmarPolicy::is_medial('\u{103B}'));
    assert!(MyanmarPolicy::is_medial('\u{103C}'));
    assert!(MyanmarPolicy::is_medial('\u{103E}'));
    assert!(!MyanmarPolicy::is_medial('\u{103F}'));
    assert!(MyanmarPolicy::is_consonant('\u{102A}'));
    assert!(MyanmarPolicy::is_consonant('\u{103B}'));
    assert!(!MyanmarPolicy::is_consonant('\u{102B}'));
}

#[test]
fn glyphs_without_geometry_are_drawn_as_bitmaps() {
    let p = Point { x: double(0), y: double(0) };
    let outlines = [
        (Outline { elements: vec![] }, true),
        (Outline { elements: vec![PathEl::MoveTo(p), PathEl::ClosePath] }, true),
        (Outline { elements: vec![PathEl::MoveTo(p), PathEl::LineTo(p)] }, false),
        (Outline { elements: vec![PathEl::QuadTo(p, p)] }, false),
        (Outline { elements: vec![PathEl::CurveTo(p, p, p)] }, false),
    ];
    for (outline, bare) in &outlines {
        let probe = GlyphProbe { outline: Some(outline) };
        assert!(!LatinPolicy.requires_bitmap_fallback(&probe));
        assert_eq!(MyanmarPolicy.requires_bitmap_fallback(&probe), *bare);
    }
    let none = GlyphProbe { outline: None };
    assert!(LatinPolicy.requires_bitmap_fallback(&none));
    assert!(MyanmarPolicy.requires_bitmap_fallback(&none));
}

#[test]
fn trailing_vowels_go_to_the_cluster_before_them() {
    let gather = |pieces: &[&str]| -> Vec<String> {
        let pieces: Vec<String> = pieces.iter().map(|p| p.to_string()).collect();
        gather_graphemes(&pieces).into_iter().map(|c| c.text).collect()
    };
    assert_eq!(gather(&["က", "ာ", "ါ", "မ"]), ["ကာါ", "မ"]);
    assert_eq!(gather(&["ာ", "ါ"]), ["ာါ"]);
    assert_eq!(gather(&["a", "", "ိ"]), ["a", "", "ိ"]);
    assert_eq!(gather(&["a", "\u{102B}"]), ["a", "\u{102B}"]);
    assert!(gather(&[]).is_empty());
    assert_eq!(segment_text("a\u{102B}").len(), 2);
}

#[test]
fn every_cluster_has_the_script_of_its_first_character() {
    for text in ["မာa\u{102B}", "e\u{301} မ", "سلام"] {
        let clusters = segment_text(text);
        assert!(!clusters.is_empty());
        for cluster in &clusters {
            assert!(!cluster.text.is_empty());
            assert_eq!(cluster.script, piece_script(&cluster.text));
        }
    }
}

#[test]
fn no_cluster_but_the_first_starts_with_a_sign() {
    let text = "ာမြန်မာစာ လှတယ် ကြီး";
    let graphemes: Vec<&str> = UnicodeSegmentation::graphemes(text, true).collect();
    let clusters = MyanmarPolicy.cluster_join_rule(&graphemes);
    for cluster in &clusters[1..] {
        let first = cluster.text.chars().next().expect("no cluster is empty");
        assert!(!MyanmarPolicy::is_dependent_sign(first));
        assert!(!MyanmarPolicy::is_medial(first));
    }
    let whole: String = clusters.iter().map(|c| c.text.as_str()).collect();
    assert_eq!(whole, text);
    assert!(clusters.len() <= graphemes.len());
}
