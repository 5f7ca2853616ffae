use tailwind_merge::cache::TailwindMerge;
use tailwind_merge::classify::{class_group_of, from_theme};
use tailwind_merge::merge::{classify_class, classify_parsed, merge_classes, merge_classified};
use tailwind_merge::parse::parse_class_name;
use tailwind_merge::types::{
    ClassDefinition, ExperimentalParsedClassName, Config, ConfigGroupsPart, ConfigStaticPart, ConflictEntry, NamedGroup,
};
use tailwind_merge::validators::Validator;

fn object(key: &str, definitions: Vec<ClassDefinition>) -> ClassDefinition {
    ClassDefinition::ClassObject(vec![NamedGroup { id: key.to_string(), definitions }])
}

fn group(id: &str, definitions: Vec<ClassDefinition>) -> NamedGroup {
    NamedGroup { id: id.to_string(), definitions }
}

fn conflict(id: &str, conflicts: &[&str]) -> ConflictEntry {
    ConflictEntry { id: id.to_string(), conflicts: conflicts.iter().map(|c| c.to_string()).collect() }
}

fn spacing() -> ClassDefinition {
    ClassDefinition::ThemeGetter(from_theme("spacing".to_string()))
}

fn config(cache_size: usize, prefix: Option<&str>) -> Config {
    Config {
        static_part: ConfigStaticPart {
            cache_size,
            prefix: prefix.map(|p| p.to_string()),
            separator: ":".to_string(),
        },
        groups_part: ConfigGroupsPart {
            theme: vec![group(
                "spacing",
                vec![ClassDefinition::ClassValidator(Validator::Length), ClassDefinition::ClassValidator(Validator::ArbitraryLength)],
            )],
            class_groups: vec![
                group("display", vec![ClassDefinition::String("block".to_string()), ClassDefinition::String("flex".to_string())]),
                group("bare", vec![ClassDefinition::String("".to_string())]),
                group("px", vec![object("px", vec![spacing()])]),
                group("py", vec![object("py", vec![spacing()])]),
                group("p", vec![object("p", vec![spacing()])]),
                group("font-size", vec![object("text", vec![ClassDefinition::ClassValidator(Validator::TshirtSize)])]),
                group("leading", vec![object("leading", vec![ClassDefinition::ClassValidator(Validator::Number)])]),
                group("bg-color", vec![object("bg", vec![ClassDefinition::ClassValidator(Validator::Any)])]),
            ],
            conflicting_class_groups: vec![conflict("p", &["px", "py"])],
            conflicting_class_group_modifiers: vec![conflict("font-size", &["leading"])],
        },
    }
}

fn list(tokens: &[&str]) -> Vec<String> {
    tokens.iter().map(|t| t.to_string()).collect()
}

fn merge(tokens: &[&str]) -> String {
    merge_classes(&config(0, None), &list(tokens))
}

#[test]
fn later_class_of_same_group_wins() {
    assert_eq!(merge(&["px-2", "px-4"]), "px-4");
    assert_eq!(merge(&["px-4", "px-2"]), "px-2");
}

#[test]
fn different_modifiers_never_conflict() {
    assert_eq!(merge(&["hover:px-2", "px-2"]), "hover:px-2 px-2");
    assert_eq!(merge(&["hover:focus:px-2", "focus:hover:px-4"]), "focus:hover:px-4");
}

#[test]
fn important_flag_separates_classes() {
    assert_eq!(merge(&["px-2", "px-2!"]), "px-2 px-2!");
    assert_eq!(merge(&["px-2!", "px-4!"]), "px-4!");
    assert_eq!(merge(&["!px-2", "px-4!"]), "px-4!");
}

#[test]
fn unknown_classes_pass_through() {
    assert_eq!(merge(&["not-a-real-class", "px-2"]), "not-a-real-class px-2");
    assert_eq!(merge(&["foo", "foo"]), "foo foo");
    assert_eq!(merge(&[]), "");
}

#[test]
fn conflict_map_drops_earlier_either_way() {
    assert_eq!(merge(&["px-2", "p-4"]), "p-4");
    assert_eq!(merge(&["p-4", "px-2"]), "px-2");
    assert_eq!(merge(&["px-2", "py-2", "p-4"]), "p-4");
    assert_eq!(merge(&["hover:p-4", "px-2"]), "hover:p-4 px-2");
}

#[test]
fn postfix_modifier_conflicts() {
    assert_eq!(merge(&["leading-7", "text-lg/7"]), "text-lg/7");
    assert_eq!(merge(&["leading-7", "text-lg"]), "leading-7 text-lg");
}

#[test]
fn merging_twice_changes_nothing() {
    let cfg = config(0, None);
    let once = merge_classes(&cfg, &list(&["px-2", "block", "hover:px-2", "p-1", "flex", "x"]));
    assert_eq!(once, "hover:px-2 p-1 flex x");
    let tokens: Vec<String> = once.split(' ').map(|t| t.to_string()).collect();
    assert_eq!(merge_classes(&cfg, &tokens), once);
}

#[test]
fn cache_gives_the_same_results() {
    let tokens = list(&["px-2", "p-4", "hover:px-2", "px-2", "block", "unknown", "px-2"]);
    let plain = merge_classes(&config(0, None), &tokens);
    let mut uncached = TailwindMerge::new(config(0, None));
    let mut cached = TailwindMerge::new(config(2, None));
    assert_eq!(uncached.merge(&tokens), plain);
    assert_eq!(cached.merge(&tokens), plain);
    assert_eq!(cached.merge(&tokens), plain);
    for t in tokens.iter() {
        let a = uncached.classify(t);
        let b = cached.classify(t);
        assert_eq!(a.group, b.group);
        assert_eq!(a.modifiers, b.modifiers);
        assert_eq!(a.important, b.important);
    }
    assert_eq!(cached.config().static_part.cache_size, 2);
}

#[test]
fn parse_splits_modifiers_outside_brackets() {
    let p = parse_class_name("hover:[mask-type:alpha]!", ":");
    assert_eq!(p.modifiers, vec!["hover".to_string()]);
    assert!(p.has_important_modifier);
    assert_eq!(p.base_class_name, "[mask-type:alpha]");
    assert_eq!(p.maybe_postfix_modifier_position, None);
    let q = parse_class_name("md:text-lg/7", ":");
    assert_eq!(q.modifiers, vec!["md".to_string()]);
    assert_eq!(q.base_class_name, "text-lg/7");
    assert_eq!(q.maybe_postfix_modifier_position, Some(7));
    let r = parse_class_name("hover:", ":");
    assert_eq!(r.base_class_name, "");
}

#[test]
fn classification_follows_table_order_and_theme() {
    let cfg = config(0, None);
    assert_eq!(classify_class(&cfg, "px-4").group, Some("px".to_string()));
    assert_eq!(classify_class(&cfg, "px-[3px]").group, Some("px".to_string()));
    assert_eq!(classify_class(&cfg, "px-[3%]").group, Some("px".to_string()));
    assert_eq!(classify_class(&cfg, "px-[red]").group, None);
    assert_eq!(classify_class(&cfg, "flex").group, Some("display".to_string()));
    assert_eq!(classify_class(&cfg, "hover:").group, None);
    assert_eq!(classify_class(&cfg, "").group, None);
    let c = classify_class(&cfg, "text-lg/7");
    assert_eq!(c.group, Some("font-size".to_string()));
    assert!(c.has_postfix_modifier);
    let base: Vec<char> = "bg-red".chars().collect();
    assert_eq!(
        class_group_of(&cfg.groups_part.class_groups, &cfg.groups_part.theme, &base),
        Some("bg-color".to_string())
    );
}

#[test]
fn prefix_is_required_when_configured() {
    let cfg = config(0, Some("tw"));
    assert_eq!(classify_class(&cfg, "tw:px-4").group, Some("px".to_string()));
    assert_eq!(classify_class(&cfg, "px-4").group, None);
    assert_eq!(classify_class(&cfg, "tw:hover:px-4").modifiers, vec!["hover".to_string()]);
    assert_eq!(merge_classes(&cfg, &list(&["tw:px-2", "px-2", "tw:px-4"])), "px-2 tw:px-4");
}

#[test]
fn classes_split_by_another_parser() {
    let cfg = config(0, None);
    let parsed = ExperimentalParsedClassName {
        modifiers: vec!["md".to_string()],
        has_important_modifier: false,
        base_class_name: "text-lg/7".to_string(),
        maybe_postfix_modifier_position: Some(7),
    };
    let info = classify_parsed(&cfg, parsed);
    assert_eq!(info.group, Some("font-size".to_string()));
    assert!(info.has_postfix_modifier);
    let tokens = list(&["px-2", "px-4"]);
    let infos = vec![classify_class(&cfg, "px-2"), classify_class(&cfg, "px-4")];
    assert_eq!(merge_classified(&cfg, &tokens, &infos), "px-4");
}
