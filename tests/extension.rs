use tailwind_merge::extend::extend_config;
use tailwind_merge::merge::{classify_class, merge_class_list, merge_classes, split_class_list};
use tailwind_merge::types::{
    ClassDefinition, Config, ConfigExtension, ConfigGroupsPart, ConfigStaticPart, ConflictEntry, NamedGroup,
};
use tailwind_merge::validators::Validator;

fn literal(s: &str) -> ClassDefinition {
    ClassDefinition::String(s.to_string())
}

fn part(class_groups: Vec<NamedGroup>, conflicts: Vec<ConflictEntry>) -> ConfigGroupsPart {
    ConfigGroupsPart {
        theme: Vec::new(),
        class_groups,
        conflicting_class_groups: conflicts,
        conflicting_class_group_modifiers: Vec::new(),
    }
}

fn base() -> Config {
    Config {
        static_part: ConfigStaticPart { cache_size: 10, prefix: None, separator: ":".to_string() },
        groups_part: part(
            vec![
                NamedGroup { id: "display".to_string(), definitions: vec![literal("block"), literal("flex")] },
                NamedGroup {
                    id: "w".to_string(),
                    definitions: vec![ClassDefinition::ClassObject(vec![NamedGroup {
                        id: "w".to_string(),
                        definitions: vec![ClassDefinition::ClassValidator(Validator::Number)],
                    }])],
                },
                NamedGroup {
                    id: "h".to_string(),
                    definitions: vec![ClassDefinition::ClassObject(vec![NamedGroup {
                        id: "h".to_string(),
                        definitions: vec![ClassDefinition::ClassValidator(Validator::Number)],
                    }])],
                },
            ],
            Vec::new(),
        ),
    }
}

fn group_of(cfg: &Config, token: &str) -> Option<String> {
    classify_class(cfg, token).group
}

#[test]
fn split_at_whitespace() {
    assert_eq!(split_class_list("a  b\n c\t"), vec!["a".to_string(), "b".to_string(), "c".to_string()]);
    assert_eq!(split_class_list("   "), Vec::<String>::new());
    assert_eq!(split_class_list(""), Vec::<String>::new());
}

#[test]
fn merge_a_whitespace_separated_list() {
    let cfg = base();
    assert_eq!(merge_class_list(&cfg, "  w-2\tw-4  hover:w-2 "), "w-4 hover:w-2");
    assert_eq!(merge_class_list(&cfg, ""), "");
}

#[test]
fn override_replaces_an_entry() {
    let ext = ConfigExtension {
        override_part: Some(part(
            vec![NamedGroup { id: "display".to_string(), definitions: vec![literal("grid")] }],
            Vec::new(),
        )),
        extend_part: None,
    };
    let cfg = extend_config(base(), ext);
    assert_eq!(group_of(&cfg, "grid"), Some("display".to_string()));
    assert_eq!(group_of(&cfg, "flex"), None);
    assert_eq!(cfg.groups_part.class_groups.len(), 3);
    assert_eq!(cfg.static_part.cache_size, 10);
}

#[test]
fn extend_adds_definitions_and_entries() {
    let ext = ConfigExtension {
        override_part: None,
        extend_part: Some(part(
            vec![
                NamedGroup { id: "display".to_string(), definitions: vec![literal("inline")] },
                NamedGroup { id: "hidden".to_string(), definitions: vec![literal("hidden")] },
            ],
            vec![ConflictEntry { id: "w".to_string(), conflicts: vec!["h".to_string()] }],
        )),
    };
    let cfg = extend_config(base(), ext);
    assert_eq!(group_of(&cfg, "flex"), Some("display".to_string()));
    assert_eq!(group_of(&cfg, "inline"), Some("display".to_string()));
    assert_eq!(group_of(&cfg, "hidden"), Some("hidden".to_string()));
    assert_eq!(cfg.groups_part.class_groups.len(), 4);
    let tokens = vec!["h-2".to_string(), "w-3".to_string()];
    assert_eq!(merge_classes(&cfg, &tokens), "w-3");
    assert_eq!(merge_classes(&base(), &tokens), "h-2 w-3");
}
