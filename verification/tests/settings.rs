use zyntax::language::AUTO_TAG;
use zyntax::persona::{builtin_personas, Persona, DEFAULT_PERSONA_ID};
use zyntax::provider::{ModelPricing, ProviderId};
use zyntax::settings::{
    found_schema_version, migrations_for, pricing_key, SettingsError, CURRENT_SCHEMA_VERSION, AppSettings, AppearanceSettings, BehaviorSettings, PricingTable,
    SidebarCategory, SidebarLayout, SystemSettings, Theme, DEFAULT_HOTKEY, OPACITY_MIN,
    SIDEBAR_SECTIONS,
};
use zyntax::speed::Speed;

fn category(id: &str, name: &str, items: &[&str]) -> SidebarCategory {
    SidebarCategory {
        id: id.to_owned(),
        name: name.to_owned(),
        collapsed: false,
        items: items.iter().map(|s| (*s).to_owned()).collect(),
    }
}

#[test]
fn a_fresh_sidebar_contains_every_panel_exactly_once() {
    let layout = SidebarLayout::default();
    let items: Vec<&str> = layout.categories[0]
        .items
        .iter()
        .map(String::as_str)
        .collect();
    assert_eq!(items, SIDEBAR_SECTIONS.to_vec());
}

#[test]
fn normalize_adopts_panels_missing_from_a_saved_layout() {
    let mut settings = AppSettings {
        sidebar: SidebarLayout {
            categories: vec![SidebarCategory {
                id: "mine".to_owned(),
                name: "Mine".to_owned(),
                collapsed: false,
                items: vec!["hotkeys".to_owned()],
            }],
        },
        ..Default::default()
    };
    settings.normalize();

    let all: Vec<String> = settings
        .sidebar
        .categories
        .iter()
        .flat_map(|c| c.items.clone())
        .collect();
    for section in SIDEBAR_SECTIONS {
        assert!(
            all.contains(&section.to_string()),
            "{section} became unreachable"
        );
    }
}

#[test]
fn normalize_drops_panels_that_no_longer_exist() {
    let mut settings = AppSettings {
        sidebar: SidebarLayout {
            categories: vec![SidebarCategory {
                id: "mine".to_owned(),
                name: "Mine".to_owned(),
                collapsed: false,
                items: vec!["hotkeys".to_owned(), "a-panel-that-was-removed".to_owned()],
            }],
        },
        ..Default::default()
    };
    settings.normalize();

    let all: Vec<String> = settings
        .sidebar
        .categories
        .iter()
        .flat_map(|c| c.items.clone())
        .collect();
    assert!(!all.contains(&"a-panel-that-was-removed".to_string()));
}

#[test]
fn normalize_removes_duplicates_keeping_the_first() {
    let mut settings = AppSettings {
        sidebar: SidebarLayout {
            categories: vec![
                SidebarCategory {
                    id: "a".to_owned(),
                    name: "A".to_owned(),
                    collapsed: false,
                    items: vec!["hotkeys".to_owned()],
                },
                SidebarCategory {
                    id: "b".to_owned(),
                    name: "B".to_owned(),
                    collapsed: false,
                    items: vec!["hotkeys".to_owned()],
                },
            ],
        },
        ..Default::default()
    };
    settings.normalize();

    let all: Vec<String> = settings
        .sidebar
        .categories
        .iter()
        .flat_map(|c| c.items.clone())
        .collect();
    assert_eq!(
        all.iter().filter(|item| *item == "hotkeys").count(),
        1,
        "a panel must not end up in two groups"
    );

    let mut unique = all.clone();
    unique.sort();
    unique.dedup();
    assert_eq!(unique.len(), all.len(), "no panel may be duplicated");

    assert!(settings.sidebar.categories[0]
        .items
        .contains(&"hotkeys".to_owned()));
}

#[test]
fn normalize_restores_a_layout_with_no_categories() {
    let mut settings = AppSettings {
        sidebar: SidebarLayout { categories: vec![] },
        ..Default::default()
    };
    settings.normalize();

    assert!(!settings.sidebar.categories.is_empty());
    assert_eq!(
        settings.sidebar.categories[0].items.len(),
        SIDEBAR_SECTIONS.len()
    );
}

#[test]
fn normalize_names_an_untitled_category() {
    let mut settings = AppSettings {
        sidebar: SidebarLayout {
            categories: vec![SidebarCategory {
                id: "x".to_owned(),
                name: "   ".to_owned(),
                collapsed: false,
                items: vec![],
            }],
        },
        ..Default::default()
    };
    settings.normalize();
    assert_eq!(settings.sidebar.categories[0].name, "Untitled");
}

#[test]
fn normalize_appends_missing_panels_to_the_first_group_in_order() {
    let mut layout = SidebarLayout {
        categories: vec![
            category("first", "First", &["logs", "nope"]),
            category("second", "Second", &["about", "logs", "hotkeys"]),
        ],
    };
    layout.normalize();
    assert_eq!(
        layout.categories[0].items,
        vec![
            "logs", "personas", "languages", "providers", "behavior", "appearance", "usage",
            "system"
        ]
    );
    assert_eq!(layout.categories[1].items, vec!["about", "hotkeys"]);
    assert_eq!(layout.categories[1].id, "second");
}

#[test]
fn normalizing_twice_changes_nothing_more() {
    let mut layout = SidebarLayout {
        categories: vec![
            category("a", " ", &["usage", "usage", "x"]),
            category("b", "B", &["usage", "about"]),
        ],
    };
    layout.normalize();
    let once: Vec<(String, Vec<String>)> = layout
        .categories
        .iter()
        .map(|c| (c.name.clone(), c.items.clone()))
        .collect();
    layout.normalize();
    let twice: Vec<(String, Vec<String>)> = layout
        .categories
        .iter()
        .map(|c| (c.name.clone(), c.items.clone()))
        .collect();
    assert_eq!(once, twice);
    assert_eq!(once[0].0, "Untitled");
}

#[test]
fn normalize_clamps_opacity() {
    let mut settings = AppSettings::default();
    settings.appearance.opacity = 5;
    settings.normalize();
    assert_eq!(settings.appearance.opacity, OPACITY_MIN);

    settings.appearance.opacity = 200;
    settings.normalize();
    assert_eq!(settings.appearance.opacity, 100);
}

#[test]
fn normalize_restores_a_blank_hotkey() {
    let mut settings = AppSettings {
        hotkey: "   ".to_owned(),
        ..Default::default()
    };
    settings.normalize();
    assert_eq!(settings.hotkey, DEFAULT_HOTKEY);
}

#[test]
fn normalize_disables_translation_without_a_target() {
    let mut settings = AppSettings {
        translate: true,
        language_tag: AUTO_TAG.to_owned(),
        ..Default::default()
    };
    settings.normalize();
    assert!(!settings.translate, "translate+auto is not a valid request");
}

#[test]
fn normalize_keeps_translation_with_a_target() {
    let mut settings = AppSettings {
        translate: true,
        language_tag: "de".to_owned(),
        ..Default::default()
    };
    settings.normalize();
    assert!(settings.translate);
}

#[test]
fn normalize_fills_in_a_missing_provider_profile() {
    let mut settings = AppSettings::default();
    settings.providers.clear();
    settings.normalize();
    assert_eq!(settings.providers.len(), ProviderId::ALL.len());
}

#[test]
fn normalize_gives_a_blank_model_its_default() {
    let mut settings = AppSettings::default();
    settings.providers[1].model = "  ".to_owned();
    settings.providers.remove(2);
    settings.normalize();
    assert_eq!(settings.providers.len(), 3);
    assert_eq!(settings.providers[1].model, "gpt-4o-mini");
    assert_eq!(settings.providers[2].id, ProviderId::Ollama);
}

#[test]
fn normalize_rejects_a_custom_persona_shadowing_a_builtin() {
    let mut settings = AppSettings::default();
    settings.custom_personas.push(Persona {
        id: DEFAULT_PERSONA_ID.to_owned(),
        name: "Hijacked".to_owned(),
        instruction: "…".to_owned(),
        builtin: true,
    });
    settings.normalize();
    assert!(settings.custom_personas.is_empty());
    assert_eq!(settings.active_persona().name, "Standard");
}

#[test]
fn normalize_unmarks_custom_personas() {
    let mut settings = AppSettings::default();
    settings.custom_personas.push(Persona {
        id: "pirate".to_owned(),
        name: "Pirate".to_owned(),
        instruction: "Arr.".to_owned(),
        builtin: true,
    });
    settings.normalize();
    assert_eq!(settings.custom_personas.len(), 1);
    assert!(!settings.custom_personas[0].builtin);
}

#[test]
fn deleted_persona_falls_back_to_the_default() {
    let settings = AppSettings {
        persona_id: "a-persona-the-user-deleted".to_owned(),
        ..Default::default()
    };
    assert_eq!(settings.active_persona().id, DEFAULT_PERSONA_ID);
}

#[test]
fn deleted_language_falls_back_to_auto() {
    let settings = AppSettings {
        language_tag: "kl".to_owned(),
        ..Default::default()
    };
    assert!(settings.active_language().is_auto());
}

#[test]
fn a_chosen_language_is_found_by_tag() {
    let settings = AppSettings {
        language_tag: "fr".to_owned(),
        ..Default::default()
    };
    assert_eq!(settings.active_language().label, "French");
}

#[test]
fn custom_personas_are_offered_alongside_builtins() {
    let mut settings = AppSettings::default();
    settings.custom_personas.push(Persona {
        id: "pirate".to_owned(),
        name: "Pirate".to_owned(),
        instruction: "Arr.".to_owned(),
        builtin: false,
    });
    settings.persona_id = "pirate".to_owned();

    assert_eq!(settings.active_persona().name, "Pirate");
    assert_eq!(
        settings.all_personas().len(),
        builtin_personas().len() + 1
    );
}

#[test]
fn pricing_defaults_to_zero_and_reads_back_what_was_set() {
    let mut settings = AppSettings::default();
    assert_eq!(
        settings.pricing_for(ProviderId::Gemini, "gemini-2.5-flash"),
        ModelPricing::default()
    );

    settings.pricing.insert(
        pricing_key(ProviderId::Gemini, "gemini-2.5-flash"),
        ModelPricing {
            input_per_million_bits: 0.3f64.to_bits(),
            output_per_million_bits: 2.5f64.to_bits(),
        },
    );
    let pricing = settings.pricing_for(ProviderId::Gemini, "gemini-2.5-flash");
    assert_eq!(f64::from_bits(pricing.output_per_million_bits), 2.5);
}

#[test]
fn a_later_price_replaces_the_earlier_one() {
    let mut table = PricingTable::new();
    table.insert("gemini/a".to_owned(), ModelPricing { input_per_million_bits: 1, output_per_million_bits: 2 });
    table.insert("openai/b".to_owned(), ModelPricing { input_per_million_bits: 3, output_per_million_bits: 4 });
    table.insert("gemini/a".to_owned(), ModelPricing { input_per_million_bits: 5, output_per_million_bits: 6 });
    assert_eq!(table.entries().len(), 2);
    assert_eq!(table.get("gemini/a").map(|p| p.input_per_million_bits), Some(5));
    assert_eq!(table.get("openai/b").map(|p| p.output_per_million_bits), Some(4));
    assert!(table.get("ollama/c").is_none());
}

#[test]
fn pricing_keys_join_slug_and_model() {
    assert_eq!(pricing_key(ProviderId::OpenAiCompatible, "gpt-4o"), "openai/gpt-4o");
    assert_eq!(pricing_key(ProviderId::Ollama, ""), "ollama/");
}

#[test]
fn defaults_match_a_first_run() {
    let settings = AppSettings::default();
    assert!(settings.enabled);
    assert_eq!(settings.hotkey, DEFAULT_HOTKEY);
    assert_eq!(settings.speed, Speed::Normal);
    assert_eq!(settings.behavior, BehaviorSettings::default());
    assert!(settings.behavior.keep_history);
    assert!(SystemSettings::default().check_for_updates);
    assert_eq!(
        AppearanceSettings::default(),
        AppearanceSettings { theme: Theme::System, opacity: 100 }
    );
    assert_eq!(settings.active_provider_profile().model, "gemini-2.5-flash");
    assert_eq!(settings.all_languages().len(), 14);
}

#[test]
fn documents_migrate_step_by_step_and_newer_ones_are_refused() {
    assert_eq!(found_schema_version(None), 0);
    assert_eq!(found_schema_version(Some(1)), 1);
    assert_eq!(found_schema_version(Some(u64::from(u32::MAX) + 3)), u32::MAX);
    assert_eq!(migrations_for(0).expect("migrates"), vec![0]);
    assert!(migrations_for(CURRENT_SCHEMA_VERSION).expect("current").is_empty());
    let refused = migrations_for(CURRENT_SCHEMA_VERSION + 1);
    assert!(matches!(refused, Err(SettingsError::FromTheFuture { found: 2 })));
    assert_eq!(
        refused.unwrap_err().message(),
        "settings were written by a newer version of ZyntaxAI (schema 2, this build understands 1); upgrade the app rather than downgrading the file"
    );
    assert_eq!(
        SettingsError::Parse("expected value".to_owned()).message(),
        "settings file is not valid JSON: expected value"
    );
}

#[test]
fn a_schema_version_beyond_32_bits_is_refused_not_wrapped() {
    let found = found_schema_version(Some(4_294_967_296));
    assert_eq!(found, u32::MAX);
    assert!(matches!(migrations_for(found), Err(SettingsError::FromTheFuture { found: u32::MAX })));
    assert!(matches!(
        migrations_for(found_schema_version(Some(u64::MAX))),
        Err(SettingsError::FromTheFuture { .. })
    ));
}

#[test]
fn a_panel_repeated_in_one_group_is_kept_once_at_its_first_place() {
    let mut layout = SidebarLayout {
        categories: vec![category("a", "A", &["hotkeys", "usage", "hotkeys", "usage"])],
    };
    layout.normalize();
    let items = &layout.categories[0].items;
    assert_eq!(items.iter().filter(|item| *item == "hotkeys").count(), 1);
    assert_eq!(items.iter().filter(|item| *item == "usage").count(), 1);
    assert_eq!(items[0], "hotkeys");
    assert_eq!(items[1], "usage");
    assert_eq!(items.len(), SIDEBAR_SECTIONS.len());
}
