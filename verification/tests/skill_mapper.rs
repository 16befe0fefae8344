//! Modules as skills.

use apcore_a2a::adapters::skill_mapper::humanize_id;
use apcore_a2a::json::Json;
use apcore_a2a::modules::{ModuleAnnotations, ModuleDescriptor};
use apcore_a2a::SkillMapper;

fn j(text: &str) -> Json {
    Json::parse(text).expect("valid JSON")
}

fn descriptor() -> ModuleDescriptor {
    ModuleDescriptor {
        description: "raw description".to_string(),
        input_schema: j(r#"{"type":"object"}"#),
        output_schema: j(r#"{"type":"object"}"#),
        tags: vec!["t1".to_string()],
        annotations: None,
        examples: vec![],
        metadata: vec![],
        display: None,
    }
}

fn with_display(display: &str) -> ModuleDescriptor {
    let mut d = descriptor();
    d.metadata.push(("display".to_string(), j(display)));
    d
}

#[test]
fn a2a_alias_overrides_name() {
    let d = with_display(r#"{"a2a":{"alias":"Resize Image"}}"#);
    let skill = SkillMapper::new().to_skill("image.resize", &d, "raw description");
    assert_eq!(skill.name, "Resize Image");
}

#[test]
fn display_alias_used_when_no_a2a() {
    let d = with_display(r#"{"alias":"Shrinker"}"#);
    let skill = SkillMapper::new().to_skill("image.resize", &d, "raw description");
    assert_eq!(skill.name, "Shrinker");
}

#[test]
fn name_humanized_without_overlay() {
    let skill = SkillMapper::new().to_skill("image.resize", &descriptor(), "raw description");
    assert_eq!(skill.name, "Image Resize");
}

#[test]
fn hyphen_preserved_when_humanizing_id() {
    let skill = SkillMapper::new().to_skill("foo-bar", &descriptor(), "raw description");
    assert_eq!(skill.name, "Foo-Bar");
}

#[test]
fn guidance_appended_to_description() {
    let d = with_display(r#"{"a2a":{"description":"Does X","guidance":"Use carefully"}}"#);
    let skill = SkillMapper::new().to_skill("x.y", &d, "raw description");
    assert_eq!(skill.description, "Does X\n\nGuidance: Use carefully");
}

#[test]
fn display_tags_override_descriptor_tags() {
    let d = with_display(r#"{"tags":["a","b"]}"#);
    let skill = SkillMapper::new().to_skill("x.y", &d, "raw description");
    assert_eq!(skill.tags, vec!["a".to_string(), "b".to_string()]);
}

#[test]
fn empty_display_tags_fall_back_to_descriptor() {
    let d = with_display(r#"{"tags":[]}"#);
    let skill = SkillMapper::new().to_skill("x.y", &d, "raw description");
    assert_eq!(skill.tags, vec!["t1".to_string()]);
}

#[test]
fn no_input_schema_yields_text_plain() {
    let mut d = descriptor();
    d.input_schema = Json::Null;
    d.output_schema = Json::Null;
    let skill = SkillMapper::new().to_skill("x.y", &d, "raw description");
    assert_eq!(skill.input_modes, vec!["text/plain".to_string()]);
    assert_eq!(skill.output_modes, vec!["text/plain".to_string()]);
}

#[test]
fn string_root_input_yields_json_and_text() {
    let mut d = descriptor();
    d.input_schema = j(r#"{"type":"string"}"#);
    let skill = SkillMapper::new().to_skill("x.y", &d, "raw description");
    assert_eq!(
        skill.input_modes,
        vec!["application/json".to_string(), "text/plain".to_string()]
    );
}

#[test]
fn object_schema_yields_json_modes() {
    let skill = SkillMapper::new().to_skill("x.y", &descriptor(), "raw description");
    assert_eq!(skill.input_modes, vec!["application/json".to_string()]);
    assert_eq!(skill.output_modes, vec!["application/json".to_string()]);
}

#[test]
fn examples_populated_from_descriptor() {
    let mut d = descriptor();
    d.examples = ["First", "", "  ", "Second"].iter().map(|s| s.to_string()).collect();
    let skill = SkillMapper::new().to_skill("x.y", &d, "raw description");
    assert_eq!(
        skill.examples,
        vec!["First".to_string(), "  ".to_string(), "Second".to_string()]
    );
}

#[test]
fn only_the_first_ten_examples_count() {
    let mut d = descriptor();
    d.examples = (0..12).map(|i| if i == 3 { String::new() } else { format!("e{i}") }).collect();
    let skill = SkillMapper::new().to_skill("x.y", &d, "d");
    assert_eq!(skill.examples.len(), 9);
    assert_eq!(skill.examples[8], "e9");
}

#[test]
fn ids_become_words() {
    assert_eq!(humanize_id("a._b"), "A B");
    assert_eq!(humanize_id("..x"), "X");
    assert_eq!(humanize_id("x__"), "X");
    assert_eq!(humanize_id(""), "");
    assert_eq!(humanize_id("9lives.über"), "9lives Über");
    assert_eq!(humanize_id("straße.ßen"), "Straße SSen");
    assert_eq!(humanize_id("aB.cD"), "AB CD");
}

#[test]
fn annotations_become_tags_once_and_in_order() {
    let mut d = descriptor();
    d.tags = vec!["apcore:idempotent".to_string()];
    d.annotations = Some(ModuleAnnotations {
        readonly: true,
        destructive: false,
        idempotent: true,
        requires_approval: true,
    });
    let skill = SkillMapper::new().to_skill("x.y", &d, "d");
    assert_eq!(
        skill.tags,
        vec!["apcore:idempotent", "apcore:readonly", "apcore:requires-approval"]
    );
}

#[test]
fn the_overlay_of_the_metadata_comes_before_the_module_s_own() {
    let mut d = with_display(r#"{"alias":"Meta"}"#);
    d.display = Some(j(r#"{"alias":"Own","description":"D"}"#));
    let skill = SkillMapper::new().to_skill("x.y", &d, "raw");
    assert_eq!(skill.name, "Meta");
    assert_eq!(skill.description, "raw");
    d.metadata.clear();
    let skill = SkillMapper::new().to_skill("x.y", &d, "raw");
    assert_eq!(skill.name, "Own");
    assert_eq!(skill.description, "D");
}

#[test]
fn ascii_ids_read_as_words() {
    for (id, words) in [
        ("image.resize", "Image Resize"),
        ("image_resize", "Image Resize"),
        ("a.b_c", "A B C"),
        ("foo-bar.2nd_try", "Foo-Bar 2nd Try"),
        ("_.._", ""),
        ("x \t", "X"),
        ("x. y", "X  Y"),
        (" x", " X"),
    ] {
        assert_eq!(humanize_id(id), words, "{id:?}");
        assert_eq!(humanize_id(words), words, "{words:?} reads as words already");
    }
}

#[test]
fn words_keep_the_letters_of_the_id() {
    for id in ["image.resize", "..a__b--c.9z", "Admin.users-Delete_", "A1.b2"] {
        let words = humanize_id(id);
        assert!(!words.contains('.') && !words.contains('_'), "{words}");
        assert!(!words.starts_with(' ') && !words.ends_with(' ') && !words.contains("  "));
        let letters = |s: &str| -> String {
            s.chars().filter(|c| c.is_alphanumeric()).collect::<String>().to_lowercase()
        };
        assert_eq!(letters(&words), letters(id));
    }
}
