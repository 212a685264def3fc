use screenforme::i18n::{
    current, follow_language, resolve, resolve_with_locale, set_language, t, t_with, Catalog, I18n, Lang,
};

#[test]
fn from_tag_matches_primary_subtag() {
    assert_eq!(Lang::from_tag("es-ES"), Lang::Es);
    assert_eq!(Lang::from_tag("es_MX"), Lang::Es);
    assert_eq!(Lang::from_tag("fr"), Lang::Fr);
    assert_eq!(Lang::from_tag("DE-at"), Lang::De);
    assert_eq!(Lang::from_tag("it-IT"), Lang::It);
    assert_eq!(Lang::from_tag("en-US"), Lang::EnGb);
    assert_eq!(Lang::from_tag("pt-BR"), Lang::EnGb);
    assert_eq!(Lang::from_tag(""), Lang::EnGb);
    assert_eq!(Lang::from_tag("garbage"), Lang::EnGb);
}

#[test]
fn resolve_explicit_tags() {
    assert_eq!(resolve("es"), Lang::Es);
    assert_eq!(resolve("en-GB"), Lang::EnGb);
    assert_eq!(resolve("zz"), Lang::EnGb);
}

#[test]
fn system_setting_follows_the_locale() {
    assert_eq!(resolve_with_locale("system", Some("fr_CA")), Lang::Fr);
    assert_eq!(resolve_with_locale("system", None), Lang::EnGb);
    assert_eq!(resolve_with_locale("de", Some("fr_CA")), Lang::De);
}

#[test]
fn tags_round_trip_through_from_tag() {
    for lang in [Lang::EnGb, Lang::Es, Lang::Fr, Lang::De, Lang::It] {
        assert_eq!(Lang::from_tag(lang.tag()), lang);
    }
    assert_eq!(Lang::EnGb.tag(), "en-GB");
}

fn catalog(json: &str) -> Catalog {
    Catalog::from_json(json).expect("valid flat JSON")
}

fn sample() -> I18n {
    I18n::new(
        catalog(r#"{"tray.settings":"Settings…","updates.available":"Version {version} is available","only.en":"English"}"#),
        catalog(r#"{"tray.settings":"Ajustes…","updates.available":"La versión {version} está disponible"}"#),
        catalog(r#"{"tray.settings":"Réglages…"}"#),
        catalog("{}"),
        catalog("{}"),
    )
}

#[test]
fn lookup_fallback_and_interpolation() {
    let mut i18n = sample();
    set_language(&mut i18n, Lang::Es);
    assert_eq!(current(&i18n), Lang::Es);
    assert_eq!(t(&i18n, "tray.settings"), "Ajustes…");
    assert_eq!(t(&i18n, "no.such.key"), "no.such.key");
    assert_eq!(t(&i18n, "only.en"), "English");
    set_language(&mut i18n, Lang::EnGb);
    assert_eq!(t(&i18n, "tray.settings"), "Settings…");
    let text = t_with(&i18n, "updates.available", &[("version", "2.0.0")]);
    assert!(text.contains("Version 2.0.0"), "{text}");
}

#[test]
fn interpolation_replaces_every_placeholder_in_order() {
    let i18n = I18n::new(
        catalog(r#"{"k":"{a} and {b} and {a}"}"#),
        Catalog::empty(),
        Catalog::empty(),
        Catalog::empty(),
        Catalog::empty(),
    );
    assert_eq!(t_with(&i18n, "k", &[("a", "1"), ("b", "{a}")]), "1 and {a} and 1");
    assert_eq!(t_with(&i18n, "k", &[]), "{a} and {b} and {a}");
}

#[test]
fn catalogs_reject_non_flat_json() {
    assert!(Catalog::from_json("{not json").is_none());
    assert!(Catalog::from_json(r#"{"a":1}"#).is_none());
    let c = catalog(r#"{"b":"2","a":"1"}"#);
    assert_eq!(c.get("a"), Some("1".to_string()));
    assert_eq!(c.get("c"), None);
}

#[test]
fn a_changed_language_setting_switches_the_interface() {
    let mut i18n = sample();
    assert!(!follow_language(&mut i18n, "en-GB", "en-GB"));
    assert_eq!(current(&i18n), Lang::EnGb);
    assert!(follow_language(&mut i18n, "en-GB", "es"));
    assert_eq!(current(&i18n), Lang::Es);
    assert_eq!(t(&i18n, "tray.settings"), "Ajustes…");
    assert!(follow_language(&mut i18n, "es", "fr-CA"));
    assert_eq!(current(&i18n), Lang::Fr);
}

#[test]
fn only_the_primary_subtag_counts() {
    for tag in ["ES-mx", "fr_CA", "De", "IT-ch", "pt-BR", "", "-es"] {
        let primary: String = tag.split(['-', '_']).next().unwrap().to_ascii_lowercase();
        assert_eq!(Lang::from_tag(tag), Lang::from_tag(&primary), "{tag}");
    }
}

#[test]
fn catalogs_keep_one_value_per_key() {
    let c = Catalog::from_json(r#"{"a":"first","a":"second","b":"x"}"#).unwrap();
    assert_eq!(c.get("b"), Some("x".to_string()));
    assert!(c.get("a").is_some());
}
