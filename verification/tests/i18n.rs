//! Translations.

use bluetooth_monitor::i18n::{
    fill_template, Catalog, CatalogEntry, Catalogs, Language, LocalizedText,
};

fn entry(key: &str, text: &str) -> CatalogEntry {
    CatalogEntry { key: key.to_owned(), text: text.to_owned() }
}

fn catalogs() -> Catalogs {
    Catalogs {
        english: Catalog {
            entries: vec![
                entry("将在 {:.1}s 后进行第 {attempt} 次重连", "Reconnect #{1} in {0}s"),
                entry("Service {}", "Service {0}"),
                entry("Workspace", "Workspace"),
                entry("Open", "Open"),
            ],
        },
        chinese: Catalog {
            entries: vec![
                entry(
                    "将在 {:.1}s 后进行第 {attempt} 次重连",
                    "将在 {0} 秒后进行第 {1} 次重连",
                ),
                entry("Service {}", "服务 {0}"),
                entry("Open", "打开"),
                entry("Open", "再次打开"),
            ],
        },
    }
}

#[test]
fn arguments_are_reordered_and_user_text_is_not_translated() {
    let catalogs = catalogs();
    let message = LocalizedText::new(
        "将在 {:.1}s 后进行第 {attempt} 次重连",
        &["1.5".into(), "3".into()],
    );
    assert_eq!(message.render(Language::English, &catalogs), "Reconnect #3 in 1.5s");
    assert_eq!(
        message.render(Language::SimplifiedChinese, &catalogs),
        "将在 1.5 秒后进行第 3 次重连"
    );
    assert_eq!(
        Language::English.format(&catalogs, "Service {}", &["{0} 设备".into()]),
        "Service {0} 设备"
    );
    assert_eq!(Language::English.text(&catalogs, "unknown-key"), "unknown-key");
}

#[test]
fn missing_translations_fall_back_to_english() {
    let catalogs = catalogs();
    assert_eq!(Language::SimplifiedChinese.text(&catalogs, "Workspace"), "Workspace");
    assert_eq!(Language::SimplifiedChinese.text(&catalogs, "Open"), "打开");
    assert_eq!(Language::English.text(&catalogs, "Open"), "Open");
    assert_eq!(Language::SimplifiedChinese.text(&catalogs, "unknown-key"), "unknown-key");
}

#[test]
fn placeholders_are_filled_once() {
    let args = ["{1}".to_owned(), "b".to_owned()];
    assert_eq!(fill_template("{0} and {1}", &args), "{1} and b");
    assert_eq!(fill_template("{2} {x} {} {", &args), "{2} {x} {} {");
    assert_eq!(fill_template("{{0}}", &args), "{{1}}");
    assert_eq!(fill_template("{+1}{01}", &args), "bb");
    assert_eq!(fill_template("{99999999999999999999999}", &args), "{99999999999999999999999}");
    assert_eq!(fill_template("plain", &args), "plain");
    assert_eq!(fill_template("}{0", &args), "}{0");
}

#[test]
fn languages_have_names_and_a_default() {
    assert_eq!(Language::default(), Language::SimplifiedChinese);
    assert_eq!(Language::ALL, [Language::SimplifiedChinese, Language::English]);
    assert_eq!(Language::English.native_name(), "English");
    assert_eq!(Language::SimplifiedChinese.native_name(), "简体中文");
}

#[test]
fn messages_without_a_translation_keep_their_words() {
    let catalogs = catalogs();
    let message = LocalizedText::from("Open".to_owned());
    assert_eq!(message.render(Language::SimplifiedChinese, &catalogs), "Open");
    assert_eq!(LocalizedText::plain("Open").render(Language::SimplifiedChinese, &catalogs), "打开");
    let one = LocalizedText::with_one("Service {}", "x".to_owned());
    assert_eq!(one.render(Language::SimplifiedChinese, &catalogs), "服务 x");
    let two = LocalizedText::with_two(
        "将在 {:.1}s 后进行第 {attempt} 次重连",
        "2.0".to_owned(),
        "1".to_owned(),
    );
    assert_eq!(two.clone().render(Language::English, &catalogs), "Reconnect #1 in 2.0s");
}
