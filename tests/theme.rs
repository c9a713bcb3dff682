use colorparser_css::{Theme, ThemeValue};

const JSON_DATA: &str = r###"
    {
        "blue": "#89b4fa",
        "text": {
            "white": "#cdd6f4",
            "dark": {
                "grey": "#313244"
            }
        },
        "red": "#f38ba8"
    }
    "###;

const YAML_DATA: &str = r###"
    blue: "#89b4fa"
    text:
        white: "#cdd6f4"
        dark:
            grey: "#313244"
    red: "#f38ba8"
    "###;

fn from_json(value: serde_jsonc2::Value) -> ThemeValue {
    match value {
        serde_jsonc2::Value::Object(map) => {
            let mut theme = Theme::new();
            for (k, v) in map {
                theme.insert(k, from_json(v));
            }
            ThemeValue::Subtheme(theme)
        }
        serde_jsonc2::Value::String(s) => ThemeValue::Color(s),
        other => ThemeValue::Color(other.to_string()),
    }
}

fn from_yaml(value: serde_yml::Value) -> ThemeValue {
    match value {
        serde_yml::Value::Mapping(map) => {
            let mut theme = Theme::new();
            for (k, v) in map {
                theme.insert(k, from_yaml(v));
            }
            ThemeValue::Subtheme(theme)
        }
        serde_yml::Value::String(s) => ThemeValue::Color(s),
        other => ThemeValue::Color(serde_yml::to_string(&other).unwrap_or_default()),
    }
}

fn json_theme() -> Theme {
    match from_json(serde_jsonc2::from_str(JSON_DATA).unwrap()) {
        ThemeValue::Subtheme(t) => t,
        ThemeValue::Color(_) => panic!("not an object"),
    }
}

fn yaml_theme() -> Theme {
    match from_yaml(serde_yml::from_str(YAML_DATA).unwrap()) {
        ThemeValue::Subtheme(t) => t,
        ThemeValue::Color(_) => panic!("not a mapping"),
    }
}

#[test]
fn test_get_color() {
    let theme = json_theme();
    if let Some(ThemeValue::Color(color)) = theme.get("blue") {
        assert_eq!(color.as_str(), "#89b4fa");
    } else {
        panic!("Failed to get the blue color");
    }
    if let Some(ThemeValue::Color(color)) = theme.get("red") {
        assert_eq!(color.as_str(), "#f38ba8");
    } else {
        panic!("Failed to get the red color");
    }
    assert!(theme.get("yellow").is_none());
}

#[test]
fn test_get_color_yml() {
    let theme = yaml_theme();
    if let Some(ThemeValue::Color(color)) = theme.get("blue") {
        assert_eq!(color.as_str(), "#89b4fa");
    } else {
        panic!("Failed to get the blue color");
    }
    if let Some(ThemeValue::Color(color)) = theme.get("red") {
        assert_eq!(color.as_str(), "#f38ba8");
    } else {
        panic!("Failed to get the red color");
    }
    assert!(theme.get("yellow").is_none());
}

#[test]
fn test_get_subtheme() {
    let theme = json_theme();
    if let Some(ThemeValue::Subtheme(subtheme)) = theme.get("text") {
        assert!(subtheme.get("white").is_some());
    } else {
        panic!("Failed to get the text subtheme");
    }
    if let Some(ThemeValue::Subtheme(subtheme)) = theme.get("text.dark") {
        assert!(subtheme.get("grey").is_some());
    } else {
        panic!("Failed to get the text.dark subtheme");
    }
    assert!(theme.get("text.dark.notfound").is_none());
}

#[test]
fn test_get_nested_subtheme() {
    let theme = json_theme();
    if let Some(ThemeValue::Subtheme(subtheme)) = theme.get("text.dark") {
        if let Some(ThemeValue::Color(color)) = subtheme.get("grey") {
            assert_eq!(color.as_str(), "#313244");
        } else {
            panic!("Failed to get grey color from text.dark");
        }
    } else {
        panic!("Failed to get the text.dark subtheme");
    }
}

#[test]
fn test_get_non_existent_key() {
    let theme = json_theme();
    assert!(theme.get("green").is_none());
}

#[test]
fn theme_colors_and_keys() {
    let theme = json_theme();
    assert_eq!(theme.get_color("text.dark.grey").unwrap(), "#313244");
    assert!(theme.get_color("text.dark").is_none());
    assert!(theme.get_color("blue.blue").is_none());
    let mut keys = theme.keys();
    keys.sort();
    assert_eq!(keys, vec!["blue", "red", "text", "text.dark", "text.dark.grey", "text.white"]);
    let colors = theme.colors();
    assert_eq!(colors.len(), 4);
    let solid = colorparser_css::parse_solid_with_theme("text.white", &colors).unwrap();
    assert_eq!(solid.to_hex_string().unwrap(), "#cdd6f4");
}

#[test]
fn theme_built_by_hand() {
    let mut inner = Theme::new();
    inner.insert("grey".to_string(), ThemeValue::Color("#313244".to_string()));
    let mut theme = Theme::new();
    theme.insert("dark".to_string(), ThemeValue::Subtheme(inner));
    assert_eq!(theme.get_color("dark.grey").unwrap(), "#313244");
    assert!(theme.get("dark..grey").is_none());
    assert!(theme.get("").is_none());
    assert_eq!(theme.keys(), vec!["dark", "dark.grey"]);
    theme.insert("dark".to_string(), ThemeValue::Color("#000000".to_string()));
    assert_eq!(theme.get_color("dark").unwrap(), "#000000");
    assert!(theme.get("dark.grey").is_none());
    assert_eq!(theme.keys(), vec!["dark"]);
}
