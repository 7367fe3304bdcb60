use koto_core::core_lib::help::{add_help_from_markdown, split_lines, trim_end};
use koto_core::value::{MetaKey, Value, ValueMap};

const NUMBER_HELP: &str = "# `number`\n\nNumbers are floats.\n\n```koto\nx = 1\n```\n\n### Note\n\nMore.   \n\n# Reference\n\n- [abs](#abs)\n\n## abs\n\n`|Number| -> Number`\n\nReturns the absolute value.\n\n### Example\n\n```koto\nnumber.abs -1\n```\n\n## max\r\n\r\nThe greater of two.\r\n\n\n";

fn help_of(map: &ValueMap, name: &str) -> Option<String> {
    match map.meta_get(MetaKey::Help) {
        Some(Value::Mapping(texts)) => match texts.get_with_string(name) {
            Some(Value::Str(s)) => Some(s.clone()),
            _ => None,
        },
        _ => None,
    }
}

#[test]
fn help_is_read_section_by_section() {
    let mut module = ValueMap::new();
    module.add_value("abs", Value::Empty);
    add_help_from_markdown(&mut module, NUMBER_HELP);
    assert_eq!(
        module.meta_get(MetaKey::SelfHelp),
        Some(&Value::Str("# `number`\n\nNumbers are floats.\n\nx = 1\n\n## Note\n\nMore.".to_string()))
    );
    assert_eq!(
        help_of(&module, "abs").as_deref(),
        Some("# number.abs\n\n`|Number| -> Number`\n\nReturns the absolute value.\n\n## Example\n\nnumber.abs -1")
    );
    assert_eq!(help_of(&module, "max").as_deref(), Some("# number.max\n\nThe greater of two."));
    assert_eq!(help_of(&module, "min"), None);
    assert_eq!(module.len(), 1);
}

#[test]
fn help_of_a_module_without_items() {
    let mut module = ValueMap::new();
    add_help_from_markdown(&mut module, "# test");
    assert_eq!(module.meta_get(MetaKey::SelfHelp), Some(&Value::Str("# test".to_string())));
    assert_eq!(module.meta_get(MetaKey::Help), None);
    let mut module = ValueMap::new();
    add_help_from_markdown(&mut module, "# ``test``\nskipped\n## item\nskipped too\nkept\n");
    assert_eq!(module.meta_get(MetaKey::SelfHelp), Some(&Value::Str("# ``test``\n\n## item\nskipped too\nkept".to_string())));
    assert_eq!(module.meta_get(MetaKey::Help), None);
}

#[test]
fn lines_are_split_like_the_standard_library_does() {
    for text in ["", "a", "a\n", "a\n\n", "\n", "a\r\nb", "a\rb\n", "a\n\r\nb\r", "\r\n", "x\r\n\r\ny\n\n", "# t\n\n## u"] {
        let chars: Vec<char> = text.chars().collect();
        let lines: Vec<String> = split_lines(&chars)
            .into_iter()
            .map(|(start, end)| chars[start..end].iter().collect())
            .collect();
        let expected: Vec<String> = text.lines().map(|l| l.to_string()).collect();
        assert_eq!(lines, expected, "{text:?}");
    }
}

#[test]
fn white_space_is_trimmed_like_the_standard_library_does() {
    for text in ["", "a", "a  ", " a \n\t", "\u{3000}", "x\u{a0}\u{2028}\u{85}", "a\u{200b}", " "] {
        assert_eq!(trim_end(text), text.trim_end(), "{text:?}");
    }
}
