use annotator::model::Label;
use annotator::palette::{get_next_valid_color, is_color_used, is_valid_color, label_colors};

fn label(id: u64, name: &str, color: &str) -> Label {
    Label { id: Some(id), name: name.to_string(), color: color.to_string() }
}

#[test]
fn catalogue_holds_twenty_ordered_entries() {
    let catalogue = label_colors();
    assert_eq!(catalogue.len(), 20);
    assert_eq!(catalogue[0].name, "dark_blue");
    assert_eq!(catalogue[0].value, "#00008B");
    assert_eq!(catalogue[6].name, "red");
    assert_eq!(catalogue[6].value, "#8B0000");
    assert_eq!(catalogue[19].name, "light_gray");
    assert_eq!(catalogue[19].value, "#D3D3D3");
    let mut names: Vec<String> = catalogue.iter().map(|e| e.name.clone()).collect();
    names.sort();
    names.dedup();
    assert_eq!(names.len(), 20);
}

#[test]
fn recognizes_catalogue_colors_only() {
    assert!(is_valid_color("red".to_string()));
    assert!(is_valid_color("burly_wood".to_string()));
    assert!(!is_valid_color("mauve".to_string()));
    assert!(!is_valid_color("RED".to_string()));
    assert!(!is_valid_color("".to_string()));
}

#[test]
fn reports_used_colors() {
    let labels = vec![label(1, "a", "red"), label(2, "b", "cyan")];
    assert!(is_color_used("red".to_string(), &labels));
    assert!(is_color_used("cyan".to_string(), &labels));
    assert!(!is_color_used("blue".to_string(), &labels));
    assert!(!is_color_used("red".to_string(), &Vec::new()));
}

#[test]
fn allocates_first_free_in_catalogue_order() {
    assert_eq!(get_next_valid_color(&Vec::new()).unwrap(), "dark_blue");
    let labels = vec![label(1, "a", "dark_blue")];
    assert_eq!(get_next_valid_color(&labels).unwrap(), "blue");
    let labels = vec![label(1, "a", "dark_blue"), label(2, "b", "dodger_blue")];
    assert_eq!(get_next_valid_color(&labels).unwrap(), "blue");
}

#[test]
fn exhausted_palette_reports_error() {
    let catalogue = label_colors();
    let labels: Vec<Label> = catalogue
        .iter()
        .enumerate()
        .map(|(i, e)| label(i as u64, &format!("l{}", i), &e.name))
        .collect();
    let err = get_next_valid_color(&labels).unwrap_err();
    assert_eq!(err.description, "All colors are used");
}
