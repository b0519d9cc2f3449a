use nutsh_tui::catalog::{Field, FieldType, KindRef, Reach};
use nutsh_tui::form::{offered, Choice, Event, Form, Picked, RefPicker};
use nutsh_tui::key::Key;

fn kind() -> KindRef {
    KindRef {
        id: "clustermgmt.config.Cluster".to_string(),
        display: "Clusters".to_string(),
        aliases: vec!["cluster".to_string()],
        curated: true,
        reach: Reach::Direct,
        note: None,
    }
}

fn choices() -> Vec<Choice> {
    ["alpha", "beta", "gamma"]
        .into_iter()
        .enumerate()
        .map(|(i, name)| Choice {
            ext_id: format!("id-{i}"),
            name: name.to_string(),
        })
        .collect()
}

fn field(name: &str, label: &str, ty: FieldType, required: bool, value: Option<&str>, hidden: bool) -> Field {
    Field {
        name: name.to_string(),
        label: label.to_string(),
        ty,
        required,
        value: value.map(|v| v.to_string()),
        hidden,
    }
}

fn cluster_field() -> Field {
    field(
        "cluster",
        "Cluster",
        FieldType::Reference(Some("clustermgmt.config.Cluster".to_string())),
        true,
        None,
        false,
    )
}

#[test]
fn enter_on_a_reference_asks_for_a_picker() {
    let fields = vec![cluster_field(), field("name", "Name", FieldType::Text, false, None, false)];
    let mut form = Form::open("Migrate", &fields);
    assert_eq!(form.key(Key::Enter), Event::Pick("clustermgmt.config.Cluster".to_string()));
    assert_eq!(form.key(Key::Tab), Event::Moved);
    assert_eq!(form.key(Key::Enter), Event::Submit, "an ordinary field sends");
}

#[test]
fn the_picker_narrows_and_writes_the_ext_id() {
    let fields = vec![cluster_field()];
    let mut form = Form::open("Migrate", &fields);
    let mut picker = RefPicker::open(kind(), "Cluster", choices());
    assert_eq!(picker.entries.len(), 3);
    assert_eq!(picker.key(Key::Char('m')), Picked::Filtered);
    assert_eq!(picker.entries.len(), 1, "gamma alone");
    assert_eq!(picker.key(Key::Enter), Picked::Chose("id-2".into()));
    form.set_selected_value("id-2".into());
    assert_eq!(form.value("cluster"), "id-2");
    assert!(!form.loading);
}

#[test]
fn an_empty_result_ignores_enter() {
    let mut picker = RefPicker::open(kind(), "Cluster", choices());
    for c in "zzz".chars() {
        picker.key(Key::Char(c));
    }
    assert!(picker.entries.is_empty());
    assert_eq!(picker.key(Key::Enter), Picked::Ignored);
    assert_eq!(picker.key(Key::Down), Picked::Moved);
    assert_eq!(picker.selected, 0);
}

#[test]
fn rows_that_land_later_refill_the_picker() {
    let mut picker = RefPicker::open(kind(), "Cluster", Vec::new());
    assert_eq!(picker.key(Key::Char('a')), Picked::Filtered);
    assert!(picker.entries.is_empty());
    picker.set_rows(choices());
    assert_eq!(
        picker.entries.iter().map(|c| c.name.as_str()).collect::<Vec<_>>(),
        vec!["alpha", "beta", "gamma"],
        "every name holds an 'a'"
    );
}

#[test]
fn a_kind_is_listed_once_per_form() {
    let fields = vec![cluster_field()];
    let mut form = Form::open("Migrate", &fields);
    assert!(form.first_listing_of("clustermgmt.config.Cluster"));
    assert!(!form.first_listing_of("clustermgmt.config.Cluster"));
    assert!(form.first_listing_of("clustermgmt.config.Host"), "another kind is its own");
}

#[test]
fn a_form_with_only_hidden_fields_still_submits() {
    let fields = vec![field("vmExtId", "", FieldType::Text, true, Some("$ext_id"), true)];
    let mut form = Form::open("Snapshot", &fields);
    assert!(form.fields.is_empty());
    assert_eq!(form.key(Key::Char('x')), Event::Ignored);
    assert_eq!(form.key(Key::Enter), Event::Submit);
    assert_eq!(form.key(Key::Esc), Event::Cancelled);
    assert_eq!(form.entered().len(), 0, "a hidden field is not collected");
}

#[test]
fn substitutions_are_not_offered() {
    let values = vec!["$ext_id".to_string(), "ON".to_string(), "OFF".to_string()];
    assert_eq!(offered(&values), vec!["ON".to_string(), "OFF".to_string()]);
}

#[test]
fn a_form_over_current_values_starts_from_them() {
    let fields = vec![field("name", "Name", FieldType::Text, false, None, false)];
    let current = vec![("name".to_string(), "web-1".to_string())];
    let form = Form::over("Update", &fields, Some(&current));
    assert_eq!(form.value("name"), "web-1");
    assert_eq!(form.entered(), vec![("name".to_string(), "web-1".to_string())]);
}
