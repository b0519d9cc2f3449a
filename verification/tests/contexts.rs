use nutsh_tui::contexts::{
    env_row_name, request, Action, ConnectRequest, ContextRow, Form, Login, Prompt, Screen, DEFAULT_PORT,
    PAGE,
};
use nutsh_tui::key::Key;
use nutsh_tui::text::Input;

fn row(name: &str, has_password: bool) -> ContextRow {
    ContextRow {
        name: name.into(),
        host: "pc.lab".into(),
        port: DEFAULT_PORT,
        username: "admin".into(),
        cluster: None,
        readonly: false,
        insecure: false,
        current: false,
        has_password,
    }
}

fn filled() -> Form {
    Form {
        name: Input::from_str("lab"),
        host: Input::from_str("pc.lab"),
        port: Input::from_str(&DEFAULT_PORT.to_string()),
        username: Input::from_str("admin"),
        password: Input::from_str("hunter2"),
        ..Form::new()
    }
}

#[test]
fn the_form_reports_the_first_thing_wrong_with_it() {
    let free = |_: &str| false;
    assert!(Form::new().submit(free) == Err("name: letters, digits, - _ . only".to_string()));
    assert!(filled().submit(|n: &str| n == "lab") == Err("context lab already exists".to_string()));
    let mut form = filled();
    form.host = Input::new();
    assert!(form.submit(free) == Err("host is required".to_string()));
    let mut form = filled();
    form.port = Input::from_str("abc");
    assert!(form.submit(free) == Err("port must be a number".to_string()));
    let mut form = filled();
    form.username = Input::new();
    assert!(form.submit(free) == Err("username is required".to_string()));
    let mut form = filled();
    form.password = Input::new();
    assert!(form.submit(free) == Err("password is required".to_string()));
}

#[test]
fn a_valid_form_becomes_a_new_context() {
    let mut form = filled();
    form.name = Input::from_str(" lab-1 ");
    form.insecure = true;
    let new = match form.submit(|_: &str| false) {
        Ok(new) => new,
        Err(e) => panic!("valid: {e}"),
    };
    assert_eq!(new.name, "lab-1");
    assert_eq!(new.port, DEFAULT_PORT);
    assert_eq!(new.cluster, None);
    assert_eq!(new.ca_bundle, None);
    assert!(new.insecure && !new.readonly);
}

#[test]
fn the_remove_confirmation_takes_exactly_one_key() {
    let mut screen = Screen {
        rows: vec![row("lab", true)],
        ..Screen::default()
    };
    assert!(screen.key(Key::Char('d')) == Action::Handled);
    assert_eq!(screen.confirm_remove.as_deref(), Some("lab"));
    assert!(screen.key(Key::Char('d')) == Action::Handled);
    assert_eq!(screen.confirm_remove, None);
    screen.key(Key::Char('d'));
    assert!(screen.key(Key::Char('y')) == Action::Remove("lab".into()));
    assert_eq!(screen.confirm_remove, None);
}

#[test]
fn a_request_says_where_the_password_comes_from() {
    assert!(request("lab", None) == ConnectRequest::Stored { name: "lab".into() });
    assert!(
        request("lab", Some("hunter2".into()))
            == ConnectRequest::Login {
                name: "lab".into(),
                password: "hunter2".into(),
            }
    );
    assert!(request(env_row_name(), None) == ConnectRequest::Env { password: None });
    let typed = Login {
        name: env_row_name().into(),
        password: Input::from_str("hunter2"),
        error: None,
    };
    assert!(
        typed.request()
            == ConnectRequest::Env {
                password: Some("hunter2".into()),
            }
    );
}

#[test]
fn the_env_row_is_not_a_saved_context() {
    let mut screen = Screen {
        rows: vec![row(env_row_name(), true)],
        ..Screen::default()
    };
    assert!(screen.key(Key::Char('d')) == Action::Handled);
    assert_eq!(screen.confirm_remove, None);
    assert!(screen.message.is_some());
    assert!(screen.key(Key::Enter) == Action::Connect(ConnectRequest::Env { password: None }, "pc.lab".into()));
}

#[test]
fn the_rows_jump_by_page_and_to_the_ends() {
    let mut screen = Screen {
        rows: (0..30).map(|i| row(&format!("ctx{i:02}"), true)).collect(),
        ..Screen::default()
    };
    assert!(screen.key(Key::Char('G')) == Action::Handled);
    assert_eq!(screen.selected, 29);
    screen.key(Key::Char('g'));
    assert_eq!(screen.selected, 0);
    screen.key(Key::PageDown);
    assert_eq!(screen.selected, PAGE);
    screen.key(Key::PageDown);
    assert_eq!(screen.selected, 29, "and no further than the last row");
    screen.key(Key::PageUp);
    assert_eq!(screen.selected, 29 - PAGE);
    screen.key(Key::PageUp);
    assert_eq!(screen.selected, 0, "nor before the first");
    screen.key(Key::End);
    assert_eq!(screen.selected, 29);
    screen.key(Key::Home);
    assert_eq!(screen.selected, 0);
}

#[test]
fn an_empty_screen_has_nothing_to_act_on() {
    let mut screen = Screen::default();
    for key in [Key::Char('j'), Key::Char('k'), Key::Enter, Key::Char('l'), Key::Char('d')] {
        assert!(screen.key(key) == Action::Handled, "{key:?}");
    }
    assert_eq!(screen.selected, 0);
    assert!(screen.prompt.is_none() && screen.confirm_remove.is_none());
}

#[test]
fn a_connect_in_flight_swallows_every_key() {
    let mut screen = Screen {
        rows: vec![row("lab", true)],
        pending: true,
        ..Screen::default()
    };
    assert!(screen.key(Key::Char('a')) == Action::Handled);
    assert!(screen.key(Key::Enter) == Action::Handled);
    assert!(screen.prompt.is_none());
    screen.prompt = Some(Prompt::Add(filled()));
    assert!(screen.form_key(Key::Enter) == Action::Handled);
    assert!(screen.form_key(Key::Backspace) == Action::Handled);
    let Some(Prompt::Add(form)) = screen.prompt.as_ref() else {
        panic!("the form is kept")
    };
    assert_eq!(form.password.as_str(), "hunter2");
}

#[test]
fn a_login_with_a_typed_password_connects_with_it() {
    let mut screen = Screen {
        rows: vec![row("lab", false)],
        ..Screen::default()
    };
    assert!(screen.key(Key::Enter) == Action::Opened);
    for c in "pw".chars() {
        screen.form_key(Key::Char(c));
    }
    assert!(
        screen.form_key(Key::Enter)
            == Action::Connect(
                ConnectRequest::Login {
                    name: "lab".into(),
                    password: "pw".into(),
                },
                "pc.lab".into(),
            )
    );
}

#[test]
fn the_taken_check_is_asked_about_the_trimmed_name_only_when_it_is_a_name() {
    let asked = std::cell::RefCell::new(Vec::new());
    let mut form = filled();
    form.name = Input::from_str("  lab-1 ");
    let _ = form.submit(|n: &str| {
        asked.borrow_mut().push(n.to_string());
        false
    });
    assert_eq!(*asked.borrow(), vec!["lab-1".to_string()]);
    form.name = Input::from_str("no spaces allowed");
    let _ = form.submit(|n: &str| {
        asked.borrow_mut().push(n.to_string());
        true
    });
    assert_eq!(asked.borrow().len(), 1, "an invalid name is refused before anyone is asked");
}
