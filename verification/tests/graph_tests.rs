use thorn::graph::{AppGraph, Field, Manager, Model, Relation, RelationKind};

fn field(name: &str) -> Field {
    Field {
        name: name.to_string(),
        column: name.to_string(),
        field_class: "CharField".to_string(),
        native_type: "str".to_string(),
        nullable: false,
        blank: false,
        default: None,
        max_length: Some(10),
        choices: vec![],
        validators: vec![],
        primary_key: false,
        unique: false,
        db_index: false,
    }
}

fn relation(name: &str, kind: RelationKind, app: &str, to: &str) -> Relation {
    Relation {
        name: name.to_string(),
        kind,
        to_model: to.to_string(),
        to_model_app: app.to_string(),
        related_name: String::new(),
        related_query_name: String::new(),
        on_delete: None,
        nullable: false,
        through_model: None,
    }
}

fn manager(name: &str, is_default: bool) -> Manager {
    Manager {
        name: name.to_string(),
        manager_class: "M".to_string(),
        queryset_class: "Q".to_string(),
        is_default,
        custom_methods: vec![],
    }
}

fn model(app: &str, name: &str) -> Model {
    Model {
        app_label: app.to_string(),
        name: name.to_string(),
        db_table: format!("{app}_{name}"),
        module: format!("{app}.models"),
        source_file: String::new(),
        abstract_model: false,
        proxy: false,
        fields: vec![],
        relations: vec![],
        managers: vec![],
        parents: vec![],
        methods: vec![],
    }
}

fn sample_graph() -> AppGraph {
    let user = model("auth", "User");
    let mut book = model("library", "Book");
    book.fields = vec![field("title"), field("isbn")];
    book.relations = vec![
        relation("author", RelationKind::ForeignKey, "auth", "User"),
        relation("tags", RelationKind::ManyToMany, "library", "Tag"),
    ];
    book.methods = vec!["save".to_string(), "publish".to_string()];
    book.managers = vec![manager("objects", false), manager("published", true)];
    let mut profile = model("accounts", "Profile");
    profile.relations = vec![relation("user", RelationKind::OneToOne, "auth", "User")];
    let mut fan = model("accounts", "Fan");
    fan.relations = vec![relation("idols", RelationKind::ManyToMany, "auth", "User")];
    let other_user = model("legacy", "user");
    let mut g = AppGraph::default();
    g.models = vec![user, book, profile, fan, other_user];
    g
}

#[test]
fn graph_lookup_by_app_and_name() {
    let g = sample_graph();
    assert_eq!(g.get_model("auth", "user").unwrap().name, "User");
    assert_eq!(g.get_model("library", "BOOK").unwrap().app_label, "library");
    assert!(g.get_model("Auth", "User").is_none());
    assert!(g.get_model("auth", "Book").is_none());
}

#[test]
fn graph_lookup_by_name() {
    let g = sample_graph();
    assert_eq!(g.find_model_by_name("USER").unwrap().app_label, "auth");
    let users: Vec<&str> = g.find_models_by_name("user").iter().map(|m| m.app_label.as_str()).collect();
    assert_eq!(users, vec!["auth", "legacy"]);
    assert!(g.find_model_by_name("Nothing").is_none());
}

#[test]
fn single_lookup_is_first_of_list_lookup() {
    let g = sample_graph();
    for name in ["user", "USER", "book", "Nothing", ""] {
        let one = g.find_model_by_name(name).map(|m| (m.app_label.clone(), m.name.clone()));
        let first = g.find_models_by_name(name).first().map(|m| (m.app_label.clone(), m.name.clone()));
        assert_eq!(one, first);
    }
}

#[test]
fn graph_models_in_app_and_pointing_to() {
    let g = sample_graph();
    let accounts: Vec<&str> = g.models_in_app("accounts").iter().map(|m| m.name.as_str()).collect();
    assert_eq!(accounts, vec!["Profile", "Fan"]);
    let pointing: Vec<&str> = g.models_pointing_to("auth", "User").iter().map(|m| m.name.as_str()).collect();
    assert_eq!(pointing, vec!["Book", "Profile"]);
    assert!(g.models_pointing_to("auth", "user").is_empty());
}

#[test]
fn model_fields_relations_and_methods() {
    let g = sample_graph();
    let book = g.get_model("library", "Book").unwrap();
    assert!(book.has_method("publish"));
    assert!(!book.has_method("Publish"));
    assert_eq!(book.get_field("isbn").unwrap().column, "isbn");
    assert!(book.get_field("author").is_none());
    assert_eq!(book.get_relation("author").unwrap().kind, RelationKind::ForeignKey);
    assert_eq!(book.all_field_names(), vec!["title", "isbn", "author", "tags"]);
    assert!(book.has_field_or_relation("tags"));
    assert!(book.has_field_or_relation("title"));
    assert!(!book.has_field_or_relation("missing"));
}

#[test]
fn model_default_manager() {
    let g = sample_graph();
    let book = g.get_model("library", "Book").unwrap();
    assert_eq!(book.default_manager().unwrap().name, "published");
    let mut plain = model("x", "Y");
    assert!(plain.default_manager().is_none());
    plain.managers = vec![manager("first", false), manager("second", false)];
    assert_eq!(plain.default_manager().unwrap().name, "first");
}
