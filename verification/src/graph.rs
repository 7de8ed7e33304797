//! The application graph: models, fields, relations, managers and settings that a
//! framework plugin extracts from a running project.

use vstd::prelude::*;
use std::collections::HashMap;
use crate::text::{eq_ignore_ascii_case, eq_ignore_ascii_case_spec, str_eq};

verus! {

/// The complete application graph.
#[derive(Debug, Clone)]
pub struct AppGraph {
    pub models: Vec<Model>,
    pub installed_apps: Vec<String>,
    pub settings: FrameworkSettings,
}

/// Framework-level settings extracted from the runtime.
#[derive(Debug, Clone)]
pub struct FrameworkSettings {
    /// The configured user model (e.g. "auth.User").
    pub auth_user_model: String,
    /// Configured database connections.
    pub databases: Vec<String>,
    /// Middleware/pipeline stack.
    pub middleware: Vec<String>,
    /// Framework-specific settings as key-value pairs.
    pub extra: HashMap<String, String>,
}

/// A model/entity in the application.
#[derive(Debug, Clone)]
pub struct Model {
    /// App or namespace (e.g. "auth").
    pub app_label: String,
    /// Model class name (e.g. "User").
    pub name: String,
    /// Database table name.
    pub db_table: String,
    /// Source module name.
    pub module: String,
    /// Source file path; empty if unknown.
    pub source_file: String,
    /// Whether this is an abstract base model.
    pub abstract_model: bool,
    /// Whether this is a proxy model.
    pub proxy: bool,
    /// Concrete fields on this model.
    pub fields: Vec<Field>,
    /// Relations (FK, O2O, M2M, reverse accessors).
    pub relations: Vec<Relation>,
    /// Managers, scopes or query builders.
    pub managers: Vec<Manager>,
    /// Parent class names.
    pub parents: Vec<String>,
    /// Public method names on the model class.
    pub methods: Vec<String>,
}

/// A concrete field on a model.
#[derive(Debug, Clone)]
pub struct Field {
    pub name: String,
    /// Database column name.
    pub column: String,
    /// Full field class path.
    pub field_class: String,
    /// The language-native type this field maps to.
    pub native_type: String,
    pub nullable: bool,
    pub blank: bool,
    pub default: Option<String>,
    pub max_length: Option<i64>,
    pub choices: Vec<(String, String)>,
    pub validators: Vec<String>,
    pub primary_key: bool,
    pub unique: bool,
    pub db_index: bool,
}

/// A relation between models.
#[derive(Debug, Clone)]
pub struct Relation {
    pub name: String,
    pub kind: RelationKind,
    /// Target model name.
    pub to_model: String,
    /// Target model's app/namespace.
    pub to_model_app: String,
    /// Reverse accessor name on the target model.
    pub related_name: String,
    /// Query name for filtering.
    pub related_query_name: String,
    /// Deletion behavior (e.g. "CASCADE").
    pub on_delete: Option<String>,
    pub nullable: bool,
    /// Intermediate model for many-to-many relations.
    pub through_model: Option<String>,
}

/// The kind of relation between models.
#[derive(Debug, Clone, Copy, PartialEq, Eq, Structural)]
pub enum RelationKind {
    /// ForeignKey / BelongsTo.
    ForeignKey,
    /// OneToOneField / HasOne.
    OneToOne,
    /// ManyToManyField / BelongsToMany.
    ManyToMany,
    /// Reverse foreign-key accessor.
    Reverse,
    /// Reverse one-to-one accessor.
    ReverseOneToOne,
}

/// A manager, scope, or query builder on a model.
#[derive(Debug, Clone)]
pub struct Manager {
    /// Name of the manager accessor (e.g. "objects").
    pub name: String,
    /// Full class path of the manager.
    pub manager_class: String,
    /// Full class path of the queryset class.
    pub queryset_class: String,
    pub is_default: bool,
    /// Custom methods defined on this manager.
    pub custom_methods: Vec<String>,
}

/// The index of the first element of `s` that satisfies `p`, if any.
pub open spec fn first_index<A>(s: Seq<A>, p: spec_fn(A) -> bool) -> Option<int>
    decreases s.len(),
{
    if s.len() == 0 {
        None
    } else if p(s[0]) {
        Some(0)
    } else {
        match first_index(s.drop_first(), p) {
            Some(i) => Some(i + 1),
            None => None,
        }
    }
}

/// The first element of `s` that satisfies `p`, if any.
pub open spec fn first_match<A>(s: Seq<A>, p: spec_fn(A) -> bool) -> Option<A> {
    match first_index(s, p) {
        Some(i) => Some(s[i]),
        None => None,
    }
}

/// `first_index` characterised by the elements before and at the index.
pub proof fn lemma_first_index<A>(s: Seq<A>, p: spec_fn(A) -> bool)
    ensures
        match first_index(s, p) {
            Some(i) => 0 <= i < s.len() && p(s[i]) && forall|j: int| 0 <= j < i ==> !p(#[trigger] s[j]),
            None => forall|j: int| 0 <= j < s.len() ==> !p(#[trigger] s[j]),
        },
    decreases s.len(),
{
    if s.len() > 0 {
        lemma_first_index(s.drop_first(), p);
        if !p(s[0]) {
            match first_index(s.drop_first(), p) {
                Some(i) => {
                    assert forall|j: int| 0 <= j < i + 1 implies !p(#[trigger] s[j]) by {
                        if j > 0 {
                            assert(s[j] == s.drop_first()[j - 1]);
                        }
                    }
                },
                None => {
                    assert forall|j: int| 0 <= j < s.len() implies !p(#[trigger] s[j]) by {
                        if j > 0 {
                            assert(s[j] == s.drop_first()[j - 1]);
                        }
                    }
                },
            }
        }
    }
}

/// The unique index that is `first_index`, from its characterisation.
pub proof fn lemma_first_index_is<A>(s: Seq<A>, p: spec_fn(A) -> bool, k: int)
    requires
        0 <= k <= s.len(),
        k < s.len() ==> p(s[k]),
        forall|j: int| 0 <= j < k ==> !p(#[trigger] s[j]),
    ensures
        first_index(s, p) == (if k < s.len() { Some(k) } else { None::<int> }),
{
    lemma_first_index(s, p);
    match first_index(s, p) {
        Some(i) => {
            if i < k {
                assert(!p(s[i]));
            }
            if k < i {
                assert(!p(s[k]));
            }
        },
        None => {
            if k < s.len() {
                assert(!p(s[k]));
            }
        },
    }
}

/// The referenced value, if any.
pub open spec fn deref_opt<A>(o: Option<&A>) -> Option<A> {
    match o {
        Some(a) => Some(*a),
        None => None,
    }
}

/// The first match is the head of the filtered sequence, and there is none
/// where the filter leaves nothing.
pub proof fn lemma_first_match_is_filter_head<A>(s: Seq<A>, p: spec_fn(A) -> bool)
    ensures
        first_match(s, p) == (if s.filter(p).len() > 0 { Some(s.filter(p)[0]) } else { None::<A> }),
    decreases s.len(),
{
    if s.len() > 0 {
        let dl = s.drop_last();
        lemma_first_match_is_filter_head(dl, p);
        lemma_first_index(dl, p);
        reveal_with_fuel(Seq::filter, 1);
        assert(s.filter(p) == (if p(s.last()) { dl.filter(p).push(s.last()) } else { dl.filter(p) }));
        match first_index(dl, p) {
            Some(i) => {
                assert forall|j: int| 0 <= j < i implies !p(#[trigger] s[j]) by {
                    assert(s[j] == dl[j]);
                }
                assert(s[i] == dl[i]);
                lemma_first_index_is(s, p, i);
            },
            None => {
                assert forall|j: int| 0 <= j < s.len() - 1 implies !p(#[trigger] s[j]) by {
                    assert(s[j] == dl[j]);
                }
                if p(s.last()) {
                    lemma_first_index_is(s, p, s.len() - 1);
                } else {
                    lemma_first_index_is(s, p, s.len() as int);
                }
            },
        }
    } else {
        reveal_with_fuel(Seq::filter, 1);
        lemma_first_index(s, p);
    }
}

/// The views of the referenced elements.
pub open spec fn derefs<A>(s: Seq<&A>) -> Seq<A> {
    s.map_values(|a: &A| *a)
}

/// The model matches an app label exactly and a name up to ASCII case.
pub open spec fn is_model(m: Model, app: Seq<char>, name: Seq<char>) -> bool {
    m.app_label@ == app && eq_ignore_ascii_case_spec(m.name@, name)
}

/// The model's name matches up to ASCII case.
pub open spec fn has_name(m: Model, name: Seq<char>) -> bool {
    eq_ignore_ascii_case_spec(m.name@, name)
}

/// The model belongs to the app.
pub open spec fn in_app(m: Model, app: Seq<char>) -> bool {
    m.app_label@ == app
}

/// The relation is a foreign key or one-to-one pointing at `app`.`name` (exact).
pub open spec fn points_to(r: Relation, app: Seq<char>, name: Seq<char>) -> bool {
    &&& r.to_model_app@ == app
    &&& r.to_model@ == name
    &&& (r.kind == RelationKind::ForeignKey || r.kind == RelationKind::OneToOne)
}

/// The model has a relation pointing at `app`.`name`.
pub open spec fn model_points_to(m: Model, app: Seq<char>, name: Seq<char>) -> bool {
    exists|i: int| 0 <= i < m.relations@.len() && points_to(#[trigger] m.relations@[i], app, name)
}

fn filter_models<'a>(models: &'a Vec<Model>, Ghost(p): Ghost<spec_fn(Model) -> bool>, exec_p: impl Fn(&Model) -> bool) -> (r: Vec<&'a Model>)
    requires
        forall|m: &Model| #[trigger] exec_p.requires((m,)),
        forall|m: &Model, b: bool| exec_p.ensures((m,), b) ==> b == p(*m),
    ensures
        derefs(r@) == models@.filter(p),
{
    let mut out: Vec<&'a Model> = Vec::new();
    let mut i: usize = 0;
    while i < models.len()
        invariant
            i <= models@.len(),
            forall|m: &Model| #[trigger] exec_p.requires((m,)),
            forall|m: &Model, b: bool| exec_p.ensures((m,), b) ==> b == p(*m),
            derefs(out@) == models@.take(i as int).filter(p),
        decreases models@.len() - i,
    {
        let keep = exec_p(&models[i]);
        let ghost before = out@;
        proof {
            reveal_with_fuel(Seq::filter, 1);
            assert(models@.take(i + 1).drop_last() == models@.take(i as int));
        }
        if keep {
            out.push(&models[i]);
            assert(derefs(out@) == derefs(before).push(models@[i as int]));
        }
        i = i + 1;
    }
    assert(models@.take(models@.len() as int) == models@);
    out
}

impl Default for FrameworkSettings {
    /// No user model, databases, middleware or extra settings.
    fn default() -> (r: FrameworkSettings)
        ensures
            r.auth_user_model@.len() == 0,
            r.databases@.len() == 0,
            r.middleware@.len() == 0,
            r.extra@.len() == 0,
    {
        FrameworkSettings { auth_user_model: String::new(), databases: Vec::new(), middleware: Vec::new(), extra: HashMap::new() }
    }
}

/// The graph left in force after a plugin's initialisation: the plugin's
/// graph where it holds at least one model, else the current one.
pub fn chosen_graph(current: AppGraph, candidate: AppGraph) -> (r: AppGraph)
    ensures
        r == (if candidate.models@.len() > 0 { candidate } else { current }),
{
    if candidate.models.len() > 0 {
        candidate
    } else {
        current
    }
}

impl Default for AppGraph {
    /// The empty graph: no models, no installed apps, default settings.
    fn default() -> (r: AppGraph)
        ensures
            r.models@.len() == 0,
            r.installed_apps@.len() == 0,
            r.settings.auth_user_model@.len() == 0,
            r.settings.databases@.len() == 0,
            r.settings.middleware@.len() == 0,
            r.settings.extra@.len() == 0,
    {
        AppGraph { models: Vec::new(), installed_apps: Vec::new(), settings: FrameworkSettings::default() }
    }
}

impl AppGraph {
    /// Look up a model by app + name (case-insensitive on name): the first that matches.
    pub fn get_model(&self, app: &str, name: &str) -> (r: Option<&Model>)
        ensures
            deref_opt(r) == first_match(self.models@, |m: Model| is_model(m, app@, name@)),
    {
        let ghost p = |m: Model| is_model(m, app@, name@);
        let mut i: usize = 0;
        while i < self.models.len()
            invariant
                p == (|m: Model| is_model(m, app@, name@)),
                i <= self.models@.len(),
                forall|j: int| 0 <= j < i ==> !p(#[trigger] self.models@[j]),
            decreases self.models@.len() - i,
        {
            let m = &self.models[i];
            if str_eq(m.app_label.as_str(), app) && eq_ignore_ascii_case(m.name.as_str(), name) {
                proof { lemma_first_index_is(self.models@, p, i as int); }
                return Some(m);
            }
            i = i + 1;
        }
        proof { lemma_first_index_is(self.models@, p, i as int); }
        None
    }

    /// Find a model by name only (first match, case-insensitive).
    pub fn find_model_by_name(&self, name: &str) -> (r: Option<&Model>)
        ensures
            deref_opt(r) == first_match(self.models@, |m: Model| has_name(m, name@)),
    {
        let ghost p = |m: Model| has_name(m, name@);
        let mut i: usize = 0;
        while i < self.models.len()
            invariant
                p == (|m: Model| has_name(m, name@)),
                i <= self.models@.len(),
                forall|j: int| 0 <= j < i ==> !p(#[trigger] self.models@[j]),
            decreases self.models@.len() - i,
        {
            let m = &self.models[i];
            if eq_ignore_ascii_case(m.name.as_str(), name) {
                proof { lemma_first_index_is(self.models@, p, i as int); }
                return Some(m);
            }
            i = i + 1;
        }
        proof { lemma_first_index_is(self.models@, p, i as int); }
        None
    }

    /// All models with a given name (case-insensitive), in order.
    pub fn find_models_by_name(&self, name: &str) -> (r: Vec<&Model>)
        ensures
            derefs(r@) == self.models@.filter(|m: Model| has_name(m, name@)),
    {
        filter_models(&self.models, Ghost(|m: Model| has_name(m, name@)), |m: &Model| -> (b: bool)
            ensures b == has_name(*m, name@)
            { eq_ignore_ascii_case(m.name.as_str(), name) })
    }

    /// The lookup of one model by name gives the first model that the lookup
    /// of all models by that name lists, and none where that list is empty.
    pub proof fn lemma_lookup_is_first_listed(self, name: Seq<char>)
        ensures
            first_match(self.models@, |m: Model| has_name(m, name)) == (if self.models@.filter(|m: Model| has_name(m, name)).len() > 0 {
                Some(self.models@.filter(|m: Model| has_name(m, name))[0])
            } else {
                None::<Model>
            }),
    {
        lemma_first_match_is_filter_head(self.models@, |m: Model| has_name(m, name));
    }

    /// All models in a given app, in order.
    pub fn models_in_app(&self, app: &str) -> (r: Vec<&Model>)
        ensures
            derefs(r@) == self.models@.filter(|m: Model| in_app(m, app@)),
    {
        filter_models(&self.models, Ghost(|m: Model| in_app(m, app@)), |m: &Model| -> (b: bool)
            ensures b == in_app(*m, app@)
            { str_eq(m.app_label.as_str(), app) })
    }

    /// All models that have a foreign key or one-to-one relation pointing at `app`.`name`.
    pub fn models_pointing_to(&self, app: &str, name: &str) -> (r: Vec<&Model>)
        ensures
            derefs(r@) == self.models@.filter(|m: Model| model_points_to(m, app@, name@)),
    {
        filter_models(&self.models, Ghost(|m: Model| model_points_to(m, app@, name@)), |m: &Model| -> (b: bool)
            ensures b == model_points_to(*m, app@, name@)
            { m.has_relation_to(app, name) })
    }
}

impl Model {
    fn has_relation_to(&self, app: &str, name: &str) -> (b: bool)
        ensures
            b == model_points_to(*self, app@, name@),
    {
        let mut i: usize = 0;
        while i < self.relations.len()
            invariant
                i <= self.relations@.len(),
                forall|j: int| 0 <= j < i ==> !points_to(#[trigger] self.relations@[j], app@, name@),
            decreases self.relations@.len() - i,
        {
            let r = &self.relations[i];
            let kind_ok = match r.kind {
                RelationKind::ForeignKey | RelationKind::OneToOne => true,
                _ => false,
            };
            if str_eq(r.to_model_app.as_str(), app) && str_eq(r.to_model.as_str(), name) && kind_ok {
                return true;
            }
            i = i + 1;
        }
        false
    }

    /// Whether this model defines a method with the given name.
    pub fn has_method(&self, name: &str) -> (b: bool)
        ensures
            b == exists|i: int| 0 <= i < self.methods@.len() && (#[trigger] self.methods@[i])@ == name@,
    {
        let mut i: usize = 0;
        while i < self.methods.len()
            invariant
                i <= self.methods@.len(),
                forall|j: int| 0 <= j < i ==> (#[trigger] self.methods@[j])@ != name@,
            decreases self.methods@.len() - i,
        {
            if str_eq(self.methods[i].as_str(), name) {
                return true;
            }
            i = i + 1;
        }
        false
    }

    /// The first field with the given name.
    pub fn get_field(&self, name: &str) -> (r: Option<&Field>)
        ensures
            deref_opt(r) == first_match(self.fields@, |f: Field| f.name@ == name@),
    {
        let ghost p = |f: Field| f.name@ == name@;
        let mut i: usize = 0;
        while i < self.fields.len()
            invariant
                p == (|f: Field| f.name@ == name@),
                i <= self.fields@.len(),
                forall|j: int| 0 <= j < i ==> !p(#[trigger] self.fields@[j]),
            decreases self.fields@.len() - i,
        {
            if str_eq(self.fields[i].name.as_str(), name) {
                proof { lemma_first_index_is(self.fields@, p, i as int); }
                return Some(&self.fields[i]);
            }
            i = i + 1;
        }
        proof { lemma_first_index_is(self.fields@, p, i as int); }
        None
    }

    /// The first relation with the given name.
    pub fn get_relation(&self, name: &str) -> (r: Option<&Relation>)
        ensures
            deref_opt(r) == first_match(self.relations@, |x: Relation| x.name@ == name@),
    {
        let ghost p = |x: Relation| x.name@ == name@;
        let mut i: usize = 0;
        while i < self.relations.len()
            invariant
                p == (|x: Relation| x.name@ == name@),
                i <= self.relations@.len(),
                forall|j: int| 0 <= j < i ==> !p(#[trigger] self.relations@[j]),
            decreases self.relations@.len() - i,
        {
            if str_eq(self.relations[i].name.as_str(), name) {
                proof { lemma_first_index_is(self.relations@, p, i as int); }
                return Some(&self.relations[i]);
            }
            i = i + 1;
        }
        proof { lemma_first_index_is(self.relations@, p, i as int); }
        None
    }

    /// The names of all concrete fields, then of all relations.
    pub open spec fn all_field_names_spec(self) -> Seq<Seq<char>> {
        self.fields@.map_values(|f: Field| f.name@) + self.relations@.map_values(|r: Relation| r.name@)
    }

    /// All field names: concrete fields first, then relations.
    pub fn all_field_names(&self) -> (r: Vec<&str>)
        ensures
            r@.map_values(|s: &str| s@) == self.all_field_names_spec(),
    {
        let mut out: Vec<&str> = Vec::new();
        let mut i: usize = 0;
        while i < self.fields.len()
            invariant
                i <= self.fields@.len(),
                out@.map_values(|s: &str| s@) == self.fields@.take(i as int).map_values(|f: Field| f.name@),
            decreases self.fields@.len() - i,
        {
            let ghost before = out@;
            out.push(self.fields[i].name.as_str());
            proof {
                assert(self.fields@.take(i + 1) == self.fields@.take(i as int).push(self.fields@[i as int]));
                assert(out@.map_values(|s: &str| s@) == before.map_values(|s: &str| s@).push(self.fields@[i as int].name@));
            }
            i = i + 1;
        }
        assert(self.fields@.take(self.fields@.len() as int) == self.fields@);
        let ghost nf = self.fields@.map_values(|f: Field| f.name@);
        let mut k: usize = 0;
        while k < self.relations.len()
            invariant
                k <= self.relations@.len(),
                nf == self.fields@.map_values(|f: Field| f.name@),
                out@.map_values(|s: &str| s@) == nf + self.relations@.take(k as int).map_values(|r: Relation| r.name@),
            decreases self.relations@.len() - k,
        {
            let ghost before = out@;
            out.push(self.relations[k].name.as_str());
            proof {
                assert(self.relations@.take(k + 1) == self.relations@.take(k as int).push(self.relations@[k as int]));
                assert(out@.map_values(|s: &str| s@) == before.map_values(|s: &str| s@).push(self.relations@[k as int].name@));
            }
            k = k + 1;
        }
        assert(self.relations@.take(self.relations@.len() as int) == self.relations@);
        out
    }

    /// Whether a field or a relation has this name.
    pub fn has_field_or_relation(&self, name: &str) -> (b: bool)
        ensures
            b == ((exists|i: int| 0 <= i < self.fields@.len() && (#[trigger] self.fields@[i]).name@ == name@)
                || (exists|i: int| 0 <= i < self.relations@.len() && (#[trigger] self.relations@[i]).name@ == name@)),
    {
        let f = self.get_field(name);
        let r = self.get_relation(name);
        proof {
            lemma_first_index(self.fields@, |f: Field| f.name@ == name@);
            lemma_first_index(self.relations@, |x: Relation| x.name@ == name@);
        }
        f.is_some() || r.is_some()
    }

    /// The manager marked default, or else the first manager.
    pub fn default_manager(&self) -> (r: Option<&Manager>)
        ensures
            deref_opt(r) == (match first_match(self.managers@, |m: Manager| m.is_default) {
                Some(m) => Some(m),
                None => if self.managers@.len() > 0 { Some(self.managers@[0]) } else { None },
            }),
    {
        let ghost p = |m: Manager| m.is_default;
        let mut i: usize = 0;
        while i < self.managers.len()
            invariant
                p == (|m: Manager| m.is_default),
                i <= self.managers@.len(),
                forall|j: int| 0 <= j < i ==> !p(#[trigger] self.managers@[j]),
            decreases self.managers@.len() - i,
        {
            if self.managers[i].is_default {
                proof { lemma_first_index_is(self.managers@, p, i as int); }
                return Some(&self.managers[i]);
            }
            i = i + 1;
        }
        proof { lemma_first_index_is(self.managers@, p, i as int); }
        if self.managers.len() > 0 {
            Some(&self.managers[0])
        } else {
            None
        }
    }
}

} // verus!
