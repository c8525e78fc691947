//! The declarative description of the data model, and the rules that a
//! description has to meet before the gateway serves it.

use vstd::prelude::*;

verus! {

/// The first version of the description format.
pub const FIRST_VERSION: i32 = 1;

/// The latest version of the description format.
pub const LATEST_VERSION: i32 = 2;

/// A typed property of a model.
#[derive(Debug, Clone, PartialEq, Eq)]
pub struct Property {
    pub name: String,
    pub kind: String,
}

/// A relationship of a model to one or more models, each given by name.
#[derive(Debug, Clone, PartialEq, Eq)]
pub struct Relationship {
    pub name: String,
    pub targets: Vec<String>,
    pub is_list: bool,
}

/// One model of the description.
#[derive(Debug, Clone, PartialEq, Eq)]
pub struct Model {
    pub name: String,
    pub properties: Vec<Property>,
    pub relationships: Vec<Relationship>,
}

/// A description of the data model: a version and the models in the order
/// in which they were written.
#[derive(Debug, Clone, PartialEq, Eq)]
pub struct Configuration {
    pub version: i32,
    pub models: Vec<Model>,
}

/// Why a description is not served.
#[derive(Debug, Clone, PartialEq, Eq)]
pub enum ConfigError {
    /// The source is no description at all.
    Malformed,
    /// The description is of a version that is not served.
    UnsupportedVersion { version: i32 },
    /// Two models have this name.
    DuplicateModelName { model: String },
    /// This relationship of this model names a model that is not declared.
    DanglingRelationshipTarget { model: String, relationship: String, target: String },
}

/// What a property says.
pub struct PropertyView {
    pub name: Seq<char>,
    pub kind: Seq<char>,
}

/// What a relationship says.
pub struct RelationshipView {
    pub name: Seq<char>,
    pub targets: Seq<Seq<char>>,
    pub is_list: bool,
}

/// What a model says.
pub struct ModelView {
    pub name: Seq<char>,
    pub properties: Seq<PropertyView>,
    pub relationships: Seq<RelationshipView>,
}

/// What a description says.
pub struct ConfigurationView {
    pub version: int,
    pub models: Seq<ModelView>,
}

/// The target names of a relationship, as text.
pub open spec fn target_names(targets: Seq<String>) -> Seq<Seq<char>> {
    Seq::new(targets.len(), |i: int| targets[i]@)
}

/// What each property of a model says.
pub open spec fn property_views(properties: Seq<Property>) -> Seq<PropertyView> {
    Seq::new(properties.len(), |i: int| properties[i]@)
}

/// What each relationship of a model says.
pub open spec fn relationship_views(relationships: Seq<Relationship>) -> Seq<RelationshipView> {
    Seq::new(relationships.len(), |i: int| relationships[i]@)
}

/// What each model of a description says.
pub open spec fn model_views(models: Seq<Model>) -> Seq<ModelView> {
    Seq::new(models.len(), |i: int| models[i]@)
}

impl View for Property {
    type V = PropertyView;

    open spec fn view(&self) -> PropertyView {
        PropertyView { name: self.name@, kind: self.kind@ }
    }
}

impl View for Relationship {
    type V = RelationshipView;

    open spec fn view(&self) -> RelationshipView {
        RelationshipView {
            name: self.name@,
            targets: target_names(self.targets@),
            is_list: self.is_list,
        }
    }
}

impl View for Model {
    type V = ModelView;

    open spec fn view(&self) -> ModelView {
        ModelView {
            name: self.name@,
            properties: property_views(self.properties@),
            relationships: relationship_views(self.relationships@),
        }
    }
}

impl View for Configuration {
    type V = ConfigurationView;

    open spec fn view(&self) -> ConfigurationView {
        ConfigurationView { version: self.version as int, models: model_views(self.models@) }
    }
}

/// Some model is called `name`.
pub open spec fn declares(models: Seq<ModelView>, name: Seq<char>) -> bool {
    exists|i: int| 0 <= i < models.len() && (#[trigger] models[i]).name == name
}

/// No two models share a name.
pub open spec fn names_unique(models: Seq<ModelView>) -> bool {
    forall|i: int, j: int|
        0 <= i < j < models.len() ==> (#[trigger] models[i]).name != (#[trigger] models[j]).name
}

/// Model `j` is the first whose name an earlier model has already.
pub open spec fn first_duplicate(models: Seq<ModelView>, j: int) -> bool {
    &&& 0 <= j < models.len()
    &&& names_unique(models.take(j))
    &&& declares(models.take(j), models[j].name)
}

/// `(m, r, t)` is the place of a target name: model, relationship, target.
pub open spec fn is_place(models: Seq<ModelView>, m: int, r: int, t: int) -> bool {
    &&& 0 <= m < models.len()
    &&& 0 <= r < models[m].relationships.len()
    &&& 0 <= t < models[m].relationships[r].targets.len()
}

/// The target name at a place.
pub open spec fn target_at(models: Seq<ModelView>, m: int, r: int, t: int) -> Seq<char> {
    models[m].relationships[r].targets[t]
}

/// The target name at a place is the name of a declared model.
pub open spec fn resolves_at(models: Seq<ModelView>, m: int, r: int, t: int) -> bool {
    declares(models, target_at(models, m, r, t))
}

/// Every target name is the name of a declared model.
pub open spec fn targets_resolve(models: Seq<ModelView>) -> bool {
    forall|m: int, r: int, t: int| #[trigger]
        is_place(models, m, r, t) ==> resolves_at(models, m, r, t)
}

/// The first place comes before the second in the order of the description.
pub open spec fn comes_before(m: int, r: int, t: int, m2: int, r2: int, t2: int) -> bool {
    m < m2 || (m == m2 && (r < r2 || (r == r2 && t < t2)))
}

/// `(m, r, t)` is the first place whose target name is not declared.
pub open spec fn first_dangling(models: Seq<ModelView>, m: int, r: int, t: int) -> bool {
    &&& is_place(models, m, r, t)
    &&& !resolves_at(models, m, r, t)
    &&& forall|a: int, b: int, c: int| #[trigger]
        is_place(models, a, b, c) && comes_before(a, b, c, m, r, t) ==> resolves_at(
            models,
            a,
            b,
            c,
        )
}

/// Descriptions of this version are served: the first version of the format
/// and the latest, and no other.
pub open spec fn version_served(version: int) -> bool {
    version == FIRST_VERSION || version == LATEST_VERSION
}

/// The description meets every rule: it is of a served version, no two
/// of its models share a name, and every relationship target is declared.
pub open spec fn valid(config: ConfigurationView) -> bool {
    &&& version_served(config.version)
    &&& names_unique(config.models)
    &&& targets_resolve(config.models)
}

/// What validation answers for a description. The rules are held in order:
/// the version, the uniqueness of the model names, the relationship targets.
/// The first rule that is broken gives the error, which names the first
/// offender; a description that breaks none is handed back whole.
pub open spec fn validation_result(
    config: Configuration,
    result: Result<Configuration, ConfigError>,
) -> bool {
    match result {
        Ok(accepted) => valid(config@) && accepted == config,
        Err(ConfigError::Malformed) => false,
        Err(ConfigError::UnsupportedVersion { version }) => {
            &&& !version_served(config@.version)
            &&& version == config@.version
        },
        Err(ConfigError::DuplicateModelName { model }) => {
            &&& version_served(config@.version)
            &&& exists|j: int| #[trigger]
                first_duplicate(config@.models, j) && model@ == config@.models[j].name
        },
        Err(ConfigError::DanglingRelationshipTarget { model, relationship, target }) => {
            &&& version_served(config@.version)
            &&& names_unique(config@.models)
            &&& exists|m: int, r: int, t: int| #[trigger]
                first_dangling(config@.models, m, r, t) && model@ == config@.models[m].name
                    && relationship@ == config@.models[m].relationships[r].name && target@
                    == target_at(config@.models, m, r, t)
        },
    }
}

/// What the models say is what each of them says, place by place.
pub proof fn lemma_views_follow_the_models(models: Seq<Model>)
    ensures
        model_views(models).len() == models.len(),
        forall|m: int|
            0 <= m < models.len() ==> {
                &&& (#[trigger] model_views(models)[m]).name == models[m].name@
                &&& model_views(models)[m].relationships.len() == models[m].relationships@.len()
            },
        forall|m: int, r: int|
            0 <= m < models.len() && 0 <= r < models[m].relationships@.len() ==> {
                &&& (#[trigger] model_views(models)[m].relationships[r]).name
                    == models[m].relationships@[r].name@
                &&& model_views(models)[m].relationships[r].targets.len()
                    == models[m].relationships@[r].targets@.len()
            },
        forall|m: int, r: int, t: int|
            0 <= m < models.len() && 0 <= r < models[m].relationships@.len() && 0 <= t
                < models[m].relationships@[r].targets@.len() ==> (
            #[trigger] model_views(models)[m].relationships[r].targets[t])
                == models[m].relationships@[r].targets@[t]@,
{
    assert forall|m: int, r: int|
        0 <= m < models.len() && 0 <= r < models[m].relationships@.len() implies {
        &&& (#[trigger] model_views(models)[m].relationships[r]).name
            == models[m].relationships@[r].name@
        &&& model_views(models)[m].relationships[r].targets.len()
            == models[m].relationships@[r].targets@.len()
    } by {
        assert(model_views(models)[m] == models[m]@);
        assert(relationship_views(models[m].relationships@)[r] == models[m].relationships@[r]@);
    }
    assert forall|m: int, r: int, t: int|
        0 <= m < models.len() && 0 <= r < models[m].relationships@.len() && 0 <= t
            < models[m].relationships@[r].targets@.len() implies (
    #[trigger] model_views(models)[m].relationships[r].targets[t])
        == models[m].relationships@[r].targets@[t]@ by {
        assert(model_views(models)[m] == models[m]@);
        assert(relationship_views(models[m].relationships@)[r] == models[m].relationships@[r]@);
        assert(target_names(models[m].relationships@[r].targets@)[t]
            == models[m].relationships@[r].targets@[t]@);
    }
}

/// Whether one of the first `upto` models is called `name`.
fn declared_among(models: &Vec<Model>, upto: usize, name: &String) -> (found: bool)
    requires
        upto <= models.len(),
    ensures
        found == declares(model_views(models@).take(upto as int), name@),
{
    let ghost views = model_views(models@);
    let mut i: usize = 0;
    while i < upto
        invariant
            i <= upto <= models.len(),
            views == model_views(models@),
            forall|k: int| 0 <= k < i ==> (#[trigger] views[k]).name != name@,
        decreases upto - i,
    {
        if models[i].name == *name {
            assert(views.take(upto as int)[i as int].name == name@);
            return true;
        }
        i += 1;
    }
    assert forall|k: int| 0 <= k < views.take(upto as int).len() implies (#[trigger] views.take(
        upto as int,
    )[k]).name != name@ by {
        assert(views.take(upto as int)[k] == views[k]);
    }
    false
}

/// Whether a model of this name is declared.
pub fn declares_name(models: &Vec<Model>, name: &String) -> (found: bool)
    ensures
        found == declares(model_views(models@), name@),
{
    assert(model_views(models@).take(models.len() as int) =~= model_views(models@));
    declared_among(models, models.len(), name)
}

/// The first model whose name an earlier model has already, if there is one.
pub fn find_duplicate(models: &Vec<Model>) -> (found: Option<usize>)
    ensures
        match found {
            Some(j) => first_duplicate(model_views(models@), j as int),
            None => names_unique(model_views(models@)),
        },
{
    let ghost views = model_views(models@);
    let mut j: usize = 0;
    while j < models.len()
        invariant
            j <= models.len(),
            views == model_views(models@),
            names_unique(views.take(j as int)),
        decreases models.len() - j,
    {
        if declared_among(models, j, &models[j].name) {
            return Some(j);
        }
        proof {
            let shorter = views.take(j as int);
            let longer = views.take(j + 1);
            assert forall|a: int, b: int| 0 <= a < b < longer.len() implies (#[trigger] longer[a]).name
                != (#[trigger] longer[b]).name by {
                assert(longer[a] == shorter[a]);
                if b < j {
                    assert(longer[b] == shorter[b]);
                } else {
                    assert(longer[b] == views[j as int]);
                }
            }
        }
        j += 1;
    }
    assert(views.take(models.len() as int) =~= views);
    None
}

/// The first target of one relationship that names no declared model.
fn unresolved_in_relationship(models: &Vec<Model>, m: usize, r: usize) -> (found: Option<usize>)
    requires
        m < models.len(),
        r < models[m as int].relationships@.len(),
    ensures
        match found {
            Some(t) => {
                &&& is_place(model_views(models@), m as int, r as int, t as int)
                &&& !resolves_at(model_views(models@), m as int, r as int, t as int)
                &&& forall|c: int|
                    0 <= c < t ==> #[trigger] resolves_at(
                        model_views(models@),
                        m as int,
                        r as int,
                        c,
                    )
            },
            None => forall|c: int| #[trigger]
                is_place(model_views(models@), m as int, r as int, c) ==> resolves_at(
                    model_views(models@),
                    m as int,
                    r as int,
                    c,
                ),
        },
{
    let ghost views = model_views(models@);
    proof {
        lemma_views_follow_the_models(models@);
    }
    let targets = &models[m].relationships[r].targets;
    let mut t: usize = 0;
    while t < targets.len()
        invariant
            m < models.len(),
            r < models[m as int].relationships@.len(),
            targets == &models[m as int].relationships@[r as int].targets,
            views == model_views(models@),
            views[m as int].relationships[r as int].targets.len() == targets@.len(),
            forall|c: int|
                0 <= c < targets@.len() ==> (
                #[trigger] views[m as int].relationships[r as int].targets[c]) == targets@[c]@,
            t <= targets.len(),
            forall|c: int| 0 <= c < t ==> #[trigger] resolves_at(views, m as int, r as int, c),
        decreases targets.len() - t,
    {
        if !declares_name(models, &targets[t]) {
            assert(views[m as int].relationships[r as int].targets[t as int] == targets@[t as int]@);
            return Some(t);
        }
        assert(views[m as int].relationships[r as int].targets[t as int] == targets@[t as int]@);
        t += 1;
    }
    None
}

/// The first target of one model that names no declared model: its
/// relationship and its place among that relationship's targets.
fn unresolved_in_model(models: &Vec<Model>, m: usize) -> (found: Option<(usize, usize)>)
    requires
        m < models.len(),
    ensures
        match found {
            Some((r, t)) => {
                &&& is_place(model_views(models@), m as int, r as int, t as int)
                &&& !resolves_at(model_views(models@), m as int, r as int, t as int)
                &&& forall|b: int, c: int| #[trigger]
                    is_place(model_views(models@), m as int, b, c) && (b < r || (b == r && c < t))
                        ==> resolves_at(model_views(models@), m as int, b, c)
            },
            None => forall|b: int, c: int| #[trigger]
                is_place(model_views(models@), m as int, b, c) ==> resolves_at(
                    model_views(models@),
                    m as int,
                    b,
                    c,
                ),
        },
{
    let ghost views = model_views(models@);
    proof {
        lemma_views_follow_the_models(models@);
    }
    let relationships = &models[m].relationships;
    let mut r: usize = 0;
    while r < relationships.len()
        invariant
            m < models.len(),
            relationships == &models[m as int].relationships,
            views == model_views(models@),
            views[m as int].relationships.len() == relationships@.len(),
            r <= relationships.len(),
            forall|b: int, c: int| #[trigger]
                is_place(views, m as int, b, c) && b < r ==> resolves_at(views, m as int, b, c),
        decreases relationships.len() - r,
    {
        match unresolved_in_relationship(models, m, r) {
            Some(t) => {
                return Some((r, t));
            },
            None => {},
        }
        r += 1;
    }
    None
}

/// The first place in the description whose target names no declared model.
pub fn find_dangling(models: &Vec<Model>) -> (found: Option<(usize, usize, usize)>)
    ensures
        match found {
            Some((m, r, t)) => first_dangling(model_views(models@), m as int, r as int, t as int),
            None => targets_resolve(model_views(models@)),
        },
{
    let ghost views = model_views(models@);
    let mut m: usize = 0;
    while m < models.len()
        invariant
            m <= models.len(),
            views == model_views(models@),
            views.len() == models.len(),
            forall|a: int, b: int, c: int| #[trigger]
                is_place(views, a, b, c) && a < m ==> resolves_at(views, a, b, c),
        decreases models.len() - m,
    {
        match unresolved_in_model(models, m) {
            Some((r, t)) => {
                return Some((m, r, t));
            },
            None => {},
        }
        m += 1;
    }
    None
}

/// Whether descriptions of this version are served.
pub fn is_version_served(version: i32) -> (served: bool)
    ensures
        served == version_served(version as int),
{
    version == FIRST_VERSION || version == LATEST_VERSION
}

/// Holds a description to the rules, in order: the version, the uniqueness
/// of the model names, the relationship targets. Nothing is dropped or
/// mended: the description comes back as it was given, or not at all.
pub fn validate(config: Configuration) -> (result: Result<Configuration, ConfigError>)
    ensures
        validation_result(config, result),
{
    proof {
        lemma_views_follow_the_models(config.models@);
    }
    if !is_version_served(config.version) {
        return Err(ConfigError::UnsupportedVersion { version: config.version });
    }
    match find_duplicate(&config.models) {
        Some(j) => {
            let model = config.models[j].name.clone();
            assert(first_duplicate(config@.models, j as int) && model@ == config@.models[j as int].name);
            return Err(ConfigError::DuplicateModelName { model });
        },
        None => {},
    }
    match find_dangling(&config.models) {
        Some((m, r, t)) => {
            let model = &config.models[m];
            let relationship = &model.relationships[r];
            return Err(
                ConfigError::DanglingRelationshipTarget {
                    model: model.name.clone(),
                    relationship: relationship.name.clone(),
                    target: relationship.targets[t].clone(),
                },
            );
        },
        None => {},
    }
    Ok(config)
}

/// What loading answers for a source that was read: `Malformed` where it
/// held no description, else what validation answers for the description.
pub open spec fn load_result(
    parsed: Option<Configuration>,
    result: Result<Configuration, ConfigError>,
) -> bool {
    match parsed {
        None => result is Err && result->Err_0 is Malformed,
        Some(config) => validation_result(config, result),
    }
}

/// Loads a description from the outcome of the structural parse of its
/// source. Running it again on the same input gives the same answer.
pub fn load(parsed: Option<Configuration>) -> (result: Result<Configuration, ConfigError>)
    ensures
        load_result(parsed, result),
{
    match parsed {
        None => Err(ConfigError::Malformed),
        Some(config) => validate(config),
    }
}

/// A description in which every relationship target is a declared model,
/// written in a served version and with no model name used twice, is
/// accepted, and what comes back has as many models as what went in.
pub proof fn lemma_valid_description_is_accepted(
    config: Configuration,
    result: Result<Configuration, ConfigError>,
)
    requires
        load_result(Some(config), result),
        valid(config@),
    ensures
        result is Ok,
        result->Ok_0@ == config@,
        result->Ok_0@.models.len() == config@.models.len(),
{
    lemma_duplicate_name_result(config, result);
    match result {
        Err(ConfigError::DanglingRelationshipTarget { model, relationship, target }) => {
            let (m, r, t) = choose|m: int, r: int, t: int| #[trigger]
                first_dangling(config@.models, m, r, t) && model@ == config@.models[m].name
                    && relationship@ == config@.models[m].relationships[r].name && target@
                    == target_at(config@.models, m, r, t);
            assert(is_place(config@.models, m, r, t));
        },
        _ => {},
    }
}

/// Where a model repeats the name of an earlier one, the names are not
/// unique.
pub proof fn lemma_duplicate_breaks_uniqueness(models: Seq<ModelView>, j: int)
    requires
        first_duplicate(models, j),
    ensures
        !names_unique(models),
{
    let earlier = models.take(j);
    let i = choose|i: int| 0 <= i < earlier.len() && (#[trigger] earlier[i]).name == models[j].name;
    assert(earlier[i] == models[i]);
    assert(models[i].name == models[j].name);
}

/// Where a description is refused with `DuplicateModelName`, its model
/// names are not unique.
proof fn lemma_duplicate_name_result(
    config: Configuration,
    result: Result<Configuration, ConfigError>,
)
    requires
        load_result(Some(config), result),
    ensures
        result is Err && result->Err_0 is DuplicateModelName ==> !names_unique(config@.models),
{
    match result {
        Err(ConfigError::DuplicateModelName { model }) => {
            let j = choose|j: int| #[trigger]
                first_duplicate(config@.models, j) && model@ == config@.models[j].name;
            lemma_duplicate_breaks_uniqueness(config@.models, j);
        },
        _ => {},
    }
}

/// A description of a served version, with unique model names, in which
/// some relationship names a model that is not declared, is refused with
/// `DanglingRelationshipTarget`: no description comes back, in whole or in
/// part.
pub proof fn lemma_dangling_target_is_refused(
    config: Configuration,
    result: Result<Configuration, ConfigError>,
    m: int,
    r: int,
    t: int,
)
    requires
        load_result(Some(config), result),
        version_served(config@.version),
        names_unique(config@.models),
        is_place(config@.models, m, r, t),
        !resolves_at(config@.models, m, r, t),
    ensures
        result is Err,
        result->Err_0 is DanglingRelationshipTarget,
{
    lemma_duplicate_name_result(config, result);
}

/// A dangling target is reported whatever else is wrong with the targets,
/// but only after the version and the model names were found in order: a
/// description that breaks one of those rules is refused for that rule.
pub proof fn lemma_earlier_rules_come_first(
    config: Configuration,
    result: Result<Configuration, ConfigError>,
)
    requires
        load_result(Some(config), result),
    ensures
        !version_served(config@.version) <==> result is Err && result->Err_0
            is UnsupportedVersion,
        version_served(config@.version) && !names_unique(config@.models) <==> result is Err
            && result->Err_0 is DuplicateModelName,
        !(result is Err && result->Err_0 is Malformed),
{
    lemma_duplicate_name_result(config, result);
}

} // verus!
