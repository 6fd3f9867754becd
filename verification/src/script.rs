//! The `[scripts]` section of `project.toml`: reading the configuration, finding a
//! script by name and planning the commands that running it takes.

use vstd::prelude::*;
use crate::text::string_views;

verus! {

#[verifier::external_type_specification]
#[verifier::external_body]
pub struct ExTomlValue(toml::Value);

/// A TOML value, as far as scripts read it.
pub enum TomlValue {
    /// A string.
    Text(String),
    /// An array.
    Array(Vec<TomlValue>),
    /// A table: its entries in order (keys distinct), and how `toml` prints it.
    Table(Vec<(String, TomlValue)>, String),
    /// An integer, float, boolean or datetime, as `toml` prints it.
    Scalar(String),
}

/// A TOML value over character sequences.
pub enum TomlModel {
    Text(Seq<char>),
    Array(Seq<TomlModel>),
    Table(Seq<(Seq<char>, TomlModel)>, Seq<char>),
    Scalar(Seq<char>),
}

/// The model of a value.
pub open spec fn model(v: TomlValue) -> TomlModel
    decreases v, 1int,
{
    match v {
        TomlValue::Text(s) => TomlModel::Text(s@),
        TomlValue::Array(items) => {
            proof {
                assert(decreases_to!(v => v->Array_0));
                assert(decreases_to!(items => items@));
            }
            TomlModel::Array(model_items(items@))
        },
        TomlValue::Table(entries, text) => {
            proof {
                assert(decreases_to!(v => v->Table_0));
                assert(decreases_to!(entries => entries@));
            }
            TomlModel::Table(model_entries(entries@), text@)
        },
        TomlValue::Scalar(t) => TomlModel::Scalar(t@),
    }
}

/// The models of a sequence of values.
pub open spec fn model_items(items: Seq<TomlValue>) -> Seq<TomlModel>
    decreases items, 0int,
{
    if items.len() == 0 {
        seq![]
    } else {
        model_items(items.drop_last()).push(model(items.last()))
    }
}

/// The models of table entries.
pub open spec fn model_entries(entries: Seq<(String, TomlValue)>) -> Seq<(Seq<char>, TomlModel)>
    decreases entries, 0int,
{
    if entries.len() == 0 {
        seq![]
    } else {
        let last = entries.last();
        proof {
            assert(decreases_to!(entries => last));
            assert(decreases_to!(last => last.1));
        }
        model_entries(entries.drop_last()).push((last.0@, model(last.1)))
    }
}

impl View for TomlValue {
    type V = TomlModel;

    open spec fn view(&self) -> TomlModel {
        model(*self)
    }
}

pub proof fn lemma_model_items(items: Seq<TomlValue>)
    ensures
        model_items(items).len() == items.len(),
        forall|i: int| 0 <= i < items.len() ==> #[trigger] model_items(items)[i] == model(items[i]),
    decreases items.len(),
{
    if items.len() > 0 {
        lemma_model_items(items.drop_last());
        assert forall|i: int| 0 <= i < items.len() implies #[trigger] model_items(items)[i] == model(items[i]) by {
            if i < items.len() - 1 {
                assert(items.drop_last()[i] == items[i]);
            }
        }
    }
}

pub proof fn lemma_model_entries(entries: Seq<(String, TomlValue)>)
    ensures
        model_entries(entries).len() == entries.len(),
        forall|i: int|
            0 <= i < entries.len() ==> #[trigger] model_entries(entries)[i] == (entries[i].0@, model(entries[i].1)),
    decreases entries.len(),
{
    if entries.len() > 0 {
        lemma_model_entries(entries.drop_last());
        assert forall|i: int|
            0 <= i < entries.len() implies #[trigger] model_entries(entries)[i] == (entries[i].0@, model(entries[i].1)) by {
            if i < entries.len() - 1 {
                assert(entries.drop_last()[i] == entries[i]);
            }
        }
    }
}

/// The configuration that `toml::from_str` reads from `text`, as a model; `None` when
/// the text is no TOML document.
pub uninterp spec fn toml_config(text: Seq<char>) -> Option<TomlModel>;

/// The library's value for a `toml::Value`, variant by variant; tables keep how
/// `toml` prints them. Used by [`parse_config`] alone.
#[verifier::external_body]
fn toml_value(value: &toml::Value) -> TomlValue {
    match value {
        toml::Value::String(s) => TomlValue::Text(s.clone()),
        toml::Value::Array(items) => TomlValue::Array(items.iter().map(toml_value).collect()),
        toml::Value::Table(table) => TomlValue::Table(
            table.iter().map(|(k, v)| (k.clone(), toml_value(v))).collect(),
            value.to_string(),
        ),
        other => TomlValue::Scalar(other.to_string()),
    }
}

/// `toml::from_str::<toml::Value>(text)`, as the library's value: the result is
/// [`toml_config`] of the text.
#[verifier::external_body]
fn parse_config(text: &str) -> (r: Option<TomlValue>)
    ensures
        match r {
            Some(v) => toml_config(text@) == Some(v@),
            None => toml_config(text@) is None,
        },
{
    let value: toml::Value = toml::from_str(text).ok()?;
    Some(toml_value(&value))
}

/// One step of running a script.
pub enum ScriptStep {
    /// Run the string through the platform shell.
    Shell(String),
    /// Run a program (first element) with arguments (the rest).
    Direct(Vec<String>),
    /// Report a value that is no script, by its printed form.
    Unsupported(String),
}

/// A script step over character sequences.
pub enum StepModel {
    Shell(Seq<char>),
    Direct(Seq<Seq<char>>),
    Unsupported(Seq<char>),
}

impl View for ScriptStep {
    type V = StepModel;

    open spec fn view(&self) -> StepModel {
        match self {
            ScriptStep::Shell(s) => StepModel::Shell(s@),
            ScriptStep::Direct(args) => StepModel::Direct(string_views(args@)),
            ScriptStep::Unsupported(t) => StepModel::Unsupported(t@),
        }
    }
}

/// The views of a sequence of steps.
pub open spec fn step_views(steps: Seq<ScriptStep>) -> Seq<StepModel> {
    steps.map_values(|s: ScriptStep| s@)
}

/// The value of the first entry named `key`.
pub open spec fn entries_lookup(entries: Seq<(Seq<char>, TomlModel)>, key: Seq<char>) -> Option<TomlModel>
    decreases entries.len(),
{
    if entries.len() == 0 {
        None
    } else if entries[0].0 == key {
        Some(entries[0].1)
    } else {
        entries_lookup(entries.skip(1), key)
    }
}

/// `value[key]` when `value` is a table, as `toml::Value::get` with a string key.
pub open spec fn spec_table_get(value: TomlModel, key: Seq<char>) -> Option<TomlModel> {
    match value {
        TomlModel::Table(entries, _) => entries_lookup(entries, key),
        _ => None,
    }
}

/// The key of the scripts section.
pub open spec fn scripts_key() -> Seq<char> {
    seq!['s', 'c', 'r', 'i', 'p', 't', 's']
}

/// The script `name` of a configuration: `config["scripts"][name]`.
pub open spec fn spec_find_script(config: TomlModel, name: Seq<char>) -> Option<TomlModel> {
    match spec_table_get(config, scripts_key()) {
        Some(scripts) => spec_table_get(scripts, name),
        None => None,
    }
}

/// The script `name` in the configuration text `text`, when the text parses and holds it.
pub open spec fn config_script(text: Seq<char>, name: Seq<char>) -> Option<TomlModel> {
    match toml_config(text) {
        Some(config) => spec_find_script(config, name),
        None => None,
    }
}

/// The strings among `items`, in order; other items are skipped.
pub open spec fn text_items(items: Seq<TomlModel>) -> Seq<Seq<char>>
    decreases items.len(),
{
    if items.len() == 0 {
        seq![]
    } else {
        let rest = text_items(items.drop_last());
        match items.last() {
            TomlModel::Text(s) => rest.push(s),
            _ => rest,
        }
    }
}

/// The steps of a script value:
/// a string runs through the shell; an empty array does nothing; an array whose first
/// item is an array runs each item in turn; any other array runs its strings as one
/// program with arguments, when there are any; anything else is reported.
pub open spec fn spec_plan(value: TomlModel) -> Seq<StepModel>
    decreases value, 1int,
{
    match value {
        TomlModel::Text(s) => seq![StepModel::Shell(s)],
        TomlModel::Array(items) => {
            if items.len() == 0 {
                seq![]
            } else if items[0] is Array {
                proof {
                    assert(decreases_to!(value => value->Array_0));
                }
                spec_plan_items(items)
            } else {
                let args = text_items(items);
                if args.len() > 0 {
                    seq![StepModel::Direct(args)]
                } else {
                    seq![]
                }
            }
        },
        TomlModel::Table(_, text) => seq![StepModel::Unsupported(text)],
        TomlModel::Scalar(text) => seq![StepModel::Unsupported(text)],
    }
}

/// The steps of each item in turn.
pub open spec fn spec_plan_items(items: Seq<TomlModel>) -> Seq<StepModel>
    decreases items, 0int,
{
    if items.len() == 0 {
        seq![]
    } else {
        spec_plan_items(items.drop_last()) + spec_plan(items.last())
    }
}

/// Every step that runs a program directly names the program: its argument list is
/// never empty, so it can be handed to [`crate::command::command_line`].
pub open spec fn direct_steps_named(steps: Seq<StepModel>) -> bool {
    forall|i: int| 0 <= i < steps.len() ==> (#[trigger] steps[i] is Direct ==> steps[i]->Direct_0.len() > 0)
}

/// No script plans a direct step without a program.
pub proof fn lemma_plan_direct_steps_named(value: TomlModel)
    ensures
        direct_steps_named(spec_plan(value)),
    decreases value, 1int,
{
    match value {
        TomlModel::Array(items) => {
            if items.len() > 0 && items[0] is Array {
                assert(decreases_to!(value => value->Array_0));
                lemma_plan_items_direct_steps_named(items);
            }
        },
        _ => {},
    }
}

/// [`lemma_plan_direct_steps_named`] for each item in turn.
pub proof fn lemma_plan_items_direct_steps_named(items: Seq<TomlModel>)
    ensures
        direct_steps_named(spec_plan_items(items)),
    decreases items, 0int,
{
    if items.len() > 0 {
        lemma_plan_items_direct_steps_named(items.drop_last());
        lemma_plan_direct_steps_named(items.last());
        let a = spec_plan_items(items.drop_last());
        let b = spec_plan(items.last());
        assert forall|i: int| 0 <= i < (a + b).len() && #[trigger] (a + b)[i] is Direct implies (a + b)[i]->Direct_0.len() > 0 by {
            if i < a.len() {
                assert((a + b)[i] == a[i]);
            } else {
                assert((a + b)[i] == b[i - a.len()]);
            }
        }
    }
}

/// A word is among the strings of `items` exactly when some item is that string.
pub proof fn lemma_text_items_contains(items: Seq<TomlModel>, w: Seq<char>)
    ensures
        text_items(items).contains(w) <==> exists|i: int| 0 <= i < items.len() && items[i] == TomlModel::Text(w),
    decreases items.len(),
{
    if items.len() > 0 {
        let rest = items.drop_last();
        lemma_text_items_contains(rest, w);
        if text_items(items).contains(w) {
            let k = choose|k: int| 0 <= k < text_items(items).len() && text_items(items)[k] == w;
            if k < text_items(rest).len() {
                assert(text_items(rest)[k] == w);
                let i = choose|i: int| 0 <= i < rest.len() && rest[i] == TomlModel::Text(w);
                assert(items[i] == rest[i]);
            } else {
                assert(items[items.len() - 1] == TomlModel::Text(w));
            }
        }
        if exists|i: int| 0 <= i < items.len() && items[i] == TomlModel::Text(w) {
            let i = choose|i: int| 0 <= i < items.len() && items[i] == TomlModel::Text(w);
            if i < items.len() - 1 {
                assert(rest[i] == items[i]);
                let k = choose|k: int| 0 <= k < text_items(rest).len() && text_items(rest)[k] == w;
                assert(text_items(items)[k] == w);
            } else {
                assert(text_items(items) == text_items(rest).push(w));
                assert(text_items(items)[text_items(rest).len() as int] == w);
            }
        }
    }
}

/// An array whose first item is no array and which holds a string runs one program:
/// the plan is exactly one direct step, every string of the array is among its words
/// and every word is a string of the array. A lone program name is run too.
pub proof fn lemma_plan_program(items: Seq<TomlModel>, j: int)
    requires
        0 <= j < items.len(),
        !(items[0] is Array),
        items[j] is Text,
    ensures
        spec_plan(TomlModel::Array(items)).len() == 1,
        spec_plan(TomlModel::Array(items))[0] is Direct,
        spec_plan(TomlModel::Array(items))[0]->Direct_0.contains(items[j]->Text_0),
        forall|w: Seq<char>| #[trigger] spec_plan(TomlModel::Array(items))[0]->Direct_0.contains(w)
            ==> exists|i: int| 0 <= i < items.len() && items[i] == TomlModel::Text(w),
{
    lemma_text_items_contains(items, items[j]->Text_0);
    assert(items[j] == TomlModel::Text(items[j]->Text_0));
    assert forall|w: Seq<char>| #[trigger] spec_plan(TomlModel::Array(items))[0]->Direct_0.contains(w)
        implies exists|i: int| 0 <= i < items.len() && items[i] == TomlModel::Text(w) by {
        lemma_text_items_contains(items, w);
    }
}

/// A script that is a one-item array of a string runs that program, without arguments.
pub proof fn lemma_plan_single_program(name: Seq<char>)
    ensures
        spec_plan(TomlModel::Array(seq![TomlModel::Text(name)])) == seq![StepModel::Direct(seq![name])],
{
    let items = seq![TomlModel::Text(name)];
    assert(items.drop_last() =~= Seq::<TomlModel>::empty());
    assert(text_items(items.drop_last()) =~= Seq::<Seq<char>>::empty());
    assert(items.last() == TomlModel::Text(name));
    assert(text_items(items) =~= seq![name]);
}

/// An array of strings runs as one program whose words are those strings, in order.
pub proof fn lemma_plan_words_in_order(items: Seq<TomlModel>)
    requires
        items.len() > 0,
        forall|i: int| 0 <= i < items.len() ==> #[trigger] items[i] is Text,
    ensures
        spec_plan(TomlModel::Array(items)) == seq![StepModel::Direct(items.map_values(|t: TomlModel| t->Text_0))],
{
    lemma_text_items_all(items);
    assert(items[0] is Text);
}

/// The strings of an array of strings are all its items, in order.
pub proof fn lemma_text_items_all(items: Seq<TomlModel>)
    requires
        forall|i: int| 0 <= i < items.len() ==> #[trigger] items[i] is Text,
    ensures
        text_items(items) == items.map_values(|t: TomlModel| t->Text_0),
    decreases items.len(),
{
    if items.len() > 0 {
        let rest = items.drop_last();
        assert forall|i: int| 0 <= i < rest.len() implies #[trigger] rest[i] is Text by {
            assert(rest[i] == items[i]);
        }
        lemma_text_items_all(rest);
        assert(items.last() is Text);
        assert(items.map_values(|t: TomlModel| t->Text_0) =~= rest.map_values(|t: TomlModel| t->Text_0).push(
            items.last()->Text_0,
        ));
    }
}

/// The scripts are looked up under the key `scripts`.
pub proof fn lemma_scripts_key()
    ensures
        scripts_key() == "scripts"@,
{
    reveal_strlit("scripts");
    assert(scripts_key() =~= "scripts"@);
}

/// `value[key]` when `value` is a table holding `key`.
pub fn table_get<'a>(value: &'a TomlValue, key: &str) -> (r: Option<&'a TomlValue>)
    ensures
        match spec_table_get(value@, key@) {
            Some(v) => r is Some && r->0@ == v,
            None => r is None,
        },
{
    match value {
        TomlValue::Table(entries, _) => {
            let wanted = String::from_str(key);
            let ghost models = model_entries(entries@);
            proof {
                lemma_model_entries(entries@);
            }
            let mut i: usize = 0;
            assert(models.skip(0) =~= models);
            while i < entries.len()
                invariant
                    i <= entries@.len(),
                    wanted@ == key@,
                    models == model_entries(entries@),
                    models.len() == entries@.len(),
                    forall|j: int| 0 <= j < entries@.len() ==> #[trigger] models[j] == (entries@[j].0@, model(entries@[j].1)),
                    spec_table_get(value@, key@) == entries_lookup(models, key@),
                    entries_lookup(models, key@) == entries_lookup(models.skip(i as int), key@),
                decreases entries@.len() - i,
            {
                assert(models.skip(i as int)[0] == models[i as int]);
                if entries[i].0 == wanted {
                    return Some(&entries[i].1);
                }
                assert(models.skip(i as int).skip(1) =~= models.skip(i + 1));
                i = i + 1;
            }
            None
        },
        _ => None,
    }
}

/// The script `name` of the configuration `config`: `config["scripts"][name]`.
pub fn find_script<'a>(config: &'a TomlValue, name: &str) -> (r: Option<&'a TomlValue>)
    ensures
        match spec_find_script(config@, name@) {
            Some(v) => r is Some && r->0@ == v,
            None => r is None,
        },
{
    let section = "scripts";
    proof {
        reveal_strlit("scripts");
        assert(section@ =~= scripts_key());
    }
    match table_get(config, section) {
        Some(scripts) => table_get(scripts, name),
        None => None,
    }
}

/// The strings among `items`, in order.
pub fn collect_text_items(items: &Vec<TomlValue>) -> (args: Vec<String>)
    ensures
        string_views(args@) == text_items(model_items(items@)),
{
    let mut args: Vec<String> = Vec::new();
    for k in 0..items.len()
        invariant
            string_views(args@) == text_items(model_items(items@.take(k as int))),
    {
        assert(items@.take(k + 1).drop_last() =~= items@.take(k as int));
        assert(items@.take(k + 1).last() == items@[k as int]);
        let ghost prev = model_items(items@.take(k as int));
        assert(model_items(items@.take(k + 1)) == prev.push(model(items@[k as int])));
        assert(prev.push(model(items@[k as int])).drop_last() =~= prev);
        match &items[k] {
            TomlValue::Text(s) => {
                let ghost before = args@;
                args.push(s.clone());
                assert(string_views(args@) =~= string_views(before).push(s@));
            },
            _ => {},
        }
    }
    assert(items@.take(items@.len() as int) =~= items@);
    args
}

/// The steps that running the script `value` takes, in order (see [`spec_plan`]).
pub fn plan_script(value: &TomlValue) -> (steps: Vec<ScriptStep>)
    ensures
        step_views(steps@) == spec_plan(value@),
    decreases value,
{
    match value {
        TomlValue::Text(s) => {
            let mut steps: Vec<ScriptStep> = Vec::new();
            steps.push(ScriptStep::Shell(s.clone()));
            assert(step_views(steps@) =~= spec_plan(value@));
            steps
        },
        TomlValue::Array(items) => {
            let mut steps: Vec<ScriptStep> = Vec::new();
            proof {
                lemma_model_items(items@);
            }
            if items.len() == 0 {
                assert(step_views(steps@) =~= spec_plan(value@));
                return steps;
            }
            let nested = match &items[0] {
                TomlValue::Array(_) => true,
                _ => false,
            };
            assert(nested == (model_items(items@)[0] is Array));
            if nested {
                for k in 0..items.len()
                    invariant
                        *value == TomlValue::Array(*items),
                        step_views(steps@) == spec_plan_items(model_items(items@.take(k as int))),
                {
                    assert(items@.take(k + 1).drop_last() =~= items@.take(k as int));
                    assert(items@.take(k + 1).last() == items@[k as int]);
                    let ghost prev = model_items(items@.take(k as int));
                    assert(model_items(items@.take(k + 1)) == prev.push(model(items@[k as int])));
                    assert(prev.push(model(items@[k as int])).drop_last() =~= prev);
                    proof {
                        assert(decreases_to!(*value => (*value)->Array_0));
                        assert((*value)->Array_0 == *items);
                        assert(decreases_to!(*items => items@));
                        assert(decreases_to!(items@ => items@[k as int]));
                    }
                    let mut sub = plan_script(&items[k]);
                    let ghost before = steps@;
                    let ghost sub_before = sub@;
                    steps.append(&mut sub);
                    assert(step_views(steps@) =~= step_views(before) + step_views(sub_before));
                }
                assert(items@.take(items@.len() as int) =~= items@);
                steps
            } else {
                let args = collect_text_items(items);
                if args.len() > 0 {
                    steps.push(ScriptStep::Direct(args));
                }
                assert(step_views(steps@) =~= spec_plan(value@));
                steps
            }
        },
        TomlValue::Table(_, text) => {
            let mut steps: Vec<ScriptStep> = Vec::new();
            steps.push(ScriptStep::Unsupported(text.clone()));
            assert(step_views(steps@) =~= spec_plan(value@));
            steps
        },
        TomlValue::Scalar(text) => {
            let mut steps: Vec<ScriptStep> = Vec::new();
            steps.push(ScriptStep::Unsupported(text.clone()));
            assert(step_views(steps@) =~= spec_plan(value@));
            steps
        },
    }
}

/// Why a script could not be planned.
pub enum ScriptError {
    /// The configuration text is no TOML document.
    InvalidData,
    /// The configuration has no `scripts` table holding the script.
    NotFound,
}

/// What `cmkt <script>` runs: the steps of the script `name` in the configuration text
/// `text` of `project.toml`.
pub fn script_steps(text: &str, name: &str) -> (r: Result<Vec<ScriptStep>, ScriptError>)
    ensures
        r matches Err(ScriptError::InvalidData) <==> toml_config(text@) is None,
        r matches Err(ScriptError::NotFound) <==> (toml_config(text@) is Some && config_script(text@, name@) is None),
        r is Ok <==> config_script(text@, name@) is Some,
        r is Ok ==> step_views(r->Ok_0@) == spec_plan(config_script(text@, name@)->0),
{
    let config = match parse_config(text) {
        Some(c) => c,
        None => return Err(ScriptError::InvalidData),
    };
    match find_script(&config, name) {
        Some(script) => Ok(plan_script(script)),
        None => Err(ScriptError::NotFound),
    }
}

} // verus!
