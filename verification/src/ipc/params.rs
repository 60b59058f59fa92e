//! Parameters of a request.

use vstd::prelude::*;
use vstd::string::*;

use crate::number::{PrintedReal, PrintedRealView, Real};
use crate::text;

verus! {

// ---------------------------------------------------------------------------
// Values
// ---------------------------------------------------------------------------

/// The value of one parameter.
#[derive(Debug)]
pub enum ParamValue {
    Null,
    Bool(bool),
    /// A number, in each of the forms in which it can be had.
    Number { unsigned: Option<u64>, signed: Option<i64>, real_number: Option<PrintedReal> },
    Text(String),
    Array,
    Object,
}

/// A `ParamValue` with its text as a sequence of characters.
pub enum ParamView {
    Null,
    Bool(bool),
    Number { unsigned: Option<u64>, signed: Option<i64>, real_number: Option<PrintedRealView> },
    Text(Seq<char>),
    Array,
    Object,
}

impl View for ParamValue {
    type V = ParamView;

    open spec fn view(&self) -> ParamView {
        match self {
            ParamValue::Null => ParamView::Null,
            ParamValue::Bool(b) => ParamView::Bool(*b),
            ParamValue::Number { unsigned, signed, real_number } => ParamView::Number {
                unsigned: *unsigned,
                signed: *signed,
                real_number: match real_number {
                    Some(x) => Some(x@),
                    None => None,
                },
            },
            ParamValue::Text(s) => ParamView::Text(s@),
            ParamValue::Array => ParamView::Array,
            ParamValue::Object => ParamView::Object,
        }
    }
}

/// Parameters by name.
pub type ParamsView = Map<Seq<char>, ParamView>;

/// The parameter of a name as an unsigned integer, if it is one.
pub open spec fn unsigned_at(params: ParamsView, key: Seq<char>) -> Option<u64> {
    if params.dom().contains(key) {
        match params[key] {
            ParamView::Number { unsigned, signed, real_number } => unsigned,
            _ => None,
        }
    } else {
        None
    }
}

/// The parameter of a name as an integer, if it is one.
pub open spec fn signed_at(params: ParamsView, key: Seq<char>) -> Option<i64> {
    if params.dom().contains(key) {
        match params[key] {
            ParamView::Number { unsigned, signed, real_number } => signed,
            _ => None,
        }
    } else {
        None
    }
}

/// The parameter of a name as a number, if it is one.
pub open spec fn number_at(params: ParamsView, key: Seq<char>) -> Option<PrintedRealView> {
    if params.dom().contains(key) {
        match params[key] {
            ParamView::Number { unsigned, signed, real_number } => real_number,
            _ => None,
        }
    } else {
        None
    }
}

/// The parameter of a name as text, if it is text.
pub open spec fn text_at(params: ParamsView, key: Seq<char>) -> Option<Seq<char>> {
    if params.dom().contains(key) {
        match params[key] {
            ParamView::Text(s) => Some(s),
            _ => None,
        }
    } else {
        None
    }
}

/// The parameter of a name as a truth value, if it is one.
pub open spec fn bool_at(params: ParamsView, key: Seq<char>) -> Option<bool> {
    if params.dom().contains(key) {
        match params[key] {
            ParamView::Bool(b) => Some(b),
            _ => None,
        }
    } else {
        None
    }
}

// ---------------------------------------------------------------------------
// Documents
// ---------------------------------------------------------------------------

/// A JSON document. It is read by `lookup` alone.
#[verifier::external_type_specification]
#[verifier::external_body]
pub struct ExValue(serde_json::Value);

/// The members of a JSON document: none, unless it is an object.
pub uninterp spec fn members(document: serde_json::Value) -> Map<Seq<char>, ParamView>;

/// One member of a JSON document.
///
/// Trusted: `serde_json::Value::get` with a name gives the member of an object
/// under that name, and nothing for a document that is no object. The member is
/// handed out as a plain value: a number as `as_u64`, `as_i64` and `as_f64` of
/// `serde_json::Number` give it, the last by its bits and in its `Display` form.
#[verifier::external_body]
fn lookup(document: &serde_json::Value, key: &str) -> (r: Option<ParamValue>)
    ensures
        match r {
            Some(p) => members(*document).dom().contains(key@) && members(*document)[key@] == p@,
            None => !members(*document).dom().contains(key@),
        },
{
    document.get(key).map(|v| match v {
        serde_json::Value::Null => ParamValue::Null,
        serde_json::Value::Bool(b) => ParamValue::Bool(*b),
        serde_json::Value::Number(n) => ParamValue::Number {
            unsigned: n.as_u64(),
            signed: n.as_i64(),
            real_number: n.as_f64().map(
                |x| PrintedReal { value: Real::from_bits(x.to_bits()), text: x.to_string() },
            ),
        },
        serde_json::Value::String(s) => ParamValue::Text(s.clone()),
        serde_json::Value::Array(_) => ParamValue::Array,
        serde_json::Value::Object(_) => ParamValue::Object,
    })
}

// ---------------------------------------------------------------------------
// Parameters
// ---------------------------------------------------------------------------

/// One parameter.
#[derive(Debug)]
pub struct Param {
    pub name: String,
    pub value: ParamValue,
}

/// The parameters of a list, by name. A later one prevails.
pub open spec fn params_of(list: Seq<Param>) -> ParamsView
    decreases list.len(),
{
    if list.len() == 0 {
        Map::empty()
    } else {
        params_of(list.drop_last()).insert(list.last().name@, list.last().value@)
    }
}

/// The parameters of a request.
#[derive(Debug)]
pub struct Params {
    pub list: Vec<Param>,
}

impl View for Params {
    type V = ParamsView;

    open spec fn view(&self) -> ParamsView {
        params_of(self.list@)
    }
}

/// The names of all parameters that any method takes.
pub open spec fn parameter_names() -> Seq<Seq<char>> {
    seq![
        "channel"@,
        "pulse_us"@,
        "ttl_ms"@,
        "angle_deg"@,
        "pin"@,
        "high"@,
        "speed_pct"@,
        "volume_pct"@,
        "gain_pct"@,
        "speed_scale"@,
        "deadband_pct"@,
        "reversed"@,
        "servo"@,
        "trim_us"@,
        "surface"@,
        "name"@,
        "obstacle_threshold_cm"@,
        "cliff_threshold_normalized"@,
        "max_duration_s"@,
    ]
}

/// The members of a document whose names are among the first `n` of a list.
pub open spec fn selected_members(
    document: serde_json::Value,
    names: Seq<Seq<char>>,
    n: int,
) -> ParamsView {
    members(document).restrict(Set::new(|key: Seq<char>| names.take(n).contains(key)))
}

proof fn lemma_param_found(list: Seq<Param>, i: int)
    requires
        0 <= i < list.len(),
        forall|k: int| i < k < list.len() ==> (#[trigger] list[k]).name@ != list[i].name@,
    ensures
        params_of(list).dom().contains(list[i].name@),
        params_of(list)[list[i].name@] == list[i].value@,
    decreases list.len(),
{
    if i < list.len() - 1 {
        let less = list.drop_last();
        assert forall|k: int| i < k < less.len() implies (#[trigger] less[k]).name@
            != less[i].name@ by {
            assert(less[k] == list[k]);
        }
        lemma_param_found(less, i);
        assert(list.last().name@ != list[i].name@);
    }
}

proof fn lemma_param_missing(list: Seq<Param>, name: Seq<char>)
    requires
        forall|k: int| 0 <= k < list.len() ==> (#[trigger] list[k]).name@ != name,
    ensures
        !params_of(list).dom().contains(name),
    decreases list.len(),
{
    if list.len() > 0 {
        let less = list.drop_last();
        assert forall|k: int| 0 <= k < less.len() implies (#[trigger] less[k]).name@ != name by {
            assert(less[k] == list[k]);
        }
        lemma_param_missing(less, name);
        assert(list.last().name@ != name);
    }
}

fn all_names() -> (r: Vec<String>)
    ensures
        text::texts(r@) == parameter_names(),
{
    let mut v: Vec<String> = Vec::new();
    v.push("channel".to_owned());
    v.push("pulse_us".to_owned());
    v.push("ttl_ms".to_owned());
    v.push("angle_deg".to_owned());
    v.push("pin".to_owned());
    v.push("high".to_owned());
    v.push("speed_pct".to_owned());
    v.push("volume_pct".to_owned());
    v.push("gain_pct".to_owned());
    v.push("speed_scale".to_owned());
    v.push("deadband_pct".to_owned());
    v.push("reversed".to_owned());
    v.push("servo".to_owned());
    v.push("trim_us".to_owned());
    v.push("surface".to_owned());
    v.push("name".to_owned());
    v.push("obstacle_threshold_cm".to_owned());
    v.push("cliff_threshold_normalized".to_owned());
    v.push("max_duration_s".to_owned());
    assert(text::texts(v@) =~= parameter_names());
    v
}

impl Params {
    /// The parameters that a JSON document holds. What no method takes is left
    /// out.
    pub fn read(document: &serde_json::Value) -> (r: Params)
        ensures
            r@ == selected_members(*document, parameter_names(), parameter_names().len() as int),
    {
        let names = all_names();
        let ghost wanted = text::texts(names@);
        let mut params = Params { list: Vec::new() };
        let mut i: usize = 0;
        assert(params@ =~= selected_members(*document, wanted, 0));
        while i < names.len()
            invariant
                i <= names.len(),
                wanted == text::texts(names@),
                params@ == selected_members(*document, wanted, i as int),
            decreases names.len() - i,
        {
            let ghost before = params@;
            assert(wanted.take(i + 1) =~= wanted.take(i as int).push(wanted[i as int]));
            assert forall|key: Seq<char>|
                #![trigger wanted.take(i + 1).contains(key)]
                #![trigger wanted.take(i as int).contains(key)]
                wanted.take(i + 1).contains(key) <==> wanted.take(i as int).contains(key) || key
                    == wanted[i as int] by {
                if wanted.take(i as int).contains(key) {
                    let k = choose|k: int|
                        0 <= k < wanted.take(i as int).len() && wanted.take(i as int)[k] == key;
                    assert(wanted.take(i + 1)[k] == key);
                }
                if key == wanted[i as int] {
                    assert(wanted.take(i + 1)[i as int] == key);
                }
            }
            match lookup(document, names[i].as_str()) {
                Some(value) => {
                    let ghost list = params.list@;
                    let ghost v = value@;
                    params.list.push(Param { name: names[i].clone(), value });
                    assert(params.list@.drop_last() =~= list);
                    assert(params@ == before.insert(wanted[i as int], v));
                    let ghost after = selected_members(*document, wanted, i + 1);
                    assert forall|key: Seq<char>| #[trigger]
                        after.dom().contains(key) <==> params@.dom().contains(key) by {
                        assert(after.dom().contains(key) <==> members(*document).dom().contains(key)
                            && wanted.take(i + 1).contains(key));
                    }
                    assert(params@ =~= selected_members(*document, wanted, i + 1));
                },
                None => {
                    assert(params@ =~= selected_members(*document, wanted, i + 1));
                },
            }
            i = i + 1;
        }
        params
    }

    /// The parameter of a name.
    pub fn get(&self, key: &str) -> (r: Option<&ParamValue>)
        ensures
            match r {
                Some(p) => self@.dom().contains(key@) && p@ == self@[key@],
                None => !self@.dom().contains(key@),
            },
    {
        let mut i: usize = self.list.len();
        while i > 0
            invariant
                i <= self.list@.len(),
                forall|k: int|
                    i <= k < self.list@.len() ==> (#[trigger] self.list@[k]).name@ != key@,
            decreases i,
        {
            if text::same_text(self.list[i - 1].name.as_str(), key) {
                proof {
                    lemma_param_found(self.list@, i - 1);
                }
                return Some(&self.list[i - 1].value);
            }
            i = i - 1;
        }
        proof {
            lemma_param_missing(self.list@, key@);
        }
        None
    }

    /// The parameter of a name as an unsigned integer, if it is one.
    pub fn unsigned(&self, key: &str) -> (r: Option<u64>)
        ensures
            r == unsigned_at(self@, key@),
    {
        match self.get(key) {
            Some(ParamValue::Number { unsigned, signed: _, real_number: _ }) => *unsigned,
            _ => None,
        }
    }

    /// The parameter of a name as an integer, if it is one.
    pub fn signed(&self, key: &str) -> (r: Option<i64>)
        ensures
            r == signed_at(self@, key@),
    {
        match self.get(key) {
            Some(ParamValue::Number { unsigned: _, signed, real_number: _ }) => *signed,
            _ => None,
        }
    }

    /// The parameter of a name as a number, if it is one.
    pub fn number(&self, key: &str) -> (r: Option<PrintedReal>)
        ensures
            match r {
                Some(x) => number_at(self@, key@) == Some(x@),
                None => number_at(self@, key@) is None,
            },
    {
        match self.get(key) {
            Some(ParamValue::Number { unsigned: _, signed: _, real_number: Some(x) }) => Some(x.clone()),
            _ => None,
        }
    }

    /// The parameter of a name as text, if it is text.
    pub fn text(&self, key: &str) -> (r: Option<String>)
        ensures
            match r {
                Some(s) => text_at(self@, key@) == Some(s@),
                None => text_at(self@, key@) is None,
            },
    {
        match self.get(key) {
            Some(ParamValue::Text(s)) => Some(s.clone()),
            _ => None,
        }
    }

    /// The parameter of a name as a truth value, if it is one.
    pub fn truth(&self, key: &str) -> (r: Option<bool>)
        ensures
            r == bool_at(self@, key@),
    {
        match self.get(key) {
            Some(ParamValue::Bool(b)) => Some(*b),
            _ => None,
        }
    }
}

/// A parameter that some method takes is read as the document gives it.
pub proof fn law_parameters_are_read_as_given(document: serde_json::Value, key: Seq<char>)
    requires
        parameter_names().contains(key),
    ensures
        ({
            let read = selected_members(
                document,
                parameter_names(),
                parameter_names().len() as int,
            );
            &&& read.dom().contains(key) <==> members(document).dom().contains(key)
            &&& read.dom().contains(key) ==> read[key] == members(document)[key]
        }),
{
    let names = parameter_names();
    assert(names.take(names.len() as int) =~= names);
}

/// Every parameter that any method takes is read from the document as it stands there.
pub proof fn law_no_parameter_is_left_out(document: serde_json::Value, key: Seq<char>)
    requires
        key == "channel"@ || key == "pulse_us"@ || key == "ttl_ms"@ || key == "angle_deg"@ || key
            == "pin"@ || key == "high"@ || key == "speed_pct"@ || key == "volume_pct"@ || key
            == "gain_pct"@ || key == "speed_scale"@ || key == "deadband_pct"@ || key
            == "reversed"@ || key == "servo"@ || key == "trim_us"@ || key == "surface"@ || key
            == "name"@ || key == "obstacle_threshold_cm"@ || key
            == "cliff_threshold_normalized"@ || key == "max_duration_s"@,
    ensures
        ({
            let read = selected_members(
                document,
                parameter_names(),
                parameter_names().len() as int,
            );
            &&& read.dom().contains(key) <==> members(document).dom().contains(key)
            &&& members(document).dom().contains(key) ==> read[key] == members(document)[key]
        }),
{
    let names = parameter_names();
    assert(names[0] == "channel"@ && names[1] == "pulse_us"@ && names[2] == "ttl_ms"@);
    assert(names[3] == "angle_deg"@ && names[4] == "pin"@ && names[5] == "high"@);
    assert(names[6] == "speed_pct"@ && names[7] == "volume_pct"@ && names[8] == "gain_pct"@);
    assert(names[9] == "speed_scale"@ && names[10] == "deadband_pct"@);
    assert(names[11] == "reversed"@ && names[12] == "servo"@ && names[13] == "trim_us"@);
    assert(names[14] == "surface"@ && names[15] == "name"@);
    assert(names[16] == "obstacle_threshold_cm"@);
    assert(names[17] == "cliff_threshold_normalized"@ && names[18] == "max_duration_s"@);
    assert(names.contains(key));
    law_parameters_are_read_as_given(document, key);
}

/// A list of parameters holds each under its name, and no others.
pub proof fn law_parameters_stand_under_their_names(list: Seq<Param>, name: Seq<char>)
    requires
        forall|i: int, j: int|
            0 <= i < list.len() && 0 <= j < list.len() && i != j ==> (#[trigger] list[i]).name@
                != (#[trigger] list[j]).name@,
    ensures
        forall|i: int|
            0 <= i < list.len() ==> params_of(list).dom().contains((#[trigger] list[i]).name@)
                && params_of(list)[list[i].name@] == list[i].value@,
        (forall|i: int| 0 <= i < list.len() ==> (#[trigger] list[i]).name@ != name)
            ==> !params_of(list).dom().contains(name),
{
    assert forall|i: int| 0 <= i < list.len() implies params_of(list).dom().contains(
        (#[trigger] list[i]).name@,
    ) && params_of(list)[list[i].name@] == list[i].value@ by {
        assert forall|k: int| i < k < list.len() implies (#[trigger] list[k]).name@
            != list[i].name@ by {}
        lemma_param_found(list, i);
    }
    if forall|i: int| 0 <= i < list.len() ==> (#[trigger] list[i]).name@ != name {
        lemma_param_missing(list, name);
    }
}

/// A parameter is had in the form that it has in the document, and in no other.
pub proof fn law_parameters_keep_their_form(params: ParamsView, key: Seq<char>)
    requires
        params.dom().contains(key),
    ensures
        match params[key] {
            ParamView::Bool(b) => bool_at(params, key) == Some(b) && unsigned_at(params, key) is None
                && signed_at(params, key) is None && number_at(params, key) is None && text_at(
                params,
                key,
            ) is None,
            ParamView::Text(s) => text_at(params, key) == Some(s) && unsigned_at(params, key)
                is None && signed_at(params, key) is None && number_at(params, key) is None
                && bool_at(params, key) is None,
            ParamView::Number { unsigned, signed, real_number } => unsigned_at(params, key)
                == unsigned && signed_at(params, key) == signed && number_at(params, key)
                == real_number && text_at(params, key) is None && bool_at(params, key) is None,
            _ => unsigned_at(params, key) is None && signed_at(params, key) is None && number_at(
                params,
                key,
            ) is None && text_at(params, key) is None && bool_at(params, key) is None,
        },
{
}

} // verus!
