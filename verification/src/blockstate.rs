//! Block-state definitions: which models a block state applies.

use crate::error::{malformation, malformed, BlockResourceError, Failure};
use crate::identifiers::{identified, parse_identifier};
use crate::json::{lemma_member_is_smaller, parse_json, parsed, Json, JsonTree};
use crate::properties::{lookup, value_of};
use crate::text::{chars_of, find_char, first_index, lemma_first_place_is_where_it_was_put, lemma_parts_of_joined_texts, lemma_text_without_it_is_one_part, same_text, split_parts, split_text, text_of};
use vstd::prelude::*;

verus! {

/// A model to apply, with quarter turns about X and Y and its weight among the
/// alternatives.
#[derive(Clone, Debug)]
pub struct ModelReference {
    pub model: String,
    pub x: u16,
    pub y: u16,
    pub uvlock: bool,
    pub weight: u32,
}

pub struct ReferenceModel {
    pub model: Seq<char>,
    pub x: u16,
    pub y: u16,
    pub uvlock: bool,
    pub weight: u32,
}

impl View for ModelReference {
    type V = ReferenceModel;

    open spec fn view(&self) -> ReferenceModel {
        ReferenceModel {
            model: self.model@,
            x: self.x,
            y: self.y,
            uvlock: self.uvlock,
            weight: self.weight,
        }
    }
}

pub open spec fn reference_views(references: Seq<ModelReference>) -> Seq<ReferenceModel> {
    references.map_values(|reference: ModelReference| reference@)
}

pub open spec fn is_quarter_turn(degrees: int) -> bool {
    degrees == 0 || degrees == 90 || degrees == 180 || degrees == 270
}

pub open spec fn or_number(value: Option<u64>, default: u64) -> u64 {
    match value {
        Some(number) => number,
        None => default,
    }
}

pub open spec fn apply_failure(reason: Seq<char>) -> Failure {
    malformation("blockstate"@, "apply"@, reason)
}

/// The model that a document applies.
pub open spec fn reference_of(tree: JsonTree) -> Result<ReferenceModel, Failure> {
    let x = or_number(tree.member_unsigned("x"@), 0);
    let y = or_number(tree.member_unsigned("y"@), 0);
    let weight = or_number(tree.member_unsigned("weight"@), 1);
    if !(tree is Object) {
        Err(apply_failure("model reference is not an object"@))
    } else {
        match tree.member_text("model"@) {
            None => Err(apply_failure("model is missing"@)),
            Some(name) => match identified(name) {
                Err(failure) => Err(failure),
                Ok(model) => if x > u16::MAX {
                    Err(apply_failure("x rotation out of range"@))
                } else if y > u16::MAX {
                    Err(apply_failure("y rotation out of range"@))
                } else if !is_quarter_turn(x as int) || !is_quarter_turn(y as int) {
                    Err(apply_failure("rotation is not a quarter turn"@))
                } else if weight > u32::MAX {
                    Err(apply_failure("weight out of range"@))
                } else if weight == 0 {
                    Err(apply_failure("weight is zero"@))
                } else {
                    Ok(
                        ReferenceModel {
                            model,
                            x: x as u16,
                            y: y as u16,
                            uvlock: tree.member_boolean("uvlock"@) == Some(true),
                            weight: weight as u32,
                        },
                    )
                },
            },
        }
    }
}

/// The models that the first `n` documents apply, or the first failure.
pub open spec fn references_upto(items: Seq<JsonTree>, n: int) -> Result<
    Seq<ReferenceModel>,
    Failure,
>
    decreases n,
{
    if n <= 0 {
        Ok(Seq::empty())
    } else {
        match references_upto(items, n - 1) {
            Err(failure) => Err(failure),
            Ok(before) => match reference_of(items[n - 1]) {
                Err(failure) => Err(failure),
                Ok(reference) => Ok(before.push(reference)),
            },
        }
    }
}

/// The alternatives of a document: its items, or the document alone.
pub open spec fn alternatives(tree: JsonTree) -> Seq<JsonTree> {
    match tree {
        JsonTree::Array(items) => items,
        _ => seq![tree],
    }
}

/// The alternative models that a document applies, from 1 to 256.
pub open spec fn references_of(tree: JsonTree) -> Result<Seq<ReferenceModel>, Failure> {
    let items = alternatives(tree);
    if items.len() == 0 || items.len() > 256 {
        Err(apply_failure("invalid model alternative count"@))
    } else {
        references_upto(items, items.len() as int)
    }
}

proof fn lemma_reference_failure_persists(items: Seq<JsonTree>, m: int, n: int)
    requires
        m <= n,
        references_upto(items, m) is Err,
    ensures
        references_upto(items, n) == references_upto(items, m),
    decreases n - m,
{
    if m < n {
        lemma_reference_failure_persists(items, m, n - 1);
    }
}

fn quarter_turn(degrees: u64) -> (yes: bool)
    ensures
        yes == is_quarter_turn(degrees as int),
{
    degrees == 0 || degrees == 90 || degrees == 180 || degrees == 270
}

fn parse_model_reference(value: &Json) -> (result: Result<ModelReference, BlockResourceError>)
    ensures
        match (result, reference_of(value@)) {
            (Ok(reference), Ok(model)) => reference@ == model,
            (Err(error), Err(failure)) => error@ == failure,
            _ => false,
        },
{
    match value {
        Json::Object(_) => {},
        _ => return Err(malformed("blockstate", "apply", "model reference is not an object")),
    }
    let name: &str = match value.get_text("model") {
        Some(name) => name,
        None => return Err(malformed("blockstate", "apply", "model is missing")),
    };
    let model: String = match parse_identifier(name) {
        Ok(model) => model,
        Err(error) => return Err(error),
    };
    let x: u64 = match value.get_unsigned("x") {
        Some(x) => x,
        None => 0,
    };
    let y: u64 = match value.get_unsigned("y") {
        Some(y) => y,
        None => 0,
    };
    if x > 0xffff {
        return Err(malformed("blockstate", "apply", "x rotation out of range"));
    }
    if y > 0xffff {
        return Err(malformed("blockstate", "apply", "y rotation out of range"));
    }
    if !quarter_turn(x) || !quarter_turn(y) {
        return Err(malformed("blockstate", "apply", "rotation is not a quarter turn"));
    }
    let weight: u64 = match value.get_unsigned("weight") {
        Some(weight) => weight,
        None => 1,
    };
    if weight > 0xffff_ffff {
        return Err(malformed("blockstate", "apply", "weight out of range"));
    }
    if weight == 0 {
        return Err(malformed("blockstate", "apply", "weight is zero"));
    }
    let uvlock: bool = match value.get_boolean("uvlock") {
        Some(uvlock) => uvlock,
        None => false,
    };
    Ok(ModelReference { model, x: x as u16, y: y as u16, uvlock, weight: weight as u32 })
}

/// Reads the alternative models that a document applies.
pub fn parse_model_references(value: &Json) -> (result: Result<
    Vec<ModelReference>,
    BlockResourceError,
>)
    ensures
        match (result, references_of(value@)) {
            (Ok(references), Ok(models)) => reference_views(references@) == models,
            (Err(error), Err(failure)) => error@ == failure,
            _ => false,
        },
{
    let mut references: Vec<ModelReference> = Vec::new();
    match value {
        Json::Array(items) => {
            let ghost trees = value@->Array_0;
            if items.len() == 0 || items.len() > 256 {
                return Err(malformed("blockstate", "apply", "invalid model alternative count"));
            }
            let mut i: usize = 0;
            assert(reference_views(references@) =~= Seq::<ReferenceModel>::empty());
            while i < items.len()
                invariant
                    i <= items@.len() <= 256,
                    items@.len() > 0,
                    *value == Json::Array(*items),
                    trees == value@->Array_0,
                    trees.len() == items@.len(),
                    references_upto(trees, i as int) == Ok::<Seq<ReferenceModel>, Failure>(
                        reference_views(references@),
                    ),
                decreases items@.len() - i,
            {
                assert(trees[i as int] == items@[i as int]@);
                match parse_model_reference(&items[i]) {
                    Ok(reference) => {
                        let ghost before = references@;
                        references.push(reference);
                        assert(reference_views(references@) =~= reference_views(before).push(
                            reference@,
                        ));
                    },
                    Err(error) => {
                        proof {
                            lemma_reference_failure_persists(trees, i + 1, trees.len() as int);
                        }
                        return Err(error);
                    },
                }
                i += 1;
            }
            Ok(references)
        },
        _ => {
            proof {
                reveal_with_fuel(references_upto, 2);
                assert(alternatives(value@) =~= seq![value@]);
            }
            match parse_model_reference(value) {
                Ok(reference) => {
                    references.push(reference);
                    assert(reference_views(references@) =~= Seq::<ReferenceModel>::empty().push(
                        reference@,
                    ));
                    Ok(references)
                },
                Err(error) => Err(error),
            }
        },
    }
}

/// A selector term: a name, an equals sign and a value.
pub open spec fn has_equals(term: Seq<char>) -> bool {
    first_index(term, '=') < term.len()
}

pub open spec fn term_name(term: Seq<char>) -> Seq<char> {
    term.subrange(0, first_index(term, '='))
}

pub open spec fn term_value(term: Seq<char>) -> Seq<char> {
    term.subrange(first_index(term, '=') + 1, term.len() as int)
}

pub open spec fn term_failure(selector: Seq<char>, term: Seq<char>) -> Option<Failure> {
    if !has_equals(term) {
        Some(malformation("blockstate selector"@, selector, "missing equals"@))
    } else if term_name(term).len() == 0 || term_value(term).len() == 0 {
        Some(malformation("blockstate selector"@, selector, "empty property"@))
    } else {
        None
    }
}

/// The first failure among the first `n` terms.
pub open spec fn terms_failure(selector: Seq<char>, terms: Seq<Seq<char>>, n: int) -> Option<Failure>
    decreases n,
{
    if n <= 0 {
        None
    } else {
        match terms_failure(selector, terms, n - 1) {
            Some(failure) => Some(failure),
            None => term_failure(selector, terms[n - 1]),
        }
    }
}

/// What is wrong with a selector: it is empty, or terms with commas between
/// them.
pub open spec fn selector_failure(selector: Seq<char>) -> Option<Failure> {
    if selector.len() == 0 {
        None
    } else {
        let terms = split_parts(selector, ',');
        terms_failure(selector, terms, terms.len() as int)
    }
}

proof fn lemma_term_failure_persists(
    selector: Seq<char>,
    terms: Seq<Seq<char>>,
    m: int,
    n: int,
)
    requires
        m <= n,
        terms_failure(selector, terms, m) is Some,
    ensures
        terms_failure(selector, terms, n) == terms_failure(selector, terms, m),
    decreases n - m,
{
    if m < n {
        lemma_term_failure_persists(selector, terms, m, n - 1);
    }
}

/// The name and the value of a term; none where it has no equals sign.
fn split_term(term: &str) -> (parts: Option<(String, String)>)
    ensures
        match parts {
            Some((name, value)) => has_equals(term@) && name@ == term_name(term@) && value@
                == term_value(term@),
            None => !has_equals(term@),
        },
{
    let chars: Vec<char> = chars_of(term);
    let at: usize = find_char(&chars, 0, '=');
    assert(chars@.subrange(0, chars@.len() as int) =~= term@);
    if at >= chars.len() {
        return None;
    }
    Some((text_of(&chars, 0, at), text_of(&chars, at + 1, chars.len())))
}

pub fn parse_selector(selector: &str) -> (result: Result<(), BlockResourceError>)
    ensures
        match result {
            Ok(()) => selector_failure(selector@) is None,
            Err(error) => selector_failure(selector@) == Some(error@),
        },
{
    if selector.is_empty() {
        return Ok(());
    }
    let terms: Vec<String> = split_text(selector, ',');
    let ghost parts = split_parts(selector@, ',');
    let mut i: usize = 0;
    while i < terms.len()
        invariant
            i <= terms@.len(),
            selector@.len() > 0,
            parts == split_parts(selector@, ','),
            terms@.len() == parts.len(),
            forall|k: int| 0 <= k < terms@.len() ==> #[trigger] terms@[k]@ == parts[k],
            terms_failure(selector@, parts, i as int) is None,
        decreases terms@.len() - i,
    {
        let ghost before = i as int;
        assert(terms@[i as int]@ == parts[i as int]);
        match split_term(terms[i].as_str()) {
            None => {
                proof {
                    lemma_term_failure_persists(selector@, parts, i + 1, parts.len() as int);
                }
                return Err(malformed("blockstate selector", selector, "missing equals"));
            },
            Some((name, value)) => {
                if name.as_str().is_empty() || value.as_str().is_empty() {
                    proof {
                        lemma_term_failure_persists(selector@, parts, i + 1, parts.len() as int);
                    }
                    return Err(malformed("blockstate selector", selector, "empty property"));
                }
            },
        }
        i += 1;
    }
    Ok(())
}

/// Whether a property has the value that a term asks for.
pub open spec fn term_holds(term: Seq<char>, properties: Seq<(String, String)>) -> bool {
    has_equals(term) && value_of(properties, term_name(term)) == Some(term_value(term))
}

/// Whether every term of a selector holds; the empty selector always does.
pub open spec fn selector_holds(selector: Seq<char>, properties: Seq<(String, String)>) -> bool {
    selector.len() == 0 || forall|i: int|
        0 <= i < split_parts(selector, ',').len() ==> term_holds(
            #[trigger] split_parts(selector, ',')[i],
            properties,
        )
}

pub fn selector_matches(selector: &str, properties: &Vec<(String, String)>) -> (yes: bool)
    ensures
        yes == selector_holds(selector@, properties@),
{
    if selector.is_empty() {
        return true;
    }
    let terms: Vec<String> = split_text(selector, ',');
    let ghost parts = split_parts(selector@, ',');
    let mut i: usize = 0;
    while i < terms.len()
        invariant
            i <= terms@.len(),
            selector@.len() > 0,
            parts == split_parts(selector@, ','),
            terms@.len() == parts.len(),
            forall|k: int| 0 <= k < terms@.len() ==> #[trigger] terms@[k]@ == parts[k],
            forall|k: int| 0 <= k < i ==> term_holds(#[trigger] parts[k], properties@),
        decreases terms@.len() - i,
    {
        assert(terms@[i as int]@ == parts[i as int]);
        let holds: bool = match split_term(terms[i].as_str()) {
            None => false,
            Some((name, value)) => match lookup(properties, name.as_str()) {
                Some(actual) => same_text(actual, value.as_str()),
                None => false,
            },
        };
        if !holds {
            assert(!term_holds(parts[i as int], properties@));
            return false;
        }
        i += 1;
    }
    true
}

/// A condition on the properties of a state.
#[derive(Debug)]
pub enum Condition {
    Always,
    Property(String, Vec<String>),
    And(Vec<Condition>),
    Or(Vec<Condition>),
}

/// Whether a condition holds for properties.
pub open spec fn is_met(condition: Condition, properties: Seq<(String, String)>) -> bool
    decreases condition, 0int,
{
    match condition {
        Condition::Always => true,
        Condition::Property(name, values) => match value_of(properties, name@) {
            Some(actual) => lists(values@, actual),
            None => false,
        },
        Condition::And(conditions) => all_met(conditions@, properties),
        Condition::Or(conditions) => any_met(conditions@, properties),
    }
}

pub open spec fn lists(values: Seq<String>, actual: Seq<char>) -> bool {
    exists|i: int| 0 <= i < values.len() && #[trigger] values[i]@ == actual
}

pub open spec fn all_met(conditions: Seq<Condition>, properties: Seq<(String, String)>) -> bool
    decreases conditions, 1int,
{
    forall|i: int| 0 <= i < conditions.len() ==> is_met(#[trigger] conditions[i], properties)
}

pub open spec fn any_met(conditions: Seq<Condition>, properties: Seq<(String, String)>) -> bool
    decreases conditions, 1int,
{
    exists|i: int| 0 <= i < conditions.len() && is_met(#[trigger] conditions[i], properties)
}

impl Condition {
    pub open spec fn holds(self, properties: Seq<(String, String)>) -> bool {
        is_met(self, properties)
    }

    pub fn matches(&self, properties: &Vec<(String, String)>) -> (yes: bool)
        ensures
            yes == self.holds(properties@),
        decreases self,
    {
        match self {
            Condition::Always => true,
            Condition::Property(name, values) => match lookup(properties, name.as_str()) {
                Some(actual) => {
                    let mut i: usize = 0;
                    while i < values.len()
                        invariant
                            i <= values@.len(),
                            *self == Condition::Property(*name, *values),
                            value_of(properties@, name@) == Some(actual@),
                            forall|k: int| 0 <= k < i ==> #[trigger] values@[k]@ != actual@,
                        decreases values@.len() - i,
                    {
                        if same_text(values[i].as_str(), actual) {
                            return true;
                        }
                        i += 1;
                    }
                    false
                },
                None => false,
            },
            Condition::And(conditions) => {
                let mut i: usize = 0;
                while i < conditions.len()
                    invariant
                        i <= conditions@.len(),
                        *self == Condition::And(*conditions),
                        forall|k: int|
                            0 <= k < i ==> (#[trigger] conditions@[k]).holds(properties@),
                    decreases conditions@.len() - i,
                {
                    assert(decreases_to!(*self => self->And_0));
                    assert(decreases_to!(*conditions => conditions@));
                    assert(decreases_to!(conditions@ => conditions@[i as int]));
                    if !conditions[i].matches(properties) {
                        return false;
                    }
                    i += 1;
                }
                true
            },
            Condition::Or(conditions) => {
                let mut i: usize = 0;
                while i < conditions.len()
                    invariant
                        i <= conditions@.len(),
                        *self == Condition::Or(*conditions),
                        forall|k: int|
                            0 <= k < i ==> !(#[trigger] conditions@[k]).holds(properties@),
                    decreases conditions@.len() - i,
                {
                    assert(decreases_to!(*self => self->Or_0));
                    assert(decreases_to!(*conditions => conditions@));
                    assert(decreases_to!(conditions@ => conditions@[i as int]));
                    if conditions[i].matches(properties) {
                        return true;
                    }
                    i += 1;
                }
                false
            },
        }
    }
}

/// Whether one property has one of the values that a document lists for it.
pub open spec fn property_holds(
    name: Seq<char>,
    value: JsonTree,
    properties: Seq<(String, String)>,
) -> bool {
    match (value.text(), value_of(properties, name)) {
        (Some(values), Some(actual)) => exists|i: int|
            0 <= i < split_parts(values, '|').len() && #[trigger] split_parts(values, '|')[i]
                == actual,
        _ => false,
    }
}

/// Whether a document's condition holds: any of the conditions under `OR`, all
/// of those under `AND`, or all of its properties.
pub open spec fn condition_holds(tree: JsonTree, properties: Seq<(String, String)>) -> bool
    decreases tree,
{
    proof {
        lemma_member_is_smaller(tree, "OR"@);
        lemma_member_is_smaller(tree, "AND"@);
    }
    match tree.member("OR"@) {
        Some(JsonTree::Array(items)) => exists|i: int|
            0 <= i < items.len() && condition_holds(#[trigger] items[i], properties),
        Some(_) => false,
        None => match tree.member("AND"@) {
            Some(JsonTree::Array(items)) => forall|i: int|
                0 <= i < items.len() ==> condition_holds(#[trigger] items[i], properties),
            Some(_) => false,
            None => match tree {
                JsonTree::Object(members) => forall|i: int|
                    0 <= i < members.len() ==> property_holds(
                        (#[trigger] members[i]).0,
                        members[i].1,
                        properties,
                    ),
                _ => false,
            },
        },
    }
}

/// The first member among the first `n` that is no text.
pub open spec fn members_failure(members: Seq<(Seq<char>, JsonTree)>, n: int) -> Option<Failure>
    decreases n,
{
    if n <= 0 {
        None
    } else {
        match members_failure(members, n - 1) {
            Some(failure) => Some(failure),
            None => if members[n - 1].1.text() is None {
                Some(
                    malformation(
                        "multipart condition"@,
                        members[n - 1].0,
                        "value is not a string"@,
                    ),
                )
            } else {
                None
            },
        }
    }
}

pub open spec fn list_failure(tree: JsonTree) -> Option<Failure>
    decreases tree, 0int,
{
    match tree {
        JsonTree::Array(items) => conditions_failure(items, items.len() as int),
        _ => Some(
            malformation(
                "multipart condition"@,
                "condition"@,
                "logical condition is not an array"@,
            ),
        ),
    }
}

/// The first failure among the first `n` conditions.
pub open spec fn conditions_failure(items: Seq<JsonTree>, n: int) -> Option<Failure>
    decreases items, n,
{
    if n <= 0 || n > items.len() {
        None
    } else {
        match conditions_failure(items, n - 1) {
            Some(failure) => Some(failure),
            None => condition_failure(items[n - 1]),
        }
    }
}

/// What is wrong with a document's condition.
pub open spec fn condition_failure(tree: JsonTree) -> Option<Failure>
    decreases tree, 0int,
{
    proof {
        lemma_member_is_smaller(tree, "OR"@);
        lemma_member_is_smaller(tree, "AND"@);
    }
    match tree {
        JsonTree::Object(members) => match tree.member("OR"@) {
            Some(list) => list_failure(list),
            None => match tree.member("AND"@) {
                Some(list) => list_failure(list),
                None => members_failure(members, members.len() as int),
            },
        },
        _ => Some(
            malformation("multipart condition"@, "when"@, "condition is not an object"@),
        ),
    }
}

proof fn lemma_members_failure_persists(members: Seq<(Seq<char>, JsonTree)>, m: int, n: int)
    requires
        m <= n,
        members_failure(members, m) is Some,
    ensures
        members_failure(members, n) == members_failure(members, m),
    decreases n - m,
{
    if m < n {
        lemma_members_failure_persists(members, m, n - 1);
    }
}

proof fn lemma_conditions_failure_persists(items: Seq<JsonTree>, m: int, n: int)
    requires
        0 <= m <= n <= items.len(),
        conditions_failure(items, m) is Some,
    ensures
        conditions_failure(items, n) == conditions_failure(items, m),
    decreases n - m,
{
    if m < n {
        lemma_conditions_failure_persists(items, m, n - 1);
    }
}

/// A condition that holds exactly where a document's does.
pub open spec fn same_condition(condition: Condition, tree: JsonTree) -> bool {
    forall|properties: Seq<(String, String)>|
        #![trigger condition.holds(properties)]
        condition.holds(properties) == condition_holds(tree, properties)
}

/// Reads a condition.
pub fn parse_condition(value: &Json) -> (result: Result<Condition, BlockResourceError>)
    ensures
        match result {
            Ok(condition) => condition_failure(value@) is None && same_condition(condition, value@),
            Err(error) => condition_failure(value@) == Some(error@),
        },
    decreases *value,
{
    match value {
        Json::Object(members) => {
            match value.get("OR") {
                Some(list) => return parse_condition_list(list, false, value),
                None => {},
            }
            match value.get("AND") {
                Some(list) => return parse_condition_list(list, true, value),
                None => {},
            }
            parse_properties(value, members)
        },
        _ => Err(malformed("multipart condition", "when", "condition is not an object")),
    }
}

/// A property condition for a member of a condition document.
fn parse_property(name: &str, values: &str) -> (condition: Condition)
    ensures
        forall|properties: Seq<(String, String)>|
            #![trigger condition.holds(properties)]
            condition.holds(properties) == property_holds(
                name@,
                JsonTree::Text(values@),
                properties,
            ),
{
    let parts: Vec<String> = split_text(values, '|');
    let condition: Condition = Condition::Property(name.to_owned(), parts);
    assert forall|properties: Seq<(String, String)>|
        #![trigger condition.holds(properties)]
        condition.holds(properties) == property_holds(
            name@,
            JsonTree::Text(values@),
            properties,
        ) by {
        match value_of(properties, name@) {
            Some(actual) => {
                if property_holds(name@, JsonTree::Text(values@), properties) {
                    let i = choose|i: int|
                        0 <= i < split_parts(values@, '|').len() && #[trigger] split_parts(
                            values@,
                            '|',
                        )[i] == actual;
                    assert(parts@[i]@ == actual);
                }
                if condition.holds(properties) {
                    let i = choose|i: int|
                        0 <= i < parts@.len() && #[trigger] parts@[i]@ == actual;
                    assert(split_parts(values@, '|')[i] == actual);
                }
            },
            None => {},
        }
    }
    condition
}

fn parse_properties(value: &Json, members: &Vec<(String, Json)>) -> (result: Result<
    Condition,
    BlockResourceError,
>)
    requires
        *value == Json::Object(*members),
        value@.member("OR"@) is None,
        value@.member("AND"@) is None,
    ensures
        match result {
            Ok(condition) => condition_failure(value@) is None && same_condition(condition, value@),
            Err(error) => condition_failure(value@) == Some(error@),
        },
{
    let ghost trees = value@->Object_0;
    let mut conditions: Vec<Condition> = Vec::new();
    let mut i: usize = 0;
    while i < members.len()
        invariant
            i <= members@.len(),
            *value == Json::Object(*members),
            value@.member("OR"@) is None,
            value@.member("AND"@) is None,
            trees == value@->Object_0,
            trees.len() == members@.len(),
            conditions@.len() == i,
            members_failure(trees, i as int) is None,
            forall|k: int, properties: Seq<(String, String)>|
                0 <= k < i ==> (#[trigger] conditions@[k].holds(properties)) == property_holds(
                    trees[k].0,
                    trees[k].1,
                    properties,
                ),
        decreases members@.len() - i,
    {
        assert(trees[i as int] == (members@[i as int].0@, members@[i as int].1@));
        match members[i].1.as_text() {
            Some(values) => {
                assert(members@[i as int].1@ == JsonTree::Text(values@));
                conditions.push(parse_property(members[i].0.as_str(), values));
            },
            None => {
                proof {
                    lemma_members_failure_persists(trees, i + 1, trees.len() as int);
                }
                return Err(
                    malformed(
                        "multipart condition",
                        members[i].0.as_str(),
                        "value is not a string",
                    ),
                );
            },
        }
        i += 1;
    }
    let ghost parsed_conditions = conditions@;
    let condition: Condition = Condition::And(conditions);
    assert forall|properties: Seq<(String, String)>|
        #![trigger condition.holds(properties)]
        condition.holds(properties) == condition_holds(value@, properties) by {
        if condition.holds(properties) {
            assert forall|k: int| 0 <= k < trees.len() implies property_holds(
                (#[trigger] trees[k]).0,
                trees[k].1,
                properties,
            ) by {
                assert(parsed_conditions[k].holds(properties));
            }
        }
        if condition_holds(value@, properties) {
            assert forall|k: int| 0 <= k < parsed_conditions.len() implies (
            #[trigger] parsed_conditions[k]).holds(properties) by {
                assert(property_holds(trees[k].0, trees[k].1, properties));
            }
        }
    }
    Ok(condition)
}

/// Reads the conditions under `AND` or under `OR` of a condition document.
fn parse_condition_list(list: &Json, and: bool, value: &Json) -> (result: Result<
    Condition,
    BlockResourceError,
>)
    requires
        value@ is Object,
        and ==> value@.member("OR"@) is None && value@.member("AND"@) == Some(list@),
        !and ==> value@.member("OR"@) == Some(list@),
    ensures
        match result {
            Ok(condition) => condition_failure(value@) is None && same_condition(condition, value@),
            Err(error) => condition_failure(value@) == Some(error@),
        },
    decreases *list,
{
    match list {
        Json::Array(items) => {
            let ghost trees = list@->Array_0;
            let mut conditions: Vec<Condition> = Vec::new();
            let mut i: usize = 0;
            while i < items.len()
                invariant
                    i <= items@.len(),
                    *list == Json::Array(*items),
                    value@ is Object,
                    and ==> value@.member("OR"@) is None && value@.member("AND"@) == Some(list@),
                    !and ==> value@.member("OR"@) == Some(list@),
                    trees == list@->Array_0,
                    trees.len() == items@.len(),
                    conditions@.len() == i,
                    conditions_failure(trees, i as int) is None,
                    forall|k: int|
                        0 <= k < i ==> same_condition(#[trigger] conditions@[k], trees[k]),
                decreases items@.len() - i,
            {
                assert(trees[i as int] == items@[i as int]@);
                assert(decreases_to!(*items => items@));
                assert(decreases_to!(items@ => items@[i as int]));
                match parse_condition(&items[i]) {
                    Ok(condition) => {
                        conditions.push(condition);
                    },
                    Err(error) => {
                        proof {
                            lemma_conditions_failure_persists(
                                trees,
                                i + 1,
                                trees.len() as int,
                            );
                        }
                        return Err(error);
                    },
                }
                i += 1;
            }
            let ghost read = conditions@;
            if and {
                let condition: Condition = Condition::And(conditions);
                assert forall|properties: Seq<(String, String)>|
                    #![trigger condition.holds(properties)]
                    condition.holds(properties) == condition_holds(value@, properties) by {
                    if condition.holds(properties) {
                        assert forall|k: int| 0 <= k < trees.len() implies condition_holds(
                            #[trigger] trees[k],
                            properties,
                        ) by {
                            assert(same_condition(read[k], trees[k]));
                            assert(read[k].holds(properties));
                        }
                    }
                    if condition_holds(value@, properties) {
                        assert forall|k: int| 0 <= k < read.len() implies (
                        #[trigger] read[k]).holds(properties) by {
                            assert(same_condition(read[k], trees[k]));
                            assert(condition_holds(trees[k], properties));
                        }
                    }
                }
                Ok(condition)
            } else {
                let condition: Condition = Condition::Or(conditions);
                assert forall|properties: Seq<(String, String)>|
                    #![trigger condition.holds(properties)]
                    condition.holds(properties) == condition_holds(value@, properties) by {
                    if condition.holds(properties) {
                        let k = choose|k: int|
                            0 <= k < read.len() && (#[trigger] read[k]).holds(properties);
                        assert(same_condition(read[k], trees[k]));
                        assert(condition_holds(trees[k], properties));
                    }
                    if condition_holds(value@, properties) {
                        let k = choose|k: int|
                            0 <= k < trees.len() && condition_holds(
                                #[trigger] trees[k],
                                properties,
                            );
                        assert(same_condition(read[k], trees[k]));
                        assert(read[k].holds(properties));
                    }
                }
                Ok(condition)
            }
        },
        _ => Err(
            malformed(
                "multipart condition",
                "condition",
                "logical condition is not an array",
            ),
        ),
    }
}

/// A condition with the models that apply where it holds.
#[derive(Debug)]
pub struct Multipart {
    pub condition: Condition,
    pub apply: Vec<ModelReference>,
}

/// The models of a block: those of the best matching variant, and those of every
/// part whose condition holds.
#[derive(Debug)]
pub struct BlockstateDefinition {
    pub variants: Vec<(String, Vec<ModelReference>)>,
    pub multipart: Vec<Multipart>,
}

/// The variants of the first `n` members, or the first failure.
pub open spec fn variants_upto(members: Seq<(Seq<char>, JsonTree)>, n: int) -> Result<
    Seq<(Seq<char>, Seq<ReferenceModel>)>,
    Failure,
>
    decreases n,
{
    if n <= 0 {
        Ok(Seq::empty())
    } else {
        match variants_upto(members, n - 1) {
            Err(failure) => Err(failure),
            Ok(before) => match selector_failure(members[n - 1].0) {
                Some(failure) => Err(failure),
                None => match references_of(members[n - 1].1) {
                    Err(failure) => Err(failure),
                    Ok(references) => Ok(before.push((members[n - 1].0, references))),
                },
            },
        }
    }
}

pub open spec fn blockstate_failure(identifier: Seq<char>, reason: Seq<char>) -> Failure {
    malformation("blockstate"@, identifier, reason)
}

/// The variants of a definition document.
pub open spec fn variants_of(tree: JsonTree, identifier: Seq<char>) -> Result<
    Seq<(Seq<char>, Seq<ReferenceModel>)>,
    Failure,
> {
    match tree.member("variants"@) {
        None => Ok(Seq::empty()),
        Some(JsonTree::Object(members)) => variants_upto(members, members.len() as int),
        Some(_) => Err(blockstate_failure(identifier, "variants is not an object"@)),
    }
}

/// A part of a definition document: its condition, if it has one, and its
/// models.
pub struct PartModel {
    pub when: Option<JsonTree>,
    pub apply: Seq<ReferenceModel>,
}

pub open spec fn part_of(entry: JsonTree, identifier: Seq<char>) -> Result<PartModel, Failure> {
    if !(entry is Object) {
        Err(blockstate_failure(identifier, "multipart entry is not an object"@))
    } else {
        let when = entry.member("when"@);
        let wrong = match when {
            Some(condition) => condition_failure(condition),
            None => None,
        };
        match wrong {
            Some(failure) => Err(failure),
            None => match entry.member("apply"@) {
                None => Err(blockstate_failure(identifier, "multipart apply is missing"@)),
                Some(value) => match references_of(value) {
                    Err(failure) => Err(failure),
                    Ok(apply) => Ok(PartModel { when, apply }),
                },
            },
        }
    }
}

pub open spec fn parts_upto(entries: Seq<JsonTree>, identifier: Seq<char>, n: int) -> Result<
    Seq<PartModel>,
    Failure,
>
    decreases n,
{
    if n <= 0 {
        Ok(Seq::empty())
    } else {
        match parts_upto(entries, identifier, n - 1) {
            Err(failure) => Err(failure),
            Ok(before) => match part_of(entries[n - 1], identifier) {
                Err(failure) => Err(failure),
                Ok(part) => Ok(before.push(part)),
            },
        }
    }
}

/// The parts of a definition document, at most 256.
pub open spec fn parts_of(tree: JsonTree, identifier: Seq<char>) -> Result<Seq<PartModel>, Failure> {
    match tree.member("multipart"@) {
        None => Ok(Seq::empty()),
        Some(JsonTree::Array(entries)) => if entries.len() > 256 {
            Err(blockstate_failure(identifier, "too many multipart entries"@))
        } else {
            parts_upto(entries, identifier, entries.len() as int)
        },
        Some(_) => Err(blockstate_failure(identifier, "multipart is not an array"@)),
    }
}

/// A condition that holds exactly where a part's does; a part without one always
/// applies.
pub open spec fn same_when(condition: Condition, when: Option<JsonTree>) -> bool {
    match when {
        Some(tree) => same_condition(condition, tree),
        None => condition is Always,
    }
}

pub open spec fn is_variant(variant: (String, Vec<ModelReference>), model: (
    Seq<char>,
    Seq<ReferenceModel>,
)) -> bool {
    variant.0@ == model.0 && reference_views(variant.1@) == model.1
}

pub open spec fn are_variants(
    variants: Seq<(String, Vec<ModelReference>)>,
    models: Seq<(Seq<char>, Seq<ReferenceModel>)>,
) -> bool {
    &&& variants.len() == models.len()
    &&& forall|i: int| 0 <= i < variants.len() ==> is_variant(#[trigger] variants[i], models[i])
}

pub open spec fn is_part(part: Multipart, model: PartModel) -> bool {
    same_when(part.condition, model.when) && reference_views(part.apply@) == model.apply
}

pub open spec fn are_parts(parts: Seq<Multipart>, models: Seq<PartModel>) -> bool {
    &&& parts.len() == models.len()
    &&& forall|i: int| 0 <= i < parts.len() ==> is_part(#[trigger] parts[i], models[i])
}

/// What is wrong with a definition document, if anything: its variants are read
/// before its parts.
pub open spec fn definition_failure(tree: JsonTree, identifier: Seq<char>) -> Option<Failure> {
    if !(tree is Object) {
        Some(blockstate_failure(identifier, "root is not an object"@))
    } else {
        match variants_of(tree, identifier) {
            Err(failure) => Some(failure),
            Ok(_) => match parts_of(tree, identifier) {
                Err(failure) => Some(failure),
                Ok(_) => None,
            },
        }
    }
}

/// `definition` holds the variants and the parts of a document.
pub open spec fn is_definition(
    definition: BlockstateDefinition,
    tree: JsonTree,
    identifier: Seq<char>,
) -> bool {
    &&& variants_of(tree, identifier) matches Ok(variants) && are_variants(
        definition.variants@,
        variants,
    )
    &&& parts_of(tree, identifier) matches Ok(parts) && are_parts(definition.multipart@, parts)
}

proof fn lemma_variant_failure_persists(members: Seq<(Seq<char>, JsonTree)>, m: int, n: int)
    requires
        m <= n,
        variants_upto(members, m) is Err,
    ensures
        variants_upto(members, n) == variants_upto(members, m),
    decreases n - m,
{
    if m < n {
        lemma_variant_failure_persists(members, m, n - 1);
    }
}

proof fn lemma_part_failure_persists(
    entries: Seq<JsonTree>,
    identifier: Seq<char>,
    m: int,
    n: int,
)
    requires
        m <= n,
        parts_upto(entries, identifier, m) is Err,
    ensures
        parts_upto(entries, identifier, n) == parts_upto(entries, identifier, m),
    decreases n - m,
{
    if m < n {
        lemma_part_failure_persists(entries, identifier, m, n - 1);
    }
}

fn parse_variants(value: &Json, identifier: &str) -> (result: Result<
    Vec<(String, Vec<ModelReference>)>,
    BlockResourceError,
>)
    ensures
        match (result, variants_of(value@, identifier@)) {
            (Ok(variants), Ok(models)) => are_variants(variants@, models),
            (Err(error), Err(failure)) => error@ == failure,
            _ => false,
        },
{
    let mut variants: Vec<(String, Vec<ModelReference>)> = Vec::new();
    let listed: &Json = match value.get("variants") {
        Some(listed) => listed,
        None => return Ok(variants),
    };
    match listed {
        Json::Object(members) => {
            let ghost trees = listed@->Object_0;
            let mut i: usize = 0;
            while i < members.len()
                invariant
                    i <= members@.len(),
                    *listed == Json::Object(*members),
                    value@.member("variants"@) == Some(listed@),
                    trees == listed@->Object_0,
                    trees.len() == members@.len(),
                    variants_upto(trees, i as int) matches Ok(models) && are_variants(
                        variants@,
                        models,
                    ),
                decreases members@.len() - i,
            {
                assert(trees[i as int] == (members@[i as int].0@, members@[i as int].1@));
                let ghost models = variants_upto(trees, i as int)->Ok_0;
                match parse_selector(members[i].0.as_str()) {
                    Ok(()) => {},
                    Err(error) => {
                        proof {
                            lemma_variant_failure_persists(trees, i + 1, trees.len() as int);
                        }
                        return Err(error);
                    },
                }
                match parse_model_references(&members[i].1) {
                    Ok(references) => {
                        let ghost before = variants@;
                        variants.push((members[i].0.clone(), references));
                        proof {
                            let after = variants_upto(trees, i + 1)->Ok_0;
                            assert forall|k: int| 0 <= k < variants@.len() implies is_variant(
                                #[trigger] variants@[k],
                                after[k],
                            ) by {
                                if k < before.len() {
                                    assert(is_variant(before[k], models[k]));
                                }
                            }
                        }
                    },
                    Err(error) => {
                        proof {
                            lemma_variant_failure_persists(trees, i + 1, trees.len() as int);
                        }
                        return Err(error);
                    },
                }
                i += 1;
            }
            Ok(variants)
        },
        _ => Err(malformed("blockstate", identifier, "variants is not an object")),
    }
}

fn parse_part(entry: &Json, identifier: &str) -> (result: Result<Multipart, BlockResourceError>)
    ensures
        match (result, part_of(entry@, identifier@)) {
            (Ok(part), Ok(model)) => is_part(part, model),
            (Err(error), Err(failure)) => error@ == failure,
            _ => false,
        },
{
    match entry {
        Json::Object(_) => {},
        _ => return Err(
            malformed("blockstate", identifier, "multipart entry is not an object"),
        ),
    }
    let condition: Condition = match entry.get("when") {
        Some(when) => match parse_condition(when) {
            Ok(condition) => condition,
            Err(error) => return Err(error),
        },
        None => Condition::Always,
    };
    let value: &Json = match entry.get("apply") {
        Some(value) => value,
        None => return Err(malformed("blockstate", identifier, "multipart apply is missing")),
    };
    match parse_model_references(value) {
        Ok(apply) => Ok(Multipart { condition, apply }),
        Err(error) => Err(error),
    }
}

fn parse_parts(value: &Json, identifier: &str) -> (result: Result<
    Vec<Multipart>,
    BlockResourceError,
>)
    ensures
        match (result, parts_of(value@, identifier@)) {
            (Ok(parts), Ok(models)) => are_parts(parts@, models),
            (Err(error), Err(failure)) => error@ == failure,
            _ => false,
        },
{
    let mut parts: Vec<Multipart> = Vec::new();
    let listed: &Json = match value.get("multipart") {
        Some(listed) => listed,
        None => return Ok(parts),
    };
    match listed {
        Json::Array(entries) => {
            let ghost trees = listed@->Array_0;
            if entries.len() > 256 {
                return Err(malformed("blockstate", identifier, "too many multipart entries"));
            }
            let mut i: usize = 0;
            while i < entries.len()
                invariant
                    i <= entries@.len() <= 256,
                    *listed == Json::Array(*entries),
                    value@.member("multipart"@) == Some(listed@),
                    trees == listed@->Array_0,
                    trees.len() == entries@.len(),
                    parts_upto(trees, identifier@, i as int) matches Ok(models) && are_parts(
                        parts@,
                        models,
                    ),
                decreases entries@.len() - i,
            {
                assert(trees[i as int] == entries@[i as int]@);
                let ghost models = parts_upto(trees, identifier@, i as int)->Ok_0;
                match parse_part(&entries[i], identifier) {
                    Ok(part) => {
                        let ghost before = parts@;
                        parts.push(part);
                        proof {
                            let after = parts_upto(trees, identifier@, i + 1)->Ok_0;
                            assert forall|k: int| 0 <= k < parts@.len() implies is_part(
                                #[trigger] parts@[k],
                                after[k],
                            ) by {
                                if k < before.len() {
                                    assert(is_part(before[k], models[k]));
                                }
                            }
                        }
                    },
                    Err(error) => {
                        proof {
                            lemma_part_failure_persists(
                                trees,
                                identifier@,
                                i + 1,
                                trees.len() as int,
                            );
                        }
                        return Err(error);
                    },
                }
                i += 1;
            }
            Ok(parts)
        },
        _ => Err(malformed("blockstate", identifier, "multipart is not an array")),
    }
}

/// Reads a definition out of a document.
pub fn parse_blockstate(value: &Json, identifier: &str) -> (result: Result<
    BlockstateDefinition,
    BlockResourceError,
>)
    ensures
        match result {
            Ok(definition) => definition_failure(value@, identifier@) is None && is_definition(
                definition,
                value@,
                identifier@,
            ),
            Err(error) => definition_failure(value@, identifier@) == Some(error@),
        },
{
    match value {
        Json::Object(_) => {},
        _ => return Err(malformed("blockstate", identifier, "root is not an object")),
    }
    let variants: Vec<(String, Vec<ModelReference>)> = match parse_variants(value, identifier) {
        Ok(variants) => variants,
        Err(error) => return Err(error),
    };
    let multipart: Vec<Multipart> = match parse_parts(value, identifier) {
        Ok(parts) => parts,
        Err(error) => return Err(error),
    };
    Ok(BlockstateDefinition { variants, multipart })
}

/// Reads the definition of a block from the bytes of its resource, if there are any.
pub fn load_blockstate(bytes: Option<&[u8]>, identifier: &str) -> (result: Result<
    BlockstateDefinition,
    BlockResourceError,
>)
    ensures
        match bytes {
            None => result matches Err(error) && error@ == blockstate_failure(
                identifier@,
                "resource is missing"@,
            ),
            Some(bytes) => match parsed(bytes@) {
                Err(message) => result matches Err(error) && error@ == blockstate_failure(
                    identifier@,
                    message,
                ),
                Ok(tree) => match result {
                    Ok(definition) => definition_failure(tree, identifier@) is None
                        && is_definition(definition, tree, identifier@),
                    Err(error) => definition_failure(tree, identifier@) == Some(error@),
                },
            },
        },
{
    match bytes {
        None => Err(malformed("blockstate", identifier, "resource is missing")),
        Some(bytes) => match parse_json(bytes) {
            Ok(value) => parse_blockstate(&value, identifier),
            Err(message) => Err(malformed("blockstate", identifier, message.as_str())),
        },
    }
}

/// The number of terms of a selector.
pub open spec fn nonempty_parts(parts: Seq<Seq<char>>, n: int) -> int
    decreases n,
{
    if n <= 0 {
        0
    } else {
        nonempty_parts(parts, n - 1) + (if parts[n - 1].len() > 0 {
            1int
        } else {
            0
        })
    }
}

pub open spec fn specificity(selector: Seq<char>) -> int {
    let parts = split_parts(selector, ',');
    nonempty_parts(parts, parts.len() as int)
}

fn count_terms(selector: &str) -> (count: usize)
    ensures
        count == specificity(selector@),
{
    let terms: Vec<String> = split_text(selector, ',');
    let ghost parts = split_parts(selector@, ',');
    let mut count: usize = 0;
    let mut i: usize = 0;
    while i < terms.len()
        invariant
            i <= terms@.len(),
            count <= i,
            parts == split_parts(selector@, ','),
            terms@.len() == parts.len(),
            forall|k: int| 0 <= k < terms@.len() ==> #[trigger] terms@[k]@ == parts[k],
            count == nonempty_parts(parts, i as int),
        decreases terms@.len() - i,
    {
        assert(terms@[i as int]@ == parts[i as int]);
        if !terms[i].as_str().is_empty() {
            count += 1;
        }
        i += 1;
    }
    count
}

/// The matching variant with the most terms among the first `n`, the last of
/// several.
pub open spec fn best_variant(
    variants: Seq<(String, Vec<ModelReference>)>,
    properties: Seq<(String, String)>,
    n: int,
) -> Option<int>
    decreases n,
{
    if n <= 0 {
        None
    } else {
        let before = best_variant(variants, properties, n - 1);
        if !selector_holds(variants[n - 1].0@, properties) {
            before
        } else {
            match before {
                Some(best) => if specificity(variants[n - 1].0@) >= specificity(
                    variants[best].0@,
                ) {
                    Some(n - 1)
                } else {
                    before
                },
                None => Some(n - 1),
            }
        }
    }
}

fn select_variant(
    variants: &Vec<(String, Vec<ModelReference>)>,
    properties: &Vec<(String, String)>,
) -> (index: Option<usize>)
    ensures
        match index {
            Some(found) => found < variants@.len() && best_variant(
                variants@,
                properties@,
                variants@.len() as int,
            ) == Some(found as int),
            None => best_variant(variants@, properties@, variants@.len() as int) is None,
        },
{
    let mut best: Option<usize> = None;
    let mut most: usize = 0;
    let mut i: usize = 0;
    while i < variants.len()
        invariant
            i <= variants@.len(),
            match best {
                Some(found) => found < i && best_variant(variants@, properties@, i as int) == Some(
                    found as int,
                ) && most == specificity(variants@[found as int].0@),
                None => best_variant(variants@, properties@, i as int) is None,
            },
        decreases variants@.len() - i,
    {
        if selector_matches(variants[i].0.as_str(), properties) {
            let terms: usize = count_terms(variants[i].0.as_str());
            if best.is_none() || terms >= most {
                best = Some(i);
                most = terms;
            }
        }
        i += 1;
    }
    best
}

/// The models of the parts among the first `n` whose condition holds.
pub open spec fn applied_parts(
    parts: Seq<Multipart>,
    properties: Seq<(String, String)>,
    n: int,
) -> Seq<Seq<ModelReference>>
    decreases n,
{
    if n <= 0 {
        Seq::empty()
    } else {
        let before = applied_parts(parts, properties, n - 1);
        if is_met(parts[n - 1].condition, properties) {
            before.push(parts[n - 1].apply@)
        } else {
            before
        }
    }
}

/// The groups of alternative models that a state applies: those of the best
/// variant, then those of each part that applies.
pub open spec fn applied_groups(
    definition: BlockstateDefinition,
    properties: Seq<(String, String)>,
) -> Seq<Seq<ModelReference>> {
    let parts = applied_parts(
        definition.multipart@,
        properties,
        definition.multipart@.len() as int,
    );
    match best_variant(definition.variants@, properties, definition.variants@.len() as int) {
        Some(best) => seq![definition.variants@[best].1@] + parts,
        None => parts,
    }
}

/// `groups` are the groups of alternatives in `models`.
pub open spec fn are_groups(groups: Seq<&Vec<ModelReference>>, models: Seq<Seq<ModelReference>>) -> bool {
    &&& groups.len() == models.len()
    &&& forall|i: int| 0 <= i < groups.len() ==> (#[trigger] groups[i])@ == models[i]
}

/// Selects the groups of alternative models that a state applies.
pub fn select_groups<'a>(
    definition: &'a BlockstateDefinition,
    properties: &Vec<(String, String)>,
) -> (groups: Vec<&'a Vec<ModelReference>>)
    ensures
        are_groups(groups@, applied_groups(*definition, properties@)),
{
    let mut groups: Vec<&'a Vec<ModelReference>> = Vec::new();
    let ghost mut first: Seq<Seq<ModelReference>> = Seq::empty();
    match select_variant(&definition.variants, properties) {
        Some(index) => {
            groups.push(&definition.variants[index].1);
            proof {
                first = seq![definition.variants@[index as int].1@];
            }
        },
        None => {},
    }
    let mut i: usize = 0;
    assert(first + applied_parts(definition.multipart@, properties@, 0) =~= first);
    while i < definition.multipart.len()
        invariant
            i <= definition.multipart@.len(),
            are_groups(
                groups@,
                first + applied_parts(definition.multipart@, properties@, i as int),
            ),
        decreases definition.multipart@.len() - i,
    {
        let ghost before = first + applied_parts(definition.multipart@, properties@, i as int);
        if definition.multipart[i].condition.matches(properties) {
            let ghost old_groups = groups@;
            groups.push(&definition.multipart[i].apply);
            proof {
                let after = first + applied_parts(definition.multipart@, properties@, i + 1);
                assert(after =~= before.push(definition.multipart@[i as int].apply@));
                assert forall|k: int| 0 <= k < groups@.len() implies (#[trigger] groups@[k])@
                    == after[k] by {
                    if k < old_groups.len() {
                        assert(old_groups[k]@ == before[k]);
                    }
                }
            }
        }
        i += 1;
    }
    assert(first + applied_parts(
        definition.multipart@,
        properties@,
        definition.multipart@.len() as int,
    ) =~= applied_groups(*definition, properties@));
    groups
}

/// The selected variant matches the state, and no matching variant has more
/// terms.
pub proof fn lemma_best_variant_is_most_specific(
    variants: Seq<(String, Vec<ModelReference>)>,
    properties: Seq<(String, String)>,
    n: int,
)
    requires
        0 <= n <= variants.len(),
    ensures
        match best_variant(variants, properties, n) {
            Some(best) => {
                &&& 0 <= best < n
                &&& selector_holds(variants[best].0@, properties)
                &&& forall|i: int|
                    0 <= i < n && selector_holds((#[trigger] variants[i]).0@, properties)
                        ==> specificity(variants[i].0@) <= specificity(variants[best].0@)
            },
            None => forall|i: int|
                0 <= i < n ==> !selector_holds((#[trigger] variants[i]).0@, properties),
        },
    decreases n,
{
    if n > 0 {
        lemma_best_variant_is_most_specific(variants, properties, n - 1);
    }
}

/// The weight of a group so far with one more alternative: it must fit in an
/// `i32`.
pub open spec fn added_weight(total: u32, reference: ReferenceModel) -> Result<u32, Failure> {
    if total + reference.weight > u32::MAX {
        Err(malformation("blockstate"@, reference.model, "model weight overflow"@))
    } else if total + reference.weight > i32::MAX {
        Err(
            malformation(
                "blockstate"@,
                reference.model,
                "total model weight exceeds the vanilla signed-integer limit"@,
            ),
        )
    } else {
        Ok((total + reference.weight) as u32)
    }
}

pub fn add_weight(total: u32, reference: &ModelReference) -> (result: Result<u32, BlockResourceError>)
    ensures
        match (result, added_weight(total, reference@)) {
            (Ok(sum), Ok(expected)) => sum == expected,
            (Err(error), Err(failure)) => error@ == failure,
            _ => false,
        },
{
    match total.checked_add(reference.weight) {
        None => Err(
            malformed("blockstate", reference.model.as_str(), "model weight overflow"),
        ),
        Some(sum) => if sum > 0x7fff_ffff {
            Err(
                malformed(
                    "blockstate",
                    reference.model.as_str(),
                    "total model weight exceeds the vanilla signed-integer limit",
                ),
            )
        } else {
            Ok(sum)
        },
    }
}

/// A model reference turns the model by what it says for each axis, by quarters, and not
/// at all where it says nothing. Its weight is one where it has none, and its texture is
/// locked only where it says so.
pub proof fn lemma_references_say_what_they_mean(tree: JsonTree)
    ensures
        reference_of(tree) matches Ok(reference) ==> {
            &&& tree.member_unsigned("x"@) matches Some(x) ==> reference.x == x
            &&& tree.member_unsigned("x"@) is None ==> reference.x == 0
            &&& tree.member_unsigned("y"@) matches Some(y) ==> reference.y == y
            &&& tree.member_unsigned("y"@) is None ==> reference.y == 0
            &&& reference.x as int % 90 == 0 && reference.x < 360
            &&& reference.y as int % 90 == 0 && reference.y < 360
            &&& tree.member_unsigned("weight"@) matches Some(weight) ==> reference.weight == weight
            &&& tree.member_unsigned("weight"@) is None ==> reference.weight == 1
            &&& reference.weight > 0
            &&& reference.uvlock <==> tree.member_boolean("uvlock"@) == Some(true)
            &&& tree.member_text("model"@) matches Some(name) && identified(name) == Ok::<
                Seq<char>,
                Failure,
            >(reference.model)
        },
        (tree is Object && (tree.member_text("model"@) matches Some(name) && identified(name) is Ok)
            && (tree.member_unsigned("x"@) matches Some(x) ==> x < 360 && x % 90 == 0) && (
        tree.member_unsigned("y"@) matches Some(y) ==> y < 360 && y % 90 == 0) && (
        tree.member_unsigned("weight"@) matches Some(weight) ==> 0 < weight <= u32::MAX))
            ==> reference_of(tree) is Ok,
{
}

/// A list of references keeps their order and reads each as it stands alone; one that
/// is no list is one reference.
pub proof fn lemma_references_are_read_one_by_one(items: Seq<JsonTree>, n: int)
    requires
        0 <= n <= items.len(),
    ensures
        match references_upto(items, n) {
            Ok(references) => {
                &&& references.len() == n
                &&& forall|i: int|
                    0 <= i < n ==> #[trigger] reference_of(items[i]) == Ok::<
                        ReferenceModel,
                        Failure,
                    >(references[i])
            },
            Err(failure) => exists|i: int|
                {
                    &&& 0 <= i < n
                    &&& #[trigger] reference_of(items[i]) == Err::<ReferenceModel, Failure>(
                        failure,
                    )
                    &&& forall|j: int| 0 <= j < i ==> #[trigger] reference_of(items[j]) is Ok
                },
        },
    decreases n,
{
    if n > 0 {
        lemma_references_are_read_one_by_one(items, n - 1);
        match references_upto(items, n - 1) {
            Ok(before) => {
                assert(reference_of(items[n - 1]) == reference_of(items[n - 1]));
            },
            Err(failure) => {
                let i = choose|i: int|
                    {
                        &&& 0 <= i < n - 1
                        &&& #[trigger] reference_of(items[i]) == Err::<ReferenceModel, Failure>(
                            failure,
                        )
                        &&& forall|j: int| 0 <= j < i ==> #[trigger] reference_of(items[j]) is Ok
                    };
                assert(reference_of(items[i]) is Err);
            },
        }
    }
}

/// A selector of one property holds where the property has the value.
pub proof fn lemma_selector_asks_for_a_value(
    name: Seq<char>,
    value: Seq<char>,
    properties: Seq<(String, String)>,
)
    requires
        !name.contains('='),
        !name.contains(','),
        !value.contains(','),
    ensures
        selector_holds(name + seq!['='] + value, properties) <==> value_of(properties, name)
            == Some(value),
        selector_failure(name + seq!['='] + value) is None <==> name.len() > 0 && value.len() > 0,
{
    let selector = name + seq!['='] + value;
    lemma_first_place_is_where_it_was_put(name, value, '=');
    assert(!selector.contains(',')) by {
        if selector.contains(',') {
            let k = choose|k: int| 0 <= k < selector.len() && selector[k] == ',';
            if k < name.len() {
                assert(name[k] == ',');
            } else if k > name.len() {
                assert(value[k - name.len() - 1] == ',');
            }
        }
    }
    lemma_text_without_it_is_one_part(selector, ',');
    let parts = split_parts(selector, ',');
    assert(parts[0] == selector);
    assert(term_name(selector) =~= name);
    assert(term_value(selector) =~= value);
    reveal_with_fuel(terms_failure, 2);
    if selector_holds(selector, properties) {
        assert(term_holds(parts[0], properties));
    }
}

/// A selector of more than one property holds where all of them hold, and has as many
/// terms as they have together. An empty one always holds.
pub proof fn lemma_selectors_ask_for_all_values(
    first: Seq<char>,
    second: Seq<char>,
    properties: Seq<(String, String)>,
)
    requires
        first.len() > 0,
        second.len() > 0,
    ensures
        selector_holds(first + seq![','] + second, properties) <==> selector_holds(
            first,
            properties,
        ) && selector_holds(second, properties),
        specificity(first + seq![','] + second) == specificity(first) + specificity(second),
        selector_holds(Seq::empty(), properties),
        specificity(Seq::empty()) == 0,
{
    let both = first + seq![','] + second;
    lemma_parts_of_joined_texts(first, second, ',');
    let (a, b, all) = (split_parts(first, ','), split_parts(second, ','), split_parts(both, ','));
    if selector_holds(both, properties) {
        assert forall|i: int| 0 <= i < a.len() implies term_holds(
            #[trigger] a[i],
            properties,
        ) by {
            assert(all[i] == a[i]);
        }
        assert forall|i: int| 0 <= i < b.len() implies term_holds(
            #[trigger] b[i],
            properties,
        ) by {
            assert(all[a.len() + i] == b[i]);
        }
    }
    if selector_holds(first, properties) && selector_holds(second, properties) {
        assert forall|i: int| 0 <= i < all.len() implies term_holds(
            #[trigger] all[i],
            properties,
        ) by {
            if i < a.len() {
                assert(all[i] == a[i]);
            } else {
                assert(all[i] == b[i - a.len()]);
            }
        }
    }
    lemma_terms_of_both(a, b, b.len() as int);
    let empty = Seq::<char>::empty();
    lemma_text_without_it_is_one_part(empty, ',');
    reveal_with_fuel(nonempty_parts, 2);
    assert(split_parts(empty, ',')[0] == empty);
}

proof fn lemma_terms_of_both(a: Seq<Seq<char>>, b: Seq<Seq<char>>, n: int)
    requires
        0 <= n <= b.len(),
    ensures
        nonempty_parts(a + b, a.len() + n) == nonempty_parts(a, a.len() as int) + nonempty_parts(
            b,
            n,
        ),
    decreases n,
{
    if n > 0 {
        lemma_terms_of_both(a, b, n - 1);
        assert((a + b)[a.len() + n - 1] == b[n - 1]);
    } else {
        lemma_terms_of_first(a, b, a.len() as int);
    }
}

proof fn lemma_terms_of_first(a: Seq<Seq<char>>, b: Seq<Seq<char>>, n: int)
    requires
        0 <= n <= a.len(),
    ensures
        nonempty_parts(a + b, n) == nonempty_parts(a, n),
    decreases n,
{
    if n > 0 {
        lemma_terms_of_first(a, b, n - 1);
        assert((a + b)[n - 1] == a[n - 1]);
    }
}

/// Of variants that are equally specific, the last that holds is taken.
pub proof fn lemma_last_of_equal_variants_is_taken(
    variants: Seq<(String, Vec<ModelReference>)>,
    properties: Seq<(String, String)>,
    n: int,
)
    requires
        0 <= n <= variants.len(),
    ensures
        best_variant(variants, properties, n) matches Some(best) ==> forall|i: int|
            best < i < n && selector_holds((#[trigger] variants[i]).0@, properties) ==> specificity(
                variants[i].0@,
            ) < specificity(variants[best].0@),
    decreases n,
{
    if n > 0 {
        lemma_last_of_equal_variants_is_taken(variants, properties, n - 1);
        lemma_best_variant_is_most_specific(variants, properties, n - 1);
    }
}

/// A condition on a property holds where the property has one of the values, and more
/// conditions hold together where all, or where any, of them hold.
pub proof fn lemma_conditions_are_combined(
    conditions: Vec<Condition>,
    longer: Vec<Condition>,
    last: Condition,
    properties: Seq<(String, String)>,
)
    requires
        longer@ == conditions@.push(last),
    ensures
        is_met(Condition::Always, properties),
        is_met(Condition::And(longer), properties) <==> is_met(
            Condition::And(conditions),
            properties,
        ) && is_met(last, properties),
        is_met(Condition::Or(longer), properties) <==> is_met(
            Condition::Or(conditions),
            properties,
        ) || is_met(last, properties),
        conditions@.len() == 0 ==> is_met(Condition::And(conditions), properties) && !is_met(
            Condition::Or(conditions),
            properties,
        ),
{
    let all = longer@;
    let earlier = conditions@;
    assert(all[earlier.len() as int] == last);
    assert forall|i: int| 0 <= i < earlier.len() implies all[i] == #[trigger] earlier[i] by {}
    if all_met(all, properties) {
        assert forall|i: int| 0 <= i < earlier.len() implies is_met(
            #[trigger] earlier[i],
            properties,
        ) by {
            assert(is_met(all[i], properties));
        }
        assert(is_met(all[earlier.len() as int], properties));
    }
    if all_met(earlier, properties) && is_met(last, properties) {
        assert forall|i: int| 0 <= i < all.len() implies is_met(
            #[trigger] all[i],
            properties,
        ) by {
            if i < earlier.len() {
                assert(is_met(earlier[i], properties));
            }
        }
    }
    if any_met(earlier, properties) {
        let i = choose|i: int| 0 <= i < earlier.len() && is_met(#[trigger] earlier[i], properties);
        assert(is_met(all[i], properties));
    }
    if any_met(all, properties) {
        let i = choose|i: int| 0 <= i < all.len() && is_met(#[trigger] all[i], properties);
        if i < earlier.len() {
            assert(is_met(earlier[i], properties));
        }
    }
}

/// A written condition on a property holds where the property has the value, and one
/// that lists values with bars between them where it has any of them.
pub proof fn lemma_listed_values_are_alternatives(
    name: Seq<char>,
    first: Seq<char>,
    second: Seq<char>,
    properties: Seq<(String, String)>,
)
    ensures
        !first.contains('|') ==> (property_holds(name, JsonTree::Text(first), properties)
            <==> value_of(properties, name) == Some(first)),
        property_holds(name, JsonTree::Text(first + seq!['|'] + second), properties)
            <==> property_holds(name, JsonTree::Text(first), properties) || property_holds(
            name,
            JsonTree::Text(second),
            properties,
        ),
{
    if !first.contains('|') {
        lemma_text_without_it_is_one_part(first, '|');
        assert(split_parts(first, '|')[0] == first);
    }
    lemma_parts_of_joined_texts(first, second, '|');
    let both = first + seq!['|'] + second;
    let a = split_parts(first, '|');
    let b = split_parts(second, '|');
    assert(split_parts(both, '|') == a + b);
    lemma_values_are_listed(name, first, properties);
    lemma_values_are_listed(name, second, properties);
    lemma_values_are_listed(name, both, properties);
    if let Some(actual) = value_of(properties, name) {
        if a.contains(actual) {
            let i = choose|i: int| 0 <= i < a.len() && a[i] == actual;
            assert((a + b)[i] == actual);
        }
        if b.contains(actual) {
            let i = choose|i: int| 0 <= i < b.len() && b[i] == actual;
            assert((a + b)[a.len() + i] == actual);
        }
        if (a + b).contains(actual) {
            let i = choose|i: int| 0 <= i < (a + b).len() && (a + b)[i] == actual;
            if i < a.len() {
                assert(a[i] == actual);
            } else {
                assert(b[i - a.len()] == actual);
            }
        }
    }
}

proof fn lemma_values_are_listed(
    name: Seq<char>,
    values: Seq<char>,
    properties: Seq<(String, String)>,
)
    ensures
        property_holds(name, JsonTree::Text(values), properties) <==> (value_of(
            properties,
            name,
        ) matches Some(actual) && split_parts(values, '|').contains(actual)),
{
    assert(JsonTree::Text(values).text() == Some(values));
    if let Some(actual) = value_of(properties, name) {
        let parts = split_parts(values, '|');
        if parts.contains(actual) {
            let i = choose|i: int| 0 <= i < parts.len() && parts[i] == actual;
            assert(split_parts(values, '|')[i] == actual);
            let written = JsonTree::Text(values).text()->Some_0;
            assert(split_parts(written, '|')[i] == value_of(properties, name)->Some_0);
        }
        if property_holds(name, JsonTree::Text(values), properties) {
            let i = choose|i: int|
                0 <= i < split_parts(values, '|').len() && #[trigger] split_parts(values, '|')[i]
                    == actual;
            assert(parts[i] == actual);
        }
    }
}

/// A written condition with alternatives holds where one of them does, one with parts
/// where all of them do, and any other where all the properties that it names agree.
pub proof fn lemma_written_conditions_are_combined(
    tree: JsonTree,
    properties: Seq<(String, String)>,
)
    ensures
        (tree.member("OR"@) matches Some(JsonTree::Array(items)) ==> (condition_holds(
            tree,
            properties,
        ) <==> !(forall|i: int|
            0 <= i < items.len() ==> !condition_holds(#[trigger] items[i], properties)))),
        tree.member("OR"@) is None ==> (tree.member("AND"@) matches Some(JsonTree::Array(items))
            ==> (!condition_holds(tree, properties) <==> exists|i: int|
            0 <= i < items.len() && !condition_holds(#[trigger] items[i], properties))),
        tree.member("OR"@) is None && tree.member("AND"@) is None ==> (tree matches JsonTree::Object(
            members,
        ) ==> (!condition_holds(tree, properties) <==> exists|i: int|
            0 <= i < members.len() && !property_holds(
                (#[trigger] members[i]).0,
                members[i].1,
                properties,
            ))),
{
}

/// The parts of a block that apply are exactly those whose conditions hold, in their
/// order.
pub proof fn lemma_parts_apply_where_their_conditions_hold(
    parts: Seq<Multipart>,
    properties: Seq<(String, String)>,
    n: int,
)
    requires
        0 <= n <= parts.len(),
    ensures
        applied_parts(parts, properties, n) == parts.take(n).filter(
            |part: Multipart| is_met(part.condition, properties),
        ).map_values(|part: Multipart| part.apply@),
    decreases n,
{
    let met = |part: Multipart| is_met(part.condition, properties);
    let apply = |part: Multipart| part.apply@;
    reveal(Seq::filter);
    if n > 0 {
        lemma_parts_apply_where_their_conditions_hold(parts, properties, n - 1);
        let all = parts.take(n);
        assert(all.drop_last() =~= parts.take(n - 1));
        assert(all.last() == parts[n - 1]);
        let kept = parts.take(n - 1).filter(met);
        if met(parts[n - 1]) {
            assert(kept.push(parts[n - 1]).map_values(apply) =~= kept.map_values(apply).push(
                parts[n - 1].apply@,
            ));
        }
    } else {
        assert(parts.take(0).filter(met).map_values(apply) =~= Seq::empty());
    }
}

/// A block shows the models of the variant that is taken, and behind them those of the
/// parts that apply.
pub proof fn lemma_variants_come_before_parts(
    definition: BlockstateDefinition,
    properties: Seq<(String, String)>,
)
    ensures
        ({
            let groups = applied_groups(definition, properties);
            let parts = applied_parts(
                definition.multipart@,
                properties,
                definition.multipart@.len() as int,
            );
            let none = forall|i: int|
                0 <= i < definition.variants@.len() ==> !selector_holds(
                    (#[trigger] definition.variants@[i]).0@,
                    properties,
                );
            &&& none ==> groups == parts
            &&& !none ==> groups.len() == parts.len() + 1 && groups.drop_first() == parts && exists|
                i: int,
            |
                0 <= i < definition.variants@.len() && selector_holds(
                    (#[trigger] definition.variants@[i]).0@,
                    properties,
                ) && groups[0] == definition.variants@[i].1@
        }),
{
    lemma_best_variant_is_most_specific(
        definition.variants@,
        properties,
        definition.variants@.len() as int,
    );
    let groups = applied_groups(definition, properties);
    let parts = applied_parts(
        definition.multipart@,
        properties,
        definition.multipart@.len() as int,
    );
    if let Some(best) = best_variant(
        definition.variants@,
        properties,
        definition.variants@.len() as int,
    ) {
        assert(groups.drop_first() =~= parts);
        assert(selector_holds(definition.variants@[best].0@, properties));
    }
}

/// Weights are added up, as far as their sum fits in 31 bits.
pub proof fn lemma_weights_are_added(total: u32, reference: ReferenceModel)
    ensures
        added_weight(total, reference) is Ok <==> total + reference.weight < 0x8000_0000,
        added_weight(total, reference) matches Ok(sum) ==> sum - total == reference.weight,
{
}

proof fn lemma_read_variants(members: Seq<(Seq<char>, JsonTree)>, n: int)
    requires
        0 <= n <= members.len(),
    ensures
        variants_upto(members, n) matches Ok(variants) ==> variants.len() == n && forall|i: int|
            0 <= i < n ==> (#[trigger] variants[i]).0 == members[i].0 && references_of(members[i].1)
                == Ok::<Seq<ReferenceModel>, Failure>(variants[i].1) && selector_failure(
                members[i].0,
            ) is None,
        variants_upto(members, n) is Err ==> exists|i: int|
            0 <= i < n && (selector_failure((#[trigger] members[i]).0) is Some || references_of(
                members[i].1,
            ) is Err),
    decreases n,
{
    if n > 0 {
        lemma_read_variants(members, n - 1);
        assert(members[n - 1] == members[n - 1]);
    }
}

proof fn lemma_read_parts(entries: Seq<JsonTree>, identifier: Seq<char>, n: int)
    requires
        0 <= n <= entries.len(),
    ensures
        parts_upto(entries, identifier, n) matches Ok(parts) ==> parts.len() == n && forall|i: int|
            0 <= i < n ==> part_of(entries[i], identifier) == Ok::<PartModel, Failure>(
                #[trigger] parts[i],
            ),
    decreases n,
{
    if n > 0 {
        lemma_read_parts(entries, identifier, n - 1);
    }
}

/// A definition has the variants of its document in their order, each under its selector
/// with its models.
pub proof fn lemma_variants_are_those_of_the_document(
    definition: BlockstateDefinition,
    tree: JsonTree,
    identifier: Seq<char>,
    members: Seq<(Seq<char>, JsonTree)>,
    i: int,
)
    requires
        is_definition(definition, tree, identifier),
        tree.member("variants"@) == Some(JsonTree::Object(members)),
        0 <= i < members.len(),
    ensures
        definition.variants@.len() == members.len(),
        definition.variants@[i].0@ == members[i].0,
        references_of(members[i].1) == Ok::<Seq<ReferenceModel>, Failure>(
            reference_views(definition.variants@[i].1@),
        ),
{
    lemma_read_variants(members, members.len() as int);
    assert(is_variant(definition.variants@[i], variants_of(tree, identifier)->Ok_0[i]));
}

/// A definition has the parts of its document in their order, each with its models. A part
/// applies where the condition that is written for it holds, and always where none is.
pub proof fn lemma_parts_are_those_of_the_document(
    definition: BlockstateDefinition,
    tree: JsonTree,
    identifier: Seq<char>,
    entries: Seq<JsonTree>,
    i: int,
    properties: Seq<(String, String)>,
)
    requires
        is_definition(definition, tree, identifier),
        tree.member("multipart"@) == Some(JsonTree::Array(entries)),
        0 <= i < entries.len(),
    ensures
        entries.len() <= 256,
        definition.multipart@.len() == entries.len(),
        entries[i].member("when"@) matches Some(when) ==> (is_met(
            definition.multipart@[i].condition,
            properties,
        ) <==> condition_holds(when, properties)),
        entries[i].member("when"@) is None ==> is_met(
            definition.multipart@[i].condition,
            properties,
        ),
        entries[i].member("apply"@) matches Some(apply) && references_of(apply) == Ok::<
            Seq<ReferenceModel>,
            Failure,
        >(reference_views(definition.multipart@[i].apply@)),
{
    lemma_read_parts(entries, identifier, entries.len() as int);
    let model = parts_of(tree, identifier)->Ok_0[i];
    let part = definition.multipart@[i];
    assert(is_part(part, model));
    assert(part_of(entries[i], identifier) == Ok::<PartModel, Failure>(model));
    assert(part.condition.holds(properties) == is_met(part.condition, properties));
}

/// Without variants, or without parts, a definition has none.
pub proof fn lemma_what_is_not_written_is_not_read(
    definition: BlockstateDefinition,
    tree: JsonTree,
    identifier: Seq<char>,
)
    requires
        is_definition(definition, tree, identifier),
    ensures
        tree.member("variants"@) is None ==> definition.variants@.len() == 0,
        tree.member("multipart"@) is None ==> definition.multipart@.len() == 0,
{
}

/// A condition is accepted where it is an object: one of alternatives or of parts where
/// each of them is accepted, and any other where all its values are texts.
pub proof fn lemma_conditions_are_accepted(tree: JsonTree)
    ensures
        condition_failure(tree) is None ==> tree is Object,
        tree.member("OR"@) matches Some(list) ==> (condition_failure(tree) is None <==> (
        list matches JsonTree::Array(items) && forall|i: int|
            0 <= i < items.len() ==> condition_failure(#[trigger] items[i]) is None)),
        tree.member("OR"@) is None ==> (tree.member("AND"@) matches Some(list) ==> (
        condition_failure(tree) is None <==> (list matches JsonTree::Array(items) && forall|i: int|
            0 <= i < items.len() ==> condition_failure(#[trigger] items[i]) is None))),
        tree.member("OR"@) is None && tree.member("AND"@) is None ==> (tree matches JsonTree::Object(
            members,
        ) ==> (condition_failure(tree) is None <==> forall|i: int|
            0 <= i < members.len() ==> (#[trigger] members[i]).1 is Text)),
{
    if let JsonTree::Object(members) = tree {
        lemma_texts_are_accepted(members, members.len() as int);
        if let Some(JsonTree::Array(items)) = tree.member("OR"@) {
            lemma_all_are_accepted(items, items.len() as int);
        } else if let Some(JsonTree::Array(items)) = tree.member("AND"@) {
            lemma_all_are_accepted(items, items.len() as int);
        }
    }
}

proof fn lemma_texts_are_accepted(members: Seq<(Seq<char>, JsonTree)>, n: int)
    requires
        0 <= n <= members.len(),
    ensures
        members_failure(members, n) is None <==> forall|i: int|
            0 <= i < n ==> (#[trigger] members[i]).1 is Text,
    decreases n,
{
    if n > 0 {
        lemma_texts_are_accepted(members, n - 1);
        assert(members[n - 1].1.text() is None <==> !(members[n - 1].1 is Text));
    }
}

proof fn lemma_all_are_accepted(items: Seq<JsonTree>, n: int)
    requires
        0 <= n <= items.len(),
    ensures
        conditions_failure(items, n) is None <==> forall|i: int|
            0 <= i < n ==> condition_failure(#[trigger] items[i]) is None,
    decreases n,
{
    if n > 0 {
        lemma_all_are_accepted(items, n - 1);
        assert(items[n - 1] == items[n - 1]);
    }
}

/// From one to 256 models may be given for the same state.
pub proof fn lemma_alternatives_are_limited(tree: JsonTree, items: Seq<JsonTree>)
    ensures
        references_of(JsonTree::Array(items)) is Ok ==> 1 <= items.len() <= 256,
        1 <= items.len() <= 256 ==> references_of(JsonTree::Array(items)) == references_upto(
            items,
            items.len() as int,
        ),
        !(tree is Array) ==> references_of(tree) == references_upto(seq![tree], 1),
{
}

/// A condition on a property holds where the property has one of the values, and not where
/// the block lacks the property.
pub proof fn lemma_properties_have_one_of_the_values(
    name: String,
    values: Vec<String>,
    properties: Seq<(String, String)>,
)
    ensures
        value_of(properties, name@) is None ==> !is_met(
            Condition::Property(name, values),
            properties,
        ),
        forall|i: int|
            0 <= i < values@.len() && value_of(properties, name@) == Some(
                (#[trigger] values@[i])@,
            ) ==> is_met(Condition::Property(name, values), properties),
        is_met(Condition::Property(name, values), properties) ==> exists|i: int|
            0 <= i < values@.len() && value_of(properties, name@) == Some(
                (#[trigger] values@[i])@,
            ),
{
}

} // verus!
