//! Resolution of models: what they inherit from their parents.

use crate::error::{malformation, malformed, BlockResourceError, Failure};
use crate::identifiers::{has_colon, identified, parse_identifier, resource_location, resource_path};
use crate::models::{
    ElementWire, ModelWire, ResolvedModel, TextureWire, MAX_ELEMENTS, MAX_MODEL_DEPTH,
};
use crate::names::NameMap;
use crate::text::same_text;
use std::rc::Rc;
use vstd::prelude::*;

verus! {

/// What a resolved model says.
pub struct ModelModel {
    pub textures: Map<Seq<char>, Seq<char>>,
    pub elements: Seq<ElementWire>,
    pub ambient_occlusion: bool,
    pub gui_transform: Option<usize>,
    pub gui_light_side: bool,
}

pub open spec fn texts(textures: Map<Seq<char>, String>) -> Map<Seq<char>, Seq<char>> {
    textures.map_values(|text: String| text@)
}

impl View for ResolvedModel {
    type V = ModelModel;

    open spec fn view(&self) -> ModelModel {
        ModelModel {
            textures: texts(self.textures@),
            elements: self.elements@,
            ambient_occlusion: self.ambient_occlusion,
            gui_transform: self.gui_transform,
            gui_light_side: self.gui_light_side,
        }
    }
}

impl ResolvedModel {
    pub open spec fn well_formed(self) -> bool {
        self.textures.well_formed()
    }
}

/// A model that inherits from none. It says nothing itself.
pub open spec fn blank_model(gui_light_side: bool) -> ModelModel {
    ModelModel {
        textures: Map::empty(),
        elements: Seq::empty(),
        ambient_occlusion: true,
        gui_transform: None,
        gui_light_side,
    }
}

fn blank(gui_light_side: bool) -> (model: ResolvedModel)
    ensures
        model.well_formed(),
        model@ == blank_model(gui_light_side),
{
    let model: ResolvedModel = ResolvedModel {
        textures: NameMap::new(),
        elements: Rc::new(Vec::new()),
        ambient_occlusion: true,
        gui_transform: None,
        gui_light_side,
    };
    assert(texts(model.textures@) =~= Map::<Seq<char>, Seq<char>>::empty());
    assert(model.elements@ =~= Seq::<ElementWire>::empty());
    model
}

/// The textures with the first `n` of a model's own in place of those of the same
/// name.
pub open spec fn overridden(
    textures: Map<Seq<char>, Seq<char>>,
    own: Seq<(String, TextureWire)>,
    n: int,
) -> Map<Seq<char>, Seq<char>>
    decreases n,
{
    if n <= 0 {
        textures
    } else {
        overridden(textures, own, n - 1).insert(own[n - 1].0@, own[n - 1].1.sprite_name())
    }
}

pub open spec fn given_or<T>(value: Option<T>, default: T) -> T {
    match value {
        Some(value) => value,
        None => default,
    }
}

/// A model made of what its parent says and what it says itself: what it says
/// comes in place of what the parent does.
pub open spec fn inherited(parent: ModelModel, wire: ModelWire, identifier: Seq<char>) -> Result<
    ModelModel,
    Failure,
> {
    if wire.elements matches Some(elements) && elements@.len() > MAX_ELEMENTS {
        Err(malformation("model"@, identifier, "too many elements"@))
    } else {
        Ok(
            ModelModel {
                textures: overridden(
                    parent.textures,
                    wire.textures@,
                    wire.textures@.len() as int,
                ),
                elements: match wire.elements {
                    Some(elements) => elements@,
                    None => parent.elements,
                },
                ambient_occlusion: given_or(wire.ambientocclusion, parent.ambient_occlusion),
                gui_transform: match wire.gui_transform {
                    Some(transform) => Some(transform),
                    None => parent.gui_transform,
                },
                gui_light_side: match wire.gui_light {
                    Some(light) => light@ != "front"@,
                    None => parent.gui_light_side,
                },
            },
        )
    }
}

fn copy_textures(textures: &NameMap<String>) -> (copy: NameMap<String>)
    requires
        textures.well_formed(),
    ensures
        copy.well_formed(),
        texts(copy@) == texts(textures@),
{
    let mut entries: Vec<(String, String)> = Vec::new();
    let mut i: usize = 0;
    while i < textures.entries.len()
        invariant
            i <= textures.entries@.len(),
            entries@ == textures.entries@.take(i as int),
        decreases textures.entries@.len() - i,
    {
        entries.push((textures.entries[i].0.clone(), textures.entries[i].1.clone()));
        assert(entries@ =~= textures.entries@.take(i + 1));
        i += 1;
    }
    assert(entries@ =~= textures.entries@);
    NameMap { entries }
}

fn copy_model(model: &ResolvedModel) -> (copy: ResolvedModel)
    requires
        model.well_formed(),
    ensures
        copy.well_formed(),
        copy@ == model@,
{
    ResolvedModel {
        textures: copy_textures(&model.textures),
        elements: model.elements.clone(),
        ambient_occlusion: model.ambient_occlusion,
        gui_transform: model.gui_transform,
        gui_light_side: model.gui_light_side,
    }
}

/// Completes a model with what its parent says.
pub fn inherit(parent: &ResolvedModel, wire: &ModelWire, identifier: &str) -> (result: Result<
    ResolvedModel,
    BlockResourceError,
>)
    requires
        parent.well_formed(),
    ensures
        match (result, inherited(parent@, *wire, identifier@)) {
            (Ok(model), Ok(expected)) => model.well_formed() && model@ == expected,
            (Err(error), Err(failure)) => error@ == failure,
            _ => false,
        },
{
    let mut textures: NameMap<String> = copy_textures(&parent.textures);
    let mut i: usize = 0;
    while i < wire.textures.len()
        invariant
            i <= wire.textures@.len(),
            textures.well_formed(),
            texts(textures@) == overridden(parent@.textures, wire.textures@, i as int),
        decreases wire.textures@.len() - i,
    {
        let sprite: String = wire.textures[i].1.copy_sprite();
        let ghost before = textures@;
        textures.insert(wire.textures[i].0.clone(), sprite);
        assert(texts(textures@) =~= texts(before).insert(
            wire.textures@[i as int].0@,
            sprite@,
        ));
        i += 1;
    }
    let elements: Rc<Vec<ElementWire>> = match &wire.elements {
        Some(elements) => {
            if elements.len() > MAX_ELEMENTS {
                return Err(malformed("model", identifier, "too many elements"));
            }
            elements.clone()
        },
        None => parent.elements.clone(),
    };
    let gui_light_side: bool = match &wire.gui_light {
        Some(light) => !same_text(light.as_str(), "front"),
        None => parent.gui_light_side,
    };
    Ok(
        ResolvedModel {
            textures,
            elements,
            ambient_occlusion: match wire.ambientocclusion {
                Some(value) => value,
                None => parent.ambient_occlusion,
            },
            gui_transform: match wire.gui_transform {
                Some(transform) => Some(transform),
                None => parent.gui_transform,
            },
            gui_light_side,
        },
    )
}

/// Models that wait for their parents: each with what it says itself, from the
/// one that was asked for to the one whose parent is looked for.
pub type Links = Seq<(String, ModelWire)>;

/// The model of the `n`-th link, where the last one inherits from `base`.
pub open spec fn linked(links: Links, base: ModelModel, n: int) -> Result<ModelModel, Failure>
    decreases links.len() - n,
{
    if n >= links.len() {
        Ok(base)
    } else {
        match linked(links, base, n + 1) {
            Err(failure) => Err(failure),
            Ok(parent) => inherited(parent, links[n].1, links[n].0@),
        }
    }
}

/// The known models, with those of the links from the `n`-th on.
pub open spec fn learned(
    known: Map<Seq<char>, ModelModel>,
    links: Links,
    base: ModelModel,
    n: int,
) -> Map<Seq<char>, ModelModel>
    decreases links.len() - n,
{
    if n >= links.len() {
        known
    } else {
        let before = learned(known, links, base, n + 1);
        match linked(links, base, n) {
            Ok(model) => before.insert(links[n].0@, model),
            Err(_) => before,
        }
    }
}

proof fn lemma_link_failure(
    known: Map<Seq<char>, ModelModel>,
    links: Links,
    base: ModelModel,
    n: int,
    k: int,
)
    requires
        0 <= n <= k < links.len(),
        linked(links, base, k) is Err,
    ensures
        linked(links, base, n) == linked(links, base, k),
        learned(known, links, base, n) == learned(known, links, base, k + 1),
    decreases k - n,
{
    if n < k {
        lemma_link_failure(known, links, base, n + 1, k);
    }
}

/// What to do next to resolve a model.
#[derive(Debug)]
pub enum ModelStep {
    Resolved(ResolvedModel),
    /// A model is not known: it has to be read.
    Read { identifier: String, path: String },
    Failed(BlockResourceError),
}

pub enum StepModel {
    Resolved(ModelModel),
    Read { identifier: Seq<char>, path: Seq<char> },
    Failed(Failure),
}

impl View for ModelStep {
    type V = StepModel;

    open spec fn view(&self) -> StepModel {
        match self {
            ModelStep::Resolved(model) => StepModel::Resolved(model@),
            ModelStep::Read { identifier, path } => StepModel::Read {
                identifier: identifier@,
                path: path@,
            },
            ModelStep::Failed(error) => StepModel::Failed(error@),
        }
    }
}

pub open spec fn completed(links: Links, base: ModelModel) -> StepModel {
    match linked(links, base, 0) {
        Ok(model) => StepModel::Resolved(model),
        Err(failure) => StepModel::Failed(failure),
    }
}

/// The models that are built in: they are roots, and no resource holds them.
pub open spec fn is_built_in(identifier: Seq<char>) -> bool {
    identifier == "minecraft:builtin/generated"@ || identifier == "minecraft:builtin/entity"@
}

pub open spec fn waits(links: Links, identifier: Seq<char>) -> bool {
    exists|i: int| 0 <= i < links.len() && (#[trigger] links[i]).0@ == identifier
}

/// The next step towards a model, for those that wait for it.
pub open spec fn step_towards(
    known: Map<Seq<char>, ModelModel>,
    links: Links,
    identifier: Seq<char>,
) -> StepModel {
    if known.contains_key(identifier) {
        completed(links, known[identifier])
    } else if is_built_in(identifier) {
        completed(links, blank_model(identifier == "minecraft:builtin/entity"@))
    } else if links.len() >= MAX_MODEL_DEPTH || waits(links, identifier) {
        StepModel::Failed(malformation("model"@, identifier, "parent cycle or depth limit"@))
    } else if has_colon(identifier) {
        StepModel::Read {
            identifier,
            path: resource_location(identifier, "models"@, "json"@),
        }
    } else {
        StepModel::Failed(Failure::Identifier { value: identifier })
    }
}

/// The known models after that step.
pub open spec fn known_after(
    known: Map<Seq<char>, ModelModel>,
    links: Links,
    identifier: Seq<char>,
) -> Map<Seq<char>, ModelModel> {
    if known.contains_key(identifier) {
        learned(known, links, known[identifier], 0)
    } else if is_built_in(identifier) {
        let base = blank_model(identifier == "minecraft:builtin/entity"@);
        learned(known.insert(identifier, base), links, base, 0)
    } else {
        known
    }
}

/// What was read of a model: nothing where there is none, or why it could not be
/// understood.
pub type Answer = Option<Result<ModelWire, String>>;

/// The links once a model is read.
pub open spec fn links_with(links: Links, identifier: String, wire: ModelWire) -> Links {
    links.push((identifier, wire))
}

/// The models that were resolved, and those that wait for their parents.
#[derive(Debug)]
pub struct ModelResolver {
    pub models: NameMap<ResolvedModel>,
    pub links: Vec<(String, ModelWire)>,
}

impl ModelResolver {
    /// The models that were resolved.
    pub open spec fn known(self) -> Map<Seq<char>, ModelModel> {
        self.models@.map_values(|model: ResolvedModel| model@)
    }

    pub open spec fn well_formed(self) -> bool {
        &&& self.models.well_formed()
        &&& forall|name: Seq<char>| #[trigger]
            self.models@.contains_key(name) ==> self.models@[name].well_formed()
    }

    pub fn new() -> (resolver: Self)
        ensures
            resolver.well_formed(),
            resolver.known() == Map::<Seq<char>, ModelModel>::empty(),
            resolver.links@.len() == 0,
    {
        let resolver: ModelResolver = ModelResolver { models: NameMap::new(), links: Vec::new() };
        assert(resolver.known() =~= Map::<Seq<char>, ModelModel>::empty());
        resolver
    }

    fn remember(&mut self, identifier: &String, model: &ResolvedModel)
        requires
            old(self).well_formed(),
            model.well_formed(),
        ensures
            final(self).well_formed(),
            final(self).known() == old(self).known().insert(identifier@, model@),
            final(self).links == old(self).links,
    {
        let copy: ResolvedModel = copy_model(model);
        let ghost before = self.models@;
        self.models.insert(identifier.clone(), copy);
        assert(self.models@ == before.insert(identifier@, copy));
        assert(self.known() =~= old(self).known().insert(identifier@, model@));
    }

    /// Completes the models that wait, now that the base of the last one is known.
    fn complete(&mut self, base: ResolvedModel) -> (step: ModelStep)
        requires
            old(self).well_formed(),
            base.well_formed(),
        ensures
            final(self).well_formed(),
            final(self).links == old(self).links,
            step@ == completed(old(self).links@, base@),
            step matches ModelStep::Resolved(model) ==> model.well_formed(),
            final(self).known() == learned(old(self).known(), old(self).links@, base@, 0),
    {
        let mut current: ResolvedModel = base;
        let mut k: usize = self.links.len();
        let ghost links = self.links@;
        while k > 0
            invariant
                k <= links.len(),
                self.links == old(self).links,
                links == old(self).links@,
                self.well_formed(),
                current.well_formed(),
                linked(links, base@, k as int) == Ok::<ModelModel, Failure>(current@),
                self.known() == learned(old(self).known(), links, base@, k as int),
            decreases k,
        {
            k -= 1;
            match inherit(&current, &self.links[k].1, self.links[k].0.as_str()) {
                Ok(model) => {
                    let name: String = self.links[k].0.clone();
                    self.remember(&name, &model);
                    current = model;
                },
                Err(error) => {
                    proof {
                        lemma_link_failure(old(self).known(), links, base@, 0, k as int);
                    }
                    return ModelStep::Failed(error);
                },
            }
        }
        ModelStep::Resolved(current)
    }

    fn is_waiting(&self, identifier: &str) -> (yes: bool)
        ensures
            yes == waits(self.links@, identifier@),
    {
        let mut i: usize = 0;
        while i < self.links.len()
            invariant
                i <= self.links@.len(),
                forall|k: int| 0 <= k < i ==> (#[trigger] self.links@[k]).0@ != identifier@,
            decreases self.links@.len() - i,
        {
            if same_text(self.links[i].0.as_str(), identifier) {
                assert(self.links@[i as int].0@ == identifier@);
                return true;
            }
            i += 1;
        }
        false
    }

    fn step(&mut self, identifier: &str) -> (step: ModelStep)
        requires
            old(self).well_formed(),
        ensures
            final(self).well_formed(),
            final(self).links == old(self).links,
            step@ == step_towards(old(self).known(), old(self).links@, identifier@),
            step matches ModelStep::Resolved(model) ==> model.well_formed(),
            final(self).known() == known_after(
                old(self).known(),
                old(self).links@,
                identifier@,
            ),
    {
        let cached: Option<ResolvedModel> = match self.models.get(identifier) {
            Some(model) => Some(copy_model(model)),
            None => None,
        };
        match cached {
            Some(base) => {
                return self.complete(base);
            },
            None => {},
        }
        if same_text(identifier, "minecraft:builtin/generated") || same_text(
            identifier,
            "minecraft:builtin/entity",
        ) {
            let base: ResolvedModel = blank(same_text(identifier, "minecraft:builtin/entity"));
            let name: String = identifier.to_owned();
            self.remember(&name, &base);
            return self.complete(base);
        }
        if self.links.len() >= MAX_MODEL_DEPTH || self.is_waiting(identifier) {
            return ModelStep::Failed(
                malformed("model", identifier, "parent cycle or depth limit"),
            );
        }
        match resource_path(identifier, "models", "json") {
            Ok(path) => ModelStep::Read { identifier: identifier.to_owned(), path },
            Err(error) => ModelStep::Failed(error),
        }
    }

    /// Begins to resolve a model.
    pub fn begin(&mut self, identifier: &str) -> (step: ModelStep)
        requires
            old(self).well_formed(),
        ensures
            final(self).well_formed(),
            final(self).links@.len() == 0,
            step@ == step_towards(old(self).known(), Seq::empty(), identifier@),
            step matches ModelStep::Resolved(model) ==> model.well_formed(),
            final(self).known() == known_after(old(self).known(), Seq::empty(), identifier@),
    {
        self.links = Vec::new();
        assert(self.links@ =~= Seq::empty());
        self.step(identifier)
    }

    /// Goes on with what was read of a model. Where the model names a parent, the
    /// parent is looked for next.
    pub fn supply(&mut self, identifier: String, answer: Answer) -> (step: ModelStep)
        requires
            old(self).well_formed(),
        ensures
            final(self).well_formed(),
            step matches ModelStep::Resolved(model) ==> model.well_formed(),
            match answer {
                None => {
                    &&& step@ == StepModel::Failed(
                        malformation("model"@, identifier@, "resource is missing"@),
                    )
                    &&& *final(self) == *old(self)
                },
                Some(Err(message)) => {
                    &&& step@ == StepModel::Failed(
                        malformation("model"@, identifier@, message@),
                    )
                    &&& *final(self) == *old(self)
                },
                Some(Ok(wire)) => match wire.parent {
                    None => {
                        let links = links_with(old(self).links@, identifier, wire);
                        &&& final(self).links@ == links
                        &&& step@ == completed(links, blank_model(true))
                        &&& final(self).known() == learned(
                            old(self).known(),
                            links,
                            blank_model(true),
                            0,
                        )
                    },
                    Some(parent) => match identified(parent@) {
                        Err(failure) => {
                            &&& step@ == StepModel::Failed(failure)
                            &&& *final(self) == *old(self)
                        },
                        Ok(name) => {
                            let links = links_with(old(self).links@, identifier, wire);
                            &&& final(self).links@ == links
                            &&& step@ == step_towards(old(self).known(), links, name)
                            &&& final(self).known() == known_after(
                                old(self).known(),
                                links,
                                name,
                            )
                        },
                    },
                },
            },
    {
        let wire: ModelWire = match answer {
            None => {
                return ModelStep::Failed(
                    malformed("model", identifier.as_str(), "resource is missing"),
                );
            },
            Some(Err(message)) => {
                return ModelStep::Failed(
                    malformed("model", identifier.as_str(), message.as_str()),
                );
            },
            Some(Ok(wire)) => wire,
        };
        let parent: Option<String> = match &wire.parent {
            None => None,
            Some(parent) => match parse_identifier(parent.as_str()) {
                Ok(name) => Some(name),
                Err(error) => {
                    return ModelStep::Failed(error);
                },
            },
        };
        self.links.push((identifier, wire));
        match parent {
            None => self.complete(blank(true)),
            Some(name) => self.step(name.as_str()),
        }
    }
}

/// No model waits twice, and no more than the depth allows.
pub open spec fn is_bounded(links: Links) -> bool {
    &&& links.len() <= MAX_MODEL_DEPTH
    &&& forall|i: int, j: int|
        0 <= i < j < links.len() ==> (#[trigger] links[i]).0@ != (#[trigger] links[j]).0@
}

/// Only a model that does not wait yet is read, and only while fewer wait than the
/// depth allows. So the models that wait stay bounded and no parent is ever
/// followed in a circle.
pub proof fn lemma_reading_stays_bounded(
    known: Map<Seq<char>, ModelModel>,
    links: Links,
    identifier: String,
    wire: ModelWire,
)
    requires
        is_bounded(links),
        step_towards(known, links, identifier@) is Read,
    ensures
        is_bounded(links_with(links, identifier, wire)),
{
    let longer = links_with(links, identifier, wire);
    assert forall|i: int, j: int| 0 <= i < j < longer.len() implies (#[trigger] longer[i]).0@ != (
    #[trigger] longer[j]).0@ by {
        assert(links[i] == longer[i]);
        if j < links.len() {
            assert(links[j] == longer[j]);
        }
    }
}

/// A texture that a model gives itself comes in place of an inherited one, and the
/// others are inherited.
pub proof fn lemma_own_textures_win(
    textures: Map<Seq<char>, Seq<char>>,
    own: Seq<(String, TextureWire)>,
    name: Seq<char>,
    n: int,
)
    requires
        0 <= n <= own.len(),
    ensures
        (forall|i: int| 0 <= i < n ==> (#[trigger] own[i]).0@ != name) ==> (overridden(
            textures,
            own,
            n,
        ).contains_key(name) == textures.contains_key(name) && overridden(textures, own, n)[name]
            == textures[name]),
        forall|i: int|
            0 <= i < n && (#[trigger] own[i]).0@ == name && (forall|j: int|
                i < j < n ==> (#[trigger] own[j]).0@ != name) ==> overridden(
                textures,
                own,
                n,
            ).contains_key(name) && overridden(textures, own, n)[name] == own[i].1.sprite_name(),
    decreases n,
{
    if n > 0 {
        lemma_own_textures_win(textures, own, name, n - 1);
    }
}

/// What a model says for itself wins over what it inherits, and what it does not say is
/// inherited. It is lit from the front only where it says so.
pub proof fn lemma_own_settings_win(parent: ModelModel, wire: ModelWire, identifier: Seq<char>)
    ensures
        inherited(parent, wire, identifier) is Err <==> (wire.elements matches Some(elements)
            && elements@.len() > 256),
        inherited(parent, wire, identifier) matches Ok(model) ==> {
            &&& wire.elements is None ==> model.elements == parent.elements
            &&& wire.elements matches Some(elements) ==> model.elements == elements@
            &&& wire.ambientocclusion is None ==> model.ambient_occlusion
                == parent.ambient_occlusion
            &&& wire.ambientocclusion matches Some(value) ==> model.ambient_occlusion == value
            &&& wire.gui_transform is None ==> model.gui_transform == parent.gui_transform
            &&& wire.gui_transform is Some ==> model.gui_transform == wire.gui_transform
            &&& wire.gui_light is None ==> model.gui_light_side == parent.gui_light_side
            &&& wire.gui_light matches Some(light) ==> (model.gui_light_side <==> light@
                != "front"@)
            &&& wire.textures@.len() == 0 ==> model.textures == parent.textures
        },
{
}

/// What a model builds on where nothing is said: no textures and no elements, shaded
/// corners, and no placement of its own.
pub proof fn lemma_blank_models_say_nothing(gui_light_side: bool)
    ensures
        blank_model(gui_light_side).textures == Map::<Seq<char>, Seq<char>>::empty(),
        blank_model(gui_light_side).elements.len() == 0,
        blank_model(gui_light_side).ambient_occlusion,
        blank_model(gui_light_side).gui_transform is None,
        blank_model(gui_light_side).gui_light_side == gui_light_side,
{
}

/// The elements of a model are those of the nearest in its line that has any, and those
/// that the line ends in where none has.
pub proof fn lemma_nearest_elements_win(links: Links, base: ModelModel, n: int, nearest: int)
    requires
        0 <= n <= nearest <= links.len(),
        forall|i: int| n <= i < nearest ==> (#[trigger] links[i]).1.elements is None,
        nearest < links.len() ==> links[nearest].1.elements is Some,
    ensures
        linked(links, base, n) matches Ok(model) ==> model.elements == (if nearest < links.len() {
            links[nearest].1.elements->Some_0@
        } else {
            base.elements
        }),
    decreases links.len() - n,
{
    if n < nearest {
        lemma_nearest_elements_win(links, base, n + 1, nearest);
        assert(links[n].1.elements is None);
    }
}

/// So it is with the shading of the corners.
pub proof fn lemma_nearest_shading_wins(links: Links, base: ModelModel, n: int, nearest: int)
    requires
        0 <= n <= nearest <= links.len(),
        forall|i: int| n <= i < nearest ==> (#[trigger] links[i]).1.ambientocclusion is None,
        nearest < links.len() ==> links[nearest].1.ambientocclusion is Some,
    ensures
        linked(links, base, n) matches Ok(model) ==> model.ambient_occlusion == (if nearest
            < links.len() {
            links[nearest].1.ambientocclusion->Some_0
        } else {
            base.ambient_occlusion
        }),
    decreases links.len() - n,
{
    if n < nearest {
        lemma_nearest_shading_wins(links, base, n + 1, nearest);
        assert(links[n].1.ambientocclusion is None);
    }
}

/// And with each texture: the nearest model that names it says what it is.
pub proof fn lemma_nearest_textures_win(
    links: Links,
    base: ModelModel,
    n: int,
    nearest: int,
    name: Seq<char>,
)
    requires
        0 <= n <= nearest <= links.len(),
        forall|i: int, j: int|
            n <= i < nearest && 0 <= j < links[i].1.textures@.len() ==> (
            #[trigger] links[i].1.textures@[j]).0@ != name,
    ensures
        linked(links, base, n) matches Ok(model) ==> (linked(links, base, nearest) matches Ok(
            parent,
        ) && model.textures.contains_key(name) == parent.textures.contains_key(name)
            && model.textures[name] == parent.textures[name]),
    decreases links.len() - n,
{
    if n < nearest {
        lemma_nearest_textures_win(links, base, n + 1, nearest, name);
        if let Ok(parent) = linked(links, base, n + 1) {
            let own = links[n].1.textures@;
            assert forall|j: int| 0 <= j < own.len() implies (#[trigger] own[j]).0@ != name by {
                assert(links[n].1.textures@[j].0@ != name);
            }
            lemma_own_textures_win(parent.textures, own, name, own.len() as int);
        }
    }
}

/// Once a line of models is resolved, each model of it is known as it stands in the line,
/// and what was known of others stays.
pub proof fn lemma_resolved_lines_are_known(
    known: Map<Seq<char>, ModelModel>,
    links: Links,
    base: ModelModel,
    n: int,
    k: int,
)
    requires
        is_bounded(links),
        0 <= n <= k < links.len(),
    ensures
        linked(links, base, k) matches Ok(model) ==> learned(known, links, base, n).contains_key(
            links[k].0@,
        ) && learned(known, links, base, n)[links[k].0@] == model,
        forall|name: Seq<char>|
            !waits(links, name) ==> (#[trigger] learned(known, links, base, n).contains_key(name)
                == known.contains_key(name)) && learned(known, links, base, n)[name]
                == known[name],
    decreases links.len() - n,
{
    if n < k {
        lemma_resolved_lines_are_known(known, links, base, n + 1, k);
        assert(links[n].0@ != links[k].0@);
        assert(waits(links, links[n].0@));
    } else if n + 1 < links.len() {
        lemma_resolved_lines_are_known(known, links, base, n + 1, n + 1);
        assert(waits(links, links[n].0@));
    } else {
        reveal_with_fuel(learned, 2);
        assert(waits(links, links[n].0@));
    }
}

/// A line of models goes on until a model that is known or built in is reached. It is
/// refused where a model comes up again or thirty-two wait already.
pub proof fn lemma_lines_end_where_a_model_is_known(
    known: Map<Seq<char>, ModelModel>,
    links: Links,
    identifier: Seq<char>,
)
    ensures
        step_towards(known, links, identifier) is Resolved ==> known.contains_key(identifier)
            || identifier == "minecraft:builtin/generated"@ || identifier
            == "minecraft:builtin/entity"@,
        known.contains_key(identifier) ==> step_towards(known, links, identifier) == completed(
            links,
            known[identifier],
        ),
        !known.contains_key(identifier) && identifier == "minecraft:builtin/generated"@
            && identifier != "minecraft:builtin/entity"@ ==> step_towards(known, links, identifier)
            == completed(links, blank_model(false)),
        !known.contains_key(identifier) && identifier == "minecraft:builtin/entity"@
            ==> step_towards(known, links, identifier) == completed(links, blank_model(true)),
        step_towards(known, links, identifier) is Read ==> {
            &&& !known.contains_key(identifier)
            &&& links.len() < 32
            &&& forall|i: int| 0 <= i < links.len() ==> (#[trigger] links[i]).0@ != identifier
            &&& step_towards(known, links, identifier) == (StepModel::Read {
                identifier,
                path: resource_location(identifier, "models"@, "json"@),
            })
        },
        !known.contains_key(identifier) && !is_built_in(identifier) && (exists|i: int|
            0 <= i < links.len() && (#[trigger] links[i]).0@ == identifier) ==> step_towards(
            known,
            links,
            identifier,
        ) is Failed,
{
}

/// A built-in model that is met once is known from then on, without anything in it.
pub proof fn lemma_built_in_models_are_known(
    known: Map<Seq<char>, ModelModel>,
    links: Links,
    identifier: Seq<char>,
)
    requires
        is_bounded(links),
        is_built_in(identifier),
        !waits(links, identifier),
        !known.contains_key(identifier),
    ensures
        known_after(known, links, identifier).contains_key(identifier),
        known_after(known, links, identifier)[identifier].elements.len() == 0,
        known_after(known, links, identifier)[identifier].gui_light_side <==> identifier
            == "minecraft:builtin/entity"@,
{
    let base = blank_model(identifier == "minecraft:builtin/entity"@);
    let with_it = known.insert(identifier, base);
    if links.len() > 0 {
        lemma_resolved_lines_are_known(with_it, links, base, 0, 0);
        assert(learned(with_it, links, base, 0).contains_key(identifier)
            == with_it.contains_key(identifier));
    }
}

} // verus!
