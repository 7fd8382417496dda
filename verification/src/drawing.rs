//! How the icon of an item is drawn.

use crate::error::{malformation, malformed, BlockResourceError, Failure};
use crate::gui_models::StaticItemModel;
use crate::icons::{composed, composite_rgba, sample_icon, sampled};
use crate::json::{bytes_view, parse_json, parsed, Json, JsonTree};
use crate::names::NameMap;
use crate::special::SpecialItemModel;
use crate::text::{
    decimal, has_prefix, lemma_written_numbers_are_read_back, number_text, parse_number, starts_with,
};
use vstd::prelude::*;
use vstd::string::StrSliceExecFns;

verus! {

pub open spec fn definition_failure(item: Seq<char>, reason: Seq<char>) -> Failure {
    malformation("item definition"@, item, reason)
}

/// The definition of an item: a document with a model.
pub open spec fn definition_of(bytes: Option<Seq<u8>>, item: Seq<char>) -> Result<
    JsonTree,
    Failure,
> {
    match bytes {
        None => Err(definition_failure(item, "resource is missing"@)),
        Some(bytes) => match parsed(bytes) {
            Err(message) => Err(definition_failure(item, message)),
            Ok(tree) => if tree.member("model"@) is None {
                Err(definition_failure(item, "model is missing"@))
            } else {
                Ok(tree)
            },
        },
    }
}

/// Checks that a document is the definition of an item.
pub fn check_item_definition(document: &Json, item: &str) -> (result: Result<
    (),
    BlockResourceError,
>)
    ensures
        match result {
            Ok(_) => document@.member("model"@) is Some,
            Err(error) => document@.member("model"@) is None && error@ == definition_failure(
                item@,
                "model is missing"@,
            ),
        },
{
    match document.get("model") {
        Some(_) => Ok(()),
        None => Err(malformed("item definition", item, "model is missing")),
    }
}

/// Reads the definition of an item.
pub fn read_item_definition(bytes: Option<&[u8]>, item: &str) -> (result: Result<
    Json,
    BlockResourceError,
>)
    ensures
        match (result, definition_of(bytes_view(bytes), item@)) {
            (Ok(document), Ok(tree)) => document@ == tree,
            (Err(error), Err(failure)) => error@ == failure,
            _ => false,
        },
{
    match bytes {
        None => Err(malformed("item definition", item, "resource is missing")),
        Some(bytes) => match parse_json(bytes) {
            Ok(document) => match check_item_definition(&document, item) {
                Ok(_) => Ok(document),
                Err(error) => Err(error),
            },
            Err(message) => Err(malformed("item definition", item, message.as_str())),
        },
    }
}

/// Checks that an item shows anything.
pub fn check_shown(models: &Vec<StaticItemModel>, item: &str) -> (result: Result<
    (),
    BlockResourceError,
>)
    ensures
        match result {
            Ok(_) => models@.len() > 0,
            Err(error) => models@.len() == 0 && error@ == definition_failure(
                item@,
                "GUI model graph produced no renderable model"@,
            ),
        },
{
    if models.len() == 0 {
        Err(
            malformed(
                "item definition",
                item,
                "GUI model graph produced no renderable model",
            ),
        )
    } else {
        Ok(())
    }
}

/// The side of an icon in pixels. The interface is drawn at one to four times its
/// size.
pub fn icon_side(gui_scale: u32, item: &str) -> (result: Result<u32, BlockResourceError>)
    ensures
        match result {
            Ok(side) => 1 <= gui_scale <= 4 && side == 16 * gui_scale,
            Err(error) => !(1 <= gui_scale <= 4) && error@ == malformation(
                "item icon"@,
                item@,
                "GUI scale is out of bounds"@,
            ),
        },
{
    if gui_scale >= 1 && gui_scale <= 4 {
        Ok(16 * gui_scale)
    } else {
        Err(malformed("item icon", item, "GUI scale is out of bounds"))
    }
}

/// The class of renderer that a model takes.
pub open spec fn class_of(special: Option<SpecialItemModel>, has_elements: bool) -> Seq<char> {
    match special {
        Some(special) => "special:"@ + special.family@,
        None => if has_elements {
            "baked"@
        } else {
            "generated"@
        },
    }
}

pub fn renderer_class(special: &Option<SpecialItemModel>, has_elements: bool) -> (class: String)
    ensures
        class@ == class_of(*special, has_elements),
{
    match special {
        Some(special) => {
            let mut class: String = String::new();
            class.push_str("special:");
            class.push_str(special.family.as_str());
            assert(class@ =~= "special:"@ + special.family@);
            class
        },
        None => if has_elements {
            "baked".to_owned()
        } else {
            "generated".to_owned()
        },
    }
}

/// The number of a layer: of a texture that is named for one.
pub open spec fn layer_number(name: Seq<char>) -> Option<int> {
    if has_prefix(name, "layer"@) {
        decimal(name.skip(5), usize::MAX as int)
    } else {
        None
    }
}

fn read_layer_number(name: &str) -> (number: Option<usize>)
    ensures
        match number {
            Some(number) => layer_number(name@) == Some(number as int),
            None => layer_number(name@) is None,
        },
{
    if !starts_with(name, "layer") {
        return None;
    }
    proof {
        reveal_strlit("layer");
        crate::text::lemma_decimal_bounds(name@.skip(5), usize::MAX as int);
    }
    let length: usize = name.unicode_len();
    let digits: &str = name.substring_char(5, length);
    assert(digits@ =~= name@.skip(5));
    match parse_number(digits, usize::MAX as u64) {
        Some(number) => Some(number as usize),
        None => None,
    }
}

/// A layer in its place: behind those with the same or a smaller number.
pub open spec fn placed(layers: Seq<(usize, String)>, layer: (usize, String)) -> Seq<(usize, String)>
    decreases layers.len(),
{
    if layers.len() == 0 || layers.last().0 <= layer.0 {
        layers.push(layer)
    } else {
        placed(layers.drop_last(), layer).push(layers.last())
    }
}

/// The layers among the first `n` textures, by their numbers; equal ones in the
/// order of their names.
pub open spec fn layers_of(textures: Seq<(String, String)>, n: int) -> Seq<(usize, String)>
    decreases n,
{
    if n <= 0 {
        Seq::empty()
    } else {
        let before = layers_of(textures, n - 1);
        match layer_number(textures[n - 1].0@) {
            Some(number) => placed(before, (number as usize, textures[n - 1].1)),
            None => before,
        }
    }
}

pub open spec fn numbers_ascend(layers: Seq<(usize, String)>) -> bool {
    forall|i: int, j: int|
        0 <= i < j < layers.len() ==> (#[trigger] layers[i]).0 <= (#[trigger] layers[j]).0
}

proof fn lemma_placed(layers: Seq<(usize, String)>, layer: (usize, String), at: int)
    requires
        0 <= at <= layers.len(),
        at == 0 || layers[at - 1].0 <= layer.0,
        forall|i: int| at <= i < layers.len() ==> (#[trigger] layers[i]).0 > layer.0,
    ensures
        placed(layers, layer) == layers.insert(at, layer),
    decreases layers.len(),
{
    if at == layers.len() {
        assert(layers.insert(at, layer) =~= layers.push(layer));
    } else {
        assert(layers[layers.len() - 1].0 > layer.0);
        let shorter = layers.drop_last();
        assert forall|i: int| at <= i < shorter.len() implies (#[trigger] shorter[i]).0
            > layer.0 by {
            assert(layers[i].0 > layer.0);
        }
        lemma_placed(shorter, layer, at);
        assert(layers.insert(at, layer) =~= shorter.insert(at, layer).push(layers.last()));
    }
}

proof fn lemma_placed_ascends(layers: Seq<(usize, String)>, layer: (usize, String))
    requires
        numbers_ascend(layers),
    ensures
        numbers_ascend(placed(layers, layer)),
        placed(layers, layer).len() == layers.len() + 1,
        forall|i: int|
            0 <= i < placed(layers, layer).len() ==> (#[trigger] placed(layers, layer)[i]).0
                <= layer.0 || (layers.len() > 0 && placed(layers, layer)[i].0 <= layers.last().0),
    decreases layers.len(),
{
    if layers.len() > 0 && layers.last().0 > layer.0 {
        let shorter = layers.drop_last();
        assert forall|i: int, j: int| 0 <= i < j < shorter.len() implies (
        #[trigger] shorter[i]).0 <= (#[trigger] shorter[j]).0 by {
            assert(layers[i].0 <= layers[j].0);
        }
        lemma_placed_ascends(shorter, layer);
        let inner = placed(shorter, layer);
        let all = inner.push(layers.last());
        assert forall|i: int| 0 <= i < inner.len() implies (#[trigger] inner[i]).0
            <= layers.last().0 by {
            if shorter.len() > 0 {
                assert(layers[layers.len() - 2].0 <= layers[layers.len() - 1].0);
            }
        }
        assert forall|i: int, j: int| 0 <= i < j < all.len() implies (#[trigger] all[i]).0 <= (
        #[trigger] all[j]).0 by {
            if j < inner.len() {
                assert(inner[i].0 <= inner[j].0);
            }
        }
    } else {
        let all = layers.push(layer);
        assert forall|i: int, j: int| 0 <= i < j < all.len() implies (#[trigger] all[i]).0 <= (
        #[trigger] all[j]).0 by {
            if j < layers.len() {
                assert(layers[i].0 <= layers[j].0);
            } else {
                assert(layers[i].0 <= layers[layers.len() - 1].0);
            }
        }
    }
}

/// The layers are drawn from the smallest number on.
pub proof fn lemma_layers_ascend(textures: Seq<(String, String)>, n: int)
    requires
        0 <= n <= textures.len(),
    ensures
        numbers_ascend(layers_of(textures, n)),
    decreases n,
{
    if n > 0 {
        lemma_layers_ascend(textures, n - 1);
        match layer_number(textures[n - 1].0@) {
            Some(number) => {
                lemma_placed_ascends(
                    layers_of(textures, n - 1),
                    (number as usize, textures[n - 1].1),
                );
            },
            None => {},
        }
    }
}

fn place_layer(layers: &mut Vec<(usize, String)>, number: usize, texture: String)
    requires
        numbers_ascend(old(layers)@),
    ensures
        final(layers)@ == placed(old(layers)@, (number, texture)),
{
    let mut at: usize = layers.len();
    while at > 0 && layers[at - 1].0 > number
        invariant
            at <= layers@.len(),
            forall|i: int| at <= i < layers@.len() ==> (#[trigger] layers@[i]).0 > number,
        decreases at,
    {
        at -= 1;
    }
    proof {
        lemma_placed(layers@, (number, texture), at as int);
    }
    layers.insert(at, (number, texture));
}

fn find_layers(textures: &NameMap<String>) -> (layers: Vec<(usize, String)>)
    ensures
        layers@ == layers_of(textures.entries@, textures.entries@.len() as int),
{
    let mut layers: Vec<(usize, String)> = Vec::new();
    let mut i: usize = 0;
    assert(layers@ =~= Seq::<(usize, String)>::empty());
    while i < textures.entries.len()
        invariant
            i <= textures.entries@.len(),
            layers@ == layers_of(textures.entries@, i as int),
        decreases textures.entries@.len() - i,
    {
        match read_layer_number(textures.entries[i].0.as_str()) {
            Some(number) => {
                proof {
                    lemma_layers_ascend(textures.entries@, i as int);
                }
                place_layer(&mut layers, number, textures.entries[i].1.clone());
            },
            None => {},
        }
        i += 1;
    }
    layers
}

/// How a model is drawn: as flat layers, as the texture of its particles, or as it
/// is made.
#[derive(Debug)]
pub enum ItemDrawing {
    Layers(Vec<(usize, String)>),
    Particle(String),
    Geometry,
}

/// How a model without a renderer of its own is drawn. A model without elements is
/// flat.
pub fn plan_item_drawing(textures: &NameMap<String>, has_elements: bool) -> (drawing: ItemDrawing)
    requires
        textures.well_formed(),
    ensures
        ({
            let layers = layers_of(textures.entries@, textures.entries@.len() as int);
            match drawing {
                ItemDrawing::Layers(drawn) => !has_elements && layers.len() > 0 && drawn@ == layers,
                ItemDrawing::Particle(texture) => {
                    &&& !has_elements
                    &&& layers.len() == 0
                    &&& textures@.contains_key("particle"@)
                    &&& texture == textures@["particle"@]
                },
                ItemDrawing::Geometry => has_elements || (layers.len() == 0
                    && !textures@.contains_key("particle"@)),
            }
        }),
{
    if has_elements {
        return ItemDrawing::Geometry;
    }
    let layers: Vec<(usize, String)> = find_layers(textures);
    if layers.len() > 0 {
        return ItemDrawing::Layers(layers);
    }
    match textures.get("particle") {
        Some(texture) => ItemDrawing::Particle(texture.clone()),
        None => ItemDrawing::Geometry,
    }
}

/// The tint of a layer.
pub open spec fn layer_tint(tints: Seq<u32>, number: usize) -> Option<u32> {
    if number < tints.len() {
        Some(tints[number as int])
    } else {
        None
    }
}

/// Draws one flat layer on an icon.
pub fn draw_layer(
    icon: &mut Vec<u8>,
    frame: &Vec<u8>,
    width: u32,
    height: u32,
    icon_size: u32,
    tints: &Vec<u32>,
    number: usize,
)
    requires
        icon_size <= 64,
        0 < width,
        0 < height,
        icon_size * width <= usize::MAX,
        icon_size * height <= usize::MAX,
        width * height * 4 <= usize::MAX,
    ensures
        final(icon)@.len() == old(icon)@.len(),
        exists|layer: Seq<u8>|
            {
                &&& #[trigger] is_layer(
                    layer,
                    frame@,
                    width,
                    height,
                    icon_size,
                    layer_tint(tints@, number),
                )
                &&& forall|k: int|
                    0 <= k < final(icon)@.len() ==> #[trigger] final(icon)@[k] == composed(
                        old(icon)@,
                        layer,
                        k,
                    )
            },
{
    let tint: Option<u32> = if number < tints.len() {
        Some(tints[number])
    } else {
        None
    };
    proof {
        assert(icon_size * icon_size <= 64 * 64) by (nonlinear_arith)
            requires
                0 <= icon_size <= 64,
        ;
    }
    let layer: Vec<u8> = sample_icon(frame, width, height, icon_size, tint);
    assert(is_layer(layer@, frame@, width, height, icon_size, layer_tint(tints@, number)));
    composite_rgba(icon, &layer);
}

/// `layer` is a texture sampled for an icon.
pub open spec fn is_layer(
    layer: Seq<u8>,
    frame: Seq<u8>,
    width: u32,
    height: u32,
    icon_size: u32,
    tint: Option<u32>,
) -> bool {
    &&& layer.len() == icon_size * icon_size * 4
    &&& forall|k: int|
        0 <= k < layer.len() ==> #[trigger] layer[k] == sampled(
            frame,
            width as int,
            height as int,
            icon_size as int,
            tint,
            k,
        )
}

proof fn lemma_placed_keeps_all(layers: Seq<(usize, String)>, layer: (usize, String))
    ensures
        placed(layers, layer).to_multiset() == layers.to_multiset().insert(layer),
    decreases layers.len(),
{
    layers.to_multiset_ensures();
    if !(layers.len() == 0 || layers.last().0 <= layer.0) {
        let shorter = layers.drop_last();
        lemma_placed_keeps_all(shorter, layer);
        let inner = placed(shorter, layer);
        inner.to_multiset_ensures();
        shorter.to_multiset_ensures();
        assert(shorter.push(layers.last()) =~= layers);
        assert(placed(layers, layer).to_multiset() =~= layers.to_multiset().insert(layer));
    }
}

/// The layers of an item are exactly its textures that are named by `layer` and a
/// number, each once, under that number.
pub proof fn lemma_layers_are_the_numbered_textures(textures: Seq<(String, String)>, n: int)
    requires
        0 <= n <= textures.len(),
    ensures
        ({
            let numbered = textures.take(n).filter(
                |texture: (String, String)| layer_number(texture.0@) is Some,
            );
            layers_of(textures, n).to_multiset() == numbered.map_values(
                |texture: (String, String)|
                    (layer_number(texture.0@)->Some_0 as usize, texture.1),
            ).to_multiset()
        }),
    decreases n,
{
    let is_numbered = |texture: (String, String)| layer_number(texture.0@) is Some;
    let layer_of = |texture: (String, String)|
        (layer_number(texture.0@)->Some_0 as usize, texture.1);
    reveal(Seq::filter);
    if n > 0 {
        lemma_layers_are_the_numbered_textures(textures, n - 1);
        let shorter = textures.take(n - 1);
        let all = textures.take(n);
        let last = textures[n - 1];
        assert(all.drop_last() =~= shorter);
        assert(all.last() == last);
        let kept = shorter.filter(is_numbered);
        if is_numbered(last) {
            assert(all.filter(is_numbered) == kept.push(last));
            assert(kept.push(last).map_values(layer_of) =~= kept.map_values(layer_of).push(
                layer_of(last),
            ));
            kept.map_values(layer_of).to_multiset_ensures();
            lemma_placed_keeps_all(layers_of(textures, n - 1), layer_of(last));
        } else {
            assert(all.filter(is_numbered) == kept);
        }
    } else {
        assert(textures.take(0).filter(is_numbered).map_values(layer_of) =~= layers_of(
            textures,
            0,
        ));
    }
}

/// The number of a layer is the one that is written behind the word.
pub proof fn lemma_layers_are_numbered_by_name(n: nat)
    requires
        n <= usize::MAX,
    ensures
        layer_number("layer"@ + number_text(n)) == Some(n as int),
        layer_number("layer"@) is None,
{
    reveal_strlit("layer");
    let name = "layer"@ + number_text(n);
    lemma_written_numbers_are_read_back(n, usize::MAX as int);
    assert(name.subrange(0, 5) =~= "layer"@);
    assert(name.skip(5) =~= number_text(n));
    assert("layer"@.skip(5) =~= Seq::<char>::empty());
}

/// Each layer has the tint with its own number, where there is one.
pub proof fn lemma_layers_have_the_tint_of_their_number(tints: Seq<u32>, number: usize)
    ensures
        layer_tint(tints, number) is Some <==> number < tints.len(),
        forall|i: int|
            0 <= i < tints.len() && i == number ==> layer_tint(tints, number) == Some(
                #[trigger] tints[i],
            ),
{
}

/// An item is defined by a document that has a model. Without the document the resource is
/// missing, and what is wrong with it is passed on.
pub proof fn lemma_items_are_defined_by_their_document(bytes: Seq<u8>, item: Seq<char>)
    ensures
        definition_of(None, item) == Err::<JsonTree, Failure>(
            crate::error::malformation("item definition"@, item, "resource is missing"@),
        ),
        parsed(bytes) matches Err(message) ==> definition_of(Some(bytes), item) == Err::<
            JsonTree,
            Failure,
        >(crate::error::malformation("item definition"@, item, message)),
        parsed(bytes) matches Ok(tree) ==> (definition_of(Some(bytes), item) is Ok
            <==> tree.member("model"@) is Some),
        parsed(bytes) matches Ok(tree) ==> tree.member("model"@) is Some ==> definition_of(
            Some(bytes),
            item,
        ) == Ok::<JsonTree, Failure>(tree),
{
}

/// Icons are classed by what draws them: a special renderer by its family, elements as
/// baked, and layers as generated.
pub proof fn lemma_icons_are_classed_by_what_draws_them(special: SpecialItemModel, elements: bool)
    ensures
        class_of(Some(special), elements) == "special:"@ + special.family@,
        class_of(None, true) == "baked"@,
        class_of(None, false) == "generated"@,
{
}

} // verus!
