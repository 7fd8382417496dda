//! Banner patterns: their wire form, their sprites and their faces.

use crate::atlas::{known_region, TextureAtlasData};
use crate::error::{malformation, malformed, BlockResourceError, Failure};
use crate::identifiers::{
    banner_pattern_texture, banner_sprite, identifier_path, is_identifier, is_valid_identifier,
    path_of,
};
use crate::prepared::{is_flag, shows_flag};
use crate::resources::{ModelFace, RenderLayer, TextureMaterial, TintKind};
use crate::special::{named_color, special_tint, SpecialItemModel, SpecialModel};
use vstd::prelude::*;
use vstd::slice::slice_subrange;
use vstd::utf8::{decode_utf8, encode_utf8, encode_utf8_decode_utf8, encode_utf8_valid_utf8, valid_utf8};

verus! {

pub const MAX_COMPONENT_BYTES: usize = 128;

pub const MAX_COMPONENT_PATTERNS: u32 = 20;

pub const MAX_BANNER_LAYERS: usize = 16;

pub const MAX_PATTERN_TEXT: usize = 1024;

/// The colours of the dyes by their ids.
pub const DYE_COLORS: [u32; 16] = [
    0xf9fffe,
    0xf9801d,
    0xc74ebd,
    0x3ab3da,
    0xfed83d,
    0x80c71f,
    0xf38baa,
    0x474f52,
    0x9d9d97,
    0x169c9c,
    0x8932b8,
    0x3c44aa,
    0x835432,
    0x5e7c16,
    0xb02e26,
    0x1d1d21,
];

pub open spec fn dye(raw_id: u32) -> Option<u32> {
    if raw_id < 16 {
        Some(DYE_COLORS@[raw_id as int])
    } else {
        None
    }
}

/// The colour of a dye.
pub fn dye_color(raw_id: u32) -> (color: Option<u32>)
    ensures
        color == dye(raw_id),
{
    if raw_id < 16 {
        Some(DYE_COLORS[raw_id as usize])
    } else {
        None
    }
}

/// The names of the dyes by their ids.
pub open spec fn dye_names() -> Seq<Seq<char>> {
    seq![
        "white"@,
        "orange"@,
        "magenta"@,
        "light_blue"@,
        "yellow"@,
        "lime"@,
        "pink"@,
        "gray"@,
        "light_gray"@,
        "cyan"@,
        "purple"@,
        "blue"@,
        "brown"@,
        "green"@,
        "red"@,
        "black"@,
    ]
}

/// A banner has the tint of the dye that it is named after, and white where no dye
/// has its name or it has none. Nothing but a banner has a tint.
#[verifier::spinoff_prover]
pub proof fn lemma_banner_has_the_tint_of_its_dye(model: SpecialModel)
    ensures
        special_tint(model) is Some <==> model.family == "minecraft:banner"@,
        model.family == "minecraft:banner"@ ==> {
            &&& forall|i: int|
                0 <= i < 16 && model.variant == Some(#[trigger] dye_names()[i])
                    ==> special_tint(model) == dye(i as u32)
            &&& (forall|i: int|
                0 <= i < 16 ==> model.variant != Some(#[trigger] dye_names()[i]))
                ==> special_tint(model) == Some(0xffffffu32)
        },
{
    reveal_strlit("white");
    reveal_strlit("orange");
    reveal_strlit("magenta");
    reveal_strlit("light_blue");
    reveal_strlit("yellow");
    reveal_strlit("lime");
    reveal_strlit("pink");
    reveal_strlit("gray");
    reveal_strlit("light_gray");
    reveal_strlit("cyan");
    reveal_strlit("purple");
    reveal_strlit("blue");
    reveal_strlit("brown");
    reveal_strlit("green");
    reveal_strlit("red");
    reveal_strlit("black");
    assert("white"@[0] == 'w' && "brown"@[2] == 'o' && "green"@[0] == 'g' && "black"@[2] == 'a');
    assert("brown"@[0] == 'b' && "black"@[0] == 'b');
    assert("orange"@[0] == 'o' && "yellow"@[0] == 'y' && "purple"@[0] == 'p');
    assert("light_blue"@[6] == 'b' && "light_gray"@[6] == 'g');
    assert("lime"@[0] == 'l' && "pink"@[0] == 'p' && "gray"@[0] == 'g' && "cyan"@[0] == 'c'
        && "blue"@[0] == 'b');
    let names = dye_names();
    assert(names[0] == "white"@ && names[1] == "orange"@ && names[2] == "magenta"@ && names[3]
        == "light_blue"@ && names[4] == "yellow"@ && names[5] == "lime"@ && names[6] == "pink"@
        && names[7] == "gray"@ && names[8] == "light_gray"@ && names[9] == "cyan"@ && names[10]
        == "purple"@ && names[11] == "blue"@ && names[12] == "brown"@ && names[13] == "green"@
        && names[14] == "red"@ && names[15] == "black"@);
    lemma_dyes_have_their_colors(0);
    if let Some(name) = model.variant {
        assert forall|i: int|
            0 <= i < 16 && model.variant == Some(#[trigger] dye_names()[i]) implies named_color(
            name,
        ) == dye(i as u32)->Some_0 by {
            assert(name == names[i]);
            lemma_name_of_dye(i);
        }
    }
}

proof fn lemma_name_of_dye(i: int)
    requires
        0 <= i < 16,
    ensures
        named_color(dye_names()[i]) == dye(i as u32)->Some_0,
{
    reveal_strlit("white");
    reveal_strlit("orange");
    reveal_strlit("magenta");
    reveal_strlit("light_blue");
    reveal_strlit("yellow");
    reveal_strlit("lime");
    reveal_strlit("pink");
    reveal_strlit("gray");
    reveal_strlit("light_gray");
    reveal_strlit("cyan");
    reveal_strlit("purple");
    reveal_strlit("blue");
    reveal_strlit("brown");
    reveal_strlit("green");
    reveal_strlit("red");
    reveal_strlit("black");
    lemma_dyes_have_their_colors(0);
    assert("white"@.len() == 5 && "orange"@.len() == 6 && "magenta"@.len() == 7
        && "light_blue"@.len() == 10 && "yellow"@.len() == 6 && "lime"@.len() == 4 && "pink"@.len()
        == 4 && "gray"@.len() == 4 && "light_gray"@.len() == 10 && "cyan"@.len() == 4
        && "purple"@.len() == 6 && "blue"@.len() == 4 && "brown"@.len() == 5 && "green"@.len() == 5
        && "red"@.len() == 3 && "black"@.len() == 5);
    let name = dye_names()[i];
    if i == 0 {
        assert(name == "white"@);
        assert(named_color(name) == 0xf9fffe);
    } else if i == 1 {
        assert(name == "orange"@ && "orange"@.len() == 6);
        assert(named_color(name) == 0xf9801d);
    } else if i == 2 {
        assert(name == "magenta"@ && "magenta"@.len() == 7);
        assert(named_color(name) == 0xc74ebd);
    } else if i == 3 {
        assert(name == "light_blue"@ && "light_blue"@.len() == 10);
        assert(named_color(name) == 0x3ab3da);
    } else if i == 4 {
        assert(name == "yellow"@ && "yellow"@[0] == 'y' && "orange"@[0] == 'o');
        assert(named_color(name) == 0xfed83d);
    } else if i == 5 {
        assert(name == "lime"@ && "lime"@.len() == 4);
        assert(named_color(name) == 0x80c71f);
    } else if i == 6 {
        assert(name == "pink"@ && "pink"@[0] == 'p' && "lime"@[0] == 'l');
        assert(named_color(name) == 0xf38baa);
    } else if i == 7 {
        assert(name == "gray"@ && "gray"@[0] == 'g' && "pink"@[0] == 'p' && "lime"@[0] == 'l');
        assert(named_color(name) == 0x474f52);
    } else if i == 8 {
        assert(name == "light_gray"@ && "light_gray"@[6] == 'g' && "light_blue"@[6] == 'b');
        assert(named_color(name) == 0x9d9d97);
    } else if i == 9 {
        assert(name == "cyan"@ && "cyan"@[0] == 'c' && "gray"@[0] == 'g' && "pink"@[0] == 'p'
            && "lime"@[0] == 'l');
        assert(named_color(name) == 0x169c9c);
    } else if i == 10 {
        assert(name == "purple"@ && "purple"@[0] == 'p' && "orange"@[0] == 'o' && "yellow"@[0]
            == 'y');
        assert(named_color(name) == 0x8932b8);
    } else if i == 11 {
        assert(name == "blue"@ && "blue"@[0] == 'b' && "cyan"@[0] == 'c' && "gray"@[0] == 'g'
            && "pink"@[0] == 'p' && "lime"@[0] == 'l');
        assert(named_color(name) == 0x3c44aa);
    } else if i == 12 {
        assert(name == "brown"@ && "brown"@[0] == 'b' && "white"@[0] == 'w');
        assert(named_color(name) == 0x835432);
    } else if i == 13 {
        assert(name == "green"@ && "green"@[0] == 'g' && "brown"@[0] == 'b' && "white"@[0] == 'w');
        assert(named_color(name) == 0x5e7c16);
    } else if i == 14 {
        assert(name == "red"@ && "red"@.len() == 3);
        assert(named_color(name) == 0xb02e26);
    } else {
        assert(name == "black"@ && "black"@[0] == 'b' && "black"@[2] == 'a' && "brown"@[2] == 'o'
            && "green"@[0] == 'g' && "white"@[0] == 'w');
        assert(named_color(name) == 0x1d1d21);
    }
}

/// The weight of the `k`-th group of seven bits.
pub open spec fn place_value(k: int) -> int {
    if k == 0 {
        1
    } else if k == 1 {
        0x80
    } else if k == 2 {
        0x4000
    } else if k == 3 {
        0x20_0000
    } else {
        0x1000_0000
    }
}

fn weight(k: usize) -> (value: u64)
    requires
        k < 5,
    ensures
        value == place_value(k as int),
{
    if k == 0 {
        1
    } else if k == 1 {
        0x80
    } else if k == 2 {
        0x4000
    } else if k == 3 {
        0x20_0000
    } else {
        0x1000_0000
    }
}

/// The sum of the groups of seven bits from the `k`-th on, and where they end:
/// the last group is the first with its high bit clear, and there are at most
/// five.
pub open spec fn groups_from(bytes: Seq<u8>, at: int, k: int) -> Option<(int, int)>
    decreases 5 - k,
{
    if k >= 5 || at + k >= bytes.len() {
        None
    } else {
        let byte = bytes[at + k];
        let part = (byte % 128) * place_value(k);
        if byte < 128 {
            Some((part, at + k + 1))
        } else {
            match groups_from(bytes, at, k + 1) {
                Some((rest, end)) => Some((part + rest, end)),
                None => None,
            }
        }
    }
}

/// The number at a place in the wire form, and where it ends. Bits beyond 32 are
/// dropped.
pub open spec fn number_at(bytes: Seq<u8>, at: int) -> Option<(u32, int)> {
    match groups_from(bytes, at, 0) {
        Some((sum, end)) => Some(((sum % 0x1_0000_0000) as u32, end)),
        None => None,
    }
}

fn read_number(bytes: &[u8], at: usize) -> (number: Option<(u32, usize)>)
    requires
        at <= bytes@.len(),
    ensures
        match number {
            Some((value, end)) => number_at(bytes@, at as int) == Some((value, end as int)) && at
                < end <= bytes@.len(),
            None => number_at(bytes@, at as int) is None,
        },
{
    let length: usize = bytes.len();
    let mut sum: u64 = 0;
    let mut k: usize = 0;
    while k < 5
        invariant
            k <= 5,
            length == bytes@.len(),
            at + k <= length,
            sum < place_value(k as int) * (if k == 5 {
                128int
            } else {
                1
            }),
            groups_from(bytes@, at as int, 0) == match groups_from(bytes@, at as int, k as int) {
                Some((rest, end)) => Some((sum + rest, end)),
                None => None,
            },
        decreases 5 - k,
    {
        if k >= length - at {
            return None;
        }
        let byte: u8 = bytes[at + k];
        let scale: u64 = weight(k);
        let digit: u64 = (byte % 128) as u64;
        assert(0 <= digit * scale <= 127 * scale) by (nonlinear_arith)
            requires
                0 <= digit <= 127,
                scale >= 0,
        ;
        sum = sum + digit * scale;
        if byte < 128 {
            return Some(((sum % 0x1_0000_0000) as u32, at + k + 1));
        }
        k += 1;
    }
    None
}

/// Reads UTF-8 with `std::str::from_utf8`, which gives the text that the bytes
/// encode where they are valid UTF-8, and an error where they are not.
#[verifier::external_body]
fn read_utf8(bytes: &[u8]) -> (text: Option<String>)
    ensures
        match text {
            Some(text) => valid_utf8(bytes@) && text@ == decode_utf8(bytes@),
            None => !valid_utf8(bytes@),
        },
{
    std::str::from_utf8(bytes).ok().map(|text| text.to_owned())
}

/// The text at a place in the wire form, and where it ends: its length in bytes
/// and its bytes.
pub open spec fn text_at(bytes: Seq<u8>, at: int) -> Option<(Seq<char>, int)> {
    match number_at(bytes, at) {
        Some((length, start)) => {
            let end = start + length;
            if length > MAX_PATTERN_TEXT || end > bytes.len() || !valid_utf8(
                bytes.subrange(start, end),
            ) {
                None
            } else {
                Some((decode_utf8(bytes.subrange(start, end)), end))
            }
        },
        None => None,
    }
}

fn read_text(bytes: &[u8], at: usize) -> (text: Option<(String, usize)>)
    requires
        at <= bytes@.len(),
    ensures
        match text {
            Some((text, end)) => text_at(bytes@, at as int) == Some((text@, end as int)) && at
                <= end <= bytes@.len(),
            None => text_at(bytes@, at as int) is None,
        },
{
    let total: usize = bytes.len();
    let (length, start) = match read_number(bytes, at) {
        Some(number) => number,
        None => return None,
    };
    if length > 1024 {
        return None;
    }
    let length: usize = length as usize;
    if length > total - start {
        return None;
    }
    match read_utf8(slice_subrange(bytes, start, start + length)) {
        Some(text) => Some((text, start + length)),
        None => None,
    }
}

#[derive(Clone, Debug, PartialEq, Eq)]
pub struct BannerPatternLayer {
    pub texture: String,
    pub tint: u32,
}

/// A pattern that is looked up by its id in a registry, or named on the spot.
#[derive(Clone, Debug, PartialEq, Eq)]
pub enum DeferredBannerPattern {
    Reference(u32),
    Direct(String),
}

#[derive(Clone, Debug, PartialEq, Eq)]
pub struct DeferredBannerPatternLayer {
    pub pattern: DeferredBannerPattern,
    pub tint: u32,
}

/// Layers whose patterns still have to be looked up.
#[derive(Clone, Debug, PartialEq, Eq)]
pub struct DeferredBannerPatterns {
    pub layers: Vec<DeferredBannerPatternLayer>,
}

#[derive(Clone, Debug, PartialEq, Eq)]
pub enum BannerPatternLayers {
    Deferred(DeferredBannerPatterns),
    Resolved(Vec<BannerPatternLayer>),
}

pub enum PatternModel {
    Reference(u32),
    Direct(Seq<char>),
}

pub struct LayerModel {
    pub pattern: PatternModel,
    pub tint: u32,
}

impl View for DeferredBannerPatternLayer {
    type V = LayerModel;

    open spec fn view(&self) -> LayerModel {
        LayerModel {
            pattern: match self.pattern {
                DeferredBannerPattern::Reference(raw_id) => PatternModel::Reference(raw_id),
                DeferredBannerPattern::Direct(identifier) => PatternModel::Direct(identifier@),
            },
            tint: self.tint,
        }
    }
}

pub open spec fn layer_views(layers: Seq<DeferredBannerPatternLayer>) -> Seq<LayerModel> {
    layers.map_values(|layer: DeferredBannerPatternLayer| layer@)
}

pub open spec fn component_failure(reason: Seq<char>) -> Failure {
    malformation("banner patterns"@, "component"@, reason)
}

fn component_error(reason: &str) -> (error: BlockResourceError)
    ensures
        error@ == component_failure(reason@),
{
    malformed("banner patterns", "component", reason)
}

/// The pattern at a place in the wire form, and where it ends. A zero stands
/// before a pattern that is named on the spot; it is followed by the name and by
/// a translation key, which is not used.
pub open spec fn pattern_at(bytes: Seq<u8>, at: int) -> Result<(PatternModel, int), Failure> {
    match number_at(bytes, at) {
        None => Err(component_failure("pattern registry holder ID is truncated"@)),
        Some((encoded, start)) => if encoded > 0 {
            Ok((PatternModel::Reference((encoded - 1) as u32), start))
        } else {
            match text_at(bytes, start) {
                None => Err(component_failure("direct pattern asset identifier is malformed"@)),
                Some((asset, middle)) => if !is_identifier(asset) {
                    Err(component_failure("direct pattern asset identifier is invalid"@))
                } else {
                    match text_at(bytes, middle) {
                        None => Err(
                            component_failure("direct pattern translation key is malformed"@),
                        ),
                        Some((key, end)) => Ok((PatternModel::Direct(asset), end)),
                    }
                },
            }
        },
    }
}

/// The layer at a place in the wire form, and where it ends: a pattern and a dye.
#[verifier::opaque]
pub open spec fn layer_at(bytes: Seq<u8>, at: int) -> Result<(LayerModel, int), Failure> {
    match pattern_at(bytes, at) {
        Err(failure) => Err(failure),
        Ok((pattern, middle)) => match number_at(bytes, middle) {
            None => Err(component_failure("dye ID is invalid"@)),
            Some((raw_id, end)) => match dye(raw_id) {
                None => Err(component_failure("dye ID is invalid"@)),
                Some(tint) => Ok((LayerModel { pattern, tint }, end)),
            },
        },
    }
}

/// The first `n` layers from a place on, and where they end.
pub open spec fn layers_upto(bytes: Seq<u8>, start: int, n: int) -> Result<
    (Seq<LayerModel>, int),
    Failure,
>
    decreases n,
{
    if n <= 0 {
        Ok((Seq::empty(), start))
    } else {
        match layers_upto(bytes, start, n - 1) {
            Err(failure) => Err(failure),
            Ok((layers, at)) => match layer_at(bytes, at) {
                Err(failure) => Err(failure),
                Ok((layer, end)) => Ok((layers.push(layer), end)),
            },
        }
    }
}

/// The layers of a component: their number, then each of them, and no more.
pub open spec fn component_layers(bytes: Seq<u8>) -> Result<Seq<LayerModel>, Failure> {
    if bytes.len() > MAX_COMPONENT_BYTES {
        Err(component_failure("component exceeds its bounded wire size"@))
    } else {
        match number_at(bytes, 0) {
            None => Err(component_failure("pattern count is invalid"@)),
            Some((count, start)) => if count > MAX_COMPONENT_PATTERNS {
                Err(component_failure("pattern count is invalid"@))
            } else {
                match layers_upto(bytes, start, count as int) {
                    Err(failure) => Err(failure),
                    Ok((layers, end)) => if end != bytes.len() {
                        Err(component_failure("component contains trailing bytes"@))
                    } else {
                        Ok(layers)
                    },
                }
            },
        }
    }
}

fn read_pattern(bytes: &[u8], at: usize) -> (result: Result<
    (DeferredBannerPattern, usize),
    BlockResourceError,
>)
    requires
        at <= bytes@.len(),
    ensures
        match (result, pattern_at(bytes@, at as int)) {
            (Ok((pattern, end)), Ok((model, model_end))) => {
                &&& end == model_end
                &&& end <= bytes@.len()
                &&& (DeferredBannerPatternLayer { pattern, tint: 0 })@.pattern == model
            },
            (Err(error), Err(failure)) => error@ == failure,
            _ => false,
        },
{
    let (encoded, start) = match read_number(bytes, at) {
        Some(number) => number,
        None => return Err(component_error("pattern registry holder ID is truncated")),
    };
    if encoded > 0 {
        return Ok((DeferredBannerPattern::Reference(encoded - 1), start));
    }
    let (asset, middle) = match read_text(bytes, start) {
        Some(text) => text,
        None => return Err(component_error("direct pattern asset identifier is malformed")),
    };
    if !is_valid_identifier(asset.as_str()) {
        return Err(component_error("direct pattern asset identifier is invalid"));
    }
    match read_text(bytes, middle) {
        Some((_key, end)) => Ok((DeferredBannerPattern::Direct(asset), end)),
        None => Err(component_error("direct pattern translation key is malformed")),
    }
}

fn read_layer(bytes: &[u8], at: usize) -> (result: Result<
    (DeferredBannerPatternLayer, usize),
    BlockResourceError,
>)
    requires
        at <= bytes@.len(),
    ensures
        match (result, layer_at(bytes@, at as int)) {
            (Ok((layer, end)), Ok((model, model_end))) => layer@ == model && end == model_end
                && end <= bytes@.len(),
            (Err(error), Err(failure)) => error@ == failure,
            _ => false,
        },
{
    reveal(layer_at);
    let (pattern, middle) = match read_pattern(bytes, at) {
        Ok(read) => read,
        Err(error) => return Err(error),
    };
    match read_number(bytes, middle) {
        Some((raw_id, end)) => match dye_color(raw_id) {
            Some(tint) => Ok((DeferredBannerPatternLayer { pattern, tint }, end)),
            None => Err(component_error("dye ID is invalid")),
        },
        None => Err(component_error("dye ID is invalid")),
    }
}

proof fn lemma_layer_failure_persists(bytes: Seq<u8>, start: int, k: int, n: int)
    requires
        0 <= k <= n,
        layers_upto(bytes, start, k) is Err,
    ensures
        layers_upto(bytes, start, n) == layers_upto(bytes, start, k),
    decreases n - k,
{
    if k < n {
        lemma_layer_failure_persists(bytes, start, k, n - 1);
    }
}

fn read_component(bytes: &[u8]) -> (result: Result<DeferredBannerPatterns, BlockResourceError>)
    ensures
        match (result, component_layers(bytes@)) {
            (Ok(patterns), Ok(layers)) => layer_views(patterns.layers@) == layers,
            (Err(error), Err(failure)) => error@ == failure,
            _ => false,
        },
{
    if bytes.len() > MAX_COMPONENT_BYTES {
        return Err(component_error("component exceeds its bounded wire size"));
    }
    let (count, start) = match read_number(bytes, 0) {
        Some(number) => number,
        None => return Err(component_error("pattern count is invalid")),
    };
    if count > MAX_COMPONENT_PATTERNS {
        return Err(component_error("pattern count is invalid"));
    }
    let mut layers: Vec<DeferredBannerPatternLayer> = Vec::new();
    let mut at: usize = start;
    let mut n: u32 = 0;
    assert(layer_views(layers@) =~= Seq::<LayerModel>::empty());
    while n < count
        invariant
            n <= count,
            bytes@.len() <= MAX_COMPONENT_BYTES,
            count <= MAX_COMPONENT_PATTERNS,
            number_at(bytes@, 0) == Some((count, start as int)),
            at <= bytes@.len(),
            layers_upto(bytes@, start as int, n as int) == Ok::<(Seq<LayerModel>, int), Failure>(
                (layer_views(layers@), at as int),
            ),
        decreases count - n,
    {
        match read_layer(bytes, at) {
            Ok((layer, end)) => {
                let ghost before = layers@;
                layers.push(layer);
                assert(layer_views(layers@) =~= layer_views(before).push(layer@));
                at = end;
            },
            Err(error) => {
                proof {
                    lemma_layer_failure_persists(bytes@, start as int, n + 1, count as int);
                }
                return Err(error);
            },
        }
        n += 1;
    }
    if at != bytes.len() {
        return Err(component_error("component contains trailing bytes"));
    }
    Ok(DeferredBannerPatterns { layers })
}

/// Banner patterns by their ids: each with its own id, or in the order of the ids.
pub enum BannerPatternRegistry<'a> {
    GameData(&'a Vec<(u32, String)>),
    Ordered(&'a Vec<String>),
}

pub open spec fn entry_with_id(entries: Seq<(u32, String)>, raw_id: u32) -> Option<Seq<char>>
    decreases entries.len(),
{
    if entries.len() == 0 {
        None
    } else if entries[0].0 == raw_id {
        Some(entries[0].1@)
    } else {
        entry_with_id(entries.drop_first(), raw_id)
    }
}

impl<'a> BannerPatternRegistry<'a> {
    /// The pattern with an id.
    pub open spec fn pattern(self, raw_id: u32) -> Option<Seq<char>> {
        match self {
            BannerPatternRegistry::GameData(entries) => entry_with_id(entries@, raw_id),
            BannerPatternRegistry::Ordered(entries) => if raw_id < entries@.len() {
                Some(entries@[raw_id as int]@)
            } else {
                None
            },
        }
    }

    pub fn identifier(&self, raw_id: u32) -> (identifier: Option<&'a str>)
        ensures
            match identifier {
                Some(identifier) => self.pattern(raw_id) == Some(identifier@),
                None => self.pattern(raw_id) is None,
            },
    {
        match self {
            BannerPatternRegistry::GameData(entries) => {
                let entries: &'a Vec<(u32, String)> = *entries;
                let mut i: usize = 0;
                assert(entries@.skip(0) =~= entries@);
                while i < entries.len()
                    invariant
                        i <= entries@.len(),
                        self.pattern(raw_id) == entry_with_id(entries@, raw_id),
                        entry_with_id(entries@.skip(i as int), raw_id) == entry_with_id(
                            entries@,
                            raw_id,
                        ),
                    decreases entries@.len() - i,
                {
                    if entries[i].0 == raw_id {
                        return Some(entries[i].1.as_str());
                    }
                    assert(entries@.skip(i as int).drop_first() =~= entries@.skip(i + 1));
                    i += 1;
                }
                None
            },
            BannerPatternRegistry::Ordered(entries) => {
                let entries: &'a Vec<String> = *entries;
                let index: usize = raw_id as usize;
                if index < entries.len() {
                    Some(entries[index].as_str())
                } else {
                    None
                }
            },
        }
    }
}

/// The pattern of a layer, looked up where it is given by its id.
pub open spec fn pattern_name(registry: BannerPatternRegistry<'_>, layer: LayerModel) -> Option<
    Seq<char>,
> {
    match layer.pattern {
        PatternModel::Reference(raw_id) => registry.pattern(raw_id),
        PatternModel::Direct(identifier) => Some(identifier),
    }
}

pub open spec fn all_known(registry: BannerPatternRegistry<'_>, layers: Seq<LayerModel>) -> bool {
    forall|i: int| 0 <= i < layers.len() ==> pattern_name(registry, #[trigger] layers[i]) is Some
}

/// The layer with its sprite: the pattern's path under the banner entity's
/// directory.
pub open spec fn is_resolved(
    registry: BannerPatternRegistry<'_>,
    layer: LayerModel,
    resolved: BannerPatternLayer,
) -> bool {
    &&& pattern_name(registry, layer) matches Some(name) && resolved.texture@
        == "minecraft:entity/banner/"@ + path_of(name)
    &&& resolved.tint == layer.tint
}

pub open spec fn are_resolved(
    registry: BannerPatternRegistry<'_>,
    layers: Seq<LayerModel>,
    resolved: Seq<BannerPatternLayer>,
) -> bool {
    &&& resolved.len() == layers.len()
    &&& forall|i: int|
        0 <= i < resolved.len() ==> is_resolved(registry, layers[i], #[trigger] resolved[i])
}

impl DeferredBannerPatterns {
    /// Looks the patterns up. It fails where the registry lacks one.
    pub fn resolve(&self, registry: &BannerPatternRegistry<'_>) -> (result: Result<
        Vec<BannerPatternLayer>,
        BlockResourceError,
    >)
        ensures
            match result {
                Ok(resolved) => are_resolved(*registry, layer_views(self.layers@), resolved@),
                Err(error) => !all_known(*registry, layer_views(self.layers@)) && error@
                    == component_failure("pattern registry ID is invalid"@),
            },
            result is Ok <==> all_known(*registry, layer_views(self.layers@)),
    {
        let mut resolved: Vec<BannerPatternLayer> = Vec::new();
        let mut i: usize = 0;
        let ghost models = layer_views(self.layers@);
        while i < self.layers.len()
            invariant
                i <= self.layers@.len(),
                models == layer_views(self.layers@),
                resolved@.len() == i,
                forall|k: int|
                    0 <= k < i ==> is_resolved(*registry, models[k], #[trigger] resolved@[k]),
                forall|k: int|
                    0 <= k < i ==> pattern_name(*registry, #[trigger] models[k]) is Some,
            decreases self.layers@.len() - i,
        {
            let layer: &DeferredBannerPatternLayer = &self.layers[i];
            assert(models[i as int] == layer@);
            let name: &str = match &layer.pattern {
                DeferredBannerPattern::Reference(raw_id) => match registry.identifier(*raw_id) {
                    Some(name) => name,
                    None => {
                        assert(pattern_name(*registry, models[i as int]) is None);
                        return Err(component_error("pattern registry ID is invalid"));
                    },
                },
                DeferredBannerPattern::Direct(identifier) => identifier.as_str(),
            };
            let mut texture: String = String::new();
            texture.push_str("minecraft:entity/banner/");
            texture.push_str(identifier_path(name));
            assert(texture@ =~= "minecraft:entity/banner/"@ + path_of(name@));
            resolved.push(BannerPatternLayer { texture, tint: layer.tint });
            assert(pattern_name(*registry, models[i as int]) == Some(name@));
            i += 1;
        }
        Ok(resolved)
    }
}

/// Decodes the layers of a banner component. Without a registry the patterns are
/// left to be looked up later.
pub fn decode_banner_pattern_layers(
    bytes: &[u8],
    registry: Option<&BannerPatternRegistry<'_>>,
) -> (result: Result<BannerPatternLayers, BlockResourceError>)
    ensures
        match (component_layers(bytes@), registry) {
            (Err(failure), _) => result matches Err(error) && error@ == failure,
            (Ok(layers), None) => result matches Ok(BannerPatternLayers::Deferred(deferred))
                && layer_views(deferred.layers@) == layers,
            (Ok(layers), Some(registry)) => if all_known(*registry, layers) {
                result matches Ok(BannerPatternLayers::Resolved(resolved)) && are_resolved(
                    *registry,
                    layers,
                    resolved@,
                )
            } else {
                result matches Err(error) && error@ == component_failure(
                    "pattern registry ID is invalid"@,
                )
            },
        },
{
    let deferred: DeferredBannerPatterns = match read_component(bytes) {
        Ok(deferred) => deferred,
        Err(error) => return Err(error),
    };
    match registry {
        Some(registry) => match deferred.resolve(registry) {
            Ok(resolved) => Ok(BannerPatternLayers::Resolved(resolved)),
            Err(error) => Err(error),
        },
        None => Ok(BannerPatternLayers::Deferred(deferred)),
    }
}

proof fn lemma_layer_count(bytes: Seq<u8>, start: int, n: int)
    requires
        0 <= n,
    ensures
        layers_upto(bytes, start, n) matches Ok((layers, end)) ==> layers.len() == n,
    decreases n,
{
    if n > 0 {
        lemma_layer_count(bytes, start, n - 1);
    }
}

/// A component holds at most twenty layers.
pub proof fn lemma_component_is_bounded(bytes: Seq<u8>)
    ensures
        component_layers(bytes) matches Ok(layers) ==> layers.len() <= MAX_COMPONENT_PATTERNS,
{
    match number_at(bytes, 0) {
        Some((count, start)) => {
            lemma_layer_count(bytes, start, count as int);
        },
        None => {},
    }
}

/// The flags among the first `n` faces of a model.
pub open spec fn flags_upto(faces: Seq<ModelFace>, n: int) -> Seq<ModelFace>
    decreases n,
{
    if n <= 0 {
        Seq::empty()
    } else {
        let before = flags_upto(faces, n - 1);
        if is_flag(faces[n - 1]) {
            before.push(faces[n - 1])
        } else {
            before
        }
    }
}

pub open spec fn flags(faces: Seq<ModelFace>) -> Seq<ModelFace> {
    flags_upto(faces, faces.len() as int)
}

/// The number of layers that are shown.
pub open spec fn shown_layers(layers: int) -> int {
    if layers < MAX_BANNER_LAYERS {
        layers
    } else {
        MAX_BANNER_LAYERS as int
    }
}

/// The tint index of a layer, where it can be written in 32 bits.
pub open spec fn layer_tint_index(first: int, layer: int) -> Option<u32> {
    if first + layer <= u32::MAX {
        Some((first + layer) as u32)
    } else {
        None
    }
}

/// `painted` is the flag with the sprite of a layer.
pub open spec fn is_painted(
    painted: ModelFace,
    flag: ModelFace,
    texture: Seq<char>,
    tint_index: Option<u32>,
) -> bool {
    &&& painted.texture@ == texture
    &&& painted == (ModelFace {
        texture: painted.texture,
        material: TextureMaterial::BannerPattern,
        tint_index,
        render_layer: RenderLayer::Cutout,
        ..flag
    })
}

/// Every shown layer, in order, on every flag: the `i`-th face belongs to the
/// layer `i / flags` and to the flag `i % flags`.
pub open spec fn are_composed(
    composed: Seq<(ModelFace, u32)>,
    flags: Seq<ModelFace>,
    layers: Seq<BannerPatternLayer>,
    first_tint_index: int,
) -> bool {
    &&& composed.len() == shown_layers(layers.len() as int) * flags.len()
    &&& forall|l: int, f: int|
        0 <= l < shown_layers(layers.len() as int) && 0 <= f < flags.len() ==> {
            let face = #[trigger] composed[l * flags.len() + f];
            &&& is_painted(
                face.0,
                flags[f],
                layers[l].texture@,
                layer_tint_index(first_tint_index, l),
            )
            &&& face.1 == layers[l].tint
        }
}

fn paint_flag(flag: &ModelFace, texture: &String, tint_index: Option<u32>) -> (painted: ModelFace)
    ensures
        is_painted(painted, *flag, texture@, tint_index),
{
    ModelFace {
        geometry: flag.geometry,
        direction: flag.direction,
        shape: flag.shape,
        texture: texture.clone(),
        atlas_region: flag.atlas_region,
        material: TextureMaterial::BannerPattern,
        cullface: flag.cullface,
        tint_index,
        tint_kind: flag.tint_kind,
        render_layer: RenderLayer::Cutout,
        directional_shade: flag.directional_shade,
    }
}

/// The faces of the layers of a banner: the flags of the model, each with the
/// sprite of the layer, together with the tint of the layer. The geometry of the
/// flag is kept.
#[verifier::rlimit(40)]
pub fn composed_banner_pattern_faces(
    base_faces: &Vec<ModelFace>,
    layers: &Vec<BannerPatternLayer>,
    first_tint_index: usize,
) -> (composed: Vec<(ModelFace, u32)>)
    requires
        first_tint_index + layers@.len() <= usize::MAX,
    ensures
        are_composed(composed@, flags(base_faces@), layers@, first_tint_index as int),
{
    let mut flag: Vec<usize> = Vec::new();
    let mut i: usize = 0;
    while i < base_faces.len()
        invariant
            i <= base_faces@.len(),
            flag@.len() == flags_upto(base_faces@, i as int).len(),
            forall|k: int|
                0 <= k < flag@.len() ==> (#[trigger] flag@[k]) < base_faces@.len()
                    && base_faces@[flag@[k] as int] == flags_upto(base_faces@, i as int)[k],
        decreases base_faces@.len() - i,
    {
        if shows_flag(&base_faces[i]) {
            flag.push(i);
        }
        i += 1;
    }
    let ghost flag_faces = flags(base_faces@);
    let shown: usize = if layers.len() < MAX_BANNER_LAYERS {
        layers.len()
    } else {
        MAX_BANNER_LAYERS
    };
    let mut composed: Vec<(ModelFace, u32)> = Vec::new();
    let mut l: usize = 0;
    while l < shown
        invariant
            l <= shown,
            shown == shown_layers(layers@.len() as int),
            shown <= layers@.len(),
            first_tint_index + layers@.len() <= usize::MAX,
            flag@.len() == flag_faces.len(),
            forall|k: int|
                0 <= k < flag@.len() ==> (#[trigger] flag@[k]) < base_faces@.len()
                    && base_faces@[flag@[k] as int] == flag_faces[k],
            composed@.len() == l * flag_faces.len(),
            forall|m: int, g: int|
                0 <= m < l && 0 <= g < flag_faces.len() ==> {
                    let face = #[trigger] composed@[m * flag_faces.len() + g];
                    &&& is_painted(
                        face.0,
                        flag_faces[g],
                        layers@[m].texture@,
                        layer_tint_index(first_tint_index as int, m),
                    )
                    &&& face.1 == layers@[m].tint
                },
        decreases shown - l,
    {
        let index: usize = first_tint_index + l;
        let tint_index: Option<u32> = if index <= u32::MAX as usize {
            Some(index as u32)
        } else {
            None
        };
        let mut f: usize = 0;
        while f < flag.len()
            invariant
                f <= flag@.len(),
                l < shown <= layers@.len(),
                tint_index == layer_tint_index(first_tint_index as int, l as int),
                flag@.len() == flag_faces.len(),
                forall|k: int|
                    0 <= k < flag@.len() ==> (#[trigger] flag@[k]) < base_faces@.len()
                        && base_faces@[flag@[k] as int] == flag_faces[k],
                composed@.len() == l * flag_faces.len() + f,
                forall|m: int, g: int|
                    0 <= m <= l && 0 <= g < flag_faces.len() && (m < l || g < f) ==> {
                        let face = #[trigger] composed@[m * flag_faces.len() + g];
                        &&& is_painted(
                            face.0,
                            flag_faces[g],
                            layers@[m].texture@,
                            layer_tint_index(first_tint_index as int, m),
                        )
                        &&& face.1 == layers@[m].tint
                    },
            decreases flag@.len() - f,
        {
            let ghost before = composed@;
            let painted: ModelFace = paint_flag(
                &base_faces[flag[f]],
                &layers[l].texture,
                tint_index,
            );
            composed.push((painted, layers[l].tint));
            proof {
                let n = flag_faces.len() as int;
                assert forall|m: int, g: int|
                    0 <= m <= l && 0 <= g < n && (m < l || g < f + 1) implies {
                    let face = #[trigger] composed@[m * n + g];
                    &&& is_painted(
                        face.0,
                        flag_faces[g],
                        layers@[m].texture@,
                        layer_tint_index(first_tint_index as int, m),
                    )
                    &&& face.1 == layers@[m].tint
                } by {
                    if m < l {
                        assert(0 <= m * n && m * n + n <= l * n) by (nonlinear_arith)
                            requires
                                0 <= m < l,
                                0 <= n,
                        ;
                        assert(before[m * n + g] == composed@[m * n + g]);
                    } else {
                        assert(m == l);
                        assert(0 <= l * n) by (nonlinear_arith)
                            requires
                                0 <= n,
                        ;
                        if g < f {
                            assert(before[m * n + g] == composed@[m * n + g]);
                        }
                    }
                }
            }
            f += 1;
        }
        proof {
            let n = flag_faces.len() as int;
            assert(l * n + n == (l + 1) * n) by (nonlinear_arith);
        }
        l += 1;
    }
    composed
}

/// The tints that the faces of an icon choose from: that of the model and, on a
/// banner, those of the shown layers.
pub open spec fn icon_tints(model: SpecialModel, layers: Seq<BannerPatternLayer>) -> Seq<u32> {
    match special_tint(model) {
        Some(tint) => seq![tint] + Seq::new(
            shown_layers(layers.len() as int) as nat,
            |i: int| layers[i].tint,
        ),
        None => Seq::empty(),
    }
}

/// `drawn` are the faces of a model followed by those of the layers on it.
pub open spec fn carries_layers(
    drawn: Seq<ModelFace>,
    faces: Seq<ModelFace>,
    layers: Seq<BannerPatternLayer>,
) -> bool {
    exists|composed: Seq<(ModelFace, u32)>| #[trigger]
        are_composed(composed, flags(faces), layers, 1) && drawn == faces + composed.map_values(
            |face: (ModelFace, u32)| face.0,
        )
}

fn copy_face(face: &ModelFace) -> (copy: ModelFace)
    ensures
        copy == *face,
{
    ModelFace {
        geometry: face.geometry,
        direction: face.direction,
        shape: face.shape,
        texture: face.texture.clone(),
        atlas_region: face.atlas_region,
        material: face.material,
        cullface: face.cullface,
        tint_index: face.tint_index,
        tint_kind: face.tint_kind,
        render_layer: face.render_layer,
        directional_shade: face.directional_shade,
    }
}

/// The faces of the icon of a model with a renderer of its own, and their tints.
/// A banner carries its layers; any other model is drawn as it is.
pub fn special_icon_faces(
    special: &SpecialItemModel,
    faces: Vec<ModelFace>,
    layers: &Vec<BannerPatternLayer>,
) -> (icon: (Vec<ModelFace>, Vec<u32>))
    requires
        layers@.len() < usize::MAX,
    ensures
        special_tint(special@) is None ==> icon.0@ == faces@,
        special_tint(special@) is Some ==> carries_layers(icon.0@, faces@, layers@),
        icon.1@ == icon_tints(special@, layers@),
{
    let mut tints: Vec<u32> = Vec::new();
    let tint: u32 = match special.tint() {
        Some(tint) => tint,
        None => return (faces, tints),
    };
    tints.push(tint);
    let composed: Vec<(ModelFace, u32)> = composed_banner_pattern_faces(&faces, layers, 1);
    let ghost model = faces@;
    let ghost parts = composed@.map_values(|face: (ModelFace, u32)| face.0);
    let mut drawn: Vec<ModelFace> = faces;
    let mut i: usize = 0;
    while i < composed.len()
        invariant
            i <= composed@.len(),
            parts == composed@.map_values(|face: (ModelFace, u32)| face.0),
            drawn@ == model + parts.take(i as int),
        decreases composed@.len() - i,
    {
        drawn.push(copy_face(&composed[i].0));
        assert(drawn@ =~= model + parts.take(i + 1));
        i += 1;
    }
    assert(parts.take(i as int) =~= parts);
    let mut l: usize = 0;
    while l < layers.len() && l < MAX_BANNER_LAYERS
        invariant
            l <= shown_layers(layers@.len() as int),
            tints@ == seq![tint] + Seq::new(l as nat, |k: int| layers@[k].tint),
        decreases layers@.len() - l,
    {
        tints.push(layers[l].tint);
        l += 1;
        assert(tints@ =~= seq![tint] + Seq::new(l as nat, |k: int| layers@[k].tint));
    }
    assert(are_composed(composed@, flags(model), layers@, 1));
    (drawn, tints)
}

/// A layer of a placed banner: the asset of its pattern and its dye.
#[derive(Clone, Debug)]
pub struct PlacedPatternLayer {
    pub asset_id: String,
    pub dye_raw_id: u8,
}

/// `layers` are the first `n` of the placed layers whose dye is known, with the
/// sprites of their patterns.
pub open spec fn known_layers(placed: Seq<PlacedPatternLayer>, n: int) -> Seq<(Seq<char>, u32)>
    decreases n,
{
    if n <= 0 {
        Seq::empty()
    } else {
        let before = known_layers(placed, n - 1);
        match dye(placed[n - 1].dye_raw_id as u32) {
            Some(tint) => before.push((banner_sprite(placed[n - 1].asset_id@), tint)),
            None => before,
        }
    }
}

pub open spec fn pattern_views(layers: Seq<BannerPatternLayer>) -> Seq<(Seq<char>, u32)> {
    layers.map_values(|layer: BannerPatternLayer| (layer.texture@, layer.tint))
}

proof fn lemma_known_layers_bound(placed: Seq<PlacedPatternLayer>, n: int)
    requires
        0 <= n,
    ensures
        known_layers(placed, n).len() <= n,
    decreases n,
{
    if n > 0 {
        lemma_known_layers_bound(placed, n - 1);
    }
}

/// The layers of a placed banner that are shown, with their sprites.
pub fn placed_banner_layers(placed: &Vec<PlacedPatternLayer>) -> (layers: Vec<BannerPatternLayer>)
    ensures
        pattern_views(layers@) == known_layers(placed@, shown_layers(placed@.len() as int)),
        layers@.len() <= MAX_BANNER_LAYERS,
{
    let shown: usize = if placed.len() < MAX_BANNER_LAYERS {
        placed.len()
    } else {
        MAX_BANNER_LAYERS
    };
    let mut layers: Vec<BannerPatternLayer> = Vec::new();
    let mut i: usize = 0;
    assert(pattern_views(layers@) =~= Seq::<(Seq<char>, u32)>::empty());
    while i < shown
        invariant
            i <= shown,
            shown == shown_layers(placed@.len() as int),
            shown <= placed@.len(),
            pattern_views(layers@) == known_layers(placed@, i as int),
        decreases shown - i,
    {
        match dye_color(placed[i].dye_raw_id as u32) {
            Some(tint) => {
                let texture: String = banner_pattern_texture(placed[i].asset_id.as_str());
                let ghost before = layers@;
                layers.push(BannerPatternLayer { texture, tint });
                assert(pattern_views(layers@) =~= pattern_views(before).push((texture@, tint)));
            },
            None => {},
        }
        i += 1;
    }
    proof {
        lemma_known_layers_bound(placed@, shown as int);
        assert(layers@.len() == pattern_views(layers@).len());
    }
    layers
}

pub open spec fn region_known(atlas: TextureAtlasData, face: (ModelFace, u32)) -> bool {
    known_region(atlas.regions@, face.0.texture@) is Some
}

/// `drawn` is the composed face as it is drawn: from the banner atlas, and in the
/// colour of the layer.
pub open spec fn is_drawn(
    drawn: ModelFace,
    composed: (ModelFace, u32),
    atlas: TextureAtlasData,
) -> bool {
    drawn == (ModelFace {
        atlas_region: known_region(atlas.regions@, composed.0.texture@)->Some_0,
        material: TextureMaterial::BannerPattern,
        tint_kind: TintKind::Fixed(composed.1),
        tint_index: None,
        ..composed.0
    })
}

/// All faces are drawn, or the name of the first sprite that the atlas lacks is
/// given.
pub open spec fn is_drawing(
    result: Result<Vec<ModelFace>, String>,
    composed: Seq<(ModelFace, u32)>,
    atlas: TextureAtlasData,
) -> bool {
    match result {
        Ok(faces) => {
            &&& faces@.len() == composed.len()
            &&& forall|i: int|
                0 <= i < faces@.len() ==> region_known(atlas, composed[i]) && is_drawn(
                    #[trigger] faces@[i],
                    composed[i],
                    atlas,
                )
        },
        Err(texture) => exists|i: int|
            0 <= i < composed.len() && !region_known(atlas, #[trigger] composed[i])
                && composed[i].0.texture@ == texture@ && forall|j: int|
                0 <= j < i ==> region_known(atlas, #[trigger] composed[j]),
    }
}

/// Draws composed faces from the banner atlas. It fails with the name of the
/// first sprite that is not there.
pub fn draw_banner_faces(composed: Vec<(ModelFace, u32)>, banner_atlas: &TextureAtlasData) -> (result:
    Result<Vec<ModelFace>, String>)
    requires
        banner_atlas.regions.well_formed(),
    ensures
        is_drawing(result, composed@, *banner_atlas),
{
    let mut faces: Vec<ModelFace> = Vec::new();
    let mut i: usize = 0;
    while i < composed.len()
        invariant
            i <= composed@.len(),
            banner_atlas.regions.well_formed(),
            faces@.len() == i,
            forall|k: int| 0 <= k < i ==> region_known(*banner_atlas, #[trigger] composed@[k]),
            forall|k: int|
                0 <= k < i ==> is_drawn(#[trigger] faces@[k], composed@[k], *banner_atlas),
        decreases composed@.len() - i,
    {
        let face: &ModelFace = &composed[i].0;
        match banner_atlas.exact_region(face.texture.as_str()) {
            Some(region) => {
                faces.push(
                    ModelFace {
                        geometry: face.geometry,
                        direction: face.direction,
                        shape: face.shape,
                        texture: face.texture.clone(),
                        atlas_region: region,
                        material: TextureMaterial::BannerPattern,
                        cullface: face.cullface,
                        tint_index: None,
                        tint_kind: TintKind::Fixed(composed[i].1),
                        render_layer: face.render_layer,
                        directional_shade: face.directional_shade,
                    },
                );
                assert(region_known(*banner_atlas, composed@[i as int]));
            },
            None => {
                assert(!region_known(*banner_atlas, composed@[i as int]));
                return Err(face.texture.clone());
            },
        }
        i += 1;
    }
    Ok(faces)
}

/// The faces of the patterns of a placed banner.
pub fn banner_pattern_faces(
    base_faces: &Vec<ModelFace>,
    placed: &Vec<PlacedPatternLayer>,
    banner_atlas: &TextureAtlasData,
) -> (result: Result<Vec<ModelFace>, String>)
    requires
        banner_atlas.regions.well_formed(),
    ensures
        exists|layers: Seq<BannerPatternLayer>, composed: Seq<(ModelFace, u32)>|
            {
                &&& pattern_views(layers) == known_layers(
                    placed@,
                    shown_layers(placed@.len() as int),
                )
                &&& #[trigger] are_composed(composed, flags(base_faces@), layers, 1)
                &&& is_drawing(result, composed, *banner_atlas)
            },
{
    let layers: Vec<BannerPatternLayer> = placed_banner_layers(placed);
    let composed: Vec<(ModelFace, u32)> = composed_banner_pattern_faces(base_faces, &layers, 1);
    let ghost faces_before = composed@;
    let result = draw_banner_faces(composed, banner_atlas);
    assert(are_composed(faces_before, flags(base_faces@), layers@, 1));
    result
}

pub const HEX_DIGITS: [char; 16] = [
    '0',
    '1',
    '2',
    '3',
    '4',
    '5',
    '6',
    '7',
    '8',
    '9',
    'a',
    'b',
    'c',
    'd',
    'e',
    'f',
];

/// Two hexadecimal digits for each byte.
pub open spec fn hexadecimal(bytes: Seq<u8>) -> Seq<char>
    decreases bytes.len(),
{
    if bytes.len() == 0 {
        Seq::empty()
    } else {
        hexadecimal(bytes.drop_last()).push(HEX_DIGITS@[bytes.last() as int / 16]).push(
            HEX_DIGITS@[bytes.last() as int % 16],
        )
    }
}

/// What a component adds to the key of an item.
pub open spec fn component_key(name: Seq<char>, bytes: Seq<u8>) -> Seq<char> {
    seq!['|'] + name + seq!['='] + hexadecimal(bytes)
}

/// Adds a component to the key under which the icon of an item is kept.
pub fn append_component_key(key: &mut String, name: &str, bytes: &[u8])
    ensures
        final(key)@ == old(key)@ + component_key(name@, bytes@),
{
    key.push('|');
    key.push_str(name);
    key.push('=');
    let ghost prefix = old(key)@ + (seq!['|'] + name@ + seq!['=']);
    assert(key@ =~= prefix + hexadecimal(bytes@.take(0)));
    let mut i: usize = 0;
    while i < bytes.len()
        invariant
            i <= bytes@.len(),
            key@ == prefix + hexadecimal(bytes@.take(i as int)),
        decreases bytes@.len() - i,
    {
        let byte: u8 = bytes[i];
        let ghost before = key@;
        key.push(HEX_DIGITS[(byte / 16) as usize]);
        key.push(HEX_DIGITS[(byte % 16) as usize]);
        proof {
            let longer = bytes@.take(i + 1);
            assert(longer.drop_last() =~= bytes@.take(i as int));
            assert(longer.last() == byte);
            assert(key@ =~= prefix + hexadecimal(longer));
        }
        i += 1;
    }
    assert(bytes@.take(bytes@.len() as int) =~= bytes@);
    assert(key@ =~= old(key)@ + component_key(name@, bytes@));
}

proof fn lemma_hexadecimal_length(bytes: Seq<u8>)
    ensures
        hexadecimal(bytes).len() == 2 * bytes.len(),
    decreases bytes.len(),
{
    if bytes.len() > 0 {
        lemma_hexadecimal_length(bytes.drop_last());
    }
}

proof fn lemma_hexadecimal_injective(a: Seq<u8>, b: Seq<u8>)
    requires
        hexadecimal(a) == hexadecimal(b),
    ensures
        a == b,
    decreases a.len(),
{
    lemma_hexadecimal_length(a);
    lemma_hexadecimal_length(b);
    if a.len() > 0 {
        let x = hexadecimal(a);
        assert(x.drop_last().drop_last() =~= hexadecimal(a.drop_last()));
        assert(hexadecimal(b).drop_last().drop_last() =~= hexadecimal(b.drop_last()));
        lemma_hexadecimal_injective(a.drop_last(), b.drop_last());
        assert(x[x.len() - 1] == HEX_DIGITS@[a.last() as int % 16]);
        assert(x[x.len() - 2] == HEX_DIGITS@[a.last() as int / 16]);
        assert(x[x.len() - 1] == HEX_DIGITS@[b.last() as int % 16]);
        assert(x[x.len() - 2] == HEX_DIGITS@[b.last() as int / 16]);
        assert(a.last() % 16 == b.last() % 16);
        assert(a.last() / 16 == b.last() / 16);
        assert(a =~= a.drop_last().push(a.last()));
        assert(b =~= b.drop_last().push(b.last()));
    } else {
        assert(a =~= b);
    }
}

/// Items that differ in a component have different keys.
pub proof fn lemma_component_keys_are_distinct(
    key: Seq<char>,
    name: Seq<char>,
    a: Seq<u8>,
    b: Seq<u8>,
)
    requires
        a != b,
    ensures
        key + component_key(name, a) != key + component_key(name, b),
{
    if key + component_key(name, a) == key + component_key(name, b) {
        let n = (key + (seq!['|'] + name + seq!['='])).len() as int;
        let x = key + component_key(name, a);
        let y = key + component_key(name, b);
        assert(x.skip(n) =~= hexadecimal(a));
        assert(y.skip(n) =~= hexadecimal(b));
        lemma_hexadecimal_injective(a, b);
    }
}

/// What the first `n` properties add to a key.
pub open spec fn property_keys(properties: Seq<(String, String)>, n: int) -> Seq<char>
    decreases n,
{
    if n <= 0 {
        Seq::empty()
    } else {
        property_keys(properties, n - 1) + seq!['|'] + properties[n - 1].0@ + seq!['=']
            + properties[n - 1].1@
    }
}

/// The key under which the icon of an item is kept: its model, and the properties
/// of its block in their order.
pub open spec fn item_key(model: Seq<char>, properties: Seq<(String, String)>) -> Seq<char> {
    if properties.len() == 0 {
        model
    } else {
        model + "|block_state"@ + property_keys(properties, properties.len() as int)
    }
}

pub fn gui_item_render_key(model: &str, block_state: &Vec<(String, String)>) -> (key: String)
    ensures
        key@ == item_key(model@, block_state@),
{
    let mut key: String = String::new();
    key.push_str(model);
    assert(key@ =~= model@);
    if block_state.len() > 0 {
        key.push_str("|block_state");
        let ghost prefix = model@ + "|block_state"@;
        let mut i: usize = 0;
        assert(key@ =~= prefix + property_keys(block_state@, 0));
        while i < block_state.len()
            invariant
                i <= block_state@.len(),
                key@ == prefix + property_keys(block_state@, i as int),
            decreases block_state@.len() - i,
        {
            key.push('|');
            key.push_str(block_state[i].0.as_str());
            key.push('=');
            key.push_str(block_state[i].1.as_str());
            assert(key@ =~= prefix + property_keys(block_state@, i + 1));
            i += 1;
        }
    }
    key
}

/// Patterns that are looked up later come to the same layers as those that are
/// looked up at once.
pub proof fn lemma_lookup_can_wait(
    registry: BannerPatternRegistry<'_>,
    layers: Seq<LayerModel>,
    at_once: Seq<BannerPatternLayer>,
    later: Seq<BannerPatternLayer>,
)
    requires
        are_resolved(registry, layers, at_once),
        are_resolved(registry, layers, later),
    ensures
        pattern_views(at_once) == pattern_views(later),
{
    assert forall|i: int| 0 <= i < at_once.len() implies at_once[i].texture@ == later[i].texture@
        && #[trigger] at_once[i].tint == later[i].tint by {
        assert(is_resolved(registry, layers[i], at_once[i]));
        assert(is_resolved(registry, layers[i], later[i]));
    }
    assert(pattern_views(at_once) =~= pattern_views(later));
}

/// The bytes of a number: seven bits in each, the lowest first, and the eighth set in all
/// but the last.
pub open spec fn written_number(number: int) -> Seq<u8>
    decreases number,
{
    if number < 128 {
        seq![number as u8]
    } else {
        seq![(number % 128 + 128) as u8] + written_number(number / 128)
    }
}

/// Whether bytes hold others at a place.
pub open spec fn holds_at(bytes: Seq<u8>, at: int, part: Seq<u8>) -> bool {
    0 <= at && at + part.len() <= bytes.len() && bytes.subrange(at, at + part.len()) == part
}

proof fn lemma_groups_of_written_number(bytes: Seq<u8>, at: int, k: int, number: int)
    requires
        0 <= at,
        0 <= k < 5,
        0 <= number,
        k == 4 ==> number < 128,
        k == 3 ==> number < 0x4000,
        k == 2 ==> number < 0x20_0000,
        k == 1 ==> number < 0x1000_0000,
        k == 0 ==> number < 0x8_0000_0000,
        holds_at(bytes, at + k, written_number(number)),
    ensures
        groups_from(bytes, at, k) == Some(
            (number * place_value(k), at + k + written_number(number).len() as int),
        ),
    decreases 5 - k,
{
    let written = written_number(number);
    let shown = bytes.subrange(at + k, at + k + written.len());
    assert(bytes[at + k] == shown[0]);
    assert(k == 0 || k == 1 || k == 2 || k == 3 || k == 4);
    if number < 128 {
        assert(bytes[at + k] == number as u8);
    } else {
        let rest = written_number(number / 128);
        assert(written == seq![(number % 128 + 128) as u8] + rest);
        assert(bytes[at + k] == (number % 128 + 128) as u8);
        assert(bytes.subrange(at + k + 1, at + k + 1 + rest.len()) =~= rest) by {
            assert(shown == written);
            assert forall|i: int| 0 <= i < rest.len() implies bytes[at + k + 1 + i] == rest[i] by {
                assert(shown[i + 1] == written[i + 1]);
            }
        }
        lemma_groups_of_written_number(bytes, at, k + 1, number / 128);
        assert(place_value(k + 1) == 128 * place_value(k));
        assert(number == 128 * (number / 128) + number % 128);
        assert((number % 128) * place_value(k) + (number / 128) * place_value(k + 1) == number
            * place_value(k)) by (nonlinear_arith)
            requires
                place_value(k + 1) == 128 * place_value(k),
                number == 128 * (number / 128) + number % 128,
        ;
        assert(((number % 128 + 128) as u8) % 128 == number % 128);
    }
}

/// A number that was written is read back, wherever it stands and whatever follows it.
pub proof fn lemma_written_numbers_are_found(bytes: Seq<u8>, at: int, number: u32)
    requires
        holds_at(bytes, at, written_number(number as int)),
    ensures
        number_at(bytes, at) == Some(
            (number, at + written_number(number as int).len() as int),
        ),
{
    lemma_groups_of_written_number(bytes, at, 0, number as int);
    let (sum, end) = groups_from(bytes, at, 0)->Some_0;
    assert(sum == number);
    vstd::arithmetic::div_mod::lemma_small_mod(number as nat, 0x1_0000_0000);
}

/// The bytes of a text: their number, and the text in UTF-8.
pub open spec fn written_text(text: Seq<char>) -> Seq<u8> {
    written_number(encode_utf8(text).len() as int) + encode_utf8(text)
}

proof fn lemma_holds_both(bytes: Seq<u8>, at: int, first: Seq<u8>, second: Seq<u8>)
    requires
        holds_at(bytes, at, first + second),
    ensures
        holds_at(bytes, at, first),
        holds_at(bytes, at + first.len() as int, second),
{
    let both = first + second;
    let shown = bytes.subrange(at, at + both.len());
    assert(bytes.subrange(at, at + first.len()) =~= first) by {
        assert forall|i: int| 0 <= i < first.len() implies bytes[at + i] == first[i] by {
            assert(shown[i] == both[i]);
        }
    }
    assert(bytes.subrange(at + first.len(), at + first.len() + second.len()) =~= second) by {
        assert forall|i: int| 0 <= i < second.len() implies bytes[at + first.len() + i]
            == second[i] by {
            assert(shown[first.len() + i] == both[first.len() + i]);
        }
    }
}

/// A text of up to 1024 bytes that was written is read back.
pub proof fn lemma_written_texts_are_found(bytes: Seq<u8>, at: int, text: Seq<char>)
    requires
        encode_utf8(text).len() <= 1024,
        holds_at(bytes, at, written_text(text)),
    ensures
        text_at(bytes, at) == Some((text, at + written_text(text).len() as int)),
{
    let encoded = encode_utf8(text);
    let length = encoded.len() as int;
    lemma_holds_both(bytes, at, written_number(length), encoded);
    lemma_written_numbers_are_found(bytes, at, length as u32);
    encode_utf8_valid_utf8(text);
    encode_utf8_decode_utf8(text);
}

/// The bytes of a pattern: the number behind that of a known one, or a nought, the
/// identifier and the key of its name.
pub open spec fn written_pattern(pattern: PatternModel, key: Seq<char>) -> Seq<u8> {
    match pattern {
        PatternModel::Reference(raw_id) => written_number(raw_id + 1),
        PatternModel::Direct(identifier) => written_number(0) + (written_text(identifier)
            + written_text(key)),
    }
}

/// A pattern that was written is read back.
pub proof fn lemma_written_patterns_are_found(
    bytes: Seq<u8>,
    at: int,
    pattern: PatternModel,
    key: Seq<char>,
)
    requires
        holds_at(bytes, at, written_pattern(pattern, key)),
        pattern matches PatternModel::Reference(raw_id) ==> raw_id < u32::MAX,
        pattern matches PatternModel::Direct(identifier) ==> is_identifier(identifier)
            && encode_utf8(identifier).len() <= 1024 && encode_utf8(key).len() <= 1024,
    ensures
        pattern_at(bytes, at) == Ok::<(PatternModel, int), Failure>(
            (pattern, at + written_pattern(pattern, key).len() as int),
        ),
{
    match pattern {
        PatternModel::Reference(raw_id) => {
            lemma_written_numbers_are_found(bytes, at, (raw_id + 1) as u32);
        },
        PatternModel::Direct(identifier) => {
            lemma_holds_both(
                bytes,
                at,
                written_number(0),
                written_text(identifier) + written_text(key),
            );
            lemma_written_numbers_are_found(bytes, at, 0);
            let start = at + written_number(0).len() as int;
            lemma_holds_both(bytes, start, written_text(identifier), written_text(key));
            lemma_written_texts_are_found(bytes, start, identifier);
            lemma_written_texts_are_found(
                bytes,
                start + written_text(identifier).len() as int,
                key,
            );
        },
    }
}

/// The bytes of layers that refer to known patterns: the pattern and the dye of each.
pub open spec fn written_layers(layers: Seq<(u32, u32)>, n: int) -> Seq<u8>
    decreases n,
{
    if n <= 0 {
        Seq::empty()
    } else {
        written_layers(layers, n - 1) + (written_number(layers[n - 1].0 + 1) + written_number(
            layers[n - 1].1 as int,
        ))
    }
}

proof fn lemma_layer_of_both(
    bytes: Seq<u8>,
    at: int,
    middle: int,
    end: int,
    pattern: PatternModel,
    dye_id: u32,
)
    requires
        dye_id < 16,
        pattern_at(bytes, at) == Ok::<(PatternModel, int), Failure>((pattern, middle)),
        number_at(bytes, middle) == Some((dye_id, end)),
    ensures
        layer_at(bytes, at) == Ok::<(LayerModel, int), Failure>(
            (LayerModel { pattern, tint: dye(dye_id)->Some_0 }, end),
        ),
{
    reveal(layer_at);
}

proof fn lemma_written_layers_are_found(bytes: Seq<u8>, at: int, layers: Seq<(u32, u32)>, n: int)
    requires
        0 <= n <= layers.len(),
        holds_at(bytes, at, written_layers(layers, n)),
        forall|i: int|
            0 <= i < n ==> (#[trigger] layers[i]).0 < u32::MAX && layers[i].1 < 16,
    ensures
        layers_upto(bytes, at, n) matches Ok(found) && found.0.len() == n && found.1 == at
            + written_layers(layers, n).len() && forall|i: int|
            0 <= i < n ==> (#[trigger] found.0[i]).pattern == PatternModel::Reference(layers[i].0)
                && Some(found.0[i].tint) == dye(layers[i].1),
    decreases n,
{
    if n > 0 {
        let before = written_layers(layers, n - 1);
        let (raw_id, dye_id) = layers[n - 1];
        let last = written_number(raw_id + 1) + written_number(dye_id as int);
        lemma_holds_both(bytes, at, before, last);
        lemma_written_layers_are_found(bytes, at, layers, n - 1);
        let middle = at + before.len() as int;
        lemma_holds_both(bytes, middle, written_number(raw_id + 1), written_number(dye_id as int));
        lemma_written_patterns_are_found(
            bytes,
            middle,
            PatternModel::Reference(raw_id),
            Seq::empty(),
        );
        lemma_written_numbers_are_found(
            bytes,
            middle + written_number(raw_id + 1).len() as int,
            dye_id,
        );
        let place = middle + written_number(raw_id + 1).len() as int;
        assert(pattern_at(bytes, middle) == Ok::<(PatternModel, int), Failure>(
            (PatternModel::Reference(raw_id), place),
        ));
        assert(number_at(bytes, place) == Some(
            (dye_id, place + written_number(dye_id as int).len() as int),
        ));
        let found = layers_upto(bytes, at, n - 1)->Ok_0;
        assert(layers_upto(bytes, at, n - 1) == Ok::<(Seq<LayerModel>, int), Failure>(
            (found.0, middle),
        ));
        let tint = dye(dye_id)->Some_0;
        let layer = LayerModel { pattern: PatternModel::Reference(raw_id), tint };
        let end = middle + last.len() as int;
        lemma_layer_of_both(bytes, middle, place, end, PatternModel::Reference(raw_id), dye_id);
        assert(layer_at(bytes, middle) == Ok::<(LayerModel, int), Failure>((layer, end)));
        assert(layers_upto(bytes, at, n) == Ok::<(Seq<LayerModel>, int), Failure>(
            (found.0.push(layer), end),
        ));
    }
}

/// A component that lists patterns with their dyes is read as these layers, in this
/// order, each in the colour of its dye.
pub proof fn lemma_written_components_are_read(layers: Seq<(u32, u32)>)
    requires
        layers.len() <= 20,
        forall|i: int|
            0 <= i < layers.len() ==> (#[trigger] layers[i]).0 < u32::MAX && layers[i].1 < 16,
        (written_number(layers.len() as int) + written_layers(layers, layers.len() as int)).len()
            <= 128,
    ensures
        ({
            let bytes = written_number(layers.len() as int) + written_layers(
                layers,
                layers.len() as int,
            );
            component_layers(bytes) matches Ok(models) && models.len() == layers.len() && forall|
                i: int,
            |
                0 <= i < layers.len() ==> {
                    &&& (#[trigger] models[i]).pattern == PatternModel::Reference(layers[i].0)
                    &&& Some(models[i].tint) == dye(layers[i].1)
                }
        }),
{
    let count = layers.len() as int;
    let bytes = written_number(count) + written_layers(layers, count);
    assert(bytes.subrange(0, bytes.len() as int) =~= bytes);
    lemma_holds_both(bytes, 0, written_number(count), written_layers(layers, count));
    lemma_written_numbers_are_found(bytes, 0, count as u32);
    lemma_written_layers_are_found(bytes, written_number(count).len() as int, layers, count);
}

/// Each dye has the colour of its name.
pub proof fn lemma_dyes_have_their_colors(raw_id: u32)
    ensures
        dye(raw_id) is Some <==> raw_id <= 15,
        dye(0) == Some(0xf9fffeu32),
        dye(1) == Some(0xf9801du32),
        dye(2) == Some(0xc74ebdu32),
        dye(3) == Some(0x3ab3dau32),
        dye(4) == Some(0xfed83du32),
        dye(5) == Some(0x80c71fu32),
        dye(6) == Some(0xf38baau32),
        dye(7) == Some(0x474f52u32),
        dye(8) == Some(0x9d9d97u32),
        dye(9) == Some(0x169c9cu32),
        dye(10) == Some(0x8932b8u32),
        dye(11) == Some(0x3c44aau32),
        dye(12) == Some(0x835432u32),
        dye(13) == Some(0x5e7c16u32),
        dye(14) == Some(0xb02e26u32),
        dye(15) == Some(0x1d1d21u32),
{
}

/// A pattern is found under its number: by its place, or by the first entry that has it.
pub proof fn lemma_patterns_are_found_by_number(
    registry: BannerPatternRegistry<'_>,
    raw_id: u32,
)
    ensures
        registry matches BannerPatternRegistry::Ordered(names) ==> (registry.pattern(raw_id)
            is Some <==> raw_id < names@.len()),
        registry matches BannerPatternRegistry::Ordered(names) ==> raw_id < names@.len()
            ==> registry.pattern(raw_id) == Some(names@[raw_id as int]@),
        registry matches BannerPatternRegistry::GameData(entries) ==> (match registry.pattern(
            raw_id,
        ) {
            Some(name) => exists|i: int|
                0 <= i < entries@.len() && (#[trigger] entries@[i]).0 == raw_id && entries@[i].1@
                    == name && forall|j: int| 0 <= j < i ==> (#[trigger] entries@[j]).0 != raw_id,
            None => forall|i: int| 0 <= i < entries@.len() ==> (#[trigger] entries@[i]).0 != raw_id,
        }),
{
    if let BannerPatternRegistry::GameData(entries) = registry {
        lemma_first_entry(entries@, raw_id);
    }
}

proof fn lemma_first_entry(entries: Seq<(u32, String)>, raw_id: u32)
    ensures
        match entry_with_id(entries, raw_id) {
            Some(name) => exists|i: int|
                0 <= i < entries.len() && (#[trigger] entries[i]).0 == raw_id && entries[i].1@
                    == name && forall|j: int| 0 <= j < i ==> (#[trigger] entries[j]).0 != raw_id,
            None => forall|i: int| 0 <= i < entries.len() ==> (#[trigger] entries[i]).0 != raw_id,
        },
    decreases entries.len(),
{
    if entries.len() > 0 && entries[0].0 != raw_id {
        let rest = entries.drop_first();
        lemma_first_entry(rest, raw_id);
        match entry_with_id(rest, raw_id) {
            Some(name) => {
                let i = choose|i: int|
                    0 <= i < rest.len() && (#[trigger] rest[i]).0 == raw_id && rest[i].1@ == name
                        && forall|j: int| 0 <= j < i ==> (#[trigger] rest[j]).0 != raw_id;
                assert(entries[i + 1] == rest[i]);
                assert forall|j: int| 0 <= j < i + 1 implies (#[trigger] entries[j]).0 != raw_id by {
                    if j > 0 {
                        assert(entries[j] == rest[j - 1]);
                    }
                }
            },
            None => {
                assert forall|i: int| 0 <= i < entries.len() implies (#[trigger] entries[i]).0
                    != raw_id by {
                    if i > 0 {
                        assert(entries[i] == rest[i - 1]);
                    }
                }
            },
        }
    } else if entries.len() > 0 {
        assert(entries[0].1@ == entry_with_id(entries, raw_id)->Some_0);
    }
}

/// The faces that patterns are painted on are all that show the flag, in their order.
pub proof fn lemma_flags_are_all_that_show_one(faces: Seq<ModelFace>, n: int)
    requires
        0 <= n <= faces.len(),
    ensures
        flags_upto(faces, n) == faces.take(n).filter(|face: ModelFace| is_flag(face)),
    decreases n,
{
    reveal(Seq::filter);
    let flag = |face: ModelFace| is_flag(face);
    if n > 0 {
        lemma_flags_are_all_that_show_one(faces, n - 1);
        assert(faces.take(n).drop_last() =~= faces.take(n - 1));
        assert(faces.take(n).last() == faces[n - 1]);
    } else {
        assert(faces.take(0).filter(flag) =~= Seq::empty());
    }
}

/// Patterns are painted over each other: all faces of one layer come before those of the
/// next. A painted face lies where the flag lies, has the texture and the tint of its
/// layer and lets the flag through. No more than sixteen layers are painted.
pub proof fn lemma_layers_are_painted_over_each_other(
    composed: Seq<(ModelFace, u32)>,
    flags: Seq<ModelFace>,
    layers: Seq<BannerPatternLayer>,
    first_tint_index: u32,
    i: int,
)
    requires
        are_composed(composed, flags, layers, first_tint_index as int),
        0 <= i < composed.len(),
    ensures
        ({
            let layer = i / flags.len() as int;
            let flag = flags[i % flags.len() as int];
            let painted = composed[i].0;
            &&& 0 <= layer < layers.len() && layer < 16
            &&& composed[i].1 == layers[layer].tint
            &&& painted.texture@ == layers[layer].texture@
            &&& painted.geometry == flag.geometry
            &&& painted.direction == flag.direction
            &&& painted.shape == flag.shape
            &&& painted.cullface == flag.cullface
            &&& painted.directional_shade == flag.directional_shade
            &&& painted.material == TextureMaterial::BannerPattern
            &&& painted.render_layer == RenderLayer::Cutout
            &&& painted.tint_index matches Some(index) ==> index == first_tint_index + layer
            &&& painted.tint_index is None <==> first_tint_index + layer > u32::MAX
        }),
        layers.len() <= 16 ==> composed.len() == layers.len() * flags.len(),
        layers.len() > 16 ==> composed.len() == 16 * flags.len(),
{
    let count = flags.len() as int;
    let shown = shown_layers(layers.len() as int);
    assert(count > 0) by {
        if count == 0 {
            assert(shown * 0 == 0) by (nonlinear_arith);
        }
    }
    let layer = i / count;
    let place = i % count;
    vstd::arithmetic::div_mod::lemma_fundamental_div_mod(i, count);
    vstd::arithmetic::div_mod::lemma_mod_bound(i, count);
    assert(count * layer == layer * count) by (nonlinear_arith);
    assert(0 <= layer < shown) by (nonlinear_arith)
        requires
            i == layer * count + place,
            0 <= i < shown * count,
            0 <= place < count,
    ;
    let face = composed[layer * flags.len() + place];
    assert(is_painted(
        face.0,
        flags[place],
        layers[layer].texture@,
        layer_tint_index(first_tint_index as int, layer),
    ));
}

/// The tints of a banner are its own and behind it one for each layer that is painted.
pub proof fn lemma_tints_follow_the_layers(
    model: SpecialModel,
    layers: Seq<BannerPatternLayer>,
    i: int,
)
    requires
        0 <= i < layers.len(),
        i < 16,
    ensures
        special_tint(model) matches Some(tint) ==> {
            &&& icon_tints(model, layers)[0] == tint
            &&& icon_tints(model, layers)[i + 1] == layers[i].tint
            &&& layers.len() <= 16 ==> icon_tints(model, layers).len() == layers.len() + 1
            &&& layers.len() > 16 ==> icon_tints(model, layers).len() == 17
        },
        special_tint(model) is None ==> icon_tints(model, layers).len() == 0,
{
}

/// Bytes are written with two digits each, from `0` to `9` and from `a` to `f`, the higher
/// first, and can be read back from them.
pub proof fn lemma_bytes_have_two_digits(bytes: Seq<u8>, i: int)
    requires
        0 <= i < bytes.len(),
    ensures
        hexadecimal(bytes).len() == 2 * bytes.len(),
        ({
            let digit = |c: char|
                if '0' <= c && c <= '9' {
                    c as int - '0' as int
                } else if 'a' <= c && c <= 'f' {
                    c as int - 'a' as int + 10
                } else {
                    -1
                };
            let high = digit(hexadecimal(bytes)[2 * i]);
            let low = digit(hexadecimal(bytes)[2 * i + 1]);
            0 <= low < 16 && 0 <= high && bytes[i] == 16 * high + low
        }),
    decreases bytes.len(),
{
    let before = bytes.drop_last();
    lemma_length_of_digits(bytes);
    lemma_length_of_digits(before);
    if i < before.len() {
        lemma_bytes_have_two_digits(before, i);
        assert(hexadecimal(bytes)[2 * i] == hexadecimal(before)[2 * i]);
        assert(hexadecimal(bytes)[2 * i + 1] == hexadecimal(before)[2 * i + 1]);
        assert(before[i] == bytes[i]);
    } else {
        let high = bytes.last() as int / 16;
        let low = bytes.last() as int % 16;
        assert(hexadecimal(bytes)[2 * i] == HEX_DIGITS@[high]);
        assert(hexadecimal(bytes)[2 * i + 1] == HEX_DIGITS@[low]);
        lemma_digit(high);
        lemma_digit(low);
    }
}

proof fn lemma_length_of_digits(bytes: Seq<u8>)
    ensures
        hexadecimal(bytes).len() == 2 * bytes.len(),
    decreases bytes.len(),
{
    if bytes.len() > 0 {
        lemma_length_of_digits(bytes.drop_last());
    }
}

proof fn lemma_digit(value: int)
    requires
        0 <= value < 16,
    ensures
        value < 10 ==> HEX_DIGITS@[value] as int == '0' as int + value,
        value >= 10 ==> HEX_DIGITS@[value] as int == 'a' as int + value - 10,
{
}

/// The key of an item is its model, and where its block has properties, these behind it,
/// each with its value.
pub proof fn lemma_keys_name_the_properties(
    model: Seq<char>,
    properties: Seq<(String, String)>,
    n: int,
)
    requires
        0 <= n < properties.len(),
    ensures
        item_key(model, Seq::empty()) == model,
        item_key(model, properties) == model + "|block_state"@ + property_keys(
            properties,
            properties.len() as int,
        ),
        property_keys(properties, 0) == Seq::<char>::empty(),
        property_keys(properties, n + 1) == property_keys(properties, n) + ("|"@
            + properties[n].0@ + "="@ + properties[n].1@),
{
    reveal_strlit("|");
    reveal_strlit("=");
    assert("|"@ =~= seq!['|']);
    assert("="@ =~= seq!['=']);
    assert(property_keys(properties, n + 1) =~= property_keys(properties, n) + ("|"@
        + properties[n].0@ + "="@ + properties[n].1@));
}

/// A resolved layer keeps its tint and shows the sprite of its pattern, under the
/// directory of banners.
pub proof fn lemma_resolved_layers_show_their_patterns(
    registry: BannerPatternRegistry<'_>,
    layers: Seq<LayerModel>,
    resolved: Seq<BannerPatternLayer>,
    i: int,
)
    requires
        are_resolved(registry, layers, resolved),
        0 <= i < layers.len(),
    ensures
        resolved[i].tint == layers[i].tint,
        layers[i].pattern matches PatternModel::Direct(name) ==> resolved[i].texture@
            == "minecraft:entity/banner/"@ + path_of(name),
        layers[i].pattern matches PatternModel::Reference(raw_id) ==> (registry.pattern(
            raw_id,
        ) matches Some(name) && resolved[i].texture@ == "minecraft:entity/banner/"@ + path_of(
            name,
        )),
{
    assert(is_resolved(registry, layers[i], resolved[i]));
}

/// The patterns of a placed banner are those whose dye is known, in their order, each
/// with the sprite of its pattern and the colour of its dye.
pub proof fn lemma_placed_layers_have_known_dyes(placed: Seq<PlacedPatternLayer>, n: int)
    requires
        0 <= n <= placed.len(),
    ensures
        known_layers(placed, n) == placed.take(n).filter(
            |layer: PlacedPatternLayer| 0 <= layer.dye_raw_id < 16,
        ).map_values(
            |layer: PlacedPatternLayer|
                (banner_sprite(layer.asset_id@), dye(layer.dye_raw_id as u32)->Some_0),
        ),
    decreases n,
{
    reveal(Seq::filter);
    let known = |layer: PlacedPatternLayer| 0 <= layer.dye_raw_id < 16;
    let shown = |layer: PlacedPatternLayer|
        (banner_sprite(layer.asset_id@), dye(layer.dye_raw_id as u32)->Some_0);
    if n > 0 {
        lemma_placed_layers_have_known_dyes(placed, n - 1);
        let all = placed.take(n);
        assert(all.drop_last() =~= placed.take(n - 1));
        assert(all.last() == placed[n - 1]);
        let kept = placed.take(n - 1).filter(known);
        if known(placed[n - 1]) {
            assert(kept.push(placed[n - 1]).map_values(shown) =~= kept.map_values(shown).push(
                shown(placed[n - 1]),
            ));
        }
    } else {
        assert(placed.take(0).filter(known).map_values(shown) =~= Seq::empty());
    }
}

/// A pattern is drawn with its own region of the atlas and the fixed tint of its layer,
/// where it was composed.
pub proof fn lemma_patterns_are_drawn_in_their_tint(
    drawn: ModelFace,
    composed: (ModelFace, u32),
    atlas: TextureAtlasData,
)
    requires
        is_drawn(drawn, composed, atlas),
        region_known(atlas, composed),
    ensures
        drawn.tint_kind == TintKind::Fixed(composed.1),
        drawn.tint_index is None,
        drawn.material == TextureMaterial::BannerPattern,
        drawn.atlas_region == atlas.regions@[composed.0.texture@],
        drawn.texture == composed.0.texture,
        drawn.geometry == composed.0.geometry,
        drawn.direction == composed.0.direction,
        drawn.shape == composed.0.shape,
        drawn.cullface == composed.0.cullface,
        drawn.render_layer == composed.0.render_layer,
{
}

} // verus!
