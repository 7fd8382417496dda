//! Block and item models: their inheritance, their textures and their faces.

use crate::error::{malformation, malformed, BlockResourceError, Failure};
use crate::identifiers::{identified, parse_identifier};
use crate::names::NameMap;
use crate::resources::FaceShape;
use std::rc::Rc;
use vstd::prelude::*;
use vstd::string::StrSliceExecFns;

verus! {

pub const MAX_MODEL_DEPTH: usize = 32;

pub const MAX_ELEMENTS: usize = 256;

pub const MAX_FLUID_OCCLUSION_BOXES: usize = 32;

/// A texture of a model: a sprite, or a sprite with the layer it asks for.
#[derive(Clone, Debug)]
pub enum TextureWire {
    Simple(String),
    Extended { sprite: String, force_translucent: bool },
}

impl TextureWire {
    pub open spec fn sprite_name(self) -> Seq<char> {
        match self {
            TextureWire::Simple(sprite) => sprite@,
            TextureWire::Extended { sprite, .. } => sprite@,
        }
    }

    pub fn into_sprite(self) -> (sprite: String)
        ensures
            sprite@ == self.sprite_name(),
    {
        match self {
            TextureWire::Simple(sprite) => sprite,
            TextureWire::Extended { sprite, .. } => sprite,
        }
    }

    pub fn copy_sprite(&self) -> (copy: String)
        ensures
            copy@ == self.sprite_name(),
    {
        match self {
            TextureWire::Simple(sprite) => sprite.clone(),
            TextureWire::Extended { sprite, .. } => sprite.clone(),
        }
    }
}

/// The turn of an element about an axis. Only some angles are supported.
#[derive(Clone, Debug)]
pub struct ElementTurn {
    pub angle_supported: bool,
    pub axis: String,
}

/// A face of an element. Its corners and texture coordinates are held by the
/// presentation layer under `geometry`.
#[derive(Clone, Debug)]
pub struct FaceWire {
    pub geometry: usize,
    pub shape: FaceShape,
    pub texture: String,
    pub cullface: Option<String>,
    pub tintindex: Option<u32>,
}

/// An element of a model: a box with faces, by the names of their directions.
/// `in_bounds` tells whether its corners are within the bounds of models.
#[derive(Debug)]
pub struct ElementWire {
    pub in_bounds: bool,
    pub turn: Option<ElementTurn>,
    pub shade: bool,
    pub faces: Vec<(String, FaceWire)>,
}

pub fn default_true() -> (value: bool)
    ensures
        value,
{
    true
}

/// A model as it is written down. Its transform for the interface is held by the
/// presentation layer.
#[derive(Debug)]
pub struct ModelWire {
    pub parent: Option<String>,
    pub textures: Vec<(String, TextureWire)>,
    pub elements: Option<Rc<Vec<ElementWire>>>,
    pub ambientocclusion: Option<bool>,
    pub gui_transform: Option<usize>,
    pub gui_light: Option<String>,
}

/// A model with all that it inherits.
#[derive(Debug)]
pub struct ResolvedModel {
    pub textures: NameMap<String>,
    pub elements: Rc<Vec<ElementWire>>,
    pub ambient_occlusion: bool,
    pub gui_transform: Option<usize>,
    pub gui_light_side: bool,
}

/// The textures of a model, by name.
pub type Textures = Map<Seq<char>, String>;

pub open spec fn is_variable(value: Seq<char>) -> bool {
    value.len() > 0 && value[0] == '#'
}

/// A variable that a model gives a texture.
pub open spec fn is_given(textures: Textures, value: Seq<char>) -> bool {
    is_variable(value) && textures.contains_key(value.drop_first())
}

/// What a texture refers to after `k` steps: each step goes from a variable to
/// what the model gives it.
pub open spec fn reference(textures: Textures, value: Seq<char>, k: nat) -> Option<Seq<char>>
    decreases k,
{
    if k == 0 {
        Some(value)
    } else {
        match reference(textures, value, (k - 1) as nat) {
            Some(before) => if is_given(textures, before) {
                Some(textures[before.drop_first()]@)
            } else {
                None
            },
            None => None,
        }
    }
}

/// The references end in a sprite after `k` steps.
pub open spec fn ends_at(textures: Textures, value: Seq<char>, k: nat) -> bool {
    reference(textures, value, k) matches Some(last) && !is_variable(last)
}

/// The references lead to a variable without a texture after `k` steps.
pub open spec fn lost_at(textures: Textures, value: Seq<char>, k: nat) -> bool {
    reference(textures, value, k) matches Some(last) && is_variable(last) && !is_given(
        textures,
        last,
    )
}

pub open spec fn texture_failure(value: Seq<char>, reason: Seq<char>) -> Failure {
    malformation("model texture"@, value, reason)
}

/// The texture that a reference stands for: the sprite where the references end.
/// They may also lead nowhere, or never end.
pub open spec fn texture_for(textures: Textures, value: Seq<char>) -> Result<Seq<char>, Failure> {
    if exists|k: nat| ends_at(textures, value, k) {
        let k = choose|k: nat| ends_at(textures, value, k);
        identified(reference(textures, value, k)->Some_0)
    } else if exists|k: nat| lost_at(textures, value, k) {
        Err(texture_failure(value, "texture variable is missing"@))
    } else {
        Err(texture_failure(value, "texture reference cycle"@))
    }
}

proof fn lemma_reference_stops(textures: Textures, value: Seq<char>, k: nat, n: nat)
    requires
        k < n,
        reference(textures, value, k) matches Some(last) && !is_given(textures, last),
    ensures
        reference(textures, value, n) is None,
    decreases n,
{
    if n > k + 1 {
        lemma_reference_stops(textures, value, k, (n - 1) as nat);
    }
}

proof fn lemma_reference_before(textures: Textures, value: Seq<char>, k: nat, n: nat)
    requires
        k < n,
        reference(textures, value, n) is Some,
    ensures
        reference(textures, value, k) matches Some(before) && is_given(textures, before),
    decreases n,
{
    if n > k + 1 {
        lemma_reference_before(textures, value, k, (n - 1) as nat);
    }
}

/// References end once.
proof fn lemma_texture_ends(textures: Textures, value: Seq<char>, k: nat)
    requires
        ends_at(textures, value, k),
    ensures
        texture_for(textures, value) == identified(reference(textures, value, k)->Some_0),
{
    let n = choose|n: nat| ends_at(textures, value, n);
    assert(ends_at(textures, value, n));
    if n < k {
        lemma_reference_stops(textures, value, n, k);
    } else if k < n {
        lemma_reference_stops(textures, value, k, n);
    }
}

proof fn lemma_texture_lost(textures: Textures, value: Seq<char>, k: nat)
    requires
        lost_at(textures, value, k),
    ensures
        texture_for(textures, value) == Err::<Seq<char>, Failure>(
            texture_failure(value, "texture variable is missing"@),
        ),
{
    assert forall|n: nat| !ends_at(textures, value, n) by {
        if n < k {
            lemma_reference_before(textures, value, n, k);
        } else if k < n {
            lemma_reference_stops(textures, value, k, n);
        }
    }
}

/// Where the references came back to what they had been, they go on for ever.
proof fn lemma_reference_repeats(textures: Textures, value: Seq<char>, i: nat, j: nat, n: nat)
    requires
        i < j,
        forall|k: nat|
            k <= j ==> #[trigger] reference(textures, value, k) is Some && is_given(
                textures,
                reference(textures, value, k)->Some_0,
            ),
        reference(textures, value, i) == reference(textures, value, j),
    ensures
        reference(textures, value, n) matches Some(last) && is_given(textures, last),
        n > j ==> reference(textures, value, n) == reference(
            textures,
            value,
            (n - (j - i)) as nat,
        ),
    decreases n,
{
    if n > j {
        lemma_reference_repeats(textures, value, i, j, (n - 1) as nat);
        lemma_reference_repeats(textures, value, i, j, (n - (j - i)) as nat);
        assert(reference(textures, value, (n - 1) as nat) == reference(
            textures,
            value,
            (n - 1 - (j - i)) as nat,
        ));
    } else {
        assert(reference(textures, value, n) is Some);
    }
}

/// Among more numbers below `n` than there are, two are equal.
proof fn lemma_pigeonhole(places: Seq<int>, n: nat)
    requires
        places.len() > n,
        forall|i: int| 0 <= i < places.len() ==> 0 <= #[trigger] places[i] < n,
    ensures
        exists|i: int, j: int| 0 <= i < j < places.len() && places[i] == places[j],
    decreases n,
{
    if n == 0 {
        let first = places[0];
        assert(0 <= first < n);
    } else {
        let last = (n - 1) as int;
        if exists|i: int, j: int| 0 <= i < j < places.len() && places[i] == places[j] {
        } else if exists|i: int| 0 <= i < places.len() && places[i] == last {
            let at = choose|i: int| 0 <= i < places.len() && places[i] == last;
            let rest = places.remove(at);
            assert forall|i: int| 0 <= i < rest.len() implies 0 <= #[trigger] rest[i] < n - 1 by {
                let old_i = if i < at {
                    i
                } else {
                    i + 1
                };
                assert(rest[i] == places[old_i]);
                assert(places[old_i] != last);
            }
            lemma_pigeonhole(rest, (n - 1) as nat);
            let (i, j) = choose|i: int, j: int| 0 <= i < j < rest.len() && rest[i] == rest[j];
            let old_i = if i < at {
                i
            } else {
                i + 1
            };
            let old_j = if j < at {
                j
            } else {
                j + 1
            };
            assert(places[old_i] == places[old_j]);
        } else {
            assert forall|i: int| 0 <= i < places.len() implies 0 <= #[trigger] places[i] < n
                - 1 by {}
            lemma_pigeonhole(places, (n - 1) as nat);
        }
    }
}

/// References that take more steps than there are textures never end.
proof fn lemma_texture_cycles(textures: NameMap<String>, value: Seq<char>)
    requires
        textures.well_formed(),
        forall|k: nat|
            k <= textures.entries@.len() ==> #[trigger] reference(textures@, value, k) is Some
                && is_given(textures@, reference(textures@, value, k)->Some_0),
    ensures
        texture_for(textures@, value) == Err::<Seq<char>, Failure>(
            texture_failure(value, "texture reference cycle"@),
        ),
{
    let n = textures.entries@.len();
    let places = Seq::new(
        n + 1,
        |k: int|
            crate::names::place_of(
                textures.entries@,
                reference(textures@, value, k as nat)->Some_0.drop_first(),
            ),
    );
    assert forall|k: int| 0 <= k < places.len() implies 0 <= #[trigger] places[k] < n
        && textures.entries@[places[k]].0@ == reference(
        textures@,
        value,
        k as nat,
    )->Some_0.drop_first() by {
        let last = reference(textures@, value, k as nat)->Some_0;
        assert(is_given(textures@, last));
        crate::names::lemma_place_of(textures.entries@, last.drop_first());
    }
    lemma_pigeonhole(places, n);
    let (i, j) = choose|i: int, j: int|
        0 <= i < j < places.len() && places[i] == places[j];
    let a = reference(textures@, value, i as nat)->Some_0;
    let b = reference(textures@, value, j as nat)->Some_0;
    assert(a.drop_first() == b.drop_first());
    assert(a[0] == '#' && b[0] == '#');
    assert(a =~= seq!['#'] + a.drop_first());
    assert(b =~= seq!['#'] + b.drop_first());
    assert forall|k: nat|
        !ends_at(textures@, value, k) && !lost_at(textures@, value, k) by {
        lemma_reference_repeats(textures@, value, i as nat, j as nat, k);
    }
}

/// The texture that a reference of a model stands for.
pub fn resolve_texture(value: &str, textures: &NameMap<String>) -> (result: Result<
    String,
    BlockResourceError,
>)
    requires
        textures.well_formed(),
    ensures
        match (result, texture_for(textures@, value@)) {
            (Ok(name), Ok(model)) => name@ == model,
            (Err(error), Err(failure)) => error@ == failure,
            _ => false,
        },
{
    let mut current: &str = value;
    let limit: usize = textures.entries.len();
    let mut steps: usize = 0;
    loop
        invariant
            textures.well_formed(),
            limit == textures.entries@.len(),
            steps <= limit,
            reference(textures@, value@, steps as nat) == Some(current@),
            forall|k: nat|
                k < steps ==> #[trigger] reference(textures@, value@, k) is Some && is_given(
                    textures@,
                    reference(textures@, value@, k)->Some_0,
                ),
        decreases limit - steps,
    {
        let length: usize = current.unicode_len();
        if length == 0 || current.get_char(0) != '#' {
            proof {
                lemma_texture_ends(textures@, value@, steps as nat);
            }
            return parse_identifier(current);
        }
        let variable: &str = current.substring_char(1, length);
        assert(variable@ =~= current@.drop_first());
        match textures.get(variable) {
            Some(next) => {
                if steps == limit {
                    proof {
                        lemma_texture_cycles(*textures, value@);
                    }
                    return Err(malformed("model texture", value, "texture reference cycle"));
                }
                current = next.as_str();
                steps += 1;
            },
            None => {
                proof {
                    lemma_texture_lost(textures@, value@, steps as nat);
                }
                return Err(malformed("model texture", value, "texture variable is missing"));
            },
        }
    }
}

/// A texture that is named outright is that texture.
pub proof fn lemma_named_textures_are_themselves(textures: Textures, value: Seq<char>)
    requires
        value.len() == 0 || value[0] != '#',
    ensures
        texture_for(textures, value) == identified(value),
{
    assert(ends_at(textures, value, 0));
    lemma_texture_ends(textures, value, 0);
}

/// A variable stands for what the texture under its name stands for.
pub proof fn lemma_variables_stand_for_their_textures(textures: Textures, name: Seq<char>)
    requires
        textures.contains_key(name),
    ensures
        ({
            let variable = texture_for(textures, seq!['#'] + name);
            let texture = texture_for(textures, textures[name]@);
            &&& variable is Ok <==> texture is Ok
            &&& variable is Ok ==> variable == texture
        }),
{
    let value = seq!['#'] + name;
    let next = textures[name]@;
    assert(value.drop_first() =~= name);
    assert(is_given(textures, value));
    assert forall|k: nat| #[trigger]
        reference(textures, next, k) == reference(textures, value, k + 1) by {
        lemma_reference_goes_on(textures, value, k);
    }
    if exists|k: nat| ends_at(textures, next, k) {
        let k = choose|k: nat| ends_at(textures, next, k);
        assert(reference(textures, next, k) == reference(textures, value, k + 1));
        assert(ends_at(textures, value, k + 1));
        lemma_texture_ends(textures, next, k);
        lemma_texture_ends(textures, value, k + 1);
    } else {
        assert forall|k: nat| !ends_at(textures, value, k) by {
            if k > 0 {
                let before = (k - 1) as nat;
                assert(reference(textures, next, before) == reference(textures, value, before + 1));
                assert(!ends_at(textures, next, before));
            }
        }
    }
}

proof fn lemma_reference_goes_on(textures: Textures, value: Seq<char>, k: nat)
    requires
        is_given(textures, value),
    ensures
        reference(textures, textures[value.drop_first()]@, k) == reference(textures, value, k + 1),
    decreases k,
{
    reveal_with_fuel(reference, 2);
    if k > 0 {
        lemma_reference_goes_on(textures, value, (k - 1) as nat);
    }
}

/// A variable without a texture is missing, and one that stands for itself never ends.
pub proof fn lemma_variables_without_textures_fail(textures: Textures, name: Seq<char>)
    ensures
        !textures.contains_key(name) ==> texture_for(textures, seq!['#'] + name) == Err::<
            Seq<char>,
            Failure,
        >(
            malformation(
                "model texture"@,
                seq!['#'] + name,
                "texture variable is missing"@,
            ),
        ),
        textures.contains_key(name) && textures[name]@ == seq!['#'] + name ==> texture_for(
            textures,
            seq!['#'] + name,
        ) == Err::<Seq<char>, Failure>(
            malformation("model texture"@, seq!['#'] + name, "texture reference cycle"@),
        ),
{
    let value = seq!['#'] + name;
    assert(value.drop_first() =~= name);
    if !textures.contains_key(name) {
        assert(lost_at(textures, value, 0));
        lemma_texture_lost(textures, value, 0);
    } else if textures[name]@ == value {
        assert forall|k: nat| !ends_at(textures, value, k) && !lost_at(textures, value, k) by {
            lemma_reference_stays(textures, value, k);
        }
    }
}

proof fn lemma_reference_stays(textures: Textures, value: Seq<char>, k: nat)
    requires
        is_given(textures, value),
        textures[value.drop_first()]@ == value,
    ensures
        reference(textures, value, k) == Some(value),
    decreases k,
{
    if k > 0 {
        lemma_reference_stays(textures, value, (k - 1) as nat);
    }
}

/// A texture is its sprite, whether or not it says how it is drawn.
pub proof fn lemma_textures_are_their_sprites(sprite: String, force_translucent: bool)
    ensures
        TextureWire::Simple(sprite).sprite_name() == sprite@,
        (TextureWire::Extended { sprite, force_translucent }).sprite_name() == sprite@,
{
}

} // verus!
