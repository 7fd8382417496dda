//! Models with renderers of their own.

use crate::error::{malformation, malformed, BlockResourceError, Failure};
use crate::identifiers::{
    identifier_path, normalize_special_texture, path_of, special_texture,
};
use crate::json::{Json, JsonTree};
use crate::text::same_text;
use vstd::prelude::*;

verus! {

/// A model with a renderer of its own: its family, and what the family lets it
/// choose.
#[derive(Clone, Debug, PartialEq, Eq)]
pub struct SpecialItemModel {
    pub family: String,
    pub texture: Option<String>,
    pub variant: Option<String>,
    pub part: Option<String>,
}

pub struct SpecialModel {
    pub family: Seq<char>,
    pub texture: Option<Seq<char>>,
    pub variant: Option<Seq<char>>,
    pub part: Option<Seq<char>>,
}

pub open spec fn string_view(text: Option<String>) -> Option<Seq<char>> {
    match text {
        Some(text) => Some(text@),
        None => None,
    }
}

impl View for SpecialItemModel {
    type V = SpecialModel;

    open spec fn view(&self) -> SpecialModel {
        SpecialModel {
            family: self.family@,
            texture: string_view(self.texture),
            variant: string_view(self.variant),
            part: string_view(self.part),
        }
    }
}

/// The variant of a model: its colour, its kind or its pose, whichever comes
/// first.
pub open spec fn variant_of(tree: JsonTree) -> Option<Seq<char>> {
    if tree.member("color"@) is Some {
        tree.member_text("color"@)
    } else if tree.member("kind"@) is Some {
        tree.member_text("kind"@)
    } else {
        tree.member_text("pose"@)
    }
}

pub open spec fn special_of(tree: JsonTree) -> Result<SpecialModel, Failure> {
    if !(tree is Object) {
        Err(malformation("special item model"@, "model"@, "renderer is not an object"@))
    } else {
        match tree.member_text("type"@) {
            None => Err(malformation("special item model"@, "model"@, "type is missing"@)),
            Some(family) => Ok(
                SpecialModel {
                    family,
                    texture: tree.member_text("texture"@),
                    variant: variant_of(tree),
                    part: tree.member_text("part"@),
                },
            ),
        }
    }
}

fn owned(text: Option<&str>) -> (copy: Option<String>)
    ensures
        match (copy, text) {
            (Some(copy), Some(text)) => copy@ == text@,
            (None, None) => true,
            _ => false,
        },
{
    match text {
        Some(text) => Some(text.to_owned()),
        None => None,
    }
}

/// The chosen text, or a default.
pub open spec fn chosen_or(text: Option<Seq<char>>, default: Seq<char>) -> Seq<char> {
    match text {
        Some(text) => text,
        None => default,
    }
}

/// A texture in a directory: the path of the chosen one, or of a default.
pub open spec fn in_directory(
    directory: Seq<char>,
    texture: Option<Seq<char>>,
    default: Seq<char>,
) -> Seq<char> {
    directory + path_of(chosen_or(texture, default))
}

/// The texture of a head.
pub open spec fn head_texture(variant: Option<Seq<char>>) -> Seq<char> {
    let kind = chosen_or(variant, "skeleton"@);
    if kind == "creeper"@ {
        "minecraft:entity/creeper/creeper"@
    } else if kind == "dragon"@ {
        "minecraft:entity/enderdragon/dragon"@
    } else if kind == "piglin"@ {
        "minecraft:entity/piglin/piglin"@
    } else if kind == "wither_skeleton"@ {
        "minecraft:entity/skeleton/wither_skeleton"@
    } else if kind == "zombie"@ {
        "minecraft:entity/zombie/zombie"@
    } else {
        "minecraft:entity/skeleton/skeleton"@
    }
}

/// The texture of a model with a renderer of its own. A player's head is shown
/// with the default skin.
pub open spec fn special_texture_of(model: SpecialModel) -> Result<Seq<char>, Failure> {
    let family = model.family;
    if family == "minecraft:chest"@ {
        Ok(in_directory("minecraft:entity/chest/"@, model.texture, "minecraft:normal"@))
    } else if family == "minecraft:bed"@ {
        Ok(in_directory("minecraft:entity/bed/"@, model.texture, "minecraft:red"@))
    } else if family == "minecraft:banner"@ {
        Ok("minecraft:entity/banner/banner_base"@)
    } else if family == "minecraft:shulker_box"@ {
        Ok(in_directory("minecraft:entity/shulker/"@, model.texture, "minecraft:shulker"@))
    } else if family == "minecraft:shield"@ {
        Ok("minecraft:entity/shield/shield_base_nopattern"@)
    } else if family == "minecraft:decorated_pot"@ {
        Ok("minecraft:entity/decorated_pot/decorated_pot_base"@)
    } else if family == "minecraft:copper_golem_statue"@ {
        Ok(
            special_texture(
                chosen_or(
                    model.texture,
                    "minecraft:textures/entity/copper_golem/copper_golem.png"@,
                ),
            ),
        )
    } else if family == "minecraft:head"@ {
        Ok(head_texture(model.variant))
    } else if family == "minecraft:player_head"@ {
        Ok("minecraft:entity/player/wide/steve"@)
    } else if family == "minecraft:conduit"@ {
        Ok("minecraft:entity/conduit/base"@)
    } else {
        Err(malformation("special item model"@, family, "renderer has no static GUI texture"@))
    }
}

pub open spec fn named_color(name: Seq<char>) -> u32 {
    if name == "white"@ {
        0xf9fffe
    } else if name == "orange"@ {
        0xf9801d
    } else if name == "magenta"@ {
        0xc74ebd
    } else if name == "light_blue"@ {
        0x3ab3da
    } else if name == "yellow"@ {
        0xfed83d
    } else if name == "lime"@ {
        0x80c71f
    } else if name == "pink"@ {
        0xf38baa
    } else if name == "gray"@ {
        0x474f52
    } else if name == "light_gray"@ {
        0x9d9d97
    } else if name == "cyan"@ {
        0x169c9c
    } else if name == "purple"@ {
        0x8932b8
    } else if name == "blue"@ {
        0x3c44aa
    } else if name == "brown"@ {
        0x835432
    } else if name == "green"@ {
        0x5e7c16
    } else if name == "red"@ {
        0xb02e26
    } else if name == "black"@ {
        0x1d1d21
    } else {
        0xffffff
    }
}

/// The colour of a dye by its name; white where it is unknown.
pub fn color_named(name: &str) -> (color: u32)
    ensures
        color == named_color(name@),
{
    if same_text(name, "white") {
        0xf9fffe
    } else if same_text(name, "orange") {
        0xf9801d
    } else if same_text(name, "magenta") {
        0xc74ebd
    } else if same_text(name, "light_blue") {
        0x3ab3da
    } else if same_text(name, "yellow") {
        0xfed83d
    } else if same_text(name, "lime") {
        0x80c71f
    } else if same_text(name, "pink") {
        0xf38baa
    } else if same_text(name, "gray") {
        0x474f52
    } else if same_text(name, "light_gray") {
        0x9d9d97
    } else if same_text(name, "cyan") {
        0x169c9c
    } else if same_text(name, "purple") {
        0x8932b8
    } else if same_text(name, "blue") {
        0x3c44aa
    } else if same_text(name, "brown") {
        0x835432
    } else if same_text(name, "green") {
        0x5e7c16
    } else if same_text(name, "red") {
        0xb02e26
    } else if same_text(name, "black") {
        0x1d1d21
    } else {
        0xffffff
    }
}

/// The tint of a model: banners have the colour of their dye.
pub open spec fn special_tint(model: SpecialModel) -> Option<u32> {
    if model.family == "minecraft:banner"@ {
        match model.variant {
            Some(name) => Some(named_color(name)),
            None => Some(0xffffff),
        }
    } else {
        None
    }
}

fn chosen<'a>(text: &'a Option<String>, default: &'a str) -> (chosen: &'a str)
    ensures
        chosen@ == chosen_or(string_view(*text), default@),
{
    match text {
        Some(text) => text.as_str(),
        None => default,
    }
}

fn texture_in(directory: &str, texture: &Option<String>, default: &str) -> (full: String)
    ensures
        full@ == in_directory(directory@, string_view(*texture), default@),
{
    let mut full: String = String::new();
    full.push_str(directory);
    full.push_str(identifier_path(chosen(texture, default)));
    assert(full@ =~= in_directory(directory@, string_view(*texture), default@));
    full
}

impl SpecialItemModel {
    /// Reads a model with a renderer of its own.
    pub fn from_value(value: &Json) -> (result: Result<Self, BlockResourceError>)
        ensures
            match (result, special_of(value@)) {
                (Ok(model), Ok(expected)) => model@ == expected,
                (Err(error), Err(failure)) => error@ == failure,
                _ => false,
            },
    {
        if !value.is_object() {
            return Err(malformed("special item model", "model", "renderer is not an object"));
        }
        let family: String = match value.get_text("type") {
            Some(family) => family.to_owned(),
            None => return Err(malformed("special item model", "model", "type is missing")),
        };
        let texture: Option<String> = owned(value.get_text("texture"));
        let variant: Option<String> = if value.get("color").is_some() {
            owned(value.get_text("color"))
        } else if value.get("kind").is_some() {
            owned(value.get_text("kind"))
        } else {
            owned(value.get_text("pose"))
        };
        let part: Option<String> = owned(value.get_text("part"));
        Ok(SpecialItemModel { family, texture, variant, part })
    }

    /// The texture of the model.
    pub fn texture_identifier(&self) -> (result: Result<String, BlockResourceError>)
        ensures
            match (result, special_texture_of(self@)) {
                (Ok(texture), Ok(expected)) => texture@ == expected,
                (Err(error), Err(failure)) => error@ == failure,
                _ => false,
            },
    {
        let family: &str = self.family.as_str();
        if same_text(family, "minecraft:chest") {
            Ok(texture_in("minecraft:entity/chest/", &self.texture, "minecraft:normal"))
        } else if same_text(family, "minecraft:bed") {
            Ok(texture_in("minecraft:entity/bed/", &self.texture, "minecraft:red"))
        } else if same_text(family, "minecraft:banner") {
            Ok("minecraft:entity/banner/banner_base".to_owned())
        } else if same_text(family, "minecraft:shulker_box") {
            Ok(texture_in("minecraft:entity/shulker/", &self.texture, "minecraft:shulker"))
        } else if same_text(family, "minecraft:shield") {
            Ok("minecraft:entity/shield/shield_base_nopattern".to_owned())
        } else if same_text(family, "minecraft:decorated_pot") {
            Ok("minecraft:entity/decorated_pot/decorated_pot_base".to_owned())
        } else if same_text(family, "minecraft:copper_golem_statue") {
            Ok(
                normalize_special_texture(
                    chosen(
                        &self.texture,
                        "minecraft:textures/entity/copper_golem/copper_golem.png",
                    ),
                ),
            )
        } else if same_text(family, "minecraft:head") {
            let kind: &str = chosen(&self.variant, "skeleton");
            if same_text(kind, "creeper") {
                Ok("minecraft:entity/creeper/creeper".to_owned())
            } else if same_text(kind, "dragon") {
                Ok("minecraft:entity/enderdragon/dragon".to_owned())
            } else if same_text(kind, "piglin") {
                Ok("minecraft:entity/piglin/piglin".to_owned())
            } else if same_text(kind, "wither_skeleton") {
                Ok("minecraft:entity/skeleton/wither_skeleton".to_owned())
            } else if same_text(kind, "zombie") {
                Ok("minecraft:entity/zombie/zombie".to_owned())
            } else {
                Ok("minecraft:entity/skeleton/skeleton".to_owned())
            }
        } else if same_text(family, "minecraft:player_head") {
            Ok("minecraft:entity/player/wide/steve".to_owned())
        } else if same_text(family, "minecraft:conduit") {
            Ok("minecraft:entity/conduit/base".to_owned())
        } else {
            Err(
                malformed("special item model", family, "renderer has no static GUI texture"),
            )
        }
    }

    /// The tint of the model.
    pub fn tint(&self) -> (tint: Option<u32>)
        ensures
            tint == special_tint(self@),
    {
        if same_text(self.family.as_str(), "minecraft:banner") {
            match &self.variant {
                Some(name) => Some(color_named(name.as_str())),
                None => Some(0xffffff),
            }
        } else {
            None
        }
    }
}

/// The families of special models are told apart by their names.
pub proof fn lemma_families_differ()
    ensures
        "minecraft:chest"@.len() == 15,
        "minecraft:bed"@.len() == 13,
        "minecraft:banner"@.len() == 16 && "minecraft:banner"@[10] == 'b',
        "minecraft:shulker_box"@.len() == 21 && "minecraft:shulker_box"@[10] == 's',
        "minecraft:shield"@.len() == 16 && "minecraft:shield"@[10] == 's',
        "minecraft:decorated_pot"@.len() == 23,
        "minecraft:copper_golem_statue"@.len() == 29,
        "minecraft:head"@.len() == 14,
        "minecraft:player_head"@.len() == 21 && "minecraft:player_head"@[10] == 'p',
        "minecraft:conduit"@.len() == 17,
{
    reveal_strlit("minecraft:chest");
    reveal_strlit("minecraft:bed");
    reveal_strlit("minecraft:banner");
    reveal_strlit("minecraft:shulker_box");
    reveal_strlit("minecraft:shield");
    reveal_strlit("minecraft:decorated_pot");
    reveal_strlit("minecraft:copper_golem_statue");
    reveal_strlit("minecraft:head");
    reveal_strlit("minecraft:player_head");
    reveal_strlit("minecraft:conduit");
}

/// A special model is what its document says. What tells its variants apart is its colour,
/// where it has one, then its kind, then its pose.
pub proof fn lemma_special_models_are_what_is_written(tree: JsonTree)
    ensures
        special_of(tree) is Ok <==> tree is Object && tree.member_text("type"@) is Some,
        special_of(tree) matches Ok(model) ==> {
            &&& Some(model.family) == tree.member_text("type"@)
            &&& model.texture == tree.member_text("texture"@)
            &&& model.part == tree.member_text("part"@)
            &&& tree.member("color"@) is Some ==> model.variant == tree.member_text("color"@)
            &&& tree.member("color"@) is None && tree.member("kind"@) is Some ==> model.variant
                == tree.member_text("kind"@)
            &&& tree.member("color"@) is None && tree.member("kind"@) is None ==> model.variant
                == tree.member_text("pose"@)
        },
{
}

/// Chests, beds and shulker boxes have a texture of their own, which lies in the directory
/// of the family, and a default where they name none. All others are drawn with the one
/// texture of the family.
pub proof fn lemma_special_textures_lie_with_their_family(model: SpecialModel)
    ensures
        model.family == "minecraft:chest"@ ==> special_texture_of(model) == Ok::<
            Seq<char>,
            Failure,
        >(
            "minecraft:entity/chest/"@ + path_of(
                match model.texture {
                    Some(texture) => texture,
                    None => "minecraft:normal"@,
                },
            ),
        ),
        model.family == "minecraft:bed"@ ==> special_texture_of(model) == Ok::<Seq<char>, Failure>(
            "minecraft:entity/bed/"@ + path_of(
                match model.texture {
                    Some(texture) => texture,
                    None => "minecraft:red"@,
                },
            ),
        ),
        model.family == "minecraft:shulker_box"@ ==> special_texture_of(model) == Ok::<
            Seq<char>,
            Failure,
        >(
            "minecraft:entity/shulker/"@ + path_of(
                match model.texture {
                    Some(texture) => texture,
                    None => "minecraft:shulker"@,
                },
            ),
        ),
        model.family == "minecraft:banner"@ ==> special_texture_of(model) == Ok::<
            Seq<char>,
            Failure,
        >("minecraft:entity/banner/banner_base"@),
        model.family == "minecraft:shield"@ ==> special_texture_of(model) == Ok::<
            Seq<char>,
            Failure,
        >("minecraft:entity/shield/shield_base_nopattern"@),
        model.family == "minecraft:decorated_pot"@ ==> special_texture_of(model) == Ok::<
            Seq<char>,
            Failure,
        >("minecraft:entity/decorated_pot/decorated_pot_base"@),
        model.family == "minecraft:player_head"@ ==> special_texture_of(model) == Ok::<
            Seq<char>,
            Failure,
        >("minecraft:entity/player/wide/steve"@),
        model.family == "minecraft:conduit"@ ==> special_texture_of(model) == Ok::<
            Seq<char>,
            Failure,
        >("minecraft:entity/conduit/base"@),
        model.family == "minecraft:copper_golem_statue"@ ==> (model.texture matches Some(texture)
            ==> special_texture_of(model) == Ok::<Seq<char>, Failure>(special_texture(texture))),
{
    lemma_families_differ();
}

/// Each kind of head has the texture of what it was taken from, and one without a kind
/// that of a skeleton.
pub proof fn lemma_heads_look_like_their_owners(model: SpecialModel)
    requires
        model.family == "minecraft:head"@,
    ensures
        model.variant is None ==> special_texture_of(model) == Ok::<Seq<char>, Failure>(
            "minecraft:entity/skeleton/skeleton"@,
        ),
        model.variant == Some("creeper"@) ==> special_texture_of(model) == Ok::<
            Seq<char>,
            Failure,
        >("minecraft:entity/creeper/creeper"@),
        model.variant == Some("dragon"@) ==> special_texture_of(model) == Ok::<
            Seq<char>,
            Failure,
        >("minecraft:entity/enderdragon/dragon"@),
        model.variant == Some("piglin"@) ==> special_texture_of(model) == Ok::<
            Seq<char>,
            Failure,
        >("minecraft:entity/piglin/piglin"@),
        model.variant == Some("wither_skeleton"@) ==> special_texture_of(model) == Ok::<
            Seq<char>,
            Failure,
        >("minecraft:entity/skeleton/wither_skeleton"@),
        model.variant == Some("zombie"@) ==> special_texture_of(model) == Ok::<
            Seq<char>,
            Failure,
        >("minecraft:entity/zombie/zombie"@),
        model.variant == Some("skeleton"@) ==> special_texture_of(model) == Ok::<
            Seq<char>,
            Failure,
        >("minecraft:entity/skeleton/skeleton"@),
{
    lemma_families_differ();
    reveal_strlit("creeper");
    reveal_strlit("dragon");
    reveal_strlit("piglin");
    reveal_strlit("wither_skeleton");
    reveal_strlit("zombie");
    reveal_strlit("skeleton");
    assert("creeper"@.len() == 7 && "dragon"@.len() == 6 && "piglin"@.len() == 6 && "zombie"@.len()
        == 6 && "wither_skeleton"@.len() == 15 && "skeleton"@.len() == 8);
    assert("dragon"@[0] == 'd' && "piglin"@[0] == 'p' && "zombie"@[0] == 'z');
}

} // verus!
