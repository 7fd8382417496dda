//! Texture metadata: the animation of a texture's frames.

use crate::error::{BlockResourceError, Failure};
use crate::images::{AnimationStep, DecodedAnimation};
use crate::json::{bytes_view, parse_object, parsed_object, Json, JsonTree};
use crate::mismatch::{
    describe_length, describe_type, describe_value, wrong_length, wrong_type, wrong_value,
};
use crate::text::same_text;
use vstd::prelude::*;

verus! {

pub const MAX_ANIMATION_STEPS: usize = 1024;

pub const MAX_FRAME_TICKS: u32 = 72_000;

/// One step of an animation section: a frame, with its own time or without.
#[derive(Clone, Copy, Debug, PartialEq, Eq, Structural)]
pub struct AnimationFrameWire {
    pub index: u32,
    pub time: Option<u32>,
}

/// An animation section.
#[derive(Clone, Debug)]
pub struct AnimationWire {
    pub frametime: u32,
    pub interpolate: bool,
    pub frames: Option<Vec<AnimationFrameWire>>,
}

pub struct SectionModel {
    pub frametime: u32,
    pub interpolate: bool,
    pub frames: Option<Seq<AnimationFrameWire>>,
}

impl View for AnimationWire {
    type V = SectionModel;

    open spec fn view(&self) -> SectionModel {
        SectionModel {
            frametime: self.frametime,
            interpolate: self.interpolate,
            frames: match self.frames {
                Some(frames) => Some(frames@),
                None => None,
            },
        }
    }
}

pub fn default_frame_time() -> (ticks: u32)
    ensures
        ticks == 1,
{
    1
}

/// A number that fits in 32 bits.
pub open spec fn small_number(tree: JsonTree) -> Option<u32> {
    match tree.unsigned() {
        Some(value) => if value <= u32::MAX {
            Some(value as u32)
        } else {
            None
        },
        None => None,
    }
}

fn read_small(value: &Json) -> (number: Option<u32>)
    ensures
        number == small_number(value@),
{
    match value.as_unsigned() {
        Some(number) => if number <= 0xffff_ffff {
            Some(number as u32)
        } else {
            None
        },
        None => None,
    }
}

/// A number that fits in 32 bits, or the message about what stands in its place.
pub open spec fn number_of(tree: JsonTree) -> Result<u32, Seq<char>> {
    match (small_number(tree), tree) {
        (Some(value), _) => Ok(value),
        (None, JsonTree::Number(number)) if number.unsigned is Some || number.signed is Some => Err(
            wrong_value(tree, "u32"@),
        ),
        _ => Err(wrong_type(tree, "u32"@)),
    }
}

fn read_number(value: &Json) -> (number: Result<u32, String>)
    ensures
        match (number, number_of(value@)) {
            (Ok(number), Ok(expected)) => number == expected,
            (Err(message), Err(expected)) => message@ == expected,
            _ => false,
        },
{
    match read_small(value) {
        Some(number) => return Ok(number),
        None => {},
    }
    match value {
        Json::Number(number) => if number.unsigned.is_some() || number.signed.is_some() {
            return Err(describe_value(value, "u32"));
        },
        _ => {},
    }
    Err(describe_type(value, "u32"))
}

/// A boolean, or the message about what stands in its place.
pub open spec fn boolean_of(tree: JsonTree) -> Result<bool, Seq<char>> {
    match tree.boolean() {
        Some(value) => Ok(value),
        None => Err(wrong_type(tree, "a boolean"@)),
    }
}

fn read_boolean(value: &Json) -> (flag: Result<bool, String>)
    ensures
        match (flag, boolean_of(value@)) {
            (Ok(flag), Ok(expected)) => flag == expected,
            (Err(message), Err(expected)) => message@ == expected,
            _ => false,
        },
{
    match value.as_boolean() {
        Some(flag) => Ok(flag),
        None => Err(describe_type(value, "a boolean")),
    }
}

/// An optional number: `null` stands for none.
pub open spec fn optional_number(tree: JsonTree) -> Option<Option<u32>> {
    match tree {
        JsonTree::Null => Some(None),
        _ => match small_number(tree) {
            Some(value) => Some(Some(value)),
            None => None,
        },
    }
}

fn read_optional(value: &Json) -> (number: Option<Option<u32>>)
    ensures
        number == optional_number(value@),
{
    match value {
        Json::Null => Some(None),
        _ => match read_small(value) {
            Some(number) => Some(Some(number)),
            None => None,
        },
    }
}

/// A step of an animation section: a frame index, or an object with an index and
/// perhaps a time.
pub open spec fn frame_of(tree: JsonTree) -> Option<AnimationFrameWire> {
    match tree {
        JsonTree::Object(_) => match tree.member("index"@) {
            None => None,
            Some(index) => match (small_number(index), tree.member("time"@)) {
                (Some(index), None) => Some(AnimationFrameWire { index, time: None }),
                (Some(index), Some(time)) => match optional_number(time) {
                    Some(time) => Some(AnimationFrameWire { index, time }),
                    None => None,
                },
                _ => None,
            },
        },
        _ => match small_number(tree) {
            Some(index) => Some(AnimationFrameWire { index, time: None }),
            None => None,
        },
    }
}

fn read_frame_wire(value: &Json) -> (frame: Option<AnimationFrameWire>)
    ensures
        frame == frame_of(value@),
{
    match value {
        Json::Object(_) => {
            let index: u32 = match value.get("index") {
                Some(index) => match read_small(index) {
                    Some(index) => index,
                    None => return None,
                },
                None => return None,
            };
            match value.get("time") {
                Some(time) => match read_optional(time) {
                    Some(time) => Some(AnimationFrameWire { index, time }),
                    None => None,
                },
                None => Some(AnimationFrameWire { index, time: None }),
            }
        },
        _ => match read_small(value) {
            Some(index) => Some(AnimationFrameWire { index, time: None }),
            None => None,
        },
    }
}

/// The first `n` steps of a list, where all of them are steps.
pub open spec fn frames_upto(items: Seq<JsonTree>, n: int) -> Option<Seq<AnimationFrameWire>>
    decreases n,
{
    if n <= 0 {
        Some(Seq::empty())
    } else {
        match (frames_upto(items, n - 1), frame_of(items[n - 1])) {
            (Some(before), Some(frame)) => Some(before.push(frame)),
            _ => None,
        }
    }
}

proof fn lemma_bad_frame_persists(items: Seq<JsonTree>, m: int, n: int)
    requires
        m <= n,
        frames_upto(items, m) is None,
    ensures
        frames_upto(items, n) is None,
    decreases n - m,
{
    if m < n {
        lemma_bad_frame_persists(items, m, n - 1);
    }
}

/// An optional list of steps, or the message about what stands in its place.
pub open spec fn frames_of(tree: JsonTree) -> Result<Option<Seq<AnimationFrameWire>>, Seq<char>> {
    match tree {
        JsonTree::Null => Ok(None),
        JsonTree::Array(items) => match frames_upto(items, items.len() as int) {
            Some(frames) => Ok(Some(frames)),
            None => Err("data did not match any variant of untagged enum AnimationFrameWire"@),
        },
        _ => Err(wrong_type(tree, "a sequence"@)),
    }
}

pub open spec fn frames_view(frames: Option<Vec<AnimationFrameWire>>) -> Option<
    Seq<AnimationFrameWire>,
> {
    match frames {
        Some(list) => Some(list@),
        None => None,
    }
}

fn read_frames(value: &Json) -> (frames: Result<Option<Vec<AnimationFrameWire>>, String>)
    ensures
        match (frames, frames_of(value@)) {
            (Ok(list), Ok(expected)) => frames_view(list) == expected,
            (Err(message), Err(expected)) => message@ == expected,
            _ => false,
        },
{
    match value {
        Json::Null => Ok(None),
        Json::Array(items) => {
            let ghost trees = value@->Array_0;
            let mut frames: Vec<AnimationFrameWire> = Vec::new();
            let mut i: usize = 0;
            assert(frames@ =~= Seq::<AnimationFrameWire>::empty());
            while i < items.len()
                invariant
                    i <= items@.len(),
                    *value == Json::Array(*items),
                    trees == value@->Array_0,
                    trees.len() == items@.len(),
                    frames_upto(trees, i as int) == Some(frames@),
                decreases items@.len() - i,
            {
                assert(trees[i as int] == items@[i as int]@);
                match read_frame_wire(&items[i]) {
                    Some(frame) => frames.push(frame),
                    None => {
                        proof {
                            lemma_bad_frame_persists(trees, i + 1, trees.len() as int);
                        }
                        return Err(
                            "data did not match any variant of untagged enum AnimationFrameWire".to_owned(),
                        );
                    },
                }
                i += 1;
            }
            Ok(Some(frames))
        },
        _ => Err(describe_type(value, "a sequence")),
    }
}

/// A section with what one member says; other members say nothing of it.
pub open spec fn with_member(section: SectionModel, name: Seq<char>, value: JsonTree) -> Result<
    SectionModel,
    Seq<char>,
> {
    if name == "frametime"@ {
        match number_of(value) {
            Ok(frametime) => Ok(SectionModel { frametime, ..section }),
            Err(message) => Err(message),
        }
    } else if name == "interpolate"@ {
        match boolean_of(value) {
            Ok(interpolate) => Ok(SectionModel { interpolate, ..section }),
            Err(message) => Err(message),
        }
    } else if name == "frames"@ {
        match frames_of(value) {
            Ok(frames) => Ok(SectionModel { frames, ..section }),
            Err(message) => Err(message),
        }
    } else {
        Ok(section)
    }
}

/// The section that the first `n` members of an object describe, or the message about
/// the first of them that is wrong. Without members the frame time is one, frames are
/// not blended, and there is no list of steps.
pub open spec fn section_upto(members: Seq<(Seq<char>, JsonTree)>, n: int) -> Result<
    SectionModel,
    Seq<char>,
>
    decreases n,
{
    if n <= 0 {
        Ok(SectionModel { frametime: 1, interpolate: false, frames: None })
    } else {
        match section_upto(members, n - 1) {
            Ok(section) => with_member(section, members[n - 1].0, members[n - 1].1),
            Err(message) => Err(message),
        }
    }
}

proof fn lemma_bad_member_persists(members: Seq<(Seq<char>, JsonTree)>, m: int, n: int)
    requires
        m <= n,
        section_upto(members, m) is Err,
    ensures
        section_upto(members, n) == section_upto(members, m),
    decreases n - m,
{
    if m < n {
        lemma_bad_member_persists(members, m, n - 1);
    }
}

/// The section whose three parts stand in a list. One that ends before the steps, or
/// goes on after them, describes none.
pub open spec fn listed_section(items: Seq<JsonTree>) -> Result<SectionModel, Seq<char>> {
    let frametime = if items.len() > 0 {
        number_of(items[0])
    } else {
        Ok(1)
    };
    let interpolate = if items.len() > 1 {
        boolean_of(items[1])
    } else {
        Ok(false)
    };
    match (frametime, interpolate) {
        (Err(message), _) => Err(message),
        (_, Err(message)) => Err(message),
        (Ok(frametime), Ok(interpolate)) => if items.len() < 3 {
            Err(wrong_length(2, "struct AnimationWire with 3 elements"@))
        } else {
            match frames_of(items[2]) {
                Err(message) => Err(message),
                Ok(frames) => if items.len() > 3 {
                    Err(wrong_length(items.len(), "fewer elements in array"@))
                } else {
                    Ok(SectionModel { frametime, interpolate, frames })
                },
            }
        },
    }
}

/// An animation section: an object with a frame time, one by default, whether to
/// blend frames, and perhaps a list of steps; or all three in a list. Otherwise the
/// message about what is wrong with it.
pub open spec fn section_of(tree: JsonTree) -> Result<SectionModel, Seq<char>> {
    match tree {
        JsonTree::Object(members) => section_upto(members, members.len() as int),
        JsonTree::Array(items) => listed_section(items),
        _ => Err(wrong_type(tree, "struct AnimationWire"@)),
    }
}

pub open spec fn is_section(
    result: Result<AnimationWire, String>,
    expected: Result<SectionModel, Seq<char>>,
) -> bool {
    match (result, expected) {
        (Ok(wire), Ok(section)) => wire@ == section,
        (Err(message), Err(expected)) => message@ == expected,
        _ => false,
    }
}

fn read_members(value: &Json, members: &Vec<(String, Json)>) -> (section: Result<
    AnimationWire,
    String,
>)
    requires
        *value == Json::Object(*members),
    ensures
        is_section(section, section_of(value@)),
{
    let ghost views = value@->Object_0;
    let mut wire: AnimationWire = AnimationWire {
        frametime: default_frame_time(),
        interpolate: false,
        frames: None,
    };
    let mut i: usize = 0;
    while i < members.len()
        invariant
            i <= members@.len(),
            *value == Json::Object(*members),
            views == value@->Object_0,
            views.len() == members@.len(),
            section_upto(views, i as int) == Ok::<SectionModel, Seq<char>>(wire@),
        decreases members@.len() - i,
    {
        assert(views[i as int] == (members@[i as int].0@, members@[i as int].1@));
        let name: &str = members[i].0.as_str();
        let member: &Json = &members[i].1;
        let failure: Option<String> = if same_text(name, "frametime") {
            match read_number(member) {
                Ok(frametime) => {
                    wire.frametime = frametime;
                    None
                },
                Err(message) => Some(message),
            }
        } else if same_text(name, "interpolate") {
            match read_boolean(member) {
                Ok(interpolate) => {
                    wire.interpolate = interpolate;
                    None
                },
                Err(message) => Some(message),
            }
        } else if same_text(name, "frames") {
            match read_frames(member) {
                Ok(frames) => {
                    wire.frames = frames;
                    None
                },
                Err(message) => Some(message),
            }
        } else {
            None
        };
        match failure {
            Some(message) => {
                proof {
                    lemma_bad_member_persists(views, i + 1, views.len() as int);
                }
                return Err(message);
            },
            None => {},
        }
        i += 1;
    }
    Ok(wire)
}

fn read_list(value: &Json, items: &Vec<Json>) -> (section: Result<AnimationWire, String>)
    requires
        *value == Json::Array(*items),
    ensures
        is_section(section, section_of(value@)),
{
    let ghost trees = value@->Array_0;
    assert(forall|i: int| 0 <= i < items@.len() ==> #[trigger] trees[i] == items@[i]@);
    let mut frametime: u32 = default_frame_time();
    if items.len() > 0 {
        match read_number(&items[0]) {
            Ok(ticks) => {
                frametime = ticks;
            },
            Err(message) => {
                return Err(message);
            },
        }
    }
    let mut interpolate: bool = false;
    if items.len() > 1 {
        match read_boolean(&items[1]) {
            Ok(blend) => {
                interpolate = blend;
            },
            Err(message) => {
                return Err(message);
            },
        }
    }
    if items.len() < 3 {
        return Err(describe_length(2, "struct AnimationWire with 3 elements"));
    }
    match read_frames(&items[2]) {
        Ok(frames) => if items.len() > 3 {
            Err(describe_length(items.len(), "fewer elements in array"))
        } else {
            Ok(AnimationWire { frametime, interpolate, frames })
        },
        Err(message) => Err(message),
    }
}

/// Reads an animation section; where it is none, gives the message about what is
/// wrong with it.
pub fn read_section(value: &Json) -> (section: Result<AnimationWire, String>)
    ensures
        is_section(section, section_of(value@)),
{
    match value {
        Json::Object(members) => read_members(value, members),
        Json::Array(items) => read_list(value, items),
        _ => Err(describe_type(value, "struct AnimationWire")),
    }
}

pub open spec fn metadata_failure(
    texture: Seq<char>,
    metadata_path: Seq<char>,
    section: Seq<char>,
    reason: Seq<char>,
) -> Failure {
    Failure::TextureMetadata { texture, metadata_path, section, reason }
}

pub fn texture_metadata_error(
    texture: &str,
    metadata_path: &str,
    section: &'static str,
    reason: &str,
) -> (error: BlockResourceError)
    ensures
        error@ == metadata_failure(texture@, metadata_path@, section@, reason@),
{
    BlockResourceError::TextureMetadata {
        texture: texture.to_owned(),
        metadata_path: metadata_path.to_owned(),
        section,
        reason: reason.to_owned(),
    }
}

/// The time of a step: its own, or that of the section.
pub open spec fn step_ticks(frame: AnimationFrameWire, frametime: u32) -> u32 {
    match frame.time {
        Some(ticks) => ticks,
        None => frametime,
    }
}

pub open spec fn is_step(frame: AnimationFrameWire, frametime: u32, frame_count: int) -> bool {
    frame.index < frame_count && 0 < step_ticks(frame, frametime) <= MAX_FRAME_TICKS
}

pub open spec fn step_of(frame: AnimationFrameWire, frametime: u32) -> AnimationStep {
    AnimationStep { frame: frame.index as usize, ticks: step_ticks(frame, frametime) }
}

/// The steps of an animation, or what is wrong with its section.
pub open spec fn steps_of(section: SectionModel, frame_count: int) -> Result<
    Seq<AnimationStep>,
    Seq<char>,
> {
    if section.frametime == 0 || section.frametime > MAX_FRAME_TICKS {
        Err("frame time is outside the supported bound"@)
    } else {
        match section.frames {
            Some(frames) => if frames.len() == 0 || frames.len() > MAX_ANIMATION_STEPS {
                Err("frame sequence is empty or exceeds the supported bound"@)
            } else if forall|i: int|
                0 <= i < frames.len() ==> is_step(
                    #[trigger] frames[i],
                    section.frametime,
                    frame_count,
                ) {
                Ok(
                    Seq::new(
                        frames.len(),
                        |i: int| step_of(frames[i], section.frametime),
                    ),
                )
            } else {
                Err("frame index or duration is outside the supported bound"@)
            },
            None => if frame_count == 0 || frame_count > MAX_ANIMATION_STEPS {
                Err("implicit frame sequence exceeds the supported bound"@)
            } else {
                Ok(
                    Seq::new(
                        frame_count as nat,
                        |i: int| AnimationStep { frame: i as usize, ticks: section.frametime },
                    ),
                )
            },
        }
    }
}

/// Makes the animation that a section describes.
pub fn animation_from_section(
    wire: &AnimationWire,
    frame_count: usize,
    texture: &str,
    metadata_path: &str,
) -> (result: Result<DecodedAnimation, BlockResourceError>)
    ensures
        match (result, steps_of(wire@, frame_count as int)) {
            (Ok(animation), Ok(steps)) => animation.sequence@ == steps && animation.interpolate
                == wire.interpolate,
            (Err(error), Err(reason)) => error@ == metadata_failure(
                texture@,
                metadata_path@,
                "animation"@,
                reason,
            ),
            _ => false,
        },
{
    if wire.frametime == 0 || wire.frametime > MAX_FRAME_TICKS {
        return Err(
            texture_metadata_error(
                texture,
                metadata_path,
                "animation",
                "frame time is outside the supported bound",
            ),
        );
    }
    let mut sequence: Vec<AnimationStep> = Vec::new();
    match &wire.frames {
        Some(frames) => {
            if frames.len() == 0 || frames.len() > MAX_ANIMATION_STEPS {
                return Err(
                    texture_metadata_error(
                        texture,
                        metadata_path,
                        "animation",
                        "frame sequence is empty or exceeds the supported bound",
                    ),
                );
            }
            let mut i: usize = 0;
            while i < frames.len()
                invariant
                    i <= frames@.len() <= MAX_ANIMATION_STEPS,
                    frames@.len() > 0,
                    wire.frames == Some(*frames),
                    0 < wire.frametime <= MAX_FRAME_TICKS,
                    sequence@.len() == i,
                    forall|k: int|
                        0 <= k < i ==> is_step(
                            #[trigger] frames@[k],
                            wire.frametime,
                            frame_count as int,
                        ) && sequence@[k] == step_of(frames@[k], wire.frametime),
                decreases frames@.len() - i,
            {
                let frame: AnimationFrameWire = frames[i];
                let ticks: u32 = match frame.time {
                    Some(ticks) => ticks,
                    None => wire.frametime,
                };
                if frame.index as usize >= frame_count || ticks == 0 || ticks > MAX_FRAME_TICKS {
                    assert(!is_step(frames@[i as int], wire.frametime, frame_count as int));
                    return Err(
                        texture_metadata_error(
                            texture,
                            metadata_path,
                            "animation",
                            "frame index or duration is outside the supported bound",
                        ),
                    );
                }
                sequence.push(AnimationStep { frame: frame.index as usize, ticks });
                i += 1;
            }
            assert(sequence@ =~= steps_of(wire@, frame_count as int)->Ok_0);
        },
        None => {
            if frame_count == 0 || frame_count > MAX_ANIMATION_STEPS {
                return Err(
                    texture_metadata_error(
                        texture,
                        metadata_path,
                        "animation",
                        "implicit frame sequence exceeds the supported bound",
                    ),
                );
            }
            let mut i: usize = 0;
            while i < frame_count
                invariant
                    i <= frame_count,
                    sequence@.len() == i,
                    forall|k: int|
                        0 <= k < i ==> #[trigger] sequence@[k] == (AnimationStep {
                            frame: k as usize,
                            ticks: wire.frametime,
                        }),
                decreases frame_count - i,
            {
                sequence.push(AnimationStep { frame: i, ticks: wire.frametime });
                i += 1;
            }
            assert(sequence@ =~= steps_of(wire@, frame_count as int)->Ok_0);
        },
    }
    Ok(DecodedAnimation { sequence, interpolate: wire.interpolate })
}

/// What a metadata document says of a texture: no animation, or its steps and
/// whether they are blended.
pub open spec fn metadata_of(
    tree: JsonTree,
    frame_count: int,
    texture: Seq<char>,
    metadata_path: Seq<char>,
) -> Result<Option<(Seq<AnimationStep>, bool)>, Failure> {
    match tree.member("animation"@) {
        None => Ok(None),
        Some(animation) => match section_of(animation) {
            Err(message) => Err(
                metadata_failure(texture, metadata_path, "animation"@, message),
            ),
            Ok(section) => match steps_of(section, frame_count) {
                Err(reason) => Err(
                    metadata_failure(texture, metadata_path, "animation"@, reason),
                ),
                Ok(steps) => Ok(Some((steps, section.interpolate))),
            },
        },
    }
}

pub open spec fn is_metadata(
    result: Result<Option<DecodedAnimation>, BlockResourceError>,
    model: Result<Option<(Seq<AnimationStep>, bool)>, Failure>,
) -> bool {
    match (result, model) {
        (Ok(Some(animation)), Ok(Some((steps, interpolate)))) => animation.sequence@ == steps
            && animation.interpolate == interpolate,
        (Ok(None), Ok(None)) => true,
        (Err(error), Err(failure)) => error@ == failure,
        _ => false,
    }
}

/// Reads the animation out of a metadata document, which is an object.
pub fn read_metadata(
    document: &Json,
    frame_count: usize,
    texture: &str,
    metadata_path: &str,
) -> (result: Result<Option<DecodedAnimation>, BlockResourceError>)
    requires
        document@ is Object,
    ensures
        is_metadata(
            result,
            metadata_of(document@, frame_count as int, texture@, metadata_path@),
        ),
{
    let animation: &Json = match document.get("animation") {
        Some(animation) => animation,
        None => return Ok(None),
    };
    let wire: AnimationWire = match read_section(animation) {
        Ok(wire) => wire,
        Err(message) => return Err(
            texture_metadata_error(texture, metadata_path, "animation", message.as_str()),
        ),
    };
    match animation_from_section(&wire, frame_count, texture, metadata_path) {
        Ok(animation) => Ok(Some(animation)),
        Err(error) => Err(error),
    }
}

/// The animation of a texture, from the bytes of its metadata.
pub open spec fn texture_animation(
    bytes: Option<Seq<u8>>,
    frame_count: int,
    texture: Seq<char>,
    metadata_path: Seq<char>,
) -> Result<Option<(Seq<AnimationStep>, bool)>, Failure> {
    match bytes {
        None => Ok(None),
        Some(bytes) => match parsed_object(bytes) {
            Err(message) => Err(
                metadata_failure(texture, metadata_path, "root"@, message),
            ),
            Ok(tree) => metadata_of(tree, frame_count, texture, metadata_path),
        },
    }
}

/// Reads the animation of a texture from the bytes of its metadata, where it has
/// any.
pub fn decode_texture_metadata(
    bytes: Option<&[u8]>,
    frame_count: usize,
    texture: &str,
    metadata_path: &str,
) -> (result: Result<Option<DecodedAnimation>, BlockResourceError>)
    ensures
        is_metadata(
            result,
            texture_animation(bytes_view(bytes), frame_count as int, texture@, metadata_path@),
        ),
{
    match bytes {
        None => Ok(None),
        Some(bytes) => match parse_object(bytes) {
            Ok(document) => read_metadata(&document, frame_count, texture, metadata_path),
            Err(message) => Err(
                texture_metadata_error(texture, metadata_path, "root", message.as_str()),
            ),
        },
    }
}

/// Every step of an animation shows an existing frame, for a time from one tick
/// to the longest allowed, and there is at least one step and at most 1024.
pub proof fn lemma_animation_is_bounded(section: SectionModel, frame_count: int)
    requires
        frame_count >= 0,
    ensures
        steps_of(section, frame_count) matches Ok(steps) ==> {
            &&& 0 < steps.len() <= MAX_ANIMATION_STEPS
            &&& forall|i: int|
                0 <= i < steps.len() ==> {
                    &&& (#[trigger] steps[i]).frame < frame_count
                    &&& 0 < steps[i].ticks <= MAX_FRAME_TICKS
                }
        },
{
    if let Ok(steps) = steps_of(section, frame_count) {
        if let Some(frames) = section.frames {
            assert forall|i: int| 0 <= i < steps.len() implies {
                &&& (#[trigger] steps[i]).frame < frame_count
                &&& 0 < steps[i].ticks <= MAX_FRAME_TICKS
            } by {
                assert(is_step(frames[i], section.frametime, frame_count));
            }
        }
    }
}

/// An animation shows the frames that it lists, in their order, each as long as it says
/// or as long as the animation says for all.
pub proof fn lemma_listed_frames_are_shown(section: SectionModel, frame_count: int)
    requires
        frame_count >= 0,
    ensures
        section.frames matches Some(frames) ==> (steps_of(section, frame_count) matches Ok(steps)
            ==> {
            &&& steps.len() == frames.len()
            &&& forall|i: int|
                0 <= i < frames.len() ==> {
                    &&& (#[trigger] steps[i]).frame == frames[i].index
                    &&& frames[i].time is None ==> steps[i].ticks == section.frametime
                    &&& frames[i].time matches Some(ticks) ==> steps[i].ticks == ticks
                }
        }),
        section.frames matches Some(frames) ==> (steps_of(section, frame_count) is Ok <==> {
            &&& 0 < section.frametime <= MAX_FRAME_TICKS
            &&& 0 < frames.len() <= MAX_ANIMATION_STEPS
            &&& forall|i: int|
                0 <= i < frames.len() ==> {
                    &&& (#[trigger] frames[i]).index < frame_count
                    &&& frames[i].time matches Some(ticks) ==> 0 < ticks <= MAX_FRAME_TICKS
                }
        }),
{
    if let Some(frames) = section.frames {
        if steps_of(section, frame_count) is Ok {
            assert forall|i: int| 0 <= i < frames.len() implies (#[trigger] frames[i]).index
                < frame_count && (frames[i].time matches Some(ticks) ==> 0 < ticks
                <= MAX_FRAME_TICKS) by {
                assert(is_step(frames[i], section.frametime, frame_count));
            }
        }
    }
}

/// An animation that lists no frames shows all of them from the first to the last.
pub proof fn lemma_all_frames_are_shown(section: SectionModel, frame_count: int)
    requires
        0 <= frame_count <= usize::MAX,
        section.frames is None,
    ensures
        steps_of(section, frame_count) is Ok <==> 0 < section.frametime <= MAX_FRAME_TICKS && 0
            < frame_count <= MAX_ANIMATION_STEPS,
        steps_of(section, frame_count) matches Ok(steps) ==> steps.len() == frame_count && forall|
            i: int,
        |
            0 <= i < frame_count ==> (#[trigger] steps[i]).frame == i && steps[i].ticks
                == section.frametime,
{
}

/// What is said of an animation more than once is what is said last, and what is not said
/// is as it is by default: one tick for each frame, no mixing, and all frames.
pub proof fn lemma_animations_are_what_is_written(members: Seq<(Seq<char>, JsonTree)>, n: int)
    requires
        0 <= n <= members.len(),
    ensures
        section_upto(members, n) matches Ok(section) ==> {
            &&& forall|i: int|
                (0 <= i < n && (#[trigger] members[i]).0 == "frametime"@ && forall|j: int|
                    i < j < n ==> (#[trigger] members[j]).0 != "frametime"@) ==> small_number(
                    members[i].1,
                ) == Some(section.frametime)
            &&& forall|i: int|
                (0 <= i < n && (#[trigger] members[i]).0 == "interpolate"@ && forall|j: int|
                    i < j < n ==> (#[trigger] members[j]).0 != "interpolate"@)
                    ==> members[i].1.boolean() == Some(section.interpolate)
            &&& forall|i: int|
                (0 <= i < n && (#[trigger] members[i]).0 == "frames"@ && forall|j: int|
                    i < j < n ==> (#[trigger] members[j]).0 != "frames"@) ==> frames_of(
                    members[i].1,
                ) == Ok::<Option<Seq<AnimationFrameWire>>, Seq<char>>(section.frames)
            &&& (forall|i: int| 0 <= i < n ==> (#[trigger] members[i]).0 != "frametime"@)
                ==> section.frametime == 1
            &&& (forall|i: int| 0 <= i < n ==> (#[trigger] members[i]).0 != "interpolate"@)
                ==> !section.interpolate
            &&& (forall|i: int| 0 <= i < n ==> (#[trigger] members[i]).0 != "frames"@)
                ==> section.frames is None
        },
    decreases n,
{
    reveal_strlit("frametime");
    reveal_strlit("interpolate");
    reveal_strlit("frames");
    assert("frametime"@.len() == 9 && "interpolate"@.len() == 11 && "frames"@.len() == 6);
    if n > 0 {
        lemma_animations_are_what_is_written(members, n - 1);
        if let Ok(section) = section_upto(members, n) {
            let before = section_upto(members, n - 1)->Ok_0;
            let last = members[n - 1];
            assert(last.0 != "frametime"@ ==> section.frametime == before.frametime);
            assert(last.0 != "interpolate"@ ==> section.interpolate == before.interpolate);
            assert(last.0 != "frames"@ ==> section.frames == before.frames);
        }
    }
}

/// A frame is written as its number alone, or as a number with a time of its own.
pub proof fn lemma_frames_are_numbers_with_times(tree: JsonTree)
    ensures
        frame_of(tree) matches Some(frame) ==> {
            &&& tree is Object ==> (tree.member("index"@) matches Some(index) && index.unsigned()
                == Some(frame.index as u64))
            &&& tree is Object && tree.member("time"@) is None ==> frame.time is None
            &&& tree is Object && tree.member("time"@) is Some ==> (match frame.time {
                None => tree.member("time"@) == Some(JsonTree::Null),
                Some(ticks) => tree.member("time"@)->Some_0.unsigned() == Some(ticks as u64),
            })
            &&& !(tree is Object) ==> tree.unsigned() == Some(frame.index as u64) && frame.time
                is None
        },
{
}

/// A list of frames is read frame by frame, and only where each is a frame.
pub proof fn lemma_frames_are_read_one_by_one(items: Seq<JsonTree>, n: int)
    requires
        0 <= n <= items.len(),
    ensures
        frames_upto(items, n) matches Some(frames) ==> frames.len() == n && forall|i: int|
            0 <= i < n ==> #[trigger] frame_of(items[i]) == Some(frames[i]),
        frames_upto(items, n) is None <==> exists|i: int|
            0 <= i < n && #[trigger] frame_of(items[i]) is None,
    decreases n,
{
    if n > 0 {
        lemma_frames_are_read_one_by_one(items, n - 1);
        assert(frame_of(items[n - 1]) == frame_of(items[n - 1]));
    }
}

/// An animation that is written as a list says its three things in their order, and none
/// may be left out nor added.
pub proof fn lemma_lists_say_three_things(items: Seq<JsonTree>)
    ensures
        listed_section(items) is Ok ==> items.len() == 3,
        listed_section(items) matches Ok(section) ==> {
            &&& small_number(items[0]) == Some(section.frametime)
            &&& items[1].boolean() == Some(section.interpolate)
            &&& frames_of(items[2]) == Ok::<Option<Seq<AnimationFrameWire>>, Seq<char>>(
                section.frames,
            )
        },
        items.len() == 3 && small_number(items[0]) is Some && items[1].boolean() is Some
            && frames_of(items[2]) is Ok ==> listed_section(items) is Ok,
{
}

/// A texture is animated where its metadata has an animation. What is wrong with the
/// metadata names the texture, the file and the section.
pub proof fn lemma_metadata_animates_textures(
    tree: JsonTree,
    bytes: Seq<u8>,
    frame_count: int,
    texture: Seq<char>,
    path: Seq<char>,
)
    ensures
        texture_animation(None, frame_count, texture, path) == Ok::<
            Option<(Seq<AnimationStep>, bool)>,
            Failure,
        >(None),
        parsed_object(bytes) matches Err(message) ==> texture_animation(
            Some(bytes),
            frame_count,
            texture,
            path,
        ) == Err::<Option<(Seq<AnimationStep>, bool)>, Failure>(
            Failure::TextureMetadata {
                texture,
                metadata_path: path,
                section: "root"@,
                reason: message,
            },
        ),
        parsed_object(bytes) matches Ok(root) ==> texture_animation(
            Some(bytes),
            frame_count,
            texture,
            path,
        ) == metadata_of(root, frame_count, texture, path),
        tree.member("animation"@) is None ==> metadata_of(tree, frame_count, texture, path) == Ok::<
            Option<(Seq<AnimationStep>, bool)>,
            Failure,
        >(None),
        tree.member("animation"@) matches Some(animation) ==> {
            &&& metadata_of(tree, frame_count, texture, path) matches Err(failure) ==> (
            failure matches Failure::TextureMetadata { texture: t, metadata_path, section, .. }
                && t == texture && metadata_path == path && section == "animation"@)
            &&& section_of(animation) matches Ok(section) ==> (steps_of(
                section,
                frame_count,
            ) matches Ok(steps) ==> metadata_of(tree, frame_count, texture, path) == Ok::<
                Option<(Seq<AnimationStep>, bool)>,
                Failure,
            >(Some((steps, section.interpolate))))
            &&& metadata_of(tree, frame_count, texture, path) is Ok <==> (section_of(
                animation,
            ) matches Ok(section) && steps_of(section, frame_count) is Ok)
        },
{
}

} // verus!
