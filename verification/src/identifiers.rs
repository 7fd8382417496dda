//! Resource identifiers and the paths and names made from them.

use crate::error::{BlockResourceError, Failure};
use crate::text::{
    chars_of, ends_with, find_char, first_index, has_prefix, has_suffix, same_text, split_parts,
    lemma_first_place_is_where_it_was_put, lemma_parts_of_joined_texts,
    lemma_text_without_it_is_one_part, lemma_texts_begin_and_end, split_text, starts_with, text_of,
};
use vstd::prelude::*;
use vstd::string::StrSliceExecFns;

verus! {

pub open spec fn is_namespace_char(c: char) -> bool {
    ('a' <= c && c <= 'z') || ('0' <= c && c <= '9') || c == '_' || c == '.' || c == '-'
}

pub open spec fn is_path_char(c: char) -> bool {
    is_namespace_char(c) || c == '/'
}

/// A part of a path between slashes that names something: not empty, and not a
/// step to the same or the outer directory.
pub open spec fn is_plain_segment(segment: Seq<char>) -> bool {
    segment.len() > 0 && segment != "."@ && segment != ".."@
}

pub open spec fn colon_at(value: Seq<char>) -> int {
    first_index(value, ':')
}

pub open spec fn has_colon(value: Seq<char>) -> bool {
    colon_at(value) < value.len()
}

/// The part before the first colon.
pub open spec fn namespace_of(value: Seq<char>) -> Seq<char> {
    value.subrange(0, colon_at(value))
}

/// The part behind the first colon, or all of the value where it has none.
pub open spec fn path_of(value: Seq<char>) -> Seq<char> {
    if has_colon(value) {
        value.subrange(colon_at(value) + 1, value.len() as int)
    } else {
        value
    }
}

/// A namespace and a path of plain segments, of the characters that
/// identifiers are made of. This is the rule of this library, which states nothing of
/// what other crates take for an identifier.
pub open spec fn is_identifier(value: Seq<char>) -> bool {
    &&& has_colon(value)
    &&& namespace_of(value).len() > 0
    &&& forall|i: int|
        0 <= i < namespace_of(value).len() ==> is_namespace_char(#[trigger] namespace_of(value)[i])
    &&& forall|i: int| 0 <= i < path_of(value).len() ==> is_path_char(#[trigger] path_of(value)[i])
    &&& forall|i: int|
        0 <= i < split_parts(path_of(value), '/').len() ==> is_plain_segment(
            #[trigger] split_parts(path_of(value), '/')[i],
        )
}

/// The value with the default namespace where it has none.
pub open spec fn qualified(value: Seq<char>) -> Seq<char> {
    if has_colon(value) {
        value
    } else {
        "minecraft:"@ + value
    }
}

/// The identifier that a value names, with the default namespace where it has
/// none.
pub open spec fn identified(value: Seq<char>) -> Result<Seq<char>, Failure> {
    if is_identifier(qualified(value)) {
        Ok(qualified(value))
    } else {
        Err(Failure::Identifier { value: qualified(value) })
    }
}

fn namespace_char(c: char) -> (yes: bool)
    ensures
        yes == is_namespace_char(c),
{
    ('a' <= c && c <= 'z') || ('0' <= c && c <= '9') || c == '_' || c == '.' || c == '-'
}

fn plain_segments(segments: &Vec<String>) -> (yes: bool)
    ensures
        yes == forall|i: int|
            0 <= i < segments@.len() ==> is_plain_segment(#[trigger] segments@[i]@),
{
    let mut i: usize = 0;
    while i < segments.len()
        invariant
            i <= segments@.len(),
            forall|k: int| 0 <= k < i ==> is_plain_segment(#[trigger] segments@[k]@),
        decreases segments@.len() - i,
    {
        let segment: &str = segments[i].as_str();
        if segment.is_empty() || same_text(segment, ".") || same_text(segment, "..") {
            assert(!is_plain_segment(segments@[i as int]@));
            return false;
        }
        i += 1;
    }
    true
}

/// Whether a value is an identifier, by the rule of this library.
pub fn is_valid_identifier(value: &str) -> (yes: bool)
    ensures
        yes == is_identifier(value@),
{
    let chars: Vec<char> = chars_of(value);
    let colon: usize = find_char(&chars, 0, ':');
    assert(chars@.subrange(0, chars@.len() as int) =~= value@);
    if colon >= chars.len() || colon == 0 {
        return false;
    }
    let ghost namespace = namespace_of(value@);
    let ghost path = path_of(value@);
    let mut i: usize = 0;
    while i < colon
        invariant
            i <= colon < chars@.len(),
            chars@ == value@,
            namespace == value@.subrange(0, colon as int),
            namespace == namespace_of(value@),
            forall|k: int| 0 <= k < i ==> is_namespace_char(#[trigger] namespace[k]),
        decreases colon - i,
    {
        assert(namespace[i as int] == chars@[i as int]);
        if !namespace_char(chars[i]) {
            return false;
        }
        i += 1;
    }
    let mut j: usize = colon + 1;
    while j < chars.len()
        invariant
            colon < j <= chars@.len(),
            chars@ == value@,
            path == value@.subrange(colon + 1, value@.len() as int),
            path == path_of(value@),
            forall|k: int| 0 <= k < j - colon - 1 ==> is_path_char(#[trigger] path[k]),
        decreases chars@.len() - j,
    {
        assert(path[j - colon - 1] == chars@[j as int]);
        if !(namespace_char(chars[j]) || chars[j] == '/') {
            return false;
        }
        j += 1;
    }
    let text: String = text_of(&chars, colon + 1, chars.len());
    let segments: Vec<String> = split_text(text.as_str(), '/');
    let plain: bool = plain_segments(&segments);
    proof {
        if plain {
            assert forall|k: int|
                0 <= k < split_parts(path, '/').len() implies is_plain_segment(
                #[trigger] split_parts(path, '/')[k],
            ) by {
                assert(is_plain_segment(segments@[k]@));
            }
        } else {
            let k = choose|k: int|
                0 <= k < segments@.len() && !is_plain_segment(#[trigger] segments@[k]@);
            assert(!is_plain_segment(split_parts(path, '/')[k]));
        }
    }
    plain
}

/// Reads an identifier; one without a namespace is in the default namespace.
pub fn parse_identifier(value: &str) -> (result: Result<String, BlockResourceError>)
    ensures
        match (result, identified(value@)) {
            (Ok(identifier), Ok(name)) => identifier@ == name,
            (Err(error), Err(failure)) => error@ == failure,
            _ => false,
        },
{
    let chars: Vec<char> = chars_of(value);
    let colon: usize = find_char(&chars, 0, ':');
    assert(chars@.subrange(0, chars@.len() as int) =~= value@);
    let mut full: String = String::new();
    if colon >= chars.len() {
        full.push_str("minecraft:");
    }
    full.push_str(value);
    proof {
        assert(Seq::<char>::empty() + "minecraft:"@ =~= "minecraft:"@);
        assert(Seq::<char>::empty() + value@ =~= value@);
    }
    assert(full@ == qualified(value@));
    if is_valid_identifier(full.as_str()) {
        Ok(full)
    } else {
        Err(BlockResourceError::Identifier { value: full })
    }
}

/// Where a resource lies: `assets`, the namespace, a directory, and the path
/// with an extension.
pub open spec fn resource_location(
    identifier: Seq<char>,
    directory: Seq<char>,
    extension: Seq<char>,
) -> Seq<char> {
    "assets/"@ + namespace_of(identifier) + "/"@ + directory + "/"@ + path_of(identifier) + "."@
        + extension
}

pub fn resource_path(identifier: &str, directory: &str, extension: &str) -> (result: Result<
    String,
    BlockResourceError,
>)
    ensures
        has_colon(identifier@) ==> {
            &&& result matches Ok(path)
            &&& path@ == resource_location(identifier@, directory@, extension@)
        },
        !has_colon(identifier@) ==> {
            &&& result matches Err(error)
            &&& error@ == (Failure::Identifier { value: identifier@ })
        },
{
    let chars: Vec<char> = chars_of(identifier);
    let colon: usize = find_char(&chars, 0, ':');
    assert(chars@.subrange(0, chars@.len() as int) =~= identifier@);
    if colon >= chars.len() {
        return Err(BlockResourceError::Identifier { value: identifier.to_owned() });
    }
    let namespace: String = text_of(&chars, 0, colon);
    let path: String = text_of(&chars, colon + 1, chars.len());
    let mut full: String = String::new();
    full.push_str("assets/");
    full.push_str(namespace.as_str());
    full.push_str("/");
    full.push_str(directory);
    full.push_str("/");
    full.push_str(path.as_str());
    full.push_str(".");
    full.push_str(extension);
    assert(Seq::<char>::empty() + "assets/"@ =~= "assets/"@);
    Ok(full)
}

/// The part of an identifier behind its namespace.
pub fn identifier_path(value: &str) -> (path: &str)
    ensures
        path@ == path_of(value@),
{
    let chars: Vec<char> = chars_of(value);
    let colon: usize = find_char(&chars, 0, ':');
    assert(chars@.subrange(0, chars@.len() as int) =~= value@);
    if colon >= chars.len() {
        value
    } else {
        value.substring_char(colon + 1, chars.len())
    }
}

pub open spec fn without_prefix(value: Seq<char>, prefix: Seq<char>) -> Seq<char> {
    if has_prefix(value, prefix) {
        value.subrange(prefix.len() as int, value.len() as int)
    } else {
        value
    }
}

pub open spec fn without_suffix(value: Seq<char>, suffix: Seq<char>) -> Seq<char> {
    if has_suffix(value, suffix) {
        value.subrange(0, value.len() - suffix.len())
    } else {
        value
    }
}

pub fn strip_prefix<'a>(value: &'a str, prefix: &str) -> (rest: &'a str)
    ensures
        rest@ == without_prefix(value@, prefix@),
{
    if starts_with(value, prefix) {
        value.substring_char(prefix.unicode_len(), value.unicode_len())
    } else {
        value
    }
}

pub fn strip_suffix<'a>(value: &'a str, suffix: &str) -> (rest: &'a str)
    ensures
        rest@ == without_suffix(value@, suffix@),
{
    if ends_with(value, suffix) {
        value.substring_char(0, value.unicode_len() - suffix.unicode_len())
    } else {
        value
    }
}

/// The texture that a special model names, as an identifier: without its
/// directory and its extension, in the default namespace.
pub open spec fn special_texture(value: Seq<char>) -> Seq<char> {
    "minecraft:"@ + without_suffix(without_prefix(path_of(value), "textures/"@), ".png"@)
}

pub fn normalize_special_texture(value: &str) -> (texture: String)
    ensures
        texture@ == special_texture(value@),
{
    let path: &str = strip_suffix(strip_prefix(identifier_path(value), "textures/"), ".png");
    let mut texture: String = String::new();
    texture.push_str("minecraft:");
    texture.push_str(path);
    assert(Seq::<char>::empty() + "minecraft:"@ =~= "minecraft:"@);
    texture
}

/// The sprite of a banner pattern: in the namespace of the pattern, under the
/// banner entity's directory.
pub open spec fn banner_sprite(identifier: Seq<char>) -> Seq<char> {
    (if has_colon(identifier) {
        namespace_of(identifier)
    } else {
        "minecraft"@
    }) + ":entity/banner/"@ + path_of(identifier)
}

pub fn banner_pattern_texture(identifier: &str) -> (texture: String)
    ensures
        texture@ == banner_sprite(identifier@),
{
    let chars: Vec<char> = chars_of(identifier);
    let colon: usize = find_char(&chars, 0, ':');
    assert(chars@.subrange(0, chars@.len() as int) =~= identifier@);
    let mut texture: String = String::new();
    if colon >= chars.len() {
        texture.push_str("minecraft");
        assert(texture@ =~= "minecraft"@);
    } else {
        let namespace: String = text_of(&chars, 0, colon);
        texture.push_str(namespace.as_str());
        assert(texture@ =~= namespace_of(identifier@));
    }
    texture.push_str(":entity/banner/");
    texture.push_str(identifier_path(identifier));
    texture
}

/// A qualified value has a namespace, so every identifier that is read has a
/// resource path.
pub proof fn lemma_identified_has_path(value: Seq<char>)
    ensures
        identified(value) matches Ok(name) ==> has_colon(name) && name == qualified(value),
{
}

/// Reading an identifier again gives the same identifier.
pub proof fn lemma_identified_twice(value: Seq<char>)
    ensures
        identified(value) matches Ok(name) ==> identified(name) == Ok::<Seq<char>, Failure>(name),
{
}

/// A namespace is made of small letters, digits, underscores, dots and hyphens, and a
/// path of these and slashes.
pub proof fn lemma_identifiers_are_made_of_plain_characters(c: char)
    ensures
        is_namespace_char(c) ==> c != ':' && c != '/' && c != ' ' && !('A' <= c && c <= 'Z'),
        is_namespace_char(c) <==> 97 <= c as int <= 122 || 48 <= c as int <= 57 || c as int == 95
            || c as int == 46 || c as int == 45,
        is_path_char(c) <==> is_namespace_char(c) || c as int == 47,
{
}

/// What stands before the first colon is the namespace and what stands behind it the
/// path. What has no colon is a path, and belongs to `minecraft`.
pub proof fn lemma_colon_parts_namespace_and_path(namespace: Seq<char>, path: Seq<char>)
    requires
        !namespace.contains(':'),
    ensures
        has_colon(namespace + seq![':'] + path),
        namespace_of(namespace + seq![':'] + path) == namespace,
        path_of(namespace + seq![':'] + path) == path,
        qualified(namespace + seq![':'] + path) == namespace + seq![':'] + path,
        !has_colon(namespace),
        path_of(namespace) == namespace,
        qualified(namespace) == "minecraft"@ + seq![':'] + namespace,
{
    let whole = namespace + seq![':'] + path;
    lemma_first_place_is_where_it_was_put(namespace, path, ':');
    lemma_text_without_it_is_one_part(namespace, ':');
    assert(namespace_of(whole) =~= namespace);
    assert(path_of(whole) =~= path);
    reveal_strlit("minecraft:");
    reveal_strlit("minecraft");
    assert("minecraft:"@ =~= "minecraft"@ + seq![':']);
}

/// A path names a directory and what is in it: two paths with a slash between them make
/// an identifier exactly where each of them does.
pub proof fn lemma_paths_are_joined_by_slashes(
    namespace: Seq<char>,
    first: Seq<char>,
    second: Seq<char>,
)
    requires
        !namespace.contains(':'),
    ensures
        is_identifier(namespace + seq![':'] + (first + seq!['/'] + second)) <==> is_identifier(
            namespace + seq![':'] + first,
        ) && is_identifier(namespace + seq![':'] + second),
{
    let path = first + seq!['/'] + second;
    let whole = namespace + seq![':'] + path;
    let left = namespace + seq![':'] + first;
    let right = namespace + seq![':'] + second;
    lemma_colon_parts_namespace_and_path(namespace, path);
    lemma_colon_parts_namespace_and_path(namespace, first);
    lemma_colon_parts_namespace_and_path(namespace, second);
    lemma_parts_of_joined_texts(first, second, '/');
    let a = split_parts(first, '/');
    let b = split_parts(second, '/');
    let all = split_parts(path, '/');
    assert(all == a + b);
    if is_identifier(whole) {
        assert forall|i: int| 0 <= i < first.len() implies is_path_char(#[trigger] first[i]) by {
            assert(path[i] == first[i]);
            assert(is_path_char(path_of(whole)[i]));
        }
        assert forall|i: int| 0 <= i < second.len() implies is_path_char(#[trigger] second[i]) by {
            assert(path[first.len() + 1 + i] == second[i]);
            assert(is_path_char(path_of(whole)[first.len() + 1 + i]));
        }
        assert forall|i: int| 0 <= i < a.len() implies is_plain_segment(#[trigger] a[i]) by {
            assert(split_parts(path_of(whole), '/')[i] == a[i]);
        }
        assert forall|i: int| 0 <= i < b.len() implies is_plain_segment(#[trigger] b[i]) by {
            assert(split_parts(path_of(whole), '/')[a.len() + i] == b[i]);
        }
        assert(is_identifier(left));
        assert(is_identifier(right));
    }
    if is_identifier(left) && is_identifier(right) {
        assert forall|i: int| 0 <= i < path.len() implies is_path_char(#[trigger] path[i]) by {
            if i < first.len() {
                assert(path[i] == path_of(left)[i]);
            } else if i > first.len() {
                assert(path[i] == path_of(right)[i - first.len() - 1]);
            }
        }
        assert forall|i: int| 0 <= i < all.len() implies is_plain_segment(#[trigger] all[i]) by {
            if i < a.len() {
                assert(all[i] == split_parts(path_of(left), '/')[i]);
            } else {
                assert(all[i] == split_parts(path_of(right), '/')[i - a.len()]);
            }
        }
        assert forall|i: int| 0 <= i < namespace.len() implies is_namespace_char(
            #[trigger] namespace[i],
        ) by {
            assert(is_namespace_char(namespace_of(left)[i]));
        }
    }
}

/// A path without a slash makes an identifier where it is made of plain characters, is
/// not empty, and names neither the directory that it is in nor the one above it.
pub proof fn lemma_names_are_plain(namespace: Seq<char>, name: Seq<char>)
    requires
        !namespace.contains(':'),
        !name.contains('/'),
    ensures
        is_identifier(namespace + seq![':'] + name) <==> {
            &&& namespace.len() > 0
            &&& forall|i: int| 0 <= i < namespace.len() ==> is_namespace_char(#[trigger] namespace[i])
            &&& forall|i: int| 0 <= i < name.len() ==> is_namespace_char(#[trigger] name[i])
            &&& name.len() > 0 && name != seq!['.'] && name != seq!['.', '.']
        },
{
    let whole = namespace + seq![':'] + name;
    lemma_colon_parts_namespace_and_path(namespace, name);
    lemma_text_without_it_is_one_part(name, '/');
    reveal_strlit(".");
    reveal_strlit("..");
    assert("."@ =~= seq!['.']);
    assert(".."@ =~= seq!['.', '.']);
    let parts = split_parts(path_of(whole), '/');
    assert(parts == seq![name]);
    assert(parts[0] == name);
    if is_identifier(whole) {
        assert(is_plain_segment(parts[0]));
        assert forall|i: int| 0 <= i < name.len() implies is_namespace_char(#[trigger] name[i]) by {
            assert(is_path_char(path_of(whole)[i]));
            assert(name.contains(name[i]));
        }
        assert forall|i: int| 0 <= i < namespace.len() implies is_namespace_char(
            #[trigger] namespace[i],
        ) by {
            assert(is_namespace_char(namespace_of(whole)[i]));
        }
    }
}

/// A resource lies in the directory of its namespace and of its kind, under its path.
pub proof fn lemma_resources_lie_under_their_namespace(
    namespace: Seq<char>,
    path: Seq<char>,
    directory: Seq<char>,
    extension: Seq<char>,
)
    requires
        !namespace.contains(':'),
    ensures
        resource_location(namespace + seq![':'] + path, directory, extension) == "assets/"@
            + namespace + "/"@ + directory + "/"@ + path + "."@ + extension,
{
    lemma_colon_parts_namespace_and_path(namespace, path);
}

/// What is put before or behind a text can be taken away again, and nothing else is.
pub proof fn lemma_ends_are_taken_away(text: Seq<char>, end: Seq<char>)
    ensures
        without_prefix(end + text, end) == text,
        without_suffix(text + end, end) == text,
        !has_prefix(text, end) ==> without_prefix(text, end) == text,
        !has_suffix(text, end) ==> without_suffix(text, end) == text,
{
    lemma_texts_begin_and_end(text, end);
    assert(without_prefix(end + text, end) =~= text);
    assert(without_suffix(text + end, end) =~= text);
}

/// The texture of a special model is named by its file, without the directory and the
/// extension that all of them have.
pub proof fn lemma_special_textures_are_named_by_their_files(
    namespace: Seq<char>,
    name: Seq<char>,
)
    requires
        !namespace.contains(':'),
    ensures
        special_texture(namespace + seq![':'] + ("textures/"@ + name + ".png"@)) == "minecraft:"@
            + name,
{
    let file = "textures/"@ + name + ".png"@;
    lemma_colon_parts_namespace_and_path(namespace, file);
    assert(file =~= "textures/"@ + (name + ".png"@));
    lemma_ends_are_taken_away(name + ".png"@, "textures/"@);
    lemma_ends_are_taken_away(name, ".png"@);
}

/// The sprite of a banner's pattern lies with those of its namespace.
pub proof fn lemma_patterns_lie_with_the_banners(namespace: Seq<char>, path: Seq<char>)
    requires
        !namespace.contains(':'),
    ensures
        banner_sprite(namespace + seq![':'] + path) == namespace + ":entity/banner/"@ + path,
        banner_sprite(namespace) == "minecraft:entity/banner/"@ + namespace,
{
    lemma_colon_parts_namespace_and_path(namespace, path);
    reveal_strlit("minecraft");
    reveal_strlit(":entity/banner/");
    reveal_strlit("minecraft:entity/banner/");
    assert("minecraft:entity/banner/"@ =~= "minecraft"@ + ":entity/banner/"@);
}

/// A name is accepted exactly where it, with the namespace that it is given where it has
/// none, is an identifier.
pub proof fn lemma_names_are_accepted_with_their_namespace(value: Seq<char>)
    ensures
        identified(value) is Ok <==> (if value.contains(':') {
            is_identifier(value)
        } else {
            is_identifier("minecraft"@ + seq![':'] + value)
        }),
        identified(value) matches Ok(name) ==> (if value.contains(':') {
            name == value
        } else {
            name == "minecraft"@ + seq![':'] + value
        }),
        identified(value) matches Err(failure) ==> failure == (Failure::Identifier {
            value: if value.contains(':') {
                value
            } else {
                "minecraft"@ + seq![':'] + value
            },
        }),
{
    if !value.contains(':') {
        lemma_colon_parts_namespace_and_path(value, Seq::empty());
    } else {
        crate::text::lemma_first_index(value, ':');
        let k = choose|k: int| 0 <= k < value.len() && value[k] == ':';
        assert(has_colon(value));
    }
}

} // verus!
