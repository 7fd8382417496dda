//! The icons of the creative inventory: those of stacks whose components change
//! their looks.

use crate::banner::{
    all_known, are_resolved, component_failure, component_key, component_layers, item_key, layer_views, BannerPatternLayer,
    BannerPatternRegistry, DeferredBannerPatterns,
};
use crate::error::{BlockResourceError, Failure};
use crate::loading::{icon_variant, variant_key, IconVariant};
use crate::names::NameMap;
use crate::text::same_text;
use vstd::prelude::*;

verus! {

/// A state of a block, with its properties.
#[derive(Clone, Debug)]
pub struct BlockState {
    pub state_id: u32,
    pub properties: Vec<(String, String)>,
}

/// A block with its states, one of which it has where nothing else is said.
#[derive(Clone, Debug)]
pub struct BlockDefinition {
    pub identifier: String,
    pub default_state_id: u32,
    pub states: Vec<BlockState>,
}

/// A stack of the creative inventory, with the model that it is shown with. Of a
/// component that it has, the contents are there where they could be read.
#[derive(Clone, Debug)]
pub struct CreativeStack {
    pub item: String,
    pub model: String,
    pub block_state: Option<Option<Vec<(String, String)>>>,
    pub banner_patterns: Option<Option<Vec<u8>>>,
}

/// The properties of the first of the states from `n` on that has a number.
pub open spec fn properties_of(states: Seq<BlockState>, state_id: u32, n: int) -> Seq<
    (String, String),
>
    decreases states.len() - n,
{
    if n < 0 || n >= states.len() {
        Seq::empty()
    } else if states[n].state_id == state_id {
        states[n].properties@
    } else {
        properties_of(states, state_id, n + 1)
    }
}

/// The properties of an item that is a block, as it is by default: of the first of
/// the blocks from `n` on with the name of the item.
pub open spec fn default_of(blocks: Seq<BlockDefinition>, item: Seq<char>, n: int) -> Seq<
    (String, String),
>
    decreases blocks.len() - n,
{
    if n < 0 || n >= blocks.len() {
        Seq::empty()
    } else if blocks[n].identifier@ == item {
        properties_of(blocks[n].states@, blocks[n].default_state_id, 0)
    } else {
        default_of(blocks, item, n + 1)
    }
}

fn copy_properties(properties: &Vec<(String, String)>) -> (copy: Vec<(String, String)>)
    ensures
        copy@ == properties@,
{
    let mut copy: Vec<(String, String)> = Vec::new();
    let mut i: usize = 0;
    while i < properties.len()
        invariant
            i <= properties@.len(),
            copy@ == properties@.take(i as int),
        decreases properties@.len() - i,
    {
        copy.push((properties[i].0.clone(), properties[i].1.clone()));
        assert(copy@ =~= properties@.take(i + 1));
        i += 1;
    }
    assert(properties@.take(i as int) =~= properties@);
    copy
}

/// The properties of an item that is a block, as it is by default; none where it is
/// no block or has no such state.
pub fn default_properties(blocks: &Vec<BlockDefinition>, item: &str) -> (properties: Vec<
    (String, String),
>)
    ensures
        properties@ == default_of(blocks@, item@, 0),
{
    let mut i: usize = 0;
    while i < blocks.len()
        invariant
            i <= blocks@.len(),
            default_of(blocks@, item@, 0) == default_of(blocks@, item@, i as int),
        decreases blocks@.len() - i,
    {
        let block: &BlockDefinition = &blocks[i];
        if same_text(block.identifier.as_str(), item) {
            let mut k: usize = 0;
            while k < block.states.len()
                invariant
                    k <= block.states@.len(),
                    default_of(blocks@, item@, 0) == properties_of(
                        block.states@,
                        block.default_state_id,
                        k as int,
                    ),
                decreases block.states@.len() - k,
            {
                if block.states[k].state_id == block.default_state_id {
                    return copy_properties(&block.states[k].properties);
                }
                k += 1;
            }
            return Vec::new();
        }
        i += 1;
    }
    Vec::new()
}

/// The patterns that banners can carry: those of the registry or, where there is
/// none, those of the creative inventory.
pub open spec fn assets_of(
    registry: Option<Seq<(u32, String)>>,
    creative: Option<Seq<String>>,
) -> Seq<String> {
    match registry {
        Some(entries) => entries.map_values(|entry: (u32, String)| entry.1),
        None => match creative {
            Some(names) => names,
            None => Seq::empty(),
        },
    }
}

pub open spec fn view_of<T>(list: Option<&Vec<T>>) -> Option<Seq<T>> {
    match list {
        Some(list) => Some(list@),
        None => None,
    }
}

pub fn banner_assets(
    registry: Option<&Vec<(u32, String)>>,
    creative: Option<&Vec<String>>,
) -> (assets: Vec<String>)
    ensures
        assets@ == assets_of(view_of(registry), view_of(creative)),
{
    let mut assets: Vec<String> = Vec::new();
    let ghost all = assets_of(view_of(registry), view_of(creative));
    let mut i: usize = 0;
    match (registry, creative) {
        (Some(entries), _) => {
            while i < entries.len()
                invariant
                    i <= entries@.len(),
                    all == entries@.map_values(|entry: (u32, String)| entry.1),
                    assets@ == all.take(i as int),
                decreases entries@.len() - i,
            {
                assets.push(entries[i].1.clone());
                assert(assets@ =~= all.take(i + 1));
                i += 1;
            }
        },
        (None, Some(names)) => {
            while i < names.len()
                invariant
                    i <= names@.len(),
                    all == names@,
                    assets@ == all.take(i as int),
                decreases names@.len() - i,
            {
                assets.push(names[i].clone());
                assert(assets@ =~= all.take(i + 1));
                i += 1;
            }
        },
        (None, None) => {},
    }
    assert(all.take(i as int) =~= all);
    assets
}

/// The registry that patterns are looked up in.
pub open spec fn chosen_registry<'a>(
    registry: Option<&'a Vec<(u32, String)>>,
    creative: &'a Vec<String>,
) -> Option<BannerPatternRegistry<'a>> {
    match registry {
        Some(entries) => Some(BannerPatternRegistry::GameData(entries)),
        None => if creative@.len() > 0 {
            Some(BannerPatternRegistry::Ordered(creative))
        } else {
            None
        },
    }
}

/// The registry that patterns are looked up in: that of the game or, where there
/// is none, the patterns of the creative inventory in their order, if there are any.
pub fn pattern_registry<'a>(
    registry: Option<&'a Vec<(u32, String)>>,
    creative: &'a Vec<String>,
) -> (chosen: Option<BannerPatternRegistry<'a>>)
    ensures
        chosen == chosen_registry(registry, creative),
        match registry {
            Some(entries) => chosen == Some(BannerPatternRegistry::GameData(entries)),
            None => if creative@.len() > 0 {
                chosen == Some(BannerPatternRegistry::Ordered(creative))
            } else {
                chosen is None
            },
        },
{
    match registry {
        Some(entries) => Some(BannerPatternRegistry::GameData(entries)),
        None => if creative.len() > 0 {
            Some(BannerPatternRegistry::Ordered(creative))
        } else {
            None
        },
    }
}

impl CreativeStack {
    /// Whether the stack has a component that can change its looks.
    pub open spec fn varies(self) -> bool {
        self.block_state is Some || self.banner_patterns is Some
    }

    /// The block state that the stack names.
    pub open spec fn named_state(self) -> Option<Seq<(String, String)>> {
        match self.block_state {
            Some(Some(properties)) => Some(properties@),
            _ => None,
        }
    }

    pub open spec fn banner(self) -> Option<Seq<u8>> {
        match self.banner_patterns {
            Some(Some(bytes)) => Some(bytes@),
            _ => None,
        }
    }

    /// The key of the icon.
    pub open spec fn key(self) -> Seq<char> {
        variant_key(self.model@, self.named_state(), self.banner())
    }

    /// The properties that the model of the stack reads.
    pub open spec fn shown_state(self, blocks: Seq<BlockDefinition>) -> Seq<(String, String)> {
        match self.named_state() {
            Some(properties) => properties,
            None => default_of(blocks, self.item@, 0),
        }
    }

    /// Why the patterns of the stack cannot be shown.
    pub open spec fn failure(self, registry: Option<BannerPatternRegistry<'_>>) -> Option<Failure> {
        match self.banner() {
            None => None,
            Some(bytes) => match (component_layers(bytes), registry) {
                (Err(failure), _) => Some(failure),
                (Ok(layers), Some(registry)) => if all_known(registry, layers) {
                    None
                } else {
                    Some(component_failure("pattern registry ID is invalid"@))
                },
                (Ok(_), None) => None,
            },
        }
    }
}

/// What an icon is drawn from.
#[derive(Debug)]
pub struct IconSource {
    pub model: String,
    pub properties: Vec<(String, String)>,
    pub layers: Vec<BannerPatternLayer>,
}

/// `source` is what the icon of a stack is drawn from. Without a registry its
/// banner has no layers yet.
pub open spec fn is_source(
    source: IconSource,
    stack: CreativeStack,
    blocks: Seq<BlockDefinition>,
    registry: Option<BannerPatternRegistry<'_>>,
) -> bool {
    &&& source.model@ == stack.model@
    &&& source.properties@ == stack.shown_state(blocks)
    &&& match (stack.banner(), registry) {
        (Some(bytes), Some(registry)) => match component_layers(bytes) {
            Ok(layers) => are_resolved(registry, layers, source.layers@),
            Err(_) => false,
        },
        _ => source.layers@.len() == 0,
    }
}

/// For each key the first of the first `n` stacks that has it.
pub open spec fn first_with_key(stacks: Seq<CreativeStack>, n: int) -> Map<Seq<char>, int>
    decreases n,
{
    if n <= 0 {
        Map::empty()
    } else {
        let before = first_with_key(stacks, n - 1);
        let stack = stacks[n - 1];
        if stack.varies() && !before.contains_key(stack.key()) {
            before.insert(stack.key(), n - 1)
        } else {
            before
        }
    }
}

/// For each key the last of the first `n` stacks that has it, among those whose
/// patterns cannot be looked up yet.
pub open spec fn last_deferred(
    stacks: Seq<CreativeStack>,
    registry: Option<BannerPatternRegistry<'_>>,
    n: int,
) -> Map<Seq<char>, int>
    decreases n,
{
    if n <= 0 {
        Map::empty()
    } else {
        let before = last_deferred(stacks, registry, n - 1);
        let stack = stacks[n - 1];
        if stack.varies() && stack.banner() is Some && registry is None {
            before.insert(stack.key(), n - 1)
        } else {
            before
        }
    }
}

/// What the icons of the creative inventory are drawn from, by their keys, and the
/// patterns that have to be looked up later.
#[derive(Debug)]
pub struct CreativeIcons {
    pub sources: NameMap<IconSource>,
    pub deferred: NameMap<DeferredBannerPatterns>,
}

/// `icons` are those of the first `n` stacks: of stacks that share a key the first
/// is drawn.
pub open spec fn are_icons(
    icons: CreativeIcons,
    stacks: Seq<CreativeStack>,
    blocks: Seq<BlockDefinition>,
    registry: Option<BannerPatternRegistry<'_>>,
    n: int,
) -> bool {
    let first = first_with_key(stacks, n);
    let last = last_deferred(stacks, registry, n);
    &&& icons.sources.well_formed()
    &&& icons.deferred.well_formed()
    &&& forall|key: Seq<char>| #[trigger]
        icons.sources@.contains_key(key) == first.contains_key(key)
    &&& forall|key: Seq<char>| #[trigger]
        icons.sources@.contains_key(key) ==> is_source(
            icons.sources@[key],
            stacks[first[key]],
            blocks,
            registry,
        )
    &&& forall|key: Seq<char>| #[trigger]
        icons.deferred@.contains_key(key) == last.contains_key(key)
    &&& forall|key: Seq<char>| #[trigger]
        icons.deferred@.contains_key(key) ==> stacks[last[key]].banner() is Some && Ok::<
            Seq<crate::banner::LayerModel>,
            Failure,
        >(layer_views(icons.deferred@[key].layers@)) == component_layers(
            stacks[last[key]].banner()->Some_0,
        )
}

/// The icons of the creative inventory. It fails with the first stack whose
/// patterns cannot be shown.
pub fn creative_icons(
    stacks: &Vec<CreativeStack>,
    blocks: &Vec<BlockDefinition>,
    registry: Option<&BannerPatternRegistry<'_>>,
) -> (result: Result<CreativeIcons, BlockResourceError>)
    ensures
        ({
            let registry = match registry {
                Some(registry) => Some(*registry),
                None => None,
            };
            match result {
                Ok(icons) => {
                    &&& forall|i: int|
                        0 <= i < stacks@.len() && (#[trigger] stacks@[i]).varies()
                            ==> stacks@[i].failure(registry) is None
                    &&& are_icons(icons, stacks@, blocks@, registry, stacks@.len() as int)
                },
                Err(error) => exists|i: int|
                    {
                        &&& 0 <= i < stacks@.len()
                        &&& (#[trigger] stacks@[i]).varies()
                        &&& stacks@[i].failure(registry) == Some(error@)
                        &&& forall|j: int|
                            0 <= j < i && (#[trigger] stacks@[j]).varies() ==> stacks@[j].failure(
                                registry,
                            ) is None
                    },
            }
        }),
{
    let ghost known = match registry {
        Some(registry) => Some(*registry),
        None => None,
    };
    let mut icons: CreativeIcons = CreativeIcons {
        sources: NameMap::new(),
        deferred: NameMap::new(),
    };
    let mut i: usize = 0;
    while i < stacks.len()
        invariant
            i <= stacks@.len(),
            known == (match registry {
                Some(registry) => Some(*registry),
                None => None,
            }),
            forall|j: int|
                0 <= j < i && (#[trigger] stacks@[j]).varies() ==> stacks@[j].failure(
                    known,
                ) is None,
            are_icons(icons, stacks@, blocks@, known, i as int),
        decreases stacks@.len() - i,
    {
        let stack: &CreativeStack = &stacks[i];
        if stack.block_state.is_some() || stack.banner_patterns.is_some() {
            let named: Option<&Vec<(String, String)>> = match &stack.block_state {
                Some(Some(properties)) => Some(properties),
                _ => None,
            };
            let banner: Option<&[u8]> = match &stack.banner_patterns {
                Some(Some(bytes)) => Some(bytes.as_slice()),
                _ => None,
            };
            let variant: IconVariant = match icon_variant(
                stack.model.as_str(),
                named,
                banner,
                registry,
            ) {
                Ok(variant) => variant,
                Err(error) => {
                    assert(stacks@[i as int].varies());
                    return Err(error);
                },
            };
            assert(variant.key@ == stack.key());
            if let Some(deferred) = variant.deferred {
                icons.deferred.insert(variant.key.clone(), deferred);
            }
            if icons.sources.get(variant.key.as_str()).is_none() {
                let properties: Vec<(String, String)> = match named {
                    Some(properties) => copy_properties(properties),
                    None => default_properties(blocks, stack.item.as_str()),
                };
                icons.sources.insert(
                    variant.key,
                    IconSource { model: stack.model.clone(), properties, layers: variant.layers },
                );
            }
        }
        i += 1;
    }
    Ok(icons)
}

/// The properties of a state are those of the first state that has its number.
pub proof fn lemma_states_have_their_properties(states: Seq<BlockState>, state_id: u32, k: int)
    requires
        0 <= k < states.len(),
        states[k].state_id == state_id,
        forall|j: int| 0 <= j < k ==> (#[trigger] states[j]).state_id != state_id,
    ensures
        properties_of(states, state_id, 0) == states[k].properties@,
{
    lemma_properties_from(states, state_id, 0, k);
}

proof fn lemma_properties_from(states: Seq<BlockState>, state_id: u32, n: int, k: int)
    requires
        0 <= n <= k < states.len(),
        states[k].state_id == state_id,
        forall|j: int| 0 <= j < k ==> (#[trigger] states[j]).state_id != state_id,
    ensures
        properties_of(states, state_id, n) == states[k].properties@,
    decreases k - n,
{
    if n < k {
        assert(states[n].state_id != state_id);
        lemma_properties_from(states, state_id, n + 1, k);
    }
}

/// An item without properties of its own has those of the default state of its block,
/// where it is a block, and none where it is not.
pub proof fn lemma_items_show_their_default_state(
    blocks: Seq<BlockDefinition>,
    item: Seq<char>,
    n: int,
)
    requires
        0 <= n <= blocks.len(),
        forall|j: int| 0 <= j < n ==> (#[trigger] blocks[j]).identifier@ != item,
    ensures
        n < blocks.len() && blocks[n].identifier@ == item ==> default_of(blocks, item, 0)
            == properties_of(blocks[n].states@, blocks[n].default_state_id, 0),
        n == blocks.len() ==> default_of(blocks, item, 0) == Seq::<(String, String)>::empty(),
{
    lemma_default_from(blocks, item, 0, n);
}

proof fn lemma_default_from(blocks: Seq<BlockDefinition>, item: Seq<char>, m: int, n: int)
    requires
        0 <= m <= n <= blocks.len(),
        forall|j: int| 0 <= j < n ==> (#[trigger] blocks[j]).identifier@ != item,
    ensures
        default_of(blocks, item, m) == default_of(blocks, item, n),
    decreases n - m,
{
    if m < n {
        assert(blocks[m].identifier@ != item);
        lemma_default_from(blocks, item, m + 1, n);
    }
}

/// The patterns that can be named are those of the registry in their order, and those of
/// the inventory only where there is no registry.
pub proof fn lemma_registry_comes_first(
    entries: Seq<(u32, String)>,
    names: Seq<String>,
    creative: Option<Seq<String>>,
)
    ensures
        assets_of(Some(entries), creative).len() == entries.len(),
        forall|i: int|
            0 <= i < entries.len() ==> #[trigger] assets_of(Some(entries), creative)[i]
                == entries[i].1,
        assets_of(None, Some(names)) == names,
        assets_of(None, None) == Seq::<String>::empty(),
{
}

/// An item is shown by its key: the model, the properties that it names and the patterns
/// of its banner. What names neither has the key of its model.
pub proof fn lemma_stacks_have_their_keys(stack: CreativeStack)
    ensures
        !stack.varies() ==> stack.key() == stack.model@,
        stack.block_state matches Some(Some(properties)) ==> stack.banner_patterns is None
            ==> stack.key() == item_key(stack.model@, properties@),
        stack.banner_patterns matches Some(Some(bytes)) ==> stack.block_state is None ==> stack.key()
            == stack.model@ + component_key("banner_patterns"@, bytes@),
        stack.varies() <==> stack.block_state is Some || stack.banner_patterns is Some,
{
}

/// An item shows the properties that it names, and otherwise those of its block.
pub proof fn lemma_named_states_are_shown(stack: CreativeStack, blocks: Seq<BlockDefinition>)
    ensures
        stack.block_state matches Some(Some(properties)) ==> stack.shown_state(blocks)
            == properties@,
        !(stack.block_state matches Some(Some(_))) ==> stack.shown_state(blocks) == default_of(
            blocks,
            stack.item@,
            0,
        ),
{
}

/// An item is refused where its patterns cannot be read, or where the registry is there
/// and does not know one of them. Nothing else is a reason.
pub proof fn lemma_banners_are_refused_for_their_patterns(
    stack: CreativeStack,
    registry: Option<BannerPatternRegistry<'_>>,
)
    ensures
        stack.banner_patterns is None ==> stack.failure(registry) is None,
        stack.banner() matches Some(bytes) ==> {
            &&& component_layers(bytes) matches Err(failure) ==> stack.failure(registry) == Some(
                failure,
            )
            &&& component_layers(bytes) matches Ok(layers) ==> (stack.failure(registry) is Some
                <==> (registry matches Some(known) && !all_known(known, layers)))
        },
{
}

/// Of items with the same key the first gives the icon: the icons that there are belong
/// to the keys of the items that vary.
pub proof fn lemma_first_of_a_key_is_shown(stacks: Seq<CreativeStack>, n: int, key: Seq<char>)
    requires
        0 <= n <= stacks.len(),
    ensures
        ({
            let first = first_with_key(stacks, n);
            &&& first.contains_key(key) <==> exists|i: int|
                0 <= i < n && (#[trigger] stacks[i]).varies() && stacks[i].key() == key
            &&& first.contains_key(key) ==> {
                &&& 0 <= first[key] < n
                &&& stacks[first[key]].varies() && stacks[first[key]].key() == key
                &&& forall|j: int|
                    0 <= j < first[key] ==> !((#[trigger] stacks[j]).varies() && stacks[j].key()
                        == key)
            }
        }),
    decreases n,
{
    if n > 0 {
        lemma_first_of_a_key_is_shown(stacks, n - 1, key);
        let last = stacks[n - 1];
        assert(last == stacks[n - 1]);
    }
}

/// Without a registry the patterns of the last item with a key are kept for later, and
/// with one nothing is.
pub proof fn lemma_last_of_a_key_waits(
    stacks: Seq<CreativeStack>,
    registry: Option<BannerPatternRegistry<'_>>,
    n: int,
    key: Seq<char>,
)
    requires
        0 <= n <= stacks.len(),
    ensures
        ({
            let last = last_deferred(stacks, registry, n);
            &&& registry is Some ==> !last.contains_key(key)
            &&& registry is None ==> (last.contains_key(key) <==> exists|i: int|
                0 <= i < n && (#[trigger] stacks[i]).banner() is Some && stacks[i].key() == key)
            &&& last.contains_key(key) ==> {
                &&& 0 <= last[key] < n
                &&& stacks[last[key]].banner() is Some && stacks[last[key]].key() == key
                &&& forall|j: int|
                    last[key] < j < n ==> !((#[trigger] stacks[j]).banner() is Some
                        && stacks[j].key() == key)
            }
        }),
    decreases n,
{
    if n > 0 {
        lemma_last_of_a_key_waits(stacks, registry, n - 1, key);
        let stack = stacks[n - 1];
        assert(stack == stacks[n - 1]);
    }
}

/// Patterns are looked up in the registry of the game wherever there is one. Only without
/// it does the place of a pattern in the inventory count, and without either nothing is
/// looked up.
pub proof fn lemma_patterns_are_looked_up_in_the_game_first(
    entries: &Vec<(u32, String)>,
    creative: &Vec<String>,
    raw_id: u32,
)
    ensures
        chosen_registry(Some(entries), creative) matches Some(registry) && registry.pattern(raw_id)
            == BannerPatternRegistry::GameData(entries).pattern(raw_id),
        raw_id < creative@.len() ==> (chosen_registry(None, creative) matches Some(registry)
            && registry.pattern(raw_id) == Some(creative@[raw_id as int]@)),
        creative@.len() == 0 ==> chosen_registry(None, creative) is None,
{
}

} // verus!
