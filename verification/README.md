# cubic_render

The rules of a renderer for a block world, verified with Verus.

A block world is drawn from files: block states that choose models, models that
inherit from each other, textures that are packed into an atlas, and item
definitions that say what a slot of the inventory shows. From these and from the
chunks of the world the renderer works out which faces are drawn, in which batch,
in what colour and in what light. `src/` holds these rules, each with a contract:

- reading: `json`, `mismatch`, `text`, `names`, `identifiers`, `blockstate`, `models`,
  `inheritance`, `images`, `animation`, `translations`
- block models: `baking`, `direction`, `semantics`, `prepared`, `atlas`, `loading`
- models with a renderer of their own: `model_part`, `special`, `special_parts`,
  `special_world`, `banner`
- items: `items`, `gui_models`, `drawing`, `icons`, `creative`
- meshing: `grid`, `selection`, `variant_random`, `offset`, `shading`, `mesher`,
  `traversal`, `fluid`, `clip`, `fluid_debug`, `statistics`
- presentation: `scheduler`, `look`, `frame`, `hud`

Positions and texture coordinates are floating-point values, and the library does
not compute with those. It passes them on under handles, and decides on what is
known of them: on which half of the block a corner lies, whether a face covers the
boundary of the block, whether a cell of a fluid is open.

`app/` holds what the handles stand for: the geometry, the drawing of icons, the
reading of resources, the threads that mesh chunks, and the drawing with wgpu.

The library trusts what it says of `serde_json` and `serde`, which parse documents and
word their errors, of `png`, which decodes images, and of a few functions of std on
strings. Each such place names the function and what is claimed of it.
