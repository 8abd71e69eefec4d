# eren

A code-first game engine whose bookkeeping is verified with Verus.

- `src/` is the verified library: asset bundles and the asset tables of the game
  world, the GPU asset caches that survive device loss, instance-buffer growth and
  draw batching, the Vulkan choices (queue families, GPU, surface format, present
  mode, extent, image count, memory types, buffer mapping) and frame-in-flight
  bookkeeping, window and application lifecycles, loader routing by file
  extension, and the RGBA conversion of glTF images.
- `app/` is the rest of the engine, unverified: the winit event loops, the wgpu
  and ash rendering code, transforms and scene nodes (floating point), and glTF
  and image decoding. It calls the library for every decision listed above.
- `tests/` runs the library on concrete values.

Shader programs are read at run time from the directory named by
`EREN_SHADER_DIR`, or from `shaders/`.
