# sss

Verified integer core of a voxel subsurface-scattering renderer.

`src/` is the Verus library:

- `grid` — Z-Y-X voxel addressing (`index`), saturating and checked voxel
  counts, the generic `Grid<V>` storage (`init`, `set`, `fill_with`) and the
  scan `fill_voxels`, with the laws that tie slots to coordinates.
- `sampling` — progressive sample accounting (`SampleCounter`) and the
  redraw / idle decisions of the viewer.
- `controls` — key bindings of the camera and the window-event decision.
- `framebuffer` — framebuffer and texture sizing, RGBA packing and the byte
  threshold search used to quantize a channel.
- `launch` — kernel launch shapes and kernel argument conversions.
- `orbital` — the integer structure of the hydrogen-like orbital
  (Laguerre factorial ratios, Legendre recurrence factors, normalization).
- `scene` — scene selection and the location of a scene's configuration.
- `saturate` — saturating products and clamps shared by the modules above.

`app/` is the CUDA / winit program around the library: configuration loading,
floating-point shading and camera math, GPU resources and kernel launches.
`tests/` exercises the library on concrete values.
