# handwriting

A handwriting engine, written and verified in Verus: touch samples become stroke
points, stroke points become ink meshes, text becomes glyphs and strokes, and a
procedural sheet of paper lies below.

- `src/` is the library. Every function states what it computes and is proved to
  compute it, but for the few that call an outside crate: what they state of the call
  is taken on trust. The laws of the library stand beside the functions as public
  proof functions.
- `app/` is the engine on a machine: floating-point arithmetic, the Vulkan renderer,
  the C interface, the motion events of Android and the project tasks.
- `tests/` runs the library.

## Numbers

The library holds single- and double-precision numbers by their bit patterns. What
needs no rounding (order, maximum, clamping, sign, conversion to a byte) is computed
and proved on the patterns. Rounded operations, gradient noise and the seeded fibre
direction go through a `FloatUnit` that the caller makes from one function. Contracts
are expressions over the answers of that function, so they hold for every arithmetic
that answers the same operation in the same way each time. The laws that need more,
such as that the tremor of a tired hand stays between one and its cap, say what
rounding they rest on.

## Text

Graphemes come from `unicode-segmentation`, scripts from `unicode-script`, placements
from `harfrust`, font metrics and outlines from `read-fonts`. Each call stands in one small function
whose doc comment says what is taken on trust.
