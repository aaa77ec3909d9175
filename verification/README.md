# hyprviz

Verified parsing and printing of the values that a Hyprland configuration
holds: directions, layouts, fullscreen states, bind flags, gaps, font weights,
colours, gradients, border colours and more. Each value type reads the text
that stands in `hyprland.conf` and writes it back, and both directions are
specified with Verus over sequences of chars.

## Layout

- `src/text.rs`: whitespace trimming as `str::trim` does it, ASCII case
  folding, splitting on a char and on whitespace, building strings.
- `src/num.rs`: reading numbers as `str::parse` and `from_str_radix` do, and
  writing them in decimal and in hex.
- `src/hyprland/`: one module per value type, each with its `from_str`,
  `to_string` and the laws that tie them together (what is written reads back
  as the same value, numbers and names map to each other).
- `app/`: what rests on floating-point numbers: the fractional alpha of
  `rgba(r,g,b,x)` colours, Bézier curves, and float-valued settings.
- `tests/`: concrete cases for each value type.
