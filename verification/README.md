# uefi_demo

A UEFI graphics demo. The verified library (`src/`) computes every image the
demo shows and the decisions of its keyboard loop:

- `frame`: animation frames (800x800 RGB, red channel = step).
- `text_data`: the RGB image type, the colour test pattern, placement.
- `mono`: black-on-white bitmap-font text lines.
- `gray`: three lines of 8-level gray bitmap-font text and their captions.
- `canvas`: a growing black canvas for anti-aliased text.
- `label`: the two-line 300-pixel label.
- `keys`: the keyboard echo loop as a state machine.
- `pixel`: index arithmetic of row-major RGB buffers.

`app/` is the UEFI program: protocol setup, drawing on the display, the
rusttype glyph layout (floating point) and the key event loop. It needs the
font tables `bitmap`, `characters`, `gray8` and the font file
`WenQuanYiMicroHei.ttf`.
