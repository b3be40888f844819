# rs-sc

A screenshot translator: press a hotkey, drag a rectangle, and a multimodal model translates the
text in it; or ask a question about it by handwriting.

`src/` is the library, verified with Verus. It holds no I/O: it decides, and a shell performs.

- `capture`, `pixels`, `capture_window`: cropping and PNG encoding, the overlay's frames and its
  reactions to pointer, keys and commands
- `llm_translate`, `exchange`, `thinking`, `ocr`: the calls to the model and what a reply comes to
- `settings`, `hotkeys`: where a value comes from, how a settings file is written, how hotkeys
  change hands
- `pipeline`, `ink`, `placement`: a capture and a question step by step, and where windows go
- `encoding`, `text`, `error`, `models`: what the others share

Each module states its laws as public proof functions named `law_...`. Calls into the `base64` and
`image` crates, and into a few functions of the standard library, stand behind small trusted
items whose comments say what is claimed of them.

`app/` is the desktop program around the library; `tests/` runs the library.
