# dioxus-components

Verified interaction logic for accessible Dioxus components, written in
Verus.

- `src/` is the verified library:
  - `text`: characters of strings, common prefixes, and the mapping between
    character positions and the UTF-16 offsets that browser selections use;
  - `otp_edit`: how a one-time-password input turns the raw value of its
    hidden `<input>` into the next value and caret;
  - `otp_slot`: the active slot, pointer-drag slot selection, and what each
    slot shows;
  - `otp_input`: the input's state machine (focus, caret, selection, drags,
    validation of entries) and the effects each event asks for;
  - `context_menu`: open state, long press, keyboard focus moves and item
    selection of the context menu;
  - `preview`: routes, titles, search and variant choice of the component
    gallery site.
- `tests/` exercises the library on concrete values.
- `app/` holds the Dioxus components that wire the library to the DOM:
  the one-time-password input, the context menu, and the gallery site.
