# gwatson

The verified core of a GTK logic-puzzle game's clue panels and main window.

- `src/model.rs`: the plain-value puzzle types the panels read (tiles, clues, sizes,
  difficulty).
- `src/template.rs`: clue description templates, where `{tN}` names tile `N`: a parser
  from text to labels and tile references, a writer back to text, and the proof that
  writing and then parsing well-formed pieces gives them back.
- `src/description.rs`: the description of each kind of clue, and the proof that every
  description parses back to its pieces.
- `src/clue_ui.rs`: the state of one clue slot (its three cells, visibility, group and
  completion styling, tooltip items, requested size).
- `src/window.rs`: the window's decisions (hint and submit buttons, rewind answer,
  difficulty selector positions).
- `app/`: the GTK widgets that show this state and perform these decisions.
- `tests/`: tests of the library on concrete values.
